//! Decisions of the `netplan` command line: the interactive tokenizer, the
//! daemon lifecycle, and the checks of JSON-RPC parameters.

use vstd::prelude::*;

use crate::checks::mac_compact;
use crate::model::AdapterInfo;
use crate::plan::Operation;
use crate::protocol::{ErrorCode, JobState, Request, Response};
use crate::config::ConfigFormat;
use crate::text;
use crate::text::{append, debug_string, debug_text, dec, decimal, owned};

verus! {

// ---------------------------------------------------------------------------
// Interactive tokenizer
// ---------------------------------------------------------------------------

/// Quoting state of the tokenizer.
#[derive(Clone, Copy, Debug, PartialEq, Eq, Structural)]
pub enum Quote {
    /// Outside quotes.
    Unquoted,
    /// Inside single quotes: everything is literal.
    Single,
    /// Inside double quotes.
    Double,
}

/// Whether a backslash before `next` escapes it in quoting state `q`.
pub open spec fn escapes(q: Quote, next: char) -> bool {
    next == '\\' || (q == Quote::Double && next == '"') || (q == Quote::Unquoted && (next == '\''
        || next == '"' || text::is_whitespace(next)))
}

/// The words finished so far plus the current word, if it is not empty.
pub open spec fn with_word(words: Seq<Seq<char>>, word: Seq<char>) -> Seq<Seq<char>> {
    if word.len() > 0 {
        words.push(word)
    } else {
        words
    }
}

/// Splits the rest of a line into words, given the quoting state, the current
/// word and the words already finished.
pub open spec fn lex(cs: Seq<char>, q: Quote, word: Seq<char>, words: Seq<Seq<char>>) -> Result<
    Seq<Seq<char>>,
    Seq<char>,
>
    decreases cs.len(),
{
    if cs.len() == 0 {
        if q != Quote::Unquoted {
            Err("unterminated quoted argument"@)
        } else {
            Ok(with_word(words, word))
        }
    } else {
        let c = cs[0];
        let rest = cs.drop_first();
        if q == Quote::Unquoted && c == '\'' {
            lex(rest, Quote::Single, word, words)
        } else if q == Quote::Unquoted && c == '"' {
            lex(rest, Quote::Double, word, words)
        } else if (q == Quote::Single && c == '\'') || (q == Quote::Double && c == '"') {
            lex(rest, Quote::Unquoted, word, words)
        } else if q == Quote::Unquoted && text::is_whitespace(c) {
            lex(rest, Quote::Unquoted, Seq::empty(), with_word(words, word))
        } else if q == Quote::Single {
            lex(rest, q, word.push(c), words)
        } else if c == '\\' {
            if rest.len() > 0 && escapes(q, rest[0]) {
                lex(rest.drop_first(), q, word.push(rest[0]), words)
            } else {
                lex(rest, q, word.push('\\'), words)
            }
        } else {
            lex(rest, q, word.push(c), words)
        }
    }
}

/// The words of a line, after an optional byte-order mark.
pub open spec fn command_words(line: Seq<char>) -> Result<Seq<Seq<char>>, Seq<char>> {
    let cs = if line.len() > 0 && line[0] == '\u{feff}' {
        line.drop_first()
    } else {
        line
    };
    lex(cs, Quote::Unquoted, Seq::empty(), Seq::empty())
}

/// Splits an interactive command line into words: whitespace separates
/// words, quotes group them, and a backslash escapes a quote, a backslash or
/// whitespace where that is meaningful.
pub fn split_command_line(line: &str) -> (r: Result<Vec<String>, String>)
    ensures
        match r {
            Ok(words) => command_words(line@) == Ok::<Seq<Seq<char>>, Seq<char>>(
                words@.map_values(|w: String| w@),
            ),
            Err(m) => command_words(line@) == Err::<Seq<Seq<char>>, Seq<char>>(m@),
        },
{
    let chars = text::chars_of(line);
    let n = chars.len();
    let mut i: usize = if n > 0 && chars[0] == '\u{feff}' {
        1
    } else {
        0
    };
    let ghost cs = chars@.skip(i as int);
    proof {
        if i == 1 {
            assert(cs =~= line@.drop_first());
        } else {
            assert(cs =~= line@);
        }
    }
    let mut words: Vec<String> = Vec::new();
    let mut word: Vec<char> = Vec::new();
    let mut q = Quote::Unquoted;
    proof {
        assert(words@.map_values(|w: String| w@) =~= Seq::<Seq<char>>::empty());
        assert(word@ =~= Seq::<char>::empty());
    }
    while i < n
        invariant
            n == chars@.len(),
            chars@ == line@,
            i <= n,
            command_words(line@) == lex(
                chars@.skip(i as int),
                q,
                word@,
                words@.map_values(|w: String| w@),
            ),
        decreases n - i,
    {
        let c = chars[i];
        let ghost ws = words@.map_values(|w: String| w@);
        let ghost rest = chars@.skip(i + 1);
        proof {
            assert(chars@.skip(i as int).drop_first() =~= rest);
            assert(chars@.skip(i as int)[0] == c);
        }
        if q == Quote::Unquoted && c == '\'' {
            q = Quote::Single;
            i = i + 1;
        } else if q == Quote::Unquoted && c == '"' {
            q = Quote::Double;
            i = i + 1;
        } else if (q == Quote::Single && c == '\'') || (q == Quote::Double && c == '"') {
            q = Quote::Unquoted;
            i = i + 1;
        } else if q == Quote::Unquoted && text::char_is_whitespace(c) {
            if word.len() > 0 {
                let w = text::string_of(&word);
                words.push(w);
                proof {
                    assert(words@.map_values(|w: String| w@) =~= ws.push(word@));
                }
            }
            word = Vec::new();
            i = i + 1;
        } else if q == Quote::Single {
            word.push(c);
            i = i + 1;
        } else if c == '\\' {
            if i + 1 < n && is_escaped(q, chars[i + 1]) {
                proof {
                    assert(rest[0] == chars@[i + 1]);
                    assert(rest.drop_first() =~= chars@.skip(i + 2));
                }
                word.push(chars[i + 1]);
                i = i + 2;
            } else {
                word.push('\\');
                i = i + 1;
            }
        } else {
            word.push(c);
            i = i + 1;
        }
    }
    proof {
        assert(chars@.skip(i as int) =~= Seq::<char>::empty());
    }
    if q != Quote::Unquoted {
        return Err(owned("unterminated quoted argument"));
    }
    if word.len() > 0 {
        let ghost ws = words@.map_values(|w: String| w@);
        let w = text::string_of(&word);
        words.push(w);
        proof {
            assert(words@.map_values(|w: String| w@) =~= ws.push(word@));
        }
    }
    Ok(words)
}

fn is_escaped(q: Quote, next: char) -> (r: bool)
    ensures
        r == escapes(q, next),
{
    next == '\\' || (q == Quote::Double && next == '"') || (q == Quote::Unquoted && (next == '\''
        || next == '"' || text::char_is_whitespace(next)))
}

// ---------------------------------------------------------------------------
// Daemon lifecycle
// ---------------------------------------------------------------------------

/// Daemon lifecycle command.
#[derive(Clone, Copy, Debug, PartialEq, Eq, Structural)]
pub enum LifecycleAction {
    /// Install the Windows service for automatic startup and start it.
    Enable,
    /// Stop the daemon and remove the Windows service.
    Disable,
    /// Start the daemon.
    Start,
    /// Stop the daemon.
    Stop,
}

/// Outcome of a lifecycle command.
#[derive(Debug, PartialEq, Eq)]
pub struct LifecycleResult {
    /// Command name.
    pub action: &'static str,
    /// `windows-service` or `background-process`.
    pub mode: &'static str,
    /// Whether the Windows service is installed afterwards.
    pub installed: bool,
    /// `running` or `stopped`.
    pub state: &'static str,
    /// Human-readable details.
    pub message: String,
}

/// Result of enabling the Windows service.
pub fn enabled_result() -> (r: LifecycleResult)
    ensures
        r.action@ == "enable"@,
        r.mode@ == "windows-service"@,
        r.installed,
        r.state@ == "running"@,
        r.message@ == "installed for automatic startup and started"@,
{
    LifecycleResult {
        action: "enable",
        mode: "windows-service",
        installed: true,
        state: "running",
        message: owned("installed for automatic startup and started"),
    }
}

/// Result of disabling the Windows service.
pub fn disabled_result() -> (r: LifecycleResult)
    ensures
        r.action@ == "disable"@,
        r.mode@ == "windows-service"@,
        !r.installed,
        r.state@ == "stopped"@,
        r.message@ == "stopped and removed from automatic startup"@,
{
    LifecycleResult {
        action: "disable",
        mode: "windows-service",
        installed: false,
        state: "stopped",
        message: owned("stopped and removed from automatic startup"),
    }
}

/// Result of starting: through the installed service, by finding the daemon
/// running already, or by spawning it in the background.
pub fn started_result(through_service: bool, already_running: bool) -> (r: LifecycleResult)
    ensures
        r.action@ == "start"@,
        r.state@ == "running"@,
        r.installed == through_service,
        through_service ==> r.mode@ == "windows-service"@ && r.message@
            == "Windows service is running"@,
        !through_service ==> r.mode@ == "background-process"@,
        !through_service && already_running ==> r.message@ == "daemon was already running"@,
        !through_service && !already_running ==> r.message@
            == "started sibling netpland in the background"@,
{
    if through_service {
        LifecycleResult {
            action: "start",
            mode: "windows-service",
            installed: true,
            state: "running",
            message: owned("Windows service is running"),
        }
    } else if already_running {
        LifecycleResult {
            action: "start",
            mode: "background-process",
            installed: false,
            state: "running",
            message: owned("daemon was already running"),
        }
    } else {
        LifecycleResult {
            action: "start",
            mode: "background-process",
            installed: false,
            state: "running",
            message: owned("started sibling netpland in the background"),
        }
    }
}

/// Result of stopping, with or without an installed service.
pub fn stopped_result(installed: bool) -> (r: LifecycleResult)
    ensures
        r.action@ == "stop"@,
        r.state@ == "stopped"@,
        r.installed == installed,
        installed ==> r.mode@ == "windows-service"@ && r.message@
            == "Windows service is stopped; automatic startup remains enabled"@,
        !installed ==> r.mode@ == "background-process"@ && r.message@
            == "background daemon is stopped"@,
{
    if installed {
        LifecycleResult {
            action: "stop",
            mode: "windows-service",
            installed: true,
            state: "stopped",
            message: owned("Windows service is stopped; automatic startup remains enabled"),
        }
    } else {
        LifecycleResult {
            action: "stop",
            mode: "background-process",
            installed: false,
            state: "stopped",
            message: owned("background daemon is stopped"),
        }
    }
}

pub(crate) fn str_equal(a: &str, b: &str) -> (r: bool)
    ensures
        r == (a@ == b@),
{
    let x = owned(a);
    let y = owned(b);
    x == y
}

/// Service installation works only through the default endpoint.
pub fn require_default_service_endpoint(endpoint: &str, service_endpoint: &str) -> (r: Result<
    (),
    String,
>)
    ensures
        endpoint@ == service_endpoint@ ==> r is Ok,
        endpoint@ != service_endpoint@ ==> (r matches Err(m) && m@
            == "Windows service installation uses the default endpoint "@ + debug_text(
            service_endpoint@,
        ) + "; remove --endpoint for enable/disable"@),
{
    if str_equal(endpoint, service_endpoint) {
        Ok(())
    } else {
        let mut m = owned("Windows service installation uses the default endpoint ");
        let d = debug_string(service_endpoint);
        append(&mut m, d.as_str());
        append(&mut m, "; remove --endpoint for enable/disable");
        Err(m)
    }
}

/// Command line of the Windows service: the quoted daemon path and the
/// service flag.
pub fn service_command(program: &str) -> (r: String)
    ensures
        r@ == "\""@ + program@ + "\" --service"@,
{
    let mut r = owned("\"");
    append(&mut r, program);
    append(&mut r, "\" --service");
    r
}

/// Display name of a lifecycle mode.
pub fn lifecycle_mode_name(mode: &str) -> (r: String)
    ensures
        mode@ == "windows-service"@ ==> r@ == "Windows service"@,
        mode@ == "background-process"@ ==> r@ == "Background process"@,
        mode@ != "windows-service"@ && mode@ != "background-process"@ ==> r@ == mode@,
{
    proof {
        reveal_strlit("windows-service");
        reveal_strlit("background-process");
        assert("windows-service"@.len() != "background-process"@.len());
    }
    if str_equal(mode, "windows-service") {
        owned("Windows service")
    } else if str_equal(mode, "background-process") {
        owned("Background process")
    } else {
        owned(mode)
    }
}

// ---------------------------------------------------------------------------
// JSON-RPC parameters
// ---------------------------------------------------------------------------

/// A JSON-RPC failure: its code, message, and the text of its data member.
#[derive(Clone, Debug, PartialEq, Eq)]
pub struct RpcFailure {
    /// JSON-RPC error code.
    pub code: i64,
    /// Error message.
    pub message: String,
    /// Diagnostic carried as the data member, when there is one.
    pub data: Option<String>,
}

/// `Invalid params` with a diagnostic.
pub fn invalid_params(detail: String) -> (r: RpcFailure)
    ensures
        r.code == -32602,
        r.message@ == "Invalid params"@,
        r.data.deep_view() == Some(detail@),
{
    RpcFailure { code: -32602, message: owned("Invalid params"), data: Some(detail) }
}

/// Refuses a blank text parameter.
pub fn require_non_empty(field: &str, value: &str) -> (r: Result<(), RpcFailure>)
    ensures
        !text::blank(value@) ==> r is Ok,
        text::blank(value@) ==> (r matches Err(f) && f.code == -32602 && f.data.deep_view() == Some(
            field@ + " must not be empty"@,
        )),
{
    if text::str_is_blank(value) {
        let mut m = owned(field);
        append(&mut m, " must not be empty");
        Err(invalid_params(m))
    } else {
        Ok(())
    }
}

/// Refuses a number outside `minimum..=maximum`.
pub fn validate_range(field: &str, value: u64, minimum: u64, maximum: u64) -> (r: Result<
    (),
    RpcFailure,
>)
    ensures
        minimum <= value <= maximum ==> r is Ok,
        !(minimum <= value <= maximum) ==> (r matches Err(f) && f.code == -32602
            && f.data.deep_view() == Some(
            field@ + " must be between "@ + dec(minimum as nat) + " and "@ + dec(maximum as nat),
        )),
{
    if minimum <= value && value <= maximum {
        Ok(())
    } else {
        let mut m = owned(field);
        append(&mut m, " must be between ");
        let a = decimal(minimum);
        append(&mut m, a.as_str());
        append(&mut m, " and ");
        let b = decimal(maximum);
        append(&mut m, b.as_str());
        Err(invalid_params(m))
    }
}

/// Document format named by a JSON-RPC parameter.
pub fn parse_config_format(value: &str) -> (r: Result<ConfigFormat, RpcFailure>)
    ensures
        value@ == "auto"@ ==> r == Ok::<ConfigFormat, RpcFailure>(ConfigFormat::Auto),
        value@ == "yaml"@ || value@ == "yml"@ ==> r == Ok::<ConfigFormat, RpcFailure>(ConfigFormat::Yaml),
        value@ == "json"@ ==> r == Ok::<ConfigFormat, RpcFailure>(ConfigFormat::Json),
        !(value@ == "auto"@ || value@ == "yaml"@ || value@ == "yml"@ || value@ == "json"@) ==> (r matches Err(f)
            && f.code == -32602 && f.data.deep_view() == Some(
            "unknown configuration format "@ + debug_text(value@),
        )),
{
    proof {
        reveal_strlit("auto");
        reveal_strlit("yaml");
        reveal_strlit("yml");
        reveal_strlit("json");
        assert("auto"@[0] != "yaml"@[0]);
        assert("auto"@[0] != "json"@[0]);
        assert("auto"@.len() != "yml"@.len());
        assert("yaml"@[0] != "json"@[0]);
        assert("yml"@.len() != "json"@.len());
    }
    if str_equal(value, "auto") {
        Ok(ConfigFormat::Auto)
    } else if str_equal(value, "yaml") || str_equal(value, "yml") {
        Ok(ConfigFormat::Yaml)
    } else if str_equal(value, "json") {
        Ok(ConfigFormat::Json)
    } else {
        let mut m = owned("unknown configuration format ");
        let d = debug_string(value);
        append(&mut m, d.as_str());
        Err(invalid_params(m))
    }
}

/// Whether a job state is final.
pub open spec fn terminal(state: JobState) -> bool {
    state == JobState::Succeeded || state == JobState::Failed || state == JobState::RolledBack
}

/// Whether a job state is final: succeeded, failed or rolled back.
pub fn is_terminal_job_state(state: JobState) -> (r: bool)
    ensures
        r == terminal(state),
{
    match state {
        JobState::Succeeded | JobState::Failed | JobState::RolledBack => true,
        JobState::Queued | JobState::Running => false,
    }
}

/// Stable name of a daemon error code.
pub open spec fn error_code_text(code: ErrorCode) -> Seq<char> {
    match code {
        ErrorCode::InvalidRequest => "invalid_request"@,
        ErrorCode::InvalidConfig => "invalid_config"@,
        ErrorCode::Unsupported => "unsupported"@,
        ErrorCode::PermissionDenied => "permission_denied"@,
        ErrorCode::NotFound => "not_found"@,
        ErrorCode::Internal => "internal"@,
    }
}

pub fn error_code_name(code: ErrorCode) -> (r: &'static str)
    ensures
        r@ == error_code_text(code),
{
    match code {
        ErrorCode::InvalidRequest => "invalid_request",
        ErrorCode::InvalidConfig => "invalid_config",
        ErrorCode::Unsupported => "unsupported",
        ErrorCode::PermissionDenied => "permission_denied",
        ErrorCode::NotFound => "not_found",
        ErrorCode::Internal => "internal",
    }
}

/// JSON-RPC code of a daemon rejection: not found, or a generic daemon error.
pub fn daemon_error_code(code: ErrorCode) -> (r: i64)
    ensures
        code == ErrorCode::NotFound ==> r == -32004,
        code != ErrorCode::NotFound ==> r == -32010,
{
    if code == ErrorCode::NotFound {
        -32004
    } else {
        -32010
    }
}

/// Adapter matchers of `netplan.adapter.get`.
#[derive(Clone, Debug, PartialEq, Eq)]
pub struct AdapterSelectorParams {
    /// Windows interface index.
    pub if_index: Option<u32>,
    /// Friendly name, compared ignoring ASCII case.
    pub name: Option<String>,
    /// Adapter GUID, compared ignoring ASCII case.
    pub guid: Option<String>,
    /// MAC address in any separator style.
    pub mac_address: Option<String>,
    /// Case-insensitive description substring.
    pub description_contains: Option<String>,
}

/// Lowercase hexadecimal digits of a MAC address written with `:` or `-`
/// separators, when it has exactly twelve.
pub open spec fn normalized_mac(s: Seq<char>) -> Option<Seq<char>> {
    let digits = mac_compact(s);
    if (forall|i: int| 0 <= i < s.len() ==> text::is_ascii_hex(#[trigger] s[i]) || s[i] == ':'
        || s[i] == '-') && digits.len() == 12 {
        Some(text::lower(digits))
    } else {
        None
    }
}

/// Normalizes a MAC address to twelve lowercase hexadecimal digits.
pub fn normalize_mac(value: &str) -> (r: Option<String>)
    ensures
        r.deep_view() == normalized_mac(value@),
{
    let chars = text::chars_of(value);
    let mut out: Vec<char> = Vec::new();
    let n = chars.len();
    for i in 0..n
        invariant
            n == chars@.len(),
            chars@ == value@,
            out@ == text::lower(mac_compact(value@.take(i as int))),
            forall|k: int| 0 <= k < i ==> text::is_ascii_hex(#[trigger] value@[k]) || value@[k] == ':'
                || value@[k] == '-',
    {
        let c = chars[i];
        proof {
            assert(value@.take(i + 1).drop_last() =~= value@.take(i as int));
        }
        if text::char_is_ascii_hex(c) {
            out.push(text::char_ascii_lower(c));
            proof {
                assert(text::lower(mac_compact(value@.take(i + 1))) =~= text::lower(
                    mac_compact(value@.take(i as int)),
                ).push(text::ascii_lower(c)));
            }
        } else if c != ':' && c != '-' {
            proof {
                assert(!text::is_ascii_hex(value@[i as int]));
            }
            return None;
        } else {
            proof {
                assert(mac_compact(value@.take(i + 1)) =~= mac_compact(value@.take(i as int)));
            }
        }
    }
    proof {
        assert(value@.take(n as int) =~= value@);
    }
    if out.len() == 12 {
        Some(text::string_of(&out))
    } else {
        None
    }
}

/// Why a selector of `netplan.adapter.get` is refused, if it is.
pub open spec fn selector_params_problem(p: AdapterSelectorParams) -> Option<Seq<char>> {
    if p.if_index is None && p.name is None && p.guid is None && p.mac_address is None
        && p.description_contains is None {
        Some("at least one adapter selector is required"@)
    } else if p.name matches Some(v) && text::blank(v@) {
        Some("name"@ + " must not be empty"@)
    } else if p.guid matches Some(v) && text::blank(v@) {
        Some("guid"@ + " must not be empty"@)
    } else if p.mac_address matches Some(v) && text::blank(v@) {
        Some("mac_address"@ + " must not be empty"@)
    } else if p.description_contains matches Some(v) && text::blank(v@) {
        Some("description_contains"@ + " must not be empty"@)
    } else if p.mac_address matches Some(v) && normalized_mac(v@) is None {
        Some("mac_address must contain exactly 12 hexadecimal digits"@)
    } else {
        None
    }
}

fn check_present(field: &str, value: &Option<String>) -> (r: Result<(), RpcFailure>)
    ensures
        match value {
            Some(v) => (!text::blank(v@) ==> r is Ok) && (text::blank(v@) ==> (r matches Err(f)
                && f.code == -32602 && f.data.deep_view() == Some(field@ + " must not be empty"@))),
            None => r is Ok,
        },
{
    match value {
        Some(v) => require_non_empty(field, v.as_str()),
        None => Ok(()),
    }
}

/// Checks the matchers of `netplan.adapter.get`.
pub fn validate_adapter_selector(p: &AdapterSelectorParams) -> (r: Result<(), RpcFailure>)
    ensures
        match selector_params_problem(*p) {
            None => r is Ok,
            Some(m) => r matches Err(f) && f.code == -32602 && f.data.deep_view() == Some(m),
        },
{
    if p.if_index.is_none() && p.name.is_none() && p.guid.is_none() && p.mac_address.is_none()
        && p.description_contains.is_none() {
        return Err(invalid_params(owned("at least one adapter selector is required")));
    }
    check_present("name", &p.name)?;
    check_present("guid", &p.guid)?;
    check_present("mac_address", &p.mac_address)?;
    check_present("description_contains", &p.description_contains)?;
    if let Some(mac) = &p.mac_address {
        if normalize_mac(mac.as_str()).is_none() {
            return Err(
                invalid_params(owned("mac_address must contain exactly 12 hexadecimal digits")),
            );
        }
    }
    Ok(())
}

/// `needle` occurs in `hay`.
pub open spec fn contains_text(hay: Seq<char>, needle: Seq<char>) -> bool {
    exists|i: int| 0 <= i && i + needle.len() <= hay.len() && #[trigger] hay.subrange(i, i + needle.len()) == needle
}

pub(crate) fn chars_contain(hay: &Vec<char>, needle: &Vec<char>) -> (r: bool)
    ensures
        r == contains_text(hay@, needle@),
{
    let h = hay.len();
    let n = needle.len();
    if n == 0 {
        assert(hay@.subrange(0, 0 + needle@.len() as int) =~= needle@);
        return true;
    }
    if n > h {
        return false;
    }
    for i in 0..(h - n + 1)
        invariant
            h == hay@.len(),
            n == needle@.len(),
            1 <= n <= h,
            forall|k: int| 0 <= k < i ==> #[trigger] hay@.subrange(k, k + n) != needle@,
    {
        let mut same = true;
        for j in 0..n
            invariant
                h == hay@.len(),
                n == needle@.len(),
                i + n <= h,
                same == (forall|k: int| 0 <= k < j ==> hay@[i + k] == needle@[k]),
        {
            if hay[i + j] != needle[j] {
                same = false;
            }
        }
        if same {
            assert(hay@.subrange(i as int, i + n) =~= needle@);
            return true;
        }
        proof {
            if hay@.subrange(i as int, i + n) == needle@ {
                assert forall|k: int| 0 <= k < n implies hay@[i + k] == needle@[k] by {
                    assert(hay@.subrange(i as int, i + n)[k] == hay@[i + k]);
                }
            }
        }
    }
    proof {
        assert forall|k: int| 0 <= k && k + n <= h implies #[trigger] hay@.subrange(k, k + n) != needle@ by {
            assert(k < h - n + 1);
        }
    }
    false
}

/// An adapter satisfies every supplied matcher of a selector.
pub open spec fn adapter_selected(a: AdapterInfo, s: AdapterSelectorParams) -> bool {
    &&& (s.if_index matches Some(i) ==> a.if_index == i)
    &&& (s.name matches Some(n) ==> text::eq_ignore_case(a.name@, n@))
    &&& (s.guid matches Some(g) ==> (a.guid matches Some(c) && text::eq_ignore_case(c@, g@)))
    &&& (s.mac_address matches Some(m) ==> (a.mac_address matches Some(c) && normalized_mac(c@) is Some
        && normalized_mac(c@) == normalized_mac(m@)))
    &&& (s.description_contains matches Some(d) ==> (a.description matches Some(c) && contains_text(
        text::lower_text(c@),
        text::lower_text(d@),
    )))
}

/// For ASCII text, the description match is an ASCII case-insensitive
/// substring test: it compares the ASCII-lowercased texts, so texts that
/// differ only in ASCII case match alike.
pub proof fn lemma_description_match_ignores_ascii_case(c: Seq<char>, c2: Seq<char>, d: Seq<char>, d2: Seq<char>)
    requires
        text::all_ascii(c),
        text::all_ascii(c2),
        text::all_ascii(d),
        text::all_ascii(d2),
        text::lower(c) == text::lower(c2),
        text::lower(d) == text::lower(d2),
    ensures
        contains_text(text::lower_text(c), text::lower_text(d)) == contains_text(text::lower(c), text::lower(d)),
        contains_text(text::lower_text(c), text::lower_text(d)) == contains_text(
            text::lower_text(c2),
            text::lower_text(d2),
        ),
{
}

/// Whether an adapter satisfies every supplied matcher of a selector.
pub fn adapter_matches(a: &AdapterInfo, s: &AdapterSelectorParams) -> (r: bool)
    ensures
        r == adapter_selected(*a, *s),
{
    if let Some(i) = s.if_index {
        if a.if_index != i {
            return false;
        }
    }
    if let Some(n) = &s.name {
        if !text::str_eq_ignore_case(a.name.as_str(), n.as_str()) {
            return false;
        }
    }
    if let Some(g) = &s.guid {
        match &a.guid {
            Some(c) => if !text::str_eq_ignore_case(c.as_str(), g.as_str()) {
                return false;
            },
            None => return false,
        }
    }
    if let Some(m) = &s.mac_address {
        match &a.mac_address {
            Some(c) => {
                let x = normalize_mac(c.as_str());
                let y = normalize_mac(m.as_str());
                match (x, y) {
                    (Some(x), Some(y)) => if x != y {
                        return false;
                    },
                    _ => return false,
                }
            },
            None => return false,
        }
    }
    if let Some(d) = &s.description_contains {
        match &a.description {
            Some(c) => {
                let hay = text::to_lowercase(c.as_str());
                let needle = text::to_lowercase(d.as_str());
                let h = text::chars_of(hay.as_str());
                let n = text::chars_of(needle.as_str());
                if !chars_contain(&h, &n) {
                    return false;
                }
            },
            None => return false,
        }
    }
    true
}

/// The distinct items of a sequence in order of first occurrence.
pub open spec fn first_occurrences(s: Seq<Seq<char>>) -> Seq<Seq<char>>
    decreases s.len(),
{
    if s.len() == 0 {
        s
    } else {
        let d = first_occurrences(s.drop_last());
        if d.contains(s.last()) {
            d
        } else {
            d.push(s.last())
        }
    }
}

/// The capabilities that a plan needs, each once, in order of first use.
pub fn required_capabilities(ops: &Vec<Operation>) -> (r: Vec<String>)
    ensures
        r@.map_values(|c: String| c@) == first_occurrences(ops@.map_values(|o: Operation| o.capability@)),
{
    let ghost caps = ops@.map_values(|o: Operation| o.capability@);
    let mut r: Vec<String> = Vec::new();
    let n = ops.len();
    for i in 0..n
        invariant
            n == ops@.len(),
            caps == ops@.map_values(|o: Operation| o.capability@),
            r@.map_values(|c: String| c@) == first_occurrences(caps.take(i as int)),
    {
        let ghost before = r@.map_values(|c: String| c@);
        proof {
            assert(caps.take(i + 1).drop_last() =~= caps.take(i as int));
            assert(caps.take(i + 1).last() == ops@[i as int].capability@);
        }
        let c = &ops[i].capability;
        let mut seen = false;
        for k in 0..r.len()
            invariant
                before == r@.map_values(|c: String| c@),
                seen == exists|j: int| 0 <= j < k && before[j] == c@,
        {
            proof {
                assert(before[k as int] == r@[k as int]@);
            }
            if r[k] == *c {
                seen = true;
            }
        }
        proof {
            if seen {
                let j = choose|j: int| 0 <= j < r@.len() && before[j] == c@;
                assert(before.contains(c@));
            } else {
                assert(!before.contains(c@));
            }
        }
        if !seen {
            r.push(c.clone());
            proof {
                assert(r@.map_values(|c: String| c@) =~= before.push(ops@[i as int].capability@));
            }
        }
    }
    proof {
        assert(caps.take(n as int) =~= caps);
    }
    r
}

/// The first occurrences hold every item, each once.
pub proof fn lemma_first_occurrences(s: Seq<Seq<char>>)
    ensures
        forall|i: int, j: int|
            0 <= i < j < first_occurrences(s).len() ==> first_occurrences(s)[i] != first_occurrences(s)[j],
        forall|x: Seq<char>| s.contains(x) <==> first_occurrences(s).contains(x),
    decreases s.len(),
{
    if s.len() > 0 {
        lemma_first_occurrences(s.drop_last());
        let d = first_occurrences(s.drop_last());
        let f = first_occurrences(s);
        assert forall|x: Seq<char>| s.contains(x) <==> f.contains(x) by {
            if s.contains(x) {
                let k = choose|k: int| 0 <= k < s.len() && s[k] == x;
                if k < s.len() - 1 {
                    assert(s.drop_last()[k] == x);
                    assert(s.drop_last().contains(x));
                    assert(d.contains(x));
                    let m = choose|m: int| 0 <= m < d.len() && d[m] == x;
                    assert(f[m] == x);
                } else if d.contains(x) {
                    let m = choose|m: int| 0 <= m < d.len() && d[m] == x;
                    assert(f[m] == x);
                } else {
                    assert(f[d.len() as int] == x);
                }
                assert(f.contains(x));
            }
            if f.contains(x) {
                let k = choose|k: int| 0 <= k < f.len() && f[k] == x;
                if k < d.len() {
                    assert(d[k] == x);
                    assert(d.contains(x));
                    assert(s.drop_last().contains(x));
                    let m = choose|m: int| 0 <= m < s.drop_last().len() && s.drop_last()[m] == x;
                    assert(s[m] == x);
                } else {
                    assert(s[s.len() - 1] == x);
                }
                assert(s.contains(x));
            }
        }
    }
}


// ---------------------------------------------------------------------------
// JSON-RPC methods with typed parameters
// ---------------------------------------------------------------------------

/// `Method not found`.
pub fn method_not_found() -> (r: RpcFailure)
    ensures
        r.code == -32601,
        r.message@ == "Method not found"@,
        r.data is None,
{
    RpcFailure { code: -32601, message: owned("Method not found"), data: None }
}

/// `netplan.wifi.scan`: scan with a refresh by default and a timeout of 4000
/// milliseconds unless another between 250 and 15000 is given.
pub fn wifi_scan_request(if_index: Option<u32>, refresh: Option<bool>, timeout_ms: Option<u32>) -> (r: Result<
    Request,
    RpcFailure,
>)
    ensures
        ({
            let t = match timeout_ms {
                Some(t) => t,
                None => 4000u32,
            };
            &&& 250 <= t <= 15000 ==> (r matches Ok(Request::WifiScan { if_index: i, refresh: f, timeout_ms: u })
                && i == if_index && f == (match refresh {
                Some(b) => b,
                None => true,
            }) && u == t)
            &&& !(250 <= t <= 15000) ==> (r matches Err(e) && e.code == -32602 && e.data.deep_view() == Some(
                "timeout_ms"@ + " must be between "@ + dec(250) + " and "@ + dec(15000),
            ))
        }),
{
    let t = match timeout_ms {
        Some(t) => t,
        None => 4000,
    };
    if let Err(e) = validate_range("timeout_ms", t as u64, 250, 15000) {
        return Err(e);
    }
    let f = match refresh {
        Some(b) => b,
        None => true,
    };
    Ok(Request::WifiScan { if_index, refresh: f, timeout_ms: t })
}

/// `netplan.job.get`: the status of one job, named by a non-blank identifier.
pub fn job_get_request(job_id: String) -> (r: Result<Request, RpcFailure>)
    ensures
        !text::blank(job_id@) ==> (r matches Ok(Request::JobStatus { job_id: id }) && id@ == job_id@),
        text::blank(job_id@) ==> (r matches Err(e) && e.code == -32602 && e.data.deep_view() == Some(
            "job_id"@ + " must not be empty"@,
        )),
{
    if let Err(e) = require_non_empty("job_id", job_id.as_str()) {
        return Err(e);
    }
    Ok(Request::JobStatus { job_id })
}

/// `netplan.job.list`: jobs in a state, at most 100 unless another limit
/// between 1 and 1000 is given.
pub fn job_list_request(state: Option<JobState>, limit: Option<u32>) -> (r: Result<Request, RpcFailure>)
    ensures
        ({
            let l = match limit {
                Some(l) => l,
                None => 100u32,
            };
            &&& 1 <= l <= 1000 ==> r == Ok::<Request, RpcFailure>(Request::ListJobs { state, limit: l })
            &&& !(1 <= l <= 1000) ==> (r matches Err(e) && e.code == -32602 && e.data.deep_view() == Some(
                "limit"@ + " must be between "@ + dec(1) + " and "@ + dec(1000),
            ))
        }),
{
    let l = match limit {
        Some(l) => l,
        None => 100,
    };
    if let Err(e) = validate_range("limit", l as u64, 1, 1000) {
        return Err(e);
    }
    Ok(Request::ListJobs { state, limit: l })
}

/// `netplan.job.wait`: the polling bounds, a timeout of 30000 milliseconds
/// (at most 300000) and an interval of 100 (25 to 5000) unless given, for a
/// non-blank job identifier.
pub fn job_wait_bounds(job_id: &str, timeout_ms: Option<u64>, interval_ms: Option<u64>) -> (r: Result<
    (u64, u64),
    RpcFailure,
>)
    ensures
        ({
            let t = match timeout_ms {
                Some(t) => t,
                None => 30000u64,
            };
            let i = match interval_ms {
                Some(i) => i,
                None => 100u64,
            };
            &&& (!text::blank(job_id@) && 1 <= t <= 300000 && 25 <= i <= 5000) ==> r == Ok::<(u64, u64), RpcFailure>((t, i))
            &&& text::blank(job_id@) ==> (r matches Err(e) && e.data.deep_view() == Some("job_id"@ + " must not be empty"@))
            &&& (!text::blank(job_id@) && !(1 <= t <= 300000)) ==> (r matches Err(e) && e.data.deep_view()
                == Some("timeout_ms"@ + " must be between "@ + dec(1) + " and "@ + dec(300000)))
            &&& (!text::blank(job_id@) && 1 <= t <= 300000 && !(25 <= i <= 5000)) ==> (r matches Err(e)
                && e.data.deep_view() == Some("interval_ms"@ + " must be between "@ + dec(25) + " and "@ + dec(5000)))
            &&& (r matches Err(e) ==> e.code == -32602)
        }),
{
    if let Err(e) = require_non_empty("job_id", job_id) {
        return Err(e);
    }
    let t = match timeout_ms {
        Some(t) => t,
        None => 30000,
    };
    if let Err(e) = validate_range("timeout_ms", t, 1, 300000) {
        return Err(e);
    }
    let i = match interval_ms {
        Some(i) => i,
        None => 100,
    };
    if let Err(e) = validate_range("interval_ms", i, 25, 5000) {
        return Err(e);
    }
    Ok((t, i))
}

/// What `netplan.job.wait` does after one status reply.
#[derive(Clone, Copy, Debug, PartialEq, Eq, Structural)]
pub enum JobWaitStep {
    /// The job reached a final state: answer with the reply.
    Answer,
    /// The reply is not a job status: report it.
    Unexpected,
    /// The wait's time is up: answer `-32002`.
    TimedOut,
    /// Sleep this many milliseconds, then ask again.
    Poll(u64),
}

/// The next step of a job wait, given the status reply and the milliseconds
/// left before its deadline: a final state is answered, another reply is
/// reported, and a job still in progress is asked again after the interval,
/// or after what is left of the wait if that is shorter; with no time left
/// the wait times out.
pub fn job_wait_next(reply: &Response, remaining_ms: u64, interval_ms: u64) -> (r: JobWaitStep)
    ensures
        match reply {
            Response::JobStatus { state, .. } => if terminal(*state) {
                r == JobWaitStep::Answer
            } else if remaining_ms == 0 {
                r == JobWaitStep::TimedOut
            } else {
                r == JobWaitStep::Poll(
                    if interval_ms < remaining_ms {
                        interval_ms
                    } else {
                        remaining_ms
                    },
                )
            },
            _ => r == JobWaitStep::Unexpected,
        },
{
    match reply {
        Response::JobStatus { state, .. } => {
            if is_terminal_job_state(*state) {
                JobWaitStep::Answer
            } else if remaining_ms == 0 {
                JobWaitStep::TimedOut
            } else if interval_ms < remaining_ms {
                JobWaitStep::Poll(interval_ms)
            } else {
                JobWaitStep::Poll(remaining_ms)
            }
        },
        _ => JobWaitStep::Unexpected,
    }
}

/// Whether a job wait may ask for the status: only while time is left.
pub fn job_wait_may_poll(remaining_ms: u64) -> (r: bool)
    ensures
        r == (remaining_ms > 0),
{
    remaining_ms > 0
}

/// The failure of a job wait whose time ran out (`-32002`); the gateway adds
/// the job identifier and the timeout as its data.
pub fn job_wait_timeout() -> (r: RpcFailure)
    ensures
        r.code == -32002,
        r.message@ == "Job wait timed out"@,
        r.data is None,
{
    RpcFailure { code: -32002, message: owned("Job wait timed out"), data: None }
}

} // verus!
