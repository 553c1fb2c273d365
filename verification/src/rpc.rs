//! The methods of the JSON-RPC gateway: which name calls which method, the
//! list that discovery reports, and the checks on a request's envelope.

use vstd::prelude::*;
use vstd::string::StrSliceExecFns;
use vstd::utf8::encode_utf8;

use crate::cli::{
    adapter_matches, adapter_selected, invalid_params, method_not_found, parse_config_format, str_equal,
    AdapterSelectorParams, RpcFailure,
};
use crate::model::{AdapterInfo, Capability};
use crate::oserror::{trim, trimmed};
use crate::text::{chars_of, eq_ignore_case, str_eq_ignore_case, string_of};
use crate::config::ConfigFormat;
use crate::protocol::{ConfigAction, Request, RequestView};
use crate::text::{append, debug_string, debug_text, owned};

verus! {

/// A method of the gateway.
#[derive(Clone, Copy, Debug, PartialEq, Eq, Structural)]
pub enum RpcMethod {
    Ping,
    DaemonStatus,
    Capabilities,
    CapabilityGet,
    AdaptersList,
    AdapterGet,
    Status,
    WifiStatus,
    WifiScan,
    ConfigValidate,
    ConfigPlan,
    ConfigInspect,
    ConfigApply,
    ConfigDescribe,
    ConfigExample,
    JobGet,
    JobList,
    JobWait,
    Discover,
}

/// The name under which each method is called.
pub open spec fn method_name(m: RpcMethod) -> Seq<char> {
    match m {
        RpcMethod::Ping => "netplan.ping"@,
        RpcMethod::DaemonStatus => "netplan.daemon.status"@,
        RpcMethod::Capabilities => "netplan.capabilities"@,
        RpcMethod::CapabilityGet => "netplan.capability.get"@,
        RpcMethod::AdaptersList => "netplan.adapters.list"@,
        RpcMethod::AdapterGet => "netplan.adapter.get"@,
        RpcMethod::Status => "netplan.status"@,
        RpcMethod::WifiStatus => "netplan.wifi.status"@,
        RpcMethod::WifiScan => "netplan.wifi.scan"@,
        RpcMethod::ConfigValidate => "netplan.config.validate"@,
        RpcMethod::ConfigPlan => "netplan.config.plan"@,
        RpcMethod::ConfigInspect => "netplan.config.inspect"@,
        RpcMethod::ConfigApply => "netplan.config.apply"@,
        RpcMethod::ConfigDescribe => "netplan.config.describe"@,
        RpcMethod::ConfigExample => "netplan.config.example"@,
        RpcMethod::JobGet => "netplan.job.get"@,
        RpcMethod::JobList => "netplan.job.list"@,
        RpcMethod::JobWait => "netplan.job.wait"@,
        RpcMethod::Discover => "netplan.rpc.discover"@,
    }
}

/// Every method, in the order that discovery lists them.
pub open spec fn all_methods() -> Seq<RpcMethod> {
    seq![
        RpcMethod::Ping,
        RpcMethod::DaemonStatus,
        RpcMethod::Capabilities,
        RpcMethod::CapabilityGet,
        RpcMethod::AdaptersList,
        RpcMethod::AdapterGet,
        RpcMethod::Status,
        RpcMethod::WifiStatus,
        RpcMethod::WifiScan,
        RpcMethod::ConfigValidate,
        RpcMethod::ConfigPlan,
        RpcMethod::ConfigInspect,
        RpcMethod::ConfigApply,
        RpcMethod::ConfigDescribe,
        RpcMethod::ConfigExample,
        RpcMethod::JobGet,
        RpcMethod::JobList,
        RpcMethod::JobWait,
        RpcMethod::Discover,
    ]
}

/// The method called by a name, if any.
pub open spec fn method_named(name: Seq<char>) -> Option<RpcMethod> {
    if exists|m: RpcMethod| method_name(m) == name {
        Some(choose|m: RpcMethod| method_name(m) == name)
    } else {
        None
    }
}

proof fn lemma_names_distinct()
    ensures
        forall|a: RpcMethod, b: RpcMethod| method_name(a) == method_name(b) ==> a == b,
{
    reveal_strlit("netplan.ping");
    reveal_strlit("netplan.daemon.status");
    reveal_strlit("netplan.capabilities");
    reveal_strlit("netplan.capability.get");
    reveal_strlit("netplan.adapters.list");
    reveal_strlit("netplan.adapter.get");
    reveal_strlit("netplan.status");
    reveal_strlit("netplan.wifi.status");
    reveal_strlit("netplan.wifi.scan");
    reveal_strlit("netplan.config.validate");
    reveal_strlit("netplan.config.plan");
    reveal_strlit("netplan.config.inspect");
    reveal_strlit("netplan.config.apply");
    reveal_strlit("netplan.config.describe");
    reveal_strlit("netplan.config.example");
    reveal_strlit("netplan.job.get");
    reveal_strlit("netplan.job.list");
    reveal_strlit("netplan.job.wait");
    reveal_strlit("netplan.rpc.discover");
    assert forall|a: RpcMethod, b: RpcMethod| method_name(a) == method_name(b) implies a == b by {
        if method_name(a) == method_name(b) && a != b {
            let x = method_name(a);
            let y = method_name(b);
            assert(x.len() == y.len());
            assert(x[8] == y[8]);
            assert(x[9] == y[9]);
            assert(x[10] == y[10]);
            assert(x[11] == y[11]);
            assert(x[12] == y[12]);
            assert(x[13] == y[13]);
            assert(x[14] == y[14]);
            assert(x[15] == y[15]);
            assert(x[x.len() - 1] == y[y.len() - 1]);
            assert(x[x.len() - 2] == y[y.len() - 2]);
            assert(x[x.len() - 3] == y[y.len() - 3]);
        }
    }
}

/// Each method is called by its own name and by no other.
pub proof fn lemma_method_named(m: RpcMethod)
    ensures
        method_named(method_name(m)) == Some(m),
{
    lemma_names_distinct();
    assert(exists|x: RpcMethod| method_name(x) == method_name(m));
}

fn named(name: &str, m: RpcMethod) -> (r: bool)
    ensures
        r == (name@ == method_name(m)),
{
    let expected: &str = match m {
        RpcMethod::Ping => "netplan.ping",
        RpcMethod::DaemonStatus => "netplan.daemon.status",
        RpcMethod::Capabilities => "netplan.capabilities",
        RpcMethod::CapabilityGet => "netplan.capability.get",
        RpcMethod::AdaptersList => "netplan.adapters.list",
        RpcMethod::AdapterGet => "netplan.adapter.get",
        RpcMethod::Status => "netplan.status",
        RpcMethod::WifiStatus => "netplan.wifi.status",
        RpcMethod::WifiScan => "netplan.wifi.scan",
        RpcMethod::ConfigValidate => "netplan.config.validate",
        RpcMethod::ConfigPlan => "netplan.config.plan",
        RpcMethod::ConfigInspect => "netplan.config.inspect",
        RpcMethod::ConfigApply => "netplan.config.apply",
        RpcMethod::ConfigDescribe => "netplan.config.describe",
        RpcMethod::ConfigExample => "netplan.config.example",
        RpcMethod::JobGet => "netplan.job.get",
        RpcMethod::JobList => "netplan.job.list",
        RpcMethod::JobWait => "netplan.job.wait",
        RpcMethod::Discover => "netplan.rpc.discover",
    };
    str_equal(name, expected)
}

/// Every method, in the order that discovery lists them.
pub fn methods() -> (r: Vec<RpcMethod>)
    ensures
        r@ == all_methods(),
{
    let mut v: Vec<RpcMethod> = Vec::new();
    v.push(RpcMethod::Ping);
    v.push(RpcMethod::DaemonStatus);
    v.push(RpcMethod::Capabilities);
    v.push(RpcMethod::CapabilityGet);
    v.push(RpcMethod::AdaptersList);
    v.push(RpcMethod::AdapterGet);
    v.push(RpcMethod::Status);
    v.push(RpcMethod::WifiStatus);
    v.push(RpcMethod::WifiScan);
    v.push(RpcMethod::ConfigValidate);
    v.push(RpcMethod::ConfigPlan);
    v.push(RpcMethod::ConfigInspect);
    v.push(RpcMethod::ConfigApply);
    v.push(RpcMethod::ConfigDescribe);
    v.push(RpcMethod::ConfigExample);
    v.push(RpcMethod::JobGet);
    v.push(RpcMethod::JobList);
    v.push(RpcMethod::JobWait);
    v.push(RpcMethod::Discover);
    assert(v@ =~= all_methods());
    v
}

/// Every method occurs in the discovery list.
pub proof fn lemma_every_method_is_listed(m: RpcMethod)
    ensures
        all_methods().contains(m),
{
    let s = all_methods();
    match m {
        RpcMethod::Ping => assert(s[0] == m),
        RpcMethod::DaemonStatus => assert(s[1] == m),
        RpcMethod::Capabilities => assert(s[2] == m),
        RpcMethod::CapabilityGet => assert(s[3] == m),
        RpcMethod::AdaptersList => assert(s[4] == m),
        RpcMethod::AdapterGet => assert(s[5] == m),
        RpcMethod::Status => assert(s[6] == m),
        RpcMethod::WifiStatus => assert(s[7] == m),
        RpcMethod::WifiScan => assert(s[8] == m),
        RpcMethod::ConfigValidate => assert(s[9] == m),
        RpcMethod::ConfigPlan => assert(s[10] == m),
        RpcMethod::ConfigInspect => assert(s[11] == m),
        RpcMethod::ConfigApply => assert(s[12] == m),
        RpcMethod::ConfigDescribe => assert(s[13] == m),
        RpcMethod::ConfigExample => assert(s[14] == m),
        RpcMethod::JobGet => assert(s[15] == m),
        RpcMethod::JobList => assert(s[16] == m),
        RpcMethod::JobWait => assert(s[17] == m),
        RpcMethod::Discover => assert(s[18] == m),
    }
}

/// The name of a method.
pub fn method_name_str(m: RpcMethod) -> (r: &'static str)
    ensures
        r@ == method_name(m),
{
    match m {
        RpcMethod::Ping => "netplan.ping",
        RpcMethod::DaemonStatus => "netplan.daemon.status",
        RpcMethod::Capabilities => "netplan.capabilities",
        RpcMethod::CapabilityGet => "netplan.capability.get",
        RpcMethod::AdaptersList => "netplan.adapters.list",
        RpcMethod::AdapterGet => "netplan.adapter.get",
        RpcMethod::Status => "netplan.status",
        RpcMethod::WifiStatus => "netplan.wifi.status",
        RpcMethod::WifiScan => "netplan.wifi.scan",
        RpcMethod::ConfigValidate => "netplan.config.validate",
        RpcMethod::ConfigPlan => "netplan.config.plan",
        RpcMethod::ConfigInspect => "netplan.config.inspect",
        RpcMethod::ConfigApply => "netplan.config.apply",
        RpcMethod::ConfigDescribe => "netplan.config.describe",
        RpcMethod::ConfigExample => "netplan.config.example",
        RpcMethod::JobGet => "netplan.job.get",
        RpcMethod::JobList => "netplan.job.list",
        RpcMethod::JobWait => "netplan.job.wait",
        RpcMethod::Discover => "netplan.rpc.discover",
    }
}

/// The method a name calls; any other name is `Method not found`.
pub fn route_method(name: &str) -> (r: Result<RpcMethod, RpcFailure>)
    ensures
        match method_named(name@) {
            Some(m) => r == Ok::<RpcMethod, RpcFailure>(m),
            None => r matches Err(f) && f.code == -32601 && f.message@ == "Method not found"@
                && f.data is None,
        },
{
    let all = methods();
    let n = all.len();
    for i in 0..n
        invariant
            n == all@.len(),
            all@ == all_methods(),
            forall|k: int| 0 <= k < i ==> method_name(#[trigger] all@[k]) != name@,
    {
        if named(name, all[i]) {
            proof {
                lemma_names_distinct();
                assert(exists|x: RpcMethod| method_name(x) == name@);
            }
            return Ok(all[i]);
        }
    }
    proof {
        assert forall|m: RpcMethod| method_name(m) != name@ by {
            lemma_every_method_is_listed(m);
            let k = choose|k: int| 0 <= k < all@.len() && all@[k] == m;
            assert(method_name(all@[k]) != name@);
        }
    }
    Err(method_not_found())
}

/// The format of `netplan.config.example`: YAML unless `json` is asked for.
pub fn example_format(value: Option<&str>) -> (r: Result<bool, RpcFailure>)
    ensures
        ({
            let v = match value {
                Some(v) => v@,
                None => "yaml"@,
            };
            &&& (v == "yaml"@ || v == "yml"@) ==> r == Ok::<bool, RpcFailure>(false)
            &&& v == "json"@ ==> r == Ok::<bool, RpcFailure>(true)
            &&& !(v == "yaml"@ || v == "yml"@ || v == "json"@) ==> (r matches Err(f) && f.code
                == -32602 && f.message@ == "Invalid params"@ && f.data.deep_view() == Some(
                "example format must be yaml or json, not "@ + debug_text(v),
            ))
        }),
{
    proof {
        reveal_strlit("yaml");
        reveal_strlit("yml");
        reveal_strlit("json");
        assert("yaml"@[0] != "json"@[0]);
        assert("yml"@.len() != "json"@.len());
    }
    let v: &str = match value {
        Some(v) => v,
        None => "yaml",
    };
    if str_equal(v, "yaml") || str_equal(v, "yml") {
        Ok(false)
    } else if str_equal(v, "json") {
        Ok(true)
    } else {
        let mut m = owned("example format must be yaml or json, not ");
        let d = debug_string(v);
        append(&mut m, d.as_str());
        Err(invalid_params(m))
    }
}

/// A configuration request of the gateway: the format defaults to `auto` and
/// an apply is a dry run unless `dry_run` is false.
pub fn config_rpc_request(action: ConfigAction, format: Option<&str>, document: String, dry_run: Option<bool>) -> (r: Result<
    Request,
    RpcFailure,
>)
    ensures
        ({
            let f = match format {
                Some(f) => f@,
                None => "auto"@,
            };
            let d = match dry_run {
                Some(d) => d,
                None => true,
            };
            &&& f == "auto"@ ==> (r matches Ok(q) && q@ == RequestView::Config {
                action,
                format: ConfigFormat::Auto,
                document: encode_utf8(document@),
                dry_run: d,
            })
            &&& (f == "yaml"@ || f == "yml"@) ==> (r matches Ok(q) && q@ == RequestView::Config {
                action,
                format: ConfigFormat::Yaml,
                document: encode_utf8(document@),
                dry_run: d,
            })
            &&& f == "json"@ ==> (r matches Ok(q) && q@ == RequestView::Config {
                action,
                format: ConfigFormat::Json,
                document: encode_utf8(document@),
                dry_run: d,
            })
            &&& !(f == "auto"@ || f == "yaml"@ || f == "yml"@ || f == "json"@) ==> (r matches Err(e)
                && e.code == -32602 && e.data.deep_view() == Some(
                "unknown configuration format "@ + debug_text(f),
            ))
        }),
{
    let f: &str = match format {
        Some(f) => f,
        None => "auto",
    };
    let parsed = parse_config_format(f);
    let format = match parsed {
        Ok(x) => x,
        Err(e) => {
            return Err(e);
        },
    };
    let d = match dry_run {
        Some(d) => d,
        None => true,
    };
    let bytes = document.as_str().as_bytes_vec();
    Ok(Request::Config { action, format, document: bytes, dry_run: d })
}

/// The checks on a request's envelope: an identifier that is not a string, a
/// number or null is refused with a diagnostic; a version other than `2.0` is
/// refused without one.
pub fn envelope_problem(id_valid: bool, version: &str) -> (r: Option<RpcFailure>)
    ensures
        !id_valid ==> (r matches Some(f) && f.code == -32600 && f.message@ == "Invalid Request"@
            && f.data.deep_view() == Some("id must be a string, number, or null"@)),
        id_valid && version@ != "2.0"@ ==> (r matches Some(f) && f.code == -32600 && f.message@
            == "Invalid Request"@ && f.data is None),
        id_valid && version@ == "2.0"@ ==> r is None,
{
    if !id_valid {
        Some(
            RpcFailure {
                code: -32600,
                message: owned("Invalid Request"),
                data: Some(owned("id must be a string, number, or null")),
            },
        )
    } else if !str_equal(version, "2.0") {
        Some(RpcFailure { code: -32600, message: owned("Invalid Request"), data: None })
    } else {
        None
    }
}

/// Position of the first capability with the name, ignoring ASCII case.
pub open spec fn capability_position(caps: Seq<Capability>, name: Seq<char>) -> Option<int>
    decreases caps.len(),
{
    if caps.len() == 0 {
        None
    } else {
        match capability_position(caps.drop_last(), name) {
            Some(i) => Some(i),
            None => if eq_ignore_case(caps.last().name@, name) {
                Some(caps.len() - 1)
            } else {
                None
            },
        }
    }
}

proof fn lemma_capability_position_prefix(caps: Seq<Capability>, name: Seq<char>, m: int)
    requires
        0 <= m <= caps.len(),
        capability_position(caps.take(m), name) is Some,
    ensures
        capability_position(caps, name) == capability_position(caps.take(m), name),
    decreases caps.len() - m,
{
    if m < caps.len() {
        assert(caps.take(m + 1).drop_last() =~= caps.take(m));
        lemma_capability_position_prefix(caps, name, m + 1);
    } else {
        assert(caps.take(m) =~= caps);
    }
}

/// `netplan.capability.get`: the first capability with the name, compared
/// ignoring ASCII case.
pub fn find_capability(caps: &Vec<Capability>, name: &str) -> (r: Option<usize>)
    ensures
        match capability_position(caps@, name@) {
            Some(i) => r matches Some(j) && j == i,
            None => r is None,
        },
{
    let n = caps.len();
    for i in 0..n
        invariant
            n == caps@.len(),
            capability_position(caps@.take(i as int), name@) is None,
    {
        proof {
            assert(caps@.take(i + 1).drop_last() =~= caps@.take(i as int));
            assert(caps@.take(i + 1).last() == caps@[i as int]);
        }
        if str_eq_ignore_case(caps[i].name.as_str(), name) {
            proof {
                lemma_capability_position_prefix(caps@, name@, i + 1);
            }
            return Some(i);
        }
    }
    assert(caps@.take(n as int) =~= caps@);
    None
}

/// The positions of the adapters that a selector matches, in order.
pub open spec fn matching_positions(adapters: Seq<AdapterInfo>, s: AdapterSelectorParams) -> Seq<usize>
    decreases adapters.len(),
{
    if adapters.len() == 0 {
        Seq::empty()
    } else {
        let rest = matching_positions(adapters.drop_last(), s);
        if adapter_selected(adapters.last(), s) {
            rest.push((adapters.len() - 1) as usize)
        } else {
            rest
        }
    }
}

/// What `netplan.adapter.get` finds: no adapter, exactly one, or several.
#[derive(Clone, Debug, PartialEq, Eq)]
pub enum AdapterSelection {
    /// No adapter matches (`-32004`).
    NotFound,
    /// Exactly the adapter at this position matches.
    Found(usize),
    /// Several adapters match (`-32009`); their positions, in order.
    Ambiguous(Vec<usize>),
}

/// The adapters that a selector picks out of the inventory.
pub fn select_adapter(adapters: &Vec<AdapterInfo>, selector: &AdapterSelectorParams) -> (r: AdapterSelection)
    ensures
        ({
            let m = matching_positions(adapters@, *selector);
            &&& m.len() == 0 ==> r == AdapterSelection::NotFound
            &&& m.len() == 1 ==> r == AdapterSelection::Found(m[0])
            &&& m.len() > 1 ==> (r matches AdapterSelection::Ambiguous(v) && v@ == m)
        }),
{
    let mut found: Vec<usize> = Vec::new();
    let n = adapters.len();
    for i in 0..n
        invariant
            n == adapters@.len(),
            found@ == matching_positions(adapters@.take(i as int), *selector),
    {
        proof {
            assert(adapters@.take(i + 1).drop_last() =~= adapters@.take(i as int));
            assert(adapters@.take(i + 1).last() == adapters@[i as int]);
        }
        if adapter_matches(&adapters[i], selector) {
            found.push(i);
        }
    }
    proof {
        assert(adapters@.take(n as int) =~= adapters@);
    }
    if found.len() == 0 {
        AdapterSelection::NotFound
    } else if found.len() == 1 {
        AdapterSelection::Found(found[0])
    } else {
        AdapterSelection::Ambiguous(found)
    }
}

/// The daemon request of a method that takes no parameters, if it is one.
pub open spec fn plain_request_of(m: RpcMethod) -> Option<RequestView> {
    match m {
        RpcMethod::Ping => Some(RequestView::Ping),
        RpcMethod::DaemonStatus => Some(RequestView::DaemonStatus),
        RpcMethod::Capabilities => Some(RequestView::Capabilities),
        RpcMethod::AdaptersList => Some(RequestView::ListAdapters),
        RpcMethod::Status => Some(RequestView::NetworkStatus),
        _ => None,
    }
}

/// The daemon request of a method that takes no parameters.
pub fn plain_request(m: RpcMethod) -> (r: Option<Request>)
    ensures
        match plain_request_of(m) {
            Some(q) => r matches Some(x) && x@ == q,
            None => r is None,
        },
{
    match m {
        RpcMethod::Ping => Some(Request::Ping),
        RpcMethod::DaemonStatus => Some(Request::DaemonStatus),
        RpcMethod::Capabilities => Some(Request::Capabilities),
        RpcMethod::AdaptersList => Some(Request::ListAdapters),
        RpcMethod::Status => Some(Request::NetworkStatus),
        _ => None,
    }
}

/// The configuration action of a configuration method.
pub fn config_action(m: RpcMethod) -> (r: Option<ConfigAction>)
    ensures
        r == match m {
            RpcMethod::ConfigValidate => Some(ConfigAction::Validate),
            RpcMethod::ConfigPlan => Some(ConfigAction::Plan),
            RpcMethod::ConfigApply => Some(ConfigAction::Apply),
            _ => None::<ConfigAction>,
        },
{
    match m {
        RpcMethod::ConfigValidate => Some(ConfigAction::Validate),
        RpcMethod::ConfigPlan => Some(ConfigAction::Plan),
        RpcMethod::ConfigApply => Some(ConfigAction::Apply),
        _ => None,
    }
}

/// An input line without the byte-order mark that may open the first line.
pub open spec fn line_body(line: Seq<char>, first: bool) -> Seq<char> {
    if first && line.len() > 0 && line[0] == '\u{feff}' {
        line.drop_first()
    } else {
        line
    }
}

/// The JSON text of one input line of the gateway: a UTF-8 byte-order mark is
/// accepted at the start of the first line only; a blank line carries no
/// request.
pub fn request_text(line: &str, first: bool) -> (r: Option<String>)
    ensures
        trimmed(line_body(line@, first)).len() == 0 ==> r is None,
        trimmed(line_body(line@, first)).len() > 0 ==> (r matches Some(t) && t@ == line_body(line@, first)),
{
    let chars = chars_of(line);
    let mut body: Vec<char> = Vec::new();
    let n = chars.len();
    let start: usize = if first && n > 0 && chars[0] == '\u{feff}' {
        1
    } else {
        0
    };
    for k in start..n
        invariant
            n == chars@.len(),
            chars@ == line@,
            start <= n,
            body@ == line@.subrange(start as int, k as int),
    {
        body.push(chars[k]);
        proof {
            assert(line@.subrange(start as int, k + 1) =~= line@.subrange(start as int, k as int).push(
                line@[k as int],
            ));
        }
    }
    proof {
        assert(line@.subrange(start as int, n as int) =~= line_body(line@, first));
    }
    let text = string_of(&body);
    let t = trim(text.as_str());
    if t.as_str().unicode_len() == 0 {
        None
    } else {
        Some(text)
    }
}

} // verus!
