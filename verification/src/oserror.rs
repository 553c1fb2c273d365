//! How failures of the operating system and of its command-line tools become
//! platform errors.

use vstd::prelude::*;

use crate::error::IoErrorKind;
use crate::platform::{PlatformError, PlatformErrorKind};
use crate::text;
use crate::text::{append, dec, decimal, is_whitespace, owned};
use crate::wifi::{lossy_text, utf8_lossy};

verus! {

/// The text with leading whitespace removed.
pub open spec fn trim_start_ws(s: Seq<char>) -> Seq<char>
    decreases s.len(),
{
    if s.len() > 0 && is_whitespace(s[0]) {
        trim_start_ws(s.drop_first())
    } else {
        s
    }
}

/// The text with trailing whitespace removed.
pub open spec fn trim_end_ws(s: Seq<char>) -> Seq<char>
    decreases s.len(),
{
    if s.len() > 0 && is_whitespace(s.last()) {
        trim_end_ws(s.drop_last())
    } else {
        s
    }
}

/// `str::trim`: leading and trailing whitespace removed.
pub open spec fn trimmed(s: Seq<char>) -> Seq<char> {
    trim_end_ws(trim_start_ws(s))
}

/// The text with surrounding whitespace removed.
pub fn trim(s: &str) -> (r: String)
    ensures
        r@ == trimmed(s@),
{
    let x = text::chars_of(s);
    let n = x.len();
    let mut a: usize = 0;
    proof {
        assert(s@.subrange(0, n as int) =~= s@);
    }
    while a < n && text::char_is_whitespace(x[a])
        invariant
            n == x@.len(),
            x@ == s@,
            a <= n,
            trim_start_ws(s@) == trim_start_ws(s@.subrange(a as int, n as int)),
        decreases n - a,
    {
        proof {
            assert(s@.subrange(a as int, n as int).drop_first() =~= s@.subrange(a + 1, n as int));
        }
        a = a + 1;
    }
    let ghost t = s@.subrange(a as int, n as int);
    let mut b: usize = n;
    while b > a && text::char_is_whitespace(x[b - 1])
        invariant
            n == x@.len(),
            x@ == s@,
            a <= b <= n,
            t == s@.subrange(a as int, n as int),
            trim_end_ws(t) == trim_end_ws(s@.subrange(a as int, b as int)),
        decreases b - a,
    {
        proof {
            assert(s@.subrange(a as int, b as int).drop_last() =~= s@.subrange(a as int, b - 1));
        }
        b = b - 1;
    }
    let mut out: Vec<char> = Vec::new();
    let mut k = a;
    while k < b
        invariant
            n == x@.len(),
            x@ == s@,
            a <= k <= b <= n,
            out@ == s@.subrange(a as int, k as int),
        decreases b - k,
    {
        out.push(x[k]);
        proof {
            assert(s@.subrange(a as int, k + 1) =~= s@.subrange(a as int, k as int).push(s@[k as int]));
        }
        k = k + 1;
    }
    proof {
        assert(trim_end_ws(t) == s@.subrange(a as int, b as int));
    }
    text::string_of(&out)
}

/// What a tool wrote, for a diagnostic: the trimmed error output and the
/// trimmed standard output, joined by `; ` when both are present.
pub open spec fn diagnostic_text(stdout: Seq<u8>, stderr: Seq<u8>) -> Seq<char> {
    let out = trimmed(lossy_text(stdout));
    let err = trimmed(lossy_text(stderr));
    if out.len() == 0 && err.len() == 0 {
        Seq::empty()
    } else if err.len() == 0 {
        out
    } else if out.len() == 0 {
        err
    } else {
        err + "; "@ + out
    }
}

/// The diagnostic of a tool's output, decoded as lossy UTF-8.
pub fn tool_diagnostic(stdout: &[u8], stderr: &[u8]) -> (r: String)
    ensures
        r@ == diagnostic_text(stdout@, stderr@),
{
    let o = utf8_lossy(stdout);
    let e = utf8_lossy(stderr);
    let out = trim(o.as_str());
    let err = trim(e.as_str());
    let out_empty = out.as_str().unicode_len() == 0;
    let err_empty = err.as_str().unicode_len() == 0;
    if out_empty && err_empty {
        String::new()
    } else if err_empty {
        out
    } else if out_empty {
        err
    } else {
        let mut r = err;
        append(&mut r, "; ");
        append(&mut r, out.as_str());
        r
    }
}

/// The message of a tool that exited unsuccessfully.
pub open spec fn tool_failure_text(tool: Seq<char>, status: Seq<char>, diagnostic: Seq<char>) -> Seq<
    char,
> {
    if diagnostic.len() == 0 {
        tool + " exited with status "@ + status
    } else {
        tool + " exited with status "@ + status + ": "@ + diagnostic
    }
}

fn tool_failure(tool: &str, status: &str, diagnostic: &str) -> (e: PlatformError)
    ensures
        e.kind == PlatformErrorKind::Internal,
        e.message@ == tool_failure_text(tool@, status@, diagnostic@),
        !e.rolled_back,
{
    let mut m = owned(tool);
    append(&mut m, " exited with status ");
    append(&mut m, status);
    if diagnostic.unicode_len() != 0 {
        append(&mut m, ": ");
        append(&mut m, diagnostic);
    }
    PlatformError::internal(m)
}

/// The outcome of a `netsh` run: success, or an internal failure that quotes
/// the exit status and the diagnostic.
pub fn netsh_outcome(success: bool, status: &str, diagnostic: &str) -> (r: Result<(), PlatformError>)
    ensures
        success ==> r is Ok,
        !success ==> (r matches Err(e) && e.kind == PlatformErrorKind::Internal && e.message@
            == tool_failure_text("netsh"@, status@, diagnostic@) && !e.rolled_back),
{
    if success {
        Ok(())
    } else {
        Err(tool_failure("netsh", status, diagnostic))
    }
}

/// The outcome of a `pnputil` run: on success or exit code 3010, whether a
/// reboot is required (3010); otherwise an internal failure.
pub fn pnputil_outcome(success: bool, code: Option<i32>, status: &str, diagnostic: &str) -> (r: Result<
    bool,
    PlatformError,
>)
    ensures
        success || code == Some(3010i32) ==> r == Ok::<bool, PlatformError>(code == Some(3010i32)),
        !(success || code == Some(3010i32)) ==> (r matches Err(e) && e.kind
            == PlatformErrorKind::Internal && e.message@ == tool_failure_text(
            "pnputil"@,
            status@,
            diagnostic@,
        ) && !e.rolled_back),
{
    let reboot = match code {
        Some(c) => c == 3010,
        None => false,
    };
    if success || reboot {
        Ok(reboot)
    } else {
        Err(tool_failure("pnputil", status, diagnostic))
    }
}

/// The kind of error that a failed process launch gives.
pub open spec fn process_kind(kind: IoErrorKind) -> PlatformErrorKind {
    match kind {
        IoErrorKind::NotFound => PlatformErrorKind::NotFound,
        IoErrorKind::PermissionDenied => PlatformErrorKind::PermissionDenied,
        _ => PlatformErrorKind::Internal,
    }
}

/// The message of a failed process launch.
pub open spec fn process_text(context: Seq<char>, kind: IoErrorKind, detail: Seq<char>) -> Seq<char> {
    match kind {
        IoErrorKind::NotFound => context + " executable was not found: "@ + detail,
        IoErrorKind::PermissionDenied => context + " execution was denied: "@ + detail,
        _ => context + " execution failed: "@ + detail,
    }
}

/// The error of a process that could not be launched, from the category and
/// the text of the I/O error.
pub fn process_error(context: &str, kind: IoErrorKind, detail: &str) -> (e: PlatformError)
    ensures
        e.kind == process_kind(kind),
        e.message@ == process_text(context@, kind, detail@),
        !e.rolled_back,
{
    let mut m = owned(context);
    match kind {
        IoErrorKind::NotFound => {
            append(&mut m, " executable was not found: ");
            append(&mut m, detail);
            PlatformError::not_found(m)
        },
        IoErrorKind::PermissionDenied => {
            append(&mut m, " execution was denied: ");
            append(&mut m, detail);
            PlatformError::permission_denied(m)
        },
        _ => {
            append(&mut m, " execution failed: ");
            append(&mut m, detail);
            PlatformError::internal(m)
        },
    }
}

/// The kind of error for a Win32 error code: 2 and 1060 are not found, 5 is
/// access denied.
pub open spec fn win32_kind(code: u32) -> PlatformErrorKind {
    if code == 2 || code == 1060 {
        PlatformErrorKind::NotFound
    } else if code == 5 {
        PlatformErrorKind::PermissionDenied
    } else {
        PlatformErrorKind::Internal
    }
}

fn kind_error(kind: PlatformErrorKind, message: String) -> (e: PlatformError)
    ensures
        e.kind == kind,
        e.message@ == message@,
        !e.rolled_back,
{
    PlatformError::new(kind, message)
}

/// The error of a failed Windows API call, from its `HRESULT` (whose low
/// sixteen bits are the Win32 code) and the error's text.
pub fn windows_error(context: &str, hresult: u32, detail: &str) -> (e: PlatformError)
    ensures
        e.kind == win32_kind(hresult % 65536),
        e.message@ == context@ + " failed: "@ + detail@,
        !e.rolled_back,
{
    let code = hresult % 65536;
    let mut m = owned(context);
    append(&mut m, " failed: ");
    append(&mut m, detail);
    if code == 2 || code == 1060 {
        kind_error(PlatformErrorKind::NotFound, m)
    } else if code == 5 {
        kind_error(PlatformErrorKind::PermissionDenied, m)
    } else {
        kind_error(PlatformErrorKind::Internal, m)
    }
}

/// The error of a failed call that reports through the thread's last OS
/// error, from its raw code (if any) and its text.
pub fn windows_last_error(context: &str, raw: Option<i32>, detail: &str) -> (e: PlatformError)
    ensures
        e.kind == match raw {
            Some(c) => if c == 2 || c == 1060 {
                PlatformErrorKind::NotFound
            } else if c == 5 {
                PlatformErrorKind::PermissionDenied
            } else {
                PlatformErrorKind::Internal
            },
            None => PlatformErrorKind::Internal,
        },
        e.message@ == context@ + " failed: "@ + detail@,
        !e.rolled_back,
{
    let mut m = owned(context);
    append(&mut m, " failed: ");
    append(&mut m, detail);
    match raw {
        Some(c) => if c == 2 || c == 1060 {
            kind_error(PlatformErrorKind::NotFound, m)
        } else if c == 5 {
            kind_error(PlatformErrorKind::PermissionDenied, m)
        } else {
            kind_error(PlatformErrorKind::Internal, m)
        },
        None => kind_error(PlatformErrorKind::Internal, m),
    }
}

/// `<context> failed with status <code>`.
pub open spec fn status_text(context: Seq<char>, code: u32) -> Seq<char> {
    context + " failed with status "@ + dec(code as nat)
}

fn status_message(context: &str, code: u32) -> (r: String)
    ensures
        r@ == status_text(context@, code),
{
    let mut m = owned(context);
    append(&mut m, " failed with status ");
    let d = decimal(code as u64);
    append(&mut m, d.as_str());
    m
}

/// The error of a failed network-management call: 5 is access denied, 2 and
/// 2221 (no such user) are not found.
pub fn net_api_error(context: &str, code: u32) -> (e: PlatformError)
    ensures
        e.kind == if code == 5 {
            PlatformErrorKind::PermissionDenied
        } else if code == 2 || code == 2221 {
            PlatformErrorKind::NotFound
        } else {
            PlatformErrorKind::Internal
        },
        e.message@ == status_text(context@, code),
        !e.rolled_back,
{
    let m = status_message(context, code);
    if code == 5 {
        kind_error(PlatformErrorKind::PermissionDenied, m)
    } else if code == 2 || code == 2221 {
        kind_error(PlatformErrorKind::NotFound, m)
    } else {
        kind_error(PlatformErrorKind::Internal, m)
    }
}

/// The error of a failed registry call: 2 is not found, 5 is access denied.
pub fn registry_error(context: &str, code: u32) -> (e: PlatformError)
    ensures
        e.kind == if code == 2 {
            PlatformErrorKind::NotFound
        } else if code == 5 {
            PlatformErrorKind::PermissionDenied
        } else {
            PlatformErrorKind::Internal
        },
        e.message@ == status_text(context@, code),
        !e.rolled_back,
{
    let m = status_message(context, code);
    if code == 2 {
        kind_error(PlatformErrorKind::NotFound, m)
    } else if code == 5 {
        kind_error(PlatformErrorKind::PermissionDenied, m)
    } else {
        kind_error(PlatformErrorKind::Internal, m)
    }
}

/// The error of an adapter restart whose re-enable failed, after one more
/// attempt to re-enable it.
pub open spec fn restart_failure_text(error: Seq<char>, recovery: Option<Seq<char>>) -> Seq<char> {
    match recovery {
        None => "adapter restart failed but the adapter was re-enabled: "@ + error,
        Some(r) => "adapter restart failed and re-enable recovery also failed: "@ + error + "; "@
            + r,
    }
}

/// The failure of an adapter restart whose re-enable step failed, given the
/// outcome of the recovery attempt.
pub fn restart_failure(error: &PlatformError, recovery: &Result<(), PlatformError>) -> (e: PlatformError)
    ensures
        e.kind == PlatformErrorKind::Internal,
        e.message@ == restart_failure_text(
            error.message@,
            match recovery {
                Ok(_) => None,
                Err(r) => Some(r.message@),
            },
        ),
        !e.rolled_back,
{
    match recovery {
        Ok(()) => {
            let mut m = owned("adapter restart failed but the adapter was re-enabled: ");
            append(&mut m, error.message.as_str());
            PlatformError::internal(m)
        },
        Err(r) => {
            let mut m = owned("adapter restart failed and re-enable recovery also failed: ");
            append(&mut m, error.message.as_str());
            append(&mut m, "; ");
            append(&mut m, r.message.as_str());
            PlatformError::internal(m)
        },
    }
}

} // verus!
