//! The outcome of a live apply transaction: which hooks run at a stage,
//! whether the applied changes can be undone, and the report or the error
//! that the daemon records once the reversible changes were rolled back.

use vstd::prelude::*;

use crate::config::{DriverOperation, HookConfig, HookStage, NetplanConfig};
use crate::plan::texts;
use crate::plan::join;
use crate::platform::{ApplyReport, PlatformError};
use crate::text::{append, dec, decimal, owned};

verus! {

/// Positions of the hooks of one stage, in declaration order.
pub open spec fn stage_hooks(hooks: Seq<HookConfig>, stage: HookStage) -> Seq<int>
    decreases hooks.len(),
{
    if hooks.len() == 0 {
        Seq::empty()
    } else if hooks.last().stage == stage {
        stage_hooks(hooks.drop_last(), stage).push(hooks.len() - 1)
    } else {
        stage_hooks(hooks.drop_last(), stage)
    }
}

/// The hooks to run at one stage, as positions in `hooks`.
pub fn hooks_for_stage(hooks: &Vec<HookConfig>, stage: HookStage) -> (r: Vec<usize>)
    ensures
        r@.map_values(|i: usize| i as int) == stage_hooks(hooks@, stage),
{
    let mut r: Vec<usize> = Vec::new();
    let n = hooks.len();
    for i in 0..n
        invariant
            n == hooks@.len(),
            r@.map_values(|i: usize| i as int) =~= stage_hooks(hooks@.take(i as int), stage),
    {
        proof {
            assert(hooks@.take(i + 1).drop_last() =~= hooks@.take(i as int));
            assert(hooks@.take(i + 1).last() == hooks@[i as int]);
        }
        if hooks[i].stage == stage {
            let ghost before = r@;
            r.push(i);
            assert(r@.map_values(|i: usize| i as int) =~= before.map_values(|i: usize| i as int).push(
                i as int,
            ));
        }
    }
    assert(hooks@.take(n as int) =~= hooks@);
    r
}

/// Whether the configuration installs a driver, a change that cannot be
/// rolled back.
pub open spec fn installs_driver(drivers: Seq<DriverOperation>) -> bool {
    exists|i: int| 0 <= i < drivers.len() && drivers[i] is Install
}

/// Whether the configuration installs a driver.
pub fn has_driver_install(config: &NetplanConfig) -> (r: bool)
    ensures
        r == installs_driver(config.drivers@),
{
    let n = config.drivers.len();
    for i in 0..n
        invariant
            n == config.drivers@.len(),
            forall|k: int| 0 <= k < i ==> !(config.drivers@[k] is Install),
    {
        if let DriverOperation::Install { .. } = &config.drivers[i] {
            return true;
        }
    }
    false
}

/// The diagnostic of one rollback action that failed.
pub open spec fn rollback_failure_text(message: Seq<char>) -> Seq<char> {
    "rollback failed: "@ + message
}

/// Describes a rollback action that failed.
pub fn rollback_failure(error: &PlatformError) -> (r: String)
    ensures
        r@ == rollback_failure_text(error.message@),
{
    let mut r = owned("rollback failed: ");
    append(&mut r, error.message.as_str());
    r
}

/// The order in which recorded rollback actions run: the last recorded first.
pub open spec fn reverse_order(count: nat) -> Seq<usize> {
    Seq::new(count, |k: int| (count - 1 - k) as usize)
}

/// The positions of `count` recorded rollback actions in the order they run:
/// the reverse of the order in which they were recorded.
pub fn rollback_order(count: usize) -> (r: Vec<usize>)
    ensures
        r@ == reverse_order(count as nat),
{
    let mut out: Vec<usize> = Vec::new();
    let mut k: usize = 0;
    while k < count
        invariant
            k <= count,
            out@ == reverse_order(count as nat).take(k as int),
        decreases count - k,
    {
        out.push(count - 1 - k);
        proof {
            assert(reverse_order(count as nat).take(k + 1) =~= reverse_order(count as nat).take(k as int).push(
                (count - 1 - k) as usize,
            ));
        }
        k = k + 1;
    }
    proof {
        assert(reverse_order(count as nat).take(count as int) =~= reverse_order(count as nat));
    }
    out
}

/// The diagnostics of the rollback actions that failed, in the order they ran.
pub open spec fn failure_texts(outcomes: Seq<Result<(), PlatformError>>) -> Seq<Seq<char>>
    decreases outcomes.len(),
{
    if outcomes.len() == 0 {
        Seq::empty()
    } else {
        let rest = failure_texts(outcomes.drop_last());
        match outcomes.last() {
            Err(e) => rest.push(rollback_failure_text(e.message@)),
            Ok(_) => rest,
        }
    }
}

/// The diagnostics of the rollback actions that failed, given the outcome of
/// each action in the order they ran.
pub fn rollback_errors(outcomes: &Vec<Result<(), PlatformError>>) -> (r: Vec<String>)
    ensures
        texts(r@) == failure_texts(outcomes@),
{
    let mut out: Vec<String> = Vec::new();
    let n = outcomes.len();
    for i in 0..n
        invariant
            n == outcomes@.len(),
            texts(out@) == failure_texts(outcomes@.take(i as int)),
    {
        proof {
            assert(outcomes@.take(i + 1).drop_last() =~= outcomes@.take(i as int));
            assert(outcomes@.take(i + 1).last() == outcomes@[i as int]);
        }
        match &outcomes[i] {
            Err(e) => {
                let ghost before = out@;
                let t = rollback_failure(e);
                let ghost tv = t@;
                out.push(t);
                proof {
                    assert(texts(out@) =~= texts(before).push(tv));
                }
            },
            Ok(()) => {},
        }
    }
    proof {
        assert(outcomes@.take(n as int) =~= outcomes@);
    }
    out
}

/// The report of a completed live apply.
pub open spec fn completed_text(mutations: nat) -> Seq<char> {
    "live apply completed successfully; "@ + dec(mutations) + " reversible mutation(s) recorded"@
}

/// The diagnostics of a failed live apply: the failure, each failed rollback
/// action, and a failed after-rollback hook, joined by `; `.
pub open spec fn failure_details(
    message: Seq<char>,
    rollback_errors: Seq<Seq<char>>,
    hook_error: Option<PlatformError>,
) -> Seq<Seq<char>> {
    seq![message] + rollback_errors + match hook_error {
        Some(h) => seq!["after-rollback hook failed: "@ + h.message@],
        None => Seq::empty(),
    }
}

/// Whether a failed apply left the machine as it found it: something had
/// been changed, nothing irreversible was, every rollback action and every
/// after-rollback hook succeeded.
pub open spec fn restored(
    mutations: nat,
    irreversible: bool,
    rollback_errors: Seq<Seq<char>>,
    hook_error: Option<PlatformError>,
) -> bool {
    mutations > 0 && !irreversible && rollback_errors.len() == 0 && hook_error is None
}

/// The result of a live apply: on success a report with the number of
/// reversible changes recorded; on failure the failure's kind, its details
/// with those of the rollback, and whether the rollback restored the
/// machine.
pub fn apply_outcome(
    result: Result<(), PlatformError>,
    mutations: usize,
    irreversible: bool,
    rollback_errors: &Vec<String>,
    hook_error: Option<PlatformError>,
) -> (r: Result<ApplyReport, PlatformError>)
    ensures
        match result {
            Ok(()) => r matches Ok(report) && report.message@ == completed_text(mutations as nat),
            Err(e) => r matches Err(out) && out.kind == e.kind && out.message@ == join(
                failure_details(e.message@, texts(rollback_errors@), hook_error),
                "; "@,
            ) && out.rolled_back == restored(mutations as nat, irreversible, texts(rollback_errors@), hook_error),
        },
{
    match result {
        Ok(()) => {
            let mut m = owned("live apply completed successfully; ");
            let d = decimal(mutations as u64);
            append(&mut m, d.as_str());
            append(&mut m, " reversible mutation(s) recorded");
            Ok(ApplyReport { message: m })
        },
        Err(error) => {
            let rolled_back = mutations > 0 && !irreversible && rollback_errors.len() == 0
                && hook_error.is_none();
            let ghost details = failure_details(error.message@, texts(rollback_errors@), hook_error);
            let mut message = error.message.clone();
            let ghost first = message@;
            let n = rollback_errors.len();
            for i in 0..n
                invariant
                    n == rollback_errors@.len(),
                    message@ == join(seq![first] + texts(rollback_errors@).take(i as int), "; "@),
            {
                append(&mut message, "; ");
                append(&mut message, rollback_errors[i].as_str());
                proof {
                    let before = seq![first] + texts(rollback_errors@).take(i as int);
                    let after = seq![first] + texts(rollback_errors@).take(i + 1);
                    assert(after.drop_last() =~= before);
                    assert(after.last() == rollback_errors@[i as int]@);
                }
            }
            assert(texts(rollback_errors@).take(n as int) =~= texts(rollback_errors@));
            match &hook_error {
                Some(h) => {
                    let ghost before = seq![first] + texts(rollback_errors@);
                    append(&mut message, "; ");
                    append(&mut message, "after-rollback hook failed: ");
                    append(&mut message, h.message.as_str());
                    proof {
                        assert(details.drop_last() =~= before);
                        assert(details.last() == "after-rollback hook failed: "@ + h.message@);
                        assert(message@ =~= join(before, "; "@) + "; "@ + details.last());
                    }
                },
                None => {
                    assert(details =~= seq![first] + texts(rollback_errors@));
                },
            }
            Err(PlatformError { kind: error.kind, message, rolled_back })
        },
    }
}

} // verus!
