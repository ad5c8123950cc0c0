//! The termination protocol.
//!
//! A launched process may fan out descendants, so termination means "this
//! process and its tree".  On the platform without native process-tree
//! signaling the work is delegated to a tree-aware kill utility in one
//! step; on platforms with POSIX signals it is staged: a graceful signal,
//! a fixed grace period, then an unconditional kill.  The shell executes
//! the plan built here and never invents a step of its own; termination
//! failures are logged there, never escalated, because the registry entry
//! is removed regardless.

use vstd::prelude::*;

verus! {

/// One step of a termination plan.
#[derive(Debug, PartialEq, Eq, Structural)]
pub enum KillStep {
    /// Send a signal: graceful first, unconditional second.
    Signal { pid: u32, graceful: bool },
    /// Wait this long before the next step.
    Wait { millis: u64 },
    /// Delegate to a tree-aware kill utility.
    TreeKill { pid: u32 },
}

/// How long the graceful-termination grace period lasts.
pub const GRACE_PERIOD_MILLIS: u64 = 500;

/// The termination plan for one process tree.  With a tree-aware kill
/// utility the plan is a single delegated step; otherwise it is staged:
/// graceful signal, grace period, unconditional kill.
pub fn kill_plan(pid: u32, tree_kill_available: bool) -> (r: Vec<KillStep>)
    ensures
        tree_kill_available ==> r@ == seq![KillStep::TreeKill { pid }],
        !tree_kill_available ==> r@ == seq![
            KillStep::Signal { pid, graceful: true },
            KillStep::Wait { millis: GRACE_PERIOD_MILLIS },
            KillStep::Signal { pid, graceful: false },
        ],
{
    let mut v: Vec<KillStep> = Vec::new();
    if tree_kill_available {
        v.push(KillStep::TreeKill { pid });
        proof {
            assert(v@ =~= seq![KillStep::TreeKill { pid }]);
        }
    } else {
        v.push(KillStep::Signal { pid, graceful: true });
        v.push(KillStep::Wait { millis: GRACE_PERIOD_MILLIS });
        v.push(KillStep::Signal { pid, graceful: false });
        proof {
            assert(v@ =~= seq![
                KillStep::Signal { pid, graceful: true },
                KillStep::Wait { millis: GRACE_PERIOD_MILLIS },
                KillStep::Signal { pid, graceful: false },
            ]);
        }
    }
    v
}

/// Is `s` the decimal rendering of `n`?
pub open spec fn is_dec_of(s: Seq<char>, n: int) -> bool {
    &&& crate::transcript::is_digits(s)
    &&& crate::transcript::digits_val(s) == n
    &&& (s.len() > 1 ==> s[0] != '0')
}

/// The decimal rendering of a process id, for a kill utility's argument.
pub fn u32_decimal(n: u32) -> (r: String)
    ensures
        is_dec_of(r@, n as int),
{
    let cs = u32_dec_chars(n);
    crate::json::string_from_chars(&cs)
}

/// The decimal digits of `n`, most significant first.
fn u32_dec_chars(n: u32) -> (r: Vec<char>)
    ensures
        crate::transcript::is_digits(r@),
        crate::transcript::digits_val(r@) == n as int,
        r@.len() > 1 ==> r@[0] != '0',
        n > 0 ==> r@[0] != '0',
    decreases n,
{
    let d = n % 10;
    let c: char = if d == 0 { '0' }
    else if d == 1 { '1' }
    else if d == 2 { '2' }
    else if d == 3 { '3' }
    else if d == 4 { '4' }
    else if d == 5 { '5' }
    else if d == 6 { '6' }
    else if d == 7 { '7' }
    else if d == 8 { '8' }
    else { '9' };
    if n < 10 {
        let mut v: Vec<char> = Vec::new();
        v.push(c);
        proof {
            assert(v@ =~= seq![c]);
            assert(v@.drop_last() =~= Seq::<char>::empty());
            assert(crate::transcript::digits_val(Seq::<char>::empty()) == 0);
            assert(crate::transcript::digits_val(v@) == c as int - '0' as int);
            assert(c as int - '0' as int == n as int);
        }
        v
    } else {
        let mut v = u32_dec_chars(n / 10);
        let ghost pre = v@;
        v.push(c);
        proof {
            assert(v@.drop_last() =~= pre);
            assert(v@.last() == c);
            assert(c as int - '0' as int == d as int);
            assert(crate::transcript::digits_val(v@) == crate::transcript::digits_val(pre) * 10
                + d);
        }
        v
    }
}

} // verus!
