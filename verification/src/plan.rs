//! Plans: what an operation means to do on the port, and how far it got.
//!
//! Every operation of the printer is a fixed list of waits and writes, worked off from
//! the front. It either completes the list, or stops at the first step that the port
//! fails; what was done before that step stays done.

use crate::error::PrinterError;
use crate::port::{PortEvent, PortRecord};
use vstd::prelude::*;

verus! {

/// One paced write: the wait that is due, then the bytes.
pub open spec fn send(pending: u64, bytes: Seq<u8>) -> Seq<PortEvent> {
    seq![PortEvent::Wait(pending), PortEvent::Write(bytes)]
}

/// The log of steps that the port completed, one after the other.
pub open spec fn completed(steps: Seq<PortEvent>) -> Seq<PortRecord> {
    steps.map_values(|event: PortEvent| PortRecord { event, completed: true })
}

/// The log entry of a step that the port failed.
pub open spec fn failed(event: PortEvent) -> PortRecord {
    PortRecord { event, completed: false }
}

/// The log went from `before` to `after` by working off `plan` up to a step that the
/// port failed: the steps before it were completed, that step was tried, and none after
/// it.
pub open spec fn interrupted(
    before: Seq<PortRecord>,
    after: Seq<PortRecord>,
    plan: Seq<PortEvent>,
) -> bool {
    exists|k: int|
        0 <= k < plan.len() && after == before + completed(#[trigger] plan.take(k)).push(
            failed(plan[k]),
        )
}

/// How an operation with the plan `plan` ended. `Ok` means that the port completed every
/// step of the plan. The only error that can end a plan is a failure of the port, and
/// then the log shows which step it failed.
pub open spec fn carried_out(
    r: Result<(), PrinterError>,
    before: Seq<PortRecord>,
    after: Seq<PortRecord>,
    plan: Seq<PortEvent>,
) -> bool {
    match r {
        Ok(()) => after == before + completed(plan),
        Err(e) => e == PrinterError::Transport && interrupted(before, after, plan),
    }
}

/// A part of a plan, worked on after `done` and before `rest`: when the part completes,
/// so much more of the plan is done; when it is interrupted, so is the plan.
pub proof fn lemma_part(
    before: Seq<PortRecord>,
    done: Seq<PortEvent>,
    part: Seq<PortEvent>,
    rest: Seq<PortEvent>,
    plan: Seq<PortEvent>,
    mid: Seq<PortRecord>,
    after: Seq<PortRecord>,
    r: Result<(), PrinterError>,
)
    requires
        mid == before + completed(done),
        plan =~= done + part + rest,
        carried_out(r, mid, after, part),
    ensures
        r is Ok ==> after == before + completed(done + part),
        r is Err ==> carried_out(r, before, after, plan),
{
    match r {
        Ok(()) => {
            assert(after =~= before + completed(done + part));
        },
        Err(e) => {
            let k = choose|k: int|
                0 <= k < part.len() && after == mid + completed(#[trigger] part.take(k)).push(
                    failed(part[k]),
                );
            let n = done.len() + k;
            assert(plan.take(n) =~= done + part.take(k));
            assert(plan[n] == part[k]);
            assert(after =~= before + completed(plan.take(n)).push(failed(plan[n])));
        },
    }
}

/// Nothing done yet is the empty log added.
pub proof fn lemma_nothing_done(before: Seq<PortRecord>)
    ensures
        before + completed(Seq::<PortEvent>::empty()) == before,
{
    assert(before + completed(Seq::<PortEvent>::empty()) =~= before);
}

} // verus!
