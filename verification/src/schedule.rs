//! The schedule of the sampling loop.
use vstd::prelude::*;

verus! {

/// What a pass of the sampling loop refreshes besides CPU and memory, and
/// the count the next pass runs under.
pub struct PollPlan {
    pub refresh_processes: bool,
    pub refresh_disks: bool,
    pub next_counter: u64,
}

/// The plan of the pass numbered `counter`: processes are refreshed every
/// second pass, disks every tenth, and the count goes on, wrapping to 0
/// after its largest value.
pub fn poll_plan(counter: u64) -> (plan: PollPlan)
    ensures
        plan.refresh_processes == (counter % 2 == 0),
        plan.refresh_disks == (counter % 10 == 0),
        plan.next_counter == if counter == u64::MAX { 0 } else { counter + 1 },
{
    let next_counter: u64 = if counter == u64::MAX { 0 } else { counter + 1 };
    PollPlan {
        refresh_processes: counter % 2 == 0,
        refresh_disks: counter % 10 == 0,
        next_counter,
    }
}

/// A pass that refreshes the disks refreshes the processes too.
pub proof fn lemma_disk_passes_refresh_processes(counter: u64)
    ensures
        counter % 10 == 0 ==> counter % 2 == 0,
{
}

} // verus!
