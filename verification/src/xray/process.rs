//! Core process bookkeeping: which process id is reported.
use vstd::prelude::*;

verus! {

/// The process id shown for the core: none while no process is recorded (id zero).
pub fn reported_pid(pid: u32) -> (r: Option<u32>)
    ensures
        r == (if pid > 0 { Some(pid) } else { None::<u32> }),
{
    if pid > 0 { Some(pid) } else { None }
}

} // verus!
