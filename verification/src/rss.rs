//! Resident memory of the process, as the host samples it.

use vstd::prelude::*;

verus! {

/// What the kernel said about the task: a return code, zero for success, and
/// the resident size in octets.
#[derive(Clone, Copy, PartialEq, Eq, Structural, Debug)]
pub struct TaskSample {
    pub rc: i32,
    pub resident_size: u64,
}

/// What a sample says: the resident size, where the call succeeded.
pub open spec fn sampled(sample: Option<TaskSample>) -> Option<u64> {
    match sample {
        Some(s) if s.rc == 0 => Some(s.resident_size),
        _ => None,
    }
}

/// Resident octets of the process. `None` where the call failed, or where the
/// platform has no such call and there is no sample; callers then skip what
/// they would have done with the number.
pub fn resident_bytes(sample: Option<TaskSample>) -> (r: Option<u64>)
    ensures
        r == sampled(sample),
        r == match sample {
            Some(s) => if s.rc == 0 {
                Some(s.resident_size)
            } else {
                None
            },
            None => None,
        },
{
    match sample {
        Some(s) => if s.rc == 0 {
            Some(s.resident_size)
        } else {
            None
        },
        None => None,
    }
}

/// Resident octets of the process for the host: zero where they cannot be had.
pub fn meow_resident_bytes(sample: Option<TaskSample>) -> (r: u64)
    ensures
        sampled(sample) matches Some(n) ==> r == n,
        sampled(sample) is None ==> r == 0,
        r == match sample {
            Some(s) => if s.rc == 0 {
                s.resident_size
            } else {
                0
            },
            None => 0,
        },
{
    match resident_bytes(sample) {
        Some(n) => n,
        None => 0,
    }
}

/// Every size that the kernel reports with success is reported as it is, and no
/// size is made up for a call that failed or was not there.
pub proof fn law_samples_are_reported_as_they_are(rc: i32, resident_size: u64)
    ensures
        rc == 0 ==> sampled(Some(TaskSample { rc, resident_size })) == Some(resident_size),
        rc != 0 ==> sampled(Some(TaskSample { rc, resident_size })) is None,
        sampled(None) is None,
{
}

} // verus!
