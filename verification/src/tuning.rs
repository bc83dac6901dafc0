//! Settings of the operating system that bear on a relay's capacity: the
//! buffer of the zero-copy path, the ceiling on open files, the binding of a
//! socket to a network interface.
//!
//! The system calls themselves are the caller's. The library says what to ask
//! for, and what an answer means.

use vstd::prelude::*;

verus! {

/// What the platform can do. It is found out once, at start-up.
#[derive(Clone, Copy, Debug, PartialEq, Eq, Structural)]
pub struct Platform {
    /// Forwarding can move data inside the kernel.
    pub zero_copy: bool,
    /// A socket can be bound to a network interface.
    pub bind_device: bool,
}

/// Process-wide settings that every new relay session reads.
#[derive(Clone, Copy, Debug, PartialEq, Eq, Structural)]
pub struct Tuning {
    /// Size of the buffer of the zero-copy path, in bytes; absent as long as
    /// none was set.
    pub pipe_cap: Option<usize>,
}

/// What became of a request to raise the ceiling on open files.
#[derive(Clone, Copy, Debug, PartialEq, Eq, Structural)]
pub enum NofileReport {
    /// The ceiling now is this number.
    Raised(u64),
    /// The system refused. This is a warning, never the end of the process.
    Refused,
}

/// The ceiling on open files that stands after a request to set it to
/// `nofile`: soft and hard limit both at `nofile` where the system took the
/// request (`status` is not negative), the ceiling as it was where it did not.
pub open spec fn nofile_after(current: Option<(u64, u64)>, nofile: u64, status: i32) -> Option<
    (u64, u64),
> {
    if status < 0 {
        current
    } else {
        Some((nofile, nofile))
    }
}

/// The buffer size that forwarding works with under a setting: the size that
/// was set, unless it is zero, which no copy can work with; absent where the
/// copy is left to its own size.
pub open spec fn buffer_size(pipe_cap: Option<usize>) -> Option<usize> {
    match pipe_cap {
        Some(cap) => if cap > 0 {
            Some(cap)
        } else {
            None
        },
        None => None,
    }
}

impl Tuning {
    /// The settings of a process that has set nothing yet.
    pub fn new() -> (r: Tuning)
        ensures
            r.pipe_cap is None,
    {
        Tuning { pipe_cap: None }
    }
}

/// Sets the size of the buffer of the zero-copy path. Nothing happens on a
/// platform without that path.
pub fn set_pipe_cap(tuning: &mut Tuning, platform: &Platform, cap: usize)
    ensures
        final(tuning).pipe_cap == if platform.zero_copy {
            Some(cap)
        } else {
            old(tuning).pipe_cap
        },
{
    if platform.zero_copy {
        tuning.pipe_cap = Some(cap);
    }
}

/// The soft and the hard limit to ask the system for, so that the ceiling on
/// open files becomes `nofile`.
pub fn nofile_request(nofile: u64) -> (r: (u64, u64))
    ensures
        r == (nofile, nofile),
{
    (nofile, nofile)
}

/// Takes the system's answer to the request of `nofile_request`. `current` is
/// the ceiling before the request, as far as it is known. Gives the ceiling
/// that stands now, and what to tell the user.
pub fn set_nofile_limit(current: Option<(u64, u64)>, nofile: u64, status: i32) -> (r: (
    Option<(u64, u64)>,
    NofileReport,
))
    ensures
        r.0 == nofile_after(current, nofile, status),
        status < 0 ==> r.0 == current && r.1 == NofileReport::Refused,
        status >= 0 ==> r.1 == NofileReport::Raised(nofile),
{
    if status < 0 {
        (current, NofileReport::Refused)
    } else {
        (Some((nofile, nofile)), NofileReport::Raised(nofile))
    }
}

/// Takes the system's answer to a query of the ceiling on open files: the
/// soft and the hard limit, where the query went through.
pub fn get_nofile_limit(status: i32, soft: u64, hard: u64) -> (r: Option<(u64, u64)>)
    ensures
        r == if status < 0 {
            None
        } else {
            Some((soft, hard))
        },
{
    if status < 0 {
        None
    } else {
        Some((soft, hard))
    }
}

/// Takes the system's answer to the binding of a socket to an interface: the
/// system's own error number where it refused.
pub fn bind_to_device(status: i32, os_error: i32) -> (r: Result<(), i32>)
    ensures
        r == if status < 0 {
            Err::<(), i32>(os_error)
        } else {
            Ok::<(), i32>(())
        },
{
    if status < 0 {
        Err(os_error)
    } else {
        Ok(())
    }
}

} // verus!
