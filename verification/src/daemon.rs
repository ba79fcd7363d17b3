//! What the daemon makes of the link to its terminal and of devices that come
//! and go.

use vstd::prelude::*;

verus! {

/// How long the daemon waits before it looks for a device again, in seconds.
pub const RETRY_SECONDS: u64 = 1;

/// Why the link to the terminal could not be removed or made.
#[derive(Clone, Copy, Debug, PartialEq, Eq, Structural)]
pub enum LinkFailure {
    /// There is nothing at its place.
    NotFound,
    /// The daemon may not change its place.
    PermissionDenied,
    /// Anything else.
    Other,
}

/// What came of making the link to the terminal.
#[derive(Clone, Copy, Debug, PartialEq, Eq, Structural)]
pub enum Link {
    /// The link is there.
    Made,
    /// The daemon goes on without it; the terminal has to be used directly.
    Forgone,
    /// The daemon cannot go on.
    Failed,
}

/// How the work with a device ended.
#[derive(Clone, Copy, Debug, PartialEq, Eq, Structural)]
pub enum Ended {
    /// The terminal or the device reached its end.
    Cleanly,
    /// There was no device.
    DeviceNotFound,
    /// Something went wrong.
    Failed,
}

/// What is said when the work with a device has ended.
#[derive(Clone, Copy, Debug, PartialEq, Eq, Structural)]
pub struct Notice {
    /// That the device was lost, and why.
    pub disconnected: bool,
    /// That a device is waited for.
    pub waiting: bool,
}

/// Whether the daemon goes on after it tried to remove the link of an earlier
/// run: the link is removed, or there was none.
pub fn goes_on_after_removal(removed: Result<(), LinkFailure>) -> (goes_on: bool)
    ensures
        goes_on == (removed is Ok || removed == Err::<(), LinkFailure>(LinkFailure::NotFound)),
{
    match removed {
        Ok(()) => true,
        Err(LinkFailure::NotFound) => true,
        Err(_) => false,
    }
}

/// What came of trying to make the link: a daemon that may not make it goes on
/// without it.
pub fn link_made(made: Result<(), LinkFailure>) -> (link: Link)
    ensures
        link == match made {
            Ok(_) => Link::Made,
            Err(failure) => if failure == LinkFailure::PermissionDenied {
                Link::Forgone
            } else {
                Link::Failed
            },
        },
{
    match made {
        Ok(()) => Link::Made,
        Err(LinkFailure::PermissionDenied) => Link::Forgone,
        Err(_) => Link::Failed,
    }
}

/// What is said when the work with a device has ended. While no device is
/// there nothing is said, since that is found anew every second.
pub fn notice(ended: Ended) -> (notice: Notice)
    ensures
        notice.disconnected == (ended == Ended::Failed),
        notice.waiting == (ended != Ended::DeviceNotFound),
{
    match ended {
        Ended::Cleanly => Notice { disconnected: false, waiting: true },
        Ended::DeviceNotFound => Notice { disconnected: false, waiting: false },
        Ended::Failed => Notice { disconnected: true, waiting: true },
    }
}

} // verus!
