//! The socket on which diagnostics arrive: a listener never takes it from another
//! one that is alive, nor removes what is not its own.
use vstd::prelude::*;

verus! {

/// A file as the system tells it from any other.
#[derive(Clone, Copy, Debug, PartialEq, Eq, Structural)]
pub struct FileIdentity {
    pub device: u64,
    pub inode: u64,
}

/// What came of the last step towards the socket.
#[derive(Clone, Copy, Debug, PartialEq, Eq, Structural)]
pub enum SocketDone {
    /// Nothing was done yet.
    Nothing,
    Bound,
    /// The socket could not be bound; `in_use` says that something is there.
    NotBound { in_use: bool },
    /// What is there: a socket, and of the user that its directory belongs to.
    Looked { is_socket: bool, own: bool },
    /// A datagram was sent to it; `refused` says that nobody took it.
    Probed { refused: bool },
    /// What was there first, and what is there now.
    LookedAgain { first: FileIdentity, now: FileIdentity },
    /// What was there is gone.
    Removed,
}

/// What is done next.
#[derive(Clone, Copy, Debug, PartialEq, Eq)]
pub enum SocketStep {
    Bind,
    Look,
    Probe,
    LookAgain,
    Remove,
    /// The socket is had.
    Keep,
    /// It cannot be had; the text says why.
    Refuse(&'static str),
    /// It cannot be had, for the reason that the system gave.
    Fail,
}

pub open spec fn refuses(s: SocketStep, text: Seq<char>) -> bool {
    s matches SocketStep::Refuse(t) && t@ == text
}

/// The next step towards the socket.
pub open spec fn leads(s: SocketStep, done: SocketDone) -> bool {
    match done {
        SocketDone::Nothing => s is Bind,
        SocketDone::Bound => s is Keep,
        SocketDone::NotBound { in_use } => if in_use {
            s is Look
        } else {
            s is Fail
        },
        SocketDone::Looked { is_socket, own } => if is_socket && own {
            s is Probe
        } else {
            refuses(s, "diagnostic socket path is not a stale socket owned by this user"@)
        },
        SocketDone::Probed { refused } => if refused {
            s is LookAgain
        } else {
            refuses(s, "another live diagnostic listener owns the socket"@)
        },
        SocketDone::LookedAgain { first, now } => if first == now {
            s is Remove
        } else {
            refuses(s, "diagnostic socket changed while checking ownership"@)
        },
        SocketDone::Removed => s is Bind,
    }
}

/// The next step towards the socket. One that is in use is taken over only where it
/// is a socket of this user, nobody answers at it, and it is still the same one.
pub fn socket_step(done: SocketDone) -> (s: SocketStep)
    ensures
        leads(s, done),
{
    match done {
        SocketDone::Nothing => SocketStep::Bind,
        SocketDone::Bound => SocketStep::Keep,
        SocketDone::NotBound { in_use } => if in_use {
            SocketStep::Look
        } else {
            SocketStep::Fail
        },
        SocketDone::Looked { is_socket, own } => if is_socket && own {
            SocketStep::Probe
        } else {
            SocketStep::Refuse("diagnostic socket path is not a stale socket owned by this user")
        },
        SocketDone::Probed { refused } => if refused {
            SocketStep::LookAgain
        } else {
            SocketStep::Refuse("another live diagnostic listener owns the socket")
        },
        SocketDone::LookedAgain { first, now } => if first.device == now.device && first.inode
            == now.inode {
            SocketStep::Remove
        } else {
            SocketStep::Refuse("diagnostic socket changed while checking ownership")
        },
        SocketDone::Removed => SocketStep::Bind,
    }
}

/// Whether a listener that stops removes what is at its path: only its own socket.
pub fn removes_at_end(is_socket: bool, found: FileIdentity, own: FileIdentity) -> (r: bool)
    ensures
        r == (is_socket && found == own),
{
    is_socket && found.device == own.device && found.inode == own.inode
}

/// Nothing is removed but what was looked at and did not change since, and nothing is
/// looked at a second time but a socket at which nobody answered.
pub proof fn law_live_listeners_stay(s: SocketStep, done: SocketDone)
    requires
        leads(s, done),
    ensures
        s is Remove ==> (done matches SocketDone::LookedAgain { first, now } && first == now),
        s is LookAgain ==> (done matches SocketDone::Probed { refused } && refused),
        s is Probe ==> (done matches SocketDone::Looked { is_socket, own } && is_socket && own),
{
}

} // verus!
