//! The session lifecycle: states, operations, and which operation is
//! legal in which state.

use vstd::prelude::*;

verus! {

/// Lifecycle of one client session.
///
/// `Disconnected` is the initial state and the only state from which a
/// new connection may be opened. `Failed` records a fatal fault (a
/// transport error or a protocol violation); it is left only by an
/// explicit `logout`, which resets to `Disconnected`. `Connecting` and
/// `Authenticating` are the transient states a facade operation passes
/// through while an exchange is in flight.
#[derive(Clone, Copy, PartialEq, Eq, Structural, Debug)]
pub enum SessionState {
    Disconnected,
    Connecting,
    Connected,
    Authenticating,
    Authenticated,
    Active,
    Failed,
}

/// The operations of the client facade, named so that the legality of
/// an operation in a state can be stated in one place.
#[derive(Clone, Copy, PartialEq, Eq, Structural, Debug)]
pub enum Operation {
    Connect,
    Authenticate,
    ListApps,
    LaunchApp,
    Logout,
}

/// The source states from which each operation may be invoked.
///
/// An operation invoked outside its legal source state fails with
/// `IllegalStateTransition` and touches neither the session nor the
/// transport. `Logout` is legal everywhere: `Disconnected` is reachable
/// from every state by an explicit logout, which is also the only way
/// out of `Failed`.
pub open spec fn legal_source(op: Operation, s: SessionState) -> bool {
    match op {
        Operation::Connect => s is Disconnected,
        Operation::Authenticate => s is Connected,
        Operation::ListApps => s is Authenticated || s is Active,
        Operation::LaunchApp => s is Authenticated || s is Active,
        Operation::Logout => true,
    }
}

/// Executable mirror of [`legal_source`], for callers that must test an
/// operation's legality before invoking it.
pub fn is_legal_source(op: Operation, s: SessionState) -> (r: bool)
    ensures
        r == legal_source(op, s),
{
    match op {
        Operation::Connect => matches!(s, SessionState::Disconnected),
        Operation::Authenticate => matches!(s, SessionState::Connected),
        Operation::ListApps => matches!(s, SessionState::Authenticated | SessionState::Active),
        Operation::LaunchApp => matches!(s, SessionState::Authenticated | SessionState::Active),
        Operation::Logout => true,
    }
}

} // verus!
