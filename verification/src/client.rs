//! The client facade.
//!
//! One [`Client`] owns one transport connection and at most one session
//! over it. Every operation is validated against the session state
//! machine before any transport call: an operation invoked outside its
//! legal source state fails with `IllegalStateTransition` and provably
//! makes zero transport calls. A transport fault or a protocol
//! violation during an operation routes the session to `Failed` and
//! closes the link; `logout` always resets to `Disconnected`, whether
//! or not the server could be notified.

use vstd::prelude::*;

use crate::codec::{
    apps_view, app_wf, bytes_wf, clone_apps, clone_bytes, decode, encode, spec_decode,
    AppDescriptor, Message, MessageV,
};
use crate::state::{legal_source, Operation, SessionState};
use crate::transport::{
    cursor_plus, reply_at, transport_wf, Transport, TransportError, TransportReply,
};

verus! {

/// How many times in a row the server may reject credentials before
/// the session is considered failed rather than retryable.
pub const MAX_AUTH_ATTEMPTS: u32 = 3;

/// The error taxonomy of the facade.
///
/// `InvalidArgument` is caller misuse, rejected before any transport
/// call. `Transport` carries a network-level fault, retryable by caller
/// policy. `ProtocolError` is a malformed or unexpected message, not
/// retryable without a reconnect. `IllegalStateTransition` is an
/// operation attempted outside its legal session state.
/// `AuthenticationRejected` is bad credentials, retryable up to
/// [`MAX_AUTH_ATTEMPTS`]. `UnknownApp` is a launch target missing from
/// the last-fetched application list. `InternalError` is the mapping of
/// anything otherwise unmapped; no error is silently swallowed.
#[derive(Clone, Copy, PartialEq, Eq, Structural, Debug)]
pub enum RcpError {
    InvalidArgument,
    Transport(TransportError),
    ProtocolError,
    IllegalStateTransition,
    AuthenticationRejected,
    UnknownApp,
    InternalError,
}

/// The identity reported for an authenticated user. Populated on a
/// successful authentication and immutable until logout. The wire
/// protocol carries only the user identifier, so the display name and
/// email stay empty until a server provides them out of band.
pub struct UserIdentity {
    pub username: Vec<u8>,
    pub display_name: Vec<u8>,
    pub email: Vec<u8>,
}

/// What a successful launch returns: the launch identifier and the
/// display endpoint to attach to.
pub struct LaunchInfo {
    pub launch_id: Vec<u8>,
    pub display_url: Vec<u8>,
}

/// How a logout went: the local session always resets, and the report
/// says whether the server-side release notification was delivered.
#[derive(Clone, Copy, PartialEq, Eq, Structural, Debug)]
pub enum LogoutReport {
    Clean,
    NotificationFailed,
}

/// A session-oriented client for one remote host.
///
/// The client owns its transport exclusively and holds at most one
/// session over it: the connection identifier is set by a successful
/// connect, the session identifier and user by a successful
/// authentication, and the application list by a successful listing.
pub struct Client {
    pub state: SessionState,
    pub transport: Transport,
    pub connection_id: Vec<u8>,
    pub server_version: Vec<u8>,
    pub session_id: Vec<u8>,
    pub user_id: Vec<u8>,
    pub user: UserIdentity,
    pub token_expiry: u64,
    /// The last-fetched application list; empty until a listing
    /// succeeds, cleared on logout so a stale list is never trusted.
    pub apps: Vec<AppDescriptor>,
    pub auth_attempts: u32,
}

/// The client's invariant: the transport cursor is within its script,
/// the link is open in every state that may talk to the server, a
/// retryable session has retries left, and every stored identifier fits
/// the wire format so it can be re-sent.
pub open spec fn client_wf(c: Client) -> bool {
    &&& transport_wf(c.transport)
    &&& (c.state is Connected || c.state is Authenticated || c.state is Active)
        ==> c.transport.status is Open
    &&& c.state is Connected ==> c.auth_attempts < MAX_AUTH_ATTEMPTS
    &&& bytes_wf(c.connection_id@)
    &&& bytes_wf(c.server_version@)
    &&& bytes_wf(c.session_id@)
    &&& bytes_wf(c.user_id@)
    &&& c.apps@.len() <= u32::MAX
    &&& forall|i: int| 0 <= i < c.apps@.len() ==> app_wf(#[trigger] apps_view(c.apps@)[i])
}

/// What an exchange over the transport comes to: a fault at one of its
/// calls (with the number of calls consumed), or a delivered reply.
pub enum WireView {
    Failed { err: TransportError, calls: int },
    Delivered { bytes: Seq<u8> },
}

/// The outcome of a two-call exchange: a send, then a receive.
pub open spec fn wire2(t: Transport) -> WireView {
    match reply_at(t, 0) {
        TransportReply::Fault(e) => WireView::Failed { err: e, calls: 1 },
        _ => match reply_at(t, 1) {
            TransportReply::Fault(e) => WireView::Failed { err: e, calls: 2 },
            TransportReply::Accept => WireView::Failed { err: TransportError::Timeout, calls: 2 },
            TransportReply::Payload(p) => WireView::Delivered { bytes: p@ },
        },
    }
}

/// The outcome of a three-call exchange: an open, a send, a receive.
pub open spec fn wire3(t: Transport) -> WireView {
    match reply_at(t, 0) {
        TransportReply::Fault(e) => WireView::Failed { err: e, calls: 1 },
        _ => match reply_at(t, 1) {
            TransportReply::Fault(e) => WireView::Failed { err: e, calls: 2 },
            _ => match reply_at(t, 2) {
                TransportReply::Fault(e) => WireView::Failed { err: e, calls: 3 },
                TransportReply::Accept => WireView::Failed {
                    err: TransportError::Timeout,
                    calls: 3,
                },
                TransportReply::Payload(p) => WireView::Delivered { bytes: p@ },
            },
        },
    }
}

/// Whether `id` names an application of the list `apps`.
pub open spec fn has_app(apps: Seq<AppDescriptor>, id: Seq<u8>) -> bool {
    exists|i: int| 0 <= i < apps.len() && apps[i]@.id == id
}

/// Byte-string equality, for matching connection, session and
/// application identifiers.
pub fn ids_match(a: &Vec<u8>, b: &Vec<u8>) -> (r: bool)
    ensures
        r == (a@ == b@),
{
    if a.len() != b.len() {
        assert(a@ != b@);
        return false;
    }
    let mut i: usize = 0;
    while i < a.len()
        invariant
            i <= a.len(),
            a@.len() == b@.len(),
            forall|k: int| 0 <= k < i ==> a@[k] == b@[k],
        decreases a.len() - i,
    {
        if a[i] != b[i] {
            return false;
        }
        i = i + 1;
    }
    assert(a@ =~= b@);
    true
}

impl Client {
    /// A fresh client over the given transport, disconnected and
    /// holding no session.
    pub fn new(transport: Transport) -> (c: Client)
        requires
            transport_wf(transport),
        ensures
            client_wf(c),
            c.state is Disconnected,
            c.transport == transport,
            c.session_id@.len() == 0,
            c.connection_id@.len() == 0,
            c.apps@.len() == 0,
            c.auth_attempts == 0,
    {
        Client {
            state: SessionState::Disconnected,
            transport,
            connection_id: Vec::new(),
            server_version: Vec::new(),
            session_id: Vec::new(),
            user_id: Vec::new(),
            user: UserIdentity { username: Vec::new(), display_name: Vec::new(), email: Vec::new() },
            token_expiry: 0,
            apps: Vec::new(),
            auth_attempts: 0,
        }
    }

    /// Open a connection to `host:port` and perform the connect
    /// exchange.
    ///
    /// Legal only from `Disconnected`. An empty host or a zero port is
    /// rejected as `InvalidArgument` before any transport call. A
    /// transport fault routes to `Failed` (closing the link if it had
    /// opened), and a reply that is not a connect response is a
    /// `ProtocolError`. On success the connection identifier and server
    /// version are stored and the state advances to `Connected`.
    pub fn connect(&mut self, host: &Vec<u8>, port: u16, timeout_ms: u32) -> (r: Result<
        (),
        RcpError,
    >)
        requires
            client_wf(*old(self)),
            bytes_wf(host@),
        ensures
            client_wf(*final(self)),
            final(self).transport.script == old(self).transport.script,
            !legal_source(Operation::Connect, old(self).state) ==> r == Err::<(), RcpError>(
                RcpError::IllegalStateTransition,
            ) && *final(self) == *old(self),
            legal_source(Operation::Connect, old(self).state) && (host@.len() == 0 || port == 0)
                ==> r == Err::<(), RcpError>(RcpError::InvalidArgument) && *final(self) == *old(
                self,
            ),
            legal_source(Operation::Connect, old(self).state) && host@.len() > 0 && port != 0
                ==> ({
                let pre = *old(self);
                let post = *final(self);
                &&& post.session_id == pre.session_id
                &&& post.apps == pre.apps
                &&& post.user == pre.user
                &&& post.user_id == pre.user_id
                &&& post.token_expiry == pre.token_expiry
                &&& match wire3(pre.transport) {
                    WireView::Failed { err, calls } => {
                        &&& r == Err::<(), RcpError>(RcpError::Transport(err))
                        &&& post.state is Failed
                        &&& post.transport.cursor == cursor_plus(pre.transport, calls)
                        &&& (calls == 1 ==> post.transport.status is Failed)
                        &&& (calls > 1 ==> post.transport.status is Closed)
                    },
                    WireView::Delivered { bytes } => {
                        &&& post.transport.cursor == cursor_plus(pre.transport, 3)
                        &&& match spec_decode(bytes) {
                            Some(
                                MessageV::ConnectResponse { connection_id, server_version },
                            ) => {
                                &&& r == Ok::<(), RcpError>(())
                                &&& post.state is Connected
                                &&& post.connection_id@ == connection_id
                                &&& post.server_version@ == server_version
                                &&& post.transport.status is Open
                                &&& post.auth_attempts == 0
                            },
                            _ => {
                                &&& r == Err::<(), RcpError>(RcpError::ProtocolError)
                                &&& post.state is Failed
                                &&& post.transport.status is Closed
                            },
                        }
                    },
                }
            }),
    {
        if !matches!(self.state, SessionState::Disconnected) {
            return Err(RcpError::IllegalStateTransition);
        }
        if host.len() == 0 || port == 0 {
            return Err(RcpError::InvalidArgument);
        }
        self.state = SessionState::Connecting;
        match self.transport.open(host, port, timeout_ms) {
            Err(e) => {
                self.state = SessionState::Failed;
                return Err(RcpError::Transport(e));
            },
            Ok(()) => {},
        }
        let host_copy = host.clone();
        assert(host_copy@ =~= host@);
        let request = Message::ConnectRequest { host: host_copy, port, timeout_ms };
        let request_bytes = encode(&request);
        match self.transport.send(&request_bytes) {
            Err(e) => {
                self.state = SessionState::Failed;
                self.transport.close();
                return Err(RcpError::Transport(e));
            },
            Ok(()) => {},
        }
        let reply = match self.transport.receive() {
            Err(e) => {
                self.state = SessionState::Failed;
                self.transport.close();
                return Err(RcpError::Transport(e));
            },
            Ok(b) => b,
        };
        match decode(reply.as_slice()) {
            Ok(Message::ConnectResponse { connection_id, server_version }) => {
                self.connection_id = connection_id;
                self.server_version = server_version;
                self.auth_attempts = 0;
                self.state = SessionState::Connected;
                Ok(())
            },
            _ => {
                self.state = SessionState::Failed;
                self.transport.close();
                Err(RcpError::ProtocolError)
            },
        }
    }

    /// Authenticate the given user over the connected link.
    ///
    /// Legal only from `Connected`. An empty username is rejected as
    /// `InvalidArgument` before any transport call; the password is
    /// sent to the server and never stored. A rejection by the server
    /// counts against [`MAX_AUTH_ATTEMPTS`]: while attempts remain the
    /// session returns to `Connected` for a retry, otherwise it fails.
    /// On success the session identifier, user identity and token
    /// expiry are stored and the state advances to `Authenticated`.
    pub fn authenticate(&mut self, username: &Vec<u8>, password: &Vec<u8>) -> (r: Result<
        (),
        RcpError,
    >)
        requires
            client_wf(*old(self)),
            bytes_wf(username@),
            bytes_wf(password@),
        ensures
            client_wf(*final(self)),
            final(self).transport.script == old(self).transport.script,
            !legal_source(Operation::Authenticate, old(self).state) ==> r == Err::<(), RcpError>(
                RcpError::IllegalStateTransition,
            ) && *final(self) == *old(self),
            legal_source(Operation::Authenticate, old(self).state) && username@.len() == 0 ==> r
                == Err::<(), RcpError>(RcpError::InvalidArgument) && *final(self) == *old(self),
            legal_source(Operation::Authenticate, old(self).state) && username@.len() > 0 ==> ({
                let pre = *old(self);
                let post = *final(self);
                &&& post.connection_id == pre.connection_id
                &&& post.apps == pre.apps
                &&& match wire2(pre.transport) {
                    WireView::Failed { err, calls } => {
                        &&& r == Err::<(), RcpError>(RcpError::Transport(err))
                        &&& post.state is Failed
                        &&& post.transport.cursor == cursor_plus(pre.transport, calls)
                        &&& post.transport.status is Closed
                        &&& post.session_id == pre.session_id
                    },
                    WireView::Delivered { bytes } => {
                        &&& post.transport.cursor == cursor_plus(pre.transport, 2)
                        &&& match spec_decode(bytes) {
                            Some(MessageV::AuthResponse { session_id, user_id, token_expiry }) => {
                                &&& r == Ok::<(), RcpError>(())
                                &&& post.state is Authenticated
                                &&& post.session_id@ == session_id
                                &&& post.user_id@ == user_id
                                &&& post.token_expiry == token_expiry
                                &&& post.user.username@ == username@
                                &&& post.transport.status is Open
                                &&& post.auth_attempts == 0
                            },
                            Some(MessageV::ErrorResponse { .. }) => {
                                &&& r == Err::<(), RcpError>(RcpError::AuthenticationRejected)
                                &&& post.session_id == pre.session_id
                                &&& post.auth_attempts == pre.auth_attempts + 1
                                &&& (pre.auth_attempts + 1 < MAX_AUTH_ATTEMPTS ==> post.state
                                    is Connected && post.transport.status is Open)
                                &&& (pre.auth_attempts + 1 >= MAX_AUTH_ATTEMPTS ==> post.state
                                    is Failed && post.transport.status is Closed)
                            },
                            _ => {
                                &&& r == Err::<(), RcpError>(RcpError::ProtocolError)
                                &&& post.state is Failed
                                &&& post.transport.status is Closed
                            },
                        }
                    },
                }
            }),
    {
        if !matches!(self.state, SessionState::Connected) {
            return Err(RcpError::IllegalStateTransition);
        }
        if username.len() == 0 {
            return Err(RcpError::InvalidArgument);
        }
        self.state = SessionState::Authenticating;
        let request = Message::AuthRequest {
            connection_id: clone_bytes(&self.connection_id),
            username: clone_bytes(username),
            password: clone_bytes(password),
        };
        let request_bytes = encode(&request);
        match self.transport.send(&request_bytes) {
            Err(e) => {
                self.state = SessionState::Failed;
                self.transport.close();
                return Err(RcpError::Transport(e));
            },
            Ok(()) => {},
        }
        let reply = match self.transport.receive() {
            Err(e) => {
                self.state = SessionState::Failed;
                self.transport.close();
                return Err(RcpError::Transport(e));
            },
            Ok(b) => b,
        };
        match decode(reply.as_slice()) {
            Ok(Message::AuthResponse { session_id, user_id, token_expiry }) => {
                self.session_id = session_id;
                self.user_id = user_id;
                self.token_expiry = token_expiry;
                self.user = UserIdentity {
                    username: clone_bytes(username),
                    display_name: Vec::new(),
                    email: Vec::new(),
                };
                self.auth_attempts = 0;
                self.state = SessionState::Authenticated;
                Ok(())
            },
            Ok(Message::ErrorResponse { .. }) => {
                self.auth_attempts = self.auth_attempts + 1;
                if self.auth_attempts < MAX_AUTH_ATTEMPTS {
                    self.state = SessionState::Connected;
                } else {
                    self.state = SessionState::Failed;
                    self.transport.close();
                }
                Err(RcpError::AuthenticationRejected)
            },
            _ => {
                self.state = SessionState::Failed;
                self.transport.close();
                Err(RcpError::ProtocolError)
            },
        }
    }

    /// Fetch the ordered application list for the current session.
    ///
    /// Legal from `Authenticated` or `Active`; a read operation, so the
    /// lifecycle state is left where it was. The returned sequence is
    /// the server's, in the server's order; a copy is kept as the
    /// last-fetched list that gates launching.
    pub fn list_apps(&mut self) -> (r: Result<Vec<AppDescriptor>, RcpError>)
        requires
            client_wf(*old(self)),
        ensures
            client_wf(*final(self)),
            final(self).transport.script == old(self).transport.script,
            !legal_source(Operation::ListApps, old(self).state) ==> r == Err::<
                Vec<AppDescriptor>,
                RcpError,
            >(RcpError::IllegalStateTransition) && *final(self) == *old(self),
            legal_source(Operation::ListApps, old(self).state) ==> ({
                let pre = *old(self);
                let post = *final(self);
                &&& post.connection_id == pre.connection_id
                &&& post.session_id == pre.session_id
                &&& post.user == pre.user
                &&& post.user_id == pre.user_id
                &&& post.token_expiry == pre.token_expiry
                &&& post.auth_attempts == pre.auth_attempts
                &&& match wire2(pre.transport) {
                    WireView::Failed { err, calls } => {
                        &&& r == Err::<Vec<AppDescriptor>, RcpError>(RcpError::Transport(err))
                        &&& post.state is Failed
                        &&& post.transport.cursor == cursor_plus(pre.transport, calls)
                        &&& post.transport.status is Closed
                        &&& post.apps == pre.apps
                    },
                    WireView::Delivered { bytes } => {
                        &&& post.transport.cursor == cursor_plus(pre.transport, 2)
                        &&& match spec_decode(bytes) {
                            Some(MessageV::ListAppsResponse { apps }) => {
                                &&& r matches Ok(v) && apps_view(v@) == apps
                                &&& apps_view(post.apps@) == apps
                                &&& post.state == pre.state
                                &&& post.transport.status is Open
                            },
                            _ => {
                                &&& r == Err::<Vec<AppDescriptor>, RcpError>(
                                    RcpError::ProtocolError,
                                )
                                &&& post.state is Failed
                                &&& post.transport.status is Closed
                                &&& post.apps == pre.apps
                            },
                        }
                    },
                }
            }),
    {
        if !matches!(self.state, SessionState::Authenticated | SessionState::Active) {
            return Err(RcpError::IllegalStateTransition);
        }
        let request = Message::ListAppsRequest { session_id: clone_bytes(&self.session_id) };
        let request_bytes = encode(&request);
        match self.transport.send(&request_bytes) {
            Err(e) => {
                self.state = SessionState::Failed;
                self.transport.close();
                return Err(RcpError::Transport(e));
            },
            Ok(()) => {},
        }
        let reply = match self.transport.receive() {
            Err(e) => {
                self.state = SessionState::Failed;
                self.transport.close();
                return Err(RcpError::Transport(e));
            },
            Ok(b) => b,
        };
        match decode(reply.as_slice()) {
            Ok(Message::ListAppsResponse { apps }) => {
                proof {
                    crate::codec::lemma_decode_wf(reply@);
                }
                self.apps = clone_apps(&apps);
                Ok(apps)
            },
            _ => {
                self.state = SessionState::Failed;
                self.transport.close();
                Err(RcpError::ProtocolError)
            },
        }
    }

    /// Launch the application named by `app_id`.
    ///
    /// Legal from `Authenticated` or `Active`, and only for an
    /// identifier present in the last-fetched application list: a
    /// launch must be preceded by a successful listing, so a blind
    /// launch is rejected as `UnknownApp` before any transport call.
    /// On success the launch identifier and display endpoint are
    /// returned and the session becomes `Active`.
    pub fn launch_app(&mut self, app_id: &Vec<u8>) -> (r: Result<LaunchInfo, RcpError>)
        requires
            client_wf(*old(self)),
            bytes_wf(app_id@),
        ensures
            client_wf(*final(self)),
            final(self).transport.script == old(self).transport.script,
            !legal_source(Operation::LaunchApp, old(self).state) ==> r == Err::<
                LaunchInfo,
                RcpError,
            >(RcpError::IllegalStateTransition) && *final(self) == *old(self),
            legal_source(Operation::LaunchApp, old(self).state) && !has_app(
                old(self).apps@,
                app_id@,
            ) ==> r == Err::<LaunchInfo, RcpError>(RcpError::UnknownApp) && *final(self) == *old(
                self,
            ),
            legal_source(Operation::LaunchApp, old(self).state) && has_app(
                old(self).apps@,
                app_id@,
            ) ==> ({
                let pre = *old(self);
                let post = *final(self);
                &&& post.connection_id == pre.connection_id
                &&& post.session_id == pre.session_id
                &&& post.apps == pre.apps
                &&& post.user == pre.user
                &&& post.user_id == pre.user_id
                &&& post.token_expiry == pre.token_expiry
                &&& post.auth_attempts == pre.auth_attempts
                &&& match wire2(pre.transport) {
                    WireView::Failed { err, calls } => {
                        &&& r == Err::<LaunchInfo, RcpError>(RcpError::Transport(err))
                        &&& post.state is Failed
                        &&& post.transport.cursor == cursor_plus(pre.transport, calls)
                        &&& post.transport.status is Closed
                    },
                    WireView::Delivered { bytes } => {
                        &&& post.transport.cursor == cursor_plus(pre.transport, 2)
                        &&& match spec_decode(bytes) {
                            Some(MessageV::LaunchResponse { launch_id, display_url }) => {
                                &&& r matches Ok(info) && info.launch_id@ == launch_id
                                    && info.display_url@ == display_url
                                &&& post.state is Active
                                &&& post.transport.status is Open
                            },
                            _ => {
                                &&& r == Err::<LaunchInfo, RcpError>(RcpError::ProtocolError)
                                &&& post.state is Failed
                                &&& post.transport.status is Closed
                            },
                        }
                    },
                }
            }),
    {
        if !matches!(self.state, SessionState::Authenticated | SessionState::Active) {
            return Err(RcpError::IllegalStateTransition);
        }
        let mut known = false;
        let mut i: usize = 0;
        while i < self.apps.len()
            invariant
                i <= self.apps@.len(),
                known == exists|k: int| 0 <= k < i && self.apps@[k]@.id == app_id@,
            decreases self.apps@.len() - i,
        {
            if ids_match(&self.apps[i].id, app_id) {
                known = true;
            }
            i = i + 1;
        }
        if !known {
            return Err(RcpError::UnknownApp);
        }
        let request = Message::LaunchRequest {
            session_id: clone_bytes(&self.session_id),
            app_id: clone_bytes(app_id),
        };
        let request_bytes = encode(&request);
        match self.transport.send(&request_bytes) {
            Err(e) => {
                self.state = SessionState::Failed;
                self.transport.close();
                return Err(RcpError::Transport(e));
            },
            Ok(()) => {},
        }
        let reply = match self.transport.receive() {
            Err(e) => {
                self.state = SessionState::Failed;
                self.transport.close();
                return Err(RcpError::Transport(e));
            },
            Ok(b) => b,
        };
        match decode(reply.as_slice()) {
            Ok(Message::LaunchResponse { launch_id, display_url }) => {
                self.state = SessionState::Active;
                Ok(LaunchInfo { launch_id, display_url })
            },
            _ => {
                self.state = SessionState::Failed;
                self.transport.close();
                Err(RcpError::ProtocolError)
            },
        }
    }

    /// Record that the connection was lost.
    ///
    /// From any state the session fails and the link is closed: the
    /// session is recovered only by an explicit logout back to
    /// `Disconnected`. The stored identifiers are kept for diagnosis;
    /// no operation trusts them from `Failed`, and logout clears them.
    pub fn connection_lost(&mut self)
        requires
            client_wf(*old(self)),
        ensures
            client_wf(*final(self)),
            final(self).state is Failed,
            final(self).transport.status is Closed,
            final(self).transport.script == old(self).transport.script,
            final(self).transport.cursor == old(self).transport.cursor,
            final(self).session_id == old(self).session_id,
            final(self).connection_id == old(self).connection_id,
            final(self).apps == old(self).apps,
    {
        self.state = SessionState::Failed;
        self.transport.close();
    }

    /// End the session and the connection.
    ///
    /// Legal from every state, and it always succeeds locally: the
    /// session and connection identifiers, user identity and cached
    /// application list are cleared, the link is closed, and the state
    /// is `Disconnected`, whatever the server said. From an
    /// authenticated session the server is notified with a session
    /// release message first; a transport fault there is reported as a
    /// non-fatal warning, never as a failure. From any other state
    /// there is nothing to notify and no transport call is made.
    pub fn logout(&mut self) -> (r: LogoutReport)
        requires
            client_wf(*old(self)),
        ensures
            client_wf(*final(self)),
            final(self).transport.script == old(self).transport.script,
            final(self).state is Disconnected,
            final(self).transport.status is Closed,
            final(self).session_id@.len() == 0,
            final(self).connection_id@.len() == 0,
            final(self).user_id@.len() == 0,
            final(self).user.username@.len() == 0,
            final(self).apps@.len() == 0,
            final(self).auth_attempts == 0,
            (old(self).state is Authenticated || old(self).state is Active) ==> ({
                &&& final(self).transport.cursor == cursor_plus(old(self).transport, 1)
                &&& r == (match reply_at(old(self).transport, 0) {
                    TransportReply::Fault(_) => LogoutReport::NotificationFailed,
                    _ => LogoutReport::Clean,
                })
            }),
            !(old(self).state is Authenticated || old(self).state is Active) ==> final(self).transport.cursor
                == old(self).transport.cursor && r == LogoutReport::Clean,
    {
        let mut report = LogoutReport::Clean;
        if matches!(self.state, SessionState::Authenticated | SessionState::Active) {
            let request = Message::LogoutRequest { session_id: clone_bytes(&self.session_id) };
            let request_bytes = encode(&request);
            match self.transport.send(&request_bytes) {
                Err(_) => {
                    report = LogoutReport::NotificationFailed;
                },
                Ok(()) => {},
            }
        }
        self.transport.close();
        self.connection_id = Vec::new();
        self.server_version = Vec::new();
        self.session_id = Vec::new();
        self.user_id = Vec::new();
        self.user = UserIdentity {
            username: Vec::new(),
            display_name: Vec::new(),
            email: Vec::new(),
        };
        self.token_expiry = 0;
        self.apps = Vec::new();
        self.auth_attempts = 0;
        self.state = SessionState::Disconnected;
        report
    }
}

} // verus!
