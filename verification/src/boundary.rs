//! The boundary adapter.
//!
//! The adapter wraps each facade outcome in a [`BoundaryResult`], the
//! only shape that crosses to a foreign caller: a tagged outcome that
//! is success-with-payload or failure-with-message, owning every byte
//! it carries. A successful payload is the canonical wire encoding of
//! the operation's response message, so the caller can decode it with
//! the same codec. Every result handed out must be released exactly
//! once through [`Boundary::release_result`]; the adapter counts the
//! results outstanding, release empties the result and is an idempotent
//! no-op on an already released one. The boundary language cannot
//! enforce the release obligation, so it is stated here: one release
//! per result received, after every call.

use vstd::prelude::*;

use crate::client::{
    client_wf, has_app, wire2, wire3, Client, LogoutReport, RcpError, WireView,
};
use crate::codec::{
    apps_view, bytes_wf, clone_bytes, encode, lemma_decode_wf, spec_decode, spec_encode, Message,
    MessageV,
};
use crate::state::{legal_source, Operation};
use crate::transport::{reply_at, TransportError};

verus! {

/// The ownership-transferring envelope that crosses the boundary.
///
/// Exactly one of the two shapes is populated: on success, `payload`
/// holds the encoded response message; on failure, `error` names the
/// fault and `message` spells it out. `live` is true from the moment
/// the result is handed out until it is released.
pub struct BoundaryResult {
    pub success: bool,
    pub payload: Vec<u8>,
    pub message: String,
    pub error: Option<RcpError>,
    pub live: bool,
}

/// The boundary adapter: one client, and the count of results handed
/// out that the caller has not yet released.
pub struct Boundary {
    pub client: Client,
    pub outstanding: u64,
}

/// The message text of each failure, as the caller sees it.
pub open spec fn spec_message(e: RcpError) -> Seq<char> {
    match e {
        RcpError::InvalidArgument => "invalid argument"@,
        RcpError::Transport(TransportError::HostUnreachable) => "transport error: host unreachable"@,
        RcpError::Transport(TransportError::Timeout) => "transport error: timeout"@,
        RcpError::Transport(TransportError::LinkReset) => "transport error: link reset"@,
        RcpError::ProtocolError => "protocol error: malformed or unexpected message"@,
        RcpError::IllegalStateTransition => "illegal state transition"@,
        RcpError::AuthenticationRejected => "authentication rejected"@,
        RcpError::UnknownApp => "unknown application"@,
        RcpError::InternalError => "internal error"@,
    }
}

/// The non-fatal warning a logout reports when the server-side
/// notification could not be delivered.
pub open spec fn spec_logout_warning() -> Seq<char> {
    "logout: server notification not delivered"@
}

/// The message text of a failure, rendered for the caller.
pub fn error_message(e: &RcpError) -> (r: String)
    ensures
        r@ == spec_message(*e),
{
    match e {
        RcpError::InvalidArgument => "invalid argument".to_owned(),
        RcpError::Transport(TransportError::HostUnreachable) => {
            "transport error: host unreachable".to_owned()
        },
        RcpError::Transport(TransportError::Timeout) => "transport error: timeout".to_owned(),
        RcpError::Transport(TransportError::LinkReset) => "transport error: link reset".to_owned(),
        RcpError::ProtocolError => "protocol error: malformed or unexpected message".to_owned(),
        RcpError::IllegalStateTransition => "illegal state transition".to_owned(),
        RcpError::AuthenticationRejected => "authentication rejected".to_owned(),
        RcpError::UnknownApp => "unknown application".to_owned(),
        RcpError::InternalError => "internal error".to_owned(),
    }
}

/// What releasing does to the allocation account: a live result gives
/// its allocation back and goes dead; a dead one changes nothing.
pub open spec fn spec_release(outstanding: u64, live: bool) -> (u64, bool) {
    if live && outstanding > 0 {
        ((outstanding - 1) as u64, false)
    } else if live {
        (0u64, false)
    } else {
        (outstanding, false)
    }
}

/// Releasing a result exactly once returns the allocation account to
/// what it was before that result was handed out: handing out and
/// releasing balance, and no allocation is left outstanding.
pub proof fn lemma_release_balances(outstanding: u64)
    requires
        outstanding < u64::MAX,
    ensures
        spec_release((outstanding + 1) as u64, true).0 == outstanding,
{
}

/// Releasing twice is a no-op, not a fault: a second release of the
/// same result changes neither the account nor the result.
pub proof fn lemma_release_idempotent(outstanding: u64, live: bool)
    ensures
        spec_release(spec_release(outstanding, live).0, spec_release(outstanding, live).1)
            == (spec_release(outstanding, live).0, false),
{
}

/// The outcome a connect call comes to, before any of it runs: the
/// argument checks, the state check, then the wire exchange.
pub open spec fn connect_outcome(c: Client, host: Seq<u8>, port: int, timeout_ms: int) -> Result<
    (),
    RcpError,
> {
    if port < 1 || port > 65535 || timeout_ms < 0 {
        Err(RcpError::InvalidArgument)
    } else if !legal_source(Operation::Connect, c.state) {
        Err(RcpError::IllegalStateTransition)
    } else if host.len() == 0 {
        Err(RcpError::InvalidArgument)
    } else {
        match wire3(c.transport) {
            WireView::Failed { err, .. } => Err(RcpError::Transport(err)),
            WireView::Delivered { bytes } => match spec_decode(bytes) {
                Some(MessageV::ConnectResponse { .. }) => Ok(()),
                _ => Err(RcpError::ProtocolError),
            },
        }
    }
}

pub open spec fn authenticate_outcome(
    c: Client,
    connection_id: Seq<u8>,
    username: Seq<u8>,
) -> Result<(), RcpError> {
    if connection_id != c.connection_id@ {
        Err(RcpError::InvalidArgument)
    } else if !legal_source(Operation::Authenticate, c.state) {
        Err(RcpError::IllegalStateTransition)
    } else if username.len() == 0 {
        Err(RcpError::InvalidArgument)
    } else {
        match wire2(c.transport) {
            WireView::Failed { err, .. } => Err(RcpError::Transport(err)),
            WireView::Delivered { bytes } => match spec_decode(bytes) {
                Some(MessageV::AuthResponse { .. }) => Ok(()),
                Some(MessageV::ErrorResponse { .. }) => Err(RcpError::AuthenticationRejected),
                _ => Err(RcpError::ProtocolError),
            },
        }
    }
}

pub open spec fn list_apps_outcome(c: Client, session_id: Seq<u8>) -> Result<(), RcpError> {
    if session_id != c.session_id@ {
        Err(RcpError::InvalidArgument)
    } else if !legal_source(Operation::ListApps, c.state) {
        Err(RcpError::IllegalStateTransition)
    } else {
        match wire2(c.transport) {
            WireView::Failed { err, .. } => Err(RcpError::Transport(err)),
            WireView::Delivered { bytes } => match spec_decode(bytes) {
                Some(MessageV::ListAppsResponse { .. }) => Ok(()),
                _ => Err(RcpError::ProtocolError),
            },
        }
    }
}

pub open spec fn launch_app_outcome(c: Client, session_id: Seq<u8>, app_id: Seq<u8>) -> Result<
    (),
    RcpError,
> {
    if session_id != c.session_id@ {
        Err(RcpError::InvalidArgument)
    } else if !legal_source(Operation::LaunchApp, c.state) {
        Err(RcpError::IllegalStateTransition)
    } else if !has_app(c.apps@, app_id) {
        Err(RcpError::UnknownApp)
    } else {
        match wire2(c.transport) {
            WireView::Failed { err, .. } => Err(RcpError::Transport(err)),
            WireView::Delivered { bytes } => match spec_decode(bytes) {
                Some(MessageV::LaunchResponse { .. }) => Ok(()),
                _ => Err(RcpError::ProtocolError),
            },
        }
    }
}

pub open spec fn logout_outcome(c: Client, session_id: Seq<u8>) -> Result<(), RcpError> {
    if session_id != c.session_id@ {
        Err(RcpError::InvalidArgument)
    } else {
        Ok(())
    }
}

impl Boundary {
    /// A fresh adapter around a client, with nothing outstanding.
    pub fn new(client: Client) -> (b: Boundary)
        requires
            client_wf(client),
        ensures
            client_wf(b.client),
            b.client == client,
            b.outstanding == 0,
    {
        Boundary { client, outstanding: 0 }
    }

    /// Wrap a failure in an owned result envelope.
    fn fail(&mut self, e: RcpError) -> (r: BoundaryResult)
        requires
            old(self).outstanding < u64::MAX,
        ensures
            *final(self) == (Boundary {
                outstanding: (old(self).outstanding + 1) as u64,
                ..*old(self)
            }),
            r.live,
            !r.success,
            r.error == Some(e),
            r.message@ == spec_message(e),
            r.payload@.len() == 0,
    {
        self.outstanding = self.outstanding + 1;
        BoundaryResult {
            success: false,
            payload: Vec::new(),
            message: error_message(&e),
            error: Some(e),
            live: true,
        }
    }

    /// Wrap a success and its payload in an owned result envelope.
    fn succeed(&mut self, payload: Vec<u8>) -> (r: BoundaryResult)
        requires
            old(self).outstanding < u64::MAX,
        ensures
            *final(self) == (Boundary {
                outstanding: (old(self).outstanding + 1) as u64,
                ..*old(self)
            }),
            r.live,
            r.success,
            r.error is None,
            r.message@.len() == 0,
            r.payload == payload,
    {
        self.outstanding = self.outstanding + 1;
        let empty = "".to_owned();
        proof {
            reveal_strlit("");
        }
        BoundaryResult { success: true, payload, message: empty, error: None, live: true }
    }

    /// Connect to `host:port`: validate the port and timeout ranges,
    /// drive the facade, and wrap the outcome. On success the payload
    /// is the encoded connect response: the connection identifier and
    /// the server version.
    pub fn connect(&mut self, host: &Vec<u8>, port: i32, timeout_ms: i32) -> (r: BoundaryResult)
        requires
            client_wf(old(self).client),
            bytes_wf(host@),
            old(self).outstanding < u64::MAX,
        ensures
            client_wf(final(self).client),
            final(self).outstanding == old(self).outstanding + 1,
            r.live,
            ({
                let outcome = connect_outcome(old(self).client, host@, port as int,
                    timeout_ms as int);
                &&& r.success == outcome is Ok
                &&& (outcome matches Err(e) ==> r.error == Some(e) && r.message@ == spec_message(e)
                    && r.payload@.len() == 0)
                &&& (outcome is Ok ==> r.error is None && r.message@.len() == 0
                    && final(self).client.state is Connected && r.payload@ == spec_encode(
                    (MessageV::ConnectResponse {
                        connection_id: final(self).client.connection_id@,
                        server_version: final(self).client.server_version@,
                    }),
                ))
                &&& ((outcome == Err::<(), RcpError>(RcpError::InvalidArgument) || outcome
                    == Err::<(), RcpError>(RcpError::IllegalStateTransition)) ==> final(self).client == old(self).client)
            }),
    {
        if port < 1 || port > 65535 || timeout_ms < 0 {
            return self.fail(RcpError::InvalidArgument);
        }
        match self.client.connect(host, port as u16, timeout_ms as u32) {
            Err(e) => self.fail(e),
            Ok(()) => {
                let response = Message::ConnectResponse {
                    connection_id: clone_bytes(&self.client.connection_id),
                    server_version: clone_bytes(&self.client.server_version),
                };
                let payload = encode(&response);
                self.succeed(payload)
            },
        }
    }

    /// Authenticate `username` on the named connection: the connection
    /// identifier must be the one connect returned. On success the
    /// payload is the encoded authentication response: the session
    /// identifier, the user identifier and the token expiry.
    pub fn authenticate(
        &mut self,
        connection_id: &Vec<u8>,
        username: &Vec<u8>,
        password: &Vec<u8>,
    ) -> (r: BoundaryResult)
        requires
            client_wf(old(self).client),
            bytes_wf(username@),
            bytes_wf(password@),
            old(self).outstanding < u64::MAX,
        ensures
            client_wf(final(self).client),
            final(self).outstanding == old(self).outstanding + 1,
            r.live,
            ({
                let outcome = authenticate_outcome(old(self).client, connection_id@, username@);
                &&& r.success == outcome is Ok
                &&& (outcome matches Err(e) ==> r.error == Some(e) && r.message@ == spec_message(e)
                    && r.payload@.len() == 0)
                &&& (outcome is Ok ==> r.error is None && r.message@.len() == 0
                    && final(self).client.state is Authenticated && r.payload@ == spec_encode(
                    (MessageV::AuthResponse {
                        session_id: final(self).client.session_id@,
                        user_id: final(self).client.user_id@,
                        token_expiry: final(self).client.token_expiry,
                    }),
                ))
                &&& ((outcome == Err::<(), RcpError>(RcpError::InvalidArgument) || outcome
                    == Err::<(), RcpError>(RcpError::IllegalStateTransition)) ==> final(self).client == old(self).client)
            }),
    {
        if !crate::client::ids_match(connection_id, &self.client.connection_id) {
            return self.fail(RcpError::InvalidArgument);
        }
        match self.client.authenticate(username, password) {
            Err(e) => self.fail(e),
            Ok(()) => {
                let response = Message::AuthResponse {
                    session_id: clone_bytes(&self.client.session_id),
                    user_id: clone_bytes(&self.client.user_id),
                    token_expiry: self.client.token_expiry,
                };
                let payload = encode(&response);
                self.succeed(payload)
            },
        }
    }

    /// Fetch the application list for the named session: the session
    /// identifier must be the one authenticate returned. On success
    /// the payload is the encoded listing response, the descriptors in
    /// the server's order.
    pub fn list_apps(&mut self, session_id: &Vec<u8>) -> (r: BoundaryResult)
        requires
            client_wf(old(self).client),
            old(self).outstanding < u64::MAX,
        ensures
            client_wf(final(self).client),
            final(self).outstanding == old(self).outstanding + 1,
            r.live,
            ({
                let outcome = list_apps_outcome(old(self).client, session_id@);
                &&& r.success == outcome is Ok
                &&& (outcome matches Err(e) ==> r.error == Some(e) && r.message@ == spec_message(e)
                    && r.payload@.len() == 0)
                &&& (outcome is Ok ==> r.error is None && r.message@.len() == 0 && r.payload@
                    == spec_encode(
                    (MessageV::ListAppsResponse { apps: apps_view(final(self).client.apps@) }),
                ))
                &&& ((outcome == Err::<(), RcpError>(RcpError::InvalidArgument) || outcome
                    == Err::<(), RcpError>(RcpError::IllegalStateTransition)) ==> final(self).client == old(self).client)
            }),
    {
        if !crate::client::ids_match(session_id, &self.client.session_id) {
            return self.fail(RcpError::InvalidArgument);
        }
        let ghost pre = self.client;
        match self.client.list_apps() {
            Err(e) => self.fail(e),
            Ok(apps) => {
                proof {
                    let w = wire2(pre.transport);
                    if w is Delivered {
                        lemma_decode_wf(w->Delivered_bytes);
                    }
                }
                let response = Message::ListAppsResponse { apps };
                let payload = encode(&response);
                self.succeed(payload)
            },
        }
    }

    /// Launch the application `app_id` within the named session. On
    /// success the payload is the encoded launch response: the launch
    /// identifier and the display endpoint.
    pub fn launch_app(&mut self, session_id: &Vec<u8>, app_id: &Vec<u8>) -> (r: BoundaryResult)
        requires
            client_wf(old(self).client),
            bytes_wf(app_id@),
            old(self).outstanding < u64::MAX,
        ensures
            client_wf(final(self).client),
            final(self).outstanding == old(self).outstanding + 1,
            r.live,
            ({
                let outcome = launch_app_outcome(old(self).client, session_id@, app_id@);
                &&& r.success == outcome is Ok
                &&& (outcome matches Err(e) ==> r.error == Some(e) && r.message@ == spec_message(e)
                    && r.payload@.len() == 0)
                &&& (outcome is Ok ==> r.error is None && r.message@.len() == 0
                    && final(self).client.state is Active)
                &&& ((outcome == Err::<(), RcpError>(RcpError::InvalidArgument) || outcome
                    == Err::<(), RcpError>(RcpError::IllegalStateTransition) || outcome == Err::<
                    (),
                    RcpError,
                >(RcpError::UnknownApp)) ==> final(self).client == old(self).client)
            }),
    {
        if !crate::client::ids_match(session_id, &self.client.session_id) {
            return self.fail(RcpError::InvalidArgument);
        }
        let ghost pre = self.client;
        match self.client.launch_app(app_id) {
            Err(e) => self.fail(e),
            Ok(info) => {
                proof {
                    let w = wire2(pre.transport);
                    if w is Delivered {
                        lemma_decode_wf(w->Delivered_bytes);
                    }
                }
                let response = Message::LaunchResponse {
                    launch_id: info.launch_id,
                    display_url: info.display_url,
                };
                let payload = encode(&response);
                self.succeed(payload)
            },
        }
    }

    /// Log the named session out. Always succeeds for the session it
    /// names: the local session resets to disconnected whatever the
    /// server said, and an undelivered server notification is reported
    /// as a non-fatal warning in the message field of a successful
    /// result.
    pub fn logout(&mut self, session_id: &Vec<u8>) -> (r: BoundaryResult)
        requires
            client_wf(old(self).client),
            old(self).outstanding < u64::MAX,
        ensures
            client_wf(final(self).client),
            final(self).outstanding == old(self).outstanding + 1,
            r.live,
            ({
                let outcome = logout_outcome(old(self).client, session_id@);
                &&& r.success == outcome is Ok
                &&& (outcome matches Err(e) ==> r.error == Some(e) && r.message@ == spec_message(e)
                    && final(self).client == old(self).client)
                &&& (outcome is Ok ==> ({
                    let warned = (old(self).client.state is Authenticated || old(
                        self,
                    ).client.state is Active) && reply_at(old(self).client.transport, 0) is Fault;
                    &&& r.error is None
                    &&& r.payload@.len() == 0
                    &&& final(self).client.state is Disconnected
                    &&& final(self).client.session_id@.len() == 0
                    &&& (warned ==> r.message@ == spec_logout_warning())
                    &&& (!warned ==> r.message@.len() == 0)
                }))
            }),
    {
        if !crate::client::ids_match(session_id, &self.client.session_id) {
            return self.fail(RcpError::InvalidArgument);
        }
        match self.client.logout() {
            LogoutReport::Clean => self.succeed(Vec::new()),
            LogoutReport::NotificationFailed => {
                let mut r = self.succeed(Vec::new());
                r.message = "logout: server notification not delivered".to_owned();
                r
            },
        }
    }

    /// Give a result back. Exactly one release per result handed out:
    /// the first release returns its allocation and empties the
    /// envelope; any further release of the same result is a no-op, not
    /// a fault.
    pub fn release_result(&mut self, r: &mut BoundaryResult)
        ensures
            final(self).client == old(self).client,
            final(self).outstanding == spec_release(old(self).outstanding, old(r).live).0,
            !final(r).live,
            !final(r).success,
            final(r).payload@.len() == 0,
            final(r).message@.len() == 0,
            final(r).error is None,
            !old(r).live ==> final(self).outstanding == old(self).outstanding,
    {
        if r.live {
            if self.outstanding > 0 {
                self.outstanding = self.outstanding - 1;
            }
        }
        r.live = false;
        r.success = false;
        r.payload = Vec::new();
        r.error = None;
        r.message = "".to_owned();
        proof {
            reveal_strlit("");
        }
    }
}

} // verus!
