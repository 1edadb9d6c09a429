use rcp_client::client::{Client, LogoutReport, RcpError};
use rcp_client::codec::{encode, AppDescriptor, Message};
use rcp_client::state::{is_legal_source, Operation, SessionState};
use rcp_client::transport::LinkStatus;
use rcp_client::transport::{Transport, TransportError, TransportReply};

fn app(id: &str, name: &str) -> AppDescriptor {
    AppDescriptor {
        id: id.as_bytes().to_vec(),
        name: name.as_bytes().to_vec(),
        description: Vec::new(),
        icon_url: Vec::new(),
    }
}

fn connect_ok_replies() -> Vec<TransportReply> {
    vec![
        TransportReply::Accept,
        TransportReply::Accept,
        TransportReply::Payload(encode(&Message::ConnectResponse {
            connection_id: b"conn-1".to_vec(),
            server_version: b"1.0.0".to_vec(),
        })),
    ]
}

fn auth_ok_replies() -> Vec<TransportReply> {
    vec![
        TransportReply::Accept,
        TransportReply::Payload(encode(&Message::AuthResponse {
            session_id: b"sess-456".to_vec(),
            user_id: b"user-789".to_vec(),
            token_expiry: 3600,
        })),
    ]
}

fn list_ok_replies() -> Vec<TransportReply> {
    vec![
        TransportReply::Accept,
        TransportReply::Payload(encode(&Message::ListAppsResponse {
            apps: vec![app("app1", "Terminal"), app("app2", "Browser"), app("app3", "Editor")],
        })),
    ]
}

fn launch_ok_replies() -> Vec<TransportReply> {
    vec![
        TransportReply::Accept,
        TransportReply::Payload(encode(&Message::LaunchResponse {
            launch_id: b"launch-101".to_vec(),
            display_url: b"ws://server/display/101".to_vec(),
        })),
    ]
}

fn authenticated_client(mut extra: Vec<TransportReply>) -> Client {
    let mut script = connect_ok_replies();
    script.append(&mut auth_ok_replies());
    script.append(&mut extra);
    let mut client = Client::new(Transport::scripted(script));
    assert!(client.connect(&b"rcp.example.com".to_vec(), 7878, 5000).is_ok());
    assert!(client.authenticate(&b"alice".to_vec(), b"secret".to_vec().as_ref()).is_ok());
    client
}

#[test]
fn full_session_with_known_app_succeeds() {
    let mut extra = list_ok_replies();
    extra.append(&mut launch_ok_replies());
    let mut client = authenticated_client(extra);
    assert_eq!(client.session_id, b"sess-456".to_vec());
    assert_eq!(client.connection_id, b"conn-1".to_vec());
    assert_eq!(client.user_id, b"user-789".to_vec());
    assert_eq!(client.user.username, b"alice".to_vec());
    assert_eq!(client.token_expiry, 3600);
    let apps = client.list_apps().expect("listing should succeed");
    assert_eq!(apps.len(), 3);
    assert!(matches!(client.state, SessionState::Authenticated));
    let info = client.launch_app(&b"app2".to_vec()).expect("launch should succeed");
    assert_eq!(info.launch_id, b"launch-101".to_vec());
    assert_eq!(info.display_url, b"ws://server/display/101".to_vec());
    assert!(matches!(client.state, SessionState::Active));
}

#[test]
fn full_session_with_unknown_app_fails_without_transport_calls() {
    let mut client = authenticated_client(list_ok_replies());
    client.list_apps().expect("listing should succeed");
    let calls_before = client.transport.calls();
    let r = client.launch_app(&b"app9".to_vec());
    assert!(matches!(r, Err(RcpError::UnknownApp)));
    assert_eq!(client.transport.calls(), calls_before);
    assert!(matches!(client.state, SessionState::Authenticated));
}

#[test]
fn launch_before_any_listing_is_unknown() {
    let mut client = authenticated_client(Vec::new());
    let r = client.launch_app(&b"app1".to_vec());
    assert!(matches!(r, Err(RcpError::UnknownApp)));
}

#[test]
fn illegal_operations_make_no_transport_calls() {
    // every operation with a legal-source requirement, tried in a state
    // where it is illegal, fails without touching the transport
    let mut client = Client::new(Transport::scripted(connect_ok_replies()));
    assert!(matches!(
        client.authenticate(&b"alice".to_vec(), &b"pw".to_vec()),
        Err(RcpError::IllegalStateTransition)
    ));
    assert!(matches!(client.list_apps(), Err(RcpError::IllegalStateTransition)));
    assert!(matches!(
        client.launch_app(&b"app1".to_vec()),
        Err(RcpError::IllegalStateTransition)
    ));
    assert_eq!(client.transport.calls(), 0);
    assert!(matches!(client.state, SessionState::Disconnected));

    // connect is illegal once connected; so are repeats after failure
    assert!(client.connect(&b"rcp.example.com".to_vec(), 7878, 5000).is_ok());
    let calls = client.transport.calls();
    assert!(matches!(
        client.connect(&b"rcp.example.com".to_vec(), 7878, 5000),
        Err(RcpError::IllegalStateTransition)
    ));
    assert!(matches!(client.list_apps(), Err(RcpError::IllegalStateTransition)));
    assert_eq!(client.transport.calls(), calls);
    assert!(matches!(client.state, SessionState::Connected));
}

#[test]
fn connect_with_empty_host_is_invalid_without_transport_calls() {
    let mut client = Client::new(Transport::scripted(connect_ok_replies()));
    let r = client.connect(&Vec::new(), 7878, 5000);
    assert!(matches!(r, Err(RcpError::InvalidArgument)));
    assert_eq!(client.transport.calls(), 0);
    assert!(matches!(client.state, SessionState::Disconnected));
}

#[test]
fn connect_on_responsive_server_yields_nonempty_connection_id() {
    let mut client = Client::new(Transport::scripted(connect_ok_replies()));
    let r = client.connect(&b"rcp.example.com".to_vec(), 7878, 5000);
    assert!(r.is_ok());
    assert!(!client.connection_id.is_empty());
    assert_eq!(client.server_version, b"1.0.0".to_vec());
    assert!(matches!(client.state, SessionState::Connected));
}

#[test]
fn connect_with_zero_port_is_invalid() {
    let mut client = Client::new(Transport::scripted(connect_ok_replies()));
    assert!(matches!(
        client.connect(&b"rcp.example.com".to_vec(), 0, 5000),
        Err(RcpError::InvalidArgument)
    ));
    assert_eq!(client.transport.calls(), 0);
}

#[test]
fn unreachable_host_fails_the_session() {
    let script = vec![TransportReply::Fault(TransportError::HostUnreachable)];
    let mut client = Client::new(Transport::scripted(script));
    let r = client.connect(&b"nowhere.example".to_vec(), 7878, 5000);
    assert!(matches!(r, Err(RcpError::Transport(TransportError::HostUnreachable))));
    assert!(matches!(client.state, SessionState::Failed));
}

#[test]
fn receive_timeout_fails_the_session() {
    // open and send go through; the server never answers
    let script = vec![TransportReply::Accept, TransportReply::Accept, TransportReply::Accept];
    let mut client = Client::new(Transport::scripted(script));
    let r = client.connect(&b"rcp.example.com".to_vec(), 7878, 5000);
    assert!(matches!(r, Err(RcpError::Transport(TransportError::Timeout))));
    assert!(matches!(client.state, SessionState::Failed));
}

#[test]
fn garbage_reply_is_a_protocol_error() {
    let script = vec![
        TransportReply::Accept,
        TransportReply::Accept,
        TransportReply::Payload(vec![0xff, 0x00, 0x12]),
    ];
    let mut client = Client::new(Transport::scripted(script));
    let r = client.connect(&b"rcp.example.com".to_vec(), 7878, 5000);
    assert!(matches!(r, Err(RcpError::ProtocolError)));
    assert!(matches!(client.state, SessionState::Failed));
}

#[test]
fn rejected_credentials_allow_retry_until_attempts_run_out() {
    let rejection = || {
        vec![
            TransportReply::Accept,
            TransportReply::Payload(encode(&Message::ErrorResponse {
                code: 401,
                message: b"bad credentials".to_vec(),
            })),
        ]
    };
    let mut script = connect_ok_replies();
    script.append(&mut rejection());
    script.append(&mut rejection());
    script.append(&mut rejection());
    let mut client = Client::new(Transport::scripted(script));
    assert!(client.connect(&b"rcp.example.com".to_vec(), 7878, 5000).is_ok());
    // two rejections leave the session retryable
    for _ in 0..2 {
        let r = client.authenticate(&b"alice".to_vec(), &b"wrong".to_vec());
        assert!(matches!(r, Err(RcpError::AuthenticationRejected)));
        assert!(matches!(client.state, SessionState::Connected));
    }
    // the third exhausts the bounded retry count
    let r = client.authenticate(&b"alice".to_vec(), &b"wrong".to_vec());
    assert!(matches!(r, Err(RcpError::AuthenticationRejected)));
    assert!(matches!(client.state, SessionState::Failed));
}

#[test]
fn empty_username_is_invalid_without_transport_calls() {
    let mut client = Client::new(Transport::scripted(connect_ok_replies()));
    assert!(client.connect(&b"rcp.example.com".to_vec(), 7878, 5000).is_ok());
    let calls = client.transport.calls();
    let r = client.authenticate(&Vec::new(), &b"pw".to_vec());
    assert!(matches!(r, Err(RcpError::InvalidArgument)));
    assert_eq!(client.transport.calls(), calls);
}

#[test]
fn logout_resets_to_disconnected_when_notification_succeeds() {
    let mut client = authenticated_client(vec![TransportReply::Accept]);
    let report = client.logout();
    assert!(matches!(report, LogoutReport::Clean));
    assert!(matches!(client.state, SessionState::Disconnected));
    assert!(client.session_id.is_empty());
    assert!(client.connection_id.is_empty());
    assert!(client.apps.is_empty());
}

#[test]
fn logout_resets_to_disconnected_even_when_transport_fails() {
    let mut client =
        authenticated_client(vec![TransportReply::Fault(TransportError::LinkReset)]);
    let report = client.logout();
    assert!(matches!(report, LogoutReport::NotificationFailed));
    assert!(matches!(client.state, SessionState::Disconnected));
    assert!(client.session_id.is_empty());
    assert!(client.apps.is_empty());
}

#[test]
fn logout_recovers_a_failed_session_without_transport_calls() {
    let script = vec![TransportReply::Fault(TransportError::LinkReset)];
    let mut client = Client::new(Transport::scripted(script));
    let _ = client.connect(&b"rcp.example.com".to_vec(), 7878, 5000);
    assert!(matches!(client.state, SessionState::Failed));
    let calls = client.transport.calls();
    let report = client.logout();
    assert!(matches!(report, LogoutReport::Clean));
    assert_eq!(client.transport.calls(), calls);
    assert!(matches!(client.state, SessionState::Disconnected));
}

#[test]
fn a_stale_app_list_is_not_trusted_after_logout() {
    let mut extra = list_ok_replies();
    extra.push(TransportReply::Accept);
    let mut script = connect_ok_replies();
    script.append(&mut auth_ok_replies());
    script.append(&mut extra);
    // a second full session over the same transport script
    script.append(&mut connect_ok_replies());
    script.append(&mut auth_ok_replies());
    let mut client = Client::new(Transport::scripted(script));
    assert!(client.connect(&b"rcp.example.com".to_vec(), 7878, 5000).is_ok());
    assert!(client.authenticate(&b"alice".to_vec(), &b"secret".to_vec()).is_ok());
    client.list_apps().expect("listing should succeed");
    client.logout();
    assert!(client.connect(&b"rcp.example.com".to_vec(), 7878, 5000).is_ok());
    assert!(client.authenticate(&b"alice".to_vec(), &b"secret".to_vec()).is_ok());
    // the pre-logout list is gone: launching needs a fresh listing
    assert!(matches!(client.launch_app(&b"app1".to_vec()), Err(RcpError::UnknownApp)));
}

#[test]
fn connection_loss_fails_the_session_from_any_state() {
    let mut client = authenticated_client(Vec::new());
    client.connection_lost();
    assert!(matches!(client.state, SessionState::Failed));
    // every operation but logout is now illegal
    assert!(matches!(client.list_apps(), Err(RcpError::IllegalStateTransition)));
    assert!(matches!(
        client.connect(&b"rcp.example.com".to_vec(), 7878, 5000),
        Err(RcpError::IllegalStateTransition)
    ));
    // recovery runs through an explicit logout back to the start
    client.logout();
    assert!(matches!(client.state, SessionState::Disconnected));
}

#[test]
fn transport_close_is_idempotent() {
    let mut t = Transport::scripted(Vec::new());
    t.close();
    t.close();
    t.close();
    assert!(matches!(t.status, LinkStatus::Closed));
    assert_eq!(t.calls(), 0);
}

#[test]
fn legality_table_matches_the_lifecycle() {
    let all = [
        SessionState::Disconnected,
        SessionState::Connecting,
        SessionState::Connected,
        SessionState::Authenticating,
        SessionState::Authenticated,
        SessionState::Active,
        SessionState::Failed,
    ];
    for s in all {
        assert_eq!(
            is_legal_source(Operation::Connect, s),
            matches!(s, SessionState::Disconnected)
        );
        assert_eq!(
            is_legal_source(Operation::Authenticate, s),
            matches!(s, SessionState::Connected)
        );
        assert_eq!(
            is_legal_source(Operation::ListApps, s),
            matches!(s, SessionState::Authenticated | SessionState::Active)
        );
        assert_eq!(
            is_legal_source(Operation::LaunchApp, s),
            matches!(s, SessionState::Authenticated | SessionState::Active)
        );
        assert!(is_legal_source(Operation::Logout, s));
    }
}
