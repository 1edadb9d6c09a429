use rcp_client::boundary::Boundary;
use rcp_client::client::{Client, RcpError};
use rcp_client::codec::{decode, encode, AppDescriptor, Message};
use rcp_client::state::SessionState;
use rcp_client::transport::{Transport, TransportError, TransportReply};

fn connect_ok_replies() -> Vec<TransportReply> {
    vec![
        TransportReply::Accept,
        TransportReply::Accept,
        TransportReply::Payload(encode(&Message::ConnectResponse {
            connection_id: b"conn-1".to_vec(),
            server_version: b"1.0.0".to_vec(),
        })),
    ]
}

fn auth_ok_replies() -> Vec<TransportReply> {
    vec![
        TransportReply::Accept,
        TransportReply::Payload(encode(&Message::AuthResponse {
            session_id: b"sess-456".to_vec(),
            user_id: b"user-789".to_vec(),
            token_expiry: 3600,
        })),
    ]
}

fn boundary_with(script: Vec<TransportReply>) -> Boundary {
    Boundary::new(Client::new(Transport::scripted(script)))
}

#[test]
fn each_result_released_once_leaves_nothing_outstanding() {
    let mut script = connect_ok_replies();
    script.append(&mut auth_ok_replies());
    let mut b = boundary_with(script);
    let mut r1 = b.connect(&b"rcp.example.com".to_vec(), 7878, 5000);
    assert!(r1.success);
    let mut r2 = b.authenticate(&b"conn-1".to_vec(), &b"alice".to_vec(), &b"secret".to_vec());
    assert!(r2.success);
    assert_eq!(b.outstanding, 2);
    b.release_result(&mut r1);
    assert_eq!(b.outstanding, 1);
    b.release_result(&mut r2);
    assert_eq!(b.outstanding, 0);
    assert!(!r1.live && !r2.live);
    assert!(r1.payload.is_empty() && r2.payload.is_empty());
}

#[test]
fn releasing_twice_is_a_no_op() {
    let mut b = boundary_with(connect_ok_replies());
    let mut r = b.connect(&b"rcp.example.com".to_vec(), 7878, 5000);
    assert_eq!(b.outstanding, 1);
    b.release_result(&mut r);
    assert_eq!(b.outstanding, 0);
    b.release_result(&mut r);
    b.release_result(&mut r);
    assert_eq!(b.outstanding, 0);
    assert!(!r.live);
    assert!(r.payload.is_empty());
    assert!(r.message.is_empty());
}

#[test]
fn failure_results_carry_the_error_and_its_message() {
    let mut b = boundary_with(connect_ok_replies());
    let mut r = b.connect(&b"rcp.example.com".to_vec(), 0, 5000);
    assert!(!r.success);
    assert!(matches!(r.error, Some(RcpError::InvalidArgument)));
    assert_eq!(r.message, "invalid argument");
    assert!(r.payload.is_empty());
    b.release_result(&mut r);

    let mut r = b.connect(&b"rcp.example.com".to_vec(), 70000, 5000);
    assert!(matches!(r.error, Some(RcpError::InvalidArgument)));
    b.release_result(&mut r);

    let mut r = b.connect(&b"rcp.example.com".to_vec(), 7878, -1);
    assert!(matches!(r.error, Some(RcpError::InvalidArgument)));
    b.release_result(&mut r);

    let mut r = b.authenticate(&b"conn-1".to_vec(), &b"alice".to_vec(), &b"pw".to_vec());
    assert!(!r.success);
    assert!(matches!(r.error, Some(RcpError::InvalidArgument)));
    b.release_result(&mut r);

    assert_eq!(b.client.transport.calls(), 0);
    assert_eq!(b.outstanding, 0);
}

#[test]
fn illegal_state_at_the_boundary_reports_its_message() {
    let mut b = boundary_with(connect_ok_replies());
    let mut r = b.list_apps(&Vec::new());
    assert!(!r.success);
    assert!(matches!(r.error, Some(RcpError::IllegalStateTransition)));
    assert_eq!(r.message, "illegal state transition");
    assert_eq!(b.client.transport.calls(), 0);
    b.release_result(&mut r);
}

#[test]
fn transport_fault_reports_its_message() {
    let mut b = boundary_with(vec![TransportReply::Fault(TransportError::HostUnreachable)]);
    let mut r = b.connect(&b"nowhere.example".to_vec(), 7878, 5000);
    assert!(!r.success);
    assert!(matches!(r.error, Some(RcpError::Transport(TransportError::HostUnreachable))));
    assert_eq!(r.message, "transport error: host unreachable");
    b.release_result(&mut r);
}

#[test]
fn successful_payloads_decode_with_the_same_codec() {
    let list_reply = TransportReply::Payload(encode(&Message::ListAppsResponse {
        apps: vec![AppDescriptor {
            id: b"app1".to_vec(),
            name: b"Terminal".to_vec(),
            description: b"Command-line interface".to_vec(),
            icon_url: b"terminal.png".to_vec(),
        }],
    }));
    let mut script = connect_ok_replies();
    script.append(&mut auth_ok_replies());
    script.push(TransportReply::Accept);
    script.push(list_reply);
    let mut b = boundary_with(script);

    let mut r = b.connect(&b"rcp.example.com".to_vec(), 7878, 5000);
    match decode(r.payload.as_slice()) {
        Ok(Message::ConnectResponse { connection_id, server_version }) => {
            assert_eq!(connection_id, b"conn-1".to_vec());
            assert_eq!(server_version, b"1.0.0".to_vec());
        }
        _ => panic!("expected an encoded connect response"),
    }
    b.release_result(&mut r);

    let mut r = b.authenticate(&b"conn-1".to_vec(), &b"alice".to_vec(), &b"secret".to_vec());
    match decode(r.payload.as_slice()) {
        Ok(Message::AuthResponse { session_id, user_id, token_expiry }) => {
            assert_eq!(session_id, b"sess-456".to_vec());
            assert_eq!(user_id, b"user-789".to_vec());
            assert_eq!(token_expiry, 3600);
        }
        _ => panic!("expected an encoded auth response"),
    }
    b.release_result(&mut r);

    let mut r = b.list_apps(&b"sess-456".to_vec());
    assert!(r.success);
    match decode(r.payload.as_slice()) {
        Ok(Message::ListAppsResponse { apps }) => {
            assert_eq!(apps.len(), 1);
            assert_eq!(apps[0].id, b"app1".to_vec());
            assert_eq!(apps[0].name, b"Terminal".to_vec());
        }
        _ => panic!("expected an encoded listing response"),
    }
    b.release_result(&mut r);
    assert_eq!(b.outstanding, 0);
}

#[test]
fn launch_through_the_boundary_requires_a_listed_app() {
    let list_reply = TransportReply::Payload(encode(&Message::ListAppsResponse {
        apps: vec![AppDescriptor {
            id: b"app1".to_vec(),
            name: b"Terminal".to_vec(),
            description: Vec::new(),
            icon_url: Vec::new(),
        }],
    }));
    let launch_reply = TransportReply::Payload(encode(&Message::LaunchResponse {
        launch_id: b"launch-101".to_vec(),
        display_url: b"ws://server/display/101".to_vec(),
    }));
    let mut script = connect_ok_replies();
    script.append(&mut auth_ok_replies());
    script.push(TransportReply::Accept);
    script.push(list_reply);
    script.push(TransportReply::Accept);
    script.push(launch_reply);
    let mut b = boundary_with(script);
    let mut r = b.connect(&b"rcp.example.com".to_vec(), 7878, 5000);
    b.release_result(&mut r);
    let mut r = b.authenticate(&b"conn-1".to_vec(), &b"alice".to_vec(), &b"secret".to_vec());
    b.release_result(&mut r);
    let mut r = b.list_apps(&b"sess-456".to_vec());
    b.release_result(&mut r);

    let mut r = b.launch_app(&b"sess-456".to_vec(), &b"app9".to_vec());
    assert!(!r.success);
    assert!(matches!(r.error, Some(RcpError::UnknownApp)));
    assert_eq!(r.message, "unknown application");
    b.release_result(&mut r);

    let mut r = b.launch_app(&b"sess-456".to_vec(), &b"app1".to_vec());
    assert!(r.success);
    match decode(r.payload.as_slice()) {
        Ok(Message::LaunchResponse { launch_id, .. }) => {
            assert_eq!(launch_id, b"launch-101".to_vec());
        }
        _ => panic!("expected an encoded launch response"),
    }
    assert!(matches!(b.client.state, SessionState::Active));
    b.release_result(&mut r);
    assert_eq!(b.outstanding, 0);
}

#[test]
fn boundary_logout_always_resets_and_reports_a_warning_on_fault() {
    let mut script = connect_ok_replies();
    script.append(&mut auth_ok_replies());
    script.push(TransportReply::Fault(TransportError::LinkReset));
    let mut b = boundary_with(script);
    let mut r = b.connect(&b"rcp.example.com".to_vec(), 7878, 5000);
    b.release_result(&mut r);
    let mut r = b.authenticate(&b"conn-1".to_vec(), &b"alice".to_vec(), &b"secret".to_vec());
    b.release_result(&mut r);

    // a logout that names no current session touches nothing
    let mut r = b.logout(&b"sess-999".to_vec());
    assert!(!r.success);
    assert!(matches!(r.error, Some(RcpError::InvalidArgument)));
    b.release_result(&mut r);
    assert!(matches!(b.client.state, SessionState::Authenticated));

    let mut r = b.logout(&b"sess-456".to_vec());
    assert!(r.success);
    assert_eq!(r.message, "logout: server notification not delivered");
    assert!(matches!(b.client.state, SessionState::Disconnected));
    b.release_result(&mut r);
    assert_eq!(b.outstanding, 0);
}

#[test]
fn protocol_violation_reports_its_message() {
    let mut b = boundary_with(vec![
        TransportReply::Accept,
        TransportReply::Accept,
        TransportReply::Payload(vec![0u8, 1, 2]),
    ]);
    let mut r = b.connect(&b"rcp.example.com".to_vec(), 7878, 5000);
    assert!(!r.success);
    assert!(matches!(r.error, Some(RcpError::ProtocolError)));
    assert_eq!(r.message, "protocol error: malformed or unexpected message");
    b.release_result(&mut r);
}
