use rcp_client::codec::{decode, encode, AppDescriptor, CodecError, Message};

fn app(id: &str, name: &str, description: &str, icon_url: &str) -> AppDescriptor {
    AppDescriptor {
        id: id.as_bytes().to_vec(),
        name: name.as_bytes().to_vec(),
        description: description.as_bytes().to_vec(),
        icon_url: icon_url.as_bytes().to_vec(),
    }
}

#[test]
fn round_trip_list_apps_response_preserves_order() {
    let apps = vec![
        app("app1", "Terminal", "Command-line interface", "terminal.png"),
        app("app2", "Browser", "Web browser", "browser.png"),
        app("app3", "Editor", "Text editor", "editor.png"),
    ];
    let bytes = encode(&Message::ListAppsResponse { apps });
    match decode(bytes.as_slice()) {
        Ok(Message::ListAppsResponse { apps }) => {
            assert_eq!(apps.len(), 3);
            assert_eq!(apps[0].id, b"app1".to_vec());
            assert_eq!(apps[0].name, b"Terminal".to_vec());
            assert_eq!(apps[0].description, b"Command-line interface".to_vec());
            assert_eq!(apps[0].icon_url, b"terminal.png".to_vec());
            assert_eq!(apps[1].id, b"app2".to_vec());
            assert_eq!(apps[1].name, b"Browser".to_vec());
            assert_eq!(apps[2].id, b"app3".to_vec());
            assert_eq!(apps[2].name, b"Editor".to_vec());
        }
        other => panic!("expected a listing response, got {:?}", other.is_ok()),
    }
}

#[test]
fn round_trip_empty_list_apps_response() {
    let bytes = encode(&Message::ListAppsResponse { apps: vec![] });
    match decode(bytes.as_slice()) {
        Ok(Message::ListAppsResponse { apps }) => assert_eq!(apps.len(), 0),
        _ => panic!("expected an empty listing response"),
    }
}

#[test]
fn round_trip_connect_request() {
    let bytes = encode(&Message::ConnectRequest {
        host: b"rcp.example.com".to_vec(),
        port: 7878,
        timeout_ms: 5000,
    });
    match decode(bytes.as_slice()) {
        Ok(Message::ConnectRequest { host, port, timeout_ms }) => {
            assert_eq!(host, b"rcp.example.com".to_vec());
            assert_eq!(port, 7878);
            assert_eq!(timeout_ms, 5000);
        }
        _ => panic!("expected a connect request"),
    }
}

#[test]
fn round_trip_auth_messages() {
    let bytes = encode(&Message::AuthRequest {
        connection_id: b"conn-1".to_vec(),
        username: b"alice".to_vec(),
        password: b"secret".to_vec(),
    });
    match decode(bytes.as_slice()) {
        Ok(Message::AuthRequest { connection_id, username, password }) => {
            assert_eq!(connection_id, b"conn-1".to_vec());
            assert_eq!(username, b"alice".to_vec());
            assert_eq!(password, b"secret".to_vec());
        }
        _ => panic!("expected an auth request"),
    }
    let bytes = encode(&Message::AuthResponse {
        session_id: b"sess-456".to_vec(),
        user_id: b"user-789".to_vec(),
        token_expiry: 3600,
    });
    match decode(bytes.as_slice()) {
        Ok(Message::AuthResponse { session_id, user_id, token_expiry }) => {
            assert_eq!(session_id, b"sess-456".to_vec());
            assert_eq!(user_id, b"user-789".to_vec());
            assert_eq!(token_expiry, 3600);
        }
        _ => panic!("expected an auth response"),
    }
}

#[test]
fn round_trip_launch_and_error_and_session_messages() {
    let bytes = encode(&Message::LaunchRequest {
        session_id: b"sess-456".to_vec(),
        app_id: b"app2".to_vec(),
    });
    match decode(bytes.as_slice()) {
        Ok(Message::LaunchRequest { session_id, app_id }) => {
            assert_eq!(session_id, b"sess-456".to_vec());
            assert_eq!(app_id, b"app2".to_vec());
        }
        _ => panic!("expected a launch request"),
    }
    let bytes = encode(&Message::LaunchResponse {
        launch_id: b"launch-101".to_vec(),
        display_url: b"ws://server/display/101".to_vec(),
    });
    match decode(bytes.as_slice()) {
        Ok(Message::LaunchResponse { launch_id, display_url }) => {
            assert_eq!(launch_id, b"launch-101".to_vec());
            assert_eq!(display_url, b"ws://server/display/101".to_vec());
        }
        _ => panic!("expected a launch response"),
    }
    let bytes = encode(&Message::ErrorResponse { code: 7, message: b"no such app".to_vec() });
    match decode(bytes.as_slice()) {
        Ok(Message::ErrorResponse { code, message }) => {
            assert_eq!(code, 7);
            assert_eq!(message, b"no such app".to_vec());
        }
        _ => panic!("expected an error response"),
    }
    let bytes = encode(&Message::LogoutRequest { session_id: b"sess-456".to_vec() });
    match decode(bytes.as_slice()) {
        Ok(Message::LogoutRequest { session_id }) => assert_eq!(session_id, b"sess-456".to_vec()),
        _ => panic!("expected a logout request"),
    }
    let bytes = encode(&Message::Heartbeat { session_id: b"sess-456".to_vec() });
    match decode(bytes.as_slice()) {
        Ok(Message::Heartbeat { session_id }) => assert_eq!(session_id, b"sess-456".to_vec()),
        _ => panic!("expected a heartbeat"),
    }
}

#[test]
fn encoding_is_tagged_length_prefixed_little_endian() {
    let bytes = encode(&Message::ErrorResponse { code: 0x01020304, message: b"ab".to_vec() });
    assert_eq!(
        bytes,
        vec![9u8, 0x04, 0x03, 0x02, 0x01, 2, 0, 0, 0, b'a', b'b']
    );
    let bytes = encode(&Message::ConnectRequest {
        host: b"h".to_vec(),
        port: 0x1234,
        timeout_ms: 5000,
    });
    assert_eq!(
        bytes,
        vec![1u8, 1, 0, 0, 0, b'h', 0x34, 0x12, 0x88, 0x13, 0, 0]
    );
}

#[test]
fn decode_rejects_malformed_input() {
    assert!(matches!(decode(&[]), Err(CodecError::MalformedMessage)));
    // unknown tag
    assert!(matches!(decode(&[42u8, 0, 0, 0, 0]), Err(CodecError::MalformedMessage)));
    // truncated length prefix
    assert!(matches!(decode(&[5u8, 1, 0]), Err(CodecError::MalformedMessage)));
    // length prefix runs past the end
    assert!(matches!(decode(&[5u8, 200, 0, 0, 0, b'x']), Err(CodecError::MalformedMessage)));
    // trailing bytes after a complete message
    let mut bytes = encode(&Message::LogoutRequest { session_id: b"s".to_vec() });
    bytes.push(0);
    assert!(matches!(decode(bytes.as_slice()), Err(CodecError::MalformedMessage)));
    // a descriptor count larger than the descriptors present
    assert!(matches!(decode(&[6u8, 1, 0, 0, 0]), Err(CodecError::MalformedMessage)));
}
