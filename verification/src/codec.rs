//! The wire format for client/server messages.
//!
//! Encoding and decoding are pure, stateless transformations between
//! [`Message`] values and byte strings. The format is length-prefixed
//! binary: one tag byte names the variant, integers are little-endian,
//! and every byte-string field is a 32-bit length followed by that many
//! bytes. Decoding rejects truncated, oversized or unknown input with
//! [`CodecError::MalformedMessage`] and never panics; encoding followed
//! by decoding reproduces the original message exactly
//! ([`lemma_codec_round_trip`]).

use vstd::prelude::*;

verus! {

/// One remotely hosted application, as reported by the server in a
/// listing response. The fields are immutable value data; the listing
/// order is the server's and is preserved by the codec.
pub struct AppDescriptor {
    pub id: Vec<u8>,
    pub name: Vec<u8>,
    pub description: Vec<u8>,
    pub icon_url: Vec<u8>,
}

/// The mathematical value of an [`AppDescriptor`]: the same four
/// fields as byte sequences.
#[verifier::ext_equal]
pub struct AppDescriptorV {
    pub id: Seq<u8>,
    pub name: Seq<u8>,
    pub description: Seq<u8>,
    pub icon_url: Seq<u8>,
}

impl View for AppDescriptor {
    type V = AppDescriptorV;

    open spec fn view(&self) -> AppDescriptorV {
        AppDescriptorV {
            id: self.id@,
            name: self.name@,
            description: self.description@,
            icon_url: self.icon_url@,
        }
    }
}

/// A client/server message. Requests flow from client to server,
/// responses the other way; `ErrorResponse` may answer any request.
/// `LogoutRequest` is the session-release notification sent on logout,
/// and `Heartbeat` keeps an idle session alive; neither expects a reply.
pub enum Message {
    ConnectRequest { host: Vec<u8>, port: u16, timeout_ms: u32 },
    ConnectResponse { connection_id: Vec<u8>, server_version: Vec<u8> },
    AuthRequest { connection_id: Vec<u8>, username: Vec<u8>, password: Vec<u8> },
    AuthResponse { session_id: Vec<u8>, user_id: Vec<u8>, token_expiry: u64 },
    ListAppsRequest { session_id: Vec<u8> },
    ListAppsResponse { apps: Vec<AppDescriptor> },
    LaunchRequest { session_id: Vec<u8>, app_id: Vec<u8> },
    LaunchResponse { launch_id: Vec<u8>, display_url: Vec<u8> },
    ErrorResponse { code: u32, message: Vec<u8> },
    LogoutRequest { session_id: Vec<u8> },
    Heartbeat { session_id: Vec<u8> },
}

/// The mathematical value of a [`Message`].
#[verifier::ext_equal]
pub enum MessageV {
    ConnectRequest { host: Seq<u8>, port: u16, timeout_ms: u32 },
    ConnectResponse { connection_id: Seq<u8>, server_version: Seq<u8> },
    AuthRequest { connection_id: Seq<u8>, username: Seq<u8>, password: Seq<u8> },
    AuthResponse { session_id: Seq<u8>, user_id: Seq<u8>, token_expiry: u64 },
    ListAppsRequest { session_id: Seq<u8> },
    ListAppsResponse { apps: Seq<AppDescriptorV> },
    LaunchRequest { session_id: Seq<u8>, app_id: Seq<u8> },
    LaunchResponse { launch_id: Seq<u8>, display_url: Seq<u8> },
    ErrorResponse { code: u32, message: Seq<u8> },
    LogoutRequest { session_id: Seq<u8> },
    Heartbeat { session_id: Seq<u8> },
}

impl View for Message {
    type V = MessageV;

    open spec fn view(&self) -> MessageV {
        match self {
            Message::ConnectRequest { host, port, timeout_ms } => MessageV::ConnectRequest {
                host: host@,
                port: *port,
                timeout_ms: *timeout_ms,
            },
            Message::ConnectResponse { connection_id, server_version } => {
                MessageV::ConnectResponse {
                    connection_id: connection_id@,
                    server_version: server_version@,
                }
            },
            Message::AuthRequest { connection_id, username, password } => MessageV::AuthRequest {
                connection_id: connection_id@,
                username: username@,
                password: password@,
            },
            Message::AuthResponse { session_id, user_id, token_expiry } => MessageV::AuthResponse {
                session_id: session_id@,
                user_id: user_id@,
                token_expiry: *token_expiry,
            },
            Message::ListAppsRequest { session_id } => MessageV::ListAppsRequest {
                session_id: session_id@,
            },
            Message::ListAppsResponse { apps } => MessageV::ListAppsResponse {
                apps: apps_view(apps@),
            },
            Message::LaunchRequest { session_id, app_id } => MessageV::LaunchRequest {
                session_id: session_id@,
                app_id: app_id@,
            },
            Message::LaunchResponse { launch_id, display_url } => MessageV::LaunchResponse {
                launch_id: launch_id@,
                display_url: display_url@,
            },
            Message::ErrorResponse { code, message } => MessageV::ErrorResponse {
                code: *code,
                message: message@,
            },
            Message::LogoutRequest { session_id } => MessageV::LogoutRequest {
                session_id: session_id@,
            },
            Message::Heartbeat { session_id } => MessageV::Heartbeat { session_id: session_id@ },
        }
    }
}

/// The values of a sequence of descriptors.
pub open spec fn apps_view(s: Seq<AppDescriptor>) -> Seq<AppDescriptorV> {
    s.map_values(|a: AppDescriptor| a@)
}

/// Decoding failures: the input is truncated, a length prefix runs past
/// the end, the tag is unknown, or bytes trail the message.
#[derive(Clone, Copy, PartialEq, Eq, Structural, Debug)]
pub enum CodecError {
    MalformedMessage,
}

/// A byte-string field fits the wire format when its length fits the
/// 32-bit length prefix.
pub open spec fn bytes_wf(b: Seq<u8>) -> bool {
    b.len() <= u32::MAX
}

pub open spec fn app_wf(a: AppDescriptorV) -> bool {
    bytes_wf(a.id) && bytes_wf(a.name) && bytes_wf(a.description) && bytes_wf(a.icon_url)
}

/// A message fits the wire format when each of its byte-string fields
/// and its descriptor count fit their 32-bit length prefixes.
pub open spec fn msg_wf(m: MessageV) -> bool {
    match m {
        MessageV::ConnectRequest { host, .. } => bytes_wf(host),
        MessageV::ConnectResponse { connection_id, server_version } => bytes_wf(connection_id)
            && bytes_wf(server_version),
        MessageV::AuthRequest { connection_id, username, password } => bytes_wf(connection_id)
            && bytes_wf(username) && bytes_wf(password),
        MessageV::AuthResponse { session_id, user_id, .. } => bytes_wf(session_id) && bytes_wf(
            user_id,
        ),
        MessageV::ListAppsRequest { session_id } => bytes_wf(session_id),
        MessageV::ListAppsResponse { apps } => apps.len() <= u32::MAX && (forall|i: int|
            0 <= i < apps.len() ==> app_wf(#[trigger] apps[i])),
        MessageV::LaunchRequest { session_id, app_id } => bytes_wf(session_id) && bytes_wf(app_id),
        MessageV::LaunchResponse { launch_id, display_url } => bytes_wf(launch_id) && bytes_wf(
            display_url,
        ),
        MessageV::ErrorResponse { message, .. } => bytes_wf(message),
        MessageV::LogoutRequest { session_id } => bytes_wf(session_id),
        MessageV::Heartbeat { session_id } => bytes_wf(session_id),
    }
}

// ---------------------------------------------------------------------
// Encoding, at the specification level.
// ---------------------------------------------------------------------

pub open spec fn enc_u16(x: u16) -> Seq<u8> {
    seq![(x & 0xff) as u8, ((x >> 8) & 0xff) as u8]
}

pub open spec fn enc_u32(x: u32) -> Seq<u8> {
    seq![
        (x & 0xff) as u8,
        ((x >> 8) & 0xff) as u8,
        ((x >> 16) & 0xff) as u8,
        ((x >> 24) & 0xff) as u8,
    ]
}

pub open spec fn enc_u64(x: u64) -> Seq<u8> {
    seq![
        (x & 0xff) as u8,
        ((x >> 8) & 0xff) as u8,
        ((x >> 16) & 0xff) as u8,
        ((x >> 24) & 0xff) as u8,
        ((x >> 32) & 0xff) as u8,
        ((x >> 40) & 0xff) as u8,
        ((x >> 48) & 0xff) as u8,
        ((x >> 56) & 0xff) as u8,
    ]
}

/// A byte-string field: 32-bit length, then the bytes themselves.
pub open spec fn enc_bytes(b: Seq<u8>) -> Seq<u8> {
    enc_u32(b.len() as u32) + b
}

pub open spec fn enc_app(a: AppDescriptorV) -> Seq<u8> {
    enc_bytes(a.id) + enc_bytes(a.name) + enc_bytes(a.description) + enc_bytes(a.icon_url)
}

pub open spec fn enc_apps(s: Seq<AppDescriptorV>) -> Seq<u8>
    decreases s.len(),
{
    if s.len() == 0 {
        Seq::empty()
    } else {
        enc_app(s[0]) + enc_apps(s.skip(1))
    }
}

/// The encoding of a message: its tag byte followed by its fields.
pub open spec fn spec_encode(m: MessageV) -> Seq<u8> {
    match m {
        MessageV::ConnectRequest { host, port, timeout_ms } => seq![1u8] + enc_bytes(host)
            + enc_u16(port) + enc_u32(timeout_ms),
        MessageV::ConnectResponse { connection_id, server_version } => seq![2u8] + enc_bytes(
            connection_id,
        ) + enc_bytes(server_version),
        MessageV::AuthRequest { connection_id, username, password } => seq![3u8] + enc_bytes(
            connection_id,
        ) + enc_bytes(username) + enc_bytes(password),
        MessageV::AuthResponse { session_id, user_id, token_expiry } => seq![4u8] + enc_bytes(
            session_id,
        ) + enc_bytes(user_id) + enc_u64(token_expiry),
        MessageV::ListAppsRequest { session_id } => seq![5u8] + enc_bytes(session_id),
        MessageV::ListAppsResponse { apps } => seq![6u8] + enc_u32(apps.len() as u32) + enc_apps(
            apps,
        ),
        MessageV::LaunchRequest { session_id, app_id } => seq![7u8] + enc_bytes(session_id)
            + enc_bytes(app_id),
        MessageV::LaunchResponse { launch_id, display_url } => seq![8u8] + enc_bytes(launch_id)
            + enc_bytes(display_url),
        MessageV::ErrorResponse { code, message } => seq![9u8] + enc_u32(code) + enc_bytes(message),
        MessageV::LogoutRequest { session_id } => seq![10u8] + enc_bytes(session_id),
        MessageV::Heartbeat { session_id } => seq![11u8] + enc_bytes(session_id),
    }
}

// ---------------------------------------------------------------------
// Decoding, at the specification level: each parser reads one value at
// position `i` and yields it with the position just past it.
// ---------------------------------------------------------------------

pub open spec fn dec_u16_at(s: Seq<u8>, i: int) -> u16 {
    (s[i] as u16) | ((s[i + 1] as u16) << 8)
}

pub open spec fn dec_u32_at(s: Seq<u8>, i: int) -> u32 {
    (s[i] as u32) | ((s[i + 1] as u32) << 8) | ((s[i + 2] as u32) << 16) | (
    (s[i + 3] as u32) << 24)
}

pub open spec fn dec_u64_at(s: Seq<u8>, i: int) -> u64 {
    (s[i] as u64) | ((s[i + 1] as u64) << 8) | ((s[i + 2] as u64) << 16) | (
    (s[i + 3] as u64) << 24) | ((s[i + 4] as u64) << 32) | ((s[i + 5] as u64) << 40) | (
    (s[i + 6] as u64) << 48) | ((s[i + 7] as u64) << 56)
}

pub open spec fn parse_u16(s: Seq<u8>, i: int) -> Option<(u16, int)> {
    if 0 <= i && i + 2 <= s.len() {
        Some((dec_u16_at(s, i), i + 2))
    } else {
        None
    }
}

pub open spec fn parse_u32(s: Seq<u8>, i: int) -> Option<(u32, int)> {
    if 0 <= i && i + 4 <= s.len() {
        Some((dec_u32_at(s, i), i + 4))
    } else {
        None
    }
}

pub open spec fn parse_u64(s: Seq<u8>, i: int) -> Option<(u64, int)> {
    if 0 <= i && i + 8 <= s.len() {
        Some((dec_u64_at(s, i), i + 8))
    } else {
        None
    }
}

pub open spec fn parse_bytes(s: Seq<u8>, i: int) -> Option<(Seq<u8>, int)> {
    match parse_u32(s, i) {
        None => None,
        Some((n, j)) => if j + n <= s.len() {
            Some((s.subrange(j, j + n), j + n))
        } else {
            None
        },
    }
}

pub open spec fn parse_app(s: Seq<u8>, i: int) -> Option<(AppDescriptorV, int)> {
    match parse_bytes(s, i) {
        None => None,
        Some((id, j)) => match parse_bytes(s, j) {
            None => None,
            Some((name, k)) => match parse_bytes(s, k) {
                None => None,
                Some((description, l)) => match parse_bytes(s, l) {
                    None => None,
                    Some((icon_url, e)) => Some(
                        (AppDescriptorV { id, name, description, icon_url }, e),
                    ),
                },
            },
        },
    }
}

pub open spec fn parse_apps(s: Seq<u8>, i: int, n: nat) -> Option<(Seq<AppDescriptorV>, int)>
    decreases n,
{
    if n == 0 {
        Some((Seq::empty(), i))
    } else {
        match parse_app(s, i) {
            None => None,
            Some((a, j)) => match parse_apps(s, j, (n - 1) as nat) {
                None => None,
                Some((rest, e)) => Some((seq![a] + rest, e)),
            },
        }
    }
}

/// The decoding of a byte string: the message it spells, or nothing if
/// it is truncated, oversized, mistagged, or followed by trailing bytes.
pub open spec fn spec_decode(s: Seq<u8>) -> Option<MessageV> {
    if s.len() < 1 {
        None
    } else {
        let tag = s[0];
        if tag == 1 {
            match parse_bytes(s, 1) {
                None => None,
                Some((host, i)) => match parse_u16(s, i) {
                    None => None,
                    Some((port, j)) => match parse_u32(s, j) {
                        None => None,
                        Some((timeout_ms, k)) => if k == s.len() {
                            Some(MessageV::ConnectRequest { host, port, timeout_ms })
                        } else {
                            None
                        },
                    },
                },
            }
        } else if tag == 2 {
            match parse_bytes(s, 1) {
                None => None,
                Some((connection_id, i)) => match parse_bytes(s, i) {
                    None => None,
                    Some((server_version, j)) => if j == s.len() {
                        Some(MessageV::ConnectResponse { connection_id, server_version })
                    } else {
                        None
                    },
                },
            }
        } else if tag == 3 {
            match parse_bytes(s, 1) {
                None => None,
                Some((connection_id, i)) => match parse_bytes(s, i) {
                    None => None,
                    Some((username, j)) => match parse_bytes(s, j) {
                        None => None,
                        Some((password, k)) => if k == s.len() {
                            Some(MessageV::AuthRequest { connection_id, username, password })
                        } else {
                            None
                        },
                    },
                },
            }
        } else if tag == 4 {
            match parse_bytes(s, 1) {
                None => None,
                Some((session_id, i)) => match parse_bytes(s, i) {
                    None => None,
                    Some((user_id, j)) => match parse_u64(s, j) {
                        None => None,
                        Some((token_expiry, k)) => if k == s.len() {
                            Some(MessageV::AuthResponse { session_id, user_id, token_expiry })
                        } else {
                            None
                        },
                    },
                },
            }
        } else if tag == 5 {
            match parse_bytes(s, 1) {
                None => None,
                Some((session_id, i)) => if i == s.len() {
                    Some(MessageV::ListAppsRequest { session_id })
                } else {
                    None
                },
            }
        } else if tag == 6 {
            match parse_u32(s, 1) {
                None => None,
                Some((n, i)) => match parse_apps(s, i, n as nat) {
                    None => None,
                    Some((apps, j)) => if j == s.len() {
                        Some(MessageV::ListAppsResponse { apps })
                    } else {
                        None
                    },
                },
            }
        } else if tag == 7 {
            match parse_bytes(s, 1) {
                None => None,
                Some((session_id, i)) => match parse_bytes(s, i) {
                    None => None,
                    Some((app_id, j)) => if j == s.len() {
                        Some(MessageV::LaunchRequest { session_id, app_id })
                    } else {
                        None
                    },
                },
            }
        } else if tag == 8 {
            match parse_bytes(s, 1) {
                None => None,
                Some((launch_id, i)) => match parse_bytes(s, i) {
                    None => None,
                    Some((display_url, j)) => if j == s.len() {
                        Some(MessageV::LaunchResponse { launch_id, display_url })
                    } else {
                        None
                    },
                },
            }
        } else if tag == 9 {
            match parse_u32(s, 1) {
                None => None,
                Some((code, i)) => match parse_bytes(s, i) {
                    None => None,
                    Some((message, j)) => if j == s.len() {
                        Some(MessageV::ErrorResponse { code, message })
                    } else {
                        None
                    },
                },
            }
        } else if tag == 10 {
            match parse_bytes(s, 1) {
                None => None,
                Some((session_id, i)) => if i == s.len() {
                    Some(MessageV::LogoutRequest { session_id })
                } else {
                    None
                },
            }
        } else if tag == 11 {
            match parse_bytes(s, 1) {
                None => None,
                Some((session_id, i)) => if i == s.len() {
                    Some(MessageV::Heartbeat { session_id })
                } else {
                    None
                },
            }
        } else {
            None
        }
    }
}

// ---------------------------------------------------------------------
// Round trip: parsing an encoding wherever it stands inside a larger
// byte string yields the encoded value and stops just past it.
// ---------------------------------------------------------------------

proof fn lemma_u16_rt(x: u16)
    ensures
        ((x & 0xff) as u8 as u16) | (((x >> 8) & 0xff) as u8 as u16) << 8 == x,
{
    assert(((x & 0xff) as u8 as u16) | (((x >> 8) & 0xff) as u8 as u16) << 8 == x)
        by (bit_vector);
}

proof fn lemma_u32_rt(x: u32)
    ensures
        ((x & 0xff) as u8 as u32) | (((x >> 8) & 0xff) as u8 as u32) << 8 | (
        ((x >> 16) & 0xff) as u8 as u32) << 16 | (((x >> 24) & 0xff) as u8 as u32) << 24 == x,
{
    assert(((x & 0xff) as u8 as u32) | (((x >> 8) & 0xff) as u8 as u32) << 8 | (
    ((x >> 16) & 0xff) as u8 as u32) << 16 | (((x >> 24) & 0xff) as u8 as u32) << 24 == x)
        by (bit_vector);
}

proof fn lemma_u64_rt(x: u64)
    ensures
        ((x & 0xff) as u8 as u64) | (((x >> 8) & 0xff) as u8 as u64) << 8 | (
        ((x >> 16) & 0xff) as u8 as u64) << 16 | (((x >> 24) & 0xff) as u8 as u64) << 24 | (
        ((x >> 32) & 0xff) as u8 as u64) << 32 | (((x >> 40) & 0xff) as u8 as u64) << 40 | (
        ((x >> 48) & 0xff) as u8 as u64) << 48 | (((x >> 56) & 0xff) as u8 as u64) << 56 == x,
{
    assert(((x & 0xff) as u8 as u64) | (((x >> 8) & 0xff) as u8 as u64) << 8 | (
    ((x >> 16) & 0xff) as u8 as u64) << 16 | (((x >> 24) & 0xff) as u8 as u64) << 24 | (
    ((x >> 32) & 0xff) as u8 as u64) << 32 | (((x >> 40) & 0xff) as u8 as u64) << 40 | (
    ((x >> 48) & 0xff) as u8 as u64) << 48 | (((x >> 56) & 0xff) as u8 as u64) << 56 == x)
        by (bit_vector);
}

/// A window onto a concatenation splits into windows onto its parts.
proof fn lemma_split_at(s: Seq<u8>, i: int, a: Seq<u8>, b: Seq<u8>)
    requires
        0 <= i,
        i + a.len() + b.len() <= s.len(),
        s.subrange(i, i + a.len() + b.len()) == a + b,
    ensures
        s.subrange(i, i + a.len()) =~= a,
        s.subrange(i + a.len(), i + a.len() + b.len()) =~= b,
{
    assert forall|k: int| 0 <= k < a.len() implies s.subrange(i, i + a.len())[k] == a[k] by {
        assert(s.subrange(i, i + a.len() + b.len())[k] == (a + b)[k]);
    }
    assert forall|k: int| 0 <= k < b.len() implies s.subrange(
        i + a.len(),
        i + a.len() + b.len(),
    )[k] == b[k] by {
        assert(s.subrange(i + a.len(), i + a.len() + b.len())[k] == s[i + a.len() + k]);
        assert(s.subrange(i, i + a.len() + b.len())[a.len() + k] == s[i + a.len() + k]);
        assert((a + b)[a.len() + k] == b[k]);
    }
}

proof fn lemma_parse_u16(s: Seq<u8>, i: int, x: u16)
    requires
        0 <= i,
        i + 2 <= s.len(),
        s.subrange(i, i + 2) == enc_u16(x),
    ensures
        parse_u16(s, i) == Some((x, i + 2)),
{
    assert(s[i] == enc_u16(x)[0] && s[i + 1] == enc_u16(x)[1]) by {
        assert(s.subrange(i, i + 2)[0] == s[i]);
        assert(s.subrange(i, i + 2)[1] == s[i + 1]);
    }
    lemma_u16_rt(x);
}

proof fn lemma_parse_u32(s: Seq<u8>, i: int, x: u32)
    requires
        0 <= i,
        i + 4 <= s.len(),
        s.subrange(i, i + 4) == enc_u32(x),
    ensures
        parse_u32(s, i) == Some((x, i + 4)),
{
    assert forall|k: int| 0 <= k < 4 implies s[i + k] == enc_u32(x)[k] by {
        assert(s.subrange(i, i + 4)[k] == s[i + k]);
    }
    assert(s[i] == enc_u32(x)[0] && s[i + 1] == enc_u32(x)[1] && s[i + 2] == enc_u32(x)[2] && s[i
        + 3] == enc_u32(x)[3]);
    lemma_u32_rt(x);
}

proof fn lemma_parse_u64(s: Seq<u8>, i: int, x: u64)
    requires
        0 <= i,
        i + 8 <= s.len(),
        s.subrange(i, i + 8) == enc_u64(x),
    ensures
        parse_u64(s, i) == Some((x, i + 8)),
{
    assert forall|k: int| 0 <= k < 8 implies s[i + k] == enc_u64(x)[k] by {
        assert(s.subrange(i, i + 8)[k] == s[i + k]);
    }
    assert(s[i] == enc_u64(x)[0] && s[i + 1] == enc_u64(x)[1] && s[i + 2] == enc_u64(x)[2] && s[i
        + 3] == enc_u64(x)[3] && s[i + 4] == enc_u64(x)[4] && s[i + 5] == enc_u64(x)[5] && s[i + 6]
        == enc_u64(x)[6] && s[i + 7] == enc_u64(x)[7]);
    lemma_u64_rt(x);
}

proof fn lemma_parse_bytes(s: Seq<u8>, i: int, b: Seq<u8>)
    requires
        0 <= i,
        bytes_wf(b),
        i + enc_bytes(b).len() <= s.len(),
        s.subrange(i, i + enc_bytes(b).len()) == enc_bytes(b),
    ensures
        parse_bytes(s, i) == Some((b, i + enc_bytes(b).len())),
{
    let n = b.len() as u32;
    lemma_split_at(s, i, enc_u32(n), b);
    lemma_parse_u32(s, i, n);
    assert(n as int == b.len());
    assert(s.subrange(i + 4, i + 4 + n) =~= b);
}

proof fn lemma_parse_app(s: Seq<u8>, i: int, a: AppDescriptorV)
    requires
        0 <= i,
        app_wf(a),
        i + enc_app(a).len() <= s.len(),
        s.subrange(i, i + enc_app(a).len()) == enc_app(a),
    ensures
        parse_app(s, i) == Some((a, i + enc_app(a).len())),
{
    let e1 = enc_bytes(a.id);
    let e2 = enc_bytes(a.name);
    let e3 = enc_bytes(a.description);
    let e4 = enc_bytes(a.icon_url);
    assert(enc_app(a) == ((e1 + e2) + e3) + e4);
    lemma_split_at(s, i, (e1 + e2) + e3, e4);
    lemma_split_at(s, i, e1 + e2, e3);
    lemma_split_at(s, i, e1, e2);
    let i1 = i + e1.len();
    let i2 = i1 + e2.len();
    let i3 = i2 + e3.len();
    let i4 = i3 + e4.len();
    lemma_parse_bytes(s, i, a.id);
    lemma_parse_bytes(s, i1, a.name);
    lemma_parse_bytes(s, i2, a.description);
    lemma_parse_bytes(s, i3, a.icon_url);
    assert(parse_app(s, i) == Some((a, i4))) by {
        assert(parse_bytes(s, i) == Some((a.id, i1)));
        assert(parse_bytes(s, i1) == Some((a.name, i2)));
        assert(parse_bytes(s, i2) == Some((a.description, i3)));
        assert(parse_bytes(s, i3) == Some((a.icon_url, i4)));
        let parsed = AppDescriptorV {
            id: a.id,
            name: a.name,
            description: a.description,
            icon_url: a.icon_url,
        };
        assert(parsed =~= a);
    }
}

proof fn lemma_parse_apps(s: Seq<u8>, i: int, apps: Seq<AppDescriptorV>)
    requires
        0 <= i,
        forall|k: int| 0 <= k < apps.len() ==> app_wf(#[trigger] apps[k]),
        i + enc_apps(apps).len() <= s.len(),
        s.subrange(i, i + enc_apps(apps).len()) == enc_apps(apps),
    ensures
        parse_apps(s, i, apps.len()) == Some((apps, i + enc_apps(apps).len())),
    decreases apps.len(),
{
    if apps.len() == 0 {
        assert(apps =~= Seq::<AppDescriptorV>::empty());
        assert(parse_apps(s, i, 0) == Some((Seq::<AppDescriptorV>::empty(), i)));
    } else {
        let head = enc_app(apps[0]);
        let tail = enc_apps(apps.skip(1));
        assert(enc_apps(apps) == head + tail);
        lemma_split_at(s, i, head, tail);
        lemma_parse_app(s, i, apps[0]);
        let j = i + head.len();
        lemma_parse_apps(s, j, apps.skip(1));
        assert(seq![apps[0]] + apps.skip(1) =~= apps);
    }
}

#[verifier::rlimit(50)]
proof fn lemma_rt_connect_request(m: MessageV)
    requires
        msg_wf(m),
        m is ConnectRequest,
    ensures
        spec_decode(spec_encode(m)) == Some(m),
{
    let s = spec_encode(m);
    assert(s.subrange(0, s.len() as int) =~= s);
    match m {
        MessageV::ConnectRequest { host, port, timeout_ms } => {
            let e1 = enc_bytes(host);
            let e2 = enc_u16(port);
            let e3 = enc_u32(timeout_ms);
            assert(s == ((seq![1u8] + e1) + e2) + e3);
            lemma_split_at(s, 0, (seq![1u8] + e1) + e2, e3);
            lemma_split_at(s, 0, seq![1u8] + e1, e2);
            lemma_split_at(s, 0, seq![1u8], e1);
            assert(s[0] == 1u8) by {
                assert(s.subrange(0, 1)[0] == s[0]);
            }
            lemma_parse_bytes(s, 1, host);
            lemma_parse_u16(s, 1 + e1.len() as int, port);
            lemma_parse_u32(s, 1 + e1.len() as int + 2, timeout_ms);
            assert(spec_decode(s) matches Some(d) && d =~= m);
        },
        _ => {},
    }
}

#[verifier::rlimit(50)]
proof fn lemma_rt_connect_response(m: MessageV)
    requires
        msg_wf(m),
        m is ConnectResponse,
    ensures
        spec_decode(spec_encode(m)) == Some(m),
{
    let s = spec_encode(m);
    assert(s.subrange(0, s.len() as int) =~= s);
    match m {
        MessageV::ConnectResponse { connection_id, server_version } => {
            let e1 = enc_bytes(connection_id);
            let e2 = enc_bytes(server_version);
            assert(s == (seq![2u8] + e1) + e2);
            lemma_split_at(s, 0, seq![2u8] + e1, e2);
            lemma_split_at(s, 0, seq![2u8], e1);
            assert(s[0] == 2u8) by {
                assert(s.subrange(0, 1)[0] == s[0]);
            }
            lemma_parse_bytes(s, 1, connection_id);
            lemma_parse_bytes(s, 1 + e1.len() as int, server_version);
            assert(spec_decode(s) matches Some(d) && d =~= m);
        },
        _ => {},
    }
}

#[verifier::rlimit(50)]
proof fn lemma_rt_auth_request(m: MessageV)
    requires
        msg_wf(m),
        m is AuthRequest,
    ensures
        spec_decode(spec_encode(m)) == Some(m),
{
    let s = spec_encode(m);
    assert(s.subrange(0, s.len() as int) =~= s);
    match m {
        MessageV::AuthRequest { connection_id, username, password } => {
            let e1 = enc_bytes(connection_id);
            let e2 = enc_bytes(username);
            let e3 = enc_bytes(password);
            assert(s == ((seq![3u8] + e1) + e2) + e3);
            lemma_split_at(s, 0, (seq![3u8] + e1) + e2, e3);
            lemma_split_at(s, 0, seq![3u8] + e1, e2);
            lemma_split_at(s, 0, seq![3u8], e1);
            assert(s[0] == 3u8) by {
                assert(s.subrange(0, 1)[0] == s[0]);
            }
            lemma_parse_bytes(s, 1, connection_id);
            lemma_parse_bytes(s, 1 + e1.len() as int, username);
            lemma_parse_bytes(s, 1 + e1.len() as int + e2.len() as int, password);
            assert(spec_decode(s) matches Some(d) && d =~= m);
        },
        _ => {},
    }
}

#[verifier::rlimit(50)]
proof fn lemma_rt_auth_response(m: MessageV)
    requires
        msg_wf(m),
        m is AuthResponse,
    ensures
        spec_decode(spec_encode(m)) == Some(m),
{
    let s = spec_encode(m);
    assert(s.subrange(0, s.len() as int) =~= s);
    match m {
        MessageV::AuthResponse { session_id, user_id, token_expiry } => {
            let e1 = enc_bytes(session_id);
            let e2 = enc_bytes(user_id);
            let e3 = enc_u64(token_expiry);
            assert(s == ((seq![4u8] + e1) + e2) + e3);
            lemma_split_at(s, 0, (seq![4u8] + e1) + e2, e3);
            lemma_split_at(s, 0, seq![4u8] + e1, e2);
            lemma_split_at(s, 0, seq![4u8], e1);
            assert(s[0] == 4u8) by {
                assert(s.subrange(0, 1)[0] == s[0]);
            }
            lemma_parse_bytes(s, 1, session_id);
            lemma_parse_bytes(s, 1 + e1.len() as int, user_id);
            lemma_parse_u64(s, 1 + e1.len() as int + e2.len() as int, token_expiry);
            assert(spec_decode(s) matches Some(d) && d =~= m);
        },
        _ => {},
    }
}

#[verifier::rlimit(50)]
proof fn lemma_rt_list_apps_request(m: MessageV)
    requires
        msg_wf(m),
        m is ListAppsRequest,
    ensures
        spec_decode(spec_encode(m)) == Some(m),
{
    let s = spec_encode(m);
    assert(s.subrange(0, s.len() as int) =~= s);
    match m {
        MessageV::ListAppsRequest { session_id } => {
            let e1 = enc_bytes(session_id);
            assert(s == seq![5u8] + e1);
            lemma_split_at(s, 0, seq![5u8], e1);
            assert(s[0] == 5u8) by {
                assert(s.subrange(0, 1)[0] == s[0]);
            }
            lemma_parse_bytes(s, 1, session_id);
            assert(spec_decode(s) matches Some(d) && d =~= m);
        },
        _ => {},
    }
}

#[verifier::rlimit(50)]
proof fn lemma_rt_list_apps_response(m: MessageV)
    requires
        msg_wf(m),
        m is ListAppsResponse,
    ensures
        spec_decode(spec_encode(m)) == Some(m),
{
    let s = spec_encode(m);
    assert(s.subrange(0, s.len() as int) =~= s);
    match m {
        MessageV::ListAppsResponse { apps } => {
            let n = apps.len() as u32;
            let e1 = enc_u32(n);
            let e2 = enc_apps(apps);
            assert(s == (seq![6u8] + e1) + e2);
            lemma_split_at(s, 0, seq![6u8] + e1, e2);
            lemma_split_at(s, 0, seq![6u8], e1);
            assert(s[0] == 6u8) by {
                assert(s.subrange(0, 1)[0] == s[0]);
            }
            lemma_parse_u32(s, 1, n);
            lemma_parse_apps(s, 1 + e1.len() as int, apps);
            assert(n as nat == apps.len());
            assert(spec_decode(s) matches Some(d) && d =~= m);
        },
        _ => {},
    }
}

#[verifier::rlimit(50)]
proof fn lemma_rt_launch_request(m: MessageV)
    requires
        msg_wf(m),
        m is LaunchRequest,
    ensures
        spec_decode(spec_encode(m)) == Some(m),
{
    let s = spec_encode(m);
    assert(s.subrange(0, s.len() as int) =~= s);
    match m {
        MessageV::LaunchRequest { session_id, app_id } => {
            let e1 = enc_bytes(session_id);
            let e2 = enc_bytes(app_id);
            assert(s == (seq![7u8] + e1) + e2);
            lemma_split_at(s, 0, seq![7u8] + e1, e2);
            lemma_split_at(s, 0, seq![7u8], e1);
            assert(s[0] == 7u8) by {
                assert(s.subrange(0, 1)[0] == s[0]);
            }
            lemma_parse_bytes(s, 1, session_id);
            lemma_parse_bytes(s, 1 + e1.len() as int, app_id);
            assert(spec_decode(s) matches Some(d) && d =~= m);
        },
        _ => {},
    }
}

#[verifier::rlimit(50)]
proof fn lemma_rt_launch_response(m: MessageV)
    requires
        msg_wf(m),
        m is LaunchResponse,
    ensures
        spec_decode(spec_encode(m)) == Some(m),
{
    let s = spec_encode(m);
    assert(s.subrange(0, s.len() as int) =~= s);
    match m {
        MessageV::LaunchResponse { launch_id, display_url } => {
            let e1 = enc_bytes(launch_id);
            let e2 = enc_bytes(display_url);
            assert(s == (seq![8u8] + e1) + e2);
            lemma_split_at(s, 0, seq![8u8] + e1, e2);
            lemma_split_at(s, 0, seq![8u8], e1);
            assert(s[0] == 8u8) by {
                assert(s.subrange(0, 1)[0] == s[0]);
            }
            lemma_parse_bytes(s, 1, launch_id);
            lemma_parse_bytes(s, 1 + e1.len() as int, display_url);
            assert(spec_decode(s) matches Some(d) && d =~= m);
        },
        _ => {},
    }
}

#[verifier::rlimit(50)]
proof fn lemma_rt_error_response(m: MessageV)
    requires
        msg_wf(m),
        m is ErrorResponse,
    ensures
        spec_decode(spec_encode(m)) == Some(m),
{
    let s = spec_encode(m);
    assert(s.subrange(0, s.len() as int) =~= s);
    match m {
        MessageV::ErrorResponse { code, message } => {
            let e1 = enc_u32(code);
            let e2 = enc_bytes(message);
            assert(s == (seq![9u8] + e1) + e2);
            lemma_split_at(s, 0, seq![9u8] + e1, e2);
            lemma_split_at(s, 0, seq![9u8], e1);
            assert(s[0] == 9u8) by {
                assert(s.subrange(0, 1)[0] == s[0]);
            }
            lemma_parse_u32(s, 1, code);
            lemma_parse_bytes(s, 1 + e1.len() as int, message);
            assert(spec_decode(s) matches Some(d) && d =~= m);
        },
        _ => {},
    }
}

#[verifier::rlimit(50)]
proof fn lemma_rt_logout_request(m: MessageV)
    requires
        msg_wf(m),
        m is LogoutRequest,
    ensures
        spec_decode(spec_encode(m)) == Some(m),
{
    let s = spec_encode(m);
    assert(s.subrange(0, s.len() as int) =~= s);
    match m {
        MessageV::LogoutRequest { session_id } => {
            let e1 = enc_bytes(session_id);
            assert(s == seq![10u8] + e1);
            lemma_split_at(s, 0, seq![10u8], e1);
            assert(s[0] == 10u8) by {
                assert(s.subrange(0, 1)[0] == s[0]);
            }
            lemma_parse_bytes(s, 1, session_id);
            assert(spec_decode(s) matches Some(d) && d =~= m);
        },
        _ => {},
    }
}

#[verifier::rlimit(50)]
proof fn lemma_rt_heartbeat(m: MessageV)
    requires
        msg_wf(m),
        m is Heartbeat,
    ensures
        spec_decode(spec_encode(m)) == Some(m),
{
    let s = spec_encode(m);
    assert(s.subrange(0, s.len() as int) =~= s);
    match m {
        MessageV::Heartbeat { session_id } => {
            let e1 = enc_bytes(session_id);
            assert(s == seq![11u8] + e1);
            lemma_split_at(s, 0, seq![11u8], e1);
            assert(s[0] == 11u8) by {
                assert(s.subrange(0, 1)[0] == s[0]);
            }
            lemma_parse_bytes(s, 1, session_id);
            assert(spec_decode(s) matches Some(d) && d =~= m);
        },
        _ => {},
    }
}

/// Round trip: decoding the encoding of any well-formed message yields
/// that message back, ordered descriptor list included.
pub proof fn lemma_codec_round_trip(m: MessageV)
    requires
        msg_wf(m),
    ensures
        spec_decode(spec_encode(m)) == Some(m),
{
    match m {
        MessageV::ConnectRequest { .. } => lemma_rt_connect_request(m),
        MessageV::ConnectResponse { .. } => lemma_rt_connect_response(m),
        MessageV::AuthRequest { .. } => lemma_rt_auth_request(m),
        MessageV::AuthResponse { .. } => lemma_rt_auth_response(m),
        MessageV::ListAppsRequest { .. } => lemma_rt_list_apps_request(m),
        MessageV::ListAppsResponse { .. } => lemma_rt_list_apps_response(m),
        MessageV::LaunchRequest { .. } => lemma_rt_launch_request(m),
        MessageV::LaunchResponse { .. } => lemma_rt_launch_response(m),
        MessageV::ErrorResponse { .. } => lemma_rt_error_response(m),
        MessageV::LogoutRequest { .. } => lemma_rt_logout_request(m),
        MessageV::Heartbeat { .. } => lemma_rt_heartbeat(m),
    }
}

proof fn lemma_parse_apps_wf(s: Seq<u8>, i: int, n: nat)
    ensures
        parse_apps(s, i, n) matches Some(p) ==> p.0.len() == n && (forall|k: int|
            0 <= k < p.0.len() ==> app_wf(#[trigger] p.0[k])),
    decreases n,
{
    if n > 0 {
        match parse_app(s, i) {
            None => {},
            Some((a, j)) => {
                assert(app_wf(a));
                lemma_parse_apps_wf(s, j, (n - 1) as nat);
            },
        }
    }
}

/// Every message that decoding yields is well-formed: each of its
/// byte-string fields and its descriptor count came through a 32-bit
/// length prefix.
pub proof fn lemma_decode_wf(s: Seq<u8>)
    ensures
        spec_decode(s) matches Some(m) ==> msg_wf(m),
{
    if s.len() >= 1 && s[0] == 6 {
        match parse_u32(s, 1) {
            None => {},
            Some((n, i)) => {
                lemma_parse_apps_wf(s, i, n as nat);
            },
        }
    }
}

// ---------------------------------------------------------------------
// Copying helpers: byte strings and descriptors are value data, and a
// copy carries exactly the same value.
// ---------------------------------------------------------------------

pub fn clone_bytes(v: &Vec<u8>) -> (r: Vec<u8>)
    ensures
        r@ == v@,
{
    let c = v.clone();
    assert(c@ =~= v@);
    c
}

pub fn clone_app(a: &AppDescriptor) -> (r: AppDescriptor)
    ensures
        r@ == a@,
{
    let r = AppDescriptor {
        id: clone_bytes(&a.id),
        name: clone_bytes(&a.name),
        description: clone_bytes(&a.description),
        icon_url: clone_bytes(&a.icon_url),
    };
    assert(r@ =~= a@);
    r
}

pub fn clone_apps(v: &Vec<AppDescriptor>) -> (r: Vec<AppDescriptor>)
    ensures
        apps_view(r@) == apps_view(v@),
        r@.len() == v@.len(),
{
    let mut out: Vec<AppDescriptor> = Vec::new();
    let mut i: usize = 0;
    while i < v.len()
        invariant
            i <= v@.len(),
            out@.len() == i,
            forall|k: int| 0 <= k < i ==> apps_view(out@)[k] == apps_view(v@)[k],
        decreases v@.len() - i,
    {
        out.push(clone_app(&v[i]));
        i = i + 1;
    }
    assert(apps_view(out@) =~= apps_view(v@));
    out
}

// ---------------------------------------------------------------------
// Encoding, executable.
// ---------------------------------------------------------------------

fn push_u16(out: &mut Vec<u8>, x: u16)
    ensures
        final(out)@ == old(out)@ + enc_u16(x),
{
    proof {
        assert(x & 0xff <= 0xff && (x >> 8) & 0xff <= 0xff) by (bit_vector);
    }
    out.push((x & 0xff) as u8);
    out.push(((x >> 8) & 0xff) as u8);
    assert(out@ =~= old(out)@ + enc_u16(x));
}

fn push_u32(out: &mut Vec<u8>, x: u32)
    ensures
        final(out)@ == old(out)@ + enc_u32(x),
{
    proof {
        assert(x & 0xff <= 0xff && (x >> 8) & 0xff <= 0xff && (x >> 16) & 0xff <= 0xff && (x >> 24)
            & 0xff <= 0xff) by (bit_vector);
    }
    out.push((x & 0xff) as u8);
    out.push(((x >> 8) & 0xff) as u8);
    out.push(((x >> 16) & 0xff) as u8);
    out.push(((x >> 24) & 0xff) as u8);
    assert(out@ =~= old(out)@ + enc_u32(x));
}

fn push_u64(out: &mut Vec<u8>, x: u64)
    ensures
        final(out)@ == old(out)@ + enc_u64(x),
{
    proof {
        assert(x & 0xff <= 0xff && (x >> 8) & 0xff <= 0xff && (x >> 16) & 0xff <= 0xff && (x >> 24)
            & 0xff <= 0xff && (x >> 32) & 0xff <= 0xff && (x >> 40) & 0xff <= 0xff && (x >> 48)
            & 0xff <= 0xff && (x >> 56) & 0xff <= 0xff) by (bit_vector);
    }
    out.push((x & 0xff) as u8);
    out.push(((x >> 8) & 0xff) as u8);
    out.push(((x >> 16) & 0xff) as u8);
    out.push(((x >> 24) & 0xff) as u8);
    out.push(((x >> 32) & 0xff) as u8);
    out.push(((x >> 40) & 0xff) as u8);
    out.push(((x >> 48) & 0xff) as u8);
    out.push(((x >> 56) & 0xff) as u8);
    assert(out@ =~= old(out)@ + enc_u64(x));
}

fn push_bytes(out: &mut Vec<u8>, b: &Vec<u8>)
    requires
        bytes_wf(b@),
    ensures
        final(out)@ == old(out)@ + enc_bytes(b@),
{
    push_u32(out, b.len() as u32);
    out.extend_from_slice(b.as_slice());
    assert(out@ =~= old(out)@ + enc_bytes(b@));
}

fn push_app(out: &mut Vec<u8>, a: &AppDescriptor)
    requires
        app_wf(a@),
    ensures
        final(out)@ == old(out)@ + enc_app(a@),
{
    push_bytes(out, &a.id);
    push_bytes(out, &a.name);
    push_bytes(out, &a.description);
    push_bytes(out, &a.icon_url);
    assert(out@ =~= old(out)@ + enc_app(a@));
}

proof fn lemma_enc_apps_push(s: Seq<AppDescriptorV>, a: AppDescriptorV)
    ensures
        enc_apps(s.push(a)) == enc_apps(s) + enc_app(a),
    decreases s.len(),
{
    if s.len() == 0 {
        assert(s.push(a)[0] == a);
        assert(s.push(a).skip(1) =~= Seq::<AppDescriptorV>::empty());
        assert(enc_apps(Seq::<AppDescriptorV>::empty()) == Seq::<u8>::empty());
        assert(enc_apps(s.push(a)) == enc_app(a) + Seq::<u8>::empty());
        assert(enc_apps(s) == Seq::<u8>::empty());
        assert(enc_apps(s.push(a)) =~= enc_apps(s) + enc_app(a));
    } else {
        assert(s.push(a)[0] == s[0]);
        assert(s.push(a).skip(1) =~= s.skip(1).push(a));
        lemma_enc_apps_push(s.skip(1), a);
        assert(enc_apps(s.push(a)) == enc_app(s[0]) + (enc_apps(s.skip(1)) + enc_app(a)));
        assert(enc_apps(s.push(a)) =~= enc_apps(s) + enc_app(a));
    }
}

/// Encode a message into its wire form. Pure and stateless: the result
/// is exactly [`spec_encode`] of the message's value.
pub fn encode(m: &Message) -> (r: Vec<u8>)
    requires
        msg_wf(m@),
    ensures
        r@ == spec_encode(m@),
{
    let mut out: Vec<u8> = Vec::new();
    match m {
        Message::ConnectRequest { host, port, timeout_ms } => {
            out.push(1u8);
            assert(out@ =~= seq![1u8]);
            push_bytes(&mut out, host);
            push_u16(&mut out, *port);
            push_u32(&mut out, *timeout_ms);
        },
        Message::ConnectResponse { connection_id, server_version } => {
            out.push(2u8);
            assert(out@ =~= seq![2u8]);
            push_bytes(&mut out, connection_id);
            push_bytes(&mut out, server_version);
        },
        Message::AuthRequest { connection_id, username, password } => {
            out.push(3u8);
            assert(out@ =~= seq![3u8]);
            push_bytes(&mut out, connection_id);
            push_bytes(&mut out, username);
            push_bytes(&mut out, password);
        },
        Message::AuthResponse { session_id, user_id, token_expiry } => {
            out.push(4u8);
            assert(out@ =~= seq![4u8]);
            push_bytes(&mut out, session_id);
            push_bytes(&mut out, user_id);
            push_u64(&mut out, *token_expiry);
        },
        Message::ListAppsRequest { session_id } => {
            out.push(5u8);
            assert(out@ =~= seq![5u8]);
            push_bytes(&mut out, session_id);
        },
        Message::ListAppsResponse { apps } => {
            out.push(6u8);
            assert(out@ =~= seq![6u8]);
            push_u32(&mut out, apps.len() as u32);
            let ghost prefix = out@;
            let mut k: usize = 0;
            assert(apps_view(apps@).take(0) =~= Seq::<AppDescriptorV>::empty());
            while k < apps.len()
                invariant
                    k <= apps.len(),
                    msg_wf(m@),
                    m@ matches MessageV::ListAppsResponse { apps: av } && av == apps_view(apps@),
                    out@ == prefix + enc_apps(apps_view(apps@).take(k as int)),
                decreases apps.len() - k,
            {
                assert(app_wf(apps_view(apps@)[k as int]));
                assert(apps[k as int]@ == apps_view(apps@)[k as int]);
                push_app(&mut out, &apps[k]);
                proof {
                    let av = apps_view(apps@);
                    lemma_enc_apps_push(av.take(k as int), av[k as int]);
                    assert(av.take(k as int).push(av[k as int]) =~= av.take(k + 1 as int));
                }
                k = k + 1;
            }
            assert(apps_view(apps@).take(apps@.len() as int) =~= apps_view(apps@));
        },
        Message::LaunchRequest { session_id, app_id } => {
            out.push(7u8);
            assert(out@ =~= seq![7u8]);
            push_bytes(&mut out, session_id);
            push_bytes(&mut out, app_id);
        },
        Message::LaunchResponse { launch_id, display_url } => {
            out.push(8u8);
            assert(out@ =~= seq![8u8]);
            push_bytes(&mut out, launch_id);
            push_bytes(&mut out, display_url);
        },
        Message::ErrorResponse { code, message } => {
            out.push(9u8);
            assert(out@ =~= seq![9u8]);
            push_u32(&mut out, *code);
            push_bytes(&mut out, message);
        },
        Message::LogoutRequest { session_id } => {
            out.push(10u8);
            assert(out@ =~= seq![10u8]);
            push_bytes(&mut out, session_id);
        },
        Message::Heartbeat { session_id } => {
            out.push(11u8);
            assert(out@ =~= seq![11u8]);
            push_bytes(&mut out, session_id);
        },
    }
    out
}

// ---------------------------------------------------------------------
// Decoding, executable.
// ---------------------------------------------------------------------

fn read_u16(s: &[u8], i: usize) -> (r: Option<(u16, usize)>)
    requires
        i <= s@.len(),
    ensures
        match parse_u16(s@, i as int) {
            Some((v, j)) => r matches Some(p) && p.0 == v && p.1 as int == j && p.1 <= s@.len(),
            None => r is None,
        },
{
    if s.len() - i >= 2 {
        let b0 = s[i];
        let b1 = s[i + 1];
        Some(((b0 as u16) | ((b1 as u16) << 8), i + 2))
    } else {
        None
    }
}

fn read_u32(s: &[u8], i: usize) -> (r: Option<(u32, usize)>)
    requires
        i <= s@.len(),
    ensures
        match parse_u32(s@, i as int) {
            Some((v, j)) => r matches Some(p) && p.0 == v && p.1 as int == j && p.1 <= s@.len(),
            None => r is None,
        },
{
    if s.len() - i >= 4 {
        let b0 = s[i];
        let b1 = s[i + 1];
        let b2 = s[i + 2];
        let b3 = s[i + 3];
        Some(
            ((b0 as u32) | ((b1 as u32) << 8) | ((b2 as u32) << 16) | ((b3 as u32) << 24), i + 4),
        )
    } else {
        None
    }
}

fn read_u64(s: &[u8], i: usize) -> (r: Option<(u64, usize)>)
    requires
        i <= s@.len(),
    ensures
        match parse_u64(s@, i as int) {
            Some((v, j)) => r matches Some(p) && p.0 == v && p.1 as int == j && p.1 <= s@.len(),
            None => r is None,
        },
{
    if s.len() - i >= 8 {
        let b0 = s[i];
        let b1 = s[i + 1];
        let b2 = s[i + 2];
        let b3 = s[i + 3];
        let b4 = s[i + 4];
        let b5 = s[i + 5];
        let b6 = s[i + 6];
        let b7 = s[i + 7];
        Some(
            (
                (b0 as u64) | ((b1 as u64) << 8) | ((b2 as u64) << 16) | ((b3 as u64) << 24) | (
                (b4 as u64) << 32) | ((b5 as u64) << 40) | ((b6 as u64) << 48) | (
                (b7 as u64) << 56),
                i + 8,
            ),
        )
    } else {
        None
    }
}

fn read_bytes(s: &[u8], i: usize) -> (r: Option<(Vec<u8>, usize)>)
    requires
        i <= s@.len(),
    ensures
        match parse_bytes(s@, i as int) {
            Some((b, j)) => r matches Some(p) && p.0@ == b && p.1 as int == j && p.1 <= s@.len(),
            None => r is None,
        },
{
    match read_u32(s, i) {
        None => None,
        Some((n, j)) => {
            if n as usize <= s.len() - j {
                let sub = vstd::slice::slice_subrange(s, j, j + n as usize);
                let v = vstd::slice::slice_to_vec(sub);
                Some((v, j + n as usize))
            } else {
                None
            }
        },
    }
}

fn read_app(s: &[u8], i: usize) -> (r: Option<(AppDescriptor, usize)>)
    requires
        i <= s@.len(),
    ensures
        match parse_app(s@, i as int) {
            Some((a, j)) => r matches Some(p) && p.0@ == a && p.1 as int == j && p.1 <= s@.len(),
            None => r is None,
        },
{
    match read_bytes(s, i) {
        None => None,
        Some((id, j)) => match read_bytes(s, j) {
            None => None,
            Some((name, k)) => match read_bytes(s, k) {
                None => None,
                Some((description, l)) => match read_bytes(s, l) {
                    None => None,
                    Some((icon_url, e)) => {
                        let a = AppDescriptor { id, name, description, icon_url };
                        assert(parse_app(s@, i as int) matches Some(p) && a@ =~= p.0);
                        Some((a, e))
                    },
                },
            },
        },
    }
}

fn read_apps(s: &[u8], i: usize, n: u32) -> (r: Option<(Vec<AppDescriptor>, usize)>)
    requires
        i <= s@.len(),
    ensures
        match parse_apps(s@, i as int, n as nat) {
            Some((apps, j)) => r matches Some(p) && apps_view(p.0@) == apps && p.1 as int == j
                && p.1 <= s@.len(),
            None => r is None,
        },
{
    let mut apps: Vec<AppDescriptor> = Vec::new();
    let mut cur: usize = i;
    let mut k: u32 = 0;
    assert(apps_view(apps@) =~= Seq::<AppDescriptorV>::empty());
    while k < n
        invariant
            k <= n,
            cur <= s@.len(),
            apps@.len() == k as nat,
            parse_apps(s@, i as int, n as nat) == (match parse_apps(
                s@,
                cur as int,
                (n - k) as nat,
            ) {
                Some((rest, e)) => Some((apps_view(apps@) + rest, e)),
                None => None::<(Seq<AppDescriptorV>, int)>,
            }),
        decreases n - k,
    {
        match read_app(s, cur) {
            None => {
                assert(parse_apps(s@, cur as int, (n - k) as nat) is None);
                return None;
            },
            Some((a, next)) => {
                proof {
                    let rem = (n - k) as nat;
                    assert(parse_apps(s@, cur as int, rem) matches Some((rest, e)) ==> rest
                        == seq![a@] + parse_apps(s@, next as int, (rem - 1) as nat)->Some_0.0);
                }
                let ghost old_apps = apps@;
                apps.push(a);
                proof {
                    assert(apps_view(apps@) =~= apps_view(old_apps) + seq![a@]);
                    let rem = (n - k) as nat;
                    let po = parse_apps(s@, next as int, (rem - 1) as nat);
                    if po is Some {
                        let rest2 = po->Some_0.0;
                        let e2 = po->Some_0.1;
                        assert(parse_apps(s@, cur as int, rem) == Some((seq![a@] + rest2, e2)));
                        assert(apps_view(old_apps) + (seq![a@] + rest2) =~= apps_view(apps@)
                            + rest2);
                    } else {
                        assert(parse_apps(s@, cur as int, rem) is None);
                    }
                }
                cur = next;
                k = k + 1;
            },
        }
    }
    assert(parse_apps(s@, cur as int, 0) == Some((Seq::<AppDescriptorV>::empty(), cur as int)));
    assert(apps_view(apps@) + Seq::<AppDescriptorV>::empty() =~= apps_view(apps@));
    Some((apps, cur))
}

/// Decode one message from its wire form, or report that the bytes do
/// not spell one. Total on arbitrary input: exactly the inputs on which
/// [`spec_decode`] yields a message are accepted, and everything else
/// is answered with `MalformedMessage`; no input panics.
pub fn decode(s: &[u8]) -> (r: Result<Message, CodecError>)
    ensures
        match spec_decode(s@) {
            Some(mv) => r matches Ok(m) && m@ == mv,
            None => r matches Err(e) && e == CodecError::MalformedMessage,
        },
{
    if s.len() < 1 {
        return Err(CodecError::MalformedMessage);
    }
    let tag = s[0];
    if tag == 1 {
        match read_bytes(s, 1) {
            Some((host, i)) => match read_u16(s, i) {
                Some((port, j)) => match read_u32(s, j) {
                    Some((timeout_ms, k)) => {
                        if k == s.len() {
                            let m = Message::ConnectRequest { host, port, timeout_ms };
                            assert(spec_decode(s@) matches Some(mv) && m@ =~= mv);
                            Ok(m)
                        } else {
                            Err(CodecError::MalformedMessage)
                        }
                    },
                    None => Err(CodecError::MalformedMessage),
                },
                None => Err(CodecError::MalformedMessage),
            },
            None => Err(CodecError::MalformedMessage),
        }
    } else if tag == 2 {
        match read_bytes(s, 1) {
            Some((connection_id, i)) => match read_bytes(s, i) {
                Some((server_version, j)) => {
                    if j == s.len() {
                        let m = Message::ConnectResponse { connection_id, server_version };
                        assert(spec_decode(s@) matches Some(mv) && m@ =~= mv);
                        Ok(m)
                    } else {
                        Err(CodecError::MalformedMessage)
                    }
                },
                None => Err(CodecError::MalformedMessage),
            },
            None => Err(CodecError::MalformedMessage),
        }
    } else if tag == 3 {
        match read_bytes(s, 1) {
            Some((connection_id, i)) => match read_bytes(s, i) {
                Some((username, j)) => match read_bytes(s, j) {
                    Some((password, k)) => {
                        if k == s.len() {
                            let m = Message::AuthRequest { connection_id, username, password };
                            assert(spec_decode(s@) matches Some(mv) && m@ =~= mv);
                            Ok(m)
                        } else {
                            Err(CodecError::MalformedMessage)
                        }
                    },
                    None => Err(CodecError::MalformedMessage),
                },
                None => Err(CodecError::MalformedMessage),
            },
            None => Err(CodecError::MalformedMessage),
        }
    } else if tag == 4 {
        match read_bytes(s, 1) {
            Some((session_id, i)) => match read_bytes(s, i) {
                Some((user_id, j)) => match read_u64(s, j) {
                    Some((token_expiry, k)) => {
                        if k == s.len() {
                            let m = Message::AuthResponse { session_id, user_id, token_expiry };
                            assert(spec_decode(s@) matches Some(mv) && m@ =~= mv);
                            Ok(m)
                        } else {
                            Err(CodecError::MalformedMessage)
                        }
                    },
                    None => Err(CodecError::MalformedMessage),
                },
                None => Err(CodecError::MalformedMessage),
            },
            None => Err(CodecError::MalformedMessage),
        }
    } else if tag == 5 {
        match read_bytes(s, 1) {
            Some((session_id, i)) => {
                if i == s.len() {
                    let m = Message::ListAppsRequest { session_id };
                    assert(spec_decode(s@) matches Some(mv) && m@ =~= mv);
                    Ok(m)
                } else {
                    Err(CodecError::MalformedMessage)
                }
            },
            None => Err(CodecError::MalformedMessage),
        }
    } else if tag == 6 {
        match read_u32(s, 1) {
            Some((n, i)) => match read_apps(s, i, n) {
                Some((apps, j)) => {
                    if j == s.len() {
                        let m = Message::ListAppsResponse { apps };
                        assert(spec_decode(s@) matches Some(mv) && m@ =~= mv);
                        Ok(m)
                    } else {
                        Err(CodecError::MalformedMessage)
                    }
                },
                None => Err(CodecError::MalformedMessage),
            },
            None => Err(CodecError::MalformedMessage),
        }
    } else if tag == 7 {
        match read_bytes(s, 1) {
            Some((session_id, i)) => match read_bytes(s, i) {
                Some((app_id, j)) => {
                    if j == s.len() {
                        let m = Message::LaunchRequest { session_id, app_id };
                        assert(spec_decode(s@) matches Some(mv) && m@ =~= mv);
                        Ok(m)
                    } else {
                        Err(CodecError::MalformedMessage)
                    }
                },
                None => Err(CodecError::MalformedMessage),
            },
            None => Err(CodecError::MalformedMessage),
        }
    } else if tag == 8 {
        match read_bytes(s, 1) {
            Some((launch_id, i)) => match read_bytes(s, i) {
                Some((display_url, j)) => {
                    if j == s.len() {
                        let m = Message::LaunchResponse { launch_id, display_url };
                        assert(spec_decode(s@) matches Some(mv) && m@ =~= mv);
                        Ok(m)
                    } else {
                        Err(CodecError::MalformedMessage)
                    }
                },
                None => Err(CodecError::MalformedMessage),
            },
            None => Err(CodecError::MalformedMessage),
        }
    } else if tag == 9 {
        match read_u32(s, 1) {
            Some((code, i)) => match read_bytes(s, i) {
                Some((message, j)) => {
                    if j == s.len() {
                        let m = Message::ErrorResponse { code, message };
                        assert(spec_decode(s@) matches Some(mv) && m@ =~= mv);
                        Ok(m)
                    } else {
                        Err(CodecError::MalformedMessage)
                    }
                },
                None => Err(CodecError::MalformedMessage),
            },
            None => Err(CodecError::MalformedMessage),
        }
    } else if tag == 10 {
        match read_bytes(s, 1) {
            Some((session_id, i)) => {
                if i == s.len() {
                    let m = Message::LogoutRequest { session_id };
                    assert(spec_decode(s@) matches Some(mv) && m@ =~= mv);
                    Ok(m)
                } else {
                    Err(CodecError::MalformedMessage)
                }
            },
            None => Err(CodecError::MalformedMessage),
        }
    } else if tag == 11 {
        match read_bytes(s, 1) {
            Some((session_id, i)) => {
                if i == s.len() {
                    let m = Message::Heartbeat { session_id };
                    assert(spec_decode(s@) matches Some(mv) && m@ =~= mv);
                    Ok(m)
                } else {
                    Err(CodecError::MalformedMessage)
                }
            },
            None => Err(CodecError::MalformedMessage),
        }
    } else {
        Err(CodecError::MalformedMessage)
    }
}

} // verus!
