use geyser_quic::acceptor::{decide, AcceptAction, PacketHeader};
use geyser_quic::config::{configure_client, configure_server, ConfigError, CongestionControl, Role};
use geyser_quic::defaults::{DEFAULT_ACK_EXPONENT, DEFAULT_MAX_ACK_DELAY, MAX_DATAGRAM_SIZE};
use geyser_quic::token::{RetryAuthority, SourceAddress, MAX_CONN_ID_LEN};

fn v4(a: u8, b: u8, c: u8, d: u8, port: u16) -> SourceAddress {
    let mut ip = [0u8; 16];
    ip[10] = 0xff;
    ip[11] = 0xff;
    ip[12] = a;
    ip[13] = b;
    ip[14] = c;
    ip[15] = d;
    SourceAddress { ip, port }
}

fn authority() -> RetryAuthority {
    RetryAuthority::new(b"token secret".to_vec(), b"Jefe".to_vec())
}

fn header(dcid: Vec<u8>, token: Vec<u8>) -> PacketHeader {
    PacketHeader { is_initial: true, version_supported: true, dcid, token }
}

#[test]
fn token_validates_from_its_own_address() {
    let auth = authority();
    let from = v4(127, 0, 0, 1, 4433);
    let odcid = vec![7u8; 20];
    let token = auth.mint_token(&odcid, &from);
    assert_eq!(token.len(), 18 + 32 + 20);
    assert_eq!(auth.validate_token(&from, &token), Some(odcid));
}

#[test]
fn token_fails_from_another_address() {
    let auth = authority();
    let a = v4(127, 0, 0, 1, 4433);
    let token = auth.mint_token(&[1, 2, 3], &a);
    assert_eq!(auth.validate_token(&v4(127, 0, 0, 2, 4433), &token), None);
    assert_eq!(auth.validate_token(&v4(127, 0, 0, 1, 4434), &token), None);
}

#[test]
fn forged_or_malformed_tokens_fail() {
    let auth = authority();
    let from = v4(10, 0, 0, 1, 9000);
    let token = auth.mint_token(&[4u8; 8], &from);
    let mut forged = token.clone();
    forged[20] ^= 1;
    assert_eq!(auth.validate_token(&from, &forged), None);
    let mut other_id = token.clone();
    let last = other_id.len() - 1;
    other_id[last] ^= 1;
    assert_eq!(auth.validate_token(&from, &other_id), None);
    assert_eq!(auth.validate_token(&from, &token[..49]), None);
    let mut long = auth.mint_token(&[4u8; 20], &from);
    long.push(0);
    assert_eq!(auth.validate_token(&from, &long), None);
    let other_key = RetryAuthority::new(b"another secret".to_vec(), b"Jefe".to_vec());
    assert_eq!(other_key.validate_token(&from, &token), None);
}

#[test]
fn connection_id_is_truncated_hmac_sha256() {
    let auth = RetryAuthority::new(vec![], vec![0x0b; 20]);
    let id = auth.derive_connection_id(b"Hi There");
    let expected: Vec<u8> = vec![
        0xb0, 0x34, 0x4c, 0x61, 0xd8, 0xdb, 0x38, 0x53, 0x5c, 0xa8, 0xaf, 0xce, 0xaf, 0x0b, 0xf1,
        0x2b, 0x88, 0x1d, 0xc2, 0x00,
    ];
    assert_eq!(id.len(), MAX_CONN_ID_LEN);
    assert_eq!(id, expected);
}

#[test]
fn first_attempt_gets_a_retry_and_no_connection() {
    let auth = authority();
    let from = v4(192, 168, 1, 5, 5000);
    let dcid = vec![9u8; 20];
    match decide(&auth, &header(dcid.clone(), vec![]), &from) {
        AcceptAction::Retry { scid, token } => {
            assert_eq!(scid, auth.derive_connection_id(&dcid));
            assert_eq!(token, auth.mint_token(&dcid, &from));
            match decide(&auth, &header(scid.clone(), token.clone()), &from) {
                AcceptAction::Accept { scid: s, odcid } => {
                    assert_eq!(s, scid);
                    assert_eq!(odcid, dcid);
                }
                _ => panic!("a valid token must be accepted"),
            }
            let spoofed = v4(192, 168, 1, 6, 5000);
            assert!(matches!(decide(&auth, &header(scid, token), &spoofed), AcceptAction::Drop));
        }
        _ => panic!("a packet without a token must be challenged"),
    }
}

#[test]
fn acceptor_drops_or_negotiates() {
    let auth = authority();
    let from = v4(1, 2, 3, 4, 80);
    let mut not_initial = header(vec![1; 20], vec![]);
    not_initial.is_initial = false;
    assert!(matches!(decide(&auth, &not_initial, &from), AcceptAction::Drop));
    let mut old_version = header(vec![1; 20], vec![]);
    old_version.version_supported = false;
    assert!(matches!(decide(&auth, &old_version, &from), AcceptAction::NegotiateVersion));
    assert!(matches!(decide(&auth, &header(vec![1; 21], vec![]), &from), AcceptAction::Drop));
    assert!(matches!(decide(&auth, &header(vec![1; 20], vec![5; 60]), &from), AcceptAction::Drop));
    let token = auth.mint_token(&[1; 8], &from);
    assert!(matches!(decide(&auth, &header(vec![1; 8], token), &from), AcceptAction::Drop));
}

#[test]
fn server_and_client_configurations() {
    let server = configure_server(1, 100000, 1).unwrap();
    assert_eq!(server.role, Role::Server);
    assert_eq!(server.max_streams_bidi, 1);
    assert_eq!(server.max_connection_window, 100000);
    assert_eq!(server.max_stream_window, 100000);
    assert_eq!(server.max_idle_timeout_ms, 1000);
    assert_eq!(server.max_ack_delay_ms, DEFAULT_MAX_ACK_DELAY);
    assert_eq!(server.ack_delay_exponent, DEFAULT_ACK_EXPONENT);
    assert_eq!(server.congestion_control, CongestionControl::Cubic);
    assert!(server.enable_pacing);
    assert!(server.discover_pmtu);
    assert_eq!(server.max_datagram_size, MAX_DATAGRAM_SIZE);
    let client = configure_client(1, 12_000_000, 10).unwrap();
    assert_eq!(client.role, Role::Client);
    assert_eq!(client.max_idle_timeout_ms, 10_000);
    assert_eq!(configure_server(1, 0, 1), Err(ConfigError::ZeroWindow));
    assert_eq!(configure_client(128, 1, u64::MAX).unwrap().max_idle_timeout_ms, u64::MAX);
}

#[test]
fn protocol_identifier_is_geyser() {
    assert_eq!(geyser_quic::config::alpn_protocol_id(), b"geyser".to_vec());
}
