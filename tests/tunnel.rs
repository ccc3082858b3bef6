use poor_mans_vpn::client::{self, finish_handshake, hello, open_inbound, seal_outbound, ClientAction};
use poor_mans_vpn::crypto::{generate_seed_pair, SessionKey, StaticKeyPair};
use poor_mans_vpn::error::Error;
use poor_mans_vpn::ipv4::ipv4_addresses;
use poor_mans_vpn::message::{decode_payload, encode_payload, Message, PubSeed, SealedPacket, Signed};
use poor_mans_vpn::nonce::{NonceSeq, CLIENT_ROLE, SERVER_ROLE};
use poor_mans_vpn::server::{self, DropReason, KnownPeer, OuterAddr, PeerTable, ServerAction};

const SERVER_ADDR: [u8; 4] = [10, 20, 30, 1];
const PEER_A: [u8; 4] = [10, 20, 30, 2];
const PEER_B: [u8; 4] = [10, 20, 30, 3];

fn new_pkcs8() -> Vec<u8> {
    let rng = ring::rand::SystemRandom::new();
    ring::signature::Ed25519KeyPair::generate_pkcs8(&rng).unwrap().as_ref().to_vec()
}

fn new_identity() -> StaticKeyPair {
    StaticKeyPair::from_pkcs8(&new_pkcs8()).unwrap()
}

fn ipv4_packet(source: [u8; 4], destination: [u8; 4], payload: &[u8]) -> Vec<u8> {
    let total = 20 + payload.len();
    let mut p = vec![0x45, 0, (total >> 8) as u8, total as u8, 0, 0, 0, 0, 64, 17, 0, 0];
    p.extend_from_slice(&source);
    p.extend_from_slice(&destination);
    p.extend_from_slice(payload);
    p
}

fn session_pair() -> (SessionKey, SessionKey) {
    let (priv_c, pub_c) = generate_seed_pair().unwrap();
    let (priv_s, pub_s) = generate_seed_pair().unwrap();
    let c = SessionKey::client_derive(priv_c, pub_s).unwrap();
    let s = SessionKey::server_derive(priv_s, pub_c).unwrap();
    (c, s)
}

fn outer(last: u8, port: u16) -> OuterAddr {
    OuterAddr { ip: [192, 0, 2, last], port }
}

/// Runs a whole handshake of a client at `addr` against the server table.
fn handshake(
    table: &mut PeerTable,
    known: &Vec<KnownPeer>,
    server_key: &StaticKeyPair,
    client_key: &StaticKeyPair,
    addr: [u8; 4],
    from: OuterAddr,
) -> SessionKey {
    let (priv_seed, pub_seed) = generate_seed_pair().unwrap();
    let msg = hello(addr, client_key, &pub_seed);
    let action = table.handle_message(known, server_key, SERVER_ADDR, msg, from);
    match action {
        ServerAction::SendTo(to, reply) => {
            assert_eq!(to.ip, from.ip);
            assert_eq!(to.port, from.port);
            finish_handshake(priv_seed, reply, &server_key.public_key()).unwrap()
        }
        _ => panic!("handshake was not answered"),
    }
}

#[test]
fn nonce_sequence_counts_and_tags() {
    let mut seq = NonceSeq::new(CLIENT_ROLE);
    assert_eq!(seq.advance().unwrap(), [0, 0, 0, 0, 0, 0, 0, 0, 0, 0, 0, 1]);
    assert_eq!(seq.advance().unwrap(), [1, 0, 0, 0, 0, 0, 0, 0, 0, 0, 0, 1]);
    let mut seq = NonceSeq::new(SERVER_ROLE);
    for _ in 0..256 {
        seq.advance().unwrap();
    }
    assert_eq!(seq.advance().unwrap(), [0, 1, 0, 0, 0, 0, 0, 0, 0, 0, 0, 2]);
}

#[test]
fn heartbeat_encoding() {
    assert_eq!(Message::HeartBeat.encode(), vec![2, 0, 0, 0]);
    assert!(matches!(Message::decode(&[2, 0, 0, 0]), Ok(Message::HeartBeat)));
    assert!(matches!(Message::decode(&[2, 0, 0, 0, 9, 9]), Ok(Message::HeartBeat)));
}

#[test]
fn packet_encoding_layout_and_round_trip() {
    let m = Message::Packet(SealedPacket { source: PEER_A, destination: PEER_B, content: vec![7, 8, 9] });
    let bytes = m.encode();
    assert_eq!(
        bytes,
        vec![3, 0, 0, 0, 10, 20, 30, 2, 10, 20, 30, 3, 3, 0, 0, 0, 0, 0, 0, 0, 7, 8, 9]
    );
    match Message::decode(&bytes) {
        Ok(Message::Packet(p)) => {
            assert_eq!(p.source, PEER_A);
            assert_eq!(p.destination, PEER_B);
            assert_eq!(p.content, vec![7, 8, 9]);
        }
        _ => panic!("packet did not decode"),
    }
}

#[test]
fn hello_encoding_round_trip() {
    let seed = Signed { data: vec![1, 2], signature: vec![3] };
    let m = Message::Hello { addr: PEER_A, seed };
    let bytes = m.encode();
    assert_eq!(bytes.len(), 4 + 4 + 8 + 2 + 8 + 1);
    match Message::decode(&bytes) {
        Ok(Message::Hello { addr, seed }) => {
            assert_eq!(addr, PEER_A);
            assert_eq!(seed.data, vec![1, 2]);
            assert_eq!(seed.signature, vec![3]);
        }
        _ => panic!("hello did not decode"),
    }
    let reply = Message::HelloReply { seed: Signed { data: vec![], signature: vec![5, 6] } };
    assert!(matches!(Message::decode(&reply.encode()), Ok(Message::HelloReply { .. })));
}

#[test]
fn broken_frames_are_rejected() {
    assert_eq!(Message::decode(&[]).err(), Some(Error::BrokenMessage));
    assert_eq!(Message::decode(&[2, 0, 0]).err(), Some(Error::BrokenMessage));
    assert_eq!(Message::decode(&[4, 0, 0, 0]).err(), Some(Error::BrokenMessage));
    assert_eq!(
        Message::decode(&[3, 0, 0, 0, 10, 20, 30, 2, 10, 20, 30, 3, 5, 0, 0, 0, 0, 0, 0, 0, 1]).err(),
        Some(Error::BrokenMessage)
    );
    assert_eq!(Message::decode(&[0, 0, 0, 0, 10, 20]).err(), Some(Error::BrokenMessage));
}

#[test]
fn payload_and_seed_bytes_match_bincode() {
    let p = vec![1u8, 2, 3, 250];
    assert_eq!(encode_payload(&p), bincode::serialize(&p).unwrap());
    assert_eq!(decode_payload(&encode_payload(&p)).unwrap(), p);
    assert_eq!(decode_payload(&[1, 0, 0]).err(), Some(Error::BrokenMessage));
    let seed = PubSeed { pubkey1: vec![4, 5], pubkey2: vec![6] };
    let expected = bincode::serialize(&(vec![4u8, 5], vec![6u8])).unwrap();
    assert_eq!(seed.to_bytes(), expected);
    let back = PubSeed::from_bytes(&expected).unwrap();
    assert_eq!(back.pubkey1, vec![4, 5]);
    assert_eq!(back.pubkey2, vec![6]);
}

#[test]
fn addresses_as_bytes_concatenates_octets() {
    let p = SealedPacket { source: [10, 10, 10, 1], destination: [10, 10, 10, 2], content: vec![] };
    assert_eq!(p.addresses_as_bytes(), [10, 10, 10, 1, 10, 10, 10, 2]);
}

#[test]
fn ipv4_header_fields() {
    let p = ipv4_packet(PEER_A, PEER_B, b"abc");
    assert_eq!(ipv4_addresses(&p), Some((PEER_A, PEER_B)));
    let mut v6 = p.clone();
    v6[0] = 0x65;
    assert_eq!(ipv4_addresses(&v6), None);
    assert_eq!(ipv4_addresses(&p[..19]), None);
}

#[test]
fn defaults() {
    assert_eq!(client::server_bind_port(), 31415);
    assert_eq!(client::ifname(), "vpn0");
    assert_eq!(client::server_public_key(), "keys/server_pubkey.der");
    assert_eq!(client::private_key(), "keys/privkey.der");
    assert_eq!(client::ipv4_addr_unspecified(), [0, 0, 0, 0]);
    assert_eq!(server::bind_port(), 31415);
    assert_eq!(server::ifname(), "vpn0");
    assert_eq!(server::private_key(), "keys/privkey.der");
    assert_eq!(server::server_address(), [10, 20, 30, 1]);
    assert_eq!(server::ipv4_addr_unspecified(), [0, 0, 0, 0]);
}

#[test]
fn invalid_private_key_is_rejected() {
    assert_eq!(StaticKeyPair::from_pkcs8(&[1, 2, 3]).err(), Some(Error::InvalidPrivateKeyFormat));
}

#[test]
fn sign_then_open() {
    let k = new_identity();
    let other = new_identity();
    let seed = PubSeed { pubkey1: vec![1, 2, 3], pubkey2: vec![4] };
    let signed = k.sign(&seed);
    assert_eq!(signed.data, seed.to_bytes());
    assert!(signed.verify(&k.public_key()).is_ok());
    assert_eq!(signed.verify(&other.public_key()).err(), Some(Error::InvalidSignature));
    let opened = k.sign(&seed).open(&k.public_key()).unwrap();
    assert_eq!(opened.pubkey1, vec![1, 2, 3]);
    assert_eq!(opened.pubkey2, vec![4]);
    assert_eq!(k.sign(&seed).open(&other.public_key()).err(), Some(Error::InvalidSignature));
}

#[test]
fn loopback_seal_unseal() {
    let (mut c, s) = session_pair();
    let aad = [10, 10, 10, 1, 10, 10, 10, 2];
    let frame = c.seal(&aad, b"ping").unwrap();
    assert_eq!(frame.len(), 8 + 4 + 16 + 12);
    assert_eq!(&frame[frame.len() - 12..], &[0, 0, 0, 0, 0, 0, 0, 0, 0, 0, 0, 1]);
    assert_eq!(s.unseal(&aad, &frame).unwrap(), b"ping".to_vec());
    let wrong = [10, 10, 10, 1, 10, 10, 10, 3];
    assert_eq!(s.unseal(&wrong, &frame).err(), Some(Error::BrokenMessage));
}

#[test]
fn server_to_client_direction() {
    let (c, mut s) = session_pair();
    let frame = s.seal(&[1, 2, 3], b"pong").unwrap();
    assert_eq!(frame[frame.len() - 1], 2);
    assert_eq!(c.unseal(&[1, 2, 3], &frame).unwrap(), b"pong".to_vec());
    assert_eq!(s.unseal(&[1, 2, 3], &frame).err(), Some(Error::BrokenMessage));
}

#[test]
fn flipped_address_bit_fails_unseal() {
    let (mut c, s) = session_pair();
    let p = SealedPacket { source: PEER_A, destination: PEER_B, content: vec![] };
    let frame = c.seal(&p.addresses_as_bytes(), b"data").unwrap();
    let flipped = SealedPacket { source: [10, 20, 30, 6], destination: PEER_B, content: vec![] };
    assert_eq!(s.unseal(&flipped.addresses_as_bytes(), &frame).err(), Some(Error::BrokenMessage));
    assert_eq!(s.unseal(&p.addresses_as_bytes(), &frame[..5]).err(), Some(Error::BrokenMessage));
}

#[test]
fn nonces_alternating_sealers_increase() {
    let (c, _s) = session_pair();
    let shared = std::sync::Mutex::new(c);
    let mut last: Option<u128> = None;
    for i in 0..20 {
        let frame = shared.lock().unwrap().seal(&[i as u8], b"x").unwrap();
        let nonce = &frame[frame.len() - 12..];
        assert_eq!(nonce[11], 1);
        let mut v: u128 = 0;
        for b in nonce.iter().rev() {
            v = v * 256 + *b as u128;
        }
        if let Some(prev) = last {
            assert!(v > prev);
        }
        last = Some(v);
    }
}

#[test]
fn handshake_happy_path() {
    let server_key = new_identity();
    let client_key = new_identity();
    let known = vec![KnownPeer { address: PEER_A, public_key: client_key.public_key() }];
    let mut table = PeerTable::new();
    let mut session = handshake(&mut table, &known, &server_key, &client_key, PEER_A, outer(2, 4000));
    assert!(table.contains(PEER_A));
    let packet = ipv4_packet(PEER_A, SERVER_ADDR, b"hello server");
    let msg = seal_outbound(&mut session, &packet).unwrap().unwrap();
    match table.handle_message(&known, &server_key, SERVER_ADDR, msg, outer(2, 4000)) {
        ServerAction::ToTun(bytes) => assert_eq!(bytes, packet),
        _ => panic!("packet for the server was not delivered"),
    }
}

#[test]
fn handshake_with_wrong_signer() {
    let server_key = new_identity();
    let client_key = new_identity();
    let impostor = new_identity();
    let known = vec![KnownPeer { address: PEER_A, public_key: client_key.public_key() }];
    let mut table = PeerTable::new();
    let (_priv_seed, pub_seed) = generate_seed_pair().unwrap();
    let msg = hello(PEER_A, &impostor, &pub_seed);
    let action = table.handle_message(&known, &server_key, SERVER_ADDR, msg, outer(2, 4000));
    assert!(matches!(action, ServerAction::Drop(DropReason::InvalidSignature)));
    assert!(!table.contains(PEER_A));
}

#[test]
fn hello_from_unknown_address_is_dropped() {
    let server_key = new_identity();
    let client_key = new_identity();
    let known = vec![KnownPeer { address: PEER_A, public_key: client_key.public_key() }];
    let mut table = PeerTable::new();
    let (_priv_seed, pub_seed) = generate_seed_pair().unwrap();
    let msg = hello(PEER_B, &client_key, &pub_seed);
    let action = table.handle_message(&known, &server_key, SERVER_ADDR, msg, outer(3, 4000));
    assert!(matches!(action, ServerAction::Drop(DropReason::UnknownPeer)));
    assert!(!table.contains(PEER_B));
}

#[test]
fn peer_to_peer_forwarding() {
    let server_key = new_identity();
    let key_a = new_identity();
    let key_b = new_identity();
    let known = vec![
        KnownPeer { address: PEER_A, public_key: key_a.public_key() },
        KnownPeer { address: PEER_B, public_key: key_b.public_key() },
    ];
    let mut table = PeerTable::new();
    let mut a = handshake(&mut table, &known, &server_key, &key_a, PEER_A, outer(2, 4000));
    let b = handshake(&mut table, &known, &server_key, &key_b, PEER_B, outer(3, 5000));
    let packet = ipv4_packet(PEER_A, PEER_B, b"to b");
    let msg = seal_outbound(&mut a, &packet).unwrap().unwrap();
    match table.handle_message(&known, &server_key, SERVER_ADDR, msg, outer(2, 4000)) {
        ServerAction::SendTo(to, forwarded) => {
            assert_eq!(to.ip, [192, 0, 2, 3]);
            assert_eq!(to.port, 5000);
            match open_inbound(&b, forwarded) {
                ClientAction::ToTun(bytes) => assert_eq!(bytes, packet),
                _ => panic!("b could not open the forwarded packet"),
            }
        }
        _ => panic!("packet was not forwarded"),
    }
}

#[test]
fn unknown_destination_is_dropped() {
    let server_key = new_identity();
    let key_a = new_identity();
    let known = vec![KnownPeer { address: PEER_A, public_key: key_a.public_key() }];
    let mut table = PeerTable::new();
    let mut a = handshake(&mut table, &known, &server_key, &key_a, PEER_A, outer(2, 4000));
    let packet = ipv4_packet(PEER_A, [10, 20, 30, 99], b"nobody");
    let msg = seal_outbound(&mut a, &packet).unwrap().unwrap();
    let action = table.handle_message(&known, &server_key, SERVER_ADDR, msg, outer(2, 4000));
    assert!(matches!(action, ServerAction::Drop(DropReason::UnknownPeer)));
}

#[test]
fn rehello_rotates_session() {
    let server_key = new_identity();
    let key_a = new_identity();
    let known = vec![KnownPeer { address: PEER_A, public_key: key_a.public_key() }];
    let mut table = PeerTable::new();
    let mut old = handshake(&mut table, &known, &server_key, &key_a, PEER_A, outer(2, 4000));
    let stale = seal_outbound(&mut old, &ipv4_packet(PEER_A, SERVER_ADDR, b"old")).unwrap().unwrap();
    let mut new = handshake(&mut table, &known, &server_key, &key_a, PEER_A, outer(2, 4001));
    let action = table.handle_message(&known, &server_key, SERVER_ADDR, stale, outer(2, 4001));
    assert!(matches!(action, ServerAction::Drop(DropReason::BrokenMessage)));
    let fresh = ipv4_packet(PEER_A, SERVER_ADDR, b"new");
    let msg = seal_outbound(&mut new, &fresh).unwrap().unwrap();
    match table.handle_message(&known, &server_key, SERVER_ADDR, msg, outer(2, 4001)) {
        ServerAction::ToTun(bytes) => assert_eq!(bytes, fresh),
        _ => panic!("packet under the new session was not accepted"),
    }
}

#[test]
fn tun_side_of_server() {
    let server_key = new_identity();
    let key_a = new_identity();
    let known = vec![KnownPeer { address: PEER_A, public_key: key_a.public_key() }];
    let mut table = PeerTable::new();
    let a = handshake(&mut table, &known, &server_key, &key_a, PEER_A, outer(2, 4000));
    let to_host = ipv4_packet(PEER_A, SERVER_ADDR, b"");
    assert!(matches!(table.handle_tun_packet(SERVER_ADDR, &to_host), ServerAction::Drop(DropReason::ForHost)));
    assert!(matches!(table.handle_tun_packet(SERVER_ADDR, b"junk"), ServerAction::Drop(DropReason::NotIpv4)));
    let packet = ipv4_packet(SERVER_ADDR, PEER_A, b"from server");
    match table.handle_tun_packet(SERVER_ADDR, &packet) {
        ServerAction::SendTo(to, msg) => {
            assert_eq!(to.port, 4000);
            assert!(matches!(open_inbound(&a, msg), ClientAction::ToTun(ref b) if *b == packet));
        }
        _ => panic!("packet for a peer was not sealed"),
    }
}

#[test]
fn client_ignores_heartbeat_and_non_ipv4() {
    let (mut c, s) = session_pair();
    assert!(matches!(open_inbound(&s, Message::HeartBeat), ClientAction::Nothing));
    assert!(seal_outbound(&mut c, b"not a packet").unwrap().is_none());
    let server_reply = Message::HelloReply { seed: Signed { data: vec![], signature: vec![] } };
    assert!(matches!(open_inbound(&s, server_reply), ClientAction::Drop(Error::BrokenMessage)));
    let frame = c.seal(&[10, 20, 30, 2, 10, 20, 30, 1], b"no header").unwrap();
    let msg = Message::Packet(SealedPacket { source: PEER_A, destination: SERVER_ADDR, content: frame });
    assert!(matches!(open_inbound(&s, msg), ClientAction::Drop(Error::BrokenMessage)));
}

#[test]
fn server_echoes_heartbeat_and_drops_replies() {
    let server_key = new_identity();
    let mut table = PeerTable::new();
    let known = vec![];
    let action = table.handle_message(&known, &server_key, SERVER_ADDR, Message::HeartBeat, outer(9, 9));
    assert!(matches!(action, ServerAction::SendTo(to, Message::HeartBeat) if to.port == 9));
    let reply = Message::HelloReply { seed: Signed { data: vec![], signature: vec![] } };
    let action = table.handle_message(&known, &server_key, SERVER_ADDR, reply, outer(9, 9));
    assert!(matches!(action, ServerAction::Drop(DropReason::Unexpected)));
}

#[test]
fn handshake_reply_of_wrong_kind_fails() {
    let (priv_seed, _pub_seed) = generate_seed_pair().unwrap();
    let server_key = new_identity();
    assert_eq!(
        finish_handshake(priv_seed, Message::HeartBeat, &server_key.public_key()).err(),
        Some(Error::BrokenMessage)
    );
}

#[test]
fn seed_and_signature_sizes() {
    let (_priv_seed, pub_seed) = generate_seed_pair().unwrap();
    assert_eq!(pub_seed.pubkey1.len(), 97);
    assert_eq!(pub_seed.pubkey2.len(), 97);
    assert_ne!(pub_seed.pubkey1, pub_seed.pubkey2);
    let k = new_identity();
    assert_eq!(k.public_key().len(), 32);
    assert_eq!(k.sign(&pub_seed).signature.len(), 64);
}

#[test]
fn derivation_rejects_invalid_points() {
    let (priv_seed, _pub_seed) = generate_seed_pair().unwrap();
    let bogus = PubSeed { pubkey1: vec![4; 97], pubkey2: vec![4; 97] };
    assert_eq!(SessionKey::client_derive(priv_seed, bogus).err(), Some(Error::BrokenMessage));
    let (priv_seed, _pub_seed) = generate_seed_pair().unwrap();
    let (_other, good) = generate_seed_pair().unwrap();
    let half = PubSeed { pubkey1: good.pubkey1.clone(), pubkey2: vec![1, 2, 3] };
    assert_eq!(SessionKey::server_derive(priv_seed, half).err(), Some(Error::BrokenMessage));
}

#[test]
fn short_frames_are_rejected() {
    let (mut c, s) = session_pair();
    let frame = c.seal(&[], b"").unwrap();
    assert_eq!(frame.len(), 36);
    assert_eq!(s.unseal(&[], &frame).unwrap(), Vec::<u8>::new());
    for n in 12..36 {
        assert_eq!(s.unseal(&[], &frame[..n]).err(), Some(Error::BrokenMessage));
    }
}

#[test]
fn hello_with_invalid_seed_points_is_dropped() {
    let server_key = new_identity();
    let client_key = new_identity();
    let known = vec![KnownPeer { address: PEER_A, public_key: client_key.public_key() }];
    let mut table = PeerTable::new();
    let bogus = PubSeed { pubkey1: vec![9; 10], pubkey2: vec![9; 10] };
    let msg = hello(PEER_A, &client_key, &bogus);
    let action = table.handle_message(&known, &server_key, SERVER_ADDR, msg, outer(2, 4000));
    assert!(matches!(action, ServerAction::Drop(DropReason::BrokenMessage)));
    assert!(!table.contains(PEER_A));
}
