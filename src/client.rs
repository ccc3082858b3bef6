use vstd::prelude::*;

use crate::crypto::{
    ed25519_signature, keyed_as_client, open_result, p384_point_ok, sealed_frame, unseal_result,
    PrivSeed, SessionKey,
    StaticKeyPair, MAX_PLAINTEXT,
};
use crate::error::{Error, Result};
use crate::ipv4::{ipv4_addresses, ipv4_destination, ipv4_header_ok, ipv4_source};
use crate::message::{enc_pubseed, packet_aad, Message, PubSeed, SealedPacket};
use crate::nonce::{nonce_bytes, CLIENT_ROLE, COUNTER_LIMIT};

verus! {

/// The address the client's UDP socket binds to unless configured: any.
pub fn ipv4_addr_unspecified() -> (r: [u8; 4])
    ensures
        r@ == seq![0u8, 0u8, 0u8, 0u8],
{
    let r = [0u8, 0u8, 0u8, 0u8];
    assert(r@ =~= seq![0u8, 0u8, 0u8, 0u8]);
    r
}

/// The server's UDP port unless configured.
pub fn server_bind_port() -> (r: u16)
    ensures
        r == 31415,
{
    31415
}

/// The name of the virtual interface unless configured.
pub fn ifname() -> (r: String)
    ensures
        r@ == "vpn0"@,
{
    "vpn0".to_owned()
}

/// Where the server's public key is read from unless configured.
pub fn server_public_key() -> (r: String)
    ensures
        r@ == "keys/server_pubkey.der"@,
{
    "keys/server_pubkey.der".to_owned()
}

/// Where the client's private key is read from unless configured.
pub fn private_key() -> (r: String)
    ensures
        r@ == "keys/privkey.der"@,
{
    "keys/privkey.der".to_owned()
}

/// What the client does with a message from the server.
pub enum ClientAction {
    /// Write these bytes to the virtual interface.
    ToTun(Vec<u8>),
    /// Nothing to do: a heartbeat from the server.
    Nothing,
    /// Drop the frame: it did not open, held no IPv4 packet, or was a
    /// message the client never expects.
    Drop(Error),
}

/// The first message of a handshake: the client's inner address and its
/// public seed, signed with its static key.
pub fn hello(addr: [u8; 4], key: &StaticKeyPair, pub_seed: &PubSeed) -> (r: Message)
    ensures
        r matches Message::Hello { addr: a, seed } && a == addr && seed.data@ == enc_pubseed(
            pub_seed.pubkey1@,
            pub_seed.pubkey2@,
        ) && seed.signature@ == ed25519_signature(key.pkcs8(), seed.data@),
{
    Message::Hello { addr, seed: key.sign(pub_seed) }
}

/// Finishes the client's side of a handshake: the reply must be a
/// `HelloReply` whose seed opens under the server's public key; the session
/// is then derived from it. `BrokenMessage` for any other message.
pub fn finish_handshake(priv_seed: PrivSeed, reply: Message, server_pubkey: &[u8]) -> (r: Result<
    SessionKey,
>)
    ensures
        !(reply is HelloReply) ==> r == Err::<SessionKey, Error>(Error::BrokenMessage),
        reply matches Message::HelloReply { seed } ==> match open_result(
            seed.data@,
            seed.signature@,
            server_pubkey@,
        ) {
            Err(e) => r == Err::<SessionKey, Error>(e),
            Ok((p1, p2)) => {
                &&& r is Ok <==> p384_point_ok(p1) && p384_point_ok(p2)
                &&& r is Err ==> r == Err::<SessionKey, Error>(Error::BrokenMessage)
                &&& r matches Ok(s) ==> {
                    &&& s.role() == CLIENT_ROLE
                    &&& s.next_counter() == 0
                    &&& s.local_keys() == priv_seed.public_keys()
                    &&& s.remote_keys() == (p1, p2)
                    &&& keyed_as_client(s)
                }
            },
        },
{
    match reply {
        Message::HelloReply { seed } => {
            let server_seed = seed.open(server_pubkey)?;
            SessionKey::client_derive(priv_seed, server_seed)
        },
        _ => Err(Error::BrokenMessage),
    }
}

/// Seals a packet read from the virtual interface for the server,
/// addressed by its own IPv4 header; `Ok(None)` when it has none.
pub fn seal_outbound(session: &mut SessionKey, packet: &[u8]) -> (r: Result<Option<Message>>)
    ensures
        !ipv4_header_ok(packet@) ==> r == Ok::<Option<Message>, Error>(None) && *final(session)
            == *old(session),
        ipv4_header_ok(packet@) && old(session).next_counter() < COUNTER_LIMIT && packet@.len()
            <= MAX_PLAINTEXT ==> (r matches Ok(Some(Message::Packet(p))) && p.source@
            == ipv4_source(packet@) && p.destination@ == ipv4_destination(packet@) && p.content@
            == sealed_frame(
            old(session).sealing_key(),
            packet_aad(ipv4_source(packet@), ipv4_destination(packet@)),
            nonce_bytes(old(session).next_counter(), old(session).role()),
            packet@,
        )),
        ipv4_header_ok(packet@) && old(session).next_counter() >= COUNTER_LIMIT ==> r == Err::<
            Option<Message>,
            Error,
        >(Error::NonceExhausted),
{
    let (source, destination) = match ipv4_addresses(packet) {
        None => {
            return Ok(None);
        },
        Some(a) => a,
    };
    let sealed = SealedPacket { source, destination, content: Vec::new() };
    let aad = sealed.addresses_as_bytes();
    let content = session.seal(aad.as_slice(), packet)?;
    Ok(Some(Message::Packet(SealedPacket { source, destination, content })))
}

/// Opens a message from the server: a packet's plaintext goes to the
/// virtual interface when it holds an IPv4 header; heartbeats need nothing.
pub fn open_inbound(session: &SessionKey, msg: Message) -> (r: ClientAction)
    ensures
        msg is HeartBeat ==> r is Nothing,
        msg is Hello || msg is HelloReply ==> r == ClientAction::Drop(Error::BrokenMessage),
        msg matches Message::Packet(p) ==> match unseal_result(
            session.opening_key(),
            packet_aad(p.source@, p.destination@),
            p.content@,
        ) {
            Err(e) => r == ClientAction::Drop(e),
            Ok(plain) => if ipv4_header_ok(plain) {
                r matches ClientAction::ToTun(v) && v@ == plain
            } else {
                r == ClientAction::Drop(Error::BrokenMessage)
            },
        },
{
    match msg {
        Message::Packet(sealed) => {
            let aad = sealed.addresses_as_bytes();
            match session.unseal(aad.as_slice(), sealed.content.as_slice()) {
                Err(e) => ClientAction::Drop(e),
                Ok(plain) => match ipv4_addresses(plain.as_slice()) {
                    Some(_) => ClientAction::ToTun(plain),
                    None => ClientAction::Drop(Error::BrokenMessage),
                },
            }
        },
        Message::HeartBeat => ClientAction::Nothing,
        _ => ClientAction::Drop(Error::BrokenMessage),
    }
}

} // verus!
