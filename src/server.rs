use std::collections::HashMap;
use vstd::prelude::*;

use crate::crypto::{
    ed25519_signature, generate_seed_pair, keyed_as_server, open_result, p384_point_ok,
    sealed_frame, unseal_result, PrivSeed, SessionKey, StaticKeyPair, MAX_PLAINTEXT,
};
use crate::error::Error;
use crate::ipv4::{ipv4_addresses, ipv4_destination, ipv4_header_ok, ipv4_source};
use crate::message::{enc_pubseed, packet_aad, Message, PubSeed, SealedPacket, Signed};
use crate::nonce::{nonce_bytes, COUNTER_LIMIT, SERVER_ROLE};

verus! {

broadcast use vstd::std_specs::hash::group_hash_axioms;

/// The address the server's UDP socket binds to unless configured: any.
pub fn ipv4_addr_unspecified() -> (r: [u8; 4])
    ensures
        r@ == seq![0u8, 0u8, 0u8, 0u8],
{
    let r = [0u8, 0u8, 0u8, 0u8];
    assert(r@ =~= seq![0u8, 0u8, 0u8, 0u8]);
    r
}

/// The server's UDP port unless configured.
pub fn bind_port() -> (r: u16)
    ensures
        r == 31415,
{
    31415
}

/// The name of the server's virtual interface unless configured.
pub fn ifname() -> (r: String)
    ensures
        r@ == "vpn0"@,
{
    "vpn0".to_owned()
}

/// The server's own inner address unless configured: 10.20.30.1.
pub fn server_address() -> (r: [u8; 4])
    ensures
        r@ == seq![10u8, 20u8, 30u8, 1u8],
{
    let r = [10u8, 20u8, 30u8, 1u8];
    assert(r@ =~= seq![10u8, 20u8, 30u8, 1u8]);
    r
}

/// Where the server's private key is read from unless configured.
pub fn private_key() -> (r: String)
    ensures
        r@ == "keys/privkey.der"@,
{
    "keys/privkey.der".to_owned()
}

/// An IPv4 socket address on the underlay.
#[derive(Clone, Copy, Debug)]
pub struct OuterAddr {
    pub ip: [u8; 4],
    pub port: u16,
}

/// The key under which an inner address stands in the peer table: its
/// octets read big-endian.
pub open spec fn addr_key(a: Seq<u8>) -> u32 {
    (a[0] as nat * 16777216 + a[1] as nat * 65536 + a[2] as nat * 256 + a[3] as nat) as u32
}

/// The table key of an inner address.
pub fn ipv4_key(a: [u8; 4]) -> (r: u32)
    ensures
        r == addr_key(a@),
{
    a[0] as u32 * 16777216 + a[1] as u32 * 65536 + a[2] as u32 * 256 + a[3] as u32
}

/// A peer that the server knows from its configuration.
pub struct KnownPeer {
    pub address: [u8; 4],
    pub public_key: Vec<u8>,
}

/// An established peer: where its frames came from, and its session.
pub struct Peer {
    pub sock_addr: OuterAddr,
    pub session_key: SessionKey,
}

/// What the server does with a frame.
pub enum ServerAction {
    /// Write these bytes to the virtual interface.
    ToTun(Vec<u8>),
    /// Send this message to that outer address.
    SendTo(OuterAddr, Message),
    /// Drop the frame, for the reason given.
    Drop(DropReason),
}

/// Why a frame was dropped.
#[derive(Clone, Copy, Debug, PartialEq, Eq)]
pub enum DropReason {
    /// No established (or configured) peer has the inner address.
    UnknownPeer,
    /// A `Hello` whose seed was not signed by the peer's key.
    InvalidSignature,
    /// A frame or seed that did not decode or authenticate.
    BrokenMessage,
    /// A plaintext that does not start with an IPv4 header.
    NotIpv4,
    /// A packet for the server host itself, which the kernel already has.
    ForHost,
    /// A message that the server never expects.
    Unexpected,
    /// The destination's session has sealed all the nonces it can.
    NonceExhausted,
    /// The random source failed while drawing a session seed.
    NoRandomness,
}

/// The server's sessions, by inner address.
pub struct PeerTable {
    peers: HashMap<u32, Peer>,
}

/// `b` is `a` after one frame sealed with it: same keys and role, counter
/// moved on by one.
pub open spec fn session_advanced(a: SessionKey, b: SessionKey) -> bool {
    &&& b.opening_key() == a.opening_key()
    &&& b.sealing_key() == a.sealing_key()
    &&& b.role() == a.role()
    &&& b.next_counter() == a.next_counter() + 1
}

/// The outcome of forwarding `packet` to the peer under key `k`: dropped
/// with the table unchanged when there is no such peer; otherwise only that
/// peer's session moves on, and while it has nonces left (and the packet is
/// not absurdly long) the packet goes to its outer address sealed under it.
pub open spec fn forward_step(
    before: Map<u32, Peer>,
    after: Map<u32, Peer>,
    k: u32,
    packet: Seq<u8>,
    r: ServerAction,
) -> bool {
    if !before.contains_key(k) {
        r == ServerAction::Drop(DropReason::UnknownPeer) && after == before
    } else {
        let peer = before[k];
        let s = peer.session_key;
        &&& after.dom() == before.dom()
        &&& forall|j: u32| j != k && #[trigger] before.contains_key(j) ==> after[j] == before[j]
        &&& after[k].sock_addr == peer.sock_addr
        &&& !(r is ToTun)
        &&& s.next_counter() < COUNTER_LIMIT ==> session_advanced(s, after[k].session_key)
        &&& s.next_counter() < COUNTER_LIMIT && packet.len() <= MAX_PLAINTEXT ==> r is SendTo
        &&& r matches ServerAction::SendTo(to, m) ==> to == peer.sock_addr && forwarded(
            packet,
            s,
            m,
        )
        &&& s.next_counter() >= COUNTER_LIMIT ==> r == ServerAction::Drop(
            DropReason::NonceExhausted,
        ) && after[k] == peer
        &&& r is Drop ==> r == ServerAction::Drop(DropReason::NonceExhausted) || r
            == ServerAction::Drop(DropReason::BrokenMessage)
    }
}

/// What the server does with a sealed packet that arrived over UDP, decided
/// on the plaintext `plain` that unsealing gave.
pub open spec fn inbound_step(
    before: Map<u32, Peer>,
    after: Map<u32, Peer>,
    server_address: Seq<u8>,
    plain: Seq<u8>,
    r: ServerAction,
) -> bool {
    if !ipv4_header_ok(plain) {
        r == ServerAction::Drop(DropReason::NotIpv4) && after == before
    } else if ipv4_destination(plain) == server_address {
        r matches ServerAction::ToTun(v) && v@ == plain && after == before
    } else {
        forward_step(before, after, addr_key(ipv4_destination(plain)), plain, r)
    }
}

/// What the server does with a sealed packet that arrived over UDP: drop it
/// when its declared source has no session or it does not open under that
/// session, else go on with the plaintext.
pub open spec fn packet_step(
    before: Map<u32, Peer>,
    after: Map<u32, Peer>,
    server_address: Seq<u8>,
    sealed: SealedPacket,
    r: ServerAction,
) -> bool {
    let sk = addr_key(sealed.source@);
    if !before.contains_key(sk) {
        r == ServerAction::Drop(DropReason::UnknownPeer) && after == before
    } else {
        match unseal_result(
            before[sk].session_key.opening_key(),
            packet_aad(sealed.source@, sealed.destination@),
            sealed.content@,
        ) {
            Err(_) => r == ServerAction::Drop(DropReason::BrokenMessage) && after == before,
            Ok(plain) => inbound_step(before, after, server_address, plain, r),
        }
    }
}

/// The table after a completed handshake with `addr` from `src`: the entry
/// at `addr` is replaced by a fresh server session, and nothing else changes.
pub open spec fn hello_installed(
    before: Map<u32, Peer>,
    after: Map<u32, Peer>,
    addr: Seq<u8>,
    src: OuterAddr,
    local: (Seq<u8>, Seq<u8>),
    remote: (Seq<u8>, Seq<u8>),
) -> bool {
    let k = addr_key(addr);
    &&& after.contains_key(k)
    &&& after == before.insert(k, after[k])
    &&& after[k].sock_addr == src
    &&& after[k].session_key.role() == SERVER_ROLE
    &&& after[k].session_key.next_counter() == 0
    &&& after[k].session_key.local_keys() == local
    &&& after[k].session_key.remote_keys() == remote
    &&& keyed_as_server(after[k].session_key)
}

/// The reply to a completed handshake: the server's public keys `keys` as a
/// seed, signed with the server's key.
pub open spec fn hello_reply(
    m: Message,
    server_key: StaticKeyPair,
    keys: (Seq<u8>, Seq<u8>),
) -> bool {
    m matches Message::HelloReply { seed: signed } && signed.data@ == enc_pubseed(keys.0, keys.1)
        && signed.signature@ == ed25519_signature(server_key.pkcs8(), signed.data@)
}

/// What the server does with a `Hello` for inner address `addr` carrying
/// `seed`, from outer address `src`. An unknown address is dropped, and so
/// is a seed that does not open under the first configured key for the
/// address; the table is then unchanged. A seed that opens to two valid
/// P-384 keys is answered, unless the random source fails: the entry of
/// `addr` is replaced by a server session against those keys, and the reply
/// carries that session's own public keys, signed by the server.
pub open spec fn hello_step(
    before: Map<u32, Peer>,
    after: Map<u32, Peer>,
    known: Seq<KnownPeer>,
    server_key: StaticKeyPair,
    addr: Seq<u8>,
    seed: Signed,
    src: OuterAddr,
    r: ServerAction,
) -> bool {
    let k = addr_key(addr);
    &&& (forall|j: int| 0 <= j < known.len() ==> known[j].address@ != addr) ==> r
        == ServerAction::Drop(DropReason::UnknownPeer)
    &&& (exists|i: int| first_known(known, addr, i)) ==> r != ServerAction::Drop(
        DropReason::UnknownPeer,
    )
    &&& forall|i: int|
        first_known(known, addr, i) ==> match open_result(
            seed.data@,
            seed.signature@,
            known[i].public_key@,
        ) {
            Err(Error::InvalidSignature) => r == ServerAction::Drop(DropReason::InvalidSignature),
            Err(_) => r == ServerAction::Drop(DropReason::BrokenMessage),
            Ok((p1, p2)) => {
                &&& r is SendTo || r == ServerAction::Drop(DropReason::NoRandomness) || r
                    == ServerAction::Drop(DropReason::BrokenMessage)
                &&& p384_point_ok(p1) && p384_point_ok(p2) ==> r is SendTo || r
                    == ServerAction::Drop(DropReason::NoRandomness)
                &&& r is SendTo ==> after[k].session_key.remote_keys() == (p1, p2)
            },
        }
    &&& r matches ServerAction::SendTo(to, m) ==> {
        &&& to == src
        &&& hello_installed(
            before,
            after,
            addr,
            src,
            after[k].session_key.local_keys(),
            after[k].session_key.remote_keys(),
        )
        &&& hello_reply(m, server_key, after[k].session_key.local_keys())
    }
    &&& !(r is SendTo) ==> after == before
}

/// The first configured peer at `i` has inner address `addr`.
pub open spec fn first_known(known: Seq<KnownPeer>, addr: Seq<u8>, i: int) -> bool {
    &&& 0 <= i < known.len()
    &&& known[i].address@ == addr
    &&& forall|j: int| 0 <= j < i ==> known[j].address@ != addr
}

/// The frame that the destination peer receives: `packet` sealed under its
/// session, addressed by the packet's own header.
pub open spec fn forwarded(packet: Seq<u8>, s: SessionKey, m: Message) -> bool {
    let source = ipv4_source(packet);
    let destination = ipv4_destination(packet);
    m matches Message::Packet(p) && p.source@ == source && p.destination@ == destination
        && p.content@ == sealed_frame(
        s.sealing_key(),
        packet_aad(source, destination),
        nonce_bytes(s.next_counter(), s.role()),
        packet,
    )
}

fn same_addr(a: [u8; 4], b: [u8; 4]) -> (r: bool)
    ensures
        r <==> a@ == b@,
{
    let r = a[0] == b[0] && a[1] == b[1] && a[2] == b[2] && a[3] == b[3];
    if r {
        assert(a@ =~= b@);
    }
    r
}

/// The index of the first configured peer with inner address `addr`.
pub fn find_known(known: &Vec<KnownPeer>, addr: [u8; 4]) -> (r: Option<usize>)
    ensures
        r matches Some(i) ==> first_known(known@, addr@, i as int),
        r is None ==> forall|j: int| 0 <= j < known@.len() ==> known@[j].address@ != addr@,
{
    let mut i: usize = 0;
    while i < known.len()
        invariant
            i <= known@.len(),
            forall|j: int| 0 <= j < i ==> known@[j].address@ != addr@,
        decreases known@.len() - i,
    {
        if same_addr(known[i].address, addr) {
            return Some(i);
        }
        i = i + 1;
    }
    None
}

impl PeerTable {
    /// The sessions by table key.
    pub closed spec fn view(&self) -> Map<u32, Peer> {
        self.peers@
    }

    /// An empty table.
    pub fn new() -> (r: Self)
        ensures
            r.view() == Map::<u32, Peer>::empty(),
    {
        PeerTable { peers: HashMap::new() }
    }

    /// Whether a peer with this inner address is established.
    pub fn contains(&self, addr: [u8; 4]) -> (r: bool)
        ensures
            r == self.view().contains_key(addr_key(addr@)),
    {
        let k = ipv4_key(addr);
        self.peers.contains_key(&k)
    }

    /// Puts `peer` under `addr`, replacing whatever stood there.
    pub fn insert(&mut self, addr: [u8; 4], peer: Peer)
        ensures
            final(self).view() == old(self).view().insert(addr_key(addr@), peer),
    {
        let k = ipv4_key(addr);
        self.peers.insert(k, peer);
    }

    /// Seals `packet` for the established peer under key `k` and addresses it
    /// by the packet's header; `UnknownPeer` when there is none.
    fn seal_for(&mut self, k: u32, source: [u8; 4], destination: [u8; 4], packet: &[u8]) -> (r:
        ServerAction)
        requires
            source@ == ipv4_source(packet@),
            destination@ == ipv4_destination(packet@),
        ensures
            forward_step(old(self).view(), final(self).view(), k, packet@, r),
    {
        match self.peers.remove(&k) {
            None => {
                assert(self.view() =~= old(self).view());
                ServerAction::Drop(DropReason::UnknownPeer)
            },
            Some(mut peer) => {
                let ghost before = peer;
                let sealed = SealedPacket { source, destination, content: Vec::new() };
                let aad = sealed.addresses_as_bytes();
                let result = peer.session_key.seal(aad.as_slice(), packet);
                let to = peer.sock_addr;
                self.peers.insert(k, peer);
                assert(final(self).view().dom() =~= old(self).view().dom());
                match result {
                    Ok(content) => {
                        ServerAction::SendTo(
                            to,
                            Message::Packet(SealedPacket { source, destination, content }),
                        )
                    },
                    Err(Error::NonceExhausted) => ServerAction::Drop(DropReason::NonceExhausted),
                    Err(_) => ServerAction::Drop(DropReason::BrokenMessage),
                }
            },
        }
    }

    /// Handles a sealed packet from a peer: opens it with the session of its
    /// declared source, then hands the plaintext to the virtual interface
    /// when it is for the server, or re-seals it for the destination peer.
    pub fn handle_packet(&mut self, server_address: [u8; 4], sealed: SealedPacket) -> (r:
        ServerAction)
        ensures
            packet_step(old(self).view(), final(self).view(), server_address@, sealed, r),
    {
        let sk = ipv4_key(sealed.source);
        let aad = sealed.addresses_as_bytes();
        let opened = match self.peers.get(&sk) {
            None => {
                return ServerAction::Drop(DropReason::UnknownPeer);
            },
            Some(peer) => peer.session_key.unseal(aad.as_slice(), sealed.content.as_slice()),
        };
        let packet = match opened {
            Err(_) => {
                return ServerAction::Drop(DropReason::BrokenMessage);
            },
            Ok(p) => p,
        };
        let (source, destination) = match ipv4_addresses(packet.as_slice()) {
            None => {
                return ServerAction::Drop(DropReason::NotIpv4);
            },
            Some(a) => a,
        };
        if same_addr(destination, server_address) {
            return ServerAction::ToTun(packet);
        }
        let dk = ipv4_key(destination);
        self.seal_for(dk, source, destination, packet.as_slice())
    }

    /// Handles a packet read from the server's virtual interface: drops it
    /// when it is for the server itself, else seals it for its destination.
    pub fn handle_tun_packet(&mut self, server_address: [u8; 4], packet: &[u8]) -> (r:
        ServerAction)
        ensures
            !ipv4_header_ok(packet@) ==> r == ServerAction::Drop(DropReason::NotIpv4) 
                && final(self).view() == old(self).view(),
            ipv4_header_ok(packet@) && ipv4_destination(packet@) == server_address@ ==> r
                == ServerAction::Drop(DropReason::ForHost) 
                && final(self).view() == old(self).view(),
            ipv4_header_ok(packet@) && ipv4_destination(packet@) != server_address@
                ==> forward_step(
                old(self).view(),
                final(self).view(),
                addr_key(ipv4_destination(packet@)),
                packet@,
                r,
            ),
    {
        let (source, destination) = match ipv4_addresses(packet) {
            None => {
                return ServerAction::Drop(DropReason::NotIpv4);
            },
            Some(a) => a,
        };
        if same_addr(destination, server_address) {
            return ServerAction::Drop(DropReason::ForHost);
        }
        let dk = ipv4_key(destination);
        self.seal_for(dk, source, destination, packet)
    }

    /// Finishes a handshake whose seed verified: derives the server session
    /// from the fresh seed pair and the client's seed, replaces the entry of
    /// `addr`, and answers with the fresh public seed signed by `server_key`.
    /// `BrokenMessage`, with the table unchanged, when the client's seed holds
    /// no valid pair of P-384 keys.
    pub fn complete_hello(
        &mut self,
        server_key: &StaticKeyPair,
        addr: [u8; 4],
        src: OuterAddr,
        client_seed: PubSeed,
        fresh: (PrivSeed, PubSeed),
    ) -> (r: ServerAction)
        ensures
            r is SendTo <==> p384_point_ok(client_seed.pubkey1@) && p384_point_ok(
                client_seed.pubkey2@,
            ),
            r is SendTo ==> hello_installed(
                old(self).view(),
                final(self).view(),
                addr@,
                src,
                fresh.0.public_keys(),
                (client_seed.pubkey1@, client_seed.pubkey2@),
            ),
            r matches ServerAction::SendTo(to, m) ==> to == src && hello_reply(
                m,
                *server_key,
                (fresh.1.pubkey1@, fresh.1.pubkey2@),
            ),
            !(r is SendTo) ==> r == ServerAction::Drop(DropReason::BrokenMessage) 
                && final(self).view() == old(self).view(),
    {
        let (priv_seed, pub_seed) = fresh;
        let session_key = match SessionKey::server_derive(priv_seed, client_seed) {
            Ok(s) => s,
            Err(_) => {
                return ServerAction::Drop(DropReason::BrokenMessage);
            },
        };
        self.insert(addr, Peer { sock_addr: src, session_key });
        let ghost k = addr_key(addr@);
        assert(self.view() =~= old(self).view().insert(k, self.view()[k]));
        let seed = server_key.sign(&pub_seed);
        ServerAction::SendTo(src, Message::HelloReply { seed })
    }

    /// Handles a `Hello` from outer address `src`: looks up the configured
    /// key of the declared inner address, opens the seed with it, and on
    /// success draws a fresh seed pair and completes the handshake. Nothing
    /// changes on an unknown address or a bad signature.
    pub fn handle_hello(
        &mut self,
        known: &Vec<KnownPeer>,
        server_key: &StaticKeyPair,
        addr: [u8; 4],
        seed: Signed,
        src: OuterAddr,
    ) -> (r: ServerAction)
        ensures
            hello_step(
                old(self).view(),
                final(self).view(),
                known@,
                *server_key,
                addr@,
                seed,
                src,
                r,
            ),
    {
        let i = match find_known(known, addr) {
            None => {
                return ServerAction::Drop(DropReason::UnknownPeer);
            },
            Some(i) => i,
        };
        assert forall|j: int| first_known(known@, addr@, j) implies j == i as int by {
            if j < i {
                assert(known@[j].address@ != addr@);
            } else if j > i {
                assert(known@[i as int].address@ != addr@);
            }
        }
        let client_seed = match seed.open(known[i].public_key.as_slice()) {
            Err(Error::InvalidSignature) => {
                return ServerAction::Drop(DropReason::InvalidSignature);
            },
            Err(_) => {
                return ServerAction::Drop(DropReason::BrokenMessage);
            },
            Ok(s) => s,
        };
        let fresh = match generate_seed_pair() {
            None => {
                return ServerAction::Drop(DropReason::NoRandomness);
            },
            Some(f) => f,
        };
        let r = self.complete_hello(server_key, addr, src, client_seed, fresh);
        r
    }

    /// Dispatches a message that arrived from outer address `src`.
    pub fn handle_message(
        &mut self,
        known: &Vec<KnownPeer>,
        server_key: &StaticKeyPair,
        server_address: [u8; 4],
        msg: Message,
        src: OuterAddr,
    ) -> (r: ServerAction)
        ensures
            msg is HeartBeat ==> r == ServerAction::SendTo(src, Message::HeartBeat) 
                && final(self).view() == old(self).view(),
            msg is HelloReply ==> r == ServerAction::Drop(DropReason::Unexpected) 
                && final(self).view() == old(self).view(),
            msg matches Message::Packet(p) ==> packet_step(
                old(self).view(),
                final(self).view(),
                server_address@,
                p,
                r,
            ),
            msg matches Message::Hello { addr, seed } ==> hello_step(
                old(self).view(),
                final(self).view(),
                known@,
                *server_key,
                addr@,
                seed,
                src,
                r,
            ),
    {
        match msg {
            Message::Hello { addr, seed } => self.handle_hello(known, server_key, addr, seed, src),
            Message::HeartBeat => ServerAction::SendTo(src, Message::HeartBeat),
            Message::Packet(sealed) => self.handle_packet(server_address, sealed),
            Message::HelloReply { .. } => ServerAction::Drop(DropReason::Unexpected),
        }
    }
}


} // verus!
