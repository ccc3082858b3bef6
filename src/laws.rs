use vstd::prelude::*;

use crate::crypto::{keyed_as_client, keyed_as_server, sealed_frame, unseal_result, SessionKey};
use crate::message::{packet_aad, Message, SealedPacket};
use crate::nonce::{lemma_nonce_decode, nonce_bytes, nonce_value, COUNTER_LIMIT};
use crate::server::{addr_key, packet_step, Peer, ServerAction};
use crate::ipv4::ipv4_destination;

verus! {

/// Nonces grow strictly with the counter, read as 96-bit little-endian
/// numbers, and every one is 12 bytes with the role tag in byte 11.
pub proof fn lemma_nonce_strictly_increasing(a: nat, b: nat, role: u8)
    requires
        a < b,
        b < COUNTER_LIMIT,
    ensures
        nonce_value(nonce_bytes(a, role)) < nonce_value(nonce_bytes(b, role)),
        nonce_bytes(a, role).len() == 12,
        nonce_bytes(a, role)[11] == role,
        nonce_bytes(b, role).len() == 12,
        nonce_bytes(b, role)[11] == role,
{
    lemma_nonce_decode(a, role);
    lemma_nonce_decode(b, role);
}

/// Over a run of `n` seals starting at counter `start`, the nonces handed
/// out are pairwise distinct and increase with every seal, as long as the
/// run stays below the counter limit.
pub proof fn lemma_nonce_run(start: nat, n: nat, role: u8)
    requires
        start + n <= COUNTER_LIMIT,
    ensures
        forall|i: nat, j: nat|
            i < j < n ==> nonce_value(#[trigger] nonce_bytes(start + i, role)) < nonce_value(
                #[trigger] nonce_bytes(start + j, role),
            ),
{
    assert forall|i: nat, j: nat| i < j < n implies nonce_value(
        #[trigger] nonce_bytes(start + i, role),
    ) < nonce_value(#[trigger] nonce_bytes(start + j, role)) by {
        lemma_nonce_strictly_increasing(start + i, start + j, role);
    }
}

/// A client session and a server session derived from one seed exchange
/// (each side's local keys are the other's remote keys) pair up: what the
/// client seals the server opens, and what the server seals the client opens.
pub proof fn lemma_sessions_pair_up(client: SessionKey, server: SessionKey)
    requires
        keyed_as_client(client),
        keyed_as_server(server),
        client.local_keys() == server.remote_keys(),
        server.local_keys() == client.remote_keys(),
    ensures
        client.sealing_key() == server.opening_key(),
        client.opening_key() == server.sealing_key(),
{
}

/// The additional data of a packet is exactly eight bytes, and two packets
/// share it only when both their addresses agree.
pub proof fn lemma_packet_aad_exact(s1: Seq<u8>, d1: Seq<u8>, s2: Seq<u8>, d2: Seq<u8>)
    requires
        s1.len() == 4,
        d1.len() == 4,
        s2.len() == 4,
        d2.len() == 4,
    ensures
        packet_aad(s1, d1).len() == 8,
        packet_aad(s1, d1) == packet_aad(s2, d2) ==> s1 == s2 && d1 == d2,
{
    if packet_aad(s1, d1) == packet_aad(s2, d2) {
        assert(s1 =~= packet_aad(s1, d1).subrange(0, 4));
        assert(s2 =~= packet_aad(s2, d2).subrange(0, 4));
        assert(d1 =~= packet_aad(s1, d1).subrange(4, 8));
        assert(d2 =~= packet_aad(s2, d2).subrange(4, 8));
    }
}

/// The server forwards a packet's payload unchanged: what it hands to its
/// virtual interface is the plaintext that opened, and what it sends on to
/// another peer is that same plaintext sealed under the destination's
/// session.
pub proof fn lemma_forwarding_preserves_payload(
    before: Map<u32, Peer>,
    after: Map<u32, Peer>,
    server_address: Seq<u8>,
    sealed: SealedPacket,
    r: ServerAction,
)
    requires
        packet_step(before, after, server_address, sealed, r),
    ensures
        r matches ServerAction::ToTun(v) ==> unseal_result(
            before[addr_key(sealed.source@)].session_key.opening_key(),
            packet_aad(sealed.source@, sealed.destination@),
            sealed.content@,
        ) == Ok::<Seq<u8>, crate::error::Error>(v@),
        r matches ServerAction::SendTo(to, Message::Packet(p)) ==> exists|n: Seq<u8>|
            #[trigger] sealed_frame(
                before[addr_key(p.destination@)].session_key.sealing_key(),
                packet_aad(p.source@, p.destination@),
                n,
                unseal_result(
                    before[addr_key(sealed.source@)].session_key.opening_key(),
                    packet_aad(sealed.source@, sealed.destination@),
                    sealed.content@,
                )->Ok_0,
            ) == p.content@,
{
    let sk = addr_key(sealed.source@);
    if before.contains_key(sk) {
        let u = unseal_result(
            before[sk].session_key.opening_key(),
            packet_aad(sealed.source@, sealed.destination@),
            sealed.content@,
        );
        if let Ok(plain) = u {
            if let ServerAction::SendTo(to, Message::Packet(p)) = r {
                let s = before[addr_key(ipv4_destination(plain))].session_key;
                let n = crate::nonce::nonce_bytes(s.next_counter(), s.role());
                assert(sealed_frame(
                    before[addr_key(p.destination@)].session_key.sealing_key(),
                    packet_aad(p.source@, p.destination@),
                    n,
                    plain,
                ) == p.content@);
            }
        }
    }
}

} // verus!
