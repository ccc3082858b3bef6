use vstd::prelude::*;

verus! {

/// Whether `b` starts with an IPv4 header that etherparse accepts: at least
/// 20 bytes, version 4, a header length of at least five words that fits in
/// `b`, and a total length no shorter than the header.
pub open spec fn ipv4_header_ok(b: Seq<u8>) -> bool {
    &&& b.len() >= 20
    &&& b[0] / 16 == 4
    &&& b[0] % 16 >= 5
    &&& b.len() >= (b[0] % 16) * 4
    &&& b[2] as nat * 256 + b[3] as nat >= (b[0] % 16) as nat * 4
}

/// The source address field of an IPv4 header.
pub open spec fn ipv4_source(b: Seq<u8>) -> Seq<u8> {
    b.subrange(12, 16)
}

/// The destination address field of an IPv4 header.
pub open spec fn ipv4_destination(b: Seq<u8>) -> Seq<u8> {
    b.subrange(16, 20)
}

/// Relies on etherparse's `Ipv4Header::from_slice`, which checks the length,
/// the version, the header length and the total length, and reads the
/// addresses at bytes 12 and 16.
#[verifier::external_body]
fn parse_ipv4_addresses(packet: &[u8]) -> (r: Option<([u8; 4], [u8; 4])>)
    ensures
        r is Some <==> ipv4_header_ok(packet@),
        r matches Some((s, d)) ==> s@ == ipv4_source(packet@) && d@ == ipv4_destination(packet@),
{
    etherparse::Ipv4Header::from_slice(packet).ok().map(|(h, _)| (h.source, h.destination))
}

/// The inner source and destination of an IPv4 packet, or `None` when it
/// does not start with a valid IPv4 header.
pub fn ipv4_addresses(packet: &[u8]) -> (r: Option<([u8; 4], [u8; 4])>)
    ensures
        r is Some <==> ipv4_header_ok(packet@),
        r matches Some((s, d)) ==> s@ == ipv4_source(packet@) && d@ == ipv4_destination(packet@),
{
    parse_ipv4_addresses(packet)
}

} // verus!
