use vstd::prelude::*;

use crate::bytes::{
    enc_bytes, lemma_parse_enc_bytes, lemma_pow256_8, parse_bytes, push_all, push_bytes,
    push_le, read_bytes, read_le,
};
use crate::error::{Error, Result};
use crate::nonce::{le_bytes, le_value, lemma_le_bytes_len, lemma_le_round_trip, pow256};

verus! {

/// The public half of a session seed: the two ephemeral P-384 public keys.
pub struct PubSeed {
    pub pubkey1: Vec<u8>,
    pub pubkey2: Vec<u8>,
}

/// Serialized bytes together with an Ed25519 signature over them.
pub struct Signed {
    pub data: Vec<u8>,
    pub signature: Vec<u8>,
}

/// An encrypted IPv4 packet; the two inner addresses travel in the clear.
pub struct SealedPacket {
    pub source: [u8; 4],
    pub destination: [u8; 4],
    pub content: Vec<u8>,
}

/// A message of the protocol; one travels in each datagram.
pub enum Message {
    /// The first message of a handshake, from a peer to the server.
    Hello { addr: [u8; 4], seed: Signed },
    /// The answer of the server to a `Hello`.
    HelloReply { seed: Signed },
    /// Keeps address translation state alive on the path.
    HeartBeat,
    /// An encrypted IPv4 packet.
    Packet(SealedPacket),
}

/// The mathematical value of a `Message`.
pub enum MessageModel {
    Hello { addr: Seq<u8>, data: Seq<u8>, signature: Seq<u8> },
    HelloReply { data: Seq<u8>, signature: Seq<u8> },
    HeartBeat,
    Packet { source: Seq<u8>, destination: Seq<u8>, content: Seq<u8> },
}

impl View for Message {
    type V = MessageModel;

    open spec fn view(&self) -> MessageModel {
        match self {
            Message::Hello { addr, seed } => MessageModel::Hello {
                addr: addr@,
                data: seed.data@,
                signature: seed.signature@,
            },
            Message::HelloReply { seed } => MessageModel::HelloReply {
                data: seed.data@,
                signature: seed.signature@,
            },
            Message::HeartBeat => MessageModel::HeartBeat,
            Message::Packet(p) => MessageModel::Packet {
                source: p.source@,
                destination: p.destination@,
                content: p.content@,
            },
        }
    }
}

/// The variant tag in front of every message: four bytes, little-endian.
pub open spec fn enc_tag(t: nat) -> Seq<u8> {
    le_bytes(t, 4)
}

/// The bytes of a message on the wire.
pub open spec fn enc_message(m: MessageModel) -> Seq<u8> {
    match m {
        MessageModel::Hello { addr, data, signature } => enc_tag(0) + addr + enc_bytes(data)
            + enc_bytes(signature),
        MessageModel::HelloReply { data, signature } => enc_tag(1) + enc_bytes(data) + enc_bytes(
            signature,
        ),
        MessageModel::HeartBeat => enc_tag(2),
        MessageModel::Packet { source, destination, content } => enc_tag(3) + source
            + destination + enc_bytes(content),
    }
}

/// A signed blob as it stands on the wire, and what follows it.
pub open spec fn parse_signed(b: Seq<u8>) -> Option<(Seq<u8>, Seq<u8>)> {
    match parse_bytes(b) {
        Some((data, r)) => match parse_bytes(r) {
            Some((signature, _)) => Some((data, signature)),
            None => None,
        },
        None => None,
    }
}

/// The message at the front of `b`, if there is one; bytes after it are
/// ignored.
pub open spec fn parse_message(b: Seq<u8>) -> Option<MessageModel> {
    if b.len() < 4 {
        None
    } else {
        let tag = le_value(b.take(4));
        let r = b.skip(4);
        if tag == 0 {
            if r.len() < 4 {
                None
            } else {
                match parse_signed(r.skip(4)) {
                    Some((data, signature)) => Some(
                        MessageModel::Hello { addr: r.take(4), data, signature },
                    ),
                    None => None,
                }
            }
        } else if tag == 1 {
            match parse_signed(r) {
                Some((data, signature)) => Some(MessageModel::HelloReply { data, signature }),
                None => None,
            }
        } else if tag == 2 {
            Some(MessageModel::HeartBeat)
        } else if tag == 3 {
            if r.len() < 8 {
                None
            } else {
                match parse_bytes(r.skip(8)) {
                    Some((content, _)) => Some(
                        MessageModel::Packet {
                            source: r.take(4),
                            destination: r.subrange(4, 8),
                            content,
                        },
                    ),
                    None => None,
                }
            }
        } else {
            None
        }
    }
}

/// The sizes that the encoding can carry: four-byte addresses and byte
/// strings shorter than 2 to the 64th.
pub open spec fn message_wf(m: MessageModel) -> bool {
    match m {
        MessageModel::Hello { addr, data, signature } => addr.len() == 4 && data.len() < pow256(
            8,
        ) && signature.len() < pow256(8),
        MessageModel::HelloReply { data, signature } => data.len() < pow256(8) && signature.len()
            < pow256(8),
        MessageModel::HeartBeat => true,
        MessageModel::Packet { source, destination, content } => source.len() == 4
            && destination.len() == 4 && content.len() < pow256(8),
    }
}

proof fn lemma_tag(t: nat, rest: Seq<u8>)
    requires
        t < 4,
    ensures
        (enc_tag(t) + rest).len() >= 4,
        le_value((enc_tag(t) + rest).take(4)) == t,
        (enc_tag(t) + rest).skip(4) == rest,
{
    lemma_pow256_8();
    lemma_le_bytes_len(t, 4);
    lemma_le_round_trip(t, 4);
    assert((enc_tag(t) + rest).take(4) =~= enc_tag(t));
    assert((enc_tag(t) + rest).skip(4) =~= rest);
}

proof fn lemma_hello_round_trip(addr: Seq<u8>, data: Seq<u8>, signature: Seq<u8>, rest: Seq<u8>)
    requires
        message_wf(MessageModel::Hello { addr, data, signature }),
    ensures
        parse_message(enc_message(MessageModel::Hello { addr, data, signature }) + rest) == Some(
            MessageModel::Hello { addr, data, signature },
        ),
{
    let m = MessageModel::Hello { addr, data, signature };
    let tail = addr + (enc_bytes(data) + (enc_bytes(signature) + rest));
    assert(enc_message(m) + rest =~= enc_tag(0) + tail);
    lemma_tag(0, tail);
    assert(tail.take(4) =~= addr);
    assert(tail.skip(4) =~= enc_bytes(data) + (enc_bytes(signature) + rest));
    lemma_parse_enc_bytes(data, enc_bytes(signature) + rest);
    lemma_parse_enc_bytes(signature, rest);
}

proof fn lemma_reply_round_trip(data: Seq<u8>, signature: Seq<u8>, rest: Seq<u8>)
    requires
        message_wf(MessageModel::HelloReply { data, signature }),
    ensures
        parse_message(enc_message(MessageModel::HelloReply { data, signature }) + rest) == Some(
            MessageModel::HelloReply { data, signature },
        ),
{
    let m = MessageModel::HelloReply { data, signature };
    let tail = enc_bytes(data) + (enc_bytes(signature) + rest);
    assert(enc_message(m) + rest =~= enc_tag(1) + tail);
    lemma_tag(1, tail);
    lemma_parse_enc_bytes(data, enc_bytes(signature) + rest);
    lemma_parse_enc_bytes(signature, rest);
}

proof fn lemma_packet_round_trip(
    source: Seq<u8>,
    destination: Seq<u8>,
    content: Seq<u8>,
    rest: Seq<u8>,
)
    requires
        message_wf(MessageModel::Packet { source, destination, content }),
    ensures
        parse_message(enc_message(MessageModel::Packet { source, destination, content }) + rest)
            == Some(MessageModel::Packet { source, destination, content }),
{
    let m = MessageModel::Packet { source, destination, content };
    let tail = source + (destination + (enc_bytes(content) + rest));
    assert(enc_message(m) + rest =~= enc_tag(3) + tail);
    lemma_tag(3, tail);
    assert(tail.take(4) =~= source);
    assert(tail.subrange(4, 8) =~= destination);
    assert(tail.skip(8) =~= enc_bytes(content) + rest);
    lemma_parse_enc_bytes(content, rest);
}

/// Decoding the encoding of a message gives the message back, whatever
/// bytes follow it.
pub proof fn lemma_message_round_trip(m: MessageModel, rest: Seq<u8>)
    requires
        message_wf(m),
    ensures
        parse_message(enc_message(m) + rest) == Some(m),
{
    match m {
        MessageModel::Hello { addr, data, signature } => {
            lemma_hello_round_trip(addr, data, signature, rest);
        },
        MessageModel::HelloReply { data, signature } => {
            lemma_reply_round_trip(data, signature, rest);
        },
        MessageModel::HeartBeat => {
            lemma_tag(2, rest);
        },
        MessageModel::Packet { source, destination, content } => {
            lemma_packet_round_trip(source, destination, content, rest);
        },
    }
}

/// The additional data of a sealed packet: source octets, then destination
/// octets.
pub open spec fn packet_aad(source: Seq<u8>, destination: Seq<u8>) -> Seq<u8> {
    source + destination
}

impl SealedPacket {
    /// The eight bytes that bind the inner addresses into the AEAD tag.
    pub fn addresses_as_bytes(&self) -> (r: [u8; 8])
        ensures
            r@ == packet_aad(self.source@, self.destination@),
    {
        let s = self.source;
        let d = self.destination;
        let r = [s[0], s[1], s[2], s[3], d[0], d[1], d[2], d[3]];
        assert(r@ =~= packet_aad(self.source@, self.destination@));
        r
    }
}

/// The bytes of a public seed, as they are signed.
pub open spec fn enc_pubseed(pubkey1: Seq<u8>, pubkey2: Seq<u8>) -> Seq<u8> {
    enc_bytes(pubkey1) + enc_bytes(pubkey2)
}

/// The public seed at the front of `b`, if there is one.
pub open spec fn parse_pubseed(b: Seq<u8>) -> Option<(Seq<u8>, Seq<u8>)> {
    parse_signed(b)
}

/// Decoding the bytes of a public seed gives the seed back.
pub proof fn lemma_pubseed_round_trip(pubkey1: Seq<u8>, pubkey2: Seq<u8>)
    requires
        pubkey1.len() < pow256(8),
        pubkey2.len() < pow256(8),
    ensures
        parse_pubseed(enc_pubseed(pubkey1, pubkey2)) == Some((pubkey1, pubkey2)),
{
    let e = Seq::<u8>::empty();
    assert(enc_bytes(pubkey2) + e =~= enc_bytes(pubkey2));
    lemma_parse_enc_bytes(pubkey1, enc_bytes(pubkey2));
    lemma_parse_enc_bytes(pubkey2, e);
}

impl PubSeed {
    /// The bytes that stand for this seed inside a `Signed`.
    pub fn to_bytes(&self) -> (r: Vec<u8>)
        ensures
            r@ == enc_pubseed(self.pubkey1@, self.pubkey2@),
    {
        let mut out: Vec<u8> = Vec::new();
        push_bytes(&mut out, self.pubkey1.as_slice());
        push_bytes(&mut out, self.pubkey2.as_slice());
        assert(out@ =~= enc_pubseed(self.pubkey1@, self.pubkey2@));
        out
    }

    /// Reads a seed from its bytes; `BrokenMessage` exactly when none stands
    /// there.
    pub fn from_bytes(b: &[u8]) -> (r: Result<PubSeed>)
        ensures
            match parse_pubseed(b@) {
                Some((p1, p2)) => r matches Ok(s) && s.pubkey1@ == p1 && s.pubkey2@ == p2,
                None => r == Err::<PubSeed, Error>(Error::BrokenMessage),
            },
    {
        match read_signed(b, 0) {
            Some(s) => {
                assert(b@.skip(0) =~= b@);
                Ok(PubSeed { pubkey1: s.data, pubkey2: s.signature })
            },
            None => {
                assert(b@.skip(0) =~= b@);
                Err(Error::BrokenMessage)
            },
        }
    }
}

/// The payload of a sealed frame: the plaintext with its length in front.
pub fn encode_payload(p: &[u8]) -> (r: Vec<u8>)
    ensures
        r@ == enc_bytes(p@),
{
    let mut out: Vec<u8> = Vec::new();
    push_bytes(&mut out, p);
    assert(out@ =~= enc_bytes(p@));
    out
}

/// Reads the plaintext out of an opened payload; `BrokenMessage` exactly when
/// the length prefix is cut short or runs past the end.
pub fn decode_payload(b: &[u8]) -> (r: Result<Vec<u8>>)
    ensures
        match parse_bytes(b@) {
            Some((p, _)) => r matches Ok(v) && v@ == p,
            None => r == Err::<Vec<u8>, Error>(Error::BrokenMessage),
        },
{
    assert(b@.skip(0) =~= b@);
    match read_bytes(b, 0) {
        Some((v, _)) => Ok(v),
        None => Err(Error::BrokenMessage),
    }
}

fn push_signed(out: &mut Vec<u8>, seed: &Signed)
    ensures
        final(out)@ == old(out)@ + enc_bytes(seed.data@) + enc_bytes(seed.signature@),
{
    push_bytes(out, seed.data.as_slice());
    push_bytes(out, seed.signature.as_slice());
}

fn read_signed(b: &[u8], pos: usize) -> (r: Option<Signed>)
    requires
        pos <= b@.len(),
    ensures
        match parse_signed(b@.skip(pos as int)) {
            None => r is None,
            Some((data, signature)) => r matches Some(s) && s.data@ == data && s.signature@
                == signature,
        },
{
    match read_bytes(b, pos) {
        None => None,
        Some((data, next)) => match read_bytes(b, next) {
            None => None,
            Some((signature, _)) => Some(Signed { data, signature }),
        },
    }
}

impl Message {
    /// The bytes of this message on the wire.
    pub fn encode(&self) -> (r: Vec<u8>)
        ensures
            r@ == enc_message(self@),
    {
        let mut out: Vec<u8> = Vec::new();
        match self {
            Message::Hello { addr, seed } => {
                push_le(&mut out, 0, 4);
                push_all(&mut out, addr.as_slice());
                push_signed(&mut out, seed);
            },
            Message::HelloReply { seed } => {
                push_le(&mut out, 1, 4);
                push_signed(&mut out, seed);
            },
            Message::HeartBeat => {
                push_le(&mut out, 2, 4);
            },
            Message::Packet(p) => {
                push_le(&mut out, 3, 4);
                push_all(&mut out, p.source.as_slice());
                push_all(&mut out, p.destination.as_slice());
                push_bytes(&mut out, p.content.as_slice());
            },
        }
        assert(out@ =~= enc_message(self@));
        out
    }

    /// Reads the message at the front of a datagram; fails with
    /// `BrokenMessage` exactly when no message stands there.
    pub fn decode(b: &[u8]) -> (r: Result<Message>)
        ensures
            match parse_message(b@) {
                Some(m) => r matches Ok(msg) && msg@ == m,
                None => r == Err::<Message, Error>(Error::BrokenMessage),
            },
    {
        if b.len() < 4 {
            return Err(Error::BrokenMessage);
        }
        let tag = read_le(b, 0, 4);
        assert(b@.take(4) =~= b@.subrange(0, 4));
        let ghost r = b@.skip(4);
        if tag == 0 {
            if b.len() < 8 {
                return Err(Error::BrokenMessage);
            }
            let addr: [u8; 4] = [b[4], b[5], b[6], b[7]];
            assert(addr@ =~= r.take(4));
            assert(r.skip(4) =~= b@.skip(8));
            match read_signed(b, 8) {
                Some(seed) => Ok(Message::Hello { addr, seed }),
                None => Err(Error::BrokenMessage),
            }
        } else if tag == 1 {
            match read_signed(b, 4) {
                Some(seed) => Ok(Message::HelloReply { seed }),
                None => Err(Error::BrokenMessage),
            }
        } else if tag == 2 {
            Ok(Message::HeartBeat)
        } else if tag == 3 {
            if b.len() < 12 {
                return Err(Error::BrokenMessage);
            }
            let source: [u8; 4] = [b[4], b[5], b[6], b[7]];
            let destination: [u8; 4] = [b[8], b[9], b[10], b[11]];
            assert(source@ =~= r.take(4));
            assert(destination@ =~= r.subrange(4, 8));
            assert(r.skip(8) =~= b@.skip(12));
            match read_bytes(b, 12) {
                Some((content, _)) => Ok(
                    Message::Packet(SealedPacket { source, destination, content }),
                ),
                None => Err(Error::BrokenMessage),
            }
        } else {
            Err(Error::BrokenMessage)
        }
    }
}

} // verus!
