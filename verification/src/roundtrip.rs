//! What the parser gives back of what the encoder wrote.

use vstd::prelude::*;
use vstd::utf8::{decode_utf8, encode_utf8, encode_utf8_decode_utf8, encode_utf8_valid_utf8, valid_utf8};

use crate::codec::{
    fits_string, high_byte, lemma_packet_id_roundtrip, lemma_remaining_length_decodes,
    lemma_remaining_length_size, lemma_string_length_roundtrip, low_byte, max_remaining_length,
    spec_decode_remaining_length, spec_encode_remaining_length, spec_encode_string,
    spec_remaining_length_length,
};
use crate::packet::{
    as_bytes_defined, packet_body, publish_flags, publish_id_bytes, spec_as_bytes, PacketModel,
};
use crate::parse::{header_qos, id_at, spec_parse, spec_parse_publish, PacketParse};

verus! {

/// The packets that come back unchanged from the parser after encoding:
/// PUBLISH packets that the encoder writes (QoS at most 2, an identifier
/// exactly at QoS 1 and 2, a topic of at most 65535 bytes) whose remaining
/// length MQTT 3.1.1 can express; PUBACK, PUBREC, PUBREL and PUBCOMP;
/// PINGREQ, PINGRESP and DISCONNECT.
pub open spec fn roundtrips(m: PacketModel) -> bool {
    match m {
        PacketModel::Publish { packet_id, topic, qos, .. } => {
            &&& qos <= 2
            &&& qos == 0 ==> packet_id is None
            &&& qos != 0 ==> packet_id is Some
            &&& fits_string(topic)
            &&& packet_body(m).len() - 1 <= max_remaining_length()
        },
        PacketModel::Puback { .. } => true,
        PacketModel::Pubrec { .. } => true,
        PacketModel::Pubrel { .. } => true,
        PacketModel::Pubcomp { .. } => true,
        PacketModel::Pingreq => true,
        PacketModel::Pingresp => true,
        PacketModel::Disconnect => true,
        _ => false,
    }
}

/// A body whose length after the type byte MQTT 3.1.1 can express gets a
/// remaining length that the decoder at offset 1 reads back, and that the
/// length check of the parser accepts.
proof fn lemma_frame(body: Seq<u8>)
    requires
        body.len() >= 1,
        body.len() - 1 <= max_remaining_length(),
    ensures
        ({
            let n = body.len() - 1;
            let rl = spec_encode_remaining_length(n as nat);
            let bytes = seq![body[0]] + rl + body.skip(1);
            &&& bytes[0] == body[0]
            &&& spec_decode_remaining_length(bytes, 1) == Some(n)
            &&& spec_remaining_length_length(n) == rl.len()
            &&& n + 1 + spec_remaining_length_length(n) == bytes.len()
            &&& bytes.skip(1 + rl.len() as int) == body.skip(1)
        }),
{
    let n = (body.len() - 1) as nat;
    let rl = spec_encode_remaining_length(n);
    let bytes = seq![body[0]] + rl + body.skip(1);
    lemma_remaining_length_size(n);
    assert(bytes.subrange(1, 1 + rl.len() as int) =~= rl);
    lemma_remaining_length_decodes(bytes, 1, n);
    assert(bytes.skip(1 + rl.len() as int) =~= body.skip(1));
}

proof fn lemma_publish_header(duplicate_delivery: bool, qos: u8, retain: bool)
    requires
        qos <= 2,
    ensures
        ({
            let header = (0x30 + publish_flags(duplicate_delivery, qos, retain)) as u8;
            &&& 0x30 <= header <= 0x3f
            &&& header_qos(header) == qos
            &&& (header % 16 >= 8) == duplicate_delivery
            &&& (header % 2 == 1) == retain
        }),
{
}

/// The variable header and payload of an encoded PUBLISH packet split back
/// into topic bytes, identifier bytes and payload.
proof fn lemma_publish_fields(topic: Seq<char>, id_bytes: Seq<u8>, payload: Seq<u8>)
    requires
        fits_string(topic),
    ensures
        ({
            let r1 = spec_encode_string(topic) + id_bytes + payload;
            let utf8 = encode_utf8(topic);
            &&& r1.len() >= 2
            &&& id_at(r1, 0) == utf8.len()
            &&& r1.skip(2).len() >= utf8.len()
            &&& r1.skip(2).take(utf8.len() as int) == utf8
            &&& r1.skip(2).skip(utf8.len() as int) == id_bytes + payload
            &&& valid_utf8(utf8)
            &&& decode_utf8(utf8) == topic
        }),
{
    let utf8 = encode_utf8(topic);
    lemma_string_length_roundtrip(topic);
    let r1 = spec_encode_string(topic) + id_bytes + payload;
    assert(r1[0] == spec_encode_string(topic)[0]);
    assert(r1[1] == spec_encode_string(topic)[1]);
    assert(r1.skip(2) =~= utf8 + id_bytes + payload);
    assert(r1.skip(2).take(utf8.len() as int) =~= utf8);
    assert(r1.skip(2).skip(utf8.len() as int) =~= id_bytes + payload);
    encode_utf8_valid_utf8(topic);
    encode_utf8_decode_utf8(topic);
}

proof fn lemma_publish_id(id: i16, payload: Seq<u8>)
    ensures
        ({
            let r3 = seq![high_byte(id), low_byte(id)] + payload;
            &&& r3.len() >= 2
            &&& crate::codec::id_from_u16(id_at(r3, 0)) == id
            &&& r3.skip(2) == payload
        }),
{
    lemma_packet_id_roundtrip(id);
    let r3 = seq![high_byte(id), low_byte(id)] + payload;
    assert(r3.skip(2) =~= payload);
}

#[verifier::rlimit(40)]
proof fn lemma_publish_roundtrip(
    packet_id: Option<i16>,
    topic: Seq<char>,
    payload: Seq<u8>,
    duplicate_delivery: bool,
    qos: u8,
    retain: bool,
)
    requires
        roundtrips(
            PacketModel::Publish { packet_id, topic, payload, duplicate_delivery, qos, retain },
        ),
    ensures
        as_bytes_defined(
            PacketModel::Publish { packet_id, topic, payload, duplicate_delivery, qos, retain },
        ),
        spec_parse(
            spec_as_bytes(
                PacketModel::Publish { packet_id, topic, payload, duplicate_delivery, qos, retain },
            ),
        ) == PacketParse::Packet(
            PacketModel::Publish { packet_id, topic, payload, duplicate_delivery, qos, retain },
        ),
{
    let m = PacketModel::Publish { packet_id, topic, payload, duplicate_delivery, qos, retain };
    let body = packet_body(m);
    let bytes = spec_as_bytes(m);
    let header = (0x30 + publish_flags(duplicate_delivery, qos, retain)) as u8;
    let id_bytes = publish_id_bytes(packet_id, qos);
    assert(body == seq![header] + spec_encode_string(topic) + id_bytes + payload);
    assert(body.skip(1) =~= spec_encode_string(topic) + id_bytes + payload);
    lemma_frame(body);
    lemma_publish_header(duplicate_delivery, qos, retain);
    let n = body.len() - 1;
    let rl = spec_encode_remaining_length(n as nat);
    assert(bytes.skip(1 + rl.len() as int) == body.skip(1));
    assert(spec_encode_string(topic).len() == 2 + encode_utf8(topic).len());
    lemma_publish_fields(topic, id_bytes, payload);
    if qos > 0 {
        lemma_publish_id(packet_id->0, payload);
    } else {
        assert(id_bytes + payload =~= payload);
    }
    assert(spec_parse_publish(bytes, n) == PacketParse::Packet(m));
}

proof fn lemma_fixed_roundtrip(m: PacketModel)
    requires
        roundtrips(m),
        !(m is Publish),
    ensures
        as_bytes_defined(m),
        spec_parse(spec_as_bytes(m)) == PacketParse::Packet(m),
{
    let body = packet_body(m);
    lemma_frame(body);
    let bytes = spec_as_bytes(m);
    match m {
        PacketModel::Puback { packet_id } => {
            lemma_packet_id_roundtrip(packet_id);
            assert(bytes =~= seq![0x40u8, 2u8, high_byte(packet_id), low_byte(packet_id)]);
        },
        PacketModel::Pubrec { packet_id } => {
            lemma_packet_id_roundtrip(packet_id);
            assert(bytes =~= seq![0x50u8, 2u8, high_byte(packet_id), low_byte(packet_id)]);
        },
        PacketModel::Pubrel { packet_id } => {
            lemma_packet_id_roundtrip(packet_id);
            assert(bytes =~= seq![0x62u8, 2u8, high_byte(packet_id), low_byte(packet_id)]);
        },
        PacketModel::Pubcomp { packet_id } => {
            lemma_packet_id_roundtrip(packet_id);
            assert(bytes =~= seq![0x70u8, 2u8, high_byte(packet_id), low_byte(packet_id)]);
        },
        _ => {
            assert(bytes.len() == 2);
        },
    }
}

/// Parsing the encoding of a packet gives the packet back, for every packet
/// that `roundtrips` admits.
pub proof fn lemma_parse_as_bytes_roundtrip(m: PacketModel)
    requires
        roundtrips(m),
    ensures
        as_bytes_defined(m),
        spec_parse(spec_as_bytes(m)) == PacketParse::Packet(m),
{
    match m {
        PacketModel::Publish { packet_id, topic, payload, duplicate_delivery, qos, retain } => {
            lemma_publish_roundtrip(packet_id, topic, payload, duplicate_delivery, qos, retain);
        },
        _ => {
            lemma_fixed_roundtrip(m);
        },
    }
}

} // verus!
