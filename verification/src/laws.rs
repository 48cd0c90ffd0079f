//! What the packet format and the session decisions mean, stated field by
//! field and bit by bit in terms of the bytes and values involved.

use vstd::prelude::*;

use crate::codec::{high_byte, low_byte, spec_encode_remaining_length, spec_encode_string};
use crate::packet::topic_list_bytes;
use crate::packet::{as_bytes_defined, packet_body, spec_as_bytes, PacketModel};
use crate::parse::{spec_parse, PacketParse};
use crate::session::{connack_refusal, keep_alive_expired};

verus! {

/// A CONNACK reads its session-present flag from byte 2 (set exactly when
/// that byte is 1) and its return code from byte 3, each independently of
/// the other.
pub proof fn lemma_connack_fields(bytes: Seq<u8>)
    requires
        bytes.len() == 4,
        bytes[0] == 0x20,
    ensures
        spec_parse(bytes) matches PacketParse::Packet(PacketModel::Connack { session_present, return_code })
            && session_present == (bytes[2] == 1) && return_code == bytes[3],
{
}

/// A connection is accepted exactly when the CONNACK return code is 0; every
/// other code refuses it.
pub proof fn lemma_connack_accepts_only_zero(return_code: u8)
    ensures
        (connack_refusal(return_code) is None) == (return_code == 0),
{
}

/// A CONNACK whose return code byte is 0 accepts the connection, whatever
/// its session-present byte holds.
pub proof fn lemma_connack_zero_accepted(bytes: Seq<u8>)
    requires
        bytes.len() == 4,
        bytes[0] == 0x20,
        bytes[3] == 0,
    ensures
        spec_parse(bytes) matches PacketParse::Packet(PacketModel::Connack { return_code, .. })
            && connack_refusal(return_code) is None,
{
}

/// A SUBACK reads its packet identifier from bytes 2 and 3 (the two bytes the
/// encoder writes for that identifier) and its return code from byte 4,
/// unchanged.
pub proof fn lemma_suback_fields(bytes: Seq<u8>)
    requires
        bytes.len() > 4,
        bytes[0] == 0x90,
    ensures
        spec_parse(bytes) matches PacketParse::Packet(PacketModel::Suback { packet_id, return_code })
            && high_byte(packet_id) == bytes[2] && low_byte(packet_id) == bytes[3] && return_code
            == bytes[4],
{
    crate::codec::lemma_u16_bytes(bytes[2], bytes[3]);
}

/// An UNSUBACK reads its packet identifier from bytes 2 and 3.
pub proof fn lemma_unsuback_fields(bytes: Seq<u8>)
    requires
        bytes.len() > 3,
        bytes[0] == 0xb0,
    ensures
        spec_parse(bytes) matches PacketParse::Packet(PacketModel::Unsuback { packet_id })
            && high_byte(packet_id) == bytes[2] && low_byte(packet_id) == bytes[3],
{
    crate::codec::lemma_u16_bytes(bytes[2], bytes[3]);
}

/// PUBACK, PUBREC, PUBREL and PUBCOMP are told apart by their type byte and
/// read their packet identifier from bytes 2 and 3.
pub proof fn lemma_acknowledgement_fields(bytes: Seq<u8>)
    requires
        bytes.len() == 4,
        bytes[0] == 0x40 || bytes[0] == 0x50 || bytes[0] == 0x62 || bytes[0] == 0x70,
    ensures
        spec_parse(bytes) matches PacketParse::Packet(m) && match m {
            PacketModel::Puback { packet_id } => bytes[0] == 0x40 && high_byte(packet_id)
                == bytes[2] && low_byte(packet_id) == bytes[3],
            PacketModel::Pubrec { packet_id } => bytes[0] == 0x50 && high_byte(packet_id)
                == bytes[2] && low_byte(packet_id) == bytes[3],
            PacketModel::Pubrel { packet_id } => bytes[0] == 0x62 && high_byte(packet_id)
                == bytes[2] && low_byte(packet_id) == bytes[3],
            PacketModel::Pubcomp { packet_id } => bytes[0] == 0x70 && high_byte(packet_id)
                == bytes[2] && low_byte(packet_id) == bytes[3],
            _ => false,
        },
{
    crate::codec::lemma_u16_bytes(bytes[2], bytes[3]);
}

/// A parsed PUBLISH takes its flags from the bits of its type byte: the
/// duplicate-delivery flag from bit 3, the QoS from bits 1 and 2 (never 3),
/// the retain flag from bit 0.
pub proof fn lemma_parsed_publish_flags(bytes: Seq<u8>)
    requires
        spec_parse(bytes) matches PacketParse::Packet(PacketModel::Publish { .. }),
    ensures
        spec_parse(bytes) matches PacketParse::Packet(
            PacketModel::Publish { duplicate_delivery, qos, retain, .. },
        ) && bytes[0] / 16 == 3 && duplicate_delivery == ((bytes[0] / 8) % 2 == 1) && qos == (
        bytes[0] / 2) % 4 && qos <= 2 && retain == (bytes[0] % 2 == 1),
{
}

/// An encoded PUBLISH carries type 3 in the high half of its first byte,
/// the duplicate-delivery flag in bit 3, the QoS in bits 1 and 2, and the
/// retain flag in bit 0.
pub proof fn lemma_encoded_publish_flags(
    packet_id: Option<i16>,
    topic: Seq<char>,
    payload: Seq<u8>,
    duplicate_delivery: bool,
    qos: u8,
    retain: bool,
)
    requires
        as_bytes_defined(
            PacketModel::Publish { packet_id, topic, payload, duplicate_delivery, qos, retain },
        ),
    ensures
        ({
            let b0 = spec_as_bytes(
                PacketModel::Publish { packet_id, topic, payload, duplicate_delivery, qos, retain },
            )[0];
            &&& b0 / 16 == 3
            &&& ((b0 / 8) % 2 == 1) == duplicate_delivery
            &&& (b0 / 2) % 4 == qos
            &&& (b0 % 2 == 1) == retain
        }),
{
}

/// The CONNECT flags byte and keep-alive, as they stand in the encoded
/// packet after the type byte, the remaining length, the protocol name and
/// the protocol level: bit 7 user name present, bit 6 password present,
/// bit 5 will retain set, bits 3 and 4 the will QoS (0 without one), bit 2 a
/// will topic present, bit 1 clean session, bit 0 clear; then the
/// keep-alive's 16 bits, most significant byte first.
pub proof fn lemma_connect_flags_and_keep_alive(
    client_id: Seq<char>,
    topic: Option<Seq<char>>,
    content: Option<Seq<char>>,
    qos: Option<u8>,
    retain: Option<bool>,
    username: Option<Seq<char>>,
    password: Option<Seq<char>>,
    clean_session: bool,
    keep_alive: i16,
)
    requires
        as_bytes_defined(
            PacketModel::Connect {
                client_id,
                topic,
                content,
                qos,
                retain,
                username,
                password,
                clean_session,
                keep_alive,
            },
        ),
    ensures
        ({
            let m = PacketModel::Connect {
                client_id,
                topic,
                content,
                qos,
                retain,
                username,
                password,
                clean_session,
                keep_alive,
            };
            let k = spec_encode_remaining_length((packet_body(m).len() - 1) as nat).len() as int;
            let bytes = spec_as_bytes(m);
            let flags = bytes[k + 8];
            &&& bytes[0] == 0x10
            &&& bytes[k + 7] == 0x04
            &&& (flags / 128 == 1) == (username is Some)
            &&& ((flags / 64) % 2 == 1) == (password is Some)
            &&& ((flags / 32) % 2 == 1) == (retain == Some(true))
            &&& (flags / 8) % 4 == (match qos {
                Some(q) => q as int,
                None => 0,
            })
            &&& ((flags / 4) % 2 == 1) == (topic is Some)
            &&& ((flags / 2) % 2 == 1) == clean_session
            &&& flags % 2 == 0
            &&& bytes[k + 9] * 256 + bytes[k + 10] == (keep_alive as int) % 65536
        }),
{
    let m = PacketModel::Connect {
        client_id,
        topic,
        content,
        qos,
        retain,
        username,
        password,
        clean_session,
        keep_alive,
    };
    let body = packet_body(m);
    let flags = crate::packet::connect_flags(topic, qos, retain, username, password, clean_session);
    lemma_connect_header(
        client_id,
        topic,
        content,
        qos,
        retain,
        username,
        password,
        clean_session,
        keep_alive,
    );
    lemma_flag_bits(
        if username is Some { 1 } else { 0 },
        if password is Some { 1 } else { 0 },
        if retain == Some(true) { 1 } else { 0 },
        match qos {
            Some(q) => q as int,
            None => 0,
        },
        if topic is Some { 1 } else { 0 },
        if clean_session { 1 } else { 0 },
    );
    let rl = spec_encode_remaining_length((body.len() - 1) as nat);
    let bytes = spec_as_bytes(m);
    let k = rl.len() as int;
    assert(bytes == seq![body[0]] + rl + body.skip(1));
    assert(bytes[k + 7] == body[7]);
    assert(bytes[k + 8] == body[8]);
    assert(bytes[k + 9] == body[9]);
    assert(bytes[k + 10] == body[10]);
}

proof fn lemma_flag_bits(u: int, p: int, r: int, q: int, t: int, c: int)
    requires
        0 <= u <= 1,
        0 <= p <= 1,
        0 <= r <= 1,
        0 <= q <= 2,
        0 <= t <= 1,
        0 <= c <= 1,
    ensures
        ({
            let f = 128 * u + 64 * p + 32 * r + 8 * q + 4 * t + 2 * c;
            &&& f / 128 == u
            &&& (f / 64) % 2 == p
            &&& (f / 32) % 2 == r
            &&& (f / 8) % 4 == q
            &&& (f / 4) % 2 == t
            &&& (f / 2) % 2 == c
            &&& f % 2 == 0
        }),
{
}

proof fn lemma_connect_header(
    client_id: Seq<char>,
    topic: Option<Seq<char>>,
    content: Option<Seq<char>>,
    qos: Option<u8>,
    retain: Option<bool>,
    username: Option<Seq<char>>,
    password: Option<Seq<char>>,
    clean_session: bool,
    keep_alive: i16,
)
    requires
        qos matches Some(q) ==> q <= 2,
    ensures
        ({
            let body = packet_body(
                PacketModel::Connect {
                    client_id,
                    topic,
                    content,
                    qos,
                    retain,
                    username,
                    password,
                    clean_session,
                    keep_alive,
                },
            );
            &&& body.len() >= 11
            &&& body[0] == 0x10
            &&& body[7] == 0x04
            &&& body[8] == crate::packet::connect_flags(
                topic,
                qos,
                retain,
                username,
                password,
                clean_session,
            )
            &&& body[9] * 256 + body[10] == (keep_alive as int) % 65536
        }),
{
    let body = packet_body(
        PacketModel::Connect {
            client_id,
            topic,
            content,
            qos,
            retain,
            username,
            password,
            clean_session,
            keep_alive,
        },
    );
    let flags = crate::packet::connect_flags(topic, qos, retain, username, password, clean_session);
    assert(0 <= flags <= 0xf6);
    let head = seq![0x10u8] + crate::packet::protocol_name_bytes() + seq![
        0x04u8,
        flags as u8,
        high_byte(keep_alive),
        low_byte(keep_alive),
    ];
    assert(head.len() == 11);
    assert(body.subrange(0, 11) =~= head);
    assert(body[8] == head[8]);
    assert(body[9] == head[9]);
    assert(body[10] == head[10]);
}

/// A PINGREQ falls due once, and stays due: not at the moment the keep-alive
/// interval (its full 16-bit value) runs out, one second after it, and at
/// every later time once it is due.
pub proof fn lemma_keep_alive_threshold(last_message_sent: i64, keep_alive: i16, now: i64, later: i64)
    requires
        keep_alive >= 0,
        last_message_sent + keep_alive + 1 <= i64::MAX,
    ensures
        !keep_alive_expired(
            last_message_sent,
            keep_alive,
            (last_message_sent + keep_alive) as i64,
        ),
        keep_alive_expired(
            last_message_sent,
            keep_alive,
            (last_message_sent + keep_alive + 1) as i64,
        ),
        keep_alive_expired(last_message_sent, keep_alive, now) && now <= later
            ==> keep_alive_expired(last_message_sent, keep_alive, later),
{
}


/// The two bytes written for a 16-bit value are its high and low bytes:
/// together they give back the value's 16 bits.
pub proof fn lemma_sixteen_bits(value: i16)
    ensures
        high_byte(value) * 256 + low_byte(value) == (value as int) % 65536,
{
}

/// A SUBSCRIBE for one topic filter is its type byte 0x82, its packet
/// identifier, the filter as an MQTT string, then the requested QoS.
pub proof fn lemma_single_subscribe(topic: Seq<char>, qos: u8, packet_id: i16)
    ensures
        packet_body(
            PacketModel::Subscribe { topic_filter: seq![topic], qos: seq![qos], packet_id },
        ) == seq![0x82u8, high_byte(packet_id), low_byte(packet_id)] + spec_encode_string(topic)
            + seq![qos],
{
    let topics = seq![topic];
    assert(topics.drop_last() =~= Seq::<Seq<char>>::empty());
    assert(crate::packet::subscribe_entries(topics.drop_last(), seq![qos]) =~= Seq::<u8>::empty());
    assert(crate::packet::subscribe_entries(topics, seq![qos]) =~= spec_encode_string(topic) + seq![
        qos,
    ]);
}

/// An UNSUBSCRIBE for one topic filter is its type byte 0xa2, its packet
/// identifier, then the filter as an MQTT string.
pub proof fn lemma_single_unsubscribe(topic: Seq<char>, packet_id: i16)
    ensures
        packet_body(PacketModel::Unsubscribe { topic_filter: seq![topic], packet_id }) == seq![
            0xa2u8,
            high_byte(packet_id),
            low_byte(packet_id),
        ] + spec_encode_string(topic),
{
    let topics = seq![topic];
    assert(topics.drop_last() =~= Seq::<Seq<char>>::empty());
    assert(topics.last() == topic);
    assert(topic_list_bytes(topics.drop_last()) =~= Seq::<u8>::empty());
    assert(Seq::<u8>::empty() + spec_encode_string(topic) =~= spec_encode_string(topic));
    assert(topic_list_bytes(topics) =~= spec_encode_string(topic));
}

/// The topic filters of an UNSUBSCRIBE are written in order, each one: the
/// bytes for two lists one after the other are the bytes for the first list
/// followed by those for the second.
pub proof fn lemma_topic_list_concat(first: Seq<Seq<char>>, second: Seq<Seq<char>>)
    ensures
        topic_list_bytes(first + second) == topic_list_bytes(first) + topic_list_bytes(second),
    decreases second.len(),
{
    if second.len() == 0 {
        assert(first + second =~= first);
        assert(topic_list_bytes(first) + Seq::<u8>::empty() =~= topic_list_bytes(first));
    } else {
        lemma_topic_list_concat(first, second.drop_last());
        assert((first + second).drop_last() =~= first + second.drop_last());
        assert((first + second).last() == second.last());
    }
}

} // verus!
