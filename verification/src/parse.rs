//! Decoding bytes received from a broker into control packets.

use vstd::prelude::*;
use vstd::utf8::{decode_utf8, valid_utf8};

use crate::codec::{
    decode_remaining_length, decode_string_length, id_from_u16, parse_packet_id,
    remaining_length_length, spec_decode_remaining_length, spec_remaining_length_length,
};
use crate::packet::{CtrlPacket, PacketModel};

verus! {

/// What parsing a buffer comes to: a packet; no packet (an unknown or
/// unexpected type, a length that does not match the buffer, a PUBLISH with
/// QoS 3); or a malformed PUBLISH, whose topic or packet identifier is cut
/// short or whose topic is not UTF-8.
pub enum PacketParse {
    Malformed,
    NoPacket,
    Packet(PacketModel),
}

/// The 16-bit number held in `bytes[at]` and `bytes[at + 1]`, most
/// significant byte first.
pub open spec fn id_at(bytes: Seq<u8>, at: int) -> int {
    bytes[at] * 256 + bytes[at + 1]
}

/// The QoS in a PUBLISH type byte (bits 1 and 2); 3 is not a QoS.
pub open spec fn header_qos(header: u8) -> int {
    ((header % 8) / 2) as int
}

/// Parses the variable header and payload of a PUBLISH packet whose
/// remaining length `remaining` matched the buffer's length: the topic name
/// (a length-prefixed UTF-8 string), a packet identifier when the QoS is not
/// 0, and the rest as payload.
pub open spec fn spec_parse_publish(bytes: Seq<u8>, remaining: int) -> PacketParse {
    let header = bytes[0];
    let skip = 1 + spec_remaining_length_length(remaining);
    if skip > bytes.len() {
        PacketParse::Malformed
    } else {
        let r1 = bytes.skip(skip);
        if r1.len() < 2 {
            PacketParse::Malformed
        } else {
            let topic_len = id_at(r1, 0);
            let r2 = r1.skip(2);
            if topic_len > r2.len() {
                PacketParse::Malformed
            } else if !valid_utf8(r2.take(topic_len)) {
                PacketParse::Malformed
            } else {
                let r3 = r2.skip(topic_len);
                let qos = header_qos(header);
                if qos > 0 && r3.len() < 2 {
                    PacketParse::Malformed
                } else {
                    PacketParse::Packet(
                        PacketModel::Publish {
                            packet_id: if qos > 0 {
                                Some(id_from_u16(id_at(r3, 0)))
                            } else {
                                None
                            },
                            topic: decode_utf8(r2.take(topic_len)),
                            payload: if qos > 0 {
                                r3.skip(2)
                            } else {
                                r3
                            },
                            duplicate_delivery: header % 16 >= 8,
                            qos: qos as u8,
                            retain: header % 2 == 1,
                        },
                    )
                }
            }
        }
    }
}

/// A packet of exactly four bytes whose identifier is in bytes 2 and 3.
pub open spec fn spec_parse_ack(bytes: Seq<u8>, header: u8) -> PacketParse {
    if bytes.len() != 4 {
        PacketParse::NoPacket
    } else {
        let packet_id = id_from_u16(id_at(bytes, 2));
        PacketParse::Packet(
            if header == 0x40 {
                PacketModel::Puback { packet_id }
            } else if header == 0x50 {
                PacketModel::Pubrec { packet_id }
            } else if header == 0x62 {
                PacketModel::Pubrel { packet_id }
            } else {
                PacketModel::Pubcomp { packet_id }
            },
        )
    }
}

/// What the parser makes of `bytes`: CONNACK, PUBLISH, PUBACK, PUBREC,
/// PUBREL, PUBCOMP, SUBACK, UNSUBACK, PINGREQ, PINGRESP and DISCONNECT are
/// read; a PUBLISH must fill the buffer exactly, as its remaining length says.
pub open spec fn spec_parse(bytes: Seq<u8>) -> PacketParse {
    if bytes.len() == 0 {
        PacketParse::NoPacket
    } else {
        let header = bytes[0];
        if header == 0x20 {
            if bytes.len() == 4 {
                PacketParse::Packet(
                    PacketModel::Connack { session_present: bytes[2] == 1, return_code: bytes[3] },
                )
            } else {
                PacketParse::NoPacket
            }
        } else if 0x30 <= header <= 0x3f {
            match spec_decode_remaining_length(bytes, 1) {
                None => PacketParse::NoPacket,
                Some(remaining) => if remaining + 1 + spec_remaining_length_length(remaining)
                    != bytes.len() {
                    PacketParse::NoPacket
                } else if header_qos(header) == 3 {
                    PacketParse::NoPacket
                } else {
                    spec_parse_publish(bytes, remaining)
                },
            }
        } else if header == 0x40 || header == 0x50 || header == 0x62 || header == 0x70 {
            spec_parse_ack(bytes, header)
        } else if header == 0x90 {
            if bytes.len() <= 4 {
                PacketParse::NoPacket
            } else {
                PacketParse::Packet(
                    PacketModel::Suback {
                        packet_id: id_from_u16(id_at(bytes, 2)),
                        return_code: bytes[4],
                    },
                )
            }
        } else if header == 0xb0 {
            if bytes.len() <= 3 {
                PacketParse::NoPacket
            } else {
                PacketParse::Packet(
                    PacketModel::Unsuback { packet_id: id_from_u16(id_at(bytes, 2)) },
                )
            }
        } else if header == 0xc0 || header == 0xd0 || header == 0xe0 {
            if bytes.len() > 1 {
                PacketParse::Packet(
                    if header == 0xc0 {
                        PacketModel::Pingreq
                    } else if header == 0xd0 {
                        PacketModel::Pingresp
                    } else {
                        PacketModel::Disconnect
                    },
                )
            } else {
                PacketParse::NoPacket
            }
        } else {
            PacketParse::NoPacket
        }
    }
}

/// Whether an optional packet is what a parse outcome says.
pub open spec fn parse_agrees(result: Option<CtrlPacket>, outcome: PacketParse) -> bool {
    match result {
        Some(packet) => outcome == PacketParse::Packet(packet@),
        None => outcome is NoPacket,
    }
}

/// Calls `String::from_utf8`, which by its documentation succeeds exactly
/// when the bytes are valid UTF-8 and then holds the characters they encode.
#[verifier::external_body]
fn string_from_utf8(bytes: Vec<u8>) -> (result: Option<String>)
    ensures
        result is Some <==> valid_utf8(bytes@),
        result matches Some(s) ==> s@ == decode_utf8(bytes@),
{
    String::from_utf8(bytes).ok()
}

/// The bytes `bytes[start..end]`.
fn copy_range(bytes: &Vec<u8>, start: usize, end: usize) -> (result: Vec<u8>)
    requires
        start <= end <= bytes@.len(),
    ensures
        result@ == bytes@.subrange(start as int, end as int),
{
    let mut result: Vec<u8> = Vec::new();
    let mut i: usize = start;
    while i < end
        invariant
            start <= i <= end <= bytes@.len(),
            result@ == bytes@.subrange(start as int, i as int),
        decreases end - i,
    {
        result.push(bytes[i]);
        assert(bytes@.subrange(start as int, i + 1) =~= bytes@.subrange(start as int, i as int).push(
            bytes@[i as int],
        ));
        i = i + 1;
    }
    result
}

/// The bytes hold a malformed PUBLISH packet: its topic or packet identifier
/// is cut short, or its topic is not UTF-8.
#[derive(Debug, Clone, Copy, PartialEq, Eq)]
pub struct MalformedPacket;

fn parse_publish(bytes: &Vec<u8>, remaining: i32) -> (result: Result<CtrlPacket, MalformedPacket>)
    requires
        bytes@.len() >= 1,
    ensures
        match result {
            Ok(packet) => spec_parse_publish(bytes@, remaining as int) == PacketParse::Packet(
                packet@,
            ),
            Err(_) => spec_parse_publish(bytes@, remaining as int) is Malformed,
        },
{
    let ghost b = bytes@;
    let header: u8 = bytes[0];
    // the type byte and the remaining length come first
    let skip: usize = 1 + remaining_length_length(remaining) as usize;
    if skip > bytes.len() {
        return Err(MalformedPacket);
    }
    // topic name: its two-byte length, then its bytes
    if bytes.len() - skip < 2 {
        return Err(MalformedPacket);
    }
    let topic_length: usize = decode_string_length(&copy_range(bytes, skip, skip + 2));
    let topic_start: usize = skip + 2;
    proof {
        let r1 = b.skip(skip as int);
        assert(r1[0] == b[skip as int] && r1[1] == b[skip + 1]);
        assert(r1.skip(2) =~= b.skip(topic_start as int));
    }
    if topic_length > bytes.len() - topic_start {
        return Err(MalformedPacket);
    }
    let topic_end: usize = topic_start + topic_length;
    proof {
        assert(b.skip(topic_start as int).take(topic_length as int) =~= b.subrange(
            topic_start as int,
            topic_end as int,
        ));
        assert(b.skip(topic_start as int).skip(topic_length as int) =~= b.skip(topic_end as int));
    }
    let topic: String = match string_from_utf8(copy_range(bytes, topic_start, topic_end)) {
        Some(topic) => topic,
        None => {
            return Err(MalformedPacket);
        },
    };
    // fixed-header flags
    let duplicate_delivery: bool = header % 16 >= 8;
    let qos: u8 = (header % 8) / 2;
    let retain: bool = header % 2 == 1;
    // packet identifier, present when the QoS is not 0
    let mut packet_id: Option<i16> = None;
    let mut payload_start: usize = topic_end;
    if qos > 0 {
        if bytes.len() - topic_end < 2 {
            return Err(MalformedPacket);
        }
        let id_bytes: Vec<u8> = copy_range(bytes, topic_end, topic_end + 2);
        packet_id = Some(parse_packet_id(&id_bytes));
        payload_start = topic_end + 2;
        proof {
            let r3 = b.skip(topic_end as int);
            assert(r3[0] == b[topic_end as int] && r3[1] == b[topic_end + 1]);
            assert(r3.skip(2) =~= b.skip(payload_start as int));
        }
    }
    // the rest is the payload
    let payload: Vec<u8> = copy_range(bytes, payload_start, bytes.len());
    assert(payload@ =~= b.skip(payload_start as int));
    Ok(
        CtrlPacket::PUBLISH {
            packet_id: packet_id,
            topic: topic,
            payload: payload,
            duplicate_delivery: duplicate_delivery,
            qos: qos,
            retain: retain,
        },
    )
}

fn read_id(bytes: &Vec<u8>) -> (result: i16)
    requires
        bytes@.len() >= 4,
    ensures
        result == id_from_u16(id_at(bytes@, 2)),
{
    parse_packet_id(&copy_range(bytes, 2, 4))
}

/// Parses `bytes` as one control packet, without changing them. `Err` comes
/// exactly on the inputs on which `parse` would fail.
pub fn decode_packet(bytes: &Vec<u8>) -> (result: Result<Option<CtrlPacket>, MalformedPacket>)
    ensures
        match result {
            Ok(packet) => parse_agrees(packet, spec_parse(bytes@)),
            Err(_) => spec_parse(bytes@) is Malformed,
        },
{
    if bytes.len() == 0 {
        return Ok(None);
    }
    let header: u8 = bytes[0];
    if header == 0x20 {
        if bytes.len() == 4 {
            Ok(Some(CtrlPacket::CONNACK { session_present: bytes[2] == 1, return_code: bytes[3] }))
        } else {
            Ok(None)
        }
    } else if 0x30 <= header && header <= 0x3f {
        match decode_remaining_length(bytes, 1) {
            Some(remaining) => {
                let length_length: i8 = remaining_length_length(remaining);
                if remaining as u64 + 1 + length_length as u64 != bytes.len() as u64 {
                    Ok(None)
                } else if (header % 8) / 2 == 3 {
                    // QoS 3 is not a QoS
                    Ok(None)
                } else {
                    match parse_publish(bytes, remaining) {
                        Ok(packet) => Ok(Some(packet)),
                        Err(e) => Err(e),
                    }
                }
            },
            None => Ok(None),
        }
    } else if header == 0x40 || header == 0x50 || header == 0x62 || header == 0x70 {
        if bytes.len() != 4 {
            return Ok(None);
        }
        let packet_id: i16 = read_id(bytes);
        if header == 0x40 {
            Ok(Some(CtrlPacket::PUBACK { packet_id: packet_id }))
        } else if header == 0x50 {
            Ok(Some(CtrlPacket::PUBREC { packet_id: packet_id }))
        } else if header == 0x62 {
            Ok(Some(CtrlPacket::PUBREL { packet_id: packet_id }))
        } else {
            Ok(Some(CtrlPacket::PUBCOMP { packet_id: packet_id }))
        }
    } else if header == 0x90 {
        if bytes.len() <= 4 {
            return Ok(None);
        }
        Ok(Some(CtrlPacket::SUBACK { packet_id: read_id(bytes), return_code: bytes[4] }))
    } else if header == 0xb0 {
        if bytes.len() <= 3 {
            return Ok(None);
        }
        Ok(Some(CtrlPacket::UNSUBACK { packet_id: read_id(bytes) }))
    } else if header == 0xc0 || header == 0xd0 || header == 0xe0 {
        if bytes.len() > 1 {
            if header == 0xc0 {
                Ok(Some(CtrlPacket::PINGREQ))
            } else if header == 0xd0 {
                Ok(Some(CtrlPacket::PINGRESP))
            } else {
                Ok(Some(CtrlPacket::DISCONNECT))
            }
        } else {
            Ok(None)
        }
    } else {
        Ok(None)
    }
}


/// A parse that ends in a PUBLISH packet consumes its buffer; any other
/// leaves it as it was.
pub open spec fn buffer_after_parse(result: Option<CtrlPacket>, before: Seq<u8>) -> Seq<u8> {
    match result {
        Some(CtrlPacket::PUBLISH { .. }) => Seq::empty(),
        _ => before,
    }
}

impl CtrlPacket {
    /// Parses `bytes` as one control packet. A PUBLISH packet is taken out of
    /// the buffer, which is left empty; otherwise the buffer is unchanged.
    pub fn from_bytes(bytes: &mut Vec<u8>) -> (result: Option<CtrlPacket>)
        requires
            !(spec_parse(old(bytes)@) is Malformed),
        ensures
            parse_agrees(result, spec_parse(old(bytes)@)),
            final(bytes)@ == buffer_after_parse(result, old(bytes)@),
    {
        match decode_packet(bytes) {
            Ok(packet) => {
                match packet {
                    Some(CtrlPacket::PUBLISH { packet_id, topic, payload, duplicate_delivery, qos, retain }) => {
                        bytes.clear();
                        Some(CtrlPacket::PUBLISH { packet_id, topic, payload, duplicate_delivery, qos, retain })
                    },
                    other => other,
                }
            },
            Err(_) => {
                proof {
                    assert(false);
                }
                None
            },
        }
    }
}

/// Parses one control packet out of `ctrl_packet_as_bytes`; see
/// [`CtrlPacket::from_bytes`].
pub fn parse(ctrl_packet_as_bytes: &mut Vec<u8>) -> (result: Option<CtrlPacket>)
    requires
        !(spec_parse(old(ctrl_packet_as_bytes)@) is Malformed),
    ensures
        parse_agrees(result, spec_parse(old(ctrl_packet_as_bytes)@)),
        final(ctrl_packet_as_bytes)@ == buffer_after_parse(result, old(ctrl_packet_as_bytes)@),
{
    CtrlPacket::from_bytes(ctrl_packet_as_bytes)
}

} // verus!
