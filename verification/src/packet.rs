//! MQTT control packets: their model, their constructors and their encoding
//! to bytes.

use vstd::prelude::*;
use vstd::utf8::encode_utf8;

use crate::codec::{
    encode_remaining_length, encode_string, fits_string, high_byte, insert_all, low_byte,
    push_16_bits, spec_encode_remaining_length, spec_encode_string,
};

verus! {

/// A single MQTT control packet.
#[allow(non_camel_case_types)]
#[allow(inconsistent_fields)]
#[derive(Debug, Clone, PartialEq, Eq)]
pub enum CtrlPacket {
    CONNECT {
        client_id: String,
        topic: Option<String>,
        content: Option<String>,
        qos: Option<u8>,
        retain: Option<bool>,
        username: Option<String>,
        password: Option<String>,
        clean_session: bool,
        keep_alive: i16,
    },
    CONNACK { session_present: bool, return_code: u8 },
    PUBLISH {
        packet_id: Option<i16>,
        topic: String,
        payload: Vec<u8>,
        duplicate_delivery: bool,
        qos: u8,
        retain: bool,
    },
    PUBACK { packet_id: i16 },
    PUBREC { packet_id: i16 },
    PUBREL { packet_id: i16 },
    PUBCOMP { packet_id: i16 },
    SUBSCRIBE { topic_filter: Vec<String>, qos: Vec<u8>, packet_id: i16 },
    SUBACK { packet_id: i16, return_code: u8 },
    UNSUBSCRIBE { topic_filter: Vec<String>, packet_id: i16 },
    UNSUBACK { packet_id: i16 },
    PINGREQ,
    PINGRESP,
    DISCONNECT,
}

/// The mathematical content of a control packet: strings as character
/// sequences, byte vectors as byte sequences.
#[allow(inconsistent_fields)]
pub enum PacketModel {
    Connect {
        client_id: Seq<char>,
        topic: Option<Seq<char>>,
        content: Option<Seq<char>>,
        qos: Option<u8>,
        retain: Option<bool>,
        username: Option<Seq<char>>,
        password: Option<Seq<char>>,
        clean_session: bool,
        keep_alive: i16,
    },
    Connack { session_present: bool, return_code: u8 },
    Publish {
        packet_id: Option<i16>,
        topic: Seq<char>,
        payload: Seq<u8>,
        duplicate_delivery: bool,
        qos: u8,
        retain: bool,
    },
    Puback { packet_id: i16 },
    Pubrec { packet_id: i16 },
    Pubrel { packet_id: i16 },
    Pubcomp { packet_id: i16 },
    Subscribe { topic_filter: Seq<Seq<char>>, qos: Seq<u8>, packet_id: i16 },
    Suback { packet_id: i16, return_code: u8 },
    Unsubscribe { topic_filter: Seq<Seq<char>>, packet_id: i16 },
    Unsuback { packet_id: i16 },
    Pingreq,
    Pingresp,
    Disconnect,
}

/// The characters of an optional string.
pub open spec fn opt_string_view(o: Option<String>) -> Option<Seq<char>> {
    match o {
        Some(s) => Some(s@),
        None => None,
    }
}

/// The characters of each string of a list.
pub open spec fn strings_view(v: Seq<String>) -> Seq<Seq<char>> {
    v.map_values(|s: String| s@)
}

impl View for CtrlPacket {
    type V = PacketModel;

    open spec fn view(&self) -> PacketModel {
        match self {
            CtrlPacket::CONNECT {
                client_id,
                topic,
                content,
                qos,
                retain,
                username,
                password,
                clean_session,
                keep_alive,
            } => PacketModel::Connect {
                client_id: client_id@,
                topic: opt_string_view(*topic),
                content: opt_string_view(*content),
                qos: *qos,
                retain: *retain,
                username: opt_string_view(*username),
                password: opt_string_view(*password),
                clean_session: *clean_session,
                keep_alive: *keep_alive,
            },
            CtrlPacket::CONNACK { session_present, return_code } => PacketModel::Connack {
                session_present: *session_present,
                return_code: *return_code,
            },
            CtrlPacket::PUBLISH { packet_id, topic, payload, duplicate_delivery, qos, retain } =>
                PacketModel::Publish {
                packet_id: *packet_id,
                topic: topic@,
                payload: payload@,
                duplicate_delivery: *duplicate_delivery,
                qos: *qos,
                retain: *retain,
            },
            CtrlPacket::PUBACK { packet_id } => PacketModel::Puback { packet_id: *packet_id },
            CtrlPacket::PUBREC { packet_id } => PacketModel::Pubrec { packet_id: *packet_id },
            CtrlPacket::PUBREL { packet_id } => PacketModel::Pubrel { packet_id: *packet_id },
            CtrlPacket::PUBCOMP { packet_id } => PacketModel::Pubcomp { packet_id: *packet_id },
            CtrlPacket::SUBSCRIBE { topic_filter, qos, packet_id } => PacketModel::Subscribe {
                topic_filter: strings_view(topic_filter@),
                qos: qos@,
                packet_id: *packet_id,
            },
            CtrlPacket::SUBACK { packet_id, return_code } => PacketModel::Suback {
                packet_id: *packet_id,
                return_code: *return_code,
            },
            CtrlPacket::UNSUBSCRIBE { topic_filter, packet_id } => PacketModel::Unsubscribe {
                topic_filter: strings_view(topic_filter@),
                packet_id: *packet_id,
            },
            CtrlPacket::UNSUBACK { packet_id } => PacketModel::Unsuback { packet_id: *packet_id },
            CtrlPacket::PINGREQ => PacketModel::Pingreq,
            CtrlPacket::PINGRESP => PacketModel::Pingresp,
            CtrlPacket::DISCONNECT => PacketModel::Disconnect,
        }
    }
}

/// An owned copy of `s`.
pub(crate) fn string_of(s: &str) -> (r: String)
    ensures
        r@ == s@,
{
    s.to_string()
}

impl CtrlPacket {
    /// A SUBSCRIBE packet for one topic filter.
    pub fn new_subscribe(topic: &str, qos: u8, packet_id: i16) -> (packet: CtrlPacket)
        ensures
            packet@ == (PacketModel::Subscribe {
                topic_filter: seq![topic@],
                qos: seq![qos],
                packet_id,
            }),
    {
        let topic_filter: Vec<String> = vec![string_of(topic)];
        assert(strings_view(topic_filter@) =~= seq![topic@]);
        let qos_list: Vec<u8> = vec![qos];
        assert(qos_list@ =~= seq![qos]);
        CtrlPacket::SUBSCRIBE { topic_filter: topic_filter, qos: qos_list, packet_id: packet_id }
    }

    /// An UNSUBSCRIBE packet for one topic filter.
    pub fn new_unsubscribe(topic: &str, packet_id: i16) -> (packet: CtrlPacket)
        ensures
            packet@ == (PacketModel::Unsubscribe { topic_filter: seq![topic@], packet_id }),
    {
        let topic_filter: Vec<String> = vec![string_of(topic)];
        assert(strings_view(topic_filter@) =~= seq![topic@]);
        CtrlPacket::UNSUBSCRIBE { topic_filter: topic_filter, packet_id: packet_id }
    }

    /// A PUBLISH packet at quality of service 0: no packet identifier, no
    /// duplicate-delivery or retain flag.
    pub fn new_publish_qos0(topic: &str, payload: Vec<u8>) -> (packet: CtrlPacket)
        ensures
            packet@ == (PacketModel::Publish {
                packet_id: None,
                topic: topic@,
                payload: payload@,
                duplicate_delivery: false,
                qos: 0,
                retain: false,
            }),
    {
        CtrlPacket::PUBLISH {
            packet_id: None,
            topic: string_of(topic),
            payload: payload,
            qos: 0,
            duplicate_delivery: false,
            retain: false,
        }
    }

    /// A PUBLISH packet with a packet identifier and the given quality of
    /// service (not checked); no duplicate-delivery or retain flag.
    pub fn new_publish(topic: &str, payload: Vec<u8>, packet_id: i16, qos: u8) -> (packet:
        CtrlPacket)
        ensures
            packet@ == (PacketModel::Publish {
                packet_id: Some(packet_id),
                topic: topic@,
                payload: payload@,
                duplicate_delivery: false,
                qos,
                retain: false,
            }),
    {
        CtrlPacket::PUBLISH {
            packet_id: Some(packet_id),
            topic: string_of(topic),
            payload: payload,
            qos: qos,
            duplicate_delivery: false,
            retain: false,
        }
    }
}


/// The protocol name "MQTT" as a length-prefixed MQTT string.
pub open spec fn protocol_name_bytes() -> Seq<u8> {
    seq![0x00u8, 0x04u8, 0x4du8, 0x51u8, 0x54u8, 0x54u8]
}

/// The encoding of an optional string: nothing where it is absent.
pub open spec fn opt_string_bytes(o: Option<Seq<char>>) -> Seq<u8> {
    match o {
        Some(s) => spec_encode_string(s),
        None => seq![],
    }
}

/// An optional string that, where present, fits in an MQTT string.
pub open spec fn opt_fits_string(o: Option<Seq<char>>) -> bool {
    match o {
        Some(s) => fits_string(s),
        None => true,
    }
}

/// Every string of a list fits in an MQTT string.
pub open spec fn all_fit_string(v: Seq<Seq<char>>) -> bool {
    forall|i: int| 0 <= i < v.len() ==> fits_string(#[trigger] v[i])
}

/// The CONNECT flags, as a number: user name 0x80, password 0x40, will
/// retain 0x20, will QoS in bits 3 and 4, will flag 0x04 (set by a will
/// topic), clean session 0x02.
pub open spec fn connect_flags(
    topic: Option<Seq<char>>,
    qos: Option<u8>,
    retain: Option<bool>,
    username: Option<Seq<char>>,
    password: Option<Seq<char>>,
    clean_session: bool,
) -> int {
    (if retain == Some(true) { 0x20int } else { 0 }) + (match qos {
        Some(q) => q * 8,
        None => 0,
    }) + (if clean_session { 0x02int } else { 0 }) + (if topic is Some { 0x04int } else { 0 }) + (
    if username is Some { 0x80int } else { 0 }) + (if password is Some { 0x40int } else { 0 })
}

/// The topic filters of a SUBSCRIBE packet, each followed by its QoS byte.
pub open spec fn subscribe_entries(topics: Seq<Seq<char>>, qos: Seq<u8>) -> Seq<u8>
    decreases topics.len(),
{
    if topics.len() == 0 {
        seq![]
    } else {
        subscribe_entries(topics.drop_last(), qos) + spec_encode_string(topics.last()) + seq![
            qos[topics.len() - 1],
        ]
    }
}

/// The topic filters of an UNSUBSCRIBE packet, one after the other.
pub open spec fn topic_list_bytes(topics: Seq<Seq<char>>) -> Seq<u8>
    decreases topics.len(),
{
    if topics.len() == 0 {
        seq![]
    } else {
        topic_list_bytes(topics.drop_last()) + spec_encode_string(topics.last())
    }
}

/// The fixed-header flags of a PUBLISH packet, as a number: duplicate
/// delivery 8, QoS in bits 1 and 2, retain 1.
pub open spec fn publish_flags(duplicate_delivery: bool, qos: u8, retain: bool) -> int {
    (if duplicate_delivery { 8int } else { 0 }) + (if retain { 1int } else { 0 }) + qos * 2
}

/// The CONNECT payload: client identifier, will topic, will message, user
/// name, password, each where present.
pub open spec fn connect_payload(
    client_id: Seq<char>,
    topic: Option<Seq<char>>,
    content: Option<Seq<char>>,
    username: Option<Seq<char>>,
    password: Option<Seq<char>>,
) -> Seq<u8> {
    spec_encode_string(client_id) + opt_string_bytes(topic) + opt_string_bytes(content)
        + opt_string_bytes(username) + opt_string_bytes(password)
}

/// The CONNECT packet before its remaining length: type byte, protocol name,
/// protocol level 4, the flags, the keep-alive in two bytes (most
/// significant first), then the payload.
pub open spec fn spec_connect_body(
    client_id: Seq<char>,
    topic: Option<Seq<char>>,
    content: Option<Seq<char>>,
    qos: Option<u8>,
    retain: Option<bool>,
    username: Option<Seq<char>>,
    password: Option<Seq<char>>,
    clean_session: bool,
    keep_alive: i16,
) -> Seq<u8> {
    seq![0x10u8] + protocol_name_bytes() + seq![
        0x04u8,
        connect_flags(topic, qos, retain, username, password, clean_session) as u8,
        high_byte(keep_alive),
        low_byte(keep_alive),
    ] + connect_payload(client_id, topic, content, username, password)
}

/// The identifier bytes of a PUBLISH packet: present at QoS 1 and 2 where
/// the packet has an identifier.
pub open spec fn publish_id_bytes(packet_id: Option<i16>, qos: u8) -> Seq<u8> {
    match packet_id {
        Some(id) => if qos != 0 {
            seq![high_byte(id), low_byte(id)]
        } else {
            seq![]
        },
        None => seq![],
    }
}

/// A packet's bytes before its remaining length is put in at position 1: the
/// packet type byte, then the variable header and the payload. CONNACK,
/// SUBACK and UNSUBACK, which only a broker sends, have no encoding here.
pub open spec fn packet_body(m: PacketModel) -> Seq<u8> {
    match m {
        PacketModel::Connect {
            client_id,
            topic,
            content,
            qos,
            retain,
            username,
            password,
            clean_session,
            keep_alive,
        } => spec_connect_body(
            client_id,
            topic,
            content,
            qos,
            retain,
            username,
            password,
            clean_session,
            keep_alive,
        ),
        PacketModel::Subscribe { topic_filter, qos, packet_id } => seq![
            0x82u8,
            high_byte(packet_id),
            low_byte(packet_id),
        ] + subscribe_entries(topic_filter, qos),
        PacketModel::Unsubscribe { topic_filter, packet_id } => seq![
            0xa2u8,
            high_byte(packet_id),
            low_byte(packet_id),
        ] + topic_list_bytes(topic_filter),
        PacketModel::Publish { packet_id, topic, payload, duplicate_delivery, qos, retain } => seq![
            (0x30 + publish_flags(duplicate_delivery, qos, retain)) as u8,
        ] + spec_encode_string(topic) + publish_id_bytes(packet_id, qos) + payload,
        PacketModel::Puback { packet_id } => seq![
            0x40u8,
            high_byte(packet_id),
            low_byte(packet_id),
        ],
        PacketModel::Pubrec { packet_id } => seq![
            0x50u8,
            high_byte(packet_id),
            low_byte(packet_id),
        ],
        PacketModel::Pubrel { packet_id } => seq![
            0x62u8,
            high_byte(packet_id),
            low_byte(packet_id),
        ],
        PacketModel::Pubcomp { packet_id } => seq![
            0x70u8,
            high_byte(packet_id),
            low_byte(packet_id),
        ],
        PacketModel::Pingreq => seq![0xc0u8],
        PacketModel::Pingresp => seq![0xd0u8],
        PacketModel::Disconnect => seq![0xe0u8],
        _ => seq![],
    }
}

/// The wire bytes of a packet: the type byte, the remaining length of what
/// follows it, then the rest.
pub open spec fn spec_as_bytes(m: PacketModel) -> Seq<u8> {
    let body = packet_body(m);
    seq![body[0]] + spec_encode_remaining_length((body.len() - 1) as nat) + body.skip(1)
}

/// The packets that the encoder writes: not CONNACK, SUBACK or UNSUBACK;
/// every string at most 65535 bytes; a will QoS of at most 2; a QoS for
/// every SUBSCRIBE topic filter; at least one UNSUBSCRIBE topic filter; a
/// PUBLISH QoS of at most 2.
pub open spec fn as_bytes_defined(m: PacketModel) -> bool {
    match m {
        PacketModel::Connect { client_id, topic, content, qos, username, password, .. } => {
            &&& qos matches Some(q) ==> q <= 2
            &&& fits_string(client_id)
            &&& opt_fits_string(topic)
            &&& opt_fits_string(content)
            &&& opt_fits_string(username)
            &&& opt_fits_string(password)
        },
        PacketModel::Connack { .. } => false,
        PacketModel::Suback { .. } => false,
        PacketModel::Unsuback { .. } => false,
        PacketModel::Subscribe { topic_filter, qos, .. } => {
            &&& qos.len() >= topic_filter.len()
            &&& all_fit_string(topic_filter)
        },
        PacketModel::Unsubscribe { topic_filter, .. } => {
            &&& topic_filter.len() >= 1
            &&& all_fit_string(topic_filter)
        },
        PacketModel::Publish { packet_id, topic, qos, .. } => {
            &&& qos <= 2
            &&& fits_string(topic)
        },
        _ => true,
    }
}

fn append_string(result: &mut Vec<u8>, s: &str)
    requires
        fits_string(s@),
    ensures
        final(result)@ == old(result)@ + spec_encode_string(s@),
{
    let mut encoded = encode_string(s);
    result.append(&mut encoded);
}

fn append_opt_string(result: &mut Vec<u8>, s: &Option<String>)
    requires
        opt_fits_string(opt_string_view(*s)),
    ensures
        final(result)@ == old(result)@ + opt_string_bytes(opt_string_view(*s)),
{
    match s {
        Some(s) => append_string(result, s.as_str()),
        None => {
            assert(old(result)@ + seq![] =~= old(result)@);
        },
    }
}

fn fixed_with_id(first: u8, packet_id: i16) -> (result: Vec<u8>)
    ensures
        result@ == seq![first, high_byte(packet_id), low_byte(packet_id)],
{
    let mut result: Vec<u8> = Vec::new();
    result.push(first);
    push_16_bits(&mut result, packet_id);
    assert(result@ =~= seq![first, high_byte(packet_id), low_byte(packet_id)]);
    result
}

fn single_byte(first: u8) -> (result: Vec<u8>)
    ensures
        result@ == seq![first],
{
    let mut result: Vec<u8> = Vec::new();
    result.push(first);
    assert(result@ =~= seq![first]);
    result
}

proof fn lemma_protocol_name()
    ensures
        fits_string("MQTT"@),
        spec_encode_string("MQTT"@) == protocol_name_bytes(),
{
    reveal_strlit("MQTT");
    let chars = "MQTT"@;
    assert(vstd::utf8::is_ascii_chars(chars));
    vstd::utf8::is_ascii_chars_encode_utf8(chars);
    let e = encode_utf8(chars);
    assert(e[0] == chars[0] as u8);
    assert(e =~= seq![0x4du8, 0x51u8, 0x54u8, 0x54u8]);
    assert(spec_encode_string(chars) =~= protocol_name_bytes());
}

fn connect_flag_byte(
    topic: &Option<String>,
    qos: Option<u8>,
    retain: Option<bool>,
    username: &Option<String>,
    password: &Option<String>,
    clean_session: bool,
) -> (flags: u8)
    requires
        qos matches Some(q) ==> q <= 2,
    ensures
        flags == connect_flags(
            opt_string_view(*topic),
            qos,
            retain,
            opt_string_view(*username),
            opt_string_view(*password),
            clean_session,
        ),
{
    let mut flags: u8 = 0;
    // user name
    if username.is_some() {
        flags = flags + 0x80;
    }
    // password
    if password.is_some() {
        flags = flags + 0x40;
    }
    // will retain
    match retain {
        Some(r) => {
            if r {
                flags = flags + 0x20;
            }
        },
        None => {},
    }
    // will QoS
    match qos {
        Some(q) => {
            flags = flags + q * 8;
        },
        None => {},
    }
    // will flag, set by a will topic
    if topic.is_some() {
        flags = flags + 0x04;
    }
    // clean session
    if clean_session {
        flags = flags + 0x02;
    }
    flags
}

fn connect_body(
    client_id: String,
    topic: Option<String>,
    content: Option<String>,
    qos: Option<u8>,
    retain: Option<bool>,
    username: Option<String>,
    password: Option<String>,
    clean_session: bool,
    keep_alive: i16,
) -> (result: Vec<u8>)
    requires
        qos matches Some(q) ==> q <= 2,
        fits_string(client_id@),
        opt_fits_string(opt_string_view(topic)),
        opt_fits_string(opt_string_view(content)),
        opt_fits_string(opt_string_view(username)),
        opt_fits_string(opt_string_view(password)),
    ensures
        result@ == spec_connect_body(
            client_id@,
            opt_string_view(topic),
            opt_string_view(content),
            qos,
            retain,
            opt_string_view(username),
            opt_string_view(password),
            clean_session,
            keep_alive,
        ),
{
    let mut result: Vec<u8> = Vec::new();
    // packet type 1, no flags
    result.push(0x10);
    // protocol name
    proof {
        lemma_protocol_name();
    }
    append_string(&mut result, "MQTT");
    // protocol level 4 (MQTT 3.1.1)
    result.push(0x04);
    // connect flags
    let flags: u8 = connect_flag_byte(&topic, qos, retain, &username, &password, clean_session);
    result.push(flags);
    // keep alive, most significant byte first
    push_16_bits(&mut result, keep_alive);
    let ghost header = result@;
    assert(header =~= seq![0x10u8] + protocol_name_bytes() + seq![
        0x04u8,
        flags,
        high_byte(keep_alive),
        low_byte(keep_alive),
    ]);
    // client identifier, will topic, will message, user name, password
    append_string(&mut result, client_id.as_str());
    append_opt_string(&mut result, &topic);
    append_opt_string(&mut result, &content);
    append_opt_string(&mut result, &username);
    append_opt_string(&mut result, &password);
    assert(result@ =~= header + connect_payload(
        client_id@,
        opt_string_view(topic),
        opt_string_view(content),
        opt_string_view(username),
        opt_string_view(password),
    ));
    result
}

fn subscribe_body(topic_filter: &Vec<String>, qos: &Vec<u8>, packet_id: i16) -> (result: Vec<u8>)
    requires
        qos@.len() >= topic_filter@.len(),
        all_fit_string(strings_view(topic_filter@)),
    ensures
        result@ == seq![0x82u8, high_byte(packet_id), low_byte(packet_id)]
            + subscribe_entries(strings_view(topic_filter@), qos@),
{
    // packet type 8, reserved flags 2
    let mut result: Vec<u8> = fixed_with_id(0x82, packet_id);
    let ghost prefix = result@;
    let ghost topics = strings_view(topic_filter@);
    let mut i: usize = 0;
    assert(topics.take(0) =~= Seq::<Seq<char>>::empty());
    assert(result@ =~= prefix + subscribe_entries(topics.take(0), qos@));
    while i < topic_filter.len()
        invariant
            i <= topic_filter@.len() <= qos@.len(),
            topics == strings_view(topic_filter@),
            all_fit_string(topics),
            result@ == prefix + subscribe_entries(topics.take(i as int), qos@),
        decreases topic_filter@.len() - i,
    {
        assert(fits_string(topics[i as int]));
        // topic filter, then its QoS
        append_string(&mut result, topic_filter[i].as_str());
        result.push(qos[i]);
        proof {
            let t = topics.take(i + 1);
            assert(t.drop_last() =~= topics.take(i as int));
            assert(t.last() == topic_filter@[i as int]@);
        }
        i = i + 1;
    }
    assert(topics.take(topic_filter@.len() as int) =~= topics);
    result
}

fn unsubscribe_body(topic_filter: &Vec<String>, packet_id: i16) -> (result: Vec<u8>)
    requires
        all_fit_string(strings_view(topic_filter@)),
    ensures
        result@ == seq![0xa2u8, high_byte(packet_id), low_byte(packet_id)]
            + topic_list_bytes(strings_view(topic_filter@)),
{
    // packet type 10, reserved flags 2
    let mut result: Vec<u8> = fixed_with_id(0xa2, packet_id);
    let ghost prefix = result@;
    let ghost topics = strings_view(topic_filter@);
    let mut i: usize = 0;
    assert(topics.take(0) =~= Seq::<Seq<char>>::empty());
    assert(result@ =~= prefix + topic_list_bytes(topics.take(0)));
    while i < topic_filter.len()
        invariant
            i <= topic_filter@.len(),
            topics == strings_view(topic_filter@),
            all_fit_string(topics),
            result@ == prefix + topic_list_bytes(topics.take(i as int)),
        decreases topic_filter@.len() - i,
    {
        assert(fits_string(topics[i as int]));
        // topic filter
        append_string(&mut result, topic_filter[i].as_str());
        proof {
            let t = topics.take(i + 1);
            assert(t.drop_last() =~= topics.take(i as int));
            assert(t.last() == topic_filter@[i as int]@);
        }
        i = i + 1;
    }
    assert(topics.take(topic_filter@.len() as int) =~= topics);
    result
}

fn publish_body(
    packet_id: Option<i16>,
    topic: String,
    payload: Vec<u8>,
    duplicate_delivery: bool,
    qos: u8,
    retain: bool,
) -> (result: Vec<u8>)
    requires
        qos <= 2,
        fits_string(topic@),
    ensures
        result@ == packet_body(
            PacketModel::Publish {
                packet_id,
                topic: topic@,
                payload: payload@,
                duplicate_delivery,
                qos,
                retain,
            },
        ),
{
    let mut payload = payload;
    let ghost payload_bytes = payload@;
    // duplicate delivery, QoS and retain flags of packet type 3
    let mut flags: u8 = 0;
    if duplicate_delivery {
        flags = flags + 8;
    }
    if retain {
        flags = flags + 1;
    }
    flags = flags + qos * 2;
    let mut result: Vec<u8> = single_byte(0x30 + flags);
    // topic name
    append_string(&mut result, topic.as_str());
    let ghost after_topic = result@;
    // packet identifier, at QoS 1 and 2
    if qos != 0 {
        match packet_id {
            Some(packet_id_value) => {
                push_16_bits(&mut result, packet_id_value);
            },
            None => {},
        }
    }
    assert(result@ =~= after_topic + publish_id_bytes(packet_id, qos));
    // payload
    result.append(&mut payload);
    assert(result@ =~= seq![(0x30 + publish_flags(duplicate_delivery, qos, retain)) as u8]
        + spec_encode_string(topic@) + publish_id_bytes(packet_id, qos) + payload_bytes);
    result
}

fn strings_fit(v: &Vec<String>) -> (result: bool)
    ensures
        result == all_fit_string(strings_view(v@)),
{
    let mut i: usize = 0;
    while i < v.len()
        invariant
            i <= v@.len(),
            forall|k: int| 0 <= k < i ==> fits_string(#[trigger] strings_view(v@)[k]),
        decreases v@.len() - i,
    {
        if v[i].as_str().as_bytes().len() > 65535 {
            assert(!fits_string(strings_view(v@)[i as int]));
            return false;
        }
        i = i + 1;
    }
    true
}

fn string_fits(s: &String) -> (result: bool)
    ensures
        result == fits_string(s@),
{
    s.as_str().as_bytes().len() <= 65535
}

fn opt_string_fits(s: &Option<String>) -> (result: bool)
    ensures
        result == opt_fits_string(opt_string_view(*s)),
{
    match s {
        Some(s) => string_fits(s),
        None => true,
    }
}

impl CtrlPacket {
    /// Whether `as_bytes` can encode this packet.
    pub fn encodable(&self) -> (result: bool)
        ensures
            result == as_bytes_defined(self@),
    {
        match self {
            CtrlPacket::CONNECT { client_id, topic, content, qos, username, password, .. } => {
                let qos_ok: bool = match qos {
                    Some(q) => *q <= 2,
                    None => true,
                };
                qos_ok && string_fits(client_id) && opt_string_fits(topic) && opt_string_fits(
                    content,
                ) && opt_string_fits(username) && opt_string_fits(password)
            },
            CtrlPacket::CONNACK { .. } => false,
            CtrlPacket::SUBACK { .. } => false,
            CtrlPacket::UNSUBACK { .. } => false,
            CtrlPacket::SUBSCRIBE { topic_filter, qos, .. } => qos.len() >= topic_filter.len()
                && strings_fit(topic_filter),
            CtrlPacket::UNSUBSCRIBE { topic_filter, .. } => topic_filter.len() >= 1
                && strings_fit(topic_filter),
            CtrlPacket::PUBLISH { topic, qos, .. } => *qos <= 2 && string_fits(topic),
            _ => true,
        }
    }

    /// The wire encoding of this packet.
    pub fn as_bytes(self) -> (result: Vec<u8>)
        requires
            as_bytes_defined(self@),
        ensures
            result@ == spec_as_bytes(self@),
    {
        let ghost model = self@;
        let mut result: Vec<u8> = match self {
            CtrlPacket::CONNECT {
                client_id,
                topic,
                content,
                qos,
                retain,
                username,
                password,
                clean_session,
                keep_alive,
            } => connect_body(
                client_id,
                topic,
                content,
                qos,
                retain,
                username,
                password,
                clean_session,
                keep_alive,
            ),
            CtrlPacket::SUBSCRIBE { topic_filter, qos, packet_id } => subscribe_body(
                &topic_filter,
                &qos,
                packet_id,
            ),
            CtrlPacket::UNSUBSCRIBE { topic_filter, packet_id } => unsubscribe_body(
                &topic_filter,
                packet_id,
            ),
            CtrlPacket::PUBLISH { packet_id, topic, payload, duplicate_delivery, qos, retain } =>
                publish_body(packet_id, topic, payload, duplicate_delivery, qos, retain),
            // packet type 4
            CtrlPacket::PUBACK { packet_id } => fixed_with_id(0x40, packet_id),
            // packet type 5
            CtrlPacket::PUBREC { packet_id } => fixed_with_id(0x50, packet_id),
            // packet type 6, reserved flags 2
            CtrlPacket::PUBREL { packet_id } => fixed_with_id(0x62, packet_id),
            // packet type 7
            CtrlPacket::PUBCOMP { packet_id } => fixed_with_id(0x70, packet_id),
            // packet type 12
            CtrlPacket::PINGREQ => single_byte(0xc0),
            // packet type 13
            CtrlPacket::PINGRESP => single_byte(0xd0),
            // packet type 14
            CtrlPacket::DISCONNECT => single_byte(0xe0),
            _ => {
                proof {
                    assert(false);
                }
                Vec::new()
            },
        };
        let ghost body = result@;
        assert(body == packet_body(model));
        assert(body.len() >= 1);
        // the remaining length goes in after the type byte
        let remaining_length: Vec<u8> = encode_remaining_length(result.len() - 1);
        insert_all(remaining_length, &mut result, 1);
        proof {
            crate::codec::lemma_encoded_remaining_length_nonempty((body.len() - 1) as nat);
            assert(body.take(1) =~= seq![body[0]]);
        }
        result
    }
}

} // verus!
