use rmqtt::packet::CtrlPacket;
use rmqtt::parse::{decode_packet, parse, MalformedPacket};

#[test]
fn single_byte_packets_encode_with_zero_length() {
    assert_eq!(CtrlPacket::PINGREQ.as_bytes(), [0xc0, 0x00]);
    assert_eq!(CtrlPacket::PINGRESP.as_bytes(), [0xd0, 0x00]);
    assert_eq!(CtrlPacket::DISCONNECT.as_bytes(), [0xe0, 0x00]);
}

#[test]
fn acknowledgements_encode_their_identifier() {
    assert_eq!(CtrlPacket::PUBACK { packet_id: 10 }.as_bytes(), [0x40, 0x02, 0x00, 0x0a]);
    assert_eq!(CtrlPacket::PUBREC { packet_id: 11 }.as_bytes(), [0x50, 0x02, 0x00, 0x0b]);
    assert_eq!(CtrlPacket::PUBREL { packet_id: 258 }.as_bytes(), [0x62, 0x02, 0x01, 0x02]);
    assert_eq!(CtrlPacket::PUBCOMP { packet_id: 1 }.as_bytes(), [0x70, 0x02, 0x00, 0x01]);
}

#[test]
fn subscribe_encoding() {
    let bytes = CtrlPacket::new_subscribe("a/b", 1, 5).as_bytes();
    assert_eq!(bytes, [0x82, 0x08, 0x00, 0x05, 0x00, 0x03, 0x61, 0x2f, 0x62, 0x01]);
}

#[test]
fn subscribe_with_two_filters() {
    let packet = CtrlPacket::SUBSCRIBE {
        topic_filter: vec!["a".to_string(), "bc".to_string()],
        qos: vec![0, 2],
        packet_id: 1,
    };
    assert_eq!(
        packet.as_bytes(),
        [0x82, 0x0b, 0x00, 0x01, 0x00, 0x01, 0x61, 0x00, 0x00, 0x02, 0x62, 0x63, 0x02]
    );
}

#[test]
fn unsubscribe_encodes_every_filter() {
    let bytes = CtrlPacket::new_unsubscribe("a/b", 5).as_bytes();
    assert_eq!(bytes, [0xa2, 0x07, 0x00, 0x05, 0x00, 0x03, 0x61, 0x2f, 0x62]);
    assert_eq!(CtrlPacket::new_unsubscribe("a", 1).as_bytes(), [0xa2, 0x05, 0x00, 0x01, 0x00, 0x01, 0x61]);
    let two = CtrlPacket::UNSUBSCRIBE { topic_filter: vec!["x".to_string(), "y".to_string()], packet_id: 2 };
    assert_eq!(two.as_bytes(), [0xa2, 0x08, 0x00, 0x02, 0x00, 0x01, 0x78, 0x00, 0x01, 0x79]);
}

#[test]
fn publish_encoding() {
    let qos0 = CtrlPacket::new_publish_qos0("t", vec![1, 2]).as_bytes();
    assert_eq!(qos0, [0x30, 0x05, 0x00, 0x01, 0x74, 0x01, 0x02]);
    let qos1 = CtrlPacket::new_publish("t", vec![9], 7, 1).as_bytes();
    assert_eq!(qos1, [0x32, 0x06, 0x00, 0x01, 0x74, 0x00, 0x07, 0x09]);
    let flagged = CtrlPacket::PUBLISH {
        packet_id: Some(7),
        topic: "t".to_string(),
        payload: vec![],
        duplicate_delivery: true,
        qos: 0,
        retain: true,
    };
    // QoS 0 carries no identifier even where there is one
    assert_eq!(flagged.as_bytes(), [0x39, 0x03, 0x00, 0x01, 0x74]);
}

#[test]
fn connect_encoding() {
    let packet = CtrlPacket::CONNECT {
        client_id: "id".to_string(),
        topic: None,
        content: None,
        qos: None,
        retain: None,
        username: Some("u".to_string()),
        password: Some("p".to_string()),
        clean_session: false,
        keep_alive: 120,
    };
    assert_eq!(
        packet.as_bytes(),
        [
            0x10, 0x14, 0x00, 0x04, 0x4d, 0x51, 0x54, 0x54, 0x04, 0xc0, 0x00, 0x78, 0x00, 0x02,
            0x69, 0x64, 0x00, 0x01, 0x75, 0x00, 0x01, 0x70
        ]
    );
}

#[test]
fn connect_with_will_and_long_keep_alive() {
    let packet = CtrlPacket::CONNECT {
        client_id: "c".to_string(),
        topic: Some("w".to_string()),
        content: Some("m".to_string()),
        qos: Some(1),
        retain: Some(true),
        username: None,
        password: None,
        clean_session: true,
        keep_alive: 300,
    };
    // flags 0x20 + 0x08 + 0x04 + 0x02; keep-alive 300 is 0x01 0x2c
    assert_eq!(
        packet.as_bytes(),
        [
            0x10, 0x13, 0x00, 0x04, 0x4d, 0x51, 0x54, 0x54, 0x04, 0x2e, 0x01, 0x2c, 0x00, 0x01,
            0x63, 0x00, 0x01, 0x77, 0x00, 0x01, 0x6d
        ]
    );
}

#[test]
fn connect_clean_session_keep_alive_60() {
    let packet = CtrlPacket::CONNECT {
        client_id: "c".to_string(),
        topic: None,
        content: None,
        qos: None,
        retain: None,
        username: None,
        password: None,
        clean_session: true,
        keep_alive: 60,
    };
    assert_eq!(
        packet.as_bytes(),
        [0x10, 0x0d, 0x00, 0x04, 0x4d, 0x51, 0x54, 0x54, 0x04, 0x02, 0x00, 0x3c, 0x00, 0x01, 0x63]
    );
}

#[test]
fn parse_connack() {
    let mut bytes = vec![0x20, 0x02, 0x00, 0x00];
    assert_eq!(parse(&mut bytes), Some(CtrlPacket::CONNACK { session_present: false, return_code: 0 }));
    assert_eq!(bytes, [0x20, 0x02, 0x00, 0x00]);
    let mut refused = vec![0x20, 0x02, 0x01, 0x05];
    assert_eq!(parse(&mut refused), Some(CtrlPacket::CONNACK { session_present: true, return_code: 5 }));
    let mut short = vec![0x20, 0x02, 0x00];
    assert_eq!(parse(&mut short), None);
}

#[test]
fn parse_acknowledgements() {
    assert_eq!(parse(&mut vec![0x40, 0x02, 0x00, 0x0a]), Some(CtrlPacket::PUBACK { packet_id: 10 }));
    assert_eq!(parse(&mut vec![0x50, 0x02, 0x01, 0x00]), Some(CtrlPacket::PUBREC { packet_id: 256 }));
    assert_eq!(parse(&mut vec![0x62, 0x02, 0x00, 0x03]), Some(CtrlPacket::PUBREL { packet_id: 3 }));
    assert_eq!(parse(&mut vec![0x70, 0x02, 0x00, 0x04]), Some(CtrlPacket::PUBCOMP { packet_id: 4 }));
    assert_eq!(parse(&mut vec![0x90, 0x03, 0x00, 0x05, 0x01]), Some(CtrlPacket::SUBACK { packet_id: 5, return_code: 1 }));
    assert_eq!(parse(&mut vec![0xb0, 0x02, 0x00, 0x06]), Some(CtrlPacket::UNSUBACK { packet_id: 6 }));
    assert_eq!(parse(&mut vec![0x40, 0x02, 0x00]), None);
    assert_eq!(parse(&mut vec![0x40, 0x02, 0x80, 0x00]), Some(CtrlPacket::PUBACK { packet_id: -32768 }));
    assert_eq!(parse(&mut vec![0x70, 0x02, 0xff, 0xff]), Some(CtrlPacket::PUBCOMP { packet_id: -1 }));
}

#[test]
fn parse_single_byte_packets() {
    assert_eq!(parse(&mut vec![0xc0, 0x00]), Some(CtrlPacket::PINGREQ));
    assert_eq!(parse(&mut vec![0xd0, 0x00]), Some(CtrlPacket::PINGRESP));
    assert_eq!(parse(&mut vec![0xe0, 0x00]), Some(CtrlPacket::DISCONNECT));
    assert_eq!(parse(&mut vec![0xd0]), None);
    assert_eq!(parse(&mut vec![0x55, 0x00]), None);
    assert_eq!(parse(&mut Vec::new()), None);
}

#[test]
fn parse_publish_consumes_the_buffer() {
    let mut bytes = CtrlPacket::new_publish("t", vec![9], 7, 1).as_bytes();
    assert_eq!(parse(&mut bytes), Some(CtrlPacket::new_publish("t", vec![9], 7, 1)));
    assert!(bytes.is_empty());
}

#[test]
fn parse_publish_utf8_topic() {
    let mut bytes = vec![0x30, 0x05, 0x00, 0x02, 0xc3, 0xa9, 0x2a];
    let expected = CtrlPacket::PUBLISH {
        packet_id: None,
        topic: "é".to_string(),
        payload: vec![0x2a],
        duplicate_delivery: false,
        qos: 0,
        retain: false,
    };
    assert_eq!(parse(&mut bytes), Some(expected));
}

#[test]
fn malformed_inputs() {
    // topic bytes that are not UTF-8
    assert_eq!(decode_packet(&vec![0x30, 0x03, 0x00, 0x01, 0xff]), Err(MalformedPacket));
    // a topic length longer than what follows
    assert_eq!(decode_packet(&vec![0x30, 0x02, 0x00, 0x05]), Err(MalformedPacket));
    // a QoS 1 PUBLISH without room for its identifier
    assert_eq!(decode_packet(&vec![0x32, 0x03, 0x00, 0x01, 0x74]), Err(MalformedPacket));
}

#[test]
fn publish_length_mismatch_is_no_packet() {
    assert_eq!(decode_packet(&vec![0x30, 0x05, 0x00]), Ok(None));
    // a remaining length that runs past the buffer
    assert_eq!(decode_packet(&vec![0x30, 0x80]), Ok(None));
    // QoS 3 is not a QoS
    assert_eq!(decode_packet(&vec![0x36, 0x03, 0x00, 0x01, 0x74]), Ok(None));
}

#[test]
fn roundtrip_of_short_packets() {
    let packets = vec![
        CtrlPacket::new_publish_qos0("a/b", vec![1, 2, 3]),
        CtrlPacket::new_publish("x", vec![], 300, 2),
        CtrlPacket::PUBACK { packet_id: 32767 },
        CtrlPacket::PUBACK { packet_id: -1 },
        CtrlPacket::new_publish("y", vec![7], -5, 1),
        CtrlPacket::PUBREC { packet_id: 0 },
        CtrlPacket::PUBREL { packet_id: 1000 },
        CtrlPacket::PUBCOMP { packet_id: 5 },
        CtrlPacket::PINGREQ,
        CtrlPacket::PINGRESP,
        CtrlPacket::DISCONNECT,
    ];
    for packet in packets {
        let mut bytes = packet.clone().as_bytes();
        assert_eq!(parse(&mut bytes), Some(packet));
    }
}

#[test]
fn long_publish_comes_back() {
    let mut bytes = CtrlPacket::new_publish_qos0("a", vec![0; 200]).as_bytes();
    assert_eq!(bytes.len(), 206);
    assert_eq!(&bytes[..6], [0x30, 0xcb, 0x01, 0x00, 0x01, 0x61]);
    assert_eq!(parse(&mut bytes), Some(CtrlPacket::new_publish_qos0("a", vec![0; 200])));
    assert!(bytes.is_empty());
    let big = CtrlPacket::new_publish("b", vec![1; 20000], 3, 2);
    let mut big_bytes = big.clone().as_bytes();
    assert_eq!(&big_bytes[..4], [0x34, 0xa5, 0x9c, 0x01]);
    assert_eq!(parse(&mut big_bytes), Some(big));
}

#[test]
fn encodable_packets() {
    assert!(!CtrlPacket::CONNACK { session_present: false, return_code: 0 }.encodable());
    assert!(!CtrlPacket::SUBACK { packet_id: 1, return_code: 0 }.encodable());
    assert!(!CtrlPacket::UNSUBACK { packet_id: 1 }.encodable());
    assert!(!CtrlPacket::UNSUBSCRIBE { topic_filter: vec![], packet_id: 1 }.encodable());
    assert!(!CtrlPacket::SUBSCRIBE { topic_filter: vec!["a".to_string()], qos: vec![], packet_id: 1 }.encodable());
    assert!(CtrlPacket::new_publish("t", vec![], 1, 2).encodable());
    assert!(!CtrlPacket::new_publish("t", vec![], 1, 3).encodable());
    let no_id = CtrlPacket::PUBLISH {
        packet_id: None,
        topic: "t".to_string(),
        payload: vec![],
        duplicate_delivery: false,
        qos: 1,
        retain: false,
    };
    // no identifier is written where there is none
    assert!(no_id.encodable());
    assert_eq!(no_id.as_bytes(), [0x32, 0x03, 0x00, 0x01, 0x74]);
    let long_topic = "x".repeat(65536);
    assert!(!CtrlPacket::new_publish_qos0(&long_topic, vec![]).encodable());
    assert!(CtrlPacket::new_publish_qos0(&long_topic[1..], vec![]).encodable());
    let connect = |qos: u8| CtrlPacket::CONNECT {
        client_id: "c".to_string(),
        topic: Some("w".to_string()),
        content: None,
        qos: Some(qos),
        retain: Some(true),
        username: Some("u".to_string()),
        password: Some("p".to_string()),
        clean_session: true,
        keep_alive: 0,
    };
    assert!(connect(2).encodable());
    assert!(!connect(3).encodable());
    assert!(CtrlPacket::PINGREQ.encodable());
}
