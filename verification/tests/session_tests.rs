use rmqtt::packet::CtrlPacket;
use rmqtt::session::{
    connack_outcome, react_to_packet, ConnectRefusal, MqttConnectionBuilder, MqttSession,
    PublishState, Reaction, ReceivedMessage,
};

#[test]
fn builder_defaults_and_setters() {
    let builder = MqttConnectionBuilder::new("test-client-01", "localhost:1883");
    assert_eq!(builder.client_id, "test-client-01");
    assert_eq!(builder.host, "localhost:1883");
    assert!(builder.user.is_none());
    assert!(!builder.clean_session);
    assert_eq!(builder.keep_alive, 0);
    let builder = builder
        .credentials("user", "password")
        .keep_alive(120)
        .will_message("w", "bye", 1, true)
        .clean_session();
    assert_eq!(builder.user.as_deref(), Some("user"));
    assert_eq!(builder.password.as_deref(), Some("password"));
    assert_eq!(builder.keep_alive, 120);
    assert_eq!(builder.will_topic.as_deref(), Some("w"));
    assert_eq!(builder.will_content.as_deref(), Some("bye"));
    assert_eq!(builder.will_qos, Some(1));
    assert_eq!(builder.will_retain, Some(true));
    assert!(builder.clean_session);
}

#[test]
fn builder_connect_packet() {
    let packet = MqttConnectionBuilder::new("id", "h").credentials("u", "p").keep_alive(120).connect_packet();
    assert_eq!(
        packet,
        CtrlPacket::CONNECT {
            client_id: "id".to_string(),
            topic: None,
            content: None,
            qos: None,
            retain: None,
            username: Some("u".to_string()),
            password: Some("p".to_string()),
            clean_session: false,
            keep_alive: 120,
        }
    );
}

#[test]
fn connack_outcomes() {
    let connack = |code: u8| CtrlPacket::CONNACK { session_present: false, return_code: code };
    assert_eq!(connack_outcome(&connack(0)), Ok(()));
    assert_eq!(connack_outcome(&connack(1)), Err(ConnectRefusal::UnacceptableProtocolVersion));
    assert_eq!(connack_outcome(&connack(2)), Err(ConnectRefusal::IdentifierRejected));
    assert_eq!(connack_outcome(&connack(3)), Err(ConnectRefusal::ServerUnavailable));
    assert_eq!(connack_outcome(&connack(4)), Err(ConnectRefusal::BadCredentials));
    assert_eq!(connack_outcome(&connack(5)), Err(ConnectRefusal::NotAuthorized));
    assert_eq!(connack_outcome(&connack(6)), Err(ConnectRefusal::InvalidReturnCode));
    assert_eq!(connack_outcome(&CtrlPacket::PINGRESP), Err(ConnectRefusal::UnexpectedPacket));
}

#[test]
fn refusal_messages() {
    assert_eq!(ConnectRefusal::BadCredentials.message(), "Connection Refused, bad user name or password");
    assert_eq!(ConnectRefusal::ServerUnavailable.message(), "Connection Refused, Server unavailable");
    assert_eq!(ConnectRefusal::UnexpectedPacket.message(), "Unexpected packet received");
}

#[test]
fn packet_ids_count_up() {
    let mut session = MqttSession::new_at(60, 1000);
    assert_eq!(session.next_packet_id(), 1);
    assert_eq!(session.next_packet_id(), 2);
    let subscribe = session.subscribe("a", 0);
    assert_eq!(subscribe, CtrlPacket::new_subscribe("a", 0, 3));
    let unsubscribe = session.unsubscribe("a");
    assert_eq!(unsubscribe, CtrlPacket::new_unsubscribe("a", 4));
    assert_eq!(session.packet_id, 4);
}

#[test]
fn publish_keeps_qos1_and_qos2_messages() {
    let mut session = MqttSession::new_at(60, 1000);
    let first = session.publish("t", vec![1], 0);
    assert_eq!(first, CtrlPacket::new_publish("t", vec![1], 1, 0));
    assert!(session.published.is_empty());
    let second = session.publish("t", vec![2], 1);
    assert_eq!(second, CtrlPacket::new_publish("t", vec![2], 2, 1));
    let token = session.published.get(&2).unwrap();
    assert_eq!(token.topic, "t");
    assert_eq!(token.payload, vec![2]);
    assert_eq!(token.publish_state, PublishState::Sent);
    assert_eq!(token.qos, 1);
    assert_eq!(token.last_message, 0);
    session.publish("u", vec![3], 2);
    assert_eq!(session.published.len(), 2);
}

#[test]
fn keep_alive_timing() {
    let mut session = MqttSession::new_at(10, 1000);
    assert!(!session.ping_due_at(1010));
    assert!(session.ping_due_at(1011));
    session.record_sent_at(1011);
    assert_eq!(session.last_message_sent, 1011);
    assert!(!session.ping_due_at(1021));
    let mut fresh = MqttSession::new(30);
    assert_eq!(fresh.packet_id, 0);
    let (due, now) = fresh.ping_due();
    assert!(!due);
    assert_eq!(due, fresh.ping_due_at(now));
    let sent = fresh.record_sent();
    assert_eq!(fresh.last_message_sent, sent);
}

#[test]
fn reactions_to_received_packets() {
    match react_to_packet(CtrlPacket::new_publish("t", vec![5], 9, 1)) {
        Reaction::Deliver { message, reply } => {
            assert_eq!(message.topic, "t");
            assert_eq!(message.payload, vec![5]);
            assert_eq!(reply, Some(CtrlPacket::PUBACK { packet_id: 9 }));
        }
        _ => panic!("a PUBLISH is delivered"),
    }
    match react_to_packet(CtrlPacket::new_publish("t", vec![], 4, 2)) {
        Reaction::Deliver { reply, .. } => assert_eq!(reply, Some(CtrlPacket::PUBREC { packet_id: 4 })),
        _ => panic!("a PUBLISH is delivered"),
    }
    match react_to_packet(CtrlPacket::new_publish_qos0("t", vec![])) {
        Reaction::Deliver { reply, .. } => assert_eq!(reply, None),
        _ => panic!("a PUBLISH is delivered"),
    }
    match react_to_packet(CtrlPacket::PUBREC { packet_id: 8 }) {
        Reaction::Reply(packet) => assert_eq!(packet, CtrlPacket::PUBREL { packet_id: 8 }),
        _ => panic!("a PUBREC is answered"),
    }
    match react_to_packet(CtrlPacket::PUBREL { packet_id: 8 }) {
        Reaction::Reply(packet) => assert_eq!(packet, CtrlPacket::PUBCOMP { packet_id: 8 }),
        _ => panic!("a PUBREL is answered"),
    }
    assert!(matches!(react_to_packet(CtrlPacket::PINGRESP), Reaction::Ignore));
}

#[test]
fn received_message_fields() {
    let message = ReceivedMessage::new("topic".to_string(), vec![1, 2]);
    assert_eq!(message.topic, "topic");
    assert_eq!(message.payload, vec![1, 2]);
}
