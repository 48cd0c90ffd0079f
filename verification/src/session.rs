//! The client side of an MQTT session: building the CONNECT packet, reading
//! the broker's answer, numbering packets, remembering what was published,
//! answering what the broker sends and keeping the connection alive. The
//! network itself is not here; these functions give the packets to send and
//! take the packets received.

use std::collections::HashMap;
use vstd::prelude::*;

use crate::packet::{opt_string_view, string_of, CtrlPacket, PacketModel};

verus! {

/// Calls `time::get_time` for the system clock and returns its whole
/// seconds. The clock is read anew on each call, so nothing is stated of
/// the value.
#[verifier::external_body]
fn current_unix_seconds() -> i64 {
    time::get_time().sec
}

/// The settings of a connection to a broker, gathered before connecting.
pub struct MqttConnectionBuilder {
    pub client_id: String,
    pub host: String,
    pub user: Option<String>,
    pub password: Option<String>,
    pub will_topic: Option<String>,
    pub will_content: Option<String>,
    pub will_qos: Option<u8>,
    pub will_retain: Option<bool>,
    pub clean_session: bool,
    pub keep_alive: i16,
}

impl MqttConnectionBuilder {
    /// Settings for `client_id` at `host`: no credentials, no will message,
    /// no clean session, keep-alive 0.
    pub fn new(client_id: &str, host: &str) -> (builder: MqttConnectionBuilder)
        ensures
            builder.client_id@ == client_id@,
            builder.host@ == host@,
            builder.user is None,
            builder.password is None,
            builder.will_topic is None,
            builder.will_content is None,
            builder.will_qos is None,
            builder.will_retain is None,
            !builder.clean_session,
            builder.keep_alive == 0,
    {
        MqttConnectionBuilder {
            client_id: string_of(client_id),
            host: string_of(host),
            user: None,
            password: None,
            will_topic: None,
            will_content: None,
            will_qos: None,
            will_retain: None,
            clean_session: false,
            keep_alive: 0,
        }
    }

    /// Sets the user name and password; nothing else changes.
    pub fn credentials(self, user: &str, password: &str) -> (builder: MqttConnectionBuilder)
        ensures
            opt_string_view(builder.user) == Some(user@),
            opt_string_view(builder.password) == Some(password@),
            builder.client_id == self.client_id,
            builder.host == self.host,
            builder.will_topic == self.will_topic,
            builder.will_content == self.will_content,
            builder.will_qos == self.will_qos,
            builder.will_retain == self.will_retain,
            builder.clean_session == self.clean_session,
            builder.keep_alive == self.keep_alive,
    {
        let mut builder = self;
        builder.user = Some(string_of(user));
        builder.password = Some(string_of(password));
        builder
    }

    /// Sets the will message: topic, content, QoS and retain flag; nothing
    /// else changes.
    pub fn will_message(self, will_topic: &str, will_content: &str, will_qos: u8, will_retain: bool) -> (builder: MqttConnectionBuilder)
        ensures
            builder.will_retain == Some(will_retain),
            builder.will_qos == Some(will_qos),
            opt_string_view(builder.will_topic) == Some(will_topic@),
            opt_string_view(builder.will_content) == Some(will_content@),
            builder.client_id == self.client_id,
            builder.host == self.host,
            builder.user == self.user,
            builder.password == self.password,
            builder.clean_session == self.clean_session,
            builder.keep_alive == self.keep_alive,
    {
        let mut builder = self;
        builder.will_retain = Some(will_retain);
        builder.will_qos = Some(will_qos);
        builder.will_topic = Some(string_of(will_topic));
        builder.will_content = Some(string_of(will_content));
        builder
    }

    /// Sets the keep-alive interval, in seconds; nothing else changes.
    pub fn keep_alive(self, keep_alive: i16) -> (builder: MqttConnectionBuilder)
        ensures
            builder.keep_alive == keep_alive,
            builder.client_id == self.client_id,
            builder.host == self.host,
            builder.user == self.user,
            builder.password == self.password,
            builder.will_topic == self.will_topic,
            builder.will_content == self.will_content,
            builder.will_qos == self.will_qos,
            builder.will_retain == self.will_retain,
            builder.clean_session == self.clean_session,
    {
        let mut builder = self;
        builder.keep_alive = keep_alive;
        builder
    }

    /// Asks for a clean session; nothing else changes.
    pub fn clean_session(self) -> (builder: MqttConnectionBuilder)
        ensures
            builder.clean_session,
            builder.client_id == self.client_id,
            builder.host == self.host,
            builder.user == self.user,
            builder.password == self.password,
            builder.will_topic == self.will_topic,
            builder.will_content == self.will_content,
            builder.will_qos == self.will_qos,
            builder.will_retain == self.will_retain,
            builder.keep_alive == self.keep_alive,
    {
        let mut builder = self;
        builder.clean_session = true;
        builder
    }

    /// The CONNECT packet that these settings call for.
    pub fn connect_packet(self) -> (packet: CtrlPacket)
        ensures
            packet@ == (PacketModel::Connect {
                client_id: self.client_id@,
                topic: opt_string_view(self.will_topic),
                content: opt_string_view(self.will_content),
                qos: self.will_qos,
                retain: self.will_retain,
                username: opt_string_view(self.user),
                password: opt_string_view(self.password),
                clean_session: self.clean_session,
                keep_alive: self.keep_alive,
            }),
    {
        CtrlPacket::CONNECT {
            client_id: self.client_id,
            topic: self.will_topic,
            content: self.will_content,
            qos: self.will_qos,
            retain: self.will_retain,
            username: self.user,
            password: self.password,
            clean_session: self.clean_session,
            keep_alive: self.keep_alive,
        }
    }
}

/// Why a connection attempt was refused.
#[derive(Debug, Clone, Copy, PartialEq, Eq)]
pub enum ConnectRefusal {
    UnacceptableProtocolVersion,
    IdentifierRejected,
    ServerUnavailable,
    BadCredentials,
    NotAuthorized,
    InvalidReturnCode,
    UnexpectedPacket,
}

/// The refusal that a CONNACK return code stands for; 0 accepts.
pub open spec fn connack_refusal(return_code: u8) -> Option<ConnectRefusal> {
    if return_code == 0 {
        None
    } else if return_code == 1 {
        Some(ConnectRefusal::UnacceptableProtocolVersion)
    } else if return_code == 2 {
        Some(ConnectRefusal::IdentifierRejected)
    } else if return_code == 3 {
        Some(ConnectRefusal::ServerUnavailable)
    } else if return_code == 4 {
        Some(ConnectRefusal::BadCredentials)
    } else if return_code == 5 {
        Some(ConnectRefusal::NotAuthorized)
    } else {
        Some(ConnectRefusal::InvalidReturnCode)
    }
}

impl ConnectRefusal {
    /// The text that describes this refusal.
    pub fn message(&self) -> (text: &'static str)
        ensures
            *self == ConnectRefusal::UnacceptableProtocolVersion ==> text@
                == "Connection Refused, unacceptable protocol version"@,
            *self == ConnectRefusal::IdentifierRejected ==> text@
                == "Connection Refused, identifier rejected"@,
            *self == ConnectRefusal::ServerUnavailable ==> text@
                == "Connection Refused, Server unavailable"@,
            *self == ConnectRefusal::BadCredentials ==> text@
                == "Connection Refused, bad user name or password"@,
            *self == ConnectRefusal::NotAuthorized ==> text@
                == "Connection Refused, not authorized"@,
            *self == ConnectRefusal::InvalidReturnCode ==> text@
                == "Connection Refused, invalid return code"@,
            *self == ConnectRefusal::UnexpectedPacket ==> text@ == "Unexpected packet received"@,
    {
        match self {
            ConnectRefusal::UnacceptableProtocolVersion => "Connection Refused, unacceptable protocol version",
            ConnectRefusal::IdentifierRejected => "Connection Refused, identifier rejected",
            ConnectRefusal::ServerUnavailable => "Connection Refused, Server unavailable",
            ConnectRefusal::BadCredentials => "Connection Refused, bad user name or password",
            ConnectRefusal::NotAuthorized => "Connection Refused, not authorized",
            ConnectRefusal::InvalidReturnCode => "Connection Refused, invalid return code",
            ConnectRefusal::UnexpectedPacket => "Unexpected packet received",
        }
    }
}

/// Whether the packet that answers a CONNECT accepts the connection: a
/// CONNACK with return code 0 does; another return code refuses for the
/// reason it stands for; any other packet is unexpected.
pub fn connack_outcome(packet: &CtrlPacket) -> (outcome: Result<(), ConnectRefusal>)
    ensures
        match packet@ {
            PacketModel::Connack { return_code, .. } => match connack_refusal(return_code) {
                None => outcome is Ok,
                Some(refusal) => outcome == Err::<(), ConnectRefusal>(refusal),
            },
            _ => outcome == Err::<(), ConnectRefusal>(ConnectRefusal::UnexpectedPacket),
        },
{
    match packet {
        CtrlPacket::CONNACK { session_present: _, return_code } => {
            match *return_code {
                0x00 => Ok(()),
                0x01 => Err(ConnectRefusal::UnacceptableProtocolVersion),
                0x02 => Err(ConnectRefusal::IdentifierRejected),
                0x03 => Err(ConnectRefusal::ServerUnavailable),
                0x04 => Err(ConnectRefusal::BadCredentials),
                0x05 => Err(ConnectRefusal::NotAuthorized),
                _ => Err(ConnectRefusal::InvalidReturnCode),
            }
        },
        _ => Err(ConnectRefusal::UnexpectedPacket),
    }
}


/// Where a published message of QoS 1 or 2 stands in its acknowledgement.
#[derive(Debug, Clone, Copy, PartialEq, Eq)]
pub enum PublishState {
    Sent,
    Acknowledgement,
    Received,
    Release,
    Complete,
}

/// A message published at QoS 1 or 2, kept until it is acknowledged.
pub struct PublishToken {
    pub topic: String,
    pub payload: Vec<u8>,
    pub publish_state: PublishState,
    pub qos: u8,
    pub last_message: i64,
}

/// A message received from the broker.
pub struct ReceivedMessage {
    pub topic: String,
    pub payload: Vec<u8>,
}

impl ReceivedMessage {
    /// A message of `topic` carrying `payload`.
    pub fn new(topic: String, payload: Vec<u8>) -> (message: ReceivedMessage)
        ensures
            message.topic == topic,
            message.payload == payload,
    {
        ReceivedMessage { topic: topic, payload: payload }
    }
}

/// The state that an open connection keeps: the last packet identifier
/// used, the keep-alive interval, when a packet was last sent, and the
/// messages published at QoS 1 or 2, by packet identifier.
pub struct MqttSession {
    pub packet_id: i16,
    pub keep_alive: i16,
    pub last_message_sent: i64,
    pub published: HashMap<i16, PublishToken>,
}

/// Whether the keep-alive interval has run out: more than `keep_alive`
/// seconds have passed since the last packet was sent.
pub open spec fn keep_alive_expired(last_message_sent: i64, keep_alive: i16, now: i64) -> bool {
    now > last_message_sent + keep_alive
}

impl MqttSession {
    /// A session with no packet sent yet and nothing published, counted as
    /// having sent at `now`.
    pub fn new_at(keep_alive: i16, now: i64) -> (session: MqttSession)
        ensures
            session.packet_id == 0,
            session.keep_alive == keep_alive,
            session.last_message_sent == now,
            session.published@ == Map::<i16, PublishToken>::empty(),
    {
        MqttSession {
            packet_id: 0,
            keep_alive: keep_alive,
            last_message_sent: now,
            published: HashMap::new(),
        }
    }

    /// A session as `new_at` makes it, at the current time of the system
    /// clock.
    pub fn new(keep_alive: i16) -> (session: MqttSession)
        ensures
            session.packet_id == 0,
            session.keep_alive == keep_alive,
            session.published@ == Map::<i16, PublishToken>::empty(),
    {
        MqttSession::new_at(keep_alive, current_unix_seconds())
    }

    /// The next packet identifier: one more than the last. The 16-bit
    /// counter overflows after 32767.
    pub fn next_packet_id(&mut self) -> (id: i16)
        requires
            old(self).packet_id < i16::MAX,
        ensures
            final(self).packet_id == old(self).packet_id + 1,
            id == final(self).packet_id,
            final(self).keep_alive == old(self).keep_alive,
            final(self).last_message_sent == old(self).last_message_sent,
            final(self).published == old(self).published,
    {
        self.packet_id = self.packet_id + 1;
        self.packet_id
    }

    /// The SUBSCRIBE packet for `topic` at `qos`, under the next packet
    /// identifier.
    pub fn subscribe(&mut self, topic: &str, qos: u8) -> (packet: CtrlPacket)
        requires
            old(self).packet_id < i16::MAX,
        ensures
            final(self).packet_id == old(self).packet_id + 1,
            packet@ == (PacketModel::Subscribe {
                topic_filter: seq![topic@],
                qos: seq![qos],
                packet_id: final(self).packet_id,
            }),
            final(self).keep_alive == old(self).keep_alive,
            final(self).last_message_sent == old(self).last_message_sent,
            final(self).published == old(self).published,
    {
        let next_packet_id = self.next_packet_id();
        CtrlPacket::new_subscribe(topic, qos, next_packet_id)
    }

    /// The UNSUBSCRIBE packet for `topic`, under the next packet identifier.
    pub fn unsubscribe(&mut self, topic: &str) -> (packet: CtrlPacket)
        requires
            old(self).packet_id < i16::MAX,
        ensures
            final(self).packet_id == old(self).packet_id + 1,
            packet@ == (PacketModel::Unsubscribe {
                topic_filter: seq![topic@],
                packet_id: final(self).packet_id,
            }),
            final(self).keep_alive == old(self).keep_alive,
            final(self).last_message_sent == old(self).last_message_sent,
            final(self).published == old(self).published,
    {
        let next_packet_id = self.next_packet_id();
        CtrlPacket::new_unsubscribe(topic, next_packet_id)
    }

    /// The PUBLISH packet for `payload` on `topic` at `qos`, under the next
    /// packet identifier. A message of QoS 1 or 2 is also kept, as sent,
    /// under that identifier; at any other QoS nothing is kept.
    pub fn publish(&mut self, topic: &str, payload: Vec<u8>, qos: u8) -> (packet: CtrlPacket)
        requires
            old(self).packet_id < i16::MAX,
        ensures
            final(self).packet_id == old(self).packet_id + 1,
            packet@ == (PacketModel::Publish {
                packet_id: Some(final(self).packet_id),
                topic: topic@,
                payload: payload@,
                duplicate_delivery: false,
                qos,
                retain: false,
            }),
            final(self).keep_alive == old(self).keep_alive,
            final(self).last_message_sent == old(self).last_message_sent,
            qos != 1 && qos != 2 ==> final(self).published@ == old(self).published@,
            qos == 1 || qos == 2 ==> {
                &&& final(self).published@.dom() == old(self).published@.dom().insert(
                    final(self).packet_id,
                )
                &&& forall|k: i16|
                    k != final(self).packet_id && #[trigger] old(self).published@.contains_key(k)
                        ==> final(self).published@[k] == old(self).published@[k]
                &&& final(self).published@[final(self).packet_id].topic@ == topic@
                &&& final(self).published@[final(self).packet_id].payload@ == payload@
                &&& final(self).published@[final(self).packet_id].publish_state
                    == PublishState::Sent
                &&& final(self).published@[final(self).packet_id].qos == qos
                &&& final(self).published@[final(self).packet_id].last_message == 0
            },
    {
        broadcast use vstd::std_specs::hash::group_hash_axioms;

        let next_packet_id = self.next_packet_id();
        if qos == 1 || qos == 2 {
            let kept: Vec<u8> = payload.clone();
            self.published.insert(
                next_packet_id,
                PublishToken {
                    topic: string_of(topic),
                    payload: kept,
                    publish_state: PublishState::Sent,
                    qos: qos,
                    last_message: 0,
                },
            );
        }
        CtrlPacket::new_publish(topic, payload, next_packet_id, qos)
    }

    /// Counts a packet as sent at `now`; nothing else changes.
    pub fn record_sent_at(&mut self, now: i64)
        ensures
            final(self).last_message_sent == now,
            final(self).packet_id == old(self).packet_id,
            final(self).keep_alive == old(self).keep_alive,
            final(self).published == old(self).published,
    {
        self.last_message_sent = now;
    }

    /// Counts a packet as sent at the current time of the system clock, and
    /// returns that reading of the clock; nothing else changes.
    pub fn record_sent(&mut self) -> (now: i64)
        ensures
            final(self).last_message_sent == now,
            final(self).packet_id == old(self).packet_id,
            final(self).keep_alive == old(self).keep_alive,
            final(self).published == old(self).published,
    {
        let now = current_unix_seconds();
        self.record_sent_at(now);
        now
    }

    /// Whether a PINGREQ is due at `now`: the keep-alive interval has run
    /// out since the last packet was sent.
    pub fn ping_due_at(&self, now: i64) -> (due: bool)
        ensures
            due == keep_alive_expired(self.last_message_sent, self.keep_alive, now),
    {
        now as i128 > self.last_message_sent as i128 + self.keep_alive as i128
    }

    /// Whether a PINGREQ is due at the current time of the system clock, as
    /// `ping_due_at` decides it, together with the clock's reading that the
    /// decision was made at.
    pub fn ping_due(&self) -> (result: (bool, i64))
        ensures
            result.0 == keep_alive_expired(self.last_message_sent, self.keep_alive, result.1),
    {
        let now = current_unix_seconds();
        (self.ping_due_at(now), now)
    }
}

/// What the client does with a packet received while it waits for messages.
pub enum Reaction {
    /// A message arrived; it is handed over, after `reply` is sent if there is one.
    Deliver { message: ReceivedMessage, reply: Option<CtrlPacket> },
    /// Only a packet goes back.
    Reply(CtrlPacket),
    /// Nothing is done.
    Ignore,
}

/// The packets that `react_to_packet` takes: a PUBLISH of QoS 1 or 2 carries
/// a packet identifier.
pub open spec fn reaction_defined(packet: PacketModel) -> bool {
    match packet {
        PacketModel::Publish { packet_id, qos, .. } => (qos == 1 || qos == 2) ==> packet_id is Some,
        _ => true,
    }
}

/// The answer to a received packet: a PUBLISH is delivered, acknowledged by
/// PUBACK at QoS 1 and by PUBREC at QoS 2 under its packet identifier; a
/// PUBREC is answered by PUBREL and a PUBREL by PUBCOMP with the same
/// identifier; every other packet is ignored.
pub fn react_to_packet(packet: CtrlPacket) -> (reaction: Reaction)
    requires
        reaction_defined(packet@),
    ensures
        match packet@ {
            PacketModel::Publish { packet_id, topic, payload, qos, .. } => match reaction {
                Reaction::Deliver { message, reply } => {
                    &&& message.topic@ == topic
                    &&& message.payload@ == payload
                    &&& qos == 1 ==> (reply matches Some(r) && r@ == PacketModel::Puback {
                        packet_id: packet_id->0,
                    })
                    &&& qos == 2 ==> (reply matches Some(r) && r@ == PacketModel::Pubrec {
                        packet_id: packet_id->0,
                    })
                    &&& qos != 1 && qos != 2 ==> reply is None
                },
                _ => false,
            },
            PacketModel::Pubrec { packet_id } => match reaction {
                Reaction::Reply(r) => r@ == PacketModel::Pubrel { packet_id },
                _ => false,
            },
            PacketModel::Pubrel { packet_id } => match reaction {
                Reaction::Reply(r) => r@ == PacketModel::Pubcomp { packet_id },
                _ => false,
            },
            _ => reaction is Ignore,
        },
{
    match packet {
        CtrlPacket::PUBLISH { packet_id, topic, payload, duplicate_delivery: _, qos, retain: _ } => {
            let reply: Option<CtrlPacket> = if qos == 1 {
                Some(CtrlPacket::PUBACK { packet_id: packet_id.unwrap() })
            } else if qos == 2 {
                Some(CtrlPacket::PUBREC { packet_id: packet_id.unwrap() })
            } else {
                None
            };
            Reaction::Deliver { message: ReceivedMessage::new(topic, payload), reply: reply }
        },
        CtrlPacket::PUBREC { packet_id } => Reaction::Reply(CtrlPacket::PUBREL { packet_id: packet_id }),
        CtrlPacket::PUBREL { packet_id } => Reaction::Reply(CtrlPacket::PUBCOMP { packet_id: packet_id }),
        _ => Reaction::Ignore,
    }
}

} // verus!
