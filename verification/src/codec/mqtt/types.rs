//! MQTT 5 packet types and their mathematical views.
use bytes::Bytes;
use vstd::prelude::*;

use crate::buf::bytes_view;
use crate::{Error, Result};
use crate::text::message_with_number;

verus! {

/// MQTT Quality of Service level.
#[derive(Debug, Clone, Copy, PartialEq, Eq, Structural)]
pub enum QoS {
    /// QoS 0: deliver at most once, with no acknowledgement flow.
    AtMostOnce,
    /// QoS 1: deliver at least once, acknowledged with PUBACK.
    AtLeastOnce,
    /// QoS 2: deliver exactly once, using the PUBREC/PUBREL/PUBCOMP flow.
    ExactlyOnce,
}

/// The QoS level a two-bit value names, if any.
pub open spec fn qos_of(value: u8) -> Option<QoS> {
    if value == 0 {
        Some(QoS::AtMostOnce)
    } else if value == 1 {
        Some(QoS::AtLeastOnce)
    } else if value == 2 {
        Some(QoS::ExactlyOnce)
    } else {
        None
    }
}

/// The number of a QoS level.
pub open spec fn qos_bits(q: QoS) -> u8 {
    match q {
        QoS::AtMostOnce => 0,
        QoS::AtLeastOnce => 1,
        QoS::ExactlyOnce => 2,
    }
}

impl QoS {
    /// The QoS level for 0, 1 or 2; anything else is refused.
    pub(crate) fn from_u8(value: u8) -> (res: Result<Self>)
        ensures
            match qos_of(value) {
                Some(q) => res == Ok::<QoS, Error>(q),
                None => res matches Err(Error::Decode(_)),
            },
    {
        match value {
            0 => Ok(Self::AtMostOnce),
            1 => Ok(Self::AtLeastOnce),
            2 => Ok(Self::ExactlyOnce),
            _ => Err(Error::Decode(message_with_number("invalid MQTT QoS: ", value as u64))),
        }
    }

    /// The level's number.
    pub(crate) fn as_u8(self) -> (r: u8)
        ensures
            r == qos_bits(self),
    {
        match self {
            Self::AtMostOnce => 0,
            Self::AtLeastOnce => 1,
            Self::ExactlyOnce => 2,
        }
    }
}

/// MQTT 5 property value.
#[derive(Debug, Clone, PartialEq)]
pub enum MqttProperty {
    PayloadFormatIndicator(u8),
    MessageExpiryInterval(u32),
    ContentType(String),
    ResponseTopic(String),
    CorrelationData(Bytes),
    SubscriptionIdentifier(u32),
    SessionExpiryInterval(u32),
    AssignedClientIdentifier(String),
    ServerKeepAlive(u16),
    AuthenticationMethod(String),
    AuthenticationData(Bytes),
    RequestProblemInformation(u8),
    WillDelayInterval(u32),
    RequestResponseInformation(u8),
    ResponseInformation(String),
    ServerReference(String),
    ReasonString(String),
    ReceiveMaximum(u16),
    TopicAliasMaximum(u16),
    TopicAlias(u16),
    MaximumQoS(u8),
    RetainAvailable(u8),
    /// User Property key/value pair. Unlike most MQTT properties, this can appear multiple times.
    UserProperty(String, String),
    MaximumPacketSize(u32),
    WildcardSubscriptionAvailable(u8),
    SubscriptionIdentifierAvailable(u8),
    SharedSubscriptionAvailable(u8),
}

/// A property with strings as characters and binary data as bytes.
pub ghost enum PropertyV {
    PayloadFormatIndicator(u8),
    MessageExpiryInterval(u32),
    ContentType(Seq<char>),
    ResponseTopic(Seq<char>),
    CorrelationData(Seq<u8>),
    SubscriptionIdentifier(u32),
    SessionExpiryInterval(u32),
    AssignedClientIdentifier(Seq<char>),
    ServerKeepAlive(u16),
    AuthenticationMethod(Seq<char>),
    AuthenticationData(Seq<u8>),
    RequestProblemInformation(u8),
    WillDelayInterval(u32),
    RequestResponseInformation(u8),
    ResponseInformation(Seq<char>),
    ServerReference(Seq<char>),
    ReasonString(Seq<char>),
    ReceiveMaximum(u16),
    TopicAliasMaximum(u16),
    TopicAlias(u16),
    MaximumQoS(u8),
    RetainAvailable(u8),
    UserProperty(Seq<char>, Seq<char>),
    MaximumPacketSize(u32),
    WildcardSubscriptionAvailable(u8),
    SubscriptionIdentifierAvailable(u8),
    SharedSubscriptionAvailable(u8),
}

impl View for MqttProperty {
    type V = PropertyV;

    open spec fn view(&self) -> PropertyV {
        match self {
            MqttProperty::PayloadFormatIndicator(v) => PropertyV::PayloadFormatIndicator(*v),
            MqttProperty::MessageExpiryInterval(v) => PropertyV::MessageExpiryInterval(*v),
            MqttProperty::ContentType(v) => PropertyV::ContentType(v@),
            MqttProperty::ResponseTopic(v) => PropertyV::ResponseTopic(v@),
            MqttProperty::CorrelationData(v) => PropertyV::CorrelationData(bytes_view(*v)),
            MqttProperty::SubscriptionIdentifier(v) => PropertyV::SubscriptionIdentifier(*v),
            MqttProperty::SessionExpiryInterval(v) => PropertyV::SessionExpiryInterval(*v),
            MqttProperty::AssignedClientIdentifier(v) => PropertyV::AssignedClientIdentifier(v@),
            MqttProperty::ServerKeepAlive(v) => PropertyV::ServerKeepAlive(*v),
            MqttProperty::AuthenticationMethod(v) => PropertyV::AuthenticationMethod(v@),
            MqttProperty::AuthenticationData(v) => PropertyV::AuthenticationData(bytes_view(*v)),
            MqttProperty::RequestProblemInformation(v) => PropertyV::RequestProblemInformation(*v),
            MqttProperty::WillDelayInterval(v) => PropertyV::WillDelayInterval(*v),
            MqttProperty::RequestResponseInformation(v) => PropertyV::RequestResponseInformation(*v),
            MqttProperty::ResponseInformation(v) => PropertyV::ResponseInformation(v@),
            MqttProperty::ServerReference(v) => PropertyV::ServerReference(v@),
            MqttProperty::ReasonString(v) => PropertyV::ReasonString(v@),
            MqttProperty::ReceiveMaximum(v) => PropertyV::ReceiveMaximum(*v),
            MqttProperty::TopicAliasMaximum(v) => PropertyV::TopicAliasMaximum(*v),
            MqttProperty::TopicAlias(v) => PropertyV::TopicAlias(*v),
            MqttProperty::MaximumQoS(v) => PropertyV::MaximumQoS(*v),
            MqttProperty::RetainAvailable(v) => PropertyV::RetainAvailable(*v),
            MqttProperty::UserProperty(k, v) => PropertyV::UserProperty(k@, v@),
            MqttProperty::MaximumPacketSize(v) => PropertyV::MaximumPacketSize(*v),
            MqttProperty::WildcardSubscriptionAvailable(v) => PropertyV::WildcardSubscriptionAvailable(*v),
            MqttProperty::SubscriptionIdentifierAvailable(v) => PropertyV::SubscriptionIdentifierAvailable(*v),
            MqttProperty::SharedSubscriptionAvailable(v) => PropertyV::SharedSubscriptionAvailable(*v),
        }
    }
}

/// The views of a list of properties.
pub open spec fn properties_view(ps: Vec<MqttProperty>) -> Seq<PropertyV> {
    ps@.map_values(|p: MqttProperty| p@)
}

/// MQTT Will Message carried in a CONNECT packet.
#[derive(Debug, Clone, PartialEq)]
pub struct Will {
    pub qos: QoS,
    pub retain: bool,
    pub properties: Vec<MqttProperty>,
    pub topic: String,
    pub payload: Bytes,
}

/// The view of a Will Message.
pub ghost struct WillV {
    pub qos: QoS,
    pub retain: bool,
    pub properties: Seq<PropertyV>,
    pub topic: Seq<char>,
    pub payload: Seq<u8>,
}

impl View for Will {
    type V = WillV;

    open spec fn view(&self) -> WillV {
        WillV {
            qos: self.qos,
            retain: self.retain,
            properties: properties_view(self.properties),
            topic: self.topic@,
            payload: bytes_view(self.payload),
        }
    }
}

/// MQTT 5 CONNECT packet.
#[derive(Debug, Clone, PartialEq)]
pub struct ConnectPacket {
    /// Whether the server should start a fresh session.
    pub clean_start: bool,
    /// Keep-alive interval in seconds.
    pub keep_alive: u16,
    pub properties: Vec<MqttProperty>,
    pub client_id: String,
    /// Optional Will Message published by the server if the client disconnects unexpectedly.
    pub will: Option<Will>,
    pub username: Option<String>,
    pub password: Option<Bytes>,
}

/// The view of a CONNECT packet.
pub ghost struct ConnectV {
    pub clean_start: bool,
    pub keep_alive: u16,
    pub properties: Seq<PropertyV>,
    pub client_id: Seq<char>,
    pub will: Option<WillV>,
    pub username: Option<Seq<char>>,
    pub password: Option<Seq<u8>>,
}

impl View for ConnectPacket {
    type V = ConnectV;

    open spec fn view(&self) -> ConnectV {
        ConnectV {
            clean_start: self.clean_start,
            keep_alive: self.keep_alive,
            properties: properties_view(self.properties),
            client_id: self.client_id@,
            will: match self.will {
                Some(w) => Some(w@),
                None => None,
            },
            username: match self.username {
                Some(u) => Some(u@),
                None => None,
            },
            password: match self.password {
                Some(p) => Some(bytes_view(p)),
                None => None,
            },
        }
    }
}

/// MQTT 5 CONNACK packet.
#[derive(Debug, Clone, PartialEq)]
pub struct ConnAckPacket {
    /// Whether the server resumed an existing session.
    pub session_present: bool,
    pub reason_code: u8,
    pub properties: Vec<MqttProperty>,
}

/// The view of a CONNACK packet.
pub ghost struct ConnAckV {
    pub session_present: bool,
    pub reason_code: u8,
    pub properties: Seq<PropertyV>,
}

impl View for ConnAckPacket {
    type V = ConnAckV;

    open spec fn view(&self) -> ConnAckV {
        ConnAckV {
            session_present: self.session_present,
            reason_code: self.reason_code,
            properties: properties_view(self.properties),
        }
    }
}

/// MQTT 5 PUBLISH packet.
#[derive(Debug, Clone, PartialEq)]
pub struct PublishPacket {
    /// Duplicate delivery flag.
    pub dup: bool,
    pub qos: QoS,
    /// Whether the message should be retained by the broker.
    pub retain: bool,
    pub topic_name: String,
    /// Packet identifier for QoS 1/2 publishes.
    pub packet_id: Option<u16>,
    pub properties: Vec<MqttProperty>,
    pub payload: Bytes,
}

/// The view of a PUBLISH packet.
pub ghost struct PublishV {
    pub dup: bool,
    pub qos: QoS,
    pub retain: bool,
    pub topic_name: Seq<char>,
    pub packet_id: Option<u16>,
    pub properties: Seq<PropertyV>,
    pub payload: Seq<u8>,
}

impl View for PublishPacket {
    type V = PublishV;

    open spec fn view(&self) -> PublishV {
        PublishV {
            dup: self.dup,
            qos: self.qos,
            retain: self.retain,
            topic_name: self.topic_name@,
            packet_id: self.packet_id,
            properties: properties_view(self.properties),
            payload: bytes_view(self.payload),
        }
    }
}

/// Shared packet shape for PUBACK, PUBREC, PUBREL, and PUBCOMP.
#[derive(Debug, Clone, PartialEq)]
pub struct AckPacket {
    /// Non-zero packet identifier.
    pub packet_id: u16,
    pub reason_code: u8,
    pub properties: Vec<MqttProperty>,
}

/// The view of an acknowledgement packet.
pub ghost struct AckV {
    pub packet_id: u16,
    pub reason_code: u8,
    pub properties: Seq<PropertyV>,
}

impl View for AckPacket {
    type V = AckV;

    open spec fn view(&self) -> AckV {
        AckV {
            packet_id: self.packet_id,
            reason_code: self.reason_code,
            properties: properties_view(self.properties),
        }
    }
}

impl AckPacket {
    /// Creates an acknowledgement packet without properties.
    pub fn new(packet_id: u16, reason_code: u8) -> (r: Self)
        ensures
            r@ == (AckV { packet_id, reason_code, properties: Seq::empty() }),
    {
        let r = Self { packet_id, reason_code, properties: Vec::new() };
        assert(r@.properties =~= Seq::<PropertyV>::empty());
        r
    }
}

/// MQTT 5 SUBSCRIBE packet.
#[derive(Debug, Clone, PartialEq)]
pub struct SubscribePacket {
    /// Non-zero packet identifier.
    pub packet_id: u16,
    pub properties: Vec<MqttProperty>,
    pub subscriptions: Vec<Subscription>,
}

/// One topic filter in a SUBSCRIBE packet.
#[derive(Debug, Clone, PartialEq)]
pub struct Subscription {
    /// Topic filter, for example `sensors/+/temperature`.
    pub topic_filter: String,
    pub options: SubscriptionOptions,
}

/// Options attached to one MQTT subscription.
#[derive(Debug, Clone, Copy, PartialEq, Eq, Structural)]
pub struct SubscriptionOptions {
    /// Maximum QoS accepted for matching publications.
    pub maximum_qos: QoS,
    /// Whether messages published by this client should be excluded.
    pub no_local: bool,
    /// Whether retained messages preserve the original retain flag.
    pub retain_as_published: bool,
    /// Retain handling mode. Valid values are 0, 1, and 2.
    pub retain_handling: u8,
}

impl Default for SubscriptionOptions {
    /// QoS 0 with every flag off and retain handling 0.
    fn default() -> (r: Self)
        ensures
            r == (SubscriptionOptions {
                maximum_qos: QoS::AtMostOnce,
                no_local: false,
                retain_as_published: false,
                retain_handling: 0,
            }),
    {
        Self {
            maximum_qos: QoS::AtMostOnce,
            no_local: false,
            retain_as_published: false,
            retain_handling: 0,
        }
    }
}

/// The view of a subscription.
pub ghost struct SubscriptionV {
    pub topic_filter: Seq<char>,
    pub options: SubscriptionOptions,
}

impl View for Subscription {
    type V = SubscriptionV;

    open spec fn view(&self) -> SubscriptionV {
        SubscriptionV { topic_filter: self.topic_filter@, options: self.options }
    }
}

/// The view of a SUBSCRIBE packet.
pub ghost struct SubscribeV {
    pub packet_id: u16,
    pub properties: Seq<PropertyV>,
    pub subscriptions: Seq<SubscriptionV>,
}

impl View for SubscribePacket {
    type V = SubscribeV;

    open spec fn view(&self) -> SubscribeV {
        SubscribeV {
            packet_id: self.packet_id,
            properties: properties_view(self.properties),
            subscriptions: self.subscriptions@.map_values(|s: Subscription| s@),
        }
    }
}

/// MQTT 5 SUBACK packet.
#[derive(Debug, Clone, PartialEq)]
pub struct SubAckPacket {
    /// Non-zero packet identifier matching the SUBSCRIBE packet.
    pub packet_id: u16,
    pub properties: Vec<MqttProperty>,
    /// Reason code for each requested subscription.
    pub reason_codes: Vec<u8>,
}

/// The view of a SUBACK or UNSUBACK packet.
pub ghost struct CodesV {
    pub packet_id: u16,
    pub properties: Seq<PropertyV>,
    pub reason_codes: Seq<u8>,
}

impl View for SubAckPacket {
    type V = CodesV;

    open spec fn view(&self) -> CodesV {
        CodesV {
            packet_id: self.packet_id,
            properties: properties_view(self.properties),
            reason_codes: self.reason_codes@,
        }
    }
}

/// MQTT 5 UNSUBSCRIBE packet.
#[derive(Debug, Clone, PartialEq)]
pub struct UnsubscribePacket {
    /// Non-zero packet identifier.
    pub packet_id: u16,
    pub properties: Vec<MqttProperty>,
    pub topic_filters: Vec<String>,
}

/// The view of an UNSUBSCRIBE packet.
pub ghost struct UnsubscribeV {
    pub packet_id: u16,
    pub properties: Seq<PropertyV>,
    pub topic_filters: Seq<Seq<char>>,
}

impl View for UnsubscribePacket {
    type V = UnsubscribeV;

    open spec fn view(&self) -> UnsubscribeV {
        UnsubscribeV {
            packet_id: self.packet_id,
            properties: properties_view(self.properties),
            topic_filters: self.topic_filters@.map_values(|s: String| s@),
        }
    }
}

/// MQTT 5 UNSUBACK packet.
#[derive(Debug, Clone, PartialEq)]
pub struct UnsubAckPacket {
    /// Non-zero packet identifier matching the UNSUBSCRIBE packet.
    pub packet_id: u16,
    pub properties: Vec<MqttProperty>,
    /// Reason code for each requested unsubscription.
    pub reason_codes: Vec<u8>,
}

impl View for UnsubAckPacket {
    type V = CodesV;

    open spec fn view(&self) -> CodesV {
        CodesV {
            packet_id: self.packet_id,
            properties: properties_view(self.properties),
            reason_codes: self.reason_codes@,
        }
    }
}

/// MQTT 5 DISCONNECT packet.
#[derive(Debug, Clone, PartialEq)]
pub struct DisconnectPacket {
    /// Disconnect reason code. The default success code is 0.
    pub reason_code: u8,
    pub properties: Vec<MqttProperty>,
}

/// The view of a DISCONNECT or AUTH packet.
pub ghost struct ReasonV {
    pub reason_code: u8,
    pub properties: Seq<PropertyV>,
}

impl View for DisconnectPacket {
    type V = ReasonV;

    open spec fn view(&self) -> ReasonV {
        ReasonV { reason_code: self.reason_code, properties: properties_view(self.properties) }
    }
}

/// MQTT 5 AUTH packet.
#[derive(Debug, Clone, PartialEq)]
pub struct AuthPacket {
    /// Authentication reason code. The default success code is 0.
    pub reason_code: u8,
    pub properties: Vec<MqttProperty>,
}

impl View for AuthPacket {
    type V = ReasonV;

    open spec fn view(&self) -> ReasonV {
        ReasonV { reason_code: self.reason_code, properties: properties_view(self.properties) }
    }
}

/// MQTT 5 control packet decoded or encoded by [`super::MqttCodec`].
#[derive(Debug, Clone, PartialEq)]
pub enum MqttPacket {
    Connect(ConnectPacket),
    ConnAck(ConnAckPacket),
    Publish(PublishPacket),
    PubAck(AckPacket),
    PubRec(AckPacket),
    PubRel(AckPacket),
    PubComp(AckPacket),
    Subscribe(SubscribePacket),
    SubAck(SubAckPacket),
    Unsubscribe(UnsubscribePacket),
    UnsubAck(UnsubAckPacket),
    PingReq,
    PingResp,
    Disconnect(DisconnectPacket),
    Auth(AuthPacket),
}

/// The view of a control packet.
pub ghost enum PacketV {
    Connect(ConnectV),
    ConnAck(ConnAckV),
    Publish(PublishV),
    PubAck(AckV),
    PubRec(AckV),
    PubRel(AckV),
    PubComp(AckV),
    Subscribe(SubscribeV),
    SubAck(CodesV),
    Unsubscribe(UnsubscribeV),
    UnsubAck(CodesV),
    PingReq,
    PingResp,
    Disconnect(ReasonV),
    Auth(ReasonV),
}

impl View for MqttPacket {
    type V = PacketV;

    open spec fn view(&self) -> PacketV {
        match self {
            MqttPacket::Connect(p) => PacketV::Connect(p@),
            MqttPacket::ConnAck(p) => PacketV::ConnAck(p@),
            MqttPacket::Publish(p) => PacketV::Publish(p@),
            MqttPacket::PubAck(p) => PacketV::PubAck(p@),
            MqttPacket::PubRec(p) => PacketV::PubRec(p@),
            MqttPacket::PubRel(p) => PacketV::PubRel(p@),
            MqttPacket::PubComp(p) => PacketV::PubComp(p@),
            MqttPacket::Subscribe(p) => PacketV::Subscribe(p@),
            MqttPacket::SubAck(p) => PacketV::SubAck(p@),
            MqttPacket::Unsubscribe(p) => PacketV::Unsubscribe(p@),
            MqttPacket::UnsubAck(p) => PacketV::UnsubAck(p@),
            MqttPacket::PingReq => PacketV::PingReq,
            MqttPacket::PingResp => PacketV::PingResp,
            MqttPacket::Disconnect(p) => PacketV::Disconnect(p@),
            MqttPacket::Auth(p) => PacketV::Auth(p@),
        }
    }
}

} // verus!
