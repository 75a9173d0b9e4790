//! The Publish packet as the serializer sees it, and its wire form.
//!
//! Encoding and decoding are rumqttc's; what an encoded packet looks like is
//! stated here byte by byte, what a decoded stream yields is named.

use bytes::BytesMut;
use vstd::prelude::*;
use vstd::string::StringSliceAdditionalSpecFns;

verus! {

/// Delivery guarantee of a Publish.
#[derive(Debug, Clone, Copy, PartialEq, Eq, Structural)]
pub enum QoS {
    AtMostOnce,
    AtLeastOnce,
    ExactlyOnce,
}

/// A Publish packet.
#[derive(Debug, Clone, PartialEq, Eq)]
pub struct Publish {
    pub dup: bool,
    pub qos: QoS,
    pub retain: bool,
    pub topic: String,
    pub pkid: u16,
    pub payload: Vec<u8>,
}

/// What a Publish packet holds.
pub ghost struct PublishView {
    pub dup: bool,
    pub qos: QoS,
    pub retain: bool,
    pub topic: Seq<char>,
    pub pkid: u16,
    pub payload: Seq<u8>,
}

impl View for Publish {
    type V = PublishView;

    open spec fn view(&self) -> PublishView {
        PublishView {
            dup: self.dup,
            qos: self.qos,
            retain: self.retain,
            topic: self.topic@,
            pkid: self.pkid,
            payload: self.payload@,
        }
    }
}

/// The largest body that a packet's length field can announce.
pub const MAX_BODY: usize = 268_435_455;

/// The number that stands for a delivery guarantee on the wire.
pub open spec fn qos_level(qos: QoS) -> int {
    match qos {
        QoS::AtMostOnce => 0,
        QoS::AtLeastOnce => 1,
        QoS::ExactlyOnce => 2,
    }
}

/// A flag as a bit.
pub open spec fn bit(flag: bool) -> int {
    if flag {
        1
    } else {
        0
    }
}

/// The two bytes of a 16-bit field, high byte first; a larger number is cut
/// to its low 16 bits.
pub open spec fn be16(n: int) -> Seq<u8> {
    seq![((n / 256) % 256) as u8, (n % 256) as u8]
}

/// A length in the packet header: seven bits to a byte, low bits first, the
/// top bit set on every byte but the last.
pub open spec fn length_field(n: nat) -> Seq<u8>
    decreases n,
{
    if n < 128 {
        seq![n as u8]
    } else {
        seq![(n % 128 + 128) as u8] + length_field(n / 128)
    }
}

/// The topic as it goes on the wire.
pub open spec fn topic_bytes(publish: PublishView) -> Seq<u8> {
    vstd::utf8::encode_utf8(publish.topic)
}

/// The length that a packet's header announces for what follows it.
pub open spec fn body_len(publish: PublishView) -> nat {
    let plain = 2 + topic_bytes(publish).len() + publish.payload.len();
    if publish.qos != QoS::AtMostOnce && publish.pkid != 0 {
        (plain + 2) as nat
    } else {
        plain as nat
    }
}

/// Whether a packet can be encoded: its body fits the length field, and it
/// carries a packet identifier if it asks for acknowledgement.
pub open spec fn encodable(publish: PublishView) -> bool {
    &&& body_len(publish) <= MAX_BODY
    &&& publish.qos != QoS::AtMostOnce ==> publish.pkid != 0
}

/// The wire form of a Publish packet.
pub open spec fn frame(publish: PublishView) -> Seq<u8> {
    seq![(48 + bit(publish.retain) + 2 * qos_level(publish.qos) + 8 * bit(publish.dup)) as u8]
        + length_field(body_len(publish)) + be16(topic_bytes(publish).len() as int)
        + topic_bytes(publish) + (if publish.qos != QoS::AtMostOnce {
        be16(publish.pkid as int)
    } else {
        Seq::<u8>::empty()
    }) + publish.payload
}

/// What rumqttc reads off the head of `stream` when it accepts bodies of up
/// to `max_size` bytes: the Publish packet found there, if it finds one, and
/// the bytes that it leaves in the stream.
pub uninterp spec fn read_packet(stream: Seq<u8>, max_size: usize) -> (
    Option<PublishView>,
    Seq<u8>,
);

/// Whether a packet that was written is read back as it was, by a reader
/// that takes bodies of up to `max_size` bytes: the packet can be encoded,
/// it carries a packet identifier only if it asks for acknowledgement, the
/// length of its topic fits the two bytes that announce it, and its body is
/// within `max_size`.
pub open spec fn readable(publish: PublishView, max_size: usize) -> bool {
    &&& encodable(publish)
    &&& publish.qos == QoS::AtMostOnce ==> publish.pkid == 0
    &&& topic_bytes(publish).len() <= 65_535
    &&& body_len(publish) <= max_size
}

/// Whether `found` and `left` are what a read of `stream` owes to a written
/// packet: where the wire form of a readable packet stands at the head of
/// `stream`, that packet is found, and what follows it is left.
pub open spec fn reads_back(
    stream: Seq<u8>,
    max_size: usize,
    found: Option<PublishView>,
    left: Seq<u8>,
) -> bool {
    forall|publish: PublishView, rest: Seq<u8>|
        #![trigger frame(publish) + rest]
        stream == frame(publish) + rest && readable(publish, max_size) ==> found == Some(publish)
            && left == rest
}

/// The view of a packet that may be absent.
pub open spec fn view_of(publish: Option<Publish>) -> Option<PublishView> {
    match publish {
        Some(p) => Some(p@),
        None => None,
    }
}

/// `rumqttc::Publish::write`, into a buffer of its own: the packet's wire
/// form, or nothing exactly if the packet cannot be encoded. Topic and
/// payload are kept so small that their lengths add up without overflow.
#[verifier::external_body]
fn write_publish(publish: &Publish) -> (written: Option<Vec<u8>>)
    requires
        topic_bytes(publish@).len() <= MAX_BODY,
        publish@.payload.len() <= MAX_BODY,
    ensures
        written is Some <==> encodable(publish@),
        written matches Some(bytes) ==> bytes@ == frame(publish@),
{
    let qos = match publish.qos {
        QoS::AtMostOnce => rumqttc::QoS::AtMostOnce,
        QoS::AtLeastOnce => rumqttc::QoS::AtLeastOnce,
        QoS::ExactlyOnce => rumqttc::QoS::ExactlyOnce,
    };
    let mut packet = rumqttc::Publish::new(publish.topic.as_str(), qos, publish.payload.clone());
    packet.dup = publish.dup;
    packet.retain = publish.retain;
    packet.pkid = publish.pkid;
    let mut buffer = BytesMut::new();
    packet.write(&mut buffer).ok().map(|_| buffer.to_vec())
}

/// `rumqttc::Packet::read`: takes one packet off the head of `stream` and
/// hands it out if it is a Publish. What `rumqttc::Publish::write` has
/// written for a readable packet is read back as that packet, and what
/// follows it is left in the stream.
#[verifier::external_body]
pub(crate) fn read_publish(stream: &mut Vec<u8>, max_size: usize) -> (publish: Option<Publish>)
    ensures
        (view_of(publish), final(stream)@) == read_packet(old(stream)@, max_size),
        reads_back(old(stream)@, max_size, view_of(publish), final(stream)@),
{
    let mut buffer = BytesMut::from(&stream[..]);
    let packet = rumqttc::Packet::read(&mut buffer, max_size);
    *stream = buffer.to_vec();
    let Ok(rumqttc::Packet::Publish(p)) = packet else { return None };
    let qos = match p.qos {
        rumqttc::QoS::AtMostOnce => QoS::AtMostOnce,
        rumqttc::QoS::AtLeastOnce => QoS::AtLeastOnce,
        rumqttc::QoS::ExactlyOnce => QoS::ExactlyOnce,
    };
    let payload = p.payload.to_vec();
    Some(Publish { dup: p.dup, qos, retain: p.retain, topic: p.topic, pkid: p.pkid, payload })
}

impl Publish {
    /// The wire form of the packet; nothing exactly if the packet cannot be
    /// encoded.
    pub fn encode(&self) -> (written: Option<Vec<u8>>)
        ensures
            written is Some <==> encodable(self@),
            written matches Some(bytes) ==> bytes@ == frame(self@),
    {
        if self.topic.as_str().as_bytes().len() > MAX_BODY || self.payload.len() > MAX_BODY {
            return None;
        }
        write_publish(self)
    }

    /// A packet for `topic` that is no duplicate, is not retained and has no
    /// packet identifier yet.
    pub fn new(topic: String, qos: QoS, payload: Vec<u8>) -> (publish: Publish)
        ensures
            publish@ == (PublishView {
                dup: false,
                qos,
                retain: false,
                topic: topic@,
                pkid: 0,
                payload: payload@,
            }),
    {
        Publish { dup: false, qos, retain: false, topic, pkid: 0, payload }
    }
}

} // verus!
