//! Framing of MQTT packets in a stream of bytes.
//!
//! The codec cuts a buffer into packets by their fixed header, which
//! rumq_core reads, and appends what rumq_core writes for a packet.
//!
//! rumq_core counts the length field in machine words and gives a field
//! up only after it has taken in a fifth byte; where a word has 32 bits that
//! count overflows. The codec therefore turns such a field down itself and
//! never shows rumq_core a fifth byte.

use rumq_core::mqtt4::{MqttRead, MqttWrite, Packet};
use vstd::prelude::*;

verus! {

/// `rumq_core::mqtt4::Packet`, taken as it is: the codec passes packets on
/// and does not look into them.
#[verifier::external_type_specification]
#[verifier::external_body]
pub struct ExPacket(Packet);

/// Why the codec gave up on its input.
#[derive(Debug, Clone, Copy, PartialEq, Eq, Structural)]
pub enum CodecError {
    /// The length field of a packet's header runs on beyond its fourth byte.
    Malformed,
    /// The packet cannot be written.
    Unencodable,
}

/// What stands at the head of a buffer.
#[derive(Debug, Clone, Copy, PartialEq, Eq, Structural)]
pub enum Header {
    /// The buffer ends before the header does.
    Short,
    /// The length field runs on beyond its fourth byte.
    Malformed,
    /// A header: the packet's first byte, and the length that it announces
    /// for what follows the header.
    Complete(u8, usize),
}

/// The weight of the byte of a length field that comes after `before`
/// others.
pub open spec fn weight(before: int) -> int {
    if before <= 0 {
        1
    } else if before == 1 {
        128
    } else if before == 2 {
        16_384
    } else {
        2_097_152
    }
}

/// The length field of a header, read from its byte after `before` others
/// on: seven bits to a byte, low bits first, a set top bit on every byte
/// but the last. The packet's first byte is passed through.
pub open spec fn length_from(bytes: Seq<u8>, before: int) -> Header
    decreases 5 - before,
{
    if before < 0 || 1 + before >= bytes.len() {
        Header::Short
    } else if before >= 4 {
        Header::Malformed
    } else if bytes[1 + before] < 128 {
        Header::Complete(bytes[0], (bytes[1 + before] * weight(before)) as usize)
    } else {
        match length_from(bytes, before + 1) {
            Header::Complete(first, rest) => Header::Complete(
                first,
                ((bytes[1 + before] - 128) * weight(before) + rest) as usize,
            ),
            other => other,
        }
    }
}

/// The header at the head of `bytes`.
pub open spec fn header(bytes: Seq<u8>) -> Header {
    length_from(bytes, 0)
}

/// The number of bytes that the header of a packet takes which announces
/// `remaining` bytes to follow.
pub open spec fn header_size(remaining: usize) -> usize {
    if remaining >= 2_097_152 {
        5
    } else if remaining >= 16_384 {
        4
    } else if remaining >= 128 {
        3
    } else {
        2
    }
}

/// A length field that is read without fault announces less than 2^28
/// bytes.
pub proof fn lemma_length_bounded(bytes: Seq<u8>, before: int)
    requires
        0 <= before <= 4,
    ensures
        length_from(bytes, before) matches Header::Complete(_, n) ==> n + weight(before)
            <= 268_435_456int,
    decreases 5 - before,
{
    if 1 + before < bytes.len() && before < 4 && bytes[1 + before] >= 128 {
        lemma_length_bounded(bytes, before + 1);
    }
}

/// Whether the length field at the head of `bytes` runs on into a fifth
/// byte that is there.
pub open spec fn overlong(bytes: Seq<u8>) -> bool {
    bytes.len() >= 6 && bytes[1] >= 128 && bytes[2] >= 128 && bytes[3] >= 128 && bytes[4] >= 128
}

/// A length field that runs on into a fifth byte is malformed, and no other
/// is.
pub proof fn lemma_overlong_is_malformed(bytes: Seq<u8>)
    ensures
        overlong(bytes) <==> header(bytes) is Malformed,
{
    reveal_with_fuel(length_from, 6);
}

/// `MqttRead::read_packet_type_and_remaining_length` on a buffer: the
/// packet's first byte and the value of the length field behind it, for a
/// buffer whose length field ends with its fourth byte or with the buffer.
#[verifier::external_body]
fn read_header(bytes: &[u8]) -> (read: Header)
    requires
        !overlong(bytes@),
    ensures
        read == header(bytes@),
{
    let mut reader = bytes;
    match reader.read_packet_type_and_remaining_length() {
        Ok((first, remaining)) => Header::Complete(first, remaining),
        Err(rumq_core::Error::Io(_)) => Header::Short,
        Err(_) => Header::Malformed,
    }
}

/// `MqttRead::header_len`: the size of the header that announces
/// `remaining` bytes.
#[verifier::external_body]
fn header_len(remaining: usize) -> (size: usize)
    ensures
        size == header_size(remaining),
{
    let reader: &[u8] = &[];
    reader.header_len(remaining)
}

/// `MqttWrite::mqtt_write` into a buffer of its own; nothing where
/// rumq_core reports an error. What is written begins with a packet's first
/// byte and one byte of length at the least.
#[verifier::external_body]
fn write_packet(packet: &Packet) -> (written: Option<Vec<u8>>)
    ensures
        written matches Some(bytes) ==> bytes@.len() >= 2,
{
    let mut bytes: Vec<u8> = Vec::new();
    bytes.mqtt_write(packet).ok().map(|_| bytes)
}

/// Cuts a stream of bytes into MQTT packets, and writes packets out.
#[derive(Debug)]
pub struct MqttCodec;

/// The size of the packet whose header stands at the head of `bytes`.
pub open spec fn frame_size(bytes: Seq<u8>) -> int {
    match header(bytes) {
        Header::Complete(_, remaining) => header_size(remaining) + remaining,
        _ => 0,
    }
}

/// Whether a whole packet stands at the head of `bytes`.
pub open spec fn framed(bytes: Seq<u8>) -> bool {
    bytes.len() >= 2 && header(bytes) is Complete && bytes.len() >= frame_size(bytes)
}

impl MqttCodec {
    /// A codec. It keeps no state between calls.
    pub fn new() -> (codec: Self) {
        MqttCodec
    }

    /// Takes the packet at the head of `buf` out of it. Nothing is taken
    /// while the packet has not arrived in full; a header that cannot be
    /// read is an error.
    pub fn decode(&mut self, buf: &mut Vec<u8>) -> (decoded: Result<Option<Vec<u8>>, CodecError>)
        ensures
            match decoded {
                Ok(Some(packet)) => {
                    &&& framed(old(buf)@)
                    &&& packet@ == old(buf)@.subrange(0, frame_size(old(buf)@))
                    &&& final(buf)@ == old(buf)@.subrange(
                        frame_size(old(buf)@),
                        old(buf)@.len() as int,
                    )
                },
                Ok(None) => {
                    &&& !framed(old(buf)@)
                    &&& old(buf)@.len() < 2 || !(header(old(buf)@) is Malformed)
                    &&& final(buf)@ == old(buf)@
                },
                Err(e) => {
                    &&& e == CodecError::Malformed
                    &&& old(buf)@.len() >= 2
                    &&& header(old(buf)@) is Malformed
                    &&& final(buf)@ == old(buf)@
                },
            },
    {
        if buf.len() < 2 {
            return Ok(None);
        }
        proof {
            lemma_overlong_is_malformed(buf@);
        }
        if buf.len() >= 6 && buf[1] >= 128 && buf[2] >= 128 && buf[3] >= 128 && buf[4] >= 128 {
            return Err(CodecError::Malformed);
        }
        let remaining = match read_header(buf.as_slice()) {
            Header::Complete(_, remaining) => remaining,
            Header::Short => {
                return Ok(None);
            },
            Header::Malformed => {
                return Err(CodecError::Malformed);
            },
        };
        proof {
            lemma_length_bounded(buf@, 0);
        }
        let len = header_len(remaining) + remaining;
        if buf.len() < len {
            return Ok(None);
        }
        let mut packet = buf.split_off(len);
        std::mem::swap(buf, &mut packet);
        Ok(Some(packet))
    }

    /// Appends what was written for a packet to `buf`; a packet for which
    /// nothing was written is an error and leaves `buf` as it is.
    pub fn append(written: Option<Vec<u8>>, buf: &mut Vec<u8>) -> (appended: Result<(), CodecError>)
        ensures
            match written {
                Some(bytes) => appended is Ok && final(buf)@ == old(buf)@ + bytes@,
                None => appended == Err::<(), CodecError>(CodecError::Unencodable) && final(buf)@
                    == old(buf)@,
            },
    {
        match written {
            Some(mut bytes) => {
                buf.append(&mut bytes);
                Ok(())
            },
            None => Err(CodecError::Unencodable),
        }
    }

    /// Appends the bytes of `msg`, which are two or more, to `buf`. A
    /// packet that cannot be written leaves `buf` as it is.
    pub fn encode(&mut self, msg: &Packet, buf: &mut Vec<u8>) -> (encoded: Result<(), CodecError>)
        ensures
            old(buf)@.is_prefix_of(final(buf)@),
            encoded is Ok ==> final(buf)@.len() >= old(buf)@.len() + 2,
            encoded matches Err(e) ==> e == CodecError::Unencodable && final(buf)@ == old(buf)@,
    {
        MqttCodec::append(write_packet(msg), buf)
    }
}

} // verus!
