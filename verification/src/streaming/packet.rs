//! The wire-level packet moved through the Streaming Engine: an opaque,
//! already Opus-encoded payload plus the metadata used for ordering,
//! deduplication and diagnostics.

use vstd::prelude::*;

use crate::clock::millis_since_unix_epoch;
use crate::streaming::error::StreamingError;

verus! {

/// Bit flags describing special characteristics of an [`AudioPacket`],
/// kept as a plain `u8` bitfield.
#[derive(Debug, Clone, Copy, PartialEq, Eq, Structural, Default)]
pub struct PacketFlags(pub u8);

impl PacketFlags {
    /// No flags set.
    pub const NONE: u8 = 0;
    /// A packet that can be decoded independently.
    pub const KEYFRAME: u8 = 1;
    /// A packet resent after a delivery failure or a NACK.
    pub const RETRANSMIT: u8 = 2;
    /// The final packet of a stream/session.
    pub const END_OF_STREAM: u8 = 4;
    /// A packet that encodes silence.
    pub const SILENCE: u8 = 8;

    /// An empty flag set.
    pub fn new() -> (r: Self)
        ensures
            r.0 == 0,
    {
        PacketFlags(0)
    }

    /// `true` if every bit of `flag` is set.
    pub fn contains(self, flag: u8) -> (r: bool)
        ensures
            r == (self.0 & flag == flag),
    {
        self.0 & flag == flag
    }

    /// Sets the bits of `flag`.
    pub fn set(&mut self, flag: u8)
        ensures
            final(self).0 == old(self).0 | flag,
    {
        self.0 = self.0 | flag;
    }

    /// Clears the bits of `flag`.
    pub fn clear(&mut self, flag: u8)
        ensures
            final(self).0 == old(self).0 & !flag,
    {
        self.0 = self.0 & !flag;
    }
}

/// After `set(flag)`, the set contains `flag`.
pub proof fn lemma_set_then_contains(bits: u8, flag: u8)
    ensures
        (bits | flag) & flag == flag,
{
    assert((bits | flag) & flag == flag) by (bit_vector);
}

/// After `clear(flag)` of a non-empty `flag`, the set no longer contains it.
pub proof fn lemma_clear_then_not_contains(bits: u8, flag: u8)
    requires
        flag != 0,
    ensures
        (bits & !flag) & flag != flag,
{
    assert(flag != 0 ==> (bits & !flag) & flag != flag) by (bit_vector);
}

/// Setting or clearing `flag` leaves every flag `other` that shares no
/// bit with it as it was.
pub proof fn lemma_disjoint_flags_independent(bits: u8, flag: u8, other: u8)
    requires
        flag & other == 0,
    ensures
        ((bits | flag) & other == other) == (bits & other == other),
        ((bits & !flag) & other == other) == (bits & other == other),
{
    assert(flag & other == 0 ==> (((bits | flag) & other == other) == (bits & other == other)))
        by (bit_vector);
    assert(flag & other == 0 ==> (((bits & !flag) & other == other) == (bits & other == other)))
        by (bit_vector);
}

/// A single unit of audio flowing through the Streaming Engine.
#[derive(Debug, PartialEq, Eq)]
pub struct AudioPacket {
    /// Identifier of this packet instance (a retransmission may get a new one).
    pub packet_id: u64,
    /// Sequence number within a session.
    pub sequence_number: u64,
    /// Capture timestamp, in milliseconds since the Unix epoch.
    pub timestamp_ms: u64,
    /// The Opus-encoded payload.
    pub opus_data: Vec<u8>,
    /// Size of `opus_data`, in bytes.
    pub packet_size: usize,
    /// Special characteristics of this packet.
    pub flags: PacketFlags,
    /// The participant that produced the packet.
    pub sender_id: String,
    /// The synchronization session the packet belongs to.
    pub session_id: String,
}

/// The plain contents of an [`AudioPacket`].
pub struct AudioPacketView {
    pub packet_id: u64,
    pub sequence_number: u64,
    pub timestamp_ms: u64,
    pub opus_data: Seq<u8>,
    pub packet_size: usize,
    pub flags: u8,
    pub sender_id: Seq<char>,
    pub session_id: Seq<char>,
}

impl View for AudioPacket {
    type V = AudioPacketView;

    open spec fn view(&self) -> AudioPacketView {
        AudioPacketView {
            packet_id: self.packet_id,
            sequence_number: self.sequence_number,
            timestamp_ms: self.timestamp_ms,
            opus_data: self.opus_data@,
            packet_size: self.packet_size,
            flags: self.flags.0,
            sender_id: self.sender_id@,
            session_id: self.session_id@,
        }
    }
}

impl Clone for AudioPacket {
    /// A copy with the same contents.
    fn clone(&self) -> (r: Self)
        ensures
            r@ == self@,
    {
        let opus_data = self.opus_data.clone();
        assert(opus_data@ =~= self.opus_data@);
        AudioPacket {
            packet_id: self.packet_id,
            sequence_number: self.sequence_number,
            timestamp_ms: self.timestamp_ms,
            opus_data,
            packet_size: self.packet_size,
            flags: self.flags,
            sender_id: self.sender_id.clone(),
            session_id: self.session_id.clone(),
        }
    }
}

/// The wall-clock time in milliseconds since the Unix epoch, truncated to
/// 64 bits as `as u64` does; `0` when the clock reads before the epoch.
fn current_timestamp_ms() -> (r: u64) {
    match millis_since_unix_epoch() {
        Some(ms) => ms as u64,
        None => 0,
    }
}

impl AudioPacket {
    /// Creates a packet stamped with `timestamp_ms`, its size taken from
    /// `opus_data`. Fails with `PacketTooLarge` when the payload exceeds
    /// `max_packet_size_bytes`.
    pub fn new_at(
        packet_id: u64,
        sequence_number: u64,
        opus_data: Vec<u8>,
        flags: PacketFlags,
        sender_id: &str,
        session_id: &str,
        max_packet_size_bytes: usize,
        timestamp_ms: u64,
    ) -> (r: Result<Self, StreamingError>)
        ensures
            opus_data.len() > max_packet_size_bytes <==> r is Err,
            r matches Err(e) ==> e == (StreamingError::PacketTooLarge {
                max: max_packet_size_bytes,
                actual: opus_data.len(),
            }),
            r matches Ok(p) ==> {
                &&& p.packet_id == packet_id
                &&& p.sequence_number == sequence_number
                &&& p.timestamp_ms == timestamp_ms
                &&& p.opus_data == opus_data
                &&& p.packet_size == opus_data.len()
                &&& p.flags == flags
                &&& p.sender_id@ == sender_id@
                &&& p.session_id@ == session_id@
            },
    {
        let packet_size = opus_data.len();
        if packet_size > max_packet_size_bytes {
            return Err(StreamingError::PacketTooLarge { max: max_packet_size_bytes, actual: packet_size });
        }
        Ok(AudioPacket {
            packet_id,
            sequence_number,
            timestamp_ms,
            opus_data,
            packet_size,
            flags,
            sender_id: sender_id.to_owned(),
            session_id: session_id.to_owned(),
        })
    }

    /// Creates a packet stamped with the current wall-clock time (see
    /// [`AudioPacket::new_at`]), its size taken from `opus_data`. Fails with
    /// `PacketTooLarge` when the payload exceeds `max_packet_size_bytes`.
    pub fn new(
        packet_id: u64,
        sequence_number: u64,
        opus_data: Vec<u8>,
        flags: PacketFlags,
        sender_id: &str,
        session_id: &str,
        max_packet_size_bytes: usize,
    ) -> (r: Result<Self, StreamingError>)
        ensures
            opus_data.len() > max_packet_size_bytes <==> r is Err,
            r matches Err(e) ==> e == (StreamingError::PacketTooLarge {
                max: max_packet_size_bytes,
                actual: opus_data.len(),
            }),
            r matches Ok(p) ==> {
                &&& p.packet_id == packet_id
                &&& p.sequence_number == sequence_number
                &&& p.opus_data == opus_data
                &&& p.packet_size == opus_data.len()
                &&& p.flags == flags
                &&& p.sender_id@ == sender_id@
                &&& p.session_id@ == session_id@
            },
    {
        let timestamp_ms = current_timestamp_ms();
        AudioPacket::new_at(
            packet_id,
            sequence_number,
            opus_data,
            flags,
            sender_id,
            session_id,
            max_packet_size_bytes,
            timestamp_ms,
        )
    }
}

} // verus!
