//! Telemetry frame format shared between producers and the ingestion
//! pipeline. Frames are one 64-byte record, `Copy`, so they can live in a
//! ring buffer without serialisation. Scalar lanes are carried as their IEEE
//! 754 binary64 bit patterns.
use vstd::prelude::*;

verus! {

/// Sensor channel identifiers.
#[derive(Clone, Copy, Debug, PartialEq, Eq, Structural)]
pub enum Channel {
    /// Type-N thermocouple, 10 kHz.
    ThermocoupleN,
    /// Fiber-Bragg-grating strain sensor, 10 kHz.
    FbgStrain,
    /// CCD spectrometer bin block.
    CcdSpectrometer,
    /// Any other scalar diagnostic.
    Other,
}

/// The one-byte wire tag of a channel.
pub open spec fn tag_of(c: Channel) -> u8 {
    match c {
        Channel::ThermocoupleN => 1,
        Channel::FbgStrain => 2,
        Channel::CcdSpectrometer => 3,
        Channel::Other => 255,
    }
}

impl Channel {
    /// The one-byte wire tag of this channel (`1`, `2`, `3`, or `255`).
    pub fn tag(self) -> (r: u8)
        ensures
            r == tag_of(self),
            self == Channel::ThermocoupleN ==> r == 1,
            self == Channel::FbgStrain ==> r == 2,
            self == Channel::CcdSpectrometer ==> r == 3,
            self == Channel::Other ==> r == 255,
    {
        match self {
            Channel::ThermocoupleN => 1,
            Channel::FbgStrain => 2,
            Channel::CcdSpectrometer => 3,
            Channel::Other => 255,
        }
    }

    /// The channel with a given wire tag; unknown tags are `Other`.
    pub open spec fn from_tag_spec(tag: u8) -> Channel {
        if tag == 1 {
            Channel::ThermocoupleN
        } else if tag == 2 {
            Channel::FbgStrain
        } else if tag == 3 {
            Channel::CcdSpectrometer
        } else {
            Channel::Other
        }
    }

    /// The channel with a given wire tag; unknown tags are `Other`.
    pub fn from_tag(tag: u8) -> (r: Channel)
        ensures
            r == Channel::from_tag_spec(tag),
            tag == 1 ==> r == Channel::ThermocoupleN,
            tag == 2 ==> r == Channel::FbgStrain,
            tag == 3 ==> r == Channel::CcdSpectrometer,
            (tag != 1 && tag != 2 && tag != 3) ==> r == Channel::Other,
    {
        if tag == 1 {
            Channel::ThermocoupleN
        } else if tag == 2 {
            Channel::FbgStrain
        } else if tag == 3 {
            Channel::CcdSpectrometer
        } else {
            Channel::Other
        }
    }
}

/// Scalar payload lanes in a [`Frame`].
pub const FRAME_VALUES: usize = 5;

/// Bytes of one frame in a ring region (one cache line).
pub const FRAME_BYTES: usize = 64;

/// One telemetry frame.
///
/// * `timestamp_ns` — producer clock at sample time (monotonic ns).
/// * `seq` — per-channel sequence counter, gap-checked by the consumer.
/// * `values` — up to 5 scalar lanes as binary64 bit patterns.
#[derive(Clone, Copy, Debug, PartialEq)]
pub struct Frame {
    /// Sequence number within the channel.
    pub seq: u64,
    /// Monotonic timestamp [ns].
    pub timestamp_ns: u64,
    /// Source channel.
    pub channel: Channel,
    /// Channel-specific flags.
    pub flags: u8,
    /// Lane count actually populated (≤ [`FRAME_VALUES`]).
    pub lanes: u8,
    /// Reserved, zeroed.
    pub reserved: u8,
    /// CRC or transport tag (0 when unused).
    pub crc: u32,
    /// Scalar payload (binary64 bit patterns).
    pub values: [u64; 5],
}

impl Frame {
    /// Zeroed frame.
    pub fn zero() -> (r: Frame)
        ensures
            r.seq == 0,
            r.timestamp_ns == 0,
            r.channel == Channel::Other,
            r.flags == 0,
            r.lanes == 0,
            r.reserved == 0,
            r.crc == 0,
            forall|i: int| 0 <= i < 5 ==> r.values[i] == 0,
    {
        Frame {
            seq: 0,
            timestamp_ns: 0,
            channel: Channel::Other,
            flags: 0,
            lanes: 0,
            reserved: 0,
            crc: 0,
            values: [0u64, 0u64, 0u64, 0u64, 0u64],
        }
    }

    /// Constructs a single-lane scalar sample from the value's binary64 bit
    /// pattern.
    pub fn scalar(channel: Channel, seq: u64, timestamp_ns: u64, value_bits: u64) -> (r: Frame)
        ensures
            r.channel == channel,
            r.seq == seq,
            r.timestamp_ns == timestamp_ns,
            r.lanes == 1,
            r.flags == 0,
            r.reserved == 0,
            r.crc == 0,
            r.values[0] == value_bits,
            forall|i: int| 1 <= i < 5 ==> r.values[i] == 0,
    {
        let mut f = Frame::zero();
        f.channel = channel;
        f.seq = seq;
        f.timestamp_ns = timestamp_ns;
        f.lanes = 1;
        f.values.set(0, value_bits);
        f
    }

    /// Builds a frame from a channel tag and up to [`FRAME_VALUES`] lanes
    /// (binary64 bit patterns); lanes beyond the fifth are ignored.
    pub fn from_lanes(channel_tag: u8, seq: u64, timestamp_ns: u64, lanes: &[u64]) -> (r: Frame)
        ensures
            r.channel == Channel::from_tag_spec(channel_tag),
            r.seq == seq,
            r.timestamp_ns == timestamp_ns,
            r.lanes == if lanes@.len() < 5 { lanes@.len() } else { 5 },
            r.flags == 0,
            r.reserved == 0,
            r.crc == 0,
            forall|i: int| 0 <= i < r.lanes ==> r.values[i] == lanes@[i],
            forall|i: int| r.lanes <= i < 5 ==> r.values[i] == 0,
    {
        let mut f = Frame::zero();
        f.channel = Channel::from_tag(channel_tag);
        f.seq = seq;
        f.timestamp_ns = timestamp_ns;
        let n = if lanes.len() < FRAME_VALUES {
            lanes.len()
        } else {
            FRAME_VALUES
        };
        let mut i: usize = 0;
        while i < n
            invariant
                n <= 5,
                n <= lanes@.len(),
                i <= n,
                forall|j: int| 0 <= j < i ==> f.values[j] == lanes@[j],
                forall|j: int| i <= j < 5 ==> f.values[j] == 0,
                f.channel == Channel::from_tag_spec(channel_tag),
                f.seq == seq,
                f.timestamp_ns == timestamp_ns,
                f.flags == 0,
                f.reserved == 0,
                f.crc == 0,
            decreases n - i,
        {
            f.values.set(i, lanes[i]);
            i = i + 1;
        }
        f.lanes = n as u8;
        f
    }
}

} // verus!

verus! {

/// Tags and channels correspond: decoding a channel's tag gives the channel
/// back, and every known tag is the tag of the channel it decodes to.
pub proof fn law_tag_round_trip(c: Channel, tag: u8)
    ensures
        Channel::from_tag_spec(tag_of(c)) == c,
        (tag == 1 || tag == 2 || tag == 3 || tag == 255) ==> tag_of(Channel::from_tag_spec(tag))
            == tag,
{
}

/// The wire tags are fixed numbers: a type-N thermocouple is tag 1, FBG strain
/// tag 2, the CCD spectrometer tag 3 and any other channel tag 255. Decoding
/// gives the thermocouple, strain or spectrometer channel exactly for tags 1,
/// 2 and 3, and `Other` for every other byte.
pub proof fn law_wire_tags(tag: u8)
    ensures
        tag_of(Channel::ThermocoupleN) == 1,
        tag_of(Channel::FbgStrain) == 2,
        tag_of(Channel::CcdSpectrometer) == 3,
        tag_of(Channel::Other) == 255,
        Channel::from_tag_spec(tag) == Channel::ThermocoupleN <==> tag == 1,
        Channel::from_tag_spec(tag) == Channel::FbgStrain <==> tag == 2,
        Channel::from_tag_spec(tag) == Channel::CcdSpectrometer <==> tag == 3,
        Channel::from_tag_spec(tag) == Channel::Other <==> (tag != 1 && tag != 2 && tag != 3),
{
}

} // verus!
