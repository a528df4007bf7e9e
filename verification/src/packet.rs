//! The USRP frame and its wire codec.
//!
//! A frame is a 32-byte header, alone (a control frame) or followed by 160 samples of
//! 8 kHz mono audio (a voice frame, 352 bytes). The header is the tag `USRP` and seven
//! 32-bit fields. Six of them are big-endian. The packet type, at offset 20, is
//! little-endian: the radio side reads and writes it so, and the codec does the same in
//! both directions. The samples are little-endian.
use crate::endian::{
    be_u32, be_u32_bytes, le_i16_bytes, le_i16_seq, le_u32, le_u32_bytes, lemma_be_u32_round_trip,
    lemma_le_i16_round_trip, lemma_le_u32_round_trip, read_i16_into, write_i16_into,
};
use byteorder::{ByteOrder, LittleEndian, NetworkEndian};
use vstd::prelude::*;
use vstd::std_specs::convert::FromSpecImpl;

verus! {

/// Length of the header, and of a control frame.
pub const HEADER_LEN: usize = 32;

/// Number of samples in a voice frame: 20 ms at 8 kHz.
pub const AUDIO_SAMPLES: usize = 160;

/// Length of a voice frame.
pub const VOICE_LEN: usize = 352;

/// What a frame carries.
#[derive(Copy, Clone, Debug, PartialEq, Eq, Structural)]
pub enum PacketType {
    Voice,
    DualToneMultiFrequency,
    Text,
}

impl PacketType {
    /// The number that stands for the type on the wire.
    pub open spec fn code(self) -> u32 {
        match self {
            PacketType::Voice => 0,
            PacketType::DualToneMultiFrequency => 1,
            PacketType::Text => 2,
        }
    }

    /// The type that `value` names, if it names one.
    pub open spec fn recognized(value: u32) -> Option<PacketType> {
        if value == 0 {
            Some(PacketType::Voice)
        } else if value == 1 {
            Some(PacketType::DualToneMultiFrequency)
        } else if value == 2 {
            Some(PacketType::Text)
        } else {
            None
        }
    }

    /// The type that `value` names, with every unknown number taken for voice.
    pub open spec fn lenient(value: u32) -> PacketType {
        match PacketType::recognized(value) {
            Some(t) => t,
            None => PacketType::Voice,
        }
    }

    /// The type that `value` names, or `None` for a number that names none.
    pub fn recognize(value: u32) -> (r: Option<PacketType>)
        ensures
            r == PacketType::recognized(value),
    {
        if value == 0 {
            Some(PacketType::Voice)
        } else if value == 1 {
            Some(PacketType::DualToneMultiFrequency)
        } else if value == 2 {
            Some(PacketType::Text)
        } else {
            None
        }
    }
}

impl From<u32> for PacketType {
    /// Unknown numbers are taken for voice, so that a peer with a newer vocabulary
    /// is still heard.
    fn from(value: u32) -> (t: PacketType) {
        match PacketType::recognize(value) {
            Some(t) => t,
            None => PacketType::Voice,
        }
    }
}

impl FromSpecImpl<u32> for PacketType {
    open spec fn obeys_from_spec() -> bool {
        true
    }

    open spec fn from_spec(value: u32) -> PacketType {
        PacketType::lenient(value)
    }
}

impl From<PacketType> for u32 {
    fn from(value: PacketType) -> (code: u32) {
        match value {
            PacketType::Voice => 0,
            PacketType::DualToneMultiFrequency => 1,
            PacketType::Text => 2,
        }
    }
}

impl FromSpecImpl<PacketType> for u32 {
    open spec fn obeys_from_spec() -> bool {
        true
    }

    open spec fn from_spec(value: PacketType) -> u32 {
        value.code()
    }
}

/// Why a datagram is not a frame.
#[derive(Copy, Clone, Debug, PartialEq, Eq, Structural)]
pub enum FormatError {
    /// The length is neither that of a control frame nor that of a voice frame.
    Length,
    /// The first four bytes are not the tag.
    Magic,
    /// The packet type field holds a number that names no type. Only the strict
    /// decoder reports this.
    UnknownType,
}

/// A frame as a mathematical value: the header fields, and the samples if it has any.
pub struct Frame {
    pub sequence_counter: u32,
    pub stream_id: u32,
    pub push_to_talk: bool,
    pub talk_group: u32,
    pub packet_type: PacketType,
    pub multiplex_id: u32,
    pub reserved: u32,
    pub audio: Option<Seq<i16>>,
}

/// The tag that opens every frame: the letters `USRP`.
pub open spec fn magic() -> Seq<u8> {
    seq![0x55u8, 0x53u8, 0x52u8, 0x50u8]
}

/// The number that stands for a flag on the wire.
pub open spec fn flag_code(flag: bool) -> u32 {
    if flag {
        1
    } else {
        0
    }
}

impl Frame {
    /// A frame has no payload or exactly 160 samples.
    pub open spec fn wf(self) -> bool {
        self.audio is Some ==> self.audio->0.len() == AUDIO_SAMPLES
    }

    /// The 32 bytes of the header.
    pub open spec fn header(self) -> Seq<u8> {
        magic() + be_u32_bytes(self.sequence_counter) + be_u32_bytes(self.stream_id) + be_u32_bytes(
            flag_code(self.push_to_talk),
        ) + be_u32_bytes(self.talk_group) + le_u32_bytes(self.packet_type.code()) + be_u32_bytes(
            self.multiplex_id,
        ) + be_u32_bytes(self.reserved)
    }

    /// The bytes of the payload: none for a control frame.
    pub open spec fn payload(self) -> Seq<u8> {
        match self.audio {
            Some(samples) => le_i16_bytes(samples),
            None => Seq::empty(),
        }
    }

    /// The frame on the wire.
    pub open spec fn encode(self) -> Seq<u8> {
        self.header() + self.payload()
    }

    /// The frame that a header of the right length and tag, and what follows it, hold.
    pub open spec fn parse(bytes: Seq<u8>) -> Frame {
        Frame {
            sequence_counter: be_u32(bytes.subrange(4, 8)),
            stream_id: be_u32(bytes.subrange(8, 12)),
            push_to_talk: be_u32(bytes.subrange(12, 16)) != 0,
            talk_group: be_u32(bytes.subrange(16, 20)),
            packet_type: PacketType::lenient(le_u32(bytes.subrange(20, 24))),
            multiplex_id: be_u32(bytes.subrange(24, 28)),
            reserved: be_u32(bytes.subrange(28, 32)),
            audio: if bytes.len() == VOICE_LEN {
                Some(le_i16_seq(bytes.subrange(32, 352)))
            } else {
                None
            },
        }
    }

    /// What a datagram means. It is rejected for its length unless that is 32 or 352,
    /// and then for its tag; every other datagram is a frame. A packet type number
    /// that names no type is read as voice.
    pub open spec fn decode(bytes: Seq<u8>) -> Result<Frame, FormatError> {
        if bytes.len() != HEADER_LEN && bytes.len() != VOICE_LEN {
            Err(FormatError::Length)
        } else if bytes.subrange(0, 4) != magic() {
            Err(FormatError::Magic)
        } else {
            Ok(Frame::parse(bytes))
        }
    }

    /// What a datagram means to a reader that does not guess: as `decode`, but a
    /// packet type number that names no type is an error.
    pub open spec fn decode_strict(bytes: Seq<u8>) -> Result<Frame, FormatError> {
        match Frame::decode(bytes) {
            Ok(frame) => if PacketType::recognized(le_u32(bytes.subrange(20, 24))) is Some {
                Ok(frame)
            } else {
                Err(FormatError::UnknownType)
            },
            Err(e) => Err(e),
        }
    }
}

/// The frames `frames` on the wire, one datagram each.
pub open spec fn encoded(frames: Seq<Frame>) -> Seq<Seq<u8>> {
    Seq::new(frames.len(), |i: int| frames[i].encode())
}

/// A frame of the USRP protocol. `audio` is `None` in a control frame.
#[allow(clippy::upper_case_acronyms)]
#[derive(Clone, Debug, PartialEq, Eq)]
pub struct USRP {
    pub sequence_counter: u32,
    pub stream_id: u32,
    pub push_to_talk: bool,
    pub talk_group: u32,
    pub packet_type: PacketType,
    pub multiplex_id: u32,
    pub reserved: u32,
    pub audio: Option<[i16; 160]>,
}

impl View for USRP {
    type V = Frame;

    open spec fn view(&self) -> Frame {
        Frame {
            sequence_counter: self.sequence_counter,
            stream_id: self.stream_id,
            push_to_talk: self.push_to_talk,
            talk_group: self.talk_group,
            packet_type: self.packet_type,
            multiplex_id: self.multiplex_id,
            reserved: self.reserved,
            audio: match self.audio {
                Some(samples) => Some(samples@),
                None => None,
            },
        }
    }
}

impl Default for USRP {
    /// A voice frame of silence with every field zero.
    fn default() -> (frame: USRP)
        ensures
            frame@ == (Frame {
                sequence_counter: 0,
                stream_id: 0,
                push_to_talk: false,
                talk_group: 0,
                packet_type: PacketType::Voice,
                multiplex_id: 0,
                reserved: 0,
                audio: Some(Seq::new(160, |i: int| 0i16)),
            }),
    {
        let audio = [0i16; 160];
        assert(audio@ =~= Seq::new(160, |i: int| 0i16));
        USRP {
            sequence_counter: 0,
            stream_id: 0,
            push_to_talk: false,
            talk_group: 0,
            packet_type: PacketType::Voice,
            multiplex_id: 0,
            reserved: 0,
            audio: Some(audio),
        }
    }
}

/// Where each field stands in the header.
proof fn lemma_header_layout(frame: Frame)
    ensures
        frame.header().len() == HEADER_LEN,
        frame.header().subrange(0, 4) == magic(),
        frame.header().subrange(4, 8) == be_u32_bytes(frame.sequence_counter),
        frame.header().subrange(8, 12) == be_u32_bytes(frame.stream_id),
        frame.header().subrange(12, 16) == be_u32_bytes(flag_code(frame.push_to_talk)),
        frame.header().subrange(16, 20) == be_u32_bytes(frame.talk_group),
        frame.header().subrange(20, 24) == le_u32_bytes(frame.packet_type.code()),
        frame.header().subrange(24, 28) == be_u32_bytes(frame.multiplex_id),
        frame.header().subrange(28, 32) == be_u32_bytes(frame.reserved),
{
    let header = frame.header();
    assert(header.subrange(0, 4) =~= magic());
    assert(header.subrange(4, 8) =~= be_u32_bytes(frame.sequence_counter));
    assert(header.subrange(8, 12) =~= be_u32_bytes(frame.stream_id));
    assert(header.subrange(12, 16) =~= be_u32_bytes(flag_code(frame.push_to_talk)));
    assert(header.subrange(16, 20) =~= be_u32_bytes(frame.talk_group));
    assert(header.subrange(20, 24) =~= le_u32_bytes(frame.packet_type.code()));
    assert(header.subrange(24, 28) =~= be_u32_bytes(frame.multiplex_id));
    assert(header.subrange(28, 32) =~= be_u32_bytes(frame.reserved));
}

/// A stretch of the header is the same stretch of the whole frame, and the payload
/// is the rest.
proof fn lemma_frame_layout(frame: Frame, from: int, to: int)
    requires
        0 <= from <= to <= HEADER_LEN,
    ensures
        frame.header().len() == HEADER_LEN,
        frame.encode().len() == HEADER_LEN + frame.payload().len(),
        frame.encode().subrange(from, to) == frame.header().subrange(from, to),
        frame.encode().subrange(HEADER_LEN as int, frame.encode().len() as int) == frame.payload(),
{
    lemma_header_layout(frame);
    let bytes = frame.encode();
    assert(bytes.subrange(from, to) =~= frame.header().subrange(from, to));
    assert(bytes.subrange(HEADER_LEN as int, bytes.len() as int) =~= frame.payload());
}

/// Decoding what was encoded gives the frame back, every header field and every
/// sample.
pub proof fn lemma_decode_encode(frame: Frame)
    requires
        frame.wf(),
    ensures
        frame.encode().len() == if frame.audio is Some {
            VOICE_LEN as int
        } else {
            HEADER_LEN as int
        },
        Frame::decode(frame.encode()) == Ok::<Frame, FormatError>(frame),
        Frame::decode_strict(frame.encode()) == Ok::<Frame, FormatError>(frame),
{
    let bytes = frame.encode();
    lemma_header_layout(frame);
    lemma_frame_layout(frame, 0, 4);
    lemma_frame_layout(frame, 4, 8);
    lemma_frame_layout(frame, 8, 12);
    lemma_frame_layout(frame, 12, 16);
    lemma_frame_layout(frame, 16, 20);
    lemma_frame_layout(frame, 20, 24);
    lemma_frame_layout(frame, 24, 28);
    lemma_frame_layout(frame, 28, 32);
    lemma_be_u32_round_trip(frame.sequence_counter);
    lemma_be_u32_round_trip(frame.stream_id);
    lemma_be_u32_round_trip(flag_code(frame.push_to_talk));
    lemma_be_u32_round_trip(frame.talk_group);
    lemma_le_u32_round_trip(frame.packet_type.code());
    lemma_be_u32_round_trip(frame.multiplex_id);
    lemma_be_u32_round_trip(frame.reserved);
    let parsed = Frame::parse(bytes);
    match frame.audio {
        Some(samples) => {
            lemma_le_i16_round_trip(samples);
            assert(bytes.len() == VOICE_LEN);
            assert(parsed.audio == Some(samples));
        },
        None => {
            assert(bytes.len() == HEADER_LEN);
            assert(parsed.audio == None::<Seq<i16>>);
        },
    }
    assert(parsed.sequence_counter == frame.sequence_counter);
    assert(parsed.stream_id == frame.stream_id);
    assert(parsed.push_to_talk == frame.push_to_talk);
    assert(parsed.talk_group == frame.talk_group);
    assert(parsed.packet_type == frame.packet_type);
    assert(parsed.multiplex_id == frame.multiplex_id);
    assert(parsed.reserved == frame.reserved);
    assert(parsed == frame);
}

/// On the wire the sequence counter of a frame stands in bytes 4 to 7, big-endian.
pub proof fn lemma_encoded_sequence(frame: Frame)
    ensures
        frame.encode().len() >= 8,
        be_u32(frame.encode().subrange(4, 8)) == frame.sequence_counter,
{
    lemma_frame_layout(frame, 4, 8);
    lemma_header_layout(frame);
    lemma_be_u32_round_trip(frame.sequence_counter);
}

/// Whether `buffer`, of at least four bytes, opens with the tag.
fn has_magic(buffer: &[u8]) -> (r: bool)
    requires
        buffer@.len() >= 4,
    ensures
        r == (buffer@.subrange(0, 4) == magic()),
{
    let r = buffer[0] == 0x55 && buffer[1] == 0x53 && buffer[2] == 0x52 && buffer[3] == 0x50;
    proof {
        if r {
            assert(buffer@.subrange(0, 4) =~= magic());
        } else {
            let head = buffer@.subrange(0, 4);
            assert(head[0] == buffer@[0] && head[1] == buffer@[1] && head[2] == buffer@[2]
                && head[3] == buffer@[3]);
        }
    }
    r
}

/// Appends the four bytes of `word` to `buffer`.
fn put_word(buffer: &mut Vec<u8>, word: &[u8; 4])
    ensures
        final(buffer)@ == old(buffer)@ + word@,
{
    buffer.extend_from_slice(word);
}

impl USRP {
    /// Reads a frame from a datagram.
    ///
    /// The datagram is rejected for its length unless that is 32 or 352, and then for
    /// its first four bytes unless they are the tag. Every other datagram is a frame:
    /// a packet type number that names no type is read as voice, and any push-to-talk
    /// number but zero as on.
    pub fn from_buffer(buffer: &[u8]) -> (r: Result<USRP, FormatError>)
        ensures
            r matches Err(FormatError::Length) <==> buffer@.len() != 32 && buffer@.len() != 352,
            r matches Err(FormatError::Magic) <==> (buffer@.len() == 32 || buffer@.len() == 352)
                && buffer@.subrange(0, 4) != magic(),
            !(r matches Err(FormatError::UnknownType)),
            match r {
                Ok(frame) => Frame::decode(buffer@) == Ok::<Frame, FormatError>(frame@),
                Err(e) => Frame::decode(buffer@) == Err::<Frame, FormatError>(e),
            },
    {
        let len = buffer.len();
        if len != HEADER_LEN && len != VOICE_LEN {
            return Err(FormatError::Length);
        }
        if !has_magic(buffer) {
            return Err(FormatError::Magic);
        }
        let audio = if len == VOICE_LEN {
            let mut samples = [0i16; 160];
            read_i16_into(&buffer[32..352], &mut samples);
            Some(samples)
        } else {
            None
        };
        let frame = USRP {
            sequence_counter: NetworkEndian::read_u32(&buffer[4..8]),
            stream_id: NetworkEndian::read_u32(&buffer[8..12]),
            push_to_talk: NetworkEndian::read_u32(&buffer[12..16]) != 0,
            talk_group: NetworkEndian::read_u32(&buffer[16..20]),
            packet_type: PacketType::from(LittleEndian::read_u32(&buffer[20..24])),
            multiplex_id: NetworkEndian::read_u32(&buffer[24..28]),
            reserved: NetworkEndian::read_u32(&buffer[28..32]),
            audio,
        };
        assert(frame@ == Frame::parse(buffer@));
        Ok(frame)
    }

    /// Reads a frame from a datagram as `from_buffer` does, but rejects a packet type
    /// number that names no type.
    pub fn from_buffer_strict(buffer: &[u8]) -> (r: Result<USRP, FormatError>)
        ensures
            match r {
                Ok(frame) => Frame::decode_strict(buffer@) == Ok::<Frame, FormatError>(frame@),
                Err(e) => Frame::decode_strict(buffer@) == Err::<Frame, FormatError>(e),
            },
            r matches Err(FormatError::UnknownType) <==> Frame::decode(buffer@) is Ok
                && le_u32(buffer@.subrange(20, 24)) > 2,
    {
        match USRP::from_buffer(buffer) {
            Ok(frame) => {
                match PacketType::recognize(LittleEndian::read_u32(&buffer[20..24])) {
                    Some(_) => Ok(frame),
                    None => Err(FormatError::UnknownType),
                }
            },
            Err(e) => Err(e),
        }
    }

    /// Writes the frame as a datagram: the header, and the samples if the frame has
    /// any. The result has 32 or 352 bytes, and decodes to this frame.
    pub fn to_buffer(&self) -> (buffer: Vec<u8>)
        ensures
            buffer@ == self@.encode(),
            buffer@.len() == if self.audio is Some {
                VOICE_LEN as int
            } else {
                HEADER_LEN as int
            },
            Frame::decode(buffer@) == Ok::<Frame, FormatError>(self@),
    {
        let mut buffer: Vec<u8> = Vec::with_capacity(VOICE_LEN);
        let mut word = [0x55u8, 0x53u8, 0x52u8, 0x50u8];
        assert(word@ =~= magic());
        put_word(&mut buffer, &word);
        assert(buffer@ =~= magic());
        NetworkEndian::write_u32(&mut word, self.sequence_counter);
        put_word(&mut buffer, &word);
        NetworkEndian::write_u32(&mut word, self.stream_id);
        put_word(&mut buffer, &word);
        NetworkEndian::write_u32(&mut word, if self.push_to_talk { 1 } else { 0 });
        put_word(&mut buffer, &word);
        NetworkEndian::write_u32(&mut word, self.talk_group);
        put_word(&mut buffer, &word);
        LittleEndian::write_u32(&mut word, u32::from(self.packet_type));
        put_word(&mut buffer, &word);
        NetworkEndian::write_u32(&mut word, self.multiplex_id);
        put_word(&mut buffer, &word);
        NetworkEndian::write_u32(&mut word, self.reserved);
        put_word(&mut buffer, &word);
        assert(buffer@ =~= self@.header());
        match &self.audio {
            Some(samples) => {
                let mut payload = [0u8; 320];
                write_i16_into(samples, &mut payload);
                buffer.extend_from_slice(&payload);
            },
            None => {},
        }
        assert(buffer@ =~= self@.encode());
        proof {
            lemma_decode_encode(self@);
        }
        buffer
    }
}

} // verus!
