//! The uplink: audio of the voice channel, framed for the radio side.
//!
//! The voice platform reports who speaks and hands over decoded audio, 48 kHz stereo in
//! chunks of any length. `Transmitter` turns these events into the datagrams to send,
//! in order: a start frame when speaking begins, one voice frame for every 20 ms of
//! audio while it lasts, an end frame when it stops. Audio that arrives outside a
//! burst is not forwarded. Every frame sent takes the next sequence number, control
//! frames too, and the counter wraps.
use crate::endian::be_u32;
use crate::framing::{
    lemma_voice_keeps_talking, lemma_well_framed_concat, well_framed, FramingState,
};
use crate::packet::{
    encoded, lemma_encoded_sequence, Frame, PacketType, HEADER_LEN, USRP, VOICE_LEN,
};
use crate::resampler::{resample, resample_spec};
use vstd::prelude::*;

verus! {

/// Sample rate of the voice channel.
pub const NATIVE_HZ: u32 = 48000;

/// Channel count of the voice channel.
pub const NATIVE_CHANNELS: u16 = 2;

/// Samples in 20 ms of the voice channel's audio, both channels counted.
pub const NATIVE_UNIT: usize = 1920;

/// Sample rate of the radio side.
pub const RADIO_HZ: u32 = 8000;

/// Channel count of the radio side.
pub const RADIO_CHANNELS: u16 = 1;

/// An event of the voice platform.
#[derive(Clone, Debug, PartialEq, Eq)]
pub enum VoiceEvent {
    /// Speaking began (`true`) or stopped (`false`).
    SpeakingUpdate(bool),
    /// A packet arrived, with its decoded audio if the platform decodes.
    VoicePacket(Option<Vec<i16>>),
    /// An event of a kind that the bridge never registers for.
    Unsupported,
}

/// The uplink as a mathematical value.
pub struct Uplink {
    /// Sequence number of the next frame.
    pub sequence: u32,
    /// Whether a burst is open.
    pub state: FramingState,
    /// Audio of the open burst that does not fill 20 ms yet.
    pub pending: Seq<i16>,
}

/// The sequence number `n` frames after `sequence`.
pub open spec fn next_sequence(sequence: u32, n: nat) -> u32 {
    ((sequence + n) % 0x1_0000_0000) as u32
}

/// The control frame that opens (`push_to_talk`) or closes a burst.
pub open spec fn control_frame(sequence: u32, push_to_talk: bool) -> Frame {
    Frame {
        sequence_counter: sequence,
        stream_id: 0,
        push_to_talk,
        talk_group: 0,
        packet_type: PacketType::Voice,
        multiplex_id: 0,
        reserved: 0,
        audio: None,
    }
}

/// The voice frame for 20 ms of the voice channel's audio.
pub open spec fn voice_frame(sequence: u32, native: Seq<i16>) -> Frame {
    Frame {
        sequence_counter: sequence,
        stream_id: 0,
        push_to_talk: true,
        talk_group: 0,
        packet_type: PacketType::Voice,
        multiplex_id: 0,
        reserved: 0,
        audio: Some(resample_spec(native, NATIVE_HZ, NATIVE_CHANNELS, RADIO_HZ, RADIO_CHANNELS)),
    }
}

/// The voice frames for the whole 20 ms units of `native`, numbered from `sequence`.
pub open spec fn voice_frames(sequence: u32, native: Seq<i16>) -> Seq<Frame> {
    Seq::new(
        native.len() / NATIVE_UNIT as nat,
        |k: int|
            voice_frame(
                next_sequence(sequence, k as nat),
                native.subrange(NATIVE_UNIT * k, NATIVE_UNIT * (k + 1)),
            ),
    )
}

/// Whether `datagrams` are the frames `frames` on the wire, one for one.
pub open spec fn carries(datagrams: Seq<Vec<u8>>, frames: Seq<Frame>) -> bool {
    &&& datagrams.len() == frames.len()
    &&& forall|i: int| 0 <= i < frames.len() ==> (#[trigger] datagrams[i])@ == encoded(frames)[i]
}

impl Uplink {
    /// Less than 20 ms of audio is waiting, and none while no burst is open.
    pub open spec fn wf(self) -> bool {
        &&& self.pending.len() < NATIVE_UNIT
        &&& self.state == FramingState::Idle ==> self.pending.len() == 0
    }

    /// The uplink after `event`, and the frames that the event makes it send.
    pub open spec fn step(self, event: VoiceEvent) -> (Uplink, Seq<Frame>) {
        match event {
            VoiceEvent::SpeakingUpdate(speaking) => {
                if speaking && self.state == FramingState::Idle {
                    (
                        Uplink {
                            sequence: next_sequence(self.sequence, 1),
                            state: FramingState::Talking,
                            pending: self.pending,
                        },
                        seq![control_frame(self.sequence, true)],
                    )
                } else if !speaking && self.state == FramingState::Talking {
                    (
                        Uplink {
                            sequence: next_sequence(self.sequence, 1),
                            state: FramingState::Idle,
                            pending: Seq::empty(),
                        },
                        seq![control_frame(self.sequence, false)],
                    )
                } else {
                    (self, Seq::empty())
                }
            },
            VoiceEvent::VoicePacket(Some(audio)) => {
                if self.state == FramingState::Talking {
                    let native = self.pending + audio@;
                    let units = native.len() / NATIVE_UNIT as nat;
                    (
                        Uplink {
                            sequence: next_sequence(self.sequence, units),
                            state: FramingState::Talking,
                            pending: native.subrange(NATIVE_UNIT * units, native.len() as int),
                        },
                        voice_frames(self.sequence, native),
                    )
                } else {
                    (self, Seq::empty())
                }
            },
            _ => (self, Seq::empty()),
        }
    }

    /// The uplink after `events` in turn, and all the frames sent on the way.
    pub open spec fn run(self, events: Seq<VoiceEvent>) -> (Uplink, Seq<Frame>)
        decreases events.len(),
    {
        if events.len() == 0 {
            (self, Seq::empty())
        } else {
            let (next, sent) = self.step(events[0]);
            let (last, more) = next.run(events.subrange(1, events.len() as int));
            (last, sent + more)
        }
    }
}

/// Counting on from a sequence number in two goes is counting on in one.
pub proof fn lemma_next_sequence_add(sequence: u32, a: nat, b: nat)
    ensures
        next_sequence(next_sequence(sequence, a), b) == next_sequence(sequence, a + b),
{
    vstd::arithmetic::div_mod::lemma_add_mod_noop(sequence + a, b as int, 0x1_0000_0000);
    vstd::arithmetic::div_mod::lemma_mod_twice(sequence + a, 0x1_0000_0000);
    vstd::arithmetic::div_mod::lemma_add_mod_noop(
        (sequence + a) % 0x1_0000_0000,
        b as int,
        0x1_0000_0000,
    );
}

/// The frames of one event are numbered on from the uplink's counter, which then
/// stands behind the last of them.
pub proof fn lemma_step_sequence(uplink: Uplink, event: VoiceEvent)
    ensures
        uplink.step(event).0.sequence == next_sequence(
            uplink.sequence,
            uplink.step(event).1.len(),
        ),
        forall|k: int|
            0 <= k < uplink.step(event).1.len() ==> (#[trigger] uplink.step(
                event,
            ).1[k]).sequence_counter == next_sequence(uplink.sequence, k as nat),
{
}

/// For any events, the frames sent carry the sequence numbers `s`, `s + 1`, and so on
/// modulo 2^32, where `s` is the counter at the start, in the frame and in its bytes on
/// the wire; and the counter ends behind the last of them.
pub proof fn lemma_sequence_counters(uplink: Uplink, events: Seq<VoiceEvent>)
    ensures
        uplink.run(events).0.sequence == next_sequence(uplink.sequence, uplink.run(events).1.len()),
        forall|k: int|
            0 <= k < uplink.run(events).1.len() ==> (#[trigger] uplink.run(
                events,
            ).1[k]).sequence_counter == next_sequence(uplink.sequence, k as nat),
        forall|k: int|
            0 <= k < uplink.run(events).1.len() ==> be_u32(
                (#[trigger] uplink.run(events).1[k]).encode().subrange(4, 8),
            ) == next_sequence(uplink.sequence, k as nat),
    decreases events.len(),
{
    lemma_frame_sequence_counters(uplink, events);
    assert forall|k: int| 0 <= k < uplink.run(events).1.len() implies be_u32(
        (#[trigger] uplink.run(events).1[k]).encode().subrange(4, 8),
    ) == next_sequence(uplink.sequence, k as nat) by {
        lemma_encoded_sequence(uplink.run(events).1[k]);
    }
}

/// The frames sent are numbered on from the counter at the start.
proof fn lemma_frame_sequence_counters(uplink: Uplink, events: Seq<VoiceEvent>)
    ensures
        uplink.run(events).0.sequence == next_sequence(uplink.sequence, uplink.run(events).1.len()),
        forall|k: int|
            0 <= k < uplink.run(events).1.len() ==> (#[trigger] uplink.run(
                events,
            ).1[k]).sequence_counter == next_sequence(uplink.sequence, k as nat),
    decreases events.len(),
{
    if events.len() > 0 {
        let (next, sent) = uplink.step(events[0]);
        let rest = events.subrange(1, events.len() as int);
        let (last, more) = next.run(rest);
        lemma_step_sequence(uplink, events[0]);
        lemma_frame_sequence_counters(next, rest);
        lemma_next_sequence_add(uplink.sequence, sent.len(), more.len());
        assert forall|k: int| 0 <= k < (sent + more).len() implies (#[trigger] (sent
            + more)[k]).sequence_counter == next_sequence(uplink.sequence, k as nat) by {
            if k >= sent.len() {
                assert((sent + more)[k] == more[k - sent.len()]);
                lemma_next_sequence_add(uplink.sequence, sent.len(), (k - sent.len()) as nat);
            }
        }
    }
}

/// The frames of one event keep the framing discipline from the uplink's state on,
/// and leave the stream in the uplink's new state.
pub proof fn lemma_step_well_framed(uplink: Uplink, event: VoiceEvent)
    ensures
        well_framed(uplink.state, uplink.step(event).1) == Some(uplink.step(event).0.state),
{
    let (next, sent) = uplink.step(event);
    match event {
        VoiceEvent::SpeakingUpdate(speaking) => {
            if sent.len() > 0 {
                assert(sent.subrange(1, sent.len() as int) =~= Seq::<Frame>::empty());
                assert(well_framed(next.state, sent.subrange(1, sent.len() as int)) == Some(
                    next.state,
                ));
            }
        },
        VoiceEvent::VoicePacket(Some(audio)) => {
            if uplink.state == FramingState::Talking {
                lemma_voice_keeps_talking(sent);
            }
        },
        _ => {},
    }
}

/// For any events, the frames sent keep the framing discipline: each burst is one
/// start frame, then voice frames, then one end frame, in that order, and no voice
/// frame stands outside a burst.
pub proof fn lemma_uplink_well_framed(uplink: Uplink, events: Seq<VoiceEvent>)
    ensures
        well_framed(uplink.state, uplink.run(events).1) == Some(uplink.run(events).0.state),
    decreases events.len(),
{
    if events.len() > 0 {
        let (next, sent) = uplink.step(events[0]);
        let rest = events.subrange(1, events.len() as int);
        lemma_step_well_framed(uplink, events[0]);
        lemma_uplink_well_framed(next, rest);
        lemma_well_framed_concat(uplink.state, sent, next.run(rest).1);
    }
}

/// Whatever the event, less than 20 ms of audio is left waiting after it, and none
/// once the burst is closed.
pub proof fn lemma_step_keeps_wf(uplink: Uplink, event: VoiceEvent)
    requires
        uplink.wf(),
    ensures
        uplink.step(event).0.wf(),
{
    match event {
        VoiceEvent::VoicePacket(Some(audio)) => {
            let native = uplink.pending + audio@;
            vstd::arithmetic::div_mod::lemma_fundamental_div_mod(
                native.len() as int,
                NATIVE_UNIT as int,
            );
            vstd::arithmetic::div_mod::lemma_mod_bound(native.len() as int, NATIVE_UNIT as int);
        },
        _ => {},
    }
}

/// Every frame that the uplink sends is a control frame or has exactly 160 samples.
pub proof fn lemma_uplink_frames_wf(uplink: Uplink, events: Seq<VoiceEvent>)
    ensures
        forall|k: int|
            0 <= k < uplink.run(events).1.len() ==> (#[trigger] uplink.run(events).1[k]).wf(),
    decreases events.len(),
{
    if events.len() > 0 {
        let (next, sent) = uplink.step(events[0]);
        let rest = events.subrange(1, events.len() as int);
        let more = next.run(rest).1;
        lemma_uplink_frames_wf(next, rest);
        assert forall|k: int| 0 <= k < (sent + more).len() implies (#[trigger] (sent
            + more)[k]).wf() by {
            if k >= sent.len() {
                assert((sent + more)[k] == more[k - sent.len()]);
            } else {
                match events[0] {
                    VoiceEvent::VoicePacket(Some(audio)) => {
                        if uplink.state == FramingState::Talking {
                            let native = uplink.pending + audio@;
                            vstd::arithmetic::div_mod::lemma_fundamental_div_mod(
                                native.len() as int,
                                NATIVE_UNIT as int,
                            );
                            assert(NATIVE_UNIT * (k + 1) <= native.len()) by (nonlinear_arith)
                                requires
                                    k + 1 <= native.len() as int / (NATIVE_UNIT as int),
                                    native.len() as int == (NATIVE_UNIT as int) * (native.len()
                                        as int / (NATIVE_UNIT as int)) + native.len() as int % (
                                    NATIVE_UNIT as int),
                                    native.len() as int % (NATIVE_UNIT as int) >= 0,
                                    NATIVE_UNIT == 1920,
                            ;
                        }
                    },
                    _ => {},
                }
            }
        }
    }
}

/// Audio that arrives while no burst is open sends nothing and changes nothing.
pub proof fn lemma_idle_forwards_nothing(uplink: Uplink, audio: Option<Vec<i16>>)
    requires
        uplink.state == FramingState::Idle,
    ensures
        uplink.step(VoiceEvent::VoicePacket(audio)) == (uplink, Seq::<Frame>::empty()),
{
}

/// The uplink pipeline's state: the sequence counter, the framing state and the audio
/// that waits for the rest of its 20 ms.
pub struct Transmitter {
    sequence: u32,
    state: FramingState,
    pending: Vec<i16>,
}

impl View for Transmitter {
    type V = Uplink;

    closed spec fn view(&self) -> Uplink {
        Uplink { sequence: self.sequence, state: self.state, pending: self.pending@ }
    }
}

/// The datagram of the control frame that opens (`push_to_talk`) or closes a burst.
fn control_datagram(sequence: u32, push_to_talk: bool) -> (datagram: Vec<u8>)
    ensures
        datagram@ == control_frame(sequence, push_to_talk).encode(),
{
    let frame = USRP {
        sequence_counter: sequence,
        stream_id: 0,
        push_to_talk,
        talk_group: 0,
        packet_type: PacketType::Voice,
        multiplex_id: 0,
        reserved: 0,
        audio: None,
    };
    frame.to_buffer()
}

/// Copies the 160 samples of a radio frame into an array.
fn radio_samples(samples: &Vec<i16>) -> (block: [i16; 160])
    requires
        samples@.len() == 160,
    ensures
        block@ == samples@,
{
    let mut block = [0i16; 160];
    let mut i: usize = 0;
    while i < 160
        invariant
            i <= 160,
            samples@.len() == 160,
            forall|j: int| 0 <= j < i ==> block@[j] == samples@[j],
        decreases 160 - i,
    {
        block[i] = samples[i];
        i = i + 1;
    }
    assert(block@ =~= samples@);
    block
}

impl Transmitter {
    #[verifier::type_invariant]
    closed spec fn inv(self) -> bool {
        self@.wf()
    }

    /// An idle uplink whose first frame will have sequence number 0.
    pub fn new() -> (transmitter: Transmitter)
        ensures
            transmitter@ == (Uplink {
                sequence: 0,
                state: FramingState::Idle,
                pending: Seq::empty(),
            }),
            transmitter@.wf(),
    {
        Transmitter { sequence: 0, state: FramingState::Idle, pending: Vec::new() }
    }

    /// An idle uplink whose first frame will have sequence number `sequence`.
    pub fn starting_at(sequence: u32) -> (transmitter: Transmitter)
        ensures
            transmitter@ == (Uplink { sequence, state: FramingState::Idle, pending: Seq::empty() }),
            transmitter@.wf(),
    {
        Transmitter { sequence, state: FramingState::Idle, pending: Vec::new() }
    }

    /// Sequence number of the next frame.
    pub fn sequence(&self) -> (sequence: u32)
        ensures
            sequence == self@.sequence,
    {
        self.sequence
    }

    /// Whether a burst is open.
    pub fn state(&self) -> (state: FramingState)
        ensures
            state == self@.state,
    {
        self.state
    }

    /// Takes the audio of one packet into the open burst and sends a voice frame for
    /// every 20 ms that is complete.
    fn forward(&mut self, audio: &Vec<i16>) -> (datagrams: Vec<Vec<u8>>)
        requires
            old(self)@.state == FramingState::Talking,
        ensures
            final(self)@ == old(self)@.step(VoiceEvent::VoicePacket(Some(*audio))).0,
            carries(datagrams@, old(self)@.step(VoiceEvent::VoicePacket(Some(*audio))).1),
    {
        let ghost first = self.sequence;
        let ghost native = self.pending@ + audio@;
        let ghost frames = voice_frames(first, native);
        let mut block: Vec<i16> = Vec::new();
        block.extend_from_slice(self.pending.as_slice());
        block.extend_from_slice(audio.as_slice());
        assert(block@ =~= native);
        let mut datagrams: Vec<Vec<u8>> = Vec::new();
        let mut sequence: u32 = self.sequence;
        let mut done: usize = 0;
        let ghost mut units: nat = 0;
        while block.len() - done >= NATIVE_UNIT
            invariant
                block@ == native,
                frames == voice_frames(first, native),
                done == NATIVE_UNIT * units,
                done <= native.len(),
                units <= native.len() / NATIVE_UNIT as nat,
                sequence == next_sequence(first, units),
                datagrams@.len() == units,
                forall|i: int|
                    0 <= i < units ==> (#[trigger] datagrams@[i])@ == frames[i].encode(),
            decreases native.len() - done,
        {
            let unit = vstd::slice::slice_subrange(block.as_slice(), done, done + NATIVE_UNIT);
            assert(unit@ == native.subrange(NATIVE_UNIT * units, NATIVE_UNIT * (units + 1)));
            let samples = resample(unit, NATIVE_HZ, NATIVE_CHANNELS, RADIO_HZ, RADIO_CHANNELS);
            let frame = USRP {
                sequence_counter: sequence,
                stream_id: 0,
                push_to_talk: true,
                talk_group: 0,
                packet_type: PacketType::Voice,
                multiplex_id: 0,
                reserved: 0,
                audio: Some(radio_samples(&samples)),
            };
            proof {
                assert(units < native.len() / NATIVE_UNIT as nat) by {
                    vstd::arithmetic::div_mod::lemma_div_is_ordered(
                        done + NATIVE_UNIT,
                        native.len() as int,
                        NATIVE_UNIT as int,
                    );
                }
                assert(frame@ == frames[units as int]);
                lemma_next_sequence_add(first, units, 1);
            }
            let ghost before = datagrams@;
            datagrams.push(frame.to_buffer());
            sequence = sequence.wrapping_add(1);
            done = done + NATIVE_UNIT;
            proof {
                assert forall|i: int| 0 <= i < units + 1 implies (#[trigger] datagrams@[i])@
                    == frames[i].encode() by {
                    if i < units {
                        assert(datagrams@[i] == before[i]);
                    }
                }
                units = units + 1;
            }
        }
        proof {
            assert(units == native.len() / NATIVE_UNIT as nat) by {
                vstd::arithmetic::div_mod::lemma_fundamental_div_mod_converse(
                    native.len() as int,
                    NATIVE_UNIT as int,
                    units as int,
                    native.len() - done,
                );
            }
        }
        let rest = block.split_off(done);
        assert(rest@ =~= native.subrange(NATIVE_UNIT * units, native.len() as int));
        self.pending = rest;
        self.sequence = sequence;
        datagrams
    }

    /// Takes one event of the voice platform and returns the datagrams to send for
    /// it, in order.
    ///
    /// The event must be of a kind that the bridge registers for.
    pub fn act(&mut self, event: &VoiceEvent) -> (datagrams: Vec<Vec<u8>>)
        requires
            !(event is Unsupported),
        ensures
            final(self)@ == old(self)@.step(*event).0,
            carries(datagrams@, old(self)@.step(*event).1),
            forall|i: int|
                0 <= i < datagrams@.len() ==> (#[trigger] datagrams@[i])@.len() == HEADER_LEN || (
                #[trigger] datagrams@[i])@.len() == VOICE_LEN,
            final(self)@.wf(),
    {
        proof {
            use_type_invariant(&*self);
            lemma_step_keeps_wf(self@, *event);
        }
        match event {
            VoiceEvent::SpeakingUpdate(speaking) => {
                let mut datagrams: Vec<Vec<u8>> = Vec::new();
                if *speaking && self.state == FramingState::Idle {
                    datagrams.push(control_datagram(self.sequence, true));
                    self.sequence = self.sequence.wrapping_add(1);
                    self.state = FramingState::Talking;
                } else if !*speaking && self.state == FramingState::Talking {
                    datagrams.push(control_datagram(self.sequence, false));
                    self.pending = Vec::new();
                    self.sequence = self.sequence.wrapping_add(1);
                    self.state = FramingState::Idle;
                }
                datagrams
            },
            VoiceEvent::VoicePacket(Some(audio)) => {
                if self.state == FramingState::Talking {
                    self.forward(audio)
                } else {
                    Vec::new()
                }
            },
            _ => Vec::new(),
        }
    }
}

} // verus!
