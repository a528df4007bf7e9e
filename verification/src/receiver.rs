//! The downlink: datagrams of the radio side, made ready for playback into the call.
//!
//! `Receiver` holds the call that the bridge is attached to, if any, and the framing
//! state of the incoming stream. For each datagram it says what to do: play a block
//! of audio, note that a burst began or ended, or drop the datagram and why. Audio
//! is played only inside a burst and only while a call is attached; a datagram that
//! is not a frame is dropped and changes nothing.
use crate::endian::{le_i16_bytes, write_i16_into};
use crate::framing::{classify, kind_of, well_framed, FrameKind, FramingState};
use crate::packet::{encoded, lemma_decode_encode, FormatError, Frame, USRP};
use crate::resampler::{resample, resample_spec};
use crate::transmitter::{NATIVE_CHANNELS, NATIVE_HZ, RADIO_CHANNELS, RADIO_HZ};
use vstd::prelude::*;

verus! {

/// Bytes in the block played for one voice frame: 20 ms of 48 kHz stereo, two bytes
/// a sample.
pub const PLAYBACK_LEN: usize = 3840;

/// Why a datagram was dropped.
#[derive(Copy, Clone, Debug, PartialEq, Eq, Structural)]
pub enum Reason {
    /// It is not a frame.
    Malformed(FormatError),
    /// It is a frame of a type other than voice.
    NotVoice,
    /// It carries audio, but no burst is open.
    OutsideBurst,
    /// It carries audio inside a burst, but no call is attached.
    NoCall,
}

/// What to do about a datagram.
#[derive(Clone, Debug, PartialEq, Eq)]
pub enum Action {
    /// Play this block into the call: 48 kHz stereo, 16-bit little-endian.
    Play(Vec<u8>),
    /// A burst began; there is nothing to play.
    Started,
    /// A burst ended; there is nothing to play.
    Ended,
    /// The datagram was dropped.
    Dropped(Reason),
}

/// An `Action` as a mathematical value.
pub enum Heard {
    Play(Seq<u8>),
    Started,
    Ended,
    Dropped(Reason),
}

impl View for Action {
    type V = Heard;

    open spec fn view(&self) -> Heard {
        match *self {
            Action::Play(block) => Heard::Play(block@),
            Action::Started => Heard::Started,
            Action::Ended => Heard::Ended,
            Action::Dropped(reason) => Heard::Dropped(reason),
        }
    }
}

/// The downlink as a mathematical value.
pub struct Downlink {
    /// Whether a call is attached.
    pub attached: bool,
    /// Whether a burst is open.
    pub state: FramingState,
    /// How many voice frames were dropped for want of a call; it stops at the
    /// largest number it can hold.
    pub dropped: u64,
}

/// The block to play for the samples of one voice frame: the samples at 48 kHz in
/// stereo, as little-endian bytes.
pub open spec fn playback(audio: Seq<i16>) -> Seq<u8> {
    le_i16_bytes(resample_spec(audio, RADIO_HZ, RADIO_CHANNELS, NATIVE_HZ, NATIVE_CHANNELS))
}

/// One more, but no more than fits.
pub open spec fn counted(n: u64) -> u64 {
    if n < u64::MAX {
        (n + 1) as u64
    } else {
        n
    }
}

impl Downlink {
    /// The downlink after a datagram, and what to do about the datagram.
    pub open spec fn step(self, datagram: Seq<u8>) -> (Downlink, Heard) {
        match Frame::decode(datagram) {
            Err(e) => (self, Heard::Dropped(Reason::Malformed(e))),
            Ok(frame) => match kind_of(frame) {
                FrameKind::Start => (
                    Downlink { state: FramingState::Talking, ..self },
                    Heard::Started,
                ),
                FrameKind::End => (Downlink { state: FramingState::Idle, ..self }, Heard::Ended),
                FrameKind::Other => (self, Heard::Dropped(Reason::NotVoice)),
                FrameKind::Voice => {
                    if self.state != FramingState::Talking {
                        (self, Heard::Dropped(Reason::OutsideBurst))
                    } else if !self.attached {
                        (
                            Downlink { dropped: counted(self.dropped), ..self },
                            Heard::Dropped(Reason::NoCall),
                        )
                    } else {
                        (self, Heard::Play(playback(frame.audio->0)))
                    }
                },
            },
        }
    }

    /// The downlink after `datagrams` in turn, and what to do about each.
    pub open spec fn run(self, datagrams: Seq<Seq<u8>>) -> (Downlink, Seq<Heard>)
        decreases datagrams.len(),
    {
        if datagrams.len() == 0 {
            (self, Seq::empty())
        } else {
            let (next, heard) = self.step(datagrams[0]);
            let (last, more) = next.run(datagrams.subrange(1, datagrams.len() as int));
            (last, seq![heard] + more)
        }
    }
}

/// With no call attached, no datagrams whatever lead to playback, and none attaches
/// a call.
pub proof fn lemma_no_playback_without_call(downlink: Downlink, datagrams: Seq<Seq<u8>>)
    requires
        !downlink.attached,
    ensures
        !downlink.run(datagrams).0.attached,
        downlink.run(datagrams).1.len() == datagrams.len(),
        forall|i: int|
            0 <= i < datagrams.len() ==> !((#[trigger] downlink.run(datagrams).1[i]) is Play),
    decreases datagrams.len(),
{
    if datagrams.len() > 0 {
        let (next, heard) = downlink.step(datagrams[0]);
        let rest = datagrams.subrange(1, datagrams.len() as int);
        lemma_no_playback_without_call(next, rest);
        let more = next.run(rest).1;
        assert forall|i: int| 0 <= i < datagrams.len() implies !((#[trigger] (seq![heard]
            + more)[i]) is Play) by {
            if i > 0 {
                assert((seq![heard] + more)[i] == more[i - 1]);
            }
        }
    }
}

/// What a downlink with a call attached makes of a frame that keeps the discipline.
pub open spec fn rendering(frame: Frame) -> Heard {
    match kind_of(frame) {
        FrameKind::Start => Heard::Started,
        FrameKind::End => Heard::Ended,
        FrameKind::Voice => Heard::Play(playback(frame.audio->0)),
        FrameKind::Other => Heard::Dropped(Reason::NotVoice),
    }
}

/// A stream of frames that keeps the framing discipline is heard in full by a
/// downlink with a call attached: every voice frame is played, none is dropped, and
/// the downlink ends in the state in which the stream ends.
pub proof fn lemma_disciplined_stream_is_played(downlink: Downlink, frames: Seq<Frame>)
    requires
        downlink.attached,
        forall|i: int| 0 <= i < frames.len() ==> (#[trigger] frames[i]).wf(),
        well_framed(downlink.state, frames) is Some,
    ensures
        downlink.run(encoded(frames)).0 == (Downlink {
            state: well_framed(downlink.state, frames)->0,
            ..downlink
        }),
        downlink.run(encoded(frames)).1.len() == frames.len(),
        forall|i: int|
            0 <= i < frames.len() ==> (#[trigger] downlink.run(encoded(frames)).1[i]) == rendering(
                frames[i],
            ),
    decreases frames.len(),
{
    if frames.len() > 0 {
        let datagrams = encoded(frames);
        let rest = frames.subrange(1, frames.len() as int);
        assert(frames[0].wf());
        lemma_decode_encode(frames[0]);
        let (next, heard) = downlink.step(datagrams[0]);
        assert(heard == rendering(frames[0]));
        assert(next.state == downlink.state.follows(kind_of(frames[0]))->0);
        assert(datagrams.subrange(1, datagrams.len() as int) =~= encoded(rest));
        assert forall|i: int| 0 <= i < rest.len() implies (#[trigger] rest[i]).wf() by {
            assert(rest[i] == frames[i + 1]);
        }
        lemma_disciplined_stream_is_played(next, rest);
        let more = next.run(encoded(rest)).1;
        assert forall|i: int| 0 <= i < frames.len() implies (#[trigger] (seq![heard] + more)[i])
            == rendering(frames[i]) by {
            if i > 0 {
                assert((seq![heard] + more)[i] == more[i - 1]);
                assert(rest[i - 1] == frames[i]);
            }
        }
    }
}

/// The downlink pipeline's state: the call that the bridge is attached to, if any,
/// and the framing state of the incoming stream.
pub struct Receiver<H> {
    discord_channel: Option<H>,
    state: FramingState,
    dropped: u64,
}

impl<H> View for Receiver<H> {
    type V = Downlink;

    closed spec fn view(&self) -> Downlink {
        Downlink {
            attached: self.discord_channel is Some,
            state: self.state,
            dropped: self.dropped,
        }
    }
}

impl<H> Receiver<H> {
    /// The call that the bridge is attached to.
    pub closed spec fn call(&self) -> Option<H> {
        self.discord_channel
    }

    /// A downlink with no call attached and no burst open.
    pub fn new() -> (receiver: Receiver<H>)
        ensures
            receiver.call() is None,
            receiver@ == (Downlink { attached: false, state: FramingState::Idle, dropped: 0 }),
    {
        Receiver { discord_channel: None, state: FramingState::Idle, dropped: 0 }
    }

    /// Attaches `device`, in place of the call attached before if there was one.
    pub fn set(&mut self, device: H)
        ensures
            final(self).call() == Some(device),
            final(self)@ == (Downlink { attached: true, ..old(self)@ }),
    {
        self.discord_channel = Some(device);
    }

    /// Detaches the call, if one is attached.
    pub fn unset(&mut self)
        ensures
            final(self).call() is None,
            final(self)@ == (Downlink { attached: false, ..old(self)@ }),
    {
        self.discord_channel = None;
    }

    /// The call that the bridge is attached to.
    pub fn device(&self) -> (device: Option<&H>)
        ensures
            device is Some <==> self@.attached,
            match device {
                Some(handle) => self.call() == Some(*handle),
                None => self.call() is None,
            },
    {
        self.discord_channel.as_ref()
    }

    /// Whether a burst is open.
    pub fn state(&self) -> (state: FramingState)
        ensures
            state == self@.state,
    {
        self.state
    }

    /// How many voice frames were dropped for want of a call.
    pub fn dropped(&self) -> (dropped: u64)
        ensures
            dropped == self@.dropped,
    {
        self.dropped
    }

    /// Takes one datagram and says what to do about it.
    ///
    /// The call attached is never changed by a datagram.
    pub fn receive(&mut self, datagram: &[u8]) -> (action: Action)
        ensures
            final(self)@ == old(self)@.step(datagram@).0,
            action@ == old(self)@.step(datagram@).1,
            final(self).call() == old(self).call(),
            action is Play ==> old(self).call() is Some,
            action matches Action::Play(block) ==> block@.len() == PLAYBACK_LEN,
    {
        let frame = match USRP::from_buffer(datagram) {
            Ok(frame) => frame,
            Err(e) => {
                return Action::Dropped(Reason::Malformed(e));
            },
        };
        match classify(&frame) {
            FrameKind::Start => {
                self.state = FramingState::Talking;
                Action::Started
            },
            FrameKind::End => {
                self.state = FramingState::Idle;
                Action::Ended
            },
            FrameKind::Other => Action::Dropped(Reason::NotVoice),
            FrameKind::Voice => {
                if self.state != FramingState::Talking {
                    Action::Dropped(Reason::OutsideBurst)
                } else if self.discord_channel.is_none() {
                    if self.dropped < u64::MAX {
                        self.dropped = self.dropped + 1;
                    }
                    Action::Dropped(Reason::NoCall)
                } else {
                    match &frame.audio {
                        Some(audio) => Action::Play(play_block(audio)),
                        None => Action::Dropped(Reason::NotVoice),
                    }
                }
            },
        }
    }
}

/// The block to play for the samples of one voice frame.
fn play_block(audio: &[i16; 160]) -> (block: Vec<u8>)
    ensures
        block@ == playback(audio@),
        block@.len() == PLAYBACK_LEN,
{
    let samples = resample(
        audio.as_slice(),
        RADIO_HZ,
        RADIO_CHANNELS,
        NATIVE_HZ,
        NATIVE_CHANNELS,
    );
    let mut block: Vec<u8> = vec![0u8; PLAYBACK_LEN];
    write_i16_into(samples.as_slice(), block.as_mut_slice());
    block
}

} // verus!
