//! The framing of a talk burst: a start frame, voice frames, an end frame.
//!
//! A control frame with push-to-talk on starts a burst and one with push-to-talk off
//! ends it; a frame with samples is voice. Only frames of type voice take part: a
//! frame of another type is neither audio nor a key-up. A start frame is the bare
//! header, with no payload after it.
use crate::packet::{Frame, PacketType, USRP};
use vstd::prelude::*;

verus! {

/// Whether a direction is within a talk burst.
#[derive(Copy, Clone, Debug, PartialEq, Eq, Structural)]
pub enum FramingState {
    Idle,
    Talking,
}

/// What a frame is to the framing.
#[derive(Copy, Clone, Debug, PartialEq, Eq, Structural)]
pub enum FrameKind {
    /// A control frame with push-to-talk on.
    Start,
    /// A frame with samples.
    Voice,
    /// A control frame with push-to-talk off.
    End,
    /// A frame whose type is not voice.
    Other,
}

/// The kind of a frame, by its type and by whether it has a payload.
pub open spec fn kind_of(frame: Frame) -> FrameKind {
    if frame.packet_type != PacketType::Voice {
        FrameKind::Other
    } else if frame.audio is Some {
        FrameKind::Voice
    } else if frame.push_to_talk {
        FrameKind::Start
    } else {
        FrameKind::End
    }
}

/// The kind of a frame, by its type and by whether it has a payload.
pub fn classify(frame: &USRP) -> (kind: FrameKind)
    ensures
        kind == kind_of(frame@),
{
    match frame.packet_type {
        PacketType::Voice => {
            if frame.audio.is_some() {
                FrameKind::Voice
            } else if frame.push_to_talk {
                FrameKind::Start
            } else {
                FrameKind::End
            }
        },
        _ => FrameKind::Other,
    }
}

impl FramingState {
    /// The state after a frame of kind `kind` in a stream that keeps the discipline:
    /// a start only when idle, voice and an end only when talking. `None` where the
    /// frame breaks it.
    pub open spec fn follows(self, kind: FrameKind) -> Option<FramingState> {
        match (self, kind) {
            (FramingState::Idle, FrameKind::Start) => Some(FramingState::Talking),
            (FramingState::Talking, FrameKind::Voice) => Some(FramingState::Talking),
            (FramingState::Talking, FrameKind::End) => Some(FramingState::Idle),
            _ => None,
        }
    }
}

/// The state in which a stream of frames leaves a direction that was in `state`, if
/// the stream keeps the discipline: every burst is one start, then voice, then one
/// end, and no voice stands outside a burst. `None` where a frame breaks it.
pub open spec fn well_framed(state: FramingState, frames: Seq<Frame>) -> Option<FramingState>
    decreases frames.len(),
{
    if frames.len() == 0 {
        Some(state)
    } else {
        match state.follows(kind_of(frames[0])) {
            Some(next) => well_framed(next, frames.subrange(1, frames.len() as int)),
            None => None,
        }
    }
}

/// A stream that keeps the discipline, followed by one that keeps it from where the
/// first ended, keeps it as a whole.
pub proof fn lemma_well_framed_concat(state: FramingState, first: Seq<Frame>, second: Seq<Frame>)
    requires
        well_framed(state, first) is Some,
    ensures
        well_framed(state, first + second) == well_framed(well_framed(state, first)->0, second),
    decreases first.len(),
{
    if first.len() == 0 {
        assert(first + second =~= second);
    } else {
        let next = state.follows(kind_of(first[0]))->0;
        let rest = first.subrange(1, first.len() as int);
        assert((first + second)[0] == first[0]);
        assert((first + second).subrange(1, (first + second).len() as int) =~= rest + second);
        lemma_well_framed_concat(next, rest, second);
    }
}

/// A stream that keeps the discipline holds no frame of a type other than voice.
pub proof fn lemma_disciplined_frames_are_voice(state: FramingState, frames: Seq<Frame>, k: int)
    requires
        well_framed(state, frames) is Some,
        0 <= k < frames.len(),
    ensures
        kind_of(frames[k]) != FrameKind::Other,
    decreases frames.len(),
{
    if k > 0 {
        let next = state.follows(kind_of(frames[0]))->0;
        let rest = frames.subrange(1, frames.len() as int);
        assert(rest[k - 1] == frames[k]);
        lemma_disciplined_frames_are_voice(next, rest, k - 1);
    }
}

/// While talking, any number of voice frames keeps the discipline and the burst open.
pub proof fn lemma_voice_keeps_talking(frames: Seq<Frame>)
    requires
        forall|i: int| 0 <= i < frames.len() ==> kind_of(#[trigger] frames[i]) == FrameKind::Voice,
    ensures
        well_framed(FramingState::Talking, frames) == Some(FramingState::Talking),
    decreases frames.len(),
{
    if frames.len() > 0 {
        let rest = frames.subrange(1, frames.len() as int);
        assert(kind_of(frames[0]) == FrameKind::Voice);
        assert forall|i: int| 0 <= i < rest.len() implies kind_of(#[trigger] rest[i])
            == FrameKind::Voice by {
            assert(rest[i] == frames[i + 1]);
        }
        lemma_voice_keeps_talking(rest);
    }
}

} // verus!
