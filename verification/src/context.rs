//! The bridge as the command layer sees it: one call attached at a time.
//!
//! `DMRContext` holds both pipelines and the call that they serve. The command layer
//! attaches a call when the bridge joins a voice channel and detaches it on leaving.
//! The pipelines are started once, at the first attachment, and then stay: while no
//! call is attached they are inert. No audio of the radio side is played, and events
//! of the voice platform send nothing. Detaching in the middle of a burst closes the
//! burst towards the radio side. The sequence counter of the uplink goes on over any
//! number of attachments.
use crate::framing::{lemma_disciplined_frames_are_voice, FramingState};
use crate::packet::{encoded, Frame};
use crate::receiver::{
    lemma_disciplined_stream_is_played, rendering, Action, Downlink, Receiver,
};
use crate::transmitter::{
    carries, lemma_uplink_frames_wf, lemma_uplink_well_framed, Transmitter, Uplink, VoiceEvent,
};
use vstd::prelude::*;

verus! {

/// The bridge as a mathematical value.
pub struct Bridge {
    /// The downlink; it knows whether a call is attached.
    pub downlink: Downlink,
    /// The uplink.
    pub uplink: Uplink,
    /// Whether the pipelines were started.
    pub running: bool,
}

impl Bridge {
    /// The bridge after an event of the voice platform, and the frames to send for
    /// it: those of the uplink while a call is attached, and none while not.
    pub open spec fn voice_event(self, event: VoiceEvent) -> (Bridge, Seq<Frame>) {
        if self.downlink.attached {
            (Bridge { uplink: self.uplink.step(event).0, ..self }, self.uplink.step(event).1)
        } else {
            (self, Seq::empty())
        }
    }

    /// The bridge after the call was detached, and the frames to send for it: the
    /// end frame of the burst that was open, if one was.
    pub open spec fn detach(self) -> (Bridge, Seq<Frame>) {
        (
            Bridge {
                downlink: Downlink { attached: false, ..self.downlink },
                uplink: self.uplink.step(VoiceEvent::SpeakingUpdate(false)).0,
                ..self
            },
            self.uplink.step(VoiceEvent::SpeakingUpdate(false)).1,
        )
    }
}

/// After the call was detached no burst is open towards the radio side, and no event
/// of the voice platform sends anything until a call is attached again.
pub proof fn lemma_detached_is_silent(bridge: Bridge, event: VoiceEvent)
    ensures
        bridge.detach().0.uplink.state == FramingState::Idle,
        bridge.detach().0.voice_event(event) == (bridge.detach().0, Seq::<Frame>::empty()),
{
}

/// What one bridge sends, another bridge with a call attached plays in full: whatever
/// the events, every voice frame of the uplink is decoded and played by a downlink
/// that starts out in step with it, none is dropped, and the two end in step.
pub proof fn lemma_uplink_is_heard(uplink: Uplink, events: Seq<VoiceEvent>, downlink: Downlink)
    requires
        downlink.attached,
        downlink.state == uplink.state,
    ensures
        downlink.run(encoded(uplink.run(events).1)).0.state == uplink.run(events).0.state,
        downlink.run(encoded(uplink.run(events).1)).1.len() == uplink.run(events).1.len(),
        forall|k: int|
            0 <= k < uplink.run(events).1.len() ==> (#[trigger] downlink.run(
                encoded(uplink.run(events).1),
            ).1[k]) == rendering(uplink.run(events).1[k]),
        forall|k: int|
            0 <= k < uplink.run(events).1.len() ==> !((#[trigger] downlink.run(
                encoded(uplink.run(events).1),
            ).1[k]) is Dropped),
{
    let frames = uplink.run(events).1;
    lemma_uplink_well_framed(uplink, events);
    lemma_uplink_frames_wf(uplink, events);
    lemma_disciplined_stream_is_played(downlink, frames);
    assert forall|k: int| 0 <= k < frames.len() implies !((#[trigger] downlink.run(
        encoded(frames),
    ).1[k]) is Dropped) by {
        lemma_disciplined_frames_are_voice(uplink.state, frames, k);
    }
}

/// The state that the command layer shares with both pipelines.
pub struct DMRContext<H> {
    receiver: Receiver<H>,
    transmitter: Transmitter,
    running: bool,
}

impl<H> View for DMRContext<H> {
    type V = Bridge;

    closed spec fn view(&self) -> Bridge {
        Bridge { downlink: self.receiver@, uplink: self.transmitter@, running: self.running }
    }
}

impl<H> DMRContext<H> {
    /// The call that the bridge is attached to.
    pub closed spec fn call(&self) -> Option<H> {
        self.receiver.call()
    }

    /// A bridge with no call attached, its pipelines not started, no burst open in
    /// either direction, and the sequence counter at 0.
    pub fn new() -> (context: DMRContext<H>)
        ensures
            context.call() is None,
            context@ == (Bridge {
                downlink: Downlink { attached: false, state: FramingState::Idle, dropped: 0 },
                uplink: Uplink { sequence: 0, state: FramingState::Idle, pending: Seq::empty() },
                running: false,
            }),
    {
        DMRContext { receiver: Receiver::new(), transmitter: Transmitter::new(), running: false }
    }

    /// Attaches `handle`, in place of the call attached before if there was one.
    /// Returns whether the pipelines have to be started now: they have at the first
    /// attachment, and never again.
    pub fn attach(&mut self, handle: H) -> (start: bool)
        ensures
            start == !old(self)@.running,
            final(self).call() == Some(handle),
            final(self)@ == (Bridge {
                downlink: Downlink { attached: true, ..old(self)@.downlink },
                running: true,
                ..old(self)@
            }),
    {
        self.receiver.set(handle);
        let start = !self.running;
        self.running = true;
        start
    }

    /// Detaches the call, if one is attached, and returns the datagrams to send for
    /// it: the end frame of the burst that was open towards the radio side, if one
    /// was.
    pub fn detach(&mut self) -> (datagrams: Vec<Vec<u8>>)
        ensures
            final(self).call() is None,
            final(self)@ == old(self)@.detach().0,
            carries(datagrams@, old(self)@.detach().1),
    {
        self.receiver.unset();
        self.transmitter.act(&VoiceEvent::SpeakingUpdate(false))
    }

    /// The call that the bridge is attached to.
    pub fn handle(&self) -> (handle: Option<&H>)
        ensures
            handle is Some <==> self@.downlink.attached,
            match handle {
                Some(h) => self.call() == Some(*h),
                None => self.call() is None,
            },
    {
        self.receiver.device()
    }

    /// Whether the pipelines were started.
    pub fn running(&self) -> (running: bool)
        ensures
            running == self@.running,
    {
        self.running
    }

    /// The downlink pipeline.
    pub fn receiver(&self) -> (receiver: &Receiver<H>)
        ensures
            receiver@ == self@.downlink,
            receiver.call() == self.call(),
    {
        &self.receiver
    }

    /// The uplink pipeline.
    pub fn transmitter(&self) -> (transmitter: &Transmitter)
        ensures
            transmitter@ == self@.uplink,
    {
        &self.transmitter
    }

    /// Takes one event of the voice platform and returns the datagrams to send for
    /// it, in order. While no call is attached there are none, and the event changes
    /// nothing.
    ///
    /// The event must be of a kind that the bridge registers for.
    pub fn voice_event(&mut self, event: &VoiceEvent) -> (datagrams: Vec<Vec<u8>>)
        requires
            !(event is Unsupported),
        ensures
            final(self).call() == old(self).call(),
            final(self)@ == old(self)@.voice_event(*event).0,
            carries(datagrams@, old(self)@.voice_event(*event).1),
    {
        if self.receiver.device().is_some() {
            self.transmitter.act(event)
        } else {
            Vec::new()
        }
    }

    /// Takes one datagram of the radio side and says what to do about it. The call
    /// attached and the uplink are not touched.
    pub fn datagram(&mut self, datagram: &[u8]) -> (action: Action)
        ensures
            final(self).call() == old(self).call(),
            final(self)@ == (Bridge {
                downlink: old(self)@.downlink.step(datagram@).0,
                ..old(self)@
            }),
            action@ == old(self)@.downlink.step(datagram@).1,
            action is Play ==> old(self).call() is Some,
    {
        self.receiver.receive(datagram)
    }
}

} // verus!
