//! The render loop's decision logic as a state machine.
//!
//! The asynchronous shell around it observes one progress change (or
//! the closing of the change subscription) at a time and hands it in as
//! an event; `step` decides what to put on the terminal and how. Frames
//! are produced only for a change whose total size is known, one frame
//! per change, and never after the subscription has closed.
use crate::progress_bar::{frame_text, ProgressBar};
use vstd::prelude::*;

verus! {

/// Where the loop stands: nothing drawn yet, exactly one frame drawn,
/// overwriting earlier frames, or done for good.
#[derive(Clone, Copy, PartialEq, Eq, Structural, Debug)]
pub enum RenderPhase {
    Idle,
    FirstFrame,
    Redrawing,
    Stopped,
}

/// One observation handed to the loop: either the progress signal
/// changed, with the bytes downloaded so far, the total size as far as
/// it is known, and a throughput sample, or the signal closed because
/// the transfer resolved.
#[derive(Clone, Copy, PartialEq, Eq, Structural, Debug)]
pub enum RenderEvent {
    Changed { downloaded: u64, total: Option<u64>, speed: u64 },
    Closed,
}

/// What the shell must do with the terminal for one event: nothing,
/// print the very first frame plainly, erase the previous frame and
/// print a new one, or exit the loop.
pub enum RenderAction {
    Wait,
    PrintFirst(String),
    Redraw(String),
    Stop,
}

/// An event the transfer engine can produce: while the total size is
/// known, the bytes downloaded never exceed it and the total is
/// positive.
pub open spec fn event_wf(event: RenderEvent) -> bool {
    match event {
        RenderEvent::Changed { downloaded, total, speed } => match total {
            Some(t) => 0 < t && downloaded <= t,
            None => true,
        },
        RenderEvent::Closed => true,
    }
}

/// The phase after handling one event.
pub open spec fn next_phase(phase: RenderPhase, event: RenderEvent) -> RenderPhase {
    match event {
        RenderEvent::Closed => RenderPhase::Stopped,
        RenderEvent::Changed { downloaded, total, speed } => match phase {
            RenderPhase::Stopped => RenderPhase::Stopped,
            RenderPhase::Idle => if total is Some {
                RenderPhase::FirstFrame
            } else {
                RenderPhase::Idle
            },
            _ => if total is Some {
                RenderPhase::Redrawing
            } else {
                phase
            },
        },
    }
}

/// Whether handling one event in the given phase puts a frame on the
/// terminal.
pub open spec fn emits_frame(phase: RenderPhase, event: RenderEvent) -> bool {
    match event {
        RenderEvent::Closed => false,
        RenderEvent::Changed { downloaded, total, speed } => phase != RenderPhase::Stopped
            && total is Some,
    }
}

/// The loop's state: the frame renderer and the phase reached so far.
pub struct RenderLoop {
    pub bar: ProgressBar,
    pub phase: RenderPhase,
}

impl RenderLoop {
    /// A loop that has not yet drawn anything.
    pub fn new(bar: ProgressBar) -> (r: Self)
        ensures
            r.phase == RenderPhase::Idle,
            r.bar == bar,
    {
        RenderLoop { bar, phase: RenderPhase::Idle }
    }

    /// The phase reached so far.
    pub fn phase(&self) -> (p: RenderPhase)
        ensures
            p == self.phase,
    {
        self.phase
    }

    /// Handles one event: moves to the next phase and says what to put
    /// on the terminal. A frame is produced exactly for a change with a
    /// known total in a phase other than `Stopped`; the first such
    /// change is printed plainly and every later one as an overwrite;
    /// the close of the subscription stops the loop and never yields a
    /// frame.
    pub fn step(&mut self, event: RenderEvent) -> (action: RenderAction)
        requires
            event_wf(event),
        ensures
            final(self).phase == next_phase(old(self).phase, event),
            final(self).bar == old(self).bar,
            match event {
                RenderEvent::Closed => action is Stop,
                RenderEvent::Changed { downloaded, total, speed } => match total {
                    None => action is Wait,
                    Some(t) => {
                        if old(self).phase == RenderPhase::Stopped {
                            action is Wait
                        } else if old(self).phase == RenderPhase::Idle {
                            action matches RenderAction::PrintFirst(frame) && (exists|
                                elapsed_cs: nat,
                            |
                                frame@ == frame_text(
                                    downloaded as nat,
                                    t as nat,
                                    speed as nat,
                                    elapsed_cs,
                                    old(self).bar.bar_width as nat,
                                ))
                        } else {
                            action matches RenderAction::Redraw(frame) && (exists|
                                elapsed_cs: nat,
                            |
                                frame@ == frame_text(
                                    downloaded as nat,
                                    t as nat,
                                    speed as nat,
                                    elapsed_cs,
                                    old(self).bar.bar_width as nat,
                                ))
                        }
                    },
                },
            },
            (action is PrintFirst || action is Redraw) == emits_frame(old(self).phase, event),
    {
        match event {
            RenderEvent::Closed => {
                self.phase = RenderPhase::Stopped;
                RenderAction::Stop
            },
            RenderEvent::Changed { downloaded, total, speed } => match total {
                None => RenderAction::Wait,
                Some(t) => {
                    match self.phase {
                        RenderPhase::Stopped => RenderAction::Wait,
                        RenderPhase::Idle => {
                            let frame = self.bar.update(downloaded, t, speed);
                            self.phase = RenderPhase::FirstFrame;
                            RenderAction::PrintFirst(frame)
                        },
                        _ => {
                            let frame = self.bar.update(downloaded, t, speed);
                            self.phase = RenderPhase::Redrawing;
                            RenderAction::Redraw(frame)
                        },
                    }
                },
            },
        }
    }
}

/// The phase after handling a whole sequence of events in order.
pub open spec fn run_phase(phase: RenderPhase, events: Seq<RenderEvent>) -> RenderPhase
    decreases events.len(),
{
    if events.len() == 0 {
        phase
    } else {
        run_phase(next_phase(phase, events[0]), events.drop_first())
    }
}

/// How many frames handling a whole sequence of events in order puts
/// on the terminal.
pub open spec fn frames_emitted(phase: RenderPhase, events: Seq<RenderEvent>) -> nat
    decreases events.len(),
{
    if events.len() == 0 {
        0
    } else {
        (if emits_frame(phase, events[0]) {
            1nat
        } else {
            0nat
        }) + frames_emitted(next_phase(phase, events[0]), events.drop_first())
    }
}

/// How many change notifications a sequence of events holds.
pub open spec fn changes_seen(events: Seq<RenderEvent>) -> nat
    decreases events.len(),
{
    if events.len() == 0 {
        0
    } else {
        (if events[0] is Changed {
            1nat
        } else {
            0nat
        }) + changes_seen(events.drop_first())
    }
}

/// Law: a stopped loop stays stopped and never emits another frame,
/// whatever events still arrive.
pub proof fn lemma_stopped_emits_nothing(events: Seq<RenderEvent>)
    ensures
        run_phase(RenderPhase::Stopped, events) == RenderPhase::Stopped,
        frames_emitted(RenderPhase::Stopped, events) == 0,
    decreases events.len(),
{
    if events.len() > 0 {
        assert(next_phase(RenderPhase::Stopped, events[0]) == RenderPhase::Stopped);
        lemma_stopped_emits_nothing(events.drop_first());
    }
}

/// Law: no frame is ever emitted after the event that closed the
/// subscription; from that point on the loop is stopped.
pub proof fn lemma_no_frame_after_close(phase: RenderPhase, events: Seq<RenderEvent>, i: int)
    requires
        0 <= i < events.len(),
        events[i] is Closed,
    ensures
        run_phase(phase, events.take(i + 1)) == RenderPhase::Stopped,
        frames_emitted(run_phase(phase, events.take(i + 1)), events.skip(i + 1)) == 0,
    decreases events.len(),
{
    if i == 0 {
        assert(events.take(1).drop_first() =~= Seq::<RenderEvent>::empty());
        assert(events.take(1)[0] == events[0]);
        assert(run_phase(next_phase(phase, events[0]), Seq::<RenderEvent>::empty())
            == next_phase(phase, events[0]));
        assert(run_phase(phase, events.take(1)) == next_phase(phase, events[0]));
        assert(next_phase(phase, events[0]) == RenderPhase::Stopped);
        lemma_stopped_emits_nothing(events.skip(1));
    } else {
        let rest = events.drop_first();
        assert(events.take(i + 1).drop_first() =~= rest.take(i));
        assert(events.take(i + 1)[0] == events[0]);
        assert(rest[i - 1] == events[i]);
        lemma_no_frame_after_close(next_phase(phase, events[0]), rest, i - 1);
        assert(events.skip(i + 1) =~= rest.skip(i));
    }
}

/// Law: a run never emits more frames than it saw change
/// notifications; no event yields two frames and the close yields
/// none.
pub proof fn lemma_frames_need_changes(phase: RenderPhase, events: Seq<RenderEvent>)
    ensures
        frames_emitted(phase, events) <= changes_seen(events),
    decreases events.len(),
{
    if events.len() > 0 {
        lemma_frames_need_changes(next_phase(phase, events[0]), events.drop_first());
    }
}

/// Law: while the total size is unknown, the loop emits no frame at
/// all, whatever changes arrive.
pub proof fn lemma_unknown_total_no_frames(phase: RenderPhase, events: Seq<RenderEvent>)
    requires
        forall|j: int|
            0 <= j < events.len() ==> (#[trigger] events[j]) matches RenderEvent::Changed {
                total: None,
                ..
            },
    ensures
        frames_emitted(phase, events) == 0,
    decreases events.len(),
{
    if events.len() > 0 {
        assert(events.drop_first() =~= events.skip(1));
        assert(forall|j: int|
            0 <= j < events.drop_first().len() ==> (#[trigger] events.drop_first()[j])
                matches RenderEvent::Changed { total: None, .. });
        lemma_unknown_total_no_frames(next_phase(phase, events[0]), events.drop_first());
    }
}

} // verus!
