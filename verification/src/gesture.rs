//! Pointer gestures of the real-input tier, step by step.
//!
//! A gesture first places the pointer: it commands a position, reads the
//! cursor back and corrects, a bounded number of times. Only once the cursor
//! was read on target does it click. The arithmetic of a correction and the
//! moves themselves are the caller's; what comes next is decided here.
use crate::real_input::{CLICK_PAUSE_MS, MAX_PLACEMENT_ITERS};
use vstd::prelude::*;

verus! {

/// How far a gesture has come.
#[derive(Debug, Clone, Copy, PartialEq, Eq)]
pub enum GesturePhase {
    /// The pointer was commanded `corrections` times before and was off
    /// target each time; now it is commanded again.
    Placing { corrections: usize },
    /// The pointer was found on target after `iterations` commands, and
    /// `clicked` clicks are done.
    Clicking { iterations: usize, clicked: usize },
    /// Nothing more is done.
    Ended,
}

/// A gesture under way: a placement followed by `clicks` clicks.
#[derive(Debug, Clone, Copy, PartialEq, Eq)]
pub struct Gesture {
    pub clicks: usize,
    pub phase: GesturePhase,
}

/// What came of the last action.
#[derive(Debug, Clone, Copy, PartialEq, Eq)]
pub enum GestureEvent {
    /// The pointer was moved, and the cursor was read within the tolerance of
    /// its target.
    OnTarget,
    /// The pointer was moved, and the cursor was read elsewhere.
    OffTarget,
    /// The button was clicked.
    Clicked,
    /// The action failed.
    Failed,
}

/// What is to be done next.
#[derive(Debug, Clone, Copy, PartialEq, Eq)]
pub enum GestureAction {
    /// Command the pointer and read the cursor back.
    Move,
    /// Wait some milliseconds, then click.
    Click { pause_ms: u64 },
    /// Report where the pointer was placed, and after how many commands.
    Finish { iterations: usize },
    /// Report that the placement did not converge.
    Refuse,
    /// Report the failure of the last action.
    Fail,
}

impl Gesture {
    /// Whether the counts are those of a gesture under way.
    pub open spec fn valid(self) -> bool {
        match self.phase {
            GesturePhase::Placing { corrections } => corrections < MAX_PLACEMENT_ITERS,
            GesturePhase::Clicking { iterations, clicked } => 1 <= iterations <= MAX_PLACEMENT_ITERS
                && clicked < self.clicks,
            GesturePhase::Ended => true,
        }
    }

    /// The gesture after an event, and what is to be done.
    pub open spec fn advanced(self, event: GestureEvent) -> (Gesture, GestureAction) {
        let ended = Gesture { clicks: self.clicks, phase: GesturePhase::Ended };
        match (self.phase, event) {
            (GesturePhase::Placing { corrections }, GestureEvent::OnTarget) => if self.clicks == 0 {
                (ended, GestureAction::Finish { iterations: (corrections + 1) as usize })
            } else {
                (
                    Gesture {
                        clicks: self.clicks,
                        phase: GesturePhase::Clicking {
                            iterations: (corrections + 1) as usize,
                            clicked: 0,
                        },
                    },
                    GestureAction::Click { pause_ms: 0 },
                )
            },
            (GesturePhase::Placing { corrections }, GestureEvent::OffTarget) => if corrections + 1
                < MAX_PLACEMENT_ITERS {
                (
                    Gesture {
                        clicks: self.clicks,
                        phase: GesturePhase::Placing { corrections: (corrections + 1) as usize },
                    },
                    GestureAction::Move,
                )
            } else {
                (ended, GestureAction::Refuse)
            },
            (GesturePhase::Clicking { iterations, clicked }, GestureEvent::Clicked) => if clicked + 1
                < self.clicks {
                (
                    Gesture {
                        clicks: self.clicks,
                        phase: GesturePhase::Clicking {
                            iterations,
                            clicked: (clicked + 1) as usize,
                        },
                    },
                    GestureAction::Click { pause_ms: CLICK_PAUSE_MS },
                )
            } else {
                (ended, GestureAction::Finish { iterations })
            },
            _ => (ended, GestureAction::Fail),
        }
    }

    /// A placement without a click. Its first action is a move.
    pub fn movement() -> (r: Gesture)
        ensures
            r == (Gesture { clicks: 0, phase: GesturePhase::Placing { corrections: 0 } }),
            r.valid(),
    {
        Gesture { clicks: 0, phase: GesturePhase::Placing { corrections: 0 } }
    }

    /// A placement followed by `count` clicks. Its first action is a move.
    pub fn click(count: usize) -> (r: Gesture)
        ensures
            r == (Gesture { clicks: count, phase: GesturePhase::Placing { corrections: 0 } }),
            r.valid(),
    {
        Gesture { clicks: count, phase: GesturePhase::Placing { corrections: 0 } }
    }

    /// Takes an event and says what is to be done.
    pub fn advance(&mut self, event: GestureEvent) -> (action: GestureAction)
        requires
            old(self).valid(),
        ensures
            (*final(self), action) == old(self).advanced(event),
            final(self).valid(),
    {
        let clicks: usize = self.clicks;
        match (self.phase, event) {
            (GesturePhase::Placing { corrections }, GestureEvent::OnTarget) => {
                let iterations: usize = corrections + 1;
                if clicks == 0 {
                    self.phase = GesturePhase::Ended;
                    GestureAction::Finish { iterations }
                } else {
                    self.phase = GesturePhase::Clicking { iterations, clicked: 0 };
                    GestureAction::Click { pause_ms: 0 }
                }
            },
            (GesturePhase::Placing { corrections }, GestureEvent::OffTarget) => {
                if corrections + 1 < MAX_PLACEMENT_ITERS {
                    self.phase = GesturePhase::Placing { corrections: corrections + 1 };
                    GestureAction::Move
                } else {
                    self.phase = GesturePhase::Ended;
                    GestureAction::Refuse
                }
            },
            (GesturePhase::Clicking { iterations, clicked }, GestureEvent::Clicked) => {
                if clicked + 1 < clicks {
                    self.phase = GesturePhase::Clicking { iterations, clicked: clicked + 1 };
                    GestureAction::Click { pause_ms: CLICK_PAUSE_MS }
                } else {
                    self.phase = GesturePhase::Ended;
                    GestureAction::Finish { iterations }
                }
            },
            _ => {
                self.phase = GesturePhase::Ended;
                GestureAction::Fail
            },
        }
    }
}

// Laws

/// A gesture after a series of events.
pub open spec fn after_events(g: Gesture, events: Seq<GestureEvent>) -> Gesture
    decreases events.len(),
{
    if events.len() == 0 {
        g
    } else {
        let (next, _) = after_events(g, events.drop_last()).advanced(events.last());
        next
    }
}

/// What a gesture asks for after a series of events: a move at first, then
/// what the last event led to.
pub open spec fn asked(g: Gesture, events: Seq<GestureEvent>) -> GestureAction {
    if events.len() == 0 {
        GestureAction::Move
    } else {
        let (_, action) = after_events(g, events.drop_last()).advanced(events.last());
        action
    }
}

/// How often an action of a kind was asked for during a series of events.
pub open spec fn times_asked(
    g: Gesture,
    events: Seq<GestureEvent>,
    kind: spec_fn(GestureAction) -> bool,
) -> nat
    decreases events.len(),
{
    let last: nat = if kind(asked(g, events)) {
        1
    } else {
        0
    };
    if events.len() == 0 {
        last
    } else {
        times_asked(g, events.drop_last(), kind) + last
    }
}

/// A gesture that has only begun.
pub open spec fn begun(g: Gesture) -> bool {
    g.phase == (GesturePhase::Placing { corrections: 0 })
}

/// What the phase tells of the events so far.
proof fn lemma_phase(g: Gesture, events: Seq<GestureEvent>)
    requires
        begun(g),
    ensures
        after_events(g, events).valid(),
        after_events(g, events).clicks == g.clicks,
        (match after_events(g, events).phase {
            GesturePhase::Placing { corrections } => {
                &&& corrections == events.len()
                &&& asked(g, events) is Move
                &&& forall|i: int| 0 <= i < events.len() ==> #[trigger] events[i] == GestureEvent::OffTarget
            },
            GesturePhase::Clicking { iterations, clicked } => {
                &&& events.len() == iterations + clicked
                &&& asked(g, events) is Click
                &&& events[iterations - 1] == GestureEvent::OnTarget
                &&& forall|i: int| 0 <= i < iterations - 1 ==> #[trigger] events[i] == GestureEvent::OffTarget
                &&& forall|i: int| iterations <= i < events.len() ==> #[trigger] events[i] == GestureEvent::Clicked
            },
            GesturePhase::Ended => !(asked(g, events) is Move) && !(asked(g, events) is Click),
        }),
    decreases events.len(),
{
    if events.len() > 0 {
        let before = events.drop_last();
        lemma_phase(g, before);
        assert forall|i: int| 0 <= i < before.len() implies #[trigger] events[i] == before[i] by {}
    }
}

/// However often the actions fail or go astray, a click is asked for only
/// after the cursor was read on target, and since then nothing was done but
/// click.
pub proof fn law_clicks_follow_a_verified_placement(g: Gesture, events: Seq<GestureEvent>)
    requires
        begun(g),
        asked(g, events) is Click,
    ensures
        exists|k: int|
            0 <= k < events.len() && #[trigger] events[k] == GestureEvent::OnTarget && forall|i: int|
                k < i < events.len() ==> #[trigger] events[i] == GestureEvent::Clicked,
{
    lemma_phase(g, events);
    if let GesturePhase::Clicking { iterations, clicked } = after_events(g, events).phase {
        assert(events[iterations - 1] == GestureEvent::OnTarget);
    }
}

/// The pointer is commanded a bounded number of times.
pub proof fn law_placements_are_bounded(g: Gesture, events: Seq<GestureEvent>)
    requires
        begun(g),
    ensures
        times_asked(g, events, |a: GestureAction| a is Move) <= MAX_PLACEMENT_ITERS,
    decreases events.len(),
{
    lemma_moves(g, events);
}

/// The moves so far, by the phase.
proof fn lemma_moves(g: Gesture, events: Seq<GestureEvent>)
    requires
        begun(g),
    ensures
        times_asked(g, events, |a: GestureAction| a is Move) <= MAX_PLACEMENT_ITERS,
        (after_events(g, events).phase matches GesturePhase::Placing { corrections } ==> times_asked(
            g,
            events,
            |a: GestureAction| a is Move,
        ) == corrections + 1),
    decreases events.len(),
{
    lemma_phase(g, events);
    if events.len() > 0 {
        lemma_phase(g, events.drop_last());
        lemma_moves(g, events.drop_last());
    }
}

/// The clicks so far, by the phase.
proof fn lemma_clicks(g: Gesture, events: Seq<GestureEvent>)
    requires
        begun(g),
    ensures
        (match after_events(g, events).phase {
            GesturePhase::Placing { .. } => times_asked(g, events, |a: GestureAction| a is Click) == 0,
            GesturePhase::Clicking { clicked, .. } => times_asked(
                g,
                events,
                |a: GestureAction| a is Click,
            ) == clicked + 1,
            GesturePhase::Ended => times_asked(g, events, |a: GestureAction| a is Click) <= g.clicks,
        }),
        asked(g, events) is Finish ==> times_asked(g, events, |a: GestureAction| a is Click)
            == g.clicks,
    decreases events.len(),
{
    lemma_phase(g, events);
    if events.len() > 0 {
        lemma_phase(g, events.drop_last());
        lemma_clicks(g, events.drop_last());
    }
}

/// A gesture that finishes has asked for each of its clicks once, and no
/// gesture asks for more.
pub proof fn law_finished_gestures_clicked_to_the_end(g: Gesture, events: Seq<GestureEvent>)
    requires
        begun(g),
    ensures
        times_asked(g, events, |a: GestureAction| a is Click) <= g.clicks,
        asked(g, events) is Finish ==> times_asked(g, events, |a: GestureAction| a is Click)
            == g.clicks,
{
    lemma_phase(g, events);
    lemma_clicks(g, events);
}

} // verus!
