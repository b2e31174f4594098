//! Short-lived annotations: each message lives for a fixed time and is
//! swept away once it is older than that.

use vstd::prelude::*;
use vstd::string::StringExecFns;
use crate::clock::wall_clock_millis;
use crate::notation::painter::Color;

verus! {

/// One annotation: its text, its colour, when it was made and how long it
/// lives, both in milliseconds.
#[derive(Debug)]
pub struct FeedbackEvent {
    pub message: String,
    pub color: Color,
    pub timestamp: u64,
    pub duration: u64,
}

pub struct FeedbackEventView {
    pub message: Seq<char>,
    pub color: Color,
    pub timestamp: u64,
    pub duration: u64,
}

impl View for FeedbackEvent {
    type V = FeedbackEventView;

    open spec fn view(&self) -> FeedbackEventView {
        FeedbackEventView {
            message: self.message@,
            color: self.color,
            timestamp: self.timestamp,
            duration: self.duration,
        }
    }
}

pub struct FeedbackSystem {
    active_events: Vec<FeedbackEvent>,
    duration: u64,
}

/// How long an annotation lives unless another duration is asked for, in
/// milliseconds.
pub const FEEDBACK_MILLIS: u64 = 1000;

pub open spec fn correct_feedback(now: u64, duration: u64) -> FeedbackEventView {
    FeedbackEventView {
        message: "Correct!"@,
        color: Color::rgb(0, 150, 0),
        timestamp: now,
        duration,
    }
}

pub open spec fn incorrect_feedback(now: u64, duration: u64) -> FeedbackEventView {
    FeedbackEventView {
        message: "Try again"@,
        color: Color::rgb(200, 0, 0),
        timestamp: now,
        duration,
    }
}

/// The age of an annotation at time `now`: zero if the clock has gone
/// back behind its making.
pub open spec fn age(event: FeedbackEventView, now: u64) -> int {
    if now >= event.timestamp {
        now - event.timestamp
    } else {
        0
    }
}

/// An annotation lives until its age exceeds its duration.
pub open spec fn is_live(event: FeedbackEventView, now: u64) -> bool {
    age(event, now) <= event.duration
}

/// The annotations that are live at time `now`, in their order.
pub open spec fn live_events(events: Seq<FeedbackEventView>, now: u64) -> Seq<FeedbackEventView> {
    events.filter(|event: FeedbackEventView| is_live(event, now))
}

impl View for FeedbackSystem {
    type V = Seq<FeedbackEventView>;

    closed spec fn view(&self) -> Seq<FeedbackEventView> {
        Seq::new(self.active_events@.len(), |i: int| self.active_events@[i]@)
    }
}

impl FeedbackSystem {
    /// How long the annotations made from now on live, in milliseconds.
    pub closed spec fn duration(&self) -> u64 {
        self.duration
    }

    pub fn new() -> (system: FeedbackSystem)
        ensures
            system@ == Seq::<FeedbackEventView>::empty(),
            system.duration() == FEEDBACK_MILLIS,
    {
        let system = FeedbackSystem { active_events: Vec::new(), duration: FEEDBACK_MILLIS };
        assert(system@ =~= Seq::<FeedbackEventView>::empty());
        system
    }

    /// A feedback timer whose annotations live for the given number of
    /// milliseconds.
    pub fn with_duration(duration: u64) -> (system: FeedbackSystem)
        ensures
            system@ == Seq::<FeedbackEventView>::empty(),
            system.duration() == duration,
    {
        let system = FeedbackSystem { active_events: Vec::new(), duration };
        assert(system@ =~= Seq::<FeedbackEventView>::empty());
        system
    }

    /// Notes a correct hit, made now by the wall clock.
    pub fn add_correct_note_feedback(&mut self)
        ensures
            final(self).duration() == old(self).duration(),
            exists|now: u64|
                final(self)@ == old(self)@.push(correct_feedback(now, old(self).duration())),
    {
        let now: u64 = wall_clock_millis();
        self.add_correct_note_feedback_at(now);
    }

    /// Notes a correct hit made at time `now`.
    pub fn add_correct_note_feedback_at(&mut self, now: u64)
        ensures
            final(self).duration() == old(self).duration(),
            final(self)@ == old(self)@.push(correct_feedback(now, old(self).duration())),
    {
        self.active_events.push(
            FeedbackEvent {
                message: String::from_str("Correct!"),
                color: Color::from_rgb(0, 150, 0),
                timestamp: now,
                duration: self.duration,
            },
        );
        assert(self@ =~= old(self)@.push(correct_feedback(now, old(self).duration())));
    }

    /// Notes a miss, made now by the wall clock.
    pub fn add_incorrect_note_feedback(&mut self)
        ensures
            final(self).duration() == old(self).duration(),
            exists|now: u64|
                final(self)@ == old(self)@.push(incorrect_feedback(now, old(self).duration())),
    {
        let now: u64 = wall_clock_millis();
        self.add_incorrect_note_feedback_at(now);
    }

    /// Notes a miss made at time `now`.
    pub fn add_incorrect_note_feedback_at(&mut self, now: u64)
        ensures
            final(self).duration() == old(self).duration(),
            final(self)@ == old(self)@.push(incorrect_feedback(now, old(self).duration())),
    {
        self.active_events.push(
            FeedbackEvent {
                message: String::from_str("Try again"),
                color: Color::from_rgb(200, 0, 0),
                timestamp: now,
                duration: self.duration,
            },
        );
        assert(self@ =~= old(self)@.push(incorrect_feedback(now, old(self).duration())));
    }

    /// Sweeps away the annotations whose age exceeds their duration, as of
    /// now by the wall clock.
    pub fn update(&mut self)
        ensures
            final(self).duration() == old(self).duration(),
            exists|now: u64| final(self)@ == live_events(old(self)@, now),
    {
        let now: u64 = wall_clock_millis();
        self.update_at(now);
    }

    /// Sweeps away the annotations whose age exceeds their duration as of
    /// time `now`. The others stay, in their order.
    pub fn update_at(&mut self, now: u64)
        ensures
            final(self).duration() == old(self).duration(),
            final(self)@ == live_events(old(self)@, now),
    {
        let mut kept: Vec<FeedbackEvent> = Vec::new();
        let ghost mut kept_view: Seq<FeedbackEventView> = Seq::empty();
        let ghost live = |event: FeedbackEventView| is_live(event, now);
        let mut i: usize = 0;
        proof {
            reveal_with_fuel(Seq::<_>::filter, 2);
            assert(self@.take(0) =~= Seq::<FeedbackEventView>::empty());
        }
        while i < self.active_events.len()
            invariant
                0 <= i <= self.active_events@.len(),
                self.active_events@ == old(self).active_events@,
                self.duration == old(self).duration,
                live == (|event: FeedbackEventView| is_live(event, now)),
                kept_view == self@.take(i as int).filter(live),
                kept_view == Seq::new(kept@.len(), |k: int| kept@[k]@),
            decreases self.active_events@.len() - i,
        {
            let event = &self.active_events[i];
            proof {
                assert(self@.take(i + 1).drop_last() =~= self@.take(i as int));
                assert(self@.take(i + 1).last() == event@);
            }
            let age: u64 = if now >= event.timestamp {
                now - event.timestamp
            } else {
                0
            };
            proof {
                let longer = self@.take(i + 1);
                reveal_with_fuel(Seq::<_>::filter, 2);
                assert(live(event@) == is_live(event@, now));
                assert(longer.filter(live) == if live(longer.last()) {
                    longer.drop_last().filter(live).push(longer.last())
                } else {
                    longer.drop_last().filter(live)
                });
            }
            if age <= event.duration {
                let copy = FeedbackEvent {
                    message: event.message.clone(),
                    color: event.color,
                    timestamp: event.timestamp,
                    duration: event.duration,
                };
                kept.push(copy);
                proof {
                    kept_view = kept_view.push(event@);
                    assert(kept_view =~= Seq::new(kept@.len(), |k: int| kept@[k]@));
                }
            }
            i = i + 1;
        }
        proof {
            assert(self@.take(i as int) =~= self@);
        }
        self.active_events = kept;
    }

    /// The live annotations as coloured labels, in the order in which they
    /// were made.
    pub fn render(&self) -> (labels: Vec<(Color, String)>)
        ensures
            labels@.len() == self@.len(),
            forall|i: int|
                0 <= i < labels@.len() ==> (#[trigger] labels@[i]).0 == self@[i].color
                    && labels@[i].1@ == self@[i].message,
    {
        let mut labels: Vec<(Color, String)> = Vec::new();
        let mut i: usize = 0;
        while i < self.active_events.len()
            invariant
                0 <= i <= self.active_events@.len(),
                labels@.len() == i,
                forall|k: int|
                    0 <= k < i ==> (#[trigger] labels@[k]).0 == self@[k].color && labels@[k].1@
                        == self@[k].message,
            decreases self.active_events@.len() - i,
        {
            let event = &self.active_events[i];
            labels.push((event.color, event.message.clone()));
            i = i + 1;
        }
        labels
    }
}

/// A second sweep at the same time changes nothing.
pub proof fn lemma_second_sweep_changes_nothing(events: Seq<FeedbackEventView>, now: u64)
    ensures
        live_events(live_events(events, now), now) == live_events(events, now),
    decreases events.len(),
{
    reveal_with_fuel(Seq::<_>::filter, 2);
    let live = |event: FeedbackEventView| is_live(event, now);
    if events.len() > 0 {
        lemma_second_sweep_changes_nothing(events.drop_last(), now);
        let kept = events.drop_last().filter(live);
        if live(events.last()) {
            assert(kept.push(events.last()).drop_last() =~= kept);
        }
    }
}

} // verus!
