//! The mathematical model of a practice session, and what holds of it.

use vstd::prelude::*;
use crate::midi::input::{EventType, MidiEvent};
use crate::notation::notes::{Judgement, Note};

verus! {

#[derive(Clone, Copy, Debug, PartialEq, Eq, Structural)]
pub enum GameState {
    Stopped,
    Playing,
    Paused,
}

/// A practice session as a value: the expected notes with their
/// judgements, the cursor that marks the next note to be judged, the
/// pitches now held down, and the counters.
pub struct Session {
    pub state: GameState,
    pub notes: Seq<Note>,
    pub cursor: nat,
    pub held: Set<u8>,
    pub correct: nat,
    pub total: nat,
}

/// The note with its judgement replaced.
pub open spec fn judged(note: Note, judgement: Judgement) -> Note {
    Note { judgement, ..note }
}

/// The notes, none of them played yet.
pub open spec fn cleared(notes: Seq<Note>) -> Seq<Note> {
    Seq::new(notes.len(), |i: int| judged(notes[i], Judgement::Unplayed))
}

/// The pitches of the notes, in order.
pub open spec fn pitches(notes: Seq<Note>) -> Seq<u8> {
    Seq::new(notes.len(), |i: int| notes[i].pitch)
}

/// The pitches of the Note-On events among `events`, in order.
pub open spec fn note_on_pitches(events: Seq<MidiEvent>) -> Seq<u8>
    decreases events.len(),
{
    if events.len() == 0 {
        Seq::empty()
    } else if events[0].event_type == EventType::NoteOn {
        seq![events[0].note] + note_on_pitches(events.skip(1))
    } else {
        note_on_pitches(events.skip(1))
    }
}

impl Session {
    /// A session before its first note: cursor at the start, nothing held,
    /// nothing judged.
    pub open spec fn is_fresh(self) -> bool {
        &&& self.cursor == 0
        &&& self.held == Set::<u8>::empty()
        &&& forall|i: int|
            0 <= i < self.notes.len() ==> (#[trigger] self.notes[i]).judgement
                == Judgement::Unplayed
    }

    /// The invariant of a session. The cursor is within the notes, and the
    /// counters follow it. Every note before the cursor is correct, every
    /// note after it unplayed, and the note at the cursor is not yet
    /// correct. A stopped session is fresh.
    pub open spec fn wf(self) -> bool {
        &&& self.cursor <= self.notes.len()
        &&& self.total == self.notes.len()
        &&& self.correct == self.cursor
        &&& forall|i: int|
            0 <= i < self.cursor ==> (#[trigger] self.notes[i]).judgement == Judgement::Correct
        &&& forall|i: int|
            self.cursor < i < self.notes.len() ==> (#[trigger] self.notes[i]).judgement
                == Judgement::Unplayed
        &&& self.cursor < self.notes.len() ==> self.notes[self.cursor as int].judgement
            != Judgement::Correct
        &&& self.state == GameState::Stopped ==> self.is_fresh()
    }

    /// A session over `notes` that has not been started.
    pub open spec fn loaded(notes: Seq<Note>) -> Session {
        Session {
            state: GameState::Stopped,
            notes: cleared(notes),
            cursor: 0,
            held: Set::empty(),
            correct: 0,
            total: notes.len(),
        }
    }

    /// Starting a practice run: from any state to `Playing`, with the cursor
    /// at the start, nothing held, no note judged and none counted.
    pub open spec fn start_practice(self) -> Session {
        Session {
            state: GameState::Playing,
            notes: cleared(self.notes),
            cursor: 0,
            held: Set::empty(),
            correct: 0,
            total: self.total,
        }
    }

    /// Pausing toggles between `Playing` and `Paused`, and does nothing to
    /// a stopped session.
    pub open spec fn pause(self) -> Session {
        match self.state {
            GameState::Playing => Session { state: GameState::Paused, ..self },
            GameState::Paused => Session { state: GameState::Playing, ..self },
            GameState::Stopped => self,
        }
    }

    /// Resetting: as starting, but the session ends up `Stopped`.
    pub open spec fn reset(self) -> Session {
        Session { state: GameState::Stopped, ..self.start_practice() }
    }

    /// Judging a pressed pitch against the note at the cursor. A match
    /// marks the note correct, counts it, and moves the cursor on by one.
    /// A miss marks the note incorrect and leaves the cursor. Past the last
    /// note nothing happens.
    pub open spec fn check_current_note(self, pressed: u8) -> Session {
        if self.cursor >= self.notes.len() {
            self
        } else {
            let current = self.notes[self.cursor as int];
            if current.pitch == pressed {
                Session {
                    notes: self.notes.update(
                        self.cursor as int,
                        judged(current, Judgement::Correct),
                    ),
                    correct: self.correct + 1,
                    cursor: self.cursor + 1,
                    ..self
                }
            } else {
                Session {
                    notes: self.notes.update(
                        self.cursor as int,
                        judged(current, Judgement::Incorrect),
                    ),
                    ..self
                }
            }
        }
    }

    /// One event. Unless the session is playing it is ignored. A Note-On
    /// holds its pitch down and is judged; a Note-Off lets its pitch go.
    pub open spec fn on_event(self, event: MidiEvent) -> Session {
        if self.state != GameState::Playing {
            self
        } else {
            match event.event_type {
                EventType::NoteOn => Session {
                    held: self.held.insert(event.note),
                    ..self
                }.check_current_note(event.note),
                EventType::NoteOff => Session { held: self.held.remove(event.note), ..self },
            }
        }
    }

    /// The events one after another, in order of arrival.
    pub open spec fn run(self, events: Seq<MidiEvent>) -> Session
        decreases events.len(),
    {
        if events.len() == 0 {
            self
        } else {
            self.on_event(events[0]).run(events.skip(1))
        }
    }

    /// The part of the notes that is behind the cursor, as the numerator
    /// and the denominator of a fraction: 0 where there are no notes.
    pub open spec fn progress(self) -> (nat, nat) {
        if self.total == 0 {
            (0, 1)
        } else {
            (self.cursor, self.total)
        }
    }

    /// The correct notes so far and the number of notes.
    pub open spec fn score(self) -> (nat, nat) {
        (self.correct, self.total)
    }
}

/// Running one event more is running the events before it and then it.
pub proof fn lemma_run_one_more(s: Session, events: Seq<MidiEvent>, i: int)
    requires
        0 <= i < events.len(),
    ensures
        s.run(events.take(i + 1)) == s.run(events.take(i)).on_event(events[i]),
    decreases i,
{
    let longer = events.take(i + 1);
    if i == 0 {
        assert(longer.skip(1) =~= Seq::<MidiEvent>::empty());
        assert(events.take(0) =~= Seq::<MidiEvent>::empty());
        assert(s.on_event(longer[0]).run(longer.skip(1)) == s.on_event(events[0]));
    } else {
        let rest = events.skip(1);
        assert(longer.skip(1) =~= rest.take(i));
        assert(events.take(i).skip(1) =~= rest.take(i - 1));
        lemma_run_one_more(s.on_event(events[0]), rest, i - 1);
    }
}

/// Running two runs of events on end is running the one, then the other.
pub proof fn lemma_run_concat(s: Session, first: Seq<MidiEvent>, second: Seq<MidiEvent>)
    ensures
        s.run(first + second) == s.run(first).run(second),
    decreases first.len(),
{
    if first.len() == 0 {
        assert(first + second =~= second);
    } else {
        assert((first + second).skip(1) =~= first.skip(1) + second);
        lemma_run_concat(s.on_event(first[0]), first.skip(1), second);
    }
}

/// One event keeps the invariant and the notes' pitches, and moves the
/// cursor forward by one note or not at all.
pub proof fn lemma_event_moves_cursor_forward(s: Session, event: MidiEvent)
    requires
        s.wf(),
    ensures
        s.on_event(event).wf(),
        s.on_event(event).state == s.state,
        s.on_event(event).total == s.total,
        pitches(s.on_event(event).notes) == pitches(s.notes),
        s.cursor <= s.on_event(event).cursor <= s.cursor + 1,
        s.on_event(event).cursor <= s.notes.len(),
{
    assert(pitches(s.on_event(event).notes) =~= pitches(s.notes));
}

/// A run of events keeps the invariant, and the cursor never moves back
/// nor past the last note.
pub proof fn lemma_run_moves_cursor_forward(s: Session, events: Seq<MidiEvent>)
    requires
        s.wf(),
    ensures
        s.run(events).wf(),
        s.run(events).state == s.state,
        s.run(events).total == s.total,
        pitches(s.run(events).notes) == pitches(s.notes),
        s.cursor <= s.run(events).cursor <= s.notes.len(),
    decreases events.len(),
{
    if events.len() > 0 {
        lemma_event_moves_cursor_forward(s, events[0]);
        lemma_run_moves_cursor_forward(s.on_event(events[0]), events.skip(1));
        assert(s.notes.len() == pitches(s.notes).len());
        assert(s.on_event(events[0]).notes.len() == pitches(s.on_event(events[0]).notes).len());
    }
}

/// At every step of a run the cursor is within the notes, and at a later
/// step it is no further back than at an earlier one.
pub proof fn lemma_cursor_never_retreats(s: Session, events: Seq<MidiEvent>, i: int, j: int)
    requires
        s.wf(),
        0 <= i <= j <= events.len(),
    ensures
        s.run(events.take(i)).cursor <= s.run(events.take(j)).cursor <= s.notes.len(),
        s.run(events.take(j)).notes.len() == s.notes.len(),
{
    assert(events.take(j) =~= events.take(i) + events.subrange(i, j));
    lemma_run_concat(s, events.take(i), events.subrange(i, j));
    lemma_run_moves_cursor_forward(s, events.take(i));
    lemma_run_moves_cursor_forward(s.run(events.take(i)), events.subrange(i, j));
    let earlier = s.run(events.take(i));
    let later = s.run(events.take(j));
    assert(s.notes.len() == pitches(s.notes).len());
    assert(earlier.notes.len() == pitches(earlier.notes).len());
    assert(later.notes.len() == pitches(later.notes).len());
}

/// Within a run progress never falls: at a later step the fraction of
/// notes behind the cursor is at least what it was at an earlier one.
pub proof fn lemma_progress_never_falls(s: Session, events: Seq<MidiEvent>, i: int, j: int)
    requires
        s.wf(),
        0 <= i <= j <= events.len(),
    ensures
        ({
            let earlier = s.run(events.take(i)).progress();
            let later = s.run(events.take(j)).progress();
            &&& earlier.1 == later.1
            &&& earlier.0 <= later.0 <= later.1
            &&& earlier.0 * later.1 <= later.0 * earlier.1
        }),
{
    lemma_cursor_never_retreats(s, events, i, j);
    lemma_run_moves_cursor_forward(s, events.take(i));
    lemma_run_moves_cursor_forward(s, events.take(j));
    let earlier = s.run(events.take(i)).progress();
    let later = s.run(events.take(j)).progress();
    assert(earlier.0 * later.1 <= later.0 * earlier.1) by (nonlinear_arith)
        requires
            earlier.1 == later.1,
            earlier.0 <= later.0,
    ;
}

/// Starting and resetting put progress back to zero, and of the
/// operations only they can lower it: pausing leaves it as it is.
pub proof fn lemma_progress_resets(s: Session)
    requires
        s.wf(),
    ensures
        s.start_practice().wf(),
        s.reset().wf(),
        s.pause().wf(),
        s.start_practice().progress().0 == 0,
        s.reset().progress().0 == 0,
        s.pause().progress() == s.progress(),
{
}

/// A run whose Note-On events carry exactly the pitches still expected, in
/// order, ends with the cursor behind the last note and every note counted
/// as correct. Note-Off events may come anywhere among them.
pub proof fn lemma_expected_pitches_finish(s: Session, events: Seq<MidiEvent>)
    requires
        s.wf(),
        s.state == GameState::Playing,
        note_on_pitches(events) == pitches(s.notes).skip(s.cursor as int),
    ensures
        s.run(events).cursor == s.notes.len(),
        s.run(events).score() == (s.total, s.total),
    decreases events.len(),
{
    let expected = pitches(s.notes);
    if events.len() == 0 {
        assert(expected.skip(s.cursor as int).len() == 0);
    } else {
        let event = events[0];
        let next = s.on_event(event);
        lemma_event_moves_cursor_forward(s, event);
        if event.event_type == EventType::NoteOn {
            let played = seq![event.note] + note_on_pitches(events.skip(1));
            assert(played.len() >= 1);
            assert(s.cursor < s.notes.len());
            assert(played[0] == expected.skip(s.cursor as int)[0]);
            assert(event.note == s.notes[s.cursor as int].pitch);
            assert(note_on_pitches(events.skip(1)) =~= played.skip(1));
            assert(expected.skip(s.cursor as int).skip(1) =~= expected.skip(s.cursor as int + 1));
            assert(next.cursor == s.cursor + 1);
        }
        assert(next.notes.len() == s.notes.len());
        lemma_expected_pitches_finish(next, events.skip(1));
    }
}

/// Started afresh and fed the expected pitches as Note-On events, a
/// session ends with the cursor behind the last note and a full score.
pub proof fn lemma_perfect_run(s: Session, events: Seq<MidiEvent>)
    requires
        s.wf(),
        note_on_pitches(events) == pitches(s.notes),
    ensures
        s.start_practice().run(events).cursor == s.notes.len(),
        s.start_practice().run(events).score() == (s.total, s.total),
{
    let started = s.start_practice();
    assert(pitches(started.notes) =~= pitches(s.notes));
    assert(pitches(started.notes).skip(0) =~= pitches(started.notes));
    lemma_expected_pitches_finish(started, events);
}

/// Whether an event is a Note-On of a pitch other than the one the cursor
/// is at.
pub open spec fn is_wrong_attempt(s: Session, event: MidiEvent) -> bool {
    &&& event.event_type == EventType::NoteOn
    &&& s.cursor < s.notes.len()
    &&& event.note != s.notes[s.cursor as int].pitch
}

/// A wrong pitch leaves the cursor where it is and marks the note at the
/// cursor incorrect; nothing else about the notes changes.
pub proof fn lemma_wrong_pitch_holds_cursor(s: Session, event: MidiEvent)
    requires
        s.wf(),
        s.state == GameState::Playing,
        is_wrong_attempt(s, event),
    ensures
        s.on_event(event).wf(),
        s.on_event(event).cursor == s.cursor,
        s.on_event(event).correct == s.correct,
        s.on_event(event).notes == s.notes.update(
            s.cursor as int,
            judged(s.notes[s.cursor as int], Judgement::Incorrect),
        ),
        s.on_event(event).notes[s.cursor as int].judgement == Judgement::Incorrect,
{
}

/// However often a wrong pitch is played, the cursor stays, and after each
/// attempt the note at the cursor stands as incorrect.
pub proof fn lemma_wrong_pitches_never_advance(s: Session, events: Seq<MidiEvent>)
    requires
        s.wf(),
        s.state == GameState::Playing,
        events.len() > 0,
        forall|k: int| 0 <= k < events.len() ==> is_wrong_attempt(s, #[trigger] events[k]),
    ensures
        s.run(events).wf(),
        s.run(events).cursor == s.cursor,
        s.run(events).notes[s.cursor as int].judgement == Judgement::Incorrect,
    decreases events.len(),
{
    let next = s.on_event(events[0]);
    lemma_wrong_pitch_holds_cursor(s, events[0]);
    let rest = events.skip(1);
    assert(s.run(events) == next.run(rest));
    assert(next.state == GameState::Playing);
    if rest.len() == 0 {
        assert(next.run(rest) == next);
    } else {
        assert forall|k: int| 0 <= k < rest.len() implies is_wrong_attempt(
            next,
            #[trigger] rest[k],
        ) by {
            assert(rest[k] == events[k + 1]);
        }
        lemma_wrong_pitches_never_advance(next, rest);
    }
}

/// The matching pitch marks the note at the cursor correct and moves the
/// cursor on by exactly one note.
pub proof fn lemma_matching_pitch_advances(s: Session, event: MidiEvent)
    requires
        s.wf(),
        s.state == GameState::Playing,
        s.cursor < s.notes.len(),
        event.event_type == EventType::NoteOn,
        event.note == s.notes[s.cursor as int].pitch,
    ensures
        s.on_event(event).wf(),
        s.on_event(event).cursor == s.cursor + 1,
        s.on_event(event).correct == s.correct + 1,
        s.on_event(event).notes[s.cursor as int].judgement == Judgement::Correct,
{
}

/// A note becomes correct only through a Note-On of its own pitch that
/// arrives while the session is playing and the cursor is at that note.
pub proof fn lemma_correct_only_by_match(s: Session, event: MidiEvent, i: int)
    requires
        s.wf(),
        0 <= i < s.notes.len(),
        s.notes[i].judgement != Judgement::Correct,
        s.on_event(event).notes[i].judgement == Judgement::Correct,
    ensures
        s.state == GameState::Playing,
        event.event_type == EventType::NoteOn,
        i == s.cursor,
        event.note == s.notes[i].pitch,
{
}

} // verus!
