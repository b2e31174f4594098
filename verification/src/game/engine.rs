//! The match engine: an expected note sequence, and a cursor that live
//! Note-On events move through it.

use vstd::prelude::*;
use std::collections::HashSet;
use crate::fraction::Fraction;
use crate::game::session::{cleared, judged, Session};
use crate::midi::input::{EventType, MidiEvent};
use crate::notation::notes::{Judgement, Note, NoteType};

pub use crate::game::session::GameState;

verus! {

broadcast use vstd::std_specs::hash::group_hash_axioms;

pub struct GameEngine {
    state: GameState,
    current_notes: Vec<Note>,
    current_position: usize,
    pressed_keys: HashSet<u8>,
    correct_notes: u32,
    total_notes: u32,
}

/// The pitches of the built-in practice sequence: eight notes on ledger
/// lines above the treble staff, eight on and just under it, eight on and
/// under the bass staff.
pub open spec fn practice_pitches() -> Seq<u8> {
    seq![
        72u8, 74, 76, 77, 79, 81, 83, 84,
        64, 65, 67, 69, 71, 60, 62, 59,
        57, 55, 53, 52, 50, 48, 47, 45,
    ]
}

/// The built-in practice sequence: quarter notes, one to the beat.
pub open spec fn practice_notes() -> Seq<Note> {
    Seq::new(
        practice_pitches().len(),
        |i: int|
            Note {
                pitch: practice_pitches()[i],
                note_type: NoteType::Quarter,
                position: Fraction { numerator: i as u32, denominator: 1 },
                judgement: Judgement::Unplayed,
            },
    )
}

impl View for GameEngine {
    type V = Session;

    closed spec fn view(&self) -> Session {
        Session {
            state: self.state,
            notes: self.current_notes@,
            cursor: self.current_position as nat,
            held: self.pressed_keys@,
            correct: self.correct_notes as nat,
            total: self.total_notes as nat,
        }
    }
}

impl GameEngine {
    /// The engine's invariant: that of its session, with a number of
    /// notes that 32 bits can count.
    pub open spec fn wf(&self) -> bool {
        &&& self@.wf()
        &&& self@.total <= u32::MAX
    }

    /// An engine over the built-in practice sequence, not yet started.
    pub fn new() -> (engine: GameEngine)
        ensures
            engine.wf(),
            engine@ == Session::loaded(practice_notes()),
    {
        let pitches: [u8; 24] = [
            72, 74, 76, 77, 79, 81, 83, 84,
            64, 65, 67, 69, 71, 60, 62, 59,
            57, 55, 53, 52, 50, 48, 47, 45,
        ];
        assert(pitches@ =~= practice_pitches());
        let mut practice: Vec<Note> = Vec::new();
        let mut i: usize = 0;
        while i < 24
            invariant
                0 <= i <= 24,
                pitches@ == practice_pitches(),
                practice@.len() == i,
                forall|k: int| 0 <= k < i ==> practice@[k] == practice_notes()[k],
            decreases 24 - i,
        {
            practice.push(Note::new(pitches[i], NoteType::Quarter, Fraction::whole(i as u32)));
            i = i + 1;
        }
        assert(practice@ =~= practice_notes());
        assert(practice@ =~= cleared(practice_notes()));
        GameEngine {
            state: GameState::Stopped,
            current_notes: practice,
            current_position: 0,
            pressed_keys: HashSet::new(),
            correct_notes: 0,
            total_notes: 24,
        }
    }

    /// An engine over the given notes, not yet started. Whatever judgements
    /// the notes carry are cleared.
    pub fn with_notes(notes: Vec<Note>) -> (engine: GameEngine)
        requires
            notes@.len() <= u32::MAX,
        ensures
            engine.wf(),
            engine@ == Session::loaded(notes@),
    {
        let total: u32 = notes.len() as u32;
        let mut engine = GameEngine {
            state: GameState::Stopped,
            current_notes: notes,
            current_position: 0,
            pressed_keys: HashSet::new(),
            correct_notes: 0,
            total_notes: total,
        };
        engine.clear_judgements();
        engine
    }

    fn clear_judgements(&mut self)
        ensures
            final(self).current_notes@ == cleared(old(self).current_notes@),
            final(self).state == old(self).state,
            final(self).current_position == old(self).current_position,
            final(self).pressed_keys == old(self).pressed_keys,
            final(self).correct_notes == old(self).correct_notes,
            final(self).total_notes == old(self).total_notes,
    {
        let mut i: usize = 0;
        while i < self.current_notes.len()
            invariant
                0 <= i <= self.current_notes@.len(),
                self.current_notes@.len() == old(self).current_notes@.len(),
                forall|k: int|
                    0 <= k < i ==> self.current_notes@[k] == judged(
                        old(self).current_notes@[k],
                        Judgement::Unplayed,
                    ),
                forall|k: int|
                    i <= k < self.current_notes@.len() ==> self.current_notes@[k] == old(
                        self,
                    ).current_notes@[k],
                self.state == old(self).state,
                self.current_position == old(self).current_position,
                self.pressed_keys == old(self).pressed_keys,
                self.correct_notes == old(self).correct_notes,
                self.total_notes == old(self).total_notes,
            decreases self.current_notes@.len() - i,
        {
            let mut note: Note = self.current_notes[i];
            note.judgement = Judgement::Unplayed;
            self.current_notes.set(i, note);
            i = i + 1;
        }
        assert(self.current_notes@ =~= cleared(old(self).current_notes@));
    }

    /// Starts a practice run from the first note.
    pub fn start_practice(&mut self)
        requires
            old(self).wf(),
        ensures
            final(self).wf(),
            final(self)@ == old(self)@.start_practice(),
    {
        self.state = GameState::Playing;
        self.current_position = 0;
        self.correct_notes = 0;
        self.pressed_keys.clear();
        self.clear_judgements();
    }

    /// Pauses a running session, or resumes a paused one.
    pub fn pause(&mut self)
        requires
            old(self).wf(),
        ensures
            final(self).wf(),
            final(self)@ == old(self)@.pause(),
    {
        match self.state {
            GameState::Playing => {
                self.state = GameState::Paused;
            },
            GameState::Paused => {
                self.state = GameState::Playing;
            },
            GameState::Stopped => {},
        }
    }

    /// Stops the session and clears every trace of the run.
    pub fn reset(&mut self)
        requires
            old(self).wf(),
        ensures
            final(self).wf(),
            final(self)@ == old(self)@.reset(),
    {
        self.state = GameState::Stopped;
        self.current_position = 0;
        self.correct_notes = 0;
        self.pressed_keys.clear();
        self.clear_judgements();
    }

    /// Takes one event. Unless the session is playing the event is
    /// discarded.
    pub fn process_midi_event(&mut self, event: &MidiEvent)
        requires
            old(self).wf(),
        ensures
            final(self).wf(),
            final(self)@ == old(self)@.on_event(*event),
    {
        if self.state != GameState::Playing {
            return;
        }
        match event.event_type {
            EventType::NoteOn => {
                self.pressed_keys.insert(event.note);
                self.check_current_note(event.note);
            },
            EventType::NoteOff => {
                self.pressed_keys.remove(&event.note);
            },
        }
    }

    /// Takes the events of one frame, in order of arrival.
    pub fn process_midi_events(&mut self, events: &[MidiEvent])
        requires
            old(self).wf(),
        ensures
            final(self).wf(),
            final(self)@ == old(self)@.run(events@),
    {
        let mut i: usize = 0;
        proof {
            assert(events@.take(0) =~= Seq::<MidiEvent>::empty());
        }
        while i < events.len()
            invariant
                0 <= i <= events@.len(),
                self.wf(),
                self@ == old(self)@.run(events@.take(i as int)),
            decreases events@.len() - i,
        {
            proof {
                crate::game::session::lemma_run_one_more(old(self)@, events@, i as int);
            }
            self.process_midi_event(&events[i]);
            i = i + 1;
        }
        assert(events@.take(i as int) =~= events@);
    }

    fn check_current_note(&mut self, pressed_note: u8)
        requires
            old(self).wf(),
            old(self).state == GameState::Playing,
        ensures
            final(self).wf(),
            final(self)@ == old(self)@.check_current_note(pressed_note),
    {
        if self.current_position >= self.current_notes.len() {
            return;
        }
        let mut current_note: Note = self.current_notes[self.current_position];
        if current_note.pitch == pressed_note {
            current_note.judgement = Judgement::Correct;
            self.current_notes.set(self.current_position, current_note);
            self.correct_notes = self.correct_notes + 1;
            self.current_position = self.current_position + 1;
        } else {
            current_note.judgement = Judgement::Incorrect;
            self.current_notes.set(self.current_position, current_note);
        }
    }

    pub fn get_current_notes(&self) -> (notes: &[Note])
        ensures
            notes@ == self@.notes,
    {
        self.current_notes.as_slice()
    }

    pub fn get_state(&self) -> (state: GameState)
        ensures
            state == self@.state,
    {
        self.state
    }

    /// How far the cursor has come, as a fraction of the notes.
    pub fn get_progress(&self) -> (progress: Fraction)
        requires
            self.wf(),
        ensures
            progress.wf(),
            (progress.numerator as nat, progress.denominator as nat) == self@.progress(),
    {
        if self.total_notes == 0 {
            return Fraction::new(0, 1);
        }
        Fraction::new(self.current_position as u32, self.total_notes)
    }

    /// The correct notes so far, and the number of notes.
    pub fn get_score(&self) -> (score: (u32, u32))
        ensures
            (score.0 as nat, score.1 as nat) == self@.score(),
    {
        (self.correct_notes, self.total_notes)
    }
}

/// The notes of the practice sequence stand in ascending order of
/// position.
pub proof fn lemma_practice_notes_are_ordered()
    ensures
        crate::music::parser::ordered_by_position(practice_notes()),
{
    crate::music::parser::lemma_whole_beats_are_ordered(practice_notes());
}

} // verus!
