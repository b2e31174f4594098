//! Import of a standard multi-track event file: pairing Note-On and
//! Note-Off events into notes with a value class and a position in beats.

use vstd::prelude::*;
use vstd::string::StringExecFns;
use std::collections::HashMap;
use midly::MidiMessage::{NoteOff, NoteOn};
use midly::Smf;
use midly::Timing::{Metrical, Timecode};
use midly::TrackEventKind::Midi;
use crate::fraction::Fraction;
use crate::music::chunks::{find_file, find_overflow, has_unreadable_frame_rate};
use crate::notation::notes::{Judgement, Note, NoteType};

verus! {

broadcast use vstd::std_specs::hash::group_hash_axioms;

/// What the import reads of a channel message.
#[derive(Clone, Copy, Debug, PartialEq, Eq, Structural)]
pub enum TrackMessage {
    NoteOn { key: u8, vel: u8 },
    NoteOff { key: u8 },
    /// Any other event: it only takes up time.
    Other,
}

/// One event of a track: the ticks since the event before it, and the
/// message.
#[derive(Clone, Copy, Debug, PartialEq, Eq, Structural)]
pub struct TrackEvent {
    pub delta: u32,
    pub message: TrackMessage,
}

/// The timing that a file's header declares.
#[derive(Clone, Copy, Debug, PartialEq, Eq, Structural)]
pub enum Timing {
    /// Ticks per beat.
    Metrical(u16),
    /// Ticks per second, by frames and subframes.
    Timecode,
}

/// A parsed file, as far as the import reads it.
pub struct MidiFile {
    pub timing: Timing,
    pub tracks: Vec<Vec<TrackEvent>>,
}

pub struct MidiFileView {
    pub timing: Timing,
    pub tracks: Seq<Seq<TrackEvent>>,
}

impl View for MidiFile {
    type V = MidiFileView;

    open spec fn view(&self) -> MidiFileView {
        MidiFileView {
            timing: self.timing,
            tracks: Seq::new(self.tracks@.len(), |i: int| self.tracks@[i]@),
        }
    }
}

/// Why an import failed. No notes are returned with any of these.
#[derive(Debug)]
pub enum ImportError {
    /// The bytes are not a well-formed file; the text says what is wrong.
    Malformed(String),
    /// The header declares zero ticks per beat, so no tick has a position
    /// in beats.
    ZeroTicksPerBeat,
    /// A track runs past the last tick that 32 bits can count.
    TickOverflow,
}

/// What an error says of itself.
pub open spec fn error_message(error: ImportError) -> Seq<char> {
    match error {
        ImportError::Malformed(text) => "Malformed file: "@ + text@,
        ImportError::ZeroTicksPerBeat => "The header declares zero ticks per beat"@,
        ImportError::TickOverflow => "A track is longer than 32 bits of ticks"@,
    }
}

impl ImportError {
    /// A description of the error, for showing.
    pub fn message(&self) -> (text: String)
        ensures
            text@ == error_message(*self),
    {
        match self {
            ImportError::Malformed(text) => String::from_str("Malformed file: ").concat(
                text.as_str(),
            ),
            ImportError::ZeroTicksPerBeat => String::from_str(
                "The header declares zero ticks per beat",
            ),
            ImportError::TickOverflow => String::from_str(
                "A track is longer than 32 bits of ticks",
            ),
        }
    }
}

/// The ticks per beat assumed for a file in timecode timing.
pub const FALLBACK_TICKS_PER_BEAT: u16 = 96;

pub open spec fn ticks_per_beat(timing: Timing) -> u16 {
    match timing {
        Timing::Metrical(ticks) => ticks,
        Timing::Timecode => FALLBACK_TICKS_PER_BEAT,
    }
}

/// The value class of a duration in beats: a whole note from 3.5 beats,
/// a half note from 1.5, a quarter note from 0.75, else an eighth note.
pub open spec fn duration_class(duration: Fraction) -> NoteType {
    if duration.at_least(7, 2) {
        NoteType::Whole
    } else if duration.at_least(3, 2) {
        NoteType::Half
    } else if duration.at_least(3, 4) {
        NoteType::Quarter
    } else {
        NoteType::Eighth
    }
}

/// The note of pitch `key` that sounds from tick `start` to tick `end`.
pub open spec fn note_between(key: u8, start: nat, end: nat, ticks_per_beat: u16) -> Note {
    Note {
        pitch: key,
        note_type: duration_class(
            Fraction {
                numerator: (end - start) as u32,
                denominator: ticks_per_beat as u32,
            },
        ),
        position: Fraction { numerator: start as u32, denominator: ticks_per_beat as u32 },
        judgement: Judgement::Unplayed,
    }
}

/// Where the reading of a track stands: the tick reached, the tick at
/// which each sounding pitch began, and the notes completed so far.
pub struct TrackScan {
    pub time: nat,
    pub pending: Map<u8, nat>,
    pub notes: Seq<Note>,
}

impl TrackScan {
    pub open spec fn start() -> TrackScan {
        TrackScan { time: 0, pending: Map::empty(), notes: Seq::empty() }
    }

    /// The end of the pitch `key` at the tick reached: if the pitch is
    /// sounding, its note is complete; if not, nothing happens.
    pub open spec fn release(self, key: u8, ticks_per_beat: u16) -> TrackScan {
        if self.pending.contains_key(key) {
            TrackScan {
                pending: self.pending.remove(key),
                notes: self.notes.push(
                    note_between(key, self.pending[key], self.time, ticks_per_beat),
                ),
                ..self
            }
        } else {
            self
        }
    }

    /// One event: time moves on by its delta; a Note-On with a velocity
    /// above zero starts its pitch, or starts it anew; a Note-Off, or a
    /// Note-On with velocity zero, releases its pitch.
    pub open spec fn step(self, event: TrackEvent, ticks_per_beat: u16) -> TrackScan {
        let moved = TrackScan { time: self.time + event.delta as nat, ..self };
        match event.message {
            TrackMessage::NoteOn { key, vel } => if vel > 0 {
                TrackScan { pending: moved.pending.insert(key, moved.time), ..moved }
            } else {
                moved.release(key, ticks_per_beat)
            },
            TrackMessage::NoteOff { key } => moved.release(key, ticks_per_beat),
            TrackMessage::Other => moved,
        }
    }

    /// The events of a track from the first to the last.
    pub open spec fn of(events: Seq<TrackEvent>, ticks_per_beat: u16) -> TrackScan
        decreases events.len(),
    {
        if events.len() == 0 {
            TrackScan::start()
        } else {
            TrackScan::of(events.drop_last(), ticks_per_beat).step(events.last(), ticks_per_beat)
        }
    }
}

/// The notes of one track, in the order in which they end. A pitch still
/// sounding at the end of the track gives no note.
pub open spec fn track_notes(events: Seq<TrackEvent>, ticks_per_beat: u16) -> Seq<Note> {
    TrackScan::of(events, ticks_per_beat).notes
}

/// Whether a track runs past the last tick that 32 bits can count.
pub open spec fn track_overflows(events: Seq<TrackEvent>) -> bool {
    TrackScan::of(events, 1).time > u32::MAX
}

/// The notes of the first `count` tracks, one track after another.
pub open spec fn merged_notes(tracks: Seq<Seq<TrackEvent>>, ticks_per_beat: u16, count: nat) -> Seq<
    Note,
>
    decreases count,
{
    if count == 0 {
        Seq::empty()
    } else {
        merged_notes(tracks, ticks_per_beat, (count - 1) as nat) + track_notes(
            tracks[count - 1],
            ticks_per_beat,
        )
    }
}

/// `note` put into `sorted` behind every note that does not start after
/// it.
pub open spec fn insert_by_position(sorted: Seq<Note>, note: Note) -> Seq<Note>
    decreases sorted.len(),
{
    if sorted.len() == 0 {
        seq![note]
    } else if sorted.last().position.le(note.position) {
        sorted.push(note)
    } else {
        insert_by_position(sorted.drop_last(), note).push(sorted.last())
    }
}

/// The notes in ascending order of position, notes of equal position in
/// the order in which they came.
pub open spec fn sorted_by_position(notes: Seq<Note>) -> Seq<Note>
    decreases notes.len(),
{
    if notes.len() == 0 {
        Seq::empty()
    } else {
        insert_by_position(sorted_by_position(notes.drop_last()), notes.last())
    }
}

/// What the import makes of a parsed file: an error for a header with zero
/// ticks per beat or a track that overflows, else the notes of all tracks
/// merged and sorted by position.
pub open spec fn import_result(file: MidiFileView) -> Result<Seq<Note>, ImportError> {
    let per_beat = ticks_per_beat(file.timing);
    if per_beat == 0 {
        Err(ImportError::ZeroTicksPerBeat)
    } else if exists|i: int| 0 <= i < file.tracks.len() && track_overflows(#[trigger] file.tracks[i]) {
        Err(ImportError::TickOverflow)
    } else {
        Ok(sorted_by_position(merged_notes(file.tracks, per_beat, file.tracks.len())))
    }
}

/// What is said of a file whose frame rate cannot be read.
pub open spec fn unreadable_frame_rate_text() -> Seq<char> {
    "a header declares a frame rate that cannot be read"@
}

/// What `midly::Smf::parse` makes of the bytes of a file: the header's
/// timing and the events of each track, or nothing where it reports an
/// error.
pub uninterp spec fn smf_contents(data: Seq<u8>) -> Option<MidiFileView>;

#[verifier::external_type_specification]
#[verifier::external_body]
pub struct ExMidlyError(midly::Error);

/// Calls `midly::Smf::parse` on the bytes and copies out of its result what
/// the import reads: the timing, and of each track event the delta and,
/// for a Note-On, the key and the velocity, for a Note-Off the key; every
/// other event is copied as `Other`. The contract claims only that the
/// same bytes always parse alike. Left out are the bytes on which midly
/// can overflow: reading a header chunk it negates the high byte of a
/// timecode timing as a signed byte, which `0x80` does not allow. It
/// reads as a header every chunk with a header's tag that it comes to,
/// also one after the first.
#[verifier::external_body]
fn parse_smf(data: &[u8]) -> (r: Result<MidiFile, midly::Error>)
    requires
        !has_unreadable_frame_rate(data@),
    ensures
        match r {
            Ok(file) => smf_contents(data@) == Some(file@),
            Err(_) => smf_contents(data@).is_none(),
        },
{
    let smf = Smf::parse(data)?;
    let timing = match smf.header.timing {
        Metrical(ticks) => Timing::Metrical(ticks.as_int()),
        Timecode(..) => Timing::Timecode,
    };
    let tracks = smf.tracks.iter().map(|t| t.iter().map(|e| TrackEvent {
        delta: e.delta.as_int(),
        message: match e.kind {
            Midi { message: NoteOn { key, vel }, .. } => TrackMessage::NoteOn { key: key.as_int(), vel: vel.as_int() },
            Midi { message: NoteOff { key, .. }, .. } => TrackMessage::NoteOff { key: key.as_int() },
            _ => TrackMessage::Other,
        },
    }).collect()).collect();
    Ok(MidiFile { timing, tracks })
}

/// The text of `midly::Error`, as its `Display` writes it. Nothing is
/// claimed of the text.
#[verifier::external_body]
fn error_text(error: &midly::Error) -> (text: String) {
    format!("{}", error)
}

pub struct MidiParser;

impl MidiParser {
    /// Imports the notes of a file from its bytes. Bytes that do not parse
    /// fail the whole import, and so do bytes with a header chunk whose
    /// frame rate cannot be read.
    pub fn parse_midi_file(data: &[u8]) -> (r: Result<Vec<Note>, ImportError>)
        ensures
            if has_unreadable_frame_rate(data@) {
                r matches Err(ImportError::Malformed(text)) && text@
                    == unreadable_frame_rate_text()
            } else {
                match smf_contents(data@) {
                    None => r matches Err(ImportError::Malformed(_)),
                    Some(file) => match import_result(file) {
                        Ok(notes) => (r matches Ok(imported) && imported@ == notes),
                        Err(error) => r == Err::<Vec<Note>, ImportError>(error),
                    },
                }
            },
    {
        if Self::frame_rate_is_unreadable(data) {
            return Err(
                ImportError::Malformed(
                    String::from_str("a header declares a frame rate that cannot be read"),
                ),
            );
        }
        match parse_smf(data) {
            Ok(file) => Self::notes_from_file(&file),
            Err(error) => Err(ImportError::Malformed(error_text(&error))),
        }
    }

    /// Reads the chunks of the file as far as they are read at all, and
    /// says whether a header among them has `0x80` as the high byte of its
    /// timing.
    pub fn frame_rate_is_unreadable(data: &[u8]) -> (found: bool)
        ensures
            found == has_unreadable_frame_rate(data@),
    {
        match find_file(data) {
            Some((from, to)) => find_overflow(data, from, to),
            None => false,
        }
    }

    /// Imports the notes of a parsed file: the notes of each track, all
    /// tracks merged, in ascending order of position.
    pub fn notes_from_file(file: &MidiFile) -> (r: Result<Vec<Note>, ImportError>)
        ensures
            match import_result(file@) {
                Ok(notes) => (r matches Ok(imported) && imported@ == notes),
                Err(error) => r == Err::<Vec<Note>, ImportError>(error),
            },
    {
        let per_beat: u16 = match file.timing {
            Timing::Metrical(ticks) => ticks,
            Timing::Timecode => FALLBACK_TICKS_PER_BEAT,
        };
        if per_beat == 0 {
            return Err(ImportError::ZeroTicksPerBeat);
        }
        let mut overflow: bool = false;
        let mut notes: Vec<Note> = Vec::new();
        let mut i: usize = 0;
        while i < file.tracks.len()
            invariant
                0 <= i <= file.tracks@.len(),
                per_beat == ticks_per_beat(file@.timing),
                per_beat > 0,
                file@.tracks.len() == file.tracks@.len(),
                overflow <==> exists|k: int|
                    0 <= k < i && track_overflows(#[trigger] file@.tracks[k]),
                !overflow ==> notes@ == merged_notes(file@.tracks, per_beat, i as nat),
            decreases file.tracks@.len() - i,
        {
            assert(file@.tracks[i as int] == file.tracks@[i as int]@);
            match Self::parse_track(&file.tracks[i], per_beat) {
                Ok(mut track_notes) => {
                    if !overflow {
                        notes.append(&mut track_notes);
                    }
                },
                Err(_) => {
                    overflow = true;
                },
            }
            i = i + 1;
        }
        if overflow {
            return Err(ImportError::TickOverflow);
        }
        Ok(Self::sort_by_position(notes))
    }

    /// Reads one track: accumulates the deltas into a running tick, keeps
    /// the tick at which each pitch began, and completes a note whenever a
    /// sounding pitch is released.
    pub fn parse_track(track: &Vec<TrackEvent>, ticks_per_beat: u16) -> (r: Result<
        Vec<Note>,
        ImportError,
    >)
        ensures
            track_overflows(track@) ==> r == Err::<Vec<Note>, ImportError>(
                ImportError::TickOverflow,
            ),
            !track_overflows(track@) ==> (r matches Ok(notes) && notes@ == track_notes(
                track@,
                ticks_per_beat,
            )),
    {
        let mut notes: Vec<Note> = Vec::new();
        let mut current_time: u32 = 0;
        let mut note_on_events: HashMap<u8, u32> = HashMap::new();
        let mut i: usize = 0;
        proof {
            assert(track@.take(0) =~= Seq::<TrackEvent>::empty());
        }
        while i < track.len()
            invariant
                0 <= i <= track@.len(),
                current_time == TrackScan::of(track@.take(i as int), ticks_per_beat).time,
                notes@ == TrackScan::of(track@.take(i as int), ticks_per_beat).notes,
                same_starts(
                    note_on_events@,
                    TrackScan::of(track@.take(i as int), ticks_per_beat).pending,
                ),
            decreases track@.len() - i,
        {
            let event: TrackEvent = track[i];
            proof {
                assert(track@.take(i + 1).drop_last() =~= track@.take(i as int));
                assert(track@.take(i + 1).last() == event);
                lemma_time_is_sum(track@.take(i as int), ticks_per_beat);
                lemma_time_is_sum(track@.take(i + 1), ticks_per_beat);
                lemma_time_grows(track@, i + 1);
            }
            if event.delta > u32::MAX - current_time {
                return Err(ImportError::TickOverflow);
            }
            current_time = current_time + event.delta;
            match event.message {
                TrackMessage::NoteOn { key, vel } => {
                    if vel > 0 {
                        note_on_events.insert(key, current_time);
                    } else {
                        if let Some(start_time) = note_on_events.remove(&key) {
                            notes.push(Self::completed_note(key, start_time, current_time, ticks_per_beat));
                        }
                    }
                },
                TrackMessage::NoteOff { key } => {
                    if let Some(start_time) = note_on_events.remove(&key) {
                        notes.push(Self::completed_note(key, start_time, current_time, ticks_per_beat));
                    }
                },
                TrackMessage::Other => {},
            }
            i = i + 1;
        }
        proof {
            assert(track@.take(i as int) =~= track@);
            lemma_time_is_sum(track@, ticks_per_beat);
        }
        Ok(notes)
    }

    fn completed_note(key: u8, start_time: u32, end_time: u32, ticks_per_beat: u16) -> (note: Note)
        requires
            start_time <= end_time,
        ensures
            note == note_between(key, start_time as nat, end_time as nat, ticks_per_beat),
    {
        let duration = Fraction::new(end_time - start_time, ticks_per_beat as u32);
        let position = Fraction::new(start_time, ticks_per_beat as u32);
        Note::new(key, Self::duration_to_note_type(duration), position)
    }

    /// Classifies a duration in beats by the fixed thresholds.
    pub fn duration_to_note_type(duration_beats: Fraction) -> (note_type: NoteType)
        ensures
            note_type == duration_class(duration_beats),
    {
        let ticks: u64 = duration_beats.numerator as u64;
        let per_beat: u64 = duration_beats.denominator as u64;
        if 2 * ticks >= 7 * per_beat {
            NoteType::Whole
        } else if 2 * ticks >= 3 * per_beat {
            NoteType::Half
        } else if 4 * ticks >= 3 * per_beat {
            NoteType::Quarter
        } else {
            NoteType::Eighth
        }
    }

    /// Sorts notes by position, keeping notes of equal position in order.
    pub fn sort_by_position(notes: Vec<Note>) -> (sorted: Vec<Note>)
        ensures
            sorted@ == sorted_by_position(notes@),
    {
        let mut sorted: Vec<Note> = Vec::new();
        let mut i: usize = 0;
        proof {
            assert(notes@.take(0) =~= Seq::<Note>::empty());
        }
        while i < notes.len()
            invariant
                0 <= i <= notes@.len(),
                sorted@ == sorted_by_position(notes@.take(i as int)),
            decreases notes@.len() - i,
        {
            proof {
                assert(notes@.take(i + 1).drop_last() =~= notes@.take(i as int));
            }
            Self::insert_note(&mut sorted, notes[i]);
            i = i + 1;
        }
        assert(notes@.take(i as int) =~= notes@);
        sorted
    }

    fn insert_note(sorted: &mut Vec<Note>, note: Note)
        ensures
            final(sorted)@ == insert_by_position(old(sorted)@, note),
    {
        let mut at: usize = sorted.len();
        proof {
            assert(sorted@.take(at as int) =~= sorted@);
            assert(insert_by_position(sorted@, note) + sorted@.skip(at as int)
                =~= insert_by_position(sorted@, note));
        }
        while at > 0 && !sorted[at - 1].position.is_le(&note.position)
            invariant
                0 <= at <= sorted@.len(),
                sorted@ == old(sorted)@,
                insert_by_position(sorted@, note) == insert_by_position(
                    sorted@.take(at as int),
                    note,
                ) + sorted@.skip(at as int),
            decreases at,
        {
            proof {
                let front = sorted@.take(at as int);
                assert(front.drop_last() =~= sorted@.take(at - 1));
                assert(front.last() == sorted@[at - 1]);
                assert(insert_by_position(front, note) == insert_by_position(
                    sorted@.take(at - 1),
                    note,
                ).push(sorted@[at - 1]));
                assert(insert_by_position(sorted@.take(at - 1), note).push(sorted@[at - 1])
                    + sorted@.skip(at as int) =~= insert_by_position(sorted@.take(at - 1), note)
                    + sorted@.skip(at - 1));
            }
            at = at - 1;
        }
        proof {
            let front = sorted@.take(at as int);
            if at > 0 {
                assert(front.last() == sorted@[at - 1]);
            }
            assert(insert_by_position(front, note) =~= front.push(note));
            assert(front.push(note) + sorted@.skip(at as int) =~= sorted@.insert(at as int, note));
        }
        sorted.insert(at, note);
    }
}

/// Whether the starts kept while reading are those of the model.
pub open spec fn same_starts(kept: Map<u8, u32>, pending: Map<u8, nat>) -> bool {
    &&& forall|key: u8| kept.contains_key(key) <==> pending.contains_key(key)
    &&& forall|key: u8| kept.contains_key(key) ==> kept[key] as nat == pending[key]
}

/// The tick a track has reached does not depend on the ticks per beat, and
/// no pitch began after it.
pub proof fn lemma_time_is_sum(events: Seq<TrackEvent>, ticks_per_beat: u16)
    ensures
        TrackScan::of(events, ticks_per_beat).time == TrackScan::of(events, 1).time,
        forall|key: u8|
            TrackScan::of(events, ticks_per_beat).pending.contains_key(key) ==> TrackScan::of(
                events,
                ticks_per_beat,
            ).pending[key] <= TrackScan::of(events, ticks_per_beat).time,
    decreases events.len(),
{
    if events.len() > 0 {
        lemma_time_is_sum(events.drop_last(), ticks_per_beat);
    }
}

/// The tick reached after the first `count` events is no later than the
/// tick reached at the end of the track.
pub proof fn lemma_time_grows(events: Seq<TrackEvent>, count: int)
    requires
        0 <= count <= events.len(),
    ensures
        TrackScan::of(events.take(count), 1).time <= TrackScan::of(events, 1).time,
    decreases events.len() - count,
{
    if count == events.len() {
        assert(events.take(count) =~= events);
    } else {
        lemma_time_grows(events.drop_last(), count);
        assert(events.drop_last().take(count) =~= events.take(count));
    }
}

/// Whether no note starts before a note that stands before it.
pub open spec fn ordered_by_position(notes: Seq<Note>) -> bool {
    forall|i: int, j: int|
        0 <= i < j < notes.len() ==> (#[trigger] notes[i]).position.le(
            (#[trigger] notes[j]).position,
        )
}

/// Whether every note has a position with a denominator.
pub open spec fn positions_wf(notes: Seq<Note>) -> bool {
    forall|i: int| 0 <= i < notes.len() ==> (#[trigger] notes[i]).position.wf()
}

/// Whether every note starts on a whole beat, no earlier than the note
/// before it.
pub open spec fn on_whole_beats_in_order(notes: Seq<Note>) -> bool {
    &&& forall|i: int| 0 <= i < notes.len() ==> (#[trigger] notes[i]).position.denominator == 1
    &&& forall|i: int, j: int|
        0 <= i && j == i + 1 && j < notes.len() ==> (#[trigger] notes[i]).position.numerator <= (
        #[trigger] notes[j]).position.numerator
}

/// Notes on whole beats, each no earlier than the one before it, stand in
/// ascending order of position.
pub proof fn lemma_whole_beats_are_ordered(notes: Seq<Note>)
    requires
        on_whole_beats_in_order(notes),
    ensures
        ordered_by_position(notes),
{
    assert forall|i: int, j: int| 0 <= i < j < notes.len() implies (#[trigger] notes[i]).position.le(
        (#[trigger] notes[j]).position,
    ) by {
        lemma_beats_rise(notes, i, j);
    }
}

proof fn lemma_beats_rise(notes: Seq<Note>, i: int, j: int)
    requires
        on_whole_beats_in_order(notes),
        0 <= i <= j < notes.len(),
    ensures
        notes[i].position.numerator <= notes[j].position.numerator,
        notes[i].position.le(notes[j].position),
    decreases j - i,
{
    let first = notes[i].position;
    let last = notes[j].position;
    if i < j {
        lemma_beats_rise(notes, i, j - 1);
        let before = notes[j - 1].position;
        assert(before.numerator <= last.numerator);
    }
    assert(first.denominator == 1 && last.denominator == 1);
    assert(first.numerator * last.denominator == first.numerator);
    assert(last.numerator * first.denominator == last.numerator);
}

/// Putting a note into ordered notes leaves them ordered, and adds that
/// note and no other.
pub proof fn lemma_insert_keeps_order(sorted: Seq<Note>, note: Note)
    requires
        ordered_by_position(sorted),
        positions_wf(sorted),
        note.position.wf(),
    ensures
        ordered_by_position(insert_by_position(sorted, note)),
        positions_wf(insert_by_position(sorted, note)),
        insert_by_position(sorted, note).to_multiset() == sorted.to_multiset().insert(note),
    decreases sorted.len(),
{
    broadcast use vstd::seq_lib::group_to_multiset_ensures;

    let result = insert_by_position(sorted, note);
    if sorted.len() == 0 {
        assert(sorted =~= Seq::<Note>::empty());
        assert(result =~= Seq::<Note>::empty().push(note));
    } else if sorted.last().position.le(note.position) {
        assert forall|i: int, j: int| 0 <= i < j < result.len() implies (#[trigger] result[i]).position.le(
            (#[trigger] result[j]).position,
        ) by {
            if j == sorted.len() {
                if i < sorted.len() - 1 {
                    assert(sorted[i].position.le(sorted[sorted.len() - 1].position));
                    crate::fraction::lemma_le_transitive(
                        sorted[i].position,
                        sorted.last().position,
                        note.position,
                    );
                }
            }
        }
    } else {
        let front = sorted.drop_last();
        let last = sorted.last();
        let inner = insert_by_position(front, note);
        lemma_insert_keeps_order(front, note);
        assert(sorted =~= front.push(last));
        assert(inner.to_multiset() == front.to_multiset().insert(note));
        assert(result.to_multiset() =~= sorted.to_multiset().insert(note));
        assert forall|k: int| 0 <= k < inner.len() implies (#[trigger] inner[k]).position.le(
            last.position,
        ) by {
            assert(inner.to_multiset().count(inner[k]) > 0);
            if inner[k] != note {
                assert(front.to_multiset().count(inner[k]) > 0);
                let m = choose|m: int| 0 <= m < front.len() && front[m] == inner[k];
                assert(sorted[m].position.le(sorted[sorted.len() - 1].position));
            }
        }
        assert forall|i: int, j: int| 0 <= i < j < result.len() implies (#[trigger] result[i]).position.le(
            (#[trigger] result[j]).position,
        ) by {
            if j < inner.len() {
                assert(inner[i].position.le(inner[j].position));
            }
        }
    }
}

/// Putting a note into ordered notes is stable: the notes keep their
/// order among themselves, and the new note goes behind every note that
/// does not start after it, and before every note that does.
pub proof fn lemma_insert_is_stable(sorted: Seq<Note>, note: Note)
    requires
        ordered_by_position(sorted),
        positions_wf(sorted),
        note.position.wf(),
    ensures
        exists|at: int|
            0 <= at <= sorted.len() && insert_by_position(sorted, note) == #[trigger] sorted.insert(
                at,
                note,
            ) && (forall|i: int| 0 <= i < at ==> (#[trigger] sorted[i]).position.le(note.position))
                && (forall|i: int|
                at <= i < sorted.len() ==> note.position.lt((#[trigger] sorted[i]).position)),
    decreases sorted.len(),
{
    let result = insert_by_position(sorted, note);
    if sorted.len() == 0 {
        assert(result =~= sorted.insert(0, note));
    } else if sorted.last().position.le(note.position) {
        let at = sorted.len() as int;
        assert(result =~= sorted.insert(at, note));
        assert forall|i: int| 0 <= i < at implies (#[trigger] sorted[i]).position.le(
            note.position,
        ) by {
            if i < at - 1 {
                assert(sorted[i].position.le(sorted[at - 1].position));
                crate::fraction::lemma_le_transitive(
                    sorted[i].position,
                    sorted.last().position,
                    note.position,
                );
            }
        }
    } else {
        let front = sorted.drop_last();
        lemma_insert_is_stable(front, note);
        let at = choose|at: int|
            0 <= at <= front.len() && insert_by_position(front, note) == #[trigger] front.insert(
                at,
                note,
            ) && (forall|i: int| 0 <= i < at ==> (#[trigger] front[i]).position.le(note.position))
                && (forall|i: int|
                at <= i < front.len() ==> note.position.lt((#[trigger] front[i]).position));
        assert(result =~= sorted.insert(at, note));
        assert forall|i: int| 0 <= i < at implies (#[trigger] sorted[i]).position.le(
            note.position,
        ) by {
            assert(sorted[i] == front[i]);
        }
        assert forall|i: int| at <= i < sorted.len() implies note.position.lt(
            (#[trigger] sorted[i]).position,
        ) by {
            if i < front.len() {
                assert(sorted[i] == front[i]);
            }
        }
    }
}

/// Sorting orders the notes by position, and neither adds nor drops one.
pub proof fn lemma_sort_orders(notes: Seq<Note>)
    requires
        positions_wf(notes),
    ensures
        ordered_by_position(sorted_by_position(notes)),
        positions_wf(sorted_by_position(notes)),
        sorted_by_position(notes).to_multiset() == notes.to_multiset(),
        sorted_by_position(notes).len() == notes.len(),
    decreases notes.len(),
{
    broadcast use vstd::seq_lib::group_to_multiset_ensures;

    if notes.len() > 0 {
        let front = notes.drop_last();
        lemma_sort_orders(front);
        lemma_insert_keeps_order(sorted_by_position(front), notes.last());
        assert(notes =~= front.push(notes.last()));
    }
    sorted_by_position(notes).to_multiset_ensures();
    notes.to_multiset_ensures();
}

/// Whether two positions are the same point in time.
pub open spec fn same_position(a: Fraction, b: Fraction) -> bool {
    a.le(b) && b.le(a)
}

/// The notes that start at the position `at`, in their order.
pub open spec fn notes_at(notes: Seq<Note>, at: Fraction) -> Seq<Note> {
    notes.filter(|note: Note| same_position(note.position, at))
}

/// Among notes that all start after `at` or all before it, none starts at
/// `at`.
proof fn lemma_none_at(notes: Seq<Note>, at: Fraction)
    requires
        forall|i: int| 0 <= i < notes.len() ==> !same_position((#[trigger] notes[i]).position, at),
    ensures
        notes_at(notes, at) == Seq::<Note>::empty(),
    decreases notes.len(),
{
    reveal_with_fuel(Seq::<_>::filter, 2);
    let starts_at = |note: Note| same_position(note.position, at);
    if notes.len() > 0 {
        assert(!starts_at(notes.last()));
        assert forall|i: int| 0 <= i < notes.drop_last().len() implies !same_position(
            (#[trigger] notes.drop_last()[i]).position,
            at,
        ) by {
            assert(notes.drop_last()[i] == notes[i]);
        }
        lemma_none_at(notes.drop_last(), at);
    }
}

/// Sorting is stable: the notes of any one position stand, after the
/// sort, in the order in which they came.
pub proof fn lemma_sort_is_stable(notes: Seq<Note>, at: Fraction)
    requires
        positions_wf(notes),
        at.wf(),
    ensures
        notes_at(sorted_by_position(notes), at) == notes_at(notes, at),
    decreases notes.len(),
{
    reveal_with_fuel(Seq::<_>::filter, 2);
    let starts_at = |note: Note| same_position(note.position, at);
    if notes.len() > 0 {
        let front = notes.drop_last();
        let last = notes.last();
        let sorted = sorted_by_position(front);
        lemma_sort_is_stable(front, at);
        lemma_sort_orders(front);
        lemma_insert_is_stable(sorted, last);
        let k = choose|k: int|
            0 <= k <= sorted.len() && insert_by_position(sorted, last) == #[trigger] sorted.insert(
                k,
                last,
            ) && (forall|i: int| 0 <= i < k ==> (#[trigger] sorted[i]).position.le(last.position))
                && (forall|i: int|
                k <= i < sorted.len() ==> last.position.lt((#[trigger] sorted[i]).position));
        let before = sorted.take(k);
        let after = sorted.skip(k);
        assert(sorted =~= before + after);
        assert(sorted.insert(k, last) =~= before.push(last) + after);
        Seq::filter_distributes_over_add(before, after, starts_at);
        Seq::filter_distributes_over_add(before.push(last), after, starts_at);
        assert(before.push(last).drop_last() =~= before);
        if starts_at(last) {
            assert forall|i: int| 0 <= i < after.len() implies !same_position(
                (#[trigger] after[i]).position,
                at,
            ) by {
                let later = sorted[k + i].position;
                assert(last.position.lt(later));
                if same_position(later, at) {
                    crate::fraction::lemma_le_transitive(later, at, last.position);
                }
            }
            lemma_none_at(after, at);
            assert(notes_at(sorted.insert(k, last), at) =~= notes_at(sorted, at).push(last));
        } else {
            assert(notes_at(sorted.insert(k, last), at) =~= notes_at(sorted, at));
        }
    }
}

/// Every note of a track has its position in ticks over the ticks per
/// beat.
pub proof fn lemma_track_positions(events: Seq<TrackEvent>, ticks_per_beat: u16)
    ensures
        forall|i: int|
            0 <= i < track_notes(events, ticks_per_beat).len() ==> (#[trigger] track_notes(
                events,
                ticks_per_beat,
            )[i]).position.denominator == ticks_per_beat,
    decreases events.len(),
{
    if events.len() > 0 {
        lemma_track_positions(events.drop_last(), ticks_per_beat);
    }
}

/// The same of the notes of all tracks.
pub proof fn lemma_merged_positions(tracks: Seq<Seq<TrackEvent>>, ticks_per_beat: u16, count: nat)
    ensures
        forall|i: int|
            0 <= i < merged_notes(tracks, ticks_per_beat, count).len() ==> (#[trigger] merged_notes(
                tracks,
                ticks_per_beat,
                count,
            )[i]).position.denominator == ticks_per_beat,
    decreases count,
{
    if count > 0 {
        lemma_merged_positions(tracks, ticks_per_beat, (count - 1) as nat);
        lemma_track_positions(tracks[count - 1], ticks_per_beat);
    }
}

/// The notes of an import stand in ascending order of position, and they
/// are the notes of the tracks: none more, none fewer.
pub proof fn lemma_import_is_ordered(file: MidiFileView)
    ensures
        import_result(file) matches Ok(notes) ==> ordered_by_position(notes)
            && notes.to_multiset() == merged_notes(
            file.tracks,
            ticks_per_beat(file.timing),
            file.tracks.len(),
        ).to_multiset(),
{
    let per_beat = ticks_per_beat(file.timing);
    if import_result(file) is Ok {
        lemma_merged_positions(file.tracks, per_beat, file.tracks.len());
        lemma_sort_orders(merged_notes(file.tracks, per_beat, file.tracks.len()));
    }
}

/// Within an import, notes that start at the same position stand in the
/// order in which the tracks gave them.
pub proof fn lemma_import_is_stable(file: MidiFileView, at: Fraction)
    requires
        at.wf(),
    ensures
        import_result(file) matches Ok(notes) ==> notes_at(notes, at) == notes_at(
            merged_notes(file.tracks, ticks_per_beat(file.timing), file.tracks.len()),
            at,
        ),
{
    let per_beat = ticks_per_beat(file.timing);
    if import_result(file) is Ok {
        lemma_merged_positions(file.tracks, per_beat, file.tracks.len());
        lemma_sort_is_stable(merged_notes(file.tracks, per_beat, file.tracks.len()), at);
    }
}

} // verus!
