//! Notes, their glyphs, and the ledger lines of notes outside the staff.

use vstd::prelude::*;
use crate::fraction::Fraction;
use crate::notation::painter::{coord_ok, Color, Painter, Pos2, Shape, Stroke, COORD_LIMIT, PX};

verus! {

/// The rhythmic value class of a note.
#[derive(Clone, Copy, Debug, PartialEq, Eq, Structural)]
pub enum NoteType {
    Whole,
    Half,
    Quarter,
    Eighth,
}

/// How a note has fared in the current practice run.
#[derive(Clone, Copy, Debug, PartialEq, Eq, Structural)]
pub enum Judgement {
    Unplayed,
    Correct,
    Incorrect,
}

/// One expected note: its pitch, its value class, where it starts (in
/// beats), and how it was judged.
#[derive(Clone, Copy, Debug, PartialEq, Eq, Structural)]
pub struct Note {
    pub pitch: u8,
    pub note_type: NoteType,
    pub position: Fraction,
    pub judgement: Judgement,
}

pub const NOTE_HEAD_RADIUS: i64 = 6 * PX;

pub const STEM_HEIGHT: i64 = 24 * PX;

pub const FLAG_REACH: i64 = 12 * PX;

pub const FLAG_DROP: i64 = 18 * PX;

pub const OUTLINE_WIDTH: i64 = 2 * PX;

pub const STEM_WIDTH: i64 = 96;

pub const LEDGER_WIDTH: i64 = PX;

/// Half the length of a ledger line, which is a little longer than a note
/// head is wide.
pub const LEDGER_HALF_LENGTH: i64 = 9 * PX;

/// Black for a note not yet played, green for a correct one, red for an
/// incorrect one.
pub open spec fn judgement_color(judgement: Judgement) -> Color {
    match judgement {
        Judgement::Unplayed => Color::black(),
        Judgement::Correct => Color::rgb(0, 150, 0),
        Judgement::Incorrect => Color::rgb(200, 0, 0),
    }
}

pub open spec fn head_outline(x: i64, y: i64, color: Color) -> Shape {
    Shape::CircleStroke {
        center: Pos2 { x, y },
        radius: NOTE_HEAD_RADIUS,
        stroke: Stroke { width: OUTLINE_WIDTH, color },
    }
}

pub open spec fn head_filled(x: i64, y: i64, color: Color) -> Shape {
    Shape::CircleFilled { center: Pos2 { x, y }, radius: NOTE_HEAD_RADIUS, fill: color }
}

/// The stem rises from the right edge of the head.
pub open spec fn stem(x: i64, y: i64, color: Color) -> Shape {
    Shape::LineSegment {
        from: Pos2::at(x + NOTE_HEAD_RADIUS, y as int),
        to: Pos2::at(x + NOTE_HEAD_RADIUS, y - STEM_HEIGHT),
        stroke: Stroke { width: STEM_WIDTH, color },
    }
}

/// The flag falls from the top of the stem.
pub open spec fn flag(x: i64, y: i64, color: Color) -> Shape {
    Shape::LineSegment {
        from: Pos2::at(x + NOTE_HEAD_RADIUS, y - STEM_HEIGHT),
        to: Pos2::at(x + FLAG_REACH, y - FLAG_DROP),
        stroke: Stroke { width: OUTLINE_WIDTH, color },
    }
}

/// The glyph of a note of the given value class with its head at `(x, y)`.
pub open spec fn glyph_shapes(note_type: NoteType, x: i64, y: i64, color: Color) -> Seq<Shape> {
    match note_type {
        NoteType::Whole => seq![head_outline(x, y, color)],
        NoteType::Half => seq![head_outline(x, y, color), stem(x, y, color)],
        NoteType::Quarter => seq![head_filled(x, y, color), stem(x, y, color)],
        NoteType::Eighth => seq![head_filled(x, y, color), stem(x, y, color), flag(x, y, color)],
    }
}

/// Whether `eighths`, eight times a distance, is under an eighth of the
/// line spacing in size.
pub open spec fn within_tolerance(eighths: int, line_spacing: int) -> bool {
    -line_spacing < eighths < line_spacing
}

/// Whether a note at `note_y` calls for the ledger line at `ledger_y`: it
/// does when it sits on that line, or in the space half a line spacing
/// above or below it, each to within an eighth of the line spacing.
pub open spec fn requires_ledger_line_at(note_y: int, ledger_y: int, line_spacing: int) -> bool {
    let eighths = 8 * (note_y - ledger_y);
    ||| within_tolerance(eighths, line_spacing)
    ||| within_tolerance(eighths + 4 * line_spacing, line_spacing)
    ||| within_tolerance(eighths - 4 * line_spacing, line_spacing)
}

/// A note is above the staff when it is more than a quarter of the line
/// spacing above the top line.
pub open spec fn is_above_staff(note_y: int, staff_top: int, line_spacing: int) -> bool {
    4 * (staff_top - note_y) > line_spacing
}

/// A note is below the staff when it is more than a quarter of the line
/// spacing below the bottom line.
pub open spec fn is_below_staff(note_y: int, staff_bottom: int, line_spacing: int) -> bool {
    4 * (note_y - staff_bottom) > line_spacing
}

/// How many ledger slots, one line spacing apart, lie between a staff edge
/// and the slot one full line spacing beyond a note that is `distance` away
/// from that edge.
pub open spec fn slots_walked(distance: int, line_spacing: int) -> nat {
    if distance + line_spacing >= 0 && line_spacing > 0 {
        ((distance + line_spacing) / line_spacing) as nat
    } else {
        0
    }
}

/// The ledger lines among the first `count` slots away from `edge`, each
/// `step` further than the last, nearest first.
pub open spec fn ledger_rows(
    note_y: int,
    edge: int,
    step: int,
    line_spacing: int,
    count: nat,
) -> Seq<int>
    decreases count,
{
    if count == 0 {
        Seq::empty()
    } else {
        let nearer = ledger_rows(note_y, edge, step, line_spacing, (count - 1) as nat);
        let row = edge + count * step;
        if requires_ledger_line_at(note_y, row, line_spacing) {
            nearer.push(row)
        } else {
            nearer
        }
    }
}

pub open spec fn ledger_rows_above(note_y: int, staff_top: int, line_spacing: int) -> Seq<int> {
    ledger_rows(
        note_y,
        staff_top,
        -line_spacing,
        line_spacing,
        slots_walked(staff_top - note_y, line_spacing),
    )
}

pub open spec fn ledger_rows_below(note_y: int, staff_bottom: int, line_spacing: int) -> Seq<int> {
    ledger_rows(
        note_y,
        staff_bottom,
        line_spacing,
        line_spacing,
        slots_walked(note_y - staff_bottom, line_spacing),
    )
}

/// The heights of the ledger lines of a note at `note_y`, walking outward
/// from the staff. A note within the staff has none.
pub open spec fn ledger_line_rows(
    note_y: int,
    staff_top: int,
    staff_bottom: int,
    line_spacing: int,
) -> Seq<int> {
    if is_above_staff(note_y, staff_top, line_spacing) {
        ledger_rows_above(note_y, staff_top, line_spacing)
    } else if is_below_staff(note_y, staff_bottom, line_spacing) {
        ledger_rows_below(note_y, staff_bottom, line_spacing)
    } else {
        Seq::empty()
    }
}

pub open spec fn ledger_line(x: i64, row: int, half_length: i64, stroke: Stroke) -> Shape {
    Shape::LineSegment {
        from: Pos2::at(x - half_length, row),
        to: Pos2::at(x + half_length, row),
        stroke,
    }
}

pub open spec fn ledger_shapes(x: i64, rows: Seq<int>, half_length: i64, stroke: Stroke) -> Seq<
    Shape,
> {
    Seq::new(rows.len(), |i: int| ledger_line(x, rows[i], half_length, stroke))
}

/// Everything drawn for a note on a staff: its ledger lines, then its
/// glyph over them.
pub open spec fn note_shapes(
    note: Note,
    x: i64,
    y: i64,
    staff_top: i64,
    staff_bottom: i64,
    line_spacing: i64,
) -> Seq<Shape> {
    let color = judgement_color(note.judgement);
    ledger_shapes(
        x,
        ledger_line_rows(y as int, staff_top as int, staff_bottom as int, line_spacing as int),
        LEDGER_HALF_LENGTH,
        Stroke { width: LEDGER_WIDTH, color },
    ) + glyph_shapes(note.note_type, x, y, color)
}

impl Note {
    pub fn new(pitch: u8, note_type: NoteType, position: Fraction) -> (note: Note)
        ensures
            note == (Note { pitch, note_type, position, judgement: Judgement::Unplayed }),
    {
        Note { pitch, note_type, position, judgement: Judgement::Unplayed }
    }

    pub fn color(&self) -> (c: Color)
        ensures
            c == judgement_color(self.judgement),
    {
        match self.judgement {
            Judgement::Unplayed => Color::from_rgb(0, 0, 0),
            Judgement::Correct => Color::from_rgb(0, 150, 0),
            Judgement::Incorrect => Color::from_rgb(200, 0, 0),
        }
    }

    /// Draws the note's glyph with its head at `(x, y)`.
    pub fn draw(&self, painter: &mut Painter, x: i64, y: i64)
        requires
            coord_ok(x),
            coord_ok(y),
        ensures
            final(painter)@ == old(painter)@ + glyph_shapes(
                self.note_type,
                x,
                y,
                judgement_color(self.judgement),
            ),
    {
        let color = self.color();
        match self.note_type {
            NoteType::Whole => self.draw_whole_note(painter, x, y, color),
            NoteType::Half => self.draw_half_note(painter, x, y, color),
            NoteType::Quarter => self.draw_quarter_note(painter, x, y, color),
            NoteType::Eighth => self.draw_eighth_note(painter, x, y, color),
        }
    }

    /// Draws the note on a staff whose top and bottom lines are at
    /// `staff_top` and `staff_bottom`: first the ledger lines, so that they
    /// lie behind the note, then the glyph.
    pub fn draw_with_staff_info(
        &self,
        painter: &mut Painter,
        x: i64,
        y: i64,
        staff_top: i64,
        staff_bottom: i64,
        line_spacing: i64,
    )
        requires
            coord_ok(x),
            coord_ok(y),
            coord_ok(staff_top),
            coord_ok(staff_bottom),
            0 < line_spacing <= COORD_LIMIT,
        ensures
            final(painter)@ == old(painter)@ + note_shapes(
                *self,
                x,
                y,
                staff_top,
                staff_bottom,
                line_spacing,
            ),
    {
        let color = self.color();
        self.draw_ledger_lines(painter, x, y, staff_top, staff_bottom, line_spacing, color);
        match self.note_type {
            NoteType::Whole => self.draw_whole_note(painter, x, y, color),
            NoteType::Half => self.draw_half_note(painter, x, y, color),
            NoteType::Quarter => self.draw_quarter_note(painter, x, y, color),
            NoteType::Eighth => self.draw_eighth_note(painter, x, y, color),
        }
    }

    fn draw_whole_note(&self, painter: &mut Painter, x: i64, y: i64, color: Color)
        ensures
            final(painter)@ == old(painter)@ + glyph_shapes(NoteType::Whole, x, y, color),
    {
        painter.circle_stroke(Pos2::new(x, y), NOTE_HEAD_RADIUS, Stroke::new(OUTLINE_WIDTH, color));
        assert(painter@ =~= old(painter)@ + glyph_shapes(NoteType::Whole, x, y, color));
    }

    fn draw_half_note(&self, painter: &mut Painter, x: i64, y: i64, color: Color)
        requires
            coord_ok(x),
            coord_ok(y),
        ensures
            final(painter)@ == old(painter)@ + glyph_shapes(NoteType::Half, x, y, color),
    {
        painter.circle_stroke(Pos2::new(x, y), NOTE_HEAD_RADIUS, Stroke::new(OUTLINE_WIDTH, color));
        painter.line_segment(
            Pos2::new(x + NOTE_HEAD_RADIUS, y),
            Pos2::new(x + NOTE_HEAD_RADIUS, y - STEM_HEIGHT),
            Stroke::new(STEM_WIDTH, color),
        );
        assert(painter@ =~= old(painter)@ + glyph_shapes(NoteType::Half, x, y, color));
    }

    fn draw_quarter_note(&self, painter: &mut Painter, x: i64, y: i64, color: Color)
        requires
            coord_ok(x),
            coord_ok(y),
        ensures
            final(painter)@ == old(painter)@ + glyph_shapes(NoteType::Quarter, x, y, color),
    {
        painter.circle_filled(Pos2::new(x, y), NOTE_HEAD_RADIUS, color);
        painter.line_segment(
            Pos2::new(x + NOTE_HEAD_RADIUS, y),
            Pos2::new(x + NOTE_HEAD_RADIUS, y - STEM_HEIGHT),
            Stroke::new(STEM_WIDTH, color),
        );
        assert(painter@ =~= old(painter)@ + glyph_shapes(NoteType::Quarter, x, y, color));
    }

    fn draw_eighth_note(&self, painter: &mut Painter, x: i64, y: i64, color: Color)
        requires
            coord_ok(x),
            coord_ok(y),
        ensures
            final(painter)@ == old(painter)@ + glyph_shapes(NoteType::Eighth, x, y, color),
    {
        painter.circle_filled(Pos2::new(x, y), NOTE_HEAD_RADIUS, color);
        painter.line_segment(
            Pos2::new(x + NOTE_HEAD_RADIUS, y),
            Pos2::new(x + NOTE_HEAD_RADIUS, y - STEM_HEIGHT),
            Stroke::new(STEM_WIDTH, color),
        );
        painter.line_segment(
            Pos2::new(x + NOTE_HEAD_RADIUS, y - STEM_HEIGHT),
            Pos2::new(x + FLAG_REACH, y - FLAG_DROP),
            Stroke::new(OUTLINE_WIDTH, color),
        );
        assert(painter@ =~= old(painter)@ + glyph_shapes(NoteType::Eighth, x, y, color));
    }
}

impl Note {
    fn draw_ledger_lines(
        &self,
        painter: &mut Painter,
        x: i64,
        y: i64,
        staff_top: i64,
        staff_bottom: i64,
        line_spacing: i64,
        color: Color,
    )
        requires
            coord_ok(x),
            coord_ok(y),
            coord_ok(staff_top),
            coord_ok(staff_bottom),
            0 < line_spacing <= COORD_LIMIT,
        ensures
            final(painter)@ == old(painter)@ + ledger_shapes(
                x,
                ledger_line_rows(
                    y as int,
                    staff_top as int,
                    staff_bottom as int,
                    line_spacing as int,
                ),
                LEDGER_HALF_LENGTH,
                Stroke { width: LEDGER_WIDTH, color },
            ),
    {
        let stroke = Stroke::new(LEDGER_WIDTH, color);
        if 4 * (staff_top - y) > line_spacing {
            self.draw_ledger_lines_above(
                painter,
                x,
                y,
                staff_top,
                line_spacing,
                LEDGER_HALF_LENGTH,
                stroke,
            );
        } else if 4 * (y - staff_bottom) > line_spacing {
            self.draw_ledger_lines_below(
                painter,
                x,
                y,
                staff_bottom,
                line_spacing,
                LEDGER_HALF_LENGTH,
                stroke,
            );
        } else {
            assert(painter@ =~= old(painter)@ + ledger_shapes(
                x,
                Seq::<int>::empty(),
                LEDGER_HALF_LENGTH,
                stroke,
            ));
        }
    }

    fn draw_ledger_lines_above(
        &self,
        painter: &mut Painter,
        x: i64,
        note_y: i64,
        staff_top: i64,
        line_spacing: i64,
        ledger_half_length: i64,
        stroke: Stroke,
    )
        requires
            coord_ok(x),
            coord_ok(note_y),
            coord_ok(staff_top),
            0 < line_spacing <= COORD_LIMIT,
            0 <= ledger_half_length <= COORD_LIMIT,
        ensures
            final(painter)@ == old(painter)@ + ledger_shapes(
                x,
                ledger_rows_above(note_y as int, staff_top as int, line_spacing as int),
                ledger_half_length,
                stroke,
            ),
    {
        let mut current_ledger_y: i64 = staff_top - line_spacing;
        let ghost mut walked: nat = 0;
        proof {
            lemma_slot_offset(0, -line_spacing as int);
            assert(painter@ =~= old(painter)@ + ledger_shapes(
                x,
                Seq::<int>::empty(),
                ledger_half_length,
                stroke,
            ));
        }
        while current_ledger_y >= note_y - line_spacing
            invariant
                coord_ok(x),
                coord_ok(note_y),
                coord_ok(staff_top),
                0 < line_spacing <= COORD_LIMIT,
                0 <= ledger_half_length <= COORD_LIMIT,
                current_ledger_y == staff_top + (walked + 1) * (-line_spacing),
                current_ledger_y <= staff_top,
                current_ledger_y >= note_y - 2 * line_spacing || walked == 0,
                walked == 0 || walked * line_spacing <= staff_top - note_y + line_spacing,
                painter@ == old(painter)@ + ledger_shapes(
                    x,
                    ledger_rows(
                        note_y as int,
                        staff_top as int,
                        -line_spacing as int,
                        line_spacing as int,
                        walked,
                    ),
                    ledger_half_length,
                    stroke,
                ),
            decreases current_ledger_y - note_y + 2 * line_spacing,
        {
            let ghost nearer = ledger_rows(
                note_y as int,
                staff_top as int,
                -line_spacing as int,
                line_spacing as int,
                walked,
            );
            if self.note_requires_ledger_line_at(note_y, current_ledger_y, line_spacing) {
                painter.line_segment(
                    Pos2::new(x - ledger_half_length, current_ledger_y),
                    Pos2::new(x + ledger_half_length, current_ledger_y),
                    stroke,
                );
                assert(painter@ =~= old(painter)@ + ledger_shapes(
                    x,
                    nearer.push(current_ledger_y as int),
                    ledger_half_length,
                    stroke,
                ));
            }
            proof {
                lemma_slot_offset(walked, line_spacing as int);
                lemma_slot_offset(walked + 1, -line_spacing as int);
                lemma_slot_mirrored(walked, line_spacing as int);
                walked = walked + 1;
            }
            current_ledger_y = current_ledger_y - line_spacing;
        }
        proof {
            lemma_slot_mirrored(walked, line_spacing as int);
            lemma_slots_walked(staff_top - note_y, line_spacing as int, walked);
        }
    }

    fn draw_ledger_lines_below(
        &self,
        painter: &mut Painter,
        x: i64,
        note_y: i64,
        staff_bottom: i64,
        line_spacing: i64,
        ledger_half_length: i64,
        stroke: Stroke,
    )
        requires
            coord_ok(x),
            coord_ok(note_y),
            coord_ok(staff_bottom),
            0 < line_spacing <= COORD_LIMIT,
            0 <= ledger_half_length <= COORD_LIMIT,
        ensures
            final(painter)@ == old(painter)@ + ledger_shapes(
                x,
                ledger_rows_below(note_y as int, staff_bottom as int, line_spacing as int),
                ledger_half_length,
                stroke,
            ),
    {
        let mut current_ledger_y: i64 = staff_bottom + line_spacing;
        let ghost mut walked: nat = 0;
        proof {
            lemma_slot_offset(0, line_spacing as int);
            assert(painter@ =~= old(painter)@ + ledger_shapes(
                x,
                Seq::<int>::empty(),
                ledger_half_length,
                stroke,
            ));
        }
        while current_ledger_y <= note_y + line_spacing
            invariant
                coord_ok(x),
                coord_ok(note_y),
                coord_ok(staff_bottom),
                0 < line_spacing <= COORD_LIMIT,
                0 <= ledger_half_length <= COORD_LIMIT,
                current_ledger_y == staff_bottom + (walked + 1) * line_spacing,
                current_ledger_y >= staff_bottom,
                current_ledger_y <= note_y + 2 * line_spacing || walked == 0,
                walked == 0 || walked * line_spacing <= note_y - staff_bottom + line_spacing,
                painter@ == old(painter)@ + ledger_shapes(
                    x,
                    ledger_rows(
                        note_y as int,
                        staff_bottom as int,
                        line_spacing as int,
                        line_spacing as int,
                        walked,
                    ),
                    ledger_half_length,
                    stroke,
                ),
            decreases note_y + 2 * line_spacing - current_ledger_y,
        {
            let ghost nearer = ledger_rows(
                note_y as int,
                staff_bottom as int,
                line_spacing as int,
                line_spacing as int,
                walked,
            );
            if self.note_requires_ledger_line_at(note_y, current_ledger_y, line_spacing) {
                painter.line_segment(
                    Pos2::new(x - ledger_half_length, current_ledger_y),
                    Pos2::new(x + ledger_half_length, current_ledger_y),
                    stroke,
                );
                assert(painter@ =~= old(painter)@ + ledger_shapes(
                    x,
                    nearer.push(current_ledger_y as int),
                    ledger_half_length,
                    stroke,
                ));
            }
            proof {
                lemma_slot_offset(walked, line_spacing as int);
                lemma_slot_offset(walked + 1, line_spacing as int);
                walked = walked + 1;
            }
            current_ledger_y = current_ledger_y + line_spacing;
        }
        proof {
            lemma_slots_walked(note_y - staff_bottom, line_spacing as int, walked);
        }
    }

    fn note_requires_ledger_line_at(&self, note_y: i64, ledger_y: i64, line_spacing: i64) -> (r:
        bool)
        requires
            -4 * COORD_LIMIT <= note_y <= 4 * COORD_LIMIT,
            -4 * COORD_LIMIT <= ledger_y <= 4 * COORD_LIMIT,
            0 < line_spacing <= COORD_LIMIT,
        ensures
            r == requires_ledger_line_at(note_y as int, ledger_y as int, line_spacing as int),
    {
        let eighths: i64 = 8 * (note_y - ledger_y);
        let half_space: i64 = 4 * line_spacing;
        if -line_spacing < eighths && eighths < line_spacing {
            return true;
        }
        let from_space_above: i64 = eighths + half_space;
        let from_space_below: i64 = eighths - half_space;
        if (-line_spacing < from_space_above && from_space_above < line_spacing) || (-line_spacing
            < from_space_below && from_space_below < line_spacing) {
            return true;
        }
        false
    }
}

/// Each slot lies one step beyond the one before it.
proof fn lemma_slot_offset(walked: nat, step: int)
    ensures
        (walked + 1) * step == walked * step + step,
        walked == 0 ==> walked * step == 0,
{
    assert((walked + 1) * step == walked * step + step) by (nonlinear_arith);
    assert(walked == 0 ==> walked * step == 0) by (nonlinear_arith);
}

/// Walking up by a step is walking down by its opposite.
proof fn lemma_slot_mirrored(walked: nat, step: int)
    ensures
        (walked + 1) * (-step) == -((walked + 1) * step),
{
    assert((walked + 1) * (-step) == -((walked + 1) * step)) by (nonlinear_arith);
}

/// A walk that has passed `walked` slots and stops at the next one has
/// passed as many as `slots_walked` counts.
proof fn lemma_slots_walked(distance: int, line_spacing: int, walked: nat)
    requires
        line_spacing > 0,
        walked == 0 || walked * line_spacing <= distance + line_spacing,
        distance + line_spacing < (walked + 1) * line_spacing,
    ensures
        slots_walked(distance, line_spacing) == walked,
{
    let reach = distance + line_spacing;
    if reach < 0 {
        if walked > 0 {
            assert(walked * line_spacing > 0) by (nonlinear_arith)
                requires
                    walked > 0,
                    line_spacing > 0,
            ;
        }
    } else {
        lemma_slot_offset(walked, line_spacing);
        vstd::arithmetic::div_mod::lemma_fundamental_div_mod_converse(
            reach,
            line_spacing,
            walked as int,
            reach - walked * line_spacing,
        );
    }
}

/// The ledger lines among the first `count` slots are exactly those
/// slots at which the note calls for one.
pub proof fn lemma_ledger_rows_are_the_called_for(
    note_y: int,
    edge: int,
    step: int,
    line_spacing: int,
    count: nat,
    row: int,
)
    ensures
        ledger_rows(note_y, edge, step, line_spacing, count).contains(row) <==> exists|k: int|
            1 <= k <= count && row == edge + #[trigger] (k * step) && requires_ledger_line_at(
                note_y,
                row,
                line_spacing,
            ),
    decreases count,
{
    let rows = ledger_rows(note_y, edge, step, line_spacing, count);
    if count > 0 {
        let nearer = ledger_rows(note_y, edge, step, line_spacing, (count - 1) as nat);
        let last = edge + count * step;
        lemma_ledger_rows_are_the_called_for(
            note_y,
            edge,
            step,
            line_spacing,
            (count - 1) as nat,
            row,
        );
        if rows.contains(row) {
            let i = choose|i: int| 0 <= i < rows.len() && rows[i] == row;
            if i < nearer.len() {
                assert(nearer[i] == row);
                assert(nearer.contains(row));
            } else {
                assert(row == edge + (count as int) * step);
            }
        }
        if exists|k: int|
            1 <= k <= count && row == edge + #[trigger] (k * step) && requires_ledger_line_at(
                note_y,
                row,
                line_spacing,
            ) {
            let k = choose|k: int|
                1 <= k <= count && row == edge + #[trigger] (k * step) && requires_ledger_line_at(
                    note_y,
                    row,
                    line_spacing,
                );
            if k == count {
                assert(rows == nearer.push(last));
                assert(rows[nearer.len() as int] == row);
            } else {
                assert(nearer.contains(row));
                let i = choose|i: int| 0 <= i < nearer.len() && nearer[i] == row;
                assert(rows[i] == row);
            }
        }
    } else {
        assert(!rows.contains(row));
    }
}

/// Stopping the walk one line spacing beyond the note misses nothing: a
/// slot at which the note calls for a ledger line is among those walked.
pub proof fn lemma_walk_reaches_every_ledger_line(distance: int, line_spacing: int, k: int)
    requires
        line_spacing > 0,
        k >= 1,
        requires_ledger_line_at(distance, k * line_spacing, line_spacing),
    ensures
        k <= slots_walked(distance, line_spacing),
{
    let reach = distance + line_spacing;
    assert(8 * (distance - k * line_spacing) > -5 * line_spacing);
    assert(k * line_spacing <= reach);
    assert(reach >= 0) by (nonlinear_arith)
        requires
            k >= 1,
            line_spacing > 0,
            k * line_spacing <= reach,
    ;
    vstd::arithmetic::div_mod::lemma_fundamental_div_mod(reach, line_spacing);
    let walked = reach / line_spacing;
    assert(k <= walked) by (nonlinear_arith)
        requires
            line_spacing > 0,
            k * line_spacing <= reach,
            reach == line_spacing * walked + reach % line_spacing,
            0 <= reach % line_spacing < line_spacing,
    ;
}

/// A note calls for a ledger line at no two slots that are more than one
/// line spacing apart.
proof fn lemma_called_for_slots_are_neighbours(
    note_y: int,
    edge: int,
    step: int,
    line_spacing: int,
    j: int,
    k: int,
)
    requires
        line_spacing > 0,
        step == line_spacing || step == -line_spacing,
        j + 2 <= k,
        requires_ledger_line_at(note_y, edge + k * step, line_spacing),
    ensures
        !requires_ledger_line_at(note_y, edge + j * step, line_spacing),
{
    assert((k - j) * line_spacing >= 2 * line_spacing) by (nonlinear_arith)
        requires
            k - j >= 2,
            line_spacing > 0,
    ;
    assert(k * step - j * step == (k - j) * step) by (nonlinear_arith);
    assert((k - j) * (-line_spacing) == -((k - j) * line_spacing)) by (nonlinear_arith);
}

/// Where the note calls for no ledger line at any slot, there is none.
proof fn lemma_no_call_no_rows(note_y: int, edge: int, step: int, line_spacing: int, count: nat)
    requires
        forall|j: int|
            1 <= j <= count ==> !requires_ledger_line_at(
                note_y,
                edge + #[trigger] (j * step),
                line_spacing,
            ),
    ensures
        ledger_rows(note_y, edge, step, line_spacing, count).len() == 0,
    decreases count,
{
    if count > 0 {
        lemma_no_call_no_rows(note_y, edge, step, line_spacing, (count - 1) as nat);
        assert(!requires_ledger_line_at(note_y, edge + (count as int) * step, line_spacing));
    }
}

/// However far a note lies from the staff, it has at most two ledger
/// lines among any number of slots.
pub proof fn lemma_at_most_two_rows(
    note_y: int,
    edge: int,
    step: int,
    line_spacing: int,
    count: nat,
)
    requires
        line_spacing > 0,
        step == line_spacing || step == -line_spacing,
    ensures
        ledger_rows(note_y, edge, step, line_spacing, count).len() <= 2,
    decreases count,
{
    if count > 0 {
        lemma_at_most_two_rows(note_y, edge, step, line_spacing, (count - 1) as nat);
        if requires_ledger_line_at(note_y, edge + count * step, line_spacing) {
            if count >= 2 {
                assert forall|j: int| 1 <= j <= count - 2 implies !requires_ledger_line_at(
                    note_y,
                    edge + #[trigger] (j * step),
                    line_spacing,
                ) by {
                    lemma_called_for_slots_are_neighbours(
                        note_y,
                        edge,
                        step,
                        line_spacing,
                        j,
                        count as int,
                    );
                }
                lemma_no_call_no_rows(note_y, edge, step, line_spacing, (count - 2) as nat);
                assert(ledger_rows(note_y, edge, step, line_spacing, (count - 1) as nat).len()
                    <= 1);
            }
        }
    }
}

/// A note has at most two ledger lines, and a note within a quarter of
/// the line spacing of the staff has none.
pub proof fn lemma_at_most_two_ledger_lines(
    note_y: int,
    staff_top: int,
    staff_bottom: int,
    line_spacing: int,
)
    requires
        line_spacing > 0,
    ensures
        ledger_line_rows(note_y, staff_top, staff_bottom, line_spacing).len() <= 2,
        4 * (staff_top - note_y) <= line_spacing && 4 * (note_y - staff_bottom) <= line_spacing
            ==> ledger_line_rows(note_y, staff_top, staff_bottom, line_spacing).len() == 0,
{
    lemma_at_most_two_rows(
        note_y,
        staff_top,
        -line_spacing,
        line_spacing,
        slots_walked(staff_top - note_y, line_spacing),
    );
    lemma_at_most_two_rows(
        note_y,
        staff_bottom,
        line_spacing,
        line_spacing,
        slots_walked(note_y - staff_bottom, line_spacing),
    );
}

/// A note on a slot calls for the ledger line at that slot and at no
/// other.
proof fn lemma_call_on_line(edge: int, step: int, line_spacing: int, n: int, j: int)
    requires
        line_spacing > 0,
        step == line_spacing || step == -line_spacing,
    ensures
        requires_ledger_line_at(edge + n * step, edge + j * step, line_spacing) <==> j == n,
{
    assert(n * step - j * step == (n - j) * step) by (nonlinear_arith);
    assert((n - j) * (-line_spacing) == -((n - j) * line_spacing)) by (nonlinear_arith);
    if n > j {
        assert((n - j) * line_spacing >= line_spacing) by (nonlinear_arith)
            requires
                n - j >= 1,
                line_spacing > 0,
        ;
    } else if n < j {
        assert((n - j) * line_spacing <= -line_spacing) by (nonlinear_arith)
            requires
                n - j <= -1,
                line_spacing > 0,
        ;
    } else {
        assert((n - j) * line_spacing == 0) by (nonlinear_arith)
            requires
                n - j == 0,
        ;
    }
}

/// A note in the space beyond a slot calls for the ledger lines at that
/// slot and at the next, and at no other.
proof fn lemma_call_in_space(
    edge: int,
    step: int,
    half_step: int,
    line_spacing: int,
    n: int,
    j: int,
)
    requires
        line_spacing > 0,
        step == line_spacing || step == -line_spacing,
        2 * half_step == step,
    ensures
        requires_ledger_line_at(edge + n * step + half_step, edge + j * step, line_spacing) <==> (j
            == n || j == n + 1),
{
    assert(n * step - j * step == (n - j) * step) by (nonlinear_arith);
    assert((n - j) * (-line_spacing) == -((n - j) * line_spacing)) by (nonlinear_arith);
    if n > j {
        assert((n - j) * line_spacing >= line_spacing) by (nonlinear_arith)
            requires
                n - j >= 1,
                line_spacing > 0,
        ;
    } else if n + 1 < j {
        assert((n - j) * line_spacing <= -2 * line_spacing) by (nonlinear_arith)
            requires
                n - j <= -2,
                line_spacing > 0,
        ;
    } else if n == j {
        assert((n - j) * line_spacing == 0) by (nonlinear_arith)
            requires
                n - j == 0,
        ;
    } else {
        assert((n - j) * line_spacing == -line_spacing) by (nonlinear_arith)
            requires
                n - j == -1,
        ;
    }
}

/// The ledger lines of a note on the `n`th slot beyond an edge.
proof fn lemma_rows_on_line(edge: int, step: int, line_spacing: int, n: nat)
    requires
        line_spacing > 0,
        step == line_spacing || step == -line_spacing,
        n >= 1,
    ensures
        ledger_rows(edge + n * step, edge, step, line_spacing, n + 1) == seq![edge + n * step],
{
    let note_y = edge + n * step;
    assert forall|j: int| 1 <= j <= n - 1 implies !requires_ledger_line_at(
        note_y,
        edge + #[trigger] (j * step),
        line_spacing,
    ) by {
        lemma_call_on_line(edge, step, line_spacing, n as int, j);
    }
    lemma_no_call_no_rows(note_y, edge, step, line_spacing, (n - 1) as nat);
    lemma_call_on_line(edge, step, line_spacing, n as int, n as int);
    lemma_call_on_line(edge, step, line_spacing, n as int, n as int + 1);
    let upto = ledger_rows(note_y, edge, step, line_spacing, n);
    assert(upto =~= seq![edge + n * step]);
    assert(ledger_rows(note_y, edge, step, line_spacing, n + 1) == upto);
}

/// The ledger lines of a note in the space beyond the `n`th slot.
proof fn lemma_rows_in_space(edge: int, step: int, half_step: int, line_spacing: int, n: nat)
    requires
        line_spacing > 0,
        step == line_spacing || step == -line_spacing,
        2 * half_step == step,
    ensures
        ledger_rows(edge + n * step + half_step, edge, step, line_spacing, n + 1) == if n == 0 {
            seq![edge + step]
        } else {
            seq![edge + n * step, edge + (n + 1) * step]
        },
{
    let note_y = edge + n * step + half_step;
    lemma_call_in_space(edge, step, half_step, line_spacing, n as int, n as int);
    lemma_call_in_space(edge, step, half_step, line_spacing, n as int, n as int + 1);
    let all = ledger_rows(note_y, edge, step, line_spacing, n + 1);
    let upto = ledger_rows(note_y, edge, step, line_spacing, n);
    assert(all == upto.push(edge + (n + 1) * step));
    if n == 0 {
        assert((n + 1) * step == step) by (nonlinear_arith)
            requires
                n == 0,
        ;
        assert(all =~= seq![edge + step]);
    } else {
        assert forall|j: int| 1 <= j <= n - 1 implies !requires_ledger_line_at(
            note_y,
            edge + #[trigger] (j * step),
            line_spacing,
        ) by {
            lemma_call_in_space(edge, step, half_step, line_spacing, n as int, j);
        }
        lemma_no_call_no_rows(note_y, edge, step, line_spacing, (n - 1) as nat);
        assert(upto =~= seq![edge + n * step]);
        assert(all =~= seq![edge + n * step, edge + (n + 1) * step]);
    }
}

/// A note on the `n`th ledger slot below or above the staff has one
/// ledger line: the one through it.
pub proof fn lemma_note_on_ledger_line(staff_top: int, staff_bottom: int, line_spacing: int, n: nat)
    requires
        line_spacing > 0,
        staff_top <= staff_bottom,
        n >= 1,
    ensures
        ledger_line_rows(staff_bottom + n * line_spacing, staff_top, staff_bottom, line_spacing)
            == seq![staff_bottom + n * line_spacing],
        ledger_line_rows(staff_top - n * line_spacing, staff_top, staff_bottom, line_spacing)
            == seq![staff_top - n * line_spacing],
{
    let distance = n * line_spacing;
    assert(distance >= line_spacing) by (nonlinear_arith)
        requires
            distance == n * line_spacing,
            n >= 1,
            line_spacing > 0,
    ;
    assert((n + 1) * line_spacing == distance + line_spacing) by (nonlinear_arith)
        requires
            distance == n * line_spacing,
    ;
    vstd::arithmetic::div_mod::lemma_fundamental_div_mod_converse(
        distance + line_spacing,
        line_spacing,
        n as int + 1,
        0,
    );
    assert(n * (-line_spacing) == -distance) by (nonlinear_arith)
        requires
            distance == n * line_spacing,
    ;
    lemma_rows_on_line(staff_bottom, line_spacing, line_spacing, n);
    lemma_rows_on_line(staff_top, -line_spacing, line_spacing, n);
}

/// On a staff with an even line spacing, a note in the space just beyond
/// the `n`th ledger slot has the ledger lines on either side of it; in the
/// space next to the staff, where `n` is 0, that is one line, for the
/// staff's own line is no ledger line.
pub proof fn lemma_note_in_ledger_space(
    staff_top: int,
    staff_bottom: int,
    line_spacing: int,
    n: nat,
)
    requires
        line_spacing > 0,
        line_spacing % 2 == 0,
        staff_top <= staff_bottom,
    ensures
        ledger_line_rows(
            staff_bottom + n * line_spacing + line_spacing / 2,
            staff_top,
            staff_bottom,
            line_spacing,
        ) == if n == 0 {
            seq![staff_bottom + line_spacing]
        } else {
            seq![staff_bottom + n * line_spacing, staff_bottom + (n + 1) * line_spacing]
        },
        ledger_line_rows(
            staff_top - n * line_spacing - line_spacing / 2,
            staff_top,
            staff_bottom,
            line_spacing,
        ) == if n == 0 {
            seq![staff_top - line_spacing]
        } else {
            seq![staff_top - n * line_spacing, staff_top - (n + 1) * line_spacing]
        },
{
    let half = line_spacing / 2;
    let distance = n * line_spacing;
    assert(distance >= 0) by (nonlinear_arith)
        requires
            distance == n * line_spacing,
            n >= 0,
            line_spacing > 0,
    ;
    assert((n + 1) * line_spacing == distance + line_spacing) by (nonlinear_arith)
        requires
            distance == n * line_spacing,
    ;
    vstd::arithmetic::div_mod::lemma_fundamental_div_mod_converse(
        distance + half + line_spacing,
        line_spacing,
        n as int + 1,
        half,
    );
    assert(n * (-line_spacing) == -distance) by (nonlinear_arith)
        requires
            distance == n * line_spacing,
    ;
    assert((n + 1) * (-line_spacing) == -distance - line_spacing) by (nonlinear_arith)
        requires
            distance == n * line_spacing,
    ;
    lemma_rows_in_space(staff_bottom, line_spacing, half, line_spacing, n);
    lemma_rows_in_space(staff_top, -line_spacing, -half, line_spacing, n);
}

} // verus!
