//! The five-line staff and where a pitch sits on it.

use vstd::prelude::*;
use crate::notation::notes::{ledger_line_rows, lemma_note_in_ledger_space};
use crate::notation::painter::{Color, Painter, Pos2, Shape, Stroke, COORD_LIMIT, PX};

verus! {

#[derive(Clone, Copy, Debug, PartialEq, Eq, Structural)]
pub enum Clef {
    Treble,
    Bass,
}

/// A staff: five lines, `line_spacing` apart, the top one starting at
/// `position` and running `width` to the right.
#[derive(Clone, Copy, Debug, PartialEq, Eq, Structural)]
pub struct Staff {
    pub clef: Clef,
    pub position: Pos2,
    pub width: i64,
    pub line_spacing: i64,
}

pub const DEFAULT_LINE_SPACING: i64 = 12 * PX;

/// Staves are placed within this distance of zero, which leaves room for
/// every note on them.
pub const STAFF_LIMIT: i64 = 0x4_0000_0000_0000;

pub const MAX_LINE_SPACING: i64 = 0x1_0000_0000;

pub const STAFF_LINE_WIDTH: i64 = PX;

pub const CLEF_INSET: i64 = 10 * PX;

pub const CLEF_DOT_RADIUS: i64 = 8 * PX;

pub const CLEF_GLYPH_SIZE: i64 = 20 * PX;

pub const CLEF_GLYPH_LEFT: i64 = 4 * PX;

pub const CLEF_GLYPH_UP: i64 = 6 * PX;

/// The pitch of middle C, to which both clefs are anchored.
pub const MIDDLE_C: u8 = 60;

pub open spec fn clef_glyph(clef: Clef) -> char {
    match clef {
        Clef::Treble => '\u{1D11E}',
        Clef::Bass => '\u{1D122}',
    }
}

impl Staff {
    pub open spec fn wf(self) -> bool {
        &&& -STAFF_LIMIT <= self.position.x <= STAFF_LIMIT
        &&& -STAFF_LIMIT <= self.position.y <= STAFF_LIMIT
        &&& -STAFF_LIMIT <= self.width <= STAFF_LIMIT
        &&& 0 < self.line_spacing <= MAX_LINE_SPACING
    }

    /// The height of the top line.
    pub open spec fn top(self) -> int {
        self.position.y as int
    }

    /// The height of the bottom line, four line spacings under the top one.
    pub open spec fn bottom(self) -> int {
        self.position.y + 4 * self.line_spacing
    }

    /// The distance between a line and the space next to it, which is the
    /// distance between neighbouring pitches.
    pub open spec fn half_space(self) -> int {
        self.line_spacing as int / 2
    }

    /// Where middle C sits: one half space below the bottom line of a
    /// treble staff, one half space above the top line of a bass staff.
    pub open spec fn middle_c_y(self) -> int {
        match self.clef {
            Clef::Treble => self.bottom() + self.half_space(),
            Clef::Bass => self.top() - self.half_space(),
        }
    }

    /// Where a pitch sits: one half space higher for each step above middle
    /// C, one lower for each step below it.
    pub open spec fn note_y(self, midi_note: u8) -> int {
        self.middle_c_y() - (midi_note - MIDDLE_C) * self.half_space()
    }

    pub open spec fn line_shape(self, i: int) -> Shape {
        Shape::LineSegment {
            from: Pos2::at(self.position.x as int, self.position.y + i * self.line_spacing),
            to: Pos2::at(
                self.position.x + self.width,
                self.position.y + i * self.line_spacing,
            ),
            stroke: Stroke { width: STAFF_LINE_WIDTH, color: Color::black() },
        }
    }

    /// The clef symbol: a dot on the middle line near the left end, and the
    /// clef's glyph beside it.
    pub open spec fn clef_shapes(self) -> Seq<Shape> {
        seq![
            Shape::CircleFilled {
                center: Pos2::at(
                    self.position.x + CLEF_INSET,
                    self.position.y + 2 * self.line_spacing,
                ),
                radius: CLEF_DOT_RADIUS,
                fill: Color::black(),
            },
            Shape::Text {
                pos: Pos2::at(
                    self.position.x + CLEF_INSET - CLEF_GLYPH_LEFT,
                    self.position.y + 2 * self.line_spacing - CLEF_GLYPH_UP,
                ),
                glyph: clef_glyph(self.clef),
                size: CLEF_GLYPH_SIZE,
                color: Color::black(),
            },
        ]
    }

    /// Everything drawn for a staff: its five lines from the top down,
    /// then its clef.
    pub open spec fn shapes(self) -> Seq<Shape> {
        Seq::new(5, |i: int| self.line_shape(i)) + self.clef_shapes()
    }

    pub fn new(clef: Clef, position: Pos2, width: i64) -> (staff: Staff)
        ensures
            staff == (Staff { clef, position, width, line_spacing: DEFAULT_LINE_SPACING }),
    {
        Staff { clef, position, width, line_spacing: DEFAULT_LINE_SPACING }
    }

    pub fn get_staff_top(&self) -> (y: i64)
        ensures
            y == self.top(),
    {
        self.position.y
    }

    pub fn get_staff_bottom(&self) -> (y: i64)
        requires
            self.wf(),
        ensures
            y == self.bottom(),
    {
        self.position.y + 4 * self.line_spacing
    }

    pub fn get_line_spacing(&self) -> (s: i64)
        ensures
            s == self.line_spacing,
    {
        self.line_spacing
    }

    /// Draws the five lines and the clef.
    pub fn draw(&self, painter: &mut Painter)
        requires
            self.wf(),
        ensures
            final(painter)@ == old(painter)@ + self.shapes(),
    {
        let stroke = Stroke::new(STAFF_LINE_WIDTH, Color::from_rgb(0, 0, 0));
        let mut i: i64 = 0;
        proof {
            assert(painter@ =~= old(painter)@ + Seq::new(0, |k: int| self.line_shape(k)));
        }
        while i < 5
            invariant
                self.wf(),
                0 <= i <= 5,
                stroke == (Stroke { width: STAFF_LINE_WIDTH, color: Color::black() }),
                painter@ == old(painter)@ + Seq::new(i as nat, |k: int| self.line_shape(k)),
            decreases 5 - i,
        {
            assert(0 <= i * self.line_spacing <= 4 * MAX_LINE_SPACING) by (nonlinear_arith)
                requires
                    0 <= i <= 4,
                    0 < self.line_spacing <= MAX_LINE_SPACING,
            ;
            let y: i64 = self.position.y + i * self.line_spacing;
            painter.line_segment(
                Pos2::new(self.position.x, y),
                Pos2::new(self.position.x + self.width, y),
                stroke,
            );
            assert(painter@ =~= old(painter)@ + Seq::new(
                (i + 1) as nat,
                |k: int| self.line_shape(k),
            ));
            i = i + 1;
        }
        self.draw_clef_symbol(painter);
        assert(painter@ =~= old(painter)@ + self.shapes());
    }

    fn draw_clef_symbol(&self, painter: &mut Painter)
        requires
            self.wf(),
        ensures
            final(painter)@ == old(painter)@ + self.clef_shapes(),
    {
        let clef_x: i64 = self.position.x + CLEF_INSET;
        let center_y: i64 = self.position.y + 2 * self.line_spacing;
        let black = Color::from_rgb(0, 0, 0);
        match self.clef {
            Clef::Treble => {
                painter.circle_filled(Pos2::new(clef_x, center_y), CLEF_DOT_RADIUS, black);
                painter.text(
                    Pos2::new(clef_x - CLEF_GLYPH_LEFT, center_y - CLEF_GLYPH_UP),
                    '\u{1D11E}',
                    CLEF_GLYPH_SIZE,
                    black,
                );
            },
            Clef::Bass => {
                painter.circle_filled(Pos2::new(clef_x, center_y), CLEF_DOT_RADIUS, black);
                painter.text(
                    Pos2::new(clef_x - CLEF_GLYPH_LEFT, center_y - CLEF_GLYPH_UP),
                    '\u{1D122}',
                    CLEF_GLYPH_SIZE,
                    black,
                );
            },
        }
        assert(painter@ =~= old(painter)@ + self.clef_shapes());
    }

    /// The height at which a pitch is drawn on this staff.
    pub fn note_y_position(&self, midi_note: u8) -> (y: i64)
        requires
            self.wf(),
        ensures
            y == self.note_y(midi_note),
    {
        let half_space: i64 = self.line_spacing / 2;
        let steps: i64 = midi_note as i64 - MIDDLE_C as i64;
        assert(-200 * MAX_LINE_SPACING <= steps * half_space <= 200 * MAX_LINE_SPACING)
            by (nonlinear_arith)
            requires
                -200 <= steps <= 200,
                0 <= half_space <= MAX_LINE_SPACING,
        ;
        match self.clef {
            Clef::Treble => {
                let middle_c_y: i64 = self.position.y + 4 * self.line_spacing + half_space;
                middle_c_y - steps * half_space
            },
            Clef::Bass => {
                let middle_c_y: i64 = self.position.y - half_space;
                middle_c_y - steps * half_space
            },
        }
    }
}

/// A note on a well-formed staff lies within the range that the drawing
/// functions accept.
pub proof fn lemma_note_y_in_range(staff: Staff, midi_note: u8)
    requires
        staff.wf(),
    ensures
        -COORD_LIMIT <= staff.note_y(midi_note) <= COORD_LIMIT,
        -COORD_LIMIT <= staff.bottom() <= COORD_LIMIT,
{
    let steps = midi_note - MIDDLE_C;
    let half_space = staff.half_space();
    assert(-200 * MAX_LINE_SPACING <= steps * half_space <= 200 * MAX_LINE_SPACING)
        by (nonlinear_arith)
        requires
            -200 <= steps <= 200,
            0 <= half_space <= MAX_LINE_SPACING,
    ;
}

/// On a staff with an even line spacing middle C has exactly one ledger
/// line: the first one below a treble staff, the first one above a bass
/// staff.
pub proof fn lemma_middle_c_has_one_ledger_line(staff: Staff)
    requires
        staff.wf(),
        staff.line_spacing % 2 == 0,
    ensures
        ledger_line_rows(
            staff.note_y(MIDDLE_C),
            staff.top(),
            staff.bottom(),
            staff.line_spacing as int,
        ) == match staff.clef {
            Clef::Treble => seq![staff.bottom() + staff.line_spacing],
            Clef::Bass => seq![staff.top() - staff.line_spacing],
        },
{
    lemma_note_in_ledger_space(staff.top(), staff.bottom(), staff.line_spacing as int, 0);
    assert(0 * staff.line_spacing == 0);
    assert((MIDDLE_C - MIDDLE_C) * staff.half_space() == 0);
}

/// On a treble staff with an even line spacing the pitch two steps
/// under middle C, which sits in the second space below the staff, has
/// exactly two ledger lines: the first and the second below the staff.
pub proof fn lemma_second_space_below_has_two_ledger_lines(staff: Staff)
    requires
        staff.wf(),
        staff.clef == Clef::Treble,
        staff.line_spacing % 2 == 0,
    ensures
        ledger_line_rows(
            staff.note_y((MIDDLE_C - 2) as u8),
            staff.top(),
            staff.bottom(),
            staff.line_spacing as int,
        ) == seq![
            staff.bottom() + staff.line_spacing,
            staff.bottom() + 2 * staff.line_spacing,
        ],
{
    lemma_note_in_ledger_space(staff.top(), staff.bottom(), staff.line_spacing as int, 1);
    assert(1 * staff.line_spacing == staff.line_spacing);
    assert((1 + 1) * staff.line_spacing == 2 * staff.line_spacing);
    assert(((MIDDLE_C - 2) as u8 - MIDDLE_C) * staff.half_space() == -2 * staff.half_space());
}

} // verus!
