//! Layout of a note sequence over systems: pairs of a treble and a bass
//! staff, stacked down the page, each holding a fixed number of notes.

use vstd::prelude::*;
use crate::game::engine::GameEngine;
use crate::notation::notes::{note_shapes, Note};
use crate::notation::painter::{Painter, Pos2, Rect, Shape, PX};
use crate::notation::staff::{
    lemma_note_y_in_range, Clef, Staff, DEFAULT_LINE_SPACING, MIDDLE_C,
};

verus! {

/// One system: a treble staff over a bass staff.
#[derive(Clone, Copy, Debug, PartialEq, Eq, Structural)]
pub struct StaffSystem {
    pub treble_staff: Staff,
    pub bass_staff: Staff,
    pub system_number: usize,
}

pub struct NotationRenderer {
    staff_systems: Vec<StaffSystem>,
    notes_per_system: usize,
    system_height: i64,
    system_spacing: i64,
}

pub const NOTES_PER_SYSTEM: usize = 8;

pub const SYSTEM_HEIGHT: i64 = 120 * PX;

pub const SYSTEM_SPACING: i64 = 40 * PX;

/// The room left under the last system.
pub const CONTENT_MARGIN: i64 = 40 * PX;

/// The room between the viewport and the staves, on each side and on top.
pub const VIEW_MARGIN: i64 = 20 * PX;

/// How far the bass staff of a system lies under its treble staff.
pub const BASS_OFFSET: i64 = 80 * PX;

/// The room kept at each end of a staff for clefs and margins.
pub const NOTE_AREA_INSET: i64 = 80 * PX;

/// Viewports lie within this distance of zero.
pub const VIEWPORT_LIMIT: i64 = 0x100_0000_0000;

/// The most that a renderer's heights and its notes per system can be.
pub const LAYOUT_LIMIT: i64 = 0x8000;

pub open spec fn viewport_ok(rect: Rect) -> bool {
    &&& -VIEWPORT_LIMIT <= rect.min.x <= VIEWPORT_LIMIT
    &&& -VIEWPORT_LIMIT <= rect.min.y <= VIEWPORT_LIMIT
    &&& -VIEWPORT_LIMIT <= rect.max.x <= VIEWPORT_LIMIT
    &&& -VIEWPORT_LIMIT <= rect.max.y <= VIEWPORT_LIMIT
}

/// How many systems `notes` notes take at `per_system` notes each: as many
/// as hold them all, and at least one.
pub open spec fn num_systems(notes: nat, per_system: nat) -> nat {
    if notes == 0 {
        1
    } else if notes % per_system == 0 {
        notes / per_system
    } else {
        notes / per_system + 1
    }
}

/// The height of the whole content: the systems, each with the spacing
/// under it, and a margin.
pub open spec fn content_height(systems: nat, system_height: int, system_spacing: int) -> int {
    systems * (system_height + system_spacing) + CONTENT_MARGIN
}

/// The system with the given index in a viewport: systems are stacked at a
/// fixed pitch from the top margin down, and inset by the margin at both
/// sides.
pub open spec fn system_at(rect: Rect, index: int, system_height: int, system_spacing: int) -> StaffSystem {
    let x = rect.min.x + VIEW_MARGIN;
    let y = rect.min.y + VIEW_MARGIN + index * (system_height + system_spacing);
    let width = (rect.spec_width() - 2 * VIEW_MARGIN) as i64;
    StaffSystem {
        treble_staff: Staff {
            clef: Clef::Treble,
            position: Pos2::at(x, y),
            width,
            line_spacing: DEFAULT_LINE_SPACING,
        },
        bass_staff: Staff {
            clef: Clef::Bass,
            position: Pos2::at(x, y + BASS_OFFSET),
            width,
            line_spacing: DEFAULT_LINE_SPACING,
        },
        system_number: index as usize,
    }
}

pub open spec fn systems_in(rect: Rect, count: nat, system_height: int, system_spacing: int) -> Seq<
    StaffSystem,
> {
    Seq::new(count, |i: int| system_at(rect, i, system_height, system_spacing))
}

/// The staff that a pitch goes on: the treble staff from middle C up, the
/// bass staff below it, wherever the note would sit.
pub open spec fn staff_for(system: StaffSystem, pitch: u8) -> Staff {
    if pitch >= MIDDLE_C {
        system.treble_staff
    } else {
        system.bass_staff
    }
}

/// The horizontal distance between neighbouring notes of a system: the
/// staff's width without the room at its ends, divided evenly and rounded
/// toward zero.
pub open spec fn note_spacing(staff_width: int, per_system: int) -> int {
    let usable = staff_width - 2 * NOTE_AREA_INSET;
    if usable >= 0 {
        usable / per_system
    } else {
        -((-usable) / per_system)
    }
}

/// Where the note in the given slot of a system goes across its staff.
pub open spec fn note_x(staff: Staff, slot: int, per_system: int) -> int {
    staff.position.x + NOTE_AREA_INSET + slot * note_spacing(staff.width as int, per_system)
}

/// Everything drawn for the note with the given index: note `index` goes
/// in slot `index % per_system` of system `index / per_system`. A note
/// whose system does not exist is not drawn.
pub open spec fn placed_note_shapes(
    systems: Seq<StaffSystem>,
    per_system: int,
    index: int,
    note: Note,
) -> Seq<Shape> {
    if index / per_system < systems.len() {
        let staff = staff_for(systems[index / per_system], note.pitch);
        note_shapes(
            note,
            note_x(staff, index % per_system, per_system) as i64,
            staff.note_y(note.pitch) as i64,
            staff.top() as i64,
            staff.bottom() as i64,
            staff.line_spacing,
        )
    } else {
        Seq::empty()
    }
}

/// Everything drawn for the first `count` notes, in order.
pub open spec fn all_note_shapes(
    systems: Seq<StaffSystem>,
    per_system: int,
    notes: Seq<Note>,
    count: nat,
) -> Seq<Shape>
    decreases count,
{
    if count == 0 {
        Seq::empty()
    } else {
        all_note_shapes(systems, per_system, notes, (count - 1) as nat) + placed_note_shapes(
            systems,
            per_system,
            count - 1,
            notes[count - 1],
        )
    }
}

/// Everything drawn for the first `count` systems: of each its treble
/// staff, then its bass staff.
pub open spec fn all_staff_shapes(systems: Seq<StaffSystem>, count: nat) -> Seq<Shape>
    decreases count,
{
    if count == 0 {
        Seq::empty()
    } else {
        all_staff_shapes(systems, (count - 1) as nat) + systems[count - 1].treble_staff.shapes()
            + systems[count - 1].bass_staff.shapes()
    }
}

impl NotationRenderer {
    pub closed spec fn systems(&self) -> Seq<StaffSystem> {
        self.staff_systems@
    }

    pub closed spec fn notes_per_system(&self) -> nat {
        self.notes_per_system as nat
    }

    pub closed spec fn system_height(&self) -> int {
        self.system_height as int
    }

    pub closed spec fn system_spacing(&self) -> int {
        self.system_spacing as int
    }

    /// The renderer's invariant: at least one note to the system, and
    /// sizes within the layout's limit.
    pub open spec fn wf(&self) -> bool {
        &&& 1 <= self.notes_per_system() <= LAYOUT_LIMIT
        &&& 0 <= self.system_height() <= LAYOUT_LIMIT
        &&& 0 <= self.system_spacing() <= LAYOUT_LIMIT
    }

    /// The systems that a viewport and a number of notes call for.
    pub open spec fn systems_for(&self, rect: Rect, notes: nat) -> Seq<StaffSystem> {
        systems_in(
            rect,
            num_systems(notes, self.notes_per_system()),
            self.system_height(),
            self.system_spacing(),
        )
    }

    /// Everything drawn for a note sequence in a viewport: all the staves,
    /// then all the notes over them.
    pub open spec fn layout_shapes(&self, rect: Rect, notes: Seq<Note>) -> Seq<Shape> {
        let systems = self.systems_for(rect, notes.len());
        all_staff_shapes(systems, systems.len()) + all_note_shapes(
            systems,
            self.notes_per_system() as int,
            notes,
            notes.len(),
        )
    }

    pub fn new() -> (renderer: NotationRenderer)
        ensures
            renderer.wf(),
            renderer.systems() == Seq::<StaffSystem>::empty(),
            renderer.notes_per_system() == NOTES_PER_SYSTEM,
            renderer.system_height() == SYSTEM_HEIGHT,
            renderer.system_spacing() == SYSTEM_SPACING,
    {
        NotationRenderer {
            staff_systems: Vec::new(),
            notes_per_system: NOTES_PER_SYSTEM,
            system_height: SYSTEM_HEIGHT,
            system_spacing: SYSTEM_SPACING,
        }
    }

    /// The systems of the last layout.
    pub fn get_staff_systems(&self) -> (systems: &[StaffSystem])
        ensures
            systems@ == self.systems(),
    {
        self.staff_systems.as_slice()
    }

    /// How many systems the given number of notes takes.
    pub fn count_systems(&self, notes: usize) -> (count: usize)
        requires
            self.wf(),
        ensures
            count == num_systems(notes as nat, self.notes_per_system()),
            1 <= count,
            count <= notes || count == 1,
    {
        if notes == 0 {
            return 1;
        }
        let full: usize = notes / self.notes_per_system;
        proof {
            vstd::arithmetic::div_mod::lemma_fundamental_div_mod(
                notes as int,
                self.notes_per_system as int,
            );
            assert(self.notes_per_system * full >= full) by (nonlinear_arith)
                requires
                    self.notes_per_system >= 1,
                    full >= 0,
            ;
        }
        if notes % self.notes_per_system == 0 {
            assert(full >= 1) by (nonlinear_arith)
                requires
                    notes == self.notes_per_system * full,
                    notes >= 1,
            ;
            full
        } else {
            full + 1
        }
    }

    /// The height that the notes of the engine take, for scrolling.
    pub fn calculate_content_height(&self, game_engine: &GameEngine) -> (height: i64)
        requires
            self.wf(),
            game_engine.wf(),
        ensures
            height == content_height(
                num_systems(game_engine@.notes.len(), self.notes_per_system()),
                self.system_height(),
                self.system_spacing(),
            ),
    {
        let notes = game_engine.get_current_notes();
        let count = self.count_systems(notes.len());
        let pitch: i64 = self.system_height + self.system_spacing;
        assert(0 <= count * pitch <= 0x1_0000_0000 * (2 * LAYOUT_LIMIT)) by (nonlinear_arith)
            requires
                0 <= count <= 0x1_0000_0000,
                0 <= pitch <= 2 * LAYOUT_LIMIT,
        ;
        (count as i64) * pitch + CONTENT_MARGIN
    }

    /// Lays the engine's notes out in the viewport and draws them: first
    /// every staff, then every note.
    pub fn render(&mut self, painter: &mut Painter, rect: Rect, game_engine: &GameEngine)
        requires
            old(self).wf(),
            game_engine.wf(),
            viewport_ok(rect),
        ensures
            final(self).wf(),
            final(self).notes_per_system() == old(self).notes_per_system(),
            final(self).system_height() == old(self).system_height(),
            final(self).system_spacing() == old(self).system_spacing(),
            final(self).systems() == old(self).systems_for(rect, game_engine@.notes.len()),
            final(painter)@ == old(painter)@ + old(self).layout_shapes(rect, game_engine@.notes),
    {
        let notes = game_engine.get_current_notes();
        let count = self.count_systems(notes.len());
        self.update_staff_systems(count, rect);
        let ghost systems = self.staff_systems@;
        let mut i: usize = 0;
        while i < self.staff_systems.len()
            invariant
                0 <= i <= self.staff_systems@.len(),
                self.staff_systems@ == systems,
                forall|k: int|
                    0 <= k < systems.len() ==> (#[trigger] systems[k]).treble_staff.wf()
                        && systems[k].bass_staff.wf(),
                painter@ == old(painter)@ + all_staff_shapes(systems, i as nat),
            decreases self.staff_systems@.len() - i,
        {
            let system: StaffSystem = self.staff_systems[i];
            assert(systems[i as int].treble_staff.wf());
            system.treble_staff.draw(painter);
            system.bass_staff.draw(painter);
            assert(painter@ =~= old(painter)@ + all_staff_shapes(systems, (i + 1) as nat));
            i = i + 1;
        }
        self.draw_notes_across_systems(painter, game_engine);
        assert(painter@ =~= old(painter)@ + old(self).layout_shapes(rect, game_engine@.notes));
    }

    fn update_staff_systems(&mut self, num_systems: usize, rect: Rect)
        requires
            old(self).wf(),
            viewport_ok(rect),
            num_systems <= u32::MAX,
        ensures
            final(self).wf(),
            final(self).notes_per_system() == old(self).notes_per_system(),
            final(self).system_height() == old(self).system_height(),
            final(self).system_spacing() == old(self).system_spacing(),
            final(self).systems() == systems_in(
                rect,
                num_systems as nat,
                old(self).system_height(),
                old(self).system_spacing(),
            ),
            forall|k: int|
                0 <= k < num_systems ==> (#[trigger] final(self).systems()[k]).treble_staff.wf()
                    && final(self).systems()[k].bass_staff.wf(),
    {
        self.staff_systems.clear();
        let staff_width: i64 = rect.width() - 2 * VIEW_MARGIN;
        let pitch: i64 = self.system_height + self.system_spacing;
        let mut i: usize = 0;
        while i < num_systems
            invariant
                0 <= i <= num_systems <= u32::MAX,
                self.wf(),
                viewport_ok(rect),
                self.notes_per_system == old(self).notes_per_system,
                self.system_height == old(self).system_height,
                self.system_spacing == old(self).system_spacing,
                pitch == self.system_height + self.system_spacing,
                staff_width == rect.spec_width() - 2 * VIEW_MARGIN,
                self.staff_systems@.len() == i,
                forall|k: int|
                    0 <= k < i ==> #[trigger] self.staff_systems@[k] == system_at(
                        rect,
                        k,
                        self.system_height as int,
                        self.system_spacing as int,
                    ),
                forall|k: int|
                    0 <= k < i ==> (#[trigger] self.staff_systems@[k]).treble_staff.wf()
                        && self.staff_systems@[k].bass_staff.wf(),
            decreases num_systems - i,
        {
            assert(0 <= i * pitch <= 0x1_0000_0000 * (2 * LAYOUT_LIMIT)) by (nonlinear_arith)
                requires
                    0 <= i <= 0x1_0000_0000,
                    0 <= pitch <= 2 * LAYOUT_LIMIT,
            ;
            let system_y: i64 = rect.min.y + VIEW_MARGIN + (i as i64) * pitch;
            let treble_y: i64 = system_y;
            let bass_y: i64 = system_y + BASS_OFFSET;
            let treble_staff = Staff::new(
                Clef::Treble,
                Pos2::new(rect.min.x + VIEW_MARGIN, treble_y),
                staff_width,
            );
            let bass_staff = Staff::new(
                Clef::Bass,
                Pos2::new(rect.min.x + VIEW_MARGIN, bass_y),
                staff_width,
            );
            self.staff_systems.push(StaffSystem { treble_staff, bass_staff, system_number: i });
            i = i + 1;
        }
        assert(self.staff_systems@ =~= systems_in(
            rect,
            num_systems as nat,
            self.system_height as int,
            self.system_spacing as int,
        ));
    }

    fn draw_notes_across_systems(&self, painter: &mut Painter, game_engine: &GameEngine)
        requires
            self.wf(),
            game_engine.wf(),
            forall|k: int|
                0 <= k < self.systems().len() ==> (#[trigger] self.systems()[k]).treble_staff.wf()
                    && self.systems()[k].bass_staff.wf(),
        ensures
            final(painter)@ == old(painter)@ + all_note_shapes(
                self.systems(),
                self.notes_per_system() as int,
                game_engine@.notes,
                game_engine@.notes.len(),
            ),
    {
        let current_notes = game_engine.get_current_notes();
        let per_system: i64 = self.notes_per_system as i64;
        let mut i: usize = 0;
        proof {
            assert(painter@ =~= old(painter)@ + all_note_shapes(
                self.systems(),
                per_system as int,
                current_notes@,
                0,
            ));
        }
        while i < current_notes.len()
            invariant
                0 <= i <= current_notes@.len(),
                self.wf(),
                per_system == self.notes_per_system,
                forall|k: int|
                    0 <= k < self.systems().len() ==> (
                    #[trigger] self.systems()[k]).treble_staff.wf()
                        && self.systems()[k].bass_staff.wf(),
                painter@ == old(painter)@ + all_note_shapes(
                    self.systems(),
                    per_system as int,
                    current_notes@,
                    i as nat,
                ),
            decreases current_notes@.len() - i,
        {
            let note: Note = current_notes[i];
            let system_index: usize = i / self.notes_per_system;
            let note_index_in_system: usize = i % self.notes_per_system;
            let ghost before = painter@;
            if system_index < self.staff_systems.len() {
                let system: StaffSystem = self.staff_systems[system_index];
                assert(self.systems()[system_index as int].treble_staff.wf());
                let staff: Staff = if note.pitch >= MIDDLE_C {
                    system.treble_staff
                } else {
                    system.bass_staff
                };
                let notes_width: i64 = staff.width - 2 * NOTE_AREA_INSET;
                let note_spacing: i64 = if notes_width >= 0 {
                    notes_width / per_system
                } else {
                    -((-notes_width) / per_system)
                };
                proof {
                    lemma_slot_offset_bounded(
                        notes_width as int,
                        per_system as int,
                        note_index_in_system as int,
                    );
                    lemma_note_y_in_range(staff, note.pitch);
                }
                let x: i64 = staff.position.x + NOTE_AREA_INSET + (note_index_in_system as i64)
                    * note_spacing;
                let y: i64 = staff.note_y_position(note.pitch);
                note.draw_with_staff_info(
                    painter,
                    x,
                    y,
                    staff.get_staff_top(),
                    staff.get_staff_bottom(),
                    staff.get_line_spacing(),
                );
            }
            assert(painter@ =~= before + placed_note_shapes(
                self.systems(),
                per_system as int,
                i as int,
                note,
            ));
            assert(painter@ =~= old(painter)@ + all_note_shapes(
                self.systems(),
                per_system as int,
                current_notes@,
                (i + 1) as nat,
            ));
            i = i + 1;
        }
    }
}

/// The systems hold all the notes: there is at least one system, every
/// note's system exists, and unless the one system is empty the last
/// system holds a note.
pub proof fn lemma_systems_hold_all_notes(notes: nat, per_system: nat)
    requires
        per_system >= 1,
    ensures
        num_systems(notes, per_system) >= 1,
        forall|i: int| 0 <= i < notes ==> #[trigger] (i / per_system as int) < num_systems(notes, per_system),
        notes > 0 ==> (notes - 1) / per_system as int == num_systems(notes, per_system) - 1,
{
    let per = per_system as int;
    let count = num_systems(notes, per_system) as int;
    if notes > 0 {
        vstd::arithmetic::div_mod::lemma_fundamental_div_mod(notes as int, per);
        let last = if notes % per_system == 0 {
            per - 1
        } else {
            (notes % per_system) as int - 1
        };
        assert(notes - 1 == (count - 1) * per + last) by (nonlinear_arith)
            requires
                notes == per * (notes as int / per) + (notes as int % per),
                count == if notes as int % per == 0 {
                    notes as int / per
                } else {
                    notes as int / per + 1
                },
                last == if notes as int % per == 0 {
                    per - 1
                } else {
                    notes as int % per - 1
                },
        ;
        vstd::arithmetic::div_mod::lemma_fundamental_div_mod_converse(
            notes - 1,
            per,
            count - 1,
            last,
        );
        assert forall|i: int| 0 <= i < notes implies #[trigger] (i / per) < count by {
            vstd::arithmetic::div_mod::lemma_div_is_ordered(i, notes - 1, per);
        }
    }
}

/// A slot's offset across the staff is no larger than the usable width.
proof fn lemma_slot_offset_bounded(usable: int, per_system: int, slot: int)
    requires
        per_system >= 1,
        0 <= slot < per_system,
    ensures
        usable >= 0 ==> 0 <= slot * (usable / per_system) <= usable,
        usable < 0 ==> usable <= slot * (-((-usable) / per_system)) <= 0,
{
    let size = if usable >= 0 {
        usable
    } else {
        -usable
    };
    let step = size / per_system;
    vstd::arithmetic::div_mod::lemma_fundamental_div_mod(size, per_system);
    assert(0 <= step) by (nonlinear_arith)
        requires
            size >= 0,
            per_system >= 1,
            step == size / per_system,
    ;
    assert(0 <= slot * step <= per_system * step) by (nonlinear_arith)
        requires
            0 <= slot < per_system,
            0 <= step,
    ;
    assert(slot * (-step) == -(slot * step)) by (nonlinear_arith);
}

} // verus!
