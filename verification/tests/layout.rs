use piano_sight_reading::fraction::Fraction;
use piano_sight_reading::game::engine::GameEngine;
use piano_sight_reading::notation::notes::{Note, NoteType};
use piano_sight_reading::notation::painter::{Color, Painter, Pos2, Rect, Shape, Stroke, PX};
use piano_sight_reading::notation::renderer::NotationRenderer;
use piano_sight_reading::notation::staff::{Clef, Staff};

const SPACING: i64 = 12 * PX;

const BLACK: Color = Color { r: 0, g: 0, b: 0 };

fn engine_with(pitches: &[u8]) -> GameEngine {
    GameEngine::with_notes(
        pitches
            .iter()
            .enumerate()
            .map(|(i, p)| Note::new(*p, NoteType::Whole, Fraction { numerator: i as u32, denominator: 1 }))
            .collect(),
    )
}

fn viewport() -> Rect {
    Rect { min: Pos2 { x: 10 * PX, y: 30 * PX }, max: Pos2 { x: 1210 * PX, y: 830 * PX } }
}

fn heads(shapes: &[Shape]) -> Vec<Pos2> {
    shapes
        .iter()
        .filter_map(|shape| match shape {
            Shape::CircleStroke { center, .. } => Some(*center),
            _ => None,
        })
        .collect()
}

#[test]
fn twenty_four_notes_take_three_systems() {
    let renderer = NotationRenderer::new();
    assert_eq!(renderer.count_systems(24), 3);
}

#[test]
fn one_note_takes_one_system() {
    let renderer = NotationRenderer::new();
    assert_eq!(renderer.count_systems(1), 1);
}

#[test]
fn systems_by_number_of_notes() {
    let renderer = NotationRenderer::new();
    assert_eq!(renderer.count_systems(0), 1);
    assert_eq!(renderer.count_systems(7), 1);
    assert_eq!(renderer.count_systems(8), 1);
    assert_eq!(renderer.count_systems(9), 2);
    assert_eq!(renderer.count_systems(16), 2);
    assert_eq!(renderer.count_systems(17), 3);
    assert_eq!(renderer.count_systems(25), 4);
    for notes in 1..200usize {
        let count = renderer.count_systems(notes);
        assert!(count * 8 >= notes);
        assert!((count - 1) * 8 < notes);
        assert_eq!(count, (notes - 1) / 8 + 1);
    }
}

#[test]
fn content_height_is_systems_times_pitch_plus_margin() {
    let renderer = NotationRenderer::new();
    assert_eq!(renderer.calculate_content_height(&GameEngine::new()), (3 * 160 + 40) * PX);
    assert_eq!(renderer.calculate_content_height(&engine_with(&[60])), 200 * PX);
    assert_eq!(renderer.calculate_content_height(&engine_with(&[])), 200 * PX);
    assert_eq!(renderer.calculate_content_height(&engine_with(&[60; 9])), 360 * PX);
}

#[test]
fn systems_are_stacked_from_the_top_margin_down() {
    let mut renderer = NotationRenderer::new();
    assert_eq!(renderer.get_staff_systems().len(), 0);
    let mut painter = Painter::new();
    renderer.render(&mut painter, viewport(), &GameEngine::new());
    let systems = renderer.get_staff_systems();
    assert_eq!(systems.len(), 3);
    for (i, system) in systems.iter().enumerate() {
        let y = 30 * PX + 20 * PX + i as i64 * 160 * PX;
        assert_eq!(system.system_number, i);
        assert_eq!(
            system.treble_staff,
            Staff { clef: Clef::Treble, position: Pos2 { x: 30 * PX, y }, width: 1160 * PX, line_spacing: SPACING }
        );
        assert_eq!(
            system.bass_staff,
            Staff {
                clef: Clef::Bass,
                position: Pos2 { x: 30 * PX, y: y + 80 * PX },
                width: 1160 * PX,
                line_spacing: SPACING
            }
        );
    }
    renderer.render(&mut painter, viewport(), &engine_with(&[60]));
    assert_eq!(renderer.get_staff_systems().len(), 1);
}

#[test]
fn staves_are_drawn_before_notes() {
    let mut renderer = NotationRenderer::new();
    let mut painter = Painter::new();
    renderer.render(&mut painter, viewport(), &engine_with(&[64, 52]));
    let systems = renderer.get_staff_systems();
    let mut expected = Painter::new();
    systems[0].treble_staff.draw(&mut expected);
    systems[0].bass_staff.draw(&mut expected);
    assert_eq!(expected.shapes.len(), 14);
    assert_eq!(painter.shapes[..14], expected.shapes[..]);
    assert_eq!(painter.shapes.len(), 16);
    assert_eq!(heads(&painter.shapes), heads(&painter.shapes[14..]));
}

#[test]
fn notes_are_spread_evenly_across_their_system() {
    let mut renderer = NotationRenderer::new();
    let mut painter = Painter::new();
    renderer.render(&mut painter, viewport(), &engine_with(&[64; 17]));
    let step = (1160 - 160) * PX / 8;
    let heads = heads(&painter.shapes);
    assert_eq!(heads.len(), 17);
    for (i, head) in heads.iter().enumerate() {
        let system = (i / 8) as i64;
        let slot = (i % 8) as i64;
        assert_eq!(head.x, 30 * PX + 80 * PX + slot * step);
        let treble_top = 50 * PX + system * 160 * PX;
        assert_eq!(head.y, treble_top + 4 * SPACING + SPACING / 2 - 4 * (SPACING / 2));
    }
}

#[test]
fn the_staff_is_chosen_by_pitch_alone() {
    let mut renderer = NotationRenderer::new();
    let mut painter = Painter::new();
    renderer.render(&mut painter, viewport(), &engine_with(&[60, 59, 100, 20]));
    let treble_top = 50 * PX;
    let bass_top = 130 * PX;
    let heads = heads(&painter.shapes);
    assert_eq!(heads[0].y, treble_top + 4 * SPACING + SPACING / 2);
    assert_eq!(heads[1].y, bass_top);
    assert_eq!(heads[2].y, treble_top + 4 * SPACING + SPACING / 2 - 40 * (SPACING / 2));
    assert_eq!(heads[3].y, bass_top - SPACING / 2 + 40 * (SPACING / 2));
}

#[test]
fn notes_come_with_their_ledger_lines() {
    let mut renderer = NotationRenderer::new();
    let mut painter = Painter::new();
    renderer.render(&mut painter, viewport(), &engine_with(&[60]));
    let x = 110 * PX;
    let bottom = 50 * PX + 4 * SPACING;
    assert_eq!(
        painter.shapes[14..],
        [
            Shape::LineSegment {
                from: Pos2 { x: x - 9 * PX, y: bottom + SPACING },
                to: Pos2 { x: x + 9 * PX, y: bottom + SPACING },
                stroke: Stroke { width: PX, color: BLACK },
            },
            Shape::CircleStroke {
                center: Pos2 { x, y: bottom + SPACING / 2 },
                radius: 6 * PX,
                stroke: Stroke { width: 2 * PX, color: BLACK },
            },
        ]
    );
}

#[test]
fn the_practice_sequence_lays_out_over_three_systems() {
    let mut renderer = NotationRenderer::new();
    let mut painter = Painter::new();
    painter.circle_filled(Pos2 { x: 0, y: 0 }, 1, BLACK);
    renderer.render(&mut painter, viewport(), &GameEngine::new());
    assert_eq!(painter.shapes[0], Shape::CircleFilled { center: Pos2 { x: 0, y: 0 }, radius: 1, fill: BLACK });
    let filled: Vec<&Shape> = painter.shapes[43..]
        .iter()
        .filter(|shape| matches!(shape, Shape::CircleFilled { .. }))
        .collect();
    assert_eq!(filled.len(), 24);
    let texts = painter.shapes.iter().filter(|shape| matches!(shape, Shape::Text { .. })).count();
    assert_eq!(texts, 6);
}

#[test]
fn a_narrow_viewport_lays_notes_out_leftwards() {
    let mut renderer = NotationRenderer::new();
    let mut painter = Painter::new();
    let rect = Rect { min: Pos2 { x: 0, y: 0 }, max: Pos2 { x: 100 * PX, y: 100 * PX } };
    renderer.render(&mut painter, rect, &engine_with(&[64, 64, 64]));
    let xs: Vec<i64> = heads(&painter.shapes).iter().map(|head| head.x).collect();
    assert_eq!(xs, vec![100 * PX, 100 * PX - 800, 100 * PX - 1600]);
}
