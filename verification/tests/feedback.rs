use piano_sight_reading::game::feedback::FeedbackSystem;
use piano_sight_reading::notation::painter::Color;

const GREEN: Color = Color { r: 0, g: 150, b: 0 };

const RED: Color = Color { r: 200, g: 0, b: 0 };

#[test]
fn feedback_is_listed_in_order_of_arrival() {
    let mut feedback = FeedbackSystem::new();
    assert_eq!(feedback.render(), vec![]);
    feedback.add_correct_note_feedback_at(100);
    feedback.add_incorrect_note_feedback_at(200);
    feedback.add_correct_note_feedback_at(300);
    assert_eq!(
        feedback.render(),
        vec![
            (GREEN, "Correct!".to_string()),
            (RED, "Try again".to_string()),
            (GREEN, "Correct!".to_string())
        ]
    );
}

#[test]
fn feedback_lives_for_one_second() {
    let mut feedback = FeedbackSystem::new();
    feedback.add_correct_note_feedback_at(5000);
    feedback.update_at(5000);
    assert_eq!(feedback.render().len(), 1);
    feedback.update_at(5999);
    assert_eq!(feedback.render().len(), 1);
    feedback.update_at(6000);
    assert_eq!(feedback.render().len(), 1);
    feedback.update_at(6001);
    assert_eq!(feedback.render().len(), 0);
}

#[test]
fn a_sweep_keeps_the_live_ones_in_order() {
    let mut feedback = FeedbackSystem::new();
    feedback.add_incorrect_note_feedback_at(0);
    feedback.add_correct_note_feedback_at(600);
    feedback.add_incorrect_note_feedback_at(100);
    feedback.add_incorrect_note_feedback_at(900);
    feedback.add_correct_note_feedback_at(50);
    feedback.update_at(1050);
    assert_eq!(
        feedback.render(),
        vec![
            (GREEN, "Correct!".to_string()),
            (RED, "Try again".to_string()),
            (RED, "Try again".to_string()),
            (GREEN, "Correct!".to_string())
        ]
    );
    feedback.update_at(1101);
    assert_eq!(
        feedback.render(),
        vec![(GREEN, "Correct!".to_string()), (RED, "Try again".to_string())]
    );
    feedback.update_at(1600);
    assert_eq!(feedback.render().len(), 2);
    feedback.update_at(1601);
    assert_eq!(feedback.render(), vec![(RED, "Try again".to_string())]);
    feedback.update_at(1900);
    assert_eq!(feedback.render(), vec![(RED, "Try again".to_string())]);
    feedback.update_at(1901);
    assert_eq!(feedback.render(), vec![]);
}

#[test]
fn a_clock_that_went_back_ages_nothing() {
    let mut feedback = FeedbackSystem::new();
    feedback.add_correct_note_feedback_at(10_000);
    feedback.update_at(3);
    assert_eq!(feedback.render().len(), 1);
}

#[test]
fn feedback_made_now_is_live_now() {
    let mut feedback = FeedbackSystem::new();
    feedback.add_correct_note_feedback();
    feedback.add_incorrect_note_feedback();
    feedback.update();
    assert_eq!(
        feedback.render(),
        vec![(GREEN, "Correct!".to_string()), (RED, "Try again".to_string())]
    );
    feedback.update_at(u64::MAX);
    assert_eq!(feedback.render(), vec![]);
}

#[test]
fn the_duration_can_be_set() {
    let mut feedback = FeedbackSystem::with_duration(250);
    feedback.add_incorrect_note_feedback_at(1000);
    feedback.update_at(1250);
    assert_eq!(feedback.render().len(), 1);
    feedback.update_at(1251);
    assert_eq!(feedback.render().len(), 0);
    let mut brief = FeedbackSystem::with_duration(0);
    brief.add_correct_note_feedback_at(7);
    brief.update_at(7);
    assert_eq!(brief.render().len(), 1);
    brief.update_at(8);
    assert_eq!(brief.render().len(), 0);
}

#[test]
fn a_second_sweep_at_the_same_time_changes_nothing() {
    let mut feedback = FeedbackSystem::new();
    feedback.add_correct_note_feedback_at(0);
    feedback.add_incorrect_note_feedback_at(500);
    feedback.add_correct_note_feedback_at(1000);
    feedback.update_at(1200);
    let once = feedback.render();
    feedback.update_at(1200);
    assert_eq!(feedback.render(), once);
    assert_eq!(once, vec![(RED, "Try again".to_string()), (GREEN, "Correct!".to_string())]);
}
