use gesture_ease::fusion::{
    active_people, any_active, check_counts, collect_intents, nearest_in_sight, Gesture,
    SightCandidate,
};
use gesture_ease::order::position_order;
use gesture_ease::GError;

fn cand(ahead: bool, distance_key: u64) -> SightCandidate {
    SightCandidate { ahead, distance_key }
}

#[test]
fn nearest_ahead_at_five_beats_ten_and_behind() {
    let c = [cand(false, 1), cand(true, 10), cand(true, 5)];
    assert_eq!(nearest_in_sight(&c), Some(2));
    let c = [cand(true, 5), cand(false, 0), cand(true, 10)];
    assert_eq!(nearest_in_sight(&c), Some(0));
}

#[test]
fn behind_device_never_selected() {
    assert_eq!(nearest_in_sight(&[cand(false, 0), cand(false, 3)]), None);
    assert_eq!(nearest_in_sight(&[]), None);
}

#[test]
fn nearest_tie_takes_first() {
    let c = [cand(true, 7), cand(true, 4), cand(true, 4)];
    assert_eq!(nearest_in_sight(&c), Some(1));
}

#[test]
fn only_idle_gestures_give_no_intents() {
    let g = [Gesture::Idle, Gesture::Idle, Gesture::Idle];
    assert!(!any_active(&g));
    assert!(active_people(&g).is_empty());
    assert!(collect_intents(&[Some(0), Some(1), Some(2)], &g).is_empty());
    assert!(!any_active(&[]));
}

#[test]
fn active_people_lists_toggles() {
    let g = [Gesture::Idle, Gesture::Toggle, Gesture::Idle, Gesture::Toggle];
    assert!(any_active(&g));
    assert_eq!(active_people(&g), vec![1, 3]);
}

#[test]
fn intents_pair_by_position() {
    let g = [Gesture::Toggle, Gesture::Idle, Gesture::Toggle, Gesture::Toggle];
    let t = [Some(4), Some(5), None, Some(0)];
    assert_eq!(collect_intents(&t, &g), vec![(4, Gesture::Toggle), (0, Gesture::Toggle)]);
    assert_eq!(collect_intents(&t[..1], &g), vec![(4, Gesture::Toggle)]);
}

#[test]
fn counts_must_match() {
    assert_eq!(check_counts(2, 2), Ok(()));
    assert_eq!(check_counts(2, 3), Err(GError::CountMismatch));
}

#[test]
fn gesture_defaults_to_idle() {
    assert_eq!(Gesture::default(), Gesture::Idle);
    assert!(Gesture::Toggle.is_toggle());
    assert!(Gesture::Idle.is_idle());
}

#[test]
fn position_order_vertical_then_horizontal() {
    let keys = [(5, 1), (2, 9), (5, 0), (2, 9), (1, 100)];
    assert_eq!(position_order(&keys), vec![4, 1, 3, 2, 0]);
    assert!(position_order(&[]).is_empty());
}

#[test]
fn error_messages() {
    assert_eq!(GError::CommError.message(), "Error in channel");
    assert_eq!(GError::MathError.message(), "Error in math operation");
    assert_eq!(GError::ModelUninit.message(), "Model used before initializing");
}
