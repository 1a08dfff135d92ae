use work_tuimer::models::day_data::DayData;
use work_tuimer::ui::history::{History, MAX_HISTORY_DEPTH};

fn state(marker: u32) -> DayData {
    let mut day = DayData::new();
    day.last_id = marker;
    day
}

#[test]
fn new_history_has_nothing_to_undo_or_redo() {
    let mut history = History::new();
    assert!(!history.can_undo());
    assert!(!history.can_redo());
    assert!(history.undo(state(1)).is_none());
    assert!(history.redo(state(1)).is_none());
    assert!(!history.can_undo());
    assert!(!history.can_redo());
}

#[test]
fn undo_hands_back_the_last_pushed_state() {
    let mut history = History::new();
    history.push(state(1));
    history.push(state(2));
    assert_eq!(history.undo(state(3)).unwrap().last_id, 2);
    assert_eq!(history.undo(state(2)).unwrap().last_id, 1);
    assert!(history.undo(state(1)).is_none());
}

#[test]
fn undo_stack_keeps_the_fifty_most_recent() {
    assert_eq!(MAX_HISTORY_DEPTH, 50);
    let mut history = History::new();
    for marker in 1..=60 {
        history.push(state(marker));
    }
    let mut current = 61;
    for expected in (11..=60).rev() {
        let previous = history.undo(state(current)).unwrap();
        assert_eq!(previous.last_id, expected);
        current = previous.last_id;
    }
    assert!(!history.can_undo());
    assert!(history.undo(state(current)).is_none());
}

#[test]
fn exactly_fifty_pushes_are_all_kept() {
    let mut history = History::new();
    for marker in 1..=50 {
        history.push(state(marker));
    }
    let mut count = 0;
    while history.can_undo() {
        let expected = 50 - count;
        assert_eq!(history.undo(state(0)).unwrap().last_id, expected);
        count += 1;
    }
    assert_eq!(count, 50);
}

#[test]
fn fifty_one_pushes_drop_the_oldest() {
    let mut history = History::new();
    for marker in 1..=51 {
        history.push(state(marker));
    }
    let mut last = 0;
    let mut count = 0;
    while let Some(previous) = history.undo(state(0)) {
        last = previous.last_id;
        count += 1;
    }
    assert_eq!(count, 50);
    assert_eq!(last, 2);
}

#[test]
fn undo_then_redo_is_a_round_trip() {
    let mut history = History::new();
    history.push(state(1));
    history.push(state(2));
    let previous = history.undo(state(3)).unwrap();
    assert_eq!(previous.last_id, 2);
    assert!(history.can_redo());
    let next = history.redo(previous).unwrap();
    assert_eq!(next.last_id, 3);
    assert!(!history.can_redo());
    assert_eq!(history.undo(next).unwrap().last_id, 2);
}

#[test]
fn redo_walks_forward_through_several_undos() {
    let mut history = History::new();
    history.push(state(1));
    history.push(state(2));
    history.push(state(3));
    let s3 = history.undo(state(4)).unwrap();
    let s2 = history.undo(s3).unwrap();
    let s1 = history.undo(s2).unwrap();
    assert_eq!(s1.last_id, 1);
    let r2 = history.redo(s1).unwrap();
    assert_eq!(r2.last_id, 2);
    let r3 = history.redo(r2).unwrap();
    assert_eq!(r3.last_id, 3);
    let r4 = history.redo(r3).unwrap();
    assert_eq!(r4.last_id, 4);
    assert!(history.redo(r4).is_none());
}

#[test]
fn push_clears_the_redo_stack() {
    let mut history = History::new();
    history.push(state(1));
    let previous = history.undo(state(2)).unwrap();
    assert!(history.can_redo());
    history.push(previous);
    assert!(!history.can_redo());
    assert!(history.redo(state(9)).is_none());
    assert_eq!(history.undo(state(9)).unwrap().last_id, 1);
    assert!(!history.can_undo());
}
