use work_tuimer::models::day_data::DayData;
use work_tuimer::models::time_point::TimePoint;
use work_tuimer::models::work_record::WorkRecord;
use work_tuimer::ui::app_state::{AppMode, AppState, CommandAction, EditField};

fn at(hour: u8, minute: u8) -> TimePoint {
    TimePoint::new(hour, minute).unwrap()
}

fn day_of(records: &[(&str, (u8, u8), (u8, u8))]) -> DayData {
    let mut day = DayData::new();
    for (name, start, end) in records {
        let id = day.next_id();
        day.add_record(WorkRecord::new(
            id,
            name.to_string(),
            at(start.0, start.1),
            at(end.0, end.1),
        ));
    }
    day
}

fn one_task() -> AppState {
    AppState::new(day_of(&[("Task", (9, 0), (17, 0))]))
}

fn five_tasks() -> AppState {
    AppState::new(day_of(&[
        ("A", (8, 0), (9, 0)),
        ("B", (9, 0), (10, 0)),
        ("C", (10, 0), (11, 0)),
        ("D", (11, 0), (12, 0)),
        ("E", (12, 0), (13, 0)),
    ]))
}

fn ids(state: &AppState) -> Vec<u32> {
    state.day_data.get_sorted_records().iter().map(|r| r.id).collect()
}

fn names(state: &AppState) -> Vec<String> {
    state.day_data.get_sorted_records().iter().map(|r| r.name.clone()).collect()
}

fn type_text(state: &mut AppState, text: &str) {
    for c in text.chars() {
        state.handle_char_input(c);
    }
}

#[test]
fn new_state_browses_the_first_record() {
    let state = one_task();
    assert_eq!(state.mode, AppMode::Browse);
    assert_eq!(state.selected_index, 0);
    assert_eq!(state.edit_field, EditField::Name);
    assert_eq!(state.input_buffer, "");
    assert_eq!(state.time_cursor, 0);
    assert!(!state.should_quit);
    assert_eq!(state.visual_start, 0);
    assert_eq!(state.visual_end, 0);
    assert_eq!(state.command_palette_input, "");
    assert_eq!(state.command_palette_selected, 0);
    assert_eq!(state.available_commands.len(), 15);
    assert!(!state.can_undo());
    assert!(!state.can_redo());
    assert_eq!(state.get_selected_record().unwrap().name, "Task");
}

#[test]
fn registry_lists_the_commands_in_order() {
    let state = one_task();
    let expected = [
        ("↑/k", "Move selection up", CommandAction::MoveUp),
        ("↓/j", "Move selection down", CommandAction::MoveDown),
        ("←/h", "Move field left", CommandAction::MoveLeft),
        ("→/l", "Move field right", CommandAction::MoveRight),
        ("Enter/i", "Enter edit mode", CommandAction::Edit),
        ("c", "Change task name", CommandAction::Change),
        ("n", "Add new task", CommandAction::New),
        ("b", "Add break", CommandAction::Break),
        ("d", "Delete selected record", CommandAction::Delete),
        ("v", "Enter visual mode", CommandAction::Visual),
        ("t", "Set current time on field", CommandAction::SetNow),
        ("u", "Undo last change", CommandAction::Undo),
        ("r", "Redo last change", CommandAction::Redo),
        ("s", "Save to file", CommandAction::Save),
        ("q", "Quit application", CommandAction::Quit),
    ];
    assert_eq!(state.available_commands.len(), expected.len());
    for (command, (key, description, action)) in state.available_commands.iter().zip(expected) {
        assert_eq!(command.key, key);
        assert_eq!(command.description, description);
        assert_eq!(command.action, action);
    }
}

#[test]
fn selection_of_an_empty_store_is_nothing() {
    let mut state = AppState::new(DayData::new());
    assert!(state.get_selected_record().is_none());
    state.move_selection_down();
    assert_eq!(state.selected_index, 0);
    state.move_selection_up();
    assert_eq!(state.selected_index, 0);
    state.enter_edit_mode();
    assert_eq!(state.mode, AppMode::Browse);
    state.change_task_name();
    assert_eq!(state.mode, AppMode::Browse);
    state.next_field();
    assert_eq!(state.edit_field, EditField::Name);
}

#[test]
fn selection_moves_within_the_list() {
    let mut state = five_tasks();
    state.move_selection_up();
    assert_eq!(state.selected_index, 0);
    for expected in 1..=4 {
        state.move_selection_down();
        assert_eq!(state.selected_index, expected);
    }
    state.move_selection_down();
    assert_eq!(state.selected_index, 4);
    state.move_selection_up();
    assert_eq!(state.selected_index, 3);
    assert_eq!(state.get_selected_record().unwrap().name, "D");
    assert_eq!(state.visual_end, 0);
}

#[test]
fn fields_cycle_both_ways() {
    let mut state = one_task();
    let right = [EditField::Start, EditField::End, EditField::Description, EditField::Name];
    for expected in right {
        state.move_field_right();
        assert_eq!(state.edit_field, expected);
    }
    let left = [EditField::Description, EditField::End, EditField::Start, EditField::Name];
    for expected in left {
        state.move_field_left();
        assert_eq!(state.edit_field, expected);
    }
    assert_eq!(state.input_buffer, "");
}

#[test]
fn enter_edit_mode_seeds_the_buffer_from_the_field() {
    let mut state = one_task();
    state.day_data.set_description(1, "Notes".to_string());
    state.time_cursor = 3;
    state.enter_edit_mode();
    assert_eq!(state.mode, AppMode::Edit);
    assert_eq!(state.input_buffer, "Task");
    assert_eq!(state.time_cursor, 0);
    state.exit_edit_mode();
    state.move_field_right();
    state.enter_edit_mode();
    assert_eq!(state.input_buffer, "09:00");
    state.exit_edit_mode();
    state.move_field_right();
    state.move_field_right();
    state.enter_edit_mode();
    assert_eq!(state.input_buffer, "17:00");
    state.exit_edit_mode();
    state.move_field_left();
    state.enter_edit_mode();
    assert_eq!(state.input_buffer, "Notes");
    assert_eq!(state.edit_field, EditField::Description);
}

#[test]
fn change_task_name_starts_with_an_empty_buffer() {
    let mut state = one_task();
    state.input_buffer = "left over".to_string();
    state.time_cursor = 2;
    state.change_task_name();
    assert_eq!(state.mode, AppMode::Edit);
    assert_eq!(state.input_buffer, "");
    assert_eq!(state.time_cursor, 0);
}

#[test]
fn change_task_name_needs_the_name_field() {
    let mut state = one_task();
    state.move_field_right();
    state.change_task_name();
    assert_eq!(state.mode, AppMode::Browse);
    assert_eq!(state.edit_field, EditField::Start);
}

#[test]
fn exit_edit_mode_resets_field_buffer_and_cursor() {
    let mut state = one_task();
    state.move_field_right();
    state.enter_edit_mode();
    state.handle_char_input('1');
    state.exit_edit_mode();
    assert_eq!(state.mode, AppMode::Browse);
    assert_eq!(state.input_buffer, "");
    assert_eq!(state.edit_field, EditField::Name);
    assert_eq!(state.time_cursor, 0);
    assert_eq!(state.get_selected_record().unwrap().start, at(9, 0));
}

#[test]
fn next_field_cycles_and_reseeds_the_buffer() {
    let mut state = one_task();
    state.day_data.set_description(1, "Notes".to_string());
    state.enter_edit_mode();
    state.time_cursor = 2;
    state.next_field();
    assert_eq!(state.edit_field, EditField::Start);
    assert_eq!(state.input_buffer, "09:00");
    assert_eq!(state.time_cursor, 0);
    state.next_field();
    assert_eq!(state.edit_field, EditField::End);
    assert_eq!(state.input_buffer, "17:00");
    state.next_field();
    assert_eq!(state.edit_field, EditField::Description);
    assert_eq!(state.input_buffer, "Notes");
    state.next_field();
    assert_eq!(state.edit_field, EditField::Name);
    assert_eq!(state.input_buffer, "Task");
    assert_eq!(state.mode, AppMode::Edit);
}

#[test]
fn text_fields_append_and_pop() {
    let mut state = one_task();
    state.change_task_name();
    type_text(&mut state, "Wörk");
    assert_eq!(state.input_buffer, "Wörk");
    state.handle_backspace();
    assert_eq!(state.input_buffer, "Wör");
    state.handle_backspace();
    state.handle_backspace();
    state.handle_backspace();
    assert_eq!(state.input_buffer, "");
    state.handle_backspace();
    assert_eq!(state.input_buffer, "");
    assert_eq!(state.time_cursor, 0);
    type_text(&mut state, "12");
    assert_eq!(state.input_buffer, "12");
    assert_eq!(state.mode, AppMode::Edit);
}

#[test]
fn four_digits_commit_a_start_time() {
    let mut state = one_task();
    state.move_field_right();
    state.enter_edit_mode();
    assert_eq!(state.input_buffer, "09:00");
    state.handle_char_input('1');
    assert_eq!((state.input_buffer.as_str(), state.time_cursor), ("19:00", 1));
    state.handle_char_input('0');
    assert_eq!((state.input_buffer.as_str(), state.time_cursor), ("10:00", 2));
    state.handle_char_input('3');
    assert_eq!((state.input_buffer.as_str(), state.time_cursor), ("10:30", 3));
    assert_eq!(state.mode, AppMode::Edit);
    assert_eq!(state.get_selected_record().unwrap().start, at(9, 0));
    state.handle_char_input('0');
    assert_eq!(state.mode, AppMode::Browse);
    assert_eq!(state.input_buffer, "");
    assert_eq!(state.edit_field, EditField::Name);
    assert_eq!(state.time_cursor, 0);
    let record = state.get_selected_record().unwrap();
    assert_eq!(record.start, at(10, 30));
    assert_eq!(record.start.to_string(), "10:30");
    assert_eq!(record.end, at(17, 0));
    assert_eq!(record.total_minutes, 390);
    assert!(state.can_undo());
    state.undo();
    let record = state.get_selected_record().unwrap();
    assert_eq!(record.start, at(9, 0));
    assert_eq!(record.total_minutes, 480);
    assert!(!state.can_undo());
    assert!(state.can_redo());
    state.redo();
    assert_eq!(state.get_selected_record().unwrap().start, at(10, 30));
}

#[test]
fn digits_before_the_fourth_take_no_snapshot() {
    let mut state = one_task();
    state.move_field_right();
    state.enter_edit_mode();
    for c in ['1', '0', '3'] {
        state.handle_char_input(c);
        assert!(!state.can_undo());
    }
    state.handle_char_input('x');
    assert!(!state.can_undo());
    state.handle_char_input('0');
    assert!(state.can_undo());
}

#[test]
fn committed_time_clears_what_could_be_redone() {
    let mut state = one_task();
    state.add_new_record();
    state.undo();
    assert!(state.can_redo());
    state.edit_field = EditField::End;
    state.enter_edit_mode();
    type_text(&mut state, "1600");
    assert_eq!(state.mode, AppMode::Browse);
    assert!(!state.can_redo());
    assert_eq!(state.get_selected_record().unwrap().end, at(16, 0));
    state.undo();
    assert_eq!(state.get_selected_record().unwrap().end, at(17, 0));
    assert_eq!(state.day_data.len(), 1);
}

#[test]
fn fourth_digit_with_nothing_selected_leaves_edit_mode() {
    let mut state = AppState::new(DayData::new());
    state.mode = AppMode::Edit;
    state.edit_field = EditField::Start;
    state.input_buffer = "09:00".to_string();
    type_text(&mut state, "9999");
    assert_eq!(state.mode, AppMode::Browse);
    assert_eq!(state.input_buffer, "");
    assert_eq!(state.day_data.len(), 0);
    assert!(state.can_undo());
}

#[test]
fn four_digits_commit_an_end_time() {
    let mut state = one_task();
    state.move_field_right();
    state.move_field_right();
    state.enter_edit_mode();
    type_text(&mut state, "1845");
    assert_eq!(state.mode, AppMode::Browse);
    let record = state.get_selected_record().unwrap();
    assert_eq!(record.end, at(18, 45));
    assert_eq!(record.total_minutes, 585);
    state.undo();
    assert_eq!(state.get_selected_record().unwrap().end, at(17, 0));
}

#[test]
fn four_digits_that_are_no_time_stay_in_the_buffer() {
    let mut state = one_task();
    state.move_field_right();
    state.enter_edit_mode();
    type_text(&mut state, "2575");
    assert_eq!(state.mode, AppMode::Edit);
    assert_eq!(state.input_buffer, "25:75");
    assert_eq!(state.time_cursor, 4);
    assert_eq!(state.edit_field, EditField::Start);
    assert_eq!(state.get_selected_record().unwrap().start, at(9, 0));
    assert!(!state.can_undo());
    state.handle_char_input('1');
    assert_eq!(state.input_buffer, "25:75");
    assert_eq!(state.time_cursor, 4);
    state.handle_backspace();
    state.handle_backspace();
    state.handle_backspace();
    state.handle_backspace();
    assert_eq!(state.time_cursor, 0);
    assert_eq!(state.input_buffer, "25:75");
    type_text(&mut state, "1");
    assert_eq!(state.input_buffer, "15:75");
    assert_eq!(state.save_edit(), Err("Invalid start time format (use HH:MM)".to_string()));
}

#[test]
fn non_digit_in_a_time_field_is_ignored() {
    let mut state = one_task();
    state.move_field_right();
    state.enter_edit_mode();
    state.handle_char_input('1');
    for c in ['x', ':', ' ', '-', '٣', 'é'] {
        state.handle_char_input(c);
        assert_eq!(state.input_buffer, "19:00");
        assert_eq!(state.time_cursor, 1);
        assert_eq!(state.mode, AppMode::Edit);
    }
}

#[test]
fn digit_needs_a_five_character_buffer() {
    let mut state = one_task();
    state.move_field_right();
    state.enter_edit_mode();
    state.input_buffer = "9:00".to_string();
    state.handle_char_input('1');
    assert_eq!(state.input_buffer, "9:00");
    assert_eq!(state.time_cursor, 0);
    state.input_buffer = "09:000".to_string();
    state.handle_char_input('1');
    assert_eq!(state.input_buffer, "09:000");
    assert_eq!(state.time_cursor, 0);
}

#[test]
fn backspace_in_a_time_field_steps_the_cursor_back() {
    let mut state = one_task();
    state.move_field_right();
    state.enter_edit_mode();
    type_text(&mut state, "12");
    assert_eq!((state.input_buffer.as_str(), state.time_cursor), ("12:00", 2));
    state.handle_backspace();
    assert_eq!((state.input_buffer.as_str(), state.time_cursor), ("12:00", 1));
    state.handle_char_input('5');
    assert_eq!((state.input_buffer.as_str(), state.time_cursor), ("15:00", 2));
    state.handle_backspace();
    state.handle_backspace();
    state.handle_backspace();
    assert_eq!(state.time_cursor, 0);
}

#[test]
fn save_edit_stores_the_trimmed_name() {
    let mut state = one_task();
    state.change_task_name();
    type_text(&mut state, "  Planning  ");
    assert_eq!(state.save_edit(), Ok(()));
    assert_eq!(state.mode, AppMode::Browse);
    assert_eq!(state.input_buffer, "");
    assert_eq!(state.get_selected_record().unwrap().name, "Planning");
    assert!(state.can_undo());
    state.undo();
    assert_eq!(state.get_selected_record().unwrap().name, "Task");
}

#[test]
fn save_edit_refuses_a_blank_name() {
    for blank in ["", "   ", "\t \n"] {
        let mut state = one_task();
        state.change_task_name();
        type_text(&mut state, blank);
        assert_eq!(state.save_edit(), Err("Name cannot be empty".to_string()));
        assert_eq!(state.mode, AppMode::Edit);
        assert_eq!(state.input_buffer, blank);
        assert_eq!(state.edit_field, EditField::Name);
        assert_eq!(state.get_selected_record().unwrap().name, "Task");
        assert_eq!(state.day_data.len(), 1);
    }
}

#[test]
fn save_edit_takes_a_snapshot_even_when_refused() {
    let mut state = one_task();
    state.change_task_name();
    type_text(&mut state, "   ");
    assert!(!state.can_undo());
    assert!(state.save_edit().is_err());
    assert!(state.can_undo());
    state.undo();
    assert_eq!(state.get_selected_record().unwrap().name, "Task");
}

#[test]
fn save_edit_stores_the_trimmed_description() {
    let mut state = one_task();
    state.move_field_left();
    state.enter_edit_mode();
    type_text(&mut state, " with notes ");
    assert_eq!(state.save_edit(), Ok(()));
    assert_eq!(state.get_selected_record().unwrap().description, "with notes");
    state.move_field_left();
    state.enter_edit_mode();
    state.input_buffer = "   ".to_string();
    assert_eq!(state.save_edit(), Ok(()));
    assert_eq!(state.get_selected_record().unwrap().description, "");
}

#[test]
fn save_edit_parses_a_time_field() {
    let mut state = one_task();
    state.move_field_right();
    state.enter_edit_mode();
    state.input_buffer = "08:15".to_string();
    assert_eq!(state.save_edit(), Ok(()));
    let record = state.get_selected_record().unwrap();
    assert_eq!(record.start, at(8, 15));
    assert_eq!(record.total_minutes, 525);
}

#[test]
fn save_edit_refuses_a_text_that_is_no_time() {
    let mut state = one_task();
    state.move_field_right();
    state.enter_edit_mode();
    state.input_buffer = "8:15".to_string();
    assert_eq!(
        state.save_edit(),
        Err("Invalid start time format (use HH:MM)".to_string())
    );
    assert_eq!(state.mode, AppMode::Edit);
    assert_eq!(state.input_buffer, "8:15");
    state.edit_field = EditField::End;
    state.input_buffer = "24:00".to_string();
    assert_eq!(
        state.save_edit(),
        Err("Invalid end time format (use HH:MM)".to_string())
    );
    let record = state.get_selected_record().unwrap();
    assert_eq!((record.start, record.end), (at(9, 0), at(17, 0)));
}

#[test]
fn save_edit_with_nothing_selected_leaves_edit_mode() {
    let mut state = AppState::new(DayData::new());
    state.mode = AppMode::Edit;
    state.input_buffer = "".to_string();
    assert_eq!(state.save_edit(), Ok(()));
    assert_eq!(state.mode, AppMode::Browse);
    assert_eq!(state.day_data.len(), 0);
}

#[test]
fn saved_start_moves_the_record_in_the_list() {
    let mut state = five_tasks();
    state.move_field_right();
    state.enter_edit_mode();
    type_text(&mut state, "1130");
    assert_eq!(names(&state), vec!["B", "C", "D", "A", "E"]);
    assert_eq!(state.selected_index, 0);
    assert_eq!(state.get_selected_record().unwrap().name, "B");
}

#[test]
fn add_new_record_follows_the_selected_record() {
    let mut state = one_task();
    state.add_new_record();
    assert_eq!(state.day_data.len(), 2);
    assert_eq!(state.selected_index, 1);
    let added = state.get_selected_record().unwrap();
    assert_eq!(added.id, 2);
    assert_eq!(added.name, "New Task");
    assert_eq!(added.description, "");
    assert_eq!(added.start, at(17, 0));
    assert_eq!(added.end, at(18, 0));
    assert_eq!(added.total_minutes, 60);
    assert!(state.can_undo());
}

#[test]
fn added_record_has_an_id_that_no_record_had() {
    let mut state = five_tasks();
    state.selected_index = 2;
    state.delete_selected_record();
    let before = ids(&state);
    state.add_new_record();
    let added = state.get_selected_record().unwrap().id;
    assert_eq!(added, 6);
    assert!(!before.contains(&added));
    assert_eq!(state.day_data.position_of(added), Some(state.selected_index));
    let mut after = ids(&state);
    after.retain(|id| *id != added);
    assert_eq!(after, before);
    let before = ids(&state);
    state.add_break();
    let added = state.get_selected_record().unwrap().id;
    assert_eq!(added, 7);
    assert!(!before.contains(&added));
    assert_eq!(state.day_data.position_of(added), Some(state.selected_index));
}

#[test]
fn add_new_record_stops_at_the_last_minute_of_the_day() {
    let mut state = AppState::new(day_of(&[("Late", (22, 0), (23, 30))]));
    state.add_new_record();
    let added = state.get_selected_record().unwrap();
    assert_eq!(added.start, at(23, 30));
    assert_eq!(added.end, at(23, 59));
    assert_eq!(added.total_minutes, 29);
    let mut state = AppState::new(day_of(&[("Latest", (22, 0), (23, 0))]));
    state.add_new_record();
    assert_eq!(state.get_selected_record().unwrap().end, at(23, 59));
    let mut state = AppState::new(day_of(&[("Before", (22, 0), (22, 59))]));
    state.add_new_record();
    assert_eq!(state.get_selected_record().unwrap().end, at(23, 59));
    let mut state = AppState::new(day_of(&[("Earlier", (22, 0), (22, 58))]));
    state.add_new_record();
    assert_eq!(state.get_selected_record().unwrap().end, at(23, 58));
}

#[test]
fn add_new_record_to_an_empty_store_uses_the_working_day() {
    let mut state = AppState::new(DayData::new());
    state.add_new_record();
    assert_eq!(state.selected_index, 0);
    let added = state.get_selected_record().unwrap();
    assert_eq!((added.id, added.start, added.end), (1, at(9, 0), at(17, 0)));
    assert_eq!(added.total_minutes, 480);
    assert_eq!(added.name, "New Task");
}

#[test]
fn add_break_follows_the_selected_record() {
    let mut state = one_task();
    state.add_break();
    assert_eq!(state.selected_index, 1);
    let added = state.get_selected_record().unwrap();
    assert_eq!(added.name, "Break");
    assert_eq!(added.start, at(17, 0));
    assert_eq!(added.end, at(17, 15));
    assert_eq!(added.total_minutes, 15);
}

#[test]
fn add_break_to_an_empty_store_is_at_noon() {
    let mut state = AppState::new(DayData::new());
    state.add_break();
    let added = state.get_selected_record().unwrap();
    assert_eq!((added.start, added.end, added.total_minutes), (at(12, 0), at(12, 15), 15));
    let mut state = AppState::new(day_of(&[("Late", (22, 0), (23, 50))]));
    state.add_break();
    assert_eq!(state.get_selected_record().unwrap().end, at(23, 59));
}

#[test]
fn added_record_is_selected_where_the_sorted_view_puts_it() {
    let mut state = five_tasks();
    state.move_selection_down();
    state.add_new_record();
    assert_eq!(names(&state), vec!["A", "B", "C", "New Task", "D", "E"]);
    assert_eq!(state.selected_index, 3);
    assert_eq!(state.get_selected_record().unwrap().id, 6);
    state.selected_index = 0;
    state.add_break();
    assert_eq!(names(&state), vec!["A", "B", "Break", "C", "New Task", "D", "E"]);
    assert_eq!(state.selected_index, 2);
}

#[test]
fn delete_selected_record_removes_it_and_clamps_the_selection() {
    let mut state = five_tasks();
    state.selected_index = 4;
    state.delete_selected_record();
    assert_eq!(ids(&state), vec![1, 2, 3, 4]);
    assert_eq!(state.selected_index, 3);
    state.selected_index = 1;
    state.delete_selected_record();
    assert_eq!(ids(&state), vec![1, 3, 4]);
    assert_eq!(state.selected_index, 1);
    state.undo();
    assert_eq!(ids(&state), vec![1, 2, 3, 4]);
    state.undo();
    assert_eq!(ids(&state), vec![1, 2, 3, 4, 5]);
}

#[test]
fn delete_of_the_last_record_leaves_an_empty_list() {
    let mut state = one_task();
    state.delete_selected_record();
    assert_eq!(state.day_data.len(), 0);
    assert_eq!(state.selected_index, 0);
    assert!(state.get_selected_record().is_none());
    state.delete_selected_record();
    assert_eq!(state.day_data.len(), 0);
    state.undo();
    assert_eq!(state.day_data.len(), 0);
    state.undo();
    assert_eq!(state.day_data.len(), 1);
}

#[test]
fn visual_selection_does_not_depend_on_its_direction() {
    let mut state = five_tasks();
    state.selected_index = 3;
    state.enter_visual_mode();
    assert_eq!(state.mode, AppMode::Visual);
    assert_eq!((state.visual_start, state.visual_end), (3, 3));
    state.move_selection_up();
    state.move_selection_up();
    assert_eq!((state.visual_start, state.visual_end), (3, 1));
    let inside: Vec<bool> = (0..5).map(|i| state.is_in_visual_selection(i)).collect();
    assert_eq!(inside, vec![false, true, true, true, false]);
    state.visual_start = 1;
    state.visual_end = 3;
    let inside: Vec<bool> = (0..5).map(|i| state.is_in_visual_selection(i)).collect();
    assert_eq!(inside, vec![false, true, true, true, false]);
    state.exit_visual_mode();
    assert_eq!(state.mode, AppMode::Browse);
}

#[test]
fn visual_selection_follows_the_selection_down() {
    let mut state = five_tasks();
    state.enter_visual_mode();
    state.move_selection_down();
    state.move_selection_down();
    assert_eq!((state.visual_start, state.visual_end), (0, 2));
    assert!(state.is_in_visual_selection(0));
    assert!(state.is_in_visual_selection(2));
    assert!(!state.is_in_visual_selection(3));
    assert!(!state.is_in_visual_selection(usize::MAX));
}

#[test]
fn delete_visual_selection_removes_the_range_in_one_step() {
    let mut state = five_tasks();
    state.selected_index = 1;
    state.enter_visual_mode();
    state.move_selection_down();
    state.move_selection_down();
    state.delete_visual_selection();
    assert_eq!(ids(&state), vec![1, 5]);
    assert_eq!(state.mode, AppMode::Browse);
    assert_eq!(state.selected_index, 1);
    assert!(state.can_undo());
    state.undo();
    assert_eq!(ids(&state), vec![1, 2, 3, 4, 5]);
    assert_eq!(names(&state), vec!["A", "B", "C", "D", "E"]);
    assert!(!state.can_undo());
    state.redo();
    assert_eq!(ids(&state), vec![1, 5]);
}

#[test]
fn delete_visual_selection_upwards_and_to_the_end() {
    let mut state = five_tasks();
    state.selected_index = 4;
    state.enter_visual_mode();
    state.move_selection_up();
    state.move_selection_up();
    state.delete_visual_selection();
    assert_eq!(ids(&state), vec![1, 2]);
    assert_eq!(state.selected_index, 1);
}

#[test]
fn delete_visual_selection_beyond_the_list() {
    let mut state = five_tasks();
    state.visual_start = 3;
    state.visual_end = usize::MAX;
    state.delete_visual_selection();
    assert_eq!(ids(&state), vec![1, 2, 3]);
    state.visual_start = 7;
    state.visual_end = 9;
    state.delete_visual_selection();
    assert_eq!(ids(&state), vec![1, 2, 3]);
    state.visual_start = 0;
    state.visual_end = 2;
    state.delete_visual_selection();
    assert_eq!(ids(&state), Vec::<u32>::new());
    assert_eq!(state.selected_index, 0);
}

#[test]
fn undo_and_redo_restore_the_store() {
    let mut state = one_task();
    state.undo();
    state.redo();
    assert_eq!(ids(&state), vec![1]);
    state.add_new_record();
    state.add_break();
    assert_eq!(ids(&state), vec![1, 2, 3]);
    state.undo();
    assert_eq!(ids(&state), vec![1, 2]);
    assert_eq!(state.selected_index, 1);
    assert!(state.can_redo());
    state.redo();
    assert_eq!(ids(&state), vec![1, 2, 3]);
    assert!(!state.can_redo());
    state.undo();
    state.undo();
    assert_eq!(ids(&state), vec![1]);
    assert_eq!(state.selected_index, 0);
    assert!(!state.can_undo());
    state.redo();
    state.redo();
    assert_eq!(ids(&state), vec![1, 2, 3]);
}

#[test]
fn a_change_after_an_undo_leaves_nothing_to_redo() {
    let mut state = one_task();
    state.add_new_record();
    state.undo();
    assert!(state.can_redo());
    state.add_break();
    assert!(!state.can_redo());
    let before = names(&state);
    state.redo();
    assert_eq!(names(&state), before);
    assert_eq!(before, vec!["Task", "Break"]);
}

#[test]
fn history_keeps_fifty_changes() {
    let mut state = AppState::new(DayData::new());
    for _ in 0..60 {
        state.add_new_record();
    }
    assert_eq!(state.day_data.len(), 60);
    let mut undone = 0;
    while state.can_undo() {
        state.undo();
        undone += 1;
    }
    assert_eq!(undone, 50);
    assert_eq!(state.day_data.len(), 10);
}

#[test]
fn set_time_on_field_sets_start_or_end() {
    let mut state = one_task();
    state.set_time_on_field(13, 45);
    assert_eq!(state.get_selected_record().unwrap().start, at(9, 0));
    assert!(state.can_undo());
    state.edit_field = EditField::Start;
    state.set_time_on_field(13, 45);
    let record = state.get_selected_record().unwrap();
    assert_eq!((record.start, record.total_minutes), (at(13, 45), 195));
    state.edit_field = EditField::End;
    state.set_time_on_field(14, 0);
    let record = state.get_selected_record().unwrap();
    assert_eq!((record.end, record.total_minutes), (at(14, 0), 15));
    state.set_time_on_field(24, 0);
    state.set_time_on_field(10, 60);
    assert_eq!(state.get_selected_record().unwrap().end, at(14, 0));
    state.undo();
    state.undo();
    state.undo();
    assert_eq!(state.get_selected_record().unwrap().end, at(17, 0));
}

#[test]
fn set_current_time_on_field_puts_a_time_of_the_day() {
    let mut state = one_task();
    state.edit_field = EditField::Start;
    state.set_current_time_on_field();
    let record = state.get_selected_record().unwrap();
    assert!(record.start.hour < 24 && record.start.minute < 60);
    assert_eq!(record.end, at(17, 0));
    assert_eq!(
        record.total_minutes,
        WorkRecord::calculate_duration(&record.start, &record.end)
    );
    assert!(state.can_undo());
    state.edit_field = EditField::Name;
    state.set_current_time_on_field();
    state.undo();
    state.undo();
    assert_eq!(state.get_selected_record().unwrap().start, at(9, 0));
}

#[test]
fn palette_opens_and_closes() {
    let mut state = one_task();
    state.command_palette_input = "old".to_string();
    state.command_palette_selected = 3;
    state.open_command_palette();
    assert_eq!(state.mode, AppMode::CommandPalette);
    assert_eq!(state.command_palette_input, "");
    assert_eq!(state.command_palette_selected, 0);
    state.handle_command_palette_char('q');
    state.move_command_palette_down(5);
    state.close_command_palette();
    assert_eq!(state.mode, AppMode::Browse);
    assert_eq!(state.command_palette_input, "");
    assert_eq!(state.command_palette_selected, 0);
}

#[test]
fn palette_query_edits_reset_the_highlight() {
    let mut state = one_task();
    state.open_command_palette();
    state.move_command_palette_down(15);
    state.move_command_palette_down(15);
    assert_eq!(state.command_palette_selected, 2);
    state.handle_command_palette_char('a');
    assert_eq!(state.command_palette_input, "a");
    assert_eq!(state.command_palette_selected, 0);
    state.handle_command_palette_char('d');
    state.move_command_palette_down(15);
    state.handle_command_palette_backspace();
    assert_eq!(state.command_palette_input, "a");
    assert_eq!(state.command_palette_selected, 0);
    state.handle_command_palette_backspace();
    state.handle_command_palette_backspace();
    assert_eq!(state.command_palette_input, "");
}

#[test]
fn palette_highlight_stays_within_the_list() {
    let mut state = one_task();
    state.open_command_palette();
    state.move_command_palette_up();
    assert_eq!(state.command_palette_selected, 0);
    state.move_command_palette_down(0);
    assert_eq!(state.command_palette_selected, 0);
    state.move_command_palette_down(1);
    assert_eq!(state.command_palette_selected, 0);
    state.move_command_palette_down(3);
    state.move_command_palette_down(3);
    state.move_command_palette_down(3);
    assert_eq!(state.command_palette_selected, 2);
    state.move_command_palette_up();
    assert_eq!(state.command_palette_selected, 1);
}

#[test]
fn empty_query_shows_every_command_in_registry_order() {
    let mut state = one_task();
    state.open_command_palette();
    let shown = state.get_filtered_commands();
    assert_eq!(shown.len(), 15);
    for (place, (index, score, command)) in shown.iter().enumerate() {
        assert_eq!(*index, place);
        assert_eq!(*score, 0);
        assert_eq!(command.key, state.available_commands[place].key);
        assert_eq!(command.action, state.available_commands[place].action);
    }
}

#[test]
fn query_without_a_match_shows_nothing() {
    let mut state = one_task();
    state.open_command_palette();
    for c in "zzzqqq".chars() {
        state.handle_command_palette_char(c);
    }
    assert!(state.get_filtered_commands().is_empty());
    assert_eq!(state.execute_selected_command(), None);
    assert_eq!(state.mode, AppMode::CommandPalette);
    assert_eq!(state.command_palette_input, "zzzqqq");
}

#[test]
fn query_ranks_the_matching_commands() {
    let mut state = one_task();
    state.open_command_palette();
    for c in "undo".chars() {
        state.handle_command_palette_char(c);
    }
    let shown = state.get_filtered_commands();
    assert!(!shown.is_empty());
    assert!(shown.len() < 15);
    assert_eq!(shown[0].2.action, CommandAction::Undo);
    assert_eq!(shown[0].0, 11);
    assert!(shown[0].1 > 0);
    for pair in shown.windows(2) {
        assert!(pair[0].1 > pair[1].1 || (pair[0].1 == pair[1].1 && pair[0].0 < pair[1].0));
    }
    for (index, _, command) in &shown {
        assert_eq!(command.key, state.available_commands[*index].key);
        assert_eq!(command.description, state.available_commands[*index].description);
    }
}

#[test]
fn query_for_visual_finds_the_visual_command_first() {
    let mut state = one_task();
    state.open_command_palette();
    for c in "visual".chars() {
        state.handle_command_palette_char(c);
    }
    let shown = state.get_filtered_commands();
    assert_eq!(shown.len(), 1);
    assert_eq!(shown[0].2.action, CommandAction::Visual);
}

#[test]
fn execute_hands_back_the_highlighted_action_and_closes() {
    let mut state = one_task();
    state.open_command_palette();
    state.move_command_palette_down(15);
    state.move_command_palette_down(15);
    assert_eq!(state.execute_selected_command(), Some(CommandAction::MoveLeft));
    assert_eq!(state.mode, AppMode::Browse);
    assert_eq!(state.command_palette_input, "");
    assert_eq!(state.command_palette_selected, 0);
    assert_eq!(state.day_data.len(), 1);
    assert!(!state.can_undo());
}

#[test]
fn execute_with_a_query_takes_the_best_match() {
    let mut state = one_task();
    state.open_command_palette();
    for c in "quit".chars() {
        state.handle_command_palette_char(c);
    }
    assert_eq!(state.execute_selected_command(), Some(CommandAction::Quit));
    assert_eq!(state.mode, AppMode::Browse);
    assert!(!state.should_quit);
}

#[test]
fn execute_beyond_the_list_does_nothing() {
    let mut state = one_task();
    state.open_command_palette();
    state.command_palette_selected = 15;
    assert_eq!(state.execute_selected_command(), None);
    assert_eq!(state.mode, AppMode::CommandPalette);
    assert_eq!(state.command_palette_selected, 15);
    state.command_palette_selected = 14;
    assert_eq!(state.execute_selected_command(), Some(CommandAction::Quit));
}
