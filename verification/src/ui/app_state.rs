//! The editor's state and the operations that the input shell calls on it.

use crate::models::day_data::{insertion_index, lemma_index_of_own_id, lemma_placed_wf, DayData};
use crate::models::time_point::{is_digit, is_digit_char, TimePoint, MINUTES_PER_DAY};
use crate::models::work_record::WorkRecord;
use crate::text::{trim_to_string, with_char_at};
use crate::ui::clock::local_clock_time;
use crate::ui::history::{lemma_push_keeps_wf, lemma_step_keeps_wf, History, HistoryView};
use crate::ui::palette::{command_score, rank_matches, search_text_of, MAX_SEARCH_TEXT_LEN};
use crate::ui::laws::lemma_added_record_is_selected;
use crate::ui::transitions::{
    break_name, clamped, field_text, new_task_name, AppStateView, CommandView, TIME_SLOTS,
};
use vstd::prelude::*;
use vstd::string::*;

verus! {

/// What the editor is doing.
#[derive(Debug, Clone, Copy, PartialEq, Eq, Structural)]
pub enum AppMode {
    Browse,
    Edit,
    Visual,
    CommandPalette,
}

/// The field of a record that an edit works on.
#[derive(Debug, Clone, Copy, PartialEq, Eq, Structural)]
pub enum EditField {
    Name,
    Start,
    End,
    Description,
}

/// What a command of the palette asks the shell to do.
#[derive(Debug, Clone, Copy, PartialEq, Eq, Structural)]
pub enum CommandAction {
    MoveUp,
    MoveDown,
    MoveLeft,
    MoveRight,
    Edit,
    Change,
    New,
    Break,
    Delete,
    Visual,
    SetNow,
    Undo,
    Redo,
    Save,
    Quit,
}

/// A command of the palette: its key hint, what it does, and its action.
#[derive(Debug, Clone, Copy)]
pub struct Command {
    pub key: &'static str,
    pub description: &'static str,
    pub action: CommandAction,
}

/// The editor's state.
#[derive(Debug)]
pub struct AppState {
    pub day_data: DayData,
    pub mode: AppMode,
    pub selected_index: usize,
    pub edit_field: EditField,
    pub input_buffer: String,
    pub time_cursor: usize,
    pub should_quit: bool,
    pub visual_start: usize,
    pub visual_end: usize,
    pub command_palette_input: String,
    pub command_palette_selected: usize,
    pub available_commands: Vec<Command>,
    pub history: History,
}

impl EditField {
    /// The field to the right, around the end to the first.
    pub open spec fn next(self) -> EditField {
        match self {
            EditField::Name => EditField::Start,
            EditField::Start => EditField::End,
            EditField::End => EditField::Description,
            EditField::Description => EditField::Name,
        }
    }

    /// The field to the left, around the start to the last.
    pub open spec fn previous(self) -> EditField {
        match self {
            EditField::Name => EditField::Description,
            EditField::Start => EditField::Name,
            EditField::End => EditField::Start,
            EditField::Description => EditField::End,
        }
    }

    /// Whether the field holds a time.
    pub open spec fn is_time(self) -> bool {
        self == EditField::Start || self == EditField::End
    }
}

impl View for Command {
    type V = CommandView;

    open spec fn view(&self) -> CommandView {
        CommandView { key: self.key@, description: self.description@, action: self.action }
    }
}

/// The commands that the palette offers, in the order of their registration.
pub open spec fn registered_commands() -> Seq<CommandView> {
    seq![
        CommandView { key: "↑/k"@, description: "Move selection up"@, action: CommandAction::MoveUp },
        CommandView {
            key: "↓/j"@,
            description: "Move selection down"@,
            action: CommandAction::MoveDown,
        },
        CommandView { key: "←/h"@, description: "Move field left"@, action: CommandAction::MoveLeft },
        CommandView {
            key: "→/l"@,
            description: "Move field right"@,
            action: CommandAction::MoveRight,
        },
        CommandView { key: "Enter/i"@, description: "Enter edit mode"@, action: CommandAction::Edit },
        CommandView { key: "c"@, description: "Change task name"@, action: CommandAction::Change },
        CommandView { key: "n"@, description: "Add new task"@, action: CommandAction::New },
        CommandView { key: "b"@, description: "Add break"@, action: CommandAction::Break },
        CommandView {
            key: "d"@,
            description: "Delete selected record"@,
            action: CommandAction::Delete,
        },
        CommandView { key: "v"@, description: "Enter visual mode"@, action: CommandAction::Visual },
        CommandView {
            key: "t"@,
            description: "Set current time on field"@,
            action: CommandAction::SetNow,
        },
        CommandView { key: "u"@, description: "Undo last change"@, action: CommandAction::Undo },
        CommandView { key: "r"@, description: "Redo last change"@, action: CommandAction::Redo },
        CommandView { key: "s"@, description: "Save to file"@, action: CommandAction::Save },
        CommandView { key: "q"@, description: "Quit application"@, action: CommandAction::Quit },
    ]
}

/// Every registered command has a search text that the matcher takes.
pub proof fn lemma_registered_commands_searchable()
    ensures
        registered_commands().len() == 15,
        forall|i: int|
            0 <= i < registered_commands().len() ==> search_text_of(
                (#[trigger] registered_commands()[i]).key,
                registered_commands()[i].description,
            ).len() <= MAX_SEARCH_TEXT_LEN,
{
    reveal_strlit("↑/k");
    reveal_strlit("↓/j");
    reveal_strlit("←/h");
    reveal_strlit("→/l");
    reveal_strlit("Enter/i");
    reveal_strlit("c");
    reveal_strlit("n");
    reveal_strlit("b");
    reveal_strlit("d");
    reveal_strlit("v");
    reveal_strlit("t");
    reveal_strlit("u");
    reveal_strlit("r");
    reveal_strlit("s");
    reveal_strlit("q");
    reveal_strlit("Move selection up");
    reveal_strlit("Move selection down");
    reveal_strlit("Move field left");
    reveal_strlit("Move field right");
    reveal_strlit("Enter edit mode");
    reveal_strlit("Change task name");
    reveal_strlit("Add new task");
    reveal_strlit("Add break");
    reveal_strlit("Delete selected record");
    reveal_strlit("Enter visual mode");
    reveal_strlit("Set current time on field");
    reveal_strlit("Undo last change");
    reveal_strlit("Redo last change");
    reveal_strlit("Save to file");
    reveal_strlit("Quit application");
    let commands = registered_commands();
    assert forall|i: int| 0 <= i < commands.len() implies search_text_of(
        (#[trigger] commands[i]).key,
        commands[i].description,
    ).len() <= 100 by {
        assert(commands[i].key.len() <= 10);
        assert(commands[i].description.len() <= 30);
    }
}

impl View for AppState {
    type V = AppStateView;

    open spec fn view(&self) -> AppStateView {
        AppStateView {
            day_data: self.day_data@,
            mode: self.mode,
            selected_index: self.selected_index as nat,
            edit_field: self.edit_field,
            input_buffer: self.input_buffer@,
            time_cursor: self.time_cursor as nat,
            should_quit: self.should_quit,
            visual_start: self.visual_start as nat,
            visual_end: self.visual_end as nat,
            command_palette_input: self.command_palette_input@,
            command_palette_selected: self.command_palette_selected as nat,
            available_commands: self.available_commands@.map_values(|c: Command| c@),
            history: self.history@,
        }
    }
}

impl AppState {
    /// The editor over `day_data`: browsing, the first record selected, the
    /// name field in focus, nothing to undo, and the registered commands in
    /// the palette.
    pub fn new(day_data: DayData) -> (r: AppState)
        ensures
            r@ == AppStateView::initial(day_data@, registered_commands()),
            day_data@.wf() ==> r@.wf(),
    {
        let available_commands = vec![
            Command { key: "↑/k", description: "Move selection up", action: CommandAction::MoveUp },
            Command {
                key: "↓/j",
                description: "Move selection down",
                action: CommandAction::MoveDown,
            },
            Command {
                key: "←/h",
                description: "Move field left",
                action: CommandAction::MoveLeft,
            },
            Command {
                key: "→/l",
                description: "Move field right",
                action: CommandAction::MoveRight,
            },
            Command { key: "Enter/i", description: "Enter edit mode", action: CommandAction::Edit },
            Command { key: "c", description: "Change task name", action: CommandAction::Change },
            Command { key: "n", description: "Add new task", action: CommandAction::New },
            Command { key: "b", description: "Add break", action: CommandAction::Break },
            Command {
                key: "d",
                description: "Delete selected record",
                action: CommandAction::Delete,
            },
            Command { key: "v", description: "Enter visual mode", action: CommandAction::Visual },
            Command {
                key: "t",
                description: "Set current time on field",
                action: CommandAction::SetNow,
            },
            Command { key: "u", description: "Undo last change", action: CommandAction::Undo },
            Command { key: "r", description: "Redo last change", action: CommandAction::Redo },
            Command { key: "s", description: "Save to file", action: CommandAction::Save },
            Command { key: "q", description: "Quit application", action: CommandAction::Quit },
        ];
        proof {
            lemma_registered_commands_searchable();
            assert(available_commands@.map_values(|c: Command| c@) =~= registered_commands());
        }
        AppState {
            day_data,
            mode: AppMode::Browse,
            selected_index: 0,
            edit_field: EditField::Name,
            input_buffer: String::new(),
            time_cursor: 0,
            should_quit: false,
            visual_start: 0,
            visual_end: 0,
            command_palette_input: String::new(),
            command_palette_selected: 0,
            available_commands,
            history: History::new(),
        }
    }

    /// The record that the selection points at.
    pub fn get_selected_record(&self) -> (r: Option<&WorkRecord>)
        ensures
            r is Some <==> self@.selected_record() is Some,
            r matches Some(record) ==> Some(record@) == self@.selected_record(),
    {
        self.day_data.record_at(self.selected_index)
    }

    /// Moves the selection one record up; in visual mode the selection's end follows.
    pub fn move_selection_up(&mut self)
        ensures
            final(self)@ == old(self)@.move_selection_up(),
    {
        if self.selected_index > 0 {
            self.selected_index -= 1;
        }
        if self.mode == AppMode::Visual {
            self.visual_end = self.selected_index;
        }
    }

    /// Moves the selection one record down; in visual mode the selection's end follows.
    pub fn move_selection_down(&mut self)
        ensures
            final(self)@ == old(self)@.move_selection_down(),
    {
        let record_count = self.day_data.len();
        if record_count > 0 && self.selected_index < record_count - 1 {
            self.selected_index += 1;
        }
        if self.mode == AppMode::Visual {
            self.visual_end = self.selected_index;
        }
    }

    /// The text by which `field` of the selected record is edited.
    fn selected_field_text(&self, field: EditField) -> (r: Option<String>)
        requires
            self@.day_data.wf(),
        ensures
            r is Some <==> self@.selected_record() is Some,
            r matches Some(text) ==> text@ == field_text(self@.selected_record()->0, field),
    {
        match self.day_data.record_at(self.selected_index) {
            Some(record) => {
                assert(self@.day_data.records[self.selected_index as int].wf());
                Some(
                    match field {
                        EditField::Name => record.name.clone(),
                        EditField::Start => record.start.to_string(),
                        EditField::End => record.end.to_string(),
                        EditField::Description => record.description.clone(),
                    },
                )
            },
            None => None,
        }
    }

    /// Starts editing the field in focus of the selected record, with the
    /// field's text in the buffer. Does nothing where no record is selected.
    pub fn enter_edit_mode(&mut self)
        requires
            old(self)@.day_data.wf(),
        ensures
            final(self)@ == old(self)@.enter_edit_mode(),
    {
        if let Some(input_value) = self.selected_field_text(self.edit_field) {
            self.mode = AppMode::Edit;
            self.input_buffer = input_value;
            self.time_cursor = 0;
        }
    }

    /// Starts editing the name of the selected record with an empty buffer.
    /// Does nothing unless the name field is in focus and a record is selected.
    pub fn change_task_name(&mut self)
        ensures
            final(self)@ == old(self)@.change_task_name(),
    {
        if self.edit_field == EditField::Name && self.get_selected_record().is_some() {
            self.mode = AppMode::Edit;
            self.input_buffer = String::new();
            self.time_cursor = 0;
        }
    }

    /// Leaves edit mode: back to browsing, the buffer empty, the name field in focus.
    pub fn exit_edit_mode(&mut self)
        ensures
            final(self)@ == old(self)@.exit_edit_mode(),
    {
        self.mode = AppMode::Browse;
        self.input_buffer = String::new();
        self.edit_field = EditField::Name;
        self.time_cursor = 0;
    }

    /// Moves the focus to the next field and fills the buffer with that
    /// field's text. Does nothing where no record is selected.
    pub fn next_field(&mut self)
        requires
            old(self)@.day_data.wf(),
        ensures
            final(self)@ == old(self)@.next_field(),
    {
        let next = match self.edit_field {
            EditField::Name => EditField::Start,
            EditField::Start => EditField::End,
            EditField::End => EditField::Description,
            EditField::Description => EditField::Name,
        };
        if let Some(input_value) = self.selected_field_text(next) {
            self.edit_field = next;
            self.input_buffer = input_value;
            self.time_cursor = 0;
        }
    }

    /// Takes a typed character. A name or a description gets it appended. A
    /// time field takes only a digit, into the slot under the cursor of a
    /// five-character buffer; the fourth digit takes a snapshot for undo,
    /// saves the field and leaves edit mode, unless the buffer is then no
    /// time, in which case nothing more happens and no snapshot is taken.
    pub fn handle_char_input(&mut self, c: char)
        requires
            old(self)@.edit_field.is_time() ==> old(self)@.day_data.wf(),
        ensures
            final(self)@ == old(self)@.handle_char_input(c),
            old(self)@.day_data.wf() ==> final(self)@.day_data.wf(),
            old(self)@.wf() ==> final(self)@.wf(),
            old(self)@.edit_field.is_time() && !is_digit(c) ==> final(self)@ == old(self)@,
            final(self)@.day_data == old(self)@.day_data || final(self)@.history
                == old(self)@.history.pushed(old(self)@.day_data),
    {
        match self.edit_field {
            EditField::Name | EditField::Description => {
                self.input_buffer.push(c);
            },
            EditField::Start | EditField::End => {
                if !is_digit_char(c) {
                    return ;
                }
                if self.input_buffer.as_str().unicode_len() != 5 {
                    return ;
                }
                if self.time_cursor >= TIME_SLOTS {
                    return ;
                }
                let position = if self.time_cursor < 2 {
                    self.time_cursor
                } else {
                    self.time_cursor + 1
                };
                self.input_buffer = with_char_at(self.input_buffer.as_str(), position, c);
                self.time_cursor += 1;
                if self.time_cursor >= TIME_SLOTS {
                    let accepted = match self.day_data.record_at(self.selected_index) {
                        Some(_) => TimePoint::parse(self.input_buffer.as_str()).is_ok(),
                        None => true,
                    };
                    if accepted {
                        self.save_snapshot();
                        let _ = self.save_current_field();
                        self.exit_edit_mode();
                    }
                }
            },
        }
    }

    /// Takes a backspace. A name or a description loses its last character.
    /// A time field keeps its characters: the cursor steps back one slot.
    pub fn handle_backspace(&mut self)
        ensures
            final(self)@ == old(self)@.handle_backspace(),
    {
        match self.edit_field {
            EditField::Name | EditField::Description => {
                let _ = self.input_buffer.pop();
            },
            EditField::Start | EditField::End => {
                if self.time_cursor > 0 {
                    self.time_cursor -= 1;
                }
            },
        }
    }

    /// Puts the buffer into the field in focus of the selected record: a
    /// name or a description trimmed, a time parsed. A blank name or a text
    /// that is no time is refused with a message and changes nothing.
    fn save_current_field(&mut self) -> (r: Result<(), String>)
        requires
            old(self)@.day_data.wf(),
        ensures
            final(self)@ == old(self)@.save_current_field(),
            final(self)@.day_data.wf(),
            old(self)@.wf() ==> final(self)@.wf(),
            r is Err <==> old(self)@.save_error() is Some,
            r matches Err(message) ==> Some(message@) == old(self)@.save_error(),
    {
        let id = match self.day_data.record_at(self.selected_index) {
            Some(record) => record.id,
            None => {
                return Ok(());
            },
        };
        proof {
            lemma_index_of_own_id(self@.day_data, self.selected_index as int);
        }
        match self.edit_field {
            EditField::Name => {
                let name = trim_to_string(self.input_buffer.as_str());
                if name.as_str().is_empty() {
                    return Err(String::from_str("Name cannot be empty"));
                }
                self.day_data.set_name(id, name);
            },
            EditField::Start => {
                match TimePoint::parse(self.input_buffer.as_str()) {
                    Ok(start) => {
                        self.day_data.set_start(id, start);
                    },
                    Err(_) => {
                        return Err(String::from_str("Invalid start time format (use HH:MM)"));
                    },
                }
            },
            EditField::End => {
                match TimePoint::parse(self.input_buffer.as_str()) {
                    Ok(end) => {
                        self.day_data.set_end(id, end);
                    },
                    Err(_) => {
                        return Err(String::from_str("Invalid end time format (use HH:MM)"));
                    },
                }
            },
            EditField::Description => {
                let description = trim_to_string(self.input_buffer.as_str());
                self.day_data.set_description(id, description);
            },
        }
        Ok(())
    }

    /// Commits the edit: takes a snapshot for undo, saves the field and
    /// leaves edit mode. A refused save leaves the editor in edit mode with
    /// the buffer as it is, and hands the message back.
    pub fn save_edit(&mut self) -> (r: Result<(), String>)
        requires
            old(self)@.day_data.wf(),
        ensures
            final(self)@ == old(self)@.save_edit(),
            final(self)@.day_data.wf(),
            old(self)@.wf() ==> final(self)@.wf(),
            r is Err <==> old(self)@.save_error() is Some,
            r matches Err(message) ==> Some(message@) == old(self)@.save_error(),
            r is Err ==> final(self)@ == old(self)@.snapshot(),
    {
        self.save_snapshot();
        match self.save_current_field() {
            Ok(()) => {
                self.exit_edit_mode();
                Ok(())
            },
            Err(message) => Err(message),
        }
    }

    /// Adds a record under `name` behind the selected record, lasting
    /// `minutes`, and selects it.
    fn add_record_after_selection(
        &mut self,
        name: &str,
        minutes: u32,
        fallback_start: TimePoint,
        fallback_end: TimePoint,
    )
        requires
            old(self)@.day_data.wf(),
            old(self).day_data.last_id < u32::MAX,
            minutes <= MINUTES_PER_DAY,
            fallback_start.is_valid(),
            fallback_end.is_valid(),
        ensures
            final(self)@ == old(self)@.with_new_record(
                name@,
                minutes as int,
                (fallback_start, fallback_end),
            ),
            final(self)@.selected_record() == Some(
                old(self)@.new_record(name@, minutes as int, (fallback_start, fallback_end)),
            ),
            !old(self)@.day_data.contains_id((old(self)@.day_data.last_id + 1) as u32),
            final(self)@.day_data.wf(),
            old(self)@.wf() ==> final(self)@.wf(),
    {
        proof {
            lemma_added_record_is_selected(
                self@,
                name@,
                minutes as int,
                (fallback_start, fallback_end),
            );
        }
        self.save_snapshot();
        let id = self.day_data.next_id();
        let (start, end) = match self.day_data.record_at(self.selected_index) {
            Some(current_record) => {
                assert(self@.day_data.records[self.selected_index as int].wf());
                let start_minutes = current_record.end.to_minutes_since_midnight();
                let end_minutes = if start_minutes + minutes < MINUTES_PER_DAY {
                    start_minutes + minutes
                } else {
                    MINUTES_PER_DAY - 1
                };
                (current_record.end, TimePoint::from_minutes_since_midnight(end_minutes).unwrap())
            },
            None => (fallback_start, fallback_end),
        };
        let record = WorkRecord::new(id, String::from_str(name), start, end);
        let ghost before = self@.day_data;
        let ghost added = record@;
        self.day_data.add_record(record);
        proof {
            lemma_placed_wf(before, added);
            lemma_index_of_own_id(self@.day_data, insertion_index(before.records, added));
        }
        self.selected_index = match self.day_data.position_of(id) {
            Some(index) => index,
            None => 0,
        };
    }

    /// Adds a task of an hour behind the selected record, or from 09:00 to
    /// 17:00 where none is selected, and selects it.
    pub fn add_new_record(&mut self)
        requires
            old(self)@.day_data.wf(),
            old(self).day_data.last_id < u32::MAX,
        ensures
            final(self)@ == old(self)@.add_new_record(),
            final(self)@.selected_record() == Some(
                old(self)@.new_record(
                    new_task_name(),
                    60,
                    (TimePoint { hour: 9, minute: 0 }, TimePoint { hour: 17, minute: 0 }),
                ),
            ),
            !old(self)@.day_data.contains_id((old(self)@.day_data.last_id + 1) as u32),
            final(self)@.day_data.wf(),
            old(self)@.wf() ==> final(self)@.wf(),
    {
        self.add_record_after_selection(
            "New Task",
            60,
            TimePoint { hour: 9, minute: 0 },
            TimePoint { hour: 17, minute: 0 },
        );
    }

    /// Adds a break of a quarter of an hour behind the selected record, or
    /// from 12:00 to 12:15 where none is selected, and selects it.
    pub fn add_break(&mut self)
        requires
            old(self)@.day_data.wf(),
            old(self).day_data.last_id < u32::MAX,
        ensures
            final(self)@ == old(self)@.add_break(),
            final(self)@.selected_record() == Some(
                old(self)@.new_record(
                    break_name(),
                    15,
                    (TimePoint { hour: 12, minute: 0 }, TimePoint { hour: 12, minute: 15 }),
                ),
            ),
            !old(self)@.day_data.contains_id((old(self)@.day_data.last_id + 1) as u32),
            final(self)@.day_data.wf(),
            old(self)@.wf() ==> final(self)@.wf(),
    {
        self.add_record_after_selection(
            "Break",
            15,
            TimePoint { hour: 12, minute: 0 },
            TimePoint { hour: 12, minute: 15 },
        );
    }

    /// Brings the selection back into the list after records have left it.
    fn clamp_selection(&mut self)
        ensures
            final(self)@ == (AppStateView {
                selected_index: clamped(old(self)@.selected_index, old(self)@.day_data.records.len()),
                ..old(self)@
            }),
    {
        let count = self.day_data.len();
        if self.selected_index >= count {
            self.selected_index = if count == 0 {
                0
            } else {
                count - 1
            };
        }
    }

    /// Takes a snapshot for undo and deletes the selected record.
    pub fn delete_selected_record(&mut self)
        requires
            old(self)@.day_data.wf(),
        ensures
            final(self)@ == old(self)@.delete_selected_record(),
            final(self)@.day_data.wf(),
            old(self)@.wf() ==> final(self)@.wf(),
    {
        self.save_snapshot();
        let id = match self.day_data.record_at(self.selected_index) {
            Some(record) => record.id,
            None => {
                return ;
            },
        };
        proof {
            lemma_index_of_own_id(self@.day_data, self.selected_index as int);
        }
        let _ = self.day_data.remove_record(id);
        self.clamp_selection();
    }

    /// Moves the focus one field to the left.
    pub fn move_field_left(&mut self)
        ensures
            final(self)@ == old(self)@.move_field_left(),
    {
        self.edit_field =
        match self.edit_field {
            EditField::Name => EditField::Description,
            EditField::Start => EditField::Name,
            EditField::End => EditField::Start,
            EditField::Description => EditField::End,
        };
    }

    /// Moves the focus one field to the right.
    pub fn move_field_right(&mut self)
        ensures
            final(self)@ == old(self)@.move_field_right(),
    {
        self.edit_field =
        match self.edit_field {
            EditField::Name => EditField::Start,
            EditField::Start => EditField::End,
            EditField::End => EditField::Description,
            EditField::Description => EditField::Name,
        };
    }

    /// Takes a snapshot for undo and puts the time `hour:minute` on the
    /// field in focus of the selected record, if that is its start or its
    /// end. A pair that is no time of the day is passed over.
    pub fn set_time_on_field(&mut self, hour: u8, minute: u8)
        requires
            old(self)@.day_data.wf(),
        ensures
            final(self)@ == old(self)@.set_time_on_field(hour, minute),
            final(self)@.day_data.wf(),
            old(self)@.wf() ==> final(self)@.wf(),
    {
        self.save_snapshot();
        let id = match self.day_data.record_at(self.selected_index) {
            Some(record) => record.id,
            None => {
                return ;
            },
        };
        proof {
            lemma_index_of_own_id(self@.day_data, self.selected_index as int);
        }
        match self.edit_field {
            EditField::Start => {
                if let Ok(time_point) = TimePoint::new(hour, minute) {
                    self.day_data.set_start(id, time_point);
                }
            },
            EditField::End => {
                if let Ok(time_point) = TimePoint::new(hour, minute) {
                    self.day_data.set_end(id, time_point);
                }
            },
            _ => {},
        }
    }

    /// Takes a snapshot for undo and puts the time that the wall clock
    /// shows on the field in focus of the selected record, if that is its
    /// start or its end.
    pub fn set_current_time_on_field(&mut self)
        requires
            old(self)@.day_data.wf(),
        ensures
            exists|hour: u8, minute: u8|
                hour < 24 && minute < 60 && final(self)@ == #[trigger] old(self)@.set_time_on_field(
                    hour,
                    minute,
                ),
            final(self)@.day_data.wf(),
            old(self)@.wf() ==> final(self)@.wf(),
    {
        let (hour, minute) = local_clock_time();
        self.set_time_on_field(hour, minute);
    }

    /// Starts a visual selection at the selected record.
    pub fn enter_visual_mode(&mut self)
        ensures
            final(self)@ == old(self)@.enter_visual_mode(),
    {
        self.mode = AppMode::Visual;
        self.visual_start = self.selected_index;
        self.visual_end = self.selected_index;
    }

    /// Leaves visual mode.
    pub fn exit_visual_mode(&mut self)
        ensures
            final(self)@ == old(self)@.exit_visual_mode(),
    {
        self.mode = AppMode::Browse;
    }

    /// Tells whether the place `index` lies between the two ends of the
    /// visual selection, whichever of them is the lower.
    pub fn is_in_visual_selection(&self, index: usize) -> (r: bool)
        ensures
            r == self@.is_in_visual_selection(index as nat),
    {
        let start = if self.visual_start <= self.visual_end {
            self.visual_start
        } else {
            self.visual_end
        };
        let end = if self.visual_start <= self.visual_end {
            self.visual_end
        } else {
            self.visual_start
        };
        index >= start && index <= end
    }

    /// Takes one snapshot for undo, deletes the records of the visual
    /// selection and goes back to browsing.
    pub fn delete_visual_selection(&mut self)
        requires
            old(self)@.day_data.wf(),
        ensures
            final(self)@ == old(self)@.delete_visual_selection(),
            final(self)@.day_data.wf(),
            old(self)@.wf() ==> final(self)@.wf(),
    {
        self.save_snapshot();
        let count = self.day_data.len();
        let low = if self.visual_start <= self.visual_end {
            self.visual_start
        } else {
            self.visual_end
        };
        let high = if self.visual_start <= self.visual_end {
            self.visual_end
        } else {
            self.visual_start
        };
        let from = if low < count {
            low
        } else {
            count
        };
        let to = if high < count {
            high + 1
        } else {
            count
        };
        let ghost records = self@.day_data.records;
        let mut ids_to_delete: Vec<u32> = Vec::new();
        let mut i: usize = from;
        while i < to
            invariant
                from <= i <= to <= count,
                count == records.len(),
                self@.day_data.records == records,
                ids_to_delete@.len() == i - from,
                forall|k: int|
                    0 <= k < ids_to_delete@.len() ==> #[trigger] ids_to_delete@[k] == records[from
                        + k].id,
            decreases to - i,
        {
            if let Some(record) = self.day_data.record_at(i) {
                ids_to_delete.push(record.id);
            }
            i += 1;
        }
        let mut done: usize = 0;
        assert(self@.day_data.records =~= records.subrange(0, from as int) + records.subrange(
            from as int,
            records.len() as int,
        ));
        while done < ids_to_delete.len()
            invariant
                0 <= done <= ids_to_delete@.len(),
                from <= to <= records.len(),
                ids_to_delete@.len() == to - from,
                forall|k: int|
                    0 <= k < ids_to_delete@.len() ==> #[trigger] ids_to_delete@[k] == records[from
                        + k].id,
                self@.day_data.wf(),
                self@.day_data.last_id == old(self)@.day_data.last_id,
                self@.day_data.records == records.subrange(0, from as int) + records.subrange(
                    from + done,
                    records.len() as int,
                ),
                self@ == (AppStateView { day_data: self@.day_data, ..old(self)@.snapshot() }),
                old(self)@.wf() ==> self@.wf(),
            decreases ids_to_delete@.len() - done,
        {
            let id = ids_to_delete[done];
            proof {
                assert(self@.day_data.records[from as int] == records[from + done]);
                lemma_index_of_own_id(self@.day_data, from as int);
            }
            let _ = self.day_data.remove_record(id);
            assert(self@.day_data.records =~= records.subrange(0, from as int) + records.subrange(
                from + done + 1,
                records.len() as int,
            ));
            done += 1;
        }
        self.clamp_selection();
        self.exit_visual_mode();
    }

    /// Pushes the store as it is now onto the history.
    fn save_snapshot(&mut self)
        ensures
            final(self)@ == old(self)@.snapshot(),
            old(self)@.wf() ==> final(self)@.wf(),
    {
        proof {
            if self@.wf() {
                lemma_push_keeps_wf(self@.history, self@.day_data);
            }
        }
        self.history.push(self.day_data.clone());
    }

    /// Goes back to the store as it was before the last change, and brings
    /// the selection back into the list. Does nothing where there is no
    /// snapshot to go back to.
    pub fn undo(&mut self)
        ensures
            final(self)@ == old(self)@.undo(),
            old(self)@.wf() ==> final(self)@.wf(),
    {
        proof {
            if self@.wf() {
                lemma_step_keeps_wf(self@.history, self@.day_data);
            }
        }
        if let Some(previous_state) = self.history.undo(self.day_data.clone()) {
            self.day_data = previous_state;
            self.clamp_selection();
        }
    }

    /// Goes forward to the store as it was before the last undo, and brings
    /// the selection back into the list. Does nothing where there is nothing
    /// to redo.
    pub fn redo(&mut self)
        ensures
            final(self)@ == old(self)@.redo(),
            old(self)@.wf() ==> final(self)@.wf(),
    {
        proof {
            if self@.wf() {
                lemma_step_keeps_wf(self@.history, self@.day_data);
            }
        }
        if let Some(next_state) = self.history.redo(self.day_data.clone()) {
            self.day_data = next_state;
            self.clamp_selection();
        }
    }

    /// Tells whether there is a change to undo.
    pub fn can_undo(&self) -> (r: bool)
        ensures
            r == self@.can_undo(),
    {
        self.history.can_undo()
    }

    /// Tells whether there is a change to redo.
    pub fn can_redo(&self) -> (r: bool)
        ensures
            r == self@.can_redo(),
    {
        self.history.can_redo()
    }

    /// Opens the command palette with an empty query.
    pub fn open_command_palette(&mut self)
        ensures
            final(self)@ == old(self)@.open_command_palette(),
    {
        self.mode = AppMode::CommandPalette;
        self.command_palette_input = String::new();
        self.command_palette_selected = 0;
    }

    /// Closes the command palette and goes back to browsing.
    pub fn close_command_palette(&mut self)
        ensures
            final(self)@ == old(self)@.close_command_palette(),
    {
        self.mode = AppMode::Browse;
        self.command_palette_input = String::new();
        self.command_palette_selected = 0;
    }

    /// Appends a character to the query; the highlight goes back to the top.
    pub fn handle_command_palette_char(&mut self, c: char)
        ensures
            final(self)@ == old(self)@.handle_command_palette_char(c),
    {
        self.command_palette_input.push(c);
        self.command_palette_selected = 0;
    }

    /// Takes the last character off the query; the highlight goes back to the top.
    pub fn handle_command_palette_backspace(&mut self)
        ensures
            final(self)@ == old(self)@.handle_command_palette_backspace(),
    {
        let _ = self.command_palette_input.pop();
        self.command_palette_selected = 0;
    }

    /// Moves the highlight one command up.
    pub fn move_command_palette_up(&mut self)
        ensures
            final(self)@ == old(self)@.move_command_palette_up(),
    {
        if self.command_palette_selected > 0 {
            self.command_palette_selected -= 1;
        }
    }

    /// Moves the highlight one command down, within a list of `filtered_count` commands.
    pub fn move_command_palette_down(&mut self, filtered_count: usize)
        ensures
            final(self)@ == old(self)@.move_command_palette_down(filtered_count as nat),
    {
        if filtered_count > 0 && self.command_palette_selected < filtered_count - 1 {
            self.command_palette_selected += 1;
        }
    }

    /// The commands that the palette shows for the query, each with its
    /// place in the registry and its score: all of them in registry order
    /// with score 0 while the query is empty, else those that the query
    /// matches, the higher score first and equal scores in registry order.
    #[verifier::loop_isolation(false)]
    pub fn get_filtered_commands(&self) -> (r: Vec<(usize, i64, &Command)>)
        requires
            self@.commands_searchable(),
        ensures
            r@.len() == self@.filtered_commands().len(),
            forall|k: int|
                0 <= k < r@.len() ==> {
                    &&& ((#[trigger] r@[k]).0, r@[k].1) == self@.filtered_commands()[k]
                    &&& r@[k].0 < self.available_commands@.len()
                    &&& *r@[k].2 == self.available_commands@[r@[k].0 as int]
                },
    {
        let query = self.command_palette_input.as_str();
        let count = self.available_commands.len();
        let mut out: Vec<(usize, i64, &Command)> = Vec::new();
        if query.is_empty() {
            let mut i: usize = 0;
            while i < count
                invariant
                    0 <= i <= count,
                    out@.len() == i,
                    forall|k: int|
                        0 <= k < i ==> (#[trigger] out@[k]).0 == k && out@[k].1 == 0
                            && *out@[k].2 == self.available_commands@[k],
                decreases count - i,
            {
                out.push((i, 0i64, &self.available_commands[i]));
                i += 1;
            }
            return out;
        }
        let mut scores: Vec<Option<i64>> = Vec::new();
        let mut i: usize = 0;
        while i < count
            invariant
                0 <= i <= count,
                scores@.len() == i,
                forall|k: int| 0 <= k < i ==> #[trigger] scores@[k] == self@.command_scores()[k],
            decreases count - i,
        {
            let command = &self.available_commands[i];
            assert(self@.available_commands[i as int] == command@);
            scores.push(command_score(command.key, command.description, query));
            i += 1;
        }
        assert(scores@ =~= self@.command_scores());
        let ranked = rank_matches(&scores);
        let mut k: usize = 0;
        while k < ranked.len()
            invariant
                0 <= k <= ranked.len(),
                out@.len() == k,
                forall|j: int|
                    0 <= j < k ==> ((#[trigger] out@[j]).0, out@[j].1) == ranked@[j] && out@[j].0
                        < count && *out@[j].2 == self.available_commands@[out@[j].0 as int],
            decreases ranked.len() - k,
        {
            let found = ranked[k];
            out.push((found.0, found.1, &self.available_commands[found.0]));
            k += 1;
        }
        out
    }

    /// Closes the palette and hands back the action of the highlighted
    /// command, for the caller to carry out. Does nothing where the highlight
    /// is on no command.
    pub fn execute_selected_command(&mut self) -> (r: Option<CommandAction>)
        requires
            old(self)@.commands_searchable(),
        ensures
            r == old(self)@.selected_action(),
            final(self)@ == old(self)@.execute_selected_command(),
    {
        let filtered = self.get_filtered_commands();
        let action = if self.command_palette_selected < filtered.len() {
            Some(filtered[self.command_palette_selected].2.action)
        } else {
            None
        };
        if action.is_some() {
            self.close_command_palette();
        }
        action
    }
}

} // verus!
