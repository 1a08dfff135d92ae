//! The editor as a state machine over mathematical values: what each
//! operation of the editor makes of a state.

use crate::models::day_data::{insertion_index, placed, DayDataView};
use crate::models::time_point::{is_digit, parse_time, time_at, TimePoint, MINUTES_PER_DAY};
use crate::models::work_record::RecordView;
use crate::text::{trimmed, without_last};
use crate::ui::app_state::{AppMode, CommandAction, EditField};
use crate::ui::history::HistoryView;
use crate::ui::palette::{
    ranking, search_text_of, skim_score, unranked, Match, MAX_SEARCH_TEXT_LEN,
};
use vstd::prelude::*;

verus! {

/// How many digits a time field takes.
pub const TIME_SLOTS: usize = 4;

/// A command of the palette as a mathematical value.
#[verifier::ext_equal]
pub struct CommandView {
    pub key: Seq<char>,
    pub description: Seq<char>,
    pub action: CommandAction,
}

/// The editor's state as a mathematical value.
#[verifier::ext_equal]
pub struct AppStateView {
    pub day_data: DayDataView,
    pub mode: AppMode,
    pub selected_index: nat,
    pub edit_field: EditField,
    pub input_buffer: Seq<char>,
    pub time_cursor: nat,
    pub should_quit: bool,
    pub visual_start: nat,
    pub visual_end: nat,
    pub command_palette_input: Seq<char>,
    pub command_palette_selected: nat,
    pub available_commands: Seq<CommandView>,
    pub history: HistoryView,
}

/// What a save answers when the name is blank.
pub open spec fn name_empty_message() -> Seq<char> {
    "Name cannot be empty"@
}

/// What a save answers when the start field does not hold a time.
pub open spec fn invalid_start_message() -> Seq<char> {
    "Invalid start time format (use HH:MM)"@
}

/// What a save answers when the end field does not hold a time.
pub open spec fn invalid_end_message() -> Seq<char> {
    "Invalid end time format (use HH:MM)"@
}

/// The name that a new task gets.
pub open spec fn new_task_name() -> Seq<char> {
    "New Task"@
}

/// The name that a new break gets.
pub open spec fn break_name() -> Seq<char> {
    "Break"@
}

/// The place in an `HH:MM` buffer of the digit that the cursor stands on:
/// the colon in the middle is passed over.
pub open spec fn slot_position(cursor: nat) -> int {
    if cursor < 2 {
        cursor as int
    } else {
        cursor as int + 1
    }
}

/// An index brought back into a list of `count` items: the last item where
/// it was beyond, the first place where the list is empty.
pub open spec fn clamped(index: nat, count: nat) -> nat {
    if index < count {
        index
    } else if count == 0 {
        0
    } else {
        (count - 1) as nat
    }
}

/// The text by which a field of a record is edited.
pub open spec fn field_text(r: RecordView, field: EditField) -> Seq<char> {
    match field {
        EditField::Name => r.name,
        EditField::Start => r.start.text(),
        EditField::End => r.end.text(),
        EditField::Description => r.description,
    }
}

/// The records outside the places `low` to `high`, both included.
pub open spec fn without_range(records: Seq<RecordView>, low: nat, high: nat) -> Seq<RecordView> {
    let from = if low < records.len() {
        low as int
    } else {
        records.len() as int
    };
    let to = if high < records.len() {
        high as int + 1
    } else {
        records.len() as int
    };
    records.subrange(0, from) + records.subrange(to, records.len() as int)
}

impl AppStateView {
    /// The state that the editor starts in.
    pub open spec fn initial(day_data: DayDataView, commands: Seq<CommandView>) -> Self {
        AppStateView {
            day_data,
            mode: AppMode::Browse,
            selected_index: 0,
            edit_field: EditField::Name,
            input_buffer: Seq::empty(),
            time_cursor: 0,
            should_quit: false,
            visual_start: 0,
            visual_end: 0,
            command_palette_input: Seq::empty(),
            command_palette_selected: 0,
            available_commands: commands,
            history: HistoryView::empty(),
        }
    }

    /// The store and every snapshot are well formed, the history is within
    /// its depth, and every command's search text is short enough to be matched.
    pub open spec fn wf(self) -> bool {
        &&& self.day_data.wf()
        &&& self.history.wf()
        &&& self.history.snapshots_wf()
        &&& self.commands_searchable()
    }

    /// Every command's search text is short enough to be matched.
    pub open spec fn commands_searchable(self) -> bool {
        forall|i: int|
            0 <= i < self.available_commands.len() ==> search_text_of(
                (#[trigger] self.available_commands[i]).key,
                self.available_commands[i].description,
            ).len() <= MAX_SEARCH_TEXT_LEN
    }

    /// The selection points at a record, or at the first place of an empty list.
    pub open spec fn selection_in_bounds(self) -> bool {
        self.selected_index < self.day_data.records.len() || self.selected_index == 0
    }

    /// The record that the selection points at.
    pub open spec fn selected_record(self) -> Option<RecordView> {
        if self.selected_index < self.day_data.records.len() {
            Some(self.day_data.records[self.selected_index as int])
        } else {
            None
        }
    }

    /// The state with the store as it is now pushed onto the history.
    pub open spec fn snapshot(self) -> Self {
        AppStateView { history: self.history.pushed(self.day_data), ..self }
    }

    /// The state after the selection moved one record up. In visual mode the
    /// end of the visual selection follows the selection.
    pub open spec fn move_selection_up(self) -> Self {
        let selected = if self.selected_index > 0 {
            (self.selected_index - 1) as nat
        } else {
            self.selected_index
        };
        AppStateView {
            selected_index: selected,
            visual_end: if self.mode == AppMode::Visual {
                selected
            } else {
                self.visual_end
            },
            ..self
        }
    }

    /// The state after the selection moved one record down. In visual mode
    /// the end of the visual selection follows the selection.
    pub open spec fn move_selection_down(self) -> Self {
        let selected = if self.selected_index + 1 < self.day_data.records.len() {
            self.selected_index + 1
        } else {
            self.selected_index
        };
        AppStateView {
            selected_index: selected,
            visual_end: if self.mode == AppMode::Visual {
                selected
            } else {
                self.visual_end
            },
            ..self
        }
    }

    /// The state after edit mode was entered: the buffer holds the text of
    /// the field in focus and the cursor stands on the first slot. Nothing
    /// changes where no record is selected.
    pub open spec fn enter_edit_mode(self) -> Self {
        match self.selected_record() {
            Some(r) => AppStateView {
                mode: AppMode::Edit,
                input_buffer: field_text(r, self.edit_field),
                time_cursor: 0,
                ..self
            },
            None => self,
        }
    }

    /// The state after a change of the name was started: edit mode with an
    /// empty buffer. Nothing changes unless the name field is in focus and a
    /// record is selected.
    pub open spec fn change_task_name(self) -> Self {
        if self.edit_field == EditField::Name && self.selected_record() is Some {
            AppStateView { mode: AppMode::Edit, input_buffer: Seq::empty(), time_cursor: 0, ..self }
        } else {
            self
        }
    }

    /// The state after edit mode was left: browsing, the buffer empty, the
    /// name field in focus, the cursor on the first slot.
    pub open spec fn exit_edit_mode(self) -> Self {
        AppStateView {
            mode: AppMode::Browse,
            input_buffer: Seq::empty(),
            edit_field: EditField::Name,
            time_cursor: 0,
            ..self
        }
    }

    /// The state after the focus moved to the next field: the buffer holds that
    /// field's text. Nothing changes where no record is selected.
    pub open spec fn next_field(self) -> Self {
        match self.selected_record() {
            Some(r) => AppStateView {
                edit_field: self.edit_field.next(),
                input_buffer: field_text(r, self.edit_field.next()),
                time_cursor: 0,
                ..self
            },
            None => self,
        }
    }

    /// The state after the focus moved one field to the left.
    pub open spec fn move_field_left(self) -> Self {
        AppStateView { edit_field: self.edit_field.previous(), ..self }
    }

    /// The state after the focus moved one field to the right.
    pub open spec fn move_field_right(self) -> Self {
        AppStateView { edit_field: self.edit_field.next(), ..self }
    }

    /// Whether a character typed into a time field is taken: it is a digit,
    /// the buffer has the five characters of `HH:MM`, and a slot is left.
    pub open spec fn takes_digit(self, c: char) -> bool {
        is_digit(c) && self.input_buffer.len() == 5 && self.time_cursor < TIME_SLOTS
    }

    /// Whether a character typed into a time field commits the field: it is
    /// taken as the fourth digit, and the buffer with it in place is saved
    /// without refusal.
    pub open spec fn commits_time(self, c: char) -> bool {
        &&& self.edit_field.is_time()
        &&& self.takes_digit(c)
        &&& self.time_cursor + 1 >= TIME_SLOTS
        &&& self.digit_typed(c).save_error() is None
    }

    /// The state after a digit went into the slot under the cursor.
    pub open spec fn digit_typed(self, c: char) -> Self {
        AppStateView {
            input_buffer: self.input_buffer.update(slot_position(self.time_cursor), c),
            time_cursor: self.time_cursor + 1,
            ..self
        }
    }

    /// The message with which a save of the field under edit is refused, if it is.
    pub open spec fn save_error(self) -> Option<Seq<char>> {
        if self.selected_record() is None {
            None
        } else {
            match self.edit_field {
                EditField::Name => if trimmed(self.input_buffer).len() == 0 {
                    Some(name_empty_message())
                } else {
                    None
                },
                EditField::Start => if parse_time(self.input_buffer) is Err {
                    Some(invalid_start_message())
                } else {
                    None
                },
                EditField::End => if parse_time(self.input_buffer) is Err {
                    Some(invalid_end_message())
                } else {
                    None
                },
                EditField::Description => None,
            }
        }
    }

    /// The store after the buffer went into the field under edit of the
    /// selected record, for a save that is not refused.
    pub open spec fn saved_day_data(self) -> DayDataView {
        match self.selected_record() {
            None => self.day_data,
            Some(r) => {
                let i = self.selected_index as int;
                match self.edit_field {
                    EditField::Name => self.day_data.replaced_at(
                        i,
                        r.with_name(trimmed(self.input_buffer)),
                    ),
                    EditField::Start => match parse_time(self.input_buffer) {
                        Ok(t) => self.day_data.moved_at(i, r.with_start(t)),
                        Err(_) => self.day_data,
                    },
                    EditField::End => match parse_time(self.input_buffer) {
                        Ok(t) => self.day_data.replaced_at(i, r.with_end(t)),
                        Err(_) => self.day_data,
                    },
                    EditField::Description => self.day_data.replaced_at(
                        i,
                        r.with_description(trimmed(self.input_buffer)),
                    ),
                }
            },
        }
    }

    /// The state after a try to save the field under edit: the store takes
    /// the buffer unless the save is refused.
    pub open spec fn save_current_field(self) -> Self {
        if self.save_error() is None {
            AppStateView { day_data: self.saved_day_data(), ..self }
        } else {
            self
        }
    }

    /// The state after a character was typed. A name or a description gets it
    /// appended. A time field takes a digit into the slot under the cursor;
    /// with the fourth digit a snapshot is taken, the field is saved and
    /// edit mode left, unless the buffer is then no time: then the digit
    /// stays typed, the history stays as it is, and no more happens.
    pub open spec fn handle_char_input(self, c: char) -> Self {
        if self.edit_field.is_time() {
            if self.takes_digit(c) {
                let typed = self.digit_typed(c);
                if typed.time_cursor >= TIME_SLOTS && typed.save_error() is None {
                    typed.snapshot().save_current_field().exit_edit_mode()
                } else {
                    typed
                }
            } else {
                self
            }
        } else {
            AppStateView { input_buffer: self.input_buffer.push(c), ..self }
        }
    }

    /// The state after a backspace. A name or a description loses its last
    /// character. A time field keeps its characters: the cursor steps back.
    pub open spec fn handle_backspace(self) -> Self {
        if self.edit_field.is_time() {
            AppStateView {
                time_cursor: if self.time_cursor > 0 {
                    (self.time_cursor - 1) as nat
                } else {
                    self.time_cursor
                },
                ..self
            }
        } else {
            AppStateView { input_buffer: without_last(self.input_buffer), ..self }
        }
    }

    /// The state after an edit was committed: a snapshot is taken, and unless
    /// the save is refused the field is saved and edit mode left.
    pub open spec fn save_edit(self) -> Self {
        let s = self.snapshot();
        if s.save_error() is None {
            s.save_current_field().exit_edit_mode()
        } else {
            s
        }
    }

    /// The times of a record that is added: it starts where the selected
    /// record ends and lasts `minutes`, but not beyond the last minute of the
    /// day; with no record selected it gets the fallback times.
    pub open spec fn new_record_times(
        self,
        minutes: int,
        fallback: (TimePoint, TimePoint),
    ) -> (TimePoint, TimePoint) {
        match self.selected_record() {
            Some(r) => {
                let end = if r.end.minutes() + minutes < MINUTES_PER_DAY {
                    r.end.minutes() + minutes
                } else {
                    MINUTES_PER_DAY - 1
                };
                (r.end, time_at(end))
            },
            None => fallback,
        }
    }

    /// The record that is added under `name`.
    pub open spec fn new_record(
        self,
        name: Seq<char>,
        minutes: int,
        fallback: (TimePoint, TimePoint),
    ) -> RecordView {
        let times = self.new_record_times(minutes, fallback);
        RecordView::fresh((self.day_data.last_id + 1) as u32, name, times.0, times.1)
    }

    /// The state after a record was added under `name`: the store as it was
    /// is on the history, the record has the next id and stands where its
    /// start puts it, and the selection is on it.
    pub open spec fn with_new_record(
        self,
        name: Seq<char>,
        minutes: int,
        fallback: (TimePoint, TimePoint),
    ) -> Self {
        let r = self.new_record(name, minutes, fallback);
        AppStateView {
            day_data: DayDataView { last_id: r.id, records: placed(self.day_data.records, r) },
            selected_index: insertion_index(self.day_data.records, r) as nat,
            ..self.snapshot()
        }
    }

    /// The state after a task was added: an hour behind the selected record,
    /// or from 09:00 to 17:00 where none is selected.
    pub open spec fn add_new_record(self) -> Self {
        self.with_new_record(
            new_task_name(),
            60,
            (TimePoint { hour: 9, minute: 0 }, TimePoint { hour: 17, minute: 0 }),
        )
    }

    /// The state after a break was added: a quarter of an hour behind the
    /// selected record, or from 12:00 to 12:15 where none is selected.
    pub open spec fn add_break(self) -> Self {
        self.with_new_record(
            break_name(),
            15,
            (TimePoint { hour: 12, minute: 0 }, TimePoint { hour: 12, minute: 15 }),
        )
    }

    /// The state after the selected record was deleted: a snapshot is taken,
    /// the record leaves the store, and the selection is brought back into
    /// the list. Where no record is selected only the snapshot is taken.
    pub open spec fn delete_selected_record(self) -> Self {
        if self.selected_index < self.day_data.records.len() {
            let day = self.day_data.removed_at(self.selected_index as int);
            AppStateView {
                day_data: day,
                selected_index: clamped(self.selected_index, day.records.len()),
                ..self.snapshot()
            }
        } else {
            self.snapshot()
        }
    }

    /// The state after the time `hour:minute` was put on the field under
    /// edit of the selected record: only a start or an end field takes it, and
    /// only if it is a time of the day.
    pub open spec fn set_time_on_field(self, hour: u8, minute: u8) -> Self {
        let t = TimePoint { hour, minute };
        match self.selected_record() {
            Some(r) => {
                let i = self.selected_index as int;
                let day = if !t.is_valid() {
                    self.day_data
                } else if self.edit_field == EditField::Start {
                    self.day_data.moved_at(i, r.with_start(t))
                } else if self.edit_field == EditField::End {
                    self.day_data.replaced_at(i, r.with_end(t))
                } else {
                    self.day_data
                };
                AppStateView { day_data: day, ..self.snapshot() }
            },
            None => self.snapshot(),
        }
    }

    /// The state after a visual selection was started at the selected record.
    pub open spec fn enter_visual_mode(self) -> Self {
        AppStateView {
            mode: AppMode::Visual,
            visual_start: self.selected_index,
            visual_end: self.selected_index,
            ..self
        }
    }

    /// The state after visual mode was left.
    pub open spec fn exit_visual_mode(self) -> Self {
        AppStateView { mode: AppMode::Browse, ..self }
    }

    /// The lower end of the visual selection.
    pub open spec fn visual_low(self) -> nat {
        if self.visual_start <= self.visual_end {
            self.visual_start
        } else {
            self.visual_end
        }
    }

    /// The upper end of the visual selection.
    pub open spec fn visual_high(self) -> nat {
        if self.visual_start <= self.visual_end {
            self.visual_end
        } else {
            self.visual_start
        }
    }

    /// Whether the place `index` lies in the visual selection, both ends included.
    pub open spec fn is_in_visual_selection(self, index: nat) -> bool {
        self.visual_low() <= index <= self.visual_high()
    }

    /// The state after the visual selection was deleted: one snapshot is
    /// taken, the records at the places of the selection leave the store,
    /// the selection is brought back into the list, and the editor browses.
    pub open spec fn delete_visual_selection(self) -> Self {
        let records = without_range(self.day_data.records, self.visual_low(), self.visual_high());
        AppStateView {
            day_data: DayDataView { records, ..self.day_data },
            selected_index: clamped(self.selected_index, records.len()),
            mode: AppMode::Browse,
            ..self.snapshot()
        }
    }

    /// The state after an undo: the store is the last snapshot, the store as
    /// it was can be redone, and the selection is brought back into the list.
    /// Nothing changes where there is no snapshot.
    pub open spec fn undo(self) -> Self {
        match self.history.undo_result() {
            Some(previous) => AppStateView {
                day_data: previous,
                selected_index: clamped(self.selected_index, previous.records.len()),
                history: self.history.undone(self.day_data),
                ..self
            },
            None => self,
        }
    }

    /// The state after a redo: the store is the one that the last undo left,
    /// the store as it was can be undone again, and the selection is brought
    /// back into the list. Nothing changes where there is nothing to redo.
    pub open spec fn redo(self) -> Self {
        match self.history.redo_result() {
            Some(next) => AppStateView {
                day_data: next,
                selected_index: clamped(self.selected_index, next.records.len()),
                history: self.history.redone(self.day_data),
                ..self
            },
            None => self,
        }
    }

    /// Whether there is a change to undo.
    pub open spec fn can_undo(self) -> bool {
        self.history.can_undo()
    }

    /// Whether there is a change to redo.
    pub open spec fn can_redo(self) -> bool {
        self.history.can_redo()
    }

    /// The state after the palette was opened: its query empty, its highlight
    /// on the first command.
    pub open spec fn open_command_palette(self) -> Self {
        AppStateView {
            mode: AppMode::CommandPalette,
            command_palette_input: Seq::empty(),
            command_palette_selected: 0,
            ..self
        }
    }

    /// The state after the palette was closed: browsing, the query empty, the
    /// highlight on the first command.
    pub open spec fn close_command_palette(self) -> Self {
        AppStateView {
            mode: AppMode::Browse,
            command_palette_input: Seq::empty(),
            command_palette_selected: 0,
            ..self
        }
    }

    /// The state after a character was typed into the query: the highlight
    /// goes back to the first command.
    pub open spec fn handle_command_palette_char(self, c: char) -> Self {
        AppStateView {
            command_palette_input: self.command_palette_input.push(c),
            command_palette_selected: 0,
            ..self
        }
    }

    /// The state after a backspace in the query: the highlight goes back to
    /// the first command.
    pub open spec fn handle_command_palette_backspace(self) -> Self {
        AppStateView {
            command_palette_input: without_last(self.command_palette_input),
            command_palette_selected: 0,
            ..self
        }
    }

    /// The state after the highlight moved one command up.
    pub open spec fn move_command_palette_up(self) -> Self {
        AppStateView {
            command_palette_selected: if self.command_palette_selected > 0 {
                (self.command_palette_selected - 1) as nat
            } else {
                self.command_palette_selected
            },
            ..self
        }
    }

    /// The state after the highlight moved one command down, within a list of
    /// `filtered_count` commands.
    pub open spec fn move_command_palette_down(self, filtered_count: nat) -> Self {
        AppStateView {
            command_palette_selected: if self.command_palette_selected + 1 < filtered_count {
                self.command_palette_selected + 1
            } else {
                self.command_palette_selected
            },
            ..self
        }
    }

    /// For each command of the registry, its score for the query, or nothing
    /// where the query does not match it.
    pub open spec fn command_scores(self) -> Seq<Option<i64>> {
        Seq::new(
            self.available_commands.len(),
            |i: int|
                skim_score(
                    search_text_of(
                        self.available_commands[i].key,
                        self.available_commands[i].description,
                    ),
                    self.command_palette_input,
                ),
        )
    }

    /// The commands that the palette shows, as places in the registry with
    /// their scores: all of them in registry order with score 0 while the query
    /// is empty, else the ranking of those that the query matches.
    pub open spec fn filtered_commands(self) -> Seq<Match> {
        if self.command_palette_input.len() == 0 {
            unranked(self.available_commands.len())
        } else {
            ranking(self.command_scores())
        }
    }

    /// The action of the command that is highlighted in the palette.
    pub open spec fn selected_action(self) -> Option<CommandAction> {
        let shown = self.filtered_commands();
        if self.command_palette_selected < shown.len() {
            Some(self.available_commands[shown[self.command_palette_selected as int].0 as int].action)
        } else {
            None
        }
    }

    /// The state after the highlighted command was taken: the palette is
    /// closed. Nothing changes where the highlight is on no command.
    pub open spec fn execute_selected_command(self) -> Self {
        if self.selected_action() is Some {
            self.close_command_palette()
        } else {
            self
        }
    }
}

} // verus!
