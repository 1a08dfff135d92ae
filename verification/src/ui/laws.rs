//! What holds of the editor's state machine whatever state it is in.

use crate::models::by_id::lemma_by_id_of_placed;
use crate::models::day_data::{
    comes_before, insertion_index, lemma_index_of_own_id, lemma_insertion_index_is,
    lemma_insertion_index_splits, lemma_placed_wf, lemma_removed_at_wf, DayDataView,
};
use crate::models::time_point::{
    is_digit, lemma_text_parses_back, parse_time, TimePoint, MINUTES_PER_DAY,
};
use crate::models::work_record::RecordView;
use crate::text::{is_white_space, lemma_blank_trims_to_nothing, trimmed};
use crate::ui::app_state::{AppMode, EditField};
use crate::ui::history::{
    lemma_push_clears_redo, lemma_push_keeps_wf, lemma_step_keeps_wf, lemma_undo_then_redo,
};
use crate::ui::palette::lemma_no_match_ranks_nothing;
use crate::ui::transitions::{
    break_name, name_empty_message, new_task_name, slot_position, without_range, AppStateView,
    TIME_SLOTS,
};
use vstd::prelude::*;

verus! {

impl AppStateView {
    /// One of the operations that change the store took `self` to `after`:
    /// a committed edit, whether by a save or by the fourth digit of a time
    /// field, an added or a deleted record, or a time put on a field. Each
    /// of them takes a snapshot first.
    pub open spec fn changed_to(self, after: AppStateView) -> bool {
        ||| after == self.save_edit()
        ||| exists|c: char| self.commits_time(c) && after == #[trigger] self.handle_char_input(c)
        ||| after == self.add_new_record()
        ||| after == self.add_break()
        ||| after == self.delete_selected_record()
        ||| after == self.delete_visual_selection()
        ||| exists|hour: u8, minute: u8| after == #[trigger] self.set_time_on_field(hour, minute)
    }

    /// One operation other than undo and redo took `self` to `after`, with
    /// `c` the character typed, `hour` and `minute` the time put on a field,
    /// and `count` the length of the list that the palette shows.
    pub open spec fn stepped_to(
        self,
        after: AppStateView,
        c: char,
        hour: u8,
        minute: u8,
        count: nat,
    ) -> bool {
        ||| after == self.handle_char_input(c)
        ||| after == self.handle_backspace()
        ||| after == self.save_edit()
        ||| after == self.add_new_record()
        ||| after == self.add_break()
        ||| after == self.delete_selected_record()
        ||| after == self.delete_visual_selection()
        ||| after == self.set_time_on_field(hour, minute)
        ||| after == self.move_selection_up()
        ||| after == self.move_selection_down()
        ||| after == self.enter_edit_mode()
        ||| after == self.change_task_name()
        ||| after == self.exit_edit_mode()
        ||| after == self.next_field()
        ||| after == self.move_field_left()
        ||| after == self.move_field_right()
        ||| after == self.enter_visual_mode()
        ||| after == self.exit_visual_mode()
        ||| after == self.open_command_palette()
        ||| after == self.close_command_palette()
        ||| after == self.handle_command_palette_char(c)
        ||| after == self.handle_command_palette_backspace()
        ||| after == self.move_command_palette_up()
        ||| after == self.move_command_palette_down(count)
        ||| after == self.execute_selected_command()
    }

    /// The cursor of the time field stands on a slot or just behind the last.
    pub open spec fn cursor_in_bounds(self) -> bool {
        self.time_cursor <= TIME_SLOTS
    }
}

/// An undo followed by a redo leaves the store and the history as they were.
pub proof fn lemma_undo_then_redo_restores(s: AppStateView)
    requires
        s.can_undo(),
    ensures
        s.undo().redo().day_data == s.day_data,
        s.undo().redo().history == s.history,
        s.undo().can_redo(),
{
    lemma_undo_then_redo(s.history, s.day_data);
}

/// A snapshot leaves nothing to redo.
pub proof fn lemma_snapshot_clears_redo(s: AppStateView)
    ensures
        !s.snapshot().can_redo(),
        s.snapshot().redo() == s.snapshot(),
{
    lemma_push_clears_redo(s.history, s.day_data, s.day_data);
}

/// After an operation that changes the store there is nothing to redo: a
/// redo then changes nothing.
pub proof fn lemma_change_clears_redo(s: AppStateView, after: AppStateView)
    requires
        s.changed_to(after),
    ensures
        !after.can_redo(),
        after.redo() == after,
{
    lemma_snapshot_clears_redo(s);
    assert(after.history == s.snapshot().history);
}

/// One undo after an operation that changes the store brings the store back
/// as it was before the operation, whatever the operation took out or put in.
pub proof fn lemma_undo_reverts_change(s: AppStateView, after: AppStateView)
    requires
        s.changed_to(after),
    ensures
        after.can_undo(),
        after.undo().day_data == s.day_data,
{
    assert(after.history == s.snapshot().history);
    assert(s.snapshot().history.undo.last() == s.day_data);
}

/// No operation changes the store without a snapshot of the store as it
/// was: whatever typing, saving, adding, deleting or time-stamping makes of
/// the store, the store from before is then on top of the undo stack. The
/// operations that only move the selection, the focus, the mode or the
/// palette leave store and history alone.
pub proof fn lemma_every_change_is_snapshotted(
    s: AppStateView,
    after: AppStateView,
    c: char,
    hour: u8,
    minute: u8,
    count: nat,
)
    requires
        s.stepped_to(after, c, hour, minute, count),
    ensures
        after.day_data != s.day_data ==> after.history == s.history.pushed(s.day_data)
            && after.can_undo() && after.undo().day_data == s.day_data,
        after.history == s.history || after.history == s.history.pushed(s.day_data),
{
    assert(s.snapshot().history.undo.last() == s.day_data);
}

/// In a time field a character that is no digit changes nothing: the buffer
/// stays and the cursor does not move.
pub proof fn lemma_non_digit_ignored_in_time_field(s: AppStateView, c: char)
    requires
        s.edit_field.is_time(),
        !is_digit(c),
    ensures
        s.handle_char_input(c) == s,
{
}

/// In a time field a digit goes into the slot under the cursor and into no
/// other place: the buffer keeps its length and its colon.
pub proof fn lemma_digit_overwrites_slot(s: AppStateView, c: char)
    requires
        s.edit_field.is_time(),
        s.takes_digit(c),
    ensures
        s.digit_typed(c).input_buffer.len() == 5,
        s.digit_typed(c).input_buffer[2] == s.input_buffer[2],
        s.digit_typed(c).time_cursor == s.time_cursor + 1,
        forall|i: int|
            0 <= i < 5 ==> #[trigger] s.digit_typed(c).input_buffer[i] == (if i
                == slot_position(s.time_cursor) {
                c
            } else {
                s.input_buffer[i]
            }),
{
}

/// Four digits typed into a time field, from the first slot on, fill the
/// four slots in order. If the buffer is then a time, a snapshot of the
/// store is taken, the field of the selected record takes the time, its
/// duration is recomputed, and the editor leaves edit mode; if not, the
/// digits stay in the buffer, the cursor stands behind the last slot, and
/// nothing else changes, the history included.
pub proof fn lemma_four_digits_fill_the_slots(s: AppStateView, d: Seq<char>)
    requires
        s.edit_field.is_time(),
        s.input_buffer.len() == 5,
        s.time_cursor == 0,
        d.len() == 4,
        forall|k: int| 0 <= k < 4 ==> is_digit(#[trigger] d[k]),
    ensures
        ({
            let colon = s.input_buffer[2];
            let three = s.handle_char_input(d[0]).handle_char_input(d[1]).handle_char_input(d[2]);
            let four = three.handle_char_input(d[3]);
            let typed = seq![d[0], d[1], colon, d[2], d[3]];
            let full = AppStateView { input_buffer: typed, time_cursor: 4, ..s };
            &&& three == (AppStateView {
                input_buffer: seq![d[0], d[1], colon, d[2], s.input_buffer[4]],
                time_cursor: 3,
                ..s
            })
            &&& full.save_error() is Some ==> four == full
            &&& full.save_error() is None ==> four == (AppStateView {
                day_data: full.saved_day_data(),
                history: s.history.pushed(s.day_data),
                ..s.exit_edit_mode()
            })
        }),
{
    let colon = s.input_buffer[2];
    let one = s.handle_char_input(d[0]);
    assert(s.takes_digit(d[0]));
    assert(one.input_buffer =~= seq![d[0], s.input_buffer[1], colon, s.input_buffer[3], s.input_buffer[4]]);
    let two = one.handle_char_input(d[1]);
    assert(one.takes_digit(d[1]));
    assert(two.input_buffer =~= seq![d[0], d[1], colon, s.input_buffer[3], s.input_buffer[4]]);
    let three = two.handle_char_input(d[2]);
    assert(two.takes_digit(d[2]));
    assert(three.input_buffer =~= seq![d[0], d[1], colon, d[2], s.input_buffer[4]]);
    assert(three.takes_digit(d[3]));
    let typed = three.digit_typed(d[3]);
    assert(typed.input_buffer =~= seq![d[0], d[1], colon, d[2], d[3]]);
}

/// A save of a name that is empty or all white space is refused: the store
/// stays as it is, and so do the mode and the buffer.
pub proof fn lemma_blank_name_is_refused(s: AppStateView)
    requires
        s.edit_field == EditField::Name,
        s.selected_record() is Some,
        forall|i: int| 0 <= i < s.input_buffer.len() ==> is_white_space(#[trigger] s.input_buffer[i]),
    ensures
        s.save_error() == Some(name_empty_message()),
        s.save_edit().day_data == s.day_data,
        s.save_edit().mode == s.mode,
        s.save_edit().input_buffer == s.input_buffer,
        s.save_edit().edit_field == s.edit_field,
{
    lemma_blank_trims_to_nothing(s.input_buffer);
}

/// A refused save changes nothing but the history, which has the snapshot.
pub proof fn lemma_refused_save_keeps_state(s: AppStateView)
    requires
        s.save_error() is Some,
    ensures
        s.save_edit() == s.snapshot(),
        s.save_current_field() == s,
{
}

/// An added record has the next id, which no record of the store had. It
/// starts where the selected record ends and lasts the minutes asked for,
/// but not beyond the last minute of the day; with no record selected it
/// has the fallback times. Afterwards the selection is on it, at its place
/// in the sorted view, and every other record is in the store as before.
pub proof fn lemma_added_record_is_selected(
    s: AppStateView,
    name: Seq<char>,
    minutes: int,
    fallback: (TimePoint, TimePoint),
)
    requires
        s.day_data.wf(),
        s.day_data.last_id < u32::MAX,
        0 <= minutes <= MINUTES_PER_DAY,
        fallback.0.is_valid(),
        fallback.1.is_valid(),
    ensures
        ({
            let after = s.with_new_record(name, minutes, fallback);
            let added = s.new_record(name, minutes, fallback);
            &&& after.selected_record() == Some(added)
            &&& after.day_data.contains_id(added.id)
            &&& after.selected_index == after.day_data.index_of(added.id)
            &&& !s.day_data.contains_id(added.id)
            &&& after.day_data.by_id() == s.day_data.by_id().insert(added.id, added)
            &&& after.day_data.records.len() == s.day_data.records.len() + 1
            &&& after.day_data.wf()
            &&& added.wf()
            &&& added.id == s.day_data.last_id + 1
            &&& added.name == name
            &&& s.selected_record() matches Some(before) ==> added.start == before.end
                && added.end.minutes() == (if before.end.minutes() + minutes < MINUTES_PER_DAY {
                before.end.minutes() + minutes
            } else {
                MINUTES_PER_DAY - 1
            })
            &&& s.selected_record() is None ==> added.start == fallback.0 && added.end
                == fallback.1
        }),
{
    let r = s.new_record(name, minutes, fallback);
    if s.selected_record() is Some {
        assert(s.day_data.records[s.selected_index as int].wf());
    }
    lemma_fresh_id_unused(s.day_data);
    let counted = s.day_data.with_next_id();
    lemma_placed_wf(counted, r);
    lemma_by_id_of_placed(counted, r);
    assert(counted.by_id() =~= s.day_data.by_id()) by {
        assert forall|id: u32| counted.contains_id(id) == s.day_data.contains_id(id) by {
            if counted.contains_id(id) {
                let i = counted.index_of(id);
                assert(s.day_data.records[i].id == id);
            }
            if s.day_data.contains_id(id) {
                let i = s.day_data.index_of(id);
                assert(counted.records[i].id == id);
            }
        }
        assert forall|id: u32| counted.contains_id(id) implies counted.records[counted.index_of(id)]
            == s.day_data.records[s.day_data.index_of(id)] by {
            let i = counted.index_of(id);
            lemma_index_of_own_id(s.day_data, i);
        }
    }
    let after = s.with_new_record(name, minutes, fallback);
    lemma_index_of_own_id(after.day_data, insertion_index(s.day_data.records, r));
}

/// An added task has an id that no record had, starts where the selected
/// record ends and lasts an hour, but not beyond the last minute of the
/// day, and the selection is on it.
pub proof fn lemma_new_record_follows_selection(s: AppStateView)
    requires
        s.day_data.wf(),
        s.day_data.last_id < u32::MAX,
        s.selected_record() is Some,
    ensures
        s.add_new_record().selected_record() is Some,
        ({
            let before = s.selected_record()->0;
            let added = s.add_new_record().selected_record()->0;
            &&& added.id == s.day_data.last_id + 1
            &&& !s.day_data.contains_id(added.id)
            &&& s.add_new_record().selected_index == s.add_new_record().day_data.index_of(
                added.id,
            )
            &&& added.name == new_task_name()
            &&& added.start == before.end
            &&& added.end.minutes() == (if before.end.minutes() + 60 < MINUTES_PER_DAY {
                before.end.minutes() + 60
            } else {
                MINUTES_PER_DAY - 1
            })
        }),
{
    lemma_added_record_is_selected(
        s,
        new_task_name(),
        60,
        (TimePoint { hour: 9, minute: 0 }, TimePoint { hour: 17, minute: 0 }),
    );
}

/// No record has the id that the counter hands out next.
pub proof fn lemma_fresh_id_unused(v: DayDataView)
    requires
        v.wf(),
        v.last_id < u32::MAX,
    ensures
        !v.contains_id((v.last_id + 1) as u32),
        !v.with_next_id().contains_id((v.last_id + 1) as u32),
        v.with_next_id().wf(),
{
    assert forall|i: int| 0 <= i < v.records.len() implies (#[trigger] v.records[i]).id
        <= v.last_id by {}
}

/// A delete of the visual selection takes out the records at the places of
/// the selection and no others: what stood before the selection stays in
/// front, what stood behind it moves up.
pub proof fn lemma_visual_delete_takes_range(s: AppStateView)
    requires
        s.visual_high() < s.day_data.records.len(),
    ensures
        s.delete_visual_selection().day_data.records.len() == s.day_data.records.len() - (
        s.visual_high() - s.visual_low() + 1),
        forall|i: int|
            0 <= i < s.visual_low() ==> #[trigger] s.delete_visual_selection().day_data.records[i]
                == s.day_data.records[i],
        forall|i: int|
            s.visual_low() <= i < s.delete_visual_selection().day_data.records.len()
                ==> #[trigger] s.delete_visual_selection().day_data.records[i]
                == s.day_data.records[i + (s.visual_high() - s.visual_low() + 1)],
        s.delete_visual_selection().mode == AppMode::Browse,
{
}

/// Which end of the visual selection is the anchor makes no difference to
/// what lies in it.
pub proof fn lemma_visual_selection_ignores_direction(s: AppStateView, index: nat)
    ensures
        s.is_in_visual_selection(index) == (AppStateView {
            visual_start: s.visual_end,
            visual_end: s.visual_start,
            ..s
        }).is_in_visual_selection(index),
        s.is_in_visual_selection(index) <==> (s.visual_start <= index <= s.visual_end
            || s.visual_end <= index <= s.visual_start),
{
}

/// The highlight of the palette stays within the list that is shown, and
/// any change of the query puts it back on the first command.
pub proof fn lemma_highlight_stays_in_list(s: AppStateView, count: nat, c: char)
    requires
        s.command_palette_selected < count,
    ensures
        s.move_command_palette_up().command_palette_selected < count,
        s.move_command_palette_down(count).command_palette_selected < count,
        s.handle_command_palette_char(c).command_palette_selected == 0,
        s.handle_command_palette_backspace().command_palette_selected == 0,
        s.open_command_palette().command_palette_selected == 0,
{
}

/// With an empty query the palette shows every command, in registry order
/// and with score 0.
pub proof fn lemma_empty_query_shows_all(s: AppStateView)
    requires
        s.command_palette_input.len() == 0,
        s.available_commands.len() <= usize::MAX,
    ensures
        s.filtered_commands().len() == s.available_commands.len(),
        forall|i: int|
            0 <= i < s.available_commands.len() ==> (#[trigger] s.filtered_commands()[i]) == (
                i as usize,
                0i64,
            ),
{
}

/// With a query that matches no command the palette shows nothing, and
/// there is no command to carry out.
pub proof fn lemma_unmatched_query_shows_nothing(s: AppStateView)
    requires
        s.command_palette_input.len() > 0,
        s.available_commands.len() <= usize::MAX,
        forall|i: int|
            0 <= i < s.available_commands.len() ==> (#[trigger] s.command_scores()[i]) is None,
    ensures
        s.filtered_commands().len() == 0,
        s.selected_action() is None,
        s.execute_selected_command() == s,
{
    lemma_no_match_ranks_nothing(s.command_scores());
}

/// The selection stays within the list, and the time cursor within its
/// slots, under every operation of the editor.
pub proof fn lemma_bounds_are_kept(s: AppStateView, c: char, hour: u8, minute: u8)
    requires
        s.selection_in_bounds(),
        s.cursor_in_bounds(),
        s.wf(),
        s.day_data.last_id < u32::MAX,
    ensures
        s.move_selection_up().selection_in_bounds(),
        s.move_selection_down().selection_in_bounds(),
        s.enter_edit_mode().selection_in_bounds() && s.enter_edit_mode().cursor_in_bounds(),
        s.change_task_name().selection_in_bounds() && s.change_task_name().cursor_in_bounds(),
        s.exit_edit_mode().selection_in_bounds() && s.exit_edit_mode().cursor_in_bounds(),
        s.next_field().selection_in_bounds() && s.next_field().cursor_in_bounds(),
        s.handle_char_input(c).selection_in_bounds() && s.handle_char_input(c).cursor_in_bounds(),
        s.handle_backspace().selection_in_bounds() && s.handle_backspace().cursor_in_bounds(),
        s.save_edit().selection_in_bounds() && s.save_edit().cursor_in_bounds(),
        s.add_new_record().selection_in_bounds(),
        s.add_break().selection_in_bounds(),
        s.delete_selected_record().selection_in_bounds(),
        s.set_time_on_field(hour, minute).selection_in_bounds(),
        s.delete_visual_selection().selection_in_bounds(),
        s.undo().selection_in_bounds(),
        s.redo().selection_in_bounds(),
{
    lemma_saved_store_keeps_count(s);
    lemma_saved_store_keeps_count(s.snapshot());
    if s.takes_digit(c) {
        lemma_saved_store_keeps_count(s.digit_typed(c));
    }
    lemma_fresh_id_unused(s.day_data);
    let task = s.new_record(
        new_task_name(),
        60,
        (TimePoint { hour: 9, minute: 0 }, TimePoint { hour: 17, minute: 0 }),
    );
    let pause = s.new_record(
        break_name(),
        15,
        (TimePoint { hour: 12, minute: 0 }, TimePoint { hour: 12, minute: 15 }),
    );
    if s.selected_record() is Some {
        assert(s.day_data.records[s.selected_index as int].wf());
    }
    lemma_placed_wf(s.day_data.with_next_id(), task);
    lemma_placed_wf(s.day_data.with_next_id(), pause);
    lemma_timed_store_keeps_count(s, hour, minute);
}

/// A save changes no record count.
pub proof fn lemma_saved_store_keeps_count(s: AppStateView)
    requires
        s.day_data.wf(),
    ensures
        s.saved_day_data().records.len() == s.day_data.records.len(),
        s.save_current_field().day_data.records.len() == s.day_data.records.len(),
{
    if s.selected_record() is Some {
        let i = s.selected_index as int;
        let r = s.day_data.records[i];
        if s.edit_field == EditField::Start {
            match parse_time(s.input_buffer) {
                Ok(t) => {
                    lemma_moved_keeps_count(s.day_data, i, r.with_start(t));
                },
                Err(_) => {},
            }
        }
    }
}

/// Putting a time on a field changes no record count.
pub proof fn lemma_timed_store_keeps_count(s: AppStateView, hour: u8, minute: u8)
    requires
        s.day_data.wf(),
    ensures
        s.set_time_on_field(hour, minute).day_data.records.len() == s.day_data.records.len(),
{
    if s.selected_record() is Some {
        let i = s.selected_index as int;
        let r = s.day_data.records[i];
        lemma_moved_keeps_count(s.day_data, i, r.with_start(TimePoint { hour, minute }));
    }
}

/// Moving a record to where its new start belongs changes no record count,
/// and leaves a well-formed store where the record is well formed and keeps its id.
pub proof fn lemma_moved_keeps_count(v: DayDataView, i: int, r: RecordView)
    requires
        v.wf(),
        0 <= i < v.records.len(),
    ensures
        v.moved_at(i, r).records.len() == v.records.len(),
        r.wf() && r.id == v.records[i].id ==> v.moved_at(i, r).wf(),
{
    lemma_removed_at_wf(v, i);
    lemma_insertion_index_splits(v.records.remove(i), r);
    if r.wf() && r.id == v.records[i].id {
        lemma_placed_wf(v.removed_at(i), r);
    }
}

/// Every operation of the editor leaves a well-formed state well formed.
pub proof fn lemma_wf_is_kept(s: AppStateView, c: char, hour: u8, minute: u8, count: nat)
    requires
        s.wf(),
        s.day_data.last_id < u32::MAX,
    ensures
        s.move_selection_up().wf(),
        s.move_selection_down().wf(),
        s.enter_edit_mode().wf(),
        s.change_task_name().wf(),
        s.exit_edit_mode().wf(),
        s.next_field().wf(),
        s.move_field_left().wf(),
        s.move_field_right().wf(),
        s.handle_char_input(c).wf(),
        s.handle_backspace().wf(),
        s.save_edit().wf(),
        s.add_new_record().wf(),
        s.add_break().wf(),
        s.delete_selected_record().wf(),
        s.set_time_on_field(hour, minute).wf(),
        s.enter_visual_mode().wf(),
        s.exit_visual_mode().wf(),
        s.delete_visual_selection().wf(),
        s.undo().wf(),
        s.redo().wf(),
        s.open_command_palette().wf(),
        s.close_command_palette().wf(),
        s.handle_command_palette_char(c).wf(),
        s.handle_command_palette_backspace().wf(),
        s.move_command_palette_up().wf(),
        s.move_command_palette_down(count).wf(),
        s.execute_selected_command().wf(),
{
    lemma_push_keeps_wf(s.history, s.day_data);
    lemma_step_keeps_wf(s.history, s.day_data);
    lemma_saved_store_wf(s);
    lemma_saved_store_wf(s.snapshot());
    if s.takes_digit(c) {
        lemma_saved_store_wf(s.digit_typed(c));
    }
    lemma_fresh_id_unused(s.day_data);
    let task = s.new_record(
        new_task_name(),
        60,
        (TimePoint { hour: 9, minute: 0 }, TimePoint { hour: 17, minute: 0 }),
    );
    let pause = s.new_record(
        break_name(),
        15,
        (TimePoint { hour: 12, minute: 0 }, TimePoint { hour: 12, minute: 15 }),
    );
    if s.selected_record() is Some {
        let i = s.selected_index as int;
        let r = s.day_data.records[i];
        assert(r.wf());
        lemma_removed_at_wf(s.day_data, i);
        let t = TimePoint { hour, minute };
        if t.is_valid() {
            lemma_moved_keeps_count(s.day_data, i, r.with_start(t));
            lemma_replaced_wf(s.day_data, i, r.with_end(t));
        }
    }
    lemma_placed_wf(s.day_data.with_next_id(), task);
    lemma_placed_wf(s.day_data.with_next_id(), pause);
    lemma_without_range_wf(s.day_data, s.visual_low(), s.visual_high());
}

/// A record that keeps its id and its start stays where it is when it is
/// put where its start belongs.
pub proof fn lemma_same_start_keeps_place(v: DayDataView, i: int, r: RecordView)
    requires
        v.wf(),
        0 <= i < v.records.len(),
        r.id == v.records[i].id,
        r.start == v.records[i].start,
    ensures
        v.moved_at(i, r) == v.replaced_at(i, r),
{
    let s = v.records;
    let t = s.remove(i);
    lemma_removed_at_wf(v, i);
    assert forall|j: int| 0 <= j < i implies comes_before(#[trigger] t[j], r) by {
        assert(t[j] == s[j]);
        assert(comes_before(s[j], s[i]));
    }
    if i < t.len() {
        assert(t[i] == s[i + 1]);
        assert(comes_before(s[i], s[i + 1]));
    }
    lemma_insertion_index_is(t, r, i);
    assert(t.insert(i, r) =~= s.update(i, r));
}

/// A time field that is saved as it was seeded is accepted and changes
/// nothing in the store.
pub proof fn lemma_seeded_time_saves_unchanged(s: AppStateView)
    requires
        s.day_data.wf(),
        s.edit_field.is_time(),
        s.selected_record() is Some,
    ensures
        s.enter_edit_mode().save_error() is None,
        s.enter_edit_mode().saved_day_data() == s.day_data,
        s.enter_edit_mode().save_edit().day_data == s.day_data,
{
    let i = s.selected_index as int;
    let r = s.day_data.records[i];
    assert(r.wf());
    lemma_text_parses_back(r.start);
    lemma_text_parses_back(r.end);
    lemma_same_start_keeps_place(s.day_data, i, r.with_start(r.start));
    assert(r.with_start(r.start) == r);
    assert(r.with_end(r.end) == r);
    assert(s.day_data.records.update(i, r) =~= s.day_data.records);
}

/// A record that keeps its id and its start can take the place it had.
pub proof fn lemma_replaced_wf(v: DayDataView, i: int, r: RecordView)
    requires
        v.wf(),
        0 <= i < v.records.len(),
        r.wf(),
        r.id == v.records[i].id,
        r.start == v.records[i].start,
    ensures
        v.replaced_at(i, r).wf(),
{
    let s = v.records;
    let t = s.update(i, r);
    assert forall|a: int, b: int| #![trigger t[a], t[b]] 0 <= a < b < t.len() implies comes_before(
        t[a],
        t[b],
    ) && t[a].id != t[b].id by {
        assert(comes_before(s[a], s[b]) && s[a].id != s[b].id);
    }
    assert forall|a: int| 0 <= a < t.len() implies (#[trigger] t[a]).wf() && t[a].id
        <= v.last_id by {
        assert(s[a].wf() && s[a].id <= v.last_id);
    }
}

/// A save leaves a well-formed store.
pub proof fn lemma_saved_store_wf(s: AppStateView)
    requires
        s.day_data.wf(),
    ensures
        s.saved_day_data().wf(),
        s.save_current_field().day_data.wf(),
{
    if s.selected_record() is Some {
        let i = s.selected_index as int;
        let r = s.day_data.records[i];
        assert(r.wf());
        match s.edit_field {
            EditField::Name => {
                lemma_replaced_wf(s.day_data, i, r.with_name(trimmed(s.input_buffer)));
            },
            EditField::Description => {
                lemma_replaced_wf(s.day_data, i, r.with_description(trimmed(s.input_buffer)));
            },
            EditField::Start => {
                match parse_time(s.input_buffer) {
                    Ok(t) => {
                        lemma_moved_keeps_count(s.day_data, i, r.with_start(t));
                    },
                    Err(_) => {},
                }
            },
            EditField::End => {
                match parse_time(s.input_buffer) {
                    Ok(t) => {
                        lemma_replaced_wf(s.day_data, i, r.with_end(t));
                    },
                    Err(_) => {},
                }
            },
        }
    }
}

/// Taking a range of records out leaves a well-formed store.
pub proof fn lemma_without_range_wf(v: DayDataView, low: nat, high: nat)
    requires
        v.wf(),
        low <= high,
    ensures
        (DayDataView { records: without_range(v.records, low, high), ..v }).wf(),
{
    let s = v.records;
    let t = without_range(s, low, high);
    let from = if low < s.len() {
        low as int
    } else {
        s.len() as int
    };
    let to = if high < s.len() {
        high as int + 1
    } else {
        s.len() as int
    };
    assert forall|a: int| 0 <= a < t.len() implies (#[trigger] t[a]).wf() && t[a].id
        <= v.last_id by {
        let a0 = if a < from {
            a
        } else {
            a - from + to
        };
        assert(t[a] == s[a0]);
    }
    assert forall|a: int, b: int| #![trigger t[a], t[b]] 0 <= a < b < t.len() implies comes_before(
        t[a],
        t[b],
    ) && t[a].id != t[b].id by {
        let a0 = if a < from {
            a
        } else {
            a - from + to
        };
        let b0 = if b < from {
            b
        } else {
            b - from + to
        };
        assert(t[a] == s[a0]);
        assert(t[b] == s[b0]);
        assert(comes_before(s[a0], s[b0]) && s[a0].id != s[b0].id);
    }
}

} // verus!
