//! One named interval of the day.

use crate::models::time_point::{TimePoint, MINUTES_PER_DAY};
use vstd::prelude::*;

verus! {

/// A task or a break: who it is, what it is called, and when it runs.
#[derive(Debug)]
pub struct WorkRecord {
    pub id: u32,
    pub name: String,
    pub start: TimePoint,
    pub end: TimePoint,
    pub total_minutes: u32,
    pub description: String,
}

/// A work record as a mathematical value.
#[verifier::ext_equal]
pub struct RecordView {
    pub id: u32,
    pub name: Seq<char>,
    pub start: TimePoint,
    pub end: TimePoint,
    pub total_minutes: u32,
    pub description: Seq<char>,
}

/// Minutes from `start` to `end`. An interval whose end is earlier than its
/// start runs past midnight and ends on the next day.
pub open spec fn span_minutes(start: TimePoint, end: TimePoint) -> int {
    if end.minutes() >= start.minutes() {
        end.minutes() - start.minutes()
    } else {
        MINUTES_PER_DAY - start.minutes() + end.minutes()
    }
}

impl RecordView {
    /// Both times are times of the day and the duration is the span between them.
    pub open spec fn wf(self) -> bool {
        &&& self.start.is_valid()
        &&& self.end.is_valid()
        &&& self.total_minutes == span_minutes(self.start, self.end)
    }

    /// A new record: no description yet, the duration taken from the times.
    pub open spec fn fresh(id: u32, name: Seq<char>, start: TimePoint, end: TimePoint) -> Self {
        RecordView {
            id,
            name,
            start,
            end,
            total_minutes: span_minutes(start, end) as u32,
            description: Seq::empty(),
        }
    }

    /// The record under another name.
    pub open spec fn with_name(self, name: Seq<char>) -> Self {
        RecordView { name, ..self }
    }

    /// The record with another description.
    pub open spec fn with_description(self, description: Seq<char>) -> Self {
        RecordView { description, ..self }
    }

    /// The record starting at `start`, its duration recomputed.
    pub open spec fn with_start(self, start: TimePoint) -> Self {
        RecordView { start, total_minutes: span_minutes(start, self.end) as u32, ..self }
    }

    /// The record ending at `end`, its duration recomputed.
    pub open spec fn with_end(self, end: TimePoint) -> Self {
        RecordView { end, total_minutes: span_minutes(self.start, end) as u32, ..self }
    }
}

impl View for WorkRecord {
    type V = RecordView;

    open spec fn view(&self) -> RecordView {
        RecordView {
            id: self.id,
            name: self.name@,
            start: self.start,
            end: self.end,
            total_minutes: self.total_minutes,
            description: self.description@,
        }
    }
}

impl Clone for WorkRecord {
    fn clone(&self) -> (r: Self)
        ensures
            r == *self,
    {
        WorkRecord {
            id: self.id,
            name: self.name.clone(),
            start: self.start,
            end: self.end,
            total_minutes: self.total_minutes,
            description: self.description.clone(),
        }
    }
}

impl WorkRecord {
    /// A record with the given name and times and an empty description.
    pub fn new(id: u32, name: String, start: TimePoint, end: TimePoint) -> (r: WorkRecord)
        requires
            start.is_valid(),
            end.is_valid(),
        ensures
            r@ == RecordView::fresh(id, name@, start, end),
            r@.wf(),
    {
        let total_minutes = Self::calculate_duration(&start, &end);
        WorkRecord { id, name, start, end, total_minutes, description: String::new() }
    }

    /// Minutes from `start` to `end`, past midnight where `end` is the earlier.
    pub fn calculate_duration(start: &TimePoint, end: &TimePoint) -> (r: u32)
        requires
            start.is_valid(),
            end.is_valid(),
        ensures
            r == span_minutes(*start, *end),
            r < MINUTES_PER_DAY,
    {
        let from = start.to_minutes_since_midnight();
        let to = end.to_minutes_since_midnight();
        if to >= from {
            to - from
        } else {
            MINUTES_PER_DAY - from + to
        }
    }

    /// Recomputes the duration after a change of start or end.
    pub fn update_duration(&mut self)
        requires
            old(self).start.is_valid(),
            old(self).end.is_valid(),
        ensures
            *final(self) == (WorkRecord {
                total_minutes: span_minutes(old(self).start, old(self).end) as u32,
                ..*old(self)
            }),
            final(self)@.wf(),
    {
        self.total_minutes = Self::calculate_duration(&self.start, &self.end);
    }
}

} // verus!
