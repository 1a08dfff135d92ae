//! The store of one day's records, keyed by id.
//!
//! The store keeps its records in the order of the sorted view: by start
//! time, and by id among records that start together. The view is therefore
//! the store itself, read in order; nothing is cached that a change could
//! leave stale.

use crate::models::by_id::{lemma_by_id_of_without, lemma_store_is_a_mapping};
use crate::models::time_point::TimePoint;
use crate::models::work_record::{RecordView, WorkRecord};
use vstd::prelude::*;

verus! {

/// One day's records and the counter that hands out their ids.
#[derive(Debug)]
pub struct DayData {
    pub last_id: u32,
    pub work_records: Vec<WorkRecord>,
}

/// A store as a mathematical value: the counter and the records in sorted order.
#[verifier::ext_equal]
pub struct DayDataView {
    pub last_id: u32,
    pub records: Seq<RecordView>,
}

/// The order of the sorted view: earlier start first, lower id first among equal starts.
pub open spec fn comes_before(a: RecordView, b: RecordView) -> bool {
    a.start.minutes() < b.start.minutes() || (a.start.minutes() == b.start.minutes() && a.id
        < b.id)
}

/// Where `r` belongs in the ordered sequence `s`: behind every record that comes before it.
pub open spec fn insertion_index(s: Seq<RecordView>, r: RecordView) -> int
    decreases s.len(),
{
    if s.len() == 0 {
        0
    } else if comes_before(s.last(), r) {
        s.len() as int
    } else {
        insertion_index(s.drop_last(), r)
    }
}

/// The ordered sequence `s` with `r` put where it belongs.
pub open spec fn placed(s: Seq<RecordView>, r: RecordView) -> Seq<RecordView> {
    s.insert(insertion_index(s, r), r)
}

impl DayDataView {
    /// The store with no records, before any id was handed out.
    pub open spec fn empty() -> Self {
        DayDataView { last_id: 0, records: Seq::empty() }
    }

    /// Every record is well formed and has an id that the counter has passed,
    /// the records stand in sorted order, and no id occurs twice.
    pub open spec fn wf(self) -> bool {
        &&& forall|i: int|
            0 <= i < self.records.len() ==> (#[trigger] self.records[i]).wf() && self.records[i].id
                <= self.last_id
        &&& forall|i: int, j: int|
            #![trigger self.records[i], self.records[j]]
            0 <= i < j < self.records.len() ==> comes_before(self.records[i], self.records[j])
        &&& forall|i: int, j: int|
            #![trigger self.records[i], self.records[j]]
            0 <= i < j < self.records.len() ==> self.records[i].id != self.records[j].id
    }

    /// Whether a record has the id.
    pub open spec fn contains_id(self, id: u32) -> bool {
        exists|i: int| 0 <= i < self.records.len() && (#[trigger] self.records[i]).id == id
    }

    /// The place in the sorted view of the record with the id, where there is one.
    pub open spec fn index_of(self, id: u32) -> int {
        choose|i: int| 0 <= i < self.records.len() && (#[trigger] self.records[i]).id == id
    }

    /// The store after the counter has handed out one more id.
    pub open spec fn with_next_id(self) -> Self {
        DayDataView { last_id: (self.last_id + 1) as u32, ..self }
    }

    /// The store without the record at place `i` of the sorted view.
    pub open spec fn removed_at(self, i: int) -> Self {
        DayDataView { records: self.records.remove(i), ..self }
    }

    /// The store without the record that has the id, if one has it.
    pub open spec fn without(self, id: u32) -> Self {
        if self.contains_id(id) {
            self.removed_at(self.index_of(id))
        } else {
            self
        }
    }

    /// The store with `r` in it, in place of any record that had its id. The
    /// counter moves up to the id if it was behind.
    pub open spec fn with_record(self, r: RecordView) -> Self {
        DayDataView {
            last_id: if r.id > self.last_id {
                r.id
            } else {
                self.last_id
            },
            records: placed(self.without(r.id).records, r),
        }
    }

    /// The store with `r` in place of the record at place `i`, for an `r`
    /// that belongs at the same place.
    pub open spec fn replaced_at(self, i: int, r: RecordView) -> Self {
        DayDataView { records: self.records.update(i, r), ..self }
    }

    /// The store with the record at place `i` taken out and `r` put where it belongs.
    pub open spec fn moved_at(self, i: int, r: RecordView) -> Self {
        DayDataView { records: placed(self.records.remove(i), r), ..self }
    }

    /// The store after the record with the id got the name, if one has the id.
    pub open spec fn renamed(self, id: u32, name: Seq<char>) -> Self {
        if self.contains_id(id) {
            let i = self.index_of(id);
            self.replaced_at(i, self.records[i].with_name(name))
        } else {
            self
        }
    }

    /// The store after the record with the id got the description, if one has the id.
    pub open spec fn redescribed(self, id: u32, description: Seq<char>) -> Self {
        if self.contains_id(id) {
            let i = self.index_of(id);
            self.replaced_at(i, self.records[i].with_description(description))
        } else {
            self
        }
    }

    /// The store after the record with the id got the start time, if one has
    /// the id: the record moves to where its new start puts it.
    pub open spec fn restarted(self, id: u32, start: TimePoint) -> Self {
        if self.contains_id(id) {
            let i = self.index_of(id);
            self.moved_at(i, self.records[i].with_start(start))
        } else {
            self
        }
    }

    /// The store after the record with the id got the end time, if one has the id.
    pub open spec fn reended(self, id: u32, end: TimePoint) -> Self {
        if self.contains_id(id) {
            let i = self.index_of(id);
            self.replaced_at(i, self.records[i].with_end(end))
        } else {
            self
        }
    }
}

impl View for DayData {
    type V = DayDataView;

    open spec fn view(&self) -> DayDataView {
        DayDataView {
            last_id: self.last_id,
            records: self.work_records@.map_values(|r: WorkRecord| r@),
        }
    }
}

/// In a well-formed store a record is found at its own place by its id.
pub proof fn lemma_index_of_own_id(v: DayDataView, i: int)
    requires
        v.wf(),
        0 <= i < v.records.len(),
    ensures
        v.contains_id(v.records[i].id),
        v.index_of(v.records[i].id) == i,
{
    let id = v.records[i].id;
    let j = v.index_of(id);
    assert(0 <= j < v.records.len() && v.records[j].id == id);
    if j < i {
        assert(v.records[j].id != v.records[i].id);
    } else if i < j {
        assert(v.records[i].id != v.records[j].id);
    }
}

/// Where a record belongs, every record before that place comes before it
/// and no record from that place on does.
pub proof fn lemma_insertion_index_splits(s: Seq<RecordView>, r: RecordView)
    requires
        forall|i: int, j: int| #![trigger s[i], s[j]] 0 <= i < j < s.len() ==> comes_before(s[i], s[j]),
    ensures
        0 <= insertion_index(s, r) <= s.len(),
        forall|j: int| 0 <= j < insertion_index(s, r) ==> comes_before(#[trigger] s[j], r),
        forall|j: int| insertion_index(s, r) <= j < s.len() ==> !comes_before(#[trigger] s[j], r),
    decreases s.len(),
{
    if s.len() == 0 {
    } else if comes_before(s.last(), r) {
        assert forall|j: int| 0 <= j < s.len() implies comes_before(#[trigger] s[j], r) by {
            if j < s.len() - 1 {
                assert(comes_before(s[j], s[s.len() - 1]));
            }
        }
    } else {
        let t = s.drop_last();
        assert forall|i: int, j: int| #![trigger t[i], t[j]] 0 <= i < j < t.len() implies comes_before(
            t[i],
            t[j],
        ) by {
            assert(comes_before(s[i], s[j]));
        }
        lemma_insertion_index_splits(t, r);
        assert forall|j: int| 0 <= j < insertion_index(s, r) implies comes_before(
            #[trigger] s[j],
            r,
        ) by {
            assert(s[j] == t[j]);
        }
        assert forall|j: int| insertion_index(s, r) <= j < s.len() implies !comes_before(
            #[trigger] s[j],
            r,
        ) by {
            if j < t.len() {
                assert(s[j] == t[j]);
            }
        }
    }
}

/// The place that splits the records into those before `r` and the rest is where `r` belongs.
pub proof fn lemma_insertion_index_is(s: Seq<RecordView>, r: RecordView, at: int)
    requires
        forall|i: int, j: int| #![trigger s[i], s[j]] 0 <= i < j < s.len() ==> comes_before(s[i], s[j]),
        0 <= at <= s.len(),
        forall|j: int| 0 <= j < at ==> comes_before(#[trigger] s[j], r),
        at < s.len() ==> !comes_before(s[at], r),
    ensures
        insertion_index(s, r) == at,
{
    lemma_insertion_index_splits(s, r);
    let p = insertion_index(s, r);
    if at < p {
        assert(comes_before(s[at], r));
    } else if p < at {
        assert(comes_before(s[p], r));
    }
}

/// Taking a record out leaves a well-formed store.
pub proof fn lemma_removed_at_wf(v: DayDataView, i: int)
    requires
        v.wf(),
        0 <= i < v.records.len(),
    ensures
        v.removed_at(i).wf(),
        !v.removed_at(i).contains_id(v.records[i].id),
{
    let s = v.records;
    let t = s.remove(i);
    assert forall|a: int| 0 <= a < t.len() implies (#[trigger] t[a]).wf() && t[a].id
        <= v.last_id by {
        if a < i {
            assert(t[a] == s[a]);
        } else {
            assert(t[a] == s[a + 1]);
        }
    }
    assert forall|a: int, b: int| #![trigger t[a], t[b]] 0 <= a < b < t.len() implies comes_before(
        t[a],
        t[b],
    ) && t[a].id != t[b].id by {
        let a0 = if a < i { a } else { a + 1 };
        let b0 = if b < i { b } else { b + 1 };
        assert(t[a] == s[a0]);
        assert(t[b] == s[b0]);
        assert(comes_before(s[a0], s[b0]));
        assert(s[a0].id != s[b0].id);
    }
    assert forall|a: int| 0 <= a < t.len() implies (#[trigger] t[a]).id != s[i].id by {
        let a0 = if a < i { a } else { a + 1 };
        assert(t[a] == s[a0]);
        if a0 < i {
            assert(s[a0].id != s[i].id);
        } else {
            assert(s[i].id != s[a0].id);
        }
    }
}

/// Putting a well-formed record with an unused id where it belongs leaves a
/// well-formed store.
pub proof fn lemma_placed_wf(v: DayDataView, r: RecordView)
    requires
        v.wf(),
        r.wf(),
        r.id <= v.last_id,
        !v.contains_id(r.id),
    ensures
        (DayDataView { records: placed(v.records, r), ..v }).wf(),
        0 <= insertion_index(v.records, r) <= v.records.len(),
{
    let s = v.records;
    lemma_insertion_index_splits(s, r);
    let p = insertion_index(s, r);
    let t = s.insert(p, r);
    assert forall|a: int| 0 <= a < s.len() implies (#[trigger] s[a]).id != r.id by {
        if s[a].id == r.id {
            assert(v.contains_id(r.id));
        }
    }
    assert forall|a: int| 0 <= a < t.len() implies (#[trigger] t[a]).wf() && t[a].id
        <= v.last_id by {
        if a < p {
            assert(t[a] == s[a]);
        } else if a > p {
            assert(t[a] == s[a - 1]);
        }
    }
    assert forall|a: int, b: int| #![trigger t[a], t[b]] 0 <= a < b < t.len() implies comes_before(
        t[a],
        t[b],
    ) && t[a].id != t[b].id by {
        if b < p {
            assert(t[a] == s[a] && t[b] == s[b]);
            assert(comes_before(s[a], s[b]) && s[a].id != s[b].id);
        } else if b == p {
            assert(t[a] == s[a]);
            assert(comes_before(s[a], r));
            assert(s[a].id != r.id);
        } else if a == p {
            assert(t[b] == s[b - 1]);
            assert(!comes_before(s[b - 1], r));
            assert(s[b - 1].id != r.id);
        } else if a < p {
            assert(t[a] == s[a] && t[b] == s[b - 1]);
            assert(comes_before(s[a], s[b - 1]) && s[a].id != s[b - 1].id);
        } else {
            assert(t[a] == s[a - 1] && t[b] == s[b - 1]);
            assert(comes_before(s[a - 1], s[b - 1]) && s[a - 1].id != s[b - 1].id);
        }
    }
}

impl Clone for DayData {
    fn clone(&self) -> (r: Self)
        ensures
            r@ == self@,
            r.last_id == self.last_id,
            r.work_records@ == self.work_records@,
    {
        let mut records: Vec<WorkRecord> = Vec::new();
        let mut i: usize = 0;
        while i < self.work_records.len()
            invariant
                0 <= i <= self.work_records.len(),
                records@ == self.work_records@.subrange(0, i as int),
            decreases self.work_records.len() - i,
        {
            records.push(self.work_records[i].clone());
            assert(records@ =~= self.work_records@.subrange(0, i + 1));
            i += 1;
        }
        assert(records@ =~= self.work_records@);
        DayData { last_id: self.last_id, work_records: records }
    }
}

/// Tells whether `a` comes before `b` in the sorted view.
fn record_comes_before(a: &WorkRecord, b: &WorkRecord) -> (r: bool)
    ensures
        r == comes_before(a@, b@),
{
    let a_start = a.start.to_minutes_since_midnight();
    let b_start = b.start.to_minutes_since_midnight();
    a_start < b_start || (a_start == b_start && a.id < b.id)
}

impl DayData {
    /// An empty store.
    pub fn new() -> (r: DayData)
        ensures
            r@ == DayDataView::empty(),
            r@.wf(),
    {
        let r = DayData { last_id: 0, work_records: Vec::new() };
        assert(r@.records =~= Seq::empty());
        r
    }

    /// The number of records.
    pub fn len(&self) -> (r: usize)
        ensures
            r == self@.records.len(),
    {
        self.work_records.len()
    }

    /// Hands out an id that no record of the store has had.
    pub fn next_id(&mut self) -> (r: u32)
        requires
            old(self).last_id < u32::MAX,
        ensures
            final(self)@ == old(self)@.with_next_id(),
            r == old(self).last_id + 1,
            old(self)@.wf() ==> final(self)@.wf() && !final(self)@.contains_id(r),
    {
        self.last_id = self.last_id + 1;
        proof {
            if old(self)@.wf() {
                assert forall|i: int| 0 <= i < self@.records.len() implies (#[trigger] self@.records[i]).id
                    < self.last_id by {
                    assert(old(self)@.records[i].id <= old(self).last_id);
                }
                assert(self@.records == old(self)@.records);
            }
        }
        self.last_id
    }

    /// The record at place `index` of the sorted view.
    pub fn record_at(&self, index: usize) -> (r: Option<&WorkRecord>)
        ensures
            index < self@.records.len() ==> (r matches Some(rec) && rec@ == self@.records[index as int]),
            index >= self@.records.len() ==> r is None,
    {
        if index < self.work_records.len() {
            Some(&self.work_records[index])
        } else {
            None
        }
    }

    /// The records in sorted order: by start time, by id among equal starts.
    pub fn get_sorted_records(&self) -> (r: Vec<&WorkRecord>)
        ensures
            r@.len() == self@.records.len(),
            forall|i: int| 0 <= i < r@.len() ==> (#[trigger] r@[i])@ == self@.records[i],
    {
        let mut out: Vec<&WorkRecord> = Vec::new();
        let mut i: usize = 0;
        while i < self.work_records.len()
            invariant
                0 <= i <= self.work_records.len(),
                out@.len() == i,
                forall|k: int| 0 <= k < i ==> *(#[trigger] out@[k]) == self.work_records@[k],
            decreases self.work_records.len() - i,
        {
            out.push(&self.work_records[i]);
            i += 1;
        }
        out
    }

    /// The place in the sorted view of the record with the id.
    pub fn position_of(&self, id: u32) -> (r: Option<usize>)
        ensures
            r is Some <==> self@.contains_id(id),
            r matches Some(i) ==> i < self@.records.len() && self@.records[i as int].id == id,
            self@.wf() ==> (r matches Some(i) ==> i == self@.index_of(id)),
    {
        let mut i: usize = 0;
        while i < self.work_records.len()
            invariant
                0 <= i <= self.work_records.len(),
                forall|k: int| 0 <= k < i ==> (#[trigger] self@.records[k]).id != id,
            decreases self.work_records.len() - i,
        {
            if self.work_records[i].id == id {
                proof {
                    assert(self@.records[i as int].id == id);
                    if self@.wf() {
                        lemma_index_of_own_id(self@, i as int);
                    }
                }
                return Some(i);
            }
            i += 1;
        }
        None
    }

    /// The place where `record` belongs in the sorted view.
    fn insertion_point(&self, record: &WorkRecord) -> (r: usize)
        requires
            self@.wf(),
        ensures
            r == insertion_index(self@.records, record@),
            r <= self@.records.len(),
    {
        let mut i: usize = 0;
        while i < self.work_records.len() && record_comes_before(&self.work_records[i], record)
            invariant
                0 <= i <= self.work_records.len(),
                forall|k: int| 0 <= k < i ==> comes_before(#[trigger] self@.records[k], record@),
            decreases self.work_records.len() - i,
        {
            i += 1;
        }
        proof {
            lemma_insertion_index_is(self@.records, record@, i as int);
        }
        i
    }

    /// Puts `record` into the store, in place of any record that had its id.
    pub fn add_record(&mut self, record: WorkRecord)
        requires
            old(self)@.wf(),
            record@.wf(),
        ensures
            final(self)@ == old(self)@.with_record(record@),
            final(self)@.by_id() == old(self)@.by_id().insert(record.id, record@),
            final(self)@.wf(),
            final(self)@.contains_id(record.id),
    {
        proof {
            lemma_store_is_a_mapping(self@, record.id, record@, record.start, record.name@);
        }
        let _ = self.remove_record(record.id);
        if record.id > self.last_id {
            self.last_id = record.id;
        }
        let at = self.insertion_point(&record);
        proof {
            lemma_placed_wf(self@, record@);
        }
        let ghost before = self@;
        self.work_records.insert(at, record);
        assert(self@.records =~= placed(before.records, record@));
        assert(self@.records[at as int].id == record.id);
    }

    /// Takes the record with the id out of the store and hands it back.
    pub fn remove_record(&mut self, id: u32) -> (r: Option<WorkRecord>)
        requires
            old(self)@.wf(),
        ensures
            final(self)@ == old(self)@.without(id),
            final(self)@.by_id() == old(self)@.by_id().remove(id),
            final(self)@.wf(),
            !final(self)@.contains_id(id),
            r is Some <==> old(self)@.contains_id(id),
            r matches Some(rec) ==> rec@ == old(self)@.records[old(self)@.index_of(id)],
    {
        proof {
            lemma_by_id_of_without(self@, id);
        }
        match self.position_of(id) {
            Some(i) => {
                proof {
                    lemma_removed_at_wf(self@, i as int);
                }
                let rec = self.work_records.remove(i);
                assert(self@.records =~= old(self)@.records.remove(i as int));
                Some(rec)
            },
            None => None,
        }
    }

    /// Gives the record with the id another name.
    pub fn set_name(&mut self, id: u32, name: String)
        requires
            old(self)@.wf(),
        ensures
            final(self)@ == old(self)@.renamed(id, name@),
            final(self)@.wf(),
    {
        if let Some(i) = self.position_of(id) {
            let mut rec = self.work_records.remove(i);
            rec.name = name;
            self.work_records.insert(i, rec);
            assert(self@.records =~= old(self)@.records.update(
                i as int,
                old(self)@.records[i as int].with_name(name@),
            ));
        }
    }

    /// Gives the record with the id another description.
    pub fn set_description(&mut self, id: u32, description: String)
        requires
            old(self)@.wf(),
        ensures
            final(self)@ == old(self)@.redescribed(id, description@),
            final(self)@.wf(),
    {
        if let Some(i) = self.position_of(id) {
            let mut rec = self.work_records.remove(i);
            rec.description = description;
            self.work_records.insert(i, rec);
            assert(self@.records =~= old(self)@.records.update(
                i as int,
                old(self)@.records[i as int].with_description(description@),
            ));
        }
    }

    /// Moves the end of the record with the id and recomputes its duration.
    pub fn set_end(&mut self, id: u32, end: TimePoint)
        requires
            old(self)@.wf(),
            end.is_valid(),
        ensures
            final(self)@ == old(self)@.reended(id, end),
            final(self)@.wf(),
    {
        if let Some(i) = self.position_of(id) {
            let mut rec = self.work_records.remove(i);
            rec.end = end;
            rec.update_duration();
            self.work_records.insert(i, rec);
            assert(self@.records =~= old(self)@.records.update(
                i as int,
                old(self)@.records[i as int].with_end(end),
            ));
        }
    }

    /// Moves the start of the record with the id, recomputes its duration and
    /// puts the record where its new start belongs in the sorted view.
    pub fn set_start(&mut self, id: u32, start: TimePoint)
        requires
            old(self)@.wf(),
            start.is_valid(),
        ensures
            final(self)@ == old(self)@.restarted(id, start),
            final(self)@.wf(),
    {
        if let Some(i) = self.position_of(id) {
            proof {
                lemma_removed_at_wf(self@, i as int);
            }
            let mut rec = self.work_records.remove(i);
            assert(self@.records =~= old(self)@.records.remove(i as int));
            rec.start = start;
            rec.update_duration();
            let at = self.insertion_point(&rec);
            proof {
                lemma_placed_wf(self@, rec@);
            }
            let ghost before = self@;
            self.work_records.insert(at, rec);
            assert(self@.records =~= placed(before.records, rec@));
        }
    }
}

} // verus!
