//! The store as a mapping from ids to records, and how the sorted view
//! follows from that mapping.

use crate::models::day_data::{
    comes_before, lemma_index_of_own_id, lemma_placed_wf, lemma_removed_at_wf, placed, DayDataView,
};
use crate::models::time_point::TimePoint;
use crate::models::work_record::RecordView;
use vstd::prelude::*;

verus! {

impl DayDataView {
    /// The records of the store, each under its id.
    pub open spec fn by_id(self) -> Map<u32, RecordView> {
        Map::new(|id: u32| self.contains_id(id), |id: u32| self.records[self.index_of(id)])
    }
}

/// In a well-formed store the mapping holds each record of the sorted view under its id.
pub proof fn lemma_by_id_holds_each_record(v: DayDataView, i: int)
    requires
        v.wf(),
        0 <= i < v.records.len(),
    ensures
        v.by_id().contains_key(v.records[i].id),
        v.by_id()[v.records[i].id] == v.records[i],
{
    lemma_index_of_own_id(v, i);
}

/// What the mapping holds under an id is a record of the sorted view with that id.
pub proof fn lemma_by_id_holds_only_records(v: DayDataView, id: u32)
    requires
        v.by_id().contains_key(id),
    ensures
        0 <= v.index_of(id) < v.records.len(),
        v.records[v.index_of(id)].id == id,
        v.by_id()[id] == v.records[v.index_of(id)],
{
}

/// Taking the record at a place out of the store takes its id out of the mapping.
pub proof fn lemma_by_id_of_removed(v: DayDataView, i: int)
    requires
        v.wf(),
        0 <= i < v.records.len(),
    ensures
        v.removed_at(i).by_id() == v.by_id().remove(v.records[i].id),
{
    let w = v.removed_at(i);
    let gone = v.records[i].id;
    lemma_removed_at_wf(v, i);
    assert forall|id: u32| w.by_id().contains_key(id) implies v.by_id().remove(gone).contains_key(
        id,
    ) && w.by_id()[id] == v.by_id().remove(gone)[id] by {
        let k = w.index_of(id);
        let k0 = if k < i {
            k
        } else {
            k + 1
        };
        assert(w.records[k] == v.records[k0]);
        lemma_index_of_own_id(v, k0);
        lemma_index_of_own_id(v, i);
    }
    assert forall|id: u32| v.by_id().remove(gone).contains_key(id) implies w.by_id().contains_key(
        id,
    ) by {
        let k0 = v.index_of(id);
        assert(k0 != i);
        let k = if k0 < i {
            k0
        } else {
            k0 - 1
        };
        assert(w.records[k] == v.records[k0]);
    }
    assert(w.by_id() =~= v.by_id().remove(gone));
}

/// Putting a record with an unused id into the store puts it into the mapping.
pub proof fn lemma_by_id_of_placed(v: DayDataView, r: RecordView)
    requires
        v.wf(),
        r.wf(),
        r.id <= v.last_id,
        !v.contains_id(r.id),
    ensures
        (DayDataView { records: placed(v.records, r), ..v }).by_id() == v.by_id().insert(r.id, r),
{
    let w = DayDataView { records: placed(v.records, r), ..v };
    lemma_placed_wf(v, r);
    let p = crate::models::day_data::insertion_index(v.records, r);
    assert(w.records[p] == r);
    lemma_index_of_own_id(w, p);
    assert forall|id: u32| w.by_id().contains_key(id) implies v.by_id().insert(r.id, r).contains_key(
        id,
    ) && w.by_id()[id] == v.by_id().insert(r.id, r)[id] by {
        let k = w.index_of(id);
        if k != p {
            let k0 = if k < p {
                k
            } else {
                k - 1
            };
            assert(w.records[k] == v.records[k0]);
            lemma_index_of_own_id(v, k0);
        }
    }
    assert forall|id: u32| v.by_id().insert(r.id, r).contains_key(id) implies w.by_id().contains_key(
        id,
    ) by {
        if id != r.id {
            let k0 = v.index_of(id);
            let k = if k0 < p {
                k0
            } else {
                k0 + 1
            };
            assert(w.records[k] == v.records[k0]);
        }
    }
    assert(w.by_id() =~= v.by_id().insert(r.id, r));
}

/// Replacing the record at a place by one with the same id replaces it in the mapping.
pub proof fn lemma_by_id_of_replaced(v: DayDataView, i: int, r: RecordView)
    requires
        v.wf(),
        0 <= i < v.records.len(),
        r.id == v.records[i].id,
    ensures
        v.replaced_at(i, r).by_id() == v.by_id().insert(r.id, r),
{
    let w = v.replaced_at(i, r);
    lemma_index_of_own_id(v, i);
    assert(w.records[i] == r);
    assert forall|id: u32| w.by_id().contains_key(id) implies v.by_id().insert(r.id, r).contains_key(
        id,
    ) && w.by_id()[id] == v.by_id().insert(r.id, r)[id] by {
        let k = w.index_of(id);
        if k != i {
            assert(w.records[k] == v.records[k]);
            lemma_index_of_own_id(v, k);
        } else {
            assert(id == r.id);
        }
    }
    assert forall|id: u32| v.by_id().insert(r.id, r).contains_key(id) implies w.by_id().contains_key(
        id,
    ) by {
        if id != r.id {
            let k0 = v.index_of(id);
            assert(k0 != i);
            assert(w.records[k0] == v.records[k0]);
        }
    }
    assert forall|id: u32| w.by_id().contains_key(id) && id == r.id implies w.by_id()[id] == r by {
        let k = w.index_of(id);
        if k != i {
            assert(w.records[k] == v.records[k]);
            if k < i {
                assert(v.records[k].id != v.records[i].id);
            } else {
                assert(v.records[i].id != v.records[k].id);
            }
        }
    }
    assert(w.by_id() =~= v.by_id().insert(r.id, r));
}

/// Taking the record with an id out of the store takes the id out of the mapping.
pub proof fn lemma_by_id_of_without(v: DayDataView, id: u32)
    requires
        v.wf(),
    ensures
        v.without(id).by_id() == v.by_id().remove(id),
{
    if v.contains_id(id) {
        lemma_by_id_of_removed(v, v.index_of(id));
    } else {
        assert(v.by_id().remove(id) =~= v.by_id());
    }
}

/// A store behaves as a mapping from ids to records: a removal takes the id
/// out, an addition puts the record under its id, and a change of a field
/// puts the changed record under the id it had.
pub proof fn lemma_store_is_a_mapping(v: DayDataView, id: u32, r: RecordView, t: TimePoint, text: Seq<char>)
    requires
        v.wf(),
        r.wf(),
        t.is_valid(),
    ensures
        v.without(id).by_id() == v.by_id().remove(id),
        v.with_record(r).by_id() == v.by_id().insert(r.id, r),
        v.contains_id(id) ==> v.renamed(id, text).by_id() == v.by_id().insert(
            id,
            v.by_id()[id].with_name(text),
        ),
        v.contains_id(id) ==> v.redescribed(id, text).by_id() == v.by_id().insert(
            id,
            v.by_id()[id].with_description(text),
        ),
        v.contains_id(id) ==> v.restarted(id, t).by_id() == v.by_id().insert(
            id,
            v.by_id()[id].with_start(t),
        ),
        v.contains_id(id) ==> v.reended(id, t).by_id() == v.by_id().insert(
            id,
            v.by_id()[id].with_end(t),
        ),
        !v.contains_id(id) ==> v.renamed(id, text) == v && v.redescribed(id, text) == v
            && v.restarted(id, t) == v && v.reended(id, t) == v,
{
    if v.contains_id(id) {
        let i = v.index_of(id);
        let old = v.records[i];
        assert(old.wf());
        lemma_by_id_of_removed(v, i);
        lemma_by_id_of_replaced(v, i, old.with_name(text));
        lemma_by_id_of_replaced(v, i, old.with_description(text));
        lemma_by_id_of_replaced(v, i, old.with_end(t));
        lemma_removed_at_wf(v, i);
        lemma_by_id_of_placed(v.removed_at(i), old.with_start(t));
        assert(v.by_id().remove(id).insert(id, old.with_start(t)) =~= v.by_id().insert(
            id,
            old.with_start(t),
        ));
    } else {
        assert(v.by_id().remove(id) =~= v.by_id());
    }
    let base = v.without(r.id);
    let raised = DayDataView {
        last_id: if r.id > v.last_id {
            r.id
        } else {
            v.last_id
        },
        ..base
    };
    if v.contains_id(r.id) {
        lemma_by_id_of_removed(v, v.index_of(r.id));
        lemma_removed_at_wf(v, v.index_of(r.id));
    } else {
        assert(v.by_id().remove(r.id) =~= v.by_id());
    }
    assert(raised.wf()) by {
        assert forall|k: int| 0 <= k < raised.records.len() implies (#[trigger] raised.records[k]).wf()
            && raised.records[k].id <= raised.last_id by {
            assert(base.records[k].wf() && base.records[k].id <= base.last_id);
        }
    }
    assert(!raised.contains_id(r.id)) by {
        if raised.contains_id(r.id) {
            let k = raised.index_of(r.id);
            assert(base.records[k].id == r.id);
            assert(base.contains_id(r.id));
        }
    }
    lemma_by_id_of_placed(raised, r);
    assert(raised.by_id() =~= base.by_id());
    assert(v.by_id().remove(r.id).insert(r.id, r) =~= v.by_id().insert(r.id, r));
}

/// Where two well-formed stores hold the same records under the same ids,
/// a record stands in the second at least as far back as in the first.
proof fn lemma_place_does_not_fall_back(a: DayDataView, b: DayDataView, i: int)
    requires
        a.wf(),
        b.wf(),
        a.by_id() == b.by_id(),
        0 <= i < a.records.len(),
    ensures
        b.contains_id(a.records[i].id),
        b.records[b.index_of(a.records[i].id)] == a.records[i],
        i <= b.index_of(a.records[i].id) < b.records.len(),
    decreases i,
{
    let id = a.records[i].id;
    lemma_by_id_holds_each_record(a, i);
    assert(b.by_id().contains_key(id));
    lemma_by_id_holds_only_records(b, id);
    let j = b.index_of(id);
    if i > 0 {
        lemma_place_does_not_fall_back(a, b, i - 1);
        let j0 = b.index_of(a.records[i - 1].id);
        assert(comes_before(a.records[i - 1], a.records[i]));
        assert(a.records[i - 1].id != a.records[i].id);
        if j < j0 {
            assert(comes_before(b.records[j], b.records[j0]));
        }
    }
}

/// The sorted view follows from the mapping: two well-formed stores that
/// hold the same records under the same ids list them in the same order.
pub proof fn lemma_sorted_view_follows_from_mapping(a: DayDataView, b: DayDataView)
    requires
        a.wf(),
        b.wf(),
        a.by_id() == b.by_id(),
    ensures
        a.records == b.records,
{
    assert forall|i: int| 0 <= i < a.records.len() implies i < b.records.len() && a.records[i]
        == b.records[i] by {
        lemma_place_does_not_fall_back(a, b, i);
        let j = b.index_of(a.records[i].id);
        lemma_place_does_not_fall_back(b, a, j);
        lemma_index_of_own_id(a, i);
    }
    if a.records.len() > 0 {
        lemma_place_does_not_fall_back(a, b, a.records.len() - 1);
    }
    if b.records.len() > 0 {
        lemma_place_does_not_fall_back(b, a, b.records.len() - 1);
    }
    assert(a.records =~= b.records);
}

} // verus!
