//! Listings of sessions: their order and their length.

use vstd::prelude::*;

use crate::model::{record_before, record_ids, RegistryView};
use crate::text::{
    lemma_text_less_irreflexive, lemma_text_less_transitive, text_before, text_less,
};
use crate::types::{record_views, RecordView, TerminalSessionRecord};

verus! {

/// Records in order, no two with the same id.
pub open spec fn in_order(out: Seq<RecordView>) -> bool {
    forall|i: int, j: int|
        #![trigger out[i], out[j]]
        0 <= i < j < out.len() ==> out[i].id != out[j].id && !record_before(out[j], out[i])
}

proof fn lemma_record_before_transitive(a: RecordView, b: RecordView, c: RecordView)
    requires
        record_before(a, b),
        record_before(b, c),
    ensures
        record_before(a, c),
{
    if text_less(a.project_path_key, b.project_path_key) && text_less(
        b.project_path_key,
        c.project_path_key,
    ) {
        lemma_text_less_transitive(a.project_path_key, b.project_path_key, c.project_path_key);
    }
}

proof fn lemma_record_before_irreflexive(a: RecordView)
    ensures
        !record_before(a, a),
{
    lemma_text_less_irreflexive(a.project_path_key);
}

proof fn lemma_insert_in_order(out: Seq<RecordView>, k: int, record: RecordView)
    requires
        in_order(out),
        0 <= k <= out.len(),
        forall|i: int| 0 <= i < out.len() ==> (#[trigger] out[i]).id != record.id,
        forall|i: int| 0 <= i < k ==> !record_before(record, #[trigger] out[i]),
        k < out.len() ==> record_before(record, out[k]),
    ensures
        in_order(out.insert(k, record)),
        forall|r: RecordView| #[trigger]
            out.insert(k, record).contains(r) <==> out.contains(r) || r == record,
{
    let next = out.insert(k, record);
    assert forall|i: int, j: int|
        #![trigger next[i], next[j]]
        0 <= i < j < next.len() implies next[i].id != next[j].id && !record_before(
        next[j],
        next[i],
    ) by {
        if i == k {
            assert(next[j] == out[j - 1]);
            if record_before(out[j - 1], record) {
                lemma_record_before_transitive(out[j - 1], record, out[k]);
                lemma_record_before_irreflexive(out[k]);
                if k < j - 1 {
                    assert(!record_before(out[j - 1], out[k]));
                }
            }
        } else if j == k {
            assert(next[i] == out[i]);
        } else {
            let a = if i < k {
                i
            } else {
                i - 1
            };
            let b = if j < k {
                j
            } else {
                j - 1
            };
            assert(next[i] == out[a] && next[j] == out[b]);
        }
    }
    assert forall|r: RecordView| #[trigger] next.contains(r) <==> out.contains(r) || r
        == record by {
        if next.contains(r) {
            let i = choose|i: int| 0 <= i < next.len() && next[i] == r;
            if i < k {
                assert(out[i] == r);
            } else if i > k {
                assert(out[i - 1] == r);
            }
        }
        if out.contains(r) {
            let i = choose|i: int| 0 <= i < out.len() && out[i] == r;
            if i < k {
                assert(next[i] == r);
            } else {
                assert(next[i + 1] == r);
            }
        }
        if r == record {
            assert(next[k] == r);
        }
    }
}

fn comes_before(a: &TerminalSessionRecord, b: &TerminalSessionRecord) -> (r: bool)
    ensures
        r == record_before(a@, b@),
{
    text_before(a.project_path_key.as_str(), b.project_path_key.as_str()) || (a.project_path_key
        == b.project_path_key && a.created_at < b.created_at)
}

/// Puts a record behind those that do not come after it.
pub(crate) fn insert_in_order(out: &mut Vec<TerminalSessionRecord>, record: TerminalSessionRecord)
    requires
        in_order(record_views(old(out)@)),
        forall|i: int|
            0 <= i < old(out)@.len() ==> (#[trigger] record_views(old(out)@)[i]).id != record@.id,
    ensures
        in_order(record_views(final(out)@)),
        forall|r: RecordView| #[trigger]
            record_views(final(out)@).contains(r) <==> record_views(old(out)@).contains(r) || r
                == record@,
{
    let ghost views = record_views(out@);
    let mut k: usize = 0;
    while k < out.len() && !comes_before(&record, &out[k])
        invariant
            views == record_views(out@),
            k <= out@.len(),
            forall|i: int| 0 <= i < k ==> !record_before(record@, #[trigger] views[i]),
        decreases out@.len() - k,
    {
        k = k + 1;
    }
    proof {
        if k < out@.len() {
            assert(views[k as int] == out@[k as int]@);
        }
        lemma_insert_in_order(views, k as int, record@);
    }
    out.insert(k, record);
    proof {
        assert(record_views(out@) =~= views.insert(k as int, record@));
    }
}

/// A listing is as long as there are sessions to list, and starts with one of
/// them.
pub proof fn law_listing_length(
    registry: RegistryView,
    project: Option<Seq<char>>,
    out: Seq<RecordView>,
)
    requires
        registry.valid(),
        registry.is_listing(project, out),
    ensures
        out.len() == registry.matching_ids(project).len(),
        out.len() > 0 ==> registry.matching_ids(project).contains(out[0].id),
{
    let ids = record_ids(out);
    let set = registry.matching_ids(project);
    assert forall|i: int, j: int| 0 <= i < j < ids.len() implies ids[i] != ids[j] by {
        assert(out[i].id != out[j].id);
    }
    assert(ids.no_duplicates());
    assert forall|id: Seq<char>| ids.to_set().contains(id) <==> set.contains(id) by {
        if ids.contains(id) {
            let i = choose|i: int| 0 <= i < ids.len() && ids[i] == id;
            assert(out.contains(out[i]));
        }
        if set.contains(id) {
            let record = registry.sessions[id].record;
            assert(registry.sessions.contains_key(id));
            assert(out.contains(record));
            let i = choose|i: int| 0 <= i < out.len() && out[i] == record;
            assert(ids[i] == id);
        }
    }
    assert(ids.to_set() =~= set);
    ids.unique_seq_to_set();
    if out.len() > 0 {
        assert(ids[0] == out[0].id);
        assert(ids.contains(ids[0]));
    }
}

} // verus!
