//! Properties of merging a run's answers into a store.

use vstd::prelude::*;

use crate::store::{merged, RecordModel, StoreMap};

verus! {

/// A name that no record answers keeps whatever the store held under it:
/// present with the same values, or absent.
pub proof fn lemma_unanswered_name_kept(m: StoreMap, recs: Seq<RecordModel>, k: Seq<char>)
    requires
        forall|j: int| 0 <= j < recs.len() && #[trigger] recs[j].0 == k ==> recs[j].2,
    ensures
        merged(m, recs).contains_key(k) == m.contains_key(k),
        m.contains_key(k) ==> merged(m, recs)[k] == m[k],
    decreases recs.len(),
{
    if recs.len() > 0 {
        let init = recs.drop_last();
        assert forall|j: int| 0 <= j < init.len() && #[trigger] init[j].0 == k implies init[j].2 by {
            assert(recs[j] == init[j]);
        }
        lemma_unanswered_name_kept(m, init, k);
        assert(recs.last() == recs[recs.len() - 1]);
    }
}

/// Preservation: every name that the run did not visit keeps its stored
/// values, and no name the run did not visit is added.
pub proof fn lemma_unvisited_names_preserved(m: StoreMap, recs: Seq<RecordModel>, k: Seq<char>)
    requires
        forall|j: int| 0 <= j < recs.len() ==> #[trigger] recs[j].0 != k,
    ensures
        merged(m, recs).contains_key(k) == m.contains_key(k),
        m.contains_key(k) ==> merged(m, recs)[k] == m[k],
{
    lemma_unanswered_name_kept(m, recs, k);
}

/// Overwrite: a question answered with some values has exactly those values in
/// the result, whatever was stored before, unless a later record of the run
/// answers the same name again.
pub proof fn lemma_answer_overwrites(m: StoreMap, recs: Seq<RecordModel>, i: int)
    requires
        0 <= i < recs.len(),
        !recs[i].2,
        forall|j: int| i < j < recs.len() && #[trigger] recs[j].0 == recs[i].0 ==> recs[j].2,
    ensures
        merged(m, recs).contains_key(recs[i].0),
        merged(m, recs)[recs[i].0] == recs[i].1,
    decreases recs.len(),
{
    let init = recs.drop_last();
    assert(recs.last() == recs[recs.len() - 1]);
    if i < recs.len() - 1 {
        assert(init[i] == recs[i]);
        assert forall|j: int| i < j < init.len() && #[trigger] init[j].0 == init[i].0 implies init[j].2 by {
            assert(recs[j] == init[j]);
        }
        lemma_answer_overwrites(m, init, i);
    }
}

/// Skip-preserves: a name whose only records were skipped is present in the
/// result exactly when it was stored before, and then with the same values.
pub proof fn lemma_skip_preserves(m: StoreMap, recs: Seq<RecordModel>, i: int)
    requires
        0 <= i < recs.len(),
        recs[i].2,
        forall|j: int| 0 <= j < recs.len() && #[trigger] recs[j].0 == recs[i].0 ==> recs[j].2,
    ensures
        merged(m, recs).contains_key(recs[i].0) == m.contains_key(recs[i].0),
        m.contains_key(recs[i].0) ==> merged(m, recs)[recs[i].0] == m[recs[i].0],
{
    lemma_unanswered_name_kept(m, recs, recs[i].0);
}

/// Merging is the stored map overridden by what the run answered.
pub proof fn lemma_merged_is_override(m: StoreMap, recs: Seq<RecordModel>)
    ensures
        merged(m, recs) == m.union_prefer_right(merged(Map::empty(), recs)),
    decreases recs.len(),
{
    if recs.len() == 0 {
        assert(m.union_prefer_right(Map::empty()) =~= m);
    } else {
        let init = recs.drop_last();
        lemma_merged_is_override(m, init);
        let a = merged(Map::empty(), init);
        let r = recs.last();
        if !r.2 {
            assert(m.union_prefer_right(a).insert(r.0, r.1) =~= m.union_prefer_right(
                a.insert(r.0, r.1),
            ));
        }
    }
}

/// Idempotence: merging the same records a second time changes nothing.
pub proof fn lemma_merge_idempotent(m: StoreMap, recs: Seq<RecordModel>)
    ensures
        merged(merged(m, recs), recs) == merged(m, recs),
{
    let a = merged(Map::empty(), recs);
    lemma_merged_is_override(m, recs);
    lemma_merged_is_override(merged(m, recs), recs);
    assert(m.union_prefer_right(a).union_prefer_right(a) =~= m.union_prefer_right(a));
}

} // verus!
