use vstd::prelude::*;

use crate::entry::StoreModel;
use serde_json::Value;

verus! {

/// The mathematical image of one stored row: the namespace it lives under,
/// its key, the stored structured value, and the optional absolute expiry
/// instant in seconds.
pub ghost struct RowV {
    pub ns: Seq<char>,
    pub key: Seq<char>,
    pub value: Value,
    pub expires_at: Option<u64>,
}

/// The row occupies the slot (ns, k).
pub open spec fn row_matches(r: RowV, ns: Seq<char>, k: Seq<char>) -> bool {
    r.ns == ns && r.key == k
}

/// Well-formed storage: a key maps to at most one row within a namespace.
pub open spec fn wf_rows(rows: Seq<RowV>) -> bool {
    forall|i: int, j: int|
        0 <= i < rows.len() && 0 <= j < rows.len() && i != j
            ==> !((#[trigger] rows[i]).ns == (#[trigger] rows[j]).ns && rows[i].key == rows[j].key)
}

/// Some row occupies the slot (ns, k).
pub open spec fn has_row(rows: Seq<RowV>, ns: Seq<char>, k: Seq<char>) -> bool {
    exists|i: int| 0 <= i < rows.len() && row_matches(#[trigger] rows[i], ns, k)
}

/// The row occupying the slot (ns, k); meaningful when `has_row` holds and
/// the storage is well-formed.
pub open spec fn row_at(rows: Seq<RowV>, ns: Seq<char>, k: Seq<char>) -> RowV {
    rows[choose|i: int| 0 <= i < rows.len() && row_matches(#[trigger] rows[i], ns, k)]
}

/// An entry is live at `now` when it has no expiry, or its expiry instant
/// has not yet passed. An entry whose instant has passed is logically
/// absent, even if a row for it still physically exists.
pub open spec fn live_at(expires_at: Option<u64>, now: u64) -> bool {
    match expires_at {
        None => true,
        Some(t) => now < t,
    }
}

/// A time-to-live in seconds, relative to `now`, converted to the absolute
/// expiry instant; the instant saturates at the largest representable time.
pub open spec fn expiry_of(ttl: Option<u64>, now: u64) -> Option<u64> {
    match ttl {
        None => None,
        Some(t) => Some(now.saturating_add(t)),
    }
}

/// What a read of (ns, k) at instant `now` yields: the stored value when a
/// live row occupies the slot, and nothing when the slot is empty or the
/// row found there has expired.
pub open spec fn spec_get(rows: Seq<RowV>, ns: Seq<char>, k: Seq<char>, now: u64) -> Option<
    Value,
> {
    if has_row(rows, ns, k) && live_at(row_at(rows, ns, k).expires_at, now) {
        Some(row_at(rows, ns, k).value)
    } else {
        None
    }
}

/// The slot (ns, k) holds the same row in `post` as in `pre`.
pub open spec fn slot_unchanged(
    pre: Seq<RowV>,
    post: Seq<RowV>,
    ns: Seq<char>,
    k: Seq<char>,
) -> bool {
    &&& has_row(post, ns, k) == has_row(pre, ns, k)
    &&& (has_row(pre, ns, k) ==> row_at(post, ns, k) == row_at(pre, ns, k))
}

/// Every slot other than (ns, k) is untouched.
pub open spec fn others_unchanged(
    pre: Seq<RowV>,
    post: Seq<RowV>,
    ns: Seq<char>,
    k: Seq<char>,
) -> bool {
    forall|ns2: Seq<char>, k2: Seq<char>|
        !(ns2 == ns && k2 == k) ==> #[trigger] slot_unchanged(pre, post, ns2, k2)
}

/// Every slot outside namespace `ns` is untouched.
pub open spec fn other_namespaces_unchanged(
    pre: Seq<RowV>,
    post: Seq<RowV>,
    ns: Seq<char>,
) -> bool {
    forall|ns2: Seq<char>, k2: Seq<char>|
        ns2 != ns ==> #[trigger] slot_unchanged(pre, post, ns2, k2)
}

/// `post` is `pre` with the entry for (ns, k) fully replaced: the new row
/// holds `value` with expiry `exp`, and every other slot is untouched.
pub open spec fn set_post(
    pre: Seq<RowV>,
    post: Seq<RowV>,
    ns: Seq<char>,
    k: Seq<char>,
    value: Value,
    exp: Option<u64>,
) -> bool {
    &&& has_row(post, ns, k)
    &&& row_at(post, ns, k) == (RowV { ns, key: k, value, expires_at: exp })
    &&& others_unchanged(pre, post, ns, k)
}

/// The reported previous entry is exactly what the slot (ns, k) held in
/// `pre`: its value and expiry when a row was there, and nothing otherwise.
pub open spec fn prev_post(
    pre: Seq<RowV>,
    ns: Seq<char>,
    k: Seq<char>,
    prev: Option<StoreModel>,
) -> bool {
    match prev {
        Some(m) => {
            &&& has_row(pre, ns, k)
            &&& m.key@ == k
            &&& m.value == row_at(pre, ns, k).value
            &&& m.expires_at == row_at(pre, ns, k).expires_at
        },
        None => !has_row(pre, ns, k),
    }
}

/// `post` is `pre` with the slot (ns, k) emptied and every other slot
/// untouched; emptying an already empty slot is a no-op.
pub open spec fn remove_post(pre: Seq<RowV>, post: Seq<RowV>, ns: Seq<char>, k: Seq<char>) -> bool {
    &&& !has_row(post, ns, k)
    &&& others_unchanged(pre, post, ns, k)
}

/// The key `k` appears among `ks`.
pub open spec fn key_listed(ks: Seq<Seq<char>>, k: Seq<char>) -> bool {
    exists|i: int| 0 <= i < ks.len() && #[trigger] ks[i] == k
}

/// The views of a list of exec keys.
pub open spec fn key_views(keys: Seq<String>) -> Seq<Seq<char>> {
    keys.map_values(|s: String| s@)
}

/// `post` is `pre` with the slots of every key in `ks` under `ns` emptied,
/// whether or not a row was there, and every other slot untouched.
pub open spec fn remove_many_post(
    pre: Seq<RowV>,
    post: Seq<RowV>,
    ns: Seq<char>,
    ks: Seq<Seq<char>>,
) -> bool {
    &&& forall|i: int| 0 <= i < ks.len() ==> !has_row(post, ns, #[trigger] ks[i])
    &&& forall|ns2: Seq<char>, k2: Seq<char>|
        !(ns2 == ns && key_listed(ks, k2)) ==> #[trigger] slot_unchanged(pre, post, ns2, k2)
}

/// What even a failed batch removal may do at worst: every slot outside
/// the batch — other namespaces included — is untouched, and each batch
/// slot either keeps its exact prior row or is emptied, never altered.
pub open spec fn remove_many_frame(
    pre: Seq<RowV>,
    post: Seq<RowV>,
    ns: Seq<char>,
    ks: Seq<Seq<char>>,
) -> bool {
    &&& forall|ns2: Seq<char>, k2: Seq<char>|
        !(ns2 == ns && key_listed(ks, k2)) ==> #[trigger] slot_unchanged(pre, post, ns2, k2)
    &&& forall|i: int|
        0 <= i < ks.len() ==> (slot_unchanged(pre, post, ns, #[trigger] ks[i]) || !has_row(
            post,
            ns,
            ks[i],
        ))
}

/// `post` is `pre` with every slot of namespace `ns` emptied; slots of every
/// other namespace sharing the same physical storage are untouched.
pub open spec fn clear_post(pre: Seq<RowV>, post: Seq<RowV>, ns: Seq<char>) -> bool {
    &&& forall|k: Seq<char>| !#[trigger] has_row(post, ns, k)
    &&& other_namespaces_unchanged(pre, post, ns)
}

/// What even a failed clear may do at worst: slots of every other
/// namespace are untouched, and each slot of the cleared namespace either
/// keeps its exact prior row or is emptied — deletions only, never
/// alterations or insertions.
pub open spec fn clear_frame(pre: Seq<RowV>, post: Seq<RowV>, ns: Seq<char>) -> bool {
    &&& other_namespaces_unchanged(pre, post, ns)
    &&& forall|k: Seq<char>| #[trigger] slot_unchanged(pre, post, ns, k) || !has_row(post, ns, k)
}

/// One listed entry reports a row of (ns, its key) faithfully and is live.
pub open spec fn list_entry_ok(rows: Seq<RowV>, ns: Seq<char>, now: u64, m: StoreModel) -> bool {
    &&& has_row(rows, ns, m.key@)
    &&& m.value == row_at(rows, ns, m.key@).value
    &&& m.expires_at == row_at(rows, ns, m.key@).expires_at
    &&& live_at(m.expires_at, now)
}

/// The key `k` appears among the listed entries.
pub open spec fn listed_key(out: Seq<StoreModel>, k: Seq<char>) -> bool {
    exists|j: int| 0 <= j < out.len() && (#[trigger] out[j]).key@ == k
}

/// A listing of namespace `ns` at instant `now`: every listed entry reports
/// a live row faithfully, no key is listed twice, and every live key of the
/// namespace is listed.
pub open spec fn list_post(
    rows: Seq<RowV>,
    ns: Seq<char>,
    now: u64,
    out: Seq<StoreModel>,
) -> bool {
    &&& forall|j: int| 0 <= j < out.len() ==> list_entry_ok(rows, ns, now, #[trigger] out[j])
    &&& forall|j1: int, j2: int|
        0 <= j1 < out.len() && 0 <= j2 < out.len() && j1 != j2
            ==> (#[trigger] out[j1]).key@ != (#[trigger] out[j2]).key@
    &&& forall|k: Seq<char>|
        #[trigger] has_row(rows, ns, k) && live_at(row_at(rows, ns, k).expires_at, now)
            ==> listed_key(out, k)
}

/// The live rows of namespace `ns` at instant `now`, in row order.
pub open spec fn live_list(rows: Seq<RowV>, ns: Seq<char>, now: u64) -> Seq<RowV>
    decreases rows.len(),
{
    if rows.len() == 0 {
        Seq::empty()
    } else {
        let rest = live_list(rows.drop_last(), ns, now);
        let last = rows.last();
        if last.ns == ns && live_at(last.expires_at, now) {
            rest.push(last)
        } else {
            rest
        }
    }
}

/// The listed entries report exactly the given rows, in the same order:
/// the listing is thereby a function of the rows alone, so repeated
/// listings of an unchanged store agree.
pub open spec fn models_match(rs: Seq<RowV>, out: Seq<StoreModel>) -> bool {
    &&& out.len() == rs.len()
    &&& forall|j: int|
        0 <= j < rs.len() ==> {
            &&& (#[trigger] out[j]).key@ == rs[j].key
            &&& out[j].value == rs[j].value
            &&& out[j].expires_at == rs[j].expires_at
        }
}

/// Under well-formedness, the row at any matching index is the row of its
/// slot.
pub proof fn lemma_row_at_index(rows: Seq<RowV>, ns: Seq<char>, k: Seq<char>, i: int)
    requires
        wf_rows(rows),
        0 <= i < rows.len(),
        row_matches(rows[i], ns, k),
    ensures
        has_row(rows, ns, k),
        row_at(rows, ns, k) == rows[i],
{
    assert(has_row(rows, ns, k)) by {
        assert(row_matches(rows[i], ns, k));
    }
    let j = choose|j: int| 0 <= j < rows.len() && row_matches(#[trigger] rows[j], ns, k);
    if j != i {
        assert(!(rows[i].ns == rows[j].ns && rows[i].key == rows[j].key));
        assert(false);
    }
}

/// Unchanged storage leaves every slot untouched.
pub proof fn lemma_slots_unchanged_refl(rows: Seq<RowV>)
    ensures
        forall|ns2: Seq<char>, k2: Seq<char>| #[trigger] slot_unchanged(rows, rows, ns2, k2),
{
    assert forall|ns2: Seq<char>, k2: Seq<char>| #[trigger] slot_unchanged(
        rows,
        rows,
        ns2,
        k2,
    ) by {}
}

/// Untouched slots compose across two steps.
pub proof fn lemma_others_unchanged_trans(
    a: Seq<RowV>,
    b: Seq<RowV>,
    c: Seq<RowV>,
    ns: Seq<char>,
    k: Seq<char>,
)
    requires
        others_unchanged(a, b, ns, k),
        others_unchanged(b, c, ns, k),
    ensures
        others_unchanged(a, c, ns, k),
{
    assert forall|ns2: Seq<char>, k2: Seq<char>| !(ns2 == ns && k2 == k) implies #[trigger] slot_unchanged(
        a,
        c,
        ns2,
        k2,
    ) by {
        assert(slot_unchanged(a, b, ns2, k2));
        assert(slot_unchanged(b, c, ns2, k2));
    }
}

/// Appending a row for an empty slot fills exactly that slot.
pub proof fn lemma_push_row(rows: Seq<RowV>, new: RowV)
    requires
        wf_rows(rows),
        !has_row(rows, new.ns, new.key),
    ensures
        wf_rows(rows.push(new)),
        has_row(rows.push(new), new.ns, new.key),
        row_at(rows.push(new), new.ns, new.key) == new,
        others_unchanged(rows, rows.push(new), new.ns, new.key),
{
    let post = rows.push(new);
    let n = rows.len() as int;
    assert forall|i: int, j: int|
        0 <= i < post.len() && 0 <= j < post.len() && i != j implies !((#[trigger] post[i]).ns
        == (#[trigger] post[j]).ns && post[i].key == post[j].key) by {
        if i < n && j < n {
            assert(post[i] == rows[i]);
            assert(post[j] == rows[j]);
        } else if i == n && j < n {
            if post[j].ns == new.ns && post[j].key == new.key {
                assert(row_matches(rows[j], new.ns, new.key));
                assert(has_row(rows, new.ns, new.key));
            }
        } else {
            if post[i].ns == new.ns && post[i].key == new.key {
                assert(row_matches(rows[i], new.ns, new.key));
                assert(has_row(rows, new.ns, new.key));
            }
        }
    }
    lemma_row_at_index(post, new.ns, new.key, n);
    assert forall|ns2: Seq<char>, k2: Seq<char>|
        !(ns2 == new.ns && k2 == new.key) implies #[trigger] slot_unchanged(
        rows,
        post,
        ns2,
        k2,
    ) by {
        if has_row(rows, ns2, k2) {
            let j = choose|j: int| 0 <= j < rows.len() && row_matches(#[trigger] rows[j], ns2, k2);
            assert(post[j] == rows[j]);
            lemma_row_at_index(post, ns2, k2, j);
            lemma_row_at_index(rows, ns2, k2, j);
        }
        if has_row(post, ns2, k2) {
            let j = choose|j: int| 0 <= j < post.len() && row_matches(#[trigger] post[j], ns2, k2);
            assert(j != n);
            assert(post[j] == rows[j]);
            assert(has_row(rows, ns2, k2)) by {
                assert(row_matches(rows[j], ns2, k2));
            }
        }
    }
}

/// Taking the row at an index out empties exactly its slot.
pub proof fn lemma_remove_row(rows: Seq<RowV>, i: int)
    requires
        wf_rows(rows),
        0 <= i < rows.len(),
    ensures
        wf_rows(rows.remove(i)),
        !has_row(rows.remove(i), rows[i].ns, rows[i].key),
        others_unchanged(rows, rows.remove(i), rows[i].ns, rows[i].key),
{
    let post = rows.remove(i);
    rows.remove_ensures(i);
    // every index of `post` is an index of `rows` other than `i`
    let back = |p: int| if p < i { p } else { p + 1 };
    assert forall|p: int| 0 <= p < post.len() implies #[trigger] post[p] == rows[back(p)] by {
        if p < i {
            assert(post[p] == rows[p]);
        } else {
            assert(post[p] == rows[p + 1]);
        }
    }
    assert forall|p: int, q: int|
        0 <= p < post.len() && 0 <= q < post.len() && p != q implies !((#[trigger] post[p]).ns
        == (#[trigger] post[q]).ns && post[p].key == post[q].key) by {
        assert(post[p] == rows[back(p)]);
        assert(post[q] == rows[back(q)]);
        assert(back(p) != back(q));
    }
    assert forall|p: int| 0 <= p < post.len() implies !row_matches(
        #[trigger] post[p],
        rows[i].ns,
        rows[i].key,
    ) by {
        assert(post[p] == rows[back(p)]);
        assert(back(p) != i);
    }
    assert forall|ns2: Seq<char>, k2: Seq<char>|
        !(ns2 == rows[i].ns && k2 == rows[i].key) implies #[trigger] slot_unchanged(
        rows,
        post,
        ns2,
        k2,
    ) by {
        if has_row(rows, ns2, k2) {
            let j = choose|j: int| 0 <= j < rows.len() && row_matches(#[trigger] rows[j], ns2, k2);
            assert(j != i);
            let p = if j < i { j } else { j - 1 };
            assert(post[p] == rows[j]);
            lemma_row_at_index(post, ns2, k2, p);
            lemma_row_at_index(rows, ns2, k2, j);
        }
        if has_row(post, ns2, k2) {
            let p = choose|p: int| 0 <= p < post.len() && row_matches(#[trigger] post[p], ns2, k2);
            assert(post[p] == rows[back(p)]);
            assert(has_row(rows, ns2, k2)) by {
                assert(row_matches(rows[back(p)], ns2, k2));
            }
        }
    }
}

} // verus!
