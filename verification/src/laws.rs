use vstd::prelude::*;

use crate::entry::StoreModel;
use crate::model::{
    clear_post, expiry_of, has_row, key_listed, lemma_others_unchanged_trans, list_entry_ok,
    list_post, live_at, live_list, models_match, others_unchanged, remove_many_post, remove_post,
    row_at, set_post, slot_unchanged, spec_get, RowV,
};
use serde_json::Value;

verus! {

/// Round trip through the store: reading a key right after a write of it
/// yields exactly the value written, at any instant at which the entry is
/// live — which is every instant when the write carried no expiry.
pub proof fn lemma_set_then_get(
    pre: Seq<RowV>,
    post: Seq<RowV>,
    ns: Seq<char>,
    k: Seq<char>,
    v: Value,
    exp: Option<u64>,
    now: u64,
)
    requires
        set_post(pre, post, ns, k, v, exp),
        live_at(exp, now),
    ensures
        spec_get(post, ns, k, now) == Some(v),
{
}

/// Overwrite: a second write to the same key fully replaces the first, so
/// a read yields the second value, and every other slot still holds what
/// it held before either write.
pub proof fn lemma_overwrite(
    pre: Seq<RowV>,
    mid: Seq<RowV>,
    post: Seq<RowV>,
    ns: Seq<char>,
    k: Seq<char>,
    v1: Value,
    exp1: Option<u64>,
    v2: Value,
    exp2: Option<u64>,
    now: u64,
)
    requires
        set_post(pre, mid, ns, k, v1, exp1),
        set_post(mid, post, ns, k, v2, exp2),
        live_at(exp2, now),
    ensures
        spec_get(post, ns, k, now) == Some(v2),
        others_unchanged(pre, post, ns, k),
{
    lemma_set_then_get(mid, post, ns, k, v2, exp2, now);
    lemma_others_unchanged_trans(pre, mid, post, ns, k);
}

/// Overwrite leaves no trace: when the first value was stored nowhere else
/// in the namespace, no entry of a listing taken after the second write
/// holds it.
pub proof fn lemma_overwrite_no_trace(
    pre: Seq<RowV>,
    mid: Seq<RowV>,
    post: Seq<RowV>,
    ns: Seq<char>,
    k: Seq<char>,
    v1: Value,
    exp1: Option<u64>,
    v2: Value,
    exp2: Option<u64>,
    now: u64,
    out: Seq<StoreModel>,
)
    requires
        set_post(pre, mid, ns, k, v1, exp1),
        set_post(mid, post, ns, k, v2, exp2),
        list_post(post, ns, now, out),
        v1 != v2,
        forall|k2: Seq<char>|
            has_row(pre, ns, k2) ==> (#[trigger] row_at(pre, ns, k2)).value != v1,
    ensures
        forall|j: int| 0 <= j < out.len() ==> (#[trigger] out[j]).value != v1,
{
    assert forall|j: int| 0 <= j < out.len() implies (#[trigger] out[j]).value != v1 by {
        let m = out[j];
        assert(list_entry_ok(post, ns, now, m));
        if m.key@ == k {
            assert(row_at(post, ns, k).value == v2);
        } else {
            assert(slot_unchanged(mid, post, ns, m.key@));
            assert(slot_unchanged(pre, mid, ns, m.key@));
            assert(row_at(pre, ns, m.key@).value != v1);
        }
    }
}

/// Expiry masking: once the expiry instant of a write with a time-to-live
/// has passed, a read of the key yields nothing and a listing does not
/// show the key, even though the row still physically exists.
pub proof fn lemma_ttl_expiry_masks(
    pre: Seq<RowV>,
    post: Seq<RowV>,
    ns: Seq<char>,
    k: Seq<char>,
    v: Value,
    now0: u64,
    ttl: u64,
    now: u64,
    out: Seq<StoreModel>,
)
    requires
        set_post(pre, post, ns, k, v, expiry_of(Some(ttl), now0)),
        now >= now0.saturating_add(ttl),
        list_post(post, ns, now, out),
    ensures
        has_row(post, ns, k),
        spec_get(post, ns, k, now) == None::<Value>,
        forall|j: int| 0 <= j < out.len() ==> (#[trigger] out[j]).key@ != k,
{
    assert(row_at(post, ns, k).expires_at == Some(now0.saturating_add(ttl)));
    assert forall|j: int| 0 <= j < out.len() implies (#[trigger] out[j]).key@ != k by {
        if out[j].key@ == k {
            assert(list_entry_ok(post, ns, now, out[j]));
            assert(live_at(Some(now0.saturating_add(ttl)), now));
        }
    }
}

/// Idempotent removal: removing a key twice succeeds both times; the
/// second removal observes exactly the state the first left, and the final
/// state has the key absent with every other slot untouched.
pub proof fn lemma_remove_idempotent(
    pre: Seq<RowV>,
    mid: Seq<RowV>,
    post: Seq<RowV>,
    ns: Seq<char>,
    k: Seq<char>,
)
    requires
        remove_post(pre, mid, ns, k),
        remove_post(mid, post, ns, k),
    ensures
        !has_row(post, ns, k),
        others_unchanged(pre, post, ns, k),
        forall|ns2: Seq<char>, k2: Seq<char>| #[trigger] slot_unchanged(mid, post, ns2, k2),
{
    lemma_others_unchanged_trans(pre, mid, post, ns, k);
    assert forall|ns2: Seq<char>, k2: Seq<char>| #[trigger] slot_unchanged(
        mid,
        post,
        ns2,
        k2,
    ) by {
        if !(ns2 == ns && k2 == k) {
            assert(slot_unchanged(mid, post, ns2, k2));
        }
    }
}

/// Removing an absent key succeeds with no observable effect at all.
pub proof fn lemma_remove_absent(pre: Seq<RowV>, post: Seq<RowV>, ns: Seq<char>, k: Seq<char>)
    requires
        remove_post(pre, post, ns, k),
        !has_row(pre, ns, k),
    ensures
        forall|ns2: Seq<char>, k2: Seq<char>| #[trigger] slot_unchanged(pre, post, ns2, k2),
{
    assert forall|ns2: Seq<char>, k2: Seq<char>| #[trigger] slot_unchanged(
        pre,
        post,
        ns2,
        k2,
    ) by {
        if !(ns2 == ns && k2 == k) {
            assert(slot_unchanged(pre, post, ns2, k2));
        }
    }
}

/// Batch removal: after removing a batch of keys, a read of any of them
/// yields nothing — whether or not it was present before, so a key absent
/// beforehand is no error — and reads of every slot outside the batch are
/// unchanged, at every instant.
pub proof fn lemma_remove_many_gone(
    pre: Seq<RowV>,
    post: Seq<RowV>,
    ns: Seq<char>,
    ks: Seq<Seq<char>>,
    now: u64,
)
    requires
        remove_many_post(pre, post, ns, ks),
    ensures
        forall|i: int|
            0 <= i < ks.len() ==> spec_get(post, ns, #[trigger] ks[i], now) == None::<Value>,
        forall|ns2: Seq<char>, k2: Seq<char>|
            !(ns2 == ns && key_listed(ks, k2)) ==> #[trigger] spec_get(post, ns2, k2, now)
                == spec_get(pre, ns2, k2, now),
{
    assert forall|ns2: Seq<char>, k2: Seq<char>|
        !(ns2 == ns && key_listed(ks, k2)) implies #[trigger] spec_get(post, ns2, k2, now)
        == spec_get(pre, ns2, k2, now) by {
        assert(slot_unchanged(pre, post, ns2, k2));
    }
}

/// Listing is stable absent mutation: two listings that both report the
/// backend-defined listing of one store state at one instant agree entry
/// for entry, order included.
pub proof fn lemma_list_stable(
    listing: Seq<RowV>,
    out1: Seq<StoreModel>,
    out2: Seq<StoreModel>,
)
    requires
        models_match(listing, out1),
        models_match(listing, out2),
    ensures
        out1.len() == out2.len(),
        forall|j: int|
            0 <= j < out1.len() ==> {
                &&& (#[trigger] out1[j]).key@ == out2[j].key@
                &&& out1[j].value == out2[j].value
                &&& out1[j].expires_at == out2[j].expires_at
            },
{
}

/// Clearing isolates its namespace: after one namespace of a shared
/// physical storage is cleared, it is empty, while a read of any key of
/// any other namespace yields at every instant exactly what it yielded
/// before.
pub proof fn lemma_clear_isolates(
    pre: Seq<RowV>,
    post: Seq<RowV>,
    ns: Seq<char>,
    ns2: Seq<char>,
    k: Seq<char>,
    now: u64,
)
    requires
        clear_post(pre, post, ns),
        ns2 != ns,
    ensures
        spec_get(post, ns, k, now) == None::<Value>,
        slot_unchanged(pre, post, ns2, k),
        spec_get(post, ns2, k, now) == spec_get(pre, ns2, k, now),
{
    assert(slot_unchanged(pre, post, ns2, k));
}

} // verus!
