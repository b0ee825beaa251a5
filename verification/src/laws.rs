//! The store's cross-operation guarantees, stated and proved over the
//! mathematical model that every operation's contract is written against.
//!
//! The writer's `set` stages `upsert(..)` on one value type's entries, the
//! manager's `commit` publishes the builder's contents unchanged, and the
//! reader's queries are `lookup`, `prefix_filter` and `range_filter` over the
//! published contents; so each law below, once proved of those model
//! functions, holds of the corresponding chain of calls.

use vstd::prelude::*;
use crate::keys::{KeyView, RangeOp, in_range, same_kind, key_lt, lemma_key_order_strict_total};
use crate::storage::{
    EntryV, StorageV, storage_v_wf, wf_entries, entry_at, has_entry, entry_index, lookup, upsert,
    prefix_filter, range_filter, lemma_entry_index_is, lemma_upsert_wf, Stored,
};

verus! {

/// Writing a value under `(prefix, key)` and looking that composite key up
/// afterwards yields exactly the value written — for every key value, every
/// value type, and every well-formed prior contents.  Since commit publishes
/// the builder's entries unchanged, this is the write–commit–read round
/// trip.
pub proof fn lemma_set_then_get<V: Stored>(
    sv: StorageV,
    prefix: Seq<char>,
    key: KeyView,
    v: V::ViewKind,
)
    requires
        storage_v_wf(sv),
    ensures
        ({
            let staged = V::with_entries(sv, upsert(V::entries_in(sv), prefix, key, v));
            lookup(V::entries_in(staged), prefix, key) == Some(v)
        }),
{
    V::entry_props(sv, upsert(V::entries_in(sv), prefix, key, v));
    lemma_lookup_upsert(V::entries_in(sv), prefix, key, v);
}

/// After writing `v` under `(p, k)`, the lookup of `(p, k)` yields `v`.
pub proof fn lemma_lookup_upsert<VK>(s: Seq<EntryV<VK>>, p: Seq<char>, k: KeyView, v: VK)
    requires
        wf_entries(s),
    ensures
        lookup(upsert(s, p, k, v), p, k) == Some(v),
{
    let t = upsert(s, p, k, v);
    lemma_upsert_wf(s, p, k, v);
    if has_entry(s, p, k) {
        let idx = entry_index(s, p, k);
        assert(0 <= idx < s.len() && entry_at(s[idx], p, k));
        assert(entry_at(t[idx], p, k));
        lemma_entry_index_is(t, p, k, idx);
    } else {
        assert(entry_at(t[s.len() as int], p, k));
        lemma_entry_index_is(t, p, k, s.len() as int);
    }
}

/// A write disturbs no other composite key: looking up any other
/// `(prefix, key)` pair after the write reads what it read before.
pub proof fn lemma_lookup_upsert_other<VK>(
    s: Seq<EntryV<VK>>,
    p: Seq<char>,
    k: KeyView,
    v: VK,
    p2: Seq<char>,
    k2: KeyView,
)
    requires
        wf_entries(s),
        !(p2 == p && k2 == k),
    ensures
        lookup(upsert(s, p, k, v), p2, k2) == lookup(s, p2, k2),
{
    let t = upsert(s, p, k, v);
    lemma_upsert_wf(s, p, k, v);
    if has_entry(s, p2, k2) {
        let idx = entry_index(s, p2, k2);
        assert(0 <= idx < s.len() && entry_at(s[idx], p2, k2));
        if has_entry(s, p, k) {
            assert(idx != entry_index(s, p, k)) by {
                lemma_entry_index_is(s, p, k, entry_index(s, p, k));
            }
        }
        assert(entry_at(t[idx], p2, k2));
        lemma_entry_index_is(t, p2, k2, idx);
    } else {
        if has_entry(t, p2, k2) {
            let j = choose|j: int| 0 <= j < t.len() && entry_at(t[j], p2, k2);
            if has_entry(s, p, k) {
                assert(entry_at(s[j], p2, k2));
            } else {
                if j < s.len() {
                    assert(entry_at(s[j], p2, k2));
                }
            }
            assert(false);
        }
    }
}

/// A prefix scan returns exactly the entries stored under the requested
/// prefix — every one of them, and none stored under any other prefix,
/// whatever order prefixes were written in.
pub proof fn lemma_prefix_scan_exact<VK>(s: Seq<EntryV<VK>>, p: Seq<char>, e: EntryV<VK>)
    ensures
        prefix_filter(s, p).contains(e) <==> s.contains(e) && e.prefix == p,
    decreases s.len(),
{
    if s.len() > 0 {
        lemma_prefix_scan_exact(s.drop_last(), p, e);
        let f = prefix_filter(s, p);
        let rest = prefix_filter(s.drop_last(), p);
        if s.contains(e) && e.prefix == p {
            let i = choose|i: int| 0 <= i < s.len() && s[i] == e;
            if i < s.len() - 1 {
                assert(s.drop_last()[i] == e);
                assert(s.drop_last().contains(e));
                let j = choose|j: int| 0 <= j < rest.len() && rest[j] == e;
                assert(f[j] == e);
                assert(f.contains(e));
            } else {
                assert(e == s.last());
                assert(f[f.len() - 1] == e);
                assert(f.contains(e));
            }
        }
        if f.contains(e) {
            let j = choose|j: int| 0 <= j < f.len() && f[j] == e;
            if s.last().prefix == p && j == f.len() - 1 {
                assert(e == s.last());
                assert(s[s.len() - 1] == e);
                assert(s.contains(e));
            } else {
                assert(rest[j] == e);
                assert(rest.contains(e));
                let i = choose|i: int| 0 <= i < s.drop_last().len() && s.drop_last()[i] == e;
                assert(s[i] == e);
                assert(s.contains(e));
            }
        }
    }
}

/// A range scan returns exactly the entries stored under the requested
/// prefix whose key satisfies the range comparison against the bound — all
/// of them, and no others.  With the four comparisons this covers the
/// greater-than, greater-or-equal, less-than and less-or-equal queries for
/// every key type, float keys included, whose order is that of their codes.
pub proof fn lemma_range_scan_exact<VK>(
    s: Seq<EntryV<VK>>,
    p: Seq<char>,
    op: RangeOp,
    bound: KeyView,
    e: EntryV<VK>,
)
    ensures
        range_filter(s, p, op, bound).contains(e) <==> s.contains(e) && e.prefix == p && in_range(
            op,
            bound,
            e.key,
        ),
    decreases s.len(),
{
    if s.len() > 0 {
        lemma_range_scan_exact(s.drop_last(), p, op, bound, e);
        let f = range_filter(s, p, op, bound);
        let rest = range_filter(s.drop_last(), p, op, bound);
        if s.contains(e) && e.prefix == p && in_range(op, bound, e.key) {
            let i = choose|i: int| 0 <= i < s.len() && s[i] == e;
            if i < s.len() - 1 {
                assert(s.drop_last()[i] == e);
                assert(s.drop_last().contains(e));
                let j = choose|j: int| 0 <= j < rest.len() && rest[j] == e;
                assert(f[j] == e);
                assert(f.contains(e));
            } else {
                assert(e == s.last());
                assert(f[f.len() - 1] == e);
                assert(f.contains(e));
            }
        }
        if f.contains(e) {
            let j = choose|j: int| 0 <= j < f.len() && f[j] == e;
            if s.last().prefix == p && in_range(op, bound, s.last().key) && j == f.len() - 1 {
                assert(e == s.last());
                assert(s[s.len() - 1] == e);
                assert(s.contains(e));
            } else {
                assert(rest[j] == e);
                assert(rest.contains(e));
                let i = choose|i: int| 0 <= i < s.drop_last().len() && s.drop_last()[i] == e;
                assert(s[i] == e);
                assert(s.contains(e));
            }
        }
    }
}

/// The four range comparisons interlock as a total order requires.  On a
/// stored key of the bound's concrete type: greater-or-equal is
/// greater-than-or-equal, less-or-equal is less-than-or-equal, and each
/// weak comparison holds exactly when the opposite strict one does not —
/// so a key set lying entirely above a bound makes the less-or-equal query
/// signal no matches while the greater-than query returns every key.
pub proof fn lemma_range_ops_interlock(bound: KeyView, k: KeyView)
    requires
        same_kind(bound, k),
    ensures
        in_range(RangeOp::Gte, bound, k) == (in_range(RangeOp::Gt, bound, k) || k == bound),
        in_range(RangeOp::Lte, bound, k) == (in_range(RangeOp::Lt, bound, k) || k == bound),
        in_range(RangeOp::Lte, bound, k) == !in_range(RangeOp::Gt, bound, k),
        in_range(RangeOp::Gte, bound, k) == !in_range(RangeOp::Lt, bound, k),
{
    lemma_key_order_strict_total(bound, k);
}

/// Reads are idempotent: the committed contents pin a lookup's result, so
/// two lookups of the same composite key against the same contents return
/// the same result.
pub proof fn lemma_get_idempotent<VK>(
    s: Seq<EntryV<VK>>,
    p: Seq<char>,
    k: KeyView,
    r1: Option<VK>,
    r2: Option<VK>,
)
    requires
        r1 == lookup(s, p, k),
        r2 == lookup(s, p, k),
    ensures
        r1 == r2,
{
}

} // verus!
