//! The storage containers: a mutable builder and an immutable committed
//! container, both holding `(prefix, key) -> value` entries, partitioned by
//! concrete value type.
//!
//! Each partition is a sequence of entries with pairwise-distinct
//! `(prefix, key)` composite keys, so it denotes a finite map.  Writing an
//! entry replaces the value under an existing composite key and appends
//! otherwise; lookups and scans are resolved against that map.

use vstd::prelude::*;
use vstd::pervasive::VecAdditionalExecFns;
use crate::keys::{KeyWrapper, KeyView, RangeOp, in_range, key_in_range_exec, key_eq_exec, clone_key};
use crate::values::{Value, DataRecord, DataRecordV};

verus! {

/// One stored entry: a namespace prefix, a type-erased key, and a value.
pub struct Entry<T> {
    pub prefix: String,
    pub key: KeyWrapper,
    pub value: T,
}

/// The mathematical value of one stored entry.
pub ghost struct EntryV<VK> {
    pub prefix: Seq<char>,
    pub key: KeyView,
    pub value: VK,
}

/// Whether entry `e` sits at the composite key `(p, k)`.
pub open spec fn entry_at<VK>(e: EntryV<VK>, p: Seq<char>, k: KeyView) -> bool {
    e.prefix == p && e.key == k
}

/// Pairwise distinctness of composite keys: the sequence denotes a map.
pub open spec fn wf_entries<VK>(s: Seq<EntryV<VK>>) -> bool {
    forall|i: int, j: int|
        0 <= i < j < s.len() ==> !(s[j].prefix == s[i].prefix && s[j].key == s[i].key)
}

/// Whether some entry sits at the composite key `(p, k)`.
pub open spec fn has_entry<VK>(s: Seq<EntryV<VK>>, p: Seq<char>, k: KeyView) -> bool {
    exists|i: int| 0 <= i < s.len() && entry_at(s[i], p, k)
}

/// The position of the entry at `(p, k)`, when one exists.
pub open spec fn entry_index<VK>(s: Seq<EntryV<VK>>, p: Seq<char>, k: KeyView) -> int {
    choose|i: int| 0 <= i < s.len() && entry_at(s[i], p, k)
}

/// The value stored at `(p, k)`, if any.
pub open spec fn lookup<VK>(s: Seq<EntryV<VK>>, p: Seq<char>, k: KeyView) -> Option<VK> {
    if has_entry(s, p, k) {
        Some(s[entry_index(s, p, k)].value)
    } else {
        None
    }
}

/// The entries after writing `v` under `(p, k)`: the value under an existing
/// composite key is replaced in place, a new composite key is appended.
pub open spec fn upsert<VK>(s: Seq<EntryV<VK>>, p: Seq<char>, k: KeyView, v: VK) -> Seq<
    EntryV<VK>,
> {
    if has_entry(s, p, k) {
        s.update(entry_index(s, p, k), EntryV { prefix: p, key: k, value: v })
    } else {
        s.push(EntryV { prefix: p, key: k, value: v })
    }
}

/// The entries under prefix `p`, in stored order.
pub open spec fn prefix_filter<VK>(s: Seq<EntryV<VK>>, p: Seq<char>) -> Seq<EntryV<VK>>
    decreases s.len(),
{
    if s.len() == 0 {
        Seq::empty()
    } else {
        let rest = prefix_filter(s.drop_last(), p);
        if s.last().prefix == p {
            rest.push(s.last())
        } else {
            rest
        }
    }
}

/// The entries under prefix `p` whose key satisfies the range comparison
/// `op` against `bound`, in stored order.
pub open spec fn range_filter<VK>(
    s: Seq<EntryV<VK>>,
    p: Seq<char>,
    op: RangeOp,
    bound: KeyView,
) -> Seq<EntryV<VK>>
    decreases s.len(),
{
    if s.len() == 0 {
        Seq::empty()
    } else {
        let rest = range_filter(s.drop_last(), p, op, bound);
        if s.last().prefix == p && in_range(op, bound, s.last().key) {
            rest.push(s.last())
        } else {
            rest
        }
    }
}

/// In a well-formed entry sequence, the position of the entry at `(p, k)` is
/// the unique index holding that composite key.
pub proof fn lemma_entry_index_is<VK>(s: Seq<EntryV<VK>>, p: Seq<char>, k: KeyView, i: int)
    requires
        wf_entries(s),
        0 <= i < s.len(),
        entry_at(s[i], p, k),
    ensures
        has_entry(s, p, k),
        entry_index(s, p, k) == i,
{
    assert(has_entry(s, p, k));
    let j = entry_index(s, p, k);
    assert(0 <= j < s.len() && entry_at(s[j], p, k));
    if i < j {
        assert(!(s[j].prefix == s[i].prefix && s[j].key == s[i].key));
    } else if j < i {
        assert(!(s[i].prefix == s[j].prefix && s[i].key == s[j].key));
    }
}

/// Writing preserves the distinctness of composite keys.
pub proof fn lemma_upsert_wf<VK>(s: Seq<EntryV<VK>>, p: Seq<char>, k: KeyView, v: VK)
    requires
        wf_entries(s),
    ensures
        wf_entries(upsert(s, p, k, v)),
{
    let t = upsert(s, p, k, v);
    if has_entry(s, p, k) {
        let idx = entry_index(s, p, k);
        assert(0 <= idx < s.len() && entry_at(s[idx], p, k));
        assert forall|a: int, b: int| 0 <= a < b < t.len() implies !(t[b].prefix == t[a].prefix
            && t[b].key == t[a].key) by {
            assert(t[a].prefix == s[a].prefix && t[a].key == s[a].key);
            assert(t[b].prefix == s[b].prefix && t[b].key == s[b].key);
        }
    } else {
        assert forall|a: int, b: int| 0 <= a < b < t.len() implies !(t[b].prefix == t[a].prefix
            && t[b].key == t[a].key) by {
            if b == s.len() {
                assert(!entry_at(s[a], p, k));
            }
        }
    }
}

/// Stepping a prefix scan one entry forward.
proof fn lemma_prefix_filter_step<VK>(s: Seq<EntryV<VK>>, p: Seq<char>, i: int)
    requires
        0 <= i < s.len(),
    ensures
        prefix_filter(s.take(i + 1), p) == if s[i].prefix == p {
            prefix_filter(s.take(i), p).push(s[i])
        } else {
            prefix_filter(s.take(i), p)
        },
{
    assert(s.take(i + 1).drop_last() =~= s.take(i));
    assert(s.take(i + 1).last() == s[i]);
}

/// Stepping a range scan one entry forward.
proof fn lemma_range_filter_step<VK>(
    s: Seq<EntryV<VK>>,
    p: Seq<char>,
    op: RangeOp,
    bound: KeyView,
    i: int,
)
    requires
        0 <= i < s.len(),
    ensures
        range_filter(s.take(i + 1), p, op, bound) == if s[i].prefix == p && in_range(
            op,
            bound,
            s[i].key,
        ) {
            range_filter(s.take(i), p, op, bound).push(s[i])
        } else {
            range_filter(s.take(i), p, op, bound)
        },
{
    assert(s.take(i + 1).drop_last() =~= s.take(i));
    assert(s.take(i + 1).last() == s[i]);
}

/// The views of the entries a scan returns, triple by triple.
pub open spec fn triples_view<T: Value>(ts: Seq<(String, KeyWrapper, T)>) -> Seq<
    EntryV<T::ViewKind>,
> {
    Seq::new(
        ts.len(),
        |i: int| EntryV { prefix: ts[i].0@, key: ts[i].1@, value: ts[i].2.val_view() },
    )
}

/// One partition of a container: the entries of a single value type.
pub struct Partition<T> {
    entries: Vec<Entry<T>>,
}

/// The views of a partition's entries, in stored order.
pub open spec fn entries_view<T: Value>(es: Seq<Entry<T>>) -> Seq<EntryV<T::ViewKind>> {
    Seq::new(
        es.len(),
        |i: int| EntryV { prefix: es[i].prefix@, key: es[i].key@, value: es[i].value.val_view() },
    )
}

impl<T: Value> View for Partition<T> {
    type V = Seq<EntryV<T::ViewKind>>;

    closed spec fn view(&self) -> Seq<EntryV<T::ViewKind>> {
        entries_view(self.entries@)
    }
}

impl<T: Value> Partition<T> {
    /// Composite keys are pairwise distinct.
    pub open spec fn wf(&self) -> bool {
        wf_entries(self@)
    }

    /// An empty partition.
    pub fn new() -> (r: Self)
        ensures
            r@ == Seq::<EntryV<T::ViewKind>>::empty(),
            r.wf(),
    {
        let r = Partition { entries: Vec::new() };
        proof {
            assert(r@ =~= Seq::<EntryV<T::ViewKind>>::empty());
        }
        r
    }

    /// Write `value` under `(prefix, key)`, replacing any value already
    /// stored under that composite key.
    pub fn set(&mut self, prefix: &str, key: KeyWrapper, value: T)
        requires
            old(self).wf(),
        ensures
            final(self).wf(),
            final(self)@ == upsert(old(self)@, prefix@, key@, value.val_view()),
    {
        let ghost s0 = self@;
        let ghost kv = key@;
        let ghost vv = value.val_view();
        let p: String = prefix.to_owned();
        let n = self.entries.len();
        let mut i: usize = 0;
        while i < n
            invariant
                n == self.entries.len(),
                i <= n,
                p@ == prefix@,
                key@ == kv,
                value.val_view() == vv,
                self.entries@ == old(self).entries@,
                self@ == s0,
                wf_entries(s0),
                forall|j: int| 0 <= j < i ==> !entry_at(s0[j], prefix@, kv),
            decreases n - i,
        {
            if self.entries[i].prefix.eq(&p) && key_eq_exec(&self.entries[i].key, &key) {
                proof {
                    assert(self@[i as int] == EntryV {
                        prefix: self.entries@[i as int].prefix@,
                        key: self.entries@[i as int].key@,
                        value: self.entries@[i as int].value.val_view(),
                    });
                    assert(entry_at(s0[i as int], prefix@, kv));
                    lemma_entry_index_is(s0, prefix@, kv, i as int);
                    lemma_upsert_wf(s0, prefix@, kv, vv);
                }
                self.entries.set(i, Entry { prefix: p, key, value });
                proof {
                    let t = s0.update(i as int, EntryV { prefix: prefix@, key: kv, value: vv });
                    assert(self@.len() == t.len());
                    assert(self@[i as int] == t[i as int]);
                    assert forall|j: int| 0 <= j < t.len() && j != i implies self@[j] == t[j] by {
                        assert(self.entries@[j] == old(self).entries@[j]);
                    }
                    assert(self@ =~= t);
                }
                return ;
            }
            i += 1;
        }
        proof {
            assert(!has_entry(s0, prefix@, kv)) by {
                if has_entry(s0, prefix@, kv) {
                    let j = choose|j: int| 0 <= j < s0.len() && entry_at(s0[j], prefix@, kv);
                    assert(!entry_at(s0[j], prefix@, kv));
                }
            }
        }
        self.entries.push(Entry { prefix: p, key, value });
        proof {
            assert(self@ =~= s0.push(EntryV { prefix: prefix@, key: kv, value: vv }));
            lemma_upsert_wf(s0, prefix@, kv, vv);
        }
    }

    /// The value stored under `(prefix, key)`, by copy, if any.
    pub fn get(&self, prefix: &str, key: &KeyWrapper) -> (r: Option<T>)
        requires
            self.wf(),
        ensures
            match lookup(self@, prefix@, key@) {
                Some(vv) => r matches Some(v) && v.val_view() == vv,
                None => r is None,
            },
    {
        let p: String = prefix.to_owned();
        let n = self.entries.len();
        let mut i: usize = 0;
        while i < n
            invariant
                n == self.entries.len(),
                i <= n,
                p@ == prefix@,
                self.wf(),
                forall|j: int| 0 <= j < i ==> !entry_at(self@[j], prefix@, key@),
            decreases n - i,
        {
            if self.entries[i].prefix.eq(&p) && key_eq_exec(&self.entries[i].key, key) {
                proof {
                    assert(entry_at(self@[i as int], prefix@, key@));
                    lemma_entry_index_is(self@, prefix@, key@, i as int);
                }
                return Some(self.entries[i].value.clone_value());
            }
            i += 1;
        }
        proof {
            assert(!has_entry(self@, prefix@, key@)) by {
                if has_entry(self@, prefix@, key@) {
                    let j = choose|j: int|
                        0 <= j < self@.len() && entry_at(self@[j], prefix@, key@);
                    assert(!entry_at(self@[j], prefix@, key@));
                }
            }
        }
        None
    }

    /// Every entry under `prefix`, by copy, in stored order.
    pub fn by_prefix(&self, prefix: &str) -> (r: Vec<(String, KeyWrapper, T)>)
        ensures
            triples_view(r@) == prefix_filter(self@, prefix@),
    {
        let p: String = prefix.to_owned();
        let n = self.entries.len();
        let mut out: Vec<(String, KeyWrapper, T)> = Vec::new();
        proof {
            assert(triples_view(out@) =~= prefix_filter(self@.take(0), prefix@));
        }
        let mut i: usize = 0;
        while i < n
            invariant
                n == self.entries.len(),
                i <= n,
                p@ == prefix@,
                triples_view(out@) == prefix_filter(self@.take(i as int), prefix@),
            decreases n - i,
        {
            proof {
                lemma_prefix_filter_step(self@, prefix@, i as int);
            }
            let e = &self.entries[i];
            if e.prefix.eq(&p) {
                proof {
                    assert(triples_view(out@).len() == out@.len());
                }
                out.push((e.prefix.clone(), clone_key(&e.key), e.value.clone_value()));
                proof {
                    assert(triples_view(out@) =~= prefix_filter(self@.take(i + 1), prefix@));
                }
            }
            i += 1;
        }
        proof {
            assert(self@.take(n as int) =~= self@);
        }
        out
    }

    /// Every entry under `prefix` whose key satisfies the range comparison
    /// `op` against `bound`, by copy, in stored order.
    pub fn range(&self, prefix: &str, op: RangeOp, bound: &KeyWrapper) -> (r: Vec<
        (String, KeyWrapper, T),
    >)
        ensures
            triples_view(r@) == range_filter(self@, prefix@, op, bound@),
    {
        let p: String = prefix.to_owned();
        let n = self.entries.len();
        let mut out: Vec<(String, KeyWrapper, T)> = Vec::new();
        proof {
            assert(triples_view(out@) =~= range_filter(self@.take(0), prefix@, op, bound@));
        }
        let mut i: usize = 0;
        while i < n
            invariant
                n == self.entries.len(),
                i <= n,
                p@ == prefix@,
                triples_view(out@) == range_filter(self@.take(i as int), prefix@, op, bound@),
            decreases n - i,
        {
            proof {
                lemma_range_filter_step(self@, prefix@, op, bound@, i as int);
            }
            let e = &self.entries[i];
            if e.prefix.eq(&p) && key_in_range_exec(op, bound, &e.key) {
                proof {
                    assert(triples_view(out@).len() == out@.len());
                }
                out.push((e.prefix.clone(), clone_key(&e.key), e.value.clone_value()));
                proof {
                    assert(triples_view(out@) =~= range_filter(
                        self@.take(i + 1),
                        prefix@,
                        op,
                        bound@,
                    ));
                }
            }
            i += 1;
        }
        proof {
            assert(self@.take(n as int) =~= self@);
        }
        out
    }

    /// A copy of the partition, entry for entry.
    pub fn clone_part(&self) -> (r: Self)
        ensures
            r@ == self@,
    {
        let n = self.entries.len();
        let mut out: Vec<Entry<T>> = Vec::new();
        proof {
            assert(entries_view(out@) =~= self@.take(0));
        }
        let mut i: usize = 0;
        while i < n
            invariant
                n == self.entries.len(),
                i <= n,
                entries_view(out@) == self@.take(i as int),
            decreases n - i,
        {
            let e = &self.entries[i];
            proof {
                assert(entries_view(out@).len() == out@.len());
            }
            out.push(
                Entry {
                    prefix: e.prefix.clone(),
                    key: clone_key(&e.key),
                    value: e.value.clone_value(),
                },
            );
            proof {
                assert(entries_view(out@) =~= self@.take(i + 1));
            }
            i += 1;
        }
        proof {
            assert(self@.take(n as int) =~= self@);
        }
        Partition { entries: out }
    }
}

/// The mathematical contents of a builder or committed container: one entry
/// sequence per concrete value type.
pub ghost struct StorageV {
    pub strings: Seq<EntryV<Seq<char>>>,
    pub bitmaps: Seq<EntryV<Set<u32>>>,
    pub records: Seq<EntryV<DataRecordV>>,
}

/// Contents with no entries of any value type.
pub open spec fn empty_storage_v() -> StorageV {
    StorageV { strings: Seq::empty(), bitmaps: Seq::empty(), records: Seq::empty() }
}

/// Every partition denotes a map.
pub open spec fn storage_v_wf(sv: StorageV) -> bool {
    wf_entries(sv.strings) && wf_entries(sv.bitmaps) && wf_entries(sv.records)
}

/// The immutable, committed container of one store instance.
pub struct Storage {
    id: u128,
    strings: Partition<String>,
    bitmaps: Partition<roaring::RoaringBitmap>,
    records: Partition<DataRecord>,
}

impl View for Storage {
    type V = StorageV;

    closed spec fn view(&self) -> StorageV {
        StorageV { strings: self.strings@, bitmaps: self.bitmaps@, records: self.records@ }
    }
}

impl Storage {
    /// The identifier of the instance this container holds.
    pub closed spec fn id_spec(&self) -> u128 {
        self.id
    }

    pub open spec fn wf(&self) -> bool {
        storage_v_wf(self@)
    }

    pub fn id(&self) -> (r: u128)
        ensures
            r == self.id_spec(),
    {
        self.id
    }

    /// A copy of the container, entry for entry.
    pub fn clone_storage(&self) -> (r: Storage)
        ensures
            r@ == self@,
            r.id_spec() == self.id_spec(),
    {
        Storage {
            id: self.id,
            strings: self.strings.clone_part(),
            bitmaps: self.bitmaps.clone_part(),
            records: self.records.clone_part(),
        }
    }
}

/// The mutable, write-staging container of one not-yet-committed instance.
pub struct StorageBuilder {
    id: u128,
    strings: Partition<String>,
    bitmaps: Partition<roaring::RoaringBitmap>,
    records: Partition<DataRecord>,
}

impl View for StorageBuilder {
    type V = StorageV;

    closed spec fn view(&self) -> StorageV {
        StorageV { strings: self.strings@, bitmaps: self.bitmaps@, records: self.records@ }
    }
}

impl StorageBuilder {
    /// The identifier of the instance this builder will become.
    pub closed spec fn id_spec(&self) -> u128 {
        self.id
    }

    pub open spec fn wf(&self) -> bool {
        storage_v_wf(self@)
    }

    /// An empty builder for the instance `id`.
    pub(crate) fn new_for(id: u128) -> (b: Self)
        ensures
            b.id_spec() == id,
            b@ == empty_storage_v(),
            b.wf(),
    {
        StorageBuilder {
            id,
            strings: Partition::new(),
            bitmaps: Partition::new(),
            records: Partition::new(),
        }
    }

    pub fn id(&self) -> (r: u128)
        ensures
            r == self.id_spec(),
    {
        self.id
    }

    /// Freeze the accumulated entries into an immutable container.
    pub(crate) fn freeze(self) -> (s: Storage)
        ensures
            s@ == self@,
            s.id_spec() == self.id_spec(),
    {
        Storage {
            id: self.id,
            strings: self.strings,
            bitmaps: self.bitmaps,
            records: self.records,
        }
    }
}

/// Where one value type's entries sit within a container's contents.
///
/// `with_entries` replaces exactly this type's partition and leaves every
/// other partition unchanged, so a write's effect on the whole contents is
/// pinned down by the new partition alone.
pub trait Stored: Value {
    /// This value type's entries within the contents `sv`.
    spec fn entries_in(sv: StorageV) -> Seq<EntryV<Self::ViewKind>>;

    /// The contents `sv` with this value type's entries replaced by `es`.
    spec fn with_entries(sv: StorageV, es: Seq<EntryV<Self::ViewKind>>) -> StorageV;

    /// Replacing this type's entries stores exactly those entries, and
    /// well-formedness follows the partitions.
    proof fn entry_props(sv: StorageV, es: Seq<EntryV<Self::ViewKind>>)
        ensures
            Self::entries_in(Self::with_entries(sv, es)) == es,
            storage_v_wf(sv) ==> wf_entries(Self::entries_in(sv)),
            storage_v_wf(sv) && wf_entries(es) ==> storage_v_wf(Self::with_entries(sv, es)),
    ;
}

/// The write half of the value capability contract.
pub trait Writeable: Stored {
    /// Write one value into the builder under `(prefix, key)`, replacing any
    /// value of this type already stored under that composite key.
    fn write_to_storage(prefix: &str, key: KeyWrapper, value: Self, builder: &mut StorageBuilder)
        requires
            old(builder).wf(),
        ensures
            final(builder).wf(),
            final(builder).id_spec() == old(builder).id_spec(),
            final(builder)@ == Self::with_entries(
                old(builder)@,
                upsert(Self::entries_in(old(builder)@), prefix@, key@, value.val_view()),
            ),
    ;
}

/// The read half of the value capability contract.
pub trait Readable: Stored {
    /// The value of this type stored under `(prefix, key)`, by copy, if any.
    fn read_from_storage(prefix: &str, key: KeyWrapper, storage: &Storage) -> (r: Option<Self>)
        requires
            storage.wf(),
        ensures
            match lookup(Self::entries_in(storage@), prefix@, key@) {
                Some(vv) => r matches Some(v) && v.val_view() == vv,
                None => r is None,
            },
    ;

    /// Every entry of this type under `prefix`, by copy, in stored order.
    fn get_by_prefix_from_storage(prefix: &str, storage: &Storage) -> (r: Vec<
        (String, KeyWrapper, Self),
    >)
        ensures
            triples_view(r@) == prefix_filter(Self::entries_in(storage@), prefix@),
    ;

    /// Every entry of this type under `prefix` whose key satisfies the range
    /// comparison `op` against `bound`, by copy, in stored order.
    fn read_range_from_storage(
        prefix: &str,
        op: RangeOp,
        bound: &KeyWrapper,
        storage: &Storage,
    ) -> (r: Vec<(String, KeyWrapper, Self)>)
        ensures
            triples_view(r@) == range_filter(Self::entries_in(storage@), prefix@, op, bound@),
    ;
}

impl Stored for String {
    open spec fn entries_in(sv: StorageV) -> Seq<EntryV<Seq<char>>> {
        sv.strings
    }

    open spec fn with_entries(sv: StorageV, es: Seq<EntryV<Seq<char>>>) -> StorageV {
        StorageV { strings: es, bitmaps: sv.bitmaps, records: sv.records }
    }

    proof fn entry_props(sv: StorageV, es: Seq<EntryV<Seq<char>>>) {
    }
}

impl Writeable for String {
    fn write_to_storage(prefix: &str, key: KeyWrapper, value: Self, builder: &mut StorageBuilder) {
        let ghost kv = key@;
        let ghost vv = value.val_view();
        builder.strings.set(prefix, key, value);
        proof {
            lemma_upsert_wf(old(builder)@.strings, prefix@, kv, vv);
        }
    }
}

impl Readable for String {
    fn read_from_storage(prefix: &str, key: KeyWrapper, storage: &Storage) -> (r: Option<Self>) {
        storage.strings.get(prefix, &key)
    }

    fn get_by_prefix_from_storage(prefix: &str, storage: &Storage) -> (r: Vec<
        (String, KeyWrapper, Self),
    >) {
        storage.strings.by_prefix(prefix)
    }

    fn read_range_from_storage(
        prefix: &str,
        op: RangeOp,
        bound: &KeyWrapper,
        storage: &Storage,
    ) -> (r: Vec<(String, KeyWrapper, Self)>) {
        storage.strings.range(prefix, op, bound)
    }
}

impl Stored for roaring::RoaringBitmap {
    open spec fn entries_in(sv: StorageV) -> Seq<EntryV<Set<u32>>> {
        sv.bitmaps
    }

    open spec fn with_entries(sv: StorageV, es: Seq<EntryV<Set<u32>>>) -> StorageV {
        StorageV { strings: sv.strings, bitmaps: es, records: sv.records }
    }

    proof fn entry_props(sv: StorageV, es: Seq<EntryV<Set<u32>>>) {
    }
}

impl Writeable for roaring::RoaringBitmap {
    fn write_to_storage(prefix: &str, key: KeyWrapper, value: Self, builder: &mut StorageBuilder) {
        let ghost kv = key@;
        let ghost vv = value.val_view();
        builder.bitmaps.set(prefix, key, value);
        proof {
            lemma_upsert_wf(old(builder)@.bitmaps, prefix@, kv, vv);
        }
    }
}

impl Readable for roaring::RoaringBitmap {
    fn read_from_storage(prefix: &str, key: KeyWrapper, storage: &Storage) -> (r: Option<Self>) {
        storage.bitmaps.get(prefix, &key)
    }

    fn get_by_prefix_from_storage(prefix: &str, storage: &Storage) -> (r: Vec<
        (String, KeyWrapper, Self),
    >) {
        storage.bitmaps.by_prefix(prefix)
    }

    fn read_range_from_storage(
        prefix: &str,
        op: RangeOp,
        bound: &KeyWrapper,
        storage: &Storage,
    ) -> (r: Vec<(String, KeyWrapper, Self)>) {
        storage.bitmaps.range(prefix, op, bound)
    }
}

impl Stored for DataRecord {
    open spec fn entries_in(sv: StorageV) -> Seq<EntryV<DataRecordV>> {
        sv.records
    }

    open spec fn with_entries(sv: StorageV, es: Seq<EntryV<DataRecordV>>) -> StorageV {
        StorageV { strings: sv.strings, bitmaps: sv.bitmaps, records: es }
    }

    proof fn entry_props(sv: StorageV, es: Seq<EntryV<DataRecordV>>) {
    }
}

impl Writeable for DataRecord {
    fn write_to_storage(prefix: &str, key: KeyWrapper, value: Self, builder: &mut StorageBuilder) {
        let ghost kv = key@;
        let ghost vv = value.val_view();
        builder.records.set(prefix, key, value);
        proof {
            lemma_upsert_wf(old(builder)@.records, prefix@, kv, vv);
        }
    }
}

impl Readable for DataRecord {
    fn read_from_storage(prefix: &str, key: KeyWrapper, storage: &Storage) -> (r: Option<Self>) {
        storage.records.get(prefix, &key)
    }

    fn get_by_prefix_from_storage(prefix: &str, storage: &Storage) -> (r: Vec<
        (String, KeyWrapper, Self),
    >) {
        storage.records.by_prefix(prefix)
    }

    fn read_range_from_storage(
        prefix: &str,
        op: RangeOp,
        bound: &KeyWrapper,
        storage: &Storage,
    ) -> (r: Vec<(String, KeyWrapper, Self)>) {
        storage.records.range(prefix, op, bound)
    }
}

} // verus!
