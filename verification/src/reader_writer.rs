//! The typed writer and reader handles over one store instance.
//!
//! A writer stages entries of any storable value type into its builder and
//! hands the builder to the manager at commit; committing consumes the
//! writer, so a committed instance can never be written again.  A reader is
//! statically typed to one key type and one value type, is opened against a
//! committed instance, and serves exact lookups, prefix enumeration, and the
//! four one-bound range queries, each returning owned copies of the stored
//! data.

use vstd::prelude::*;
use std::marker::PhantomData;
use crate::error::BlockfileError;
use crate::keys::{
    Key, KeyWrapper, KeyView, RangeOp, in_range, lemma_in_range_same_kind,
};
use crate::values::Value;
use crate::storage::{
    Storage, StorageBuilder, StorageV, EntryV, empty_storage_v, upsert, lookup, prefix_filter,
    range_filter, triples_view, Stored, Writeable, Readable,
};
use crate::manager::{StorageManager, InstanceV};

verus! {

/// The entries of `s` whose key is of the concrete type `K`, in order.
pub open spec fn kind_filter<K: Key, VK>(s: Seq<EntryV<VK>>) -> Seq<EntryV<VK>>
    decreases s.len(),
{
    if s.len() == 0 {
        Seq::empty()
    } else {
        let rest = kind_filter::<K, VK>(s.drop_last());
        if K::kind_matches(s.last().key) {
            rest.push(s.last())
        } else {
            rest
        }
    }
}

/// The views of the typed triples a query returns.
pub open spec fn typed_triples_view<K: Key, V: Value>(ts: Seq<(String, K, V)>) -> Seq<
    EntryV<V::ViewKind>,
> {
    Seq::new(
        ts.len(),
        |i: int| EntryV { prefix: ts[i].0@, key: ts[i].1.key_view(), value: ts[i].2.val_view() },
    )
}

/// Stepping a kind filter one entry forward.
proof fn lemma_kind_filter_step<K: Key, VK>(s: Seq<EntryV<VK>>, i: int)
    requires
        0 <= i < s.len(),
    ensures
        kind_filter::<K, VK>(s.take(i + 1)) == if K::kind_matches(s[i].key) {
            kind_filter::<K, VK>(s.take(i)).push(s[i])
        } else {
            kind_filter::<K, VK>(s.take(i))
        },
{
    assert(s.take(i + 1).drop_last() =~= s.take(i));
    assert(s.take(i + 1).last() == s[i]);
}

/// A kind filter over entries that all match is the identity.
proof fn lemma_kind_filter_all<K: Key, VK>(s: Seq<EntryV<VK>>)
    requires
        forall|i: int| 0 <= i < s.len() ==> K::kind_matches(#[trigger] s[i].key),
    ensures
        kind_filter::<K, VK>(s) == s,
    decreases s.len(),
{
    if s.len() > 0 {
        assert(forall|i: int|
            0 <= i < s.drop_last().len() ==> K::kind_matches(#[trigger] s.drop_last()[i].key));
        lemma_kind_filter_all::<K, VK>(s.drop_last());
        assert(K::kind_matches(s[s.len() - 1].key));
        assert(s.drop_last().push(s.last()) =~= s);
    }
}

/// Every entry a range scan keeps is under the prefix and in range.
proof fn lemma_range_filter_pred<VK>(
    s: Seq<EntryV<VK>>,
    p: Seq<char>,
    op: RangeOp,
    bound: KeyView,
    i: int,
)
    requires
        0 <= i < range_filter(s, p, op, bound).len(),
    ensures
        range_filter(s, p, op, bound)[i].prefix == p,
        in_range(op, bound, range_filter(s, p, op, bound)[i].key),
    decreases s.len(),
{
    if s.len() > 0 {
        let rest = range_filter(s.drop_last(), p, op, bound);
        if i < rest.len() {
            lemma_range_filter_pred(s.drop_last(), p, op, bound, i);
        }
    }
}

/// Reconstruct typed keys from the wrapped triples a scan produced, keeping
/// exactly the triples whose key is of the concrete type `K`.
fn convert_triples<K: Key, V: Value>(input: &Vec<(String, KeyWrapper, V)>) -> (out: Vec<
    (String, K, V),
>)
    ensures
        typed_triples_view::<K, V>(out@) == kind_filter::<K, V::ViewKind>(triples_view(input@)),
{
    let ghost s = triples_view(input@);
    let n = input.len();
    let mut out: Vec<(String, K, V)> = Vec::new();
    proof {
        assert(typed_triples_view::<K, V>(out@) =~= kind_filter::<K, V::ViewKind>(s.take(0)));
    }
    let mut i: usize = 0;
    while i < n
        invariant
            n == input.len(),
            i <= n,
            s == triples_view(input@),
            typed_triples_view::<K, V>(out@) == kind_filter::<K, V::ViewKind>(s.take(i as int)),
        decreases n - i,
    {
        proof {
            lemma_kind_filter_step::<K, V::ViewKind>(s, i as int);
            assert(s[i as int] == EntryV {
                prefix: input@[i as int].0@,
                key: input@[i as int].1@,
                value: input@[i as int].2.val_view(),
            });
        }
        let t = &input[i];
        if K::kind_matches_exec(&t.1) {
            proof {
                assert(typed_triples_view::<K, V>(out@).len() == out@.len());
                assert(kind_filter::<K, V::ViewKind>(s.take(i as int)).len() == out@.len());
            }
            let k = K::from_wrapper(&t.1);
            out.push((t.0.clone(), k, t.2.clone_value()));
            proof {
                assert(typed_triples_view::<K, V>(out@) =~= kind_filter::<K, V::ViewKind>(
                    s.take(i + 1),
                ));
            }
        }
        i += 1;
    }
    proof {
        assert(s.take(n as int) =~= s);
    }
    out
}

/// The writer handle over one instance's builder.
pub struct MemoryBlockfileWriter {
    builder: StorageBuilder,
}

impl MemoryBlockfileWriter {
    /// The entries staged so far.
    pub closed spec fn contents(&self) -> StorageV {
        self.builder@
    }

    /// The identifier of the instance being built.
    pub closed spec fn id_spec(&self) -> u128 {
        self.builder.id_spec()
    }

    pub closed spec fn wf(&self) -> bool {
        self.builder.wf()
    }

    /// Allocate a fresh instance in the manager and a writer over its empty
    /// builder.  Never fails.
    pub fn new(manager: &mut StorageManager) -> (w: Self)
        requires
            old(manager).wf(),
        ensures
            final(manager).wf(),
            w.wf(),
            !old(manager)@.contains_key(w.id_spec()),
            final(manager)@ == old(manager)@.insert(w.id_spec(), InstanceV::Building),
            w.contents() == empty_storage_v(),
    {
        MemoryBlockfileWriter { builder: manager.create() }
    }

    /// Stage `value` under `(prefix, key)`, replacing any value of the same
    /// value type already staged under that composite key.  Always succeeds.
    pub fn set<K: Key, V: Writeable>(&mut self, prefix: &str, key: K, value: V) -> (r: Result<
        (),
        BlockfileError,
    >)
        requires
            old(self).wf(),
        ensures
            final(self).wf(),
            final(self).id_spec() == old(self).id_spec(),
            final(self).contents() == V::with_entries(
                old(self).contents(),
                upsert(
                    V::entries_in(old(self).contents()),
                    prefix@,
                    key.key_view(),
                    value.val_view(),
                ),
            ),
            r is Ok,
    {
        let w = key.into_wrapper();
        V::write_to_storage(prefix, w, value, &mut self.builder);
        Ok(())
    }

    /// Hand the builder to the manager, which freezes it into an immutable
    /// container under this writer's identifier.  The writer is consumed:
    /// a committed instance cannot be written again.
    pub fn commit(self, manager: &mut StorageManager) -> (r: Result<(), BlockfileError>)
        requires
            old(manager).wf(),
            self.wf(),
        ensures
            final(manager).wf(),
            if old(manager)@.contains_key(self.id_spec()) && old(manager)@[self.id_spec()]
                is Building {
                r is Ok && final(manager)@ == old(manager)@.insert(
                    self.id_spec(),
                    InstanceV::Committed(self.contents()),
                )
            } else {
                (r matches Err(e) && e == BlockfileError::NotFoundError) && final(manager)@ == old(
                    manager,
                )@
            },
    {
        manager.commit(self.builder)
    }

    /// The identifier a reader can later be opened against.
    pub fn id(&self) -> (r: u128)
        ensures
            r == self.id_spec(),
    {
        self.builder.id()
    }
}

/// The reader handle over one committed instance, statically typed to one
/// key type and one value type.
pub struct HashMapBlockfileReader<K, V> {
    storage: Storage,
    key_marker: PhantomData<K>,
    value_marker: PhantomData<V>,
}

impl<K: Key, V: Readable> HashMapBlockfileReader<K, V> {
    /// The committed entries of this reader's value type.
    pub closed spec fn entries(&self) -> Seq<EntryV<V::ViewKind>> {
        V::entries_in(self.storage@)
    }

    /// The identifier of the instance read.
    pub closed spec fn id_spec(&self) -> u128 {
        self.storage.id_spec()
    }

    pub closed spec fn wf(&self) -> bool {
        self.storage.wf()
    }

    /// Open a reader against the committed instance `id`.  Fails if `id`
    /// holds no committed instance — whether unknown or not yet committed —
    /// and never observes a builder's in-progress contents.
    pub fn open(id: u128, manager: &StorageManager) -> (r: Result<Self, BlockfileError>)
        requires
            manager.wf(),
        ensures
            match r {
                Ok(rd) => manager@.contains_key(id) && (manager@[id] matches InstanceV::Committed(
                    sv,
                ) && rd.entries() == V::entries_in(sv)) && rd.wf() && rd.id_spec() == id,
                Err(e) => e == BlockfileError::NotFoundError && !(manager@.contains_key(id)
                    && manager@[id] is Committed),
            },
    {
        match manager.get(id) {
            Ok(storage) => Ok(
                HashMapBlockfileReader {
                    storage,
                    key_marker: PhantomData,
                    value_marker: PhantomData,
                },
            ),
            Err(e) => Err(e),
        }
    }

    /// The value stored under `(prefix, key)`, by copy.  Fails exactly when
    /// no value of this reader's value type is stored under that composite
    /// key.
    pub fn get(&self, prefix: &str, key: K) -> (r: Result<V, BlockfileError>)
        requires
            self.wf(),
        ensures
            match lookup(self.entries(), prefix@, key.key_view()) {
                Some(vv) => r matches Ok(v) && v.val_view() == vv,
                None => r matches Err(e) && e == BlockfileError::NotFoundError,
            },
    {
        let w = key.into_wrapper();
        match V::read_from_storage(prefix, w, &self.storage) {
            Some(v) => Ok(v),
            None => Err(BlockfileError::NotFoundError),
        }
    }

    /// Every entry under `prefix`, in stored order.  Fails exactly when no
    /// entry of this reader's value type sits under `prefix`; entries whose
    /// key is of another concrete type than `K` are left out of the result.
    pub fn get_by_prefix(&self, prefix: &str) -> (r: Result<
        Vec<(String, K, V)>,
        BlockfileError,
    >)
        requires
            self.wf(),
        ensures
            ({
                let under = prefix_filter(self.entries(), prefix@);
                if under.len() == 0 {
                    r matches Err(e) && e == BlockfileError::NotFoundError
                } else {
                    r matches Ok(vals) && typed_triples_view::<K, V>(vals@) == kind_filter::<
                        K,
                        V::ViewKind,
                    >(under)
                }
            }),
    {
        let vals = V::get_by_prefix_from_storage(prefix, &self.storage);
        proof {
            assert(triples_view(vals@).len() == vals@.len());
        }
        if vals.len() == 0 {
            return Err(BlockfileError::NotFoundError);
        }
        Ok(convert_triples(&vals))
    }

    /// Every entry under `prefix` whose key satisfies the range comparison
    /// `op` against `key`, in stored order.  Fails exactly when no entry
    /// matches; a stored key of another concrete type than the bound never
    /// matches.
    fn get_range(&self, prefix: &str, op: RangeOp, key: K) -> (r: Result<
        Vec<(String, K, V)>,
        BlockfileError,
    >)
        requires
            self.wf(),
        ensures
            ({
                let matching = range_filter(self.entries(), prefix@, op, key.key_view());
                if matching.len() == 0 {
                    r matches Err(e) && e == BlockfileError::NotFoundError
                } else {
                    r matches Ok(vals) && typed_triples_view::<K, V>(vals@) == matching
                }
            }),
    {
        let ghost matching = range_filter(self.entries(), prefix@, op, key.key_view());
        proof {
            assert forall|i: int| 0 <= i < matching.len() implies K::kind_matches(
                #[trigger] matching[i].key,
            ) by {
                lemma_range_filter_pred(self.entries(), prefix@, op, key.key_view(), i);
                lemma_in_range_same_kind(op, key.key_view(), matching[i].key);
                key.kind_is_same_kind(matching[i].key);
            }
            lemma_kind_filter_all::<K, V::ViewKind>(matching);
        }
        let w = key.into_wrapper();
        let vals = V::read_range_from_storage(prefix, op, &w, &self.storage);
        proof {
            assert(triples_view(vals@).len() == vals@.len());
        }
        if vals.len() == 0 {
            return Err(BlockfileError::NotFoundError);
        }
        Ok(convert_triples(&vals))
    }

    /// Every entry under `prefix` whose key is strictly greater than `key`.
    pub fn get_gt(&self, prefix: &str, key: K) -> (r: Result<
        Vec<(String, K, V)>,
        BlockfileError,
    >)
        requires
            self.wf(),
        ensures
            ({
                let matching = range_filter(self.entries(), prefix@, RangeOp::Gt, key.key_view());
                if matching.len() == 0 {
                    r matches Err(e) && e == BlockfileError::NotFoundError
                } else {
                    r matches Ok(vals) && typed_triples_view::<K, V>(vals@) == matching
                }
            }),
    {
        self.get_range(prefix, RangeOp::Gt, key)
    }

    /// Every entry under `prefix` whose key is strictly less than `key`.
    pub fn get_lt(&self, prefix: &str, key: K) -> (r: Result<
        Vec<(String, K, V)>,
        BlockfileError,
    >)
        requires
            self.wf(),
        ensures
            ({
                let matching = range_filter(self.entries(), prefix@, RangeOp::Lt, key.key_view());
                if matching.len() == 0 {
                    r matches Err(e) && e == BlockfileError::NotFoundError
                } else {
                    r matches Ok(vals) && typed_triples_view::<K, V>(vals@) == matching
                }
            }),
    {
        self.get_range(prefix, RangeOp::Lt, key)
    }

    /// Every entry under `prefix` whose key is greater than or equal to
    /// `key`.
    pub fn get_gte(&self, prefix: &str, key: K) -> (r: Result<
        Vec<(String, K, V)>,
        BlockfileError,
    >)
        requires
            self.wf(),
        ensures
            ({
                let matching = range_filter(self.entries(), prefix@, RangeOp::Gte, key.key_view());
                if matching.len() == 0 {
                    r matches Err(e) && e == BlockfileError::NotFoundError
                } else {
                    r matches Ok(vals) && typed_triples_view::<K, V>(vals@) == matching
                }
            }),
    {
        self.get_range(prefix, RangeOp::Gte, key)
    }

    /// Every entry under `prefix` whose key is less than or equal to `key`.
    pub fn get_lte(&self, prefix: &str, key: K) -> (r: Result<
        Vec<(String, K, V)>,
        BlockfileError,
    >)
        requires
            self.wf(),
        ensures
            ({
                let matching = range_filter(self.entries(), prefix@, RangeOp::Lte, key.key_view());
                if matching.len() == 0 {
                    r matches Err(e) && e == BlockfileError::NotFoundError
                } else {
                    r matches Ok(vals) && typed_triples_view::<K, V>(vals@) == matching
                }
            }),
    {
        self.get_range(prefix, RangeOp::Lte, key)
    }

    /// The identifier of the instance this reader reads.
    pub fn id(&self) -> (r: u128)
        ensures
            r == self.id_spec(),
    {
        self.storage.id()
    }
}

} // verus!
