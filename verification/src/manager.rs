//! The process-wide registry of store instances.
//!
//! The manager maps each instance identifier to its lifecycle state:
//! `Building` while a writer is staging entries, `Committed` once the
//! builder's contents have been frozen.  Committing replaces the slot
//! atomically; a reader can only ever obtain a fully committed container,
//! never a builder's in-progress contents.

use vstd::prelude::*;
use std::collections::HashMap;
use crate::error::BlockfileError;
use crate::storage::{Storage, StorageBuilder, StorageV, empty_storage_v};

verus! {

broadcast use vstd::std_specs::hash::group_hash_axioms;

/// One instance's lifecycle state.  No transition leaves `Committed`.
pub enum InstanceState {
    Building,
    Committed(Storage),
}

/// The mathematical value of one registry slot.
pub ghost enum InstanceV {
    Building,
    Committed(StorageV),
}

/// The mathematical value of an instance's state.
pub open spec fn instance_view(st: InstanceState) -> InstanceV {
    match st {
        InstanceState::Building => InstanceV::Building,
        InstanceState::Committed(s) => InstanceV::Committed(s@),
    }
}

/// Relies on uuid's `Uuid::new_v4` for a freshly generated random version-4
/// identifier, read out through `Uuid::as_u128`.  Nothing is assumed of the
/// returned value.
#[verifier::external_body]
fn generate_instance_id() -> u128 {
    uuid::Uuid::new_v4().as_u128()
}

/// The identifiers below `k`.
spec fn ids_below(k: u128) -> Set<u128> {
    Set::new(|x: u128| x < k)
}

proof fn lemma_ids_below_len(k: u128)
    ensures
        ids_below(k).finite(),
        ids_below(k).len() == k,
    decreases k,
{
    if k == 0 {
        assert(ids_below(0) =~= Set::<u128>::empty());
    } else {
        let k1 = (k - 1) as u128;
        lemma_ids_below_len(k1);
        assert(ids_below(k) =~= ids_below(k1).insert(k1));
        assert(!ids_below(k1).contains(k1));
    }
}

/// The process-wide authority over instance lifecycle: creation, commit, and
/// retrieval of committed containers.
pub struct StorageManager {
    registry: HashMap<u128, InstanceState>,
}

impl View for StorageManager {
    type V = Map<u128, InstanceV>;

    closed spec fn view(&self) -> Map<u128, InstanceV> {
        Map::new(
            |id: u128| self.registry@.contains_key(id),
            |id: u128| instance_view(self.registry@[id]),
        )
    }
}

impl StorageManager {
    /// Every committed container is internally well-formed and filed under
    /// its own identifier.
    pub closed spec fn wf(&self) -> bool {
        forall|id: u128|
            #[trigger] self.registry@.contains_key(id) ==> match self.registry@[id] {
                InstanceState::Committed(s) => s.wf() && s.id_spec() == id,
                InstanceState::Building => true,
            }
    }

    /// An empty registry.
    pub fn new() -> (m: Self)
        ensures
            m@ == Map::<u128, InstanceV>::empty(),
            m.wf(),
    {
        let m = StorageManager { registry: HashMap::new() };
        proof {
            assert(m@ =~= Map::<u128, InstanceV>::empty());
        }
        m
    }

    /// An identifier not present in the registry.  The randomly generated
    /// identifier is taken when it is unused — in practice always, since
    /// identifiers are 128-bit random values; were it ever to collide, the
    /// first unused value in `0 ..= n` is taken instead, where `n` is the
    /// registry's size, and one of those `n + 1` candidates must be unused.
    fn fresh_id(&self) -> (id: u128)
        ensures
            !self@.contains_key(id),
    {
        let id = generate_instance_id();
        if !self.registry.contains_key(&id) {
            return id;
        }
        let n = self.registry.len();
        let mut c: u128 = 0;
        while c <= n as u128
            invariant
                n == self.registry@.len(),
                c <= n as u128 + 1,
                forall|j: u128| j < c ==> self.registry@.contains_key(j),
            decreases n as u128 + 1 - c,
        {
            if !self.registry.contains_key(&c) {
                return c;
            }
            c += 1;
        }
        proof {
            let used = self.registry@.dom();
            let candidates = ids_below((n + 1) as u128);
            lemma_ids_below_len((n + 1) as u128);
            assert(candidates.subset_of(used));
            vstd::set_lib::lemma_len_subset(candidates, used);
            assert(used.len() == self.registry@.len());
            assert(false);
        }
        vstd::pervasive::unreached()
    }

    /// Allocate a fresh identifier and an empty builder for it.  Never fails.
    pub fn create(&mut self) -> (b: StorageBuilder)
        requires
            old(self).wf(),
        ensures
            final(self).wf(),
            !old(self)@.contains_key(b.id_spec()),
            final(self)@ == old(self)@.insert(b.id_spec(), InstanceV::Building),
            b@ == empty_storage_v(),
            b.wf(),
    {
        let id = self.fresh_id();
        self.registry.insert(id, InstanceState::Building);
        proof {
            assert(self@ =~= old(self)@.insert(id, InstanceV::Building));
        }
        StorageBuilder::new_for(id)
    }

    /// Freeze the builder's contents into an immutable container, published
    /// under the builder's identifier.  Fails, changing nothing, unless that
    /// identifier holds a builder slot in this registry.
    pub fn commit(&mut self, builder: StorageBuilder) -> (r: Result<(), BlockfileError>)
        requires
            old(self).wf(),
            builder.wf(),
        ensures
            final(self).wf(),
            if old(self)@.contains_key(builder.id_spec()) && old(self)@[builder.id_spec()]
                is Building {
                r is Ok && final(self)@ == old(self)@.insert(
                    builder.id_spec(),
                    InstanceV::Committed(builder@),
                )
            } else {
                (r matches Err(e) && e == BlockfileError::NotFoundError) && final(self)@ == old(
                    self,
                )@
            },
    {
        let id = builder.id();
        let slot_is_building = match self.registry.get(&id) {
            Some(st) => match st {
                InstanceState::Building => true,
                InstanceState::Committed(_) => false,
            },
            None => false,
        };
        if slot_is_building {
            let ghost bv = builder@;
            let storage = builder.freeze();
            self.registry.insert(id, InstanceState::Committed(storage));
            proof {
                assert(self@ =~= old(self)@.insert(id, InstanceV::Committed(bv)));
            }
            Ok(())
        } else {
            Err(BlockfileError::NotFoundError)
        }
    }

    /// The committed container under `id`, by copy.  Fails if `id` holds no
    /// committed instance — unknown and not-yet-committed identifiers are
    /// indistinguishable here.
    pub fn get(&self, id: u128) -> (r: Result<Storage, BlockfileError>)
        requires
            self.wf(),
        ensures
            match r {
                Ok(s) => self@.contains_key(id) && self@[id] == InstanceV::Committed(s@) && s.wf()
                    && s.id_spec() == id,
                Err(e) => e == BlockfileError::NotFoundError && !(self@.contains_key(id)
                    && self@[id] is Committed),
            },
    {
        match self.registry.get(&id) {
            Some(st) => match st {
                InstanceState::Committed(s) => Ok(s.clone_storage()),
                InstanceState::Building => Err(BlockfileError::NotFoundError),
            },
            None => Err(BlockfileError::NotFoundError),
        }
    }
}

} // verus!
