//! The state-store collaborator consumed by the execution core: contract
//! classes by identifier, the address-to-class deployment bindings, contract
//! storage, and the permanent visited-program-counter bookkeeping.
//!
//! The store is an in-memory ledger of bindings; the latest binding for a
//! key wins. Unset storage cells and unbound addresses read as zero.

use vstd::prelude::*;
use crate::errors::PreExecutionError;
use crate::visited_pcs::VisitedPcsSet;

verus! {

/// A contract class identifier.
#[derive(Clone, Copy, Debug, Hash, PartialEq, Eq, Structural)]
pub struct ClassHash(pub u128);

/// A deployed contract's address.
#[derive(Clone, Copy, Debug, Hash, PartialEq, Eq, Structural)]
pub struct ContractAddress(pub u128);

/// One entry point of a compiled class: an invocation selector and the
/// program-counter offset the machine starts from.
#[derive(Clone, Copy, Debug, PartialEq, Eq, Structural)]
pub struct EntryPoint {
    pub selector: u128,
    pub pc: usize,
}

/// A compiled contract class's program metadata: its entry points.
#[derive(Clone, Debug, PartialEq, Eq)]
pub struct ContractClass {
    pub entry_points: Vec<EntryPoint>,
}

/// A declared class: an identifier bound to its compiled class.
#[derive(Clone, Debug, PartialEq, Eq)]
pub struct ClassEntry {
    pub class_hash: ClassHash,
    pub class: ContractClass,
}

/// A deployment: an address bound to a class identifier.
#[derive(Clone, Copy, Debug, PartialEq, Eq, Structural)]
pub struct AddressEntry {
    pub address: ContractAddress,
    pub class_hash: ClassHash,
}

/// One contract storage cell binding.
#[derive(Clone, Copy, Debug, PartialEq, Eq, Structural)]
pub struct StorageEntry {
    pub address: ContractAddress,
    pub key: u128,
    pub value: u128,
}

/// The latest class declared under `h`, if any.
pub open spec fn class_lookup(s: Seq<ClassEntry>, h: ClassHash) -> Option<Seq<EntryPoint>>
    decreases s.len(),
{
    if s.len() == 0 {
        None
    } else if s.last().class_hash == h {
        Some(s.last().class.entry_points@)
    } else {
        class_lookup(s.drop_last(), h)
    }
}

/// The latest class identifier bound at `a`, if any.
pub open spec fn class_at_lookup(s: Seq<AddressEntry>, a: ContractAddress) -> Option<ClassHash>
    decreases s.len(),
{
    if s.len() == 0 {
        None
    } else if s.last().address == a {
        Some(s.last().class_hash)
    } else {
        class_at_lookup(s.drop_last(), a)
    }
}

/// The latest value written to storage cell `(a, k)`, if any.
pub open spec fn storage_lookup(s: Seq<StorageEntry>, a: ContractAddress, k: u128) -> Option<u128>
    decreases s.len(),
{
    if s.len() == 0 {
        None
    } else if s.last().address == a && s.last().key == k {
        Some(s.last().value)
    } else {
        storage_lookup(s.drop_last(), a, k)
    }
}

/// The mathematical content of a state store that the executed program can
/// observe through syscalls: contract storage and the deployment bindings.
#[verifier::ext_equal]
pub ghost struct StateView {
    pub storage: Map<(ContractAddress, u128), u128>,
    pub address_to_class: Map<ContractAddress, ClassHash>,
}

/// The state-store collaborator: class declarations, deployment bindings,
/// contract storage, and visited-program-counter bookkeeping.
#[derive(Debug)]
pub struct StateStore {
    pub classes: Vec<ClassEntry>,
    pub address_to_class: Vec<AddressEntry>,
    pub storage: Vec<StorageEntry>,
    pub visited_pcs: VisitedPcsSet,
}

impl StateStore {
    /// The value of storage cell `(a, k)`; an unwritten cell reads as zero.
    pub open spec fn storage_value(self, a: ContractAddress, k: u128) -> u128 {
        match storage_lookup(self.storage@, a, k) {
            Some(v) => v,
            None => 0,
        }
    }

    /// The class identifier bound at `a`; an undeployed address reads as the
    /// zero class.
    pub open spec fn class_hash_value(self, a: ContractAddress) -> ClassHash {
        match class_at_lookup(self.address_to_class@, a) {
            Some(h) => h,
            None => ClassHash(0),
        }
    }

    /// The entry points of the class declared under `h`, if any.
    pub open spec fn class_value(self, h: ClassHash) -> Option<Seq<EntryPoint>> {
        class_lookup(self.classes@, h)
    }

    /// The syscall-observable content of the store.
    pub open spec fn view_state(self) -> StateView {
        StateView {
            storage: Map::new(
                |p: (ContractAddress, u128)| true,
                |p: (ContractAddress, u128)| self.storage_value(p.0, p.1),
            ),
            address_to_class: Map::new(
                |a: ContractAddress| true,
                |a: ContractAddress| self.class_hash_value(a),
            ),
        }
    }

    /// An empty store: no classes, no deployments, all storage zero.
    pub fn new() -> (r: StateStore)
        ensures
            r.visited_pcs.wf(),
            forall|h: ClassHash| r.class_value(h) is None,
            forall|a: ContractAddress| r.class_hash_value(a) == ClassHash(0),
            forall|a: ContractAddress, k: u128| r.storage_value(a, k) == 0,
            forall|h: ClassHash| r.visited_pcs.pcs_of(h) == Set::<usize>::empty(),
    {
        StateStore {
            classes: Vec::new(),
            address_to_class: Vec::new(),
            storage: Vec::new(),
            visited_pcs: VisitedPcsSet::new(),
        }
    }

    /// Declares a compiled class under `class_hash`; a later declaration for
    /// the same identifier supersedes an earlier one.
    pub fn set_contract_class(&mut self, class_hash: ClassHash, class: ContractClass)
        ensures
            final(self).class_value(class_hash) == Some(class.entry_points@),
            forall|h: ClassHash|
                h != class_hash ==> #[trigger] final(self).class_value(h) == old(self).class_value(
                    h,
                ),
            final(self).address_to_class@ == old(self).address_to_class@,
            final(self).storage@ == old(self).storage@,
            final(self).visited_pcs == old(self).visited_pcs,
    {
        let ghost prior = self.classes@;
        self.classes.push(ClassEntry { class_hash, class });
        proof {
            assert(self.classes@.drop_last() =~= prior);
        }
    }

    /// Resolves the compiled class declared under `class_hash`; fails with
    /// `ClassNotFound` exactly when no class was declared under it.
    pub fn get_contract_class(&self, class_hash: &ClassHash) -> (r: Result<
        &ContractClass,
        PreExecutionError,
    >)
        ensures
            match r {
                Ok(c) => self.class_value(*class_hash) == Some(c.entry_points@),
                Err(e) => self.class_value(*class_hash) is None && e
                    == PreExecutionError::ClassNotFound(*class_hash),
            },
    {
        let n = self.classes.len();
        proof {
            assert(self.classes@.take(n as int) =~= self.classes@);
        }
        let mut i: usize = n;
        while i > 0
            invariant
                i <= n,
                n == self.classes@.len(),
                class_lookup(self.classes@, *class_hash) == class_lookup(
                    self.classes@.take(i as int),
                    *class_hash,
                ),
            decreases i,
        {
            proof {
                assert(self.classes@.take(i as int).drop_last() =~= self.classes@.take(i - 1));
                assert(self.classes@.take(i as int).last() == self.classes@[i - 1]);
            }
            i = i - 1;
            if self.classes[i].class_hash == *class_hash {
                return Ok(&self.classes[i].class);
            }
        }
        proof {
            assert(self.classes@.take(0) =~= Seq::<ClassEntry>::empty());
        }
        Err(PreExecutionError::ClassNotFound(*class_hash))
    }

    /// Registers the address-to-class deployment binding at `address`.
    pub fn set_class_hash_at(&mut self, address: ContractAddress, class_hash: ClassHash)
        ensures
            final(self).class_hash_value(address) == class_hash,
            forall|a: ContractAddress|
                a != address ==> #[trigger] final(self).class_hash_value(a) == old(
                    self,
                ).class_hash_value(a),
            final(self).classes@ == old(self).classes@,
            final(self).storage@ == old(self).storage@,
            final(self).visited_pcs == old(self).visited_pcs,
    {
        let ghost prior = self.address_to_class@;
        self.address_to_class.push(AddressEntry { address, class_hash });
        proof {
            assert(self.address_to_class@.drop_last() =~= prior);
        }
    }

    /// Reads the class identifier bound at `address`; an undeployed address
    /// reads as the zero class.
    pub fn get_class_hash_at(&self, address: ContractAddress) -> (r: ClassHash)
        ensures
            r == self.class_hash_value(address),
    {
        let n = self.address_to_class.len();
        proof {
            assert(self.address_to_class@.take(n as int) =~= self.address_to_class@);
        }
        let mut i: usize = n;
        while i > 0
            invariant
                i <= n,
                n == self.address_to_class@.len(),
                class_at_lookup(self.address_to_class@, address) == class_at_lookup(
                    self.address_to_class@.take(i as int),
                    address,
                ),
            decreases i,
        {
            proof {
                assert(self.address_to_class@.take(i as int).drop_last()
                    =~= self.address_to_class@.take(i - 1));
                assert(self.address_to_class@.take(i as int).last()
                    == self.address_to_class@[i - 1]);
            }
            i = i - 1;
            if self.address_to_class[i].address == address {
                return self.address_to_class[i].class_hash;
            }
        }
        proof {
            assert(self.address_to_class@.take(0) =~= Seq::<AddressEntry>::empty());
        }
        ClassHash(0)
    }

    /// Writes `value` to the storage cell `(address, key)`.
    pub fn set_storage_at(&mut self, address: ContractAddress, key: u128, value: u128)
        ensures
            final(self).storage_value(address, key) == value,
            forall|a: ContractAddress, k: u128|
                !(a == address && k == key) ==> #[trigger] final(self).storage_value(a, k) == old(
                    self,
                ).storage_value(a, k),
            final(self).classes@ == old(self).classes@,
            final(self).address_to_class@ == old(self).address_to_class@,
            final(self).visited_pcs == old(self).visited_pcs,
    {
        let ghost prior = self.storage@;
        self.storage.push(StorageEntry { address, key, value });
        proof {
            assert(self.storage@.drop_last() =~= prior);
        }
    }

    /// Reads the storage cell `(address, key)`; an unwritten cell reads as
    /// zero.
    pub fn get_storage_at(&self, address: ContractAddress, key: u128) -> (r: u128)
        ensures
            r == self.storage_value(address, key),
    {
        let n = self.storage.len();
        proof {
            assert(self.storage@.take(n as int) =~= self.storage@);
        }
        let mut i: usize = n;
        while i > 0
            invariant
                i <= n,
                n == self.storage@.len(),
                storage_lookup(self.storage@, address, key) == storage_lookup(
                    self.storage@.take(i as int),
                    address,
                    key,
                ),
            decreases i,
        {
            proof {
                assert(self.storage@.take(i as int).drop_last() =~= self.storage@.take(i - 1));
                assert(self.storage@.take(i as int).last() == self.storage@[i - 1]);
            }
            i = i - 1;
            if self.storage[i].address == address && self.storage[i].key == key {
                return self.storage[i].value;
            }
        }
        proof {
            assert(self.storage@.take(0) =~= Seq::<StorageEntry>::empty());
        }
        0
    }

    /// Merges a batch of visited program counters into the permanent record
    /// for `class_hash`.
    pub fn add_visited_pcs(&mut self, class_hash: ClassHash, pcs: &Vec<usize>)
        requires
            old(self).visited_pcs.wf(),
        ensures
            final(self).visited_pcs.wf(),
            final(self).visited_pcs.pcs_of(class_hash) == old(self).visited_pcs.pcs_of(
                class_hash,
            ).union(pcs@.to_set()),
            forall|h: ClassHash|
                h != class_hash ==> #[trigger] final(self).visited_pcs.pcs_of(h) == old(
                    self,
                ).visited_pcs.pcs_of(h),
            final(self).classes@ == old(self).classes@,
            final(self).address_to_class@ == old(self).address_to_class@,
            final(self).storage@ == old(self).storage@,
    {
        self.visited_pcs.insert(&class_hash, pcs);
    }
}

} // verus!
