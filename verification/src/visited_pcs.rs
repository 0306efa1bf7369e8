//! Per-class tracking of executed program counters, for fee metering.
//!
//! The canonical shape deduplicates program counters within and across calls
//! to the same class (first-touch billing): each class identifier maps to a
//! set of visited program counters.

use vstd::prelude::*;
use crate::state::ClassHash;
use crate::state::StateStore;

verus! {

/// No element of the sequence occurs twice.
pub open spec fn no_dups(s: Seq<usize>) -> bool {
    forall|i: int, j: int| 0 <= i < j < s.len() ==> s[i] != s[j]
}

/// One class's recorded program counters.
#[derive(Clone, Debug, PartialEq, Eq)]
pub struct PcsEntry {
    pub class_hash: ClassHash,
    pub pcs: Vec<usize>,
}

/// The recorded program counters of a class sequence: the counters of the
/// last entry carrying `h`, if any.
pub open spec fn pcs_lookup(s: Seq<PcsEntry>, h: ClassHash) -> Option<Seq<usize>>
    decreases s.len(),
{
    if s.len() == 0 {
        None
    } else if s.last().class_hash == h {
        Some(s.last().pcs@)
    } else {
        pcs_lookup(s.drop_last(), h)
    }
}

/// Maps each class identifier to the deduplicated set of program counters
/// recorded as executed for that class.
#[derive(Debug, PartialEq, Eq)]
pub struct VisitedPcsSet {
    pub entries: Vec<PcsEntry>,
}

impl VisitedPcsSet {
    /// Each class identifier occurs at most once, and no entry's counter list
    /// holds a duplicate.
    pub open spec fn wf(self) -> bool {
        &&& forall|i: int, j: int|
            0 <= i < j < self.entries@.len() ==> self.entries@[i].class_hash
                != self.entries@[j].class_hash
        &&& forall|i: int| 0 <= i < self.entries@.len() ==> no_dups(#[trigger] self.entries@[i].pcs@)
    }

    /// Whether any program counter was ever recorded for `h`.
    pub open spec fn has_class(self, h: ClassHash) -> bool {
        pcs_lookup(self.entries@, h) is Some
    }

    /// The set of program counters recorded for `h`; empty when none was.
    pub open spec fn pcs_of(self, h: ClassHash) -> Set<usize> {
        match pcs_lookup(self.entries@, h) {
            Some(s) => s.to_set(),
            None => Set::empty(),
        }
    }

    /// An empty tracker: no class has any recorded counter.
    pub fn new() -> (r: VisitedPcsSet)
        ensures
            r.wf(),
            forall|h: ClassHash| r.pcs_of(h) == Set::<usize>::empty(),
            forall|h: ClassHash| !r.has_class(h),
    {
        VisitedPcsSet { entries: Vec::new() }
    }

    /// The index of the entry carrying `h`, if one exists.
    fn find_class(&self, class_hash: &ClassHash) -> (r: Option<usize>)
        requires
            self.wf(),
        ensures
            match r {
                Some(i) => i < self.entries@.len() && self.entries@[i as int].class_hash
                    == *class_hash,
                None => !self.has_class(*class_hash),
            },
    {
        let n = self.entries.len();
        proof {
            assert(self.entries@.take(n as int) =~= self.entries@);
        }
        let mut i: usize = n;
        while i > 0
            invariant
                i <= n,
                n == self.entries@.len(),
                pcs_lookup(self.entries@, *class_hash) == pcs_lookup(
                    self.entries@.take(i as int),
                    *class_hash,
                ),
            decreases i,
        {
            proof {
                assert(self.entries@.take(i as int).drop_last() =~= self.entries@.take(i - 1));
                assert(self.entries@.take(i as int).last() == self.entries@[i - 1]);
            }
            i = i - 1;
            if self.entries[i].class_hash.0 == class_hash.0 {
                return Some(i);
            }
        }
        proof {
            assert(self.entries@.take(0) =~= Seq::<PcsEntry>::empty());
        }
        None
    }

    /// Merges a batch of program counters, as read from the machine's trace,
    /// into the set recorded for `class_hash`. Counters already recorded are
    /// not recorded twice, and no other class's record changes.
    pub fn insert(&mut self, class_hash: &ClassHash, pcs: &Vec<usize>)
        requires
            old(self).wf(),
        ensures
            final(self).wf(),
            final(self).pcs_of(*class_hash) == old(self).pcs_of(*class_hash).union(pcs@.to_set()),
            final(self).has_class(*class_hash),
            forall|h: ClassHash|
                h != *class_hash ==> #[trigger] final(self).pcs_of(h) == old(self).pcs_of(h),
            forall|h: ClassHash|
                h != *class_hash ==> (#[trigger] final(self).has_class(h) <==> old(self).has_class(
                    h,
                )),
    {
        let idx = self.entry(*class_hash);
        let ghost mid = *self;
        let ghost prior = self.entries@;
        let mut entry = self.entries.remove(idx);
        let ghost base = entry.pcs@.to_set();
        let n = pcs.len();
        let mut k: usize = 0;
        while k < n
            invariant
                k <= n,
                n == pcs@.len(),
                no_dups(entry.pcs@),
                entry.class_hash == *class_hash,
                entry.pcs@.to_set() == base.union(pcs@.take(k as int).to_set()),
            decreases n - k,
        {
            let pc = pcs[k];
            let present = contains_pc(&entry.pcs, pc);
            let ghost before = entry.pcs@;
            if !present {
                entry.pcs.push(pc);
            }
            proof {
                let tk = pcs@.take(k as int);
                let tk1 = pcs@.take(k + 1);
                assert(tk1 =~= tk + seq![pc]);
                Seq::lemma_to_set_insert_commutes(tk, pc);
                if present {
                    assert(before.to_set().contains(pc));
                } else {
                    assert(entry.pcs@ =~= before + seq![pc]);
                    Seq::lemma_to_set_insert_commutes(before, pc);
                }
                assert(entry.pcs@.to_set() =~= base.union(tk1.to_set()));
            }
            k = k + 1;
        }
        proof {
            assert(pcs@.take(n as int) =~= pcs@);
        }
        self.entries.insert(idx, entry);
        proof {
            assert(self.entries@ =~= prior.update(idx as int, entry));
            lemma_pcs_lookup_update(prior, idx as int, entry);
            lemma_pcs_lookup_at_index(prior, idx as int);
            assert(mid.pcs_of(*class_hash) == prior[idx as int].pcs@.to_set());
            assert(self.pcs_of(*class_hash) =~= old(self).pcs_of(*class_hash).union(
                pcs@.to_set(),
            ));
            assert forall|h: ClassHash| h != *class_hash implies #[trigger] self.pcs_of(h) == old(
                self,
            ).pcs_of(h) by {
                assert(pcs_lookup(self.entries@, h) == pcs_lookup(prior, h));
                assert(mid.pcs_of(h) == old(self).pcs_of(h));
            }
            assert forall|h: ClassHash| h != *class_hash implies (#[trigger] self.has_class(h)
                <==> old(self).has_class(h)) by {
                assert(pcs_lookup(self.entries@, h) == pcs_lookup(prior, h));
                assert(mid.has_class(h) <==> old(self).has_class(h));
            }
        }
    }

    /// Extends the record of `class_hash` with another record's counters;
    /// the result is the union of the two sets.
    pub fn extend(&mut self, class_hash: &ClassHash, pcs: &Vec<usize>)
        requires
            old(self).wf(),
        ensures
            final(self).wf(),
            final(self).pcs_of(*class_hash) == old(self).pcs_of(*class_hash).union(pcs@.to_set()),
            final(self).has_class(*class_hash),
            forall|h: ClassHash|
                h != *class_hash ==> #[trigger] final(self).pcs_of(h) == old(self).pcs_of(h),
            forall|h: ClassHash|
                h != *class_hash ==> (#[trigger] final(self).has_class(h) <==> old(self).has_class(
                    h,
                )),
    {
        self.insert(class_hash, pcs);
    }

    /// All (class, counters) pairs, for consumption by the fee-metering
    /// collaborator at block end.
    pub fn iter(&self) -> (r: &Vec<PcsEntry>)
        ensures
            r@ == self.entries@,
    {
        &self.entries
    }

    /// Gets, or creates empty, the record for `class_hash`; returns its
    /// index among the entries. No class's recorded set changes.
    pub fn entry(&mut self, class_hash: ClassHash) -> (idx: usize)
        requires
            old(self).wf(),
        ensures
            final(self).wf(),
            idx < final(self).entries@.len(),
            final(self).entries@[idx as int].class_hash == class_hash,
            forall|h: ClassHash| #[trigger] final(self).pcs_of(h) == old(self).pcs_of(h),
            final(self).has_class(class_hash),
            forall|h: ClassHash|
                h != class_hash ==> (#[trigger] final(self).has_class(h) <==> old(self).has_class(
                    h,
                )),
    {
        let found = self.find_class(&class_hash);
        match found {
            Some(i) => {
                proof {
                    lemma_pcs_lookup_at_index(self.entries@, i as int);
                }
                i
            },
            None => {
                let ghost prior = self.entries@;
                self.entries.push(PcsEntry { class_hash, pcs: Vec::new() });
                proof {
                    assert(self.entries@.drop_last() =~= prior);
                    assert(self.entries@.last().pcs@.to_set() =~= Set::<usize>::empty());
                    lemma_pcs_lookup_none(prior, class_hash);
                    assert forall|h: ClassHash| #[trigger] self.pcs_of(h) == old(self).pcs_of(
                        h,
                    ) by {
                        if h == class_hash {
                            assert(pcs_lookup(self.entries@, h) == Some(
                                self.entries@.last().pcs@,
                            ));
                        } else {
                            assert(pcs_lookup(self.entries@, h) == pcs_lookup(prior, h));
                        }
                    }
                }
                self.entries.len() - 1
            },
        }
    }

    /// Pushes one class's recorded counters into the state store's permanent
    /// fee-relevant bookkeeping.
    pub fn add_visited_pcs(state: &mut StateStore, class_hash: &ClassHash, pcs: Vec<usize>)
        requires
            old(state).visited_pcs.wf(),
        ensures
            final(state).visited_pcs.wf(),
            final(state).visited_pcs.pcs_of(*class_hash) == old(state).visited_pcs.pcs_of(
                *class_hash,
            ).union(pcs@.to_set()),
            forall|h: ClassHash|
                h != *class_hash ==> #[trigger] final(state).visited_pcs.pcs_of(h) == old(
                    state,
                ).visited_pcs.pcs_of(h),
            final(state).classes@ == old(state).classes@,
            final(state).address_to_class@ == old(state).address_to_class@,
            final(state).storage@ == old(state).storage@,
    {
        state.add_visited_pcs(*class_hash, &pcs);
    }

    /// The deduplicated counters of one record, as a vector without
    /// duplicates.
    pub fn to_set(pcs: Vec<usize>) -> (r: Vec<usize>)
        ensures
            no_dups(r@),
            r@.to_set() == pcs@.to_set(),
    {
        let mut out: Vec<usize> = Vec::new();
        let n = pcs.len();
        let mut k: usize = 0;
        while k < n
            invariant
                k <= n,
                n == pcs@.len(),
                no_dups(out@),
                out@.to_set() == pcs@.take(k as int).to_set(),
            decreases n - k,
        {
            let pc = pcs[k];
            let present = contains_pc(&out, pc);
            let ghost before = out@;
            if !present {
                out.push(pc);
            }
            proof {
                let tk = pcs@.take(k as int);
                let tk1 = pcs@.take(k + 1);
                assert(tk1 =~= tk + seq![pc]);
                Seq::lemma_to_set_insert_commutes(tk, pc);
                if present {
                    assert(before.to_set().contains(pc));
                } else {
                    assert(out@ =~= before + seq![pc]);
                    Seq::lemma_to_set_insert_commutes(before, pc);
                }
                assert(out@.to_set() =~= tk1.to_set());
            }
            k = k + 1;
        }
        proof {
            assert(pcs@.take(n as int) =~= pcs@);
        }
        out
    }
}

/// Records visited program counters of an entry-point call, per class. The
/// storage shape is the implementor's choice; what a stored record denotes
/// is always a set of counters, and inserting a batch merges it into the
/// class's record without touching any other class.
pub trait VisitedPcs: Sized {
    /// The type which contains one class's visited program counters.
    type Pcs;

    /// The set of counters a stored record denotes.
    spec fn pcs_set(pcs: &Self::Pcs) -> Set<usize>;

    /// The tracker's well-formedness invariant.
    spec fn inv(&self) -> bool;

    /// The set of counters recorded for a class; empty when none was.
    spec fn recorded(&self, class_hash: ClassHash) -> Set<usize>;

    /// An empty tracker.
    fn new() -> (r: Self)
        ensures
            r.inv(),
            forall|h: ClassHash| r.recorded(h) == Set::<usize>::empty(),
    ;

    /// Merges a batch of program counters, as read from the machine's
    /// trace, into the record for `class_hash`.
    fn insert(&mut self, class_hash: &ClassHash, pcs: &Vec<usize>)
        requires
            old(self).inv(),
        ensures
            final(self).inv(),
            final(self).recorded(*class_hash) == old(self).recorded(*class_hash).union(
                pcs@.to_set(),
            ),
            forall|h: ClassHash|
                h != *class_hash ==> #[trigger] final(self).recorded(h) == old(self).recorded(h),
    ;

    /// Extends the record for `class_hash` with another record's counters.
    fn extend(&mut self, class_hash: &ClassHash, pcs: &Self::Pcs)
        requires
            old(self).inv(),
        ensures
            final(self).inv(),
            final(self).recorded(*class_hash) == old(self).recorded(*class_hash).union(
                Self::pcs_set(pcs),
            ),
            forall|h: ClassHash|
                h != *class_hash ==> #[trigger] final(self).recorded(h) == old(self).recorded(h),
    ;

    /// Pushes one class's record into the state store's permanent
    /// fee-relevant bookkeeping.
    fn add_visited_pcs(state: &mut StateStore, class_hash: &ClassHash, pcs: Self::Pcs)
        requires
            old(state).visited_pcs.wf(),
        ensures
            final(state).visited_pcs.wf(),
            final(state).visited_pcs.pcs_of(*class_hash) == old(state).visited_pcs.pcs_of(
                *class_hash,
            ).union(Self::pcs_set(&pcs)),
            forall|h: ClassHash|
                h != *class_hash ==> #[trigger] final(state).visited_pcs.pcs_of(h) == old(
                    state,
                ).visited_pcs.pcs_of(h),
    ;

    /// The counters of one record, as a vector without duplicates.
    fn to_set(pcs: Self::Pcs) -> (r: Vec<usize>)
        ensures
            no_dups(r@),
            r@.to_set() == Self::pcs_set(&pcs),
    ;
}

impl VisitedPcs for VisitedPcsSet {
    type Pcs = Vec<usize>;

    open spec fn pcs_set(pcs: &Vec<usize>) -> Set<usize> {
        pcs@.to_set()
    }

    open spec fn inv(&self) -> bool {
        self.wf()
    }

    open spec fn recorded(&self, class_hash: ClassHash) -> Set<usize> {
        self.pcs_of(class_hash)
    }

    fn new() -> (r: VisitedPcsSet) {
        VisitedPcsSet::new()
    }

    fn insert(&mut self, class_hash: &ClassHash, pcs: &Vec<usize>) {
        VisitedPcsSet::insert(self, class_hash, pcs);
    }

    fn extend(&mut self, class_hash: &ClassHash, pcs: &Vec<usize>) {
        VisitedPcsSet::extend(self, class_hash, pcs);
    }

    fn add_visited_pcs(state: &mut StateStore, class_hash: &ClassHash, pcs: Vec<usize>) {
        VisitedPcsSet::add_visited_pcs(state, class_hash, pcs);
    }

    fn to_set(pcs: Vec<usize>) -> (r: Vec<usize>) {
        VisitedPcsSet::to_set(pcs)
    }
}

/// Maps each class identifier to the raw sequence of program counters
/// recorded for it, one entry per recorded counter, duplicates kept. This
/// shape preserves per-call attribution for consuming layers that
/// post-process duplicates themselves; what a record denotes for fee
/// metering is still the deduplicated set. The deduplicated-set shape
/// (`VisitedPcsSet`) is the canonical one.
#[derive(Debug, PartialEq, Eq)]
pub struct VisitedPcsRaw {
    pub entries: Vec<PcsEntry>,
}

impl VisitedPcsRaw {
    /// Each class identifier occurs at most once among the entries.
    pub open spec fn wf(self) -> bool {
        forall|i: int, j: int|
            0 <= i < j < self.entries@.len() ==> self.entries@[i].class_hash
                != self.entries@[j].class_hash
    }

    /// The set of program counters recorded for `h`; empty when none was.
    pub open spec fn pcs_of(self, h: ClassHash) -> Set<usize> {
        match pcs_lookup(self.entries@, h) {
            Some(s) => s.to_set(),
            None => Set::empty(),
        }
    }

    /// The index of the entry carrying `h`, if one exists.
    fn find_class(&self, class_hash: &ClassHash) -> (r: Option<usize>)
        requires
            self.wf(),
        ensures
            match r {
                Some(i) => i < self.entries@.len() && self.entries@[i as int].class_hash
                    == *class_hash,
                None => pcs_lookup(self.entries@, *class_hash) is None,
            },
    {
        let n = self.entries.len();
        proof {
            assert(self.entries@.take(n as int) =~= self.entries@);
        }
        let mut i: usize = n;
        while i > 0
            invariant
                i <= n,
                n == self.entries@.len(),
                pcs_lookup(self.entries@, *class_hash) == pcs_lookup(
                    self.entries@.take(i as int),
                    *class_hash,
                ),
            decreases i,
        {
            proof {
                assert(self.entries@.take(i as int).drop_last() =~= self.entries@.take(i - 1));
                assert(self.entries@.take(i as int).last() == self.entries@[i - 1]);
            }
            i = i - 1;
            if self.entries[i].class_hash == *class_hash {
                return Some(i);
            }
        }
        proof {
            assert(self.entries@.take(0) =~= Seq::<PcsEntry>::empty());
        }
        None
    }

    /// Appends a batch of counters to the raw record for `class_hash`,
    /// keeping duplicates; the denoted set still grows by the batch's set.
    fn append(&mut self, class_hash: &ClassHash, pcs: &Vec<usize>)
        requires
            old(self).wf(),
        ensures
            final(self).wf(),
            final(self).pcs_of(*class_hash) == old(self).pcs_of(*class_hash).union(pcs@.to_set()),
            forall|h: ClassHash|
                h != *class_hash ==> #[trigger] final(self).pcs_of(h) == old(self).pcs_of(h),
    {
        match self.find_class(class_hash) {
            Some(idx) => {
                let ghost prior = self.entries@;
                let mut entry = self.entries.remove(idx);
                let ghost base = entry.pcs@;
                let n = pcs.len();
                let mut k: usize = 0;
                while k < n
                    invariant
                        k <= n,
                        n == pcs@.len(),
                        entry.class_hash == *class_hash,
                        entry.pcs@ == base + pcs@.take(k as int),
                    decreases n - k,
                {
                    entry.pcs.push(pcs[k]);
                    proof {
                        assert(base + pcs@.take(k + 1) =~= (base + pcs@.take(k as int)).push(
                            pcs@[k as int],
                        ));
                    }
                    k = k + 1;
                }
                proof {
                    assert(pcs@.take(n as int) =~= pcs@);
                }
                self.entries.insert(idx, entry);
                proof {
                    assert(self.entries@ =~= prior.update(idx as int, entry));
                    lemma_pcs_lookup_update(prior, idx as int, entry);
                    lemma_pcs_lookup_at_index(prior, idx as int);
                    lemma_concat_to_set(base, pcs@);
                    assert(self.pcs_of(*class_hash) =~= old(self).pcs_of(*class_hash).union(
                        pcs@.to_set(),
                    ));
                }
            },
            None => {
                let ghost prior = self.entries@;
                self.entries.push(PcsEntry { class_hash: *class_hash, pcs: clone_pcs(pcs) });
                proof {
                    assert(self.entries@.drop_last() =~= prior);
                    lemma_pcs_lookup_none(prior, *class_hash);
                    assert forall|h: ClassHash|
                        h != *class_hash implies #[trigger] self.pcs_of(h) == old(self).pcs_of(
                        h,
                    ) by {
                        assert(pcs_lookup(self.entries@, h) == pcs_lookup(prior, h));
                    }
                    assert(self.pcs_of(*class_hash) =~= old(self).pcs_of(*class_hash).union(
                        pcs@.to_set(),
                    ));
                }
            },
        }
    }
}

impl VisitedPcs for VisitedPcsRaw {
    type Pcs = Vec<usize>;

    open spec fn pcs_set(pcs: &Vec<usize>) -> Set<usize> {
        pcs@.to_set()
    }

    open spec fn inv(&self) -> bool {
        self.wf()
    }

    open spec fn recorded(&self, class_hash: ClassHash) -> Set<usize> {
        self.pcs_of(class_hash)
    }

    fn new() -> (r: VisitedPcsRaw) {
        VisitedPcsRaw { entries: Vec::new() }
    }

    fn insert(&mut self, class_hash: &ClassHash, pcs: &Vec<usize>) {
        self.append(class_hash, pcs);
    }

    fn extend(&mut self, class_hash: &ClassHash, pcs: &Vec<usize>) {
        self.append(class_hash, pcs);
    }

    fn add_visited_pcs(state: &mut StateStore, class_hash: &ClassHash, pcs: Vec<usize>) {
        state.add_visited_pcs(*class_hash, &pcs);
    }

    fn to_set(pcs: Vec<usize>) -> (r: Vec<usize>) {
        VisitedPcsSet::to_set(pcs)
    }
}

/// The set denoted by two concatenated counter sequences is the union of
/// the sets each denotes.
proof fn lemma_concat_to_set(a: Seq<usize>, b: Seq<usize>)
    ensures
        (a + b).to_set() == a.to_set().union(b.to_set()),
    decreases b.len(),
{
    if b.len() == 0 {
        assert(a + b =~= a);
        assert((a + b).to_set() =~= a.to_set().union(b.to_set()));
    } else {
        lemma_concat_to_set(a, b.drop_last());
        Seq::lemma_to_set_insert_commutes(a + b.drop_last(), b.last());
        assert(a + b =~= (a + b.drop_last()) + seq![b.last()]);
        Seq::lemma_to_set_insert_commutes(b.drop_last(), b.last());
        assert(b =~= b.drop_last() + seq![b.last()]);
        assert((a + b).to_set() =~= a.to_set().union(b.to_set()));
    }
}

/// A copy of a vector of program counters.
fn clone_pcs(v: &Vec<usize>) -> (r: Vec<usize>)
    ensures
        r@ == v@,
{
    let n = v.len();
    let mut out: Vec<usize> = Vec::new();
    let mut k: usize = 0;
    while k < n
        invariant
            k <= n,
            n == v@.len(),
            out@ == v@.take(k as int),
        decreases n - k,
    {
        out.push(v[k]);
        proof {
            assert(v@.take(k + 1) =~= v@.take(k as int).push(v@[k as int]));
        }
        k = k + 1;
    }
    proof {
        assert(v@.take(n as int) =~= v@);
    }
    out
}

/// Whether `pc` occurs in the vector.
pub fn contains_pc(pcs: &Vec<usize>, pc: usize) -> (r: bool)
    ensures
        r == pcs@.contains(pc),
{
    let n = pcs.len();
    let mut k: usize = 0;
    while k < n
        invariant
            k <= n,
            n == pcs@.len(),
            forall|j: int| 0 <= j < k ==> pcs@[j] != pc,
        decreases n - k,
    {
        if pcs[k] == pc {
            return true;
        }
        k = k + 1;
    }
    false
}

/// When the lookup of `h` finds nothing, no entry carries `h`.
proof fn lemma_pcs_lookup_none(s: Seq<PcsEntry>, h: ClassHash)
    requires
        pcs_lookup(s, h) is None,
    ensures
        forall|i: int| 0 <= i < s.len() ==> s[i].class_hash != h,
    decreases s.len(),
{
    if s.len() > 0 {
        lemma_pcs_lookup_none(s.drop_last(), h);
        assert(forall|i: int| 0 <= i < s.len() - 1 ==> s[i] == s.drop_last()[i]);
    }
}

/// With `h` stored at index `i` of a class sequence without repeated class
/// identifiers, the lookup of `h` yields exactly that entry's counters.
proof fn lemma_pcs_lookup_at_index(s: Seq<PcsEntry>, i: int)
    requires
        0 <= i < s.len(),
        forall|a: int, b: int| 0 <= a < b < s.len() ==> s[a].class_hash != s[b].class_hash,
    ensures
        pcs_lookup(s, s[i].class_hash) == Some(s[i].pcs@),
    decreases s.len(),
{
    if i == s.len() - 1 {
    } else {
        assert(s.drop_last()[i] == s[i]);
        lemma_pcs_lookup_at_index(s.drop_last(), i);
    }
}

/// Updating index `i` of a class sequence without repeated class identifiers
/// redirects the lookup of the new entry's class to the new counters, and
/// leaves the lookup of every other class unchanged.
proof fn lemma_pcs_lookup_update(s: Seq<PcsEntry>, i: int, e: PcsEntry)
    requires
        0 <= i < s.len(),
        forall|a: int, b: int| 0 <= a < b < s.len() ==> s[a].class_hash != s[b].class_hash,
        e.class_hash == s[i].class_hash,
    ensures
        pcs_lookup(s.update(i, e), e.class_hash) == Some(e.pcs@),
        forall|h: ClassHash|
            h != e.class_hash ==> #[trigger] pcs_lookup(s.update(i, e), h) == pcs_lookup(s, h),
    decreases s.len(),
{
    let t = s.update(i, e);
    if i == s.len() - 1 {
        assert(t.last() == e);
        assert(t.drop_last() =~= s.drop_last());
        assert forall|h: ClassHash| h != e.class_hash implies #[trigger] pcs_lookup(t, h)
            == pcs_lookup(s, h) by {
            assert(pcs_lookup(t, h) == pcs_lookup(s.drop_last(), h));
            assert(pcs_lookup(s, h) == pcs_lookup(s.drop_last(), h));
        }
    } else {
        assert(t.last() == s.last());
        assert(t.drop_last() =~= s.drop_last().update(i, e));
        assert(s.drop_last()[i] == s[i]);
        lemma_pcs_lookup_update(s.drop_last(), i, e);
        assert(s.last().class_hash != e.class_hash);
        assert forall|h: ClassHash| h != e.class_hash implies #[trigger] pcs_lookup(t, h)
            == pcs_lookup(s, h) by {
            if h == s.last().class_hash {
                assert(pcs_lookup(t, h) == Some(t.last().pcs@));
            } else {
                assert(pcs_lookup(t, h) == pcs_lookup(t.drop_last(), h));
                assert(pcs_lookup(s, h) == pcs_lookup(s.drop_last(), h));
            }
        }
    }
}

} // verus!
