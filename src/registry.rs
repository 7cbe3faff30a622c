use vstd::multiset::Multiset;
use vstd::prelude::*;

use crate::resource::{size_of, MappedRegion, Resource};
use crate::stats::Stats;

verus! {

/// The total number of bytes that a sequence of resources stands for.
pub open spec fn total_size(rs: Seq<Resource>) -> nat
    decreases rs.len(),
{
    if rs.len() == 0 {
        0
    } else {
        total_size(rs.drop_last()) + size_of(rs.last())
    }
}

/// The mapped regions among `rs`, in ledger order.
pub open spec fn mapped_regions(rs: Seq<Resource>) -> Seq<MappedRegion>
    decreases rs.len(),
{
    if rs.len() == 0 {
        Seq::empty()
    } else {
        match rs.last() {
            Resource::Mapped(m) => mapped_regions(rs.drop_last()).push(m),
            Resource::Owned(_) => mapped_regions(rs.drop_last()),
        }
    }
}

/// A prefix of a ledger never stands for more bytes than the whole ledger.
pub proof fn lemma_total_size_prefix(rs: Seq<Resource>, i: int)
    requires
        0 <= i <= rs.len(),
    ensures
        total_size(rs.take(i)) <= total_size(rs),
    decreases rs.len(),
{
    if i < rs.len() {
        assert(rs.drop_last().take(i) =~= rs.take(i));
        lemma_total_size_prefix(rs.drop_last(), i);
    } else {
        assert(rs.take(i) =~= rs);
    }
}

/// The append-only ledger of every resource an arena has loaded. Entries are
/// identified by their position (their handle) and are only released all at
/// once, by [`Registry::drain_for_teardown`].
pub struct Registry {
    resources: Vec<Resource>,
    /// Running total of the entries' sizes, so that a registration that
    /// would overflow it is refused in constant time.
    total: usize,
}

impl View for Registry {
    type V = Seq<Resource>;

    closed spec fn view(&self) -> Seq<Resource> {
        self.resources@
    }
}

impl Registry {
    #[verifier::type_invariant]
    spec fn inv(&self) -> bool {
        self.total as nat == total_size(self.resources@)
    }

    /// An empty ledger.
    pub fn new() -> (r: Registry)
        ensures
            r@ == Seq::<Resource>::empty(),
    {
        Registry { resources: Vec::new(), total: 0 }
    }

    /// Appends `r` and returns its handle, the number of entries before it.
    /// A ledger whose total size would no longer fit in a `usize` refuses the
    /// entry, hands it back, and stays as it was.
    pub fn register(&mut self, r: Resource) -> (res: Result<usize, Resource>)
        ensures
            res is Ok <==> total_size(old(self)@) + size_of(r) <= usize::MAX,
            res is Ok ==> res->Ok_0 == old(self)@.len() && final(self)@ == old(self)@.push(r),
            res is Err ==> res->Err_0 == r && final(self)@ == old(self)@,
    {
        proof {
            use_type_invariant(&*self);
        }
        let size = r.size();
        match self.total.checked_add(size) {
            Some(total) => {
                let mut current = Registry::new();
                std::mem::swap(&mut current, self);
                let mut resources = current.resources;
                let handle = resources.len();
                proof {
                    let rs = resources@.push(r);
                    assert(rs.drop_last() =~= resources@);
                }
                resources.push(r);
                *self = Registry { resources, total };
                Ok(handle)
            },
            None => Err(r),
        }
    }

    /// Counts the entries and adds up their sizes.
    pub fn stats(&self) -> (r: Stats)
        ensures
            r.loaded_files == self@.len(),
            r.total_size == total_size(self@),
    {
        proof {
            use_type_invariant(self);
        }
        let mut total: usize = 0;
        let mut i: usize = 0;
        while i < self.resources.len()
            invariant
                i <= self.resources@.len(),
                total as nat == total_size(self.resources@.take(i as int)),
                total_size(self.resources@) <= usize::MAX,
            decreases self.resources@.len() - i,
        {
            proof {
                let rs = self.resources@;
                assert(rs.take(i + 1).drop_last() =~= rs.take(i as int));
                lemma_total_size_prefix(rs, i + 1);
            }
            total = total + self.resources[i].size();
            i = i + 1;
        }
        proof {
            assert(self.resources@.take(i as int) =~= self.resources@);
        }
        Stats { loaded_files: self.resources.len(), total_size: total }
    }

    /// Records the outcome of a load: a successful one is appended as by
    /// [`Registry::register`]; a failed one leaves the ledger untouched and
    /// its error is passed on.
    pub fn record<E>(&mut self, outcome: Result<Resource, E>) -> (res: Result<usize, RecordError<E>>)
        ensures
            outcome is Err ==> res == Err::<usize, RecordError<E>>(RecordError::Load(outcome->Err_0))
                && final(self)@ == old(self)@,
            outcome is Ok ==> {
                let r = outcome->Ok_0;
                &&& res is Ok <==> total_size(old(self)@) + size_of(r) <= usize::MAX
                &&& res is Ok ==> res->Ok_0 == old(self)@.len() && final(self)@ == old(self)@.push(r)
                &&& res is Err ==> res->Err_0 == RecordError::<E>::Full(r) && final(self)@ == old(self)@
            },
    {
        match outcome {
            Err(e) => Err(RecordError::Load(e)),
            Ok(r) => match self.register(r) {
                Ok(handle) => Ok(handle),
                Err(back) => Err(RecordError::Full(back)),
            },
        }
    }

    /// The entry with handle `h`, if there is one.
    pub fn get(&self, h: usize) -> (r: Option<&Resource>)
        ensures
            h < self@.len() ==> r is Some && *r->Some_0 == self@[h as int],
            h >= self@.len() ==> r is None,
    {
        if h < self.resources.len() {
            Some(&self.resources[h])
        } else {
            None
        }
    }

    /// Empties the ledger for the arena's destruction and returns every
    /// mapped region it held, in ledger order, so that each is unmapped
    /// exactly once. Owned buffers are freed here.
    pub fn drain_for_teardown(&mut self) -> (r: Vec<MappedRegion>)
        ensures
            r@ == mapped_regions(old(self)@),
            final(self)@ == Seq::<Resource>::empty(),
    {
        let mut current = Registry::new();
        std::mem::swap(&mut current, self);
        let rs = current.resources;
        let mut regions: Vec<MappedRegion> = Vec::new();
        let mut i: usize = 0;
        while i < rs.len()
            invariant
                i <= rs@.len(),
                regions@ == mapped_regions(rs@.take(i as int)),
            decreases rs@.len() - i,
        {
            proof {
                assert(rs@.take(i + 1).drop_last() =~= rs@.take(i as int));
            }
            match &rs[i] {
                Resource::Mapped(m) => regions.push(*m),
                Resource::Owned(_) => {},
            }
            i = i + 1;
        }
        proof {
            assert(rs@.take(i as int) =~= rs@);
        }
        regions
    }
}

/// Why [`Registry::record`] recorded nothing.
#[derive(Debug)]
pub enum RecordError<E> {
    /// The load itself failed; its error, unchanged.
    Load(E),
    /// The ledger's total size would no longer fit in a `usize`; the
    /// resource, handed back.
    Full(Resource),
}

/// Loads add up: a ledger extended by further entries holds as many more
/// entries, and as many more bytes, as those entries stand for.
pub proof fn lemma_total_size_concat(before: Seq<Resource>, loads: Seq<Resource>)
    ensures
        (before + loads).len() == before.len() + loads.len(),
        total_size(before + loads) == total_size(before) + total_size(loads),
    decreases loads.len(),
{
    if loads.len() > 0 {
        assert((before + loads).drop_last() =~= before + loads.drop_last());
        lemma_total_size_concat(before, loads.drop_last());
    } else {
        assert(before + loads =~= before);
    }
}

/// Taking one entry out of a ledger takes away exactly its size.
pub proof fn lemma_total_size_remove(rs: Seq<Resource>, i: int)
    requires
        0 <= i < rs.len(),
    ensures
        total_size(rs) == total_size(rs.remove(i)) + size_of(rs[i]),
    decreases rs.len(),
{
    if i < rs.len() - 1 {
        assert(rs.remove(i).drop_last() =~= rs.drop_last().remove(i));
        assert(rs.remove(i).last() == rs.last());
        lemma_total_size_remove(rs.drop_last(), i);
    } else {
        assert(rs.remove(i) =~= rs.drop_last());
    }
}

/// The statistics of a ledger do not depend on the order in which its
/// entries were registered: two ledgers with the same entries, in any
/// order (as when several threads load concurrently), hold the same number
/// of entries and the same number of bytes.
pub proof fn lemma_total_size_any_order(a: Seq<Resource>, b: Seq<Resource>)
    requires
        a.to_multiset() == b.to_multiset(),
    ensures
        a.len() == b.len(),
        total_size(a) == total_size(b),
    decreases a.len(),
{
    broadcast use vstd::seq_lib::group_to_multiset_ensures;

    if a.len() > 0 {
        let x = a.last();
        let a0 = a.drop_last();
        assert(a =~= a0.push(x));
        assert(a.to_multiset().count(x) > 0);
        assert(b.contains(x));
        let i = choose|i: int| 0 <= i < b.len() && b[i] == x;
        let b0 = b.remove(i);
        assert(b0.to_multiset() =~= a0.to_multiset());
        lemma_total_size_any_order(a0, b0);
        lemma_total_size_remove(b, i);
    } else {
        assert(b.to_multiset().len() == 0);
    }
}

/// Loads are never merged: recording two loads of the same content, one
/// after the other, keeps both, under two different handles, and counts
/// their bytes twice.
pub proof fn lemma_repeated_load_kept_apart(before: Seq<Resource>, first: Resource, second: Resource)
    requires
        size_of(first) == size_of(second),
    ensures
        ({
            let after = before.push(first).push(second);
            &&& after.len() == before.len() + 2
            &&& after[before.len() as int] == first
            &&& after[before.len() + 1int] == second
            &&& total_size(after) == total_size(before) + 2 * size_of(first)
        }),
{
    let after = before.push(first).push(second);
    assert(after.drop_last() =~= before.push(first));
    assert(before.push(first).drop_last() =~= before);
    assert(total_size(before.push(first)) == total_size(before) + size_of(first));
    assert(total_size(after) == total_size(before.push(first)) + size_of(second));
}

/// Teardown releases every mapping exactly once: each region occurs in the
/// drained list as many times as the ledger holds it, and nothing else does.
pub proof fn lemma_teardown_releases_each_once(rs: Seq<Resource>)
    ensures
        forall|m: MappedRegion|
            #[trigger] mapped_regions(rs).to_multiset().count(m) == rs.to_multiset().count(
                Resource::Mapped(m),
            ),
    decreases rs.len(),
{
    broadcast use vstd::seq_lib::group_to_multiset_ensures;

    if rs.len() > 0 {
        let rest = rs.drop_last();
        let x = rs.last();
        assert(rs =~= rest.push(x));
        lemma_teardown_releases_each_once(rest);
        assert(rs.to_multiset() =~= rest.to_multiset().insert(x));
        match x {
            Resource::Mapped(mx) => {
                assert(mapped_regions(rs) == mapped_regions(rest).push(mx));
                assert(mapped_regions(rs).to_multiset() =~= mapped_regions(rest).to_multiset().insert(mx));
            },
            Resource::Owned(_) => {
                assert(mapped_regions(rs) == mapped_regions(rest));
                assert forall|m: MappedRegion| x != Resource::Mapped(m) by {}
            },
        }
    } else {
        assert(mapped_regions(rs).to_multiset() =~= Multiset::empty());
        assert(rs.to_multiset() =~= Multiset::empty());
    }
}

} // verus!
