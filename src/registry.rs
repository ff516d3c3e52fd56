//! Storage of cycles and generator records, and the counter that hands out
//! cycle identifiers. No business rule is checked here.

use vstd::prelude::*;
use crate::encoding::eq_bytes32;
use crate::types::{AccountId, CycleId, Error, Generator, RngCycle};

verus! {

/// Key of a generator record: the cycle and the account's bytes.
pub type GeneratorKey = (CycleId, Seq<u8>);

/// What a registry holds: the cycles in order of their identifiers, and the
/// generator records.
pub struct RegistryView {
    pub cycles: Seq<RngCycle>,
    pub generators: Map<GeneratorKey, Generator>,
}

impl RegistryView {
    /// Keys of the records held for cycle `cycle_id`.
    pub open spec fn records_of(self, cycle_id: CycleId) -> Set<GeneratorKey> {
        self.generators.dom().filter(|k: GeneratorKey| k.0 == cycle_id)
    }
}

/// Cycles are stored by identifier (identifier `i` at position `i`);
/// generator records by (cycle, account), one entry per key.
pub struct Registry {
    cycle_count: CycleId,
    cycles: Vec<RngCycle>,
    generators: Vec<(CycleId, AccountId, Generator)>,
    model: Ghost<Map<GeneratorKey, Generator>>,
}

impl View for Registry {
    type V = RegistryView;

    closed spec fn view(&self) -> RegistryView {
        RegistryView { cycles: self.cycles@, generators: self.model@ }
    }
}

/// Initial value of the cycle counter.
#[allow(non_snake_case)]
pub fn CycleCountOnEmpty() -> (r: CycleId)
    ensures
        r == 0,
{
    0
}

impl Registry {
    pub closed spec fn wf(&self) -> bool {
        &&& self.cycle_count == self.cycles@.len()
        &&& self.model@.dom().finite()
        &&& forall|i: int, j: int|
            0 <= i < j < self.generators@.len() ==> (self.generators@[i].0, self.generators@[i].1@)
                != (self.generators@[j].0, self.generators@[j].1@)
        &&& forall|i: int|
            0 <= i < self.generators@.len() ==> {
                &&& #[trigger] self.model@.contains_key(
                    (self.generators@[i].0, self.generators@[i].1@),
                )
                &&& self.model@[(self.generators@[i].0, self.generators@[i].1@)]
                    == self.generators@[i].2
            }
        &&& forall|k: GeneratorKey|
            #[trigger] self.model@.contains_key(k) ==> exists|i: int|
                0 <= i < self.generators@.len() && (self.generators@[i].0, self.generators@[i].1@)
                    == k
    }

    /// Changing the cycles leaves every record where it was.
    proof fn lemma_records_located(&self, before: Registry)
        requires
            before.wf(),
            self.generators == before.generators,
            self.model == before.model,
        ensures
            forall|k: GeneratorKey|
                #[trigger] self.model@.contains_key(k) ==> exists|i: int|
                    0 <= i < self.generators@.len() && (self.generators@[i].0,
                    self.generators@[i].1@) == k,
    {
        assert forall|k: GeneratorKey| #[trigger] self.model@.contains_key(k) implies exists|i: int|
            0 <= i < self.generators@.len() && (self.generators@[i].0, self.generators@[i].1@)
                == k by {
            let i = choose|i: int|
                0 <= i < before.generators@.len() && (before.generators@[i].0,
                before.generators@[i].1@) == k;
            assert((self.generators@[i].0, self.generators@[i].1@) == k);
        }
    }

    /// An empty registry.
    pub fn new() -> (r: Registry)
        ensures
            r.wf(),
            r@.cycles == Seq::<RngCycle>::empty(),
            r@.generators == Map::<GeneratorKey, Generator>::empty(),
    {
        Registry {
            cycle_count: CycleCountOnEmpty(),
            cycles: Vec::new(),
            generators: Vec::new(),
            model: Ghost(Map::empty()),
        }
    }

    /// The identifier the next cycle will get.
    pub fn cycle_count(&self) -> (r: CycleId)
        requires
            self.wf(),
        ensures
            r == self@.cycles.len(),
    {
        self.cycle_count
    }

    /// The identifier the next stored cycle will get; fails when the
    /// identifiers are exhausted.
    pub fn next_cycle_id(&self) -> (r: Result<CycleId, Error>)
        requires
            self.wf(),
        ensures
            r == (if self@.cycles.len() < u128::MAX {
                Ok::<CycleId, Error>(self@.cycles.len() as CycleId)
            } else {
                Err::<CycleId, Error>(Error::ArithmeticOverflow)
            }),
    {
        match self.cycle_count.checked_add(1) {
            None => Err(Error::ArithmeticOverflow),
            Some(_) => Ok(self.cycle_count),
        }
    }

    /// Stores `cycle` under the next identifier.
    pub fn insert_cycle(&mut self, cycle: RngCycle)
        requires
            old(self).wf(),
            old(self)@.cycles.len() < u128::MAX,
        ensures
            final(self).wf(),
            final(self)@ == (RegistryView { cycles: old(self)@.cycles.push(cycle), ..old(self)@ }),
    {
        self.cycles.push(cycle);
        self.cycle_count = self.cycle_count + 1;
        proof {
            self.lemma_records_located(*old(self));
        }
    }

    /// The cycle stored under `id`.
    pub fn get_cycle(&self, id: CycleId) -> (r: Option<RngCycle>)
        requires
            self.wf(),
        ensures
            r == (if id < self@.cycles.len() {
                Some(self@.cycles[id as int])
            } else {
                None
            }),
    {
        let n = self.cycles.len();
        if id < self.cycle_count {
            assert(id < n);
            Some(self.cycles[id as usize])
        } else {
            None
        }
    }

    /// Replaces the cycle stored under `id`.
    pub fn put_cycle(&mut self, id: CycleId, cycle: RngCycle)
        requires
            old(self).wf(),
            id < old(self)@.cycles.len(),
        ensures
            final(self).wf(),
            final(self)@ == (RegistryView {
                cycles: old(self)@.cycles.update(id as int, cycle),
                ..old(self)@
            }),
    {
        let n = self.cycles.len();
        assert(id < n);
        self.cycles.set(id as usize, cycle);
        proof {
            assert(self.cycles@.len() == old(self).cycles@.len());
            assert(self.generators == old(self).generators);
            self.lemma_records_located(*old(self));
        }
    }

    /// Position of the record of `who` in cycle `id`.
    fn find_generator(&self, id: CycleId, who: &AccountId) -> (r: Option<usize>)
        requires
            self.wf(),
        ensures
            match r {
                Some(i) => i < self.generators@.len() && self.generators@[i as int].0 == id
                    && self.generators@[i as int].1@ == who@,
                None => !self@.generators.contains_key((id, who@)),
            },
    {
        let mut i: usize = 0;
        while i < self.generators.len()
            invariant
                self.wf(),
                i <= self.generators@.len(),
                forall|k: int|
                    0 <= k < i ==> (self.generators@[k].0, self.generators@[k].1@) != (id, who@),
            decreases self.generators@.len() - i,
        {
            if self.generators[i].0 == id && eq_bytes32(&self.generators[i].1, who) {
                return Some(i);
            }
            i = i + 1;
        }
        None
    }

    /// The record of `who` in cycle `id`.
    pub fn get_generator(&self, id: CycleId, who: &AccountId) -> (r: Option<Generator>)
        requires
            self.wf(),
        ensures
            r == (if self@.generators.contains_key((id, who@)) {
                Some(self@.generators[(id, who@)])
            } else {
                None
            }),
    {
        match self.find_generator(id, who) {
            Some(i) => Some(self.generators[i].2),
            None => None,
        }
    }

    /// Writes the record of `who` in cycle `id`, replacing any earlier one.
    pub fn put_generator(&mut self, id: CycleId, who: &AccountId, g: Generator)
        requires
            old(self).wf(),
        ensures
            final(self).wf(),
            final(self)@ == (RegistryView {
                generators: old(self)@.generators.insert((id, who@), g),
                ..old(self)@
            }),
    {
        let ghost key = (id, who@);
        let ghost model = self.model@.insert(key, g);
        match self.find_generator(id, who) {
            Some(i) => {
                self.generators.set(i, (id, *who, g));
                self.model = Ghost(model);
                assert forall|j: int, k: int| 0 <= j < k < self.generators@.len() implies
                    (self.generators@[j].0, self.generators@[j].1@) != (self.generators@[k].0,
                    self.generators@[k].1@) by {
                    assert((old(self).generators@[j].0, old(self).generators@[j].1@)
                        != (old(self).generators@[k].0, old(self).generators@[k].1@));
                }
                assert forall|j: int| 0 <= j < self.generators@.len() implies {
                    &&& #[trigger] self.model@.contains_key(
                        (self.generators@[j].0, self.generators@[j].1@),
                    )
                    &&& self.model@[(self.generators@[j].0, self.generators@[j].1@)]
                        == self.generators@[j].2
                } by {
                    if j != i {
                        assert((old(self).generators@[j].0, old(self).generators@[j].1@)
                            != (old(self).generators@[i as int].0,
                        old(self).generators@[i as int].1@));
                    }
                }
                assert forall|k: GeneratorKey| #[trigger] self.model@.contains_key(k) implies exists|
                    j: int,
                |
                    0 <= j < self.generators@.len() && (self.generators@[j].0,
                    self.generators@[j].1@) == k by {
                    if k != key {
                        let j = choose|j: int|
                            0 <= j < old(self).generators@.len() && (old(self).generators@[j].0,
                            old(self).generators@[j].1@) == k;
                        assert((self.generators@[j].0, self.generators@[j].1@) == k);
                    } else {
                        assert((self.generators@[i as int].0, self.generators@[i as int].1@)
                            == k);
                    }
                }
            },
            None => {
                proof {
                    assert forall|j: int| 0 <= j < old(self).generators@.len() implies (old(
                        self,
                    ).generators@[j].0, old(self).generators@[j].1@) != key by {
                        assert(old(self).model@.contains_key(
                            (old(self).generators@[j].0, old(self).generators@[j].1@),
                        ));
                    }
                }
                self.generators.push((id, *who, g));
                self.model = Ghost(model);
                let ghost n = old(self).generators@.len() as int;
                assert forall|j: int, k: int| 0 <= j < k < self.generators@.len() implies
                    (self.generators@[j].0, self.generators@[j].1@) != (self.generators@[k].0,
                    self.generators@[k].1@) by {
                    if k < n {
                        assert((old(self).generators@[j].0, old(self).generators@[j].1@)
                            != (old(self).generators@[k].0, old(self).generators@[k].1@));
                    }
                }
                assert forall|j: int| 0 <= j < self.generators@.len() implies {
                    &&& #[trigger] self.model@.contains_key(
                        (self.generators@[j].0, self.generators@[j].1@),
                    )
                    &&& self.model@[(self.generators@[j].0, self.generators@[j].1@)]
                        == self.generators@[j].2
                } by {
                    if j < n {
                        assert(old(self).model@.contains_key(
                            (old(self).generators@[j].0, old(self).generators@[j].1@),
                        ));
                    }
                }
                assert forall|k: GeneratorKey| #[trigger] self.model@.contains_key(k) implies exists|
                    j: int,
                |
                    0 <= j < self.generators@.len() && (self.generators@[j].0,
                    self.generators@[j].1@) == k by {
                    if k != key {
                        let j = choose|j: int|
                            0 <= j < old(self).generators@.len() && (old(self).generators@[j].0,
                            old(self).generators@[j].1@) == k;
                        assert((self.generators@[j].0, self.generators@[j].1@) == k);
                    } else {
                        assert((self.generators@[n].0, self.generators@[n].1@) == k);
                    }
                }
            },
        }
    }

    /// Deletes the record of `who` in cycle `id`, if there is one.
    pub fn remove_generator(&mut self, id: CycleId, who: &AccountId)
        requires
            old(self).wf(),
        ensures
            final(self).wf(),
            final(self)@ == (RegistryView {
                generators: old(self)@.generators.remove((id, who@)),
                ..old(self)@
            }),
    {
        let ghost key = (id, who@);
        let ghost model = self.model@.remove(key);
        match self.find_generator(id, who) {
            Some(i) => {
                self.generators.remove(i);
                self.model = Ghost(model);
                let ghost o = old(self).generators@;
                assert forall|j: int| 0 <= j < self.generators@.len() implies #[trigger] self.generators@[j]
                    == (if j < i {
                    o[j]
                } else {
                    o[j + 1]
                }) by {}
                assert forall|j: int, k: int| 0 <= j < k < self.generators@.len() implies
                    (self.generators@[j].0, self.generators@[j].1@) != (self.generators@[k].0,
                    self.generators@[k].1@) by {
                    let jj = if j < i {
                        j
                    } else {
                        j + 1
                    };
                    let kk = if k < i {
                        k
                    } else {
                        k + 1
                    };
                    assert((o[jj].0, o[jj].1@) != (o[kk].0, o[kk].1@));
                }
                assert forall|j: int| 0 <= j < self.generators@.len() implies {
                    &&& #[trigger] self.model@.contains_key(
                        (self.generators@[j].0, self.generators@[j].1@),
                    )
                    &&& self.model@[(self.generators@[j].0, self.generators@[j].1@)]
                        == self.generators@[j].2
                } by {
                    let jj = if j < i {
                        j
                    } else {
                        j + 1
                    };
                    assert((o[jj].0, o[jj].1@) != (o[i as int].0, o[i as int].1@));
                    assert(old(self).model@.contains_key((o[jj].0, o[jj].1@)));
                }
                assert forall|k: GeneratorKey| #[trigger] self.model@.contains_key(k) implies exists|
                    j: int,
                |
                    0 <= j < self.generators@.len() && (self.generators@[j].0,
                    self.generators@[j].1@) == k by {
                    let jj = choose|jj: int| 0 <= jj < o.len() && (o[jj].0, o[jj].1@) == k;
                    if jj < i {
                        assert((self.generators@[jj].0, self.generators@[jj].1@) == k);
                    } else {
                        assert(jj != i);
                        assert((self.generators@[jj - 1].0, self.generators@[jj - 1].1@) == k);
                    }
                }
            },
            None => {
                assert(self.model@ =~= model);
            },
        }
    }
}

} // verus!
