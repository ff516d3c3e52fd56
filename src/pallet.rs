//! The four operations of the protocol, run against a registry and a ledger.
//! Every check is made before anything is written, so an operation that
//! fails leaves the registry, the events and the ledger as they were.

use vstd::prelude::*;
use crate::balances::Balances;
use crate::encoding::{eq_bytes32, escrow_account, hash_secret};
use crate::engine::{
    lemma_create_new_rng_cycle_inv, lemma_get_random_number_inv, lemma_inv_counts_bounded,
    lemma_reveal_secret_inv, lemma_send_hash_inv, PalletView,
};
use crate::registry::Registry;
use crate::types::{
    AccountId, Balance, BlockNumber, Config, CycleId, Error, Event, Generator, RngCycle,
};

verus! {

/// The protocol's state: configuration, registry and emitted events.
pub struct Pallet {
    config: Config,
    registry: Registry,
    events: Vec<Event>,
}

impl View for Pallet {
    type V = PalletView;

    closed spec fn view(&self) -> PalletView {
        PalletView {
            config: self.config,
            cycles: self.registry@.cycles,
            generators: self.registry@.generators,
            events: self.events@,
        }
    }
}

impl Pallet {
    pub closed spec fn wf(&self) -> bool {
        self.registry.wf() && self@.inv()
    }

    /// A pallet with no cycle and no event.
    pub fn new(config: Config) -> (r: Pallet)
        ensures
            r.wf(),
            r@.config == config,
            r@.cycles == Seq::<RngCycle>::empty(),
            r@.generators.is_empty(),
            r@.events == Seq::<Event>::empty(),
    {
        let r = Pallet { config, registry: Registry::new(), events: Vec::new() };
        assert(r@.generators.dom() =~= Set::<(CycleId, Seq<u8>)>::empty());
        r
    }

    /// The configuration.
    pub fn config(&self) -> (r: Config)
        ensures
            r == self@.config,
    {
        self.config
    }

    /// The identifier the next cycle will get (the number of cycles so far).
    pub fn get_cycle_count(&self) -> (r: CycleId)
        requires
            self.wf(),
        ensures
            r == self@.cycles.len(),
    {
        self.registry.cycle_count()
    }

    /// The cycle `cycle_id`, if it exists.
    pub fn cycles(&self, cycle_id: CycleId) -> (r: Option<RngCycle>)
        requires
            self.wf(),
        ensures
            r == (if cycle_id < self@.cycles.len() {
                Some(self@.cycles[cycle_id as int])
            } else {
                None
            }),
    {
        self.registry.get_cycle(cycle_id)
    }

    /// The record of `who` in cycle `cycle_id`, if one is waiting for a reveal.
    pub fn generators(&self, cycle_id: CycleId, who: &AccountId) -> (r: Option<Generator>)
        requires
            self.wf(),
        ensures
            r == (if self@.generators.contains_key((cycle_id, who@)) {
                Some(self@.generators[(cycle_id, who@)])
            } else {
                None
            }),
    {
        self.registry.get_generator(cycle_id, who)
    }

    /// The event emitted last, if any.
    pub fn last_event(&self) -> (r: Option<Event>)
        ensures
            r == (if self@.events.len() > 0 {
                Some(self@.events.last())
            } else {
                None
            }),
    {
        let n = self.events.len();
        if n > 0 {
            Some(self.events[n - 1])
        } else {
            None
        }
    }

    /// Number of events emitted so far.
    pub fn event_count(&self) -> (r: usize)
        ensures
            r == self@.events.len(),
    {
        self.events.len()
    }

    /// The escrow account of cycle `cycle_id`.
    pub fn account_id(&self, cycle_id: CycleId) -> (r: AccountId)
        ensures
            r@ == self@.escrow(cycle_id),
    {
        escrow_account(&self.config.pallet_id, cycle_id)
    }

    /// Opens a cycle with `bounty` escrowed by `who` at tick `now`, and
    /// returns its identifier.
    pub fn create_new_rng_cycle(
        &mut self,
        ledger: &mut Balances,
        now: BlockNumber,
        who: AccountId,
        bounty: Balance,
    ) -> (r: Result<CycleId, Error>)
        requires
            old(self).wf(),
            old(ledger).wf(),
        ensures
            final(self).wf(),
            final(ledger).wf(),
            final(self)@.counts_bounded(),
            (r, final(self)@, final(ledger)@) == old(self)@.create_new_rng_cycle(
                old(ledger)@,
                now,
                who,
                bounty,
            ),
            bounty < old(self)@.config.min_bounty ==> r == Err::<CycleId, Error>(
                Error::BountyMustBeGreaterThanMinBounty,
            ),
            r is Ok ==> r->Ok_0 == old(self)@.cycles.len(),
            r is Ok && who@ != old(self)@.escrow(r->Ok_0) ==> {
                let escrow = old(self)@.escrow(r->Ok_0);
                &&& final(ledger)@.free_balance(escrow) == old(ledger)@.free_balance(escrow)
                    + bounty
                &&& final(ledger)@.free_balance(who@) == old(ledger)@.free_balance(who@)
                    - bounty
            },
    {
        proof {
            lemma_create_new_rng_cycle_inv(self@, ledger@, now, who, bounty);
            lemma_inv_counts_bounded(self@);
        }
        if bounty < self.config.min_bounty {
            return Err(Error::BountyMustBeGreaterThanMinBounty);
        }
        let id = match self.registry.next_cycle_id() {
            Ok(id) => id,
            Err(e) => return Err(e),
        };
        let escrow = escrow_account(&self.config.pallet_id, id);
        match ledger.transfer(&who, &escrow, bounty, true) {
            Ok(()) => {},
            Err(e) => return Err(Error::Ledger(e)),
        }
        self.registry.insert_cycle(
            RngCycle {
                creator: who,
                bounty,
                started: now,
                random_number: 0,
                generators_count: 0,
                revealed_count: 0,
            },
        );
        self.events.push(Event::CycleCreated { bounty, creator: who });
        proof {
            lemma_inv_counts_bounded(self@);
        }
        Ok(id)
    }

    /// Records `who`'s commitment `hash` in cycle `cycle_id` at tick `now`,
    /// taking the deposit into escrow.
    pub fn send_hash(
        &mut self,
        ledger: &mut Balances,
        now: BlockNumber,
        who: AccountId,
        cycle_id: CycleId,
        hash: [u8; 32],
        is_bot: bool,
    ) -> (r: Result<(), Error>)
        requires
            old(self).wf(),
            old(ledger).wf(),
        ensures
            final(self).wf(),
            final(ledger).wf(),
            final(self)@.counts_bounded(),
            (r, final(self)@, final(ledger)@) == old(self)@.send_hash(
                old(ledger)@,
                now,
                who,
                cycle_id,
                hash,
                is_bot,
            ),
            cycle_id < old(self)@.cycles.len() && old(self)@.cycles[cycle_id as int].generators_count
                >= old(self)@.config.max_generators ==> r == Err::<(), Error>(
                Error::MaxGeneratorsReached,
            ) && final(self)@ == old(self)@ && final(ledger)@ == old(ledger)@,
    {
        proof {
            lemma_send_hash_inv(self@, ledger@, now, who, cycle_id, hash, is_bot);
            lemma_inv_counts_bounded(self@);
        }
        let c = match self.registry.get_cycle(cycle_id) {
            Some(c) => c,
            None => return Err(Error::NoCycleFound),
        };
        if c.generators_count >= self.config.max_generators {
            return Err(Error::MaxGeneratorsReached);
        }
        if is_bot && (now as u64) <= (c.started as u64) + (self.config.delay_before_bots as u64) {
            return Err(Error::BotsNotAllowedYet);
        }
        let escrow = escrow_account(&self.config.pallet_id, cycle_id);
        match ledger.transfer(&who, &escrow, self.config.deposit, true) {
            Ok(()) => {},
            Err(e) => return Err(Error::Ledger(e)),
        }
        self.registry.put_cycle(
            cycle_id,
            RngCycle { generators_count: c.generators_count + 1, ..c },
        );
        self.registry.put_generator(cycle_id, &who, Generator { secret: 0, hash, is_bot });
        self.events.push(Event::HashReceived { cycle_id, sender: who, hash });
        proof {
            lemma_inv_counts_bounded(self@);
        }
        Ok(())
    }

    /// Checks `who`'s `secret` against the commitment in cycle `cycle_id` at
    /// tick `now`; on a match folds it into the random number and pays the
    /// reward and the deposit out of escrow. The flag `_is_bot` is not used.
    pub fn reveal_secret(
        &mut self,
        ledger: &mut Balances,
        now: BlockNumber,
        who: AccountId,
        cycle_id: CycleId,
        secret: u64,
        _is_bot: bool,
    ) -> (r: Result<(), Error>)
        requires
            old(self).wf(),
            old(ledger).wf(),
        ensures
            final(self).wf(),
            final(ledger).wf(),
            final(self)@.counts_bounded(),
            (r, final(self)@, final(ledger)@) == old(self)@.reveal_secret(
                old(ledger)@,
                now,
                who,
                cycle_id,
                secret,
            ),
    {
        proof {
            lemma_reveal_secret_inv(self@, ledger@, now, who, cycle_id, secret);
            lemma_inv_counts_bounded(self@);
        }
        let c = match self.registry.get_cycle(cycle_id) {
            Some(c) => c,
            None => return Err(Error::NoCycleFound),
        };
        let second_phase_start: u64 = (c.started as u64) + (self.config.delay_before_bots as u64)
            + (self.config.delay_before_second_phase as u64);
        if (now as u64) < second_phase_start {
            return Err(Error::SecondPhaseNotStartedYet);
        }
        let g = match self.registry.get_generator(cycle_id, &who) {
            Some(g) => g,
            None => return Err(Error::NotSubmitedHashInFirstPhase),
        };
        let h = hash_secret(secret);
        if !eq_bytes32(&h, &g.hash) {
            return Err(Error::SecretDoesNotMatchHash);
        }
        let total_shares: u128 = (c.generators_count as u128) + 1;
        let share = match c.bounty.checked_div(total_shares) {
            Some(v) => v,
            None => return Err(Error::ArithmeticUnderflow),
        };
        let payout = match share.checked_add(self.config.deposit) {
            Some(v) => v,
            None => return Err(Error::ArithmeticOverflow),
        };
        let escrow = escrow_account(&self.config.pallet_id, cycle_id);
        match ledger.transfer(&escrow, &who, payout, true) {
            Ok(()) => {},
            Err(e) => return Err(Error::Ledger(e)),
        }
        proof {
            let k = (cycle_id, who@);
            assert(old(self)@.records_of(cycle_id).contains(k));
            assert(old(self)@.records_of(cycle_id).finite());
            assert(old(self)@.records_of(cycle_id).len() >= 1) by {
                if old(self)@.records_of(cycle_id).len() == 0 {
                    old(self)@.records_of(cycle_id).lemma_len0_is_empty();
                }
            }
            let i = cycle_id as int;
            assert(i as CycleId == cycle_id);
            assert(old(self)@.cycles[i].revealed_count + old(self)@.records_of(i as CycleId).len()
                <= old(self)@.cycles[i].generators_count);
        }
        self.registry.put_cycle(
            cycle_id,
            RngCycle {
                revealed_count: c.revealed_count + 1,
                random_number: c.random_number ^ secret,
                ..c
            },
        );
        self.registry.remove_generator(cycle_id, &who);
        self.events.push(Event::SecretReceived { cycle_id, sender: who });
        proof {
            lemma_inv_counts_bounded(self@);
        }
        Ok(())
    }

    /// Ends cycle `cycle_id` for its creator `who` at tick `now`: publishes
    /// the random number, or returns the bounty when nobody committed or
    /// nobody revealed.
    pub fn get_random_number(
        &mut self,
        ledger: &mut Balances,
        now: BlockNumber,
        who: AccountId,
        cycle_id: CycleId,
    ) -> (r: Result<(), Error>)
        requires
            old(self).wf(),
            old(ledger).wf(),
        ensures
            final(self).wf(),
            final(ledger).wf(),
            final(self)@.counts_bounded(),
            (r, final(self)@, final(ledger)@) == old(self)@.get_random_number(
                old(ledger)@,
                now,
                who,
                cycle_id,
            ),
            cycle_id < old(self)@.cycles.len() && old(self)@.cycles[cycle_id as int].creator@
                != who@ ==> r == Err::<(), Error>(Error::NotAuthorizedToGetRandomNumber),
    {
        proof {
            lemma_get_random_number_inv(self@, ledger@, now, who, cycle_id);
            lemma_inv_counts_bounded(self@);
        }
        let c = match self.registry.get_cycle(cycle_id) {
            Some(c) => c,
            None => return Err(Error::NoCycleFound),
        };
        if !eq_bytes32(&c.creator, &who) {
            return Err(Error::NotAuthorizedToGetRandomNumber);
        }
        let finish: u64 = (c.started as u64) + (self.config.delay_before_bots as u64)
            + (self.config.delay_before_second_phase as u64)
            + (self.config.second_phase_duration as u64);
        if (now as u64) < finish {
            return Err(Error::RandomNumberNotYetGenerated);
        }
        if c.generators_count == 0 || c.revealed_count == 0 {
            let escrow = escrow_account(&self.config.pallet_id, cycle_id);
            match ledger.transfer(&escrow, &who, c.bounty, false) {
                Ok(()) => {},
                Err(e) => return Err(Error::Ledger(e)),
            }
            self.events.push(Event::CycleFailed { cycle_id, creator: who });
        } else {
            self.events.push(
                Event::CycleCompleted { cycle_id, creator: who, random_number: c.random_number },
            );
        }
        Ok(())
    }
}

} // verus!
