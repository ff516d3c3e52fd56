//! The cycle lifecycle as a state machine over the registry's contents and
//! the ledger: what each of the four operations returns and leaves behind.

use vstd::prelude::*;
use crate::balances::BalancesView;
use crate::encoding::{escrow_of, keccak_of, le_bytes};
use crate::registry::GeneratorKey;
use crate::types::{
    AccountId, Balance, BlockNumber, Config, CycleId, Error, Event, Generator, RngCycle,
};

verus! {

/// The state of the protocol: its configuration, the cycles in order of
/// their identifiers, the generator records, and the events emitted so far.
pub struct PalletView {
    pub config: Config,
    pub cycles: Seq<RngCycle>,
    pub generators: Map<GeneratorKey, Generator>,
    pub events: Seq<Event>,
}

/// Outcome of an operation: its result, the new state and the new ledger.
pub type Outcome<T> = (Result<T, Error>, PalletView, BalancesView);

impl PalletView {
    /// Escrow account of cycle `cycle_id`.
    pub open spec fn escrow(self, cycle_id: CycleId) -> Seq<u8> {
        escrow_of(self.config.pallet_id@, cycle_id)
    }

    /// Keys of the records held for cycle `cycle_id`.
    pub open spec fn records_of(self, cycle_id: CycleId) -> Set<GeneratorKey> {
        self.generators.dom().filter(|k: GeneratorKey| k.0 == cycle_id)
    }

    /// In every cycle, `revealed_count <= generators_count <= max_generators`.
    pub open spec fn counts_bounded(self) -> bool {
        forall|i: int|
            0 <= i < self.cycles.len() ==> #[trigger] self.cycles[i].revealed_count
                <= self.cycles[i].generators_count <= self.config.max_generators
    }

    /// The invariant kept by every operation: records belong to existing
    /// cycles, and in each cycle the reveals plus the records still waiting
    /// for a reveal never exceed the commitments, which never exceed the cap.
    pub open spec fn inv(self) -> bool {
        &&& self.cycles.len() <= u128::MAX
        &&& self.generators.dom().finite()
        &&& forall|k: GeneratorKey| #[trigger] self.generators.contains_key(k) ==> k.0 < self.cycles.len()
        &&& forall|i: int|
            0 <= i < self.cycles.len() ==> self.cycles[i].revealed_count + #[trigger] self.records_of(
                i as CycleId,
            ).len() <= self.cycles[i].generators_count <= self.config.max_generators
    }

    /// Opening a cycle: `who` escrows `bounty`, and the cycle gets the next
    /// identifier, starts at `now` with zeroed counters and random number.
    pub open spec fn create_new_rng_cycle(
        self,
        l: BalancesView,
        now: BlockNumber,
        who: AccountId,
        bounty: Balance,
    ) -> Outcome<CycleId> {
        if bounty < self.config.min_bounty {
            (Err(Error::BountyMustBeGreaterThanMinBounty), self, l)
        } else if self.cycles.len() >= u128::MAX {
            (Err(Error::ArithmeticOverflow), self, l)
        } else {
            let id = self.cycles.len() as CycleId;
            match l.transfer(who@, self.escrow(id), bounty, true) {
                Err(e) => (Err(Error::Ledger(e)), self, l),
                Ok(l2) => {
                    let cycle = RngCycle {
                        creator: who,
                        bounty,
                        started: now,
                        random_number: 0,
                        generators_count: 0,
                        revealed_count: 0,
                    };
                    (
                        Ok(id),
                        PalletView {
                            cycles: self.cycles.push(cycle),
                            events: self.events.push(Event::CycleCreated { bounty, creator: who }),
                            ..self
                        },
                        l2,
                    )
                },
            }
        }
    }

    /// Committing `hash` in cycle `cycle_id`: at most `max_generators`
    /// commitments, bots only after `delay_before_bots` ticks, and a deposit
    /// paid into escrow. A second commitment by the same account replaces the
    /// first record and is counted again.
    pub open spec fn send_hash(
        self,
        l: BalancesView,
        now: BlockNumber,
        who: AccountId,
        cycle_id: CycleId,
        hash: [u8; 32],
        is_bot: bool,
    ) -> Outcome<()> {
        if cycle_id >= self.cycles.len() {
            (Err(Error::NoCycleFound), self, l)
        } else {
            let c = self.cycles[cycle_id as int];
            if c.generators_count >= self.config.max_generators {
                (Err(Error::MaxGeneratorsReached), self, l)
            } else if is_bot && now <= c.started + self.config.delay_before_bots {
                (Err(Error::BotsNotAllowedYet), self, l)
            } else {
                match l.transfer(who@, self.escrow(cycle_id), self.config.deposit, true) {
                    Err(e) => (Err(Error::Ledger(e)), self, l),
                    Ok(l2) => (
                        Ok(()),
                        PalletView {
                            cycles: self.cycles.update(
                                cycle_id as int,
                                RngCycle { generators_count: (c.generators_count + 1) as u8, ..c },
                            ),
                            generators: self.generators.insert(
                                (cycle_id, who@),
                                Generator { secret: 0, hash, is_bot },
                            ),
                            events: self.events.push(
                                Event::HashReceived { cycle_id, sender: who, hash },
                            ),
                            ..self
                        },
                        l2,
                    ),
                }
            }
        }
    }

    /// The reward of one correct reveal in cycle `c`: an equal share of the
    /// bounty among the commitments plus one share kept by the protocol.
    pub open spec fn share(self, c: RngCycle) -> int {
        c.bounty as int / (c.generators_count + 1)
    }

    /// Revealing `secret` in cycle `cycle_id`: from the second phase on, for
    /// an account with a record whose hash is that of the secret. The secret
    /// is folded into the random number, the record is consumed, and the
    /// share plus the deposit is paid out of escrow.
    pub open spec fn reveal_secret(
        self,
        l: BalancesView,
        now: BlockNumber,
        who: AccountId,
        cycle_id: CycleId,
        secret: u64,
    ) -> Outcome<()> {
        if cycle_id >= self.cycles.len() {
            (Err(Error::NoCycleFound), self, l)
        } else {
            let c = self.cycles[cycle_id as int];
            let key = (cycle_id, who@);
            if now < self.config.second_phase_start(c.started) {
                (Err(Error::SecondPhaseNotStartedYet), self, l)
            } else if !self.generators.contains_key(key) {
                (Err(Error::NotSubmitedHashInFirstPhase), self, l)
            } else if self.generators[key].hash@ != keccak_of(le_bytes(secret as nat, 8)) {
                (Err(Error::SecretDoesNotMatchHash), self, l)
            } else if self.share(c) + self.config.deposit > u128::MAX {
                (Err(Error::ArithmeticOverflow), self, l)
            } else {
                let payout = (self.share(c) + self.config.deposit) as Balance;
                match l.transfer(self.escrow(cycle_id), who@, payout, true) {
                    Err(e) => (Err(Error::Ledger(e)), self, l),
                    Ok(l2) => (
                        Ok(()),
                        PalletView {
                            cycles: self.cycles.update(
                                cycle_id as int,
                                RngCycle {
                                    revealed_count: (c.revealed_count + 1) as u8,
                                    random_number: c.random_number ^ secret,
                                    ..c
                                },
                            ),
                            generators: self.generators.remove(key),
                            events: self.events.push(
                                Event::SecretReceived { cycle_id, sender: who },
                            ),
                            ..self
                        },
                        l2,
                    ),
                }
            }
        }
    }

    /// Finalising cycle `cycle_id`: only its creator, only once the reveal
    /// phase is over. Without any commitment or any reveal the bounty goes
    /// back to the creator; otherwise the random number is published.
    pub open spec fn get_random_number(
        self,
        l: BalancesView,
        now: BlockNumber,
        who: AccountId,
        cycle_id: CycleId,
    ) -> Outcome<()> {
        if cycle_id >= self.cycles.len() {
            (Err(Error::NoCycleFound), self, l)
        } else {
            let c = self.cycles[cycle_id as int];
            if c.creator@ != who@ {
                (Err(Error::NotAuthorizedToGetRandomNumber), self, l)
            } else if now < self.config.finish(c.started) {
                (Err(Error::RandomNumberNotYetGenerated), self, l)
            } else if c.generators_count == 0 || c.revealed_count == 0 {
                match l.transfer(self.escrow(cycle_id), who@, c.bounty, false) {
                    Err(e) => (Err(Error::Ledger(e)), self, l),
                    Ok(l2) => (
                        Ok(()),
                        PalletView {
                            events: self.events.push(Event::CycleFailed { cycle_id, creator: who }),
                            ..self
                        },
                        l2,
                    ),
                }
            } else {
                (
                    Ok(()),
                    PalletView {
                        events: self.events.push(
                            Event::CycleCompleted {
                                cycle_id,
                                creator: who,
                                random_number: c.random_number,
                            },
                        ),
                        ..self
                    },
                    l,
                )
            }
        }
    }
}

/// The records of a cycle after a record is written.
proof fn lemma_records_insert(s: PalletView, k: GeneratorKey, g: Generator, c: CycleId)
    requires
        s.generators.dom().finite(),
    ensures
        s.records_of(c).finite(),
        (PalletView { generators: s.generators.insert(k, g), ..s }).records_of(c) == (if k.0 == c {
            s.records_of(c).insert(k)
        } else {
            s.records_of(c)
        }),
{
    let t = PalletView { generators: s.generators.insert(k, g), ..s };
    if k.0 == c {
        assert(t.records_of(c) =~= s.records_of(c).insert(k));
    } else {
        assert(t.records_of(c) =~= s.records_of(c));
    }
}

/// The records of a cycle after a record is deleted.
proof fn lemma_records_remove(s: PalletView, k: GeneratorKey, c: CycleId)
    requires
        s.generators.dom().finite(),
    ensures
        s.records_of(c).finite(),
        (PalletView { generators: s.generators.remove(k), ..s }).records_of(c) == (if k.0 == c {
            s.records_of(c).remove(k)
        } else {
            s.records_of(c)
        }),
{
    let t = PalletView { generators: s.generators.remove(k), ..s };
    if k.0 == c {
        assert(t.records_of(c) =~= s.records_of(c).remove(k));
    } else {
        assert(t.records_of(c) =~= s.records_of(c));
    }
}

/// The invariant bounds the counters of every cycle.
pub proof fn lemma_inv_counts_bounded(s: PalletView)
    requires
        s.inv(),
    ensures
        s.counts_bounded(),
{
    assert forall|i: int| 0 <= i < s.cycles.len() implies #[trigger] s.cycles[i].revealed_count
        <= s.cycles[i].generators_count <= s.config.max_generators by {
        assert(s.records_of(i as CycleId).len() >= 0);
    }
}

/// Opening a cycle keeps the invariant.
pub proof fn lemma_create_new_rng_cycle_inv(
    s: PalletView,
    l: BalancesView,
    now: BlockNumber,
    who: AccountId,
    bounty: Balance,
)
    requires
        s.inv(),
    ensures
        s.create_new_rng_cycle(l, now, who, bounty).1.inv(),
{
    let t = s.create_new_rng_cycle(l, now, who, bounty).1;
    if t != s {
        let n = s.cycles.len();
        assert(t.generators == s.generators);
        assert forall|i: int| 0 <= i < t.cycles.len() implies t.cycles[i].revealed_count
            + #[trigger] t.records_of(i as CycleId).len() <= t.cycles[i].generators_count
            <= t.config.max_generators by {
            assert(t.records_of(i as CycleId) == s.records_of(i as CycleId));
            if i == n {
                assert(s.records_of(i as CycleId) =~= Set::<GeneratorKey>::empty());
            } else {
                assert(t.cycles[i] == s.cycles[i]);
            }
        }
    }
}

/// Committing keeps the invariant.
pub proof fn lemma_send_hash_inv(
    s: PalletView,
    l: BalancesView,
    now: BlockNumber,
    who: AccountId,
    cycle_id: CycleId,
    hash: [u8; 32],
    is_bot: bool,
)
    requires
        s.inv(),
    ensures
        s.send_hash(l, now, who, cycle_id, hash, is_bot).1.inv(),
{
    let t = s.send_hash(l, now, who, cycle_id, hash, is_bot).1;
    if t != s {
        let k = (cycle_id, who@);
        let g = Generator { secret: 0, hash, is_bot };
        assert(t.generators == s.generators.insert(k, g));
        assert(t.generators.dom() == s.generators.dom().insert(k));
        assert forall|kk: GeneratorKey| #[trigger] t.generators.contains_key(kk) implies kk.0
            < t.cycles.len() by {
            if kk != k {
                assert(s.generators.contains_key(kk));
            }
        }
        assert forall|i: int| 0 <= i < t.cycles.len() implies t.cycles[i].revealed_count
            + #[trigger] t.records_of(i as CycleId).len() <= t.cycles[i].generators_count
            <= t.config.max_generators by {
            lemma_records_insert(s, k, g, i as CycleId);
            if i == cycle_id {
                let c = s.cycles[i];
                assert(c.revealed_count + s.records_of(cycle_id).len() <= c.generators_count);
                assert(c.generators_count < s.config.max_generators);
                assert(t.cycles[i].generators_count == c.generators_count + 1);
                assert(t.records_of(cycle_id).len() <= s.records_of(cycle_id).len() + 1);
            } else {
                assert(t.cycles[i] == s.cycles[i]);
                assert(t.records_of(i as CycleId) == s.records_of(i as CycleId));
            }
        }
        assert(t.inv());
    }
}

/// Revealing keeps the invariant.
pub proof fn lemma_reveal_secret_inv(
    s: PalletView,
    l: BalancesView,
    now: BlockNumber,
    who: AccountId,
    cycle_id: CycleId,
    secret: u64,
)
    requires
        s.inv(),
    ensures
        s.reveal_secret(l, now, who, cycle_id, secret).1.inv(),
{
    let t = s.reveal_secret(l, now, who, cycle_id, secret).1;
    if t != s {
        let k = (cycle_id, who@);
        assert(s.generators.contains_key(k));
        assert(t.generators == s.generators.remove(k));
        lemma_records_insert(s, k, s.generators[k], cycle_id);
        assert(s.records_of(cycle_id).contains(k));
        assert forall|i: int| 0 <= i < t.cycles.len() implies t.cycles[i].revealed_count
            + #[trigger] t.records_of(i as CycleId).len() <= t.cycles[i].generators_count
            <= t.config.max_generators by {
            lemma_records_remove(s, k, i as CycleId);
        }
    }
}

/// Finalising keeps the invariant.
pub proof fn lemma_get_random_number_inv(
    s: PalletView,
    l: BalancesView,
    now: BlockNumber,
    who: AccountId,
    cycle_id: CycleId,
)
    requires
        s.inv(),
    ensures
        s.get_random_number(l, now, who, cycle_id).1.inv(),
{
    let t = s.get_random_number(l, now, who, cycle_id).1;
    assert(t.cycles == s.cycles && t.generators == s.generators && t.config == s.config);
    assert forall|i: int| 0 <= i < t.cycles.len() implies t.cycles[i].revealed_count
        + #[trigger] t.records_of(i as CycleId).len() <= t.cycles[i].generators_count
        <= t.config.max_generators by {
        assert(t.records_of(i as CycleId) == s.records_of(i as CycleId));
    }
}

/// Committing the hash of `secret` and then revealing `secret` once the
/// reveal phase has begun passes every check of the protocol: the reveal
/// succeeds exactly when the payout fits and escrow can pay it, and then
/// folds `secret` into the cycle's random number.
pub proof fn lemma_commit_then_reveal(
    s: PalletView,
    l: BalancesView,
    commit_at: BlockNumber,
    who: AccountId,
    cycle_id: CycleId,
    secret: u64,
    hash: [u8; 32],
    is_bot: bool,
    reveal_at: BlockNumber,
)
    requires
        s.inv(),
        hash@ == keccak_of(le_bytes(secret as nat, 8)),
        s.send_hash(l, commit_at, who, cycle_id, hash, is_bot).0 is Ok,
        reveal_at >= s.config.second_phase_start(s.cycles[cycle_id as int].started),
    ensures
        ({
            let (_, s1, l1) = s.send_hash(l, commit_at, who, cycle_id, hash, is_bot);
            let (r2, s2, l2) = s1.reveal_secret(l1, reveal_at, who, cycle_id, secret);
            let c1 = s1.cycles[cycle_id as int];
            let payout = s1.share(c1) + s1.config.deposit;
            &&& r2 is Ok <==> (payout <= u128::MAX && l1.transfer(
                s1.escrow(cycle_id),
                who@,
                payout as Balance,
                true,
            ) is Ok)
            &&& r2 is Ok ==> s2.cycles[cycle_id as int].random_number == c1.random_number ^ secret
            &&& r2 is Ok ==> s2.cycles[cycle_id as int].revealed_count == c1.revealed_count + 1
        }),
{
    let (_, s1, l1) = s.send_hash(l, commit_at, who, cycle_id, hash, is_bot);
    lemma_send_hash_inv(s, l, commit_at, who, cycle_id, hash, is_bot);
    let k = (cycle_id, who@);
    assert(s1.generators.contains_key(k));
    assert(s1.generators[k].hash == hash);
    assert(s1.cycles[cycle_id as int].started == s.cycles[cycle_id as int].started);
    let c1 = s1.cycles[cycle_id as int];
    let i = cycle_id as int;
    assert(i as CycleId == cycle_id);
    assert(c1.revealed_count + s1.records_of(i as CycleId).len() <= c1.generators_count);
    lemma_records_insert(s1, k, s1.generators[k], cycle_id);
    assert(s1.records_of(cycle_id).contains(k));
    assert(s1.records_of(cycle_id).len() >= 1) by {
        if s1.records_of(cycle_id).len() == 0 {
            s1.records_of(cycle_id).lemma_len0_is_empty();
        }
    }
}

/// Once a generator has committed `hash`, revealing a secret whose hash
/// differs fails and changes nothing: with `SecretDoesNotMatchHash` from
/// the second phase on.
pub proof fn lemma_reveal_other_secret_fails(
    s: PalletView,
    l: BalancesView,
    commit_at: BlockNumber,
    who: AccountId,
    cycle_id: CycleId,
    hash: [u8; 32],
    is_bot: bool,
    reveal_at: BlockNumber,
    other: u64,
)
    requires
        s.send_hash(l, commit_at, who, cycle_id, hash, is_bot).0 is Ok,
        keccak_of(le_bytes(other as nat, 8)) != hash@,
    ensures
        ({
            let (_, s1, l1) = s.send_hash(l, commit_at, who, cycle_id, hash, is_bot);
            let (r2, s2, l2) = s1.reveal_secret(l1, reveal_at, who, cycle_id, other);
            &&& r2 is Err
            &&& s2 == s1
            &&& l2 == l1
            &&& reveal_at >= s.config.second_phase_start(s.cycles[cycle_id as int].started)
                ==> r2 == Err::<(), Error>(Error::SecretDoesNotMatchHash)
        }),
{
    let (_, s1, l1) = s.send_hash(l, commit_at, who, cycle_id, hash, is_bot);
    assert(s1.generators[(cycle_id, who@)].hash == hash);
    assert(s1.cycles[cycle_id as int].started == s.cycles[cycle_id as int].started);
}

/// A transfer never lowers the receiver's balance, never raises anyone
/// else's, and keeps the existential deposit.
pub proof fn lemma_transfer_monotone(
    l: BalancesView,
    from: Seq<u8>,
    to: Seq<u8>,
    amount: Balance,
    keep_alive: bool,
    x: Seq<u8>,
)
    requires
        l.transfer(from, to, amount, keep_alive) is Ok,
    ensures
        ({
            let l2 = l.transfer(from, to, amount, keep_alive)->Ok_0;
            &&& x == to ==> l2.free_balance(x) >= l.free_balance(x)
            &&& x != to ==> l2.free_balance(x) <= l.free_balance(x)
            &&& l2.existential_deposit == l.existential_deposit
        }),
{
}

/// When two generators commit to a cycle in which nothing has been revealed
/// and neither reveals, its creator's finalisation after the full duration
/// reports the cycle as failed and gives the creator back exactly the
/// bounty, provided escrow held the bounty and the creator can receive it.
pub proof fn lemma_unrevealed_cycle_refunds(
    s: PalletView,
    l: BalancesView,
    cycle_id: CycleId,
    a: AccountId,
    a_at: BlockNumber,
    a_hash: [u8; 32],
    a_bot: bool,
    b: AccountId,
    b_at: BlockNumber,
    b_hash: [u8; 32],
    b_bot: bool,
    now: BlockNumber,
)
    requires
        cycle_id < s.cycles.len(),
        s.cycles[cycle_id as int].revealed_count == 0,
        s.send_hash(l, a_at, a, cycle_id, a_hash, a_bot).0 is Ok,
        ({
            let (_, s1, l1) = s.send_hash(l, a_at, a, cycle_id, a_hash, a_bot);
            s1.send_hash(l1, b_at, b, cycle_id, b_hash, b_bot).0 is Ok
        }),
        now >= s.config.finish(s.cycles[cycle_id as int].started),
        s.cycles[cycle_id as int].creator@ != s.escrow(cycle_id),
        l.free_balance(s.escrow(cycle_id)) >= s.cycles[cycle_id as int].bounty,
        l.free_balance(s.cycles[cycle_id as int].creator@) + s.cycles[cycle_id as int].bounty
            <= u128::MAX,
    ensures
        ({
            let c = s.cycles[cycle_id as int];
            let (_, s1, l1) = s.send_hash(l, a_at, a, cycle_id, a_hash, a_bot);
            let (_, s2, l2) = s1.send_hash(l1, b_at, b, cycle_id, b_hash, b_bot);
            let (r3, s3, l3) = s2.get_random_number(l2, now, c.creator, cycle_id);
            &&& r3 is Ok
            &&& s3.events.last() == Event::CycleFailed { cycle_id, creator: c.creator }
            &&& l3.free_balance(c.creator@) == l2.free_balance(c.creator@) + c.bounty
        }),
{
    let c = s.cycles[cycle_id as int];
    let e = s.escrow(cycle_id);
    let (_, s1, l1) = s.send_hash(l, a_at, a, cycle_id, a_hash, a_bot);
    let (_, s2, l2) = s1.send_hash(l1, b_at, b, cycle_id, b_hash, b_bot);
    lemma_transfer_monotone(l, a@, e, s.config.deposit, true, e);
    lemma_transfer_monotone(l, a@, e, s.config.deposit, true, c.creator@);
    lemma_transfer_monotone(l1, b@, e, s.config.deposit, true, e);
    lemma_transfer_monotone(l1, b@, e, s.config.deposit, true, c.creator@);
    assert(s2.cycles[cycle_id as int].revealed_count == 0);
    assert(s2.cycles[cycle_id as int].creator == c.creator);
    assert(s2.cycles[cycle_id as int].bounty == c.bounty);
    assert(s2.cycles[cycle_id as int].started == c.started);
    assert(s2.config == s.config);
}

} // verus!
