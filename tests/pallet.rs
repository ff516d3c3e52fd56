use rng_dao::balances::Balances;
use rng_dao::pallet::Pallet;
use rng_dao::types::{AccountId, Config, Error, Event, RngCycle};

const ALICE: AccountId = [1u8; 32];
const BOB: AccountId = [2u8; 32];
const CHARLIE: AccountId = [3u8; 32];
const EVE: AccountId = [4u8; 32];
const TOM: AccountId = [5u8; 32];
const BOT: AccountId = [6u8; 32];

fn test_config() -> Config {
    Config {
        min_bounty: 100,
        deposit: 300,
        delay_before_bots: 3,
        delay_before_second_phase: 2,
        second_phase_duration: 5,
        max_generators: 3,
        pallet_id: *b"rng_dao_",
    }
}

fn build() -> (Pallet, Balances) {
    let mut balances = Balances::new(0);
    for who in [ALICE, BOB, CHARLIE, EVE, TOM, BOT] {
        balances.set_balance(&who, 1_000);
    }
    (Pallet::new(test_config()), balances)
}

fn keccak(secret: u64) -> [u8; 32] {
    <sp_core::KeccakHasher as sp_core::Hasher>::hash(&secret.to_le_bytes()).0
}

fn fresh_cycle(bounty: u128) -> RngCycle {
    RngCycle {
        creator: ALICE,
        bounty,
        started: 1,
        generators_count: 0_u8,
        revealed_count: 0_u8,
        random_number: 0_u64,
    }
}

/// Opens cycle 0 for ALICE at tick 1 and checks what the opening did.
fn open_cycle(p: &mut Pallet, b: &mut Balances, bounty: u128) -> u128 {
    let free_balance = b.free_balance(&ALICE);
    assert_eq!(p.create_new_rng_cycle(b, 1, ALICE, bounty), Ok(0));
    assert_eq!(p.get_cycle_count(), 1_u128);
    let cycle_id = 0_u128;
    assert_eq!(p.cycles(cycle_id), Some(fresh_cycle(bounty)));
    assert_eq!(b.free_balance(&ALICE), free_balance - bounty);
    assert_eq!(b.free_balance(&p.account_id(cycle_id)), bounty);
    assert_eq!(p.last_event(), Some(Event::CycleCreated { bounty, creator: ALICE }));
    cycle_id
}

/// Runs `op` and checks that it failed with `expected` and changed nothing.
fn assert_noop(
    p: &mut Pallet,
    b: &mut Balances,
    op: impl FnOnce(&mut Pallet, &mut Balances) -> Result<(), Error>,
    expected: Error,
) {
    let accounts = [ALICE, BOB, CHARLIE, EVE, TOM, BOT, p.account_id(0)];
    let before: Vec<u128> = accounts.iter().map(|a| b.free_balance(a)).collect();
    let count = p.get_cycle_count();
    let cycle = p.cycles(0);
    let events = p.event_count();
    assert_eq!(op(p, b), Err(expected));
    let after: Vec<u128> = accounts.iter().map(|a| b.free_balance(a)).collect();
    assert_eq!(before, after);
    assert_eq!(p.get_cycle_count(), count);
    assert_eq!(p.cycles(0), cycle);
    assert_eq!(p.event_count(), events);
}

#[test]
fn create_new_rng_cycle_works() {
    let (mut p, mut b) = build();
    let bounty = 150;
    let free_balance = b.free_balance(&ALICE);
    assert!(p.create_new_rng_cycle(&mut b, 1, ALICE, bounty).is_ok());
    assert_eq!(p.get_cycle_count(), 1_u128);
    assert_eq!(p.cycles(0_u128), Some(fresh_cycle(bounty)));
    assert_eq!(b.free_balance(&ALICE), free_balance - bounty);
    assert_eq!(b.free_balance(&p.account_id(0_u128)), bounty);
    assert_eq!(p.last_event(), Some(Event::CycleCreated { bounty, creator: ALICE }));
}

#[test]
fn create_new_rng_cycle_fails_due_to_low_bounty() {
    let (mut p, mut b) = build();
    let before = b.free_balance(&ALICE);
    assert_eq!(
        p.create_new_rng_cycle(&mut b, 0, ALICE, 50),
        Err(Error::BountyMustBeGreaterThanMinBounty)
    );
    assert_eq!(p.get_cycle_count(), 0_u128);
    assert_eq!(b.free_balance(&ALICE), before);
    assert_eq!(p.last_event(), None);
}

#[test]
fn basic_rng_works() {
    let (mut p, mut b) = build();
    let bounty = 200;
    let cycle_id = open_cycle(&mut p, &mut b, bounty);

    // BOB takes part
    let bob_secret = 9897_u64;
    let bob_hash = keccak(bob_secret);
    assert_eq!(p.send_hash(&mut b, 1, BOB, cycle_id, bob_hash, false), Ok(()));
    assert_eq!(
        p.last_event(),
        Some(Event::HashReceived { cycle_id, sender: BOB, hash: bob_hash })
    );
    // CHARLIE takes part
    let charlie_secret = 120019_u64;
    let charlie_hash = keccak(charlie_secret);
    assert_eq!(p.send_hash(&mut b, 1, CHARLIE, cycle_id, charlie_hash, false), Ok(()));
    assert_eq!(
        p.last_event(),
        Some(Event::HashReceived { cycle_id, sender: CHARLIE, hash: charlie_hash })
    );

    let now = 1 + 3 + 1;

    // BOT takes part
    let bot_secret = 807_u64;
    let bot_hash = keccak(bot_secret);
    assert_eq!(p.send_hash(&mut b, now, BOT, cycle_id, bot_hash, true), Ok(()));
    assert_eq!(
        p.last_event(),
        Some(Event::HashReceived { cycle_id, sender: BOT, hash: bot_hash })
    );

    let expected_random_number = 0_u64 ^ bob_secret ^ charlie_secret ^ bot_secret;

    let now = 1 + 3 + 2 + 1;

    // BOB reveals
    assert_eq!(p.reveal_secret(&mut b, now, BOB, cycle_id, bob_secret, false), Ok(()));
    assert_eq!(p.last_event(), Some(Event::SecretReceived { cycle_id, sender: BOB }));
    // CHARLIE reveals
    assert_eq!(p.reveal_secret(&mut b, now, CHARLIE, cycle_id, charlie_secret, false), Ok(()));
    assert_eq!(p.last_event(), Some(Event::SecretReceived { cycle_id, sender: CHARLIE }));
    // BOT reveals
    assert_eq!(p.reveal_secret(&mut b, now, BOT, cycle_id, bot_secret, true), Ok(()));
    assert_eq!(p.last_event(), Some(Event::SecretReceived { cycle_id, sender: BOT }));

    let now = 1 + 3 + 2 + 5 + 1;

    assert_eq!(p.get_random_number(&mut b, now, ALICE, cycle_id), Ok(()));
    assert_eq!(
        p.last_event(),
        Some(Event::CycleCompleted {
            cycle_id,
            creator: ALICE,
            random_number: expected_random_number,
        })
    );

    assert_eq!(
        p.cycles(cycle_id),
        Some(RngCycle {
            creator: ALICE,
            bounty,
            started: 1,
            generators_count: 3_u8,
            revealed_count: 3_u8,
            random_number: expected_random_number,
        })
    );
}

#[test]
fn second_phase_not_started_yet_error() {
    let (mut p, mut b) = build();
    let cycle_id = open_cycle(&mut p, &mut b, 150);
    let bob_secret = 807_u64;
    let bob_hash = keccak(bob_secret);
    assert_eq!(p.send_hash(&mut b, 1, BOB, cycle_id, bob_hash, false), Ok(()));
    let now = 1 + 3 + 2 + 1;
    assert_noop(
        &mut p,
        &mut b,
        |p, b| p.reveal_secret(b, now, BOB, cycle_id, 10_u64, false),
        Error::SecretDoesNotMatchHash,
    );
}

#[test]
fn not_submited_hash_in_first_phase_error() {
    let (mut p, mut b) = build();
    let cycle_id = open_cycle(&mut p, &mut b, 150);
    let bob_secret = 807_u64;
    let bob_hash = keccak(bob_secret);
    assert_eq!(p.send_hash(&mut b, 1, BOB, cycle_id, bob_hash, false), Ok(()));
    let now = 1 + 3 + 2 + 1;
    assert_noop(
        &mut p,
        &mut b,
        |p, b| p.reveal_secret(b, now, EVE, cycle_id, 10_u64, false),
        Error::NotSubmitedHashInFirstPhase,
    );
}

#[test]
fn random_number_not_yet_generated_error() {
    let (mut p, mut b) = build();
    let cycle_id = open_cycle(&mut p, &mut b, 150);
    let bob_secret = 807_u64;
    let bob_hash = keccak(bob_secret);
    assert_eq!(p.send_hash(&mut b, 1, BOB, cycle_id, bob_hash, false), Ok(()));
    let now = 1 + 3 + 2 + 1;
    assert_eq!(p.reveal_secret(&mut b, now, BOB, cycle_id, bob_secret, false), Ok(()));
    assert_noop(
        &mut p,
        &mut b,
        |p, b| p.get_random_number(b, now, ALICE, 0_u128),
        Error::RandomNumberNotYetGenerated,
    );
}

#[test]
fn return_bounty_case1() {
    let (mut p, mut b) = build();
    let free_balance = b.free_balance(&ALICE);
    let cycle_id = open_cycle(&mut p, &mut b, 150);
    // no generators participated and deadline passed
    let now = 1 + 3 + 2 + 5 + 1;
    assert_eq!(p.get_random_number(&mut b, now, ALICE, cycle_id), Ok(()));
    assert_eq!(p.last_event(), Some(Event::CycleFailed { cycle_id, creator: ALICE }));
    // ALICE gets her bounty back
    assert_eq!(b.free_balance(&ALICE), free_balance);
}

#[test]
fn return_bounty_case2() {
    let (mut p, mut b) = build();
    let free_balance = b.free_balance(&ALICE);
    let cycle_id = open_cycle(&mut p, &mut b, 150);
    let bob_secret = 807_u64;
    let bob_hash = keccak(bob_secret);
    assert_eq!(p.send_hash(&mut b, 1, BOB, cycle_id, bob_hash, false), Ok(()));
    // no generators revealed correct secret in time
    let now = 1 + 3 + 2 + 5 + 1;
    assert_eq!(p.get_random_number(&mut b, now, ALICE, cycle_id), Ok(()));
    assert_eq!(p.last_event(), Some(Event::CycleFailed { cycle_id, creator: ALICE }));
    // ALICE gets her bounty back
    assert_eq!(b.free_balance(&ALICE), free_balance);
}

#[test]
fn not_authorized_to_get_random_number_error() {
    let (mut p, mut b) = build();
    let cycle_id = open_cycle(&mut p, &mut b, 150);
    let bob_secret = 807_u64;
    let bob_hash = keccak(bob_secret);
    assert_eq!(p.send_hash(&mut b, 1, BOB, cycle_id, bob_hash, false), Ok(()));
    let now = 1 + 3 + 2 + 1;
    assert_eq!(p.reveal_secret(&mut b, now, BOB, cycle_id, bob_secret, false), Ok(()));
    let now = 1 + 3 + 2 + 5 + 1;
    assert_noop(
        &mut p,
        &mut b,
        |p, b| p.get_random_number(b, now, BOB, cycle_id),
        Error::NotAuthorizedToGetRandomNumber,
    );
}

#[test]
fn secret_does_not_match_hash_error() {
    let (mut p, mut b) = build();
    let cycle_id = open_cycle(&mut p, &mut b, 150);
    let bob_secret = 807_u64;
    let bob_hash = keccak(bob_secret);
    assert_eq!(p.send_hash(&mut b, 1, BOB, cycle_id, bob_hash, false), Ok(()));
    assert_noop(
        &mut p,
        &mut b,
        |p, b| p.reveal_secret(b, 1, BOB, cycle_id, bob_secret, false),
        Error::SecondPhaseNotStartedYet,
    );
}

#[test]
fn bots_cannot_participate_before_delay() {
    let (mut p, mut b) = build();
    let cycle_id = open_cycle(&mut p, &mut b, 150);
    let bot_secret = 807_u64;
    let bot_hash = keccak(bot_secret);
    assert_noop(
        &mut p,
        &mut b,
        |p, b| p.send_hash(b, 1, BOT, cycle_id, bot_hash, true),
        Error::BotsNotAllowedYet,
    );
}

#[test]
fn max_generators_error() {
    let (mut p, mut b) = build();
    let cycle_id = open_cycle(&mut p, &mut b, 150);
    let secret = 807_u64;
    let hash = keccak(secret);
    assert_eq!(p.send_hash(&mut b, 1, BOB, cycle_id, hash, false), Ok(()));
    assert_eq!(p.send_hash(&mut b, 1, CHARLIE, cycle_id, hash, false), Ok(()));
    assert_eq!(p.send_hash(&mut b, 1, EVE, cycle_id, hash, false), Ok(()));
    assert_noop(
        &mut p,
        &mut b,
        |p, b| p.send_hash(b, 1, TOM, cycle_id, hash, false),
        Error::MaxGeneratorsReached,
    );
}
