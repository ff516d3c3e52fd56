//! The protocol's data: cycles, generator records, events, errors and the
//! configuration that fixes deposits, delays and limits.

use vstd::prelude::*;

verus! {

/// An account: thirty-two opaque bytes.
pub type AccountId = [u8; 32];

/// Identifier of a cycle, handed out in increasing order from zero.
pub type CycleId = u128;

/// An amount of the ledger's currency.
pub type Balance = u128;

/// A value of the logical clock.
pub type BlockNumber = u32;

/// One round of the commit-reveal protocol.
#[derive(Clone, Copy, Debug, PartialEq, Eq)]
pub struct RngCycle {
    pub creator: AccountId,
    pub bounty: Balance,
    pub started: BlockNumber,
    /// Exclusive-or of the secrets revealed so far; authoritative only once
    /// the cycle has been finalised successfully.
    pub random_number: u64,
    pub generators_count: u8,
    pub revealed_count: u8,
}

/// What a generator committed in a cycle.
#[derive(Clone, Copy, Debug, PartialEq, Eq)]
pub struct Generator {
    /// Placeholder: the secret itself is never stored before it is revealed.
    pub secret: u64,
    pub hash: [u8; 32],
    pub is_bot: bool,
}

/// Notification of a successful operation.
#[derive(Clone, Copy, Debug, PartialEq, Eq)]
pub enum Event {
    CycleCreated { bounty: Balance, creator: AccountId },
    HashReceived { cycle_id: CycleId, sender: AccountId, hash: [u8; 32] },
    SecretReceived { cycle_id: CycleId, sender: AccountId },
    CycleCompleted { cycle_id: CycleId, creator: AccountId, random_number: u64 },
    CycleFailed { cycle_id: CycleId, creator: AccountId },
}

/// Why the ledger refused a transfer.
#[derive(Clone, Copy, Debug, PartialEq, Eq)]
pub enum LedgerError {
    /// The sender holds less than the amount.
    InsufficientBalance,
    /// The sender would keep less than the existential deposit.
    KeepAlive,
    /// The receiver's balance would not fit.
    Overflow,
}

/// Why an operation of the protocol failed.
#[derive(Clone, Copy, Debug, PartialEq, Eq)]
pub enum Error {
    BountyMustBeGreaterThanMinBounty,
    NoCycleFound,
    BotsNotAllowedYet,
    MaxGeneratorsReached,
    SecondPhaseNotStartedYet,
    NotAuthorizedToGetRandomNumber,
    RandomNumberNotYetGenerated,
    SecretDoesNotMatchHash,
    NotSubmitedHashInFirstPhase,
    ArithmeticOverflow,
    ArithmeticUnderflow,
    /// A transfer failed; the ledger's reason is passed on unchanged.
    Ledger(LedgerError),
}

/// The constants of a deployment.
#[derive(Clone, Copy, Debug, PartialEq, Eq)]
pub struct Config {
    /// Smallest bounty a cycle may be opened with.
    pub min_bounty: Balance,
    /// Stake a generator posts with each commitment.
    pub deposit: Balance,
    /// Ticks after a cycle starts before bots may commit.
    pub delay_before_bots: BlockNumber,
    /// Further ticks before secrets may be revealed.
    pub delay_before_second_phase: BlockNumber,
    /// Length of the reveal phase.
    pub second_phase_duration: BlockNumber,
    /// Most commitments a cycle accepts.
    pub max_generators: u8,
    /// Identifier of the module, from which escrow accounts are derived.
    pub pallet_id: [u8; 8],
}

impl Config {
    /// First tick at which secrets may be revealed in a cycle started at `started`.
    pub open spec fn second_phase_start(self, started: BlockNumber) -> int {
        started + self.delay_before_bots + self.delay_before_second_phase
    }

    /// First tick at which a cycle started at `started` may be finalised.
    pub open spec fn finish(self, started: BlockNumber) -> int {
        self.second_phase_start(started) + self.second_phase_duration
    }
}

} // verus!
