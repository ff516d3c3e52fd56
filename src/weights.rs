//! The cost charged for each operation.

use vstd::prelude::*;

verus! {

/// Cost of a call: execution time and proof size.
#[derive(Clone, Copy, Debug, PartialEq, Eq)]
pub struct Weight {
    pub ref_time: u64,
    pub proof_size: u64,
}

impl Weight {
    /// A weight of `ref_time` execution time and no proof size.
    pub fn from_ref_time(ref_time: u64) -> (r: Weight)
        ensures
            r.ref_time == ref_time,
            r.proof_size == 0,
    {
        Weight { ref_time, proof_size: 0 }
    }
}

/// Execution time charged for each operation by `RuntimeWeight`.
pub const CALL_REF_TIME: u64 = 10_000;

/// The weight of each operation.
pub trait RngDaoWeightInfo {
    fn create_new_rng_cycle() -> Weight;

    fn send_hash() -> Weight;

    fn reveal_secret() -> Weight;

    fn get_random_number() -> Weight;
}

/// Weights that charge every operation `CALL_REF_TIME`.
pub struct RuntimeWeight;

impl RngDaoWeightInfo for RuntimeWeight {
    fn create_new_rng_cycle() -> Weight {
        Weight::from_ref_time(CALL_REF_TIME)
    }

    fn send_hash() -> Weight {
        Weight::from_ref_time(CALL_REF_TIME)
    }

    fn reveal_secret() -> Weight {
        Weight::from_ref_time(CALL_REF_TIME)
    }

    fn get_random_number() -> Weight {
        Weight::from_ref_time(CALL_REF_TIME)
    }
}

} // verus!
