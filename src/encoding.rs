//! Byte encodings used by the protocol: little-endian integers, the
//! commitment hash of a secret, and the derivation of escrow accounts.

use vstd::prelude::*;
use vstd::arithmetic::div_mod::{lemma_fundamental_div_mod, lemma_div_pos_is_pos};

verus! {

/// The `n` least significant base-256 digits of `x`, least significant first.
pub open spec fn le_bytes(x: nat, n: nat) -> Seq<u8>
    decreases n,
{
    if n == 0 {
        seq![]
    } else {
        seq![(x % 256) as u8] + le_bytes(x / 256, (n - 1) as nat)
    }
}

/// The name of Keccak-256 on a byte string.
pub uninterp spec fn keccak_of(data: Seq<u8>) -> Seq<u8>;

/// Relies on `sp_core::KeccakHasher` (`hash_db::Hasher::hash`): the 32-byte
/// Keccak-256 digest of `data`, which depends on the bytes alone.
#[verifier::external_body]
fn keccak_256(data: &[u8]) -> (r: [u8; 32])
    ensures
        r@ == keccak_of(data@),
{
    <sp_core::KeccakHasher as sp_core::Hasher>::hash(data).0
}

/// Little-endian encoding of `x` on `n` bytes.
pub fn encode_le(x: u128, n: usize) -> (r: Vec<u8>)
    requires
        n <= 16,
    ensures
        r@ == le_bytes(x as nat, n as nat),
{
    let mut out: Vec<u8> = Vec::new();
    let mut v: u128 = x;
    let mut i: usize = 0;
    while i < n
        invariant
            i <= n,
            out@ + le_bytes(v as nat, (n - i) as nat) == le_bytes(x as nat, n as nat),
        decreases n - i,
    {
        let d: u8 = (v % 256) as u8;
        proof {
            let rest = le_bytes((v / 256) as nat, (n - i - 1) as nat);
            assert(le_bytes(v as nat, (n - i) as nat) == seq![d] + rest);
            assert(out@ + (seq![d] + rest) == out@.push(d) + rest);
        }
        out.push(d);
        v = v / 256;
        i = i + 1;
    }
    assert(out@ + le_bytes(v as nat, 0) == out@);
    out
}

/// The commitment a generator publishes for `secret`: the Keccak-256 hash of
/// its eight little-endian bytes.
pub fn hash_secret(secret: u64) -> (r: [u8; 32])
    ensures
        r@ == keccak_of(le_bytes(secret as nat, 8)),
{
    let bytes = encode_le(secret as u128, 8);
    keccak_256(bytes.as_slice())
}

/// `256` to the power `n`.
pub open spec fn radix_pow(n: nat) -> nat
    decreases n,
{
    if n == 0 {
        1
    } else {
        256 * radix_pow((n - 1) as nat)
    }
}

/// Below `256^n`, the first `n` little-endian bytes determine a number.
pub proof fn lemma_le_bytes_injective(x: nat, y: nat, n: nat)
    requires
        x < radix_pow(n),
        y < radix_pow(n),
        le_bytes(x, n) == le_bytes(y, n),
    ensures
        x == y,
    decreases n,
{
    if n > 0 {
        let m = (n - 1) as nat;
        let bx = le_bytes(x, n);
        let by = le_bytes(y, n);
        assert(bx[0] == (x % 256) as u8);
        assert(by[0] == (y % 256) as u8);
        assert(le_bytes(x / 256, m) == bx.drop_first());
        assert(le_bytes(y / 256, m) == by.drop_first());
        lemma_fundamental_div_mod(x as int, 256);
        lemma_fundamental_div_mod(y as int, 256);
        assert(x / 256 < radix_pow(m)) by (nonlinear_arith)
            requires
                x < 256 * radix_pow(m),
                x == 256 * (x / 256) + x % 256,
                0 <= x % 256,
        ;
        assert(y / 256 < radix_pow(m)) by (nonlinear_arith)
            requires
                y < 256 * radix_pow(m),
                y == 256 * (y / 256) + y % 256,
                0 <= y % 256,
        ;
        lemma_le_bytes_injective(x / 256, y / 256, m);
    }
}

/// Every `u128` fits in sixteen bytes.
pub proof fn lemma_u128_below_radix_pow(x: u128)
    ensures
        (x as nat) < radix_pow(16),
{
    reveal_with_fuel(radix_pow, 17);
    assert(radix_pow(16) == 0x1_0000_0000_0000_0000_0000_0000_0000_0000);
}

/// The four bytes that tag an account derived for a module ("modl").
pub open spec fn module_tag() -> Seq<u8> {
    seq![109u8, 111u8, 100u8, 108u8]
}

/// The escrow account of cycle `cycle_id` for the module `pallet_id`: the tag,
/// the module's eight identifier bytes, the cycle identifier on sixteen
/// little-endian bytes, and zero padding up to thirty-two bytes.
pub open spec fn escrow_of(pallet_id: Seq<u8>, cycle_id: u128) -> Seq<u8> {
    module_tag() + pallet_id + le_bytes(cycle_id as nat, 16) + seq![0u8, 0u8, 0u8, 0u8]
}

/// Distinct cycles of one module have distinct escrow accounts.
pub proof fn lemma_escrow_injective(pallet_id: Seq<u8>, a: u128, b: u128)
    requires
        pallet_id.len() == 8,
        escrow_of(pallet_id, a) == escrow_of(pallet_id, b),
    ensures
        a == b,
{
    lemma_le_bytes_len(a as nat, 16);
    lemma_le_bytes_len(b as nat, 16);
    assert(escrow_of(pallet_id, a).subrange(12, 28) == le_bytes(a as nat, 16));
    assert(escrow_of(pallet_id, b).subrange(12, 28) == le_bytes(b as nat, 16));
    lemma_u128_below_radix_pow(a);
    lemma_u128_below_radix_pow(b);
    lemma_le_bytes_injective(a as nat, b as nat, 16);
}

/// `le_bytes(x, n)` has `n` bytes.
pub proof fn lemma_le_bytes_len(x: nat, n: nat)
    ensures
        le_bytes(x, n).len() == n,
    decreases n,
{
    if n > 0 {
        lemma_le_bytes_len(x / 256, (n - 1) as nat);
    }
}

/// Derives the escrow account of a cycle (see `escrow_of`).
pub fn escrow_account(pallet_id: &[u8; 8], cycle_id: u128) -> (r: [u8; 32])
    ensures
        r@ == escrow_of(pallet_id@, cycle_id),
{
    let mut out: [u8; 32] = [0u8; 32];
    out[0] = 109u8;
    out[1] = 111u8;
    out[2] = 100u8;
    out[3] = 108u8;
    let mut i: usize = 0;
    while i < 8
        invariant
            i <= 8,
            forall|k: int| 0 <= k < 4 ==> out@[k] == module_tag()[k],
            forall|k: int| 4 <= k < 4 + i ==> out@[k] == pallet_id@[k - 4],
            forall|k: int| 12 <= k < 32 ==> out@[k] == 0u8,
        decreases 8 - i,
    {
        out[4 + i] = pallet_id[i];
        i = i + 1;
    }
    let id_bytes = encode_le(cycle_id, 16);
    proof {
        lemma_le_bytes_len(cycle_id as nat, 16);
    }
    let mut j: usize = 0;
    while j < 16
        invariant
            j <= 16,
            id_bytes@ == le_bytes(cycle_id as nat, 16),
            id_bytes@.len() == 16,
            forall|k: int| 0 <= k < 4 ==> out@[k] == module_tag()[k],
            forall|k: int| 4 <= k < 12 ==> out@[k] == pallet_id@[k - 4],
            forall|k: int| 12 <= k < 12 + j ==> out@[k] == id_bytes@[k - 12],
            forall|k: int| 28 <= k < 32 ==> out@[k] == 0u8,
        decreases 16 - j,
    {
        out[12 + j] = id_bytes[j];
        j = j + 1;
    }
    assert(out@ =~= escrow_of(pallet_id@, cycle_id));
    out
}

/// Compares two 32-byte values (accounts, hashes) byte by byte.
pub fn eq_bytes32(a: &[u8; 32], b: &[u8; 32]) -> (r: bool)
    ensures
        r == (a@ == b@),
{
    let mut i: usize = 0;
    while i < 32
        invariant
            i <= 32,
            forall|k: int| 0 <= k < i ==> a@[k] == b@[k],
        decreases 32 - i,
    {
        if a[i] != b[i] {
            return false;
        }
        i = i + 1;
    }
    assert(a@ =~= b@);
    true
}

} // verus!
