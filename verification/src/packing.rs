//! Lossy fixed-width packing of amounts and fees.
//!
//! Amounts committed on-chain are stored as a 5-bit decimal exponent and a
//! bounded mantissa: the packed value is `mantissa * 10^exponent`. Packing
//! chooses the least exponent whose mantissa fits, truncating the remainder,
//! so the packed value never exceeds the input. Rounding an input to its
//! packed value (`closest_packable_*`) is idempotent: a value already of the
//! packed form is returned unchanged.
//!
//! Amounts are 128-bit integers, the width of an on-chain balance field.

use vstd::prelude::*;
use vstd::arithmetic::div_mod::lemma_fundamental_div_mod_converse;
use crate::bytes::{
    be_bytes, be_slice_to_u128, be_value, lemma_be_bytes_len, lemma_be_value_bound,
    lemma_be_value_of_be_bytes, lemma_pow256_small, nat_to_be_vec,
};
use crate::params::{
    AMOUNT_MANTISSA_LIMIT, AMOUNT_PACKED_BYTES, FEE_MANTISSA_LIMIT, FEE_PACKED_BYTES,
    PACKED_EXPONENT_LIMIT,
};

verus! {

/// 10 to the power `e`.
pub open spec fn pow10(e: nat) -> nat
    decreases e,
{
    if e == 0 {
        1
    } else {
        10 * pow10((e - 1) as nat)
    }
}

/// `v` is exactly representable with a mantissa below `limit` and a decimal
/// exponent below the exponent bound.
pub open spec fn packable(v: nat, limit: nat) -> bool {
    exists|e: nat, m: nat|
        e < PACKED_EXPONENT_LIMIT && m < limit && v == #[trigger] (m * pow10(e))
}

/// The exponent/mantissa pair the packing algorithm chooses, searching
/// upward from exponent `e`: the least exponent whose mantissa fits. When no
/// exponent fits, the largest representable pair is chosen.
pub open spec fn pack_split_from(v: nat, limit: nat, e: nat) -> (nat, nat)
    decreases PACKED_EXPONENT_LIMIT - e,
{
    if e >= PACKED_EXPONENT_LIMIT {
        (((PACKED_EXPONENT_LIMIT - 1) as nat), (limit - 1) as nat)
    } else if v / pow10(e) < limit {
        (e, v / pow10(e))
    } else {
        pack_split_from(v, limit, e + 1)
    }
}

/// The exponent/mantissa pair of the packed form of `v`.
pub open spec fn pack_split(v: nat, limit: nat) -> (nat, nat) {
    pack_split_from(v, limit, 0)
}

/// The packed (rounded) value of `v`: the value its packed form stands for.
pub open spec fn pack_value(v: nat, limit: nat) -> nat {
    pack_split(v, limit).1 * pow10(pack_split(v, limit).0)
}

pub proof fn lemma_pow10_pos(e: nat)
    ensures
        pow10(e) >= 1,
    decreases e,
{
    if e > 0 {
        lemma_pow10_pos((e - 1) as nat);
    }
}

pub proof fn lemma_pow10_monotone(a: nat, b: nat)
    requires
        a <= b,
    ensures
        pow10(a) <= pow10(b),
    decreases b,
{
    if a < b {
        lemma_pow10_monotone(a, (b - 1) as nat);
        lemma_pow10_pos((b - 1) as nat);
    }
}

pub proof fn lemma_pow10_adds(a: nat, b: nat)
    ensures
        pow10(a + b) == pow10(a) * pow10(b),
    decreases a,
{
    if a == 0 {
        assert(pow10(0) == 1);
        assert(1 * pow10(b) == pow10(b)) by (nonlinear_arith);
    } else {
        lemma_pow10_adds((a - 1) as nat, b);
        assert(pow10((a + b - 1) as nat) == pow10((a - 1) as nat) * pow10(b));
        assert(pow10(a + b) == 10 * pow10((a + b - 1) as nat));
        assert(pow10(a) == 10 * pow10((a - 1) as nat));
        assert(10 * (pow10((a - 1) as nat) * pow10(b)) == (10 * pow10((a - 1) as nat)) * pow10(
            b,
        )) by (nonlinear_arith);
    }
}

/// Concrete value of `pow10` at the largest exponent the format allows.
pub proof fn lemma_pow10_31()
    ensures
        pow10(31) == 10000000000000000000000000000000,
{
    reveal_with_fuel(pow10, 32);
}

/// The pair chosen by the packing search is a valid representation:
/// exponent and mantissa within bounds.
pub proof fn lemma_pack_split_from_valid(v: nat, limit: nat, e: nat)
    requires
        limit >= 2,
    ensures
        pack_split_from(v, limit, e).0 < PACKED_EXPONENT_LIMIT,
        pack_split_from(v, limit, e).1 < limit,
    decreases PACKED_EXPONENT_LIMIT - e,
{
    if e < PACKED_EXPONENT_LIMIT && !(v / pow10(e) < limit) {
        lemma_pack_split_from_valid(v, limit, e + 1);
    }
}

/// The packed value never exceeds the input.
pub proof fn lemma_pack_split_from_le(v: nat, limit: nat, e: nat)
    requires
        limit >= 2,
        forall|e2: nat| e2 < e ==> v / pow10(e2) >= limit,
    ensures
        ({
            let (pe, pm) = pack_split_from(v, limit, e);
            pm * pow10(pe) <= v
        }),
    decreases PACKED_EXPONENT_LIMIT - e,
{
    let (pe, pm) = pack_split_from(v, limit, e);
    if e >= PACKED_EXPONENT_LIMIT {
        // Every exponent overflowed the mantissa, so `v` is at least
        // `limit * pow10(max)`, above the capped result.
        let top = (PACKED_EXPONENT_LIMIT - 1) as nat;
        assert(v / pow10(top) >= limit);
        let p = pow10(top);
        lemma_pow10_pos(top);
        assert(v == (v / p) * p + v % p) by (nonlinear_arith)
            requires
                p >= 1,
        ;
        assert((v / p) * p >= limit * p) by (nonlinear_arith)
            requires
                p >= 1,
                v / p >= limit,
        ;
        assert((limit - 1) * p < limit * p) by (nonlinear_arith)
            requires
                p >= 1,
        ;
    } else if v / pow10(e) < limit {
        let p = pow10(e);
        lemma_pow10_pos(e);
        assert(v == (v / p) * p + v % p) by (nonlinear_arith)
            requires
                p >= 1,
        ;
    } else {
        lemma_pack_split_from_le(v, limit, e + 1);
    }
}

/// A value already of the packed form is returned unchanged by the search.
proof fn lemma_pack_split_from_exact(v: nat, limit: nat, e: nat, e0: nat, m0: nat)
    requires
        limit >= 2,
        e <= e0,
        e0 < PACKED_EXPONENT_LIMIT,
        m0 < limit,
        v == m0 * pow10(e0),
    ensures
        ({
            let (pe, pm) = pack_split_from(v, limit, e);
            pm * pow10(pe) == v
        }),
    decreases e0 - e,
{
    lemma_pow10_pos(e);
    let p = pow10(e);
    lemma_pow10_adds((e0 - e) as nat, e);
    let q = m0 * pow10((e0 - e) as nat);
    assert(v == q * p) by (nonlinear_arith)
        requires
            v == m0 * (pow10((e0 - e) as nat) * p),
            q == m0 * pow10((e0 - e) as nat),
    ;
    lemma_fundamental_div_mod_converse(v as int, p as int, q as int, 0);
    assert(v / p == q);
    if v / p < limit {
        assert(pack_split_from(v, limit, e) == (e, v / p));
    } else {
        // The mantissa still overflows, so the true exponent lies higher.
        if e == e0 {
            lemma_pow10_pos((e0 - e) as nat);
            assert(pow10((e0 - e) as nat) == 1);
            assert(q == m0) by (nonlinear_arith)
                requires
                    q == m0 * 1,
            ;
        }
        lemma_pack_split_from_exact(v, limit, e + 1, e0, m0);
    }
}

/// Packing is exact on packable values.
pub proof fn lemma_pack_value_exact(v: nat, limit: nat)
    requires
        limit >= 2,
        packable(v, limit),
    ensures
        pack_value(v, limit) == v,
{
    let (e0, m0) = choose|e0: nat, m0: nat|
        e0 < PACKED_EXPONENT_LIMIT && m0 < limit && v == #[trigger] (m0 * pow10(e0));
    lemma_pack_split_from_exact(v, limit, 0, e0, m0);
}

/// The packed value is itself packable, so packing twice equals packing once.
pub proof fn lemma_pack_value_idempotent(v: nat, limit: nat)
    requires
        limit >= 2,
    ensures
        packable(pack_value(v, limit), limit),
        pack_value(pack_value(v, limit), limit) == pack_value(v, limit),
{
    lemma_pack_split_from_valid(v, limit, 0);
    let (pe, pm) = pack_split(v, limit);
    assert(packable(pm * pow10(pe), limit));
    lemma_pack_value_exact(pack_value(v, limit), limit);
}

/// The packed byte encoding of a fee: exponent and mantissa side by side in
/// one big-endian field, exponent in the high bits.
pub open spec fn packed_fee_bytes(fee: nat) -> Seq<u8> {
    let (e, m) = pack_split(fee, FEE_MANTISSA_LIMIT as nat);
    be_bytes(e * (FEE_MANTISSA_LIMIT as nat) + m, FEE_PACKED_BYTES as nat)
}

/// The packed byte encoding of an amount.
pub open spec fn packed_amount_bytes(amount: nat) -> Seq<u8> {
    let (e, m) = pack_split(amount, AMOUNT_MANTISSA_LIMIT as nat);
    be_bytes(e * (AMOUNT_MANTISSA_LIMIT as nat) + m, AMOUNT_PACKED_BYTES as nat)
}

/// The value a packed fee field stands for.
pub open spec fn unpacked_fee_value(s: Seq<u8>) -> nat {
    let bits = be_value(s);
    (bits % (FEE_MANTISSA_LIMIT as nat)) * pow10(bits / (FEE_MANTISSA_LIMIT as nat))
}

/// The value a packed amount field stands for.
pub open spec fn unpacked_amount_value(s: Seq<u8>) -> nat {
    let bits = be_value(s);
    (bits % (AMOUNT_MANTISSA_LIMIT as nat)) * pow10(bits / (AMOUNT_MANTISSA_LIMIT as nat))
}

/// 10 to the power `e`, executable.
pub fn pow10_u128(e: u32) -> (r: u128)
    requires
        e < PACKED_EXPONENT_LIMIT,
    ensures
        r as nat == pow10(e as nat),
        r >= 1,
{
    let mut r: u128 = 1;
    let mut i: u32 = 0;
    while i < e
        invariant
            i <= e,
            e < PACKED_EXPONENT_LIMIT,
            r as nat == pow10(i as nat),
        decreases e - i,
    {
        proof {
            lemma_pow10_monotone((i + 1) as nat, 31);
            lemma_pow10_31();
        }
        r = r * 10;
        i += 1;
    }
    proof {
        lemma_pow10_pos(e as nat);
    }
    r
}

/// One failed exponent moves the packing search up by one step.
proof fn lemma_pack_split_from_skip(v: nat, limit: nat, e: nat)
    requires
        e < PACKED_EXPONENT_LIMIT,
        v / pow10(e) >= limit,
    ensures
        pack_split_from(v, limit, e) == pack_split_from(v, limit, e + 1),
{
}

/// The exponent/mantissa pair of the packed form of `v`.
fn pack_split_exec(v: u128, limit: u128) -> (r: (u32, u128))
    requires
        2 <= limit,
    ensures
        r.0 as nat == pack_split(v as nat, limit as nat).0,
        r.1 as nat == pack_split(v as nat, limit as nat).1,
        r.0 < PACKED_EXPONENT_LIMIT,
        r.1 < limit,
{
    proof {
        lemma_pack_split_from_valid(v as nat, limit as nat, 0);
    }
    let mut e: u32 = 0;
    while e < PACKED_EXPONENT_LIMIT
        invariant
            e <= PACKED_EXPONENT_LIMIT,
            2 <= limit,
            pack_split(v as nat, limit as nat) == pack_split_from(v as nat, limit as nat, e as nat),
        decreases PACKED_EXPONENT_LIMIT - e,
    {
        let p = pow10_u128(e);
        let m = v / p;
        if m < limit {
            assert(pack_split_from(v as nat, limit as nat, e as nat) == (e as nat, m as nat));
            return (e, m);
        }
        proof {
            lemma_pack_split_from_skip(v as nat, limit as nat, e as nat);
        }
        e += 1;
    }
    assert(pack_split_from(v as nat, limit as nat, PACKED_EXPONENT_LIMIT as nat) == ((
    PACKED_EXPONENT_LIMIT - 1) as nat, (limit - 1) as nat));
    (PACKED_EXPONENT_LIMIT - 1, limit - 1)
}

/// The packed-and-unpacked form of `v`: the nearest representable value that
/// does not exceed `v`.
fn closest_packable_amount(v: u128, limit: u128) -> (r: u128)
    requires
        2 <= limit,
    ensures
        r as nat == pack_value(v as nat, limit as nat),
        r <= v,
{
    let (e, m) = pack_split_exec(v, limit);
    proof {
        lemma_pack_split_from_le(v as nat, limit as nat, 0);
    }
    let p = pow10_u128(e);
    assert(m as nat * p as nat <= v as nat);
    m * p
}

/// Rounds a fee down to its nearest packable value; idempotent.
pub fn closest_packable_fee_amount(fee: u128) -> (r: u128)
    ensures
        r as nat == pack_value(fee as nat, FEE_MANTISSA_LIMIT as nat),
        r <= fee,
        packable(r as nat, FEE_MANTISSA_LIMIT as nat),
{
    proof {
        lemma_pack_value_idempotent(fee as nat, FEE_MANTISSA_LIMIT as nat);
    }
    closest_packable_amount(fee, FEE_MANTISSA_LIMIT)
}

/// Rounds a token amount down to its nearest packable value; idempotent.
pub fn closest_packable_token_amount(amount: u128) -> (r: u128)
    ensures
        r as nat == pack_value(amount as nat, AMOUNT_MANTISSA_LIMIT as nat),
        r <= amount,
        packable(r as nat, AMOUNT_MANTISSA_LIMIT as nat),
{
    proof {
        lemma_pack_value_idempotent(amount as nat, AMOUNT_MANTISSA_LIMIT as nat);
    }
    closest_packable_amount(amount, AMOUNT_MANTISSA_LIMIT)
}

/// Whether a fee survives packing unchanged.
pub fn is_fee_amount_packable(fee: u128) -> (r: bool)
    ensures
        r == packable(fee as nat, FEE_MANTISSA_LIMIT as nat),
{
    proof {
        if packable(fee as nat, FEE_MANTISSA_LIMIT as nat) {
            lemma_pack_value_exact(fee as nat, FEE_MANTISSA_LIMIT as nat);
        }
        lemma_pack_value_idempotent(fee as nat, FEE_MANTISSA_LIMIT as nat);
    }
    closest_packable_fee_amount(fee) == fee
}

/// Whether a token amount survives packing unchanged.
pub fn is_token_amount_packable(amount: u128) -> (r: bool)
    ensures
        r == packable(amount as nat, AMOUNT_MANTISSA_LIMIT as nat),
{
    proof {
        if packable(amount as nat, AMOUNT_MANTISSA_LIMIT as nat) {
            lemma_pack_value_exact(amount as nat, AMOUNT_MANTISSA_LIMIT as nat);
        }
        lemma_pack_value_idempotent(amount as nat, AMOUNT_MANTISSA_LIMIT as nat);
    }
    closest_packable_token_amount(amount) == amount
}

/// Packs a fee into its fixed-width exponent/mantissa field.
pub fn pack_fee_amount(fee: u128) -> (r: Vec<u8>)
    ensures
        r@ == packed_fee_bytes(fee as nat),
        r@.len() == FEE_PACKED_BYTES,
{
    let (e, m) = pack_split_exec(fee, FEE_MANTISSA_LIMIT);
    proof {
        lemma_be_bytes_len(
            (e as nat) * (FEE_MANTISSA_LIMIT as nat) + m as nat,
            FEE_PACKED_BYTES as nat,
        );
    }
    nat_to_be_vec((e as u128) * FEE_MANTISSA_LIMIT + m, FEE_PACKED_BYTES)
}

/// Packs a token amount into its fixed-width exponent/mantissa field.
pub fn pack_token_amount(amount: u128) -> (r: Vec<u8>)
    ensures
        r@ == packed_amount_bytes(amount as nat),
        r@.len() == AMOUNT_PACKED_BYTES,
{
    let (e, m) = pack_split_exec(amount, AMOUNT_MANTISSA_LIMIT);
    proof {
        lemma_be_bytes_len(
            (e as nat) * (AMOUNT_MANTISSA_LIMIT as nat) + m as nat,
            AMOUNT_PACKED_BYTES as nat,
        );
    }
    nat_to_be_vec((e as u128) * AMOUNT_MANTISSA_LIMIT + m, AMOUNT_PACKED_BYTES)
}

/// Reads a packed fee field. A fee field of the right width always unpacks:
/// its largest representable value fits the amount type.
pub fn unpack_fee_amount(bytes: &[u8]) -> (r: Option<u128>)
    ensures
        bytes@.len() == FEE_PACKED_BYTES ==> unpacked_fee_value(bytes@) <= u128::MAX,
        bytes@.len() == FEE_PACKED_BYTES ==> r == Some((unpacked_fee_value(bytes@) as u128)),
        bytes@.len() != FEE_PACKED_BYTES ==> r is None,
{
    if bytes.len() != FEE_PACKED_BYTES {
        return None;
    }
    proof {
        lemma_be_value_bound(bytes@);
        lemma_pow256_small();
    }
    let bits = be_slice_to_u128(bytes);
    let e = (bits / FEE_MANTISSA_LIMIT) as u32;
    let m = bits % FEE_MANTISSA_LIMIT;
    assert(e < PACKED_EXPONENT_LIMIT);
    let p = pow10_u128(e);
    proof {
        lemma_pow10_monotone(e as nat, 31);
        lemma_pow10_31();
        assert((m as nat) * (p as nat) <= 2047 * 10000000000000000000000000000000)
            by (nonlinear_arith)
            requires
                m < 2048,
                p as nat <= 10000000000000000000000000000000,
        ;
    }
    Some(m * p)
}

/// Reads a packed amount field; `None` when the encoded value overflows the
/// amount type.
pub fn unpack_token_amount(bytes: &[u8]) -> (r: Option<u128>)
    ensures
        bytes@.len() == AMOUNT_PACKED_BYTES ==> ({
            &&& (r is Some <==> unpacked_amount_value(bytes@) <= u128::MAX)
            &&& (r is Some ==> r->Some_0 as nat == unpacked_amount_value(bytes@))
        }),
        bytes@.len() != AMOUNT_PACKED_BYTES ==> r is None,
{
    if bytes.len() != AMOUNT_PACKED_BYTES {
        return None;
    }
    proof {
        lemma_be_value_bound(bytes@);
        lemma_pow256_small();
    }
    let bits = be_slice_to_u128(bytes);
    let e = (bits / AMOUNT_MANTISSA_LIMIT) as u32;
    let m = bits % AMOUNT_MANTISSA_LIMIT;
    assert(e < PACKED_EXPONENT_LIMIT);
    let p = pow10_u128(e);
    if m <= u128::MAX / p {
        proof {
            assert((m as nat) * (p as nat) <= u128::MAX) by (nonlinear_arith)
                requires
                    p >= 1,
                    m as nat <= (u128::MAX as nat) / (p as nat),
            ;
        }
        Some(m * p)
    } else {
        proof {
            assert((m as nat) * (p as nat) > u128::MAX) by (nonlinear_arith)
                requires
                    p >= 1,
                    m as nat > (u128::MAX as nat) / (p as nat),
            ;
        }
        None
    }
}

/// Reading back a packed fee field yields exactly the packed value.
pub proof fn lemma_packed_fee_round_trip(fee: nat)
    ensures
        unpacked_fee_value(packed_fee_bytes(fee)) == pack_value(fee, FEE_MANTISSA_LIMIT as nat),
{
    let limit = FEE_MANTISSA_LIMIT as nat;
    lemma_pack_split_from_valid(fee, limit, 0);
    let (e, m) = pack_split(fee, limit);
    let bits = e * limit + m;
    assert(bits < 65536) by (nonlinear_arith)
        requires
            e < PACKED_EXPONENT_LIMIT,
            m < limit,
            limit == FEE_MANTISSA_LIMIT as nat,
            bits == e * limit + m,
    ;
    lemma_pow256_small();
    lemma_be_value_of_be_bytes(bits, FEE_PACKED_BYTES as nat);
    lemma_fundamental_div_mod_converse(bits as int, limit as int, e as int, m as int);
}

/// Reading back a packed amount field yields exactly the packed value.
pub proof fn lemma_packed_amount_round_trip(amount: nat)
    ensures
        unpacked_amount_value(packed_amount_bytes(amount)) == pack_value(
            amount,
            AMOUNT_MANTISSA_LIMIT as nat,
        ),
{
    let limit = AMOUNT_MANTISSA_LIMIT as nat;
    lemma_pack_split_from_valid(amount, limit, 0);
    let (e, m) = pack_split(amount, limit);
    let bits = e * limit + m;
    assert(bits < 1099511627776) by (nonlinear_arith)
        requires
            e < PACKED_EXPONENT_LIMIT,
            m < limit,
            limit == AMOUNT_MANTISSA_LIMIT as nat,
            bits == e * limit + m,
    ;
    lemma_pow256_small();
    lemma_be_value_of_be_bytes(bits, AMOUNT_PACKED_BYTES as nat);
    lemma_fundamental_div_mod_converse(bits as int, limit as int, e as int, m as int);
}

} // verus!
