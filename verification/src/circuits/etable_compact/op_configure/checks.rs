//! Executable checks of the pieces that the memory gadgets' gates share:
//! a mask bit, the masked bytes of a block, the mask of a byte range, and
//! a power table lookup.

use vstd::prelude::*;
use vstd::arithmetic::power::pow;
use vstd::arithmetic::power2::{lemma2_to64, lemma_pow2_adds, lemma_pow2_pos, lemma_pow2_strictly_increases, pow2};
use crate::circuits::etable_compact::op_configure::{byte, byte_at, pow_table_entry};
use crate::circuits::etable_compact::op_configure::op_bin_shift::{check_pow_table, in_pow_table, pow_table_encode};
use crate::circuits::etable_compact::op_configure::op_load::{bit_of, lemma_mask_weight, masked_bytes, mask_weight, offset_len_bits};
use crate::circuits::etable_compact::op_configure::op_store::unmasked_bytes;
use crate::circuits::utils::{b2i, fzero, lemma_fzero_small, modulus};

verus! {

/// Bit `k` of `x`.
pub fn bit_at(x: u64, k: u64) -> (b: bool)
    requires
        k < 64,
    ensures
        b == bit_of(x as int, k as nat),
{
    proof {
        vstd::bits::lemma_u64_shr_is_div(x, k);
    }
    (x >> k) % 2 == 1
}

/// The bytes of `v`, each at its place, whose mask bit from `shift` on is
/// set.
pub fn masked_bytes_of(v: u64, mask: u64, shift: u64) -> (r: u128)
    requires
        shift <= 8,
    ensures
        r == masked_bytes(v, mask, shift as nat, 8),
        r < 0x1_0000_0000_0000_0000,
{
    let mut acc: u128 = 0;
    let mut pk: u128 = 1;
    let mut k: u64 = 0;
    proof {
        reveal_with_fuel(pow, 9);
    }
    while k < 8
        invariant
            k <= 8,
            shift <= 8,
            pk == pow(256, k as nat),
            acc == masked_bytes(v, mask, shift as nat, k as nat),
            0 <= acc < pk,
            pk <= 0x1_0000_0000_0000_0000,
            k < 8 ==> pk <= 0x100_0000_0000_0000,
        decreases 8 - k,
    {
        let b = byte_at(v, k);
        let set = bit_at(mask, shift + k);
        assert(b * pk <= 255 * pk) by (nonlinear_arith)
            requires
                b < 256,
                pk >= 0,
        ;
        let add: u128 = if set {
            (b as u128) * pk
        } else {
            0
        };
        proof {
            assert(add == byte(v, k as int) * pow(256, k as nat) * b2i(bit_of(mask as int, (shift + k) as nat)));
            reveal_with_fuel(pow, 9);
            vstd::arithmetic::power::lemma_pow_adds(256, k as nat, 1);
            vstd::arithmetic::power::lemma_pow1(256);
            if k + 1 < 8 {
                vstd::arithmetic::power::lemma_pow_increases(256, (k + 1) as nat, 7);
            }
        }
        acc = acc + add;
        pk = pk * 256;
        k = k + 1;
    }
    acc
}

/// The bytes of `v`, each at its place, whose mask bit from `shift` on is
/// clear.
pub fn unmasked_bytes_of(v: u64, mask: u64, shift: u64) -> (r: u128)
    requires
        shift <= 8,
    ensures
        r == unmasked_bytes(v, mask, shift as nat, 8),
        r < 0x1_0000_0000_0000_0000,
{
    let mut acc: u128 = 0;
    let mut pk: u128 = 1;
    let mut k: u64 = 0;
    proof {
        reveal_with_fuel(pow, 9);
    }
    while k < 8
        invariant
            k <= 8,
            shift <= 8,
            pk == pow(256, k as nat),
            acc == unmasked_bytes(v, mask, shift as nat, k as nat),
            0 <= acc < pk,
            pk <= 0x1_0000_0000_0000_0000,
            k < 8 ==> pk <= 0x100_0000_0000_0000,
        decreases 8 - k,
    {
        let b = byte_at(v, k);
        let set = bit_at(mask, shift + k);
        assert(b * pk <= 255 * pk) by (nonlinear_arith)
            requires
                b < 256,
                pk >= 0,
        ;
        let add: u128 = if set {
            0
        } else {
            (b as u128) * pk
        };
        proof {
            let bp = byte(v, k as int) * pow(256, k as nat);
            vstd::arithmetic::mul::lemma_mul_basics(bp);
            if set {
                assert(1 - b2i(bit_of(mask as int, (shift + k) as nat)) == 0);
            } else {
                assert(1 - b2i(bit_of(mask as int, (shift + k) as nat)) == 1);
            }
            assert(add == bp * (1 - b2i(bit_of(mask as int, (shift + k) as nat))));
            reveal_with_fuel(pow, 9);
            vstd::arithmetic::power::lemma_pow_adds(256, k as nat, 1);
            vstd::arithmetic::power::lemma_pow1(256);
            if k + 1 < 8 {
                vstd::arithmetic::power::lemma_pow_increases(256, (k + 1) as nat, 7);
            }
        }
        acc = acc + add;
        pk = pk * 256;
        k = k + 1;
    }
    acc
}

/// Whether the sixteen mask bits `mask` spell the mask of `len` bytes from
/// byte `inner`.
pub fn mask_matches(mask: u64, inner: u16, len: u64) -> (b: bool)
    requires
        mask < 0x10000,
        1 <= len <= 16,
    ensures
        b == (mask_weight(mask) == offset_len_bits(inner as nat, len as nat)),
{
    proof {
        lemma_mask_weight(mask);
        lemma2_to64();
        lemma_pow2_pos(len as nat);
        lemma_pow2_pos(inner as nat);
    }
    if inner >= 16 {
        proof {
            if inner > 16 {
                lemma_pow2_strictly_increases(16, inner as nat);
            }
            lemma_pow2_strictly_increases(0, len as nat);
            let a = pow2(len as nat) - 1;
            let q = pow2(inner as nat) as int;
            assert(a * q >= q) by (nonlinear_arith)
                requires
                    a >= 1,
                    q >= 0,
            ;
        }
        false
    } else {
        proof {
            vstd::bits::lemma_u64_pow2_no_overflow(len as nat);
            vstd::bits::lemma_u64_pow2_no_overflow(inner as nat);
            vstd::bits::lemma_u64_shl_is_mul(1, len);
            vstd::bits::lemma_u64_shl_is_mul(1, inner as u64);
            if len < 16 {
                lemma_pow2_strictly_increases(len as nat, 16);
            }
            if inner < 15 {
                lemma_pow2_strictly_increases(inner as nat, 15);
            }
        }
        let p: u64 = 1u64 << len;
        let q: u64 = 1u64 << (inner as u64);
        assert((p - 1) * q <= 0x10000 * 0x8000) by (nonlinear_arith)
            requires
                1 <= p <= 0x10000,
                1 <= q <= 0x8000,
        ;
        let bits: u64 = (p - 1) * q;
        mask == bits
    }
}

/// The power table entry of a power of 128 or more is not in the table.
proof fn lemma_pow_table_entry_outside(k: nat)
    requires
        k >= 128,
    ensures
        !in_pow_table(pow_table_entry(k)),
{
    if in_pow_table(pow_table_entry(k)) {
        let j = choose|j: nat| j < 128 && pow_table_entry(k) == #[trigger] pow_table_entry(j);
        lemma_pow2_strictly_increases(j + 16, k + 16);
        lemma_pow2_pos(j + 16);
        assert(pow2(j + 16) + 1 <= pow2(k + 16));
    }
}

/// The power table entries below 128 are below two to the 144th, and those
/// from 112 on reach two to the 128th.
proof fn lemma_pow_table_entry_bounds(k: nat)
    requires
        k < 128,
    ensures
        pow_table_entry(k) < pow2(144),
        k >= 112 ==> pow_table_entry(k) >= pow2(128),
        pow2(144) == 0x1_0000_0000_0000_0000 * 0x1_0000_0000_0000_0000 * 0x1_0000,
        pow2(128) == 0x1_0000_0000_0000_0000 * 0x1_0000_0000_0000_0000,
{
    lemma2_to64();
    lemma_pow2_adds(64, 64);
    lemma_pow2_adds(128, 16);
    lemma_pow2_strictly_increases(k + 16, 144);
    if k + 16 < 143 {
        lemma_pow2_strictly_increases(k + 16, 143);
    }
    lemma_pow2_adds(128, 15);
    if k >= 112 && k + 16 > 128 {
        lemma_pow2_strictly_increases(128, k + 16);
    }
}

/// Whether the power table entry of `power` is in the table and equals
/// the encoding of `modulus` and `exp`.
pub fn pow_lookup_ok(power: u64, modulus_value: u64, exp: u64) -> (b: bool)
    requires
        exp < 0x1_0000_0000,
    ensures
        b == (fzero(pow_table_entry(power as nat) - pow_table_encode(modulus_value as int, exp as int)) && in_pow_table(
            pow_table_entry(power as nat),
        )),
{
    proof {
        lemma2_to64();
        assert(modulus() > 0x1_0000_0000_0000_0000 * 0x1_0000_0000_0000_0000 * 0x1_0000 * 2);
    }
    if power >= 128 {
        proof {
            lemma_pow_table_entry_outside(power as nat);
        }
        false
    } else if power >= 112 {
        proof {
            lemma_pow_table_entry_bounds(power as nat);
            lemma_fzero_small(pow_table_entry(power as nat) - pow_table_encode(modulus_value as int, exp as int));
        }
        false
    } else {
        proof {
            lemma_pow_table_entry_bounds(power as nat);
            lemma_pow2_strictly_increases((power + 16) as nat, 128);
            lemma_fzero_small(pow_table_entry(power as nat) - pow_table_encode(modulus_value as int, exp as int));
        }
        let s: u64 = power + 16;
        let p: u128 = if s < 64 {
            proof {
                vstd::bits::lemma_u64_pow2_no_overflow(s as nat);
                vstd::bits::lemma_u64_shl_is_mul(1, s);
            }
            (1u64 << s) as u128
        } else {
            proof {
                vstd::bits::lemma_u64_pow2_no_overflow((s - 64) as nat);
                vstd::bits::lemma_u64_shl_is_mul(1, (s - 64) as u64);
                lemma_pow2_adds(64, (s - 64) as nat);
                assert(pow2((s - 64) as nat) * 0x1_0000_0000_0000_0000 < 0x1_0000_0000_0000_0000 * 0x1_0000_0000_0000_0000) by (nonlinear_arith)
                    requires
                        pow2((s - 64) as nat) < 0x1_0000_0000_0000_0000,
                ;
            }
            ((1u64 << ((s - 64) as u64)) as u128) * 0x1_0000_0000_0000_0000
        };
        let entry: u128 = p + power as u128;
        let encoded: u128 = (modulus_value as u128) * 0x10000 + exp as u128;
        let in_table = check_pow_table(entry);
        entry == encoded && in_table
    }
}

} // verus!
