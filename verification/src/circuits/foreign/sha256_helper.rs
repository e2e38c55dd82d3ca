//! The helper table of the SHA-256 host calls: blocks of eight lines, each
//! line with an operation byte, five 4-bit arguments and an operation bit;
//! a block's bits select one line, its first line's operation is fifteen
//! times the sum of the others' less itself, and every line's operation and
//! arguments, encoded, lie in the set of valid operations.

use vstd::prelude::*;
use crate::circuits::etable_compact::gates::{lemma_level_sum_bits, lemma_level_sum_one, level_sum};
use crate::circuits::utils::{all_digits, fzero, lemma_fzero_small, lemma_weighted_nonneg, small_bound, weighted};

verus! {

/// Arguments of an operation.
pub const OP_ARGS_NUM: usize = 5usize;
/// Lines of a block.
pub const BLOCK_LINES: usize = 8usize;

/// The operations of the helper.
#[derive(Clone, Copy, Debug, PartialEq, Eq, Structural)]
pub enum Sha256HelperOp {
    Ch,
    Ma,
    LSigma0,
    LSigma1,
    SSigma0,
    SSigms1,
}

/// The number of an operation, from one.
pub open spec fn op_number(op: Sha256HelperOp) -> int {
    match op {
        Sha256HelperOp::Ch => 1,
        Sha256HelperOp::Ma => 2,
        Sha256HelperOp::LSigma0 => 3,
        Sha256HelperOp::LSigma1 => 4,
        Sha256HelperOp::SSigma0 => 5,
        Sha256HelperOp::SSigms1 => 6,
    }
}

impl Sha256HelperOp {
    /// The number of the operation, from one.
    pub fn number(&self) -> (r: u64)
        ensures
            r == op_number(*self),
    {
        match self {
            Sha256HelperOp::Ch => 1,
            Sha256HelperOp::Ma => 2,
            Sha256HelperOp::LSigma0 => 3,
            Sha256HelperOp::LSigma1 => 4,
            Sha256HelperOp::SSigma0 => 5,
            Sha256HelperOp::SSigms1 => 6,
        }
    }
}

/// The encoding of an operation and its arguments: the operation above
/// bit twenty, the `i`-th argument in bits `4 i` up.
pub open spec fn encode_op(op: int, args: Seq<int>) -> int {
    op * 0x10_0000 + weighted(args, 16)
}

/// The value that the lookup in the valid operations reads: the operation
/// above bit twenty and the arguments below it, the first in the highest
/// nibble.
pub open spec fn lookup_encode(op: int, args: Seq<int>) -> int {
    op * 0x10_0000 + args[0] * 0x1_0000 + args[1] * 0x1000 + args[2] * 0x100 + args[3] * 0x10 + args[4]
}

/// The lookup reads the arguments in the order opposite to the encoding of
/// the operation: it is the encoding of the reversed arguments.
pub proof fn lemma_lookup_encode_reversed(op: int, args: Seq<int>)
    requires
        args.len() == OP_ARGS_NUM,
    ensures
        lookup_encode(op, args) == encode_op(op, args.reverse()),
{
    let r = args.reverse();
    assert(r[0] == args[4] && r[1] == args[3] && r[2] == args[2] && r[3] == args[1] && r[4] == args[0]);
    let r1 = r.drop_first();
    let r2 = r1.drop_first();
    let r3 = r2.drop_first();
    let r4 = r3.drop_first();
    let r5 = r4.drop_first();
    assert(r5.len() == 0);
    assert(weighted(r5, 16) == 0);
    assert(weighted(r4, 16) == r[4]);
    assert(weighted(r3, 16) == r[3] + 16 * r[4]);
    assert(weighted(r2, 16) == r[2] + 16 * (r[3] + 16 * r[4]));
    assert(weighted(r1, 16) == r[1] + 16 * (r[2] + 16 * (r[3] + 16 * r[4])));
    assert(weighted(r, 16) == r[0] + 16 * (r[1] + 16 * (r[2] + 16 * (r[3] + 16 * r[4]))));
}

/// The value that the helper reads as a 32-bit argument from the nibbles
/// `a` of an argument column, from line `start` to the block's end: the
/// first nibble as it is, and the `j`-th after it shifted by `4 j + 1`
/// bits, the shift starting at one and growing by four before each use.
pub open spec fn arg_to_u32(a: Seq<int>, start: int) -> int
    decreases BLOCK_LINES - start,
{
    if start >= BLOCK_LINES as int || start < 0 {
        0
    } else {
        a[start] + 2 * 16 * arg_tail(a, start + 1)
    }
}

/// The nibbles of `a` from line `from` to the block's end, the first in the
/// lowest place.
pub open spec fn arg_tail(a: Seq<int>, from: int) -> int
    decreases BLOCK_LINES - from,
{
    if from >= BLOCK_LINES as int || from < 0 {
        0
    } else {
        a[from] + 16 * arg_tail(a, from + 1)
    }
}

/// The helper's reading of a 32-bit argument is not the nibbles' value:
/// every nibble after the first counts twice, so that, of arguments that
/// differ only in their second nibble, by one, the readings differ by
/// thirty-two.
pub proof fn lemma_arg_to_u32_doubles(a: Seq<int>, b: Seq<int>)
    requires
        a.len() == BLOCK_LINES,
        b == a.update(1, a[1] + 1),
    ensures
        arg_to_u32(b, 0) == arg_to_u32(a, 0) + 32,
{
    assert(arg_tail(b, 2) == arg_tail(a, 2)) by {
        assert forall|i: int| 2 <= i < 8 implies b[i] == a[i] by {}
        reveal_with_fuel(arg_tail, 7);
    }
    assert(b[0] == a[0]);
    assert(b[1] == a[1] + 1);
    assert(arg_tail(b, 1) == b[1] + 16 * arg_tail(b, 2));
    assert(arg_tail(a, 1) == a[1] + 16 * arg_tail(a, 2));
    assert(arg_to_u32(b, 0) == b[0] + 2 * 16 * arg_tail(b, 1));
    assert(arg_to_u32(a, 0) == a[0] + 2 * 16 * arg_tail(a, 1));
}

/// The gates of a block with operation bits `bits` and operations `ops`,
/// one per line: every bit is a bit, they sum to one, and the first line's
/// operation times fifteen is the sum of the other lines'.
pub open spec fn sha2_block_gates(bits: Seq<int>, ops: Seq<int>) -> bool {
    &&& bits.len() == BLOCK_LINES
    &&& ops.len() == BLOCK_LINES
    &&& forall|i: int| 0 <= i < BLOCK_LINES ==> fzero(#[trigger] bits[i] * (1 - bits[i]))
    &&& fzero(1 - level_sum(bits, 0, BLOCK_LINES as int))
    &&& fzero(ops[0] * 15 - (level_sum(ops, 1, BLOCK_LINES as int)))
}

/// In a block whose gates hold and whose bits are below two to the hundred
/// and twelfth, exactly one line's bit is set.
pub proof fn lemma_sha2_block_one_line(bits: Seq<int>, ops: Seq<int>) -> (line: int)
    requires
        sha2_block_gates(bits, ops),
        forall|i: int| 0 <= i < BLOCK_LINES ==> 0 <= #[trigger] bits[i] < small_bound(),
    ensures
        0 <= line < BLOCK_LINES,
        bits[line] == 1,
        forall|i: int| 0 <= i < BLOCK_LINES && i != line ==> #[trigger] bits[i] == 0,
{
    assert forall|i: int| 0 <= i < BLOCK_LINES implies #[trigger] bits[i] == 0 || bits[i] == 1 by {
        crate::circuits::utils::lemma_fzero_mul(bits[i], 1 - bits[i]);
    }
    lemma_level_sum_bits(bits, 0, 8);
    lemma_fzero_small(1 - level_sum(bits, 0, 8));
    lemma_level_sum_one(bits, 0, 8)
}

/// An operation and four-bit arguments are told apart by their encoding.
pub proof fn lemma_encode_op_injective(op1: int, args1: Seq<int>, op2: int, args2: Seq<int>)
    requires
        args1.len() == OP_ARGS_NUM,
        args2.len() == OP_ARGS_NUM,
        all_digits(args1, 16),
        all_digits(args2, 16),
        encode_op(op1, args1) == encode_op(op2, args2),
    ensures
        op1 == op2,
        args1 == args2,
{
    lemma_weighted_below(args1);
    lemma_weighted_below(args2);
    lemma_weighted_nonneg(args1, 16);
    lemma_weighted_nonneg(args2, 16);
    let w1 = weighted(args1, 16);
    let w2 = weighted(args2, 16);
    vstd::arithmetic::div_mod::lemma_fundamental_div_mod_converse(op1 * 0x10_0000 + w1, 0x10_0000, op1, w1);
    vstd::arithmetic::div_mod::lemma_fundamental_div_mod_converse(op2 * 0x10_0000 + w2, 0x10_0000, op2, w2);
    crate::circuits::utils::lemma_digits_unique(args1, w1, 16);
    crate::circuits::utils::lemma_digits_unique(args2, w2, 16);
}

/// Four-bit digits spell out a number below sixteen to the power of their
/// count.
proof fn lemma_weighted_below(ds: Seq<int>)
    requires
        ds.len() <= OP_ARGS_NUM,
        all_digits(ds, 16),
    ensures
        weighted(ds, 16) < vstd::arithmetic::power::pow(16, ds.len()),
        ds.len() == OP_ARGS_NUM ==> weighted(ds, 16) < 0x10_0000,
    decreases ds.len(),
{
    reveal(vstd::arithmetic::power::pow);
    if ds.len() > 0 {
        let rest = ds.drop_first();
        assert(all_digits(rest, 16)) by {
            assert forall|i: int| 0 <= i < rest.len() implies 0 <= #[trigger] rest[i] < 16 by {
                assert(rest[i] == ds[i + 1]);
            }
        }
        lemma_weighted_below(rest);
        let p = vstd::arithmetic::power::pow(16, rest.len());
        assert(ds[0] + 16 * weighted(rest, 16) < 16 * p) by (nonlinear_arith)
            requires
                0 <= ds[0] < 16,
                weighted(rest, 16) < p,
                weighted(rest, 16) + 1 <= p,
        ;
    }
    if ds.len() == OP_ARGS_NUM {
        assert(vstd::arithmetic::power::pow(16, 5) == 0x10_0000) by {
            reveal_with_fuel(vstd::arithmetic::power::pow, 6);
        }
    }
}

/// The helper's columns: the selectors, the operation, the arguments, the
/// auxiliary and the operation bit columns, and the table of valid
/// operations.
#[derive(Clone, Debug)]
pub struct Sha2HelperConfig {
    pub sel: usize,
    pub block_first_line_sel: usize,
    pub op: usize,
    pub args: Vec<usize>,
    pub aux: usize,
    pub op_bit: usize,
    pub op_valid_set: usize,
}

impl Sha2HelperConfig {
    /// Takes the helper's columns in order from column `first`.
    pub fn configure(first: usize) -> (r: Sha2HelperConfig)
        requires
            first + 11 <= usize::MAX,
        ensures
            r.sel == first,
            r.block_first_line_sel == first + 1,
            r.op == first + 2,
            r.op_bit == first + 3,
            r.args@ == seq![(first + 4) as usize, (first + 5) as usize, (first + 6) as usize, (first + 7) as usize, (first + 8) as usize],
            r.aux == first + 9,
            r.op_valid_set == first + 10,
    {
        let r = Sha2HelperConfig {
            sel: first,
            block_first_line_sel: first + 1,
            op: first + 2,
            op_bit: first + 3,
            args: vec![first + 4, first + 5, first + 6, first + 7, first + 8],
            aux: first + 9,
            op_valid_set: first + 10,
        };
        proof {
            assert(r.args@ =~= seq![(first + 4) as usize, (first + 5) as usize, (first + 6) as usize, (first + 7) as usize, (first + 8) as usize]);
        }
        r
    }
}

} // verus!
