//! What the circuits read of an execution step: the instruction's class and
//! operands as the interpreter recorded them, and the WebAssembly numeric
//! semantics that the recorded results follow.

use vstd::prelude::*;
use vstd::arithmetic::power2::pow2;

verus! {

/// The type of a WebAssembly value on the stack.
#[derive(Clone, Copy, Debug, PartialEq, Eq, Structural)]
pub enum VarType {
    I32,
    I64,
}

/// The arithmetic binary operators.
#[derive(Clone, Copy, Debug, PartialEq, Eq, Structural)]
pub enum BinOp {
    Add,
    Sub,
    Mul,
    UnsignedDiv,
    UnsignedRem,
    SignedDiv,
    SignedRem,
}

/// The shift and rotation operators.
#[derive(Clone, Copy, Debug, PartialEq, Eq, Structural)]
pub enum ShiftOp {
    Shl,
    UnsignedShr,
    SignedShr,
    Rotl,
    Rotr,
}

/// The signed division and remainder.
#[derive(Clone, Copy, Debug, PartialEq, Eq, Structural)]
pub enum BinSignedOp {
    DivS,
    RemS,
}

/// The bitwise operators.
#[derive(Clone, Copy, Debug, PartialEq, Eq, Structural)]
pub enum BitOp {
    And,
    Or,
    Xor,
    Not,
}

/// The comparison operators.
#[derive(Clone, Copy, Debug, PartialEq, Eq, Structural)]
pub enum RelOp {
    Eq,
    Ne,
    SignedGt,
    UnsignedGt,
    SignedGe,
    UnsignedGe,
    UnsignedLt,
    UnsignedLe,
}

/// The counting operators of one operand.
#[derive(Clone, Copy, Debug, PartialEq, Eq, Structural)]
pub enum UnaryOp {
    Ctz,
    Clz,
    Popcnt,
}

/// The host plugins that a step may call.
#[derive(Clone, Copy, Debug, PartialEq, Eq, Structural)]
pub enum HostPlugin {
    HostInput,
    Sha256,
}

/// The width and signedness of a memory load.
#[derive(Clone, Copy, Debug, PartialEq, Eq, Structural)]
pub enum MemoryReadSize {
    U8,
    S8,
    U16,
    S16,
    U32,
    S32,
    I64,
    F32,
    F64,
}

/// The width of a memory store.
#[derive(Clone, Copy, Debug, PartialEq, Eq, Structural)]
pub enum MemoryStoreSize {
    Byte8,
    Byte16,
    Byte32,
    Byte64,
}

/// The number of bytes that a load reads.
pub open spec fn read_byte_size(s: MemoryReadSize) -> nat {
    match s {
        MemoryReadSize::U8 | MemoryReadSize::S8 => 1,
        MemoryReadSize::U16 | MemoryReadSize::S16 => 2,
        MemoryReadSize::U32 | MemoryReadSize::S32 | MemoryReadSize::F32 => 4,
        MemoryReadSize::I64 | MemoryReadSize::F64 => 8,
    }
}

/// The load extends the sign of what it reads.
pub open spec fn read_is_sign(s: MemoryReadSize) -> bool {
    s == MemoryReadSize::S8 || s == MemoryReadSize::S16 || s == MemoryReadSize::S32
}

/// The number of bytes that a store writes.
pub open spec fn store_byte_size(s: MemoryStoreSize) -> nat {
    match s {
        MemoryStoreSize::Byte8 => 1,
        MemoryStoreSize::Byte16 => 2,
        MemoryStoreSize::Byte32 => 4,
        MemoryStoreSize::Byte64 => 8,
    }
}

impl MemoryReadSize {
    /// The number of bytes that the load reads.
    pub fn byte_size(&self) -> (r: u64)
        ensures
            r == read_byte_size(*self),
    {
        match self {
            MemoryReadSize::U8 | MemoryReadSize::S8 => 1,
            MemoryReadSize::U16 | MemoryReadSize::S16 => 2,
            MemoryReadSize::U32 | MemoryReadSize::S32 | MemoryReadSize::F32 => 4,
            MemoryReadSize::I64 | MemoryReadSize::F64 => 8,
        }
    }

    /// Whether the load extends the sign of what it reads.
    pub fn is_sign(&self) -> (r: bool)
        ensures
            r == read_is_sign(*self),
    {
        match self {
            MemoryReadSize::S8 | MemoryReadSize::S16 | MemoryReadSize::S32 => true,
            _ => false,
        }
    }
}

impl MemoryStoreSize {
    /// The number of bytes that the store writes.
    pub fn byte_size(&self) -> (r: u64)
        ensures
            r == store_byte_size(*self),
    {
        match self {
            MemoryStoreSize::Byte8 => 1,
            MemoryStoreSize::Byte16 => 2,
            MemoryStoreSize::Byte32 => 4,
            MemoryStoreSize::Byte64 => 8,
        }
    }
}

/// A recorded execution step, as far as the gadgets read it.
#[allow(inconsistent_fields)]
#[derive(Clone, Debug)]
pub enum StepInfo {
    I32BinOp { class: BinOp, left: i32, right: i32, value: i32 },
    I64BinOp { class: BinOp, left: i64, right: i64, value: i64 },
    I32BinShiftOp { class: ShiftOp, left: i32, right: i32, value: i32 },
    I64BinShiftOp { class: ShiftOp, left: i64, right: i64, value: i64 },
    I32BinSignedOp { class: BinSignedOp, left: i32, right: i32, value: i32 },
    I64BinSignedOp { class: BinSignedOp, left: i64, right: i64, value: i64 },
    Select { val1: u64, val2: u64, cond: u64, result: u64, vtype: VarType },
    Test { vtype: VarType, value: u64, result: i32 },
    I32Const { value: i32 },
    I32Comp { class: RelOp, left: i32, right: i32, value: bool },
    Br { dst_pc: u32, drop: u32, keep: Vec<VarType>, keep_values: Vec<u64> },
    BrIfEqz { condition: i32, dst_pc: u32, drop: u32, keep: Vec<VarType>, keep_values: Vec<u64> },
    BrIfNez { condition: i32, dst_pc: u32, drop: u32, keep: Vec<VarType>, keep_values: Vec<u64> },
    BrTable { index: i32, dst_pc: u32, drop: u32, keep: Vec<VarType>, keep_values: Vec<u64> },
    I32BinBitOp { class: BitOp, left: i32, right: i32, value: i32 },
    I64BinBitOp { class: BitOp, left: i64, right: i64, value: i64 },
    Load {
        origin_mmid: u16,
        vtype: VarType,
        load_size: MemoryReadSize,
        offset: u32,
        raw_address: u32,
        effective_address: u32,
        value: u64,
        block_value: u64,
        block_value2: u64,
    },
    Store {
        vtype: VarType,
        store_size: MemoryStoreSize,
        offset: u32,
        raw_address: u32,
        effective_address: u32,
        pre_block_value: u64,
        updated_block_value: u64,
        pre_block_value2: u64,
        updated_block_value2: u64,
        value: u64,
        mmid: u16,
    },
    MemorySize,
    MemoryGrow { grow_size: i32, result: i32 },
    Call { index: u32 },
    CallIndirect { table_index: u32, type_index: u32, offset: u32, func_index: u32 },
    GetGlobal { idx: u32, vtype: VarType, value: u64 },
    SetGlobal { idx: u32, vtype: VarType, value: u64 },
    GetLocal { vtype: VarType, depth: u32, value: u64 },
    Return { drop: u32, keep: Vec<VarType>, keep_values: Vec<u64> },
    I32WrapI64 { value: i64, result: i32 },
    I64ExtendI32 { value: i32, result: i64, sign: bool },
    UnaryOp { class: UnaryOp, vtype: VarType, operand: u64, result: u64 },
    CallHost { plugin: HostPlugin, host_function_idx: usize, args: Vec<u64>, ret_val: Option<u64> },
    ExternalHostCall { op: usize, value: Option<u64>, is_ret: bool },
}

/// The number that stands for a value type in the tables.
pub open spec fn vtype_code(t: VarType) -> int {
    match t {
        VarType::I32 => 1,
        VarType::I64 => 2,
    }
}

/// The number of bits of a value type.
pub open spec fn bits_of(t: VarType) -> nat {
    match t {
        VarType::I32 => 32,
        VarType::I64 => 64,
    }
}

/// 2 to the power of the number of bits: the modulus of wrapping arithmetic.
pub open spec fn wrap(n: nat) -> int {
    if n == 32 {
        0x1_0000_0000int
    } else {
        0x1_0000_0000_0000_0000int
    }
}

/// The signed value of the `n`-bit two's complement pattern `x`.
pub open spec fn to_signed(x: int, n: nat) -> int {
    if x >= wrap(n) / 2 {
        x - wrap(n)
    } else {
        x
    }
}

/// The absolute value.
pub open spec fn abs(x: int) -> int {
    if x < 0 {
        -x
    } else {
        x
    }
}

/// Division truncating toward zero.
pub open spec fn trunc_div(a: int, b: int) -> int {
    if (a < 0) == (b < 0) {
        abs(a) / abs(b)
    } else {
        -(abs(a) / abs(b))
    }
}

/// The remainder of division truncating toward zero: it takes the sign of
/// the dividend.
pub open spec fn trunc_rem(a: int, b: int) -> int {
    if a < 0 {
        -(abs(a) % abs(b))
    } else {
        abs(a) % abs(b)
    }
}

/// The `n`-bit pattern of an integer, wrapping.
pub open spec fn to_unsigned(x: int, n: nat) -> int {
    x % wrap(n)
}

/// The result of the arithmetic operator `op` on the `n`-bit patterns `x`
/// and `y`, as WebAssembly defines it.
pub open spec fn wasm_bin(op: BinOp, x: int, y: int, n: nat) -> int {
    match op {
        BinOp::Add => (x + y) % wrap(n),
        BinOp::Sub => (x - y) % wrap(n),
        BinOp::Mul => (x * y) % wrap(n),
        BinOp::UnsignedDiv => x / y,
        BinOp::UnsignedRem => x % y,
        BinOp::SignedDiv => to_unsigned(trunc_div(to_signed(x, n), to_signed(y, n)), n),
        BinOp::SignedRem => to_unsigned(trunc_rem(to_signed(x, n), to_signed(y, n)), n),
    }
}

/// The operator traps on these operands: a division by zero, or the
/// signed division whose quotient does not fit.
pub open spec fn wasm_bin_traps(op: BinOp, x: int, y: int, n: nat) -> bool {
    match op {
        BinOp::UnsignedDiv | BinOp::UnsignedRem | BinOp::SignedRem => y == 0,
        BinOp::SignedDiv => y == 0 || (x == wrap(n) / 2 && y == wrap(n) - 1),
        _ => false,
    }
}

/// The result of the shift or rotation `op` of the `n`-bit pattern `x` by
/// `k` bits, `k` below `n`, as WebAssembly defines it.
pub open spec fn wasm_shift(op: ShiftOp, x: int, k: nat, n: nat) -> int {
    let p = pow2(k) as int;
    match op {
        ShiftOp::Shl => (x * p) % wrap(n),
        ShiftOp::UnsignedShr => x / p,
        ShiftOp::SignedShr => to_unsigned(to_signed(x, n) / p, n),
        ShiftOp::Rotl => (x * p) % wrap(n) + x / pow2((n - k) as nat) as int,
        ShiftOp::Rotr => x / p + (x % p) * pow2((n - k) as nat) as int,
    }
}

} // verus!
