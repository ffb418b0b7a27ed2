//! The instruction set: opcodes, their names and operand plans, and the
//! decoded instruction words.
use vstd::prelude::*;

verus! {

/// How one operand word of an instruction is written in source.
#[derive(Clone, Copy, PartialEq, Eq, Debug)]
pub enum OperandPlan {
    /// One token: a register, a number or a label.
    Value,
    /// Up to `n` register tokens packed one byte each into a word.
    PackedRegisters(u8),
}

impl OperandPlan {
    pub open spec fn spec_min_tokens(self) -> nat {
        1
    }

    pub open spec fn spec_max_tokens(self) -> nat {
        match self {
            OperandPlan::Value => 1,
            OperandPlan::PackedRegisters(count) => count as nat,
        }
    }

    pub fn min_tokens(self) -> (r: usize)
        ensures
            r == self.spec_min_tokens(),
    {
        match self {
            OperandPlan::Value => 1,
            OperandPlan::PackedRegisters(_) => 1,
        }
    }

    pub fn max_tokens(self) -> (r: usize)
        ensures
            r == self.spec_max_tokens(),
    {
        match self {
            OperandPlan::Value => 1,
            OperandPlan::PackedRegisters(count) => count as usize,
        }
    }
}

/// The handler of an instruction, one variant per opcode.
#[derive(Clone, Copy, PartialEq, Eq, Debug)]
pub enum Op {
    Ret,
    Call,
    Jump,
    EqJump,
    NeqJump,
    LtU64Jump,
    LteU64Jump,
    LtI64Jump,
    LteI64Jump,
    GtU64Jump,
    GteU64Jump,
    GtI64Jump,
    GteI64Jump,
    GetDecode,
    GetDecoded,
    Exit,
    PrintU64,
    Alloc,
    Realloc,
    Dealloc,
    Mov,
    LoadU64Immediate,
    Swap,
    AddU64,
    AddU64Immediate,
    AddI64,
    AddI64Immediate,
    SubU64,
    SubU64Immediate,
    SubI64,
    SubI64Immediate,
    MulU64,
    MulU64Immediate,
    MulI64,
    MulI64Immediate,
    DivU64,
    DivU64Immediate,
    DivI64,
    DivI64Immediate,
    Abs,
    ModI64,
    NegI64,
    U64ToF64,
    I64ToF64,
    AddF64,
    AddF64Immediate,
    SubF64,
    SubF64Immediate,
    MulF64,
    MulF64Immediate,
    DivF64,
    DivF64Immediate,
    AbsF64,
    NegF64,
    ToI64,
    AndU64,
    AndU64Immediate,
    OrU64,
    OrU64Immediate,
    XorU64,
    XorU64Immediate,
    NotU64,
    ShlU64,
    ShlU64Immediate,
    ShlI64,
    ShlI64Immediate,
    ShrU64,
    ShrU64Immediate,
    ShrI64,
    ShrI64Immediate,
    RolU64,
    RolU64Immediate,
    RorU64,
    RorU64Immediate,
    CountOnesU64,
    CountZerosU64,
    TrailingZerosU64,
    LoadU64,
    LoadU32,
    LoadU16,
    LoadU8,
    StoreU64,
    StoreU32,
    StoreU16,
    StoreU8,
    AtomicLoadU64,
    AtomicStoreU64,
    AtomicAddU64,
    AtomicSubU64,
    AtomicLoadU32,
    AtomicStoreU32,
    AtomicAddU32,
    AtomicSubU32,
    AtomicLoadU16,
    AtomicStoreU16,
    AtomicAddU16,
    AtomicSubU16,
    AtomicLoadU8,
    AtomicStoreU8,
    AtomicAddU8,
    AtomicSubU8,
    AtomicLoadI8,
    AtomicLoadI16,
    AtomicLoadI32,
    AtomicLoadI64,
    AtomicStoreI8,
    AtomicStoreI16,
    AtomicStoreI32,
    AtomicStoreI64,
    AtomicAddI8,
    AtomicAddI16,
    AtomicAddI32,
    AtomicAddI64,
    AtomicSubI8,
    AtomicSubI16,
    AtomicSubI32,
    AtomicSubI64,
    LoadI8,
    LoadI16,
    LoadI32,
    LoadI64,
    StoreI8,
    StoreI16,
    StoreI32,
    StoreI64,
    MemoryCopy,
    CallThread,
    SetIo,
    WaitIo,
    GetAnIo,
}

/// Number of opcodes.
pub const OP_COUNT: u64 = 130;

impl Op {
    /// The number that stands for the handler in an instruction word.
    pub open spec fn spec_index(self) -> u64 {
        match self {
            Op::Ret => 0,
            Op::Call => 1,
            Op::Jump => 2,
            Op::EqJump => 3,
            Op::NeqJump => 4,
            Op::LtU64Jump => 5,
            Op::LteU64Jump => 6,
            Op::LtI64Jump => 7,
            Op::LteI64Jump => 8,
            Op::GtU64Jump => 9,
            Op::GteU64Jump => 10,
            Op::GtI64Jump => 11,
            Op::GteI64Jump => 12,
            Op::GetDecode => 13,
            Op::GetDecoded => 14,
            Op::Exit => 15,
            Op::PrintU64 => 16,
            Op::Alloc => 17,
            Op::Realloc => 18,
            Op::Dealloc => 19,
            Op::Mov => 20,
            Op::LoadU64Immediate => 21,
            Op::Swap => 22,
            Op::AddU64 => 23,
            Op::AddU64Immediate => 24,
            Op::AddI64 => 25,
            Op::AddI64Immediate => 26,
            Op::SubU64 => 27,
            Op::SubU64Immediate => 28,
            Op::SubI64 => 29,
            Op::SubI64Immediate => 30,
            Op::MulU64 => 31,
            Op::MulU64Immediate => 32,
            Op::MulI64 => 33,
            Op::MulI64Immediate => 34,
            Op::DivU64 => 35,
            Op::DivU64Immediate => 36,
            Op::DivI64 => 37,
            Op::DivI64Immediate => 38,
            Op::Abs => 39,
            Op::ModI64 => 40,
            Op::NegI64 => 41,
            Op::U64ToF64 => 42,
            Op::I64ToF64 => 43,
            Op::AddF64 => 44,
            Op::AddF64Immediate => 45,
            Op::SubF64 => 46,
            Op::SubF64Immediate => 47,
            Op::MulF64 => 48,
            Op::MulF64Immediate => 49,
            Op::DivF64 => 50,
            Op::DivF64Immediate => 51,
            Op::AbsF64 => 52,
            Op::NegF64 => 53,
            Op::ToI64 => 54,
            Op::AndU64 => 55,
            Op::AndU64Immediate => 56,
            Op::OrU64 => 57,
            Op::OrU64Immediate => 58,
            Op::XorU64 => 59,
            Op::XorU64Immediate => 60,
            Op::NotU64 => 61,
            Op::ShlU64 => 62,
            Op::ShlU64Immediate => 63,
            Op::ShlI64 => 64,
            Op::ShlI64Immediate => 65,
            Op::ShrU64 => 66,
            Op::ShrU64Immediate => 67,
            Op::ShrI64 => 68,
            Op::ShrI64Immediate => 69,
            Op::RolU64 => 70,
            Op::RolU64Immediate => 71,
            Op::RorU64 => 72,
            Op::RorU64Immediate => 73,
            Op::CountOnesU64 => 74,
            Op::CountZerosU64 => 75,
            Op::TrailingZerosU64 => 76,
            Op::LoadU64 => 77,
            Op::LoadU32 => 78,
            Op::LoadU16 => 79,
            Op::LoadU8 => 80,
            Op::StoreU64 => 81,
            Op::StoreU32 => 82,
            Op::StoreU16 => 83,
            Op::StoreU8 => 84,
            Op::AtomicLoadU64 => 85,
            Op::AtomicStoreU64 => 86,
            Op::AtomicAddU64 => 87,
            Op::AtomicSubU64 => 88,
            Op::AtomicLoadU32 => 89,
            Op::AtomicStoreU32 => 90,
            Op::AtomicAddU32 => 91,
            Op::AtomicSubU32 => 92,
            Op::AtomicLoadU16 => 93,
            Op::AtomicStoreU16 => 94,
            Op::AtomicAddU16 => 95,
            Op::AtomicSubU16 => 96,
            Op::AtomicLoadU8 => 97,
            Op::AtomicStoreU8 => 98,
            Op::AtomicAddU8 => 99,
            Op::AtomicSubU8 => 100,
            Op::AtomicLoadI8 => 101,
            Op::AtomicLoadI16 => 102,
            Op::AtomicLoadI32 => 103,
            Op::AtomicLoadI64 => 104,
            Op::AtomicStoreI8 => 105,
            Op::AtomicStoreI16 => 106,
            Op::AtomicStoreI32 => 107,
            Op::AtomicStoreI64 => 108,
            Op::AtomicAddI8 => 109,
            Op::AtomicAddI16 => 110,
            Op::AtomicAddI32 => 111,
            Op::AtomicAddI64 => 112,
            Op::AtomicSubI8 => 113,
            Op::AtomicSubI16 => 114,
            Op::AtomicSubI32 => 115,
            Op::AtomicSubI64 => 116,
            Op::LoadI8 => 117,
            Op::LoadI16 => 118,
            Op::LoadI32 => 119,
            Op::LoadI64 => 120,
            Op::StoreI8 => 121,
            Op::StoreI16 => 122,
            Op::StoreI32 => 123,
            Op::StoreI64 => 124,
            Op::MemoryCopy => 125,
            Op::CallThread => 126,
            Op::SetIo => 127,
            Op::WaitIo => 128,
            Op::GetAnIo => 129,
        }
    }

    pub open spec fn spec_from_index(i: u64) -> Option<Op> {
        if i == 0 {
            Some(Op::Ret)
        } else if i == 1 {
            Some(Op::Call)
        } else if i == 2 {
            Some(Op::Jump)
        } else if i == 3 {
            Some(Op::EqJump)
        } else if i == 4 {
            Some(Op::NeqJump)
        } else if i == 5 {
            Some(Op::LtU64Jump)
        } else if i == 6 {
            Some(Op::LteU64Jump)
        } else if i == 7 {
            Some(Op::LtI64Jump)
        } else if i == 8 {
            Some(Op::LteI64Jump)
        } else if i == 9 {
            Some(Op::GtU64Jump)
        } else if i == 10 {
            Some(Op::GteU64Jump)
        } else if i == 11 {
            Some(Op::GtI64Jump)
        } else if i == 12 {
            Some(Op::GteI64Jump)
        } else if i == 13 {
            Some(Op::GetDecode)
        } else if i == 14 {
            Some(Op::GetDecoded)
        } else if i == 15 {
            Some(Op::Exit)
        } else if i == 16 {
            Some(Op::PrintU64)
        } else if i == 17 {
            Some(Op::Alloc)
        } else if i == 18 {
            Some(Op::Realloc)
        } else if i == 19 {
            Some(Op::Dealloc)
        } else if i == 20 {
            Some(Op::Mov)
        } else if i == 21 {
            Some(Op::LoadU64Immediate)
        } else if i == 22 {
            Some(Op::Swap)
        } else if i == 23 {
            Some(Op::AddU64)
        } else if i == 24 {
            Some(Op::AddU64Immediate)
        } else if i == 25 {
            Some(Op::AddI64)
        } else if i == 26 {
            Some(Op::AddI64Immediate)
        } else if i == 27 {
            Some(Op::SubU64)
        } else if i == 28 {
            Some(Op::SubU64Immediate)
        } else if i == 29 {
            Some(Op::SubI64)
        } else if i == 30 {
            Some(Op::SubI64Immediate)
        } else if i == 31 {
            Some(Op::MulU64)
        } else if i == 32 {
            Some(Op::MulU64Immediate)
        } else if i == 33 {
            Some(Op::MulI64)
        } else if i == 34 {
            Some(Op::MulI64Immediate)
        } else if i == 35 {
            Some(Op::DivU64)
        } else if i == 36 {
            Some(Op::DivU64Immediate)
        } else if i == 37 {
            Some(Op::DivI64)
        } else if i == 38 {
            Some(Op::DivI64Immediate)
        } else if i == 39 {
            Some(Op::Abs)
        } else if i == 40 {
            Some(Op::ModI64)
        } else if i == 41 {
            Some(Op::NegI64)
        } else if i == 42 {
            Some(Op::U64ToF64)
        } else if i == 43 {
            Some(Op::I64ToF64)
        } else if i == 44 {
            Some(Op::AddF64)
        } else if i == 45 {
            Some(Op::AddF64Immediate)
        } else if i == 46 {
            Some(Op::SubF64)
        } else if i == 47 {
            Some(Op::SubF64Immediate)
        } else if i == 48 {
            Some(Op::MulF64)
        } else if i == 49 {
            Some(Op::MulF64Immediate)
        } else if i == 50 {
            Some(Op::DivF64)
        } else if i == 51 {
            Some(Op::DivF64Immediate)
        } else if i == 52 {
            Some(Op::AbsF64)
        } else if i == 53 {
            Some(Op::NegF64)
        } else if i == 54 {
            Some(Op::ToI64)
        } else if i == 55 {
            Some(Op::AndU64)
        } else if i == 56 {
            Some(Op::AndU64Immediate)
        } else if i == 57 {
            Some(Op::OrU64)
        } else if i == 58 {
            Some(Op::OrU64Immediate)
        } else if i == 59 {
            Some(Op::XorU64)
        } else if i == 60 {
            Some(Op::XorU64Immediate)
        } else if i == 61 {
            Some(Op::NotU64)
        } else if i == 62 {
            Some(Op::ShlU64)
        } else if i == 63 {
            Some(Op::ShlU64Immediate)
        } else if i == 64 {
            Some(Op::ShlI64)
        } else if i == 65 {
            Some(Op::ShlI64Immediate)
        } else if i == 66 {
            Some(Op::ShrU64)
        } else if i == 67 {
            Some(Op::ShrU64Immediate)
        } else if i == 68 {
            Some(Op::ShrI64)
        } else if i == 69 {
            Some(Op::ShrI64Immediate)
        } else if i == 70 {
            Some(Op::RolU64)
        } else if i == 71 {
            Some(Op::RolU64Immediate)
        } else if i == 72 {
            Some(Op::RorU64)
        } else if i == 73 {
            Some(Op::RorU64Immediate)
        } else if i == 74 {
            Some(Op::CountOnesU64)
        } else if i == 75 {
            Some(Op::CountZerosU64)
        } else if i == 76 {
            Some(Op::TrailingZerosU64)
        } else if i == 77 {
            Some(Op::LoadU64)
        } else if i == 78 {
            Some(Op::LoadU32)
        } else if i == 79 {
            Some(Op::LoadU16)
        } else if i == 80 {
            Some(Op::LoadU8)
        } else if i == 81 {
            Some(Op::StoreU64)
        } else if i == 82 {
            Some(Op::StoreU32)
        } else if i == 83 {
            Some(Op::StoreU16)
        } else if i == 84 {
            Some(Op::StoreU8)
        } else if i == 85 {
            Some(Op::AtomicLoadU64)
        } else if i == 86 {
            Some(Op::AtomicStoreU64)
        } else if i == 87 {
            Some(Op::AtomicAddU64)
        } else if i == 88 {
            Some(Op::AtomicSubU64)
        } else if i == 89 {
            Some(Op::AtomicLoadU32)
        } else if i == 90 {
            Some(Op::AtomicStoreU32)
        } else if i == 91 {
            Some(Op::AtomicAddU32)
        } else if i == 92 {
            Some(Op::AtomicSubU32)
        } else if i == 93 {
            Some(Op::AtomicLoadU16)
        } else if i == 94 {
            Some(Op::AtomicStoreU16)
        } else if i == 95 {
            Some(Op::AtomicAddU16)
        } else if i == 96 {
            Some(Op::AtomicSubU16)
        } else if i == 97 {
            Some(Op::AtomicLoadU8)
        } else if i == 98 {
            Some(Op::AtomicStoreU8)
        } else if i == 99 {
            Some(Op::AtomicAddU8)
        } else if i == 100 {
            Some(Op::AtomicSubU8)
        } else if i == 101 {
            Some(Op::AtomicLoadI8)
        } else if i == 102 {
            Some(Op::AtomicLoadI16)
        } else if i == 103 {
            Some(Op::AtomicLoadI32)
        } else if i == 104 {
            Some(Op::AtomicLoadI64)
        } else if i == 105 {
            Some(Op::AtomicStoreI8)
        } else if i == 106 {
            Some(Op::AtomicStoreI16)
        } else if i == 107 {
            Some(Op::AtomicStoreI32)
        } else if i == 108 {
            Some(Op::AtomicStoreI64)
        } else if i == 109 {
            Some(Op::AtomicAddI8)
        } else if i == 110 {
            Some(Op::AtomicAddI16)
        } else if i == 111 {
            Some(Op::AtomicAddI32)
        } else if i == 112 {
            Some(Op::AtomicAddI64)
        } else if i == 113 {
            Some(Op::AtomicSubI8)
        } else if i == 114 {
            Some(Op::AtomicSubI16)
        } else if i == 115 {
            Some(Op::AtomicSubI32)
        } else if i == 116 {
            Some(Op::AtomicSubI64)
        } else if i == 117 {
            Some(Op::LoadI8)
        } else if i == 118 {
            Some(Op::LoadI16)
        } else if i == 119 {
            Some(Op::LoadI32)
        } else if i == 120 {
            Some(Op::LoadI64)
        } else if i == 121 {
            Some(Op::StoreI8)
        } else if i == 122 {
            Some(Op::StoreI16)
        } else if i == 123 {
            Some(Op::StoreI32)
        } else if i == 124 {
            Some(Op::StoreI64)
        } else if i == 125 {
            Some(Op::MemoryCopy)
        } else if i == 126 {
            Some(Op::CallThread)
        } else if i == 127 {
            Some(Op::SetIo)
        } else if i == 128 {
            Some(Op::WaitIo)
        } else if i == 129 {
            Some(Op::GetAnIo)
        } else {
            None
        }
    }

    /// The opcode's name in source.
    pub open spec fn spec_name(self) -> Seq<char> {
        match self {
            Op::Ret => "RET"@,
            Op::Call => "CALL"@,
            Op::Jump => "JUMP"@,
            Op::EqJump => "EQ_JUMP"@,
            Op::NeqJump => "NEQ_JUMP"@,
            Op::LtU64Jump => "LT_U64_JUMP"@,
            Op::LteU64Jump => "LTE_U64_JUMP"@,
            Op::LtI64Jump => "LT_I64_JUMP"@,
            Op::LteI64Jump => "LTE_I64_JUMP"@,
            Op::GtU64Jump => "GT_U64_JUMP"@,
            Op::GteU64Jump => "GTE_U64_JUMP"@,
            Op::GtI64Jump => "GT_I64_JUMP"@,
            Op::GteI64Jump => "GTE_I64_JUMP"@,
            Op::GetDecode => "GET_DECODE"@,
            Op::GetDecoded => "GET_DECODED"@,
            Op::Exit => "EXIT"@,
            Op::PrintU64 => "PRINT_U64"@,
            Op::Alloc => "ALLOC"@,
            Op::Realloc => "REALLOC"@,
            Op::Dealloc => "DEALLOC"@,
            Op::Mov => "MOV"@,
            Op::LoadU64Immediate => "LOAD_U64_IMMEDIATE"@,
            Op::Swap => "SWAP"@,
            Op::AddU64 => "ADD_U64"@,
            Op::AddU64Immediate => "ADD_U64_IMMEDIATE"@,
            Op::AddI64 => "ADD_I64"@,
            Op::AddI64Immediate => "ADD_I64_IMMEDIATE"@,
            Op::SubU64 => "SUB_U64"@,
            Op::SubU64Immediate => "SUB_U64_IMMEDIATE"@,
            Op::SubI64 => "SUB_I64"@,
            Op::SubI64Immediate => "SUB_I64_IMMEDIATE"@,
            Op::MulU64 => "MUL_U64"@,
            Op::MulU64Immediate => "MUL_U64_IMMEDIATE"@,
            Op::MulI64 => "MUL_I64"@,
            Op::MulI64Immediate => "MUL_I64_IMMEDIATE"@,
            Op::DivU64 => "DIV_U64"@,
            Op::DivU64Immediate => "DIV_U64_IMMEDIATE"@,
            Op::DivI64 => "DIV_I64"@,
            Op::DivI64Immediate => "DIV_I64_IMMEDIATE"@,
            Op::Abs => "ABS"@,
            Op::ModI64 => "MOD_I64"@,
            Op::NegI64 => "NEG_I64"@,
            Op::U64ToF64 => "U64_TO_F64"@,
            Op::I64ToF64 => "I64_TO_F64"@,
            Op::AddF64 => "ADD_F64"@,
            Op::AddF64Immediate => "ADD_F64_IMMEDIATE"@,
            Op::SubF64 => "SUB_F64"@,
            Op::SubF64Immediate => "SUB_F64_IMMEDIATE"@,
            Op::MulF64 => "MUL_F64"@,
            Op::MulF64Immediate => "MUL_F64_IMMEDIATE"@,
            Op::DivF64 => "DIV_F64"@,
            Op::DivF64Immediate => "DIV_F64_IMMEDIATE"@,
            Op::AbsF64 => "ABS_F64"@,
            Op::NegF64 => "NEG_F64"@,
            Op::ToI64 => "TO_I64"@,
            Op::AndU64 => "AND_U64"@,
            Op::AndU64Immediate => "AND_U64_IMMEDIATE"@,
            Op::OrU64 => "OR_U64"@,
            Op::OrU64Immediate => "OR_U64_IMMEDIATE"@,
            Op::XorU64 => "XOR_U64"@,
            Op::XorU64Immediate => "XOR_U64_IMMEDIATE"@,
            Op::NotU64 => "NOT_U64"@,
            Op::ShlU64 => "SHL_U64"@,
            Op::ShlU64Immediate => "SHL_U64_IMMEDIATE"@,
            Op::ShlI64 => "SHL_I64"@,
            Op::ShlI64Immediate => "SHL_I64_IMMEDIATE"@,
            Op::ShrU64 => "SHR_U64"@,
            Op::ShrU64Immediate => "SHR_U64_IMMEDIATE"@,
            Op::ShrI64 => "SHR_I64"@,
            Op::ShrI64Immediate => "SHR_I64_IMMEDIATE"@,
            Op::RolU64 => "ROL_U64"@,
            Op::RolU64Immediate => "ROL_U64_IMMEDIATE"@,
            Op::RorU64 => "ROR_U64"@,
            Op::RorU64Immediate => "ROR_U64_IMMEDIATE"@,
            Op::CountOnesU64 => "COUNT_ONES_U64"@,
            Op::CountZerosU64 => "COUNT_ZEROS_U64"@,
            Op::TrailingZerosU64 => "TRAILING_ZEROS_U64"@,
            Op::LoadU64 => "LOAD_U64"@,
            Op::LoadU32 => "LOAD_U32"@,
            Op::LoadU16 => "LOAD_U16"@,
            Op::LoadU8 => "LOAD_U8"@,
            Op::StoreU64 => "STORE_U64"@,
            Op::StoreU32 => "STORE_U32"@,
            Op::StoreU16 => "STORE_U16"@,
            Op::StoreU8 => "STORE_U8"@,
            Op::AtomicLoadU64 => "ATOMIC_LOAD_U64"@,
            Op::AtomicStoreU64 => "ATOMIC_STORE_U64"@,
            Op::AtomicAddU64 => "ATOMIC_ADD_U64"@,
            Op::AtomicSubU64 => "ATOMIC_SUB_U64"@,
            Op::AtomicLoadU32 => "ATOMIC_LOAD_U32"@,
            Op::AtomicStoreU32 => "ATOMIC_STORE_U32"@,
            Op::AtomicAddU32 => "ATOMIC_ADD_U32"@,
            Op::AtomicSubU32 => "ATOMIC_SUB_U32"@,
            Op::AtomicLoadU16 => "ATOMIC_LOAD_U16"@,
            Op::AtomicStoreU16 => "ATOMIC_STORE_U16"@,
            Op::AtomicAddU16 => "ATOMIC_ADD_U16"@,
            Op::AtomicSubU16 => "ATOMIC_SUB_U16"@,
            Op::AtomicLoadU8 => "ATOMIC_LOAD_U8"@,
            Op::AtomicStoreU8 => "ATOMIC_STORE_U8"@,
            Op::AtomicAddU8 => "ATOMIC_ADD_U8"@,
            Op::AtomicSubU8 => "ATOMIC_SUB_U8"@,
            Op::AtomicLoadI8 => "ATOMIC_LOAD_I8"@,
            Op::AtomicLoadI16 => "ATOMIC_LOAD_I16"@,
            Op::AtomicLoadI32 => "ATOMIC_LOAD_I32"@,
            Op::AtomicLoadI64 => "ATOMIC_LOAD_I64"@,
            Op::AtomicStoreI8 => "ATOMIC_STORE_I8"@,
            Op::AtomicStoreI16 => "ATOMIC_STORE_I16"@,
            Op::AtomicStoreI32 => "ATOMIC_STORE_I32"@,
            Op::AtomicStoreI64 => "ATOMIC_STORE_I64"@,
            Op::AtomicAddI8 => "ATOMIC_ADD_I8"@,
            Op::AtomicAddI16 => "ATOMIC_ADD_I16"@,
            Op::AtomicAddI32 => "ATOMIC_ADD_I32"@,
            Op::AtomicAddI64 => "ATOMIC_ADD_I64"@,
            Op::AtomicSubI8 => "ATOMIC_SUB_I8"@,
            Op::AtomicSubI16 => "ATOMIC_SUB_I16"@,
            Op::AtomicSubI32 => "ATOMIC_SUB_I32"@,
            Op::AtomicSubI64 => "ATOMIC_SUB_I64"@,
            Op::LoadI8 => "LOAD_I8"@,
            Op::LoadI16 => "LOAD_I16"@,
            Op::LoadI32 => "LOAD_I32"@,
            Op::LoadI64 => "LOAD_I64"@,
            Op::StoreI8 => "STORE_I8"@,
            Op::StoreI16 => "STORE_I16"@,
            Op::StoreI32 => "STORE_I32"@,
            Op::StoreI64 => "STORE_I64"@,
            Op::MemoryCopy => "MEMORY_COPY"@,
            Op::CallThread => "CALL_THREAD"@,
            Op::SetIo => "SET_IO"@,
            Op::WaitIo => "WAIT_IO"@,
            Op::GetAnIo => "GET_AN_IO"@,
        }
    }

    /// The operand plan of the opcode.
    pub open spec fn spec_plans(self) -> Seq<OperandPlan> {
        match self {
            Op::Ret => seq![],
            Op::Call => seq![OperandPlan::Value, OperandPlan::Value],
            Op::Jump => seq![OperandPlan::PackedRegisters(1), OperandPlan::Value],
            Op::EqJump => seq![OperandPlan::PackedRegisters(3), OperandPlan::Value],
            Op::NeqJump => seq![OperandPlan::PackedRegisters(3), OperandPlan::Value],
            Op::LtU64Jump => seq![OperandPlan::PackedRegisters(3), OperandPlan::Value],
            Op::LteU64Jump => seq![OperandPlan::PackedRegisters(3), OperandPlan::Value],
            Op::LtI64Jump => seq![OperandPlan::PackedRegisters(3), OperandPlan::Value],
            Op::LteI64Jump => seq![OperandPlan::PackedRegisters(3), OperandPlan::Value],
            Op::GtU64Jump => seq![OperandPlan::PackedRegisters(3), OperandPlan::Value],
            Op::GteU64Jump => seq![OperandPlan::PackedRegisters(3), OperandPlan::Value],
            Op::GtI64Jump => seq![OperandPlan::PackedRegisters(3), OperandPlan::Value],
            Op::GteI64Jump => seq![OperandPlan::PackedRegisters(3), OperandPlan::Value],
            Op::GetDecode => seq![OperandPlan::Value, OperandPlan::Value],
            Op::GetDecoded => seq![],
            Op::Exit => seq![OperandPlan::Value],
            Op::PrintU64 => seq![OperandPlan::PackedRegisters(1)],
            Op::Alloc => seq![OperandPlan::PackedRegisters(2), OperandPlan::Value],
            Op::Realloc => seq![OperandPlan::PackedRegisters(2)],
            Op::Dealloc => seq![OperandPlan::PackedRegisters(1)],
            Op::Mov => seq![OperandPlan::PackedRegisters(2)],
            Op::LoadU64Immediate => seq![OperandPlan::PackedRegisters(1), OperandPlan::Value],
            Op::Swap => seq![OperandPlan::PackedRegisters(2)],
            Op::AddU64 => seq![OperandPlan::PackedRegisters(2)],
            Op::AddU64Immediate => seq![OperandPlan::PackedRegisters(1), OperandPlan::Value],
            Op::AddI64 => seq![OperandPlan::PackedRegisters(2)],
            Op::AddI64Immediate => seq![OperandPlan::PackedRegisters(1), OperandPlan::Value],
            Op::SubU64 => seq![OperandPlan::PackedRegisters(2)],
            Op::SubU64Immediate => seq![OperandPlan::PackedRegisters(1), OperandPlan::Value],
            Op::SubI64 => seq![OperandPlan::PackedRegisters(2)],
            Op::SubI64Immediate => seq![OperandPlan::PackedRegisters(1), OperandPlan::Value],
            Op::MulU64 => seq![OperandPlan::PackedRegisters(2)],
            Op::MulU64Immediate => seq![OperandPlan::PackedRegisters(1), OperandPlan::Value],
            Op::MulI64 => seq![OperandPlan::PackedRegisters(2)],
            Op::MulI64Immediate => seq![OperandPlan::PackedRegisters(1), OperandPlan::Value],
            Op::DivU64 => seq![OperandPlan::PackedRegisters(2)],
            Op::DivU64Immediate => seq![OperandPlan::PackedRegisters(1), OperandPlan::Value],
            Op::DivI64 => seq![OperandPlan::PackedRegisters(2)],
            Op::DivI64Immediate => seq![OperandPlan::PackedRegisters(1), OperandPlan::Value],
            Op::Abs => seq![OperandPlan::PackedRegisters(2)],
            Op::ModI64 => seq![OperandPlan::PackedRegisters(2)],
            Op::NegI64 => seq![OperandPlan::PackedRegisters(2)],
            Op::U64ToF64 => seq![OperandPlan::PackedRegisters(2)],
            Op::I64ToF64 => seq![OperandPlan::PackedRegisters(2)],
            Op::AddF64 => seq![OperandPlan::PackedRegisters(2)],
            Op::AddF64Immediate => seq![OperandPlan::PackedRegisters(1), OperandPlan::Value],
            Op::SubF64 => seq![OperandPlan::PackedRegisters(2)],
            Op::SubF64Immediate => seq![OperandPlan::PackedRegisters(1), OperandPlan::Value],
            Op::MulF64 => seq![OperandPlan::PackedRegisters(2)],
            Op::MulF64Immediate => seq![OperandPlan::PackedRegisters(1), OperandPlan::Value],
            Op::DivF64 => seq![OperandPlan::PackedRegisters(2)],
            Op::DivF64Immediate => seq![OperandPlan::PackedRegisters(1), OperandPlan::Value],
            Op::AbsF64 => seq![OperandPlan::PackedRegisters(2)],
            Op::NegF64 => seq![OperandPlan::PackedRegisters(2)],
            Op::ToI64 => seq![OperandPlan::PackedRegisters(2)],
            Op::AndU64 => seq![OperandPlan::PackedRegisters(2)],
            Op::AndU64Immediate => seq![OperandPlan::PackedRegisters(1), OperandPlan::Value],
            Op::OrU64 => seq![OperandPlan::PackedRegisters(2)],
            Op::OrU64Immediate => seq![OperandPlan::PackedRegisters(1), OperandPlan::Value],
            Op::XorU64 => seq![OperandPlan::PackedRegisters(2)],
            Op::XorU64Immediate => seq![OperandPlan::PackedRegisters(1), OperandPlan::Value],
            Op::NotU64 => seq![OperandPlan::PackedRegisters(2)],
            Op::ShlU64 => seq![OperandPlan::PackedRegisters(2)],
            Op::ShlU64Immediate => seq![OperandPlan::PackedRegisters(1), OperandPlan::Value],
            Op::ShlI64 => seq![OperandPlan::PackedRegisters(2)],
            Op::ShlI64Immediate => seq![OperandPlan::PackedRegisters(1), OperandPlan::Value],
            Op::ShrU64 => seq![OperandPlan::PackedRegisters(2)],
            Op::ShrU64Immediate => seq![OperandPlan::PackedRegisters(1), OperandPlan::Value],
            Op::ShrI64 => seq![OperandPlan::PackedRegisters(2)],
            Op::ShrI64Immediate => seq![OperandPlan::PackedRegisters(1), OperandPlan::Value],
            Op::RolU64 => seq![OperandPlan::PackedRegisters(2)],
            Op::RolU64Immediate => seq![OperandPlan::PackedRegisters(1), OperandPlan::Value],
            Op::RorU64 => seq![OperandPlan::PackedRegisters(2)],
            Op::RorU64Immediate => seq![OperandPlan::PackedRegisters(1), OperandPlan::Value],
            Op::CountOnesU64 => seq![OperandPlan::PackedRegisters(2)],
            Op::CountZerosU64 => seq![OperandPlan::PackedRegisters(2)],
            Op::TrailingZerosU64 => seq![OperandPlan::PackedRegisters(2)],
            Op::LoadU64 => seq![OperandPlan::PackedRegisters(3), OperandPlan::Value],
            Op::LoadU32 => seq![OperandPlan::PackedRegisters(3), OperandPlan::Value],
            Op::LoadU16 => seq![OperandPlan::PackedRegisters(3), OperandPlan::Value],
            Op::LoadU8 => seq![OperandPlan::PackedRegisters(3), OperandPlan::Value],
            Op::StoreU64 => seq![OperandPlan::PackedRegisters(3), OperandPlan::Value],
            Op::StoreU32 => seq![OperandPlan::PackedRegisters(3), OperandPlan::Value],
            Op::StoreU16 => seq![OperandPlan::PackedRegisters(3), OperandPlan::Value],
            Op::StoreU8 => seq![OperandPlan::PackedRegisters(3), OperandPlan::Value],
            Op::AtomicLoadU64 => seq![OperandPlan::PackedRegisters(3), OperandPlan::Value],
            Op::AtomicStoreU64 => seq![OperandPlan::PackedRegisters(3), OperandPlan::Value],
            Op::AtomicAddU64 => seq![OperandPlan::PackedRegisters(4), OperandPlan::Value],
            Op::AtomicSubU64 => seq![OperandPlan::PackedRegisters(4), OperandPlan::Value],
            Op::AtomicLoadU32 => seq![OperandPlan::PackedRegisters(3), OperandPlan::Value],
            Op::AtomicStoreU32 => seq![OperandPlan::PackedRegisters(3), OperandPlan::Value],
            Op::AtomicAddU32 => seq![OperandPlan::PackedRegisters(4), OperandPlan::Value],
            Op::AtomicSubU32 => seq![OperandPlan::PackedRegisters(4), OperandPlan::Value],
            Op::AtomicLoadU16 => seq![OperandPlan::PackedRegisters(3), OperandPlan::Value],
            Op::AtomicStoreU16 => seq![OperandPlan::PackedRegisters(3), OperandPlan::Value],
            Op::AtomicAddU16 => seq![OperandPlan::PackedRegisters(4), OperandPlan::Value],
            Op::AtomicSubU16 => seq![OperandPlan::PackedRegisters(4), OperandPlan::Value],
            Op::AtomicLoadU8 => seq![OperandPlan::PackedRegisters(3), OperandPlan::Value],
            Op::AtomicStoreU8 => seq![OperandPlan::PackedRegisters(3), OperandPlan::Value],
            Op::AtomicAddU8 => seq![OperandPlan::PackedRegisters(4), OperandPlan::Value],
            Op::AtomicSubU8 => seq![OperandPlan::PackedRegisters(4), OperandPlan::Value],
            Op::AtomicLoadI8 => seq![OperandPlan::PackedRegisters(3), OperandPlan::Value],
            Op::AtomicLoadI16 => seq![OperandPlan::PackedRegisters(3), OperandPlan::Value],
            Op::AtomicLoadI32 => seq![OperandPlan::PackedRegisters(3), OperandPlan::Value],
            Op::AtomicLoadI64 => seq![OperandPlan::PackedRegisters(3), OperandPlan::Value],
            Op::AtomicStoreI8 => seq![OperandPlan::PackedRegisters(3), OperandPlan::Value],
            Op::AtomicStoreI16 => seq![OperandPlan::PackedRegisters(3), OperandPlan::Value],
            Op::AtomicStoreI32 => seq![OperandPlan::PackedRegisters(3), OperandPlan::Value],
            Op::AtomicStoreI64 => seq![OperandPlan::PackedRegisters(3), OperandPlan::Value],
            Op::AtomicAddI8 => seq![OperandPlan::PackedRegisters(4), OperandPlan::Value],
            Op::AtomicAddI16 => seq![OperandPlan::PackedRegisters(4), OperandPlan::Value],
            Op::AtomicAddI32 => seq![OperandPlan::PackedRegisters(4), OperandPlan::Value],
            Op::AtomicAddI64 => seq![OperandPlan::PackedRegisters(4), OperandPlan::Value],
            Op::AtomicSubI8 => seq![OperandPlan::PackedRegisters(4), OperandPlan::Value],
            Op::AtomicSubI16 => seq![OperandPlan::PackedRegisters(4), OperandPlan::Value],
            Op::AtomicSubI32 => seq![OperandPlan::PackedRegisters(4), OperandPlan::Value],
            Op::AtomicSubI64 => seq![OperandPlan::PackedRegisters(4), OperandPlan::Value],
            Op::LoadI8 => seq![OperandPlan::PackedRegisters(3), OperandPlan::Value],
            Op::LoadI16 => seq![OperandPlan::PackedRegisters(3), OperandPlan::Value],
            Op::LoadI32 => seq![OperandPlan::PackedRegisters(3), OperandPlan::Value],
            Op::LoadI64 => seq![OperandPlan::PackedRegisters(3), OperandPlan::Value],
            Op::StoreI8 => seq![OperandPlan::PackedRegisters(3), OperandPlan::Value],
            Op::StoreI16 => seq![OperandPlan::PackedRegisters(3), OperandPlan::Value],
            Op::StoreI32 => seq![OperandPlan::PackedRegisters(3), OperandPlan::Value],
            Op::StoreI64 => seq![OperandPlan::PackedRegisters(3), OperandPlan::Value],
            Op::MemoryCopy => seq![OperandPlan::PackedRegisters(3)],
            Op::CallThread => seq![OperandPlan::PackedRegisters(2), OperandPlan::Value],
            Op::SetIo => seq![OperandPlan::PackedRegisters(7)],
            Op::WaitIo => seq![OperandPlan::PackedRegisters(3)],
            Op::GetAnIo => seq![OperandPlan::PackedRegisters(4)],
        }
    }

    pub fn index(&self) -> (r: u64)
        ensures
            r == self.spec_index(),
    {
        match self {
            Op::Ret => 0,
            Op::Call => 1,
            Op::Jump => 2,
            Op::EqJump => 3,
            Op::NeqJump => 4,
            Op::LtU64Jump => 5,
            Op::LteU64Jump => 6,
            Op::LtI64Jump => 7,
            Op::LteI64Jump => 8,
            Op::GtU64Jump => 9,
            Op::GteU64Jump => 10,
            Op::GtI64Jump => 11,
            Op::GteI64Jump => 12,
            Op::GetDecode => 13,
            Op::GetDecoded => 14,
            Op::Exit => 15,
            Op::PrintU64 => 16,
            Op::Alloc => 17,
            Op::Realloc => 18,
            Op::Dealloc => 19,
            Op::Mov => 20,
            Op::LoadU64Immediate => 21,
            Op::Swap => 22,
            Op::AddU64 => 23,
            Op::AddU64Immediate => 24,
            Op::AddI64 => 25,
            Op::AddI64Immediate => 26,
            Op::SubU64 => 27,
            Op::SubU64Immediate => 28,
            Op::SubI64 => 29,
            Op::SubI64Immediate => 30,
            Op::MulU64 => 31,
            Op::MulU64Immediate => 32,
            Op::MulI64 => 33,
            Op::MulI64Immediate => 34,
            Op::DivU64 => 35,
            Op::DivU64Immediate => 36,
            Op::DivI64 => 37,
            Op::DivI64Immediate => 38,
            Op::Abs => 39,
            Op::ModI64 => 40,
            Op::NegI64 => 41,
            Op::U64ToF64 => 42,
            Op::I64ToF64 => 43,
            Op::AddF64 => 44,
            Op::AddF64Immediate => 45,
            Op::SubF64 => 46,
            Op::SubF64Immediate => 47,
            Op::MulF64 => 48,
            Op::MulF64Immediate => 49,
            Op::DivF64 => 50,
            Op::DivF64Immediate => 51,
            Op::AbsF64 => 52,
            Op::NegF64 => 53,
            Op::ToI64 => 54,
            Op::AndU64 => 55,
            Op::AndU64Immediate => 56,
            Op::OrU64 => 57,
            Op::OrU64Immediate => 58,
            Op::XorU64 => 59,
            Op::XorU64Immediate => 60,
            Op::NotU64 => 61,
            Op::ShlU64 => 62,
            Op::ShlU64Immediate => 63,
            Op::ShlI64 => 64,
            Op::ShlI64Immediate => 65,
            Op::ShrU64 => 66,
            Op::ShrU64Immediate => 67,
            Op::ShrI64 => 68,
            Op::ShrI64Immediate => 69,
            Op::RolU64 => 70,
            Op::RolU64Immediate => 71,
            Op::RorU64 => 72,
            Op::RorU64Immediate => 73,
            Op::CountOnesU64 => 74,
            Op::CountZerosU64 => 75,
            Op::TrailingZerosU64 => 76,
            Op::LoadU64 => 77,
            Op::LoadU32 => 78,
            Op::LoadU16 => 79,
            Op::LoadU8 => 80,
            Op::StoreU64 => 81,
            Op::StoreU32 => 82,
            Op::StoreU16 => 83,
            Op::StoreU8 => 84,
            Op::AtomicLoadU64 => 85,
            Op::AtomicStoreU64 => 86,
            Op::AtomicAddU64 => 87,
            Op::AtomicSubU64 => 88,
            Op::AtomicLoadU32 => 89,
            Op::AtomicStoreU32 => 90,
            Op::AtomicAddU32 => 91,
            Op::AtomicSubU32 => 92,
            Op::AtomicLoadU16 => 93,
            Op::AtomicStoreU16 => 94,
            Op::AtomicAddU16 => 95,
            Op::AtomicSubU16 => 96,
            Op::AtomicLoadU8 => 97,
            Op::AtomicStoreU8 => 98,
            Op::AtomicAddU8 => 99,
            Op::AtomicSubU8 => 100,
            Op::AtomicLoadI8 => 101,
            Op::AtomicLoadI16 => 102,
            Op::AtomicLoadI32 => 103,
            Op::AtomicLoadI64 => 104,
            Op::AtomicStoreI8 => 105,
            Op::AtomicStoreI16 => 106,
            Op::AtomicStoreI32 => 107,
            Op::AtomicStoreI64 => 108,
            Op::AtomicAddI8 => 109,
            Op::AtomicAddI16 => 110,
            Op::AtomicAddI32 => 111,
            Op::AtomicAddI64 => 112,
            Op::AtomicSubI8 => 113,
            Op::AtomicSubI16 => 114,
            Op::AtomicSubI32 => 115,
            Op::AtomicSubI64 => 116,
            Op::LoadI8 => 117,
            Op::LoadI16 => 118,
            Op::LoadI32 => 119,
            Op::LoadI64 => 120,
            Op::StoreI8 => 121,
            Op::StoreI16 => 122,
            Op::StoreI32 => 123,
            Op::StoreI64 => 124,
            Op::MemoryCopy => 125,
            Op::CallThread => 126,
            Op::SetIo => 127,
            Op::WaitIo => 128,
            Op::GetAnIo => 129,
        }
    }

    pub fn from_index(i: u64) -> (r: Option<Op>)
        ensures
            r == Op::spec_from_index(i),
    {
        if i == 0 {
            Some(Op::Ret)
        } else if i == 1 {
            Some(Op::Call)
        } else if i == 2 {
            Some(Op::Jump)
        } else if i == 3 {
            Some(Op::EqJump)
        } else if i == 4 {
            Some(Op::NeqJump)
        } else if i == 5 {
            Some(Op::LtU64Jump)
        } else if i == 6 {
            Some(Op::LteU64Jump)
        } else if i == 7 {
            Some(Op::LtI64Jump)
        } else if i == 8 {
            Some(Op::LteI64Jump)
        } else if i == 9 {
            Some(Op::GtU64Jump)
        } else if i == 10 {
            Some(Op::GteU64Jump)
        } else if i == 11 {
            Some(Op::GtI64Jump)
        } else if i == 12 {
            Some(Op::GteI64Jump)
        } else if i == 13 {
            Some(Op::GetDecode)
        } else if i == 14 {
            Some(Op::GetDecoded)
        } else if i == 15 {
            Some(Op::Exit)
        } else if i == 16 {
            Some(Op::PrintU64)
        } else if i == 17 {
            Some(Op::Alloc)
        } else if i == 18 {
            Some(Op::Realloc)
        } else if i == 19 {
            Some(Op::Dealloc)
        } else if i == 20 {
            Some(Op::Mov)
        } else if i == 21 {
            Some(Op::LoadU64Immediate)
        } else if i == 22 {
            Some(Op::Swap)
        } else if i == 23 {
            Some(Op::AddU64)
        } else if i == 24 {
            Some(Op::AddU64Immediate)
        } else if i == 25 {
            Some(Op::AddI64)
        } else if i == 26 {
            Some(Op::AddI64Immediate)
        } else if i == 27 {
            Some(Op::SubU64)
        } else if i == 28 {
            Some(Op::SubU64Immediate)
        } else if i == 29 {
            Some(Op::SubI64)
        } else if i == 30 {
            Some(Op::SubI64Immediate)
        } else if i == 31 {
            Some(Op::MulU64)
        } else if i == 32 {
            Some(Op::MulU64Immediate)
        } else if i == 33 {
            Some(Op::MulI64)
        } else if i == 34 {
            Some(Op::MulI64Immediate)
        } else if i == 35 {
            Some(Op::DivU64)
        } else if i == 36 {
            Some(Op::DivU64Immediate)
        } else if i == 37 {
            Some(Op::DivI64)
        } else if i == 38 {
            Some(Op::DivI64Immediate)
        } else if i == 39 {
            Some(Op::Abs)
        } else if i == 40 {
            Some(Op::ModI64)
        } else if i == 41 {
            Some(Op::NegI64)
        } else if i == 42 {
            Some(Op::U64ToF64)
        } else if i == 43 {
            Some(Op::I64ToF64)
        } else if i == 44 {
            Some(Op::AddF64)
        } else if i == 45 {
            Some(Op::AddF64Immediate)
        } else if i == 46 {
            Some(Op::SubF64)
        } else if i == 47 {
            Some(Op::SubF64Immediate)
        } else if i == 48 {
            Some(Op::MulF64)
        } else if i == 49 {
            Some(Op::MulF64Immediate)
        } else if i == 50 {
            Some(Op::DivF64)
        } else if i == 51 {
            Some(Op::DivF64Immediate)
        } else if i == 52 {
            Some(Op::AbsF64)
        } else if i == 53 {
            Some(Op::NegF64)
        } else if i == 54 {
            Some(Op::ToI64)
        } else if i == 55 {
            Some(Op::AndU64)
        } else if i == 56 {
            Some(Op::AndU64Immediate)
        } else if i == 57 {
            Some(Op::OrU64)
        } else if i == 58 {
            Some(Op::OrU64Immediate)
        } else if i == 59 {
            Some(Op::XorU64)
        } else if i == 60 {
            Some(Op::XorU64Immediate)
        } else if i == 61 {
            Some(Op::NotU64)
        } else if i == 62 {
            Some(Op::ShlU64)
        } else if i == 63 {
            Some(Op::ShlU64Immediate)
        } else if i == 64 {
            Some(Op::ShlI64)
        } else if i == 65 {
            Some(Op::ShlI64Immediate)
        } else if i == 66 {
            Some(Op::ShrU64)
        } else if i == 67 {
            Some(Op::ShrU64Immediate)
        } else if i == 68 {
            Some(Op::ShrI64)
        } else if i == 69 {
            Some(Op::ShrI64Immediate)
        } else if i == 70 {
            Some(Op::RolU64)
        } else if i == 71 {
            Some(Op::RolU64Immediate)
        } else if i == 72 {
            Some(Op::RorU64)
        } else if i == 73 {
            Some(Op::RorU64Immediate)
        } else if i == 74 {
            Some(Op::CountOnesU64)
        } else if i == 75 {
            Some(Op::CountZerosU64)
        } else if i == 76 {
            Some(Op::TrailingZerosU64)
        } else if i == 77 {
            Some(Op::LoadU64)
        } else if i == 78 {
            Some(Op::LoadU32)
        } else if i == 79 {
            Some(Op::LoadU16)
        } else if i == 80 {
            Some(Op::LoadU8)
        } else if i == 81 {
            Some(Op::StoreU64)
        } else if i == 82 {
            Some(Op::StoreU32)
        } else if i == 83 {
            Some(Op::StoreU16)
        } else if i == 84 {
            Some(Op::StoreU8)
        } else if i == 85 {
            Some(Op::AtomicLoadU64)
        } else if i == 86 {
            Some(Op::AtomicStoreU64)
        } else if i == 87 {
            Some(Op::AtomicAddU64)
        } else if i == 88 {
            Some(Op::AtomicSubU64)
        } else if i == 89 {
            Some(Op::AtomicLoadU32)
        } else if i == 90 {
            Some(Op::AtomicStoreU32)
        } else if i == 91 {
            Some(Op::AtomicAddU32)
        } else if i == 92 {
            Some(Op::AtomicSubU32)
        } else if i == 93 {
            Some(Op::AtomicLoadU16)
        } else if i == 94 {
            Some(Op::AtomicStoreU16)
        } else if i == 95 {
            Some(Op::AtomicAddU16)
        } else if i == 96 {
            Some(Op::AtomicSubU16)
        } else if i == 97 {
            Some(Op::AtomicLoadU8)
        } else if i == 98 {
            Some(Op::AtomicStoreU8)
        } else if i == 99 {
            Some(Op::AtomicAddU8)
        } else if i == 100 {
            Some(Op::AtomicSubU8)
        } else if i == 101 {
            Some(Op::AtomicLoadI8)
        } else if i == 102 {
            Some(Op::AtomicLoadI16)
        } else if i == 103 {
            Some(Op::AtomicLoadI32)
        } else if i == 104 {
            Some(Op::AtomicLoadI64)
        } else if i == 105 {
            Some(Op::AtomicStoreI8)
        } else if i == 106 {
            Some(Op::AtomicStoreI16)
        } else if i == 107 {
            Some(Op::AtomicStoreI32)
        } else if i == 108 {
            Some(Op::AtomicStoreI64)
        } else if i == 109 {
            Some(Op::AtomicAddI8)
        } else if i == 110 {
            Some(Op::AtomicAddI16)
        } else if i == 111 {
            Some(Op::AtomicAddI32)
        } else if i == 112 {
            Some(Op::AtomicAddI64)
        } else if i == 113 {
            Some(Op::AtomicSubI8)
        } else if i == 114 {
            Some(Op::AtomicSubI16)
        } else if i == 115 {
            Some(Op::AtomicSubI32)
        } else if i == 116 {
            Some(Op::AtomicSubI64)
        } else if i == 117 {
            Some(Op::LoadI8)
        } else if i == 118 {
            Some(Op::LoadI16)
        } else if i == 119 {
            Some(Op::LoadI32)
        } else if i == 120 {
            Some(Op::LoadI64)
        } else if i == 121 {
            Some(Op::StoreI8)
        } else if i == 122 {
            Some(Op::StoreI16)
        } else if i == 123 {
            Some(Op::StoreI32)
        } else if i == 124 {
            Some(Op::StoreI64)
        } else if i == 125 {
            Some(Op::MemoryCopy)
        } else if i == 126 {
            Some(Op::CallThread)
        } else if i == 127 {
            Some(Op::SetIo)
        } else if i == 128 {
            Some(Op::WaitIo)
        } else if i == 129 {
            Some(Op::GetAnIo)
        } else {
            None
        }
    }

    pub fn name(&self) -> (r: &'static str)
        ensures
            r@ == self.spec_name(),
    {
        match self {
            Op::Ret => "RET",
            Op::Call => "CALL",
            Op::Jump => "JUMP",
            Op::EqJump => "EQ_JUMP",
            Op::NeqJump => "NEQ_JUMP",
            Op::LtU64Jump => "LT_U64_JUMP",
            Op::LteU64Jump => "LTE_U64_JUMP",
            Op::LtI64Jump => "LT_I64_JUMP",
            Op::LteI64Jump => "LTE_I64_JUMP",
            Op::GtU64Jump => "GT_U64_JUMP",
            Op::GteU64Jump => "GTE_U64_JUMP",
            Op::GtI64Jump => "GT_I64_JUMP",
            Op::GteI64Jump => "GTE_I64_JUMP",
            Op::GetDecode => "GET_DECODE",
            Op::GetDecoded => "GET_DECODED",
            Op::Exit => "EXIT",
            Op::PrintU64 => "PRINT_U64",
            Op::Alloc => "ALLOC",
            Op::Realloc => "REALLOC",
            Op::Dealloc => "DEALLOC",
            Op::Mov => "MOV",
            Op::LoadU64Immediate => "LOAD_U64_IMMEDIATE",
            Op::Swap => "SWAP",
            Op::AddU64 => "ADD_U64",
            Op::AddU64Immediate => "ADD_U64_IMMEDIATE",
            Op::AddI64 => "ADD_I64",
            Op::AddI64Immediate => "ADD_I64_IMMEDIATE",
            Op::SubU64 => "SUB_U64",
            Op::SubU64Immediate => "SUB_U64_IMMEDIATE",
            Op::SubI64 => "SUB_I64",
            Op::SubI64Immediate => "SUB_I64_IMMEDIATE",
            Op::MulU64 => "MUL_U64",
            Op::MulU64Immediate => "MUL_U64_IMMEDIATE",
            Op::MulI64 => "MUL_I64",
            Op::MulI64Immediate => "MUL_I64_IMMEDIATE",
            Op::DivU64 => "DIV_U64",
            Op::DivU64Immediate => "DIV_U64_IMMEDIATE",
            Op::DivI64 => "DIV_I64",
            Op::DivI64Immediate => "DIV_I64_IMMEDIATE",
            Op::Abs => "ABS",
            Op::ModI64 => "MOD_I64",
            Op::NegI64 => "NEG_I64",
            Op::U64ToF64 => "U64_TO_F64",
            Op::I64ToF64 => "I64_TO_F64",
            Op::AddF64 => "ADD_F64",
            Op::AddF64Immediate => "ADD_F64_IMMEDIATE",
            Op::SubF64 => "SUB_F64",
            Op::SubF64Immediate => "SUB_F64_IMMEDIATE",
            Op::MulF64 => "MUL_F64",
            Op::MulF64Immediate => "MUL_F64_IMMEDIATE",
            Op::DivF64 => "DIV_F64",
            Op::DivF64Immediate => "DIV_F64_IMMEDIATE",
            Op::AbsF64 => "ABS_F64",
            Op::NegF64 => "NEG_F64",
            Op::ToI64 => "TO_I64",
            Op::AndU64 => "AND_U64",
            Op::AndU64Immediate => "AND_U64_IMMEDIATE",
            Op::OrU64 => "OR_U64",
            Op::OrU64Immediate => "OR_U64_IMMEDIATE",
            Op::XorU64 => "XOR_U64",
            Op::XorU64Immediate => "XOR_U64_IMMEDIATE",
            Op::NotU64 => "NOT_U64",
            Op::ShlU64 => "SHL_U64",
            Op::ShlU64Immediate => "SHL_U64_IMMEDIATE",
            Op::ShlI64 => "SHL_I64",
            Op::ShlI64Immediate => "SHL_I64_IMMEDIATE",
            Op::ShrU64 => "SHR_U64",
            Op::ShrU64Immediate => "SHR_U64_IMMEDIATE",
            Op::ShrI64 => "SHR_I64",
            Op::ShrI64Immediate => "SHR_I64_IMMEDIATE",
            Op::RolU64 => "ROL_U64",
            Op::RolU64Immediate => "ROL_U64_IMMEDIATE",
            Op::RorU64 => "ROR_U64",
            Op::RorU64Immediate => "ROR_U64_IMMEDIATE",
            Op::CountOnesU64 => "COUNT_ONES_U64",
            Op::CountZerosU64 => "COUNT_ZEROS_U64",
            Op::TrailingZerosU64 => "TRAILING_ZEROS_U64",
            Op::LoadU64 => "LOAD_U64",
            Op::LoadU32 => "LOAD_U32",
            Op::LoadU16 => "LOAD_U16",
            Op::LoadU8 => "LOAD_U8",
            Op::StoreU64 => "STORE_U64",
            Op::StoreU32 => "STORE_U32",
            Op::StoreU16 => "STORE_U16",
            Op::StoreU8 => "STORE_U8",
            Op::AtomicLoadU64 => "ATOMIC_LOAD_U64",
            Op::AtomicStoreU64 => "ATOMIC_STORE_U64",
            Op::AtomicAddU64 => "ATOMIC_ADD_U64",
            Op::AtomicSubU64 => "ATOMIC_SUB_U64",
            Op::AtomicLoadU32 => "ATOMIC_LOAD_U32",
            Op::AtomicStoreU32 => "ATOMIC_STORE_U32",
            Op::AtomicAddU32 => "ATOMIC_ADD_U32",
            Op::AtomicSubU32 => "ATOMIC_SUB_U32",
            Op::AtomicLoadU16 => "ATOMIC_LOAD_U16",
            Op::AtomicStoreU16 => "ATOMIC_STORE_U16",
            Op::AtomicAddU16 => "ATOMIC_ADD_U16",
            Op::AtomicSubU16 => "ATOMIC_SUB_U16",
            Op::AtomicLoadU8 => "ATOMIC_LOAD_U8",
            Op::AtomicStoreU8 => "ATOMIC_STORE_U8",
            Op::AtomicAddU8 => "ATOMIC_ADD_U8",
            Op::AtomicSubU8 => "ATOMIC_SUB_U8",
            Op::AtomicLoadI8 => "ATOMIC_LOAD_I8",
            Op::AtomicLoadI16 => "ATOMIC_LOAD_I16",
            Op::AtomicLoadI32 => "ATOMIC_LOAD_I32",
            Op::AtomicLoadI64 => "ATOMIC_LOAD_I64",
            Op::AtomicStoreI8 => "ATOMIC_STORE_I8",
            Op::AtomicStoreI16 => "ATOMIC_STORE_I16",
            Op::AtomicStoreI32 => "ATOMIC_STORE_I32",
            Op::AtomicStoreI64 => "ATOMIC_STORE_I64",
            Op::AtomicAddI8 => "ATOMIC_ADD_I8",
            Op::AtomicAddI16 => "ATOMIC_ADD_I16",
            Op::AtomicAddI32 => "ATOMIC_ADD_I32",
            Op::AtomicAddI64 => "ATOMIC_ADD_I64",
            Op::AtomicSubI8 => "ATOMIC_SUB_I8",
            Op::AtomicSubI16 => "ATOMIC_SUB_I16",
            Op::AtomicSubI32 => "ATOMIC_SUB_I32",
            Op::AtomicSubI64 => "ATOMIC_SUB_I64",
            Op::LoadI8 => "LOAD_I8",
            Op::LoadI16 => "LOAD_I16",
            Op::LoadI32 => "LOAD_I32",
            Op::LoadI64 => "LOAD_I64",
            Op::StoreI8 => "STORE_I8",
            Op::StoreI16 => "STORE_I16",
            Op::StoreI32 => "STORE_I32",
            Op::StoreI64 => "STORE_I64",
            Op::MemoryCopy => "MEMORY_COPY",
            Op::CallThread => "CALL_THREAD",
            Op::SetIo => "SET_IO",
            Op::WaitIo => "WAIT_IO",
            Op::GetAnIo => "GET_AN_IO",
        }
    }

    pub fn plans(&self) -> (r: Vec<OperandPlan>)
        ensures
            r@ == self.spec_plans(),
    {
        match self {
            Op::Ret => vec![],
            Op::Call => vec![OperandPlan::Value, OperandPlan::Value],
            Op::Jump => vec![OperandPlan::PackedRegisters(1), OperandPlan::Value],
            Op::EqJump => vec![OperandPlan::PackedRegisters(3), OperandPlan::Value],
            Op::NeqJump => vec![OperandPlan::PackedRegisters(3), OperandPlan::Value],
            Op::LtU64Jump => vec![OperandPlan::PackedRegisters(3), OperandPlan::Value],
            Op::LteU64Jump => vec![OperandPlan::PackedRegisters(3), OperandPlan::Value],
            Op::LtI64Jump => vec![OperandPlan::PackedRegisters(3), OperandPlan::Value],
            Op::LteI64Jump => vec![OperandPlan::PackedRegisters(3), OperandPlan::Value],
            Op::GtU64Jump => vec![OperandPlan::PackedRegisters(3), OperandPlan::Value],
            Op::GteU64Jump => vec![OperandPlan::PackedRegisters(3), OperandPlan::Value],
            Op::GtI64Jump => vec![OperandPlan::PackedRegisters(3), OperandPlan::Value],
            Op::GteI64Jump => vec![OperandPlan::PackedRegisters(3), OperandPlan::Value],
            Op::GetDecode => vec![OperandPlan::Value, OperandPlan::Value],
            Op::GetDecoded => vec![],
            Op::Exit => vec![OperandPlan::Value],
            Op::PrintU64 => vec![OperandPlan::PackedRegisters(1)],
            Op::Alloc => vec![OperandPlan::PackedRegisters(2), OperandPlan::Value],
            Op::Realloc => vec![OperandPlan::PackedRegisters(2)],
            Op::Dealloc => vec![OperandPlan::PackedRegisters(1)],
            Op::Mov => vec![OperandPlan::PackedRegisters(2)],
            Op::LoadU64Immediate => vec![OperandPlan::PackedRegisters(1), OperandPlan::Value],
            Op::Swap => vec![OperandPlan::PackedRegisters(2)],
            Op::AddU64 => vec![OperandPlan::PackedRegisters(2)],
            Op::AddU64Immediate => vec![OperandPlan::PackedRegisters(1), OperandPlan::Value],
            Op::AddI64 => vec![OperandPlan::PackedRegisters(2)],
            Op::AddI64Immediate => vec![OperandPlan::PackedRegisters(1), OperandPlan::Value],
            Op::SubU64 => vec![OperandPlan::PackedRegisters(2)],
            Op::SubU64Immediate => vec![OperandPlan::PackedRegisters(1), OperandPlan::Value],
            Op::SubI64 => vec![OperandPlan::PackedRegisters(2)],
            Op::SubI64Immediate => vec![OperandPlan::PackedRegisters(1), OperandPlan::Value],
            Op::MulU64 => vec![OperandPlan::PackedRegisters(2)],
            Op::MulU64Immediate => vec![OperandPlan::PackedRegisters(1), OperandPlan::Value],
            Op::MulI64 => vec![OperandPlan::PackedRegisters(2)],
            Op::MulI64Immediate => vec![OperandPlan::PackedRegisters(1), OperandPlan::Value],
            Op::DivU64 => vec![OperandPlan::PackedRegisters(2)],
            Op::DivU64Immediate => vec![OperandPlan::PackedRegisters(1), OperandPlan::Value],
            Op::DivI64 => vec![OperandPlan::PackedRegisters(2)],
            Op::DivI64Immediate => vec![OperandPlan::PackedRegisters(1), OperandPlan::Value],
            Op::Abs => vec![OperandPlan::PackedRegisters(2)],
            Op::ModI64 => vec![OperandPlan::PackedRegisters(2)],
            Op::NegI64 => vec![OperandPlan::PackedRegisters(2)],
            Op::U64ToF64 => vec![OperandPlan::PackedRegisters(2)],
            Op::I64ToF64 => vec![OperandPlan::PackedRegisters(2)],
            Op::AddF64 => vec![OperandPlan::PackedRegisters(2)],
            Op::AddF64Immediate => vec![OperandPlan::PackedRegisters(1), OperandPlan::Value],
            Op::SubF64 => vec![OperandPlan::PackedRegisters(2)],
            Op::SubF64Immediate => vec![OperandPlan::PackedRegisters(1), OperandPlan::Value],
            Op::MulF64 => vec![OperandPlan::PackedRegisters(2)],
            Op::MulF64Immediate => vec![OperandPlan::PackedRegisters(1), OperandPlan::Value],
            Op::DivF64 => vec![OperandPlan::PackedRegisters(2)],
            Op::DivF64Immediate => vec![OperandPlan::PackedRegisters(1), OperandPlan::Value],
            Op::AbsF64 => vec![OperandPlan::PackedRegisters(2)],
            Op::NegF64 => vec![OperandPlan::PackedRegisters(2)],
            Op::ToI64 => vec![OperandPlan::PackedRegisters(2)],
            Op::AndU64 => vec![OperandPlan::PackedRegisters(2)],
            Op::AndU64Immediate => vec![OperandPlan::PackedRegisters(1), OperandPlan::Value],
            Op::OrU64 => vec![OperandPlan::PackedRegisters(2)],
            Op::OrU64Immediate => vec![OperandPlan::PackedRegisters(1), OperandPlan::Value],
            Op::XorU64 => vec![OperandPlan::PackedRegisters(2)],
            Op::XorU64Immediate => vec![OperandPlan::PackedRegisters(1), OperandPlan::Value],
            Op::NotU64 => vec![OperandPlan::PackedRegisters(2)],
            Op::ShlU64 => vec![OperandPlan::PackedRegisters(2)],
            Op::ShlU64Immediate => vec![OperandPlan::PackedRegisters(1), OperandPlan::Value],
            Op::ShlI64 => vec![OperandPlan::PackedRegisters(2)],
            Op::ShlI64Immediate => vec![OperandPlan::PackedRegisters(1), OperandPlan::Value],
            Op::ShrU64 => vec![OperandPlan::PackedRegisters(2)],
            Op::ShrU64Immediate => vec![OperandPlan::PackedRegisters(1), OperandPlan::Value],
            Op::ShrI64 => vec![OperandPlan::PackedRegisters(2)],
            Op::ShrI64Immediate => vec![OperandPlan::PackedRegisters(1), OperandPlan::Value],
            Op::RolU64 => vec![OperandPlan::PackedRegisters(2)],
            Op::RolU64Immediate => vec![OperandPlan::PackedRegisters(1), OperandPlan::Value],
            Op::RorU64 => vec![OperandPlan::PackedRegisters(2)],
            Op::RorU64Immediate => vec![OperandPlan::PackedRegisters(1), OperandPlan::Value],
            Op::CountOnesU64 => vec![OperandPlan::PackedRegisters(2)],
            Op::CountZerosU64 => vec![OperandPlan::PackedRegisters(2)],
            Op::TrailingZerosU64 => vec![OperandPlan::PackedRegisters(2)],
            Op::LoadU64 => vec![OperandPlan::PackedRegisters(3), OperandPlan::Value],
            Op::LoadU32 => vec![OperandPlan::PackedRegisters(3), OperandPlan::Value],
            Op::LoadU16 => vec![OperandPlan::PackedRegisters(3), OperandPlan::Value],
            Op::LoadU8 => vec![OperandPlan::PackedRegisters(3), OperandPlan::Value],
            Op::StoreU64 => vec![OperandPlan::PackedRegisters(3), OperandPlan::Value],
            Op::StoreU32 => vec![OperandPlan::PackedRegisters(3), OperandPlan::Value],
            Op::StoreU16 => vec![OperandPlan::PackedRegisters(3), OperandPlan::Value],
            Op::StoreU8 => vec![OperandPlan::PackedRegisters(3), OperandPlan::Value],
            Op::AtomicLoadU64 => vec![OperandPlan::PackedRegisters(3), OperandPlan::Value],
            Op::AtomicStoreU64 => vec![OperandPlan::PackedRegisters(3), OperandPlan::Value],
            Op::AtomicAddU64 => vec![OperandPlan::PackedRegisters(4), OperandPlan::Value],
            Op::AtomicSubU64 => vec![OperandPlan::PackedRegisters(4), OperandPlan::Value],
            Op::AtomicLoadU32 => vec![OperandPlan::PackedRegisters(3), OperandPlan::Value],
            Op::AtomicStoreU32 => vec![OperandPlan::PackedRegisters(3), OperandPlan::Value],
            Op::AtomicAddU32 => vec![OperandPlan::PackedRegisters(4), OperandPlan::Value],
            Op::AtomicSubU32 => vec![OperandPlan::PackedRegisters(4), OperandPlan::Value],
            Op::AtomicLoadU16 => vec![OperandPlan::PackedRegisters(3), OperandPlan::Value],
            Op::AtomicStoreU16 => vec![OperandPlan::PackedRegisters(3), OperandPlan::Value],
            Op::AtomicAddU16 => vec![OperandPlan::PackedRegisters(4), OperandPlan::Value],
            Op::AtomicSubU16 => vec![OperandPlan::PackedRegisters(4), OperandPlan::Value],
            Op::AtomicLoadU8 => vec![OperandPlan::PackedRegisters(3), OperandPlan::Value],
            Op::AtomicStoreU8 => vec![OperandPlan::PackedRegisters(3), OperandPlan::Value],
            Op::AtomicAddU8 => vec![OperandPlan::PackedRegisters(4), OperandPlan::Value],
            Op::AtomicSubU8 => vec![OperandPlan::PackedRegisters(4), OperandPlan::Value],
            Op::AtomicLoadI8 => vec![OperandPlan::PackedRegisters(3), OperandPlan::Value],
            Op::AtomicLoadI16 => vec![OperandPlan::PackedRegisters(3), OperandPlan::Value],
            Op::AtomicLoadI32 => vec![OperandPlan::PackedRegisters(3), OperandPlan::Value],
            Op::AtomicLoadI64 => vec![OperandPlan::PackedRegisters(3), OperandPlan::Value],
            Op::AtomicStoreI8 => vec![OperandPlan::PackedRegisters(3), OperandPlan::Value],
            Op::AtomicStoreI16 => vec![OperandPlan::PackedRegisters(3), OperandPlan::Value],
            Op::AtomicStoreI32 => vec![OperandPlan::PackedRegisters(3), OperandPlan::Value],
            Op::AtomicStoreI64 => vec![OperandPlan::PackedRegisters(3), OperandPlan::Value],
            Op::AtomicAddI8 => vec![OperandPlan::PackedRegisters(4), OperandPlan::Value],
            Op::AtomicAddI16 => vec![OperandPlan::PackedRegisters(4), OperandPlan::Value],
            Op::AtomicAddI32 => vec![OperandPlan::PackedRegisters(4), OperandPlan::Value],
            Op::AtomicAddI64 => vec![OperandPlan::PackedRegisters(4), OperandPlan::Value],
            Op::AtomicSubI8 => vec![OperandPlan::PackedRegisters(4), OperandPlan::Value],
            Op::AtomicSubI16 => vec![OperandPlan::PackedRegisters(4), OperandPlan::Value],
            Op::AtomicSubI32 => vec![OperandPlan::PackedRegisters(4), OperandPlan::Value],
            Op::AtomicSubI64 => vec![OperandPlan::PackedRegisters(4), OperandPlan::Value],
            Op::LoadI8 => vec![OperandPlan::PackedRegisters(3), OperandPlan::Value],
            Op::LoadI16 => vec![OperandPlan::PackedRegisters(3), OperandPlan::Value],
            Op::LoadI32 => vec![OperandPlan::PackedRegisters(3), OperandPlan::Value],
            Op::LoadI64 => vec![OperandPlan::PackedRegisters(3), OperandPlan::Value],
            Op::StoreI8 => vec![OperandPlan::PackedRegisters(3), OperandPlan::Value],
            Op::StoreI16 => vec![OperandPlan::PackedRegisters(3), OperandPlan::Value],
            Op::StoreI32 => vec![OperandPlan::PackedRegisters(3), OperandPlan::Value],
            Op::StoreI64 => vec![OperandPlan::PackedRegisters(3), OperandPlan::Value],
            Op::MemoryCopy => vec![OperandPlan::PackedRegisters(3)],
            Op::CallThread => vec![OperandPlan::PackedRegisters(2), OperandPlan::Value],
            Op::SetIo => vec![OperandPlan::PackedRegisters(7)],
            Op::WaitIo => vec![OperandPlan::PackedRegisters(3)],
            Op::GetAnIo => vec![OperandPlan::PackedRegisters(4)],
        }
    }

    /// Every opcode has a distinct number below `OP_COUNT`, and the number
    /// gives the opcode back.
    pub proof fn lemma_index(self)
        ensures
            self.spec_index() < OP_COUNT,
            Op::spec_from_index(self.spec_index()) == Some(self),
    {
    }

    pub proof fn lemma_from_index(i: u64)
        ensures
            Op::spec_from_index(i) is Some <==> i < OP_COUNT,
            Op::spec_from_index(i) matches Some(op) ==> op.spec_index() == i,
    {
    }
}

/// The mnemonic of every opcode, as the assembly reference lists them:
/// `ADD_U64` names the add handler, `SUB_U64` the subtract handler, and so
/// on for each opcode.
pub proof fn law_opcode_names()
    ensures
        Op::Ret.spec_name() == "RET"@,
        Op::Call.spec_name() == "CALL"@,
        Op::Jump.spec_name() == "JUMP"@,
        Op::EqJump.spec_name() == "EQ_JUMP"@,
        Op::NeqJump.spec_name() == "NEQ_JUMP"@,
        Op::LtU64Jump.spec_name() == "LT_U64_JUMP"@,
        Op::LteU64Jump.spec_name() == "LTE_U64_JUMP"@,
        Op::LtI64Jump.spec_name() == "LT_I64_JUMP"@,
        Op::LteI64Jump.spec_name() == "LTE_I64_JUMP"@,
        Op::GtU64Jump.spec_name() == "GT_U64_JUMP"@,
        Op::GteU64Jump.spec_name() == "GTE_U64_JUMP"@,
        Op::GtI64Jump.spec_name() == "GT_I64_JUMP"@,
        Op::GteI64Jump.spec_name() == "GTE_I64_JUMP"@,
        Op::GetDecode.spec_name() == "GET_DECODE"@,
        Op::GetDecoded.spec_name() == "GET_DECODED"@,
        Op::Exit.spec_name() == "EXIT"@,
        Op::PrintU64.spec_name() == "PRINT_U64"@,
        Op::Alloc.spec_name() == "ALLOC"@,
        Op::Realloc.spec_name() == "REALLOC"@,
        Op::Dealloc.spec_name() == "DEALLOC"@,
        Op::Mov.spec_name() == "MOV"@,
        Op::LoadU64Immediate.spec_name() == "LOAD_U64_IMMEDIATE"@,
        Op::Swap.spec_name() == "SWAP"@,
        Op::AddU64.spec_name() == "ADD_U64"@,
        Op::AddU64Immediate.spec_name() == "ADD_U64_IMMEDIATE"@,
        Op::AddI64.spec_name() == "ADD_I64"@,
        Op::AddI64Immediate.spec_name() == "ADD_I64_IMMEDIATE"@,
        Op::SubU64.spec_name() == "SUB_U64"@,
        Op::SubU64Immediate.spec_name() == "SUB_U64_IMMEDIATE"@,
        Op::SubI64.spec_name() == "SUB_I64"@,
        Op::SubI64Immediate.spec_name() == "SUB_I64_IMMEDIATE"@,
        Op::MulU64.spec_name() == "MUL_U64"@,
        Op::MulU64Immediate.spec_name() == "MUL_U64_IMMEDIATE"@,
        Op::MulI64.spec_name() == "MUL_I64"@,
        Op::MulI64Immediate.spec_name() == "MUL_I64_IMMEDIATE"@,
        Op::DivU64.spec_name() == "DIV_U64"@,
        Op::DivU64Immediate.spec_name() == "DIV_U64_IMMEDIATE"@,
        Op::DivI64.spec_name() == "DIV_I64"@,
        Op::DivI64Immediate.spec_name() == "DIV_I64_IMMEDIATE"@,
        Op::Abs.spec_name() == "ABS"@,
        Op::ModI64.spec_name() == "MOD_I64"@,
        Op::NegI64.spec_name() == "NEG_I64"@,
        Op::U64ToF64.spec_name() == "U64_TO_F64"@,
        Op::I64ToF64.spec_name() == "I64_TO_F64"@,
        Op::AddF64.spec_name() == "ADD_F64"@,
        Op::AddF64Immediate.spec_name() == "ADD_F64_IMMEDIATE"@,
        Op::SubF64.spec_name() == "SUB_F64"@,
        Op::SubF64Immediate.spec_name() == "SUB_F64_IMMEDIATE"@,
        Op::MulF64.spec_name() == "MUL_F64"@,
        Op::MulF64Immediate.spec_name() == "MUL_F64_IMMEDIATE"@,
        Op::DivF64.spec_name() == "DIV_F64"@,
        Op::DivF64Immediate.spec_name() == "DIV_F64_IMMEDIATE"@,
        Op::AbsF64.spec_name() == "ABS_F64"@,
        Op::NegF64.spec_name() == "NEG_F64"@,
        Op::ToI64.spec_name() == "TO_I64"@,
        Op::AndU64.spec_name() == "AND_U64"@,
        Op::AndU64Immediate.spec_name() == "AND_U64_IMMEDIATE"@,
        Op::OrU64.spec_name() == "OR_U64"@,
        Op::OrU64Immediate.spec_name() == "OR_U64_IMMEDIATE"@,
        Op::XorU64.spec_name() == "XOR_U64"@,
        Op::XorU64Immediate.spec_name() == "XOR_U64_IMMEDIATE"@,
        Op::NotU64.spec_name() == "NOT_U64"@,
        Op::ShlU64.spec_name() == "SHL_U64"@,
        Op::ShlU64Immediate.spec_name() == "SHL_U64_IMMEDIATE"@,
        Op::ShlI64.spec_name() == "SHL_I64"@,
        Op::ShlI64Immediate.spec_name() == "SHL_I64_IMMEDIATE"@,
        Op::ShrU64.spec_name() == "SHR_U64"@,
        Op::ShrU64Immediate.spec_name() == "SHR_U64_IMMEDIATE"@,
        Op::ShrI64.spec_name() == "SHR_I64"@,
        Op::ShrI64Immediate.spec_name() == "SHR_I64_IMMEDIATE"@,
        Op::RolU64.spec_name() == "ROL_U64"@,
        Op::RolU64Immediate.spec_name() == "ROL_U64_IMMEDIATE"@,
        Op::RorU64.spec_name() == "ROR_U64"@,
        Op::RorU64Immediate.spec_name() == "ROR_U64_IMMEDIATE"@,
        Op::CountOnesU64.spec_name() == "COUNT_ONES_U64"@,
        Op::CountZerosU64.spec_name() == "COUNT_ZEROS_U64"@,
        Op::TrailingZerosU64.spec_name() == "TRAILING_ZEROS_U64"@,
        Op::LoadU64.spec_name() == "LOAD_U64"@,
        Op::LoadU32.spec_name() == "LOAD_U32"@,
        Op::LoadU16.spec_name() == "LOAD_U16"@,
        Op::LoadU8.spec_name() == "LOAD_U8"@,
        Op::StoreU64.spec_name() == "STORE_U64"@,
        Op::StoreU32.spec_name() == "STORE_U32"@,
        Op::StoreU16.spec_name() == "STORE_U16"@,
        Op::StoreU8.spec_name() == "STORE_U8"@,
        Op::AtomicLoadU64.spec_name() == "ATOMIC_LOAD_U64"@,
        Op::AtomicStoreU64.spec_name() == "ATOMIC_STORE_U64"@,
        Op::AtomicAddU64.spec_name() == "ATOMIC_ADD_U64"@,
        Op::AtomicSubU64.spec_name() == "ATOMIC_SUB_U64"@,
        Op::AtomicLoadU32.spec_name() == "ATOMIC_LOAD_U32"@,
        Op::AtomicStoreU32.spec_name() == "ATOMIC_STORE_U32"@,
        Op::AtomicAddU32.spec_name() == "ATOMIC_ADD_U32"@,
        Op::AtomicSubU32.spec_name() == "ATOMIC_SUB_U32"@,
        Op::AtomicLoadU16.spec_name() == "ATOMIC_LOAD_U16"@,
        Op::AtomicStoreU16.spec_name() == "ATOMIC_STORE_U16"@,
        Op::AtomicAddU16.spec_name() == "ATOMIC_ADD_U16"@,
        Op::AtomicSubU16.spec_name() == "ATOMIC_SUB_U16"@,
        Op::AtomicLoadU8.spec_name() == "ATOMIC_LOAD_U8"@,
        Op::AtomicStoreU8.spec_name() == "ATOMIC_STORE_U8"@,
        Op::AtomicAddU8.spec_name() == "ATOMIC_ADD_U8"@,
        Op::AtomicSubU8.spec_name() == "ATOMIC_SUB_U8"@,
        Op::AtomicLoadI8.spec_name() == "ATOMIC_LOAD_I8"@,
        Op::AtomicLoadI16.spec_name() == "ATOMIC_LOAD_I16"@,
        Op::AtomicLoadI32.spec_name() == "ATOMIC_LOAD_I32"@,
        Op::AtomicLoadI64.spec_name() == "ATOMIC_LOAD_I64"@,
        Op::AtomicStoreI8.spec_name() == "ATOMIC_STORE_I8"@,
        Op::AtomicStoreI16.spec_name() == "ATOMIC_STORE_I16"@,
        Op::AtomicStoreI32.spec_name() == "ATOMIC_STORE_I32"@,
        Op::AtomicStoreI64.spec_name() == "ATOMIC_STORE_I64"@,
        Op::AtomicAddI8.spec_name() == "ATOMIC_ADD_I8"@,
        Op::AtomicAddI16.spec_name() == "ATOMIC_ADD_I16"@,
        Op::AtomicAddI32.spec_name() == "ATOMIC_ADD_I32"@,
        Op::AtomicAddI64.spec_name() == "ATOMIC_ADD_I64"@,
        Op::AtomicSubI8.spec_name() == "ATOMIC_SUB_I8"@,
        Op::AtomicSubI16.spec_name() == "ATOMIC_SUB_I16"@,
        Op::AtomicSubI32.spec_name() == "ATOMIC_SUB_I32"@,
        Op::AtomicSubI64.spec_name() == "ATOMIC_SUB_I64"@,
        Op::LoadI8.spec_name() == "LOAD_I8"@,
        Op::LoadI16.spec_name() == "LOAD_I16"@,
        Op::LoadI32.spec_name() == "LOAD_I32"@,
        Op::LoadI64.spec_name() == "LOAD_I64"@,
        Op::StoreI8.spec_name() == "STORE_I8"@,
        Op::StoreI16.spec_name() == "STORE_I16"@,
        Op::StoreI32.spec_name() == "STORE_I32"@,
        Op::StoreI64.spec_name() == "STORE_I64"@,
        Op::MemoryCopy.spec_name() == "MEMORY_COPY"@,
        Op::CallThread.spec_name() == "CALL_THREAD"@,
        Op::SetIo.spec_name() == "SET_IO"@,
        Op::WaitIo.spec_name() == "WAIT_IO"@,
        Op::GetAnIo.spec_name() == "GET_AN_IO"@,
{
}

/// The number of every opcode in an instruction word, in the order of the
/// opcode table: `RET` is 0, `ADD_U64` 23, `SUB_U64` 27, and so on.
pub proof fn law_opcode_numbers()
    ensures
        Op::Ret.spec_index() == 0,
        Op::Call.spec_index() == 1,
        Op::Jump.spec_index() == 2,
        Op::EqJump.spec_index() == 3,
        Op::NeqJump.spec_index() == 4,
        Op::LtU64Jump.spec_index() == 5,
        Op::LteU64Jump.spec_index() == 6,
        Op::LtI64Jump.spec_index() == 7,
        Op::LteI64Jump.spec_index() == 8,
        Op::GtU64Jump.spec_index() == 9,
        Op::GteU64Jump.spec_index() == 10,
        Op::GtI64Jump.spec_index() == 11,
        Op::GteI64Jump.spec_index() == 12,
        Op::GetDecode.spec_index() == 13,
        Op::GetDecoded.spec_index() == 14,
        Op::Exit.spec_index() == 15,
        Op::PrintU64.spec_index() == 16,
        Op::Alloc.spec_index() == 17,
        Op::Realloc.spec_index() == 18,
        Op::Dealloc.spec_index() == 19,
        Op::Mov.spec_index() == 20,
        Op::LoadU64Immediate.spec_index() == 21,
        Op::Swap.spec_index() == 22,
        Op::AddU64.spec_index() == 23,
        Op::AddU64Immediate.spec_index() == 24,
        Op::AddI64.spec_index() == 25,
        Op::AddI64Immediate.spec_index() == 26,
        Op::SubU64.spec_index() == 27,
        Op::SubU64Immediate.spec_index() == 28,
        Op::SubI64.spec_index() == 29,
        Op::SubI64Immediate.spec_index() == 30,
        Op::MulU64.spec_index() == 31,
        Op::MulU64Immediate.spec_index() == 32,
        Op::MulI64.spec_index() == 33,
        Op::MulI64Immediate.spec_index() == 34,
        Op::DivU64.spec_index() == 35,
        Op::DivU64Immediate.spec_index() == 36,
        Op::DivI64.spec_index() == 37,
        Op::DivI64Immediate.spec_index() == 38,
        Op::Abs.spec_index() == 39,
        Op::ModI64.spec_index() == 40,
        Op::NegI64.spec_index() == 41,
        Op::U64ToF64.spec_index() == 42,
        Op::I64ToF64.spec_index() == 43,
        Op::AddF64.spec_index() == 44,
        Op::AddF64Immediate.spec_index() == 45,
        Op::SubF64.spec_index() == 46,
        Op::SubF64Immediate.spec_index() == 47,
        Op::MulF64.spec_index() == 48,
        Op::MulF64Immediate.spec_index() == 49,
        Op::DivF64.spec_index() == 50,
        Op::DivF64Immediate.spec_index() == 51,
        Op::AbsF64.spec_index() == 52,
        Op::NegF64.spec_index() == 53,
        Op::ToI64.spec_index() == 54,
        Op::AndU64.spec_index() == 55,
        Op::AndU64Immediate.spec_index() == 56,
        Op::OrU64.spec_index() == 57,
        Op::OrU64Immediate.spec_index() == 58,
        Op::XorU64.spec_index() == 59,
        Op::XorU64Immediate.spec_index() == 60,
        Op::NotU64.spec_index() == 61,
        Op::ShlU64.spec_index() == 62,
        Op::ShlU64Immediate.spec_index() == 63,
        Op::ShlI64.spec_index() == 64,
        Op::ShlI64Immediate.spec_index() == 65,
        Op::ShrU64.spec_index() == 66,
        Op::ShrU64Immediate.spec_index() == 67,
        Op::ShrI64.spec_index() == 68,
        Op::ShrI64Immediate.spec_index() == 69,
        Op::RolU64.spec_index() == 70,
        Op::RolU64Immediate.spec_index() == 71,
        Op::RorU64.spec_index() == 72,
        Op::RorU64Immediate.spec_index() == 73,
        Op::CountOnesU64.spec_index() == 74,
        Op::CountZerosU64.spec_index() == 75,
        Op::TrailingZerosU64.spec_index() == 76,
        Op::LoadU64.spec_index() == 77,
        Op::LoadU32.spec_index() == 78,
        Op::LoadU16.spec_index() == 79,
        Op::LoadU8.spec_index() == 80,
        Op::StoreU64.spec_index() == 81,
        Op::StoreU32.spec_index() == 82,
        Op::StoreU16.spec_index() == 83,
        Op::StoreU8.spec_index() == 84,
        Op::AtomicLoadU64.spec_index() == 85,
        Op::AtomicStoreU64.spec_index() == 86,
        Op::AtomicAddU64.spec_index() == 87,
        Op::AtomicSubU64.spec_index() == 88,
        Op::AtomicLoadU32.spec_index() == 89,
        Op::AtomicStoreU32.spec_index() == 90,
        Op::AtomicAddU32.spec_index() == 91,
        Op::AtomicSubU32.spec_index() == 92,
        Op::AtomicLoadU16.spec_index() == 93,
        Op::AtomicStoreU16.spec_index() == 94,
        Op::AtomicAddU16.spec_index() == 95,
        Op::AtomicSubU16.spec_index() == 96,
        Op::AtomicLoadU8.spec_index() == 97,
        Op::AtomicStoreU8.spec_index() == 98,
        Op::AtomicAddU8.spec_index() == 99,
        Op::AtomicSubU8.spec_index() == 100,
        Op::AtomicLoadI8.spec_index() == 101,
        Op::AtomicLoadI16.spec_index() == 102,
        Op::AtomicLoadI32.spec_index() == 103,
        Op::AtomicLoadI64.spec_index() == 104,
        Op::AtomicStoreI8.spec_index() == 105,
        Op::AtomicStoreI16.spec_index() == 106,
        Op::AtomicStoreI32.spec_index() == 107,
        Op::AtomicStoreI64.spec_index() == 108,
        Op::AtomicAddI8.spec_index() == 109,
        Op::AtomicAddI16.spec_index() == 110,
        Op::AtomicAddI32.spec_index() == 111,
        Op::AtomicAddI64.spec_index() == 112,
        Op::AtomicSubI8.spec_index() == 113,
        Op::AtomicSubI16.spec_index() == 114,
        Op::AtomicSubI32.spec_index() == 115,
        Op::AtomicSubI64.spec_index() == 116,
        Op::LoadI8.spec_index() == 117,
        Op::LoadI16.spec_index() == 118,
        Op::LoadI32.spec_index() == 119,
        Op::LoadI64.spec_index() == 120,
        Op::StoreI8.spec_index() == 121,
        Op::StoreI16.spec_index() == 122,
        Op::StoreI32.spec_index() == 123,
        Op::StoreI64.spec_index() == 124,
        Op::MemoryCopy.spec_index() == 125,
        Op::CallThread.spec_index() == 126,
        Op::SetIo.spec_index() == 127,
        Op::WaitIo.spec_index() == 128,
        Op::GetAnIo.spec_index() == 129,
{
}

/// The byte `i` (little-endian) of a word.
pub open spec fn byte_at(w: u64, i: u64) -> u8 {
    ((w >> (8 * i)) & 0xff) as u8
}

/// A decoded instruction word. The first word of an instruction holds the
/// number of its handler (`Op::index`), the words after it its operands.
#[derive(Clone, Copy, PartialEq, Eq, Debug)]
pub struct Instruction {
    pub code: u64,
}

impl Instruction {
    /// A one-word instruction.
    pub fn new_1w_op(op: Op) -> (r: Instruction)
        ensures
            r.code == op.spec_index(),
    {
        Instruction { code: op.index() }
    }

    /// A two-word instruction: handler, then one operand.
    pub fn new_2w_op(op: Op, ol: u64) -> (r: [Instruction; 2])
        ensures
            r@ == seq![Instruction { code: op.spec_index() }, Instruction { code: ol }],
    {
        [Instruction { code: op.index() }, Instruction { code: ol }]
    }

    /// A three-word instruction: handler, then two operands.
    pub fn new_3w_op(op: Op, ol: u64, oh: u64) -> (r: [Instruction; 3])
        ensures
            r@ == seq![
                Instruction { code: op.spec_index() },
                Instruction { code: ol },
                Instruction { code: oh },
            ],
    {
        [Instruction { code: op.index() }, Instruction { code: ol }, Instruction { code: oh }]
    }

    /// The handler the word names, if it names one.
    pub fn as_fn(&self) -> (r: Option<Op>)
        ensures
            r == Op::spec_from_index(self.code),
    {
        Op::from_index(self.code)
    }

    /// The word as eight little-endian bytes (packed register indices).
    pub fn as_ol(&self) -> (r: [u8; 8])
        ensures
            forall|i: u64| i < 8 ==> r@[i as int] == byte_at(self.code, i),
    {
        let w = self.code;
        let r = [
            (w & 0xff) as u8,
            ((w >> 8) & 0xff) as u8,
            ((w >> 16) & 0xff) as u8,
            ((w >> 24) & 0xff) as u8,
            ((w >> 32) & 0xff) as u8,
            ((w >> 40) & 0xff) as u8,
            ((w >> 48) & 0xff) as u8,
            ((w >> 56) & 0xff) as u8,
        ];
        assert(w == w >> 0) by (bit_vector);
        assert forall|i: u64| i < 8 implies r@[i as int] == byte_at(w, i) by {
            if i == 0 {
            } else if i == 1 {
            } else if i == 2 {
            } else if i == 3 {
            } else if i == 4 {
            } else if i == 5 {
            } else if i == 6 {
            } else {
            }
        }
        r
    }

    /// The word as an immediate value.
    pub fn as_imm(&self) -> (r: u64)
        ensures
            r == self.code,
    {
        self.code
    }
}

} // verus!
