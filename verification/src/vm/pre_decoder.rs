//! The pre-decoder: assembler text to decoded functions (instruction words).
//!
//! Source is a list of function blocks. A line that holds a name alone starts
//! a function; `MAIN` is the entry and comes first in the result. Other lines
//! hold an opcode and its operand tokens, optionally after `LABEL:` markers.
//! `;` starts a comment. Names, labels and opcodes are case-insensitive.
use vstd::prelude::*;

use crate::lang::compiler::{dec_nat, push_dec};
use crate::text::{
    append_str,
    chars_eq, chars_to_string, text_is, find_char, slice_vec, split_words, str_to_chars, trim, trim_chars,
    lines, split_lines, texts_view, upper_chars, upper_seq, words, lemma_find_char, lines_from,
};
use crate::vm::function::Function;
use crate::vm::instruction::{byte_at, Instruction, Op, OperandPlan, OP_COUNT};
use crate::vm::numeric::{
    is_register_spec, is_register_token, parse_numeric, parse_register, spec_parse_numeric,
    spec_parse_register,
};

verus! {

/// The pre-decoder (it holds no state).
pub struct PreDecoder;

/// An entry of the opcode table: the handler and its operand plan.
#[derive(Clone, Debug)]
pub struct OpcodeSpec {
    pub handler: Op,
    pub operands: Vec<OperandPlan>,
}

impl OpcodeSpec {
    pub fn new(handler: Op, operands: Vec<OperandPlan>) -> (r: Self)
        ensures
            r.handler == handler,
            r.operands@ == operands@,
    {
        OpcodeSpec { handler, operands }
    }

    /// Fewest operand tokens the opcode takes.
    pub fn min_tokens(&self) -> (r: usize)
        requires
            self.operands@.len() <= 2,
        ensures
            r == sum_min(self.operands@),
    {
        let mut total: usize = 0;
        let mut i: usize = 0;
        while i < self.operands.len()
            invariant
                i <= self.operands@.len() <= 2,
                total == sum_min(self.operands@.take(i as int)),
                total <= i,
            decreases self.operands@.len() - i,
        {
            assert(self.operands@.take(i + 1).drop_last() =~= self.operands@.take(i as int));
            total = total + self.operands[i].min_tokens();
            i = i + 1;
        }
        assert(self.operands@.take(i as int) =~= self.operands@);
        total
    }

    /// Most operand tokens the opcode takes.
    pub fn max_tokens(&self) -> (r: usize)
        requires
            self.operands@.len() <= 2,
        ensures
            r == sum_max(self.operands@),
    {
        let mut total: usize = 0;
        let mut i: usize = 0;
        while i < self.operands.len()
            invariant
                i <= self.operands@.len() <= 2,
                total == sum_max(self.operands@.take(i as int)),
                total <= 255 * i,
            decreases self.operands@.len() - i,
        {
            assert(self.operands@.take(i + 1).drop_last() =~= self.operands@.take(i as int));
            total = total + self.operands[i].max_tokens();
            i = i + 1;
        }
        assert(self.operands@.take(i as int) =~= self.operands@);
        total
    }
}

pub open spec fn sum_min(plans: Seq<OperandPlan>) -> nat
    decreases plans.len(),
{
    if plans.len() == 0 {
        0
    } else {
        sum_min(plans.drop_last()) + plans.last().spec_min_tokens()
    }
}

pub open spec fn sum_max(plans: Seq<OperandPlan>) -> nat
    decreases plans.len(),
{
    if plans.len() == 0 {
        0
    } else {
        sum_max(plans.drop_last()) + plans.last().spec_max_tokens()
    }
}

/// Errors of the pre-decoder; `line` counts from 1.
#[derive(Debug)]
pub enum PreDecodeError {
    MissingMain,
    DuplicateFunction { name: String, line: usize },
    DuplicateLabel { name: String, line: usize },
    LabelOutsideFunction { name: String, line: usize },
    UnknownLabel { name: String, line: usize },
    InstructionOutsideFunction { opcode: String, line: usize },
    UnknownOpcode { name: String, line: usize },
    TooManyArguments { opcode: String, provided: usize, allowed: usize, line: usize },
    NotEnoughArguments { opcode: String, expected: usize, line: usize },
    NotEnoughPackedRegisters { opcode: String, expected: usize, line: usize },
    ParseValue { token: String, line: usize },
    UnknownFunction { name: String, line: usize },
    UnexpectedLabel { opcode: String, label: String, line: usize },
    ExpectedRegister { token: String, line: usize },
    RegisterOutOfRange { token: String, line: usize },
}

/// `PreDecodeError` with its texts as char sequences.
pub enum SpecDecodeError {
    MissingMain,
    DuplicateFunction { name: Seq<char>, line: nat },
    DuplicateLabel { name: Seq<char>, line: nat },
    LabelOutsideFunction { name: Seq<char>, line: nat },
    UnknownLabel { name: Seq<char>, line: nat },
    InstructionOutsideFunction { opcode: Seq<char>, line: nat },
    UnknownOpcode { name: Seq<char>, line: nat },
    TooManyArguments { opcode: Seq<char>, provided: nat, allowed: nat, line: nat },
    NotEnoughArguments { opcode: Seq<char>, expected: nat, line: nat },
    NotEnoughPackedRegisters { opcode: Seq<char>, expected: nat, line: nat },
    ParseValue { token: Seq<char>, line: nat },
    UnknownFunction { name: Seq<char>, line: nat },
    UnexpectedLabel { opcode: Seq<char>, label: Seq<char>, line: nat },
    ExpectedRegister { token: Seq<char>, line: nat },
    RegisterOutOfRange { token: Seq<char>, line: nat },
}

/// The message of an error, as `Display` writes it.
pub open spec fn error_text(e: SpecDecodeError) -> Seq<char> {
    match e {
        SpecDecodeError::DuplicateLabel { name, line } => "label '"@ + name + "' defined multiple times (line "@ + dec_nat(line) + ")"@,
        SpecDecodeError::LabelOutsideFunction { name, line } => "label '"@ + name + "' appears outside any function (line "@ + dec_nat(line) + ")"@,
        SpecDecodeError::UnknownLabel { name, line } => "label '"@ + name + "' is not defined in this function (line "@ + dec_nat(line) + ")"@,
        SpecDecodeError::MissingMain => "MAIN function is required"@,
        SpecDecodeError::DuplicateFunction { name, line } => "function '"@ + name + "' defined multiple times (line "@ + dec_nat(line) + ")"@,
        SpecDecodeError::InstructionOutsideFunction { opcode, line } => "instruction '"@ + opcode + "' appears before any function definition (line "@ + dec_nat(line) + ")"@,
        SpecDecodeError::UnknownOpcode { name, line } => "unknown opcode '"@ + name + "' at line "@ + dec_nat(line),
        SpecDecodeError::TooManyArguments { opcode, provided, allowed, line } => "opcode '"@ + opcode + "' accepts at most "@ + dec_nat(allowed) + " operand token(s) but "@ + dec_nat(provided) + " were provided (line "@ + dec_nat(line) + ")"@,
        SpecDecodeError::NotEnoughArguments { opcode, expected, line } => "opcode '"@ + opcode + "' expects at least "@ + dec_nat(expected) + " operand token(s) (line "@ + dec_nat(line) + ")"@,
        SpecDecodeError::NotEnoughPackedRegisters { opcode, expected, line } => "opcode '"@ + opcode + "' expects "@ + dec_nat(expected) + " register operand(s) for the packed field (line "@ + dec_nat(line) + ")"@,
        SpecDecodeError::ParseValue { token, line } => "failed to parse '"@ + token + "' as numeric literal (line "@ + dec_nat(line) + ")"@,
        SpecDecodeError::UnknownFunction { name, line } => "referenced function '"@ + name + "' is not defined (line "@ + dec_nat(line) + ")"@,
        SpecDecodeError::UnexpectedLabel { opcode, label, line } => "opcode '"@ + opcode + "' does not accept label '"@ + label + "' (line "@ + dec_nat(line) + ")"@,
        SpecDecodeError::ExpectedRegister { token, line } => "'"@ + token + "' should be a register (rN) or 8-bit value when expanding packed operands (line "@ + dec_nat(line) + ")"@,
        SpecDecodeError::RegisterOutOfRange { token, line } => "register value '"@ + token + "' must fit in 8 bits for packed operands (line "@ + dec_nat(line) + ")"@,
    }
}

impl PreDecodeError {
    /// The message of the error (what `Display` writes for it).
    pub fn to_string(&self) -> (r: String)
        ensures
            r@ == error_text(self@),
    {
        let mut v: Vec<char> = Vec::new();
        match self {
            PreDecodeError::DuplicateLabel { name, line } => {
                append_str(&mut v, "label '");
                append_str(&mut v, name.as_str());
                append_str(&mut v, "' defined multiple times (line ");
                push_dec(&mut v, *line as u64);
                append_str(&mut v, ")");
            },
            PreDecodeError::LabelOutsideFunction { name, line } => {
                append_str(&mut v, "label '");
                append_str(&mut v, name.as_str());
                append_str(&mut v, "' appears outside any function (line ");
                push_dec(&mut v, *line as u64);
                append_str(&mut v, ")");
            },
            PreDecodeError::UnknownLabel { name, line } => {
                append_str(&mut v, "label '");
                append_str(&mut v, name.as_str());
                append_str(&mut v, "' is not defined in this function (line ");
                push_dec(&mut v, *line as u64);
                append_str(&mut v, ")");
            },
            PreDecodeError::MissingMain => {
                append_str(&mut v, "MAIN function is required");
            },
            PreDecodeError::DuplicateFunction { name, line } => {
                append_str(&mut v, "function '");
                append_str(&mut v, name.as_str());
                append_str(&mut v, "' defined multiple times (line ");
                push_dec(&mut v, *line as u64);
                append_str(&mut v, ")");
            },
            PreDecodeError::InstructionOutsideFunction { opcode, line } => {
                append_str(&mut v, "instruction '");
                append_str(&mut v, opcode.as_str());
                append_str(&mut v, "' appears before any function definition (line ");
                push_dec(&mut v, *line as u64);
                append_str(&mut v, ")");
            },
            PreDecodeError::UnknownOpcode { name, line } => {
                append_str(&mut v, "unknown opcode '");
                append_str(&mut v, name.as_str());
                append_str(&mut v, "' at line ");
                push_dec(&mut v, *line as u64);
            },
            PreDecodeError::TooManyArguments { opcode, provided, allowed, line } => {
                append_str(&mut v, "opcode '");
                append_str(&mut v, opcode.as_str());
                append_str(&mut v, "' accepts at most ");
                push_dec(&mut v, *allowed as u64);
                append_str(&mut v, " operand token(s) but ");
                push_dec(&mut v, *provided as u64);
                append_str(&mut v, " were provided (line ");
                push_dec(&mut v, *line as u64);
                append_str(&mut v, ")");
            },
            PreDecodeError::NotEnoughArguments { opcode, expected, line } => {
                append_str(&mut v, "opcode '");
                append_str(&mut v, opcode.as_str());
                append_str(&mut v, "' expects at least ");
                push_dec(&mut v, *expected as u64);
                append_str(&mut v, " operand token(s) (line ");
                push_dec(&mut v, *line as u64);
                append_str(&mut v, ")");
            },
            PreDecodeError::NotEnoughPackedRegisters { opcode, expected, line } => {
                append_str(&mut v, "opcode '");
                append_str(&mut v, opcode.as_str());
                append_str(&mut v, "' expects ");
                push_dec(&mut v, *expected as u64);
                append_str(&mut v, " register operand(s) for the packed field (line ");
                push_dec(&mut v, *line as u64);
                append_str(&mut v, ")");
            },
            PreDecodeError::ParseValue { token, line } => {
                append_str(&mut v, "failed to parse '");
                append_str(&mut v, token.as_str());
                append_str(&mut v, "' as numeric literal (line ");
                push_dec(&mut v, *line as u64);
                append_str(&mut v, ")");
            },
            PreDecodeError::UnknownFunction { name, line } => {
                append_str(&mut v, "referenced function '");
                append_str(&mut v, name.as_str());
                append_str(&mut v, "' is not defined (line ");
                push_dec(&mut v, *line as u64);
                append_str(&mut v, ")");
            },
            PreDecodeError::UnexpectedLabel { opcode, label, line } => {
                append_str(&mut v, "opcode '");
                append_str(&mut v, opcode.as_str());
                append_str(&mut v, "' does not accept label '");
                append_str(&mut v, label.as_str());
                append_str(&mut v, "' (line ");
                push_dec(&mut v, *line as u64);
                append_str(&mut v, ")");
            },
            PreDecodeError::ExpectedRegister { token, line } => {
                append_str(&mut v, "'");
                append_str(&mut v, token.as_str());
                append_str(&mut v, "' should be a register (rN) or 8-bit value when expanding packed operands (line ");
                push_dec(&mut v, *line as u64);
                append_str(&mut v, ")");
            },
            PreDecodeError::RegisterOutOfRange { token, line } => {
                append_str(&mut v, "register value '");
                append_str(&mut v, token.as_str());
                append_str(&mut v, "' must fit in 8 bits for packed operands (line ");
                push_dec(&mut v, *line as u64);
                append_str(&mut v, ")");
            },
        }
        chars_to_string(v.as_slice())
    }
}

impl View for PreDecodeError {
    type V = SpecDecodeError;

    open spec fn view(&self) -> SpecDecodeError {
        match self {
            PreDecodeError::MissingMain => SpecDecodeError::MissingMain,
            PreDecodeError::DuplicateFunction { name, line } => SpecDecodeError::DuplicateFunction {
                name: name@,
                line: *line as nat,
            },
            PreDecodeError::DuplicateLabel { name, line } => SpecDecodeError::DuplicateLabel {
                name: name@,
                line: *line as nat,
            },
            PreDecodeError::LabelOutsideFunction { name, line } =>
                SpecDecodeError::LabelOutsideFunction { name: name@, line: *line as nat },
            PreDecodeError::UnknownLabel { name, line } => SpecDecodeError::UnknownLabel {
                name: name@,
                line: *line as nat,
            },
            PreDecodeError::InstructionOutsideFunction { opcode, line } =>
                SpecDecodeError::InstructionOutsideFunction { opcode: opcode@, line: *line as nat },
            PreDecodeError::UnknownOpcode { name, line } => SpecDecodeError::UnknownOpcode {
                name: name@,
                line: *line as nat,
            },
            PreDecodeError::TooManyArguments { opcode, provided, allowed, line } =>
                SpecDecodeError::TooManyArguments {
                opcode: opcode@,
                provided: *provided as nat,
                allowed: *allowed as nat,
                line: *line as nat,
            },
            PreDecodeError::NotEnoughArguments { opcode, expected, line } =>
                SpecDecodeError::NotEnoughArguments {
                opcode: opcode@,
                expected: *expected as nat,
                line: *line as nat,
            },
            PreDecodeError::NotEnoughPackedRegisters { opcode, expected, line } =>
                SpecDecodeError::NotEnoughPackedRegisters {
                opcode: opcode@,
                expected: *expected as nat,
                line: *line as nat,
            },
            PreDecodeError::ParseValue { token, line } => SpecDecodeError::ParseValue {
                token: token@,
                line: *line as nat,
            },
            PreDecodeError::UnknownFunction { name, line } => SpecDecodeError::UnknownFunction {
                name: name@,
                line: *line as nat,
            },
            PreDecodeError::UnexpectedLabel { opcode, label, line } =>
                SpecDecodeError::UnexpectedLabel {
                opcode: opcode@,
                label: label@,
                line: *line as nat,
            },
            PreDecodeError::ExpectedRegister { token, line } => SpecDecodeError::ExpectedRegister {
                token: token@,
                line: *line as nat,
            },
            PreDecodeError::RegisterOutOfRange { token, line } =>
                SpecDecodeError::RegisterOutOfRange { token: token@, line: *line as nat },
        }
    }
}

/// An operand before resolution.
#[derive(Clone, Debug)]
pub enum Arg {
    Value(u64),
    Label(Vec<char>),
}

pub enum SpecArg {
    Value(u64),
    Label(Seq<char>),
}

impl View for Arg {
    type V = SpecArg;

    open spec fn view(&self) -> SpecArg {
        match self {
            Arg::Value(v) => SpecArg::Value(*v),
            Arg::Label(l) => SpecArg::Label(l@),
        }
    }
}

// ---------------------------------------------------------------------------
// Tokens
// ---------------------------------------------------------------------------
/// `parse_register_index`: a register token or a number, fitting in 8 bits.
pub open spec fn spec_register_index(token: Seq<char>, line: nat) -> Result<u8, SpecDecodeError> {
    match spec_parse_register(token) {
        Some(v) => if v <= 255 {
            Ok(v as u8)
        } else {
            Err(SpecDecodeError::RegisterOutOfRange { token, line })
        },
        None => match spec_parse_numeric(token) {
            None => Err(SpecDecodeError::ExpectedRegister { token, line }),
            Some(v) => if v > 255 {
                Err(SpecDecodeError::RegisterOutOfRange { token, line })
            } else {
                Ok(v as u8)
            },
        },
    }
}

/// `parse_arg`: a register, else a number, else a label (never empty).
pub open spec fn spec_parse_arg(token: Seq<char>, line: nat) -> Result<SpecArg, SpecDecodeError> {
    match spec_parse_register(token) {
        Some(v) => Ok(SpecArg::Value(v)),
        None => match spec_parse_numeric(token) {
            Some(v) => Ok(SpecArg::Value(v)),
            None => if token.len() == 0 {
                Err(SpecDecodeError::ParseValue { token, line })
            } else {
                Ok(SpecArg::Label(token))
            },
        },
    }
}

/// The bytes of `w`, least significant first, are `regs` and then zeros.
pub open spec fn packed_bytes(w: u64, regs: Seq<u8>) -> bool {
    forall|i: u64|
        i < 8 ==> #[trigger] byte_at(w, i) == (if (i as int) < regs.len() {
            regs[i as int]
        } else {
            0u8
        })
}

/// The word that packs `regs` one byte each (`pack_registers`).
pub open spec fn spec_pack(regs: Seq<u8>) -> u64 {
    choose|w: u64| packed_bytes(w, regs)
}

pub proof fn lemma_bytes_determine(a: u64, b: u64)
    requires
        byte_at(a, 0) == byte_at(b, 0),
        byte_at(a, 1) == byte_at(b, 1),
        byte_at(a, 2) == byte_at(b, 2),
        byte_at(a, 3) == byte_at(b, 3),
        byte_at(a, 4) == byte_at(b, 4),
        byte_at(a, 5) == byte_at(b, 5),
        byte_at(a, 6) == byte_at(b, 6),
        byte_at(a, 7) == byte_at(b, 7),
    ensures
        a == b,
{
    assert(((a >> 0) & 0xff) as u8 == ((b >> 0) & 0xff) as u8 && ((a >> 8) & 0xff) as u8 == ((b
        >> 8) & 0xff) as u8 && ((a >> 16) & 0xff) as u8 == ((b >> 16) & 0xff) as u8 && ((a >> 24)
        & 0xff) as u8 == ((b >> 24) & 0xff) as u8 && ((a >> 32) & 0xff) as u8 == ((b >> 32) & 0xff)
        as u8 && ((a >> 40) & 0xff) as u8 == ((b >> 40) & 0xff) as u8 && ((a >> 48) & 0xff) as u8
        == ((b >> 48) & 0xff) as u8 && ((a >> 56) & 0xff) as u8 == ((b >> 56) & 0xff) as u8 ==> a
        == b) by (bit_vector);
}

proof fn lemma_or_byte(acc: u64, r: u8, k: u64, i: u64)
    requires
        k < 8,
        i < 8,
    ensures
        byte_at(acc | ((r as u64) << (8 * k)), i) == (if i == k {
            byte_at(acc, i) | r
        } else {
            byte_at(acc, i)
        }),
{
    assert(((((acc | ((r as u64) << (8 * k))) >> (8 * i)) & 0xff) as u8) == (if i == k {
        (((acc >> (8 * i)) & 0xff) as u8) | r
    } else {
        ((acc >> (8 * i)) & 0xff) as u8
    })) by (bit_vector)
        requires
            k < 8,
            i < 8,
    ;
}

/// `pack_registers`: register indices packed one byte each, first in the
/// lowest byte.
pub fn pack_registers(regs: &[u8]) -> (r: u64)
    requires
        regs@.len() <= 8,
    ensures
        packed_bytes(r, regs@),
        r == spec_pack(regs@),
{
    let mut acc: u64 = 0;
    let mut k: usize = 0;
    assert forall|i: u64| i < 8 implies byte_at(0u64, i) == 0u8 by {
        assert(((0u64 >> (8 * i)) & 0xff) as u8 == 0u8) by (bit_vector);
    }
    while k < regs.len()
        invariant
            k <= regs@.len() <= 8,
            forall|i: u64|
                i < 8 ==> #[trigger] byte_at(acc, i) == (if (i as int) < k {
                    regs@[i as int]
                } else {
                    0u8
                }),
        decreases regs@.len() - k,
    {
        let reg = regs[k];
        let ghost old_acc = acc;
        acc = acc | ((reg as u64) << (8 * k as u64));
        proof {
            assert forall|i: u64| i < 8 implies #[trigger] byte_at(acc, i) == (if (i as int) < k
                + 1 {
                regs@[i as int]
            } else {
                0u8
            }) by {
                lemma_or_byte(old_acc, reg, k as u64, i);
                if i == k as u64 {
                    assert(0u8 | reg == reg) by (bit_vector);
                }
            }
        }
        k = k + 1;
    }
    proof {
        let w = spec_pack(regs@);
        assert(packed_bytes(acc, regs@));
        assert(packed_bytes(w, regs@));
        assert(byte_at(w, 0) == byte_at(acc, 0));
        assert(byte_at(w, 1) == byte_at(acc, 1));
        assert(byte_at(w, 2) == byte_at(acc, 2));
        assert(byte_at(w, 3) == byte_at(acc, 3));
        assert(byte_at(w, 4) == byte_at(acc, 4));
        assert(byte_at(w, 5) == byte_at(acc, 5));
        assert(byte_at(w, 6) == byte_at(acc, 6));
        assert(byte_at(w, 7) == byte_at(acc, 7));
        lemma_bytes_determine(w, acc);
    }
    acc
}

/// `String` of a token for an error.
fn text_of(s: &[char]) -> (r: String)
    ensures
        r@ == s@,
{
    chars_to_string(s)
}

/// `parse_register_index` (see `spec_register_index`).
pub fn parse_register_index(token: &[char], line: usize) -> (r: Result<u8, PreDecodeError>)
    ensures
        match r {
            Ok(v) => spec_register_index(token@, line as nat) == Ok::<u8, SpecDecodeError>(v),
            Err(e) => spec_register_index(token@, line as nat) == Err::<u8, SpecDecodeError>(e@),
        },
{
    if let Some(value) = parse_register(token) {
        if value <= 255 {
            return Ok(value as u8);
        }
        return Err(PreDecodeError::RegisterOutOfRange { token: text_of(token), line });
    }
    match parse_numeric(token) {
        Err(_) => Err(PreDecodeError::ExpectedRegister { token: text_of(token), line }),
        Ok(value) => {
            if value > 255 {
                Err(PreDecodeError::RegisterOutOfRange { token: text_of(token), line })
            } else {
                Ok(value as u8)
            }
        },
    }
}

/// `parse_arg` (see `spec_parse_arg`).
pub fn parse_arg(token: &[char], line: usize) -> (r: Result<Arg, PreDecodeError>)
    ensures
        match r {
            Ok(a) => spec_parse_arg(token@, line as nat) == Ok::<SpecArg, SpecDecodeError>(a@),
            Err(e) => spec_parse_arg(token@, line as nat) == Err::<SpecArg, SpecDecodeError>(e@),
        },
{
    if let Some(value) = parse_register(token) {
        return Ok(Arg::Value(value));
    }
    match parse_numeric(token) {
        Ok(value) => Ok(Arg::Value(value)),
        Err(_) => {
            if token.len() == 0 {
                Err(PreDecodeError::ParseValue { token: text_of(token), line })
            } else {
                let l = slice_vec(token, 0, token.len());
                assert(l@ =~= token@);
                Ok(Arg::Label(l))
            }
        },
    }
}

/// Index of the first of `count` tokens from `cursor + idx` that is no
/// register index (or `count`).
pub open spec fn first_bad_register(
    toks: Seq<Seq<char>>,
    cursor: int,
    count: int,
    idx: int,
    line: nat,
) -> int
    decreases count - idx,
{
    if idx >= count {
        count
    } else if spec_register_index(toks[cursor + idx], line) is Err {
        idx
    } else {
        first_bad_register(toks, cursor, count, idx + 1, line)
    }
}

pub open spec fn register_list(toks: Seq<Seq<char>>, cursor: int, count: int, line: nat) -> Seq<u8> {
    Seq::new(
        count as nat,
        |i: int|
            match spec_register_index(toks[cursor + i], line) {
                Ok(v) => v,
                Err(_) => 0u8,
            },
    )
}

/// `parse_packed_operand`: `count` register tokens packed into one word; a
/// first token that is a number and no `rN` is one immediate value in their
/// place. The result and the cursor after it.
pub open spec fn spec_packed_operand(
    opcode: Seq<char>,
    toks: Seq<Seq<char>>,
    cursor: int,
    count: nat,
    line: nat,
) -> Result<(SpecArg, int), SpecDecodeError> {
    if cursor >= toks.len() {
        Err(SpecDecodeError::NotEnoughPackedRegisters { opcode, expected: count, line })
    } else if spec_parse_register(toks[cursor]) is None && spec_parse_numeric(toks[cursor]) is Some {
        Ok((SpecArg::Value(spec_parse_numeric(toks[cursor]).unwrap()), cursor + 1))
    } else if toks.len() - cursor >= count {
        let f = first_bad_register(toks, cursor, count as int, 0, line);
        if f >= count {
            Ok((SpecArg::Value(spec_pack(register_list(toks, cursor, count as int, line))), cursor + count))
        } else {
            Err(spec_register_index(toks[cursor + f], line)->Err_0)
        }
    } else if is_register_spec(toks[cursor]) {
        Err(SpecDecodeError::NotEnoughPackedRegisters { opcode, expected: count, line })
    } else {
        match spec_parse_numeric(toks[cursor]) {
            Some(v) => Ok((SpecArg::Value(v), cursor + 1)),
            None => Err(SpecDecodeError::ParseValue { token: toks[cursor], line }),
        }
    }
}

proof fn lemma_first_bad(toks: Seq<Seq<char>>, cursor: int, count: int, idx: int, line: nat)
    requires
        0 <= idx <= count,
    ensures
        idx <= first_bad_register(toks, cursor, count, idx, line) <= count,
        forall|k: int|
            idx <= k < first_bad_register(toks, cursor, count, idx, line) ==> spec_register_index(
                #[trigger] toks[cursor + k],
                line,
            ) is Ok,
        first_bad_register(toks, cursor, count, idx, line) < count ==> spec_register_index(
            toks[cursor + first_bad_register(toks, cursor, count, idx, line)],
            line,
        ) is Err,
    decreases count - idx,
{
    if idx < count && spec_register_index(toks[cursor + idx], line) is Ok {
        lemma_first_bad(toks, cursor, count, idx + 1, line);
    }
}

/// Views of a list of tokens.
pub open spec fn tokens_view(toks: Seq<Vec<char>>) -> Seq<Seq<char>> {
    texts_view(toks)
}

/// `parse_packed_operand` (see `spec_packed_operand`); the cursor moves only
/// on success.
pub fn parse_packed_operand(
    opcode: &[char],
    tokens: &Vec<Vec<char>>,
    cursor: &mut usize,
    count: u8,
    line: usize,
) -> (r: Result<Arg, PreDecodeError>)
    requires
        count <= 8,
        *old(cursor) <= tokens@.len(),
    ensures
        match r {
            Ok(a) => spec_packed_operand(
                opcode@,
                tokens_view(tokens@),
                *old(cursor) as int,
                count as nat,
                line as nat,
            ) == Ok::<(SpecArg, int), SpecDecodeError>((a@, *final(cursor) as int)),
            Err(e) => spec_packed_operand(
                opcode@,
                tokens_view(tokens@),
                *old(cursor) as int,
                count as nat,
                line as nat,
            ) == Err::<(SpecArg, int), SpecDecodeError>(e@) && *final(cursor) == *old(cursor),
        },
        *final(cursor) <= tokens@.len(),
{
    let ghost toks = tokens_view(tokens@);
    let c = *cursor;
    if c >= tokens.len() {
        return Err(
            PreDecodeError::NotEnoughPackedRegisters {
                opcode: text_of(opcode),
                expected: count as usize,
                line,
            },
        );
    }
    let first = &tokens[c];
    assert(toks[c as int] == first@);
    if parse_register(first.as_slice()).is_none() {
        if let Ok(value) = parse_numeric(first.as_slice()) {
            *cursor = c + 1;
            return Ok(Arg::Value(value));
        }
    }
    let n = tokens.len();
    let remaining = n - c;
    if remaining >= count as usize {
        let mut regs: Vec<u8> = Vec::new();
        let mut idx: usize = 0;
        while idx < count as usize
            invariant
                toks == tokens_view(tokens@),
                toks.len() == tokens@.len(),
                n == tokens@.len(),
                *cursor == c,
                *old(cursor) == c,
                !(spec_parse_register(toks[c as int]) is None && spec_parse_numeric(toks[c as int]) is Some),
                (c as int) + (count as int) <= tokens@.len(),
                idx <= count,
                regs@.len() == idx,
                first_bad_register(toks, c as int, count as int, 0, line as nat)
                    == first_bad_register(toks, c as int, count as int, idx as int, line as nat),
                forall|k: int|
                    0 <= k < idx ==> spec_register_index(#[trigger] toks[c + k], line as nat)
                        == Ok::<u8, SpecDecodeError>(regs@[k]),
            decreases count - idx,
        {
            assert(idx < count);
            assert((c as int) + (idx as int) < tokens@.len());
            let token = &tokens[c + idx];
            assert(toks[c + idx] == token@);
            match parse_register_index(token.as_slice(), line) {
                Ok(value) => {
                    regs.push(value);
                },
                Err(err) => {
                    proof {
                        assert(first_bad_register(toks, c as int, count as int, idx as int, line as nat) == idx);
                    }
                    return Err(err);
                },
            }
            idx = idx + 1;
        }
        proof {
            lemma_first_bad(toks, c as int, count as int, 0, line as nat);
            assert(regs@ =~= register_list(toks, c as int, count as int, line as nat));
        }
        *cursor = c + count as usize;
        return Ok(Arg::Value(pack_registers(regs.as_slice())));
    }
    let token = &tokens[c];
    assert(toks[c as int] == token@);
    if is_register_token(token.as_slice()) {
        return Err(
            PreDecodeError::NotEnoughPackedRegisters {
                opcode: text_of(opcode),
                expected: count as usize,
                line,
            },
        );
    }
    match parse_numeric(token.as_slice()) {
        Ok(value) => {
            *cursor = c + 1;
            Ok(Arg::Value(value))
        },
        Err(_) => Err(PreDecodeError::ParseValue { token: text_of(token.as_slice()), line }),
    }
}

// ---------------------------------------------------------------------------
// Opcode table
// ---------------------------------------------------------------------------
/// The first opcode from number `i` on whose name is `name`.
pub open spec fn lookup_from(name: Seq<char>, i: int) -> Option<Op>
    decreases OP_COUNT - i,
{
    if 0 <= i < OP_COUNT {
        match Op::spec_from_index(i as u64) {
            Some(op) => if op.spec_name() == name {
                Some(op)
            } else {
                lookup_from(name, i + 1)
            },
            None => None,
        }
    } else {
        None
    }
}

/// The opcode of a (upper-cased) name.
pub open spec fn spec_lookup(name: Seq<char>) -> Option<Op> {
    lookup_from(name, 0)
}

/// One entry of the opcode table.
#[derive(Clone, Debug)]
pub struct OpcodeEntry {
    pub name: Vec<char>,
    pub spec: OpcodeSpec,
}

/// The opcode table: entry `i` is the opcode numbered `i`, with its name and
/// operand plan.
pub fn opcode_table() -> (r: Vec<OpcodeEntry>)
    ensures
        r@.len() == OP_COUNT,
        forall|i: int|
            0 <= i < OP_COUNT ==> {
                let op = Op::spec_from_index(i as u64).unwrap();
                &&& Op::spec_from_index(i as u64) is Some
                &&& (#[trigger] r@[i]).name@ == op.spec_name()
                &&& r@[i].spec.handler == op
                &&& r@[i].spec.operands@ == op.spec_plans()
            },
{
    let mut table: Vec<OpcodeEntry> = Vec::new();
    let mut i: u64 = 0;
    while i < OP_COUNT
        invariant
            i <= OP_COUNT,
            table@.len() == i,
            forall|k: int|
                0 <= k < i ==> {
                    let op = Op::spec_from_index(k as u64).unwrap();
                    &&& Op::spec_from_index(k as u64) is Some
                    &&& (#[trigger] table@[k]).name@ == op.spec_name()
                    &&& table@[k].spec.handler == op
                    &&& table@[k].spec.operands@ == op.spec_plans()
                },
        decreases OP_COUNT - i,
    {
        proof {
            Op::lemma_from_index(i);
        }
        let op = Op::from_index(i).unwrap();
        let entry = OpcodeEntry { name: str_to_chars(op.name()), spec: OpcodeSpec::new(op, op.plans()) };
        table.push(entry);
        i = i + 1;
    }
    table
}

/// A copy of an operand plan list.
fn copy_plans(v: &Vec<OperandPlan>) -> (r: Vec<OperandPlan>)
    ensures
        r@ == v@,
{
    let mut r: Vec<OperandPlan> = Vec::new();
    let mut i: usize = 0;
    while i < v.len()
        invariant
            i <= v@.len(),
            r@ == v@.take(i as int),
        decreases v@.len() - i,
    {
        r.push(v[i]);
        i = i + 1;
        assert(r@ =~= v@.take(i as int));
    }
    assert(v@.take(i as int) =~= v@);
    r
}

/// The table entry of an opcode name (see `spec_lookup`).
pub fn lookup_opcode(table: &Vec<OpcodeEntry>, name: &[char]) -> (r: Option<OpcodeSpec>)
    requires
        table@.len() == OP_COUNT,
        forall|i: int|
            0 <= i < OP_COUNT ==> {
                let op = Op::spec_from_index(i as u64).unwrap();
                &&& Op::spec_from_index(i as u64) is Some
                &&& (#[trigger] table@[i]).name@ == op.spec_name()
                &&& table@[i].spec.handler == op
                &&& table@[i].spec.operands@ == op.spec_plans()
            },
    ensures
        match r {
            Some(sp) => spec_lookup(name@) == Some(sp.handler) && sp.operands@
                == sp.handler.spec_plans(),
            None => spec_lookup(name@) is None,
        },
{
    let mut i: usize = 0;
    while i < table.len()
        invariant
            table@.len() == OP_COUNT,
            forall|k: int|
                0 <= k < OP_COUNT ==> {
                    let op = Op::spec_from_index(k as u64).unwrap();
                    &&& Op::spec_from_index(k as u64) is Some
                    &&& (#[trigger] table@[k]).name@ == op.spec_name()
                    &&& table@[k].spec.handler == op
                    &&& table@[k].spec.operands@ == op.spec_plans()
                },
            i <= OP_COUNT,
            spec_lookup(name@) == lookup_from(name@, i as int),
        decreases OP_COUNT - i,
    {
        let entry = &table[i];
        assert(table@[i as int] == *entry);
        if chars_eq(entry.name.as_slice(), name) {
            return Some(OpcodeSpec::new(entry.spec.handler, copy_plans(&entry.spec.operands)));
        }
        i = i + 1;
    }
    None
}

// ---------------------------------------------------------------------------
// Parsed functions
// ---------------------------------------------------------------------------
/// First index at or after `i` where `x` stands in `s`.
pub open spec fn index_of<A>(s: Seq<A>, x: A, i: int) -> Option<nat>
    decreases s.len() - i,
{
    if 0 <= i < s.len() {
        if s[i] == x {
            Some(i as nat)
        } else {
            index_of(s, x, i + 1)
        }
    } else {
        None
    }
}

proof fn lemma_index_of<A>(s: Seq<A>, x: A, i: int)
    requires
        0 <= i,
    ensures
        index_of(s, x, i) matches Some(k) ==> i <= k < s.len() && s[k as int] == x,
    decreases s.len() - i,
{
    if 0 <= i < s.len() && s[i] != x {
        lemma_index_of(s, x, i + 1);
    }
}

pub open spec fn label_names(labels: Seq<(Seq<char>, nat)>) -> Seq<Seq<char>> {
    labels.map_values(|p: (Seq<char>, nat)| p.0)
}

/// The word offset of a label.
pub open spec fn find_label(labels: Seq<(Seq<char>, nat)>, name: Seq<char>) -> Option<nat> {
    match index_of(label_names(labels), name, 0) {
        Some(i) => Some(labels[i as int].1),
        None => None,
    }
}

pub struct SpecInstr {
    pub opcode: Seq<char>,
    pub handler: Op,
    pub args: Seq<SpecArg>,
    pub operand_count: nat,
    pub line: nat,
}

pub struct SpecFn {
    pub name: Seq<char>,
    pub instructions: Seq<SpecInstr>,
    pub labels: Seq<(Seq<char>, nat)>,
    pub word_offset: nat,
}

/// State of the pre-decoder between lines.
pub struct SpecState {
    pub functions: Seq<SpecFn>,
    pub current: Option<SpecFn>,
    pub names: Seq<Seq<char>>,
}

/// An instruction before its labels and function names are resolved.
#[derive(Debug)]
pub struct ParsedInstruction {
    pub opcode: Vec<char>,
    pub handler: Op,
    pub args: [Arg; 2],
    pub operand_count: usize,
    pub line: usize,
}

impl View for ParsedInstruction {
    type V = SpecInstr;

    open spec fn view(&self) -> SpecInstr {
        SpecInstr {
            opcode: self.opcode@,
            handler: self.handler,
            args: self.args@.map_values(|a: Arg| a@),
            operand_count: self.operand_count as nat,
            line: self.line as nat,
        }
    }
}

/// A function while its lines are read.
#[derive(Debug)]
pub struct ParsedFunction {
    pub name: Vec<char>,
    pub instructions: Vec<ParsedInstruction>,
    pub labels: Vec<(Vec<char>, usize)>,
    pub word_offset: usize,
}

impl View for ParsedFunction {
    type V = SpecFn;

    open spec fn view(&self) -> SpecFn {
        SpecFn {
            name: self.name@,
            instructions: self.instructions@.map_values(|i: ParsedInstruction| i@),
            labels: labels_view(self.labels@),
            word_offset: self.word_offset as nat,
        }
    }
}

pub open spec fn new_fn(name: Seq<char>) -> SpecFn {
    SpecFn { name, instructions: seq![], labels: seq![], word_offset: 0 }
}

/// Words of one instruction: `1 + operand_count`.
pub open spec fn word_len(ins: SpecInstr) -> nat {
    1 + ins.operand_count
}

/// Index of a text in a list of texts.
pub fn find_text(list: &Vec<Vec<char>>, x: &[char]) -> (r: Option<usize>)
    ensures
        r matches Some(i) ==> index_of(tokens_view(list@), x@, 0) == Some(i as nat),
        r is None ==> index_of(tokens_view(list@), x@, 0) is None,
{
    let ghost l = tokens_view(list@);
    let mut i: usize = 0;
    while i < list.len()
        invariant
            l == tokens_view(list@),
            i <= list@.len(),
            index_of(l, x@, 0) == index_of(l, x@, i as int),
        decreases list@.len() - i,
    {
        assert(l[i as int] == list@[i as int]@);
        if chars_eq(list[i].as_slice(), x) {
            return Some(i);
        }
        i = i + 1;
    }
    None
}

pub open spec fn labels_view(l: Seq<(Vec<char>, usize)>) -> Seq<(Seq<char>, nat)> {
    l.map_values(|p: (Vec<char>, usize)| (p.0@, p.1 as nat))
}

/// The word offset of a label (see `find_label`).
pub fn label_offset(labels: &Vec<(Vec<char>, usize)>, name: &[char]) -> (r: Option<usize>)
    ensures
        r matches Some(o) ==> find_label(labels_view(labels@), name@) == Some(o as nat),
        r is None ==> find_label(labels_view(labels@), name@) is None,
{
    let ghost ls = labels_view(labels@);
    let mut i: usize = 0;
    while i < labels.len()
        invariant
            ls == labels_view(labels@),
            i <= labels@.len(),
            index_of(label_names(ls), name@, 0) == index_of(label_names(ls), name@, i as int),
        decreases labels@.len() - i,
    {
        assert(label_names(ls)[i as int] == labels@[i as int].0@);
        if chars_eq(labels[i].0.as_slice(), name) {
            return Some(labels[i].1);
        }
        i = i + 1;
    }
    None
}

impl ParsedFunction {
    pub fn new(name: Vec<char>) -> (r: Self)
        ensures
            r@ == new_fn(name@),
    {
        let r = ParsedFunction {
            name,
            instructions: Vec::new(),
            labels: Vec::new(),
            word_offset: 0,
        };
        assert(r@.instructions =~= seq![]);
        assert(r@.labels =~= seq![]);
        r
    }

    /// Defines a label at the current word offset; fails on a second definition.
    pub fn add_label(&mut self, name: Vec<char>, line: usize) -> (r: Result<(), PreDecodeError>)
        ensures
            match find_label(old(self)@.labels, name@) {
                Some(_) => r is Err && r->Err_0@ == (SpecDecodeError::DuplicateLabel {
                    name: name@,
                    line: line as nat,
                }),
                None => r is Ok && final(self)@ == (SpecFn {
                    labels: old(self)@.labels.push((name@, old(self)@.word_offset)),
                    ..old(self)@
                }),
            },
    {
        if let Some(_) = label_offset(&self.labels, name.as_slice()) {
            return Err(PreDecodeError::DuplicateLabel { name: text_of(name.as_slice()), line });
        }
        let offset = self.word_offset;
        let ghost old_labels = self.labels@;
        self.labels.push((name, offset));
        proof {
            assert(self.labels@ == old_labels.push((name, offset)));
            assert(self@.labels =~= old(self)@.labels.push((name@, old(self)@.word_offset)));
            assert(self@.instructions =~= old(self)@.instructions);
        }
        Ok(())
    }

    /// Appends an instruction and moves the word offset past it.
    pub fn push_instruction(&mut self, instruction: ParsedInstruction)
        requires
            old(self).word_offset + 1 + instruction.operand_count <= usize::MAX,
        ensures
            final(self)@ == (SpecFn {
                instructions: old(self)@.instructions.push(instruction@),
                word_offset: old(self)@.word_offset + word_len(instruction@),
                ..old(self)@
            }),
    {
        self.word_offset = self.word_offset + instruction.word_len();
        let ghost iv = instruction@;
        self.instructions.push(instruction);
        proof {
            assert(self@.instructions =~= old(self)@.instructions.push(iv));
            assert(self@.labels =~= old(self)@.labels);
        }
    }
}

impl ParsedInstruction {
    /// Words the instruction takes.
    pub fn word_len(&self) -> (r: usize)
        requires
            self.operand_count < usize::MAX,
        ensures
            r == word_len(self@),
    {
        1 + self.operand_count
    }
}

// ---------------------------------------------------------------------------
// Lines
// ---------------------------------------------------------------------------
/// The code of a line: the text before `;`, trimmed.
pub open spec fn line_code(raw: Seq<char>) -> Seq<char> {
    trim(raw.subrange(0, find_char(raw, ';', 0)))
}

/// Reads the `LABEL:` markers that begin a line, from token `j` on: the
/// state with the labels defined and the index of the first other token.
pub open spec fn spec_labels(st: SpecState, toks: Seq<Seq<char>>, j: int, line: nat) -> Result<
    (SpecState, int),
    SpecDecodeError,
>
    decreases toks.len() - j,
{
    if j < 0 || j >= toks.len() {
        Ok((st, j))
    } else {
        let t = toks[j];
        if t.len() > 0 && t.last() == ':' {
            let label = upper_seq(t.drop_last());
            match st.current {
                None => Err(SpecDecodeError::LabelOutsideFunction { name: label, line }),
                Some(f) => if find_label(f.labels, label) is Some {
                    Err(SpecDecodeError::DuplicateLabel { name: label, line })
                } else {
                    spec_labels(
                        SpecState {
                            current: Some(
                                SpecFn { labels: f.labels.push((label, f.word_offset)), ..f },
                            ),
                            ..st
                        },
                        toks,
                        j + 1,
                        line,
                    )
                },
            }
        } else {
            Ok((st, j))
        }
    }
}

/// Starts the function `name` (the current one, if any, is done).
pub open spec fn spec_start_function(st: SpecState, name: Seq<char>, line: nat) -> Result<
    SpecState,
    SpecDecodeError,
> {
    if index_of(st.names, name, 0) is Some {
        Err(SpecDecodeError::DuplicateFunction { name, line })
    } else {
        Ok(
            SpecState {
                functions: match st.current {
                    Some(f) => st.functions.push(f),
                    None => st.functions,
                },
                current: Some(new_fn(name)),
                names: st.names.push(name),
            },
        )
    }
}

pub open spec fn upper_label(a: SpecArg) -> SpecArg {
    match a {
        SpecArg::Label(l) => SpecArg::Label(upper_seq(l)),
        SpecArg::Value(v) => SpecArg::Value(v),
    }
}

/// Reads the operands of plan `k` on, from token `cursor` on, after `acc`.
pub open spec fn spec_operands(
    opcode: Seq<char>,
    plans: Seq<OperandPlan>,
    toks: Seq<Seq<char>>,
    k: int,
    cursor: int,
    acc: Seq<SpecArg>,
    line: nat,
) -> Result<(Seq<SpecArg>, int), SpecDecodeError>
    decreases plans.len() - k,
{
    if k < 0 || k >= plans.len() {
        Ok((acc, cursor))
    } else {
        match plans[k] {
            OperandPlan::Value => if cursor < 0 || cursor >= toks.len() {
                Err(
                    SpecDecodeError::NotEnoughArguments {
                        opcode,
                        expected: sum_min(plans),
                        line,
                    },
                )
            } else {
                match spec_parse_arg(toks[cursor], line) {
                    Err(e) => Err(e),
                    Ok(a) => spec_operands(
                        opcode,
                        plans,
                        toks,
                        k + 1,
                        cursor + 1,
                        acc.push(upper_label(a)),
                        line,
                    ),
                }
            },
            OperandPlan::PackedRegisters(count) => match spec_packed_operand(
                opcode,
                toks,
                cursor,
                count as nat,
                line,
            ) {
                Err(e) => Err(e),
                Ok((a, c)) => spec_operands(opcode, plans, toks, k + 1, c, acc.push(a), line),
            },
        }
    }
}

/// The operand tokens padded with `"0"` up to `n`.
pub open spec fn fill_zeros(rest: Seq<Seq<char>>, n: nat) -> Seq<Seq<char>> {
    if rest.len() < n {
        rest + Seq::new((n - rest.len()) as nat, |i: int| seq!['0'])
    } else {
        rest
    }
}

/// Arguments padded to two with zeros.
pub open spec fn pad_args(args: Seq<SpecArg>) -> Seq<SpecArg> {
    if args.len() >= 2 {
        args
    } else {
        args + Seq::new((2 - args.len()) as nat, |i: int| SpecArg::Value(0))
    }
}

/// A line whose first non-label token is `toks[j]`.
pub open spec fn spec_instruction_line(st: SpecState, toks: Seq<Seq<char>>, j: int, line: nat) -> Result<
    SpecState,
    SpecDecodeError,
> {
    let up = upper_seq(toks[j]);
    let rest = toks.subrange(j + 1, toks.len() as int);
    let found = spec_lookup(up);
    match st.current {
        None => if found is Some {
            Err(SpecDecodeError::InstructionOutsideFunction { opcode: up, line })
        } else {
            spec_start_function(st, up, line)
        },
        Some(f) => if found is None && rest.len() == 0 {
            spec_start_function(st, up, line)
        } else {
            match found {
                None => Err(SpecDecodeError::UnknownOpcode { name: up, line }),
                Some(op) => {
                    let plans = op.spec_plans();
                    let mx = sum_max(plans);
                    let mn = sum_min(plans);
                    let filled = fill_zeros(rest, mx);
                    if filled.len() < mn {
                        Err(SpecDecodeError::NotEnoughArguments { opcode: up, expected: mn, line })
                    } else if filled.len() > mx {
                        Err(
                            SpecDecodeError::TooManyArguments {
                                opcode: up,
                                provided: filled.len(),
                                allowed: mx,
                                line,
                            },
                        )
                    } else {
                        match spec_operands(up, plans, filled, 0, 0, seq![], line) {
                            Err(e) => Err(e),
                            Ok((args, cursor)) => if cursor < filled.len() {
                                Err(
                                    SpecDecodeError::TooManyArguments {
                                        opcode: up,
                                        provided: filled.len(),
                                        allowed: mx,
                                        line,
                                    },
                                )
                            } else {
                                let ins = SpecInstr {
                                    opcode: up,
                                    handler: op,
                                    args: pad_args(args),
                                    operand_count: plans.len(),
                                    line,
                                };
                                Ok(
                                    SpecState {
                                        current: Some(
                                            SpecFn {
                                                instructions: f.instructions.push(ins),
                                                word_offset: f.word_offset + word_len(ins),
                                                ..f
                                            },
                                        ),
                                        ..st
                                    },
                                )
                            },
                        }
                    }
                },
            }
        },
    }
}

/// Zeros written out for operands left missing change nothing: the decoder
/// fills missing operands with `0` itself.
pub proof fn law_zero_padding_changes_nothing(st: SpecState, toks: Seq<Seq<char>>, j: int, m: nat, line: nat)
    requires
        0 <= j < toks.len(),
        spec_lookup(upper_seq(toks[j])) matches Some(op) && toks.len() - (j + 1) + m <= sum_max(
            op.spec_plans(),
        ),
    ensures
        spec_instruction_line(st, toks + Seq::new(m, |i: int| seq!['0']), j, line)
            == spec_instruction_line(st, toks, j, line),
{
    let toks2 = toks + Seq::new(m, |i: int| seq!['0']);
    let op = spec_lookup(upper_seq(toks[j]))->0;
    let mx = sum_max(op.spec_plans());
    let rest = toks.subrange(j + 1, toks.len() as int);
    let rest2 = toks2.subrange(j + 1, toks2.len() as int);
    assert(toks2[j] == toks[j]);
    assert(rest2 =~= rest + Seq::new(m, |i: int| seq!['0']));
    assert(fill_zeros(rest2, mx) =~= fill_zeros(rest, mx));
}

/// One source line, numbered `line` from 1.
pub open spec fn spec_line(st: SpecState, raw: Seq<char>, line: nat) -> Result<
    SpecState,
    SpecDecodeError,
> {
    let code = line_code(raw);
    let toks = words(code);
    if code.len() == 0 || toks.len() == 0 {
        Ok(st)
    } else {
        match spec_labels(st, toks, 0, line) {
            Err(e) => Err(e),
            Ok((st2, j)) => if j >= toks.len() {
                Ok(st2)
            } else {
                spec_instruction_line(st2, toks, j, line)
            },
        }
    }
}

/// Lines `k..` of the source.
pub open spec fn spec_lines(ls: Seq<Seq<char>>, k: int, st: SpecState) -> Result<
    SpecState,
    SpecDecodeError,
>
    decreases ls.len() - k,
{
    if k < 0 || k >= ls.len() {
        Ok(st)
    } else {
        match spec_line(st, ls[k], (k + 1) as nat) {
            Err(e) => Err(e),
            Ok(st2) => spec_lines(ls, k + 1, st2),
        }
    }
}

/// A line that holds nothing but blanks and a comment leaves the decoding
/// as it was, and so do any number of them in a row.
pub proof fn law_comment_lines_change_nothing(st: SpecState, ls: Seq<Seq<char>>, k: int, n: int)
    requires
        0 <= k <= n <= ls.len(),
        forall|i: int| k <= i < n ==> words(line_code(#[trigger] ls[i])).len() == 0,
    ensures
        spec_lines(ls, k, st) == spec_lines(ls, n, st),
    decreases n - k,
{
    if k < n {
        assert(words(line_code(ls[k])).len() == 0);
        law_comment_lines_change_nothing(st, ls, k + 1, n);
    }
}

proof fn lemma_find_semicolon_before(raw: Seq<char>, t: Seq<char>, i: int)
    requires
        0 <= i <= raw.len(),
        t.len() > 0,
        t[0] == ';',
    ensures
        find_char(raw + t, ';', i) == find_char(raw, ';', i),
    decreases raw.len() - i,
{
    if i < raw.len() {
        assert((raw + t)[i] == raw[i]);
        if raw[i] != ';' {
            lemma_find_semicolon_before(raw, t, i + 1);
        }
    } else {
        assert((raw + t)[i] == t[0]);
    }
}

/// A comment appended to a line leaves what the line holds as it was.
proof fn lemma_comment_appended(raw: Seq<char>, text: Seq<char>)
    ensures
        line_code(raw + seq![';'] + text) == line_code(raw),
{
    let t = seq![';'] + text;
    assert(raw + seq![';'] + text =~= raw + t);
    lemma_find_semicolon_before(raw, t, 0);
    lemma_find_char(raw, ';', 0);
    let j = find_char(raw, ';', 0);
    assert((raw + t).subrange(0, j) =~= raw.subrange(0, j));
}

proof fn lemma_lines_with_comment(ls: Seq<Seq<char>>, k: int, text: Seq<char>, j: int, st: SpecState)
    requires
        0 <= k < ls.len(),
        0 <= j,
    ensures
        spec_lines(ls.update(k, ls[k] + seq![';'] + text), j, st) == spec_lines(ls, j, st),
    decreases ls.len() - j,
{
    let ls2 = ls.update(k, ls[k] + seq![';'] + text);
    if j < ls.len() {
        if j == k {
            lemma_comment_appended(ls[k], text);
        }
        assert(spec_line(st, ls2[j], (j + 1) as nat) == spec_line(st, ls[j], (j + 1) as nat));
        match spec_line(st, ls[j], (j + 1) as nat) {
            Err(_) => {},
            Ok(st2) => lemma_lines_with_comment(ls, k, text, j + 1, st2),
        }
    }
}

/// A `;` comment appended to any line leaves the decoding as it was.
pub proof fn law_trailing_comment_changes_nothing(ls: Seq<Seq<char>>, k: int, text: Seq<char>)
    requires
        0 <= k < ls.len(),
    ensures
        decode_lines(ls.update(k, ls[k] + seq![';'] + text)) == decode_lines(ls),
{
    lemma_lines_with_comment(ls, k, text, 0, initial_state());
}


pub open spec fn initial_state() -> SpecState {
    SpecState { functions: seq![], current: None, names: seq![] }
}

/// The exec state between lines.
pub struct DecodeState {
    pub functions: Vec<ParsedFunction>,
    pub current: Option<ParsedFunction>,
    pub names: Vec<Vec<char>>,
}

pub open spec fn fns_view(fs: Seq<ParsedFunction>) -> Seq<SpecFn> {
    fs.map_values(|f: ParsedFunction| f@)
}

impl View for DecodeState {
    type V = SpecState;

    open spec fn view(&self) -> SpecState {
        SpecState {
            functions: fns_view(self.functions@),
            current: match &self.current {
                Some(f) => Some(f@),
                None => None,
            },
            names: tokens_view(self.names@),
        }
    }
}

/// Every word offset is within `bound`.
pub open spec fn offsets_within(st: SpecState, bound: nat) -> bool {
    st.current matches Some(f) ==> f.word_offset <= bound
}

pub fn start_function(st: &mut DecodeState, name: Vec<char>, line: usize) -> (r: Result<
    (),
    PreDecodeError,
>)
    ensures
        match r {
            Ok(_) => spec_start_function(old(st)@, name@, line as nat) == Ok::<
                SpecState,
                SpecDecodeError,
            >(final(st)@),
            Err(e) => spec_start_function(old(st)@, name@, line as nat) == Err::<
                SpecState,
                SpecDecodeError,
            >(e@),
        },
        r is Ok ==> offsets_within(final(st)@, 0),
{
    if let Some(_) = find_text(&st.names, name.as_slice()) {
        return Err(PreDecodeError::DuplicateFunction { name: text_of(name.as_slice()), line });
    }
    let ghost old_fns = st.functions@;
    let ghost old_names = st.names@;
    let ghost nv = name@;
    let prev = st.current.take();
    match prev {
        Some(f) => {
            st.functions.push(f);
        },
        None => {},
    }
    let copy = slice_vec(name.as_slice(), 0, name.len());
    assert(copy@ =~= nv);
    st.names.push(copy);
    st.current = Some(ParsedFunction::new(name));
    proof {
        assert(fns_view(st.functions@) =~= spec_start_function(old(st)@, nv, line as nat)->Ok_0.functions);
        assert(tokens_view(st.names@) =~= old(st)@.names.push(nv));
    }
    Ok(())
}

/// The `LABEL:` markers at the start of a line (see `spec_labels`).
pub fn take_labels(st: &mut DecodeState, toks: &Vec<Vec<char>>, line: usize) -> (r: Result<
    usize,
    PreDecodeError,
>)
    ensures
        match r {
            Ok(j) => spec_labels(old(st)@, tokens_view(toks@), 0, line as nat) == Ok::<
                (SpecState, int),
                SpecDecodeError,
            >((final(st)@, j as int)) && j <= toks@.len(),
            Err(e) => spec_labels(old(st)@, tokens_view(toks@), 0, line as nat) == Err::<
                (SpecState, int),
                SpecDecodeError,
            >(e@),
        },
        r is Ok ==> final(st)@.functions == old(st)@.functions && final(st)@.names
            == old(st)@.names && (old(st)@.current is Some <==> final(st)@.current is Some) && (
        old(st)@.current matches Some(f) ==> final(st)@.current->0.word_offset == f.word_offset),
{
    let ghost t = tokens_view(toks@);
    let mut j: usize = 0;
    while j < toks.len()
        invariant
            t == tokens_view(toks@),
            j <= toks@.len(),
            spec_labels(old(st)@, t, 0, line as nat) == spec_labels(st@, t, j as int, line as nat),
            st@.functions == old(st)@.functions,
            st@.names == old(st)@.names,
            old(st)@.current is Some <==> st@.current is Some,
            old(st)@.current matches Some(f) ==> st@.current->0.word_offset == f.word_offset,
        decreases toks@.len() - j,
    {
        let tok = &toks[j];
        assert(t[j as int] == tok@);
        if !(tok.len() > 0 && tok[tok.len() - 1] == ':') {
            return Ok(j);
        }
        let bare = slice_vec(tok.as_slice(), 0, tok.len() - 1);
        assert(bare@ =~= tok@.drop_last());
        let label = upper_chars(bare.as_slice());
        match &mut st.current {
            None => {
                return Err(
                    PreDecodeError::LabelOutsideFunction { name: text_of(label.as_slice()), line },
                );
            },
            Some(f) => {
                let res = f.add_label(label, line);
                match res {
                    Err(e) => {
                        return Err(e);
                    },
                    Ok(_) => {},
                }
            },
        }
        j = j + 1;
    }
    Ok(j)
}

/// The operands of an instruction (see `spec_operands`).
pub fn parse_operands(
    opcode: &[char],
    plans: &Vec<OperandPlan>,
    toks: &Vec<Vec<char>>,
    line: usize,
    min_tokens: usize,
) -> (r: Result<(Vec<Arg>, usize), PreDecodeError>)
    requires
        min_tokens == sum_min(plans@),
        forall|k: int|
            0 <= k < plans@.len() ==> (#[trigger] plans@[k] matches OperandPlan::PackedRegisters(c)
                ==> c <= 8),
    ensures
        match r {
            Ok((args, c)) => spec_operands(
                opcode@,
                plans@,
                tokens_view(toks@),
                0,
                0,
                seq![],
                line as nat,
            ) == Ok::<(Seq<SpecArg>, int), SpecDecodeError>(
                (args@.map_values(|a: Arg| a@), c as int),
            ) && args@.len() == plans@.len(),
            Err(e) => spec_operands(
                opcode@,
                plans@,
                tokens_view(toks@),
                0,
                0,
                seq![],
                line as nat,
            ) == Err::<(Seq<SpecArg>, int), SpecDecodeError>(e@),
        },
{
    let ghost t = tokens_view(toks@);
    let mut args: Vec<Arg> = Vec::new();
    let mut cursor: usize = 0;
    let mut k: usize = 0;
    assert(args@.map_values(|a: Arg| a@) =~= seq![]);
    while k < plans.len()
        invariant
            t == tokens_view(toks@),
            t.len() == toks@.len(),
            k <= plans@.len(),
            cursor <= toks@.len(),
            args@.len() == k,
            min_tokens == sum_min(plans@),
            forall|k: int|
                0 <= k < plans@.len() ==> (#[trigger] plans@[k] matches OperandPlan::PackedRegisters(
                    c,
                ) ==> c <= 8),
            spec_operands(opcode@, plans@, t, 0, 0, seq![], line as nat) == spec_operands(
                opcode@,
                plans@,
                t,
                k as int,
                cursor as int,
                args@.map_values(|a: Arg| a@),
                line as nat,
            ),
        decreases plans@.len() - k,
    {
        let ghost old_args = args@;
        match plans[k] {
            OperandPlan::Value => {
                if cursor >= toks.len() {
                    return Err(
                        PreDecodeError::NotEnoughArguments {
                            opcode: text_of(opcode),
                            expected: min_tokens,
                            line,
                        },
                    );
                }
                let token = &toks[cursor];
                assert(t[cursor as int] == token@);
                let parsed = parse_arg(token.as_slice(), line);
                match parsed {
                    Err(e) => {
                        return Err(e);
                    },
                    Ok(a) => {
                        let a2 = match a {
                            Arg::Label(l) => Arg::Label(upper_chars(l.as_slice())),
                            other => other,
                        };
                        args.push(a2);
                        cursor = cursor + 1;
                    },
                }
            },
            OperandPlan::PackedRegisters(count) => {
                assert(plans@[k as int] matches OperandPlan::PackedRegisters(c) ==> c <= 8);
                let res = parse_packed_operand(opcode, toks, &mut cursor, count, line);
                match res {
                    Err(e) => {
                        return Err(e);
                    },
                    Ok(a) => {
                        args.push(a);
                    },
                }
            },
        }
        proof {
            assert(args@.map_values(|a: Arg| a@) =~= old_args.map_values(|a: Arg| a@).push(
                args@.last()@,
            ));
        }
        k = k + 1;
    }
    Ok((args, cursor))
}

/// The opcode table as the pre-decoder uses it.
pub open spec fn table_ok(table: Seq<OpcodeEntry>) -> bool {
    &&& table.len() == OP_COUNT
    &&& forall|i: int|
        0 <= i < OP_COUNT ==> {
            let op = Op::spec_from_index(i as u64).unwrap();
            &&& Op::spec_from_index(i as u64) is Some
            &&& (#[trigger] table[i]).name@ == op.spec_name()
            &&& table[i].spec.handler == op
            &&& table[i].spec.operands@ == op.spec_plans()
        }
}

proof fn lemma_plans_small(op: Op)
    ensures
        op.spec_plans().len() <= 2,
        forall|k: int|
            0 <= k < op.spec_plans().len() ==> (#[trigger] op.spec_plans()[k] matches OperandPlan::PackedRegisters(
                c,
            ) ==> 1 <= c <= 7),
{
}

/// A line whose first non-label token is `toks[j]` (see `spec_instruction_line`).
pub fn instruction_line(
    st: &mut DecodeState,
    toks: &Vec<Vec<char>>,
    j: usize,
    line: usize,
    table: &Vec<OpcodeEntry>,
) -> (r: Result<(), PreDecodeError>)
    requires
        j < toks@.len(),
        table_ok(table@),
        offsets_within(old(st)@, (usize::MAX - 3) as nat),
    ensures
        match r {
            Ok(_) => spec_instruction_line(old(st)@, tokens_view(toks@), j as int, line as nat)
                == Ok::<SpecState, SpecDecodeError>(final(st)@),
            Err(e) => spec_instruction_line(old(st)@, tokens_view(toks@), j as int, line as nat)
                == Err::<SpecState, SpecDecodeError>(e@),
        },
        r is Ok ==> forall|b: nat|
            offsets_within(old(st)@, b) ==> #[trigger] offsets_within(final(st)@, b + 3),
{
    let ghost t = tokens_view(toks@);
    assert(t[j as int] == toks@[j as int]@);
    let up = upper_chars(toks[j].as_slice());
    let found = lookup_opcode(table, up.as_slice());
    let rest_len = toks.len() - (j + 1);
    if st.current.is_none() {
        if found.is_some() {
            return Err(
                PreDecodeError::InstructionOutsideFunction { opcode: text_of(up.as_slice()), line },
            );
        }
        return start_function(st, up, line);
    }
    if found.is_none() && rest_len == 0 {
        return start_function(st, up, line);
    }
    let sp = match found {
        None => {
            return Err(PreDecodeError::UnknownOpcode { name: text_of(up.as_slice()), line });
        },
        Some(sp) => sp,
    };
    proof {
        lemma_plans_small(sp.handler);
    }
    let min_tokens = sp.min_tokens();
    let max_tokens = sp.max_tokens();
    // Operand tokens, padded with zeros up to the most the opcode takes.
    let mut tokens: Vec<Vec<char>> = Vec::new();
    let mut i = j + 1;
    while i < toks.len()
        invariant
            t == tokens_view(toks@),
            j + 1 <= i <= toks@.len(),
            tokens_view(tokens@) =~= t.subrange(j + 1, i as int),
        decreases toks@.len() - i,
    {
        assert(t[i as int] == toks@[i as int]@);
        let copy = slice_vec(toks[i].as_slice(), 0, toks[i].len());
        assert(copy@ =~= toks@[i as int]@);
        let ghost before = tokens_view(tokens@);
        tokens.push(copy);
        proof {
            assert(tokens_view(tokens@) =~= before.push(copy@));
        }
        i = i + 1;
    }
    let ghost rest = t.subrange(j + 1, toks@.len() as int);
    assert(tokens_view(tokens@) =~= rest);
    while tokens.len() < max_tokens
        invariant
            rest.len() <= tokens@.len(),
            tokens@.len() <= max_tokens || tokens@.len() == rest.len(),
            tokens_view(tokens@) =~= (if rest.len() < max_tokens {
                rest + Seq::new((tokens@.len() - rest.len()) as nat, |i: int| seq!['0'])
            } else {
                rest
            }),
        decreases max_tokens - tokens@.len(),
    {
        let ghost before = tokens_view(tokens@);
        let zero = vec!['0'];
        assert(zero@ =~= seq!['0']);
        tokens.push(zero);
        proof {
            assert(tokens_view(tokens@) =~= before.push(seq!['0']));
        }
    }
    assert(tokens_view(tokens@) =~= fill_zeros(rest, max_tokens as nat));
    if tokens.len() < min_tokens {
        return Err(
            PreDecodeError::NotEnoughArguments {
                opcode: text_of(up.as_slice()),
                expected: min_tokens,
                line,
            },
        );
    }
    if tokens.len() > max_tokens {
        return Err(
            PreDecodeError::TooManyArguments {
                opcode: text_of(up.as_slice()),
                provided: tokens.len(),
                allowed: max_tokens,
                line,
            },
        );
    }
    let parsed = parse_operands(up.as_slice(), &sp.operands, &tokens, line, min_tokens);
    let (args, cursor) = match parsed {
        Err(e) => {
            return Err(e);
        },
        Ok(p) => p,
    };
    if cursor < tokens.len() {
        return Err(
            PreDecodeError::TooManyArguments {
                opcode: text_of(up.as_slice()),
                provided: tokens.len(),
                allowed: max_tokens,
                line,
            },
        );
    }
    let ghost av = args@.map_values(|a: Arg| a@);
    let mut padded = args;
    while padded.len() < 2
        invariant
            av.len() <= padded@.len() <= 2,
            padded@.map_values(|a: Arg| a@) =~= av + Seq::new(
                (padded@.len() - av.len()) as nat,
                |i: int| SpecArg::Value(0),
            ),
        decreases 2 - padded@.len(),
    {
        let ghost before = padded@.map_values(|a: Arg| a@);
        padded.push(Arg::Value(0));
        proof {
            assert(padded@.map_values(|a: Arg| a@) =~= before.push(SpecArg::Value(0)));
        }
    }
    assert(padded@.map_values(|a: Arg| a@) =~= pad_args(av));
    assert(padded@.len() == 2);
    let ghost pv = padded@;
    let a1 = padded.pop().unwrap();
    let a0 = padded.pop().unwrap();
    let operand_count = sp.operands.len();
    let ins = ParsedInstruction {
        opcode: up,
        handler: sp.handler,
        args: [a0, a1],
        operand_count,
        line,
    };
    assert(ins@.args =~= pv.map_values(|a: Arg| a@));
    match &mut st.current {
        Some(f) => {
            f.push_instruction(ins);
        },
        None => {},
    }
    Ok(())
}

/// `line_code` of a raw line.
pub fn code_of_line(raw: &[char]) -> (r: Vec<char>)
    ensures
        r@ == line_code(raw@),
{
    let mut e: usize = 0;
    while e < raw.len() && raw[e] != ';'
        invariant
            e <= raw@.len(),
            find_char(raw@, ';', e as int) == find_char(raw@, ';', 0),
        decreases raw@.len() - e,
    {
        e = e + 1;
    }
    let before = slice_vec(raw, 0, e);
    trim_chars(before.as_slice())
}

/// One source line (see `spec_line`).
pub fn process_line(
    st: &mut DecodeState,
    raw: &[char],
    line: usize,
    table: &Vec<OpcodeEntry>,
) -> (r: Result<(), PreDecodeError>)
    requires
        table_ok(table@),
        offsets_within(old(st)@, (usize::MAX - 3) as nat),
    ensures
        match r {
            Ok(_) => spec_line(old(st)@, raw@, line as nat) == Ok::<SpecState, SpecDecodeError>(
                final(st)@,
            ),
            Err(e) => spec_line(old(st)@, raw@, line as nat) == Err::<SpecState, SpecDecodeError>(
                e@,
            ),
        },
        r is Ok ==> forall|b: nat|
            offsets_within(old(st)@, b) ==> #[trigger] offsets_within(final(st)@, b + 3),
{
    let code = code_of_line(raw);
    if code.len() == 0 {
        return Ok(());
    }
    let toks = split_words(code.as_slice());
    if toks.len() == 0 {
        return Ok(());
    }
    let j = match take_labels(st, &toks, line) {
        Err(e) => {
            return Err(e);
        },
        Ok(j) => j,
    };
    if j >= toks.len() {
        return Ok(());
    }
    instruction_line(st, &toks, j, line, table)
}

// ---------------------------------------------------------------------------
// Resolution
// ---------------------------------------------------------------------------
/// Opcodes whose operand may name a label of the function.
pub open spec fn accepts_label(opcode: Seq<char>) -> bool {
    ||| opcode == "JUMP"@
    ||| opcode == "EQ_JUMP"@
    ||| opcode == "NEQ_JUMP"@
    ||| opcode == "LT_U64_JUMP"@
    ||| opcode == "LTE_U64_JUMP"@
    ||| opcode == "LT_I64_JUMP"@
    ||| opcode == "LTE_I64_JUMP"@
    ||| opcode == "GT_U64_JUMP"@
    ||| opcode == "GTE_U64_JUMP"@
    ||| opcode == "GT_I64_JUMP"@
    ||| opcode == "GTE_I64_JUMP"@
}

/// `opcode_accepts_label` (see `accepts_label`).
pub fn opcode_accepts_label(opcode: &[char]) -> (r: bool)
    ensures
        r == accepts_label(opcode@),
{
    text_is(opcode, "JUMP") || text_is(opcode, "EQ_JUMP") || text_is(opcode, "NEQ_JUMP")
        || text_is(opcode, "LT_U64_JUMP") || text_is(opcode, "LTE_U64_JUMP") || text_is(
        opcode,
        "LT_I64_JUMP",
    ) || text_is(opcode, "LTE_I64_JUMP") || text_is(opcode, "GT_U64_JUMP") || text_is(
        opcode,
        "GTE_U64_JUMP",
    ) || text_is(opcode, "GT_I64_JUMP") || text_is(opcode, "GTE_I64_JUMP")
}

/// `resolve_arg`: a value stays; a label is a function number for `CALL`
/// and `CALL_THREAD` (their call frame), a word offset for a jump, and an
/// error elsewhere.
pub open spec fn spec_resolve_arg(
    opcode: Seq<char>,
    arg: SpecArg,
    names: Seq<Seq<char>>,
    labels: Seq<(Seq<char>, nat)>,
    line: nat,
) -> Result<u64, SpecDecodeError> {
    match arg {
        SpecArg::Value(v) => Ok(v),
        SpecArg::Label(l) => if opcode == "CALL"@ || opcode == "CALL_THREAD"@ {
            match index_of(names, l, 0) {
                Some(i) => Ok(i as u64),
                None => Err(SpecDecodeError::UnknownFunction { name: l, line }),
            }
        } else if accepts_label(opcode) {
            match find_label(labels, l) {
                Some(o) => Ok(o as u64),
                None => Err(SpecDecodeError::UnknownLabel { name: l, line }),
            }
        } else {
            Err(SpecDecodeError::UnexpectedLabel { opcode, label: l, line })
        },
    }
}

/// The words of one instruction: the handler, then its resolved operands.
pub open spec fn spec_resolve_instr(
    ins: SpecInstr,
    names: Seq<Seq<char>>,
    labels: Seq<(Seq<char>, nat)>,
) -> Result<Seq<Instruction>, SpecDecodeError> {
    let op = Instruction { code: ins.handler.spec_index() };
    if ins.operand_count == 0 {
        Ok(seq![op])
    } else {
        match spec_resolve_arg(ins.opcode, ins.args[0], names, labels, ins.line) {
            Err(e) => Err(e),
            Ok(a0) => if ins.operand_count == 1 {
                Ok(seq![op, Instruction { code: a0 }])
            } else {
                match spec_resolve_arg(ins.opcode, ins.args[1], names, labels, ins.line) {
                    Err(e) => Err(e),
                    Ok(a1) => Ok(seq![op, Instruction { code: a0 }, Instruction { code: a1 }]),
                }
            },
        }
    }
}

/// The words of instructions `k..`, after `acc`.
pub open spec fn spec_resolve_body(
    instrs: Seq<SpecInstr>,
    names: Seq<Seq<char>>,
    labels: Seq<(Seq<char>, nat)>,
    k: int,
    acc: Seq<Instruction>,
) -> Result<Seq<Instruction>, SpecDecodeError>
    decreases instrs.len() - k,
{
    if k < 0 || k >= instrs.len() {
        Ok(acc)
    } else {
        match spec_resolve_instr(instrs[k], names, labels) {
            Err(e) => Err(e),
            Ok(w) => spec_resolve_body(instrs, names, labels, k + 1, acc + w),
        }
    }
}

/// The words of functions `k..`, after `acc`.
pub open spec fn spec_resolve_all(
    fs: Seq<SpecFn>,
    names: Seq<Seq<char>>,
    k: int,
    acc: Seq<Seq<Instruction>>,
) -> Result<Seq<Seq<Instruction>>, SpecDecodeError>
    decreases fs.len() - k,
{
    if k < 0 || k >= fs.len() {
        Ok(acc)
    } else {
        match spec_resolve_body(fs[k].instructions, names, fs[k].labels, 0, seq![]) {
            Err(e) => Err(e),
            Ok(w) => spec_resolve_all(fs, names, k + 1, acc.push(w)),
        }
    }
}

pub open spec fn fn_names(fs: Seq<SpecFn>) -> Seq<Seq<char>> {
    fs.map_values(|f: SpecFn| f.name)
}

/// All functions of the final state, in order.
pub open spec fn all_functions(st: SpecState) -> Seq<SpecFn> {
    match st.current {
        Some(f) => st.functions.push(f),
        None => st.functions,
    }
}

/// `PreDecoder::decode`: the words of each function, `MAIN` first and the
/// others in source order.
pub open spec fn spec_decode(source: Seq<char>) -> Result<Seq<Seq<Instruction>>, SpecDecodeError> {
    decode_lines(lines(source))
}

/// The decoding of the source lines `ls` (see `spec_decode`).
pub open spec fn decode_lines(ls: Seq<Seq<char>>) -> Result<Seq<Seq<Instruction>>, SpecDecodeError> {
    match spec_lines(ls, 0, initial_state()) {
        Err(e) => Err(e),
        Ok(st) => {
            let fs = all_functions(st);
            match index_of(fn_names(fs), "MAIN"@, 0) {
                None => Err(SpecDecodeError::MissingMain),
                Some(m) => {
                    let ordered = seq![fs[m as int]] + fs.remove(m as int);
                    spec_resolve_all(ordered, fn_names(ordered), 0, seq![])
                },
            }
        },
    }
}

/// `resolve_arg` (see `spec_resolve_arg`).
pub fn resolve_arg(
    opcode: &[char],
    arg: &Arg,
    names: &Vec<Vec<char>>,
    labels: &Vec<(Vec<char>, usize)>,
    line: usize,
) -> (r: Result<u64, PreDecodeError>)
    ensures
        match r {
            Ok(v) => spec_resolve_arg(
                opcode@,
                arg@,
                tokens_view(names@),
                labels_view(labels@),
                line as nat,
            ) == Ok::<u64, SpecDecodeError>(v),
            Err(e) => spec_resolve_arg(
                opcode@,
                arg@,
                tokens_view(names@),
                labels_view(labels@),
                line as nat,
            ) == Err::<u64, SpecDecodeError>(e@),
        },
{
    match arg {
        Arg::Value(value) => Ok(*value),
        Arg::Label(label) => {
            if text_is(opcode, "CALL") || text_is(opcode, "CALL_THREAD") {
                match find_text(names, label.as_slice()) {
                    Some(idx) => Ok(idx as u64),
                    None => Err(
                        PreDecodeError::UnknownFunction { name: text_of(label.as_slice()), line },
                    ),
                }
            } else if opcode_accepts_label(opcode) {
                match label_offset(labels, label.as_slice()) {
                    Some(offset) => Ok(offset as u64),
                    None => Err(
                        PreDecodeError::UnknownLabel { name: text_of(label.as_slice()), line },
                    ),
                }
            } else {
                Err(
                    PreDecodeError::UnexpectedLabel {
                        opcode: text_of(opcode),
                        label: text_of(label.as_slice()),
                        line,
                    },
                )
            }
        },
    }
}

impl ParsedInstruction {
    /// The instruction's words (see `spec_resolve_instr`).
    pub fn into_instructions(
        &self,
        names: &Vec<Vec<char>>,
        labels: &Vec<(Vec<char>, usize)>,
    ) -> (r: Result<Vec<Instruction>, PreDecodeError>)
        ensures
            match r {
                Ok(w) => spec_resolve_instr(self@, tokens_view(names@), labels_view(labels@))
                    == Ok::<Seq<Instruction>, SpecDecodeError>(w@),
                Err(e) => spec_resolve_instr(self@, tokens_view(names@), labels_view(labels@))
                    == Err::<Seq<Instruction>, SpecDecodeError>(e@),
            },
    {
        let op = Instruction::new_1w_op(self.handler);
        if self.operand_count == 0 {
            let mut w: Vec<Instruction> = Vec::new();
            w.push(op);
            assert(w@ =~= seq![op]);
            return Ok(w);
        }
        assert(self@.args[0] == self.args@[0]@);
        let a0 = match resolve_arg(self.opcode.as_slice(), &self.args[0], names, labels, self.line) {
            Err(e) => {
                return Err(e);
            },
            Ok(v) => v,
        };
        if self.operand_count == 1 {
            let words = Instruction::new_2w_op(self.handler, a0);
            let mut w: Vec<Instruction> = Vec::new();
            w.push(words[0]);
            w.push(words[1]);
            assert(w@ =~= words@);
            return Ok(w);
        }
        assert(self@.args[1] == self.args@[1]@);
        let a1 = match resolve_arg(self.opcode.as_slice(), &self.args[1], names, labels, self.line) {
            Err(e) => {
                return Err(e);
            },
            Ok(v) => v,
        };
        let words = Instruction::new_3w_op(self.handler, a0, a1);
        let mut w: Vec<Instruction> = Vec::new();
        w.push(words[0]);
        w.push(words[1]);
        w.push(words[2]);
        assert(w@ =~= words@);
        Ok(w)
    }
}

impl ParsedFunction {
    /// The function's words (see `spec_resolve_body`).
    pub fn into_function(&self, names: &Vec<Vec<char>>) -> (r: Result<Function, PreDecodeError>)
        ensures
            match r {
                Ok(f) => spec_resolve_body(
                    self@.instructions,
                    tokens_view(names@),
                    self@.labels,
                    0,
                    seq![],
                ) == Ok::<Seq<Instruction>, SpecDecodeError>(f.instructions@),
                Err(e) => spec_resolve_body(
                    self@.instructions,
                    tokens_view(names@),
                    self@.labels,
                    0,
                    seq![],
                ) == Err::<Seq<Instruction>, SpecDecodeError>(e@),
            },
    {
        let ghost iv = self@.instructions;
        let mut words: Vec<Instruction> = Vec::new();
        let mut k: usize = 0;
        while k < self.instructions.len()
            invariant
                iv == self@.instructions,
                k <= self.instructions@.len(),
                spec_resolve_body(iv, tokens_view(names@), self@.labels, 0, seq![])
                    == spec_resolve_body(iv, tokens_view(names@), self@.labels, k as int, words@),
            decreases self.instructions@.len() - k,
        {
            assert(iv[k as int] == self.instructions@[k as int]@);
            let w = match self.instructions[k].into_instructions(names, &self.labels) {
                Err(e) => {
                    return Err(e);
                },
                Ok(w) => w,
            };
            let mut i: usize = 0;
            let ghost start = words@;
            while i < w.len()
                invariant
                    i <= w@.len(),
                    words@ =~= start + w@.take(i as int),
                decreases w@.len() - i,
            {
                words.push(w[i]);
                i = i + 1;
                assert(words@ =~= start + w@.take(i as int));
            }
            assert(w@.take(i as int) =~= w@);
            k = k + 1;
        }
        Ok(Function::new(words))
    }
}

pub proof fn lemma_lines_len(s: Seq<char>, i: int)
    requires
        0 <= i,
    ensures
        lines_from(s, i).len() <= if i < s.len() {
            s.len() - i
        } else {
            0
        },
    decreases s.len() - i,
{
    if 0 <= i < s.len() {
        lemma_find_char(s, '\n', i);
        let e = find_char(s, '\n', i);
        if e < s.len() {
            lemma_lines_len(s, e + 1);
        }
    }
}

impl PreDecoder {
    pub fn new() -> (r: Self) {
        PreDecoder
    }

    /// Decodes assembler text (see `spec_decode`).
    pub fn decode(&self, source: &str) -> (r: Result<Vec<Function>, PreDecodeError>)
        requires
            source@.len() < usize::MAX / 4,
        ensures
            match r {
                Ok(fs) => spec_decode(source@) == Ok::<Seq<Seq<Instruction>>, SpecDecodeError>(
                    fs@.map_values(|f: Function| f.instructions@),
                ),
                Err(e) => spec_decode(source@) == Err::<Seq<Seq<Instruction>>, SpecDecodeError>(
                    e@,
                ),
            },
    {
        let chars = str_to_chars(source);
        let ls = split_lines(chars.as_slice());
        let ghost lv = texts_view(ls@);
        proof {
            lemma_lines_len(chars@, 0);
        }
        let table = opcode_table();
        let mut st = DecodeState { functions: Vec::new(), current: None, names: Vec::new() };
        assert(st@.functions =~= seq![]);
        assert(st@.names =~= seq![]);
        let mut k: usize = 0;
        while k < ls.len()
            invariant
                lv == texts_view(ls@),
                lv == lines(source@),
                lv.len() <= source@.len(),
                source@.len() < usize::MAX / 4,
                table_ok(table@),
                k <= ls@.len(),
                spec_lines(lv, 0, initial_state()) == spec_lines(lv, k as int, st@),
                offsets_within(st@, (3 * k) as nat),
            decreases ls@.len() - k,
        {
            assert(lv[k as int] == ls@[k as int]@);
            let ghost before = st@;
            match process_line(&mut st, ls[k].as_slice(), k + 1, &table) {
                Err(e) => {
                    return Err(e);
                },
                Ok(_) => {},
            }
            proof {
                assert(offsets_within(before, (3 * k) as nat));
                assert(offsets_within(st@, (3 * k) as nat + 3));
            }
            k = k + 1;
        }
        assert(spec_lines(lv, 0, initial_state()) == Ok::<SpecState, SpecDecodeError>(st@));
        // Functions in source order, then MAIN moved to the front.
        let ghost final_st = st@;
        let DecodeState { functions, current, names: _ } = st;
        let mut all = functions;
        match current {
            Some(f) => {
                all.push(f);
            },
            None => {},
        }
        let ghost fs = fns_view(all@);
        assert(fs =~= all_functions(final_st));
        let mut m: usize = 0;
        while m < all.len()
            invariant
                fs == fns_view(all@),
                fs == all_functions(final_st),
                spec_lines(lines(source@), 0, initial_state()) == Ok::<SpecState, SpecDecodeError>(
                    final_st,
                ),
                m <= all@.len(),
                index_of(fn_names(fs), "MAIN"@, 0) == index_of(fn_names(fs), "MAIN"@, m as int),
            ensures
                m <= all@.len(),
                m < all@.len() ==> all@[m as int].name@ == "MAIN"@,
                index_of(fn_names(fs), "MAIN"@, 0) == index_of(fn_names(fs), "MAIN"@, m as int),
            decreases all@.len() - m,
        {
            assert(fn_names(fs)[m as int] == all@[m as int].name@);
            if text_is(all[m].name.as_slice(), "MAIN") {
                break;
            }
            m = m + 1;
        }
        if m >= all.len() {
            assert(index_of(fn_names(fs), "MAIN"@, m as int) is None);
            return Err(PreDecodeError::MissingMain);
        }
        proof {
            lemma_index_of(fn_names(fs), "MAIN"@, m as int);
        }
        let main = all.remove(m);
        let mut ordered: Vec<ParsedFunction> = Vec::new();
        ordered.push(main);
        ordered.append(&mut all);
        let ghost ov = fns_view(ordered@);
        assert(ov =~= seq![fs[m as int]] + fs.remove(m as int));
        assert(spec_decode(source@) == spec_resolve_all(ov, fn_names(ov), 0, seq![]));
        let mut names: Vec<Vec<char>> = Vec::new();
        let mut i: usize = 0;
        while i < ordered.len()
            invariant
                ov == fns_view(ordered@),
                spec_decode(source@) == spec_resolve_all(ov, fn_names(ov), 0, seq![]),
                i <= ordered@.len(),
                tokens_view(names@) =~= fn_names(ov).take(i as int),
            decreases ordered@.len() - i,
        {
            let copy = slice_vec(ordered[i].name.as_slice(), 0, ordered[i].name.len());
            assert(copy@ =~= ordered@[i as int].name@);
            let ghost before = tokens_view(names@);
            names.push(copy);
            i = i + 1;
            assert(tokens_view(names@) =~= before.push(copy@));
        }
        assert(fn_names(ov).take(i as int) =~= fn_names(ov));
        let mut out: Vec<Function> = Vec::new();
        let mut j: usize = 0;
        assert(out@.map_values(|f: Function| f.instructions@) =~= seq![]);
        while j < ordered.len()
            invariant
                ov == fns_view(ordered@),
                spec_decode(source@) == spec_resolve_all(ov, fn_names(ov), 0, seq![]),
                tokens_view(names@) == fn_names(ov),
                j <= ordered@.len(),
                spec_resolve_all(ov, fn_names(ov), 0, seq![]) == spec_resolve_all(
                    ov,
                    fn_names(ov),
                    j as int,
                    out@.map_values(|f: Function| f.instructions@),
                ),
            decreases ordered@.len() - j,
        {
            assert(ov[j as int] == ordered@[j as int]@);
            let f = match ordered[j].into_function(&names) {
                Err(e) => {
                    return Err(e);
                },
                Ok(f) => f,
            };
            let ghost before = out@.map_values(|f: Function| f.instructions@);
            out.push(f);
            assert(out@.map_values(|f: Function| f.instructions@) =~= before.push(f.instructions@));
            j = j + 1;
        }
        Ok(out)
    }
}


proof fn lemma_lookup_skip(name: Seq<char>, i: int)
    requires
        0 <= i < OP_COUNT,
        Op::spec_from_index(i as u64) is Some,
        Op::spec_from_index(i as u64)->0.spec_name() != name,
    ensures
        lookup_from(name, i) == lookup_from(name, i + 1),
{
}

proof fn lemma_lookup_hit(name: Seq<char>, i: int)
    requires
        0 <= i < OP_COUNT,
        Op::spec_from_index(i as u64) is Some,
        Op::spec_from_index(i as u64)->0.spec_name() == name,
    ensures
        lookup_from(name, i) == Op::spec_from_index(i as u64),
{
}

/// The arithmetic mnemonics decode to their own handlers: `ADD_U64` to the
/// add, `SUB_U64` to the subtract, `MUL_U64` to the multiply, `DIV_U64` to
/// the unsigned divide and `MOD_I64` to the signed remainder.
pub proof fn law_arith_mnemonics_decode()
    ensures
        spec_lookup("ADD_U64"@) == Some(Op::AddU64),
        spec_lookup("SUB_U64"@) == Some(Op::SubU64),
        spec_lookup("MUL_U64"@) == Some(Op::MulU64),
        spec_lookup("DIV_U64"@) == Some(Op::DivU64),
        spec_lookup("MOD_I64"@) == Some(Op::ModI64),
{
    assert(spec_lookup("ADD_U64"@) == Some(Op::AddU64)) by {
        reveal_strlit("ADD_U64");
        assert("ADD_U64"@.len() == 7);
        reveal_strlit("RET");
        assert(Op::spec_from_index(0u64) == Some(Op::Ret));
        assert("RET"@.len() == 3);
        lemma_lookup_skip("ADD_U64"@, 0);
        reveal_strlit("CALL");
        assert(Op::spec_from_index(1u64) == Some(Op::Call));
        assert("CALL"@.len() == 4);
        lemma_lookup_skip("ADD_U64"@, 1);
        reveal_strlit("JUMP");
        assert(Op::spec_from_index(2u64) == Some(Op::Jump));
        assert("JUMP"@.len() == 4);
        lemma_lookup_skip("ADD_U64"@, 2);
        reveal_strlit("EQ_JUMP");
        assert(Op::spec_from_index(3u64) == Some(Op::EqJump));
        assert("EQ_JUMP"@[0] == 'E' && "ADD_U64"@[0] == 'A');
        lemma_lookup_skip("ADD_U64"@, 3);
        reveal_strlit("NEQ_JUMP");
        assert(Op::spec_from_index(4u64) == Some(Op::NeqJump));
        assert("NEQ_JUMP"@.len() == 8);
        lemma_lookup_skip("ADD_U64"@, 4);
        reveal_strlit("LT_U64_JUMP");
        assert(Op::spec_from_index(5u64) == Some(Op::LtU64Jump));
        assert("LT_U64_JUMP"@.len() == 11);
        lemma_lookup_skip("ADD_U64"@, 5);
        reveal_strlit("LTE_U64_JUMP");
        assert(Op::spec_from_index(6u64) == Some(Op::LteU64Jump));
        assert("LTE_U64_JUMP"@.len() == 12);
        lemma_lookup_skip("ADD_U64"@, 6);
        reveal_strlit("LT_I64_JUMP");
        assert(Op::spec_from_index(7u64) == Some(Op::LtI64Jump));
        assert("LT_I64_JUMP"@.len() == 11);
        lemma_lookup_skip("ADD_U64"@, 7);
        reveal_strlit("LTE_I64_JUMP");
        assert(Op::spec_from_index(8u64) == Some(Op::LteI64Jump));
        assert("LTE_I64_JUMP"@.len() == 12);
        lemma_lookup_skip("ADD_U64"@, 8);
        reveal_strlit("GT_U64_JUMP");
        assert(Op::spec_from_index(9u64) == Some(Op::GtU64Jump));
        assert("GT_U64_JUMP"@.len() == 11);
        lemma_lookup_skip("ADD_U64"@, 9);
        reveal_strlit("GTE_U64_JUMP");
        assert(Op::spec_from_index(10u64) == Some(Op::GteU64Jump));
        assert("GTE_U64_JUMP"@.len() == 12);
        lemma_lookup_skip("ADD_U64"@, 10);
        reveal_strlit("GT_I64_JUMP");
        assert(Op::spec_from_index(11u64) == Some(Op::GtI64Jump));
        assert("GT_I64_JUMP"@.len() == 11);
        lemma_lookup_skip("ADD_U64"@, 11);
        reveal_strlit("GTE_I64_JUMP");
        assert(Op::spec_from_index(12u64) == Some(Op::GteI64Jump));
        assert("GTE_I64_JUMP"@.len() == 12);
        lemma_lookup_skip("ADD_U64"@, 12);
        reveal_strlit("GET_DECODE");
        assert(Op::spec_from_index(13u64) == Some(Op::GetDecode));
        assert("GET_DECODE"@.len() == 10);
        lemma_lookup_skip("ADD_U64"@, 13);
        reveal_strlit("GET_DECODED");
        assert(Op::spec_from_index(14u64) == Some(Op::GetDecoded));
        assert("GET_DECODED"@.len() == 11);
        lemma_lookup_skip("ADD_U64"@, 14);
        reveal_strlit("EXIT");
        assert(Op::spec_from_index(15u64) == Some(Op::Exit));
        assert("EXIT"@.len() == 4);
        lemma_lookup_skip("ADD_U64"@, 15);
        reveal_strlit("PRINT_U64");
        assert(Op::spec_from_index(16u64) == Some(Op::PrintU64));
        assert("PRINT_U64"@.len() == 9);
        lemma_lookup_skip("ADD_U64"@, 16);
        reveal_strlit("ALLOC");
        assert(Op::spec_from_index(17u64) == Some(Op::Alloc));
        assert("ALLOC"@.len() == 5);
        lemma_lookup_skip("ADD_U64"@, 17);
        reveal_strlit("REALLOC");
        assert(Op::spec_from_index(18u64) == Some(Op::Realloc));
        assert("REALLOC"@[0] == 'R' && "ADD_U64"@[0] == 'A');
        lemma_lookup_skip("ADD_U64"@, 18);
        reveal_strlit("DEALLOC");
        assert(Op::spec_from_index(19u64) == Some(Op::Dealloc));
        assert("DEALLOC"@[0] == 'D' && "ADD_U64"@[0] == 'A');
        lemma_lookup_skip("ADD_U64"@, 19);
        reveal_strlit("MOV");
        assert(Op::spec_from_index(20u64) == Some(Op::Mov));
        assert("MOV"@.len() == 3);
        lemma_lookup_skip("ADD_U64"@, 20);
        reveal_strlit("LOAD_U64_IMMEDIATE");
        assert(Op::spec_from_index(21u64) == Some(Op::LoadU64Immediate));
        assert("LOAD_U64_IMMEDIATE"@.len() == 18);
        lemma_lookup_skip("ADD_U64"@, 21);
        reveal_strlit("SWAP");
        assert(Op::spec_from_index(22u64) == Some(Op::Swap));
        assert("SWAP"@.len() == 4);
        lemma_lookup_skip("ADD_U64"@, 22);
        assert(Op::spec_from_index(23u64) == Some(Op::AddU64));
        lemma_lookup_hit("ADD_U64"@, 23);
    }
    assert(spec_lookup("SUB_U64"@) == Some(Op::SubU64)) by {
        reveal_strlit("SUB_U64");
        assert("SUB_U64"@.len() == 7);
        reveal_strlit("RET");
        assert(Op::spec_from_index(0u64) == Some(Op::Ret));
        assert("RET"@.len() == 3);
        lemma_lookup_skip("SUB_U64"@, 0);
        reveal_strlit("CALL");
        assert(Op::spec_from_index(1u64) == Some(Op::Call));
        assert("CALL"@.len() == 4);
        lemma_lookup_skip("SUB_U64"@, 1);
        reveal_strlit("JUMP");
        assert(Op::spec_from_index(2u64) == Some(Op::Jump));
        assert("JUMP"@.len() == 4);
        lemma_lookup_skip("SUB_U64"@, 2);
        reveal_strlit("EQ_JUMP");
        assert(Op::spec_from_index(3u64) == Some(Op::EqJump));
        assert("EQ_JUMP"@[0] == 'E' && "SUB_U64"@[0] == 'S');
        lemma_lookup_skip("SUB_U64"@, 3);
        reveal_strlit("NEQ_JUMP");
        assert(Op::spec_from_index(4u64) == Some(Op::NeqJump));
        assert("NEQ_JUMP"@.len() == 8);
        lemma_lookup_skip("SUB_U64"@, 4);
        reveal_strlit("LT_U64_JUMP");
        assert(Op::spec_from_index(5u64) == Some(Op::LtU64Jump));
        assert("LT_U64_JUMP"@.len() == 11);
        lemma_lookup_skip("SUB_U64"@, 5);
        reveal_strlit("LTE_U64_JUMP");
        assert(Op::spec_from_index(6u64) == Some(Op::LteU64Jump));
        assert("LTE_U64_JUMP"@.len() == 12);
        lemma_lookup_skip("SUB_U64"@, 6);
        reveal_strlit("LT_I64_JUMP");
        assert(Op::spec_from_index(7u64) == Some(Op::LtI64Jump));
        assert("LT_I64_JUMP"@.len() == 11);
        lemma_lookup_skip("SUB_U64"@, 7);
        reveal_strlit("LTE_I64_JUMP");
        assert(Op::spec_from_index(8u64) == Some(Op::LteI64Jump));
        assert("LTE_I64_JUMP"@.len() == 12);
        lemma_lookup_skip("SUB_U64"@, 8);
        reveal_strlit("GT_U64_JUMP");
        assert(Op::spec_from_index(9u64) == Some(Op::GtU64Jump));
        assert("GT_U64_JUMP"@.len() == 11);
        lemma_lookup_skip("SUB_U64"@, 9);
        reveal_strlit("GTE_U64_JUMP");
        assert(Op::spec_from_index(10u64) == Some(Op::GteU64Jump));
        assert("GTE_U64_JUMP"@.len() == 12);
        lemma_lookup_skip("SUB_U64"@, 10);
        reveal_strlit("GT_I64_JUMP");
        assert(Op::spec_from_index(11u64) == Some(Op::GtI64Jump));
        assert("GT_I64_JUMP"@.len() == 11);
        lemma_lookup_skip("SUB_U64"@, 11);
        reveal_strlit("GTE_I64_JUMP");
        assert(Op::spec_from_index(12u64) == Some(Op::GteI64Jump));
        assert("GTE_I64_JUMP"@.len() == 12);
        lemma_lookup_skip("SUB_U64"@, 12);
        reveal_strlit("GET_DECODE");
        assert(Op::spec_from_index(13u64) == Some(Op::GetDecode));
        assert("GET_DECODE"@.len() == 10);
        lemma_lookup_skip("SUB_U64"@, 13);
        reveal_strlit("GET_DECODED");
        assert(Op::spec_from_index(14u64) == Some(Op::GetDecoded));
        assert("GET_DECODED"@.len() == 11);
        lemma_lookup_skip("SUB_U64"@, 14);
        reveal_strlit("EXIT");
        assert(Op::spec_from_index(15u64) == Some(Op::Exit));
        assert("EXIT"@.len() == 4);
        lemma_lookup_skip("SUB_U64"@, 15);
        reveal_strlit("PRINT_U64");
        assert(Op::spec_from_index(16u64) == Some(Op::PrintU64));
        assert("PRINT_U64"@.len() == 9);
        lemma_lookup_skip("SUB_U64"@, 16);
        reveal_strlit("ALLOC");
        assert(Op::spec_from_index(17u64) == Some(Op::Alloc));
        assert("ALLOC"@.len() == 5);
        lemma_lookup_skip("SUB_U64"@, 17);
        reveal_strlit("REALLOC");
        assert(Op::spec_from_index(18u64) == Some(Op::Realloc));
        assert("REALLOC"@[0] == 'R' && "SUB_U64"@[0] == 'S');
        lemma_lookup_skip("SUB_U64"@, 18);
        reveal_strlit("DEALLOC");
        assert(Op::spec_from_index(19u64) == Some(Op::Dealloc));
        assert("DEALLOC"@[0] == 'D' && "SUB_U64"@[0] == 'S');
        lemma_lookup_skip("SUB_U64"@, 19);
        reveal_strlit("MOV");
        assert(Op::spec_from_index(20u64) == Some(Op::Mov));
        assert("MOV"@.len() == 3);
        lemma_lookup_skip("SUB_U64"@, 20);
        reveal_strlit("LOAD_U64_IMMEDIATE");
        assert(Op::spec_from_index(21u64) == Some(Op::LoadU64Immediate));
        assert("LOAD_U64_IMMEDIATE"@.len() == 18);
        lemma_lookup_skip("SUB_U64"@, 21);
        reveal_strlit("SWAP");
        assert(Op::spec_from_index(22u64) == Some(Op::Swap));
        assert("SWAP"@.len() == 4);
        lemma_lookup_skip("SUB_U64"@, 22);
        reveal_strlit("ADD_U64");
        assert(Op::spec_from_index(23u64) == Some(Op::AddU64));
        assert("ADD_U64"@[0] == 'A' && "SUB_U64"@[0] == 'S');
        lemma_lookup_skip("SUB_U64"@, 23);
        reveal_strlit("ADD_U64_IMMEDIATE");
        assert(Op::spec_from_index(24u64) == Some(Op::AddU64Immediate));
        assert("ADD_U64_IMMEDIATE"@.len() == 17);
        lemma_lookup_skip("SUB_U64"@, 24);
        reveal_strlit("ADD_I64");
        assert(Op::spec_from_index(25u64) == Some(Op::AddI64));
        assert("ADD_I64"@[0] == 'A' && "SUB_U64"@[0] == 'S');
        lemma_lookup_skip("SUB_U64"@, 25);
        reveal_strlit("ADD_I64_IMMEDIATE");
        assert(Op::spec_from_index(26u64) == Some(Op::AddI64Immediate));
        assert("ADD_I64_IMMEDIATE"@.len() == 17);
        lemma_lookup_skip("SUB_U64"@, 26);
        assert(Op::spec_from_index(27u64) == Some(Op::SubU64));
        lemma_lookup_hit("SUB_U64"@, 27);
    }
    assert(spec_lookup("MUL_U64"@) == Some(Op::MulU64)) by {
        reveal_strlit("MUL_U64");
        assert("MUL_U64"@.len() == 7);
        reveal_strlit("RET");
        assert(Op::spec_from_index(0u64) == Some(Op::Ret));
        assert("RET"@.len() == 3);
        lemma_lookup_skip("MUL_U64"@, 0);
        reveal_strlit("CALL");
        assert(Op::spec_from_index(1u64) == Some(Op::Call));
        assert("CALL"@.len() == 4);
        lemma_lookup_skip("MUL_U64"@, 1);
        reveal_strlit("JUMP");
        assert(Op::spec_from_index(2u64) == Some(Op::Jump));
        assert("JUMP"@.len() == 4);
        lemma_lookup_skip("MUL_U64"@, 2);
        reveal_strlit("EQ_JUMP");
        assert(Op::spec_from_index(3u64) == Some(Op::EqJump));
        assert("EQ_JUMP"@[0] == 'E' && "MUL_U64"@[0] == 'M');
        lemma_lookup_skip("MUL_U64"@, 3);
        reveal_strlit("NEQ_JUMP");
        assert(Op::spec_from_index(4u64) == Some(Op::NeqJump));
        assert("NEQ_JUMP"@.len() == 8);
        lemma_lookup_skip("MUL_U64"@, 4);
        reveal_strlit("LT_U64_JUMP");
        assert(Op::spec_from_index(5u64) == Some(Op::LtU64Jump));
        assert("LT_U64_JUMP"@.len() == 11);
        lemma_lookup_skip("MUL_U64"@, 5);
        reveal_strlit("LTE_U64_JUMP");
        assert(Op::spec_from_index(6u64) == Some(Op::LteU64Jump));
        assert("LTE_U64_JUMP"@.len() == 12);
        lemma_lookup_skip("MUL_U64"@, 6);
        reveal_strlit("LT_I64_JUMP");
        assert(Op::spec_from_index(7u64) == Some(Op::LtI64Jump));
        assert("LT_I64_JUMP"@.len() == 11);
        lemma_lookup_skip("MUL_U64"@, 7);
        reveal_strlit("LTE_I64_JUMP");
        assert(Op::spec_from_index(8u64) == Some(Op::LteI64Jump));
        assert("LTE_I64_JUMP"@.len() == 12);
        lemma_lookup_skip("MUL_U64"@, 8);
        reveal_strlit("GT_U64_JUMP");
        assert(Op::spec_from_index(9u64) == Some(Op::GtU64Jump));
        assert("GT_U64_JUMP"@.len() == 11);
        lemma_lookup_skip("MUL_U64"@, 9);
        reveal_strlit("GTE_U64_JUMP");
        assert(Op::spec_from_index(10u64) == Some(Op::GteU64Jump));
        assert("GTE_U64_JUMP"@.len() == 12);
        lemma_lookup_skip("MUL_U64"@, 10);
        reveal_strlit("GT_I64_JUMP");
        assert(Op::spec_from_index(11u64) == Some(Op::GtI64Jump));
        assert("GT_I64_JUMP"@.len() == 11);
        lemma_lookup_skip("MUL_U64"@, 11);
        reveal_strlit("GTE_I64_JUMP");
        assert(Op::spec_from_index(12u64) == Some(Op::GteI64Jump));
        assert("GTE_I64_JUMP"@.len() == 12);
        lemma_lookup_skip("MUL_U64"@, 12);
        reveal_strlit("GET_DECODE");
        assert(Op::spec_from_index(13u64) == Some(Op::GetDecode));
        assert("GET_DECODE"@.len() == 10);
        lemma_lookup_skip("MUL_U64"@, 13);
        reveal_strlit("GET_DECODED");
        assert(Op::spec_from_index(14u64) == Some(Op::GetDecoded));
        assert("GET_DECODED"@.len() == 11);
        lemma_lookup_skip("MUL_U64"@, 14);
        reveal_strlit("EXIT");
        assert(Op::spec_from_index(15u64) == Some(Op::Exit));
        assert("EXIT"@.len() == 4);
        lemma_lookup_skip("MUL_U64"@, 15);
        reveal_strlit("PRINT_U64");
        assert(Op::spec_from_index(16u64) == Some(Op::PrintU64));
        assert("PRINT_U64"@.len() == 9);
        lemma_lookup_skip("MUL_U64"@, 16);
        reveal_strlit("ALLOC");
        assert(Op::spec_from_index(17u64) == Some(Op::Alloc));
        assert("ALLOC"@.len() == 5);
        lemma_lookup_skip("MUL_U64"@, 17);
        reveal_strlit("REALLOC");
        assert(Op::spec_from_index(18u64) == Some(Op::Realloc));
        assert("REALLOC"@[0] == 'R' && "MUL_U64"@[0] == 'M');
        lemma_lookup_skip("MUL_U64"@, 18);
        reveal_strlit("DEALLOC");
        assert(Op::spec_from_index(19u64) == Some(Op::Dealloc));
        assert("DEALLOC"@[0] == 'D' && "MUL_U64"@[0] == 'M');
        lemma_lookup_skip("MUL_U64"@, 19);
        reveal_strlit("MOV");
        assert(Op::spec_from_index(20u64) == Some(Op::Mov));
        assert("MOV"@.len() == 3);
        lemma_lookup_skip("MUL_U64"@, 20);
        reveal_strlit("LOAD_U64_IMMEDIATE");
        assert(Op::spec_from_index(21u64) == Some(Op::LoadU64Immediate));
        assert("LOAD_U64_IMMEDIATE"@.len() == 18);
        lemma_lookup_skip("MUL_U64"@, 21);
        reveal_strlit("SWAP");
        assert(Op::spec_from_index(22u64) == Some(Op::Swap));
        assert("SWAP"@.len() == 4);
        lemma_lookup_skip("MUL_U64"@, 22);
        reveal_strlit("ADD_U64");
        assert(Op::spec_from_index(23u64) == Some(Op::AddU64));
        assert("ADD_U64"@[0] == 'A' && "MUL_U64"@[0] == 'M');
        lemma_lookup_skip("MUL_U64"@, 23);
        reveal_strlit("ADD_U64_IMMEDIATE");
        assert(Op::spec_from_index(24u64) == Some(Op::AddU64Immediate));
        assert("ADD_U64_IMMEDIATE"@.len() == 17);
        lemma_lookup_skip("MUL_U64"@, 24);
        reveal_strlit("ADD_I64");
        assert(Op::spec_from_index(25u64) == Some(Op::AddI64));
        assert("ADD_I64"@[0] == 'A' && "MUL_U64"@[0] == 'M');
        lemma_lookup_skip("MUL_U64"@, 25);
        reveal_strlit("ADD_I64_IMMEDIATE");
        assert(Op::spec_from_index(26u64) == Some(Op::AddI64Immediate));
        assert("ADD_I64_IMMEDIATE"@.len() == 17);
        lemma_lookup_skip("MUL_U64"@, 26);
        reveal_strlit("SUB_U64");
        assert(Op::spec_from_index(27u64) == Some(Op::SubU64));
        assert("SUB_U64"@[0] == 'S' && "MUL_U64"@[0] == 'M');
        lemma_lookup_skip("MUL_U64"@, 27);
        reveal_strlit("SUB_U64_IMMEDIATE");
        assert(Op::spec_from_index(28u64) == Some(Op::SubU64Immediate));
        assert("SUB_U64_IMMEDIATE"@.len() == 17);
        lemma_lookup_skip("MUL_U64"@, 28);
        reveal_strlit("SUB_I64");
        assert(Op::spec_from_index(29u64) == Some(Op::SubI64));
        assert("SUB_I64"@[0] == 'S' && "MUL_U64"@[0] == 'M');
        lemma_lookup_skip("MUL_U64"@, 29);
        reveal_strlit("SUB_I64_IMMEDIATE");
        assert(Op::spec_from_index(30u64) == Some(Op::SubI64Immediate));
        assert("SUB_I64_IMMEDIATE"@.len() == 17);
        lemma_lookup_skip("MUL_U64"@, 30);
        assert(Op::spec_from_index(31u64) == Some(Op::MulU64));
        lemma_lookup_hit("MUL_U64"@, 31);
    }
    assert(spec_lookup("DIV_U64"@) == Some(Op::DivU64)) by {
        reveal_strlit("DIV_U64");
        assert("DIV_U64"@.len() == 7);
        reveal_strlit("RET");
        assert(Op::spec_from_index(0u64) == Some(Op::Ret));
        assert("RET"@.len() == 3);
        lemma_lookup_skip("DIV_U64"@, 0);
        reveal_strlit("CALL");
        assert(Op::spec_from_index(1u64) == Some(Op::Call));
        assert("CALL"@.len() == 4);
        lemma_lookup_skip("DIV_U64"@, 1);
        reveal_strlit("JUMP");
        assert(Op::spec_from_index(2u64) == Some(Op::Jump));
        assert("JUMP"@.len() == 4);
        lemma_lookup_skip("DIV_U64"@, 2);
        reveal_strlit("EQ_JUMP");
        assert(Op::spec_from_index(3u64) == Some(Op::EqJump));
        assert("EQ_JUMP"@[0] == 'E' && "DIV_U64"@[0] == 'D');
        lemma_lookup_skip("DIV_U64"@, 3);
        reveal_strlit("NEQ_JUMP");
        assert(Op::spec_from_index(4u64) == Some(Op::NeqJump));
        assert("NEQ_JUMP"@.len() == 8);
        lemma_lookup_skip("DIV_U64"@, 4);
        reveal_strlit("LT_U64_JUMP");
        assert(Op::spec_from_index(5u64) == Some(Op::LtU64Jump));
        assert("LT_U64_JUMP"@.len() == 11);
        lemma_lookup_skip("DIV_U64"@, 5);
        reveal_strlit("LTE_U64_JUMP");
        assert(Op::spec_from_index(6u64) == Some(Op::LteU64Jump));
        assert("LTE_U64_JUMP"@.len() == 12);
        lemma_lookup_skip("DIV_U64"@, 6);
        reveal_strlit("LT_I64_JUMP");
        assert(Op::spec_from_index(7u64) == Some(Op::LtI64Jump));
        assert("LT_I64_JUMP"@.len() == 11);
        lemma_lookup_skip("DIV_U64"@, 7);
        reveal_strlit("LTE_I64_JUMP");
        assert(Op::spec_from_index(8u64) == Some(Op::LteI64Jump));
        assert("LTE_I64_JUMP"@.len() == 12);
        lemma_lookup_skip("DIV_U64"@, 8);
        reveal_strlit("GT_U64_JUMP");
        assert(Op::spec_from_index(9u64) == Some(Op::GtU64Jump));
        assert("GT_U64_JUMP"@.len() == 11);
        lemma_lookup_skip("DIV_U64"@, 9);
        reveal_strlit("GTE_U64_JUMP");
        assert(Op::spec_from_index(10u64) == Some(Op::GteU64Jump));
        assert("GTE_U64_JUMP"@.len() == 12);
        lemma_lookup_skip("DIV_U64"@, 10);
        reveal_strlit("GT_I64_JUMP");
        assert(Op::spec_from_index(11u64) == Some(Op::GtI64Jump));
        assert("GT_I64_JUMP"@.len() == 11);
        lemma_lookup_skip("DIV_U64"@, 11);
        reveal_strlit("GTE_I64_JUMP");
        assert(Op::spec_from_index(12u64) == Some(Op::GteI64Jump));
        assert("GTE_I64_JUMP"@.len() == 12);
        lemma_lookup_skip("DIV_U64"@, 12);
        reveal_strlit("GET_DECODE");
        assert(Op::spec_from_index(13u64) == Some(Op::GetDecode));
        assert("GET_DECODE"@.len() == 10);
        lemma_lookup_skip("DIV_U64"@, 13);
        reveal_strlit("GET_DECODED");
        assert(Op::spec_from_index(14u64) == Some(Op::GetDecoded));
        assert("GET_DECODED"@.len() == 11);
        lemma_lookup_skip("DIV_U64"@, 14);
        reveal_strlit("EXIT");
        assert(Op::spec_from_index(15u64) == Some(Op::Exit));
        assert("EXIT"@.len() == 4);
        lemma_lookup_skip("DIV_U64"@, 15);
        reveal_strlit("PRINT_U64");
        assert(Op::spec_from_index(16u64) == Some(Op::PrintU64));
        assert("PRINT_U64"@.len() == 9);
        lemma_lookup_skip("DIV_U64"@, 16);
        reveal_strlit("ALLOC");
        assert(Op::spec_from_index(17u64) == Some(Op::Alloc));
        assert("ALLOC"@.len() == 5);
        lemma_lookup_skip("DIV_U64"@, 17);
        reveal_strlit("REALLOC");
        assert(Op::spec_from_index(18u64) == Some(Op::Realloc));
        assert("REALLOC"@[0] == 'R' && "DIV_U64"@[0] == 'D');
        lemma_lookup_skip("DIV_U64"@, 18);
        reveal_strlit("DEALLOC");
        assert(Op::spec_from_index(19u64) == Some(Op::Dealloc));
        assert("DEALLOC"@[1] == 'E' && "DIV_U64"@[1] == 'I');
        lemma_lookup_skip("DIV_U64"@, 19);
        reveal_strlit("MOV");
        assert(Op::spec_from_index(20u64) == Some(Op::Mov));
        assert("MOV"@.len() == 3);
        lemma_lookup_skip("DIV_U64"@, 20);
        reveal_strlit("LOAD_U64_IMMEDIATE");
        assert(Op::spec_from_index(21u64) == Some(Op::LoadU64Immediate));
        assert("LOAD_U64_IMMEDIATE"@.len() == 18);
        lemma_lookup_skip("DIV_U64"@, 21);
        reveal_strlit("SWAP");
        assert(Op::spec_from_index(22u64) == Some(Op::Swap));
        assert("SWAP"@.len() == 4);
        lemma_lookup_skip("DIV_U64"@, 22);
        reveal_strlit("ADD_U64");
        assert(Op::spec_from_index(23u64) == Some(Op::AddU64));
        assert("ADD_U64"@[0] == 'A' && "DIV_U64"@[0] == 'D');
        lemma_lookup_skip("DIV_U64"@, 23);
        reveal_strlit("ADD_U64_IMMEDIATE");
        assert(Op::spec_from_index(24u64) == Some(Op::AddU64Immediate));
        assert("ADD_U64_IMMEDIATE"@.len() == 17);
        lemma_lookup_skip("DIV_U64"@, 24);
        reveal_strlit("ADD_I64");
        assert(Op::spec_from_index(25u64) == Some(Op::AddI64));
        assert("ADD_I64"@[0] == 'A' && "DIV_U64"@[0] == 'D');
        lemma_lookup_skip("DIV_U64"@, 25);
        reveal_strlit("ADD_I64_IMMEDIATE");
        assert(Op::spec_from_index(26u64) == Some(Op::AddI64Immediate));
        assert("ADD_I64_IMMEDIATE"@.len() == 17);
        lemma_lookup_skip("DIV_U64"@, 26);
        reveal_strlit("SUB_U64");
        assert(Op::spec_from_index(27u64) == Some(Op::SubU64));
        assert("SUB_U64"@[0] == 'S' && "DIV_U64"@[0] == 'D');
        lemma_lookup_skip("DIV_U64"@, 27);
        reveal_strlit("SUB_U64_IMMEDIATE");
        assert(Op::spec_from_index(28u64) == Some(Op::SubU64Immediate));
        assert("SUB_U64_IMMEDIATE"@.len() == 17);
        lemma_lookup_skip("DIV_U64"@, 28);
        reveal_strlit("SUB_I64");
        assert(Op::spec_from_index(29u64) == Some(Op::SubI64));
        assert("SUB_I64"@[0] == 'S' && "DIV_U64"@[0] == 'D');
        lemma_lookup_skip("DIV_U64"@, 29);
        reveal_strlit("SUB_I64_IMMEDIATE");
        assert(Op::spec_from_index(30u64) == Some(Op::SubI64Immediate));
        assert("SUB_I64_IMMEDIATE"@.len() == 17);
        lemma_lookup_skip("DIV_U64"@, 30);
        reveal_strlit("MUL_U64");
        assert(Op::spec_from_index(31u64) == Some(Op::MulU64));
        assert("MUL_U64"@[0] == 'M' && "DIV_U64"@[0] == 'D');
        lemma_lookup_skip("DIV_U64"@, 31);
        reveal_strlit("MUL_U64_IMMEDIATE");
        assert(Op::spec_from_index(32u64) == Some(Op::MulU64Immediate));
        assert("MUL_U64_IMMEDIATE"@.len() == 17);
        lemma_lookup_skip("DIV_U64"@, 32);
        reveal_strlit("MUL_I64");
        assert(Op::spec_from_index(33u64) == Some(Op::MulI64));
        assert("MUL_I64"@[0] == 'M' && "DIV_U64"@[0] == 'D');
        lemma_lookup_skip("DIV_U64"@, 33);
        reveal_strlit("MUL_I64_IMMEDIATE");
        assert(Op::spec_from_index(34u64) == Some(Op::MulI64Immediate));
        assert("MUL_I64_IMMEDIATE"@.len() == 17);
        lemma_lookup_skip("DIV_U64"@, 34);
        assert(Op::spec_from_index(35u64) == Some(Op::DivU64));
        lemma_lookup_hit("DIV_U64"@, 35);
    }
    assert(spec_lookup("MOD_I64"@) == Some(Op::ModI64)) by {
        reveal_strlit("MOD_I64");
        assert("MOD_I64"@.len() == 7);
        reveal_strlit("RET");
        assert(Op::spec_from_index(0u64) == Some(Op::Ret));
        assert("RET"@.len() == 3);
        lemma_lookup_skip("MOD_I64"@, 0);
        reveal_strlit("CALL");
        assert(Op::spec_from_index(1u64) == Some(Op::Call));
        assert("CALL"@.len() == 4);
        lemma_lookup_skip("MOD_I64"@, 1);
        reveal_strlit("JUMP");
        assert(Op::spec_from_index(2u64) == Some(Op::Jump));
        assert("JUMP"@.len() == 4);
        lemma_lookup_skip("MOD_I64"@, 2);
        reveal_strlit("EQ_JUMP");
        assert(Op::spec_from_index(3u64) == Some(Op::EqJump));
        assert("EQ_JUMP"@[0] == 'E' && "MOD_I64"@[0] == 'M');
        lemma_lookup_skip("MOD_I64"@, 3);
        reveal_strlit("NEQ_JUMP");
        assert(Op::spec_from_index(4u64) == Some(Op::NeqJump));
        assert("NEQ_JUMP"@.len() == 8);
        lemma_lookup_skip("MOD_I64"@, 4);
        reveal_strlit("LT_U64_JUMP");
        assert(Op::spec_from_index(5u64) == Some(Op::LtU64Jump));
        assert("LT_U64_JUMP"@.len() == 11);
        lemma_lookup_skip("MOD_I64"@, 5);
        reveal_strlit("LTE_U64_JUMP");
        assert(Op::spec_from_index(6u64) == Some(Op::LteU64Jump));
        assert("LTE_U64_JUMP"@.len() == 12);
        lemma_lookup_skip("MOD_I64"@, 6);
        reveal_strlit("LT_I64_JUMP");
        assert(Op::spec_from_index(7u64) == Some(Op::LtI64Jump));
        assert("LT_I64_JUMP"@.len() == 11);
        lemma_lookup_skip("MOD_I64"@, 7);
        reveal_strlit("LTE_I64_JUMP");
        assert(Op::spec_from_index(8u64) == Some(Op::LteI64Jump));
        assert("LTE_I64_JUMP"@.len() == 12);
        lemma_lookup_skip("MOD_I64"@, 8);
        reveal_strlit("GT_U64_JUMP");
        assert(Op::spec_from_index(9u64) == Some(Op::GtU64Jump));
        assert("GT_U64_JUMP"@.len() == 11);
        lemma_lookup_skip("MOD_I64"@, 9);
        reveal_strlit("GTE_U64_JUMP");
        assert(Op::spec_from_index(10u64) == Some(Op::GteU64Jump));
        assert("GTE_U64_JUMP"@.len() == 12);
        lemma_lookup_skip("MOD_I64"@, 10);
        reveal_strlit("GT_I64_JUMP");
        assert(Op::spec_from_index(11u64) == Some(Op::GtI64Jump));
        assert("GT_I64_JUMP"@.len() == 11);
        lemma_lookup_skip("MOD_I64"@, 11);
        reveal_strlit("GTE_I64_JUMP");
        assert(Op::spec_from_index(12u64) == Some(Op::GteI64Jump));
        assert("GTE_I64_JUMP"@.len() == 12);
        lemma_lookup_skip("MOD_I64"@, 12);
        reveal_strlit("GET_DECODE");
        assert(Op::spec_from_index(13u64) == Some(Op::GetDecode));
        assert("GET_DECODE"@.len() == 10);
        lemma_lookup_skip("MOD_I64"@, 13);
        reveal_strlit("GET_DECODED");
        assert(Op::spec_from_index(14u64) == Some(Op::GetDecoded));
        assert("GET_DECODED"@.len() == 11);
        lemma_lookup_skip("MOD_I64"@, 14);
        reveal_strlit("EXIT");
        assert(Op::spec_from_index(15u64) == Some(Op::Exit));
        assert("EXIT"@.len() == 4);
        lemma_lookup_skip("MOD_I64"@, 15);
        reveal_strlit("PRINT_U64");
        assert(Op::spec_from_index(16u64) == Some(Op::PrintU64));
        assert("PRINT_U64"@.len() == 9);
        lemma_lookup_skip("MOD_I64"@, 16);
        reveal_strlit("ALLOC");
        assert(Op::spec_from_index(17u64) == Some(Op::Alloc));
        assert("ALLOC"@.len() == 5);
        lemma_lookup_skip("MOD_I64"@, 17);
        reveal_strlit("REALLOC");
        assert(Op::spec_from_index(18u64) == Some(Op::Realloc));
        assert("REALLOC"@[0] == 'R' && "MOD_I64"@[0] == 'M');
        lemma_lookup_skip("MOD_I64"@, 18);
        reveal_strlit("DEALLOC");
        assert(Op::spec_from_index(19u64) == Some(Op::Dealloc));
        assert("DEALLOC"@[0] == 'D' && "MOD_I64"@[0] == 'M');
        lemma_lookup_skip("MOD_I64"@, 19);
        reveal_strlit("MOV");
        assert(Op::spec_from_index(20u64) == Some(Op::Mov));
        assert("MOV"@.len() == 3);
        lemma_lookup_skip("MOD_I64"@, 20);
        reveal_strlit("LOAD_U64_IMMEDIATE");
        assert(Op::spec_from_index(21u64) == Some(Op::LoadU64Immediate));
        assert("LOAD_U64_IMMEDIATE"@.len() == 18);
        lemma_lookup_skip("MOD_I64"@, 21);
        reveal_strlit("SWAP");
        assert(Op::spec_from_index(22u64) == Some(Op::Swap));
        assert("SWAP"@.len() == 4);
        lemma_lookup_skip("MOD_I64"@, 22);
        reveal_strlit("ADD_U64");
        assert(Op::spec_from_index(23u64) == Some(Op::AddU64));
        assert("ADD_U64"@[0] == 'A' && "MOD_I64"@[0] == 'M');
        lemma_lookup_skip("MOD_I64"@, 23);
        reveal_strlit("ADD_U64_IMMEDIATE");
        assert(Op::spec_from_index(24u64) == Some(Op::AddU64Immediate));
        assert("ADD_U64_IMMEDIATE"@.len() == 17);
        lemma_lookup_skip("MOD_I64"@, 24);
        reveal_strlit("ADD_I64");
        assert(Op::spec_from_index(25u64) == Some(Op::AddI64));
        assert("ADD_I64"@[0] == 'A' && "MOD_I64"@[0] == 'M');
        lemma_lookup_skip("MOD_I64"@, 25);
        reveal_strlit("ADD_I64_IMMEDIATE");
        assert(Op::spec_from_index(26u64) == Some(Op::AddI64Immediate));
        assert("ADD_I64_IMMEDIATE"@.len() == 17);
        lemma_lookup_skip("MOD_I64"@, 26);
        reveal_strlit("SUB_U64");
        assert(Op::spec_from_index(27u64) == Some(Op::SubU64));
        assert("SUB_U64"@[0] == 'S' && "MOD_I64"@[0] == 'M');
        lemma_lookup_skip("MOD_I64"@, 27);
        reveal_strlit("SUB_U64_IMMEDIATE");
        assert(Op::spec_from_index(28u64) == Some(Op::SubU64Immediate));
        assert("SUB_U64_IMMEDIATE"@.len() == 17);
        lemma_lookup_skip("MOD_I64"@, 28);
        reveal_strlit("SUB_I64");
        assert(Op::spec_from_index(29u64) == Some(Op::SubI64));
        assert("SUB_I64"@[0] == 'S' && "MOD_I64"@[0] == 'M');
        lemma_lookup_skip("MOD_I64"@, 29);
        reveal_strlit("SUB_I64_IMMEDIATE");
        assert(Op::spec_from_index(30u64) == Some(Op::SubI64Immediate));
        assert("SUB_I64_IMMEDIATE"@.len() == 17);
        lemma_lookup_skip("MOD_I64"@, 30);
        reveal_strlit("MUL_U64");
        assert(Op::spec_from_index(31u64) == Some(Op::MulU64));
        assert("MUL_U64"@[1] == 'U' && "MOD_I64"@[1] == 'O');
        lemma_lookup_skip("MOD_I64"@, 31);
        reveal_strlit("MUL_U64_IMMEDIATE");
        assert(Op::spec_from_index(32u64) == Some(Op::MulU64Immediate));
        assert("MUL_U64_IMMEDIATE"@.len() == 17);
        lemma_lookup_skip("MOD_I64"@, 32);
        reveal_strlit("MUL_I64");
        assert(Op::spec_from_index(33u64) == Some(Op::MulI64));
        assert("MUL_I64"@[1] == 'U' && "MOD_I64"@[1] == 'O');
        lemma_lookup_skip("MOD_I64"@, 33);
        reveal_strlit("MUL_I64_IMMEDIATE");
        assert(Op::spec_from_index(34u64) == Some(Op::MulI64Immediate));
        assert("MUL_I64_IMMEDIATE"@.len() == 17);
        lemma_lookup_skip("MOD_I64"@, 34);
        reveal_strlit("DIV_U64");
        assert(Op::spec_from_index(35u64) == Some(Op::DivU64));
        assert("DIV_U64"@[0] == 'D' && "MOD_I64"@[0] == 'M');
        lemma_lookup_skip("MOD_I64"@, 35);
        reveal_strlit("DIV_U64_IMMEDIATE");
        assert(Op::spec_from_index(36u64) == Some(Op::DivU64Immediate));
        assert("DIV_U64_IMMEDIATE"@.len() == 17);
        lemma_lookup_skip("MOD_I64"@, 36);
        reveal_strlit("DIV_I64");
        assert(Op::spec_from_index(37u64) == Some(Op::DivI64));
        assert("DIV_I64"@[0] == 'D' && "MOD_I64"@[0] == 'M');
        lemma_lookup_skip("MOD_I64"@, 37);
        reveal_strlit("DIV_I64_IMMEDIATE");
        assert(Op::spec_from_index(38u64) == Some(Op::DivI64Immediate));
        assert("DIV_I64_IMMEDIATE"@.len() == 17);
        lemma_lookup_skip("MOD_I64"@, 38);
        reveal_strlit("ABS");
        assert(Op::spec_from_index(39u64) == Some(Op::Abs));
        assert("ABS"@.len() == 3);
        lemma_lookup_skip("MOD_I64"@, 39);
        assert(Op::spec_from_index(40u64) == Some(Op::ModI64));
        lemma_lookup_hit("MOD_I64"@, 40);
    }
}

} // verus!
