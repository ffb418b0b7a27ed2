//! The VM: its registers and program counter, the handlers of its
//! instructions, and the state they read and write.
use vstd::prelude::*;

use crate::vm::function::Function;
use crate::vm::instruction::{byte_at, Instruction};
use crate::vm::io::{head_result, record_all, submitted, FuId, IoEngine, IoId, IoOp, IoResult, Reactor};
use crate::vm::memory::{dealloc_effect, id_of, id_unit, resized, DefaultMemoryManager, Heep, VPtr};
use crate::vm::numeric::wrap64;

verus! {

/// The number of registers.
pub const REGISTER_NUM: usize = 256;

/// The `PAUSE` bit of `state_flag`.
pub const PAUSE: u8 = 1;

/// The registers and the place of execution. Register 0 starts at 0 and
/// register 255 at `u64::MAX`.
pub struct VMState {
    pub r: Vec<u64>,
    pub pc: usize,
    pub now_call_index: usize,
    /// Return pc and function index of each call, pushed in that order.
    pub call_stack: Vec<usize>,
    pub state_flag: u8,
}

/// A VM: its state, the decoded functions, its heaps and its I/O.
pub struct VM<R: Reactor> {
    pub st: VMState,
    pub function_table: Vec<Function>,
    pub mem: DefaultMemoryManager,
    pub io: IoEngine<R>,
}

/// The handlers of the instructions.
pub struct Operations;

impl VMState {
    pub fn new() -> (r: Self)
        ensures
            r.r@.len() == REGISTER_NUM,
            r.r@[0] == 0,
            r.r@[255] == u64::MAX,
            forall|i: int| 0 < i < 255 ==> #[trigger] r.r@[i] == 0,
            r.pc == 0,
            r.now_call_index == 0,
            r.call_stack@.len() == 0,
            r.state_flag == 0,
    {
        let mut r: Vec<u64> = Vec::new();
        while r.len() < REGISTER_NUM
            invariant
                r@.len() <= REGISTER_NUM,
                forall|i: int| 0 <= i < r@.len() ==> #[trigger] r@[i] == 0,
            decreases REGISTER_NUM - r@.len(),
        {
            r.push(0);
        }
        r.set(255, u64::MAX);
        VMState { r, pc: 0, now_call_index: 0, call_stack: Vec::new(), state_flag: 0 }
    }
}

impl<R: Reactor> VM<R> {
    /// A VM with no functions yet, fresh registers, and the given heaps and
    /// I/O engine.
    pub fn new(mem: DefaultMemoryManager, io: IoEngine<R>) -> (r: Self)
        ensures
            r.st.r@.len() == REGISTER_NUM,
            r.st.pc == 0,
            r.function_table@.len() == 0,
    {
        VM { st: VMState::new(), function_table: Vec::new(), mem, io }
    }

    /// The registers have their number and the current function exists.
    pub open spec fn wf(&self) -> bool {
        &&& self.st.r@.len() == REGISTER_NUM
        &&& self.st.now_call_index < self.function_table@.len()
    }

    /// The words of the current function.
    pub open spec fn code(&self) -> Seq<Instruction> {
        self.function_table@[self.st.now_call_index as int].instructions@
    }

    /// The `n`-th word after the one at pc.
    pub open spec fn imm(&self, n: int) -> u64 {
        self.code()[self.st.pc + n].code
    }

    /// Byte `i` of the `n`-th word after the one at pc.
    pub open spec fn ol(&self, n: int, i: u64) -> u8 {
        byte_at(self.imm(n), i)
    }

    /// The words up to `n` after pc exist.
    pub open spec fn has_words(&self, n: int) -> bool {
        self.st.pc + n < self.function_table@[self.st.now_call_index as int].instructions.len()
    }

    /// Register `i`.
    pub open spec fn reg(&self, i: u8) -> u64 {
        self.st.r@[i as int]
    }

    /// Everything but the registers and pc is as in `other`.
    pub open spec fn same_rest(&self, other: &Self) -> bool {
        &&& self.st.now_call_index == other.st.now_call_index
        &&& self.st.call_stack@ == other.st.call_stack@
        &&& self.st.state_flag == other.st.state_flag
        &&& self.function_table@ == other.function_table@
        &&& self.mem.data@ == other.mem.data@
        &&& self.mem.reuse_list@ == other.mem.reuse_list@
        &&& self.io == other.io
    }

    /// `self` is `old` with register `d` set to `v` and pc moved on by `n`.
    pub open spec fn set_and_step(&self, old: &Self, d: u8, v: u64, n: int) -> bool {
        &&& self.st.r@ == old.st.r@.update(d as int, v)
        &&& self.st.pc == old.st.pc + n
        &&& self.same_rest(old)
    }

    /// The operand word after pc, as bytes; pc moves on to it.
    pub fn next_operand(&mut self) -> (r: [u8; 8])
        requires
            old(self).wf(),
            old(self).has_words(1),
        ensures
            forall|i: u64| i < 8 ==> r@[i as int] == old(self).ol(1, i),
            final(self).st.pc == old(self).st.pc + 1,
            final(self).st.r@ == old(self).st.r@,
            final(self).same_rest(old(self)),
    {
        self.st.pc = self.st.pc + 1;
        self.function_table[self.st.now_call_index].instructions[self.st.pc].as_ol()
    }

    /// The immediate word after pc; pc moves on to it.
    pub fn next_operand_imm(&mut self) -> (r: u64)
        requires
            old(self).wf(),
            old(self).has_words(1),
        ensures
            r == old(self).imm(1),
            final(self).st.pc == old(self).st.pc + 1,
            final(self).st.r@ == old(self).st.r@,
            final(self).same_rest(old(self)),
    {
        self.st.pc = self.st.pc + 1;
        self.function_table[self.st.now_call_index].instructions[self.st.pc].as_imm()
    }

    /// pc moves on by one word.
    pub fn next_step(&mut self)
        requires
            old(self).st.pc < usize::MAX,
        ensures
            final(self).st.pc == old(self).st.pc + 1,
            final(self).st.r@ == old(self).st.r@,
            final(self).same_rest(old(self)),
    {
        self.st.pc = self.st.pc + 1;
    }
}

// ---------------------------------------------------------------------------
// Bit arithmetic that the handlers state their results in
// ---------------------------------------------------------------------------
/// `u64::rotate_left`.
pub open spec fn rotl(x: u64, s: u64) -> u64 {
    let k = s % 64;
    if k == 0 {
        x
    } else {
        (x << k) | (x >> (64 - k) as u64)
    }
}

/// `u64::rotate_right`.
pub open spec fn rotr(x: u64, s: u64) -> u64 {
    let k = s % 64;
    if k == 0 {
        x
    } else {
        (x >> k) | (x << (64 - k) as u64)
    }
}

/// The number of one bits.
pub open spec fn popcount(x: nat) -> nat
    decreases x,
{
    if x == 0 {
        0
    } else {
        ((x % 2) + popcount(x / 2)) as nat
    }
}

/// The number of trailing zero bits of a 64-bit word (64 for zero).
pub open spec fn trailing_zeros(x: nat, n: nat) -> nat
    decreases n,
{
    if n == 0 || x % 2 == 1 {
        0
    } else {
        1 + trailing_zeros(x / 2, (n - 1) as nat)
    }
}

fn rotate_left_u64(x: u64, s: u64) -> (r: u64)
    ensures
        r == rotl(x, s),
{
    let k = s % 64;
    if k == 0 {
        x
    } else {
        (x << k) | (x >> (64 - k))
    }
}

fn rotate_right_u64(x: u64, s: u64) -> (r: u64)
    ensures
        r == rotr(x, s),
{
    let k = s % 64;
    if k == 0 {
        x
    } else {
        (x >> k) | (x << (64 - k))
    }
}

fn count_ones_u64(x: u64) -> (r: u64)
    ensures
        r == popcount(x as nat),
        r <= 64,
{
    let mut v = x;
    let mut c: u64 = 0;
    let mut k: u64 = 0;
    proof {
        lemma_pow2_64();
    }
    while v > 0
        invariant
            c + popcount(v as nat) == popcount(x as nat),
            c <= k,
            k <= 64,
            v < pow2_u64(64 - k),
        decreases v,
    {
        proof {
            lemma_pow2_step(64 - k);
        }
        c = c + v % 2;
        v = v / 2;
        k = k + 1;
    }
    proof {
        assert(popcount(0) == 0);
    }
    c
}

/// 2^n, for the bound of a word's bits.
pub open spec fn pow2_u64(n: int) -> int
    decreases n,
{
    if n <= 0 {
        1
    } else {
        2 * pow2_u64(n - 1)
    }
}

proof fn lemma_pow2_step(n: int)
    ensures
        n > 0 ==> pow2_u64(n) == 2 * pow2_u64(n - 1),
        n <= 0 ==> pow2_u64(n) == 1,
{
}

proof fn lemma_pow2_64()
    ensures
        pow2_u64(64) == 0x1_0000_0000_0000_0000,
{
    reveal_with_fuel(pow2_u64, 65);
}

fn trailing_zeros_u64(x: u64) -> (r: u64)
    ensures
        r == trailing_zeros(x as nat, 64),
        r <= 64,
{
    let mut v = x;
    let mut k: u64 = 0;
    while k < 64 && v % 2 == 0
        invariant
            k <= 64,
            k + trailing_zeros(v as nat, (64 - k) as nat) == trailing_zeros(x as nat, 64),
        decreases 64 - k,
    {
        v = v / 2;
        k = k + 1;
    }
    k
}

// ---------------------------------------------------------------------------
// Signed views of words
// ---------------------------------------------------------------------------
/// 2^64.
pub open spec fn word_mod() -> int {
    0x1_0000_0000_0000_0000
}

/// A word read as a two's complement signed number.
pub open spec fn sgn(x: u64) -> int {
    if x < 0x8000_0000_0000_0000u64 {
        x as int
    } else {
        x - word_mod()
    }
}

pub open spec fn abs_int(x: int) -> int {
    if x < 0 {
        -x
    } else {
        x
    }
}

/// Division rounding toward zero: the quotient of the magnitudes, negative
/// where the signs differ.
pub open spec fn trunc_div(x: int, d: int) -> int {
    let q = abs_int(x) / abs_int(d);
    if (x < 0) != (d < 0) {
        -q
    } else {
        q
    }
}

/// The remainder of `trunc_div`: the remainder of the magnitudes, with the
/// sign of `x`.
pub open spec fn trunc_rem(x: int, d: int) -> int {
    let m = abs_int(x) % abs_int(d);
    if x < 0 {
        -m
    } else {
        m
    }
}

/// Arithmetic shift right: the bits shifted in copy the sign bit.
pub open spec fn sar(x: u64, s: u32) -> u64 {
    if x < 0x8000_0000_0000_0000u64 {
        x >> s
    } else {
        !((!x) >> s)
    }
}

fn sar_exec(x: u64, s: u32) -> (r: u64)
    requires
        s < 64,
    ensures
        r == sar(x, s),
{
    if x < 0x8000_0000_0000_0000u64 {
        x >> s
    } else {
        !((!x) >> s)
    }
}

proof fn lemma_wrap64_shift(x: int, k: int)
    ensures
        wrap64(x + k * word_mod()) == wrap64(x),
{
    vstd::arithmetic::div_mod::lemma_mod_multiples_vanish(k, x, word_mod());
    assert(word_mod() * k + x == x + k * word_mod()) by (nonlinear_arith);
}

proof fn lemma_wrap64_signed_add(a: u64, b: u64)
    ensures
        wrap64(sgn(a) + sgn(b)) == a.wrapping_add(b),
        wrap64(a + b) == a.wrapping_add(b),
{
    let k: int = (if a < 0x8000_0000_0000_0000u64 { 0int } else { 1int }) + (if b
        < 0x8000_0000_0000_0000u64 {
        0int
    } else {
        1int
    });
    assert(sgn(a) + sgn(b) + k * word_mod() == a + b);
    lemma_wrap64_shift(sgn(a) + sgn(b), k);
    if a + b > u64::MAX {
        lemma_wrap64_shift(a + b - word_mod(), 1);
        vstd::arithmetic::div_mod::lemma_small_mod((a + b - word_mod()) as nat, word_mod() as nat);
    } else {
        vstd::arithmetic::div_mod::lemma_small_mod((a + b) as nat, word_mod() as nat);
    }
}

proof fn lemma_wrap64_signed_sub(a: u64, b: u64)
    ensures
        wrap64(sgn(a) - sgn(b)) == a.wrapping_sub(b),
        wrap64(a - b) == a.wrapping_sub(b),
{
    let k: int = (if a < 0x8000_0000_0000_0000u64 { 0int } else { 1int }) - (if b
        < 0x8000_0000_0000_0000u64 {
        0int
    } else {
        1int
    });
    assert(sgn(a) - sgn(b) + k * word_mod() == a - b);
    lemma_wrap64_shift(sgn(a) - sgn(b), k);
    if a - b < 0 {
        lemma_wrap64_shift(a - b, 1);
        vstd::arithmetic::div_mod::lemma_small_mod((a - b + word_mod()) as nat, word_mod() as nat);
        assert(a - b + 1 * word_mod() == a - b + word_mod());
    } else {
        vstd::arithmetic::div_mod::lemma_small_mod((a - b) as nat, word_mod() as nat);
    }
}

proof fn lemma_wrap64_signed_mul(a: u64, b: u64)
    ensures
        wrap64(sgn(a) * sgn(b)) == a.wrapping_mul(b),
        wrap64(a * b) == a.wrapping_mul(b),
{
    let ka: int = if a < 0x8000_0000_0000_0000u64 { 0 } else { 1 };
    let kb: int = if b < 0x8000_0000_0000_0000u64 { 0 } else { 1 };
    let m = word_mod();
    assert(sgn(a) == a - ka * m);
    assert(sgn(b) == b - kb * m);
    let k = ka * b + kb * a - ka * kb * m;
    lemma_mul_expand(a as int, b as int, ka, kb, m);
    lemma_wrap64_shift(sgn(a) * sgn(b), k);
}

proof fn lemma_mul_expand(a: int, b: int, ka: int, kb: int, m: int)
    requires
        ka == 0 || ka == 1,
        kb == 0 || kb == 1,
    ensures
        (a - ka * m) * (b - kb * m) + (ka * b + kb * a - ka * kb * m) * m == a * b,
{
    if ka == 0 && kb == 0 {
    } else if ka == 1 && kb == 0 {
        assert((a - m) * b + b * m == a * b) by (nonlinear_arith);
    } else if ka == 0 && kb == 1 {
        assert(a * (b - m) + a * m == a * b) by (nonlinear_arith);
    } else {
        assert((a - m) * (b - m) + (b + a - m) * m == a * b) by (nonlinear_arith);
    }
}

/// `|x|` of a signed word, as an unsigned number (`2^63` for `i64::MIN`).
fn unsigned_abs(a: u64) -> (r: u64)
    ensures
        r == abs_int(sgn(a)),
{
    if a < 0x8000_0000_0000_0000u64 {
        a
    } else {
        (u64::MAX - a) + 1
    }
}

/// `i64::wrapping_abs` on the bits of a word.
fn wrapping_abs(a: u64) -> (r: u64)
    ensures
        r == wrap64(abs_int(sgn(a))),
{
    let r = unsigned_abs(a);
    proof {
        vstd::arithmetic::div_mod::lemma_small_mod(r as nat, word_mod() as nat);
    }
    r
}

/// Signed division rounding toward zero, on the bits of words.
fn signed_div(a: u64, b: u64) -> (r: u64)
    requires
        b != 0,
    ensures
        r == wrap64(trunc_div(sgn(a), sgn(b))),
{
    let ua = unsigned_abs(a);
    let ub = unsigned_abs(b);
    let q = ua / ub;
    let neg = (a >= 0x8000_0000_0000_0000u64) != (b >= 0x8000_0000_0000_0000u64);
    proof {
        lemma_wrap64_signed_sub(0, q);
        assert(sgn(0) == 0);
        vstd::arithmetic::div_mod::lemma_small_mod(q as nat, word_mod() as nat);
        assert(q == abs_int(sgn(a)) / abs_int(sgn(b)));
    }
    if neg {
        0u64.wrapping_sub(q)
    } else {
        q
    }
}

/// Signed remainder (of the division rounding toward zero), on the bits of
/// words.
fn signed_rem(a: u64, b: u64) -> (r: u64)
    requires
        b != 0,
    ensures
        r == wrap64(trunc_rem(sgn(a), sgn(b))),
{
    let ua = unsigned_abs(a);
    let ub = unsigned_abs(b);
    let m = ua % ub;
    proof {
        lemma_wrap64_signed_sub(0, m);
        assert(sgn(0) == 0);
        vstd::arithmetic::div_mod::lemma_small_mod(m as nat, word_mod() as nat);
        assert(m == abs_int(sgn(a)) % abs_int(sgn(b)));
    }
    if a >= 0x8000_0000_0000_0000u64 {
        0u64.wrapping_sub(m)
    } else {
        m
    }
}

// ---------------------------------------------------------------------------
// Little-endian values in heap bytes
// ---------------------------------------------------------------------------
pub open spec fn pow256(n: nat) -> nat
    decreases n,
{
    if n == 0 {
        1
    } else {
        256 * pow256((n - 1) as nat)
    }
}

/// The number whose little-endian bytes are `s`.
pub open spec fn le_value(s: Seq<u8>) -> nat
    decreases s.len(),
{
    if s.len() == 0 {
        0
    } else {
        (s[0] + 256 * le_value(s.drop_first())) as nat
    }
}

/// The low `n` bytes of `v`, little-endian.
pub open spec fn le_bytes(v: nat, n: nat) -> Seq<u8>
    decreases n,
{
    if n == 0 {
        seq![]
    } else {
        seq![(v % 256) as u8] + le_bytes(v / 256, (n - 1) as nat)
    }
}

/// An `n`-byte value sign-extended to a word.
pub open spec fn sext(v: nat, n: nat) -> u64 {
    if n < 8 && v >= pow256(n) / 2 {
        wrap64(v - pow256(n))
    } else {
        v as u64
    }
}

/// `x` wrapped to `n` bytes.
pub open spec fn wrapn(x: int, n: nat) -> nat {
    (x % (pow256(n) as int)) as nat
}

/// The widths a memory instruction moves.
pub open spec fn is_width(n: usize) -> bool {
    n == 1 || n == 2 || n == 4 || n == 8
}

proof fn lemma_pow256_values()
    ensures
        pow256(0) == 1,
        pow256(1) == 0x100,
        pow256(2) == 0x1_0000,
        pow256(4) == 0x1_0000_0000,
        pow256(7) == 0x100_0000_0000_0000,
        pow256(8) == 0x1_0000_0000_0000_0000,
{
    reveal_with_fuel(pow256, 9);
}

proof fn lemma_pow256_mono(a: nat, b: nat)
    requires
        a <= b,
    ensures
        1 <= pow256(a) <= pow256(b),
    decreases b,
{
    if a < b {
        lemma_pow256_mono(a, (b - 1) as nat);
    } else {
        lemma_pow256_pos(b);
    }
}

proof fn lemma_pow256_pos(n: nat)
    ensures
        pow256(n) >= 1,
    decreases n,
{
    if n > 0 {
        lemma_pow256_pos((n - 1) as nat);
    }
}

/// `pow256(n)` for a width.
fn width_mod(n: usize) -> (r: u64)
    requires
        n == 1 || n == 2 || n == 4,
    ensures
        r == pow256(n as nat),
{
    proof {
        lemma_pow256_values();
    }
    if n == 1 {
        0x100
    } else if n == 2 {
        0x1_0000
    } else {
        0x1_0000_0000
    }
}

/// The `n`-byte value `v` sign-extended.
fn sext_exec(v: u64, n: usize) -> (r: u64)
    requires
        is_width(n),
        v < pow256(n as nat),
    ensures
        r == sext(v as nat, n as nat),
{
    proof {
        lemma_pow256_values();
    }
    if n == 8 {
        v
    } else {
        let m = width_mod(n);
        if v >= m / 2 {
            proof {
                vstd::arithmetic::div_mod::lemma_small_mod(
                    (v - m + word_mod()) as nat,
                    word_mod() as nat,
                );
                lemma_wrap64_shift(v - m, 1);
            }
            v + (u64::MAX - m) + 1
        } else {
            v
        }
    }
}

/// `(a + b)` wrapped to `n` bytes, where `a` has `n` bytes.
fn add_wrapped(a: u64, b: u64, n: usize) -> (r: u64)
    requires
        is_width(n),
        a < pow256(n as nat),
    ensures
        r == wrapn(a + b, n as nat),
        r < pow256(n as nat),
{
    proof {
        lemma_pow256_values();
    }
    if n == 8 {
        proof {
            lemma_wrap64_signed_add(a, b);
        }
        a.wrapping_add(b)
    } else {
        let m = width_mod(n);
        let s = b % m;
        let t = a + s;
        proof {
            vstd::arithmetic::div_mod::lemma_add_mod_noop(a as int, b as int, m as int);
            vstd::arithmetic::div_mod::lemma_small_mod(a as nat, m as nat);
            if t >= m {
                vstd::arithmetic::div_mod::lemma_small_mod((t - m) as nat, m as nat);
                vstd::arithmetic::div_mod::lemma_mod_sub_multiples_vanish(t as int, m as int);
            } else {
                vstd::arithmetic::div_mod::lemma_small_mod(t as nat, m as nat);
            }
        }
        if t >= m {
            t - m
        } else {
            t
        }
    }
}

/// `(a - b)` wrapped to `n` bytes, where `a` has `n` bytes.
fn sub_wrapped(a: u64, b: u64, n: usize) -> (r: u64)
    requires
        is_width(n),
        a < pow256(n as nat),
    ensures
        r == wrapn(a - b, n as nat),
        r < pow256(n as nat),
{
    proof {
        lemma_pow256_values();
    }
    if n == 8 {
        proof {
            lemma_wrap64_signed_sub(a, b);
        }
        a.wrapping_sub(b)
    } else {
        let m = width_mod(n);
        let s = b % m;
        proof {
            vstd::arithmetic::div_mod::lemma_sub_mod_noop(a as int, b as int, m as int);
            vstd::arithmetic::div_mod::lemma_small_mod(a as nat, m as nat);
            if a >= s {
                vstd::arithmetic::div_mod::lemma_small_mod((a - s) as nat, m as nat);
            } else {
                vstd::arithmetic::div_mod::lemma_small_mod((a + m - s) as nat, m as nat);
                vstd::arithmetic::div_mod::lemma_mod_add_multiples_vanish(a - s, m as int);
            }
        }
        if a >= s {
            a - s
        } else {
            a + (m - s)
        }
    }
}

proof fn lemma_le_value_step(s: Seq<u8>, i: int)
    requires
        0 <= i < s.len(),
    ensures
        le_value(s.subrange(i, s.len() as int)) == s[i] + 256 * le_value(s.subrange(i + 1, s.len() as int)),
{
    assert(s.subrange(i, s.len() as int).drop_first() =~= s.subrange(i + 1, s.len() as int));
}

/// `sgn(a) < sgn(b)`.
fn signed_lt(a: u64, b: u64) -> (r: bool)
    ensures
        r == (sgn(a) < sgn(b)),
{
    let an = a >= 0x8000_0000_0000_0000u64;
    let bn = b >= 0x8000_0000_0000_0000u64;
    if an != bn {
        an
    } else {
        a < b
    }
}

/// Heap `id`'s bytes after a write of `b` at `pos`, all other heaps kept.
pub open spec fn heaps_written(new: Seq<Heep>, old: Seq<Heep>, id: int, pos: int, b: Seq<u8>) -> bool {
    &&& new.len() == old.len()
    &&& new[id].raw.size == old[id].raw.size
    &&& new[id].raw.bytes@ == old[id].raw.bytes@.subrange(0, pos) + b + old[id].raw.bytes@.subrange(
        pos + b.len(),
        old[id].raw.bytes@.len() as int,
    )
    &&& forall|j: int| 0 <= j < old.len() && j != id ==> #[trigger] new[j] == old[j]
}

impl<R: Reactor> VM<R> {
    /// The heap that the pointer in register `id_reg` points into.
    pub open spec fn spot_id(&self, id_reg: u8) -> int {
        id_of(VPtr(self.reg(id_reg)))
    }

    /// `r[addr_reg] + offset` (wrapping): the place in that heap.
    pub open spec fn spot_pos(&self, addr_reg: u8, offset: u64) -> int {
        wrap64(self.reg(addr_reg) + offset) as usize as int
    }

    /// `n` bytes from that place lie in that heap.
    pub open spec fn spot_ok(&self, id_reg: u8, addr_reg: u8, offset: u64, n: int) -> bool {
        &&& self.spot_id(id_reg) < self.mem.data@.len()
        &&& self.spot_pos(addr_reg, offset) + n <= self.mem.data@[self.spot_id(id_reg)].raw.bytes@.len()
    }

    /// The `n` bytes there.
    pub open spec fn spot_bytes(&self, id_reg: u8, addr_reg: u8, offset: u64, n: int) -> Seq<u8> {
        let pos = self.spot_pos(addr_reg, offset);
        self.mem.data@[self.spot_id(id_reg)].raw.bytes@.subrange(pos, pos + n)
    }

    /// Everything but the registers, pc and the heaps' bytes is as in `other`.
    pub open spec fn same_ctl(&self, other: &Self) -> bool {
        &&& self.st.now_call_index == other.st.now_call_index
        &&& self.st.call_stack@ == other.st.call_stack@
        &&& self.st.state_flag == other.st.state_flag
        &&& self.function_table@ == other.function_table@
        &&& self.mem.reuse_list@ == other.mem.reuse_list@
        &&& self.io == other.io
    }

    /// The place `(heap, pos)` that the registers name.
    pub(crate) fn spot(&self, id_reg: u8, addr_reg: u8, offset: u64) -> (r: (usize, usize))
        requires
            self.st.r@.len() == REGISTER_NUM,
        ensures
            r.0 == self.spot_id(id_reg),
            r.1 == self.spot_pos(addr_reg, offset),
    {
        let a = self.st.r[addr_reg as usize];
        proof {
            lemma_wrap64_signed_add(a, offset);
        }
        (VPtr(self.st.r[id_reg as usize]).heep_id(), a.wrapping_add(offset) as usize)
    }

    /// The little-endian value of `n` bytes of heap `id` at `pos`.
    fn load_bytes(&self, id: usize, pos: usize, n: usize) -> (r: u64)
        requires
            is_width(n),
            id < self.mem.data@.len(),
            pos + n <= self.mem.data@[id as int].raw.bytes@.len(),
        ensures
            r == le_value(self.mem.data@[id as int].raw.bytes@.subrange(pos as int, pos + n)),
            r < pow256(n as nat),
    {
        let b = self.mem.read_at(id, pos, n);
        let mut v: u64 = 0;
        let mut i: usize = n;
        proof {
            lemma_pow256_values();
            assert(b@.subrange(n as int, n as int) =~= Seq::<u8>::empty());
        }
        while i > 0
            invariant
                i <= n <= 8,
                b@.len() == n,
                v == le_value(b@.subrange(i as int, n as int)),
                v < pow256((n - i) as nat),
            decreases i,
        {
            i = i - 1;
            proof {
                lemma_le_value_step(b@.subrange(0, n as int), i as int);
                assert(b@.subrange(0, n as int) =~= b@);
                lemma_pow256_mono((n - i - 1) as nat, 7);
                lemma_pow256_values();
            }
            v = v * 256 + b[i] as u64;
        }
        proof {
            assert(b@.subrange(0, n as int) =~= b@);
        }
        v
    }

    /// Writes the low `n` bytes of `v`, little-endian, into heap `id` at
    /// `pos`.
    fn store_bytes(&mut self, id: usize, pos: usize, n: usize, v: u64)
        requires
            is_width(n),
            id < old(self).mem.data@.len(),
            pos + n <= old(self).mem.data@[id as int].raw.bytes@.len(),
        ensures
            heaps_written(final(self).mem.data@, old(self).mem.data@, id as int, pos as int, le_bytes(v as nat, n as nat)),
            final(self).mem.reuse_list@ == old(self).mem.reuse_list@,
            final(self).st == old(self).st,
            final(self).function_table@ == old(self).function_table@,
            final(self).io == old(self).io,
    {
        let mut buf: Vec<u8> = Vec::new();
        let mut x = v;
        let mut k: usize = 0;
        proof {
            assert(buf@ + le_bytes(x as nat, n as nat) =~= le_bytes(v as nat, n as nat));
        }
        while k < n
            invariant
                k <= n,
                buf@.len() == k,
                buf@ + le_bytes(x as nat, (n - k) as nat) == le_bytes(v as nat, n as nat),
            decreases n - k,
        {
            let ghost bx = buf@;
            buf.push((x % 256) as u8);
            proof {
                assert(buf@ + le_bytes((x / 256) as nat, (n - k - 1) as nat) =~= bx + le_bytes(x as nat, (n - k) as nat));
            }
            x = x / 256;
            k = k + 1;
        }
        proof {
            assert(buf@ + le_bytes(x as nat, 0) =~= buf@);
        }
        self.mem.write_at(id, pos, buf.as_slice());
    }
}

/// Integer arithmetic. The operands are the register numbers (or the
/// immediate) given; pc moves on by one.
impl Operations {
    /// `r[dst] = r[dst] + r[src]`, wrapping.
    pub fn add_u64<R: Reactor>(vm: &mut VM<R>, dst: u64, src: u64)
        requires
            old(vm).st.r@.len() == REGISTER_NUM,
            dst < 256,
            src < 256,
            old(vm).st.pc < usize::MAX,
        ensures
            final(vm).st.r@ == old(vm).st.r@.update(dst as int, wrap64(old(vm).st.r@[dst as int] + old(vm).st.r@[src as int])),
            final(vm).st.pc == old(vm).st.pc + 1,
            final(vm).same_rest(old(vm)),
    {
        let a = vm.st.r[dst as usize];
        let b = vm.st.r[src as usize];
        vm.st.r.set(dst as usize, a.wrapping_add(b));
        vm.st.pc = vm.st.pc + 1;
    }

    /// `r[dst] = r[dst] + imm`, wrapping.
    pub fn add_u64_immediate<R: Reactor>(vm: &mut VM<R>, dst: u64, imm: u64)
        requires
            old(vm).st.r@.len() == REGISTER_NUM,
            dst < 256,
            old(vm).st.pc < usize::MAX,
        ensures
            final(vm).st.r@ == old(vm).st.r@.update(dst as int, wrap64(old(vm).st.r@[dst as int] + imm)),
            final(vm).st.pc == old(vm).st.pc + 1,
            final(vm).same_rest(old(vm)),
    {
        let a = vm.st.r[dst as usize];
        let b = imm;
        vm.st.r.set(dst as usize, a.wrapping_add(b));
        vm.st.pc = vm.st.pc + 1;
    }

    /// signed `r[dst] = r[dst] + r[src]`, wrapping; two's complement makes its bits those of the unsigned sum.
    pub fn add_i64<R: Reactor>(vm: &mut VM<R>, dst: u64, src: u64)
        requires
            old(vm).st.r@.len() == REGISTER_NUM,
            dst < 256,
            src < 256,
            old(vm).st.pc < usize::MAX,
        ensures
            final(vm).st.r@ == old(vm).st.r@.update(dst as int, wrap64(sgn(old(vm).st.r@[dst as int]) + sgn(old(vm).st.r@[src as int]))),
            final(vm).st.pc == old(vm).st.pc + 1,
            final(vm).same_rest(old(vm)),
    {
        let a = vm.st.r[dst as usize];
        let b = vm.st.r[src as usize];
        proof {
            lemma_wrap64_signed_add(a, b);
        }
        vm.st.r.set(dst as usize, a.wrapping_add(b));
        vm.st.pc = vm.st.pc + 1;
    }

    /// signed `r[dst] = r[dst] + imm`, wrapping.
    pub fn add_i64_immediate<R: Reactor>(vm: &mut VM<R>, dst: u64, imm: u64)
        requires
            old(vm).st.r@.len() == REGISTER_NUM,
            dst < 256,
            old(vm).st.pc < usize::MAX,
        ensures
            final(vm).st.r@ == old(vm).st.r@.update(dst as int, wrap64(sgn(old(vm).st.r@[dst as int]) + sgn(imm))),
            final(vm).st.pc == old(vm).st.pc + 1,
            final(vm).same_rest(old(vm)),
    {
        let a = vm.st.r[dst as usize];
        let b = imm;
        proof {
            lemma_wrap64_signed_add(a, b);
        }
        vm.st.r.set(dst as usize, a.wrapping_add(b));
        vm.st.pc = vm.st.pc + 1;
    }

    /// `r[dst] = r[dst] - r[src]`, wrapping.
    pub fn sub_u64<R: Reactor>(vm: &mut VM<R>, dst: u64, src: u64)
        requires
            old(vm).st.r@.len() == REGISTER_NUM,
            dst < 256,
            src < 256,
            old(vm).st.pc < usize::MAX,
        ensures
            final(vm).st.r@ == old(vm).st.r@.update(dst as int, wrap64(old(vm).st.r@[dst as int] - old(vm).st.r@[src as int])),
            final(vm).st.pc == old(vm).st.pc + 1,
            final(vm).same_rest(old(vm)),
    {
        let a = vm.st.r[dst as usize];
        let b = vm.st.r[src as usize];
        vm.st.r.set(dst as usize, a.wrapping_sub(b));
        vm.st.pc = vm.st.pc + 1;
    }

    /// `r[dst] = r[dst] - imm`, wrapping.
    pub fn sub_u64_immediate<R: Reactor>(vm: &mut VM<R>, dst: u64, imm: u64)
        requires
            old(vm).st.r@.len() == REGISTER_NUM,
            dst < 256,
            old(vm).st.pc < usize::MAX,
        ensures
            final(vm).st.r@ == old(vm).st.r@.update(dst as int, wrap64(old(vm).st.r@[dst as int] - imm)),
            final(vm).st.pc == old(vm).st.pc + 1,
            final(vm).same_rest(old(vm)),
    {
        let a = vm.st.r[dst as usize];
        let b = imm;
        vm.st.r.set(dst as usize, a.wrapping_sub(b));
        vm.st.pc = vm.st.pc + 1;
    }

    /// signed `r[dst] = r[dst] - r[src]`, wrapping.
    pub fn sub_i64<R: Reactor>(vm: &mut VM<R>, dst: u64, src: u64)
        requires
            old(vm).st.r@.len() == REGISTER_NUM,
            dst < 256,
            src < 256,
            old(vm).st.pc < usize::MAX,
        ensures
            final(vm).st.r@ == old(vm).st.r@.update(dst as int, wrap64(sgn(old(vm).st.r@[dst as int]) - sgn(old(vm).st.r@[src as int]))),
            final(vm).st.pc == old(vm).st.pc + 1,
            final(vm).same_rest(old(vm)),
    {
        let a = vm.st.r[dst as usize];
        let b = vm.st.r[src as usize];
        proof {
            lemma_wrap64_signed_sub(a, b);
        }
        vm.st.r.set(dst as usize, a.wrapping_sub(b));
        vm.st.pc = vm.st.pc + 1;
    }

    /// signed `r[dst] = r[dst] - imm`, wrapping.
    pub fn sub_i64_immediate<R: Reactor>(vm: &mut VM<R>, dst: u64, imm: u64)
        requires
            old(vm).st.r@.len() == REGISTER_NUM,
            dst < 256,
            old(vm).st.pc < usize::MAX,
        ensures
            final(vm).st.r@ == old(vm).st.r@.update(dst as int, wrap64(sgn(old(vm).st.r@[dst as int]) - sgn(imm))),
            final(vm).st.pc == old(vm).st.pc + 1,
            final(vm).same_rest(old(vm)),
    {
        let a = vm.st.r[dst as usize];
        let b = imm;
        proof {
            lemma_wrap64_signed_sub(a, b);
        }
        vm.st.r.set(dst as usize, a.wrapping_sub(b));
        vm.st.pc = vm.st.pc + 1;
    }

    /// `r[dst] = r[dst] * r[src]`, wrapping.
    pub fn mul_u64<R: Reactor>(vm: &mut VM<R>, dst: u64, src: u64)
        requires
            old(vm).st.r@.len() == REGISTER_NUM,
            dst < 256,
            src < 256,
            old(vm).st.pc < usize::MAX,
        ensures
            final(vm).st.r@ == old(vm).st.r@.update(dst as int, wrap64(old(vm).st.r@[dst as int] * old(vm).st.r@[src as int])),
            final(vm).st.pc == old(vm).st.pc + 1,
            final(vm).same_rest(old(vm)),
    {
        let a = vm.st.r[dst as usize];
        let b = vm.st.r[src as usize];
        vm.st.r.set(dst as usize, a.wrapping_mul(b));
        vm.st.pc = vm.st.pc + 1;
    }

    /// `r[dst] = r[dst] * imm`, wrapping.
    pub fn mul_u64_immediate<R: Reactor>(vm: &mut VM<R>, dst: u64, imm: u64)
        requires
            old(vm).st.r@.len() == REGISTER_NUM,
            dst < 256,
            old(vm).st.pc < usize::MAX,
        ensures
            final(vm).st.r@ == old(vm).st.r@.update(dst as int, wrap64(old(vm).st.r@[dst as int] * imm)),
            final(vm).st.pc == old(vm).st.pc + 1,
            final(vm).same_rest(old(vm)),
    {
        let a = vm.st.r[dst as usize];
        let b = imm;
        vm.st.r.set(dst as usize, a.wrapping_mul(b));
        vm.st.pc = vm.st.pc + 1;
    }

    /// signed `r[dst] = r[dst] * r[src]`, wrapping.
    pub fn mul_i64<R: Reactor>(vm: &mut VM<R>, dst: u64, src: u64)
        requires
            old(vm).st.r@.len() == REGISTER_NUM,
            dst < 256,
            src < 256,
            old(vm).st.pc < usize::MAX,
        ensures
            final(vm).st.r@ == old(vm).st.r@.update(dst as int, wrap64(sgn(old(vm).st.r@[dst as int]) * sgn(old(vm).st.r@[src as int]))),
            final(vm).st.pc == old(vm).st.pc + 1,
            final(vm).same_rest(old(vm)),
    {
        let a = vm.st.r[dst as usize];
        let b = vm.st.r[src as usize];
        proof {
            lemma_wrap64_signed_mul(a, b);
        }
        vm.st.r.set(dst as usize, a.wrapping_mul(b));
        vm.st.pc = vm.st.pc + 1;
    }

    /// signed `r[dst] = r[dst] * imm`, wrapping.
    pub fn mul_i64_immediate<R: Reactor>(vm: &mut VM<R>, dst: u64, imm: u64)
        requires
            old(vm).st.r@.len() == REGISTER_NUM,
            dst < 256,
            old(vm).st.pc < usize::MAX,
        ensures
            final(vm).st.r@ == old(vm).st.r@.update(dst as int, wrap64(sgn(old(vm).st.r@[dst as int]) * sgn(imm))),
            final(vm).st.pc == old(vm).st.pc + 1,
            final(vm).same_rest(old(vm)),
    {
        let a = vm.st.r[dst as usize];
        let b = imm;
        proof {
            lemma_wrap64_signed_mul(a, b);
        }
        vm.st.r.set(dst as usize, a.wrapping_mul(b));
        vm.st.pc = vm.st.pc + 1;
    }

    /// `r[dst] = r[dst] / r[src]`; the divisor is not zero.
    pub fn div_u64<R: Reactor>(vm: &mut VM<R>, dst: u64, src: u64)
        requires
            old(vm).st.r@.len() == REGISTER_NUM,
            dst < 256,
            src < 256,
            old(vm).st.r@[src as int] != 0,
            old(vm).st.pc < usize::MAX,
        ensures
            final(vm).st.r@ == old(vm).st.r@.update(dst as int, old(vm).st.r@[dst as int] / old(vm).st.r@[src as int]),
            final(vm).st.pc == old(vm).st.pc + 1,
            final(vm).same_rest(old(vm)),
    {
        let a = vm.st.r[dst as usize];
        let b = vm.st.r[src as usize];
        vm.st.r.set(dst as usize, a / b);
        vm.st.pc = vm.st.pc + 1;
    }

    /// `r[dst] = r[dst] / imm`; the divisor is not zero.
    pub fn div_u64_immediate<R: Reactor>(vm: &mut VM<R>, dst: u64, imm: u64)
        requires
            old(vm).st.r@.len() == REGISTER_NUM,
            dst < 256,
            imm != 0,
            old(vm).st.pc < usize::MAX,
        ensures
            final(vm).st.r@ == old(vm).st.r@.update(dst as int, old(vm).st.r@[dst as int] / imm),
            final(vm).st.pc == old(vm).st.pc + 1,
            final(vm).same_rest(old(vm)),
    {
        let a = vm.st.r[dst as usize];
        let b = imm;
        vm.st.r.set(dst as usize, a / b);
        vm.st.pc = vm.st.pc + 1;
    }

    /// signed `r[dst] = r[dst] / r[src]`, rounding toward zero; the divisor is not zero, and `i64::MIN / -1` (which overflows) is left out.
    pub fn div_i64<R: Reactor>(vm: &mut VM<R>, dst: u64, src: u64)
        requires
            old(vm).st.r@.len() == REGISTER_NUM,
            dst < 256,
            src < 256,
            old(vm).st.r@[src as int] != 0,
            !(old(vm).st.r@[dst as int] == 0x8000_0000_0000_0000u64 && old(vm).st.r@[src as int] == 0xFFFF_FFFF_FFFF_FFFFu64),
            old(vm).st.pc < usize::MAX,
        ensures
            final(vm).st.r@ == old(vm).st.r@.update(dst as int, wrap64(trunc_div(sgn(old(vm).st.r@[dst as int]), sgn(old(vm).st.r@[src as int])))),
            final(vm).st.pc == old(vm).st.pc + 1,
            final(vm).same_rest(old(vm)),
    {
        let a = vm.st.r[dst as usize];
        let b = vm.st.r[src as usize];
        vm.st.r.set(dst as usize, signed_div(a, b));
        vm.st.pc = vm.st.pc + 1;
    }

    /// signed `r[dst] = r[dst] / imm`, rounding toward zero.
    pub fn div_i64_immediate<R: Reactor>(vm: &mut VM<R>, dst: u64, imm: u64)
        requires
            old(vm).st.r@.len() == REGISTER_NUM,
            dst < 256,
            imm != 0,
            !(old(vm).st.r@[dst as int] == 0x8000_0000_0000_0000u64 && imm == 0xFFFF_FFFF_FFFF_FFFFu64),
            old(vm).st.pc < usize::MAX,
        ensures
            final(vm).st.r@ == old(vm).st.r@.update(dst as int, wrap64(trunc_div(sgn(old(vm).st.r@[dst as int]), sgn(imm)))),
            final(vm).st.pc == old(vm).st.pc + 1,
            final(vm).same_rest(old(vm)),
    {
        let a = vm.st.r[dst as usize];
        let b = imm;
        vm.st.r.set(dst as usize, signed_div(a, b));
        vm.st.pc = vm.st.pc + 1;
    }

    /// signed `r[dst] = r[dst] % r[src]`, wrapping: the remainder of the division rounding toward zero (0 for `i64::MIN % -1`); the divisor is not zero.
    pub fn mod_i64<R: Reactor>(vm: &mut VM<R>, dst: u64, src: u64)
        requires
            old(vm).st.r@.len() == REGISTER_NUM,
            dst < 256,
            src < 256,
            old(vm).st.r@[src as int] != 0,
            old(vm).st.pc < usize::MAX,
        ensures
            final(vm).st.r@ == old(vm).st.r@.update(dst as int, wrap64(trunc_rem(sgn(old(vm).st.r@[dst as int]), sgn(old(vm).st.r@[src as int])))),
            final(vm).st.pc == old(vm).st.pc + 1,
            final(vm).same_rest(old(vm)),
    {
        let a = vm.st.r[dst as usize];
        let b = vm.st.r[src as usize];
        vm.st.r.set(dst as usize, signed_rem(a, b));
        vm.st.pc = vm.st.pc + 1;
    }

    /// `r[dst] = |r[src]|` as a signed number, wrapping (`i64::MIN` stays).
    pub fn abs<R: Reactor>(vm: &mut VM<R>, dst: u64, src: u64)
        requires
            old(vm).st.r@.len() == REGISTER_NUM,
            dst < 256,
            src < 256,
            old(vm).st.pc < usize::MAX,
        ensures
            final(vm).st.r@ == old(vm).st.r@.update(dst as int, wrap64(abs_int(sgn(old(vm).st.r@[src as int])))),
            final(vm).st.pc == old(vm).st.pc + 1,
            final(vm).same_rest(old(vm)),
    {
        let a = vm.st.r[src as usize];
        vm.st.r.set(dst as usize, wrapping_abs(a));
        vm.st.pc = vm.st.pc + 1;
    }

    /// `r[dst] = -r[src]` as a signed number, wrapping (`i64::MIN` stays).
    pub fn neg_i64<R: Reactor>(vm: &mut VM<R>, dst: u64, src: u64)
        requires
            old(vm).st.r@.len() == REGISTER_NUM,
            dst < 256,
            src < 256,
            old(vm).st.pc < usize::MAX,
        ensures
            final(vm).st.r@ == old(vm).st.r@.update(dst as int, wrap64(-sgn(old(vm).st.r@[src as int]))),
            final(vm).st.pc == old(vm).st.pc + 1,
            final(vm).same_rest(old(vm)),
    {
        let a = vm.st.r[src as usize];
        proof {
            lemma_wrap64_signed_sub(0, a);
        }
        vm.st.r.set(dst as usize, 0u64.wrapping_sub(a));
        vm.st.pc = vm.st.pc + 1;
    }
}


/// Bit operations. Operand word: `[dst, src, ..]` (register numbers); with
/// an immediate, the word after it. pc moves past the instruction.
impl Operations {
    /// `r[dst] = r[dst] & r[src]`.
    pub fn and_u64<R: Reactor>(vm: &mut VM<R>)
        requires
            old(vm).wf(),
            old(vm).has_words(1),
        ensures
            final(vm).set_and_step(old(vm), old(vm).ol(1, 0), old(vm).reg(old(vm).ol(1, 0)) & old(vm).reg(old(vm).ol(1, 1)), 2),
    {
        let ol = vm.next_operand();
        let dst = ol[0];
        let b = vm.st.r[ol[1] as usize];
        let a = vm.st.r[dst as usize];
        let v = a & b;
        vm.st.r.set(dst as usize, v);
        vm.next_step();
    }

    /// `r[dst] = r[dst] & imm`.
    pub fn and_u64_immediate<R: Reactor>(vm: &mut VM<R>)
        requires
            old(vm).wf(),
            old(vm).has_words(2),
        ensures
            final(vm).set_and_step(old(vm), old(vm).ol(1, 0), old(vm).reg(old(vm).ol(1, 0)) & old(vm).imm(2), 3),
    {
        let ol = vm.next_operand();
        let dst = ol[0];
        let b = vm.next_operand_imm();
        let a = vm.st.r[dst as usize];
        let v = a & b;
        vm.st.r.set(dst as usize, v);
        vm.next_step();
    }

    /// `r[dst] = r[dst] | r[src]`.
    pub fn or_u64<R: Reactor>(vm: &mut VM<R>)
        requires
            old(vm).wf(),
            old(vm).has_words(1),
        ensures
            final(vm).set_and_step(old(vm), old(vm).ol(1, 0), old(vm).reg(old(vm).ol(1, 0)) | old(vm).reg(old(vm).ol(1, 1)), 2),
    {
        let ol = vm.next_operand();
        let dst = ol[0];
        let b = vm.st.r[ol[1] as usize];
        let a = vm.st.r[dst as usize];
        let v = a | b;
        vm.st.r.set(dst as usize, v);
        vm.next_step();
    }

    /// `r[dst] = r[dst] | imm`.
    pub fn or_u64_immediate<R: Reactor>(vm: &mut VM<R>)
        requires
            old(vm).wf(),
            old(vm).has_words(2),
        ensures
            final(vm).set_and_step(old(vm), old(vm).ol(1, 0), old(vm).reg(old(vm).ol(1, 0)) | old(vm).imm(2), 3),
    {
        let ol = vm.next_operand();
        let dst = ol[0];
        let b = vm.next_operand_imm();
        let a = vm.st.r[dst as usize];
        let v = a | b;
        vm.st.r.set(dst as usize, v);
        vm.next_step();
    }

    /// `r[dst] = r[dst] ^ r[src]`.
    pub fn xor_u64<R: Reactor>(vm: &mut VM<R>)
        requires
            old(vm).wf(),
            old(vm).has_words(1),
        ensures
            final(vm).set_and_step(old(vm), old(vm).ol(1, 0), old(vm).reg(old(vm).ol(1, 0)) ^ old(vm).reg(old(vm).ol(1, 1)), 2),
    {
        let ol = vm.next_operand();
        let dst = ol[0];
        let b = vm.st.r[ol[1] as usize];
        let a = vm.st.r[dst as usize];
        let v = a ^ b;
        vm.st.r.set(dst as usize, v);
        vm.next_step();
    }

    /// `r[dst] = r[dst] ^ imm`.
    pub fn xor_u64_immediate<R: Reactor>(vm: &mut VM<R>)
        requires
            old(vm).wf(),
            old(vm).has_words(2),
        ensures
            final(vm).set_and_step(old(vm), old(vm).ol(1, 0), old(vm).reg(old(vm).ol(1, 0)) ^ old(vm).imm(2), 3),
    {
        let ol = vm.next_operand();
        let dst = ol[0];
        let b = vm.next_operand_imm();
        let a = vm.st.r[dst as usize];
        let v = a ^ b;
        vm.st.r.set(dst as usize, v);
        vm.next_step();
    }

    /// `r[dst] = !r[src]`.
    pub fn not_u64<R: Reactor>(vm: &mut VM<R>)
        requires
            old(vm).wf(),
            old(vm).has_words(1),
        ensures
            final(vm).set_and_step(old(vm), old(vm).ol(1, 0), !old(vm).reg(old(vm).ol(1, 1)), 2),
    {
        let ol = vm.next_operand();
        let dst = ol[0];
        let b = vm.st.r[ol[1] as usize];
        let a = vm.st.r[dst as usize];
        let v = !b;
        vm.st.r.set(dst as usize, v);
        vm.next_step();
    }

    /// `r[dst] = r[dst] << r[src]`; the shift (its low 32 bits) is below 64.
    pub fn shl_u64<R: Reactor>(vm: &mut VM<R>)
        requires
            old(vm).wf(),
            old(vm).has_words(1),
            (old(vm).reg(old(vm).ol(1, 1)) as u32) < 64,
        ensures
            final(vm).set_and_step(old(vm), old(vm).ol(1, 0), old(vm).reg(old(vm).ol(1, 0)) << (old(vm).reg(old(vm).ol(1, 1)) as u32), 2),
    {
        let ol = vm.next_operand();
        let dst = ol[0];
        let b = vm.st.r[ol[1] as usize];
        let a = vm.st.r[dst as usize];
        let v = a << (b as u32);
        vm.st.r.set(dst as usize, v);
        vm.next_step();
    }

    /// `r[dst] = r[dst] << imm`; the shift (its low 32 bits) is below 64.
    pub fn shl_u64_immediate<R: Reactor>(vm: &mut VM<R>)
        requires
            old(vm).wf(),
            old(vm).has_words(2),
            (old(vm).imm(2) as u32) < 64,
        ensures
            final(vm).set_and_step(old(vm), old(vm).ol(1, 0), old(vm).reg(old(vm).ol(1, 0)) << (old(vm).imm(2) as u32), 3),
    {
        let ol = vm.next_operand();
        let dst = ol[0];
        let b = vm.next_operand_imm();
        let a = vm.st.r[dst as usize];
        let v = a << (b as u32);
        vm.st.r.set(dst as usize, v);
        vm.next_step();
    }

    /// signed `r[dst] = r[dst] << r[src]`: the same bits as the unsigned shift; the shift is below 64.
    pub fn shl_i64<R: Reactor>(vm: &mut VM<R>)
        requires
            old(vm).wf(),
            old(vm).has_words(1),
            (old(vm).reg(old(vm).ol(1, 1)) as u32) < 64,
        ensures
            final(vm).set_and_step(old(vm), old(vm).ol(1, 0), old(vm).reg(old(vm).ol(1, 0)) << (old(vm).reg(old(vm).ol(1, 1)) as u32), 2),
    {
        let ol = vm.next_operand();
        let dst = ol[0];
        let b = vm.st.r[ol[1] as usize];
        let a = vm.st.r[dst as usize];
        let v = a << (b as u32);
        vm.st.r.set(dst as usize, v);
        vm.next_step();
    }

    /// signed `r[dst] = r[dst] << imm`: the same bits as the unsigned shift.
    pub fn shl_i64_immediate<R: Reactor>(vm: &mut VM<R>)
        requires
            old(vm).wf(),
            old(vm).has_words(2),
            (old(vm).imm(2) as u32) < 64,
        ensures
            final(vm).set_and_step(old(vm), old(vm).ol(1, 0), old(vm).reg(old(vm).ol(1, 0)) << (old(vm).imm(2) as u32), 3),
    {
        let ol = vm.next_operand();
        let dst = ol[0];
        let b = vm.next_operand_imm();
        let a = vm.st.r[dst as usize];
        let v = a << (b as u32);
        vm.st.r.set(dst as usize, v);
        vm.next_step();
    }

    /// logical `r[dst] = r[dst] >> r[src]`; the shift is below 64.
    pub fn shr_u64<R: Reactor>(vm: &mut VM<R>)
        requires
            old(vm).wf(),
            old(vm).has_words(1),
            (old(vm).reg(old(vm).ol(1, 1)) as u32) < 64,
        ensures
            final(vm).set_and_step(old(vm), old(vm).ol(1, 0), old(vm).reg(old(vm).ol(1, 0)) >> (old(vm).reg(old(vm).ol(1, 1)) as u32), 2),
    {
        let ol = vm.next_operand();
        let dst = ol[0];
        let b = vm.st.r[ol[1] as usize];
        let a = vm.st.r[dst as usize];
        let v = a >> (b as u32);
        vm.st.r.set(dst as usize, v);
        vm.next_step();
    }

    /// logical `r[dst] = r[dst] >> imm`; the shift is below 64.
    pub fn shr_u64_immediate<R: Reactor>(vm: &mut VM<R>)
        requires
            old(vm).wf(),
            old(vm).has_words(2),
            (old(vm).imm(2) as u32) < 64,
        ensures
            final(vm).set_and_step(old(vm), old(vm).ol(1, 0), old(vm).reg(old(vm).ol(1, 0)) >> (old(vm).imm(2) as u32), 3),
    {
        let ol = vm.next_operand();
        let dst = ol[0];
        let b = vm.next_operand_imm();
        let a = vm.st.r[dst as usize];
        let v = a >> (b as u32);
        vm.st.r.set(dst as usize, v);
        vm.next_step();
    }

    /// arithmetic `r[dst] = r[dst] >> r[src]`: the sign bit fills in; the shift is below 64.
    pub fn shr_i64<R: Reactor>(vm: &mut VM<R>)
        requires
            old(vm).wf(),
            old(vm).has_words(1),
            (old(vm).reg(old(vm).ol(1, 1)) as u32) < 64,
        ensures
            final(vm).set_and_step(old(vm), old(vm).ol(1, 0), sar(old(vm).reg(old(vm).ol(1, 0)), old(vm).reg(old(vm).ol(1, 1)) as u32), 2),
    {
        let ol = vm.next_operand();
        let dst = ol[0];
        let b = vm.st.r[ol[1] as usize];
        let a = vm.st.r[dst as usize];
        let v = sar_exec(a, b as u32);
        vm.st.r.set(dst as usize, v);
        vm.next_step();
    }

    /// arithmetic `r[dst] = r[dst] >> imm`; the shift is below 64.
    pub fn shr_i64_immediate<R: Reactor>(vm: &mut VM<R>)
        requires
            old(vm).wf(),
            old(vm).has_words(2),
            (old(vm).imm(2) as u32) < 64,
        ensures
            final(vm).set_and_step(old(vm), old(vm).ol(1, 0), sar(old(vm).reg(old(vm).ol(1, 0)), old(vm).imm(2) as u32), 3),
    {
        let ol = vm.next_operand();
        let dst = ol[0];
        let b = vm.next_operand_imm();
        let a = vm.st.r[dst as usize];
        let v = sar_exec(a, b as u32);
        vm.st.r.set(dst as usize, v);
        vm.next_step();
    }

    /// `r[dst]` rotated left by `r[src] & 127` bits (a rotation by 64 or more goes round again).
    pub fn rol_u64<R: Reactor>(vm: &mut VM<R>)
        requires
            old(vm).wf(),
            old(vm).has_words(1),
        ensures
            final(vm).set_and_step(old(vm), old(vm).ol(1, 0), rotl(old(vm).reg(old(vm).ol(1, 0)), old(vm).reg(old(vm).ol(1, 1)) & 127), 2),
    {
        let ol = vm.next_operand();
        let dst = ol[0];
        let b = vm.st.r[ol[1] as usize];
        let a = vm.st.r[dst as usize];
        let v = rotate_left_u64(a, b & 127);
        vm.st.r.set(dst as usize, v);
        vm.next_step();
    }

    /// `r[dst]` rotated left by `imm & 127` bits.
    pub fn rol_u64_immediate<R: Reactor>(vm: &mut VM<R>)
        requires
            old(vm).wf(),
            old(vm).has_words(2),
        ensures
            final(vm).set_and_step(old(vm), old(vm).ol(1, 0), rotl(old(vm).reg(old(vm).ol(1, 0)), old(vm).imm(2) & 127), 3),
    {
        let ol = vm.next_operand();
        let dst = ol[0];
        let b = vm.next_operand_imm();
        let a = vm.st.r[dst as usize];
        let v = rotate_left_u64(a, b & 127);
        vm.st.r.set(dst as usize, v);
        vm.next_step();
    }

    /// `r[dst]` rotated left by `r[src] & 127` bits (a rotation by 64 or more goes round again).
    pub fn rol_i64<R: Reactor>(vm: &mut VM<R>)
        requires
            old(vm).wf(),
            old(vm).has_words(1),
        ensures
            final(vm).set_and_step(old(vm), old(vm).ol(1, 0), rotl(old(vm).reg(old(vm).ol(1, 0)), old(vm).reg(old(vm).ol(1, 1)) & 127), 2),
    {
        let ol = vm.next_operand();
        let dst = ol[0];
        let b = vm.st.r[ol[1] as usize];
        let a = vm.st.r[dst as usize];
        let v = rotate_left_u64(a, b & 127);
        vm.st.r.set(dst as usize, v);
        vm.next_step();
    }

    /// `r[dst]` rotated left by `imm & 127` bits.
    pub fn rol_i64_immediate<R: Reactor>(vm: &mut VM<R>)
        requires
            old(vm).wf(),
            old(vm).has_words(2),
        ensures
            final(vm).set_and_step(old(vm), old(vm).ol(1, 0), rotl(old(vm).reg(old(vm).ol(1, 0)), old(vm).imm(2) & 127), 3),
    {
        let ol = vm.next_operand();
        let dst = ol[0];
        let b = vm.next_operand_imm();
        let a = vm.st.r[dst as usize];
        let v = rotate_left_u64(a, b & 127);
        vm.st.r.set(dst as usize, v);
        vm.next_step();
    }

    /// `r[dst]` rotated right by `r[src] & 127` bits (a rotation by 64 or more goes round again).
    pub fn ror_u64<R: Reactor>(vm: &mut VM<R>)
        requires
            old(vm).wf(),
            old(vm).has_words(1),
        ensures
            final(vm).set_and_step(old(vm), old(vm).ol(1, 0), rotr(old(vm).reg(old(vm).ol(1, 0)), old(vm).reg(old(vm).ol(1, 1)) & 127), 2),
    {
        let ol = vm.next_operand();
        let dst = ol[0];
        let b = vm.st.r[ol[1] as usize];
        let a = vm.st.r[dst as usize];
        let v = rotate_right_u64(a, b & 127);
        vm.st.r.set(dst as usize, v);
        vm.next_step();
    }

    /// `r[dst]` rotated right by `imm & 127` bits.
    pub fn ror_u64_immediate<R: Reactor>(vm: &mut VM<R>)
        requires
            old(vm).wf(),
            old(vm).has_words(2),
        ensures
            final(vm).set_and_step(old(vm), old(vm).ol(1, 0), rotr(old(vm).reg(old(vm).ol(1, 0)), old(vm).imm(2) & 127), 3),
    {
        let ol = vm.next_operand();
        let dst = ol[0];
        let b = vm.next_operand_imm();
        let a = vm.st.r[dst as usize];
        let v = rotate_right_u64(a, b & 127);
        vm.st.r.set(dst as usize, v);
        vm.next_step();
    }

    /// `r[dst]` rotated right by `r[src] & 127` bits (a rotation by 64 or more goes round again).
    pub fn ror_i64<R: Reactor>(vm: &mut VM<R>)
        requires
            old(vm).wf(),
            old(vm).has_words(1),
        ensures
            final(vm).set_and_step(old(vm), old(vm).ol(1, 0), rotr(old(vm).reg(old(vm).ol(1, 0)), old(vm).reg(old(vm).ol(1, 1)) & 127), 2),
    {
        let ol = vm.next_operand();
        let dst = ol[0];
        let b = vm.st.r[ol[1] as usize];
        let a = vm.st.r[dst as usize];
        let v = rotate_right_u64(a, b & 127);
        vm.st.r.set(dst as usize, v);
        vm.next_step();
    }

    /// `r[dst]` rotated right by `imm & 127` bits.
    pub fn ror_i64_immediate<R: Reactor>(vm: &mut VM<R>)
        requires
            old(vm).wf(),
            old(vm).has_words(2),
        ensures
            final(vm).set_and_step(old(vm), old(vm).ol(1, 0), rotr(old(vm).reg(old(vm).ol(1, 0)), old(vm).imm(2) & 127), 3),
    {
        let ol = vm.next_operand();
        let dst = ol[0];
        let b = vm.next_operand_imm();
        let a = vm.st.r[dst as usize];
        let v = rotate_right_u64(a, b & 127);
        vm.st.r.set(dst as usize, v);
        vm.next_step();
    }

    /// `r[dst]` = the number of one bits of `r[src]`.
    pub fn count_ones_u64<R: Reactor>(vm: &mut VM<R>)
        requires
            old(vm).wf(),
            old(vm).has_words(1),
        ensures
            final(vm).set_and_step(old(vm), old(vm).ol(1, 0), popcount(old(vm).reg(old(vm).ol(1, 1)) as nat) as u64, 2),
    {
        let ol = vm.next_operand();
        let dst = ol[0];
        let b = vm.st.r[ol[1] as usize];
        let a = vm.st.r[dst as usize];
        let v = count_ones_u64(b);
        vm.st.r.set(dst as usize, v);
        vm.next_step();
    }

    /// `r[dst]` = the number of zero bits of `r[src]`.
    pub fn count_zeros_u64<R: Reactor>(vm: &mut VM<R>)
        requires
            old(vm).wf(),
            old(vm).has_words(1),
        ensures
            final(vm).set_and_step(old(vm), old(vm).ol(1, 0), (64 - popcount(old(vm).reg(old(vm).ol(1, 1)) as nat)) as u64, 2),
    {
        let ol = vm.next_operand();
        let dst = ol[0];
        let b = vm.st.r[ol[1] as usize];
        let a = vm.st.r[dst as usize];
        let v = 64 - count_ones_u64(b);
        vm.st.r.set(dst as usize, v);
        vm.next_step();
    }

    /// `r[dst]` = the number of trailing zero bits of `r[src]` (64 for 0).
    pub fn trailing_zeros_u64<R: Reactor>(vm: &mut VM<R>)
        requires
            old(vm).wf(),
            old(vm).has_words(1),
        ensures
            final(vm).set_and_step(old(vm), old(vm).ol(1, 0), trailing_zeros(old(vm).reg(old(vm).ol(1, 1)) as nat, 64) as u64, 2),
    {
        let ol = vm.next_operand();
        let dst = ol[0];
        let b = vm.st.r[ol[1] as usize];
        let a = vm.st.r[dst as usize];
        let v = trailing_zeros_u64(b);
        vm.st.r.set(dst as usize, v);
        vm.next_step();
    }

}

/// Register moves. Operand word: `[dst, src]`; with an immediate, the word
/// after it.
impl Operations {
    /// `r[dst] = r[src]`.
    pub fn mov<R: Reactor>(vm: &mut VM<R>)
        requires
            old(vm).wf(),
            old(vm).has_words(1),
        ensures
            final(vm).set_and_step(old(vm), old(vm).ol(1, 0), old(vm).reg(old(vm).ol(1, 1)), 2),
    {
        let ol = vm.next_operand();
        let dst = ol[0];
        let b = vm.st.r[ol[1] as usize];
        let a = vm.st.r[dst as usize];
        let v = b;
        vm.st.r.set(dst as usize, v);
        vm.next_step();
    }

    /// `r[dst] = imm`.
    pub fn load_u64_immediate<R: Reactor>(vm: &mut VM<R>)
        requires
            old(vm).wf(),
            old(vm).has_words(2),
        ensures
            final(vm).set_and_step(old(vm), old(vm).ol(1, 0), old(vm).imm(2), 3),
    {
        let ol = vm.next_operand();
        let dst = ol[0];
        let b = vm.next_operand_imm();
        let a = vm.st.r[dst as usize];
        let v = b;
        vm.st.r.set(dst as usize, v);
        vm.next_step();
    }

    /// Exchanges `r[a]` and `r[b]`.
    pub fn swap<R: Reactor>(vm: &mut VM<R>)
        requires
            old(vm).wf(),
            old(vm).has_words(1),
        ensures
            final(vm).st.r@ == swapped(old(vm).st.r@, old(vm).ol(1, 0) as int, old(vm).ol(1, 1) as int),
            final(vm).st.pc == old(vm).st.pc + 2,
            final(vm).same_rest(old(vm)),
    {
        let ol = vm.next_operand();
        let a = ol[0] as usize;
        let b = ol[1] as usize;
        let va = vm.st.r[a];
        let vb = vm.st.r[b];
        vm.st.r.set(a, vb);
        vm.st.r.set(b, va);
        vm.next_step();
    }
}


/// Jumps and calls. A conditional jump's operand word is `[addr, a, b]`
/// and the word after it an offset: where `r[a]` and `r[b]` compare so, pc
/// becomes `r[addr] + offset` (wrapping), else it moves past the
/// instruction.
impl Operations {
    /// pc becomes `r[dst] + offset` (wrapping). Operand word `[dst]`, then
    /// the offset.
    pub fn jump<R: Reactor>(vm: &mut VM<R>)
        requires
            old(vm).wf(),
            old(vm).has_words(2),
        ensures
            final(vm).st.pc == wrap64(old(vm).reg(old(vm).ol(1, 0)) + old(vm).imm(2)) as usize,
            final(vm).st.r@ == old(vm).st.r@,
            final(vm).same_rest(old(vm)),
    {
        let ol = vm.next_operand();
        let dst = ol[0] as usize;
        let offset = vm.next_operand_imm();
        let t = vm.st.r[dst];
        proof {
            lemma_wrap64_signed_add(t, offset);
        }
        vm.st.pc = t.wrapping_add(offset) as usize;
    }

    /// Jumps where `r[a] == r[b]`.
    pub fn eq_jump<R: Reactor>(vm: &mut VM<R>)
        requires
            old(vm).wf(),
            old(vm).has_words(2),
        ensures
            final(vm).st.pc == if old(vm).reg(old(vm).ol(1, 1)) == old(vm).reg(old(vm).ol(1, 2)) {
                wrap64(old(vm).reg(old(vm).ol(1, 0)) + old(vm).imm(2)) as usize
            } else {
                (old(vm).st.pc + 3) as usize
            },
            final(vm).st.r@ == old(vm).st.r@,
            final(vm).same_rest(old(vm)),
    {
        let ol = vm.next_operand();
        let addr_reg = ol[0] as usize;
        let a = vm.st.r[ol[1] as usize];
        let b = vm.st.r[ol[2] as usize];
        let offset = vm.next_operand_imm();
        let t = vm.st.r[addr_reg];
        proof {
            lemma_wrap64_signed_add(t, offset);
        }
        let addr = t.wrapping_add(offset) as usize;
        if a == b {
            vm.st.pc = addr;
        } else {
            vm.next_step();
        }
    }

    /// Jumps where `r[a] != r[b]`.
    pub fn neq_jump<R: Reactor>(vm: &mut VM<R>)
        requires
            old(vm).wf(),
            old(vm).has_words(2),
        ensures
            final(vm).st.pc == if old(vm).reg(old(vm).ol(1, 1)) != old(vm).reg(old(vm).ol(1, 2)) {
                wrap64(old(vm).reg(old(vm).ol(1, 0)) + old(vm).imm(2)) as usize
            } else {
                (old(vm).st.pc + 3) as usize
            },
            final(vm).st.r@ == old(vm).st.r@,
            final(vm).same_rest(old(vm)),
    {
        let ol = vm.next_operand();
        let addr_reg = ol[0] as usize;
        let a = vm.st.r[ol[1] as usize];
        let b = vm.st.r[ol[2] as usize];
        let offset = vm.next_operand_imm();
        let t = vm.st.r[addr_reg];
        proof {
            lemma_wrap64_signed_add(t, offset);
        }
        let addr = t.wrapping_add(offset) as usize;
        if a != b {
            vm.st.pc = addr;
        } else {
            vm.next_step();
        }
    }

    /// Jumps where `r[a] < r[b]`, unsigned.
    pub fn lt_u64_jump<R: Reactor>(vm: &mut VM<R>)
        requires
            old(vm).wf(),
            old(vm).has_words(2),
        ensures
            final(vm).st.pc == if old(vm).reg(old(vm).ol(1, 1)) < old(vm).reg(old(vm).ol(1, 2)) {
                wrap64(old(vm).reg(old(vm).ol(1, 0)) + old(vm).imm(2)) as usize
            } else {
                (old(vm).st.pc + 3) as usize
            },
            final(vm).st.r@ == old(vm).st.r@,
            final(vm).same_rest(old(vm)),
    {
        let ol = vm.next_operand();
        let addr_reg = ol[0] as usize;
        let a = vm.st.r[ol[1] as usize];
        let b = vm.st.r[ol[2] as usize];
        let offset = vm.next_operand_imm();
        let t = vm.st.r[addr_reg];
        proof {
            lemma_wrap64_signed_add(t, offset);
        }
        let addr = t.wrapping_add(offset) as usize;
        if a < b {
            vm.st.pc = addr;
        } else {
            vm.next_step();
        }
    }

    /// Jumps where `r[a] <= r[b]`, unsigned.
    pub fn lte_u64_jump<R: Reactor>(vm: &mut VM<R>)
        requires
            old(vm).wf(),
            old(vm).has_words(2),
        ensures
            final(vm).st.pc == if old(vm).reg(old(vm).ol(1, 1)) <= old(vm).reg(old(vm).ol(1, 2)) {
                wrap64(old(vm).reg(old(vm).ol(1, 0)) + old(vm).imm(2)) as usize
            } else {
                (old(vm).st.pc + 3) as usize
            },
            final(vm).st.r@ == old(vm).st.r@,
            final(vm).same_rest(old(vm)),
    {
        let ol = vm.next_operand();
        let addr_reg = ol[0] as usize;
        let a = vm.st.r[ol[1] as usize];
        let b = vm.st.r[ol[2] as usize];
        let offset = vm.next_operand_imm();
        let t = vm.st.r[addr_reg];
        proof {
            lemma_wrap64_signed_add(t, offset);
        }
        let addr = t.wrapping_add(offset) as usize;
        if a <= b {
            vm.st.pc = addr;
        } else {
            vm.next_step();
        }
    }

    /// Jumps where `r[a] < r[b]`, signed.
    pub fn lt_i64_jump<R: Reactor>(vm: &mut VM<R>)
        requires
            old(vm).wf(),
            old(vm).has_words(2),
        ensures
            final(vm).st.pc == if sgn(old(vm).reg(old(vm).ol(1, 1))) < sgn(old(vm).reg(old(vm).ol(1, 2))) {
                wrap64(old(vm).reg(old(vm).ol(1, 0)) + old(vm).imm(2)) as usize
            } else {
                (old(vm).st.pc + 3) as usize
            },
            final(vm).st.r@ == old(vm).st.r@,
            final(vm).same_rest(old(vm)),
    {
        let ol = vm.next_operand();
        let addr_reg = ol[0] as usize;
        let a = vm.st.r[ol[1] as usize];
        let b = vm.st.r[ol[2] as usize];
        let offset = vm.next_operand_imm();
        let t = vm.st.r[addr_reg];
        proof {
            lemma_wrap64_signed_add(t, offset);
        }
        let addr = t.wrapping_add(offset) as usize;
        if signed_lt(a, b) {
            vm.st.pc = addr;
        } else {
            vm.next_step();
        }
    }

    /// Jumps where `r[a] <= r[b]`, signed.
    pub fn lte_i64_jump<R: Reactor>(vm: &mut VM<R>)
        requires
            old(vm).wf(),
            old(vm).has_words(2),
        ensures
            final(vm).st.pc == if sgn(old(vm).reg(old(vm).ol(1, 1))) <= sgn(old(vm).reg(old(vm).ol(1, 2))) {
                wrap64(old(vm).reg(old(vm).ol(1, 0)) + old(vm).imm(2)) as usize
            } else {
                (old(vm).st.pc + 3) as usize
            },
            final(vm).st.r@ == old(vm).st.r@,
            final(vm).same_rest(old(vm)),
    {
        let ol = vm.next_operand();
        let addr_reg = ol[0] as usize;
        let a = vm.st.r[ol[1] as usize];
        let b = vm.st.r[ol[2] as usize];
        let offset = vm.next_operand_imm();
        let t = vm.st.r[addr_reg];
        proof {
            lemma_wrap64_signed_add(t, offset);
        }
        let addr = t.wrapping_add(offset) as usize;
        if !signed_lt(b, a) {
            vm.st.pc = addr;
        } else {
            vm.next_step();
        }
    }

    /// Jumps where `r[a] > r[b]`, unsigned.
    pub fn gt_u64_jump<R: Reactor>(vm: &mut VM<R>)
        requires
            old(vm).wf(),
            old(vm).has_words(2),
        ensures
            final(vm).st.pc == if old(vm).reg(old(vm).ol(1, 1)) > old(vm).reg(old(vm).ol(1, 2)) {
                wrap64(old(vm).reg(old(vm).ol(1, 0)) + old(vm).imm(2)) as usize
            } else {
                (old(vm).st.pc + 3) as usize
            },
            final(vm).st.r@ == old(vm).st.r@,
            final(vm).same_rest(old(vm)),
    {
        let ol = vm.next_operand();
        let addr_reg = ol[0] as usize;
        let a = vm.st.r[ol[1] as usize];
        let b = vm.st.r[ol[2] as usize];
        let offset = vm.next_operand_imm();
        let t = vm.st.r[addr_reg];
        proof {
            lemma_wrap64_signed_add(t, offset);
        }
        let addr = t.wrapping_add(offset) as usize;
        if a > b {
            vm.st.pc = addr;
        } else {
            vm.next_step();
        }
    }

    /// Jumps where `r[a] >= r[b]`, unsigned.
    pub fn gte_u64_jump<R: Reactor>(vm: &mut VM<R>)
        requires
            old(vm).wf(),
            old(vm).has_words(2),
        ensures
            final(vm).st.pc == if old(vm).reg(old(vm).ol(1, 1)) >= old(vm).reg(old(vm).ol(1, 2)) {
                wrap64(old(vm).reg(old(vm).ol(1, 0)) + old(vm).imm(2)) as usize
            } else {
                (old(vm).st.pc + 3) as usize
            },
            final(vm).st.r@ == old(vm).st.r@,
            final(vm).same_rest(old(vm)),
    {
        let ol = vm.next_operand();
        let addr_reg = ol[0] as usize;
        let a = vm.st.r[ol[1] as usize];
        let b = vm.st.r[ol[2] as usize];
        let offset = vm.next_operand_imm();
        let t = vm.st.r[addr_reg];
        proof {
            lemma_wrap64_signed_add(t, offset);
        }
        let addr = t.wrapping_add(offset) as usize;
        if a >= b {
            vm.st.pc = addr;
        } else {
            vm.next_step();
        }
    }

    /// Jumps where `r[a] > r[b]`, signed.
    pub fn gt_i64_jump<R: Reactor>(vm: &mut VM<R>)
        requires
            old(vm).wf(),
            old(vm).has_words(2),
        ensures
            final(vm).st.pc == if sgn(old(vm).reg(old(vm).ol(1, 1))) > sgn(old(vm).reg(old(vm).ol(1, 2))) {
                wrap64(old(vm).reg(old(vm).ol(1, 0)) + old(vm).imm(2)) as usize
            } else {
                (old(vm).st.pc + 3) as usize
            },
            final(vm).st.r@ == old(vm).st.r@,
            final(vm).same_rest(old(vm)),
    {
        let ol = vm.next_operand();
        let addr_reg = ol[0] as usize;
        let a = vm.st.r[ol[1] as usize];
        let b = vm.st.r[ol[2] as usize];
        let offset = vm.next_operand_imm();
        let t = vm.st.r[addr_reg];
        proof {
            lemma_wrap64_signed_add(t, offset);
        }
        let addr = t.wrapping_add(offset) as usize;
        if signed_lt(b, a) {
            vm.st.pc = addr;
        } else {
            vm.next_step();
        }
    }

    /// Jumps where `r[a] >= r[b]`, signed.
    pub fn gte_i64_jump<R: Reactor>(vm: &mut VM<R>)
        requires
            old(vm).wf(),
            old(vm).has_words(2),
        ensures
            final(vm).st.pc == if sgn(old(vm).reg(old(vm).ol(1, 1))) >= sgn(old(vm).reg(old(vm).ol(1, 2))) {
                wrap64(old(vm).reg(old(vm).ol(1, 0)) + old(vm).imm(2)) as usize
            } else {
                (old(vm).st.pc + 3) as usize
            },
            final(vm).st.r@ == old(vm).st.r@,
            final(vm).same_rest(old(vm)),
    {
        let ol = vm.next_operand();
        let addr_reg = ol[0] as usize;
        let a = vm.st.r[ol[1] as usize];
        let b = vm.st.r[ol[2] as usize];
        let offset = vm.next_operand_imm();
        let t = vm.st.r[addr_reg];
        proof {
            lemma_wrap64_signed_add(t, offset);
        }
        let addr = t.wrapping_add(offset) as usize;
        if !signed_lt(a, b) {
            vm.st.pc = addr;
        } else {
            vm.next_step();
        }
    }

    /// Calls function `imm1` at pc `imm2`: the pc of the last operand word
    /// and the current function index are pushed, in that order.
    pub fn call<R: Reactor>(vm: &mut VM<R>)
        requires
            old(vm).wf(),
            old(vm).has_words(2),
            (old(vm).imm(1) as usize) < old(vm).function_table@.len(),
        ensures
            final(vm).st.call_stack@ == old(vm).st.call_stack@.push((old(vm).st.pc + 2) as usize).push(
                old(vm).st.now_call_index,
            ),
            final(vm).st.pc == old(vm).imm(2) as usize,
            final(vm).st.now_call_index == old(vm).imm(1) as usize,
            final(vm).st.r@ == old(vm).st.r@,
            final(vm).st.state_flag == old(vm).st.state_flag,
            final(vm).function_table@ == old(vm).function_table@,
            final(vm).mem.data@ == old(vm).mem.data@,
            final(vm).io == old(vm).io,
            final(vm).wf(),
    {
        let func_index = vm.next_operand_imm();
        let pc = vm.next_operand_imm();
        vm.st.call_stack.push(vm.st.pc);
        vm.st.call_stack.push(vm.st.now_call_index);
        vm.st.pc = pc as usize;
        vm.st.now_call_index = func_index as usize;
    }

    /// Returns from a call: the function index and the pc are popped, and
    /// pc moves past the call.
    pub fn ret<R: Reactor>(vm: &mut VM<R>)
        requires
            old(vm).wf(),
            old(vm).st.call_stack@.len() >= 2,
            old(vm).st.call_stack@.last() < old(vm).function_table@.len(),
            old(vm).st.call_stack@[old(vm).st.call_stack@.len() - 2] < usize::MAX,
        ensures
            final(vm).st.call_stack@ == old(vm).st.call_stack@.drop_last().drop_last(),
            final(vm).st.now_call_index == old(vm).st.call_stack@.last(),
            final(vm).st.pc == old(vm).st.call_stack@[old(vm).st.call_stack@.len() - 2] + 1,
            final(vm).st.r@ == old(vm).st.r@,
            final(vm).st.state_flag == old(vm).st.state_flag,
            final(vm).function_table@ == old(vm).function_table@,
            final(vm).mem.data@ == old(vm).mem.data@,
            final(vm).io == old(vm).io,
            final(vm).wf(),
    {
        let idx = vm.st.call_stack.pop().unwrap();
        let pc = vm.st.call_stack.pop().unwrap();
        vm.st.now_call_index = idx;
        vm.st.pc = pc + 1;
    }
}

/// Memory. A load's operand word is `[heap, addr, result]`, a store's
/// `[heap, addr, src]`, an atomic add's or sub's `[result, heap, addr,
/// src]`; the word after it is an offset. The place is byte
/// `r[addr] + offset` (wrapping) of the heap that the pointer in `r[heap]`
/// points into; values are
/// little-endian. On one VM an atomic operation is its plain counterpart.
impl Operations {
    /// `r[result]` = the 8-bit value there.
    pub fn load_u8<R: Reactor>(vm: &mut VM<R>)
        requires
            old(vm).wf(),
            old(vm).has_words(2),
            old(vm).spot_ok(old(vm).ol(1, 0), old(vm).ol(1, 1), old(vm).imm(2), 1),
        ensures
            final(vm).set_and_step(old(vm), old(vm).ol(1, 2), le_value(old(vm).spot_bytes(old(vm).ol(1, 0), old(vm).ol(1, 1), old(vm).imm(2), 1)) as u64, 3),
    {
        let ol = vm.next_operand();
        let offset = vm.next_operand_imm();
        let (id, pos) = vm.spot(ol[0], ol[1], offset);
        let v = vm.load_bytes(id, pos, 1);
        vm.st.r.set(ol[2] as usize, v);
        vm.next_step();
    }

    /// Stores the low 8 bits of `r[src]` there.
    pub fn store_u8<R: Reactor>(vm: &mut VM<R>)
        requires
            old(vm).wf(),
            old(vm).has_words(2),
            old(vm).spot_ok(old(vm).ol(1, 0), old(vm).ol(1, 1), old(vm).imm(2), 1),
        ensures
            final(vm).st.r@ == old(vm).st.r@,
            final(vm).st.pc == old(vm).st.pc + 3,
            final(vm).same_ctl(old(vm)),
            heaps_written(
                final(vm).mem.data@,
                old(vm).mem.data@,
                old(vm).spot_id(old(vm).ol(1, 0)),
                old(vm).spot_pos(old(vm).ol(1, 1), old(vm).imm(2)),
                le_bytes(old(vm).reg(old(vm).ol(1, 2)) as nat, 1),
            ),
    {
        let ol = vm.next_operand();
        let offset = vm.next_operand_imm();
        let (id, pos) = vm.spot(ol[0], ol[1], offset);
        let v = vm.st.r[ol[2] as usize];
        vm.store_bytes(id, pos, 1, v);
        vm.next_step();
    }

    /// `r[result]` = the 8-bit value there.
    pub fn atomic_load_u8<R: Reactor>(vm: &mut VM<R>)
        requires
            old(vm).wf(),
            old(vm).has_words(2),
            old(vm).spot_ok(old(vm).ol(1, 0), old(vm).ol(1, 1), old(vm).imm(2), 1),
        ensures
            final(vm).set_and_step(old(vm), old(vm).ol(1, 2), le_value(old(vm).spot_bytes(old(vm).ol(1, 0), old(vm).ol(1, 1), old(vm).imm(2), 1)) as u64, 3),
    {
        let ol = vm.next_operand();
        let offset = vm.next_operand_imm();
        let (id, pos) = vm.spot(ol[0], ol[1], offset);
        let v = vm.load_bytes(id, pos, 1);
        vm.st.r.set(ol[2] as usize, v);
        vm.next_step();
    }

    /// Stores the low 8 bits of `r[src]` there.
    pub fn atomic_store_u8<R: Reactor>(vm: &mut VM<R>)
        requires
            old(vm).wf(),
            old(vm).has_words(2),
            old(vm).spot_ok(old(vm).ol(1, 0), old(vm).ol(1, 1), old(vm).imm(2), 1),
        ensures
            final(vm).st.r@ == old(vm).st.r@,
            final(vm).st.pc == old(vm).st.pc + 3,
            final(vm).same_ctl(old(vm)),
            heaps_written(
                final(vm).mem.data@,
                old(vm).mem.data@,
                old(vm).spot_id(old(vm).ol(1, 0)),
                old(vm).spot_pos(old(vm).ol(1, 1), old(vm).imm(2)),
                le_bytes(old(vm).reg(old(vm).ol(1, 2)) as nat, 1),
            ),
    {
        let ol = vm.next_operand();
        let offset = vm.next_operand_imm();
        let (id, pos) = vm.spot(ol[0], ol[1], offset);
        let v = vm.st.r[ol[2] as usize];
        vm.store_bytes(id, pos, 1, v);
        vm.next_step();
    }

    /// Adds `r[src]` to the 8-bit value there, wrapping; `r[result]` = the value before.
    pub fn atomic_add_u8<R: Reactor>(vm: &mut VM<R>)
        requires
            old(vm).wf(),
            old(vm).has_words(2),
            old(vm).spot_ok(old(vm).ol(1, 1), old(vm).ol(1, 2), old(vm).imm(2), 1),
        ensures
            final(vm).st.r@ == old(vm).st.r@.update(old(vm).ol(1, 0) as int, le_value(old(vm).spot_bytes(old(vm).ol(1, 1), old(vm).ol(1, 2), old(vm).imm(2), 1)) as u64),
            final(vm).st.pc == old(vm).st.pc + 3,
            final(vm).same_ctl(old(vm)),
            heaps_written(
                final(vm).mem.data@,
                old(vm).mem.data@,
                old(vm).spot_id(old(vm).ol(1, 1)),
                old(vm).spot_pos(old(vm).ol(1, 2), old(vm).imm(2)),
                le_bytes(wrapn(le_value(old(vm).spot_bytes(old(vm).ol(1, 1), old(vm).ol(1, 2), old(vm).imm(2), 1)) + old(vm).reg(old(vm).ol(1, 3)), 1), 1),
            ),
    {
        let ol = vm.next_operand();
        let offset = vm.next_operand_imm();
        let (id, pos) = vm.spot(ol[1], ol[2], offset);
        let v = vm.load_bytes(id, pos, 1);
        let s = vm.st.r[ol[3] as usize];
        let nv = add_wrapped(v, s, 1);
        vm.store_bytes(id, pos, 1, nv);
        vm.st.r.set(ol[0] as usize, v);
        vm.next_step();
    }

    /// Subtracts `r[src]` from the 8-bit value there, wrapping; `r[result]` = the value before.
    pub fn atomic_sub_u8<R: Reactor>(vm: &mut VM<R>)
        requires
            old(vm).wf(),
            old(vm).has_words(2),
            old(vm).spot_ok(old(vm).ol(1, 1), old(vm).ol(1, 2), old(vm).imm(2), 1),
        ensures
            final(vm).st.r@ == old(vm).st.r@.update(old(vm).ol(1, 0) as int, le_value(old(vm).spot_bytes(old(vm).ol(1, 1), old(vm).ol(1, 2), old(vm).imm(2), 1)) as u64),
            final(vm).st.pc == old(vm).st.pc + 3,
            final(vm).same_ctl(old(vm)),
            heaps_written(
                final(vm).mem.data@,
                old(vm).mem.data@,
                old(vm).spot_id(old(vm).ol(1, 1)),
                old(vm).spot_pos(old(vm).ol(1, 2), old(vm).imm(2)),
                le_bytes(wrapn(le_value(old(vm).spot_bytes(old(vm).ol(1, 1), old(vm).ol(1, 2), old(vm).imm(2), 1)) - old(vm).reg(old(vm).ol(1, 3)), 1), 1),
            ),
    {
        let ol = vm.next_operand();
        let offset = vm.next_operand_imm();
        let (id, pos) = vm.spot(ol[1], ol[2], offset);
        let v = vm.load_bytes(id, pos, 1);
        let s = vm.st.r[ol[3] as usize];
        let nv = sub_wrapped(v, s, 1);
        vm.store_bytes(id, pos, 1, nv);
        vm.st.r.set(ol[0] as usize, v);
        vm.next_step();
    }

    /// `r[result]` = the 8-bit value there, sign-extended.
    pub fn load_i8<R: Reactor>(vm: &mut VM<R>)
        requires
            old(vm).wf(),
            old(vm).has_words(2),
            old(vm).spot_ok(old(vm).ol(1, 0), old(vm).ol(1, 1), old(vm).imm(2), 1),
        ensures
            final(vm).set_and_step(old(vm), old(vm).ol(1, 2), sext(le_value(old(vm).spot_bytes(old(vm).ol(1, 0), old(vm).ol(1, 1), old(vm).imm(2), 1)), 1), 3),
    {
        let ol = vm.next_operand();
        let offset = vm.next_operand_imm();
        let (id, pos) = vm.spot(ol[0], ol[1], offset);
        let v = vm.load_bytes(id, pos, 1);
        vm.st.r.set(ol[2] as usize, sext_exec(v, 1));
        vm.next_step();
    }

    /// Stores the low 8 bits of `r[src]` there.
    pub fn store_i8<R: Reactor>(vm: &mut VM<R>)
        requires
            old(vm).wf(),
            old(vm).has_words(2),
            old(vm).spot_ok(old(vm).ol(1, 0), old(vm).ol(1, 1), old(vm).imm(2), 1),
        ensures
            final(vm).st.r@ == old(vm).st.r@,
            final(vm).st.pc == old(vm).st.pc + 3,
            final(vm).same_ctl(old(vm)),
            heaps_written(
                final(vm).mem.data@,
                old(vm).mem.data@,
                old(vm).spot_id(old(vm).ol(1, 0)),
                old(vm).spot_pos(old(vm).ol(1, 1), old(vm).imm(2)),
                le_bytes(old(vm).reg(old(vm).ol(1, 2)) as nat, 1),
            ),
    {
        let ol = vm.next_operand();
        let offset = vm.next_operand_imm();
        let (id, pos) = vm.spot(ol[0], ol[1], offset);
        let v = vm.st.r[ol[2] as usize];
        vm.store_bytes(id, pos, 1, v);
        vm.next_step();
    }

    /// `r[result]` = the 8-bit value there, sign-extended.
    pub fn atomic_load_i8<R: Reactor>(vm: &mut VM<R>)
        requires
            old(vm).wf(),
            old(vm).has_words(2),
            old(vm).spot_ok(old(vm).ol(1, 0), old(vm).ol(1, 1), old(vm).imm(2), 1),
        ensures
            final(vm).set_and_step(old(vm), old(vm).ol(1, 2), sext(le_value(old(vm).spot_bytes(old(vm).ol(1, 0), old(vm).ol(1, 1), old(vm).imm(2), 1)), 1), 3),
    {
        let ol = vm.next_operand();
        let offset = vm.next_operand_imm();
        let (id, pos) = vm.spot(ol[0], ol[1], offset);
        let v = vm.load_bytes(id, pos, 1);
        vm.st.r.set(ol[2] as usize, sext_exec(v, 1));
        vm.next_step();
    }

    /// Stores the low 8 bits of `r[src]` there.
    pub fn atomic_store_i8<R: Reactor>(vm: &mut VM<R>)
        requires
            old(vm).wf(),
            old(vm).has_words(2),
            old(vm).spot_ok(old(vm).ol(1, 0), old(vm).ol(1, 1), old(vm).imm(2), 1),
        ensures
            final(vm).st.r@ == old(vm).st.r@,
            final(vm).st.pc == old(vm).st.pc + 3,
            final(vm).same_ctl(old(vm)),
            heaps_written(
                final(vm).mem.data@,
                old(vm).mem.data@,
                old(vm).spot_id(old(vm).ol(1, 0)),
                old(vm).spot_pos(old(vm).ol(1, 1), old(vm).imm(2)),
                le_bytes(old(vm).reg(old(vm).ol(1, 2)) as nat, 1),
            ),
    {
        let ol = vm.next_operand();
        let offset = vm.next_operand_imm();
        let (id, pos) = vm.spot(ol[0], ol[1], offset);
        let v = vm.st.r[ol[2] as usize];
        vm.store_bytes(id, pos, 1, v);
        vm.next_step();
    }

    /// Adds `r[src]` to the 8-bit value there, wrapping; `r[result]` = the value before, sign-extended.
    pub fn atomic_add_i8<R: Reactor>(vm: &mut VM<R>)
        requires
            old(vm).wf(),
            old(vm).has_words(2),
            old(vm).spot_ok(old(vm).ol(1, 1), old(vm).ol(1, 2), old(vm).imm(2), 1),
        ensures
            final(vm).st.r@ == old(vm).st.r@.update(old(vm).ol(1, 0) as int, sext(le_value(old(vm).spot_bytes(old(vm).ol(1, 1), old(vm).ol(1, 2), old(vm).imm(2), 1)), 1)),
            final(vm).st.pc == old(vm).st.pc + 3,
            final(vm).same_ctl(old(vm)),
            heaps_written(
                final(vm).mem.data@,
                old(vm).mem.data@,
                old(vm).spot_id(old(vm).ol(1, 1)),
                old(vm).spot_pos(old(vm).ol(1, 2), old(vm).imm(2)),
                le_bytes(wrapn(le_value(old(vm).spot_bytes(old(vm).ol(1, 1), old(vm).ol(1, 2), old(vm).imm(2), 1)) + old(vm).reg(old(vm).ol(1, 3)), 1), 1),
            ),
    {
        let ol = vm.next_operand();
        let offset = vm.next_operand_imm();
        let (id, pos) = vm.spot(ol[1], ol[2], offset);
        let v = vm.load_bytes(id, pos, 1);
        let s = vm.st.r[ol[3] as usize];
        let nv = add_wrapped(v, s, 1);
        vm.store_bytes(id, pos, 1, nv);
        vm.st.r.set(ol[0] as usize, sext_exec(v, 1));
        vm.next_step();
    }

    /// Subtracts `r[src]` from the 8-bit value there, wrapping; `r[result]` = the value before, sign-extended.
    pub fn atomic_sub_i8<R: Reactor>(vm: &mut VM<R>)
        requires
            old(vm).wf(),
            old(vm).has_words(2),
            old(vm).spot_ok(old(vm).ol(1, 1), old(vm).ol(1, 2), old(vm).imm(2), 1),
        ensures
            final(vm).st.r@ == old(vm).st.r@.update(old(vm).ol(1, 0) as int, sext(le_value(old(vm).spot_bytes(old(vm).ol(1, 1), old(vm).ol(1, 2), old(vm).imm(2), 1)), 1)),
            final(vm).st.pc == old(vm).st.pc + 3,
            final(vm).same_ctl(old(vm)),
            heaps_written(
                final(vm).mem.data@,
                old(vm).mem.data@,
                old(vm).spot_id(old(vm).ol(1, 1)),
                old(vm).spot_pos(old(vm).ol(1, 2), old(vm).imm(2)),
                le_bytes(wrapn(le_value(old(vm).spot_bytes(old(vm).ol(1, 1), old(vm).ol(1, 2), old(vm).imm(2), 1)) - old(vm).reg(old(vm).ol(1, 3)), 1), 1),
            ),
    {
        let ol = vm.next_operand();
        let offset = vm.next_operand_imm();
        let (id, pos) = vm.spot(ol[1], ol[2], offset);
        let v = vm.load_bytes(id, pos, 1);
        let s = vm.st.r[ol[3] as usize];
        let nv = sub_wrapped(v, s, 1);
        vm.store_bytes(id, pos, 1, nv);
        vm.st.r.set(ol[0] as usize, sext_exec(v, 1));
        vm.next_step();
    }

    /// `r[result]` = the 16-bit value there.
    pub fn load_u16<R: Reactor>(vm: &mut VM<R>)
        requires
            old(vm).wf(),
            old(vm).has_words(2),
            old(vm).spot_ok(old(vm).ol(1, 0), old(vm).ol(1, 1), old(vm).imm(2), 2),
        ensures
            final(vm).set_and_step(old(vm), old(vm).ol(1, 2), le_value(old(vm).spot_bytes(old(vm).ol(1, 0), old(vm).ol(1, 1), old(vm).imm(2), 2)) as u64, 3),
    {
        let ol = vm.next_operand();
        let offset = vm.next_operand_imm();
        let (id, pos) = vm.spot(ol[0], ol[1], offset);
        let v = vm.load_bytes(id, pos, 2);
        vm.st.r.set(ol[2] as usize, v);
        vm.next_step();
    }

    /// Stores the low 16 bits of `r[src]` there.
    pub fn store_u16<R: Reactor>(vm: &mut VM<R>)
        requires
            old(vm).wf(),
            old(vm).has_words(2),
            old(vm).spot_ok(old(vm).ol(1, 0), old(vm).ol(1, 1), old(vm).imm(2), 2),
        ensures
            final(vm).st.r@ == old(vm).st.r@,
            final(vm).st.pc == old(vm).st.pc + 3,
            final(vm).same_ctl(old(vm)),
            heaps_written(
                final(vm).mem.data@,
                old(vm).mem.data@,
                old(vm).spot_id(old(vm).ol(1, 0)),
                old(vm).spot_pos(old(vm).ol(1, 1), old(vm).imm(2)),
                le_bytes(old(vm).reg(old(vm).ol(1, 2)) as nat, 2),
            ),
    {
        let ol = vm.next_operand();
        let offset = vm.next_operand_imm();
        let (id, pos) = vm.spot(ol[0], ol[1], offset);
        let v = vm.st.r[ol[2] as usize];
        vm.store_bytes(id, pos, 2, v);
        vm.next_step();
    }

    /// `r[result]` = the 16-bit value there.
    pub fn atomic_load_u16<R: Reactor>(vm: &mut VM<R>)
        requires
            old(vm).wf(),
            old(vm).has_words(2),
            old(vm).spot_ok(old(vm).ol(1, 0), old(vm).ol(1, 1), old(vm).imm(2), 2),
        ensures
            final(vm).set_and_step(old(vm), old(vm).ol(1, 2), le_value(old(vm).spot_bytes(old(vm).ol(1, 0), old(vm).ol(1, 1), old(vm).imm(2), 2)) as u64, 3),
    {
        let ol = vm.next_operand();
        let offset = vm.next_operand_imm();
        let (id, pos) = vm.spot(ol[0], ol[1], offset);
        let v = vm.load_bytes(id, pos, 2);
        vm.st.r.set(ol[2] as usize, v);
        vm.next_step();
    }

    /// Stores the low 16 bits of `r[src]` there.
    pub fn atomic_store_u16<R: Reactor>(vm: &mut VM<R>)
        requires
            old(vm).wf(),
            old(vm).has_words(2),
            old(vm).spot_ok(old(vm).ol(1, 0), old(vm).ol(1, 1), old(vm).imm(2), 2),
        ensures
            final(vm).st.r@ == old(vm).st.r@,
            final(vm).st.pc == old(vm).st.pc + 3,
            final(vm).same_ctl(old(vm)),
            heaps_written(
                final(vm).mem.data@,
                old(vm).mem.data@,
                old(vm).spot_id(old(vm).ol(1, 0)),
                old(vm).spot_pos(old(vm).ol(1, 1), old(vm).imm(2)),
                le_bytes(old(vm).reg(old(vm).ol(1, 2)) as nat, 2),
            ),
    {
        let ol = vm.next_operand();
        let offset = vm.next_operand_imm();
        let (id, pos) = vm.spot(ol[0], ol[1], offset);
        let v = vm.st.r[ol[2] as usize];
        vm.store_bytes(id, pos, 2, v);
        vm.next_step();
    }

    /// Adds `r[src]` to the 16-bit value there, wrapping; `r[result]` = the value before.
    pub fn atomic_add_u16<R: Reactor>(vm: &mut VM<R>)
        requires
            old(vm).wf(),
            old(vm).has_words(2),
            old(vm).spot_ok(old(vm).ol(1, 1), old(vm).ol(1, 2), old(vm).imm(2), 2),
        ensures
            final(vm).st.r@ == old(vm).st.r@.update(old(vm).ol(1, 0) as int, le_value(old(vm).spot_bytes(old(vm).ol(1, 1), old(vm).ol(1, 2), old(vm).imm(2), 2)) as u64),
            final(vm).st.pc == old(vm).st.pc + 3,
            final(vm).same_ctl(old(vm)),
            heaps_written(
                final(vm).mem.data@,
                old(vm).mem.data@,
                old(vm).spot_id(old(vm).ol(1, 1)),
                old(vm).spot_pos(old(vm).ol(1, 2), old(vm).imm(2)),
                le_bytes(wrapn(le_value(old(vm).spot_bytes(old(vm).ol(1, 1), old(vm).ol(1, 2), old(vm).imm(2), 2)) + old(vm).reg(old(vm).ol(1, 3)), 2), 2),
            ),
    {
        let ol = vm.next_operand();
        let offset = vm.next_operand_imm();
        let (id, pos) = vm.spot(ol[1], ol[2], offset);
        let v = vm.load_bytes(id, pos, 2);
        let s = vm.st.r[ol[3] as usize];
        let nv = add_wrapped(v, s, 2);
        vm.store_bytes(id, pos, 2, nv);
        vm.st.r.set(ol[0] as usize, v);
        vm.next_step();
    }

    /// Subtracts `r[src]` from the 16-bit value there, wrapping; `r[result]` = the value before.
    pub fn atomic_sub_u16<R: Reactor>(vm: &mut VM<R>)
        requires
            old(vm).wf(),
            old(vm).has_words(2),
            old(vm).spot_ok(old(vm).ol(1, 1), old(vm).ol(1, 2), old(vm).imm(2), 2),
        ensures
            final(vm).st.r@ == old(vm).st.r@.update(old(vm).ol(1, 0) as int, le_value(old(vm).spot_bytes(old(vm).ol(1, 1), old(vm).ol(1, 2), old(vm).imm(2), 2)) as u64),
            final(vm).st.pc == old(vm).st.pc + 3,
            final(vm).same_ctl(old(vm)),
            heaps_written(
                final(vm).mem.data@,
                old(vm).mem.data@,
                old(vm).spot_id(old(vm).ol(1, 1)),
                old(vm).spot_pos(old(vm).ol(1, 2), old(vm).imm(2)),
                le_bytes(wrapn(le_value(old(vm).spot_bytes(old(vm).ol(1, 1), old(vm).ol(1, 2), old(vm).imm(2), 2)) - old(vm).reg(old(vm).ol(1, 3)), 2), 2),
            ),
    {
        let ol = vm.next_operand();
        let offset = vm.next_operand_imm();
        let (id, pos) = vm.spot(ol[1], ol[2], offset);
        let v = vm.load_bytes(id, pos, 2);
        let s = vm.st.r[ol[3] as usize];
        let nv = sub_wrapped(v, s, 2);
        vm.store_bytes(id, pos, 2, nv);
        vm.st.r.set(ol[0] as usize, v);
        vm.next_step();
    }

    /// `r[result]` = the 16-bit value there, sign-extended.
    pub fn load_i16<R: Reactor>(vm: &mut VM<R>)
        requires
            old(vm).wf(),
            old(vm).has_words(2),
            old(vm).spot_ok(old(vm).ol(1, 0), old(vm).ol(1, 1), old(vm).imm(2), 2),
        ensures
            final(vm).set_and_step(old(vm), old(vm).ol(1, 2), sext(le_value(old(vm).spot_bytes(old(vm).ol(1, 0), old(vm).ol(1, 1), old(vm).imm(2), 2)), 2), 3),
    {
        let ol = vm.next_operand();
        let offset = vm.next_operand_imm();
        let (id, pos) = vm.spot(ol[0], ol[1], offset);
        let v = vm.load_bytes(id, pos, 2);
        vm.st.r.set(ol[2] as usize, sext_exec(v, 2));
        vm.next_step();
    }

    /// Stores the low 16 bits of `r[src]` there.
    pub fn store_i16<R: Reactor>(vm: &mut VM<R>)
        requires
            old(vm).wf(),
            old(vm).has_words(2),
            old(vm).spot_ok(old(vm).ol(1, 0), old(vm).ol(1, 1), old(vm).imm(2), 2),
        ensures
            final(vm).st.r@ == old(vm).st.r@,
            final(vm).st.pc == old(vm).st.pc + 3,
            final(vm).same_ctl(old(vm)),
            heaps_written(
                final(vm).mem.data@,
                old(vm).mem.data@,
                old(vm).spot_id(old(vm).ol(1, 0)),
                old(vm).spot_pos(old(vm).ol(1, 1), old(vm).imm(2)),
                le_bytes(old(vm).reg(old(vm).ol(1, 2)) as nat, 2),
            ),
    {
        let ol = vm.next_operand();
        let offset = vm.next_operand_imm();
        let (id, pos) = vm.spot(ol[0], ol[1], offset);
        let v = vm.st.r[ol[2] as usize];
        vm.store_bytes(id, pos, 2, v);
        vm.next_step();
    }

    /// `r[result]` = the 16-bit value there, sign-extended.
    pub fn atomic_load_i16<R: Reactor>(vm: &mut VM<R>)
        requires
            old(vm).wf(),
            old(vm).has_words(2),
            old(vm).spot_ok(old(vm).ol(1, 0), old(vm).ol(1, 1), old(vm).imm(2), 2),
        ensures
            final(vm).set_and_step(old(vm), old(vm).ol(1, 2), sext(le_value(old(vm).spot_bytes(old(vm).ol(1, 0), old(vm).ol(1, 1), old(vm).imm(2), 2)), 2), 3),
    {
        let ol = vm.next_operand();
        let offset = vm.next_operand_imm();
        let (id, pos) = vm.spot(ol[0], ol[1], offset);
        let v = vm.load_bytes(id, pos, 2);
        vm.st.r.set(ol[2] as usize, sext_exec(v, 2));
        vm.next_step();
    }

    /// Stores the low 16 bits of `r[src]` there.
    pub fn atomic_store_i16<R: Reactor>(vm: &mut VM<R>)
        requires
            old(vm).wf(),
            old(vm).has_words(2),
            old(vm).spot_ok(old(vm).ol(1, 0), old(vm).ol(1, 1), old(vm).imm(2), 2),
        ensures
            final(vm).st.r@ == old(vm).st.r@,
            final(vm).st.pc == old(vm).st.pc + 3,
            final(vm).same_ctl(old(vm)),
            heaps_written(
                final(vm).mem.data@,
                old(vm).mem.data@,
                old(vm).spot_id(old(vm).ol(1, 0)),
                old(vm).spot_pos(old(vm).ol(1, 1), old(vm).imm(2)),
                le_bytes(old(vm).reg(old(vm).ol(1, 2)) as nat, 2),
            ),
    {
        let ol = vm.next_operand();
        let offset = vm.next_operand_imm();
        let (id, pos) = vm.spot(ol[0], ol[1], offset);
        let v = vm.st.r[ol[2] as usize];
        vm.store_bytes(id, pos, 2, v);
        vm.next_step();
    }

    /// Adds `r[src]` to the 16-bit value there, wrapping; `r[result]` = the value before, sign-extended.
    pub fn atomic_add_i16<R: Reactor>(vm: &mut VM<R>)
        requires
            old(vm).wf(),
            old(vm).has_words(2),
            old(vm).spot_ok(old(vm).ol(1, 1), old(vm).ol(1, 2), old(vm).imm(2), 2),
        ensures
            final(vm).st.r@ == old(vm).st.r@.update(old(vm).ol(1, 0) as int, sext(le_value(old(vm).spot_bytes(old(vm).ol(1, 1), old(vm).ol(1, 2), old(vm).imm(2), 2)), 2)),
            final(vm).st.pc == old(vm).st.pc + 3,
            final(vm).same_ctl(old(vm)),
            heaps_written(
                final(vm).mem.data@,
                old(vm).mem.data@,
                old(vm).spot_id(old(vm).ol(1, 1)),
                old(vm).spot_pos(old(vm).ol(1, 2), old(vm).imm(2)),
                le_bytes(wrapn(le_value(old(vm).spot_bytes(old(vm).ol(1, 1), old(vm).ol(1, 2), old(vm).imm(2), 2)) + old(vm).reg(old(vm).ol(1, 3)), 2), 2),
            ),
    {
        let ol = vm.next_operand();
        let offset = vm.next_operand_imm();
        let (id, pos) = vm.spot(ol[1], ol[2], offset);
        let v = vm.load_bytes(id, pos, 2);
        let s = vm.st.r[ol[3] as usize];
        let nv = add_wrapped(v, s, 2);
        vm.store_bytes(id, pos, 2, nv);
        vm.st.r.set(ol[0] as usize, sext_exec(v, 2));
        vm.next_step();
    }

    /// Subtracts `r[src]` from the 16-bit value there, wrapping; `r[result]` = the value before, sign-extended.
    pub fn atomic_sub_i16<R: Reactor>(vm: &mut VM<R>)
        requires
            old(vm).wf(),
            old(vm).has_words(2),
            old(vm).spot_ok(old(vm).ol(1, 1), old(vm).ol(1, 2), old(vm).imm(2), 2),
        ensures
            final(vm).st.r@ == old(vm).st.r@.update(old(vm).ol(1, 0) as int, sext(le_value(old(vm).spot_bytes(old(vm).ol(1, 1), old(vm).ol(1, 2), old(vm).imm(2), 2)), 2)),
            final(vm).st.pc == old(vm).st.pc + 3,
            final(vm).same_ctl(old(vm)),
            heaps_written(
                final(vm).mem.data@,
                old(vm).mem.data@,
                old(vm).spot_id(old(vm).ol(1, 1)),
                old(vm).spot_pos(old(vm).ol(1, 2), old(vm).imm(2)),
                le_bytes(wrapn(le_value(old(vm).spot_bytes(old(vm).ol(1, 1), old(vm).ol(1, 2), old(vm).imm(2), 2)) - old(vm).reg(old(vm).ol(1, 3)), 2), 2),
            ),
    {
        let ol = vm.next_operand();
        let offset = vm.next_operand_imm();
        let (id, pos) = vm.spot(ol[1], ol[2], offset);
        let v = vm.load_bytes(id, pos, 2);
        let s = vm.st.r[ol[3] as usize];
        let nv = sub_wrapped(v, s, 2);
        vm.store_bytes(id, pos, 2, nv);
        vm.st.r.set(ol[0] as usize, sext_exec(v, 2));
        vm.next_step();
    }

    /// `r[result]` = the 32-bit value there.
    pub fn load_u32<R: Reactor>(vm: &mut VM<R>)
        requires
            old(vm).wf(),
            old(vm).has_words(2),
            old(vm).spot_ok(old(vm).ol(1, 0), old(vm).ol(1, 1), old(vm).imm(2), 4),
        ensures
            final(vm).set_and_step(old(vm), old(vm).ol(1, 2), le_value(old(vm).spot_bytes(old(vm).ol(1, 0), old(vm).ol(1, 1), old(vm).imm(2), 4)) as u64, 3),
    {
        let ol = vm.next_operand();
        let offset = vm.next_operand_imm();
        let (id, pos) = vm.spot(ol[0], ol[1], offset);
        let v = vm.load_bytes(id, pos, 4);
        vm.st.r.set(ol[2] as usize, v);
        vm.next_step();
    }

    /// Stores the low 32 bits of `r[src]` there.
    pub fn store_u32<R: Reactor>(vm: &mut VM<R>)
        requires
            old(vm).wf(),
            old(vm).has_words(2),
            old(vm).spot_ok(old(vm).ol(1, 0), old(vm).ol(1, 1), old(vm).imm(2), 4),
        ensures
            final(vm).st.r@ == old(vm).st.r@,
            final(vm).st.pc == old(vm).st.pc + 3,
            final(vm).same_ctl(old(vm)),
            heaps_written(
                final(vm).mem.data@,
                old(vm).mem.data@,
                old(vm).spot_id(old(vm).ol(1, 0)),
                old(vm).spot_pos(old(vm).ol(1, 1), old(vm).imm(2)),
                le_bytes(old(vm).reg(old(vm).ol(1, 2)) as nat, 4),
            ),
    {
        let ol = vm.next_operand();
        let offset = vm.next_operand_imm();
        let (id, pos) = vm.spot(ol[0], ol[1], offset);
        let v = vm.st.r[ol[2] as usize];
        vm.store_bytes(id, pos, 4, v);
        vm.next_step();
    }

    /// `r[result]` = the 32-bit value there.
    pub fn atomic_load_u32<R: Reactor>(vm: &mut VM<R>)
        requires
            old(vm).wf(),
            old(vm).has_words(2),
            old(vm).spot_ok(old(vm).ol(1, 0), old(vm).ol(1, 1), old(vm).imm(2), 4),
        ensures
            final(vm).set_and_step(old(vm), old(vm).ol(1, 2), le_value(old(vm).spot_bytes(old(vm).ol(1, 0), old(vm).ol(1, 1), old(vm).imm(2), 4)) as u64, 3),
    {
        let ol = vm.next_operand();
        let offset = vm.next_operand_imm();
        let (id, pos) = vm.spot(ol[0], ol[1], offset);
        let v = vm.load_bytes(id, pos, 4);
        vm.st.r.set(ol[2] as usize, v);
        vm.next_step();
    }

    /// Stores the low 32 bits of `r[src]` there.
    pub fn atomic_store_u32<R: Reactor>(vm: &mut VM<R>)
        requires
            old(vm).wf(),
            old(vm).has_words(2),
            old(vm).spot_ok(old(vm).ol(1, 0), old(vm).ol(1, 1), old(vm).imm(2), 4),
        ensures
            final(vm).st.r@ == old(vm).st.r@,
            final(vm).st.pc == old(vm).st.pc + 3,
            final(vm).same_ctl(old(vm)),
            heaps_written(
                final(vm).mem.data@,
                old(vm).mem.data@,
                old(vm).spot_id(old(vm).ol(1, 0)),
                old(vm).spot_pos(old(vm).ol(1, 1), old(vm).imm(2)),
                le_bytes(old(vm).reg(old(vm).ol(1, 2)) as nat, 4),
            ),
    {
        let ol = vm.next_operand();
        let offset = vm.next_operand_imm();
        let (id, pos) = vm.spot(ol[0], ol[1], offset);
        let v = vm.st.r[ol[2] as usize];
        vm.store_bytes(id, pos, 4, v);
        vm.next_step();
    }

    /// Adds `r[src]` to the 32-bit value there, wrapping; `r[result]` = the value before.
    pub fn atomic_add_u32<R: Reactor>(vm: &mut VM<R>)
        requires
            old(vm).wf(),
            old(vm).has_words(2),
            old(vm).spot_ok(old(vm).ol(1, 1), old(vm).ol(1, 2), old(vm).imm(2), 4),
        ensures
            final(vm).st.r@ == old(vm).st.r@.update(old(vm).ol(1, 0) as int, le_value(old(vm).spot_bytes(old(vm).ol(1, 1), old(vm).ol(1, 2), old(vm).imm(2), 4)) as u64),
            final(vm).st.pc == old(vm).st.pc + 3,
            final(vm).same_ctl(old(vm)),
            heaps_written(
                final(vm).mem.data@,
                old(vm).mem.data@,
                old(vm).spot_id(old(vm).ol(1, 1)),
                old(vm).spot_pos(old(vm).ol(1, 2), old(vm).imm(2)),
                le_bytes(wrapn(le_value(old(vm).spot_bytes(old(vm).ol(1, 1), old(vm).ol(1, 2), old(vm).imm(2), 4)) + old(vm).reg(old(vm).ol(1, 3)), 4), 4),
            ),
    {
        let ol = vm.next_operand();
        let offset = vm.next_operand_imm();
        let (id, pos) = vm.spot(ol[1], ol[2], offset);
        let v = vm.load_bytes(id, pos, 4);
        let s = vm.st.r[ol[3] as usize];
        let nv = add_wrapped(v, s, 4);
        vm.store_bytes(id, pos, 4, nv);
        vm.st.r.set(ol[0] as usize, v);
        vm.next_step();
    }

    /// Subtracts `r[src]` from the 32-bit value there, wrapping; `r[result]` = the value before.
    pub fn atomic_sub_u32<R: Reactor>(vm: &mut VM<R>)
        requires
            old(vm).wf(),
            old(vm).has_words(2),
            old(vm).spot_ok(old(vm).ol(1, 1), old(vm).ol(1, 2), old(vm).imm(2), 4),
        ensures
            final(vm).st.r@ == old(vm).st.r@.update(old(vm).ol(1, 0) as int, le_value(old(vm).spot_bytes(old(vm).ol(1, 1), old(vm).ol(1, 2), old(vm).imm(2), 4)) as u64),
            final(vm).st.pc == old(vm).st.pc + 3,
            final(vm).same_ctl(old(vm)),
            heaps_written(
                final(vm).mem.data@,
                old(vm).mem.data@,
                old(vm).spot_id(old(vm).ol(1, 1)),
                old(vm).spot_pos(old(vm).ol(1, 2), old(vm).imm(2)),
                le_bytes(wrapn(le_value(old(vm).spot_bytes(old(vm).ol(1, 1), old(vm).ol(1, 2), old(vm).imm(2), 4)) - old(vm).reg(old(vm).ol(1, 3)), 4), 4),
            ),
    {
        let ol = vm.next_operand();
        let offset = vm.next_operand_imm();
        let (id, pos) = vm.spot(ol[1], ol[2], offset);
        let v = vm.load_bytes(id, pos, 4);
        let s = vm.st.r[ol[3] as usize];
        let nv = sub_wrapped(v, s, 4);
        vm.store_bytes(id, pos, 4, nv);
        vm.st.r.set(ol[0] as usize, v);
        vm.next_step();
    }

    /// `r[result]` = the 32-bit value there, sign-extended.
    pub fn load_i32<R: Reactor>(vm: &mut VM<R>)
        requires
            old(vm).wf(),
            old(vm).has_words(2),
            old(vm).spot_ok(old(vm).ol(1, 0), old(vm).ol(1, 1), old(vm).imm(2), 4),
        ensures
            final(vm).set_and_step(old(vm), old(vm).ol(1, 2), sext(le_value(old(vm).spot_bytes(old(vm).ol(1, 0), old(vm).ol(1, 1), old(vm).imm(2), 4)), 4), 3),
    {
        let ol = vm.next_operand();
        let offset = vm.next_operand_imm();
        let (id, pos) = vm.spot(ol[0], ol[1], offset);
        let v = vm.load_bytes(id, pos, 4);
        vm.st.r.set(ol[2] as usize, sext_exec(v, 4));
        vm.next_step();
    }

    /// Stores the low 32 bits of `r[src]` there.
    pub fn store_i32<R: Reactor>(vm: &mut VM<R>)
        requires
            old(vm).wf(),
            old(vm).has_words(2),
            old(vm).spot_ok(old(vm).ol(1, 0), old(vm).ol(1, 1), old(vm).imm(2), 4),
        ensures
            final(vm).st.r@ == old(vm).st.r@,
            final(vm).st.pc == old(vm).st.pc + 3,
            final(vm).same_ctl(old(vm)),
            heaps_written(
                final(vm).mem.data@,
                old(vm).mem.data@,
                old(vm).spot_id(old(vm).ol(1, 0)),
                old(vm).spot_pos(old(vm).ol(1, 1), old(vm).imm(2)),
                le_bytes(old(vm).reg(old(vm).ol(1, 2)) as nat, 4),
            ),
    {
        let ol = vm.next_operand();
        let offset = vm.next_operand_imm();
        let (id, pos) = vm.spot(ol[0], ol[1], offset);
        let v = vm.st.r[ol[2] as usize];
        vm.store_bytes(id, pos, 4, v);
        vm.next_step();
    }

    /// `r[result]` = the 32-bit value there, sign-extended.
    pub fn atomic_load_i32<R: Reactor>(vm: &mut VM<R>)
        requires
            old(vm).wf(),
            old(vm).has_words(2),
            old(vm).spot_ok(old(vm).ol(1, 0), old(vm).ol(1, 1), old(vm).imm(2), 4),
        ensures
            final(vm).set_and_step(old(vm), old(vm).ol(1, 2), sext(le_value(old(vm).spot_bytes(old(vm).ol(1, 0), old(vm).ol(1, 1), old(vm).imm(2), 4)), 4), 3),
    {
        let ol = vm.next_operand();
        let offset = vm.next_operand_imm();
        let (id, pos) = vm.spot(ol[0], ol[1], offset);
        let v = vm.load_bytes(id, pos, 4);
        vm.st.r.set(ol[2] as usize, sext_exec(v, 4));
        vm.next_step();
    }

    /// Stores the low 32 bits of `r[src]` there.
    pub fn atomic_store_i32<R: Reactor>(vm: &mut VM<R>)
        requires
            old(vm).wf(),
            old(vm).has_words(2),
            old(vm).spot_ok(old(vm).ol(1, 0), old(vm).ol(1, 1), old(vm).imm(2), 4),
        ensures
            final(vm).st.r@ == old(vm).st.r@,
            final(vm).st.pc == old(vm).st.pc + 3,
            final(vm).same_ctl(old(vm)),
            heaps_written(
                final(vm).mem.data@,
                old(vm).mem.data@,
                old(vm).spot_id(old(vm).ol(1, 0)),
                old(vm).spot_pos(old(vm).ol(1, 1), old(vm).imm(2)),
                le_bytes(old(vm).reg(old(vm).ol(1, 2)) as nat, 4),
            ),
    {
        let ol = vm.next_operand();
        let offset = vm.next_operand_imm();
        let (id, pos) = vm.spot(ol[0], ol[1], offset);
        let v = vm.st.r[ol[2] as usize];
        vm.store_bytes(id, pos, 4, v);
        vm.next_step();
    }

    /// Adds `r[src]` to the 32-bit value there, wrapping; `r[result]` = the value before, sign-extended.
    pub fn atomic_add_i32<R: Reactor>(vm: &mut VM<R>)
        requires
            old(vm).wf(),
            old(vm).has_words(2),
            old(vm).spot_ok(old(vm).ol(1, 1), old(vm).ol(1, 2), old(vm).imm(2), 4),
        ensures
            final(vm).st.r@ == old(vm).st.r@.update(old(vm).ol(1, 0) as int, sext(le_value(old(vm).spot_bytes(old(vm).ol(1, 1), old(vm).ol(1, 2), old(vm).imm(2), 4)), 4)),
            final(vm).st.pc == old(vm).st.pc + 3,
            final(vm).same_ctl(old(vm)),
            heaps_written(
                final(vm).mem.data@,
                old(vm).mem.data@,
                old(vm).spot_id(old(vm).ol(1, 1)),
                old(vm).spot_pos(old(vm).ol(1, 2), old(vm).imm(2)),
                le_bytes(wrapn(le_value(old(vm).spot_bytes(old(vm).ol(1, 1), old(vm).ol(1, 2), old(vm).imm(2), 4)) + old(vm).reg(old(vm).ol(1, 3)), 4), 4),
            ),
    {
        let ol = vm.next_operand();
        let offset = vm.next_operand_imm();
        let (id, pos) = vm.spot(ol[1], ol[2], offset);
        let v = vm.load_bytes(id, pos, 4);
        let s = vm.st.r[ol[3] as usize];
        let nv = add_wrapped(v, s, 4);
        vm.store_bytes(id, pos, 4, nv);
        vm.st.r.set(ol[0] as usize, sext_exec(v, 4));
        vm.next_step();
    }

    /// Subtracts `r[src]` from the 32-bit value there, wrapping; `r[result]` = the value before, sign-extended.
    pub fn atomic_sub_i32<R: Reactor>(vm: &mut VM<R>)
        requires
            old(vm).wf(),
            old(vm).has_words(2),
            old(vm).spot_ok(old(vm).ol(1, 1), old(vm).ol(1, 2), old(vm).imm(2), 4),
        ensures
            final(vm).st.r@ == old(vm).st.r@.update(old(vm).ol(1, 0) as int, sext(le_value(old(vm).spot_bytes(old(vm).ol(1, 1), old(vm).ol(1, 2), old(vm).imm(2), 4)), 4)),
            final(vm).st.pc == old(vm).st.pc + 3,
            final(vm).same_ctl(old(vm)),
            heaps_written(
                final(vm).mem.data@,
                old(vm).mem.data@,
                old(vm).spot_id(old(vm).ol(1, 1)),
                old(vm).spot_pos(old(vm).ol(1, 2), old(vm).imm(2)),
                le_bytes(wrapn(le_value(old(vm).spot_bytes(old(vm).ol(1, 1), old(vm).ol(1, 2), old(vm).imm(2), 4)) - old(vm).reg(old(vm).ol(1, 3)), 4), 4),
            ),
    {
        let ol = vm.next_operand();
        let offset = vm.next_operand_imm();
        let (id, pos) = vm.spot(ol[1], ol[2], offset);
        let v = vm.load_bytes(id, pos, 4);
        let s = vm.st.r[ol[3] as usize];
        let nv = sub_wrapped(v, s, 4);
        vm.store_bytes(id, pos, 4, nv);
        vm.st.r.set(ol[0] as usize, sext_exec(v, 4));
        vm.next_step();
    }

    /// `r[result]` = the 64-bit value there.
    pub fn load_u64<R: Reactor>(vm: &mut VM<R>)
        requires
            old(vm).wf(),
            old(vm).has_words(2),
            old(vm).spot_ok(old(vm).ol(1, 0), old(vm).ol(1, 1), old(vm).imm(2), 8),
        ensures
            final(vm).set_and_step(old(vm), old(vm).ol(1, 2), le_value(old(vm).spot_bytes(old(vm).ol(1, 0), old(vm).ol(1, 1), old(vm).imm(2), 8)) as u64, 3),
    {
        let ol = vm.next_operand();
        let offset = vm.next_operand_imm();
        let (id, pos) = vm.spot(ol[0], ol[1], offset);
        let v = vm.load_bytes(id, pos, 8);
        vm.st.r.set(ol[2] as usize, v);
        vm.next_step();
    }

    /// Stores the low 64 bits of `r[src]` there.
    pub fn store_u64<R: Reactor>(vm: &mut VM<R>)
        requires
            old(vm).wf(),
            old(vm).has_words(2),
            old(vm).spot_ok(old(vm).ol(1, 0), old(vm).ol(1, 1), old(vm).imm(2), 8),
        ensures
            final(vm).st.r@ == old(vm).st.r@,
            final(vm).st.pc == old(vm).st.pc + 3,
            final(vm).same_ctl(old(vm)),
            heaps_written(
                final(vm).mem.data@,
                old(vm).mem.data@,
                old(vm).spot_id(old(vm).ol(1, 0)),
                old(vm).spot_pos(old(vm).ol(1, 1), old(vm).imm(2)),
                le_bytes(old(vm).reg(old(vm).ol(1, 2)) as nat, 8),
            ),
    {
        let ol = vm.next_operand();
        let offset = vm.next_operand_imm();
        let (id, pos) = vm.spot(ol[0], ol[1], offset);
        let v = vm.st.r[ol[2] as usize];
        vm.store_bytes(id, pos, 8, v);
        vm.next_step();
    }

    /// `r[result]` = the 64-bit value there.
    pub fn atomic_load_u64<R: Reactor>(vm: &mut VM<R>)
        requires
            old(vm).wf(),
            old(vm).has_words(2),
            old(vm).spot_ok(old(vm).ol(1, 0), old(vm).ol(1, 1), old(vm).imm(2), 8),
        ensures
            final(vm).set_and_step(old(vm), old(vm).ol(1, 2), le_value(old(vm).spot_bytes(old(vm).ol(1, 0), old(vm).ol(1, 1), old(vm).imm(2), 8)) as u64, 3),
    {
        let ol = vm.next_operand();
        let offset = vm.next_operand_imm();
        let (id, pos) = vm.spot(ol[0], ol[1], offset);
        let v = vm.load_bytes(id, pos, 8);
        vm.st.r.set(ol[2] as usize, v);
        vm.next_step();
    }

    /// Stores the low 64 bits of `r[src]` there.
    pub fn atomic_store_u64<R: Reactor>(vm: &mut VM<R>)
        requires
            old(vm).wf(),
            old(vm).has_words(2),
            old(vm).spot_ok(old(vm).ol(1, 0), old(vm).ol(1, 1), old(vm).imm(2), 8),
        ensures
            final(vm).st.r@ == old(vm).st.r@,
            final(vm).st.pc == old(vm).st.pc + 3,
            final(vm).same_ctl(old(vm)),
            heaps_written(
                final(vm).mem.data@,
                old(vm).mem.data@,
                old(vm).spot_id(old(vm).ol(1, 0)),
                old(vm).spot_pos(old(vm).ol(1, 1), old(vm).imm(2)),
                le_bytes(old(vm).reg(old(vm).ol(1, 2)) as nat, 8),
            ),
    {
        let ol = vm.next_operand();
        let offset = vm.next_operand_imm();
        let (id, pos) = vm.spot(ol[0], ol[1], offset);
        let v = vm.st.r[ol[2] as usize];
        vm.store_bytes(id, pos, 8, v);
        vm.next_step();
    }

    /// Adds `r[src]` to the 64-bit value there, wrapping; `r[result]` = the value before.
    pub fn atomic_add_u64<R: Reactor>(vm: &mut VM<R>)
        requires
            old(vm).wf(),
            old(vm).has_words(2),
            old(vm).spot_ok(old(vm).ol(1, 1), old(vm).ol(1, 2), old(vm).imm(2), 8),
        ensures
            final(vm).st.r@ == old(vm).st.r@.update(old(vm).ol(1, 0) as int, le_value(old(vm).spot_bytes(old(vm).ol(1, 1), old(vm).ol(1, 2), old(vm).imm(2), 8)) as u64),
            final(vm).st.pc == old(vm).st.pc + 3,
            final(vm).same_ctl(old(vm)),
            heaps_written(
                final(vm).mem.data@,
                old(vm).mem.data@,
                old(vm).spot_id(old(vm).ol(1, 1)),
                old(vm).spot_pos(old(vm).ol(1, 2), old(vm).imm(2)),
                le_bytes(wrapn(le_value(old(vm).spot_bytes(old(vm).ol(1, 1), old(vm).ol(1, 2), old(vm).imm(2), 8)) + old(vm).reg(old(vm).ol(1, 3)), 8), 8),
            ),
    {
        let ol = vm.next_operand();
        let offset = vm.next_operand_imm();
        let (id, pos) = vm.spot(ol[1], ol[2], offset);
        let v = vm.load_bytes(id, pos, 8);
        let s = vm.st.r[ol[3] as usize];
        let nv = add_wrapped(v, s, 8);
        vm.store_bytes(id, pos, 8, nv);
        vm.st.r.set(ol[0] as usize, v);
        vm.next_step();
    }

    /// Subtracts `r[src]` from the 64-bit value there, wrapping; `r[result]` = the value before.
    pub fn atomic_sub_u64<R: Reactor>(vm: &mut VM<R>)
        requires
            old(vm).wf(),
            old(vm).has_words(2),
            old(vm).spot_ok(old(vm).ol(1, 1), old(vm).ol(1, 2), old(vm).imm(2), 8),
        ensures
            final(vm).st.r@ == old(vm).st.r@.update(old(vm).ol(1, 0) as int, le_value(old(vm).spot_bytes(old(vm).ol(1, 1), old(vm).ol(1, 2), old(vm).imm(2), 8)) as u64),
            final(vm).st.pc == old(vm).st.pc + 3,
            final(vm).same_ctl(old(vm)),
            heaps_written(
                final(vm).mem.data@,
                old(vm).mem.data@,
                old(vm).spot_id(old(vm).ol(1, 1)),
                old(vm).spot_pos(old(vm).ol(1, 2), old(vm).imm(2)),
                le_bytes(wrapn(le_value(old(vm).spot_bytes(old(vm).ol(1, 1), old(vm).ol(1, 2), old(vm).imm(2), 8)) - old(vm).reg(old(vm).ol(1, 3)), 8), 8),
            ),
    {
        let ol = vm.next_operand();
        let offset = vm.next_operand_imm();
        let (id, pos) = vm.spot(ol[1], ol[2], offset);
        let v = vm.load_bytes(id, pos, 8);
        let s = vm.st.r[ol[3] as usize];
        let nv = sub_wrapped(v, s, 8);
        vm.store_bytes(id, pos, 8, nv);
        vm.st.r.set(ol[0] as usize, v);
        vm.next_step();
    }

    /// `r[result]` = the 64-bit value there, sign-extended.
    pub fn load_i64<R: Reactor>(vm: &mut VM<R>)
        requires
            old(vm).wf(),
            old(vm).has_words(2),
            old(vm).spot_ok(old(vm).ol(1, 0), old(vm).ol(1, 1), old(vm).imm(2), 8),
        ensures
            final(vm).set_and_step(old(vm), old(vm).ol(1, 2), sext(le_value(old(vm).spot_bytes(old(vm).ol(1, 0), old(vm).ol(1, 1), old(vm).imm(2), 8)), 8), 3),
    {
        let ol = vm.next_operand();
        let offset = vm.next_operand_imm();
        let (id, pos) = vm.spot(ol[0], ol[1], offset);
        let v = vm.load_bytes(id, pos, 8);
        vm.st.r.set(ol[2] as usize, sext_exec(v, 8));
        vm.next_step();
    }

    /// Stores the low 64 bits of `r[src]` there.
    pub fn store_i64<R: Reactor>(vm: &mut VM<R>)
        requires
            old(vm).wf(),
            old(vm).has_words(2),
            old(vm).spot_ok(old(vm).ol(1, 0), old(vm).ol(1, 1), old(vm).imm(2), 8),
        ensures
            final(vm).st.r@ == old(vm).st.r@,
            final(vm).st.pc == old(vm).st.pc + 3,
            final(vm).same_ctl(old(vm)),
            heaps_written(
                final(vm).mem.data@,
                old(vm).mem.data@,
                old(vm).spot_id(old(vm).ol(1, 0)),
                old(vm).spot_pos(old(vm).ol(1, 1), old(vm).imm(2)),
                le_bytes(old(vm).reg(old(vm).ol(1, 2)) as nat, 8),
            ),
    {
        let ol = vm.next_operand();
        let offset = vm.next_operand_imm();
        let (id, pos) = vm.spot(ol[0], ol[1], offset);
        let v = vm.st.r[ol[2] as usize];
        vm.store_bytes(id, pos, 8, v);
        vm.next_step();
    }

    /// `r[result]` = the 64-bit value there, sign-extended.
    pub fn atomic_load_i64<R: Reactor>(vm: &mut VM<R>)
        requires
            old(vm).wf(),
            old(vm).has_words(2),
            old(vm).spot_ok(old(vm).ol(1, 0), old(vm).ol(1, 1), old(vm).imm(2), 8),
        ensures
            final(vm).set_and_step(old(vm), old(vm).ol(1, 2), sext(le_value(old(vm).spot_bytes(old(vm).ol(1, 0), old(vm).ol(1, 1), old(vm).imm(2), 8)), 8), 3),
    {
        let ol = vm.next_operand();
        let offset = vm.next_operand_imm();
        let (id, pos) = vm.spot(ol[0], ol[1], offset);
        let v = vm.load_bytes(id, pos, 8);
        vm.st.r.set(ol[2] as usize, sext_exec(v, 8));
        vm.next_step();
    }

    /// Stores the low 64 bits of `r[src]` there.
    pub fn atomic_store_i64<R: Reactor>(vm: &mut VM<R>)
        requires
            old(vm).wf(),
            old(vm).has_words(2),
            old(vm).spot_ok(old(vm).ol(1, 0), old(vm).ol(1, 1), old(vm).imm(2), 8),
        ensures
            final(vm).st.r@ == old(vm).st.r@,
            final(vm).st.pc == old(vm).st.pc + 3,
            final(vm).same_ctl(old(vm)),
            heaps_written(
                final(vm).mem.data@,
                old(vm).mem.data@,
                old(vm).spot_id(old(vm).ol(1, 0)),
                old(vm).spot_pos(old(vm).ol(1, 1), old(vm).imm(2)),
                le_bytes(old(vm).reg(old(vm).ol(1, 2)) as nat, 8),
            ),
    {
        let ol = vm.next_operand();
        let offset = vm.next_operand_imm();
        let (id, pos) = vm.spot(ol[0], ol[1], offset);
        let v = vm.st.r[ol[2] as usize];
        vm.store_bytes(id, pos, 8, v);
        vm.next_step();
    }

    /// Adds `r[src]` to the 64-bit value there, wrapping; `r[result]` = the value before, sign-extended.
    pub fn atomic_add_i64<R: Reactor>(vm: &mut VM<R>)
        requires
            old(vm).wf(),
            old(vm).has_words(2),
            old(vm).spot_ok(old(vm).ol(1, 1), old(vm).ol(1, 2), old(vm).imm(2), 8),
        ensures
            final(vm).st.r@ == old(vm).st.r@.update(old(vm).ol(1, 0) as int, sext(le_value(old(vm).spot_bytes(old(vm).ol(1, 1), old(vm).ol(1, 2), old(vm).imm(2), 8)), 8)),
            final(vm).st.pc == old(vm).st.pc + 3,
            final(vm).same_ctl(old(vm)),
            heaps_written(
                final(vm).mem.data@,
                old(vm).mem.data@,
                old(vm).spot_id(old(vm).ol(1, 1)),
                old(vm).spot_pos(old(vm).ol(1, 2), old(vm).imm(2)),
                le_bytes(wrapn(le_value(old(vm).spot_bytes(old(vm).ol(1, 1), old(vm).ol(1, 2), old(vm).imm(2), 8)) + old(vm).reg(old(vm).ol(1, 3)), 8), 8),
            ),
    {
        let ol = vm.next_operand();
        let offset = vm.next_operand_imm();
        let (id, pos) = vm.spot(ol[1], ol[2], offset);
        let v = vm.load_bytes(id, pos, 8);
        let s = vm.st.r[ol[3] as usize];
        let nv = add_wrapped(v, s, 8);
        vm.store_bytes(id, pos, 8, nv);
        vm.st.r.set(ol[0] as usize, sext_exec(v, 8));
        vm.next_step();
    }

    /// Subtracts `r[src]` from the 64-bit value there, wrapping; `r[result]` = the value before, sign-extended.
    pub fn atomic_sub_i64<R: Reactor>(vm: &mut VM<R>)
        requires
            old(vm).wf(),
            old(vm).has_words(2),
            old(vm).spot_ok(old(vm).ol(1, 1), old(vm).ol(1, 2), old(vm).imm(2), 8),
        ensures
            final(vm).st.r@ == old(vm).st.r@.update(old(vm).ol(1, 0) as int, sext(le_value(old(vm).spot_bytes(old(vm).ol(1, 1), old(vm).ol(1, 2), old(vm).imm(2), 8)), 8)),
            final(vm).st.pc == old(vm).st.pc + 3,
            final(vm).same_ctl(old(vm)),
            heaps_written(
                final(vm).mem.data@,
                old(vm).mem.data@,
                old(vm).spot_id(old(vm).ol(1, 1)),
                old(vm).spot_pos(old(vm).ol(1, 2), old(vm).imm(2)),
                le_bytes(wrapn(le_value(old(vm).spot_bytes(old(vm).ol(1, 1), old(vm).ol(1, 2), old(vm).imm(2), 8)) - old(vm).reg(old(vm).ol(1, 3)), 8), 8),
            ),
    {
        let ol = vm.next_operand();
        let offset = vm.next_operand_imm();
        let (id, pos) = vm.spot(ol[1], ol[2], offset);
        let v = vm.load_bytes(id, pos, 8);
        let s = vm.st.r[ol[3] as usize];
        let nv = sub_wrapped(v, s, 8);
        vm.store_bytes(id, pos, 8, nv);
        vm.st.r.set(ol[0] as usize, sext_exec(v, 8));
        vm.next_step();
    }

}

// ---------------------------------------------------------------------------
// Heaps and I/O
// ---------------------------------------------------------------------------
impl<R: Reactor> VM<R> {
    /// The bytes of the `n`-th word after pc.
    pub open spec fn ol_seq(&self, n: int) -> Seq<u8> {
        Seq::new(8, |i: int| self.ol(n, i as u64))
    }

    /// Everything but the registers, pc and the I/O engine is as in `other`.
    pub open spec fn same_but_io(&self, other: &Self) -> bool {
        &&& self.st.now_call_index == other.st.now_call_index
        &&& self.st.call_stack@ == other.st.call_stack@
        &&& self.st.state_flag == other.st.state_flag
        &&& self.function_table@ == other.function_table@
        &&& self.mem.data@ == other.mem.data@
        &&& self.mem.reuse_list@ == other.mem.reuse_list@
    }

    /// Everything but the registers, pc and the heaps is as in `other`.
    pub open spec fn same_but_mem(&self, other: &Self) -> bool {
        &&& self.st.now_call_index == other.st.now_call_index
        &&& self.st.call_stack@ == other.st.call_stack@
        &&& self.st.state_flag == other.st.state_flag
        &&& self.function_table@ == other.function_table@
        &&& self.io == other.io
    }
}

/// The heap id a new allocation gets: the last released one, else a new
/// one at the end.
pub open spec fn alloc_id(m: DefaultMemoryManager) -> int {
    if m.reuse_list@.len() > 0 {
        m.reuse_list@.last() as int
    } else {
        m.data@.len() as int
    }
}

/// The heaps after an allocation of `size` bytes (see `alloc_heep`).
pub open spec fn alloc_effect(new: DefaultMemoryManager, old: DefaultMemoryManager, size: usize) -> bool {
    &&& old.reuse_list@.len() > 0 ==> {
        let id = old.reuse_list@.last();
        &&& new.reuse_list@ == old.reuse_list@.drop_last()
        &&& new.data@.len() == old.data@.len()
        &&& new.data@[id as int].raw.size == size
        &&& new.data@[id as int].raw.bytes@ == resized(old.data@[id as int].raw.bytes@, size as int)
        &&& forall|j: int|
            0 <= j < old.data@.len() && j != id ==> #[trigger] new.data@[j] == old.data@[j]
    }
    &&& old.reuse_list@.len() == 0 ==> {
        &&& new.reuse_list@ == old.reuse_list@
        &&& new.data@.len() == old.data@.len() + 1
        &&& new.data@.last().raw.size == size
        &&& new.data@.last().raw.bytes@ == resized(seq![], size as int)
        &&& forall|j: int| 0 <= j < old.data@.len() ==> #[trigger] new.data@[j] == old.data@[j]
    }
}

/// The operation `set_io` builds from the registers `r` and its operand
/// bytes `[fu_reg, order, args..]` (each argument a register); `None` for an
/// unknown order.
pub open spec fn io_request(r: Seq<u64>, ol: Seq<u8>) -> Option<IoOp> {
    let a2 = r[ol[2] as int];
    let a3 = r[ol[3] as int];
    let a4 = r[ol[4] as int];
    let a5 = r[ol[5] as int];
    let a6 = r[ol[6] as int];
    if ol[1] == 1 {
        Some(IoOp::StdoutWrite { buf_ptr: a2, len: a3 })
    } else if ol[1] == 2 {
        Some(IoOp::StdinRead { buf_ptr: a2, len: a3 })
    } else if ol[1] == 3 {
        Some(IoOp::Sleep { ms: a2 })
    } else if ol[1] == 4 {
        Some(IoOp::Read { handle: a2 as IoId, buf_ptr: a3, len: a4 })
    } else if ol[1] == 5 {
        Some(IoOp::Write { handle: a2 as IoId, buf_ptr: a3, len: a4 })
    } else if ol[1] == 6 {
        Some(
            IoOp::TcpListen {
                ip_ptr: a2,
                port: a3 as u16,
                backlog: a4 as u16,
                flags: a5 as u16,
                family: a6 as u8,
            },
        )
    } else if ol[1] == 7 {
        Some(IoOp::TcpConnect { ip_ptr: a2, port: a3 as u16, flags: a4 as u16, family: a5 as u8 })
    } else if ol[1] == 8 {
        Some(IoOp::TcpAccept { listener_handle: a2 })
    } else if ol[1] == 9 {
        Some(IoOp::Shutdown { handle: a2 })
    } else if ol[1] == 10 {
        Some(IoOp::RandomBytes { buf_ptr: a2, len: a3 })
    } else if ol[1] == 11 {
        Some(IoOp::TimeNow)
    } else {
        None
    }
}

/// See `io_request`.
pub(crate) fn build_io_request(r: &Vec<u64>, ol: &[u8; 8]) -> (res: Option<IoOp>)
    requires
        r@.len() == REGISTER_NUM,
    ensures
        res == io_request(r@, ol@),
{
    let a2 = r[ol[2] as usize];
    let a3 = r[ol[3] as usize];
    let a4 = r[ol[4] as usize];
    let a5 = r[ol[5] as usize];
    let a6 = r[ol[6] as usize];
    let order = ol[1];
    if order == 1 {
        Some(IoOp::StdoutWrite { buf_ptr: a2, len: a3 })
    } else if order == 2 {
        Some(IoOp::StdinRead { buf_ptr: a2, len: a3 })
    } else if order == 3 {
        Some(IoOp::Sleep { ms: a2 })
    } else if order == 4 {
        Some(IoOp::Read { handle: a2 as IoId, buf_ptr: a3, len: a4 })
    } else if order == 5 {
        Some(IoOp::Write { handle: a2 as IoId, buf_ptr: a3, len: a4 })
    } else if order == 6 {
        Some(
            IoOp::TcpListen {
                ip_ptr: a2,
                port: a3 as u16,
                backlog: a4 as u16,
                flags: a5 as u16,
                family: a6 as u8,
            },
        )
    } else if order == 7 {
        Some(IoOp::TcpConnect { ip_ptr: a2, port: a3 as u16, flags: a4 as u16, family: a5 as u8 })
    } else if order == 8 {
        Some(IoOp::TcpAccept { listener_handle: a2 })
    } else if order == 9 {
        Some(IoOp::Shutdown { handle: a2 })
    } else if order == 10 {
        Some(IoOp::RandomBytes { buf_ptr: a2, len: a3 })
    } else if order == 11 {
        Some(IoOp::TimeNow)
    } else {
        None
    }
}

/// The registers after `get_an_io` takes `ev`: `r[fu]` its future id (0 for
/// none), `r[kind]` 1 (stream I/O, length in `r[c1]`), 2 (new handle, in
/// `r[c1]`), 3 (sleep done), 4 (time: low word in `r[c1]`, high in `r[c2]`),
/// 5 (done), or the error's kind negated (two's complement), with 1 in
/// `r[c1]` where trying again may succeed and 0 where not.
pub open spec fn event_regs(r: Seq<u64>, ev: Option<(FuId, IoResult)>, fu: u8, kind: u8, c1: u8, c2: u8) -> Seq<
    u64,
> {
    match ev {
        None => r.update(fu as int, 0),
        Some((id, res)) => {
            let r1 = r.update(fu as int, id);
            match res {
                IoResult::StreamIo { len, .. } => r1.update(kind as int, 1).update(c1 as int, len),
                IoResult::NewHandle { handle, .. } => r1.update(kind as int, 2).update(
                    c1 as int,
                    handle as u64,
                ),
                IoResult::SleepDone { .. } => r1.update(kind as int, 3),
                IoResult::TimeNow { low, high, .. } => r1.update(kind as int, 4).update(
                    c1 as int,
                    low,
                ).update(c2 as int, high),
                IoResult::Simple { .. } => r1.update(kind as int, 5),
                IoResult::Error { kind: k, retryable, .. } => r1.update(kind as int, wrap64(-(k as int))).update(
                    c1 as int,
                    if retryable {
                        1
                    } else {
                        0
                    },
                ),
            }
        },
    }
}

/// Heaps and asynchronous I/O.
impl Operations {
    /// Allocates a heap of `r[size] + add` (wrapping) bytes; `r[ptr]` = its
    /// pointer. Operand word `[size, ptr]`, then `add`.
    pub fn allocate<R: Reactor>(vm: &mut VM<R>)
        requires
            old(vm).wf(),
            old(vm).has_words(2),
            old(vm).mem.reuse_list@.len() > 0 ==> old(vm).mem.reuse_list@.last() < old(vm).mem.data@.len(),
            old(vm).mem.data@.len() < usize::MAX,
        ensures
            final(vm).st.r@ == old(vm).st.r@.update(
                old(vm).ol(1, 1) as int,
                ((alloc_id(old(vm).mem) % 0x100_0000) * id_unit()) as u64,
            ),
            final(vm).st.pc == old(vm).st.pc + 3,
            alloc_effect(final(vm).mem, old(vm).mem, wrap64(old(vm).reg(old(vm).ol(1, 0)) + old(vm).imm(2)) as usize),
            final(vm).same_but_mem(old(vm)),
    {
        let ol = vm.next_operand();
        let add_size = vm.next_operand_imm();
        let s = vm.st.r[ol[0] as usize];
        proof {
            lemma_wrap64_signed_add(s, add_size);
        }
        let size = s.wrapping_add(add_size) as usize;
        let p = vm.mem.alloc_heep(size, 0);
        vm.st.r.set(ol[1] as usize, p.0);
        vm.next_step();
    }

    /// Resizes the heap that `r[ptr]` points into to `r[size]` bytes.
    /// Operand word `[size, ptr]`.
    pub fn realloc<R: Reactor>(vm: &mut VM<R>)
        requires
            old(vm).wf(),
            old(vm).has_words(1),
            id_of(VPtr(old(vm).reg(old(vm).ol(1, 1)))) < old(vm).mem.data@.len(),
        ensures
            ({
                let id = id_of(VPtr(old(vm).reg(old(vm).ol(1, 1))));
                let size = old(vm).reg(old(vm).ol(1, 0)) as usize;
                &&& final(vm).mem.reuse_list@ == old(vm).mem.reuse_list@
                &&& final(vm).mem.data@.len() == old(vm).mem.data@.len()
                &&& final(vm).mem.data@[id].raw.size == size
                &&& final(vm).mem.data@[id].raw.bytes@ == resized(old(vm).mem.data@[id].raw.bytes@, size as int)
                &&& forall|j: int|
                    0 <= j < old(vm).mem.data@.len() && j != id ==> #[trigger] final(vm).mem.data@[j]
                        == old(vm).mem.data@[j]
            }),
            final(vm).st.r@ == old(vm).st.r@,
            final(vm).st.pc == old(vm).st.pc + 2,
            final(vm).same_but_mem(old(vm)),
    {
        let ol = vm.next_operand();
        let size = vm.st.r[ol[0] as usize] as usize;
        let p = VPtr(vm.st.r[ol[1] as usize]);
        vm.mem.realloc_heep(p, size);
        vm.next_step();
    }

    /// Releases the heap that `r[ptr]` points into (see `dealloc_effect`).
    /// Operand word `[ptr]`.
    pub fn dealloc<R: Reactor>(vm: &mut VM<R>)
        requires
            old(vm).wf(),
            old(vm).has_words(1),
            id_of(VPtr(old(vm).reg(old(vm).ol(1, 0)))) < old(vm).mem.data@.len(),
        ensures
            dealloc_effect(final(vm).mem, old(vm).mem, id_of(VPtr(old(vm).reg(old(vm).ol(1, 0))))),
            final(vm).st.r@ == old(vm).st.r@,
            final(vm).st.pc == old(vm).st.pc + 2,
            final(vm).same_but_mem(old(vm)),
    {
        let ol = vm.next_operand();
        let p = VPtr(vm.st.r[ol[0] as usize]);
        vm.mem.dealloc_heep(p, 0);
        vm.next_step();
    }

    /// Submits the operation that the operand word `[fu_reg, order,
    /// args..]` names (see `io_request`), handing it to the reactor under the
    /// next future id; `r[fu_reg]` = that id. An
    /// error of the reactor is handed back, with the registers unchanged.
    pub fn set_io<R: Reactor>(vm: &mut VM<R>) -> (res: Result<(), std::io::Error>)
        requires
            old(vm).wf(),
            old(vm).has_words(1),
            io_request(old(vm).st.r@, old(vm).ol_seq(1)) is Some,
            old(vm).io.next_id() < u64::MAX,
        ensures
            final(vm).io.next_id() == old(vm).io.next_id() + 1,
            final(vm).io.reactor_handed(old(vm).io.next_id(), io_request(old(vm).st.r@, old(vm).ol_seq(1))->0),
            final(vm).same_but_io(old(vm)),
            match res {
                Ok(()) => {
                    &&& final(vm).st.r@ == old(vm).st.r@.update(old(vm).ol(1, 0) as int, old(vm).io.next_id())
                    &&& final(vm).st.pc == old(vm).st.pc + 2
                    &&& submitted(
                        final(vm).io,
                        old(vm).io,
                        old(vm).io.next_id(),
                        io_request(old(vm).st.r@, old(vm).ol_seq(1))->0,
                    )
                },
                Err(_) => {
                    &&& final(vm).st.r@ == old(vm).st.r@
                    &&& final(vm).st.pc == old(vm).st.pc + 1
                    &&& final(vm).io.states() == old(vm).io.states()
                    &&& final(vm).io.queue() == old(vm).io.queue()
                },
            },
    {
        let ol = vm.next_operand();
        proof {
            assert(ol@ =~= old(vm).ol_seq(1));
        }
        let op = match build_io_request(&vm.st.r, &ol) {
            Some(op) => op,
            None => vstd::pervasive::unreached(),
        };
        match vm.io.submit_op(op) {
            Ok(id) => {
                vm.st.r.set(ol[0] as usize, id);
                vm.next_step();
                Ok(())
            },
            Err(e) => Err(e),
        }
    }

    /// Waits (up to `r[timeout]` ms, read as signed; negative waits without
    /// end) for up to `r[max]` completions and queues them; `r[num]` = how
    /// many, never more than `r[max]`. Operand word `[timeout, max, num]`. An error of the reactor
    /// is handed back, with the registers unchanged.
    pub fn wait_io<R: Reactor>(vm: &mut VM<R>) -> (res: Result<(), std::io::Error>)
        requires
            old(vm).wf(),
            old(vm).has_words(1),
        ensures
            final(vm).io.next_id() == old(vm).io.next_id(),
            final(vm).io.reactor_asked_to_wait(
                old(vm).reg(old(vm).ol(1, 0)) as i64,
                old(vm).reg(old(vm).ol(1, 1)) as usize,
            ),
            final(vm).same_but_io(old(vm)),
            match res {
                Ok(()) => {
                    &&& final(vm).st.pc == old(vm).st.pc + 2
                    &&& final(vm).st.r@ == old(vm).st.r@.update(
                        old(vm).ol(1, 2) as int,
                        final(vm).st.r@[old(vm).ol(1, 2) as int],
                    )
                    &&& final(vm).st.r@[old(vm).ol(1, 2) as int] <= old(vm).reg(old(vm).ol(1, 1)) as usize
                    &&& exists|ev: Seq<(FuId, IoResult)>|
                        ev.len() <= old(vm).reg(old(vm).ol(1, 1)) as usize && (
                            final(vm).io.states(),
                            final(vm).io.queue(),
                            final(vm).st.r@[old(vm).ol(1, 2) as int] as nat,
                        ) == #[trigger] record_all(old(vm).io.states(), old(vm).io.queue(), ev)
                },
                Err(_) => {
                    &&& final(vm).st.r@ == old(vm).st.r@
                    &&& final(vm).st.pc == old(vm).st.pc + 1
                    &&& final(vm).io.states() == old(vm).io.states()
                    &&& final(vm).io.queue() == old(vm).io.queue()
                },
            },
    {
        let ol = vm.next_operand();
        let timeout = vm.st.r[ol[0] as usize] as i64;
        let max = vm.st.r[ol[1] as usize] as usize;
        match vm.io.blocking_collect_events(timeout, max) {
            Ok(n) => {
                vm.st.r.set(ol[2] as usize, n as u64);
                vm.next_step();
                Ok(())
            },
            Err(e) => Err(e),
        }
    }

    /// Takes one queued completion into the registers (see `event_regs`).
    /// Operand word `[fu, kind, c1, c2]`.
    pub fn get_an_io<R: Reactor>(vm: &mut VM<R>)
        requires
            old(vm).wf(),
            old(vm).has_words(1),
        ensures
            final(vm).st.r@ == event_regs(
                old(vm).st.r@,
                head_result(old(vm).io.states(), old(vm).io.queue()),
                old(vm).ol(1, 0),
                old(vm).ol(1, 1),
                old(vm).ol(1, 2),
                old(vm).ol(1, 3),
            ),
            final(vm).st.pc == old(vm).st.pc + 2,
            final(vm).io.states() == old(vm).io.states(),
            final(vm).io.next_id() == old(vm).io.next_id(),
            final(vm).io.queue() == if old(vm).io.queue().len() > 0 {
                old(vm).io.queue().drop_first()
            } else {
                old(vm).io.queue()
            },
            final(vm).same_but_io(old(vm)),
    {
        let ol = vm.next_operand();
        let fu = ol[0] as usize;
        let kind = ol[1] as usize;
        let c1 = ol[2] as usize;
        let c2 = ol[3] as usize;
        match vm.io.pop_completed() {
            Some((id, result)) => {
                vm.st.r.set(fu, id);
                match result {
                    IoResult::StreamIo { len, .. } => {
                        vm.st.r.set(kind, 1);
                        vm.st.r.set(c1, len);
                    },
                    IoResult::NewHandle { handle, .. } => {
                        vm.st.r.set(kind, 2);
                        vm.st.r.set(c1, handle as u64);
                    },
                    IoResult::SleepDone { .. } => {
                        vm.st.r.set(kind, 3);
                    },
                    IoResult::TimeNow { low, high, .. } => {
                        vm.st.r.set(kind, 4);
                        vm.st.r.set(c1, low);
                        vm.st.r.set(c2, high);
                    },
                    IoResult::Simple { .. } => {
                        vm.st.r.set(kind, 5);
                    },
                    IoResult::Error { kind: k, retryable, .. } => {
                        vm.st.r.set(kind, 0u64.wrapping_sub(k as u64));
                        vm.st.r.set(c1, if retryable {
                            1
                        } else {
                            0
                        });
                    },
                }
            },
            None => {
                vm.st.r.set(fu, 0);
            },
        }
        vm.next_step();
    }

    /// Starts the function of the call frame on a thread of a VM pool. A
    /// VM of this library belongs to no pool, so no thread starts and
    /// `r[res]` = `u64::MAX` (-1). Operand word `[pc_reg, res]`, then the
    /// call frame; pc moves past the instruction.
    pub fn call_thread<R: Reactor>(vm: &mut VM<R>)
        requires
            old(vm).wf(),
            old(vm).has_words(2),
        ensures
            final(vm).set_and_step(old(vm), old(vm).ol(1, 1), u64::MAX, 3),
    {
        let ol = vm.next_operand();
        let _call_frame = vm.next_operand_imm();
        vm.st.r.set(ol[1] as usize, u64::MAX);
        vm.next_step();
    }

    /// Ends the program: `r[0]` = the exit code, read from the register that
    /// the operand word `[code_reg]` names, and the pause flag set; pc stays
    /// on the instruction. Returns the code for the process to exit with.
    pub fn exit<R: Reactor>(vm: &mut VM<R>) -> (code: i32)
        requires
            old(vm).wf(),
            old(vm).has_words(1),
        ensures
            code == old(vm).reg(old(vm).ol(1, 0)) as i32,
            final(vm).st.r@ == old(vm).st.r@.update(0, old(vm).reg(old(vm).ol(1, 0))),
            final(vm).st.state_flag == old(vm).st.state_flag | PAUSE,
            final(vm).st.pc == old(vm).st.pc,
            final(vm).st.now_call_index == old(vm).st.now_call_index,
            final(vm).st.call_stack@ == old(vm).st.call_stack@,
            final(vm).function_table@ == old(vm).function_table@,
            final(vm).mem.data@ == old(vm).mem.data@,
            final(vm).mem.reuse_list@ == old(vm).mem.reuse_list@,
            final(vm).io == old(vm).io,
    {
        let ol = vm.next_operand();
        let code = vm.st.r[ol[0] as usize];
        vm.st.r.set(0, code);
        vm.st.state_flag = vm.st.state_flag | PAUSE;
        vm.st.pc = vm.st.pc - 1;
        code as i32
    }
}

// ---------------------------------------------------------------------------
// Laws
// ---------------------------------------------------------------------------
/// Registers `a` and `b` exchanged.
pub open spec fn swapped(r: Seq<u64>, a: int, b: int) -> Seq<u64> {
    r.update(a, r[b]).update(b, r[a])
}

/// `swap` twice restores the registers.
pub proof fn law_swap_twice(r: Seq<u64>, a: int, b: int)
    requires
        0 <= a < r.len(),
        0 <= b < r.len(),
    ensures
        swapped(swapped(r, a, b), a, b) == r,
{
    assert(swapped(swapped(r, a, b), a, b) =~= r);
}

/// `sub_u64_immediate` undoes `add_u64_immediate` with the same immediate.
pub proof fn law_add_sub_inverse(a: u64, k: u64)
    ensures
        wrap64(wrap64(a + k) - k) == a,
{
    lemma_wrap64_signed_add(a, k);
    let s = a.wrapping_add(k);
    lemma_wrap64_signed_sub(s, k);
    if a + k > u64::MAX {
        assert(s == a + k - word_mod());
        assert(s - k == a - word_mod());
        lemma_wrap64_shift(a - word_mod(), 1);
        vstd::arithmetic::div_mod::lemma_small_mod(a as nat, word_mod() as nat);
    } else {
        vstd::arithmetic::div_mod::lemma_small_mod(a as nat, word_mod() as nat);
    }
}

/// `div_i64` and `mod_i64` agree: quotient times divisor plus remainder is
/// the dividend, and the remainder is smaller than the divisor in size.
pub proof fn law_div_rem(x: int, d: int)
    requires
        d != 0,
    ensures
        trunc_div(x, d) * d + trunc_rem(x, d) == x,
        abs_int(trunc_rem(x, d)) < abs_int(d),
{
    let a = abs_int(x);
    let b = abs_int(d);
    let q = a / b;
    let m = a % b;
    vstd::arithmetic::div_mod::lemma_fundamental_div_mod(a, b);
    vstd::arithmetic::div_mod::lemma_mod_bound(a, b);
    assert(a == b * q + m);
    if x < 0 && d < 0 {
        assert(q * d == -(b * q)) by (nonlinear_arith)
            requires
                d == -b,
        ;
    } else if x < 0 {
        assert((-q) * d == -(b * q)) by (nonlinear_arith)
            requires
                d == b,
        ;
    } else if d < 0 {
        assert((-q) * d == b * q) by (nonlinear_arith)
            requires
                d == -b,
        ;
    } else {
        assert(q * d == b * q) by (nonlinear_arith)
            requires
                d == b,
        ;
    }
}

proof fn lemma_le_bytes_len(v: nat, n: nat)
    ensures
        le_bytes(v, n).len() == n,
    decreases n,
{
    if n > 0 {
        lemma_le_bytes_len(v / 256, (n - 1) as nat);
    }
}

/// The little-endian bytes of `v` read back give `v` modulo their range.
pub proof fn law_le_round_trip(v: nat, n: nat)
    ensures
        le_value(le_bytes(v, n)) == v % pow256(n),
    decreases n,
{
    if n == 0 {
        vstd::arithmetic::div_mod::lemma_small_mod(0, 1);
        assert(v % 1 == 0) by {
            vstd::arithmetic::div_mod::lemma_mod_bound(v as int, 1);
        }
    } else {
        law_le_round_trip(v / 256, (n - 1) as nat);
        let b = le_bytes(v, n);
        assert(b.drop_first() =~= le_bytes(v / 256, (n - 1) as nat));
        lemma_pow256_pos((n - 1) as nat);
        vstd::arithmetic::div_mod::lemma_mod_breakdown(v as int, 256, pow256((n - 1) as nat) as int);
    }
}

/// A load after a store of the same width at the same place gives back the
/// stored register's low bytes (all of it for 64 bits; sign-extended
/// loads extend them).
pub proof fn law_load_after_store(new: Seq<Heep>, old: Seq<Heep>, id: int, pos: int, v: u64, n: nat)
    requires
        0 <= id < old.len(),
        0 <= pos,
        pos + n <= old[id].raw.bytes@.len(),
        heaps_written(new, old, id, pos, le_bytes(v as nat, n)),
    ensures
        le_value(new[id].raw.bytes@.subrange(pos, pos + n)) == (v as nat) % pow256(n),
{
    lemma_le_bytes_len(v as nat, n);
    assert(new[id].raw.bytes@.subrange(pos, pos + n) =~= le_bytes(v as nat, n));
    law_le_round_trip(v as nat, n);
}

/// The heap released last is the one the next allocation hands out.
pub proof fn law_alloc_reuses_released(before: DefaultMemoryManager, after: DefaultMemoryManager, p: VPtr)
    requires
        !before.reuse_list@.contains(id_of(p) as usize),
        dealloc_effect(after, before, id_of(p)),
    ensures
        alloc_id(after) == id_of(p),
{
    assert(id_of(p) < 0x100_0000) by {
        assert(p.0 < 0x1_0000_0000_0000_0000);
    }
}

/// The operation `SET_IO` builds for each documented order code, with its
/// arguments read from the registers that the operand bytes after the code
/// name, in order: 1 stdout write, 2 stdin read, 3 sleep, 4 read, 5 write,
/// 6 TCP listen, 7 TCP connect, 8 TCP accept, 9 shutdown, 10 random bytes,
/// 11 time now; any other code names no operation.
pub proof fn law_io_request_orders(r: Seq<u64>, ol: Seq<u8>)
    ensures
        ({
            let c = r[ol[2] as int];
            let d = r[ol[3] as int];
            let e = r[ol[4] as int];
            let f = r[ol[5] as int];
            let g = r[ol[6] as int];
            &&& ol[1] == 1 ==> io_request(r, ol) == Some(IoOp::StdoutWrite { buf_ptr: c, len: d })
            &&& ol[1] == 2 ==> io_request(r, ol) == Some(IoOp::StdinRead { buf_ptr: c, len: d })
            &&& ol[1] == 3 ==> io_request(r, ol) == Some(IoOp::Sleep { ms: c })
            &&& ol[1] == 4 ==> io_request(r, ol) == Some(IoOp::Read { handle: c as IoId, buf_ptr: d, len: e })
            &&& ol[1] == 5 ==> io_request(r, ol) == Some(IoOp::Write { handle: c as IoId, buf_ptr: d, len: e })
            &&& ol[1] == 6 ==> io_request(r, ol) == Some(
                IoOp::TcpListen { ip_ptr: c, port: d as u16, backlog: e as u16, flags: f as u16, family: g as u8 },
            )
            &&& ol[1] == 7 ==> io_request(r, ol) == Some(
                IoOp::TcpConnect { ip_ptr: c, port: d as u16, flags: e as u16, family: f as u8 },
            )
            &&& ol[1] == 8 ==> io_request(r, ol) == Some(IoOp::TcpAccept { listener_handle: c })
            &&& ol[1] == 9 ==> io_request(r, ol) == Some(IoOp::Shutdown { handle: c })
            &&& ol[1] == 10 ==> io_request(r, ol) == Some(IoOp::RandomBytes { buf_ptr: c, len: d })
            &&& ol[1] == 11 ==> io_request(r, ol) == Some(IoOp::TimeNow)
            &&& (ol[1] == 0 || ol[1] > 11) ==> io_request(r, ol) is None
        }),
{
}

} // verus!
