//! Code generation: the syntax tree to assembly text.
//!
//! The compiler walks each function's statements and expressions, gives
//! values registers, and writes one instruction per line. Its state is the
//! string data collected so far, the function's register and label context,
//! and the text written so far; the specification threads the same state.
//! `Outcome::Fault` marks the inputs where the compiler cannot go on: a
//! register number past 255, a register allocator that has reached registers
//! 254 and 255 (it then searches forever), or a counter at its limit.
use vstd::prelude::*;

use crate::lang::ast::{
    lemma_view_arms_index, lemma_view_exprs_index, lemma_view_stmts_index, view_arm, view_arms, view_block, view_expr, view_exprs, view_function, view_program, view_stmt, view_stmts, BinOp,
    Block, Expr, Function, LoopExpr, MatchArm, MatchExpr, MatchPattern, Program, SArm, SBlock,
    SExpr, SFunction, SImplDef, SLoop, SMatch, SProgram, SStmt, Stmt, ImplDef, Param, view_params,
    view_functions, view_impls, view_impl,
};
use crate::vm::io::Reactor;
use crate::vm::numeric::wrap64;
use crate::vm::ops::{sgn, trunc_rem, VM};
use crate::vm::pre_decoder::{law_arith_mnemonics_decode, spec_lookup};
use crate::vm::step::{op_step, StepEnd};
use crate::lang::lexer::{hex_value, skip_trivia, spec_next_token, spec_string, utf8, ws_end, SpecToken};
use crate::lang::optimizer::{indent, indent_of, load_imm_of, mov_of, spec_optimize, AsmOptimizer};
use crate::text::{
    append_chars, append_str, chars_eq, chars_to_string, is_ws, join_lines, lines, str_to_chars, texts_view, trim,
    trim_chars, upper_chars, upper_seq,
};

verus! {

/// What a step of the compiler gives: a value and the next state, an error
/// message, or a fault.
pub enum Outcome<T> {
    Done(T),
    Fail(Seq<char>),
    Fault,
}

// ---------------------------------------------------------------------------
// Numbers and lines of text
// ---------------------------------------------------------------------------
pub open spec fn digit(d: int) -> char {
    (('0' as u32) + d) as char
}

/// Decimal digits of a natural number.
pub open spec fn dec_nat(n: nat) -> Seq<char>
    decreases n,
{
    if n < 10 {
        seq![digit(n as int)]
    } else {
        dec_nat(n / 10).push(digit((n % 10) as int))
    }
}

/// Decimal text of an integer, `-` before a negative one.
pub open spec fn dec_int(i: int) -> Seq<char> {
    if i < 0 {
        seq!['-'] + dec_nat((-i) as nat)
    } else {
        dec_nat(i as nat)
    }
}

/// `r<n>`.
pub open spec fn rtxt(r: u8) -> Seq<char> {
    seq!['r'] + dec_nat(r as nat)
}

/// An instruction line: four spaces, the text, a line break.
pub open spec fn ins(s: Seq<char>) -> Seq<char> {
    "    "@ + s + seq!['\n']
}

/// A label line.
pub open spec fn label_line(l: Seq<char>) -> Seq<char> {
    l + seq![':', '\n']
}

/// `OP rA rB`.
pub open spec fn op_rr(op: Seq<char>, a: u8, b: u8) -> Seq<char> {
    ins(op + seq![' '] + rtxt(a) + seq![' '] + rtxt(b))
}

/// `OP rA rB 0`.
pub open spec fn op_rr0(op: Seq<char>, a: u8, b: u8) -> Seq<char> {
    ins(op + seq![' '] + rtxt(a) + seq![' '] + rtxt(b) + seq![' ', '0'])
}

/// `LOAD_U64_IMMEDIATE rA <text>`.
pub open spec fn load_imm(a: u8, t: Seq<char>) -> Seq<char> {
    ins("LOAD_U64_IMMEDIATE "@ + rtxt(a) + seq![' '] + t)
}

/// `OP r255 rA rB LABEL`: a conditional jump.
pub open spec fn cond_jump(op: Seq<char>, a: u8, b: u8, label: Seq<char>) -> Seq<char> {
    ins(op + " r255 "@ + rtxt(a) + seq![' '] + rtxt(b) + seq![' '] + label)
}

/// `JUMP r255 LABEL`.
pub open spec fn jump(label: Seq<char>) -> Seq<char> {
    ins("JUMP r255 "@ + label)
}

/// `OP rA rB <n>`: a store or load at an offset.
pub open spec fn mem_line(op: Seq<char>, a: u8, b: u8, n: nat) -> Seq<char> {
    ins(op + seq![' '] + rtxt(a) + seq![' '] + rtxt(b) + seq![' '] + dec_nat(n))
}

/// `DATA NAME "bytes"`.
pub open spec fn data_line(name: Seq<char>, bytes: Seq<u8>) -> Seq<char> {
    "DATA "@ + name + seq![' '] + format_bytes_spec(bytes) + seq!['\n']
}

/// The two hex digits of a byte, upper case.
pub open spec fn hex_digit(d: int) -> char {
    if d < 10 {
        (('0' as u32) + d) as char
    } else {
        (('A' as u32) + d - 10) as char
    }
}

/// A byte as it stands in a data string.
pub open spec fn escape_byte(b: u8) -> Seq<char> {
    if b == 0x5C {
        seq!['\\', '\\']
    } else if b == 0x22 {
        seq!['\\', '"']
    } else if b == 0x0A {
        seq!['\\', 'n']
    } else if b == 0x0D {
        seq!['\\', 'r']
    } else if b == 0x09 {
        seq!['\\', 't']
    } else if 0x20 <= b <= 0x7E {
        seq![(b as u32) as char]
    } else {
        seq!['\\', 'x', hex_digit(b as int / 16), hex_digit(b as int % 16)]
    }
}

pub open spec fn escape_bytes(bs: Seq<u8>) -> Seq<char>
    decreases bs.len(),
{
    if bs.len() == 0 {
        seq![]
    } else {
        escape_bytes(bs.drop_last()) + escape_byte(bs.last())
    }
}

/// A byte string quoted, with `\\`, `\"`, `\n`, `\r`, `\t` and `\xHH`
/// escapes.
pub open spec fn format_bytes_spec(bs: Seq<u8>) -> Seq<char> {
    seq!['"'] + escape_bytes(bs) + seq!['"']
}

// ---------------------------------------------------------------------------
// Data strings read back
// ---------------------------------------------------------------------------
/// A hex digit that `hex_digit` writes reads back as its value.
proof fn lemma_hex_digit_value(d: int)
    requires
        0 <= d < 16,
    ensures
        hex_value(hex_digit(d)) == Some(d as u8),
{
    if d < 10 {
        assert((('0' as u32) + d) as char as u32 == 48 + d);
    } else {
        assert((('A' as u32) + d - 10) as char as u32 == 55 + d);
    }
}

/// Reading a string at `i`, where the escape of `b` stands, goes on after
/// it with `b` read.
proof fn lemma_read_escaped_byte(s: Seq<char>, i: int, acc: Seq<u8>, b: u8)
    requires
        0 <= i,
        i + escape_byte(b).len() <= s.len(),
        s.subrange(i, i + escape_byte(b).len()) == escape_byte(b),
    ensures
        spec_string(s, i, acc) == spec_string(s, i + escape_byte(b).len(), acc.push(b)),
{
    let e = escape_byte(b);
    assert forall|k: int| 0 <= k < e.len() implies s[i + k] == e[k] by {
        assert(s.subrange(i, i + e.len())[k] == s[i + k]);
    }
    if b == 0x5C || b == 0x22 || b == 0x0A || b == 0x0D || b == 0x09 {
        assert(s[i] == '\\');
        assert(acc + seq![b] =~= acc.push(b));
    } else if 0x20 <= b <= 0x7E {
        let c = (b as u32) as char;
        assert(c as u32 == b as u32);
        assert(e == seq![c]);
        assert(s[i + 0] == e[0]);
        assert(s[i] == c);
        assert(utf8(c) =~= seq![b]);
        assert(acc + utf8(c) =~= acc.push(b));
    } else {
        lemma_hex_digit_value(b as int / 16);
        lemma_hex_digit_value(b as int % 16);
        assert(s[i] == '\\' && s[i + 1] == 'x');
        assert(((b as int / 16) as u8 * 16 + (b as int % 16) as u8) as u8 == b);
        assert(acc + seq![b] =~= acc.push(b));
    }
}

/// `escape_bytes` taken from the front.
proof fn lemma_escape_bytes_first(bs: Seq<u8>)
    requires
        bs.len() > 0,
    ensures
        escape_bytes(bs) == escape_byte(bs[0]) + escape_bytes(bs.drop_first()),
    decreases bs.len(),
{
    if bs.len() == 1 {
        assert(bs.drop_last() =~= Seq::<u8>::empty());
        assert(bs.drop_first() =~= Seq::<u8>::empty());
        assert(escape_bytes(Seq::<u8>::empty()) =~= Seq::<char>::empty());
        assert(escape_bytes(bs) =~= escape_byte(bs[0]));
        assert(escape_byte(bs[0]) + Seq::<char>::empty() =~= escape_byte(bs[0]));
    } else {
        lemma_escape_bytes_first(bs.drop_last());
        assert(bs.drop_last().drop_first() =~= bs.drop_first().drop_last());
        assert(bs.drop_first().last() == bs.last());
        assert(escape_bytes(bs.drop_first()) == escape_bytes(bs.drop_first().drop_last()) + escape_byte(
            bs.drop_first().last(),
        ));
        assert(escape_bytes(bs) =~= escape_byte(bs[0]) + escape_bytes(bs.drop_first()));
    }
}

/// Reading a string at `i`, where the escapes of `bs` stand, goes on after
/// them with `bs` read.
proof fn lemma_read_escaped(s: Seq<char>, i: int, acc: Seq<u8>, bs: Seq<u8>)
    requires
        0 <= i,
        i + escape_bytes(bs).len() <= s.len(),
        s.subrange(i, i + escape_bytes(bs).len()) == escape_bytes(bs),
    ensures
        spec_string(s, i, acc) == spec_string(s, i + escape_bytes(bs).len(), acc + bs),
    decreases bs.len(),
{
    if bs.len() == 0 {
        assert(acc + bs =~= acc);
    } else {
        lemma_escape_bytes_first(bs);
        let e = escape_byte(bs[0]);
        let rest = escape_bytes(bs.drop_first());
        let n = escape_bytes(bs).len() as int;
        assert(s.subrange(i, i + e.len()) =~= s.subrange(i, i + n).subrange(0, e.len() as int));
        assert(s.subrange(i, i + n).subrange(0, e.len() as int) =~= e);
        assert(s.subrange(i + e.len(), i + e.len() + rest.len()) =~= s.subrange(i, i + n).subrange(
            e.len() as int,
            n,
        ));
        assert(s.subrange(i, i + n).subrange(e.len() as int, n) =~= rest);
        lemma_read_escaped_byte(s, i, acc, bs[0]);
        lemma_read_escaped(s, i + e.len(), acc.push(bs[0]), bs.drop_first());
        assert(acc.push(bs[0]) + bs.drop_first() =~= acc + bs);
    }
}

/// Every byte string that `format_bytes` writes lexes back to the same
/// bytes as one string token, and the end of the input follows it.
pub proof fn law_format_bytes_lexes_back(bs: Seq<u8>)
    ensures
        spec_next_token(format_bytes_spec(bs), 0) == (
            Ok::<SpecToken, Seq<char>>(SpecToken::Str(bs)),
            format_bytes_spec(bs).len() as int,
        ),
        spec_next_token(format_bytes_spec(bs), format_bytes_spec(bs).len() as int).0 == Ok::<
            SpecToken,
            Seq<char>,
        >(SpecToken::Eof),
{
    let s = format_bytes_spec(bs);
    let n = escape_bytes(bs).len() as int;
    assert(s[0] == '"');
    assert(!is_ws(s[0]));
    assert(ws_end(s, 0) == 0);
    assert(skip_trivia(s, 0) == 0);
    assert(s.subrange(1, 1 + n) =~= escape_bytes(bs));
    lemma_read_escaped(s, 1, seq![], bs);
    assert(seq![] + bs =~= bs);
    assert(s[1 + n] == '"');
    assert(spec_string(s, 1 + n, bs) == (Ok::<Seq<u8>, Seq<char>>(bs), n + 2));
    assert(ws_end(s, n + 2) == n + 2);
    assert(skip_trivia(s, n + 2) == n + 2);
}

/// `Type__method`.
pub open spec fn mangle(impl_name: Seq<char>, method_name: Seq<char>) -> Seq<char> {
    impl_name + "__"@ + method_name
}

// ---------------------------------------------------------------------------
// Parameters and signatures
// ---------------------------------------------------------------------------
/// How a parameter is passed: a static string in two registers (pointer
/// and length), or a value in one.
#[derive(Debug, Clone, Copy, PartialEq, Eq)]
pub enum ParamKind {
    StaticStr,
    Value,
}

pub struct SLayout {
    pub name: Seq<char>,
    pub kind: ParamKind,
    pub reg: u8,
}

/// ASCII lower-casing of one char.
pub open spec fn lower(c: char) -> char {
    if 'A' <= c <= 'Z' {
        ((c as u32) + 32) as char
    } else {
        c
    }
}

/// `eq_ignore_ascii_case`.
pub open spec fn eq_ignore_case(a: Seq<char>, b: Seq<char>) -> bool {
    a.len() == b.len() && forall|i: int| 0 <= i < a.len() ==> lower(#[trigger] a[i]) == lower(b[i])
}

pub open spec fn param_kind(ty: Seq<char>) -> ParamKind {
    if eq_ignore_case(trim(ty), "static str"@) {
        ParamKind::StaticStr
    } else {
        ParamKind::Value
    }
}

/// `u8::saturating_add`.
pub open spec fn sat_add(a: u8, b: u8) -> u8 {
    if a + b > 255 {
        255
    } else {
        (a + b) as u8
    }
}

/// The registers of parameters `i..`, the first at `reg`.
pub open spec fn layouts_from(params: Seq<crate::lang::ast::SParam>, i: int, reg: u8) -> Seq<SLayout>
    decreases params.len() - i,
{
    if 0 <= i < params.len() {
        let kind = param_kind(params[i].ty);
        let next = match kind {
            ParamKind::StaticStr => sat_add(reg, 2),
            ParamKind::Value => sat_add(reg, 1),
        };
        seq![SLayout { name: params[i].name, kind, reg }] + layouts_from(params, i + 1, next)
    } else {
        seq![]
    }
}

/// An association list with one entry per key: the index of `k`, or -1.
pub open spec fn key_index<V>(m: Seq<(Seq<char>, V)>, k: Seq<char>) -> int
    decreases m.len(),
{
    if m.len() == 0 {
        -1
    } else if m.last().0 == k {
        m.len() - 1
    } else {
        key_index(m.drop_last(), k)
    }
}

pub open spec fn assoc_get<V>(m: Seq<(Seq<char>, V)>, k: Seq<char>) -> Option<V> {
    if key_index(m, k) >= 0 {
        Some(m[key_index(m, k)].1)
    } else {
        None
    }
}

/// `HashMap::insert`: the entry of `k` takes `v`, or a new entry comes last.
pub open spec fn assoc_put<V>(m: Seq<(Seq<char>, V)>, k: Seq<char>, v: V) -> Seq<(Seq<char>, V)> {
    if key_index(m, k) >= 0 {
        m.update(key_index(m, k), (k, v))
    } else {
        m.push((k, v))
    }
}

/// The signatures of a program: each function, then each impl method under
/// its mangled name; a later one of the same name wins.
pub open spec fn sigs_of_functions(fs: Seq<SFunction>, acc: Seq<(Seq<char>, Seq<SLayout>)>) -> Seq<
    (Seq<char>, Seq<SLayout>),
>
    decreases fs.len(),
{
    if fs.len() == 0 {
        acc
    } else {
        sigs_of_functions(
            fs.drop_first(),
            assoc_put(acc, fs[0].name, layouts_from(fs[0].params, 0, 0)),
        )
    }
}

pub open spec fn sigs_of_methods(
    impl_name: Seq<char>,
    ms: Seq<SFunction>,
    acc: Seq<(Seq<char>, Seq<SLayout>)>,
) -> Seq<(Seq<char>, Seq<SLayout>)>
    decreases ms.len(),
{
    if ms.len() == 0 {
        acc
    } else {
        sigs_of_methods(
            impl_name,
            ms.drop_first(),
            assoc_put(acc, mangle(impl_name, ms[0].name), layouts_from(ms[0].params, 0, 0)),
        )
    }
}

pub open spec fn sigs_of_impls(is: Seq<SImplDef>, acc: Seq<(Seq<char>, Seq<SLayout>)>) -> Seq<
    (Seq<char>, Seq<SLayout>),
>
    decreases is.len(),
{
    if is.len() == 0 {
        acc
    } else {
        sigs_of_impls(is.drop_first(), sigs_of_methods(is[0].name, is[0].methods, acc))
    }
}

pub open spec fn signatures(p: SProgram) -> Seq<(Seq<char>, Seq<SLayout>)> {
    sigs_of_impls(p.impls, sigs_of_functions(p.functions, seq![]))
}

// ---------------------------------------------------------------------------
// The function context
// ---------------------------------------------------------------------------
pub struct SLoopCtx {
    pub label: Option<Seq<char>>,
    pub end_label: Seq<char>,
    pub result_reg: u8,
}

/// Registers and labels of the function being compiled. Register 255 holds
/// zero and register 254 the pointer of saved variables; neither is handed
/// out.
pub struct SCtx {
    pub next_reg: u8,
    pub free_list: Seq<u8>,
    pub temps: Set<u8>,
    pub vars: Seq<(Seq<char>, u8)>,
    pub params: Seq<(Seq<char>, SLayout)>,
    pub loops: Seq<SLoopCtx>,
    pub label_counter: int,
}

/// The context of a function with these parameters.
pub open spec fn ctx_new_from(ls: Seq<SLayout>, i: int, c: SCtx, max_reg: u8) -> Option<SCtx>
    decreases ls.len() - i,
{
    if 0 <= i < ls.len() {
        let l = ls[i];
        let extra: int = match l.kind {
            ParamKind::StaticStr => 1,
            ParamKind::Value => 0,
        };
        if l.reg + extra > 255 {
            None
        } else {
            let top = (l.reg + extra) as u8;
            ctx_new_from(
                ls,
                i + 1,
                SCtx {
                    vars: assoc_put(c.vars, l.name, l.reg),
                    params: assoc_put(c.params, l.name, l),
                    ..c
                },
                if max_reg >= top {
                    max_reg
                } else {
                    top
                },
            )
        }
    } else {
        let next = sat_add(max_reg, 1);
        if next >= 254 {
            None
        } else {
            Some(SCtx { next_reg: next, ..c })
        }
    }
}

pub open spec fn empty_ctx() -> SCtx {
    SCtx {
        next_reg: 0,
        free_list: seq![],
        temps: Set::empty(),
        vars: seq![],
        params: seq![],
        loops: seq![],
        label_counter: 0,
    }
}

pub open spec fn ctx_new(ls: Seq<SLayout>) -> Option<SCtx> {
    ctx_new_from(ls, 0, empty_ctx(), 0)
}

/// A free register: the last freed one, else the next new one.
pub open spec fn alloc_reg(c: SCtx) -> Option<(u8, SCtx)> {
    if c.free_list.len() > 0 {
        Some((c.free_list.last(), SCtx { free_list: c.free_list.drop_last(), ..c }))
    } else if c.next_reg >= 254 {
        None
    } else {
        Some((c.next_reg, SCtx { next_reg: (c.next_reg + 1) as u8, ..c }))
    }
}

/// A register for a temporary value.
pub open spec fn alloc_temp(c: SCtx) -> Option<(u8, SCtx)> {
    match alloc_reg(c) {
        Some((r, c1)) => Some((r, SCtx { temps: c1.temps.insert(r), ..c1 })),
        None => None,
    }
}

/// A register for a variable.
pub open spec fn alloc_var(c: SCtx) -> Option<(u8, SCtx)> {
    match alloc_reg(c) {
        Some((r, c1)) => Some((r, SCtx { temps: c1.temps.remove(r), ..c1 })),
        None => None,
    }
}

/// A temporary register given back.
pub open spec fn free_temp(c: SCtx, r: u8) -> SCtx {
    if r == 255 || r == 254 {
        c
    } else if c.temps.contains(r) {
        SCtx { temps: c.temps.remove(r), free_list: c.free_list.push(r), ..c }
    } else {
        c
    }
}

/// `if ctx.is_temp(r) { ctx.free_temp(r) }`.
pub open spec fn release(c: SCtx, r: u8) -> SCtx {
    if c.temps.contains(r) {
        free_temp(c, r)
    } else {
        c
    }
}

/// `PREFIX_<counter>`.
pub open spec fn fresh_label(c: SCtx, prefix: Seq<char>) -> Option<(Seq<char>, SCtx)> {
    if c.label_counter >= usize::MAX {
        None
    } else {
        Some(
            (
                prefix + seq!['_'] + dec_nat(c.label_counter as nat),
                SCtx { label_counter: c.label_counter + 1, ..c },
            ),
        )
    }
}

// ---------------------------------------------------------------------------
// The compiler state
// ---------------------------------------------------------------------------
/// Interned strings, the function context, and the text written so far.
pub struct CState {
    pub data: Seq<(Seq<char>, Seq<u8>)>,
    pub ctx: SCtx,
    pub out: Seq<char>,
}

pub open spec fn put(st: CState, t: Seq<char>) -> CState {
    CState { out: st.out + t, ..st }
}

pub open spec fn with_ctx(st: CState, c: SCtx) -> CState {
    CState { ctx: c, ..st }
}

/// The index of the data item holding `bytes`, or -1.
pub open spec fn data_index(d: Seq<(Seq<char>, Seq<u8>)>, bytes: Seq<u8>) -> int
    decreases d.len(),
{
    if d.len() == 0 {
        -1
    } else if data_index(d.drop_last(), bytes) >= 0 {
        data_index(d.drop_last(), bytes)
    } else if d.last().1 == bytes {
        d.len() - 1
    } else {
        -1
    }
}

/// The name of the data item holding `bytes`, added as `STR<n>` if new.
pub open spec fn intern(st: CState, bytes: Seq<u8>) -> (Seq<char>, CState) {
    if data_index(st.data, bytes) >= 0 {
        (st.data[data_index(st.data, bytes)].0, st)
    } else {
        let name = "STR"@ + dec_nat(st.data.len());
        (name, CState { data: st.data.push((name, bytes)), ..st })
    }
}

pub open spec fn release_st(st: CState, r: u8) -> CState {
    with_ctx(st, release(st.ctx, r))
}

pub open spec fn release_all(st: CState, rs: Seq<u8>) -> CState
    decreases rs.len(),
{
    if rs.len() == 0 {
        st
    } else {
        release_all(release_st(st, rs[0]), rs.drop_first())
    }
}

/// Seven temporaries (`None` where allocation faults).
pub open spec fn alloc_temps(c: SCtx, n: nat) -> Option<(Seq<u8>, SCtx)>
    decreases n,
{
    if n == 0 {
        Some((seq![], c))
    } else {
        match alloc_temp(c) {
            None => None,
            Some((r, c1)) => match alloc_temps(c1, (n - 1) as nat) {
                None => None,
                Some((rs, c2)) => Some((seq![r] + rs, c2)),
            },
        }
    }
}

/// The write of `len` bytes at `ptr` to standard output, and the wait for it.
pub open spec fn stdout_lines(rs: Seq<u8>, ptr: u8, len: u8) -> Seq<char> {
    ins("SET_IO "@ + rtxt(rs[0]) + " STDOUT_WRITE "@ + rtxt(ptr) + seq![' '] + rtxt(len))
        + load_imm(rs[1], "-1"@) + load_imm(rs[2], "1"@) + ins(
        "WAIT_IO "@ + rtxt(rs[1]) + seq![' '] + rtxt(rs[2]) + seq![' '] + rtxt(rs[3]),
    ) + ins(
        "GET_AN_IO "@ + rtxt(rs[0]) + seq![' '] + rtxt(rs[4]) + seq![' '] + rtxt(rs[5]) + seq![' ']
            + rtxt(rs[6]),
    )
}

/// `emit_stdout_buf`.
pub open spec fn e_stdout_buf(st: CState, ptr: u8, len: u8) -> Option<CState> {
    match alloc_temps(st.ctx, 7) {
        None => None,
        Some((rs, c)) => Some(release_all(put(with_ctx(st, c), stdout_lines(rs, ptr, len)), rs)),
    }
}

/// Sorted by name (the names are distinct).
pub open spec fn str_lt(a: Seq<char>, b: Seq<char>) -> bool
    decreases a.len(),
{
    if a.len() == 0 {
        b.len() > 0
    } else if b.len() == 0 {
        false
    } else if a[0] != b[0] {
        (a[0] as u32) < (b[0] as u32)
    } else {
        str_lt(a.drop_first(), b.drop_first())
    }
}

pub open spec fn insert_sorted(s: Seq<(Seq<char>, u8)>, x: (Seq<char>, u8)) -> Seq<(Seq<char>, u8)>
    decreases s.len(),
{
    if s.len() == 0 {
        seq![x]
    } else if str_lt(x.0, s[0].0) {
        seq![x] + s
    } else {
        seq![s[0]] + insert_sorted(s.drop_first(), x)
    }
}

pub open spec fn sort_vars(s: Seq<(Seq<char>, u8)>) -> Seq<(Seq<char>, u8)>
    decreases s.len(),
{
    if s.len() == 0 {
        seq![]
    } else {
        insert_sorted(sort_vars(s.drop_last()), s.last())
    }
}

/// `STORE_U64 r254 rX <8*i>` (or `LOAD_U64`) for each saved variable.
pub open spec fn save_lines(op: Seq<char>, vs: Seq<(Seq<char>, u8)>, k: int) -> Seq<char>
    decreases k,
{
    if k <= 0 {
        seq![]
    } else {
        save_lines(op, vs, k - 1) + mem_line(op, 254, vs[k - 1].1, ((k - 1) * 8) as nat)
    }
}

/// The innermost enclosing loop (with `label` where one is given).
pub open spec fn find_loop(loops: Seq<SLoopCtx>, label: Option<Seq<char>>) -> Option<SLoopCtx>
    decreases loops.len(),
{
    if loops.len() == 0 {
        None
    } else {
        match label {
            None => Some(loops.last()),
            Some(l) => if loops.last().label == Some(l) {
                Some(loops.last())
            } else {
                find_loop(loops.drop_last(), label)
            },
        }
    }
}

/// `Vec::pop` on the loop stack.
pub open spec fn pop_last(s: Seq<SLoopCtx>) -> Seq<SLoopCtx> {
    if s.len() > 0 {
        s.drop_last()
    } else {
        s
    }
}

/// The jump of a comparison: `(true label prefix, end label prefix, jump)`.
pub open spec fn comparison_names(op: BinOp) -> (Seq<char>, Seq<char>, Seq<char>) {
    match op {
        BinOp::Eq => ("EQ_TRUE"@, "EQ_END"@, "EQ_JUMP"@),
        BinOp::Ne => ("NE_TRUE"@, "NE_END"@, "NEQ_JUMP"@),
        BinOp::Lt => ("LT_TRUE"@, "LT_END"@, "LT_U64_JUMP"@),
        BinOp::Gt => ("GT_TRUE"@, "GT_END"@, "GT_U64_JUMP"@),
        BinOp::Le => ("LE_TRUE"@, "LE_END"@, "LTE_U64_JUMP"@),
        _ => ("GE_TRUE"@, "GE_END"@, "GTE_U64_JUMP"@),
    }
}

pub open spec fn is_comparison(op: BinOp) -> bool {
    op == BinOp::Eq || op == BinOp::Ne || op == BinOp::Lt || op == BinOp::Gt || op == BinOp::Le
        || op == BinOp::Ge
}

/// The instruction of an arithmetic operator.
pub open spec fn arith_name(op: BinOp) -> Seq<char> {
    match op {
        BinOp::Add => "ADD_U64"@,
        BinOp::Sub => "SUB_U64"@,
        BinOp::Mul => "MUL_U64"@,
        BinOp::Div => "DIV_U64"@,
        _ => "MOD_I64"@,
    }
}

/// The instruction emitted for an arithmetic operator computes that
/// operator: the mnemonic decodes to an opcode, and where a step of that
/// opcode runs, the destination register gets the sum, difference, product
/// (each wrapping), unsigned quotient or signed remainder of the two
/// registers it names.
pub proof fn law_arith_instruction<R: Reactor>(b: BinOp, new: VM<R>, old: VM<R>)
    requires
        b == BinOp::Add || b == BinOp::Sub || b == BinOp::Mul || b == BinOp::Div || b == BinOp::Mod,
        op_step(spec_lookup(arith_name(b))->0, new, old, StepEnd::Continued),
    ensures
        spec_lookup(arith_name(b)) is Some,
        ({
            let d = old.ol(1, 0);
            let x = old.reg(d);
            let y = old.reg(old.ol(1, 1));
            new.st.r@ == old.st.r@.update(
                d as int,
                if b == BinOp::Add {
                    wrap64(x + y)
                } else if b == BinOp::Sub {
                    wrap64(x - y)
                } else if b == BinOp::Mul {
                    wrap64(x * y)
                } else if b == BinOp::Div {
                    x / y
                } else {
                    wrap64(trunc_rem(sgn(x), sgn(y)))
                },
            )
        }),
{
    law_arith_mnemonics_decode();
}

/// The jump of a relational match pattern and its number.
pub open spec fn pattern_jump(p: MatchPattern) -> (Seq<char>, i64) {
    match p {
        MatchPattern::LessThan(v) => ("LT_U64_JUMP"@, v),
        MatchPattern::LessEqual(v) => ("LTE_U64_JUMP"@, v),
        MatchPattern::Equal(v) => ("EQ_JUMP"@, v),
        MatchPattern::NotEqual(v) => ("NEQ_JUMP"@, v),
        MatchPattern::GreaterThan(v) => ("GT_U64_JUMP"@, v),
        MatchPattern::GreaterEqual(v) => ("GTE_U64_JUMP"@, v),
        MatchPattern::Wildcard => (seq![], 0),
    }
}

/// The jump of one match arm to its label.
pub open spec fn e_match_jump(st: CState, scrut: u8, p: MatchPattern, label: Seq<char>) -> Option<
    CState,
> {
    if p is Wildcard {
        Some(st)
    } else {
        match alloc_temp(st.ctx) {
            None => None,
            Some((lit, c)) => {
                let (jop, v) = pattern_jump(p);
                let st1 = put(
                    put(with_ctx(st, c), load_imm(lit, dec_int(v as int))),
                    cond_jump(jop, scrut, lit, label),
                );
                Some(with_ctx(st1, free_temp(st1.ctx, lit)))
            },
        }
    }
}

/// Labels of the arms that are not `_`, from arm `idx` on; the last `_`
/// arm is the default.
pub open spec fn arm_labels(
    arms: Seq<SArm>,
    idx: int,
    c: SCtx,
    labels: Seq<(int, Seq<char>)>,
    default: Option<int>,
) -> Option<(Seq<(int, Seq<char>)>, Option<int>, SCtx)>
    decreases arms.len() - idx,
{
    if 0 <= idx < arms.len() {
        if arms[idx].pattern is Wildcard {
            arm_labels(arms, idx + 1, c, labels, Some(idx))
        } else {
            match fresh_label(c, "MATCH_ARM_"@ + dec_nat(idx as nat)) {
                None => None,
                Some((l, c1)) => arm_labels(arms, idx + 1, c1, labels.push((idx, l)), default),
            }
        }
    } else {
        Some((labels, default, c))
    }
}

/// The jumps of the labelled arms, from `k` on.
pub open spec fn e_match_jumps(
    st: CState,
    scrut: u8,
    arms: Seq<SArm>,
    labels: Seq<(int, Seq<char>)>,
    k: int,
) -> Option<CState>
    decreases labels.len() - k,
{
    if 0 <= k < labels.len() && 0 <= labels[k].0 < arms.len() {
        match e_match_jump(st, scrut, arms[labels[k].0].pattern, labels[k].1) {
            None => None,
            Some(st1) => e_match_jumps(st1, scrut, arms, labels, k + 1),
        }
    } else {
        Some(st)
    }
}

/// An expression: the register that holds its value.
pub open spec fn e_expr(sigs: Seq<(Seq<char>, Seq<SLayout>)>, e: SExpr, st: CState) -> Outcome<
    (u8, CState),
>
    decreases e, 20int,
{
    match e {
        SExpr::Ident(n) => match assoc_get(st.ctx.vars, n) {
            Some(r) => Outcome::Done((r, st)),
            None => Outcome::Fail("unknown variable: "@ + n),
        },
        SExpr::StrLiteral(_) => Outcome::Fail("string literal is only supported in calls/stdout"@),
        SExpr::IntLiteral(v) => match alloc_temp(st.ctx) {
            None => Outcome::Fault,
            Some((r, c)) => Outcome::Done((r, put(with_ctx(st, c), load_imm(r, dec_int(v as int))))),
        },
        SExpr::BoolLiteral(b) => match alloc_temp(st.ctx) {
            None => Outcome::Fault,
            Some((r, c)) => Outcome::Done(
                (
                    r,
                    put(
                        with_ctx(st, c),
                        load_imm(
                            r,
                            if b {
                                seq!['1']
                            } else {
                                seq!['0']
                            },
                        ),
                    ),
                ),
            ),
        },
        SExpr::Call { name, args } => e_call_expr(sigs, name, args, st),
        SExpr::Binary { .. } => e_binary(sigs, e, st),
        SExpr::Loop(_) => e_loop(sigs, e, st),
        SExpr::Match(_) => e_match(sigs, e, st),
        SExpr::Block(b) => e_block(sigs, b, st),
    }
}

/// The value of an integer literal.
pub open spec fn int_literal(e: SExpr) -> Option<i64> {
    match e {
        SExpr::IntLiteral(v) => Some(v),
        _ => None,
    }
}

/// `emit_binary_expr`.
pub open spec fn e_binary(sigs: Seq<(Seq<char>, Seq<SLayout>)>, e: SExpr, st: CState) -> Outcome<
    (u8, CState),
>
    decreases e, 19int,
{
    match e {
        SExpr::Binary { left, op, right } => match e_expr(sigs, *left, st) {
            Outcome::Fault => Outcome::Fault,
            Outcome::Fail(m) => Outcome::Fail(m),
            Outcome::Done((lreg, st1)) => match alloc_temp(st1.ctx) {
                None => Outcome::Fault,
                Some((dst, c)) => {
                    let st2 = put(with_ctx(st1, c), op_rr("MOV"@, dst, lreg));
                    if is_comparison(op) {
                        let (tp, ep, jop) = comparison_names(op);
                        match fresh_label(st2.ctx, tp) {
                            None => Outcome::Fault,
                            Some((t, c3)) => match fresh_label(c3, ep) {
                                None => Outcome::Fault,
                                Some((en, c4)) => {
                                    let st3 = put(with_ctx(st2, c4), load_imm(dst, seq!['0']));
                                    match e_expr(sigs, *right, st3) {
                                        Outcome::Fault => Outcome::Fault,
                                        Outcome::Fail(m) => Outcome::Fail(m),
                                        Outcome::Done((rr, st4)) => {
                                            let st5 = put(
                                                put(
                                                    put(
                                                        put(put(st4, cond_jump(jop, lreg, rr, t)), jump(en)),
                                                        label_line(t),
                                                    ),
                                                    load_imm(dst, seq!['1']),
                                                ),
                                                label_line(en),
                                            );
                                            Outcome::Done(
                                                (dst, release_st(release_st(st5, rr), lreg)),
                                            )
                                        },
                                    }
                                },
                            },
                        }
                    } else if (op == BinOp::Add || op == BinOp::Sub) && int_literal(*right) is Some {
                        let v = int_literal(*right)->0;
                        let st3 = put(
                            st2,
                            ins(
                                (if op == BinOp::Add {
                                    "ADD_U64_IMMEDIATE "@
                                } else {
                                    "SUB_U64_IMMEDIATE "@
                                }) + rtxt(dst) + seq![' '] + dec_int(v as int),
                            ),
                        );
                        Outcome::Done((dst, release_st(st3, lreg)))
                    } else {
                        match e_expr(sigs, *right, st2) {
                            Outcome::Fault => Outcome::Fault,
                            Outcome::Fail(m) => Outcome::Fail(m),
                            Outcome::Done((rr, st3)) => {
                                let st4 = put(st3, op_rr(arith_name(op), dst, rr));
                                Outcome::Done((dst, release_st(release_st(st4, rr), lreg)))
                            },
                        }
                    }
                },
            },
        },
        _ => Outcome::Fault,
    }
}

/// `emit_block`: the statements, then the tail's register, or a new zero.
pub open spec fn e_block(sigs: Seq<(Seq<char>, Seq<SLayout>)>, b: SBlock, st: CState) -> Outcome<
    (u8, CState),
>
    decreases b, 20int,
{
    match e_stmts(sigs, b.stmts, st) {
        Outcome::Fault => Outcome::Fault,
        Outcome::Fail(m) => Outcome::Fail(m),
        Outcome::Done(st1) => match b.tail {
            Some(t) => e_expr(sigs, *t, st1),
            None => match alloc_temp(st1.ctx) {
                None => Outcome::Fault,
                Some((r, c)) => Outcome::Done((r, put(with_ctx(st1, c), load_imm(r, seq!['0'])))),
            },
        },
    }
}

/// Statements in order.
pub open spec fn e_stmts(sigs: Seq<(Seq<char>, Seq<SLayout>)>, ss: Seq<SStmt>, st: CState) -> Outcome<
    CState,
>
    decreases ss, 20int,
{
    if ss.len() == 0 {
        Outcome::Done(st)
    } else {
        match e_stmt(sigs, ss[0], st) {
            Outcome::Fault => Outcome::Fault,
            Outcome::Fail(m) => Outcome::Fail(m),
            Outcome::Done(st1) => e_stmts(sigs, ss.subrange(1, ss.len() as int), st1),
        }
    }
}

/// `emit_stmt`.
pub open spec fn e_stmt(sigs: Seq<(Seq<char>, Seq<SLayout>)>, s: SStmt, st: CState) -> Outcome<
    CState,
>
    decreases s, 20int,
{
    match s {
        SStmt::Call { name, args } => e_call(sigs, name, args, st),
        SStmt::ReactorStdout { arg } => e_stdout(st, arg),
        SStmt::Let { name, ty: _, expr } => match e_expr(sigs, expr, st) {
            Outcome::Fault => Outcome::Fault,
            Outcome::Fail(m) => Outcome::Fail(m),
            Outcome::Done((reg, st1)) => match alloc_var(st1.ctx) {
                None => Outcome::Fault,
                Some((dst, c)) => {
                    let st2 = with_ctx(st1, SCtx { vars: assoc_put(c.vars, name, dst), ..c });
                    let st3 = if dst != reg {
                        put(st2, op_rr("MOV"@, dst, reg))
                    } else {
                        st2
                    };
                    Outcome::Done(release_st(st3, reg))
                },
            },
        },
        SStmt::Assign { name, expr } => match e_expr(sigs, expr, st) {
            Outcome::Fault => Outcome::Fault,
            Outcome::Fail(m) => Outcome::Fail(m),
            Outcome::Done((reg, st1)) => match assoc_get(st1.ctx.vars, name) {
                None => Outcome::Fail("unknown variable: "@ + name),
                Some(dst) => {
                    let st2 = if dst != reg {
                        put(st1, op_rr("MOV"@, dst, reg))
                    } else {
                        st1
                    };
                    Outcome::Done(release_st(st2, reg))
                },
            },
        },
        SStmt::Break { label, expr } => e_break(sigs, label, expr, st),
        SStmt::ExprStmt(expr) => match e_expr(sigs, expr, st) {
            Outcome::Fault => Outcome::Fault,
            Outcome::Fail(m) => Outcome::Fail(m),
            Outcome::Done((reg, st1)) => Outcome::Done(release_st(st1, reg)),
        },
    }
}

/// `emit_break`: the value into the loop's result register, then a jump to
/// its end.
pub open spec fn e_break(
    sigs: Seq<(Seq<char>, Seq<SLayout>)>,
    label: Option<Seq<char>>,
    expr: SExpr,
    st: CState,
) -> Outcome<CState>
    decreases expr, 21int,
{
    match find_loop(st.ctx.loops, label) {
        None => Outcome::Fail("break used outside of loop"@),
        Some(target) => match e_expr(sigs, expr, st) {
            Outcome::Fault => Outcome::Fault,
            Outcome::Fail(m) => Outcome::Fail(m),
            Outcome::Done((v, st1)) => {
                let st2 = if target.result_reg != v {
                    put(st1, op_rr("MOV"@, target.result_reg, v))
                } else {
                    st1
                };
                Outcome::Done(put(release_st(st2, v), jump(target.end_label)))
            },
        },
    }
}

/// `emit_loop_expr`.
pub open spec fn e_loop(sigs: Seq<(Seq<char>, Seq<SLayout>)>, e: SExpr, st: CState) -> Outcome<
    (u8, CState),
>
    decreases e, 19int,
{
    match e {
        SExpr::Loop(l) => match alloc_var(st.ctx) {
            None => Outcome::Fault,
            Some((result, c)) => match fresh_label(c, "LOOP"@) {
                None => Outcome::Fault,
                Some((start, c2)) => match fresh_label(c2, "END"@) {
                    None => Outcome::Fault,
                    Some((end, c3)) => {
                        let c4 = SCtx {
                            loops: c3.loops.push(SLoopCtx { label: l.label, end_label: end, result_reg: result }),
                            ..c3
                        };
                        let st1 = put(
                            put(with_ctx(st, c4), load_imm(result, seq!['0'])),
                            label_line(start),
                        );
                        match e_block(sigs, l.body, st1) {
                            Outcome::Fault => Outcome::Fault,
                            Outcome::Fail(m) => Outcome::Fail(m),
                            Outcome::Done((_, st2)) => {
                                let st3 = with_ctx(
                                    st2,
                                    SCtx { loops: pop_last(st2.ctx.loops), ..st2.ctx },
                                );
                                Outcome::Done((result, put(put(st3, jump(start)), label_line(end))))
                            },
                        }
                    },
                },
            },
        },
        _ => Outcome::Fault,
    }
}

/// One arm's body: its value into the match's result register, then a jump
/// to the end.
pub open spec fn e_arm_result(
    sigs: Seq<(Seq<char>, Seq<SLayout>)>,
    body: SBlock,
    result: u8,
    end: Seq<char>,
    st: CState,
) -> Outcome<CState>
    decreases body, 21int,
{
    match e_block(sigs, body, st) {
        Outcome::Fault => Outcome::Fault,
        Outcome::Fail(m) => Outcome::Fail(m),
        Outcome::Done((v, st1)) => {
            let st2 = if v != result {
                put(st1, op_rr("MOV"@, result, v))
            } else {
                st1
            };
            Outcome::Done(put(release_st(st2, v), jump(end)))
        },
    }
}

/// The labelled arms' bodies, from `k` on, each after its label.
pub open spec fn e_arm_bodies(
    sigs: Seq<(Seq<char>, Seq<SLayout>)>,
    arms: Seq<SArm>,
    labels: Seq<(int, Seq<char>)>,
    k: int,
    result: u8,
    end: Seq<char>,
    st: CState,
) -> Outcome<CState>
    decreases arms, labels.len() - k,
{
    if 0 <= k < labels.len() && 0 <= labels[k].0 < arms.len() {
        match e_arm_result(
            sigs,
            arms[labels[k].0].body,
            result,
            end,
            put(st, label_line(labels[k].1)),
        ) {
            Outcome::Fault => Outcome::Fault,
            Outcome::Fail(m) => Outcome::Fail(m),
            Outcome::Done(st1) => e_arm_bodies(sigs, arms, labels, k + 1, result, end, st1),
        }
    } else {
        Outcome::Done(st)
    }
}

/// `emit_match_expr`.
pub open spec fn e_match(sigs: Seq<(Seq<char>, Seq<SLayout>)>, e: SExpr, st: CState) -> Outcome<
    (u8, CState),
>
    decreases e, 19int,
{
    match e {
        SExpr::Match(m) => match e_expr(sigs, *m.scrutinee, st) {
            Outcome::Fault => Outcome::Fault,
            Outcome::Fail(msg) => Outcome::Fail(msg),
            Outcome::Done((scrut, st1)) => match alloc_temp(st1.ctx) {
                None => Outcome::Fault,
                Some((result, c2)) => match fresh_label(c2, "MATCH_END"@) {
                    None => Outcome::Fault,
                    Some((end, c3)) => match arm_labels(m.arms, 0, c3, seq![], None) {
                        None => Outcome::Fault,
                        Some((labels, default, c4)) => {
                            let st2 = with_ctx(st1, c4);
                            if default is Some && labels.len() == 1 && 0 <= labels[0].0 < m.arms.len()
                                && 0 <= default->0 < m.arms.len() {
                                let d = default->0;
                                let (ai, al) = labels[0];
                                match e_match_jump(st2, scrut, m.arms[ai].pattern, al) {
                                    None => Outcome::Fault,
                                    Some(st3) => match e_arm_result(sigs, m.arms[d].body, result, end, st3) {
                                        Outcome::Fault => Outcome::Fault,
                                        Outcome::Fail(msg) => Outcome::Fail(msg),
                                        Outcome::Done(st4) => match e_arm_result(
                                            sigs,
                                            m.arms[ai].body,
                                            result,
                                            end,
                                            put(st4, label_line(al)),
                                        ) {
                                            Outcome::Fault => Outcome::Fault,
                                            Outcome::Fail(msg) => Outcome::Fail(msg),
                                            Outcome::Done(st5) => Outcome::Done(
                                                (result, release_st(put(st5, label_line(end)), scrut)),
                                            ),
                                        },
                                    },
                                }
                            } else {
                                match e_match_jumps(st2, scrut, m.arms, labels, 0) {
                                    None => Outcome::Fault,
                                    Some(st3) => match default {
                                        None => Outcome::Fail("match requires a '_' default arm"@),
                                        Some(d) => if !(0 <= d < m.arms.len()) {
                                            Outcome::Fault
                                        } else {
                                            match e_arm_result(sigs, m.arms[d].body, result, end, st3) {
                                                Outcome::Fault => Outcome::Fault,
                                                Outcome::Fail(msg) => Outcome::Fail(msg),
                                                Outcome::Done(st4) => match e_arm_bodies(
                                                    sigs,
                                                    m.arms,
                                                    labels,
                                                    0,
                                                    result,
                                                    end,
                                                    st4,
                                                ) {
                                                    Outcome::Fault => Outcome::Fault,
                                                    Outcome::Fail(msg) => Outcome::Fail(msg),
                                                    Outcome::Done(st5) => Outcome::Done(
                                                        (
                                                            result,
                                                            release_st(put(st5, label_line(end)), scrut),
                                                        ),
                                                    ),
                                                },
                                            }
                                        },
                                    },
                                }
                            }
                        },
                    },
                },
            },
        },
        _ => Outcome::Fault,
    }
}

/// The message of a static string argument that is neither a literal nor a
/// static string parameter.
pub open spec fn static_str_msg() -> Seq<char> {
    "static str argument must be a string literal or param"@
}

/// The arguments of a call, each into its parameter's registers.
pub open spec fn e_call_args(
    sigs: Seq<(Seq<char>, Seq<SLayout>)>,
    args: Seq<SExpr>,
    ls: Seq<SLayout>,
    st: CState,
) -> Outcome<CState>
    decreases args, 5int,
{
    if args.len() == 0 || ls.len() == 0 {
        Outcome::Done(st)
    } else {
        let layout = ls[0];
        let rest_args = args.subrange(1, args.len() as int);
        let rest_ls = ls.subrange(1, ls.len() as int);
        match layout.kind {
            ParamKind::StaticStr => match args[0] {
                SExpr::StrLiteral(bytes) => {
                    let (sym, st1) = intern(st, bytes);
                    if layout.reg == 255 {
                        Outcome::Fault
                    } else {
                        let st2 = put(
                            put(st1, load_imm(layout.reg, sym)),
                            load_imm((layout.reg + 1) as u8, dec_nat(bytes.len())),
                        );
                        e_call_args(sigs, rest_args, rest_ls, st2)
                    }
                },
                SExpr::Ident(n) => match assoc_get(st.ctx.vars, n) {
                    None => Outcome::Fail(static_str_msg()),
                    Some(reg) => match assoc_get(st.ctx.params, n) {
                        None => Outcome::Fail(static_str_msg()),
                        Some(meta) => if meta.kind != ParamKind::StaticStr {
                            Outcome::Fail(static_str_msg())
                        } else if layout.reg == 255 || reg == 255 {
                            Outcome::Fault
                        } else {
                            let st2 = if layout.reg != reg {
                                put(
                                    put(st, op_rr("MOV"@, layout.reg, reg)),
                                    op_rr("MOV"@, (layout.reg + 1) as u8, (reg + 1) as u8),
                                )
                            } else {
                                st
                            };
                            e_call_args(sigs, rest_args, rest_ls, st2)
                        },
                    },
                },
                _ => Outcome::Fail("static str argument must be a string literal"@),
            },
            ParamKind::Value => match e_expr(sigs, args[0], st) {
                Outcome::Fault => Outcome::Fault,
                Outcome::Fail(m) => Outcome::Fail(m),
                Outcome::Done((reg, st1)) => {
                    let st2 = if layout.reg != reg {
                        put(st1, op_rr("MOV"@, layout.reg, reg))
                    } else {
                        st1
                    };
                    e_call_args(sigs, rest_args, rest_ls, release_st(st2, reg))
                },
            },
        }
    }
}

/// The variables saved around a call: the stores before it.
pub open spec fn save_before(st: CState) -> Option<CState> {
    let saved = sort_vars(st.ctx.vars);
    if saved.len() == 0 {
        Some(st)
    } else {
        match alloc_temp(st.ctx) {
            None => None,
            Some((size_reg, c)) => if saved.len() * 8 > usize::MAX {
                None
            } else {
                let st1 = put(
                    put(
                        put(with_ctx(st, c), load_imm(size_reg, dec_nat((saved.len() * 8) as nat))),
                        op_rr0("ALLOC"@, size_reg, 254),
                    ),
                    save_lines("STORE_U64"@, saved, saved.len() as int),
                );
                Some(release_st(st1, size_reg))
            },
        }
    }
}

/// `emit_call`: an intrinsic, or the saved variables stored, the arguments
/// moved into the callee's registers, the call, and the variables loaded
/// back.
pub open spec fn e_call(
    sigs: Seq<(Seq<char>, Seq<SLayout>)>,
    name: Seq<char>,
    args: Seq<SExpr>,
    st: CState,
) -> Outcome<CState>
    decreases args, 15int,
{
    match e_intrinsic(sigs, name, args, st) {
        Outcome::Fault => Outcome::Fault,
        Outcome::Fail(m) => Outcome::Fail(m),
        Outcome::Done((Some(_), st1)) => Outcome::Done(st1),
        Outcome::Done((None, st1)) => e_user_call(sigs, name, args, st1),
    }
}

/// A call of a function of the program: the live variables saved, the
/// arguments placed, the call, and the variables loaded back.
pub open spec fn e_user_call(
    sigs: Seq<(Seq<char>, Seq<SLayout>)>,
    name: Seq<char>,
    args: Seq<SExpr>,
    st1: CState,
) -> Outcome<CState>
    decreases args, 14int,
{
    match save_before(st1) {
        None => Outcome::Fault,
        Some(st2) => e_call_saved(sigs, name, args, sort_vars(st1.ctx.vars), st2),
    }
}

/// The rest of a call once the variables `saved` are saved.
pub open spec fn e_call_saved(
    sigs: Seq<(Seq<char>, Seq<SLayout>)>,
    name: Seq<char>,
    args: Seq<SExpr>,
    saved: Seq<(Seq<char>, u8)>,
    st2: CState,
) -> Outcome<CState>
    decreases args, 13int,
{
    match assoc_get(sigs, name) {
        None => Outcome::Fail("unknown function: "@ + name),
        Some(ls) => if args.len() != ls.len() {
            Outcome::Fail("argument count mismatch for "@ + name)
        } else {
            call_tail(e_call_args(sigs, args, ls, st2), name, saved)
        },
    }
}

/// After the arguments: the call line and the loads of `saved`.
pub open spec fn call_tail(r: Outcome<CState>, name: Seq<char>, saved: Seq<(Seq<char>, u8)>) -> Outcome<
    CState,
> {
    match r {
        Outcome::Fault => Outcome::Fault,
        Outcome::Fail(m) => Outcome::Fail(m),
        Outcome::Done(st3) => Outcome::Done(
            put(
                put(st3, ins("CALL r255 "@ + upper_seq(name))),
                save_lines("LOAD_U64"@, saved, saved.len() as int),
            ),
        ),
    }
}

/// `emit_call_expr`: a call whose value is a new zero register (or an
/// intrinsic's register).
pub open spec fn e_call_expr(
    sigs: Seq<(Seq<char>, Seq<SLayout>)>,
    name: Seq<char>,
    args: Seq<SExpr>,
    st: CState,
) -> Outcome<(u8, CState)>
    decreases args, 16int,
{
    match e_intrinsic(sigs, name, args, st) {
        Outcome::Fault => Outcome::Fault,
        Outcome::Fail(m) => Outcome::Fail(m),
        Outcome::Done((Some(r), st1)) => Outcome::Done((r, st1)),
        Outcome::Done((None, st1)) => match e_call(sigs, name, args, st1) {
            Outcome::Fault => Outcome::Fault,
            Outcome::Fail(m) => Outcome::Fail(m),
            Outcome::Done(st2) => match alloc_temp(st2.ctx) {
                None => Outcome::Fault,
                Some((r, c)) => Outcome::Done((r, put(with_ctx(st2, c), load_imm(r, seq!['0'])))),
            },
        },
    }
}

/// The `alloc` intrinsic: a block of the argument's size.
pub open spec fn e_intr_alloc(sigs: Seq<(Seq<char>, Seq<SLayout>)>, args: Seq<SExpr>, st: CState) -> Outcome<
    (Option<u8>, CState),
>
    decreases args, 9int,
{
    if args.len() != 1 {
        Outcome::Fail("alloc expects 1 argument"@)
    } else {
        match e_expr(sigs, args[0], st) {
            Outcome::Fault => Outcome::Fault,
            Outcome::Fail(m) => Outcome::Fail(m),
            Outcome::Done((size, st1)) => match alloc_temp(st1.ctx) {
                None => Outcome::Fault,
                Some((ptr, c)) => Outcome::Done(
                    (Some(ptr), release_st(put(with_ctx(st1, c), op_rr0("ALLOC"@, size, ptr)), size)),
                ),
            },
        }
    }
}

/// The `dealloc` intrinsic.
pub open spec fn e_intr_dealloc(sigs: Seq<(Seq<char>, Seq<SLayout>)>, args: Seq<SExpr>, st: CState) -> Outcome<
    (Option<u8>, CState),
>
    decreases args, 9int,
{
    if args.len() != 1 {
        Outcome::Fail("dealloc expects 1 argument"@)
    } else {
        match e_expr(sigs, args[0], st) {
            Outcome::Fault => Outcome::Fault,
            Outcome::Fail(m) => Outcome::Fail(m),
            Outcome::Done((p, st1)) => Outcome::Done(
                (Some(255u8), release_st(put(st1, ins("DEALLOC "@ + rtxt(p))), p)),
            ),
        }
    }
}

/// `store_u8` and `store_u64`: a value stored at a pointer plus an offset.
pub open spec fn e_intr_store(
    sigs: Seq<(Seq<char>, Seq<SLayout>)>,
    name: Seq<char>,
    op: Seq<char>,
    args: Seq<SExpr>,
    st: CState,
) -> Outcome<(Option<u8>, CState)>
    decreases args, 9int,
{
    if args.len() != 3 {
        Outcome::Fail(name + " expects 3 arguments"@)
    } else {
        match e_expr(sigs, args[0], st) {
            Outcome::Fault => Outcome::Fault,
            Outcome::Fail(m) => Outcome::Fail(m),
            Outcome::Done((ptr, st1)) => match e_expr(sigs, args[1], st1) {
                Outcome::Fault => Outcome::Fault,
                Outcome::Fail(m) => Outcome::Fail(m),
                Outcome::Done((offset, st2)) => match e_expr(sigs, args[2], st2) {
                    Outcome::Fault => Outcome::Fault,
                    Outcome::Fail(m) => Outcome::Fail(m),
                    Outcome::Done((value, st3)) => match alloc_temp(st3.ctx) {
                        None => Outcome::Fault,
                        Some((tmp, c)) => {
                            let st4 = put(
                                put(
                                    put(with_ctx(st3, c), op_rr("MOV"@, tmp, ptr)),
                                    op_rr("ADD_U64"@, tmp, offset),
                                ),
                                op_rr0(op, tmp, value),
                            );
                            Outcome::Done((Some(255u8), release_all(st4, seq![tmp, ptr, offset, value])))
                        },
                    },
                },
            },
        }
    }
}

/// `load_u8` and `load_u64`: a value loaded from a pointer plus an offset.
pub open spec fn e_intr_load(
    sigs: Seq<(Seq<char>, Seq<SLayout>)>,
    name: Seq<char>,
    op: Seq<char>,
    args: Seq<SExpr>,
    st: CState,
) -> Outcome<(Option<u8>, CState)>
    decreases args, 9int,
{
    if args.len() != 2 {
        Outcome::Fail(name + " expects 2 arguments"@)
    } else {
        match e_expr(sigs, args[0], st) {
            Outcome::Fault => Outcome::Fault,
            Outcome::Fail(m) => Outcome::Fail(m),
            Outcome::Done((ptr, st1)) => match e_expr(sigs, args[1], st1) {
                Outcome::Fault => Outcome::Fault,
                Outcome::Fail(m) => Outcome::Fail(m),
                Outcome::Done((offset, st2)) => match alloc_temp(st2.ctx) {
                    None => Outcome::Fault,
                    Some((tmp, c)) => match alloc_temp(c) {
                        None => Outcome::Fault,
                        Some((result, c2)) => {
                            let st3 = put(
                                put(
                                    put(with_ctx(st2, c2), op_rr("MOV"@, tmp, ptr)),
                                    op_rr("ADD_U64"@, tmp, offset),
                                ),
                                op_rr0(op, tmp, result),
                            );
                            Outcome::Done((Some(result), release_all(st3, seq![tmp, ptr, offset])))
                        },
                    },
                },
            },
        }
    }
}

/// `stdout_buf`: `len` bytes at a pointer to standard output.
pub open spec fn e_intr_stdout_buf(sigs: Seq<(Seq<char>, Seq<SLayout>)>, args: Seq<SExpr>, st: CState) -> Outcome<
    (Option<u8>, CState),
>
    decreases args, 9int,
{
    if args.len() != 2 {
        Outcome::Fail("stdout_buf expects 2 arguments"@)
    } else {
        match e_expr(sigs, args[0], st) {
            Outcome::Fault => Outcome::Fault,
            Outcome::Fail(m) => Outcome::Fail(m),
            Outcome::Done((ptr, st1)) => match e_expr(sigs, args[1], st1) {
                Outcome::Fault => Outcome::Fault,
                Outcome::Fail(m) => Outcome::Fail(m),
                Outcome::Done((len, st2)) => match e_stdout_buf(st2, ptr, len) {
                    None => Outcome::Fault,
                    Some(st3) => Outcome::Done((Some(255u8), release_all(st3, seq![ptr, len]))),
                },
            },
        }
    }
}

/// `emit_intrinsic`: `alloc`, `dealloc`, `store_u8`, `load_u8`, `store_u64`,
/// `load_u64`, `stdout_buf`; `None` for any other name.
pub open spec fn e_intrinsic(
    sigs: Seq<(Seq<char>, Seq<SLayout>)>,
    name: Seq<char>,
    args: Seq<SExpr>,
    st: CState,
) -> Outcome<(Option<u8>, CState)>
    decreases args, 10int,
{
    if name == "alloc"@ {
        e_intr_alloc(sigs, args, st)
    } else if name == "dealloc"@ {
        e_intr_dealloc(sigs, args, st)
    } else if name == "store_u8"@ {
        e_intr_store(sigs, name, "STORE_U8"@, args, st)
    } else if name == "load_u8"@ {
        e_intr_load(sigs, name, "LOAD_U8"@, args, st)
    } else if name == "store_u64"@ {
        e_intr_store(sigs, name, "STORE_U64"@, args, st)
    } else if name == "load_u64"@ {
        e_intr_load(sigs, name, "LOAD_U64"@, args, st)
    } else if name == "stdout_buf"@ {
        e_intr_stdout_buf(sigs, args, st)
    } else {
        Outcome::Done((None, st))
    }
}

/// `emit_stdout`: a string literal or a static string parameter written to
/// standard output.
pub open spec fn e_stdout(st: CState, arg: SExpr) -> Outcome<CState> {
    let regs: Outcome<(u8, u8, CState)> = match arg {
        SExpr::Ident(n) => match assoc_get(st.ctx.vars, n) {
            None => Outcome::Fail("unknown variable: "@ + n),
            Some(reg) => match assoc_get(st.ctx.params, n) {
                None => Outcome::Fail("stdout expects static str param"@),
                Some(meta) => if meta.kind != ParamKind::StaticStr {
                    Outcome::Fail("stdout expects static str param"@)
                } else if reg == 255 {
                    Outcome::Fault
                } else {
                    Outcome::Done((reg, (reg + 1) as u8, st))
                },
            },
        },
        SExpr::StrLiteral(bytes) => {
            let (sym, st1) = intern(st, bytes);
            match alloc_temp(st1.ctx) {
                None => Outcome::Fault,
                Some((p, c)) => match alloc_temp(c) {
                    None => Outcome::Fault,
                    Some((l, c2)) => Outcome::Done(
                        (
                            p,
                            l,
                            put(
                                put(with_ctx(st1, c2), load_imm(p, sym)),
                                load_imm(l, dec_nat(bytes.len())),
                            ),
                        ),
                    ),
                },
            }
        },
        _ => Outcome::Fail("stdout expects static str argument"@),
    };
    match regs {
        Outcome::Fault => Outcome::Fault,
        Outcome::Fail(m) => Outcome::Fail(m),
        Outcome::Done((ptr, len, st1)) => match alloc_temps(st1.ctx, 7) {
            None => Outcome::Fault,
            Some((rs, c)) => Outcome::Done(
                release_all(put(with_ctx(st1, c), stdout_lines(rs, ptr, len)), rs + seq![ptr, len]),
            ),
        },
    }
}

/// `emit_function`: the label, the zero register, the body, and the
/// return (or exit for `MAIN`).
pub open spec fn e_function(
    sigs: Seq<(Seq<char>, Seq<SLayout>)>,
    name: Seq<char>,
    body: Seq<SStmt>,
    data: Seq<(Seq<char>, Seq<u8>)>,
    out: Seq<char>,
) -> Outcome<(Seq<(Seq<char>, Seq<u8>)>, Seq<char>)> {
    let uname = upper_seq(name);
    let layouts = match assoc_get(sigs, name) {
        Some(ls) => ls,
        None => seq![],
    };
    match ctx_new(layouts) {
        None => Outcome::Fault,
        Some(c) => {
            let st = CState { data, ctx: c, out: out + uname + seq!['\n'] + load_imm(255, seq!['0']) };
            match e_stmts(sigs, body, st) {
                Outcome::Fault => Outcome::Fault,
                Outcome::Fail(m) => Outcome::Fail(m),
                Outcome::Done(st1) => Outcome::Done(
                    (
                        st1.data,
                        st1.out + if uname == "MAIN"@ {
                            load_imm(0, seq!['0']) + ins("EXIT r0"@)
                        } else {
                            ins("RET"@)
                        },
                    ),
                ),
            }
        },
    }
}

/// The functions other than `main`, each followed by an empty line.
pub open spec fn c_functions(
    sigs: Seq<(Seq<char>, Seq<SLayout>)>,
    fs: Seq<SFunction>,
    data: Seq<(Seq<char>, Seq<u8>)>,
    out: Seq<char>,
) -> Outcome<(Seq<(Seq<char>, Seq<u8>)>, Seq<char>)>
    decreases fs.len(),
{
    if fs.len() == 0 {
        Outcome::Done((data, out))
    } else if fs[0].name == "main"@ {
        c_functions(sigs, fs.drop_first(), data, out)
    } else {
        match e_function(sigs, fs[0].name, fs[0].body, data, out) {
            Outcome::Fault => Outcome::Fault,
            Outcome::Fail(m) => Outcome::Fail(m),
            Outcome::Done((d, o)) => c_functions(sigs, fs.drop_first(), d, o + seq!['\n']),
        }
    }
}

/// The methods of one impl under their mangled names.
pub open spec fn c_methods(
    sigs: Seq<(Seq<char>, Seq<SLayout>)>,
    impl_name: Seq<char>,
    ms: Seq<SFunction>,
    data: Seq<(Seq<char>, Seq<u8>)>,
    out: Seq<char>,
) -> Outcome<(Seq<(Seq<char>, Seq<u8>)>, Seq<char>)>
    decreases ms.len(),
{
    if ms.len() == 0 {
        Outcome::Done((data, out))
    } else {
        match e_function(sigs, mangle(impl_name, ms[0].name), ms[0].body, data, out) {
            Outcome::Fault => Outcome::Fault,
            Outcome::Fail(m) => Outcome::Fail(m),
            Outcome::Done((d, o)) => c_methods(sigs, impl_name, ms.drop_first(), d, o + seq!['\n']),
        }
    }
}

pub open spec fn c_impls(
    sigs: Seq<(Seq<char>, Seq<SLayout>)>,
    is: Seq<SImplDef>,
    data: Seq<(Seq<char>, Seq<u8>)>,
    out: Seq<char>,
) -> Outcome<(Seq<(Seq<char>, Seq<u8>)>, Seq<char>)>
    decreases is.len(),
{
    if is.len() == 0 {
        Outcome::Done((data, out))
    } else {
        match c_methods(sigs, is[0].name, is[0].methods, data, out) {
            Outcome::Fault => Outcome::Fault,
            Outcome::Fail(m) => Outcome::Fail(m),
            Outcome::Done((d, o)) => c_impls(sigs, is.drop_first(), d, o),
        }
    }
}

/// The first function named `main`.
pub open spec fn find_main(fs: Seq<SFunction>) -> Option<SFunction>
    decreases fs.len(),
{
    if fs.len() == 0 {
        None
    } else if fs[0].name == "main"@ {
        Some(fs[0])
    } else {
        find_main(fs.drop_first())
    }
}

/// The `DATA` lines of the interned strings.
pub open spec fn data_section(d: Seq<(Seq<char>, Seq<u8>)>) -> Seq<char>
    decreases d.len(),
{
    if d.len() == 0 {
        seq![]
    } else {
        data_section(d.drop_last()) + data_line(d.last().0, d.last().1)
    }
}

/// The assembly text of a program, before optimization, and the data items
/// after it, starting from the data items `data`.
pub open spec fn compile_text(p: SProgram, data: Seq<(Seq<char>, Seq<u8>)>) -> Outcome<
    (Seq<(Seq<char>, Seq<u8>)>, Seq<char>),
> {
    let sigs = signatures(p);
    match c_functions(sigs, p.functions, data, seq![]) {
        Outcome::Fault => Outcome::Fault,
        Outcome::Fail(m) => Outcome::Fail(m),
        Outcome::Done((d1, o1)) => match c_impls(sigs, p.impls, d1, o1) {
            Outcome::Fault => Outcome::Fault,
            Outcome::Fail(m) => Outcome::Fail(m),
            Outcome::Done((d2, o2)) => match c_main(sigs, p.functions, d2, o2) {
                Outcome::Fault => Outcome::Fault,
                Outcome::Fail(m) => Outcome::Fail(m),
                Outcome::Done((d3, o3)) => Outcome::Done((d3, data_section(d3) + seq!['\n'] + o3)),
            },
        },
    }
}

/// The first function named `main`, last.
pub open spec fn c_main(
    sigs: Seq<(Seq<char>, Seq<SLayout>)>,
    fs: Seq<SFunction>,
    data: Seq<(Seq<char>, Seq<u8>)>,
    out: Seq<char>,
) -> Outcome<(Seq<(Seq<char>, Seq<u8>)>, Seq<char>)> {
    match find_main(fs) {
        Some(f) => e_function(sigs, f.name, f.body, data, out),
        None => Outcome::Done((data, out)),
    }
}

/// `Compiler::compile`: the data items after it and the assembly text
/// optimized, an error message, or a fault.
pub open spec fn spec_compile(p: SProgram, data: Seq<(Seq<char>, Seq<u8>)>) -> Outcome<
    (Seq<(Seq<char>, Seq<u8>)>, Seq<char>),
> {
    match compile_text(p, data) {
        Outcome::Fault => Outcome::Fault,
        Outcome::Fail(m) => Outcome::Fail(m),
        Outcome::Done((d, t)) => match spec_optimize(t) {
            Some(o) => Outcome::Done((d, o)),
            None => Outcome::Fault,
        },
    }
}

// ---------------------------------------------------------------------------
// The executable compiler
// ---------------------------------------------------------------------------
/// Where a parameter lives.
#[derive(Debug)]
pub struct ParamLayout {
    pub name: String,
    pub kind: ParamKind,
    pub reg: u8,
}

pub open spec fn view_layout(l: ParamLayout) -> SLayout {
    SLayout { name: l.name@, kind: l.kind, reg: l.reg }
}

pub open spec fn view_layouts(ls: Seq<ParamLayout>) -> Seq<SLayout> {
    ls.map_values(|l: ParamLayout| view_layout(l))
}

/// A string in the data section.
pub struct DataItem {
    pub name: Vec<char>,
    pub bytes: Vec<u8>,
}

pub open spec fn view_data(d: Seq<DataItem>) -> Seq<(Seq<char>, Seq<u8>)> {
    d.map_values(|x: DataItem| (x.name@, x.bytes@))
}

/// A loop being compiled: its label, the label after it, and the register of
/// its value.
pub struct LoopContext {
    pub label: Option<Vec<char>>,
    pub end_label: Vec<char>,
    pub result_reg: u8,
}

pub open spec fn view_loop(l: LoopContext) -> SLoopCtx {
    SLoopCtx {
        label: match l.label {
            Some(x) => Some(x@),
            None => None,
        },
        end_label: l.end_label@,
        result_reg: l.result_reg,
    }
}

/// Registers and labels of the function being compiled.
pub struct FnContext {
    zero_reg: u8,
    saved_reg: u8,
    next_reg: u8,
    free_list: Vec<u8>,
    temp_regs: Vec<bool>,
    vars: Vec<(Vec<char>, u8)>,
    param_meta: Vec<(Vec<char>, ParamLayout)>,
    loop_stack: Vec<LoopContext>,
    label_counter: usize,
}

pub open spec fn view_vars(v: Seq<(Vec<char>, u8)>) -> Seq<(Seq<char>, u8)> {
    v.map_values(|e: (Vec<char>, u8)| (e.0@, e.1))
}

pub open spec fn view_param_meta(v: Seq<(Vec<char>, ParamLayout)>) -> Seq<(Seq<char>, SLayout)> {
    v.map_values(|e: (Vec<char>, ParamLayout)| (e.0@, view_layout(e.1)))
}

impl FnContext {
    pub closed spec fn view(&self) -> SCtx {
        SCtx {
            next_reg: self.next_reg,
            free_list: self.free_list@,
            temps: Set::new(|r: u8| self.temp_regs@[r as int]),
            vars: view_vars(self.vars@),
            params: view_param_meta(self.param_meta@),
            loops: self.loop_stack@.map_values(|l: LoopContext| view_loop(l)),
            label_counter: self.label_counter as int,
        }
    }

    /// Register 255 is the zero register and 254 the saved-variable
    /// pointer; the free list never holds either of them.
    pub closed spec fn wf(&self) -> bool {
        &&& self.zero_reg == 255
        &&& self.saved_reg == 254
        &&& self.temp_regs@.len() == 256
        &&& forall|i: int| 0 <= i < self.free_list@.len() ==> #[trigger] self.free_list@[i] < 254
    }

    /// The context of a function whose parameters sit in `layouts`; `None`
    /// where registers run out (see `ctx_new`).
    fn new(layouts: &Vec<ParamLayout>) -> (r: Option<FnContext>)
        ensures
            match r {
                Some(c) => c.wf() && ctx_new(view_layouts(layouts@)) == Some(c.view()),
                None => ctx_new(view_layouts(layouts@)) is None,
            },
    {
        let mut temp_regs: Vec<bool> = Vec::new();
        while temp_regs.len() < 256
            invariant
                temp_regs@.len() <= 256,
                forall|k: int| 0 <= k < temp_regs@.len() ==> !#[trigger] temp_regs@[k],
            decreases 256 - temp_regs@.len(),
        {
            temp_regs.push(false);
        }
        let mut c = FnContext {
            zero_reg: 255,
            saved_reg: 254,
            next_reg: 0,
            free_list: Vec::new(),
            temp_regs,
            vars: Vec::new(),
            param_meta: Vec::new(),
            loop_stack: Vec::new(),
            label_counter: 0,
        };
        proof {
            assert(c.view().temps =~= Set::<u8>::empty());
            assert(c.view().vars =~= seq![]);
            assert(c.view().params =~= seq![]);
            assert(c.view().loops =~= seq![]);
            assert(c.view() == empty_ctx());
        }
        let ghost ls = view_layouts(layouts@);
        let mut max_reg: u8 = 0;
        let mut i: usize = 0;
        while i < layouts.len()
            invariant
                c.wf(),
                i <= layouts@.len(),
                ls == view_layouts(layouts@),
                c.view().next_reg == 0,
                c.view().free_list == Seq::<u8>::empty(),
                c.view().loops == Seq::<SLoopCtx>::empty(),
                c.view().label_counter == 0,
                ctx_new(ls) == ctx_new_from(ls, i as int, c.view(), max_reg),
            decreases layouts@.len() - i,
        {
            let l = &layouts[i];
            let extra: u8 = match l.kind {
                ParamKind::StaticStr => 1,
                ParamKind::Value => 0,
            };
            if l.reg > 255 - extra {
                return None;
            }
            let top = l.reg + extra;
            let name = str_to_chars(l.name.as_str());
            let ghost c0 = c.view();
            c.put_var(name.as_slice(), l.reg);
            let copy = ParamLayout { name: l.name.clone(), kind: l.kind, reg: l.reg };
            c.put_param(name.as_slice(), copy);
            proof {
                assert(ls[i as int] == view_layout(*l));
                assert(c.view() == SCtx {
                    vars: assoc_put(c0.vars, ls[i as int].name, ls[i as int].reg),
                    params: assoc_put(c0.params, ls[i as int].name, ls[i as int]),
                    ..c0
                });
            }
            if max_reg < top {
                max_reg = top;
            }
            i = i + 1;
        }
        let next = if max_reg == 255 {
            255
        } else {
            max_reg + 1
        };
        if next >= 254 {
            return None;
        }
        c.next_reg = next;
        proof {
            assert(c.view().temps == old_temps(c));
        }
        Some(c)
    }

    /// `HashMap::insert` on the variables.
    fn put_var(&mut self, name: &[char], reg: u8)
        requires
            old(self).wf(),
        ensures
            final(self).wf(),
            final(self).view() == (SCtx {
                vars: assoc_put(old(self).view().vars, name@, reg),
                ..old(self).view()
            }),
    {
        let ghost v = view_vars(self.vars@);
        proof {
            lemma_key_index_keys(view_keys(self.vars@), v, name@);
        }
        match find_key(&self.vars, name) {
            Some(k) => {
                let entry = (copy_text(name), reg);
                self.vars.set(k, entry);
                proof {
                    assert(view_vars(self.vars@) =~= v.update(k as int, (name@, reg)));
                }
            },
            None => {
                let entry = (copy_text(name), reg);
                self.vars.push(entry);
                proof {
                    assert(view_vars(self.vars@) =~= v.push((name@, reg)));
                }
            },
        }
        proof {
            assert(self.view().temps =~= old(self).view().temps);
        }
    }

    /// `HashMap::insert` on the parameters.
    fn put_param(&mut self, name: &[char], layout: ParamLayout)
        requires
            old(self).wf(),
        ensures
            final(self).wf(),
            final(self).view() == (SCtx {
                params: assoc_put(old(self).view().params, name@, view_layout(layout)),
                ..old(self).view()
            }),
    {
        let ghost v = view_param_meta(self.param_meta@);
        let ghost lv = view_layout(layout);
        proof {
            lemma_key_index_keys(view_keys(self.param_meta@), v, name@);
        }
        match find_key(&self.param_meta, name) {
            Some(k) => {
                let entry = (copy_text(name), layout);
                self.param_meta.set(k, entry);
                proof {
                    assert(view_param_meta(self.param_meta@) =~= v.update(k as int, (name@, lv)));
                }
            },
            None => {
                let entry = (copy_text(name), layout);
                self.param_meta.push(entry);
                proof {
                    assert(view_param_meta(self.param_meta@) =~= v.push((name@, lv)));
                }
            },
        }
        proof {
            assert(self.view().temps =~= old(self).view().temps);
        }
    }

    /// A variable's register.
    fn get_var(&self, name: &[char]) -> (r: Option<u8>)
        ensures
            r == assoc_get(self.view().vars, name@),
    {
        proof {
            lemma_key_index_keys(view_keys(self.vars@), self.view().vars, name@);
        }
        match find_key(&self.vars, name) {
            Some(k) => Some(self.vars[k].1),
            None => None,
        }
    }

    /// A parameter's kind and register.
    fn get_param(&self, name: &[char]) -> (r: Option<(ParamKind, u8)>)
        ensures
            match r {
                Some((kind, reg)) => (assoc_get(self.view().params, name@) matches Some(l) && l.kind
                    == kind && l.reg == reg),
                None => assoc_get(self.view().params, name@) is None,
            },
    {
        proof {
            lemma_key_index_keys(view_keys(self.param_meta@), self.view().params, name@);
        }
        match find_key(&self.param_meta, name) {
            Some(k) => Some((self.param_meta[k].1.kind, self.param_meta[k].1.reg)),
            None => None,
        }
    }

    fn alloc_reg(&mut self) -> (r: Option<u8>)
        requires
            old(self).wf(),
        ensures
            final(self).wf(),
            match r {
                Some(x) => alloc_reg(old(self).view()) == Some((x, final(self).view())) && x < 254,
                None => alloc_reg(old(self).view()) is None,
            },
    {
        let ghost c0 = self.view();
        match self.free_list.pop() {
            Some(reg) => {
                proof {
                    assert(self.view() =~= SCtx { free_list: c0.free_list.drop_last(), ..c0 });
                }
                return Some(reg);
            },
            None => {},
        }
        let reg = self.next_reg;
        if reg == self.zero_reg || reg == self.saved_reg {
            return None;
        }
        if reg >= 254 {
            return None;
        }
        self.next_reg = reg + 1;
        proof {
            assert(self.view() =~= SCtx { next_reg: (reg + 1) as u8, ..c0 });
        }
        Some(reg)
    }

    fn alloc_temp(&mut self) -> (r: Option<u8>)
        requires
            old(self).wf(),
        ensures
            final(self).wf(),
            match r {
                Some(x) => alloc_temp(old(self).view()) == Some((x, final(self).view())),
                None => alloc_temp(old(self).view()) is None,
            },
    {
        let reg = match self.alloc_reg() {
            Some(x) => x,
            None => return None,
        };
        let ghost c1 = self.view();
        self.temp_regs.set(reg as usize, true);
        proof {
            assert(self.view().temps =~= c1.temps.insert(reg));
            assert(self.view() =~= SCtx { temps: c1.temps.insert(reg), ..c1 });
        }
        Some(reg)
    }

    fn alloc_var(&mut self) -> (r: Option<u8>)
        requires
            old(self).wf(),
        ensures
            final(self).wf(),
            match r {
                Some(x) => alloc_var(old(self).view()) == Some((x, final(self).view())),
                None => alloc_var(old(self).view()) is None,
            },
    {
        let reg = match self.alloc_reg() {
            Some(x) => x,
            None => return None,
        };
        let ghost c1 = self.view();
        self.temp_regs.set(reg as usize, false);
        proof {
            assert(self.view().temps =~= c1.temps.remove(reg));
            assert(self.view() =~= SCtx { temps: c1.temps.remove(reg), ..c1 });
        }
        Some(reg)
    }

    fn is_temp(&self, reg: u8) -> (r: bool)
        requires
            self.wf(),
        ensures
            r == self.view().temps.contains(reg),
    {
        self.temp_regs[reg as usize]
    }

    fn free_temp(&mut self, reg: u8)
        requires
            old(self).wf(),
        ensures
            final(self).wf(),
            final(self).view() == free_temp(old(self).view(), reg),
    {
        if reg == self.zero_reg || reg == self.saved_reg {
            return;
        }
        let ghost c0 = self.view();
        if self.temp_regs[reg as usize] {
            self.temp_regs.set(reg as usize, false);
            self.free_list.push(reg);
            proof {
                assert(self.view().temps =~= c0.temps.remove(reg));
                assert(self.view() =~= SCtx { temps: c0.temps.remove(reg), free_list: c0.free_list.push(reg), ..c0 });
            }
        }
    }

    /// `if ctx.is_temp(reg) { ctx.free_temp(reg) }`.
    fn release(&mut self, reg: u8)
        requires
            old(self).wf(),
        ensures
            final(self).wf(),
            final(self).view() == release(old(self).view(), reg),
    {
        if self.is_temp(reg) {
            self.free_temp(reg);
        }
    }

    /// `PREFIX_<counter>`, and the counter stepped.
    fn fresh_label(&mut self, prefix: &[char]) -> (r: Option<Vec<char>>)
        requires
            old(self).wf(),
        ensures
            final(self).wf(),
            match r {
                Some(l) => fresh_label(old(self).view(), prefix@) == Some((l@, final(self).view())),
                None => fresh_label(old(self).view(), prefix@) is None,
            },
    {
        if self.label_counter == usize::MAX {
            return None;
        }
        let mut label = copy_text(prefix);
        label.push('_');
        push_dec(&mut label, self.label_counter as u64);
        let ghost c0 = self.view();
        self.label_counter = self.label_counter + 1;
        proof {
            assert(self.view() =~= SCtx { label_counter: c0.label_counter + 1, ..c0 });
            assert(label@ =~= prefix@ + seq!['_'] + dec_nat(c0.label_counter as nat));
        }
        Some(label)
    }

    fn push_loop(&mut self, l: LoopContext)
        requires
            old(self).wf(),
        ensures
            final(self).wf(),
            final(self).view() == (SCtx {
                loops: old(self).view().loops.push(view_loop(l)),
                ..old(self).view()
            }),
    {
        let ghost c0 = self.view();
        self.loop_stack.push(l);
        proof {
            assert(self.view().loops =~= c0.loops.push(view_loop(l)));
            assert(self.view().temps =~= c0.temps);
        }
    }

    fn pop_loop(&mut self)
        requires
            old(self).wf(),
        ensures
            final(self).wf(),
            final(self).view() == (SCtx { loops: pop_last(old(self).view().loops), ..old(self).view() }),
    {
        let ghost c0 = self.view();
        let _ = self.loop_stack.pop();
        proof {
            assert(self.view().loops =~= if c0.loops.len() > 0 {
                c0.loops.drop_last()
            } else {
                c0.loops
            });
            assert(self.view().temps =~= c0.temps);
        }
    }

    /// The innermost enclosing loop (with `label` where one is given): its
    /// end label and result register.
    fn find_loop(&self, label: &Option<String>) -> (r: Option<(Vec<char>, u8)>)
        ensures
            match r {
                Some((end, reg)) => (find_loop(self.view().loops, opt_view(label)) matches Some(t)
                    && t.end_label == end@ && t.result_reg == reg),
                None => find_loop(self.view().loops, opt_view(label)) is None,
            },
    {
        let ghost loops = self.view().loops;
        let ghost want: Option<Seq<char>> = opt_view(label);
        let want_chars: Option<Vec<char>> = match label {
            Some(l) => Some(str_to_chars(l.as_str())),
            None => None,
        };
        let mut k = self.loop_stack.len();
        assert(loops.subrange(0, k as int) =~= loops);
        while k > 0
            invariant
                k <= self.loop_stack@.len(),
                loops == self.view().loops,
                loops.len() == self.loop_stack@.len(),
                want == opt_view(label),
                want == match want_chars {
                    Some(w) => Some(w@),
                    None => None::<Seq<char>>,
                },
                find_loop(loops, want) == find_loop(loops.subrange(0, k as int), want),
            decreases k,
        {
            let l = &self.loop_stack[k - 1];
            proof {
                assert(loops.subrange(0, k as int).drop_last() =~= loops.subrange(0, k - 1));
                assert(loops.subrange(0, k as int).last() == view_loop(*l));
            }
            let hit = match &want_chars {
                None => true,
                Some(w) => match &l.label {
                    Some(x) => chars_eq(x.as_slice(), w.as_slice()),
                    None => false,
                },
            };
            if hit {
                proof {
                    assert(want == opt_view(label));
                    assert(find_loop(loops.subrange(0, k as int), want) == Some(view_loop(*l)));
                }
                return Some((copy_text(l.end_label.as_slice()), l.result_reg));
            }
            k = k - 1;
        }
        None
    }
}

pub open spec fn opt_view(o: &Option<String>) -> Option<Seq<char>> {
    match o {
        Some(l) => Some(l@),
        None => None,
    }
}

/// The temporaries of a context.
pub open spec fn old_temps(c: FnContext) -> Set<u8> {
    c.view().temps
}

/// The index of `name` in an association list.
fn find_key<V>(m: &Vec<(Vec<char>, V)>, name: &[char]) -> (r: Option<usize>)
    ensures
        match r {
            Some(k) => k < m@.len() && key_index(view_keys(m@), name@) == k,
            None => key_index(view_keys(m@), name@) == -1,
        },
{
    let ghost keys = view_keys(m@);
    let mut k = m.len();
    assert(keys.subrange(0, k as int) =~= keys);
    while k > 0
        invariant
            k <= m@.len(),
            keys == view_keys(m@),
            key_index(keys, name@) == key_index(keys.subrange(0, k as int), name@),
        decreases k,
    {
        proof {
            assert(keys.subrange(0, k as int).drop_last() =~= keys.subrange(0, k - 1));
        }
        if chars_eq(m[k - 1].0.as_slice(), name) {
            return Some(k - 1);
        }
        k = k - 1;
    }
    None
}

/// The index of a key depends on the keys alone.
pub proof fn lemma_key_index_keys<V, W>(a: Seq<(Seq<char>, V)>, b: Seq<(Seq<char>, W)>, k: Seq<char>)
    requires
        a.len() == b.len(),
        forall|i: int| 0 <= i < a.len() ==> #[trigger] a[i].0 == b[i].0,
    ensures
        key_index(a, k) == key_index(b, k),
        -1 <= key_index(a, k) < a.len(),
    decreases a.len(),
{
    if a.len() > 0 {
        lemma_key_index_keys(a.drop_last(), b.drop_last(), k);
    }
}

/// The keys of an association list.
pub open spec fn view_keys<V>(m: Seq<(Vec<char>, V)>) -> Seq<(Seq<char>, V)> {
    m.map_values(|e: (Vec<char>, V)| (e.0@, e.1))
}

fn copy_text(t: &[char]) -> (r: Vec<char>)
    ensures
        r@ == t@,
{
    let r = crate::text::slice_vec(t, 0, t.len());
    assert(t@.subrange(0, t@.len() as int) =~= t@);
    r
}

/// Appends the decimal digits of `n`.
pub(crate) fn push_dec(out: &mut Vec<char>, n: u64)
    ensures
        final(out)@ == old(out)@ + dec_nat(n as nat),
    decreases n,
{
    if n >= 10 {
        push_dec(out, n / 10);
    }
    let d = (n % 10) as u32;
    let c = char_of_digit(d);
    out.push(c);
    proof {
        if n >= 10 {
            assert(dec_nat(n as nat) == dec_nat((n / 10) as nat).push(digit((n % 10) as int)));
        }
    }
}

fn char_of_digit(d: u32) -> (r: char)
    requires
        d < 10,
    ensures
        r == digit(d as int),
{
    let b: u8 = (48 + d) as u8;
    let c = crate::text::char_from_ascii(b);
    c
}

/// Appends the decimal text of `v`, `-` first for a negative value.
fn push_dec_i64(out: &mut Vec<char>, v: i64)
    ensures
        final(out)@ == old(out)@ + dec_int(v as int),
{
    if v < 0 {
        out.push('-');
        let m: u64 = if v == i64::MIN {
            9223372036854775808u64
        } else {
            (-v) as u64
        };
        push_dec(out, m);
        proof {
            assert(old(out)@.push('-') + dec_nat(m as nat) =~= old(out)@ + (seq!['-'] + dec_nat(m as nat)));
        }
    } else {
        push_dec(out, v as u64);
    }
}


/// What a step of the compiler gives.
pub enum Emitted<T> {
    Done(T),
    Fail(String),
    Fault,
}

/// Signatures: each function's name and parameter layouts.
pub open spec fn view_sigs(s: Seq<(Vec<char>, Vec<ParamLayout>)>) -> Seq<(Seq<char>, Seq<SLayout>)> {
    s.map_values(|e: (Vec<char>, Vec<ParamLayout>)| (e.0@, view_layouts(e.1@)))
}

/// The data, the context and the text of a function being compiled.
pub struct EmitState {
    pub data: Vec<DataItem>,
    pub ctx: FnContext,
    pub out: Vec<char>,
}

impl EmitState {
    pub closed spec fn cs(&self) -> CState {
        CState { data: view_data(self.data@), ctx: self.ctx.view(), out: self.out@ }
    }

    pub closed spec fn wf(&self) -> bool {
        self.ctx.wf()
    }

    fn put_str(&mut self, s: &str)
        requires
            old(self).wf(),
        ensures
            final(self).wf(),
            final(self).cs() == put(old(self).cs(), s@),
    {
        append_str(&mut self.out, s);
    }

    fn put_chars(&mut self, t: &[char])
        requires
            old(self).wf(),
        ensures
            final(self).wf(),
            final(self).cs() == put(old(self).cs(), t@),
    {
        append_chars(&mut self.out, t);
    }

    fn put_char(&mut self, c: char)
        requires
            old(self).wf(),
        ensures
            final(self).wf(),
            final(self).cs() == put(old(self).cs(), seq![c]),
    {
        self.out.push(c);
        assert(self.out@ =~= old(self).out@ + seq![c]);
    }

    fn put_reg(&mut self, r: u8)
        requires
            old(self).wf(),
        ensures
            final(self).wf(),
            final(self).cs() == put(old(self).cs(), rtxt(r)),
    {
        self.out.push('r');
        push_dec(&mut self.out, r as u64);
        assert(self.out@ =~= old(self).out@ + rtxt(r));
    }

    fn put_u64(&mut self, n: u64)
        requires
            old(self).wf(),
        ensures
            final(self).wf(),
            final(self).cs() == put(old(self).cs(), dec_nat(n as nat)),
    {
        push_dec(&mut self.out, n);
    }

    /// `    OP rA rB\n`.
    fn op_rr(&mut self, op: &str, a: u8, b: u8)
        requires
            old(self).wf(),
        ensures
            final(self).wf(),
            final(self).cs() == put(old(self).cs(), op_rr(op@, a, b)),
    {
        let ghost o = self.out@;
        self.put_str("    ");
        self.put_str(op);
        self.put_char(' ');
        self.put_reg(a);
        self.put_char(' ');
        self.put_reg(b);
        self.put_char('\n');
        assert(self.out@ =~= o + op_rr(op@, a, b));
    }

    /// `    OP rA rB 0\n`.
    fn op_rr0(&mut self, op: &str, a: u8, b: u8)
        requires
            old(self).wf(),
        ensures
            final(self).wf(),
            final(self).cs() == put(old(self).cs(), op_rr0(op@, a, b)),
    {
        let ghost o = self.out@;
        self.put_str("    ");
        self.put_str(op);
        self.put_char(' ');
        self.put_reg(a);
        self.put_char(' ');
        self.put_reg(b);
        self.put_char(' ');
        self.put_char('0');
        self.put_char('\n');
        assert(self.out@ =~= o + op_rr0(op@, a, b));
    }

    /// `    LOAD_U64_IMMEDIATE rA <t>\n`.
    fn load_imm(&mut self, a: u8, t: &[char])
        requires
            old(self).wf(),
        ensures
            final(self).wf(),
            final(self).cs() == put(old(self).cs(), load_imm(a, t@)),
    {
        let ghost o = self.out@;
        self.put_str("    ");
        self.put_str("LOAD_U64_IMMEDIATE ");
        self.put_reg(a);
        self.put_char(' ');
        self.put_chars(t);
        self.put_char('\n');
        assert(self.out@ =~= o + load_imm(a, t@));
    }

    fn load_imm_u64(&mut self, a: u8, n: u64)
        requires
            old(self).wf(),
        ensures
            final(self).wf(),
            final(self).cs() == put(old(self).cs(), load_imm(a, dec_nat(n as nat))),
    {
        let mut t: Vec<char> = Vec::new();
        push_dec(&mut t, n);
        assert(t@ =~= dec_nat(n as nat));
        self.load_imm(a, t.as_slice());
    }

    fn load_imm_i64(&mut self, a: u8, v: i64)
        requires
            old(self).wf(),
        ensures
            final(self).wf(),
            final(self).cs() == put(old(self).cs(), load_imm(a, dec_int(v as int))),
    {
        let mut t: Vec<char> = Vec::new();
        push_dec_i64(&mut t, v);
        assert(t@ =~= dec_int(v as int));
        self.load_imm(a, t.as_slice());
    }

    /// `    OP r255 rA rB LABEL\n`.
    fn cond_jump(&mut self, op: &str, a: u8, b: u8, label: &[char])
        requires
            old(self).wf(),
        ensures
            final(self).wf(),
            final(self).cs() == put(old(self).cs(), cond_jump(op@, a, b, label@)),
    {
        let ghost o = self.out@;
        self.put_str("    ");
        self.put_str(op);
        self.put_str(" r255 ");
        self.put_reg(a);
        self.put_char(' ');
        self.put_reg(b);
        self.put_char(' ');
        self.put_chars(label);
        self.put_char('\n');
        assert(self.out@ =~= o + cond_jump(op@, a, b, label@));
    }

    /// `    JUMP r255 LABEL\n`.
    fn jump(&mut self, label: &[char])
        requires
            old(self).wf(),
        ensures
            final(self).wf(),
            final(self).cs() == put(old(self).cs(), jump(label@)),
    {
        let ghost o = self.out@;
        self.put_str("    ");
        self.put_str("JUMP r255 ");
        self.put_chars(label);
        self.put_char('\n');
        assert(self.out@ =~= o + jump(label@));
    }

    /// `LABEL:\n`.
    fn label(&mut self, label: &[char])
        requires
            old(self).wf(),
        ensures
            final(self).wf(),
            final(self).cs() == put(old(self).cs(), label_line(label@)),
    {
        let ghost o = self.out@;
        self.put_chars(label);
        self.put_char(':');
        self.put_char('\n');
        assert(self.out@ =~= o + label_line(label@));
    }

    /// `    OP rA rB <n>\n`.
    fn mem_line(&mut self, op: &str, a: u8, b: u8, n: u64)
        requires
            old(self).wf(),
        ensures
            final(self).wf(),
            final(self).cs() == put(old(self).cs(), mem_line(op@, a, b, n as nat)),
    {
        let ghost o = self.out@;
        self.put_str("    ");
        self.put_str(op);
        self.put_char(' ');
        self.put_reg(a);
        self.put_char(' ');
        self.put_reg(b);
        self.put_char(' ');
        self.put_u64(n);
        self.put_char('\n');
        assert(self.out@ =~= o + mem_line(op@, a, b, n as nat));
    }

    /// `    <text>\n`.
    fn ins_chars(&mut self, t: &[char])
        requires
            old(self).wf(),
        ensures
            final(self).wf(),
            final(self).cs() == put(old(self).cs(), ins(t@)),
    {
        let ghost o = self.out@;
        self.put_str("    ");
        self.put_chars(t);
        self.put_char('\n');
        assert(self.out@ =~= o + ins(t@));
    }

    fn release(&mut self, r: u8)
        requires
            old(self).wf(),
        ensures
            final(self).wf(),
            final(self).cs() == release_st(old(self).cs(), r),
    {
        self.ctx.release(r);
    }

    fn alloc_temp(&mut self) -> (r: Option<u8>)
        requires
            old(self).wf(),
        ensures
            final(self).wf(),
            match r {
                Some(x) => alloc_temp(old(self).cs().ctx) == Some((x, final(self).cs().ctx))
                    && final(self).cs() == with_ctx(old(self).cs(), final(self).cs().ctx),
                None => alloc_temp(old(self).cs().ctx) is None,
            },
    {
        self.ctx.alloc_temp()
    }

    fn fresh_label(&mut self, prefix: &[char]) -> (r: Option<Vec<char>>)
        requires
            old(self).wf(),
        ensures
            final(self).wf(),
            final(self).cs() == with_ctx(old(self).cs(), final(self).cs().ctx),
            match r {
                Some(l) => fresh_label(old(self).cs().ctx, prefix@) == Some((l@, final(self).cs().ctx)),
                None => fresh_label(old(self).cs().ctx, prefix@) is None,
            },
    {
        self.ctx.fresh_label(prefix)
    }

    /// `intern_data`: the name of the data item holding `bytes`.
    fn intern(&mut self, bytes: &[u8]) -> (r: Vec<char>)
        requires
            old(self).wf(),
        ensures
            final(self).wf(),
            (r@, final(self).cs()) == intern(old(self).cs(), bytes@),
    {
        let ghost d = view_data(self.data@);
        let mut k: usize = 0;
        while k < self.data.len()
            invariant
                k <= self.data@.len(),
                self.wf(),
                self.cs() == old(self).cs(),
                d == view_data(self.data@),
                forall|j: int| 0 <= j < k ==> #[trigger] d[j].1 != bytes@,
            decreases self.data@.len() - k,
        {
            if crate::lang::parser::bytes_eq(self.data[k].bytes.as_slice(), bytes) {
                proof {
                    lemma_data_index_first(d, bytes@, k as int);
                }
                return copy_text(self.data[k].name.as_slice());
            }
            k = k + 1;
        }
        proof {
            lemma_data_index_none(d, bytes@);
        }
        let mut name: Vec<char> = Vec::new();
        append_str(&mut name, "STR");
        push_dec(&mut name, self.data.len() as u64);
        let item = DataItem { name: copy_text(name.as_slice()), bytes: crate::lang::parser::copy_bytes(bytes) };
        self.data.push(item);
        proof {
            assert(view_data(self.data@) =~= d.push((name@, bytes@)));
        }
        name
    }
}

pub proof fn lemma_data_index_first(d: Seq<(Seq<char>, Seq<u8>)>, b: Seq<u8>, k: int)
    requires
        0 <= k < d.len(),
        d[k].1 == b,
        forall|j: int| 0 <= j < k ==> #[trigger] d[j].1 != b,
    ensures
        data_index(d, b) == k,
    decreases d.len(),
{
    if k < d.len() - 1 {
        lemma_data_index_first(d.drop_last(), b, k);
    } else {
        lemma_data_index_none(d.drop_last(), b);
    }
}

pub proof fn lemma_data_index_none(d: Seq<(Seq<char>, Seq<u8>)>, b: Seq<u8>)
    requires
        forall|j: int| 0 <= j < d.len() ==> #[trigger] d[j].1 != b,
    ensures
        data_index(d, b) == -1,
    decreases d.len(),
{
    if d.len() > 0 {
        lemma_data_index_none(d.drop_last(), b);
    }
}

/// `a < b` by chars, as `String`'s order compares them.
fn str_lt_exec(a: &[char], b: &[char]) -> (r: bool)
    ensures
        r == str_lt(a@, b@),
{
    let mut i: usize = 0;
    assert(a@.subrange(0, a@.len() as int) =~= a@);
    assert(b@.subrange(0, b@.len() as int) =~= b@);
    while i < a.len() && i < b.len() && a[i] == b[i]
        invariant
            i <= a@.len(),
            i <= b@.len(),
            str_lt(a@, b@) == str_lt(a@.subrange(i as int, a@.len() as int), b@.subrange(i as int, b@.len() as int)),
        decreases a@.len() - i,
    {
        proof {
            assert(a@.subrange(i as int, a@.len() as int).drop_first() =~= a@.subrange(i + 1, a@.len() as int));
            assert(b@.subrange(i as int, b@.len() as int).drop_first() =~= b@.subrange(i + 1, b@.len() as int));
        }
        i = i + 1;
    }
    if i >= a.len() {
        i < b.len()
    } else if i >= b.len() {
        false
    } else {
        (a[i] as u32) < (b[i] as u32)
    }
}

impl FnContext {
    /// The variables sorted by name.
    fn sorted_vars(&self) -> (r: Vec<(Vec<char>, u8)>)
        ensures
            view_vars(r@) == sort_vars(self.view().vars),
    {
        let ghost vs = self.view().vars;
        let mut r: Vec<(Vec<char>, u8)> = Vec::new();
        let mut i: usize = 0;
        proof {
            assert(view_vars(r@) =~= sort_vars(vs.take(0)));
        }
        while i < self.vars.len()
            invariant
                i <= self.vars@.len(),
                vs == view_vars(self.vars@),
                view_vars(r@) == sort_vars(vs.take(i as int)),
            decreases self.vars@.len() - i,
        {
            let x = (copy_text(self.vars[i].0.as_slice()), self.vars[i].1);
            let ghost xv = (x.0@, x.1);
            let ghost rv = view_vars(r@);
            let mut j: usize = 0;
            assert(rv.subrange(0, rv.len() as int) =~= rv);
            assert(rv.subrange(0, 0) + insert_sorted(rv, xv) =~= insert_sorted(rv, xv));
            while j < r.len() && !str_lt_exec(x.0.as_slice(), r[j].0.as_slice())
                invariant
                    j <= r@.len(),
                    rv == view_vars(r@),
                    xv == (x.0@, x.1),
                    insert_sorted(rv, xv) == rv.subrange(0, j as int) + insert_sorted(
                        rv.subrange(j as int, rv.len() as int),
                        xv,
                    ),
                decreases r@.len() - j,
            {
                proof {
                    let tail = rv.subrange(j as int, rv.len() as int);
                    assert(tail.drop_first() =~= rv.subrange(j + 1, rv.len() as int));
                    assert(rv.subrange(0, j + 1) =~= rv.subrange(0, j as int) + seq![tail[0]]);
                    assert(rv.subrange(0, j as int) + (seq![tail[0]] + insert_sorted(
                        tail.drop_first(),
                        xv,
                    )) =~= rv.subrange(0, j + 1) + insert_sorted(tail.drop_first(), xv));
                }
                j = j + 1;
            }
            proof {
                let tail = rv.subrange(j as int, rv.len() as int);
                assert(insert_sorted(tail, xv) =~= seq![xv] + tail);
                assert(vs.take(i + 1).drop_last() =~= vs.take(i as int));
                assert(vs.take(i + 1).last() == xv);
            }
            r.insert(j, x);
            proof {
                assert(view_vars(r@) =~= rv.subrange(0, j as int) + (seq![xv] + rv.subrange(
                    j as int,
                    rv.len() as int,
                )));
            }
            i = i + 1;
        }
        proof {
            assert(vs.take(i as int) =~= vs);
        }
        r
    }
}

/// A `String` of `lit` followed by `t`.
fn message(lit: &str, t: &[char]) -> (r: String)
    ensures
        r@ == lit@ + t@,
{
    let mut v = str_to_chars(lit);
    append_chars(&mut v, t);
    chars_to_string(v.as_slice())
}
















/// The exec result against the specification's.
pub open spec fn agrees<T>(r: Emitted<T>, spec: Outcome<(T, CState)>, after: CState) -> bool {
    match r {
        Emitted::Done(x) => spec == Outcome::Done((x, after)),
        Emitted::Fail(m) => spec == Outcome::<(T, CState)>::Fail(m@),
        Emitted::Fault => spec is Fault,
    }
}

pub open spec fn agrees_st(r: Emitted<()>, spec: Outcome<CState>, after: CState) -> bool {
    match r {
        Emitted::Done(_) => spec == Outcome::Done(after),
        Emitted::Fail(m) => spec == Outcome::<CState>::Fail(m@),
        Emitted::Fault => spec is Fault,
    }
}

fn one_char(c: char) -> (r: Vec<char>)
    ensures
        r@ == seq![c],
{
    let mut v: Vec<char> = Vec::new();
    v.push(c);
    assert(v@ =~= seq![c]);
    v
}

/// The number of arguments an intrinsic takes; `None` for a name that is
/// no intrinsic.
pub open spec fn intrinsic_arity(name: Seq<char>) -> Option<nat> {
    if name == "alloc"@ || name == "dealloc"@ {
        Some(1)
    } else if name == "store_u8"@ || name == "store_u64"@ {
        Some(3)
    } else if name == "load_u8"@ || name == "load_u64"@ || name == "stdout_buf"@ {
        Some(2)
    } else {
        None
    }
}

/// The compiler of a program to assembly text.
pub struct Compiler {
    program: Program,
    data: Vec<DataItem>,
}

impl Compiler {
    fn emit_expr(st: &mut EmitState, sigs: &Vec<(Vec<char>, Vec<ParamLayout>)>, expr: &Expr) -> (r: Emitted<u8>)
        requires
            old(st).wf(),
        ensures
            final(st).wf(),
            agrees(r, e_expr(view_sigs(sigs@), view_expr(expr), old(st).cs()), final(st).cs()),
        decreases expr, 20int,
    {
        match expr {
            Expr::Ident(name) => {
                let n = str_to_chars(name.as_str());
                match st.ctx.get_var(n.as_slice()) {
                    Some(r) => Emitted::Done(r),
                    None => Emitted::Fail(message("unknown variable: ", n.as_slice())),
                }
            },
            Expr::StrLiteral(_) => Emitted::Fail(
                crate::text::string_of("string literal is only supported in calls/stdout"),
            ),
            Expr::IntLiteral(v) => match st.alloc_temp() {
                None => Emitted::Fault,
                Some(r) => {
                    st.load_imm_i64(r, *v);
                    Emitted::Done(r)
                },
            },
            Expr::BoolLiteral(b) => match st.alloc_temp() {
                None => Emitted::Fault,
                Some(r) => {
                    let t = one_char(if *b { '1' } else { '0' });
                    st.load_imm(r, t.as_slice());
                    Emitted::Done(r)
                },
            },
            Expr::Call { name, args } => Self::emit_call_expr(st, sigs, name, args),
            Expr::Binary { .. } => Self::emit_binary_expr(st, sigs, expr),
            Expr::Loop(_) => Self::emit_loop_expr(st, sigs, expr),
            Expr::Match(_) => Self::emit_match_expr(st, sigs, expr),
            Expr::Block(b) => Self::emit_block(st, sigs, b),
        }
    }

    /// `ADD_U64_IMMEDIATE rD v` or `SUB_U64_IMMEDIATE rD v`.
    fn imm_line(st: &mut EmitState, add: bool, dst: u8, v: i64)
        requires
            old(st).wf(),
        ensures
            final(st).wf(),
            final(st).cs() == put(
                old(st).cs(),
                ins(
                    (if add {
                        "ADD_U64_IMMEDIATE "@
                    } else {
                        "SUB_U64_IMMEDIATE "@
                    }) + rtxt(dst) + seq![' '] + dec_int(v as int),
                ),
            ),
    {
        let ghost o = st.out@;
        st.put_str("    ");
        if add {
            st.put_str("ADD_U64_IMMEDIATE ");
        } else {
            st.put_str("SUB_U64_IMMEDIATE ");
        }
        st.put_reg(dst);
        st.put_char(' ');
        push_dec_i64(&mut st.out, v);
        st.put_char('\n');
        proof {
            let op = if add {
                "ADD_U64_IMMEDIATE "@
            } else {
                "SUB_U64_IMMEDIATE "@
            };
            assert(st.out@ =~= o + ins(op + rtxt(dst) + seq![' '] + dec_int(v as int)));
        }
    }

    fn emit_binary_expr(st: &mut EmitState, sigs: &Vec<(Vec<char>, Vec<ParamLayout>)>, expr: &Expr) -> (r: Emitted<u8>)
        requires
            old(st).wf(),
        ensures
            final(st).wf(),
            agrees(r, e_binary(view_sigs(sigs@), view_expr(expr), old(st).cs()), final(st).cs()),
        decreases expr, 19int,
    {
        match expr {
            Expr::Binary { left, op, right } => {
                let lreg = match Self::emit_expr(st, sigs, left) {
                    Emitted::Done(v) => v,
                    Emitted::Fail(m) => return Emitted::Fail(m),
                    Emitted::Fault => return Emitted::Fault,
                };
                let dst = match st.alloc_temp() {
                    Some(v) => v,
                    None => return Emitted::Fault,
                };
                st.op_rr("MOV", dst, lreg);
                let is_cmp_op = match op {
                    BinOp::Eq | BinOp::Ne | BinOp::Lt | BinOp::Gt | BinOp::Le | BinOp::Ge => true,
                    _ => false,
                };
                let lit: Option<i64> = match &**right {
                    Expr::IntLiteral(v) => Some(*v),
                    _ => None,
                };
                if is_cmp_op {
                    let (tp, ep, jop): (&str, &str, &str) = match op {
                        BinOp::Eq => ("EQ_TRUE", "EQ_END", "EQ_JUMP"),
                        BinOp::Ne => ("NE_TRUE", "NE_END", "NEQ_JUMP"),
                        BinOp::Lt => ("LT_TRUE", "LT_END", "LT_U64_JUMP"),
                        BinOp::Gt => ("GT_TRUE", "GT_END", "GT_U64_JUMP"),
                        BinOp::Le => ("LE_TRUE", "LE_END", "LTE_U64_JUMP"),
                        _ => ("GE_TRUE", "GE_END", "GTE_U64_JUMP"),
                    };
                    let t = match st.ctx.fresh_label(str_to_chars(tp).as_slice()) {
                        Some(v) => v,
                        None => return Emitted::Fault,
                    };
                    let en = match st.ctx.fresh_label(str_to_chars(ep).as_slice()) {
                        Some(v) => v,
                        None => return Emitted::Fault,
                    };
                    let zero = one_char('0');
                    st.load_imm(dst, zero.as_slice());
                    let rr = match Self::emit_expr(st, sigs, right) {
                        Emitted::Done(v) => v,
                        Emitted::Fail(m) => return Emitted::Fail(m),
                        Emitted::Fault => return Emitted::Fault,
                    };
                    st.cond_jump(jop, lreg, rr, t.as_slice());
                    st.jump(en.as_slice());
                    st.label(t.as_slice());
                    let one = one_char('1');
                    st.load_imm(dst, one.as_slice());
                    st.label(en.as_slice());
                    st.release(rr);
                } else if (matches!(op, BinOp::Add) || matches!(op, BinOp::Sub)) && lit.is_some() {
                    let v = lit.unwrap();
                    Self::imm_line(st, matches!(op, BinOp::Add), dst, v);
                } else {
                    let rr = match Self::emit_expr(st, sigs, right) {
                        Emitted::Done(v) => v,
                        Emitted::Fail(m) => return Emitted::Fail(m),
                        Emitted::Fault => return Emitted::Fault,
                    };
                    let name: &str = match op {
                        BinOp::Add => "ADD_U64",
                        BinOp::Sub => "SUB_U64",
                        BinOp::Mul => "MUL_U64",
                        BinOp::Div => "DIV_U64",
                        _ => "MOD_I64",
                    };
                    st.op_rr(name, dst, rr);
                    st.release(rr);
                }
                st.release(lreg);
                Emitted::Done(dst)
            },
            _ => Emitted::Fault,
        }
    }

    #[verifier::loop_isolation(false)]
    fn emit_block(st: &mut EmitState, sigs: &Vec<(Vec<char>, Vec<ParamLayout>)>, block: &Block) -> (r: Emitted<u8>)
        requires
            old(st).wf(),
        ensures
            final(st).wf(),
            agrees(r, e_block(view_sigs(sigs@), view_block(block), old(st).cs()), final(st).cs()),
        decreases block, 20int,
    {
        let ghost sg = view_sigs(sigs@);
        let ghost ss = view_stmts(block.stmts@);
        let ghost st0 = st.cs();
        proof {
            lemma_view_stmts_index(block.stmts@);
            assert(ss.subrange(0, ss.len() as int) =~= ss);
        }
        let n = block.stmts.len();
        let mut i: usize = 0;
        while i < n
            invariant
                st.wf(),
                i <= n == block.stmts@.len() == ss.len(),
                e_stmts(sg, ss, st0) == e_stmts(sg, ss.subrange(i as int, n as int), st.cs()),
            decreases n - i,
        {
            proof {
                assert(ss.subrange(i as int, n as int)[0] == view_stmt(&block.stmts@[i as int]));
                assert(ss.subrange(i as int, n as int).subrange(1, n - i) =~= ss.subrange(
                    i + 1,
                    n as int,
                ));
            }
            match Self::emit_stmt(st, sigs, &block.stmts[i]) {
                Emitted::Done(_) => {},
                Emitted::Fail(m) => return Emitted::Fail(m),
                Emitted::Fault => return Emitted::Fault,
            }
            i = i + 1;
        }
        proof {
            assert(ss.subrange(n as int, n as int) =~= Seq::<SStmt>::empty());
        }
        match &block.tail {
            Some(t) => Self::emit_expr(st, sigs, t),
            None => match st.alloc_temp() {
                None => Emitted::Fault,
                Some(r) => {
                    let zero = one_char('0');
                    st.load_imm(r, zero.as_slice());
                    Emitted::Done(r)
                },
            },
        }
    }

    fn emit_stmt(st: &mut EmitState, sigs: &Vec<(Vec<char>, Vec<ParamLayout>)>, stmt: &Stmt) -> (r: Emitted<()>)
        requires
            old(st).wf(),
        ensures
            final(st).wf(),
            agrees_st(r, e_stmt(view_sigs(sigs@), view_stmt(stmt), old(st).cs()), final(st).cs()),
        decreases stmt, 20int,
    {
        match stmt {
            Stmt::Call { name, args } => Self::emit_call(st, sigs, name, args),
            Stmt::ReactorStdout { arg } => Self::emit_stdout(st, arg),
            Stmt::Let { name, ty: _, expr } => {
                let reg = match Self::emit_expr(st, sigs, expr) {
                    Emitted::Done(v) => v,
                    Emitted::Fail(m) => return Emitted::Fail(m),
                    Emitted::Fault => return Emitted::Fault,
                };
                let dst = match st.ctx.alloc_var() {
                    Some(v) => v,
                    None => return Emitted::Fault,
                };
                let n = str_to_chars(name.as_str());
                st.ctx.put_var(n.as_slice(), dst);
                if dst != reg {
                    st.op_rr("MOV", dst, reg);
                }
                st.release(reg);
                Emitted::Done(())
            },
            Stmt::Assign { name, expr } => {
                let reg = match Self::emit_expr(st, sigs, expr) {
                    Emitted::Done(v) => v,
                    Emitted::Fail(m) => return Emitted::Fail(m),
                    Emitted::Fault => return Emitted::Fault,
                };
                let n = str_to_chars(name.as_str());
                let dst = match st.ctx.get_var(n.as_slice()) {
                    Some(v) => v,
                    None => return Emitted::Fail(message("unknown variable: ", n.as_slice())),
                };
                if dst != reg {
                    st.op_rr("MOV", dst, reg);
                }
                st.release(reg);
                Emitted::Done(())
            },
            Stmt::Break { label, expr } => Self::emit_break(st, sigs, label, expr),
            Stmt::ExprStmt(expr) => {
                let reg = match Self::emit_expr(st, sigs, expr) {
                    Emitted::Done(v) => v,
                    Emitted::Fail(m) => return Emitted::Fail(m),
                    Emitted::Fault => return Emitted::Fault,
                };
                st.release(reg);
                Emitted::Done(())
            },
        }
    }

    fn emit_break(st: &mut EmitState, sigs: &Vec<(Vec<char>, Vec<ParamLayout>)>, label: &Option<String>, expr: &Expr) -> (r: Emitted<()>)
        requires
            old(st).wf(),
        ensures
            final(st).wf(),
            agrees_st(r, e_break(view_sigs(sigs@), opt_view(label), view_expr(expr), old(st).cs()), final(st).cs()),
        decreases expr, 21int,
    {
        let (end_label, result_reg) = match st.ctx.find_loop(label) {
            Some(x) => x,
            None => return Emitted::Fail(crate::text::string_of("break used outside of loop")),
        };
        let v = match Self::emit_expr(st, sigs, expr) {
            Emitted::Done(v) => v,
            Emitted::Fail(m) => return Emitted::Fail(m),
            Emitted::Fault => return Emitted::Fault,
        };
        if result_reg != v {
            st.op_rr("MOV", result_reg, v);
        }
        st.release(v);
        st.jump(end_label.as_slice());
        Emitted::Done(())
    }

    fn emit_loop_expr(st: &mut EmitState, sigs: &Vec<(Vec<char>, Vec<ParamLayout>)>, expr: &Expr) -> (r: Emitted<u8>)
        requires
            old(st).wf(),
        ensures
            final(st).wf(),
            agrees(r, e_loop(view_sigs(sigs@), view_expr(expr), old(st).cs()), final(st).cs()),
        decreases expr, 19int,
    {
        match expr {
            Expr::Loop(l) => {
                let result = match st.ctx.alloc_var() {
                    Some(v) => v,
                    None => return Emitted::Fault,
                };
                let start = match st.ctx.fresh_label(str_to_chars("LOOP").as_slice()) {
                    Some(v) => v,
                    None => return Emitted::Fault,
                };
                let end = match st.ctx.fresh_label(str_to_chars("END").as_slice()) {
                    Some(v) => v,
                    None => return Emitted::Fault,
                };
                let label = match &l.label {
                    Some(x) => Some(str_to_chars(x.as_str())),
                    None => None,
                };
                let lc = LoopContext { label, end_label: copy_text(end.as_slice()), result_reg: result };
                st.ctx.push_loop(lc);
                let zero = one_char('0');
                st.load_imm(result, zero.as_slice());
                st.label(start.as_slice());
                match Self::emit_block(st, sigs, &l.body) {
                    Emitted::Done(_) => {},
                    Emitted::Fail(m) => return Emitted::Fail(m),
                    Emitted::Fault => return Emitted::Fault,
                }
                st.ctx.pop_loop();
                st.jump(start.as_slice());
                st.label(end.as_slice());
                Emitted::Done(result)
            },
            _ => Emitted::Fault,
        }
    }

    /// One arm's body: its value into `result`, then a jump to `end`.
    fn emit_arm_result(st: &mut EmitState, sigs: &Vec<(Vec<char>, Vec<ParamLayout>)>, body: &Block, result: u8, end: &[char]) -> (r: Emitted<()>)
        requires
            old(st).wf(),
        ensures
            final(st).wf(),
            agrees_st(r, e_arm_result(view_sigs(sigs@), view_block(body), result, end@, old(st).cs()), final(st).cs()),
        decreases body, 21int,
    {
        let v = match Self::emit_block(st, sigs, body) {
            Emitted::Done(v) => v,
            Emitted::Fail(m) => return Emitted::Fail(m),
            Emitted::Fault => return Emitted::Fault,
        };
        if v != result {
            st.op_rr("MOV", result, v);
        }
        st.release(v);
        st.jump(end);
        Emitted::Done(())
    }

    /// The jump of one arm to its label; `false` where a register cannot be
    /// had.
    fn emit_match_jump(st: &mut EmitState, scrut: u8, pattern: &MatchPattern, label: &[char]) -> (ok: bool)
        requires
            old(st).wf(),
        ensures
            final(st).wf(),
            match e_match_jump(old(st).cs(), scrut, *pattern, label@) {
                Some(s) => ok && final(st).cs() == s,
                None => !ok,
            },
    {
        let (jop, v): (&str, i64) = match pattern {
            MatchPattern::LessThan(v) => ("LT_U64_JUMP", *v),
            MatchPattern::LessEqual(v) => ("LTE_U64_JUMP", *v),
            MatchPattern::Equal(v) => ("EQ_JUMP", *v),
            MatchPattern::NotEqual(v) => ("NEQ_JUMP", *v),
            MatchPattern::GreaterThan(v) => ("GT_U64_JUMP", *v),
            MatchPattern::GreaterEqual(v) => ("GTE_U64_JUMP", *v),
            MatchPattern::Wildcard => return true,
        };
        let lit = match st.alloc_temp() {
            Some(x) => x,
            None => return false,
        };
        st.load_imm_i64(lit, v);
        st.cond_jump(jop, scrut, lit, label);
        st.ctx.free_temp(lit);
        true
    }

    /// The labels of the arms that are not `_`, and the last `_` arm.
    fn arm_labels(st: &mut EmitState, arms: &Vec<MatchArm>) -> (r: Option<(Vec<(usize, Vec<char>)>, Option<usize>)>)
        requires
            old(st).wf(),
        ensures
            final(st).wf(),
            final(st).cs() == with_ctx(old(st).cs(), final(st).cs().ctx),
            match r {
                Some((labels, default)) => {
                    &&& arm_labels(view_arms(arms@), 0, old(st).cs().ctx, seq![], None) == Some(
                        (view_labels(labels@), opt_index(default), final(st).cs().ctx),
                    )
                    &&& forall|j: int| 0 <= j < labels@.len() ==> #[trigger] labels@[j].0 < arms@.len()
                    &&& default matches Some(d) ==> d < arms@.len()
                },
                None => arm_labels(view_arms(arms@), 0, old(st).cs().ctx, seq![], None) is None,
            },
    {
        let ghost av = view_arms(arms@);
        let ghost c0 = st.cs().ctx;
        let ghost s0 = st.cs();
        proof {
            lemma_view_arms_index(arms@);
        }
        let mut labels: Vec<(usize, Vec<char>)> = Vec::new();
        let mut default: Option<usize> = None;
        let mut idx: usize = 0;
        proof {
            assert(view_labels(labels@) =~= seq![]);
        }
        while idx < arms.len()
            invariant
                st.wf(),
                s0 == old(st).cs(),
                c0 == old(st).cs().ctx,
                idx <= arms@.len() == av.len(),
                av == view_arms(arms@),
                forall|i: int| 0 <= i < arms@.len() ==> #[trigger] av[i] == view_arm(&arms@[i]),
                st.cs() == with_ctx(s0, st.cs().ctx),
                arm_labels(av, 0, c0, seq![], None) == arm_labels(
                    av,
                    idx as int,
                    st.cs().ctx,
                    view_labels(labels@),
                    opt_index(default),
                ),
                forall|j: int| 0 <= j < labels@.len() ==> #[trigger] labels@[j].0 < arms@.len(),
                default matches Some(d) ==> d < arms@.len(),
            decreases arms@.len() - idx,
        {
            if matches!(arms[idx].pattern, MatchPattern::Wildcard) {
                default = Some(idx);
            } else {
                let mut prefix = str_to_chars("MATCH_ARM_");
                push_dec(&mut prefix, idx as u64);
                let ghost ck = st.cs().ctx;
                let l = match st.fresh_label(prefix.as_slice()) {
                    Some(x) => x,
                    None => {
                        proof {
                            assert(prefix@ == "MATCH_ARM_"@ + dec_nat(idx as nat));
                            assert(arm_labels(av, idx as int, ck, view_labels(labels@), opt_index(default)) is None);
                        }
                        return None;
                    },
                };
                proof {
                    assert(view_labels(labels@.push((idx, l))) =~= view_labels(labels@).push(
                        (idx as int, l@),
                    ));
                }
                labels.push((idx, l));
            }
            idx = idx + 1;
        }
        Some((labels, default))
    }

    /// The jumps of the labelled arms; `false` where a register cannot be had.
    fn emit_match_jumps(st: &mut EmitState, scrut: u8, arms: &Vec<MatchArm>, labels: &Vec<(usize, Vec<char>)>) -> (ok: bool)
        requires
            old(st).wf(),
            forall|j: int| 0 <= j < labels@.len() ==> #[trigger] labels@[j].0 < arms@.len(),
        ensures
            final(st).wf(),
            match e_match_jumps(old(st).cs(), scrut, view_arms(arms@), view_labels(labels@), 0) {
                Some(s) => ok && final(st).cs() == s,
                None => !ok,
            },
    {
        let ghost lv = view_labels(labels@);
        let ghost av = view_arms(arms@);
        let ghost s0 = st.cs();
        proof {
            lemma_view_arms_index(arms@);
        }
        let mut k: usize = 0;
        while k < labels.len()
            invariant
                st.wf(),
                s0 == old(st).cs(),
                k <= labels@.len() == lv.len(),
                lv == view_labels(labels@),
                av == view_arms(arms@),
                av.len() == arms@.len(),
                forall|i: int| 0 <= i < arms@.len() ==> #[trigger] av[i] == view_arm(&arms@[i]),
                forall|j: int| 0 <= j < labels@.len() ==> #[trigger] labels@[j].0 < arms@.len(),
                e_match_jumps(s0, scrut, av, lv, 0) == e_match_jumps(st.cs(), scrut, av, lv, k as int),
            decreases labels@.len() - k,
        {
            let ai = labels[k].0;
            let ghost sk = st.cs();
            proof {
                assert(lv[k as int] == (ai as int, labels@[k as int].1@));
                assert(av[ai as int].pattern == arms@[ai as int].pattern);
            }
            if !Self::emit_match_jump(st, scrut, &arms[ai].pattern, labels[k].1.as_slice()) {
                proof {
                    assert(e_match_jumps(sk, scrut, av, lv, k as int) is None);
                }
                return false;
            }
            proof {
                assert(e_match_jumps(sk, scrut, av, lv, k as int) == e_match_jumps(st.cs(), scrut, av, lv, k + 1));
            }
            k = k + 1;
        }
        true
    }

    /// The labelled arms' bodies, each after its label.
    fn emit_arm_bodies(
        st: &mut EmitState,
        sigs: &Vec<(Vec<char>, Vec<ParamLayout>)>,
        arms: &Vec<MatchArm>,
        labels: &Vec<(usize, Vec<char>)>,
        result: u8,
        end: &[char],
    ) -> (r: Emitted<()>)
        requires
            old(st).wf(),
            forall|j: int| 0 <= j < labels@.len() ==> #[trigger] labels@[j].0 < arms@.len(),
        ensures
            final(st).wf(),
            agrees_st(r, e_arm_bodies(view_sigs(sigs@), view_arms(arms@), view_labels(labels@), 0, result, end@, old(st).cs()), final(st).cs()),
        decreases arms, 22int,
    {
        let ghost lv = view_labels(labels@);
        let ghost av = view_arms(arms@);
        let ghost sg = view_sigs(sigs@);
        let ghost s0 = st.cs();
        proof {
            lemma_view_arms_index(arms@);
        }
        let mut k: usize = 0;
        while k < labels.len()
            invariant
                st.wf(),
                s0 == old(st).cs(),
                k <= labels@.len() == lv.len(),
                lv == view_labels(labels@),
                av == view_arms(arms@),
                sg == view_sigs(sigs@),
                av.len() == arms@.len(),
                forall|i: int| 0 <= i < arms@.len() ==> #[trigger] av[i] == view_arm(&arms@[i]),
                forall|j: int| 0 <= j < labels@.len() ==> #[trigger] labels@[j].0 < arms@.len(),
                e_arm_bodies(sg, av, lv, 0, result, end@, s0) == e_arm_bodies(sg, av, lv, k as int, result, end@, st.cs()),
            decreases labels@.len() - k,
        {
            let ai = labels[k].0;
            let ghost sk = st.cs();
            proof {
                assert(lv[k as int] == (ai as int, labels@[k as int].1@));
                assert(av[ai as int].body == view_block(&arms@[ai as int].body));
            }
            st.label(labels[k].1.as_slice());
            let ghost sl = st.cs();
            let rr = Self::emit_arm_result(st, sigs, &arms[ai].body, result, end);
            proof {
                assert(sl == put(sk, label_line(lv[k as int].1)));
                assert(e_arm_bodies(sg, av, lv, k as int, result, end@, sk) == match e_arm_result(sg, av[ai as int].body, result, end@, sl) {
                    Outcome::Fault => Outcome::Fault,
                    Outcome::Fail(m) => Outcome::Fail(m),
                    Outcome::Done(st1) => e_arm_bodies(sg, av, lv, k + 1, result, end@, st1),
                });
            }
            match rr {
                Emitted::Done(_) => {},
                Emitted::Fail(m) => return Emitted::Fail(m),
                Emitted::Fault => return Emitted::Fault,
            }
            k = k + 1;
        }
        Emitted::Done(())
    }

    fn emit_match_expr(st: &mut EmitState, sigs: &Vec<(Vec<char>, Vec<ParamLayout>)>, expr: &Expr) -> (r: Emitted<u8>)
        requires
            old(st).wf(),
        ensures
            final(st).wf(),
            agrees(r, e_match(view_sigs(sigs@), view_expr(expr), old(st).cs()), final(st).cs()),
        decreases expr, 19int,
    {
        match expr {
            Expr::Match(m) => {
                proof {
                    lemma_view_arms_index(m.arms@);
                }
                let scrut = match Self::emit_expr(st, sigs, &m.scrutinee) {
                    Emitted::Done(v) => v,
                    Emitted::Fail(m) => return Emitted::Fail(m),
                    Emitted::Fault => return Emitted::Fault,
                };
                let result = match st.alloc_temp() {
                    Some(v) => v,
                    None => return Emitted::Fault,
                };
                let end = match st.ctx.fresh_label(str_to_chars("MATCH_END").as_slice()) {
                    Some(v) => v,
                    None => return Emitted::Fault,
                };
                let lab = match Self::arm_labels(st, &m.arms) {
                    Some(v) => v,
                    None => return Emitted::Fault,
                };
                let (labels, default) = lab;
                if default.is_some() && labels.len() == 1 {
                    let d = default.unwrap();
                    let ai = labels[0].0;
                    let al = copy_text(labels[0].1.as_slice());
                    if !Self::emit_match_jump(st, scrut, &m.arms[ai].pattern, al.as_slice()) {
                        return Emitted::Fault;
                    }
                    match Self::emit_arm_result(st, sigs, &m.arms[d].body, result, end.as_slice()) {
                        Emitted::Done(_) => {},
                        Emitted::Fail(m) => return Emitted::Fail(m),
                        Emitted::Fault => return Emitted::Fault,
                    }
                    st.label(al.as_slice());
                    match Self::emit_arm_result(st, sigs, &m.arms[ai].body, result, end.as_slice()) {
                        Emitted::Done(_) => {},
                        Emitted::Fail(m) => return Emitted::Fail(m),
                        Emitted::Fault => return Emitted::Fault,
                    }
                    st.label(end.as_slice());
                    st.release(scrut);
                    return Emitted::Done(result);
                }
                if !Self::emit_match_jumps(st, scrut, &m.arms, &labels) {
                    return Emitted::Fault;
                }
                let d = match default {
                    Some(d) => d,
                    None => return Emitted::Fail(crate::text::string_of("match requires a '_' default arm")),
                };
                match Self::emit_arm_result(st, sigs, &m.arms[d].body, result, end.as_slice()) {
                    Emitted::Done(_) => {},
                    Emitted::Fail(m) => return Emitted::Fail(m),
                    Emitted::Fault => return Emitted::Fault,
                }
                match Self::emit_arm_bodies(st, sigs, &m.arms, &labels, result, end.as_slice()) {
                    Emitted::Done(_) => {},
                    Emitted::Fail(m) => return Emitted::Fail(m),
                    Emitted::Fault => return Emitted::Fault,
                }
                st.label(end.as_slice());
                st.release(scrut);
                Emitted::Done(result)
            },
            _ => Emitted::Fault,
        }
    }

    fn emit_call_expr(st: &mut EmitState, sigs: &Vec<(Vec<char>, Vec<ParamLayout>)>, name: &String, args: &Vec<Expr>) -> (r: Emitted<u8>)
        requires
            old(st).wf(),
        ensures
            final(st).wf(),
            agrees(r, e_call_expr(view_sigs(sigs@), name@, view_exprs(args@), old(st).cs()), final(st).cs()),
        decreases args, 16int,
    {
        let intr = match Self::emit_intrinsic(st, sigs, name, args) {
            Emitted::Done(v) => v,
            Emitted::Fail(m) => return Emitted::Fail(m),
            Emitted::Fault => return Emitted::Fault,
        };
        if let Some(reg) = intr {
            return Emitted::Done(reg);
        }
        match Self::emit_call(st, sigs, name, args) {
            Emitted::Done(_) => {},
            Emitted::Fail(m) => return Emitted::Fail(m),
            Emitted::Fault => return Emitted::Fault,
        }
        let reg = match st.alloc_temp() {
            Some(v) => v,
            None => return Emitted::Fault,
        };
        let zero = one_char('0');
        st.load_imm(reg, zero.as_slice());
        Emitted::Done(reg)
    }

    /// The store (or load) of each saved variable at `8 * i` past register
    /// 254.
    fn save_lines(st: &mut EmitState, op: &str, saved: &Vec<(Vec<char>, u8)>)
        requires
            old(st).wf(),
            saved@.len() * 8 <= u64::MAX,
        ensures
            final(st).wf(),
            final(st).cs() == put(old(st).cs(), save_lines(op@, view_vars(saved@), saved@.len() as int)),
    {
        let ghost sv = view_vars(saved@);
        let ghost st0 = st.cs();
        let mut k: usize = 0;
        while k < saved.len()
            invariant
                st.wf(),
                k <= saved@.len(),
                saved@.len() * 8 <= u64::MAX,
                sv == view_vars(saved@),
                st.cs() == put(st0, save_lines(op@, sv, k as int)),
            decreases saved@.len() - k,
        {
            let off = (k as u64) * 8;
            st.mem_line(op, 254, saved[k].1, off);
            proof {
                assert(sv[k as int].1 == saved@[k as int].1);
                assert(st0.out + save_lines(op@, sv, k as int) + mem_line(op@, 254, saved@[k as int].1, off as nat)
                    =~= st0.out + save_lines(op@, sv, k + 1));
            }
            k = k + 1;
        }
    }

    /// The stores of the saved variables before a call; `false` where it
    /// faults (see `save_before`).
    fn save_vars(st: &mut EmitState, saved: &Vec<(Vec<char>, u8)>) -> (ok: bool)
        requires
            old(st).wf(),
            view_vars(saved@) == sort_vars(old(st).cs().ctx.vars),
        ensures
            final(st).wf(),
            ok ==> saved@.len() * 8 <= usize::MAX,
            match save_before(old(st).cs()) {
                Some(s) => ok && final(st).cs() == s,
                None => !ok,
            },
    {
        if saved.len() == 0 {
            return true;
        }
        let size_reg = match st.alloc_temp() {
            Some(v) => v,
            None => return false,
        };
        if saved.len() > usize::MAX / 8 {
            proof {
                assert(saved@.len() * 8 > usize::MAX) by (nonlinear_arith)
                    requires
                        saved@.len() > usize::MAX / 8,
                ;
            }
            return false;
        }
        proof {
            assert(saved@.len() * 8 <= usize::MAX) by (nonlinear_arith)
                requires
                    saved@.len() <= usize::MAX / 8,
            ;
        }
        let byte_len = saved.len() * 8;
        st.load_imm_u64(size_reg, byte_len as u64);
        st.op_rr0("ALLOC", size_reg, 254);
        Self::save_lines(st, "STORE_U64", saved);
        st.release(size_reg);
        true
    }

    /// The arguments, each into its parameter's registers.
    #[verifier::loop_isolation(false)]
    fn emit_call_args(st: &mut EmitState, sigs: &Vec<(Vec<char>, Vec<ParamLayout>)>, args: &Vec<Expr>, layouts: &Vec<ParamLayout>) -> (r: Emitted<()>)
        requires
            old(st).wf(),
            args@.len() == layouts@.len(),
        ensures
            final(st).wf(),
            agrees_st(r, e_call_args(view_sigs(sigs@), view_exprs(args@), view_layouts(layouts@), old(st).cs()), final(st).cs()),
        decreases args, 5int,
    {
        let ghost sg = view_sigs(sigs@);
        let ghost av = view_exprs(args@);
        let ghost ls = view_layouts(layouts@);
        let ghost st2 = st.cs();
        proof {
            lemma_view_exprs_index(args@);
            assert(av.subrange(0, av.len() as int) =~= av);
            assert(ls.subrange(0, ls.len() as int) =~= ls);
        }
        let n = args.len();
        let mut i: usize = 0;
        while i < n
            invariant
                st.wf(),
                i <= n == args@.len() == av.len() == layouts@.len() == ls.len(),
                e_call_args(sg, av, ls, st2) == e_call_args(
                    sg,
                    av.subrange(i as int, n as int),
                    ls.subrange(i as int, n as int),
                    st.cs(),
                ),
            decreases n - i,
        {
            let layout = &layouts[i];
            proof {
                assert(av.subrange(i as int, n as int)[0] == view_expr(&args@[i as int]));
                assert(ls.subrange(i as int, n as int)[0] == view_layout(layouts@[i as int]));
                assert(av.subrange(i as int, n as int).subrange(1, n - i) =~= av.subrange(i + 1, n as int));
                assert(ls.subrange(i as int, n as int).subrange(1, n - i) =~= ls.subrange(i + 1, n as int));
            }
            match layout.kind {
                ParamKind::StaticStr => match &args[i] {
                    Expr::StrLiteral(bytes) => {
                        let sym = st.intern(bytes.as_slice());
                        if layout.reg == 255 {
                            return Emitted::Fault;
                        }
                        st.load_imm(layout.reg, sym.as_slice());
                        st.load_imm_u64(layout.reg + 1, bytes.len() as u64);
                    },
                    Expr::Ident(n2) => {
                        let nc = str_to_chars(n2.as_str());
                        let msg = "static str argument must be a string literal or param";
                        let reg = match st.ctx.get_var(nc.as_slice()) {
                            Some(x) => x,
                            None => return Emitted::Fail(crate::text::string_of(msg)),
                        };
                        let (kind, _) = match st.ctx.get_param(nc.as_slice()) {
                            Some(x) => x,
                            None => return Emitted::Fail(crate::text::string_of(msg)),
                        };
                        if !matches!(kind, ParamKind::StaticStr) {
                            return Emitted::Fail(crate::text::string_of(msg));
                        }
                        if layout.reg == 255 || reg == 255 {
                            return Emitted::Fault;
                        }
                        if layout.reg != reg {
                            st.op_rr("MOV", layout.reg, reg);
                            st.op_rr("MOV", layout.reg + 1, reg + 1);
                        }
                    },
                    _ => return Emitted::Fail(
                        crate::text::string_of("static str argument must be a string literal"),
                    ),
                },
                ParamKind::Value => {
                    let reg = match Self::emit_expr(st, sigs, &args[i]) {
                        Emitted::Done(v) => v,
                        Emitted::Fail(m) => return Emitted::Fail(m),
                        Emitted::Fault => return Emitted::Fault,
                    };
                    if layout.reg != reg {
                        st.op_rr("MOV", layout.reg, reg);
                    }
                    st.release(reg);
                },
            }
            i = i + 1;
        }
        proof {
            assert(av.subrange(n as int, n as int) =~= Seq::<SExpr>::empty());
        }
        Emitted::Done(())
    }

    #[verifier::rlimit(60)]
    fn emit_call(st: &mut EmitState, sigs: &Vec<(Vec<char>, Vec<ParamLayout>)>, name: &String, args: &Vec<Expr>) -> (r: Emitted<()>)
        requires
            old(st).wf(),
        ensures
            final(st).wf(),
            agrees_st(r, e_call(view_sigs(sigs@), name@, view_exprs(args@), old(st).cs()), final(st).cs()),
        decreases args, 15int,
    {
        let ghost sg = view_sigs(sigs@);
        let intr = match Self::emit_intrinsic(st, sigs, name, args) {
            Emitted::Done(v) => v,
            Emitted::Fail(m) => return Emitted::Fail(m),
            Emitted::Fault => return Emitted::Fault,
        };
        if intr.is_some() {
            return Emitted::Done(());
        }
        Self::emit_user_call(st, sigs, name, args)
    }

    fn emit_user_call(st: &mut EmitState, sigs: &Vec<(Vec<char>, Vec<ParamLayout>)>, name: &String, args: &Vec<Expr>) -> (r: Emitted<()>)
        requires
            old(st).wf(),
        ensures
            final(st).wf(),
            agrees_st(r, e_user_call(view_sigs(sigs@), name@, view_exprs(args@), old(st).cs()), final(st).cs()),
        decreases args, 14int,
    {
        let ghost sg = view_sigs(sigs@);
        let saved = st.ctx.sorted_vars();
        if !Self::save_vars(st, &saved) {
            return Emitted::Fault;
        }
        Self::emit_call_saved(st, sigs, name, args, &saved)
    }

    #[verifier::rlimit(100)]
    fn emit_call_saved(st: &mut EmitState, sigs: &Vec<(Vec<char>, Vec<ParamLayout>)>, name: &String, args: &Vec<Expr>, saved: &Vec<(Vec<char>, u8)>) -> (r: Emitted<()>)
        requires
            old(st).wf(),
            saved@.len() * 8 <= usize::MAX,
        ensures
            final(st).wf(),
            agrees_st(r, e_call_saved(view_sigs(sigs@), name@, view_exprs(args@), view_vars(saved@), old(st).cs()), final(st).cs()),
        decreases args, 13int,
    {
        proof {
            lemma_view_exprs_index(args@);
        }
        let nchars = str_to_chars(name.as_str());
        let k = match lookup_sig(sigs, nchars.as_slice()) {
            Some(k) => k,
            None => return Emitted::Fail(message("unknown function: ", nchars.as_slice())),
        };
        let layouts = &sigs[k].1;
        if args.len() != layouts.len() {
            return Emitted::Fail(message("argument count mismatch for ", nchars.as_slice()));
        }
        Self::emit_call_known(st, sigs, nchars.as_slice(), args, layouts, saved)
    }

    /// The arguments placed, the call, and the loads of `saved`.
    fn emit_call_known(
        st: &mut EmitState,
        sigs: &Vec<(Vec<char>, Vec<ParamLayout>)>,
        name: &[char],
        args: &Vec<Expr>,
        layouts: &Vec<ParamLayout>,
        saved: &Vec<(Vec<char>, u8)>,
    ) -> (r: Emitted<()>)
        requires
            old(st).wf(),
            args@.len() == layouts@.len(),
            saved@.len() * 8 <= usize::MAX,
        ensures
            final(st).wf(),
            agrees_st(
                r,
                call_tail(e_call_args(view_sigs(sigs@), view_exprs(args@), view_layouts(layouts@), old(st).cs()), name@, view_vars(saved@)),
                final(st).cs(),
            ),
        decreases args, 12int,
    {
        match Self::emit_call_args(st, sigs, args, layouts) {
            Emitted::Done(_) => {},
            Emitted::Fail(m) => return Emitted::Fail(m),
            Emitted::Fault => return Emitted::Fault,
        }
        Self::emit_call_tail(st, name, saved);
        Emitted::Done(())
    }

    /// The call line and the loads of the saved variables.
    fn emit_call_tail(st: &mut EmitState, name: &[char], saved: &Vec<(Vec<char>, u8)>)
        requires
            old(st).wf(),
            saved@.len() * 8 <= usize::MAX,
        ensures
            final(st).wf(),
            final(st).cs() == put(
                put(old(st).cs(), ins("CALL r255 "@ + upper_seq(name@))),
                save_lines("LOAD_U64"@, view_vars(saved@), saved@.len() as int),
            ),
    {
        let upper = upper_chars(name);
        let mut line = str_to_chars("CALL r255 ");
        append_chars(&mut line, upper.as_slice());
        st.ins_chars(line.as_slice());
        if saved.len() > 0 {
            Self::save_lines(st, "LOAD_U64", saved);
        } else {
            proof {
                assert(save_lines("LOAD_U64"@, view_vars(saved@), 0) =~= seq![]);
                assert(st.out@ + seq![] =~= st.out@);
            }
        }
    }

    /// The write of `len` bytes at `ptr` to standard output, and the wait for
    /// it; `false` where registers run out.
    fn emit_stdout_buf(st: &mut EmitState, ptr_reg: u8, len_reg: u8) -> (ok: bool)
        requires
            old(st).wf(),
        ensures
            final(st).wf(),
            match e_stdout_buf(old(st).cs(), ptr_reg, len_reg) {
                Some(s) => ok && final(st).cs() == s,
                None => !ok,
            },
    {
        let rs = match Self::alloc_seven(st) {
            Some(x) => x,
            None => return false,
        };
        Self::stdout_lines(st, &rs, ptr_reg, len_reg);
        Self::release_each(st, &rs);
        true
    }

    /// Seven temporaries.
    fn alloc_seven(st: &mut EmitState) -> (r: Option<Vec<u8>>)
        requires
            old(st).wf(),
        ensures
            final(st).wf(),
            match r {
                Some(rs) => alloc_temps(old(st).cs().ctx, 7) == Some((rs@, final(st).cs().ctx))
                    && final(st).cs() == with_ctx(old(st).cs(), final(st).cs().ctx) && rs@.len() == 7,
                None => alloc_temps(old(st).cs().ctx, 7) is None,
            },
    {
        let mut rs: Vec<u8> = Vec::new();
        let ghost c0 = st.cs().ctx;
        let ghost s0 = st.cs();
        let mut k: usize = 0;
        proof {
            assert(rs@ =~= seq![]);
        }
        while k < 7
            invariant
                st.wf(),
                s0 == old(st).cs(),
                c0 == old(st).cs().ctx,
                k <= 7,
                rs@.len() == k,
                st.cs() == with_ctx(s0, st.cs().ctx),
                alloc_temps(c0, 7) == match alloc_temps(st.cs().ctx, (7 - k) as nat) {
                    None => None,
                    Some((more, c)) => Some((rs@ + more, c)),
                },
            decreases 7 - k,
        {
            let ghost before = st.cs().ctx;
            match st.alloc_temp() {
                Some(r) => {
                    proof {
                        match alloc_temps(st.cs().ctx, (7 - k - 1) as nat) {
                            Some((more, c)) => {
                                assert(rs@.push(r) + more =~= rs@ + (seq![r] + more));
                            },
                            None => {},
                        }
                    }
                    rs.push(r);
                },
                None => {
                    proof {
                        assert((7 - k) as nat > 0);
                        assert(alloc_temps(before, (7 - k) as nat) is None);
                        assert(alloc_temps(c0, 7) is None);
                    }
                    return None;
                },
            }
            k = k + 1;
        }
        proof {
            assert(rs@ + seq![] =~= rs@);
        }
        Some(rs)
    }

    /// See `stdout_lines`.
    #[verifier::rlimit(50)]
    fn stdout_lines(st: &mut EmitState, rs: &Vec<u8>, ptr: u8, len: u8)
        requires
            old(st).wf(),
            rs@.len() == 7,
        ensures
            final(st).wf(),
            final(st).cs() == put(old(st).cs(), stdout_lines(rs@, ptr, len)),
    {
        let mut b: Vec<char> = Vec::new();
        append_str(&mut b, "    ");
        append_str(&mut b, "SET_IO ");
        push_reg(&mut b, rs[0]);
        append_str(&mut b, " STDOUT_WRITE ");
        push_reg(&mut b, ptr);
        b.push(' ');
        push_reg(&mut b, len);
        b.push('\n');
        let ghost b1 = b@;
        append_str(&mut b, "    ");
        append_str(&mut b, "LOAD_U64_IMMEDIATE ");
        push_reg(&mut b, rs[1]);
        b.push(' ');
        append_str(&mut b, "-1");
        b.push('\n');
        let ghost b2 = b@;
        append_str(&mut b, "    ");
        append_str(&mut b, "LOAD_U64_IMMEDIATE ");
        push_reg(&mut b, rs[2]);
        b.push(' ');
        append_str(&mut b, "1");
        b.push('\n');
        let ghost b3 = b@;
        append_str(&mut b, "    ");
        append_str(&mut b, "WAIT_IO ");
        push_reg(&mut b, rs[1]);
        b.push(' ');
        push_reg(&mut b, rs[2]);
        b.push(' ');
        push_reg(&mut b, rs[3]);
        b.push('\n');
        let ghost b4 = b@;
        append_str(&mut b, "    ");
        append_str(&mut b, "GET_AN_IO ");
        push_reg(&mut b, rs[0]);
        b.push(' ');
        push_reg(&mut b, rs[4]);
        b.push(' ');
        push_reg(&mut b, rs[5]);
        b.push(' ');
        push_reg(&mut b, rs[6]);
        b.push('\n');
        proof {
            assert(b1 =~= ins("SET_IO "@ + rtxt(rs@[0]) + " STDOUT_WRITE "@ + rtxt(ptr) + seq![' '] + rtxt(len)));
            assert(b2 =~= b1 + load_imm(rs@[1], "-1"@));
            assert(b3 =~= b2 + load_imm(rs@[2], "1"@));
            assert(b4 =~= b3 + ins("WAIT_IO "@ + rtxt(rs@[1]) + seq![' '] + rtxt(rs@[2]) + seq![' '] + rtxt(rs@[3])));
            assert(b@ =~= b4 + ins("GET_AN_IO "@ + rtxt(rs@[0]) + seq![' '] + rtxt(rs@[4]) + seq![' '] + rtxt(rs@[5]) + seq![' '] + rtxt(rs@[6])));
            assert(b@ =~= stdout_lines(rs@, ptr, len));
        }
        st.put_chars(b.as_slice());
    }

    /// Each register of `rs` released in order.
    fn release_each(st: &mut EmitState, rs: &Vec<u8>)
        requires
            old(st).wf(),
        ensures
            final(st).wf(),
            final(st).cs() == release_all(old(st).cs(), rs@),
    {
        let ghost s0 = st.cs();
        let mut k: usize = 0;
        proof {
            assert(rs@.subrange(0, rs@.len() as int) =~= rs@);
        }
        while k < rs.len()
            invariant
                st.wf(),
                s0 == old(st).cs(),
                k <= rs@.len(),
                release_all(s0, rs@) == release_all(st.cs(), rs@.subrange(k as int, rs@.len() as int)),
            decreases rs@.len() - k,
        {
            proof {
                assert(rs@.subrange(k as int, rs@.len() as int).drop_first() =~= rs@.subrange(
                    k + 1,
                    rs@.len() as int,
                ));
            }
            st.release(rs[k]);
            k = k + 1;
        }
    }

    /// `emit_stdout`.
    fn emit_stdout(st: &mut EmitState, arg: &Expr) -> (r: Emitted<()>)
        requires
            old(st).wf(),
        ensures
            final(st).wf(),
            agrees_st(r, e_stdout(old(st).cs(), view_expr(arg)), final(st).cs()),
    {
        let (ptr_reg, len_reg) = match arg {
            Expr::Ident(name) => {
                let n = str_to_chars(name.as_str());
                let reg = match st.ctx.get_var(n.as_slice()) {
                    Some(x) => x,
                    None => return Emitted::Fail(message("unknown variable: ", n.as_slice())),
                };
                let (kind, _) = match st.ctx.get_param(n.as_slice()) {
                    Some(x) => x,
                    None => return Emitted::Fail(crate::text::string_of("stdout expects static str param")),
                };
                if !matches!(kind, ParamKind::StaticStr) {
                    return Emitted::Fail(crate::text::string_of("stdout expects static str param"));
                }
                if reg == 255 {
                    return Emitted::Fault;
                }
                (reg, reg + 1)
            },
            Expr::StrLiteral(bytes) => {
                let sym = st.intern(bytes.as_slice());
                let p = match st.alloc_temp() {
                    Some(v) => v,
                    None => return Emitted::Fault,
                };
                let l = match st.alloc_temp() {
                    Some(v) => v,
                    None => return Emitted::Fault,
                };
                st.load_imm(p, sym.as_slice());
                st.load_imm_u64(l, bytes.len() as u64);
                (p, l)
            },
            _ => return Emitted::Fail(crate::text::string_of("stdout expects static str argument")),
        };
        let mut rs = match Self::alloc_seven(st) {
            Some(x) => x,
            None => return Emitted::Fault,
        };
        Self::stdout_lines(st, &rs, ptr_reg, len_reg);
        let ghost rs7 = rs@;
        rs.push(ptr_reg);
        rs.push(len_reg);
        assert(rs@ =~= rs7 + seq![ptr_reg, len_reg]);
        Self::release_each(st, &rs);
        Emitted::Done(())
    }

    fn emit_intr_alloc(st: &mut EmitState, sigs: &Vec<(Vec<char>, Vec<ParamLayout>)>, args: &Vec<Expr>) -> (r: Emitted<Option<u8>>)
        requires
            old(st).wf(),
        ensures
            final(st).wf(),
            agrees(r, e_intr_alloc(view_sigs(sigs@), view_exprs(args@), old(st).cs()), final(st).cs()),
            args@.len() != 1 ==> final(st).cs() == old(st).cs(),
        decreases args, 9int,
    {
        proof {
            lemma_view_exprs_index(args@);
        }
        if args.len() != 1 {
            return Emitted::Fail(crate::text::string_of("alloc expects 1 argument"));
        }
        let size = match Self::emit_expr(st, sigs, &args[0]) {
            Emitted::Done(v) => v,
            Emitted::Fail(m) => return Emitted::Fail(m),
            Emitted::Fault => return Emitted::Fault,
        };
        let ptr = match st.alloc_temp() {
            Some(v) => v,
            None => return Emitted::Fault,
        };
        st.op_rr0("ALLOC", size, ptr);
        st.release(size);
        Emitted::Done(Some(ptr))
    }

    fn emit_intr_dealloc(st: &mut EmitState, sigs: &Vec<(Vec<char>, Vec<ParamLayout>)>, args: &Vec<Expr>) -> (r: Emitted<Option<u8>>)
        requires
            old(st).wf(),
        ensures
            final(st).wf(),
            agrees(r, e_intr_dealloc(view_sigs(sigs@), view_exprs(args@), old(st).cs()), final(st).cs()),
            args@.len() != 1 ==> final(st).cs() == old(st).cs(),
        decreases args, 9int,
    {
        proof {
            lemma_view_exprs_index(args@);
        }
        if args.len() != 1 {
            return Emitted::Fail(crate::text::string_of("dealloc expects 1 argument"));
        }
        let p = match Self::emit_expr(st, sigs, &args[0]) {
            Emitted::Done(v) => v,
            Emitted::Fail(m) => return Emitted::Fail(m),
            Emitted::Fault => return Emitted::Fault,
        };
        let mut line = str_to_chars("DEALLOC ");
        push_reg(&mut line, p);
        st.ins_chars(line.as_slice());
        st.release(p);
        Emitted::Done(Some(255u8))
    }

    #[verifier::rlimit(60)]
    fn emit_intr_store(st: &mut EmitState, sigs: &Vec<(Vec<char>, Vec<ParamLayout>)>, name: &[char], op: &str, args: &Vec<Expr>) -> (r: Emitted<Option<u8>>)
        requires
            old(st).wf(),
        ensures
            final(st).wf(),
            agrees(r, e_intr_store(view_sigs(sigs@), name@, op@, view_exprs(args@), old(st).cs()), final(st).cs()),
            args@.len() != 3 ==> final(st).cs() == old(st).cs(),
        decreases args, 9int,
    {
        proof {
            lemma_view_exprs_index(args@);
        }
        if args.len() != 3 {
            return Emitted::Fail(message_after(name, " expects 3 arguments"));
        }
        let ptr = match Self::emit_expr(st, sigs, &args[0]) {
            Emitted::Done(v) => v,
            Emitted::Fail(m) => return Emitted::Fail(m),
            Emitted::Fault => return Emitted::Fault,
        };
        let offset = match Self::emit_expr(st, sigs, &args[1]) {
            Emitted::Done(v) => v,
            Emitted::Fail(m) => return Emitted::Fail(m),
            Emitted::Fault => return Emitted::Fault,
        };
        let value = match Self::emit_expr(st, sigs, &args[2]) {
            Emitted::Done(v) => v,
            Emitted::Fail(m) => return Emitted::Fail(m),
            Emitted::Fault => return Emitted::Fault,
        };
        let tmp = match st.alloc_temp() {
            Some(v) => v,
            None => return Emitted::Fault,
        };
        st.op_rr("MOV", tmp, ptr);
        st.op_rr("ADD_U64", tmp, offset);
        st.op_rr0(op, tmp, value);
        let mut rs: Vec<u8> = Vec::new();
        rs.push(tmp);
        rs.push(ptr);
        rs.push(offset);
        rs.push(value);
        assert(rs@ =~= seq![tmp, ptr, offset, value]);
        Self::release_each(st, &rs);
        Emitted::Done(Some(255u8))
    }

    #[verifier::rlimit(60)]
    fn emit_intr_load(st: &mut EmitState, sigs: &Vec<(Vec<char>, Vec<ParamLayout>)>, name: &[char], op: &str, args: &Vec<Expr>) -> (r: Emitted<Option<u8>>)
        requires
            old(st).wf(),
        ensures
            final(st).wf(),
            agrees(r, e_intr_load(view_sigs(sigs@), name@, op@, view_exprs(args@), old(st).cs()), final(st).cs()),
            args@.len() != 2 ==> final(st).cs() == old(st).cs(),
        decreases args, 9int,
    {
        proof {
            lemma_view_exprs_index(args@);
        }
        if args.len() != 2 {
            return Emitted::Fail(message_after(name, " expects 2 arguments"));
        }
        let ptr = match Self::emit_expr(st, sigs, &args[0]) {
            Emitted::Done(v) => v,
            Emitted::Fail(m) => return Emitted::Fail(m),
            Emitted::Fault => return Emitted::Fault,
        };
        let offset = match Self::emit_expr(st, sigs, &args[1]) {
            Emitted::Done(v) => v,
            Emitted::Fail(m) => return Emitted::Fail(m),
            Emitted::Fault => return Emitted::Fault,
        };
        let tmp = match st.alloc_temp() {
            Some(v) => v,
            None => return Emitted::Fault,
        };
        let result = match st.alloc_temp() {
            Some(v) => v,
            None => return Emitted::Fault,
        };
        st.op_rr("MOV", tmp, ptr);
        st.op_rr("ADD_U64", tmp, offset);
        st.op_rr0(op, tmp, result);
        let mut rs: Vec<u8> = Vec::new();
        rs.push(tmp);
        rs.push(ptr);
        rs.push(offset);
        assert(rs@ =~= seq![tmp, ptr, offset]);
        Self::release_each(st, &rs);
        Emitted::Done(Some(result))
    }

    #[verifier::rlimit(60)]
    fn emit_intr_stdout_buf(st: &mut EmitState, sigs: &Vec<(Vec<char>, Vec<ParamLayout>)>, args: &Vec<Expr>) -> (r: Emitted<Option<u8>>)
        requires
            old(st).wf(),
        ensures
            final(st).wf(),
            agrees(r, e_intr_stdout_buf(view_sigs(sigs@), view_exprs(args@), old(st).cs()), final(st).cs()),
            args@.len() != 2 ==> final(st).cs() == old(st).cs(),
        decreases args, 9int,
    {
        proof {
            lemma_view_exprs_index(args@);
        }
        if args.len() != 2 {
            return Emitted::Fail(crate::text::string_of("stdout_buf expects 2 arguments"));
        }
        let ptr = match Self::emit_expr(st, sigs, &args[0]) {
            Emitted::Done(v) => v,
            Emitted::Fail(m) => return Emitted::Fail(m),
            Emitted::Fault => return Emitted::Fault,
        };
        let len = match Self::emit_expr(st, sigs, &args[1]) {
            Emitted::Done(v) => v,
            Emitted::Fail(m) => return Emitted::Fail(m),
            Emitted::Fault => return Emitted::Fault,
        };
        if !Self::emit_stdout_buf(st, ptr, len) {
            return Emitted::Fault;
        }
        let mut rs: Vec<u8> = Vec::new();
        rs.push(ptr);
        rs.push(len);
        assert(rs@ =~= seq![ptr, len]);
        Self::release_each(st, &rs);
        Emitted::Done(Some(255u8))
    }

    /// `emit_intrinsic`: `alloc`, `dealloc`, `store_u8`, `load_u8`,
    /// `store_u64`, `load_u64`, `stdout_buf`; `None` for any other name.
    #[verifier::rlimit(40)]
    fn emit_intrinsic(st: &mut EmitState, sigs: &Vec<(Vec<char>, Vec<ParamLayout>)>, name: &String, args: &Vec<Expr>) -> (r: Emitted<
        Option<u8>,
    >)
        requires
            old(st).wf(),
        ensures
            final(st).wf(),
            agrees(r, e_intrinsic(view_sigs(sigs@), name@, view_exprs(args@), old(st).cs()), final(st).cs()),
            intrinsic_arity(name@) matches Some(k) && args@.len() != k ==> final(st).cs() == old(st).cs(),
        decreases args, 10int,
    {
        let n = str_to_chars(name.as_str());
        if is_lit(n.as_slice(), "alloc") {
            assert(intrinsic_arity(name@) == Some(1nat));
            Self::emit_intr_alloc(st, sigs, args)
        } else if is_lit(n.as_slice(), "dealloc") {
            assert(intrinsic_arity(name@) == Some(1nat));
            Self::emit_intr_dealloc(st, sigs, args)
        } else if is_lit(n.as_slice(), "store_u8") {
            assert(intrinsic_arity(name@) == Some(3nat));
            Self::emit_intr_store(st, sigs, n.as_slice(), "STORE_U8", args)
        } else if is_lit(n.as_slice(), "load_u8") {
            assert(intrinsic_arity(name@) == Some(2nat)) by {
                reveal_strlit("load_u8");
                reveal_strlit("store_u64");
            }
            Self::emit_intr_load(st, sigs, n.as_slice(), "LOAD_U8", args)
        } else if is_lit(n.as_slice(), "store_u64") {
            assert(intrinsic_arity(name@) == Some(3nat));
            Self::emit_intr_store(st, sigs, n.as_slice(), "STORE_U64", args)
        } else if is_lit(n.as_slice(), "load_u64") {
            assert(intrinsic_arity(name@) == Some(2nat));
            Self::emit_intr_load(st, sigs, n.as_slice(), "LOAD_U64", args)
        } else if is_lit(n.as_slice(), "stdout_buf") {
            assert(intrinsic_arity(name@) == Some(2nat));
            Self::emit_intr_stdout_buf(st, sigs, args)
        } else {
            assert(intrinsic_arity(name@) is None);
            Emitted::Done(None)
        }
    }
}

/// Appends `r<n>`.
fn push_reg(v: &mut Vec<char>, r: u8)
    ensures
        final(v)@ == old(v)@ + rtxt(r),
{
    v.push('r');
    push_dec(v, r as u64);
    assert(final(v)@ =~= old(v)@ + rtxt(r));
}

/// Whether a text is the given literal.
fn is_lit(t: &[char], lit: &str) -> (r: bool)
    ensures
        r == (t@ == lit@),
{
    crate::text::text_is(t, lit)
}

/// A `String` of `t` followed by `lit`.
fn message_after(t: &[char], lit: &str) -> (r: String)
    ensures
        r@ == t@ + lit@,
{
    let mut v = copy_text(t);
    append_str(&mut v, lit);
    chars_to_string(v.as_slice())
}

/// The layouts of the function `name` among `sigs`.
fn lookup_sig(sigs: &Vec<(Vec<char>, Vec<ParamLayout>)>, name: &[char]) -> (r: Option<usize>)
    ensures
        match r {
            Some(k) => k < sigs@.len() && assoc_get(view_sigs(sigs@), name@) == Some(view_layouts(sigs@[k as int].1@)),
            None => assoc_get(view_sigs(sigs@), name@) is None,
        },
{
    proof {
        lemma_key_index_keys(view_keys(sigs@), view_sigs(sigs@), name@);
    }
    find_key(sigs, name)
}

/// The arm labels as the specification numbers them.
pub open spec fn view_labels(v: Seq<(usize, Vec<char>)>) -> Seq<(int, Seq<char>)> {
    v.map_values(|e: (usize, Vec<char>)| (e.0 as int, e.1@))
}

pub open spec fn opt_index(o: Option<usize>) -> Option<int> {
    match o {
        Some(d) => Some(d as int),
        None => None,
    }
}

// ---------------------------------------------------------------------------
// Signatures, functions, and the whole program
// ---------------------------------------------------------------------------
/// `char::to_ascii_lowercase`.
fn lower_char(c: char) -> (r: char)
    ensures
        r == lower(c),
{
    if 'A' <= c && c <= 'Z' {
        let u = (c as u32) + 32;
        proof {
            assert(0x61 <= u <= 0x7A);
        }
        crate::text::char_from_ascii(u as u8)
    } else {
        c
    }
}

/// `eq_ignore_ascii_case`.
fn eq_ignore_case_exec(a: &[char], b: &[char]) -> (r: bool)
    ensures
        r == eq_ignore_case(a@, b@),
{
    if a.len() != b.len() {
        return false;
    }
    let mut i: usize = 0;
    while i < a.len()
        invariant
            i <= a@.len() == b@.len(),
            forall|j: int| 0 <= j < i ==> lower(#[trigger] a@[j]) == lower(b@[j]),
        decreases a@.len() - i,
    {
        if lower_char(a[i]) != lower_char(b[i]) {
            return false;
        }
        i = i + 1;
    }
    true
}

/// How a parameter of type `ty` is passed.
fn param_kind_of(ty: &str) -> (r: ParamKind)
    ensures
        r == param_kind(ty@),
{
    let t = str_to_chars(ty);
    let tt = trim_chars(t.as_slice());
    let target = str_to_chars("static str");
    if eq_ignore_case_exec(tt.as_slice(), target.as_slice()) {
        ParamKind::StaticStr
    } else {
        ParamKind::Value
    }
}

/// The registers of a parameter list, the first at register 0.
fn layouts_of(params: &Vec<Param>) -> (r: Vec<ParamLayout>)
    ensures
        view_layouts(r@) == layouts_from(view_params(params@), 0, 0),
{
    let ghost ps = view_params(params@);
    let mut r: Vec<ParamLayout> = Vec::new();
    let mut reg: u8 = 0;
    let mut i: usize = 0;
    proof {
        assert(view_layouts(r@) + layouts_from(ps, 0, 0) =~= layouts_from(ps, 0, 0));
    }
    while i < params.len()
        invariant
            i <= params@.len() == ps.len(),
            ps == view_params(params@),
            view_layouts(r@) + layouts_from(ps, i as int, reg) == layouts_from(ps, 0, 0),
        decreases params@.len() - i,
    {
        let kind = param_kind_of(params[i].ty.as_str());
        let name = params[i].name.clone();
        let next = match kind {
            ParamKind::StaticStr => reg.saturating_add(2),
            ParamKind::Value => reg.saturating_add(1),
        };
        let l = ParamLayout { name, kind, reg };
        proof {
            assert(ps[i as int].ty == params@[i as int].ty@);
            assert(ps[i as int].name == params@[i as int].name@);
            assert(next == match kind {
                ParamKind::StaticStr => sat_add(reg, 2),
                ParamKind::Value => sat_add(reg, 1),
            });
            assert(layouts_from(ps, i as int, reg) == seq![view_layout(l)] + layouts_from(ps, i + 1, next));
            assert(view_layouts(r@.push(l)) =~= view_layouts(r@).push(view_layout(l)));
            assert(view_layouts(r@).push(view_layout(l)) + layouts_from(ps, i + 1, next) =~= view_layouts(r@)
                + (seq![view_layout(l)] + layouts_from(ps, i + 1, next)));
        }
        r.push(l);
        reg = next;
        i = i + 1;
    }
    proof {
        assert(view_layouts(r@) + seq![] =~= view_layouts(r@));
    }
    r
}

/// `HashMap::insert` on the signatures.
fn put_sig(sigs: &mut Vec<(Vec<char>, Vec<ParamLayout>)>, name: Vec<char>, layouts: Vec<ParamLayout>)
    ensures
        view_sigs(final(sigs)@) == assoc_put(view_sigs(old(sigs)@), name@, view_layouts(layouts@)),
{
    proof {
        lemma_key_index_keys(view_keys(sigs@), view_sigs(sigs@), name@);
    }
    match find_key(sigs, name.as_slice()) {
        Some(k) => {
            let ghost n = name@;
            let ghost l = view_layouts(layouts@);
            sigs.set(k, (name, layouts));
            proof {
                assert(view_sigs(sigs@) =~= view_sigs(old(sigs)@).update(k as int, (n, l)));
            }
        },
        None => {
            let ghost n = name@;
            let ghost l = view_layouts(layouts@);
            sigs.push((name, layouts));
            proof {
                assert(view_sigs(sigs@) =~= view_sigs(old(sigs)@).push((n, l)));
            }
        },
    }
}

/// The chars of `Type__method`.
fn mangle_chars(impl_name: &str, method_name: &str) -> (r: Vec<char>)
    ensures
        r@ == mangle(impl_name@, method_name@),
{
    let mut r = str_to_chars(impl_name);
    append_str(&mut r, "__");
    append_str(&mut r, method_name);
    r
}

/// The name under which a method of an impl is compiled: `Type__method`.
pub fn mangle_impl_method(impl_name: &str, method_name: &str) -> (r: String)
    ensures
        r@ == mangle(impl_name@, method_name@),
{
    let v = mangle_chars(impl_name, method_name);
    chars_to_string(v.as_slice())
}

/// An upper-case hex digit.
fn hex_char(d: u8) -> (r: char)
    requires
        d < 16,
    ensures
        r == hex_digit(d as int),
{
    if d < 10 {
        crate::text::char_from_ascii(48 + d)
    } else {
        crate::text::char_from_ascii(55 + d)
    }
}

/// Appends the escaped form of one byte.
fn push_escaped(out: &mut Vec<char>, b: u8)
    ensures
        final(out)@ == old(out)@ + escape_byte(b),
{
    if b == 0x5C {
        out.push('\\');
        out.push('\\');
    } else if b == 0x22 {
        out.push('\\');
        out.push('"');
    } else if b == 0x0A {
        out.push('\\');
        out.push('n');
    } else if b == 0x0D {
        out.push('\\');
        out.push('r');
    } else if b == 0x09 {
        out.push('\\');
        out.push('t');
    } else if 0x20 <= b && b <= 0x7E {
        let c = crate::text::char_from_ascii(b);
        out.push(c);
        proof {
            assert(c == (b as u32) as char);
        }
    } else {
        out.push('\\');
        out.push('x');
        let h = hex_char(b / 16);
        let l = hex_char(b % 16);
        out.push(h);
        out.push(l);
    }
    proof {
        assert(final(out)@ =~= old(out)@ + escape_byte(b));
    }
}

/// The chars of a quoted byte string (see `format_bytes_spec`).
fn format_bytes_chars(bytes: &[u8]) -> (r: Vec<char>)
    ensures
        r@ == format_bytes_spec(bytes@),
{
    let mut r: Vec<char> = Vec::new();
    r.push('"');
    let mut i: usize = 0;
    proof {
        assert(bytes@.subrange(0, 0) =~= Seq::<u8>::empty());
        assert(r@ =~= seq!['"'] + escape_bytes(bytes@.subrange(0, 0)));
    }
    while i < bytes.len()
        invariant
            i <= bytes@.len(),
            r@ == seq!['"'] + escape_bytes(bytes@.subrange(0, i as int)),
        decreases bytes@.len() - i,
    {
        push_escaped(&mut r, bytes[i]);
        proof {
            let s1 = bytes@.subrange(0, i + 1);
            assert(s1.drop_last() =~= bytes@.subrange(0, i as int));
            assert(s1.last() == bytes@[i as int]);
            assert(r@ =~= seq!['"'] + escape_bytes(s1));
        }
        i = i + 1;
    }
    r.push('"');
    proof {
        assert(bytes@.subrange(0, i as int) =~= bytes@);
    }
    r
}

/// A byte string quoted, with `\\`, `\"`, `\n`, `\r`, `\t` and `\xHH`
/// escapes (upper-case hex).
pub fn format_bytes(bytes: &[u8]) -> (r: String)
    ensures
        r@ == format_bytes_spec(bytes@),
{
    let v = format_bytes_chars(bytes);
    chars_to_string(v.as_slice())
}

/// The `DATA` lines of the data items.
fn data_section_chars(data: &Vec<DataItem>) -> (r: Vec<char>)
    ensures
        r@ == data_section(view_data(data@)),
{
    let ghost d = view_data(data@);
    let mut r: Vec<char> = Vec::new();
    let mut i: usize = 0;
    proof {
        assert(d.subrange(0, 0) =~= Seq::<(Seq<char>, Seq<u8>)>::empty());
    }
    while i < data.len()
        invariant
            i <= data@.len() == d.len(),
            d == view_data(data@),
            r@ == data_section(d.subrange(0, i as int)),
        decreases data@.len() - i,
    {
        append_str(&mut r, "DATA ");
        append_chars(&mut r, data[i].name.as_slice());
        r.push(' ');
        let f = format_bytes_chars(data[i].bytes.as_slice());
        append_chars(&mut r, f.as_slice());
        r.push('\n');
        proof {
            let s1 = d.subrange(0, i + 1);
            assert(s1.drop_last() =~= d.subrange(0, i as int));
            assert(s1.last() == d[i as int]);
            assert(r@ =~= data_section(s1));
        }
        i = i + 1;
    }
    proof {
        assert(d.subrange(0, i as int) =~= d);
    }
    r
}

impl Compiler {
    /// A compiler for `program`, with no data items yet.
    pub fn new(program: Program) -> (r: Self)
        ensures
            r.program_view() == view_program(&program),
            r.data_view() == Seq::<(Seq<char>, Seq<u8>)>::empty(),
    {
        let r = Compiler { program, data: Vec::new() };
        proof {
            assert(view_data(r.data@) =~= Seq::<(Seq<char>, Seq<u8>)>::empty());
        }
        r
    }

    pub closed spec fn program_view(&self) -> SProgram {
        view_program(&self.program)
    }

    /// The strings interned so far, by name.
    pub closed spec fn data_view(&self) -> Seq<(Seq<char>, Seq<u8>)> {
        view_data(self.data@)
    }

    /// The layouts of every function and impl method, by name (see
    /// `signatures`).
    fn collect_signatures(program: &Program) -> (r: Vec<(Vec<char>, Vec<ParamLayout>)>)
        ensures
            view_sigs(r@) == signatures(view_program(program)),
    {
        let ghost fs = view_functions(program.functions@);
        let ghost is = view_impls(program.impls@);
        let mut sigs: Vec<(Vec<char>, Vec<ParamLayout>)> = Vec::new();
        let n = program.functions.len();
        let mut i: usize = 0;
        proof {
            assert(view_sigs(sigs@) =~= seq![]);
            assert(fs.subrange(0, n as int) =~= fs);
        }
        while i < n
            invariant
                i <= n == program.functions@.len() == fs.len(),
                fs == view_functions(program.functions@),
                sigs_of_functions(fs, seq![]) == sigs_of_functions(fs.subrange(i as int, n as int), view_sigs(sigs@)),
            decreases n - i,
        {
            let f = &program.functions[i];
            let name = str_to_chars(f.name.as_str());
            let layouts = layouts_of(&f.params);
            proof {
                let rest = fs.subrange(i as int, n as int);
                assert(rest[0] == view_function(f));
                assert(rest.drop_first() =~= fs.subrange(i + 1, n as int));
            }
            put_sig(&mut sigs, name, layouts);
            i = i + 1;
        }
        proof {
            assert(fs.subrange(n as int, n as int) =~= Seq::<SFunction>::empty());
        }
        let m = program.impls.len();
        let mut j: usize = 0;
        let ghost base = view_sigs(sigs@);
        proof {
            assert(is.subrange(0, m as int) =~= is);
        }
        while j < m
            invariant
                j <= m == program.impls@.len() == is.len(),
                is == view_impls(program.impls@),
                sigs_of_impls(is, base) == sigs_of_impls(is.subrange(j as int, m as int), view_sigs(sigs@)),
            decreases m - j,
        {
            let imp = &program.impls[j];
            let ghost ms = view_functions(imp.methods@);
            let ghost iname = imp.name@;
            let ghost before = view_sigs(sigs@);
            let k = imp.methods.len();
            let mut t: usize = 0;
            proof {
                assert(ms.subrange(0, k as int) =~= ms);
            }
            while t < k
                invariant
                    t <= k == imp.methods@.len() == ms.len(),
                    ms == view_functions(imp.methods@),
                    iname == imp.name@,
                    sigs_of_methods(iname, ms, before) == sigs_of_methods(
                        iname,
                        ms.subrange(t as int, k as int),
                        view_sigs(sigs@),
                    ),
                decreases k - t,
            {
                let meth = &imp.methods[t];
                let name = mangle_chars(imp.name.as_str(), meth.name.as_str());
                let layouts = layouts_of(&meth.params);
                proof {
                    let rest = ms.subrange(t as int, k as int);
                    assert(rest[0] == view_function(meth));
                    assert(rest.drop_first() =~= ms.subrange(t + 1, k as int));
                }
                put_sig(&mut sigs, name, layouts);
                t = t + 1;
            }
            proof {
                assert(ms.subrange(k as int, k as int) =~= Seq::<SFunction>::empty());
                let rest = is.subrange(j as int, m as int);
                assert(rest[0] == view_impl(imp));
                assert(rest.drop_first() =~= is.subrange(j + 1, m as int));
            }
            j = j + 1;
        }
        proof {
            assert(is.subrange(m as int, m as int) =~= Seq::<SImplDef>::empty());
        }
        sigs
    }

    /// Statements in order.
    fn emit_stmts(st: &mut EmitState, sigs: &Vec<(Vec<char>, Vec<ParamLayout>)>, stmts: &Vec<Stmt>) -> (r: Emitted<()>)
        requires
            old(st).wf(),
        ensures
            final(st).wf(),
            agrees_st(r, e_stmts(view_sigs(sigs@), view_stmts(stmts@), old(st).cs()), final(st).cs()),
    {
        let ghost sg = view_sigs(sigs@);
        let ghost ss = view_stmts(stmts@);
        let ghost st0 = st.cs();
        proof {
            lemma_view_stmts_index(stmts@);
            assert(ss.subrange(0, ss.len() as int) =~= ss);
        }
        let n = stmts.len();
        let mut i: usize = 0;
        while i < n
            invariant
                st.wf(),
                i <= n == stmts@.len() == ss.len(),
                st0 == old(st).cs(),
                sg == view_sigs(sigs@),
                ss == view_stmts(stmts@),
                forall|j: int| 0 <= j < ss.len() ==> #[trigger] ss[j] == view_stmt(&stmts@[j]),
                e_stmts(sg, ss, st0) == e_stmts(sg, ss.subrange(i as int, n as int), st.cs()),
            decreases n - i,
        {
            proof {
                assert(ss.subrange(i as int, n as int)[0] == view_stmt(&stmts@[i as int]));
                assert(ss.subrange(i as int, n as int).subrange(1, n - i) =~= ss.subrange(
                    i + 1,
                    n as int,
                ));
            }
            match Self::emit_stmt(st, sigs, &stmts[i]) {
                Emitted::Done(_) => {},
                Emitted::Fail(m) => return Emitted::Fail(m),
                Emitted::Fault => return Emitted::Fault,
            }
            i = i + 1;
        }
        proof {
            assert(ss.subrange(n as int, n as int) =~= Seq::<SStmt>::empty());
        }
        Emitted::Done(())
    }

    /// `emit_function`: the label, the zero register, the body, and the
    /// return (or exit for `MAIN`), after `out`.
    fn emit_function(
        data: &mut Vec<DataItem>,
        out: &mut Vec<char>,
        sigs: &Vec<(Vec<char>, Vec<ParamLayout>)>,
        name: &[char],
        body: &Vec<Stmt>,
    ) -> (r: Emitted<()>)
        ensures
            fn_agrees(
                r,
                e_function(view_sigs(sigs@), name@, view_stmts(body@), view_data(old(data)@), old(out)@),
                view_data(final(data)@),
                final(out)@,
            ),
    {
        let ghost sg = view_sigs(sigs@);
        let uname = upper_chars(name);
        let empty: Vec<ParamLayout> = Vec::new();
        let layouts: &Vec<ParamLayout> = match lookup_sig(sigs, name) {
            Some(k) => &sigs[k].1,
            None => &empty,
        };
        proof {
            assert(view_layouts(empty@) =~= Seq::<SLayout>::empty());
        }
        let ghost lv = view_layouts(layouts@);
        proof {
            assert(lv == match assoc_get(sg, name@) {
                Some(ls) => ls,
                None => seq![],
            });
        }
        let ctx = match FnContext::new(layouts) {
            Some(c) => c,
            None => return Emitted::Fault,
        };
        let ghost cv = ctx.view();
        let mut d: Vec<DataItem> = Vec::new();
        core::mem::swap(&mut d, data);
        let mut o: Vec<char> = Vec::new();
        core::mem::swap(&mut o, out);
        append_chars(&mut o, uname.as_slice());
        o.push('\n');
        proof {
            assert(o@ =~= old(out)@ + upper_seq(name@) + seq!['\n']);
        }
        let mut st = EmitState { data: d, ctx, out: o };
        let zero = one_char('0');
        st.load_imm(255, zero.as_slice());
        let ghost s_init = st.cs();
        proof {
            assert(s_init.out =~= old(out)@ + upper_seq(name@) + seq!['\n'] + load_imm(255, seq!['0']));
            assert(s_init == CState {
                data: view_data(old(data)@),
                ctx: cv,
                out: old(out)@ + upper_seq(name@) + seq!['\n'] + load_imm(255, seq!['0']),
            });
            assert(ctx_new(lv) == Some(cv));
        }
        let r = Self::emit_stmts(&mut st, sigs, body);
        if matches!(r, Emitted::Done(_)) {
            let ghost s1 = st.cs();
            if crate::text::text_is(uname.as_slice(), "MAIN") {
                st.load_imm(0, zero.as_slice());
                let e = str_to_chars("EXIT r0");
                st.ins_chars(e.as_slice());
                proof {
                    assert(st.cs().out =~= s1.out + (load_imm(0, seq!['0']) + ins("EXIT r0"@)));
                }
            } else {
                let e = str_to_chars("RET");
                st.ins_chars(e.as_slice());
            }
        }
        let ghost fin = st.cs();
        let EmitState { data: d2, ctx: _, out: o2 } = st;
        *data = d2;
        *out = o2;
        proof {
            assert(view_data(data@) == fin.data);
            assert(out@ == fin.out);
        }
        r
    }
}

/// The exec result of a whole function against the specification's.
pub open spec fn fn_agrees(
    r: Emitted<()>,
    spec: Outcome<(Seq<(Seq<char>, Seq<u8>)>, Seq<char>)>,
    data: Seq<(Seq<char>, Seq<u8>)>,
    out: Seq<char>,
) -> bool {
    match r {
        Emitted::Done(_) => spec == Outcome::Done((data, out)),
        Emitted::Fail(m) => spec == Outcome::<(Seq<(Seq<char>, Seq<u8>)>, Seq<char>)>::Fail(m@),
        Emitted::Fault => spec is Fault,
    }
}

impl Compiler {
    /// The functions other than `main`, each followed by an empty line.
    fn emit_functions(
        data: &mut Vec<DataItem>,
        out: &mut Vec<char>,
        sigs: &Vec<(Vec<char>, Vec<ParamLayout>)>,
        fs: &Vec<Function>,
    ) -> (r: Emitted<()>)
        ensures
            fn_agrees(
                r,
                c_functions(view_sigs(sigs@), view_functions(fs@), view_data(old(data)@), old(out)@),
                view_data(final(data)@),
                final(out)@,
            ),
    {
        let ghost sg = view_sigs(sigs@);
        let ghost vf = view_functions(fs@);
        let ghost d0 = view_data(data@);
        let ghost o0 = out@;
        let n = fs.len();
        let mut i: usize = 0;
        proof {
            assert(vf.subrange(0, n as int) =~= vf);
        }
        while i < n
            invariant
                i <= n == fs@.len() == vf.len(),
                sg == view_sigs(sigs@),
                vf == view_functions(fs@),
                d0 == view_data(old(data)@),
                o0 == old(out)@,
                c_functions(sg, vf, d0, o0) == c_functions(sg, vf.subrange(i as int, n as int), view_data(data@), out@),
            decreases n - i,
        {
            let f = &fs[i];
            let name = str_to_chars(f.name.as_str());
            proof {
                let rest = vf.subrange(i as int, n as int);
                assert(rest[0] == view_function(f));
                assert(rest.drop_first() =~= vf.subrange(i + 1, n as int));
            }
            let ghost di = view_data(data@);
            let ghost oi = out@;
            if !crate::text::text_is(name.as_slice(), "main") {
                let rr = Self::emit_function(data, out, sigs, name.as_slice(), &f.body);
                proof {
                    let rest = vf.subrange(i as int, n as int);
                    assert(c_functions(sg, rest, di, oi) == match e_function(sg, name@, view_stmts(f.body@), di, oi) {
                        Outcome::Fault => Outcome::Fault,
                        Outcome::Fail(m) => Outcome::Fail(m),
                        Outcome::Done((d, o)) => c_functions(sg, rest.drop_first(), d, o + seq!['\n']),
                    });
                }
                match rr {
                    Emitted::Done(_) => {},
                    Emitted::Fail(m) => return Emitted::Fail(m),
                    Emitted::Fault => return Emitted::Fault,
                }
                let ghost oa = out@;
                out.push('\n');
                proof {
                    assert(out@ =~= oa + seq!['\n']);
                }
            } else {
                proof {
                    let rest = vf.subrange(i as int, n as int);
                    assert(c_functions(sg, rest, di, oi) == c_functions(sg, rest.drop_first(), di, oi));
                }
            }
            i = i + 1;
        }
        proof {
            assert(vf.subrange(n as int, n as int) =~= Seq::<SFunction>::empty());
        }
        Emitted::Done(())
    }

    /// The methods of every impl under their mangled names, each followed by
    /// an empty line.
    fn emit_impls(
        data: &mut Vec<DataItem>,
        out: &mut Vec<char>,
        sigs: &Vec<(Vec<char>, Vec<ParamLayout>)>,
        impls: &Vec<ImplDef>,
    ) -> (r: Emitted<()>)
        ensures
            fn_agrees(
                r,
                c_impls(view_sigs(sigs@), view_impls(impls@), view_data(old(data)@), old(out)@),
                view_data(final(data)@),
                final(out)@,
            ),
    {
        let ghost sg = view_sigs(sigs@);
        let ghost vi = view_impls(impls@);
        let ghost d0 = view_data(data@);
        let ghost o0 = out@;
        let m = impls.len();
        let mut j: usize = 0;
        proof {
            assert(vi.subrange(0, m as int) =~= vi);
        }
        while j < m
            invariant
                j <= m == impls@.len() == vi.len(),
                sg == view_sigs(sigs@),
                vi == view_impls(impls@),
                d0 == view_data(old(data)@),
                o0 == old(out)@,
                c_impls(sg, vi, d0, o0) == c_impls(sg, vi.subrange(j as int, m as int), view_data(data@), out@),
            decreases m - j,
        {
            let imp = &impls[j];
            proof {
                let rest = vi.subrange(j as int, m as int);
                assert(rest[0] == view_impl(imp));
                assert(rest.drop_first() =~= vi.subrange(j + 1, m as int));
            }
            match Self::emit_methods(data, out, sigs, imp) {
                Emitted::Done(_) => {},
                Emitted::Fail(e) => return Emitted::Fail(e),
                Emitted::Fault => return Emitted::Fault,
            }
            j = j + 1;
        }
        proof {
            assert(vi.subrange(m as int, m as int) =~= Seq::<SImplDef>::empty());
        }
        Emitted::Done(())
    }

    /// The methods of one impl.
    fn emit_methods(
        data: &mut Vec<DataItem>,
        out: &mut Vec<char>,
        sigs: &Vec<(Vec<char>, Vec<ParamLayout>)>,
        imp: &ImplDef,
    ) -> (r: Emitted<()>)
        ensures
            fn_agrees(
                r,
                c_methods(view_sigs(sigs@), imp.name@, view_functions(imp.methods@), view_data(old(data)@), old(out)@),
                view_data(final(data)@),
                final(out)@,
            ),
    {
        let ghost sg = view_sigs(sigs@);
        let ghost ms = view_functions(imp.methods@);
        let ghost d0 = view_data(data@);
        let ghost o0 = out@;
        let k = imp.methods.len();
        let mut t: usize = 0;
        proof {
            assert(ms.subrange(0, k as int) =~= ms);
        }
        while t < k
            invariant
                t <= k == imp.methods@.len() == ms.len(),
                sg == view_sigs(sigs@),
                ms == view_functions(imp.methods@),
                d0 == view_data(old(data)@),
                o0 == old(out)@,
                c_methods(sg, imp.name@, ms, d0, o0) == c_methods(
                    sg,
                    imp.name@,
                    ms.subrange(t as int, k as int),
                    view_data(data@),
                    out@,
                ),
            decreases k - t,
        {
            let meth = &imp.methods[t];
            let name = mangle_chars(imp.name.as_str(), meth.name.as_str());
            proof {
                let rest = ms.subrange(t as int, k as int);
                assert(rest[0] == view_function(meth));
                assert(rest.drop_first() =~= ms.subrange(t + 1, k as int));
            }
            let ghost di = view_data(data@);
            let ghost oi = out@;
            let rr = Self::emit_function(data, out, sigs, name.as_slice(), &meth.body);
            proof {
                let rest = ms.subrange(t as int, k as int);
                assert(c_methods(sg, imp.name@, rest, di, oi) == match e_function(
                    sg,
                    mangle(imp.name@, meth.name@),
                    view_stmts(meth.body@),
                    di,
                    oi,
                ) {
                    Outcome::Fault => Outcome::Fault,
                    Outcome::Fail(m) => Outcome::Fail(m),
                    Outcome::Done((d, o)) => c_methods(sg, imp.name@, rest.drop_first(), d, o + seq!['\n']),
                });
            }
            match rr {
                Emitted::Done(_) => {},
                Emitted::Fail(e) => return Emitted::Fail(e),
                Emitted::Fault => return Emitted::Fault,
            }
            let ghost oa = out@;
            out.push('\n');
            proof {
                assert(out@ =~= oa + seq!['\n']);
            }
            t = t + 1;
        }
        proof {
            assert(ms.subrange(k as int, k as int) =~= Seq::<SFunction>::empty());
        }
        Emitted::Done(())
    }

    /// The first function named `main`, if any.
    fn emit_main(
        data: &mut Vec<DataItem>,
        out: &mut Vec<char>,
        sigs: &Vec<(Vec<char>, Vec<ParamLayout>)>,
        fs: &Vec<Function>,
    ) -> (r: Emitted<()>)
        ensures
            fn_agrees(
                r,
                c_main(view_sigs(sigs@), view_functions(fs@), view_data(old(data)@), old(out)@),
                view_data(final(data)@),
                final(out)@,
            ),
    {
        let ghost vf = view_functions(fs@);
        let n = fs.len();
        let mut i: usize = 0;
        proof {
            assert(vf.subrange(0, n as int) =~= vf);
        }
        while i < n
            invariant
                i <= n == fs@.len() == vf.len(),
                vf == view_functions(fs@),
                data@ == old(data)@,
                out@ == old(out)@,
                find_main(vf) == find_main(vf.subrange(i as int, n as int)),
            decreases n - i,
        {
            let f = &fs[i];
            let name = str_to_chars(f.name.as_str());
            proof {
                let rest = vf.subrange(i as int, n as int);
                assert(rest[0] == view_function(f));
                assert(rest.drop_first() =~= vf.subrange(i + 1, n as int));
            }
            if crate::text::text_is(name.as_slice(), "main") {
                proof {
                    let rest = vf.subrange(i as int, n as int);
                    assert(find_main(vf) == Some(rest[0]));
                }
                return Self::emit_function(data, out, sigs, name.as_slice(), &f.body);
            }
            i = i + 1;
        }
        proof {
            assert(vf.subrange(n as int, n as int) =~= Seq::<SFunction>::empty());
        }
        Emitted::Done(())
    }

    /// `compile` where it returns: the optimized assembly text or an error
    /// message; `None` where compiling faults (see `spec_compile`): registers run out or a
    /// rewritten line would cut a char in two.
    pub fn try_compile(&mut self) -> (r: Option<Result<String, String>>)
        ensures
            final(self).program_view() == old(self).program_view(),
            match spec_compile(old(self).program_view(), old(self).data_view()) {
                Outcome::Done((d, t)) => r matches Some(Ok(s)) && s@ == t && final(self).data_view() == d,
                Outcome::Fail(m) => r matches Some(Err(e)) && e@ == m,
                Outcome::Fault => r is None,
            },
    {
        let text = match Self::compile_text_exec(&self.program, &mut self.data) {
            Emitted::Done(t) => t,
            Emitted::Fail(m) => return Some(Err(m)),
            Emitted::Fault => return None,
        };
        let s = chars_to_string(text.as_slice());
        match AsmOptimizer::try_optimize(s.as_str()) {
            Some(o) => Some(Ok(o)),
            None => None,
        }
    }

    /// See `compile_text`.
    fn compile_text_exec(program: &Program, data: &mut Vec<DataItem>) -> (r: Emitted<Vec<char>>)
        ensures
            match compile_text(view_program(program), view_data(old(data)@)) {
                Outcome::Done((d, t)) => r matches Emitted::Done(v) && v@ == t && view_data(final(data)@) == d,
                Outcome::Fail(m) => r matches Emitted::Fail(e) && e@ == m,
                Outcome::Fault => r is Fault,
            },
    {
        let ghost p = view_program(program);
        let sigs = Self::collect_signatures(program);
        let ghost sg = view_sigs(sigs@);
        let mut out: Vec<char> = Vec::new();
        proof {
            assert(sg == signatures(p));
            assert(out@ == Seq::<char>::empty());
        }
        match Self::emit_functions(data, &mut out, &sigs, &program.functions) {
            Emitted::Done(_) => {},
            Emitted::Fail(m) => return Emitted::Fail(m),
            Emitted::Fault => return Emitted::Fault,
        }
        let ghost d1 = view_data(data@);
        let ghost o1 = out@;
        match Self::emit_impls(data, &mut out, &sigs, &program.impls) {
            Emitted::Done(_) => {},
            Emitted::Fail(m) => return Emitted::Fail(m),
            Emitted::Fault => return Emitted::Fault,
        }
        let ghost d2 = view_data(data@);
        let ghost o2 = out@;
        match Self::emit_main(data, &mut out, &sigs, &program.functions) {
            Emitted::Done(_) => {},
            Emitted::Fail(m) => return Emitted::Fail(m),
            Emitted::Fault => return Emitted::Fault,
        }
        let mut text = data_section_chars(data);
        text.push('\n');
        append_chars(&mut text, out.as_slice());
        Emitted::Done(text)
    }

    /// Compiles the program to assembly text, or returns the first error
    /// message.
    pub fn compile(&mut self) -> (r: Result<String, String>)
        requires
            !(spec_compile(old(self).program_view(), old(self).data_view()) is Fault),
        ensures
            final(self).program_view() == old(self).program_view(),
            match spec_compile(old(self).program_view(), old(self).data_view()) {
                Outcome::Done((d, t)) => r matches Ok(s) && s@ == t && final(self).data_view() == d,
                Outcome::Fail(m) => r matches Err(e) && e@ == m,
                Outcome::Fault => false,
            },
    {
        match self.try_compile() {
            Some(r) => r,
            None => vstd::pervasive::unreached(),
        }
    }
}

// ---------------------------------------------------------------------------
// A quick peephole pass over assembly text
// ---------------------------------------------------------------------------
/// `MOV r r`, which does nothing.
pub open spec fn is_self_move(t: Seq<char>) -> bool {
    match mov_of(t) {
        Some((d, s)) => d == s,
        None => false,
    }
}

/// What a line and the next one fold into: `None` where no rule applies,
/// `Some(None)` where the rule faults on the indentation, else the line that
/// replaces both.
pub open spec fn pair_rewrite(line: Seq<char>, next: Seq<char>) -> Option<Option<Seq<char>>> {
    let t = trim(line);
    let nt = trim(next);
    match (load_imm_of(t), mov_of(nt)) {
        (Some((ld, imm)), Some((md, ms))) if ms == ld => match indent(line) {
            None => Some(None),
            Some(ind) => Some(Some(ind + "LOAD_U64_IMMEDIATE "@ + md + seq![' '] + imm)),
        },
        _ => match (mov_of(t), mov_of(nt)) {
            (Some((d, s)), Some((nd, ns))) => if ns == d {
                match indent(next) {
                    None => Some(None),
                    Some(ind) => Some(Some(ind + "MOV "@ + nd + seq![' '] + s)),
                }
            } else if nd == d {
                Some(Some(next))
            } else {
                None
            },
            _ => None,
        },
    }
}

/// A line written unless its trimmed text is the last one written.
pub open spec fn emit_once(out: Seq<Seq<char>>, prev: Option<Seq<char>>, line: Seq<char>) -> (
    Seq<Seq<char>>,
    Option<Seq<char>>,
) {
    if prev == Some(trim(line)) {
        (out, prev)
    } else {
        (out.push(line), Some(trim(line)))
    }
}

/// The lines written from line `i` on, after `out`; `None` where a rewrite
/// faults.
pub open spec fn peep_from(ls: Seq<Seq<char>>, i: int, out: Seq<Seq<char>>, prev: Option<Seq<char>>) -> Option<
    Seq<Seq<char>>,
>
    decreases ls.len() - i,
{
    if !(0 <= i < ls.len()) {
        Some(out)
    } else if is_self_move(trim(ls[i])) {
        peep_from(ls, i + 1, out, prev)
    } else {
        let rule = if i + 1 < ls.len() {
            pair_rewrite(ls[i], ls[i + 1])
        } else {
            None
        };
        match rule {
            Some(None) => None,
            Some(Some(nl)) => {
                let (o, p) = emit_once(out, prev, nl);
                peep_from(ls, i + 2, o, p)
            },
            None => {
                let (o, p) = emit_once(out, prev, ls[i]);
                peep_from(ls, i + 1, o, p)
            },
        }
    }
}

/// `optimize_asm`: the text its lines give, or `None` where it faults.
pub open spec fn spec_optimize_asm(text: Seq<char>) -> Option<Seq<char>> {
    match peep_from(lines(text), 0, seq![], None) {
        Some(ls) => Some(join_lines(ls)),
        None => None,
    }
}

/// No two lines in a row have the same trimmed text.
pub open spec fn no_repeats(ls: Seq<Seq<char>>) -> bool {
    forall|k: int| 0 < k < ls.len() ==> #[trigger] trim(ls[k]) != trim(ls[k - 1])
}

/// What the pass keeps as it goes: no line repeats the one before it, and
/// `prev` is the trimmed text of the last one.
pub open spec fn peep_inv(out: Seq<Seq<char>>, prev: Option<Seq<char>>) -> bool {
    &&& no_repeats(out)
    &&& prev == (if out.len() == 0 {
        None::<Seq<char>>
    } else {
        Some(trim(out.last()))
    })
}

proof fn lemma_emit_once(out: Seq<Seq<char>>, prev: Option<Seq<char>>, line: Seq<char>)
    requires
        peep_inv(out, prev),
    ensures
        peep_inv(emit_once(out, prev, line).0, emit_once(out, prev, line).1),
        out.is_prefix_of(emit_once(out, prev, line).0),
{
    if prev != Some(trim(line)) {
        let o = out.push(line);
        assert forall|k: int| 0 < k < o.len() implies #[trigger] trim(o[k]) != trim(o[k - 1]) by {
            if k < out.len() {
                assert(o[k] == out[k] && o[k - 1] == out[k - 1]);
            } else {
                assert(o[k] == line);
                assert(o[k - 1] == out.last());
            }
        }
    }
    assert(out.is_prefix_of(emit_once(out, prev, line).0));
}

proof fn lemma_peep_from(ls: Seq<Seq<char>>, i: int, out: Seq<Seq<char>>, prev: Option<Seq<char>>)
    requires
        peep_inv(out, prev),
    ensures
        peep_from(ls, i, out, prev) matches Some(r) ==> no_repeats(r),
    decreases ls.len() - i,
{
    if 0 <= i < ls.len() {
        if is_self_move(trim(ls[i])) {
            lemma_peep_from(ls, i + 1, out, prev);
        } else {
            let rule = if i + 1 < ls.len() {
                pair_rewrite(ls[i], ls[i + 1])
            } else {
                None
            };
            match rule {
                Some(None) => {},
                Some(Some(nl)) => {
                    lemma_emit_once(out, prev, nl);
                    let (o, p) = emit_once(out, prev, nl);
                    lemma_peep_from(ls, i + 2, o, p);
                },
                None => {
                    lemma_emit_once(out, prev, ls[i]);
                    let (o, p) = emit_once(out, prev, ls[i]);
                    lemma_peep_from(ls, i + 1, o, p);
                },
            }
        }
    }
}

/// Of every text on which the quick pass returns: no line of its result has
/// the same trimmed text as the line before it.
pub proof fn lemma_optimize_asm_no_repeats(text: Seq<char>)
    ensures
        peep_from(lines(text), 0, seq![], None) matches Some(ls) ==> no_repeats(ls),
{
    lemma_peep_from(lines(text), 0, seq![], None);
}

/// Appends `a`, `b`, ' ', `c` to a copy of `ind`.
fn join4(ind: &[char], b: &str, c: &[char], d: &[char]) -> (r: Vec<char>)
    ensures
        r@ == ind@ + b@ + c@ + seq![' '] + d@,
{
    let mut r = copy_text(ind);
    append_str(&mut r, b);
    append_chars(&mut r, c);
    r.push(' ');
    append_chars(&mut r, d);
    r
}

/// See `pair_rewrite`.
fn pair_rewrite_exec(line: &[char], next: &[char]) -> (r: Option<Option<Vec<char>>>)
    ensures
        match r {
            None => pair_rewrite(line@, next@) is None,
            Some(None) => pair_rewrite(line@, next@) == Some(None::<Seq<char>>),
            Some(Some(v)) => pair_rewrite(line@, next@) == Some(Some(v@)),
        },
{
    let t = trim_chars(line);
    let nt = trim_chars(next);
    let ld = AsmOptimizer::parse_load_imm(t.as_slice());
    let nm = AsmOptimizer::parse_mov(nt.as_slice());
    if let (Some((ld_dst, imm)), Some((md, ms))) = (&ld, &nm) {
        if chars_eq(ms.as_slice(), ld_dst.as_slice()) {
            return match indent_of(line) {
                None => Some(None),
                Some(ind) => Some(Some(join4(ind.as_slice(), "LOAD_U64_IMMEDIATE ", md.as_slice(), imm.as_slice()))),
            };
        }
    }
    let m = AsmOptimizer::parse_mov(t.as_slice());
    if let (Some((d, s)), Some((nd, ns))) = (&m, &nm) {
        if chars_eq(ns.as_slice(), d.as_slice()) {
            return match indent_of(next) {
                None => Some(None),
                Some(ind) => Some(Some(join4(ind.as_slice(), "MOV ", nd.as_slice(), s.as_slice()))),
            };
        } else if chars_eq(nd.as_slice(), d.as_slice()) {
            return Some(Some(copy_text(next)));
        }
    }
    None
}

/// See `emit_once`.
fn emit_once_exec(out: &mut Vec<Vec<char>>, prev: &mut Option<Vec<char>>, line: Vec<char>)
    ensures
        (texts_view(final(out)@), opt_chars(*final(prev))) == emit_once(
            texts_view(old(out)@),
            opt_chars(*old(prev)),
            line@,
        ),
{
    let t = trim_chars(line.as_slice());
    let same = match prev {
        Some(p) => chars_eq(p.as_slice(), t.as_slice()),
        None => false,
    };
    if !same {
        let ghost l = line@;
        out.push(line);
        *prev = Some(t);
        proof {
            assert(texts_view(out@) =~= texts_view(old(out)@).push(l));
        }
    }
}

/// A quick peephole pass: drops `MOV r r`, folds a load into the move that
/// follows it and a move into the move that reads it, keeps the second of
/// two moves into one register, and drops a line whose trimmed text repeats
/// the last line written. `None` where a rewritten line's indentation ends
/// inside a char (see `indent`).
pub fn try_optimize_asm(text: &str) -> (r: Option<String>)
    ensures
        match r {
            Some(s) => spec_optimize_asm(text@) == Some(s@),
            None => spec_optimize_asm(text@) is None,
        },
{
    let chars = str_to_chars(text);
    let ls = crate::text::split_lines(chars.as_slice());
    let ghost lv = texts_view(ls@);
    let mut out: Vec<Vec<char>> = Vec::new();
    let mut prev: Option<Vec<char>> = None;
    let mut i: usize = 0;
    proof {
        assert(texts_view(out@) =~= Seq::<Seq<char>>::empty());
    }
    while i < ls.len()
        invariant
            i <= ls@.len() + 1,
            lv == texts_view(ls@),
            lv == lines(text@),
            peep_from(lv, 0, seq![], None) == peep_from(lv, i as int, texts_view(out@), opt_chars(prev)),
        decreases ls@.len() + 1 - i,
    {
        let t = trim_chars(ls[i].as_slice());
        let m = AsmOptimizer::parse_mov(t.as_slice());
        let self_move = match &m {
            Some((d, s)) => chars_eq(d.as_slice(), s.as_slice()),
            None => false,
        };
        proof {
            assert(lv[i as int] == ls@[i as int]@);
        }
        if self_move {
            i = i + 1;
        } else {
            let rule = if i + 1 < ls.len() {
                proof {
                    assert(lv[i + 1] == ls@[i + 1]@);
                }
                pair_rewrite_exec(ls[i].as_slice(), ls[i + 1].as_slice())
            } else {
                None
            };
            match rule {
                Some(None) => return None,
                Some(Some(nl)) => {
                    emit_once_exec(&mut out, &mut prev, nl);
                    i = i + 2;
                },
                None => {
                    let l = copy_text(ls[i].as_slice());
                    emit_once_exec(&mut out, &mut prev, l);
                    i = i + 1;
                },
            }
        }
    }
    let ghost ov = texts_view(out@);
    proof {
        assert(peep_from(lv, i as int, ov, opt_chars(prev)) == Some(ov));
    }
    let mut r: Vec<char> = Vec::new();
    let mut k: usize = 0;
    proof {
        assert(ov.subrange(0, 0) =~= Seq::<Seq<char>>::empty());
    }
    while k < out.len()
        invariant
            k <= out@.len() == ov.len(),
            ov == texts_view(out@),
            r@ == join_lines(ov.subrange(0, k as int)),
        decreases out@.len() - k,
    {
        append_chars(&mut r, out[k].as_slice());
        r.push('\n');
        proof {
            let s1 = ov.subrange(0, k + 1);
            assert(s1.drop_last() =~= ov.subrange(0, k as int));
            assert(s1.last() == out@[k as int]@);
            assert(r@ =~= join_lines(s1));
        }
        k = k + 1;
    }
    proof {
        assert(ov.subrange(0, k as int) =~= ov);
    }
    Some(chars_to_string(r.as_slice()))
}

/// The quick peephole pass, on a text where no rewritten line's indentation
/// ends inside a char.
pub fn optimize_asm(text: &str) -> (r: String)
    requires
        spec_optimize_asm(text@) is Some,
    ensures
        spec_optimize_asm(text@) == Some(r@),
{
    match try_optimize_asm(text) {
        Some(s) => s,
        None => vstd::pervasive::unreached(),
    }
}

pub open spec fn opt_chars(o: Option<Vec<char>>) -> Option<Seq<char>> {
    match o {
        Some(v) => Some(v@),
        None => None,
    }
}

} // verus!
