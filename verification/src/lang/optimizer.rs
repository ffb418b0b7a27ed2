//! A peephole optimizer over assembly text, one line at a time.
//!
//! Each pass reads the lines as they stand (trimmed of whitespace for the
//! pattern tests) and rewrites or drops some of them. A rewritten line keeps
//! the indentation of the line it replaces, taken as the first
//! `len(line) - len(trim(line))` bytes of that line; where that count of bytes
//! ends inside a char, slicing the text there fails, and so does the pass
//! (`None` below).
use vstd::prelude::*;

use crate::text::{
    append_chars, append_str, back_ws_exec, chars_eq, contains_char, ends_with_char, starts_with,
    is_prefix, is_suffix, lemma_back_ws, lemma_skip_ws, skip_ws, back_ws, skip_ws_exec,
    chars_to_string, join_lines, lines, slice_vec, split_lines, split_words, str_to_chars, strip_prefix, strip_prefix_chars, texts_view, trim,
    trim_chars,
    words,
};

verus! {

// ---------------------------------------------------------------------------
// Bytes of text
// ---------------------------------------------------------------------------
/// The length of a char in UTF-8.
pub open spec fn utf8_len(c: char) -> int {
    let u = c as u32;
    if u < 0x80 {
        1
    } else if u < 0x800 {
        2
    } else if u < 0x10000 {
        3
    } else {
        4
    }
}

/// The length of a text in UTF-8.
pub open spec fn bytes_len(s: Seq<char>) -> int
    decreases s.len(),
{
    if s.len() == 0 {
        0
    } else {
        bytes_len(s.drop_last()) + utf8_len(s.last())
    }
}

/// The chars of `s` whose UTF-8 encoding is its first `k` bytes, if `k`
/// ends at a char boundary.
pub open spec fn byte_prefix(s: Seq<char>, k: int) -> Option<Seq<char>>
    decreases s.len(),
{
    if k <= 0 {
        Some(seq![])
    } else if s.len() == 0 || utf8_len(s[0]) > k {
        None
    } else {
        match byte_prefix(s.drop_first(), k - utf8_len(s[0])) {
            Some(p) => Some(seq![s[0]] + p),
            None => None,
        }
    }
}

/// `&line[..line.len() - line.trim().len()]`: the indentation that a
/// rewritten line keeps.
pub open spec fn indent(line: Seq<char>) -> Option<Seq<char>> {
    byte_prefix(line, bytes_len(line) - bytes_len(trim(line)))
}

pub proof fn lemma_bytes_len_add(x: Seq<char>, y: Seq<char>)
    ensures
        bytes_len(x + y) == bytes_len(x) + bytes_len(y),
        bytes_len(x) >= 0,
    decreases y.len(),
{
    if y.len() == 0 {
        assert(x + y =~= x);
        lemma_bytes_len_nonneg(x);
    } else {
        lemma_bytes_len_add(x, y.drop_last());
        assert((x + y).drop_last() =~= x + y.drop_last());
        assert((x + y).last() == y.last());
    }
}

pub proof fn lemma_bytes_len_nonneg(x: Seq<char>)
    ensures
        bytes_len(x) >= 0,
    decreases x.len(),
{
    if x.len() > 0 {
        lemma_bytes_len_nonneg(x.drop_last());
    }
}

pub fn utf8_len_exec(c: char) -> (r: u128)
    ensures
        r == utf8_len(c),
{
    let u = c as u32;
    if u < 0x80 {
        1
    } else if u < 0x800 {
        2
    } else if u < 0x10000 {
        3
    } else {
        4
    }
}

/// UTF-8 length of `s[lo..hi]`.
fn bytes_of_range(s: &[char], lo: usize, hi: usize) -> (r: u128)
    requires
        lo <= hi <= s@.len(),
    ensures
        r == bytes_len(s@.subrange(lo as int, hi as int)),
        r <= 4 * (hi - lo),
{
    let mut r: u128 = 0;
    let mut k = lo;
    while k < hi
        invariant
            lo <= k <= hi <= s@.len(),
            r == bytes_len(s@.subrange(lo as int, k as int)),
            r <= 4 * (k - lo),
        decreases hi - k,
    {
        proof {
            assert(s@.subrange(lo as int, k + 1).drop_last() =~= s@.subrange(lo as int, k as int));
        }
        r = r + utf8_len_exec(s[k]);
        k = k + 1;
    }
    r
}

/// The indentation of a line (see `indent`), or `None` where its byte count
/// ends inside a char.
pub fn indent_of(line: &[char]) -> (r: Option<Vec<char>>)
    ensures
        match r {
            Some(v) => indent(line@) == Some(v@),
            None => indent(line@) is None,
        },
{
    let n = line.len();
    let a = skip_ws_exec(line, 0);
    proof {
        lemma_skip_ws(line@, 0);
    }
    let b = back_ws_exec(line, a, n);
    proof {
        lemma_back_ws(line@, a as int, n as int);
    }
    let lead = bytes_of_range(line, 0, a);
    let trail = bytes_of_range(line, b, n);
    proof {
        let s = line@;
        assert(s =~= s.subrange(0, a as int) + s.subrange(a as int, b as int) + s.subrange(
            b as int,
            n as int,
        ));
        lemma_bytes_len_add(s.subrange(0, a as int) + s.subrange(a as int, b as int), s.subrange(b as int, n as int));
        lemma_bytes_len_add(s.subrange(0, a as int), s.subrange(a as int, b as int));
        lemma_bytes_len_nonneg(s.subrange(b as int, n as int));
        assert(trim(s) == s.subrange(a as int, b as int));
    }
    let mut rem: u128 = lead + trail;
    let mut j: usize = 0;
    proof {
        assert(line@.subrange(0, n as int) =~= line@);
        match byte_prefix(line@, rem as int) {
            Some(p) => {
                assert(line@.subrange(0, 0) + p =~= p);
            },
            None => {},
        }
    }
    while rem > 0
        invariant
            j <= n == line@.len(),
            indent(line@) == match byte_prefix(line@.subrange(j as int, n as int), rem as int) {
                Some(p) => Some(line@.subrange(0, j as int) + p),
                None => None::<Seq<char>>,
            },
        decreases n - j,
    {
        if j >= n {
            return None;
        }
        let l = utf8_len_exec(line[j]);
        if l > rem {
            return None;
        }
        proof {
            let rest = line@.subrange(j as int, n as int);
            assert(rest.drop_first() =~= line@.subrange(j + 1, n as int));
            assert(rest[0] == line@[j as int]);
            assert(line@.subrange(0, j + 1) =~= line@.subrange(0, j as int) + seq![line@[j as int]]);
            match byte_prefix(line@.subrange(j + 1, n as int), rem - l) {
                Some(p) => {
                    assert(line@.subrange(0, j as int) + (seq![line@[j as int]] + p) =~= line@.subrange(
                        0,
                        j + 1,
                    ) + p);
                },
                None => {},
            }
        }
        rem = rem - l;
        j = j + 1;
    }
    proof {
        assert(line@.subrange(0, j as int) + seq![] =~= line@.subrange(0, j as int));
    }
    Some(slice_vec(line, 0, j))
}


// ---------------------------------------------------------------------------
// Reading instructions out of trimmed lines
// ---------------------------------------------------------------------------
/// The first two words after a prefix.
pub open spec fn two_words_after(l: Seq<char>, p: Seq<char>) -> Option<(Seq<char>, Seq<char>)> {
    match strip_prefix(l, p) {
        Some(rest) => if words(rest).len() >= 2 {
            Some((words(rest)[0], words(rest)[1]))
        } else {
            None
        },
        None => None,
    }
}

/// `MOV dst src`.
pub open spec fn mov_of(l: Seq<char>) -> Option<(Seq<char>, Seq<char>)> {
    two_words_after(l, "MOV "@)
}

/// `LOAD_U64_IMMEDIATE dst imm`.
pub open spec fn load_imm_of(l: Seq<char>) -> Option<(Seq<char>, Seq<char>)> {
    two_words_after(l, "LOAD_U64_IMMEDIATE "@)
}

/// `ADD_U64_IMMEDIATE dst imm` (`true`) or `SUB_U64_IMMEDIATE dst imm`.
pub open spec fn add_sub_imm_of(l: Seq<char>) -> Option<(Seq<char>, Seq<char>, bool)> {
    if strip_prefix(l, "ADD_U64_IMMEDIATE "@) is Some {
        match two_words_after(l, "ADD_U64_IMMEDIATE "@) {
            Some((d, imm)) => Some((d, imm, true)),
            None => None,
        }
    } else {
        match two_words_after(l, "SUB_U64_IMMEDIATE "@) {
            Some((d, imm)) => Some((d, imm, false)),
            None => None,
        }
    }
}

/// The label of `JUMP addr label`.
pub open spec fn jump_only_of(l: Seq<char>) -> Option<Seq<char>> {
    match strip_prefix(l, "JUMP "@) {
        Some(rest) => if words(rest).len() >= 2 {
            Some(words(rest)[1])
        } else {
            None
        },
        None => None,
    }
}

/// `(reg_a, reg_b, label)` of `GTE_U64_JUMP addr reg_a reg_b label`.
pub open spec fn gte_jump_of(l: Seq<char>) -> Option<(Seq<char>, Seq<char>, Seq<char>)> {
    match strip_prefix(l, "GTE_U64_JUMP "@) {
        Some(rest) => if words(rest).len() >= 4 {
            Some((words(rest)[1], words(rest)[2], words(rest)[3]))
        } else {
            None
        },
        None => None,
    }
}

/// The last word of a jump (`JUMP` or any `..._JUMP`) with operands.
pub open spec fn jump_label_of(l: Seq<char>) -> Option<Seq<char>> {
    let w = words(l);
    if w.len() >= 2 && (is_suffix("_JUMP"@, w[0]) || w[0] == "JUMP"@) {
        Some(w.last())
    } else {
        None
    }
}

/// The register a `MOV` or `LOAD_U64_IMMEDIATE` writes.
pub open spec fn def_reg_of(l: Seq<char>) -> Option<(Seq<char>, bool)> {
    match mov_of(l) {
        Some((d, _)) => Some((d, true)),
        None => match load_imm_of(l) {
            Some((d, _)) => Some((d, true)),
            None => None,
        },
    }
}

/// A label line: ends with `:` and holds no space.
pub open spec fn is_label_line(t: Seq<char>) -> bool {
    t.len() > 0 && t.last() == ':' && !t.contains(' ')
}

/// `str::trim_end_matches(':')`.
pub open spec fn strip_colons(t: Seq<char>) -> Seq<char>
    decreases t.len(),
{
    if t.len() > 0 && t.last() == ':' {
        strip_colons(t.drop_last())
    } else {
        t
    }
}

fn two_words_after_exec(l: &[char], p: &str) -> (r: Option<(Vec<char>, Vec<char>)>)
    ensures
        match r {
            Some((a, b)) => two_words_after(l@, p@) == Some((a@, b@)),
            None => two_words_after(l@, p@) is None,
        },
{
    let pc = str_to_chars(p);
    match strip_prefix_chars(l, pc.as_slice()) {
        None => None,
        Some(rest) => {
            let mut ws = split_words(rest.as_slice());
            if ws.len() >= 2 {
                let b = ws.remove(1);
                let a = ws.remove(0);
                Some((a, b))
            } else {
                None
            }
        },
    }
}

/// Whether a text equals a literal.
fn is_text(t: &[char], lit: &str) -> (r: bool)
    ensures
        r == (t@ == lit@),
{
    let l = str_to_chars(lit);
    chars_eq(t, l.as_slice())
}

fn copy_chars(t: &[char]) -> (r: Vec<char>)
    ensures
        r@ == t@,
{
    let r = slice_vec(t, 0, t.len());
    assert(t@.subrange(0, t@.len() as int) =~= t@);
    r
}

fn strip_colons_exec(t: &[char]) -> (r: Vec<char>)
    ensures
        r@ == strip_colons(t@),
{
    let mut e = t.len();
    assert(t@.subrange(0, e as int) =~= t@);
    while e > 0 && t[e - 1] == ':'
        invariant
            e <= t@.len(),
            strip_colons(t@) == strip_colons(t@.subrange(0, e as int)),
        decreases e,
    {
        proof {
            assert(t@.subrange(0, e as int).drop_last() =~= t@.subrange(0, e - 1));
        }
        e = e - 1;
    }
    slice_vec(t, 0, e)
}

fn is_label_line_exec(t: &[char]) -> (r: bool)
    ensures
        r == is_label_line(t@),
{
    ends_with_char(t, ':') && !contains_char(t, ' ')
}

/// The lines of a pass, as texts.
pub open spec fn view_lines(v: Seq<Vec<char>>) -> Seq<Seq<char>> {
    texts_view(v)
}

/// The lines for which `keep` holds, in order.
pub open spec fn keep_where(ls: Seq<Seq<char>>, keep: spec_fn(Seq<char>) -> bool) -> Seq<Seq<char>>
    decreases ls.len(),
{
    if ls.len() == 0 {
        seq![]
    } else {
        keep_where(ls.drop_last(), keep) + if keep(ls.last()) {
            seq![ls.last()]
        } else {
            seq![]
        }
    }
}

/// A `MOV` from a register to itself.
pub open spec fn is_self_mov(l: Seq<char>) -> bool {
    match mov_of(trim(l)) {
        Some((d, s)) => d == s,
        None => false,
    }
}

/// An `ADD_U64_IMMEDIATE` or `SUB_U64_IMMEDIATE` of `0`.
pub open spec fn is_zero_immediate(l: Seq<char>) -> bool {
    match two_words_after(trim(l), "ADD_U64_IMMEDIATE "@) {
        Some((_, imm)) => imm == "0"@,
        None => match two_words_after(trim(l), "SUB_U64_IMMEDIATE "@) {
            Some((_, imm)) => imm == "0"@,
            None => false,
        },
    }
}

/// Each line whose trimmed text equals that of the line before it dropped.
pub open spec fn dedup_lines(ls: Seq<Seq<char>>) -> Seq<Seq<char>>
    decreases ls.len(),
{
    if ls.len() == 0 {
        seq![]
    } else if ls.len() == 1 {
        seq![ls[0]]
    } else {
        dedup_lines(ls.drop_last()) + if trim(ls.last()) == trim(ls[ls.len() - 2]) {
            seq![]
        } else {
            seq![ls.last()]
        }
    }
}

/// `MOV a b; ADD/SUB_U64_IMMEDIATE a imm; MOV c a` at `i`: `(c, b, imm, is_add)`.
pub open spec fn mov_add_mov_at(ls: Seq<Seq<char>>, i: int) -> Option<
    (Seq<char>, Seq<char>, Seq<char>, bool),
> {
    match mov_of(trim(ls[i])) {
        Some((dst1, src1)) => match add_sub_imm_of(trim(ls[i + 1])) {
            Some((add_dst, imm, is_add)) => if add_dst == dst1 {
                match mov_of(trim(ls[i + 2])) {
                    Some((dst3, src3)) => if src3 == dst1 {
                        Some((dst3, src1, imm, is_add))
                    } else {
                        None
                    },
                    None => None,
                }
            } else {
                None
            },
            None => None,
        },
        None => None,
    }
}

pub open spec fn imm_op(is_add: bool) -> Seq<char> {
    if is_add {
        "ADD_U64_IMMEDIATE"@
    } else {
        "SUB_U64_IMMEDIATE"@
    }
}

/// `fold_mov_add_mov` from line `i`, after `acc`.
pub open spec fn mov_add_mov_from(ls: Seq<Seq<char>>, i: int, acc: Seq<Seq<char>>) -> Option<
    Seq<Seq<char>>,
>
    decreases ls.len() - i,
{
    if 0 <= i && i + 2 < ls.len() {
        match mov_add_mov_at(ls, i) {
            Some((dst3, src1, imm, is_add)) => match (indent(ls[i + 1]), indent(ls[i])) {
                (Some(ind2), Some(ind1)) => mov_add_mov_from(
                    ls,
                    i + 3,
                    acc + seq![
                        ind1 + "MOV "@ + dst3 + " "@ + src1,
                        ind2 + imm_op(is_add) + " "@ + dst3 + " "@ + imm,
                    ],
                ),
                _ => None,
            },
            None => mov_add_mov_from(ls, i + 1, acc.push(ls[i])),
        }
    } else if 0 <= i <= ls.len() {
        Some(acc + ls.subrange(i, ls.len() as int))
    } else {
        None
    }
}

/// `LOAD_U64_IMMEDIATE a imm; MOV b a` at `i`: `(b, imm)`.
pub open spec fn load_mov_at(ls: Seq<Seq<char>>, i: int) -> Option<(Seq<char>, Seq<char>)> {
    match load_imm_of(trim(ls[i])) {
        Some((load_dst, imm)) => match mov_of(trim(ls[i + 1])) {
            Some((mov_dst, mov_src)) => if mov_src == load_dst {
                Some((mov_dst, imm))
            } else {
                None
            },
            None => None,
        },
        None => None,
    }
}

/// `fold_load_mov` from line `i`, after `acc`.
pub open spec fn load_mov_from(ls: Seq<Seq<char>>, i: int, acc: Seq<Seq<char>>) -> Option<
    Seq<Seq<char>>,
>
    decreases ls.len() - i,
{
    if 0 <= i < ls.len() {
        if i + 1 < ls.len() && load_mov_at(ls, i) is Some {
            let (mov_dst, imm) = load_mov_at(ls, i).unwrap();
            match indent(ls[i]) {
                Some(ind) => load_mov_from(
                    ls,
                    i + 2,
                    acc.push(ind + "LOAD_U64_IMMEDIATE "@ + mov_dst + " "@ + imm),
                ),
                None => None,
            }
        } else {
            load_mov_from(ls, i + 1, acc.push(ls[i]))
        }
    } else {
        Some(acc)
    }
}

/// `MOV a b; MOV c a` at `i`: `(c, b)`.
pub open spec fn mov_chain_at(ls: Seq<Seq<char>>, i: int) -> Option<(Seq<char>, Seq<char>)> {
    match mov_of(trim(ls[i])) {
        Some((dst, src)) => match mov_of(trim(ls[i + 1])) {
            Some((next_dst, next_src)) => if next_src == dst {
                Some((next_dst, src))
            } else {
                None
            },
            None => None,
        },
        None => None,
    }
}

/// `collapse_mov_chain` from line `i`, after `acc`.
pub open spec fn mov_chain_from(ls: Seq<Seq<char>>, i: int, acc: Seq<Seq<char>>) -> Option<
    Seq<Seq<char>>,
>
    decreases ls.len() - i,
{
    if 0 <= i < ls.len() {
        if i + 1 < ls.len() && mov_chain_at(ls, i) is Some {
            let (next_dst, src) = mov_chain_at(ls, i).unwrap();
            match indent(ls[i + 1]) {
                Some(ind) => mov_chain_from(
                    ls,
                    i + 2,
                    acc.push(ls[i]).push(ind + "MOV "@ + next_dst + " "@ + src),
                ),
                None => None,
            }
        } else {
            mov_chain_from(ls, i + 1, acc.push(ls[i]))
        }
    } else {
        Some(acc)
    }
}

/// Two writes of one register in a row, at `i`.
pub open spec fn overwritten_at(ls: Seq<Seq<char>>, i: int) -> bool {
    match def_reg_of(trim(ls[i])) {
        Some((def, is_def)) => is_def && match def_reg_of(trim(ls[i + 1])) {
            Some((next_def, next_is_def)) => next_is_def && def == next_def,
            None => false,
        },
        None => false,
    }
}

/// `remove_overwritten_defs` from line `i`, after `acc`.
pub open spec fn overwritten_from(ls: Seq<Seq<char>>, i: int, acc: Seq<Seq<char>>) -> Seq<Seq<char>>
    decreases ls.len() - i,
{
    if 0 <= i < ls.len() {
        if i + 1 < ls.len() && overwritten_at(ls, i) {
            overwritten_from(ls, i + 1, acc)
        } else {
            overwritten_from(ls, i + 1, acc.push(ls[i]))
        }
    } else {
        acc
    }
}

/// The optimizer: a sequence of passes over the lines of assembly text.
pub struct AsmOptimizer;

impl AsmOptimizer {
    pub(crate) fn parse_mov(line: &[char]) -> (r: Option<(Vec<char>, Vec<char>)>)
        ensures
            match r {
                Some((a, b)) => mov_of(line@) == Some((a@, b@)),
                None => mov_of(line@) is None,
            },
    {
        two_words_after_exec(line, "MOV ")
    }

    pub(crate) fn parse_load_imm(line: &[char]) -> (r: Option<(Vec<char>, Vec<char>)>)
        ensures
            match r {
                Some((a, b)) => load_imm_of(line@) == Some((a@, b@)),
                None => load_imm_of(line@) is None,
            },
    {
        two_words_after_exec(line, "LOAD_U64_IMMEDIATE ")
    }

    fn parse_add_sub_imm(line: &[char]) -> (r: Option<(Vec<char>, Vec<char>, bool)>)
        ensures
            match r {
                Some((a, b, add)) => add_sub_imm_of(line@) == Some((a@, b@, add)),
                None => add_sub_imm_of(line@) is None,
            },
    {
        let add = str_to_chars("ADD_U64_IMMEDIATE ");
        if strip_prefix_chars(line, add.as_slice()).is_some() {
            match two_words_after_exec(line, "ADD_U64_IMMEDIATE ") {
                Some((d, imm)) => Some((d, imm, true)),
                None => None,
            }
        } else {
            match two_words_after_exec(line, "SUB_U64_IMMEDIATE ") {
                Some((d, imm)) => Some((d, imm, false)),
                None => None,
            }
        }
    }

    fn parse_jump_only(line: &[char]) -> (r: Option<Vec<char>>)
        ensures
            match r {
                Some(a) => jump_only_of(line@) == Some(a@),
                None => jump_only_of(line@) is None,
            },
    {
        let p = str_to_chars("JUMP ");
        match strip_prefix_chars(line, p.as_slice()) {
            None => None,
            Some(rest) => {
                let mut ws = split_words(rest.as_slice());
                if ws.len() >= 2 {
                    Some(ws.remove(1))
                } else {
                    None
                }
            },
        }
    }

    fn parse_gte_jump(line: &[char]) -> (r: Option<(Vec<char>, Vec<char>, Vec<char>)>)
        ensures
            match r {
                Some((a, b, c)) => gte_jump_of(line@) == Some((a@, b@, c@)),
                None => gte_jump_of(line@) is None,
            },
    {
        let p = str_to_chars("GTE_U64_JUMP ");
        match strip_prefix_chars(line, p.as_slice()) {
            None => None,
            Some(rest) => {
                let mut ws = split_words(rest.as_slice());
                if ws.len() >= 4 {
                    let c = ws.remove(3);
                    let b = ws.remove(2);
                    let a = ws.remove(1);
                    Some((a, b, c))
                } else {
                    None
                }
            },
        }
    }

    fn parse_jump_label(line: &[char]) -> (r: Option<Vec<char>>)
        ensures
            match r {
                Some(a) => jump_label_of(line@) == Some(a@),
                None => jump_label_of(line@) is None,
            },
    {
        let mut ws = split_words(line);
        if ws.len() < 2 {
            return None;
        }
        let suffix = str_to_chars("_JUMP");
        let op = copy_chars(ws[0].as_slice());
        let is_jump = if op.len() >= suffix.len() {
            let tail = slice_vec(op.as_slice(), op.len() - suffix.len(), op.len());
            chars_eq(tail.as_slice(), suffix.as_slice())
        } else {
            false
        };
        if is_jump || is_text(op.as_slice(), "JUMP") {
            let last = ws.len() - 1;
            Some(ws.remove(last))
        } else {
            None
        }
    }

    fn parse_def_reg(line: &[char]) -> (r: Option<(Vec<char>, bool)>)
        ensures
            match r {
                Some((a, d)) => def_reg_of(line@) == Some((a@, d)),
                None => def_reg_of(line@) is None,
            },
    {
        match Self::parse_mov(line) {
            Some((d, _)) => Some((d, true)),
            None => match Self::parse_load_imm(line) {
                Some((d, _)) => Some((d, true)),
                None => None,
            },
        }
    }

    fn remove_self_mov(lines: &mut Vec<Vec<char>>)
        ensures
            view_lines(final(lines)@) == keep_where(
                view_lines(old(lines)@),
                |l: Seq<char>| !is_self_mov(l),
            ),
    {
        let ghost ls = view_lines(lines@);
        let mut out: Vec<Vec<char>> = Vec::new();
        let mut i: usize = 0;
        while i < lines.len()
            invariant
                i <= lines@.len(),
                ls == view_lines(lines@),
                view_lines(out@) == keep_where(ls.take(i as int), |l: Seq<char>| !is_self_mov(l)),
            decreases lines@.len() - i,
        {
            let t = trim_chars(lines[i].as_slice());
            let keep = match Self::parse_mov(t.as_slice()) {
                Some((d, s)) => !chars_eq(d.as_slice(), s.as_slice()),
                None => true,
            };
            proof {
                assert(ls.take(i + 1).drop_last() =~= ls.take(i as int));
                assert(ls.take(i + 1).last() == ls[i as int]);
            }
            if keep {
                let l = copy_chars(lines[i].as_slice());
                proof {
                    assert(view_lines(out@.push(l)) =~= view_lines(out@).push(l@));
                }
                out.push(l);
            } else {
                proof {
                    assert(view_lines(out@) =~= view_lines(out@) + seq![]);
                }
            }
            i = i + 1;
        }
        proof {
            assert(ls.take(i as int) =~= ls);
        }
        *lines = out;
    }

    fn remove_zero_immediates(lines: &mut Vec<Vec<char>>)
        ensures
            view_lines(final(lines)@) == keep_where(
                view_lines(old(lines)@),
                |l: Seq<char>| !is_zero_immediate(l),
            ),
    {
        let ghost ls = view_lines(lines@);
        let mut out: Vec<Vec<char>> = Vec::new();
        let mut i: usize = 0;
        while i < lines.len()
            invariant
                i <= lines@.len(),
                ls == view_lines(lines@),
                view_lines(out@) == keep_where(ls.take(i as int), |l: Seq<char>| !is_zero_immediate(l)),
            decreases lines@.len() - i,
        {
            let t = trim_chars(lines[i].as_slice());
            let keep = match two_words_after_exec(t.as_slice(), "ADD_U64_IMMEDIATE ") {
                Some((_, imm)) => !is_text(imm.as_slice(), "0"),
                None => match two_words_after_exec(t.as_slice(), "SUB_U64_IMMEDIATE ") {
                    Some((_, imm)) => !is_text(imm.as_slice(), "0"),
                    None => true,
                },
            };
            proof {
                assert(ls.take(i + 1).drop_last() =~= ls.take(i as int));
                assert(ls.take(i + 1).last() == ls[i as int]);
            }
            if keep {
                let l = copy_chars(lines[i].as_slice());
                proof {
                    assert(view_lines(out@.push(l)) =~= view_lines(out@).push(l@));
                }
                out.push(l);
            } else {
                proof {
                    assert(view_lines(out@) =~= view_lines(out@) + seq![]);
                }
            }
            i = i + 1;
        }
        proof {
            assert(ls.take(i as int) =~= ls);
        }
        *lines = out;
    }

    fn remove_duplicate_lines(lines: &mut Vec<Vec<char>>)
        ensures
            view_lines(final(lines)@) == dedup_lines(view_lines(old(lines)@)),
    {
        let ghost ls = view_lines(lines@);
        let mut out: Vec<Vec<char>> = Vec::new();
        let mut prev: Option<Vec<char>> = None;
        let mut i: usize = 0;
        while i < lines.len()
            invariant
                i <= lines@.len(),
                ls == view_lines(lines@),
                view_lines(out@) == dedup_lines(ls.take(i as int)),
                i == 0 ==> prev is None,
                i > 0 ==> (prev matches Some(p) && p@ == trim(ls[i - 1])),
            decreases lines@.len() - i,
        {
            let trimmed = trim_chars(lines[i].as_slice());
            let dup = match &prev {
                Some(p) => chars_eq(p.as_slice(), trimmed.as_slice()),
                None => false,
            };
            proof {
                assert(ls.take(i + 1).drop_last() =~= ls.take(i as int));
                assert(ls.take(i + 1).last() == ls[i as int]);
                if i > 0 {
                    assert(ls.take(i + 1)[i - 1] == ls[i - 1]);
                }
            }
            if !dup {
                let l = copy_chars(lines[i].as_slice());
                proof {
                    assert(view_lines(out@.push(l)) =~= view_lines(out@).push(l@));
                    if i == 0 {
                        assert(view_lines(out@.push(l)) =~= seq![ls[0]]);
                    }
                }
                out.push(l);
            } else {
                proof {
                    assert(view_lines(out@) =~= view_lines(out@) + seq![]);
                }
            }
            prev = Some(trimmed);
            i = i + 1;
        }
        proof {
            assert(ls.take(i as int) =~= ls);
        }
        *lines = out;
    }
}


/// A copy of the lines from `i` on, appended to `out`.
fn push_rest(out: &mut Vec<Vec<char>>, lines: &Vec<Vec<char>>, i: usize)
    requires
        i <= lines@.len(),
    ensures
        view_lines(final(out)@) == view_lines(old(out)@) + view_lines(lines@).subrange(
            i as int,
            lines@.len() as int,
        ),
{
    let ghost ls = view_lines(lines@);
    let mut k = i;
    while k < lines.len()
        invariant
            i <= k <= lines@.len(),
            ls == view_lines(lines@),
            view_lines(out@) == view_lines(old(out)@) + ls.subrange(i as int, k as int),
        decreases lines@.len() - k,
    {
        let l = copy_chars(lines[k].as_slice());
        proof {
            assert(view_lines(out@.push(l)) =~= view_lines(out@).push(l@));
            assert(ls.subrange(i as int, k + 1) =~= ls.subrange(i as int, k as int).push(ls[k as int]));
        }
        out.push(l);
        k = k + 1;
    }
}

/// `a + b + c + d + e` of char texts.
fn cat5(a: &[char], b: &str, c: &[char], d: &str, e: &[char]) -> (r: Vec<char>)
    ensures
        r@ == a@ + b@ + c@ + d@ + e@,
{
    let mut r = copy_chars(a);
    append_str(&mut r, b);
    append_chars(&mut r, c);
    append_str(&mut r, d);
    append_chars(&mut r, e);
    r
}

impl AsmOptimizer {
    fn mov_add_mov_at_exec(lines: &Vec<Vec<char>>, i: usize) -> (r: Option<
        (Vec<char>, Vec<char>, Vec<char>, bool),
    >)
        requires
            i + 2 < lines.len(),
        ensures
            match r {
                Some((a, b, c, d)) => mov_add_mov_at(view_lines(lines@), i as int) == Some(
                    (a@, b@, c@, d),
                ),
                None => mov_add_mov_at(view_lines(lines@), i as int) is None,
            },
    {
        let l1 = trim_chars(lines[i].as_slice());
        let l2 = trim_chars(lines[i + 1].as_slice());
        let l3 = trim_chars(lines[i + 2].as_slice());
        let (dst1, src1) = match Self::parse_mov(l1.as_slice()) {
            Some(x) => x,
            None => return None,
        };
        let (add_dst, imm, is_add) = match Self::parse_add_sub_imm(l2.as_slice()) {
            Some(x) => x,
            None => return None,
        };
        if !chars_eq(add_dst.as_slice(), dst1.as_slice()) {
            return None;
        }
        let (dst3, src3) = match Self::parse_mov(l3.as_slice()) {
            Some(x) => x,
            None => return None,
        };
        if !chars_eq(src3.as_slice(), dst1.as_slice()) {
            return None;
        }
        Some((dst3, src1, imm, is_add))
    }

    /// `MOV a b; ADD/SUB_U64_IMMEDIATE a imm; MOV c a` becomes
    /// `MOV c b; ADD/SUB_U64_IMMEDIATE c imm`. `false` where an indentation
    /// cannot be sliced.
    fn fold_mov_add_mov(lines: &mut Vec<Vec<char>>) -> (ok: bool)
        ensures
            match mov_add_mov_from(view_lines(old(lines)@), 0, seq![]) {
                Some(r) => ok && view_lines(final(lines)@) == r,
                None => !ok,
            },
    {
        let ghost ls = view_lines(lines@);
        let mut out: Vec<Vec<char>> = Vec::new();
        let mut i: usize = 0;
        proof {
            assert(view_lines(out@) =~= seq![]);
        }
        while lines.len() > 2 && i < lines.len() - 2
            invariant
                i <= lines.len(),
                ls == view_lines(lines@),
                mov_add_mov_from(ls, i as int, view_lines(out@)) == mov_add_mov_from(ls, 0, seq![]),
            decreases lines@.len() - i,
        {
            match Self::mov_add_mov_at_exec(lines, i) {
                Some((dst3, src1, imm, is_add)) => {
                    let indent2 = indent_of(lines[i + 1].as_slice());
                    let indent1 = indent_of(lines[i].as_slice());
                    match (indent2, indent1) {
                        (Some(ind2), Some(ind1)) => {
                            let a = cat5(ind1.as_slice(), "MOV ", dst3.as_slice(), " ", src1.as_slice());
                            let op = if is_add {
                                "ADD_U64_IMMEDIATE"
                            } else {
                                "SUB_U64_IMMEDIATE"
                            };
                            let mut b = copy_chars(ind2.as_slice());
                            append_str(&mut b, op);
                            append_str(&mut b, " ");
                            append_chars(&mut b, dst3.as_slice());
                            append_str(&mut b, " ");
                            append_chars(&mut b, imm.as_slice());
                            proof {
                                assert(view_lines(out@.push(a).push(b)) =~= view_lines(out@) + seq![a@, b@]);
                            }
                            out.push(a);
                            out.push(b);
                            i = i + 3;
                        },
                        _ => return false,
                    }
                },
                None => {
                    let l = copy_chars(lines[i].as_slice());
                    proof {
                        assert(view_lines(out@.push(l)) =~= view_lines(out@).push(l@));
                    }
                    out.push(l);
                    i = i + 1;
                },
            }
        }
        push_rest(&mut out, lines, i);
        *lines = out;
        true
    }

    fn load_mov_at_exec(lines: &Vec<Vec<char>>, i: usize) -> (r: Option<(Vec<char>, Vec<char>)>)
        requires
            i + 1 < lines.len(),
        ensures
            match r {
                Some((a, b)) => load_mov_at(view_lines(lines@), i as int) == Some((a@, b@)),
                None => load_mov_at(view_lines(lines@), i as int) is None,
            },
    {
        let t = trim_chars(lines[i].as_slice());
        let nt = trim_chars(lines[i + 1].as_slice());
        let (load_dst, imm) = match Self::parse_load_imm(t.as_slice()) {
            Some(x) => x,
            None => return None,
        };
        let (mov_dst, mov_src) = match Self::parse_mov(nt.as_slice()) {
            Some(x) => x,
            None => return None,
        };
        if chars_eq(mov_src.as_slice(), load_dst.as_slice()) {
            Some((mov_dst, imm))
        } else {
            None
        }
    }

    /// `LOAD_U64_IMMEDIATE a imm; MOV b a` becomes `LOAD_U64_IMMEDIATE b imm`.
    fn fold_load_mov(lines: &mut Vec<Vec<char>>) -> (ok: bool)
        ensures
            match load_mov_from(view_lines(old(lines)@), 0, seq![]) {
                Some(r) => ok && view_lines(final(lines)@) == r,
                None => !ok,
            },
    {
        let ghost ls = view_lines(lines@);
        let mut out: Vec<Vec<char>> = Vec::new();
        let mut i: usize = 0;
        proof {
            assert(view_lines(out@) =~= seq![]);
        }
        while i < lines.len()
            invariant
                i <= lines@.len(),
                ls == view_lines(lines@),
                load_mov_from(ls, i as int, view_lines(out@)) == load_mov_from(ls, 0, seq![]),
            decreases lines@.len() - i,
        {
            let m = if i + 1 < lines.len() {
                Self::load_mov_at_exec(lines, i)
            } else {
                None
            };
            match m {
                Some((mov_dst, imm)) => {
                    match indent_of(lines[i].as_slice()) {
                        Some(ind) => {
                            let a = cat5(ind.as_slice(), "LOAD_U64_IMMEDIATE ", mov_dst.as_slice(), " ", imm.as_slice());
                            proof {
                                assert(view_lines(out@.push(a)) =~= view_lines(out@).push(a@));
                            }
                            out.push(a);
                            i = i + 2;
                        },
                        None => return false,
                    }
                },
                None => {
                    let l = copy_chars(lines[i].as_slice());
                    proof {
                        assert(view_lines(out@.push(l)) =~= view_lines(out@).push(l@));
                    }
                    out.push(l);
                    i = i + 1;
                },
            }
        }
        *lines = out;
        true
    }

    fn mov_chain_at_exec(lines: &Vec<Vec<char>>, i: usize) -> (r: Option<(Vec<char>, Vec<char>)>)
        requires
            i + 1 < lines.len(),
        ensures
            match r {
                Some((a, b)) => mov_chain_at(view_lines(lines@), i as int) == Some((a@, b@)),
                None => mov_chain_at(view_lines(lines@), i as int) is None,
            },
    {
        let t = trim_chars(lines[i].as_slice());
        let nt = trim_chars(lines[i + 1].as_slice());
        let (dst, src) = match Self::parse_mov(t.as_slice()) {
            Some(x) => x,
            None => return None,
        };
        let (next_dst, next_src) = match Self::parse_mov(nt.as_slice()) {
            Some(x) => x,
            None => return None,
        };
        if chars_eq(next_src.as_slice(), dst.as_slice()) {
            Some((next_dst, src))
        } else {
            None
        }
    }

    /// `MOV a b; MOV c a` becomes `MOV a b; MOV c b`.
    fn collapse_mov_chain(lines: &mut Vec<Vec<char>>) -> (ok: bool)
        ensures
            match mov_chain_from(view_lines(old(lines)@), 0, seq![]) {
                Some(r) => ok && view_lines(final(lines)@) == r,
                None => !ok,
            },
    {
        let ghost ls = view_lines(lines@);
        let mut out: Vec<Vec<char>> = Vec::new();
        let mut i: usize = 0;
        proof {
            assert(view_lines(out@) =~= seq![]);
        }
        while i < lines.len()
            invariant
                i <= lines@.len(),
                ls == view_lines(lines@),
                mov_chain_from(ls, i as int, view_lines(out@)) == mov_chain_from(ls, 0, seq![]),
            decreases lines@.len() - i,
        {
            let m = if i + 1 < lines.len() {
                Self::mov_chain_at_exec(lines, i)
            } else {
                None
            };
            match m {
                Some((next_dst, src)) => {
                    let l = copy_chars(lines[i].as_slice());
                    match indent_of(lines[i + 1].as_slice()) {
                        Some(ind) => {
                            let a = cat5(ind.as_slice(), "MOV ", next_dst.as_slice(), " ", src.as_slice());
                            proof {
                                assert(view_lines(out@.push(l).push(a)) =~= view_lines(out@).push(l@).push(a@));
                            }
                            out.push(l);
                            out.push(a);
                            i = i + 2;
                        },
                        None => return false,
                    }
                },
                None => {
                    let l = copy_chars(lines[i].as_slice());
                    proof {
                        assert(view_lines(out@.push(l)) =~= view_lines(out@).push(l@));
                    }
                    out.push(l);
                    i = i + 1;
                },
            }
        }
        *lines = out;
        true
    }

    fn overwritten_at_exec(lines: &Vec<Vec<char>>, i: usize) -> (r: bool)
        requires
            i + 1 < lines.len(),
        ensures
            r == overwritten_at(view_lines(lines@), i as int),
    {
        let t = trim_chars(lines[i].as_slice());
        let nt = trim_chars(lines[i + 1].as_slice());
        match Self::parse_def_reg(t.as_slice()) {
            Some((def, is_def)) => is_def && match Self::parse_def_reg(nt.as_slice()) {
                Some((next_def, next_is_def)) => next_is_def && chars_eq(
                    def.as_slice(),
                    next_def.as_slice(),
                ),
                None => false,
            },
            None => false,
        }
    }

    /// A write of a register that the next line writes again is dropped.
    fn remove_overwritten_defs(lines: &mut Vec<Vec<char>>)
        ensures
            view_lines(final(lines)@) == overwritten_from(view_lines(old(lines)@), 0, seq![]),
    {
        let ghost ls = view_lines(lines@);
        let mut out: Vec<Vec<char>> = Vec::new();
        let mut i: usize = 0;
        proof {
            assert(view_lines(out@) =~= seq![]);
        }
        while i < lines.len()
            invariant
                i <= lines@.len(),
                ls == view_lines(lines@),
                overwritten_from(ls, i as int, view_lines(out@)) == overwritten_from(ls, 0, seq![]),
            decreases lines@.len() - i,
        {
            if i + 1 < lines.len() && Self::overwritten_at_exec(lines, i) {
                i = i + 1;
            } else {
                let l = copy_chars(lines[i].as_slice());
                proof {
                    assert(view_lines(out@.push(l)) =~= view_lines(out@).push(l@));
                }
                out.push(l);
                i = i + 1;
            }
        }
        *lines = out;
    }
}


// ---------------------------------------------------------------------------
// Passes that collect edits, then rebuild the lines
// ---------------------------------------------------------------------------
/// Lines to put in place of line `at`, and ranges of lines (both ends
/// included) to drop.
pub struct Edit {
    pub at: int,
    pub rep: Seq<Seq<char>>,
    pub drop: Seq<(int, int)>,
}

/// What a pass does at one line.
pub enum Step {
    Skip,
    Apply(Edit),
    /// Slicing an indentation fails.
    Fault,
}

/// The replacements and the dropped lines collected so far.
pub struct EditState {
    pub rep: Map<int, Seq<Seq<char>>>,
    pub rm: Set<int>,
}

pub open spec fn in_ranges(k: int, rs: Seq<(int, int)>) -> bool {
    exists|j: int| 0 <= j < rs.len() && (#[trigger] rs[j]).0 <= k <= rs[j].1
}

/// A later replacement of the same line wins.
pub open spec fn apply_edit(st: EditState, e: Edit) -> EditState {
    EditState {
        rep: st.rep.insert(e.at, e.rep),
        rm: st.rm.union(Set::new(|k: int| in_ranges(k, e.drop))),
    }
}

pub open spec fn empty_edits() -> EditState {
    EditState { rep: Map::empty(), rm: Set::empty() }
}

/// What line `k` becomes.
pub open spec fn piece(ls: Seq<Seq<char>>, st: EditState, k: int) -> Seq<Seq<char>> {
    if st.rep.contains_key(k) {
        st.rep[k]
    } else if st.rm.contains(k) {
        seq![]
    } else {
        seq![ls[k]]
    }
}

/// Lines `0..k`, each replaced, dropped or kept.
pub open spec fn rebuild(ls: Seq<Seq<char>>, st: EditState, k: int) -> Seq<Seq<char>>
    decreases k,
{
    if k <= 0 {
        seq![]
    } else {
        rebuild(ls, st, k - 1) + piece(ls, st, k - 1)
    }
}

/// The passes that collect edits.
#[derive(Clone, Copy, PartialEq, Eq)]
pub enum Pass {
    LoopMatchIncrement,
    SimpleCounterLoop,
    SimpleLoopIncrement,
    InlineJumpBlock,
}

/// The pass looks at line `i` while `i + window < len`.
pub open spec fn window(pass: Pass) -> int {
    match pass {
        Pass::LoopMatchIncrement => 3,
        Pass::SimpleCounterLoop => 8,
        Pass::SimpleLoopIncrement => 5,
        Pass::InlineJumpBlock => 0,
    }
}

/// The last label line whose label is `label`, among lines `0..k`.
pub open spec fn label_pos_upto(ls: Seq<Seq<char>>, label: Seq<char>, k: int) -> Option<int>
    decreases k,
{
    if k <= 0 {
        None
    } else if is_label_line(trim(ls[k - 1])) && strip_colons(trim(ls[k - 1])) == label {
        Some(k - 1)
    } else {
        label_pos_upto(ls, label, k - 1)
    }
}

/// Where a label stands (its last definition).
pub open spec fn label_pos(ls: Seq<Seq<char>>, label: Seq<char>) -> Option<int> {
    label_pos_upto(ls, label, ls.len() as int)
}

/// How many of lines `0..k` jump to `label`.
pub open spec fn ref_count_upto(ls: Seq<Seq<char>>, label: Seq<char>, k: int) -> int
    decreases k,
{
    if k <= 0 {
        0
    } else {
        ref_count_upto(ls, label, k - 1) + if jump_label_of(trim(ls[k - 1])) == Some(label) {
            1int
        } else {
            0int
        }
    }
}

pub open spec fn ref_count(ls: Seq<Seq<char>>, label: Seq<char>) -> int {
    ref_count_upto(ls, label, ls.len() as int)
}

/// The first of lines `k..` that jumps to `label` (or the length).
pub open spec fn first_ref_from(ls: Seq<Seq<char>>, label: Seq<char>, k: int) -> int
    decreases ls.len() - k,
{
    if 0 <= k < ls.len() && jump_label_of(trim(ls[k])) != Some(label) {
        first_ref_from(ls, label, k + 1)
    } else {
        k
    }
}

/// The first label line among lines `k..` (or the length).
pub open spec fn next_label_line(ls: Seq<Seq<char>>, k: int) -> int
    decreases ls.len() - k,
{
    if 0 <= k < ls.len() && !is_label_line(trim(ls[k])) {
        next_label_line(ls, k + 1)
    } else {
        k
    }
}

/// A block that `inline_single_use_jump_block` may copy: `MOV` and
/// `LOAD_U64_IMMEDIATE` lines, then a `JUMP`.
pub open spec fn inlinable(block: Seq<Seq<char>>) -> bool {
    forall|j: int|
        0 <= j < block.len() ==> if j == block.len() - 1 {
            is_prefix("JUMP "@, #[trigger] trim(block[j]))
        } else {
            is_prefix("MOV "@, trim(block[j])) || is_prefix("LOAD_U64_IMMEDIATE "@, trim(block[j]))
        }
}

/// A label jumped to from one `JUMP` only, whose block (up to the next
/// label) is at most three lines of moves and loads ending in a `JUMP`: the
/// block takes the place of that `JUMP`, and the label and block go.
pub open spec fn inline_at(ls: Seq<Seq<char>>, k: int) -> Step {
    let t = trim(ls[k]);
    let label = strip_colons(t);
    if !(is_label_line(t) && label_pos(ls, label) == Some(k)) {
        Step::Skip
    } else if ref_count(ls, label) != 1 {
        Step::Skip
    } else {
        let ref_idx = first_ref_from(ls, label, 0);
        let end = next_label_line(ls, k + 1);
        let block = ls.subrange(k + 1, end);
        if !(0 <= ref_idx < ls.len()) || !is_prefix("JUMP "@, trim(ls[ref_idx])) {
            Step::Skip
        } else if block.len() == 0 || block.len() > 3 || !inlinable(block) {
            Step::Skip
        } else {
            Step::Apply(Edit { at: ref_idx, rep: block, drop: seq![(k, end - 1)] })
        }
    }
}

/// `GTE_U64_JUMP _ a b ARM; MOV t a; ADD_U64_IMMEDIATE t imm; JUMP _ END` at
/// `i`: `(a, b, ARM, t, imm, END)`.
pub open spec fn lmi_head(ls: Seq<Seq<char>>, i: int) -> Option<
    (Seq<char>, Seq<char>, Seq<char>, Seq<char>, Seq<char>, Seq<char>),
> {
    match gte_jump_of(trim(ls[i])) {
        None => None,
        Some((reg_a, reg_b, label_arm)) => match mov_of(trim(ls[i + 1])) {
            None => None,
            Some((mov_dst, mov_src)) => match add_sub_imm_of(trim(ls[i + 2])) {
                None => None,
                Some((add_dst, imm, is_add)) => if is_add && mov_dst == add_dst && mov_src == reg_a {
                    match jump_only_of(trim(ls[i + 3])) {
                        None => None,
                        Some(label_end) => Some((reg_a, reg_b, label_arm, mov_dst, imm, label_end)),
                    }
                } else {
                    None
                },
            },
        },
    }
}

/// The arm block at `p`: `ARM:`, a load, `JUMP _ EXIT`, a load, `JUMP _ END`.
pub open spec fn lmi_arm(ls: Seq<Seq<char>>, p: int, label_end: Seq<char>) -> Option<Seq<char>> {
    if !(0 <= p && p + 4 < ls.len()) {
        None
    } else {
        match jump_only_of(trim(ls[p + 2])) {
            None => None,
            Some(exit_label) => if !is_prefix("LOAD_U64_IMMEDIATE "@, trim(ls[p + 1]))
                || !is_prefix("LOAD_U64_IMMEDIATE "@, trim(ls[p + 3])) {
                None
            } else if jump_only_of(trim(ls[p + 4])) != Some(label_end) {
                None
            } else {
                Some(exit_label)
            },
        }
    }
}

/// The end block at `q`: `END:`, `MOV a t`, a load, `JUMP _ LOOP`.
pub open spec fn lmi_end(ls: Seq<Seq<char>>, q: int, reg_a: Seq<char>, mov_dst: Seq<char>) -> Option<
    Seq<char>,
> {
    if !(0 <= q && q + 3 < ls.len()) {
        None
    } else {
        match jump_only_of(trim(ls[q + 3])) {
            None => None,
            Some(loop_label) => if mov_of(trim(ls[q + 1])) != Some((reg_a, mov_dst)) {
                None
            } else if !is_prefix("LOAD_U64_IMMEDIATE "@, trim(ls[q + 2])) {
                None
            } else {
                Some(loop_label)
            },
        }
    }
}

/// `fold_loop_match_increment` at line `i`: a counter stepped through a
/// temporary becomes a compare, an add and a jump back. The arm block is
/// jumped to once (from the compare) and the end block twice (from the head
/// and from the arm), as the arm/end layout has it.
pub open spec fn loop_match_increment_at(ls: Seq<Seq<char>>, i: int) -> Step {
    match lmi_head(ls, i) {
        None => Step::Skip,
        Some((reg_a, reg_b, label_arm, mov_dst, imm, label_end)) => match (
            label_pos(ls, label_arm),
            label_pos(ls, label_end),
        ) {
            (Some(pa), Some(pe)) => if ref_count(ls, label_arm) != 1 || ref_count(ls, label_end) != 2 {
                Step::Skip
            } else {
                match (lmi_arm(ls, pa, label_end), lmi_end(ls, pe, reg_a, mov_dst)) {
                    (Some(exit_label), Some(loop_label)) => match (
                        indent(ls[i]),
                        indent(ls[i + 2]),
                        indent(ls[i + 3]),
                    ) {
                        (Some(i0), Some(i1), Some(i2)) => Step::Apply(
                            Edit {
                                at: i,
                                rep: seq![
                                    i0 + "GTE_U64_JUMP r255 "@ + reg_a + " "@ + reg_b + " "@ + exit_label,
                                    i1 + "ADD_U64_IMMEDIATE "@ + reg_a + " "@ + imm,
                                    i2 + "JUMP r255 "@ + loop_label,
                                ],
                                drop: seq![(i + 1, i + 3), (pa, pa + 4), (pe, pe + 3)],
                            },
                        ),
                        _ => Step::Fault,
                    },
                    _ => Step::Skip,
                }
            },
            _ => Step::Skip,
        },
    }
}

/// `LOOP:; LOAD_U64_IMMEDIATE k n; GTE_U64_JUMP _ c k ARM; MOV t c;
/// ADD_U64_IMMEDIATE t 1; JUMP _ END` at `i`: `(LOOP, k, n, c, ARM, t, END)`.
pub open spec fn loop_head(ls: Seq<Seq<char>>, i: int) -> Option<
    (Seq<char>, Seq<char>, Seq<char>, Seq<char>, Seq<char>, Seq<char>, Seq<char>),
> {
    let t0 = trim(ls[i]);
    if !(t0.len() > 0 && t0.last() == ':') {
        None
    } else {
        match load_imm_of(trim(ls[i + 1])) {
            None => None,
            Some((imm_reg, imm_val)) => match gte_jump_of(trim(ls[i + 2])) {
                None => None,
                Some((counter_reg, limit_reg, arm_label)) => if limit_reg != imm_reg {
                    None
                } else {
                    match mov_of(trim(ls[i + 3])) {
                        None => None,
                        Some((mov_tmp, mov_src)) => match add_sub_imm_of(trim(ls[i + 4])) {
                            None => None,
                            Some((add_dst, add_imm, is_add)) => if !is_add || mov_src != counter_reg
                                || add_dst != mov_tmp || add_imm != "1"@ {
                                None
                            } else {
                                match jump_only_of(trim(ls[i + 5])) {
                                    None => None,
                                    Some(end_label) => Some(
                                        (
                                            strip_colons(t0),
                                            imm_reg,
                                            imm_val,
                                            counter_reg,
                                            arm_label,
                                            mov_tmp,
                                            end_label,
                                        ),
                                    ),
                                }
                            },
                        },
                    }
                },
            },
        }
    }
}

/// The arm block at `p`: `ARM:`, `LOAD_U64_IMMEDIATE r1 0`, `JUMP _ EXIT`.
pub open spec fn counter_arm(ls: Seq<Seq<char>>, p: int) -> Option<Seq<char>> {
    if !(0 <= p && p + 2 < ls.len()) {
        None
    } else if load_imm_of(trim(ls[p + 1])) != Some(("r1"@, "0"@)) {
        None
    } else {
        jump_only_of(trim(ls[p + 2]))
    }
}

/// The end block at `q`: `END:`, `MOV c t`, `LOAD_U64_IMMEDIATE t 0`,
/// `JUMP _ LOOP`.
pub open spec fn counter_end(
    ls: Seq<Seq<char>>,
    q: int,
    loop_label: Seq<char>,
    counter_reg: Seq<char>,
    mov_tmp: Seq<char>,
) -> bool {
    &&& 0 <= q && q + 3 < ls.len()
    &&& jump_only_of(trim(ls[q + 3])) == Some(loop_label)
    &&& mov_of(trim(ls[q + 1])) == Some((counter_reg, mov_tmp))
    &&& load_imm_of(trim(ls[q + 2])) == Some((mov_tmp, "0"@))
}

/// The four lines a counted loop's head becomes.
pub open spec fn loop_head_lines(
    ind1: Seq<char>,
    ind2: Seq<char>,
    ind3: Seq<char>,
    imm_reg: Seq<char>,
    imm_val: Seq<char>,
    counter_reg: Seq<char>,
    exit_label: Seq<char>,
    loop_label: Seq<char>,
) -> Seq<Seq<char>> {
    seq![
        ind1 + "LOAD_U64_IMMEDIATE "@ + imm_reg + " "@ + imm_val,
        ind2 + "GTE_U64_JUMP r255 "@ + counter_reg + " "@ + imm_reg + " "@ + exit_label,
        ind3 + "ADD_U64_IMMEDIATE "@ + counter_reg + " 1"@,
        ind3 + "JUMP r255 "@ + loop_label,
    ]
}

/// `fold_simple_counter_loop` at line `i`.
pub open spec fn simple_counter_loop_at(ls: Seq<Seq<char>>, i: int) -> Step {
    match loop_head(ls, i) {
        None => Step::Skip,
        Some((loop_label, imm_reg, imm_val, counter_reg, arm_label, mov_tmp, end_label)) => match mov_of(
            trim(ls[i + 6]),
        ) {
            None => Step::Skip,
            Some((mb_dst, mb_src)) => match label_pos(ls, arm_label) {
                None => Step::Skip,
                Some(arm_pos) => match counter_arm(ls, arm_pos) {
                    None => Step::Skip,
                    Some(exit_label) => match label_pos(ls, end_label) {
                        None => Step::Skip,
                        Some(end_pos) => if !counter_end(ls, end_pos, loop_label, mb_dst, mb_src)
                            || mb_dst != counter_reg || mb_src != mov_tmp {
                            Step::Skip
                        } else {
                            match (indent(ls[i + 1]), indent(ls[i + 2]), indent(ls[i + 3])) {
                                (Some(ind1), Some(ind2), Some(ind3)) => Step::Apply(
                                    Edit {
                                        at: i + 1,
                                        rep: loop_head_lines(
                                            ind1,
                                            ind2,
                                            ind3,
                                            imm_reg,
                                            imm_val,
                                            counter_reg,
                                            exit_label,
                                            loop_label,
                                        ),
                                        drop: seq![
                                            (i + 2, i + 6),
                                            (arm_pos, arm_pos + 2),
                                            (end_pos, end_pos + 3),
                                        ],
                                    },
                                ),
                                _ => Step::Fault,
                            }
                        },
                    },
                },
            },
        },
    }
}

/// The arm and end blocks laid out right after the loop head at `i`: the
/// exit label of the arm.
pub open spec fn sli_local(
    ls: Seq<Seq<char>>,
    i: int,
    loop_label: Seq<char>,
    counter_reg: Seq<char>,
    arm_label: Seq<char>,
    mov_tmp: Seq<char>,
    end_label: Seq<char>,
) -> Option<Seq<char>> {
    if !(0 <= i && i + 14 < ls.len()) {
        None
    } else if trim(ls[i + 6]) != arm_label.push(':') || load_imm_of(trim(ls[i + 7])) != Some(
        ("r1"@, "0"@),
    ) {
        None
    } else {
        match jump_only_of(trim(ls[i + 8])) {
            None => None,
            Some(exit_label) => if load_imm_of(trim(ls[i + 9])) == Some((mov_tmp, "0"@))
                && jump_only_of(trim(ls[i + 10])) == Some(end_label) && trim(ls[i + 11])
                == end_label.push(':') && mov_of(trim(ls[i + 12])) == Some((counter_reg, mov_tmp))
                && load_imm_of(trim(ls[i + 13])) == Some((mov_tmp, "0"@)) && jump_only_of(
                trim(ls[i + 14]),
            ) == Some(loop_label) {
                Some(exit_label)
            } else {
                None
            },
        }
    }
}

/// Whether the arm at `p` goes on with `LOAD_U64_IMMEDIATE t 0; JUMP _ END`.
pub open spec fn arm_has_extra(ls: Seq<Seq<char>>, p: int, mov_tmp: Seq<char>, end_label: Seq<char>) -> bool {
    &&& 0 <= p && p + 4 < ls.len()
    &&& load_imm_of(trim(ls[p + 3])) == Some((mov_tmp, "0"@))
    &&& jump_only_of(trim(ls[p + 4])) == Some(end_label)
}

/// `fold_simple_loop_increment` at line `i`: the arm and end blocks are
/// looked for right after the head, else where their labels stand. An end
/// label on the third line from the end makes the pass read past the last
/// line (`Fault`).
pub open spec fn simple_loop_increment_at(ls: Seq<Seq<char>>, i: int) -> Step {
    match loop_head(ls, i) {
        None => Step::Skip,
        Some((loop_label, imm_reg, imm_val, counter_reg, arm_label, mov_tmp, end_label)) => {
            let local = sli_local(ls, i, loop_label, counter_reg, arm_label, mov_tmp, end_label);
            let arm_pos_opt: Option<int> = if local is Some {
                Some(i + 6)
            } else {
                label_pos(ls, arm_label)
            };
            match arm_pos_opt {
                None => Step::Skip,
                Some(arm_pos) => if !(arm_pos + 2 < ls.len()) {
                    Step::Skip
                } else {
                    let exit_opt: Option<Seq<char>> = if local is Some {
                        local
                    } else {
                        jump_only_of(trim(ls[arm_pos + 2]))
                    };
                    match exit_opt {
                        None => Step::Skip,
                        Some(exit_label) => if load_imm_of(trim(ls[arm_pos + 1])) != Some(
                            ("r1"@, "0"@),
                        ) {
                            Step::Skip
                        } else {
                            let extra: int = if local is Some || arm_has_extra(
                                ls,
                                arm_pos,
                                mov_tmp,
                                end_label,
                            ) {
                                2
                            } else {
                                0
                            };
                            let end_pos_opt: Option<int> = if local is Some {
                                Some(i + 11)
                            } else {
                                label_pos(ls, end_label)
                            };
                            match end_pos_opt {
                                None => Step::Skip,
                                Some(end_pos) => if !(end_pos + 2 < ls.len()) {
                                    Step::Skip
                                } else if !(end_pos + 3 < ls.len()) {
                                    Step::Fault
                                } else if !counter_end(ls, end_pos, loop_label, counter_reg, mov_tmp) {
                                    Step::Skip
                                } else {
                                    match (indent(ls[i + 1]), indent(ls[i + 2]), indent(ls[i + 3])) {
                                        (Some(ind1), Some(ind2), Some(ind3)) => Step::Apply(
                                            Edit {
                                                at: i + 1,
                                                rep: loop_head_lines(
                                                    ind1,
                                                    ind2,
                                                    ind3,
                                                    imm_reg,
                                                    imm_val,
                                                    counter_reg,
                                                    exit_label,
                                                    loop_label,
                                                ),
                                                drop: seq![
                                                    (i + 2, i + 5),
                                                    (arm_pos, arm_pos + 2 + extra),
                                                    (end_pos, end_pos + 3),
                                                ],
                                            },
                                        ),
                                        _ => Step::Fault,
                                    }
                                },
                            }
                        },
                    }
                },
            }
        },
    }
}

/// The step of a pass at line `i`.
pub open spec fn step_at(pass: Pass, ls: Seq<Seq<char>>, i: int) -> Step {
    match pass {
        Pass::LoopMatchIncrement => loop_match_increment_at(ls, i),
        Pass::SimpleCounterLoop => simple_counter_loop_at(ls, i),
        Pass::SimpleLoopIncrement => simple_loop_increment_at(ls, i),
        Pass::InlineJumpBlock => inline_at(ls, i),
    }
}

/// Steps `i..` of a pass, after the edits in `st`.
pub open spec fn scan(pass: Pass, ls: Seq<Seq<char>>, i: int, st: EditState) -> Option<EditState>
    decreases ls.len() - i,
{
    if 0 <= i && i + window(pass) < ls.len() {
        match step_at(pass, ls, i) {
            Step::Skip => scan(pass, ls, i + 1, st),
            Step::Apply(e) => scan(pass, ls, i + 1, apply_edit(st, e)),
            Step::Fault => None,
        }
    } else {
        Some(st)
    }
}

/// The lines after a pass, or `None` where it fails.
pub open spec fn run_pass(pass: Pass, ls: Seq<Seq<char>>) -> Option<Seq<Seq<char>>> {
    match scan(pass, ls, 0, empty_edits()) {
        Some(st) => Some(rebuild(ls, st, ls.len() as int)),
        None => None,
    }
}

/// An edit as the passes build it.
pub struct EditExec {
    pub at: usize,
    pub rep: Vec<Vec<char>>,
    pub drop: Vec<(usize, usize)>,
}

pub open spec fn view_ranges(d: Seq<(usize, usize)>) -> Seq<(int, int)> {
    d.map_values(|r: (usize, usize)| (r.0 as int, r.1 as int))
}

pub open spec fn view_edit(e: EditExec) -> Edit {
    Edit { at: e.at as int, rep: view_lines(e.rep@), drop: view_ranges(e.drop@) }
}

/// The edit stays within `n` lines.
pub open spec fn edit_fits(e: EditExec, n: int) -> bool {
    &&& e.at < n
    &&& forall|j: int| 0 <= j < e.drop@.len() ==> #[trigger] e.drop@[j].0 <= e.drop@[j].1 < n
}

pub enum StepExec {
    Skip,
    Apply(EditExec),
    Fault,
}

pub open spec fn view_step(s: StepExec) -> Step {
    match s {
        StepExec::Skip => Step::Skip,
        StepExec::Apply(e) => Step::Apply(view_edit(e)),
        StepExec::Fault => Step::Fault,
    }
}

/// The exec edit state agrees with `st` on lines `0..n`.
pub open spec fn state_agrees(
    rep: Seq<Option<Vec<Vec<char>>>>,
    rm: Seq<bool>,
    st: EditState,
    n: int,
) -> bool {
    &&& rep.len() == n
    &&& rm.len() == n
    &&& forall|k: int|
        0 <= k < n ==> (#[trigger] rep[k] is Some <==> st.rep.contains_key(k)) && (rep[k] is Some
            ==> view_lines(rep[k]->0@) == st.rep[k])
    &&& forall|k: int| 0 <= k < n ==> (#[trigger] rm[k] <==> st.rm.contains(k))
}

pub proof fn lemma_rebuild_step(ls: Seq<Seq<char>>, st: EditState, k: int)
    requires
        k >= 0,
    ensures
        rebuild(ls, st, k + 1) == rebuild(ls, st, k) + piece(ls, st, k),
{
}

fn copy_lines(v: &Vec<Vec<char>>) -> (r: Vec<Vec<char>>)
    ensures
        view_lines(r@) == view_lines(v@),
{
    let mut r: Vec<Vec<char>> = Vec::new();
    push_rest(&mut r, v, 0);
    proof {
        assert(view_lines(v@).subrange(0, v@.len() as int) =~= view_lines(v@));
        assert(view_lines(Seq::<Vec<char>>::empty()) =~= seq![]);
    }
    r
}

impl AsmOptimizer {
    /// `label_pos`, by a scan from the end.
    fn find_label_pos(lines: &Vec<Vec<char>>, label: &[char]) -> (r: Option<usize>)
        ensures
            match r {
                Some(p) => label_pos(view_lines(lines@), label@) == Some(p as int),
                None => label_pos(view_lines(lines@), label@) is None,
            },
    {
        let ghost ls = view_lines(lines@);
        let mut k = lines.len();
        while k > 0
            invariant
                k <= lines@.len(),
                ls == view_lines(lines@),
                label_pos(ls, label@) == label_pos_upto(ls, label@, k as int),
            decreases k,
        {
            let t = trim_chars(lines[k - 1].as_slice());
            if is_label_line_exec(t.as_slice()) {
                let name = strip_colons_exec(t.as_slice());
                if chars_eq(name.as_slice(), label) {
                    return Some(k - 1);
                }
            }
            k = k - 1;
        }
        None
    }

    /// `ref_count`, and the first line that jumps to `label`.
    fn count_refs(lines: &Vec<Vec<char>>, label: &[char]) -> (r: (usize, usize))
        ensures
            r.0 == ref_count(view_lines(lines@), label@),
            r.1 == first_ref_from(view_lines(lines@), label@, 0),
    {
        let ghost ls = view_lines(lines@);
        let mut count: usize = 0;
        let mut first: usize = lines.len();
        let mut k: usize = 0;
        while k < lines.len()
            invariant
                k <= lines@.len(),
                ls == view_lines(lines@),
                count == ref_count_upto(ls, label@, k as int),
                count <= k,
                first <= lines@.len(),
                first < k ==> first == first_ref_from(ls, label@, 0),
                first >= k ==> first_ref_from(ls, label@, 0) == first_ref_from(ls, label@, k as int),
                first >= k ==> first == lines@.len(),
            decreases lines@.len() - k,
        {
            let t = trim_chars(lines[k].as_slice());
            let hit = match Self::parse_jump_label(t.as_slice()) {
                Some(l) => chars_eq(l.as_slice(), label),
                None => false,
            };
            if hit {
                count = count + 1;
                if first >= k {
                    first = k;
                }
            }
            k = k + 1;
        }
        (count, first)
    }

    fn next_label_line_exec(lines: &Vec<Vec<char>>, k: usize) -> (r: usize)
        requires
            k <= lines@.len(),
        ensures
            r == next_label_line(view_lines(lines@), k as int),
            k <= r <= lines@.len(),
    {
        let ghost ls = view_lines(lines@);
        let mut j = k;
        while j < lines.len()
            invariant
                k <= j <= lines@.len(),
                ls == view_lines(lines@),
                next_label_line(ls, j as int) == next_label_line(ls, k as int),
            decreases lines@.len() - j,
        {
            let t = trim_chars(lines[j].as_slice());
            if is_label_line_exec(t.as_slice()) {
                return j;
            }
            j = j + 1;
        }
        j
    }

    fn inline_at_exec(lines: &Vec<Vec<char>>, k: usize) -> (r: StepExec)
        requires
            k < lines.len(),
        ensures
            view_step(r) == inline_at(view_lines(lines@), k as int),
            r matches StepExec::Apply(e) ==> edit_fits(e, lines@.len() as int),
    {
        let ghost ls = view_lines(lines@);
        let t = trim_chars(lines[k].as_slice());
        let label = strip_colons_exec(t.as_slice());
        if !is_label_line_exec(t.as_slice()) {
            return StepExec::Skip;
        }
        match Self::find_label_pos(lines, label.as_slice()) {
            Some(p) => {
                if p != k {
                    return StepExec::Skip;
                }
            },
            None => return StepExec::Skip,
        }
        let (count, ref_idx) = Self::count_refs(lines, label.as_slice());
        if count != 1 {
            return StepExec::Skip;
        }
        let end = Self::next_label_line_exec(lines, k + 1);
        if ref_idx >= lines.len() {
            return StepExec::Skip;
        }
        let rt = trim_chars(lines[ref_idx].as_slice());
        let jp = str_to_chars("JUMP ");
        if !starts_with(rt.as_slice(), jp.as_slice()) {
            return StepExec::Skip;
        }
        if end - (k + 1) == 0 || end - (k + 1) > 3 {
            return StepExec::Skip;
        }
        let mut block: Vec<Vec<char>> = Vec::new();
        let mut j = k + 1;
        let mut ok = true;
        while j < end
            invariant
                k + 1 <= j <= end <= lines@.len(),
                ls == view_lines(lines@),
                view_lines(block@) == ls.subrange(k + 1, j as int),
                ok == inlinable_upto(ls.subrange(k + 1, end as int), j - (k + 1)),
            decreases end - j,
        {
            let bt = trim_chars(lines[j].as_slice());
            let good = if j == end - 1 {
                let jp2 = str_to_chars("JUMP ");
                starts_with(bt.as_slice(), jp2.as_slice())
            } else {
                let mv = str_to_chars("MOV ");
                let ld = str_to_chars("LOAD_U64_IMMEDIATE ");
                starts_with(bt.as_slice(), mv.as_slice()) || starts_with(bt.as_slice(), ld.as_slice())
            };
            ok = ok && good;
            let l = copy_chars(lines[j].as_slice());
            proof {
                assert(view_lines(block@.push(l)) =~= view_lines(block@).push(l@));
                assert(ls.subrange(k + 1, j + 1) =~= ls.subrange(k + 1, j as int).push(ls[j as int]));
                assert(ls.subrange(k + 1, end as int)[j - (k + 1)] == ls[j as int]);
            }
            block.push(l);
            j = j + 1;
        }
        proof {
            lemma_inlinable_upto(ls.subrange(k + 1, end as int));
        }
        if !ok {
            return StepExec::Skip;
        }
        let mut drop: Vec<(usize, usize)> = Vec::new();
        drop.push((k, end - 1));
        proof {
            assert(view_ranges(drop@) =~= seq![(k as int, end - 1)]);
        }
        StepExec::Apply(EditExec { at: ref_idx, rep: block, drop })
    }

    fn step_at_exec(pass: Pass, lines: &Vec<Vec<char>>, i: usize) -> (r: StepExec)
        requires
            i + window(pass) < lines.len(),
        ensures
            view_step(r) == step_at(pass, view_lines(lines@), i as int),
            r matches StepExec::Apply(e) ==> edit_fits(e, lines@.len() as int),
    {
        match pass {
            Pass::LoopMatchIncrement => Self::loop_match_increment_at_exec(lines, i),
            Pass::SimpleCounterLoop => Self::simple_counter_loop_at_exec(lines, i),
            Pass::SimpleLoopIncrement => Self::simple_loop_increment_at_exec(lines, i),
            Pass::InlineJumpBlock => Self::inline_at_exec(lines, i),
        }
    }

    /// Runs a pass: collects the edits of each line, then rebuilds the lines.
    /// `false` where a step fails.
    fn run_edits(pass: Pass, lines: &mut Vec<Vec<char>>) -> (ok: bool)
        ensures
            match run_pass(pass, view_lines(old(lines)@)) {
                Some(r) => ok && view_lines(final(lines)@) == r,
                None => !ok,
            },
    {
        let ghost ls = view_lines(lines@);
        let n = lines.len();
        let mut rep: Vec<Option<Vec<Vec<char>>>> = Vec::new();
        let mut rm: Vec<bool> = Vec::new();
        while rep.len() < n
            invariant
                rep@.len() == rm@.len() <= n,
                forall|k: int| 0 <= k < rep@.len() ==> #[trigger] rep@[k] is None,
                forall|k: int| 0 <= k < rm@.len() ==> !#[trigger] rm@[k],
            decreases n - rep@.len(),
        {
            rep.push(None);
            rm.push(false);
        }
        let ghost mut st = empty_edits();
        let mut i: usize = 0;
        let w: usize = match pass {
            Pass::LoopMatchIncrement => 3,
            Pass::SimpleCounterLoop => 8,
            Pass::SimpleLoopIncrement => 5,
            Pass::InlineJumpBlock => 0,
        };
        while i < n && w < n - i
            invariant
                n == lines@.len(),
                ls == view_lines(lines@),
                w == window(pass),
                i <= n,
                state_agrees(rep@, rm@, st, n as int),
                scan(pass, ls, i as int, st) == scan(pass, ls, 0, empty_edits()),
            decreases n - i,
        {
            match Self::step_at_exec(pass, lines, i) {
                StepExec::Skip => {},
                StepExec::Fault => return false,
                StepExec::Apply(e) => {
                    let ghost e_view = view_edit(e);
                    let ghost st2 = apply_edit(st, e_view);
                    rep.set(e.at, Some(e.rep));
                    let mut r: usize = 0;
                    while r < e.drop.len()
                        invariant
                            n == lines@.len(),
                            edit_fits(e, n as int),
                            rep@.len() == n,
                            rm@.len() == n,
                            r <= e.drop@.len(),
                            forall|k: int|
                                0 <= k < n ==> (#[trigger] rm@[k] <==> (st.rm.contains(k) || exists|j: int|
                                    0 <= j < r && (#[trigger] e.drop@[j]).0 <= k <= e.drop@[j].1)),
                        decreases e.drop@.len() - r,
                    {
                        let (lo, hi) = e.drop[r];
                        let mut idx = lo;
                        while idx <= hi
                            invariant
                                n == lines@.len(),
                                edit_fits(e, n as int),
                                rm@.len() == n,
                                r < e.drop@.len(),
                                (lo, hi) == e.drop@[r as int],
                                lo <= idx <= hi + 1,
                                hi < n,
                                forall|k: int|
                                    0 <= k < n ==> (#[trigger] rm@[k] <==> (st.rm.contains(k) || (exists|j: int|
                                        0 <= j < r && (#[trigger] e.drop@[j]).0 <= k <= e.drop@[j].1) || (lo <= k < idx))),
                            decreases hi + 1 - idx,
                        {
                            rm.set(idx, true);
                            idx = idx + 1;
                        }
                        proof {
                            assert forall|k: int| 0 <= k < n implies (#[trigger] rm@[k] <==> (st.rm.contains(k) || exists|j: int|
                                0 <= j < r + 1 && (#[trigger] e.drop@[j]).0 <= k <= e.drop@[j].1)) by {
                                if lo <= k <= hi {
                                    assert(e.drop@[r as int].0 <= k <= e.drop@[r as int].1);
                                }
                            }
                        }
                        r = r + 1;
                    }
                    proof {
                        assert forall|k: int| 0 <= k < n implies (#[trigger] rm@[k] <==> st2.rm.contains(k)) by {
                            if rm@[k] && !st.rm.contains(k) {
                                let j = choose|j: int| 0 <= j < e.drop@.len() && (#[trigger] e.drop@[j]).0 <= k <= e.drop@[j].1;
                                assert(view_ranges(e.drop@)[j] == (e.drop@[j].0 as int, e.drop@[j].1 as int));
                            }
                            if st2.rm.contains(k) && !st.rm.contains(k) {
                                let j = choose|j: int| 0 <= j < e_view.drop.len() && (#[trigger] e_view.drop[j]).0 <= k <= e_view.drop[j].1;
                                assert(e_view.drop[j] == (e.drop@[j].0 as int, e.drop@[j].1 as int));
                            }
                        }
                        st = st2;
                    }
                },
            }
            i = i + 1;
        }
        let mut out: Vec<Vec<char>> = Vec::new();
        proof {
            assert(view_lines(out@) =~= seq![]);
        }
        let mut k: usize = 0;
        while k < n
            invariant
                n == lines@.len(),
                ls == view_lines(lines@),
                k <= n,
                state_agrees(rep@, rm@, st, n as int),
                view_lines(out@) == rebuild(ls, st, k as int),
            decreases n - k,
        {
            proof {
                lemma_rebuild_step(ls, st, k as int);
            }
            match &rep[k] {
                Some(r) => {
                    let c = copy_lines(r);
                    let mut j: usize = 0;
                    let ghost before = view_lines(out@);
                    while j < c.len()
                        invariant
                            j <= c@.len(),
                            view_lines(out@) == before + view_lines(c@).subrange(0, j as int),
                        decreases c@.len() - j,
                    {
                        let l = copy_chars(c[j].as_slice());
                        proof {
                            assert(view_lines(out@.push(l)) =~= view_lines(out@).push(l@));
                            assert(view_lines(c@).subrange(0, j + 1) =~= view_lines(c@).subrange(0, j as int).push(view_lines(c@)[j as int]));
                        }
                        out.push(l);
                        j = j + 1;
                    }
                    proof {
                        assert(view_lines(c@).subrange(0, j as int) =~= view_lines(c@));
                    }
                },
                None => {
                    if !rm[k] {
                        let l = copy_chars(lines[k].as_slice());
                        proof {
                            assert(view_lines(out@.push(l)) =~= view_lines(out@) + seq![l@]);
                        }
                        out.push(l);
                    } else {
                        proof {
                            assert(view_lines(out@) =~= view_lines(out@) + seq![]);
                        }
                    }
                },
            }
            k = k + 1;
        }
        *lines = out;
        true
    }

    /// A block jumped to from one `JUMP` only is copied in its place (see
    /// `inline_at`).
    fn inline_single_use_jump_block(lines: &mut Vec<Vec<char>>)
        ensures
            run_pass(Pass::InlineJumpBlock, view_lines(old(lines)@)) == Some(
                view_lines(final(lines)@),
            ),
    {
        proof {
            lemma_inline_never_faults(view_lines(lines@), 0, empty_edits());
        }
        let ok = Self::run_edits(Pass::InlineJumpBlock, lines);
    }
}

/// `inlinable` on the first `m` lines.
pub open spec fn inlinable_upto(block: Seq<Seq<char>>, m: int) -> bool {
    forall|j: int|
        0 <= j < m ==> if j == block.len() - 1 {
            is_prefix("JUMP "@, #[trigger] trim(block[j]))
        } else {
            is_prefix("MOV "@, trim(block[j])) || is_prefix("LOAD_U64_IMMEDIATE "@, trim(block[j]))
        }
}

pub proof fn lemma_inlinable_upto(block: Seq<Seq<char>>)
    ensures
        inlinable_upto(block, block.len() as int) == inlinable(block),
{
}

pub proof fn lemma_inline_never_faults(ls: Seq<Seq<char>>, i: int, st: EditState)
    ensures
        scan(Pass::InlineJumpBlock, ls, i, st) is Some,
    decreases ls.len() - i,
{
    if 0 <= i && i < ls.len() {
        match step_at(Pass::InlineJumpBlock, ls, i) {
            Step::Skip => lemma_inline_never_faults(ls, i + 1, st),
            Step::Apply(e) => lemma_inline_never_faults(ls, i + 1, apply_edit(st, e)),
            Step::Fault => {},
        }
    }
}


/// The trimmed line `k`.
fn tl(lines: &Vec<Vec<char>>, k: usize) -> (r: Vec<char>)
    requires
        k < lines@.len(),
    ensures
        r@ == trim(view_lines(lines@)[k as int]),
{
    trim_chars(lines[k].as_slice())
}

/// Whether `mov_of(t) == Some((a, b))`.
fn is_mov(t: &[char], a: &[char], b: &[char]) -> (r: bool)
    ensures
        r == (mov_of(t@) == Some((a@, b@))),
{
    match AsmOptimizer::parse_mov(t) {
        Some((d, s)) => chars_eq(d.as_slice(), a) && chars_eq(s.as_slice(), b),
        None => false,
    }
}

/// Whether `load_imm_of(t) == Some((a, imm))`, `imm` a literal.
fn is_load(t: &[char], a: &[char], imm: &str) -> (r: bool)
    ensures
        r == (load_imm_of(t@) == Some((a@, imm@))),
{
    match AsmOptimizer::parse_load_imm(t) {
        Some((d, v)) => chars_eq(d.as_slice(), a) && is_text(v.as_slice(), imm),
        None => false,
    }
}

/// Whether `jump_only_of(t) == Some(l)`.
fn is_jump_to(t: &[char], l: &[char]) -> (r: bool)
    ensures
        r == (jump_only_of(t@) == Some(l@)),
{
    match AsmOptimizer::parse_jump_only(t) {
        Some(x) => chars_eq(x.as_slice(), l),
        None => false,
    }
}

fn has_load_prefix(t: &[char]) -> (r: bool)
    ensures
        r == is_prefix("LOAD_U64_IMMEDIATE "@, t@),
{
    let p = str_to_chars("LOAD_U64_IMMEDIATE ");
    starts_with(t, p.as_slice())
}

fn three_ranges(a: usize, b: usize, c: usize, d: usize, e: usize, f: usize) -> (r: Vec<(usize, usize)>)
    ensures
        view_ranges(r@) == seq![(a as int, b as int), (c as int, d as int), (e as int, f as int)],
        r@ == seq![(a, b), (c, d), (e, f)],
{
    let mut r: Vec<(usize, usize)> = Vec::new();
    r.push((a, b));
    r.push((c, d));
    r.push((e, f));
    proof {
        assert(r@ =~= seq![(a, b), (c, d), (e, f)]);
        assert(view_ranges(r@) =~= seq![(a as int, b as int), (c as int, d as int), (e as int, f as int)]);
    }
    r
}

fn loop_head_lines_exec(
    ind1: &[char],
    ind2: &[char],
    ind3: &[char],
    imm_reg: &[char],
    imm_val: &[char],
    counter_reg: &[char],
    exit_label: &[char],
    loop_label: &[char],
) -> (r: Vec<Vec<char>>)
    ensures
        view_lines(r@) == loop_head_lines(
            ind1@,
            ind2@,
            ind3@,
            imm_reg@,
            imm_val@,
            counter_reg@,
            exit_label@,
            loop_label@,
        ),
{
    let a = cat5(ind1, "LOAD_U64_IMMEDIATE ", imm_reg, " ", imm_val);
    let mut b = cat5(ind2, "GTE_U64_JUMP r255 ", counter_reg, " ", imm_reg);
    append_str(&mut b, " ");
    append_chars(&mut b, exit_label);
    let mut c = copy_chars(ind3);
    append_str(&mut c, "ADD_U64_IMMEDIATE ");
    append_chars(&mut c, counter_reg);
    append_str(&mut c, " 1");
    let mut d = copy_chars(ind3);
    append_str(&mut d, "JUMP r255 ");
    append_chars(&mut d, loop_label);
    let mut r: Vec<Vec<char>> = Vec::new();
    r.push(a);
    r.push(b);
    r.push(c);
    r.push(d);
    proof {
        assert(view_lines(r@) =~= seq![a@, b@, c@, d@]);
    }
    r
}

impl AsmOptimizer {
    fn lmi_head_exec(lines: &Vec<Vec<char>>, i: usize) -> (r: Option<
        (Vec<char>, Vec<char>, Vec<char>, Vec<char>, Vec<char>, Vec<char>),
    >)
        requires
            i + 3 < lines.len(),
        ensures
            match r {
                Some((a, b, c, d, e, f)) => lmi_head(view_lines(lines@), i as int) == Some(
                    (a@, b@, c@, d@, e@, f@),
                ),
                None => lmi_head(view_lines(lines@), i as int) is None,
            },
    {
        let (reg_a, reg_b, label_arm) = match Self::parse_gte_jump(tl(lines, i).as_slice()) {
            Some(x) => x,
            None => return None,
        };
        let (mov_dst, mov_src) = match Self::parse_mov(tl(lines, i + 1).as_slice()) {
            Some(x) => x,
            None => return None,
        };
        let (add_dst, imm, is_add) = match Self::parse_add_sub_imm(tl(lines, i + 2).as_slice()) {
            Some(x) => x,
            None => return None,
        };
        if !(is_add && chars_eq(mov_dst.as_slice(), add_dst.as_slice()) && chars_eq(
            mov_src.as_slice(),
            reg_a.as_slice(),
        )) {
            return None;
        }
        match Self::parse_jump_only(tl(lines, i + 3).as_slice()) {
            Some(label_end) => Some((reg_a, reg_b, label_arm, mov_dst, imm, label_end)),
            None => None,
        }
    }

    fn lmi_arm_exec(lines: &Vec<Vec<char>>, p: usize, label_end: &[char]) -> (r: Option<Vec<char>>)
        ensures
            match r {
                Some(x) => lmi_arm(view_lines(lines@), p as int, label_end@) == Some(x@),
                None => lmi_arm(view_lines(lines@), p as int, label_end@) is None,
            },
            r is Some ==> p + 4 < lines@.len(),
    {
        if !(p < lines.len() && lines.len() - p > 4) {
            return None;
        }
        let exit_label = match Self::parse_jump_only(tl(lines, p + 2).as_slice()) {
            Some(x) => x,
            None => return None,
        };
        if !has_load_prefix(tl(lines, p + 1).as_slice()) || !has_load_prefix(tl(lines, p + 3).as_slice()) {
            return None;
        }
        if !is_jump_to(tl(lines, p + 4).as_slice(), label_end) {
            return None;
        }
        Some(exit_label)
    }

    fn lmi_end_exec(lines: &Vec<Vec<char>>, q: usize, reg_a: &[char], mov_dst: &[char]) -> (r: Option<
        Vec<char>,
    >)
        ensures
            match r {
                Some(x) => lmi_end(view_lines(lines@), q as int, reg_a@, mov_dst@) == Some(x@),
                None => lmi_end(view_lines(lines@), q as int, reg_a@, mov_dst@) is None,
            },
            r is Some ==> q + 3 < lines@.len(),
    {
        if !(q < lines.len() && lines.len() - q > 3) {
            return None;
        }
        let loop_label = match Self::parse_jump_only(tl(lines, q + 3).as_slice()) {
            Some(x) => x,
            None => return None,
        };
        if !is_mov(tl(lines, q + 1).as_slice(), reg_a, mov_dst) {
            return None;
        }
        if !has_load_prefix(tl(lines, q + 2).as_slice()) {
            return None;
        }
        Some(loop_label)
    }

    fn loop_match_increment_at_exec(lines: &Vec<Vec<char>>, i: usize) -> (r: StepExec)
        requires
            i + 3 < lines.len(),
        ensures
            view_step(r) == loop_match_increment_at(view_lines(lines@), i as int),
            r matches StepExec::Apply(e) ==> edit_fits(e, lines@.len() as int),
    {
        let (reg_a, reg_b, label_arm, mov_dst, imm, label_end) = match Self::lmi_head_exec(lines, i) {
            Some(x) => x,
            None => return StepExec::Skip,
        };
        let pa = match Self::find_label_pos(lines, label_arm.as_slice()) {
            Some(x) => x,
            None => return StepExec::Skip,
        };
        let pe = match Self::find_label_pos(lines, label_end.as_slice()) {
            Some(x) => x,
            None => return StepExec::Skip,
        };
        let (count_arm, _) = Self::count_refs(lines, label_arm.as_slice());
        let (count_end, _) = Self::count_refs(lines, label_end.as_slice());
        if count_arm != 1 || count_end != 2 {
            return StepExec::Skip;
        }
        let exit_label = match Self::lmi_arm_exec(lines, pa, label_end.as_slice()) {
            Some(x) => x,
            None => return StepExec::Skip,
        };
        let loop_label = match Self::lmi_end_exec(lines, pe, reg_a.as_slice(), mov_dst.as_slice()) {
            Some(x) => x,
            None => return StepExec::Skip,
        };
        let (i0, i1, i2) = match (
            indent_of(lines[i].as_slice()),
            indent_of(lines[i + 2].as_slice()),
            indent_of(lines[i + 3].as_slice()),
        ) {
            (Some(a), Some(b), Some(c)) => (a, b, c),
            _ => return StepExec::Fault,
        };
        let mut l0 = cat5(i0.as_slice(), "GTE_U64_JUMP r255 ", reg_a.as_slice(), " ", reg_b.as_slice());
        append_str(&mut l0, " ");
        append_chars(&mut l0, exit_label.as_slice());
        let l1 = cat5(i1.as_slice(), "ADD_U64_IMMEDIATE ", reg_a.as_slice(), " ", imm.as_slice());
        let mut l2 = copy_chars(i2.as_slice());
        append_str(&mut l2, "JUMP r255 ");
        append_chars(&mut l2, loop_label.as_slice());
        let mut rep: Vec<Vec<char>> = Vec::new();
        rep.push(l0);
        rep.push(l1);
        rep.push(l2);
        proof {
            assert(view_lines(rep@) =~= seq![l0@, l1@, l2@]);
        }
        let drop = three_ranges(i + 1, i + 3, pa, pa + 4, pe, pe + 3);
        StepExec::Apply(EditExec { at: i, rep, drop })
    }

    fn loop_head_exec(lines: &Vec<Vec<char>>, i: usize) -> (r: Option<
        (Vec<char>, Vec<char>, Vec<char>, Vec<char>, Vec<char>, Vec<char>, Vec<char>),
    >)
        requires
            i + 5 < lines.len(),
        ensures
            match r {
                Some((a, b, c, d, e, f, g)) => loop_head(view_lines(lines@), i as int) == Some(
                    (a@, b@, c@, d@, e@, f@, g@),
                ),
                None => loop_head(view_lines(lines@), i as int) is None,
            },
    {
        let t0 = tl(lines, i);
        if !ends_with_char(t0.as_slice(), ':') {
            return None;
        }
        let (imm_reg, imm_val) = match Self::parse_load_imm(tl(lines, i + 1).as_slice()) {
            Some(x) => x,
            None => return None,
        };
        let (counter_reg, limit_reg, arm_label) = match Self::parse_gte_jump(tl(lines, i + 2).as_slice()) {
            Some(x) => x,
            None => return None,
        };
        if !chars_eq(limit_reg.as_slice(), imm_reg.as_slice()) {
            return None;
        }
        let (mov_tmp, mov_src) = match Self::parse_mov(tl(lines, i + 3).as_slice()) {
            Some(x) => x,
            None => return None,
        };
        let (add_dst, add_imm, is_add) = match Self::parse_add_sub_imm(tl(lines, i + 4).as_slice()) {
            Some(x) => x,
            None => return None,
        };
        if !is_add || !chars_eq(mov_src.as_slice(), counter_reg.as_slice()) || !chars_eq(
            add_dst.as_slice(),
            mov_tmp.as_slice(),
        ) || !is_text(add_imm.as_slice(), "1") {
            return None;
        }
        let end_label = match Self::parse_jump_only(tl(lines, i + 5).as_slice()) {
            Some(x) => x,
            None => return None,
        };
        let loop_label = strip_colons_exec(t0.as_slice());
        Some((loop_label, imm_reg, imm_val, counter_reg, arm_label, mov_tmp, end_label))
    }

    fn counter_arm_exec(lines: &Vec<Vec<char>>, p: usize) -> (r: Option<Vec<char>>)
        ensures
            match r {
                Some(x) => counter_arm(view_lines(lines@), p as int) == Some(x@),
                None => counter_arm(view_lines(lines@), p as int) is None,
            },
            r is Some ==> p + 2 < lines@.len(),
    {
        if !(p < lines.len() && lines.len() - p > 2) {
            return None;
        }
        if !is_load(tl(lines, p + 1).as_slice(), str_to_chars("r1").as_slice(), "0") {
            proof {
                reveal_strlit("r1");
            }
            return None;
        }
        proof {
            reveal_strlit("r1");
        }
        Self::parse_jump_only(tl(lines, p + 2).as_slice())
    }

    fn counter_end_exec(
        lines: &Vec<Vec<char>>,
        q: usize,
        loop_label: &[char],
        counter_reg: &[char],
        mov_tmp: &[char],
    ) -> (r: bool)
        ensures
            r == counter_end(view_lines(lines@), q as int, loop_label@, counter_reg@, mov_tmp@),
    {
        q < lines.len() && lines.len() - q > 3 && is_jump_to(tl(lines, q + 3).as_slice(), loop_label)
            && is_mov(tl(lines, q + 1).as_slice(), counter_reg, mov_tmp) && is_load(
            tl(lines, q + 2).as_slice(),
            mov_tmp,
            "0",
        )
    }

    fn simple_counter_loop_at_exec(lines: &Vec<Vec<char>>, i: usize) -> (r: StepExec)
        requires
            i + 8 < lines.len(),
        ensures
            view_step(r) == simple_counter_loop_at(view_lines(lines@), i as int),
            r matches StepExec::Apply(e) ==> edit_fits(e, lines@.len() as int),
    {
        let (loop_label, imm_reg, imm_val, counter_reg, arm_label, mov_tmp, end_label) =
            match Self::loop_head_exec(lines, i) {
            Some(x) => x,
            None => return StepExec::Skip,
        };
        let (mb_dst, mb_src) = match Self::parse_mov(tl(lines, i + 6).as_slice()) {
            Some(x) => x,
            None => return StepExec::Skip,
        };
        let arm_pos = match Self::find_label_pos(lines, arm_label.as_slice()) {
            Some(x) => x,
            None => return StepExec::Skip,
        };
        let exit_label = match Self::counter_arm_exec(lines, arm_pos) {
            Some(x) => x,
            None => return StepExec::Skip,
        };
        let end_pos = match Self::find_label_pos(lines, end_label.as_slice()) {
            Some(x) => x,
            None => return StepExec::Skip,
        };
        if !Self::counter_end_exec(lines, end_pos, loop_label.as_slice(), mb_dst.as_slice(), mb_src.as_slice())
            || !chars_eq(mb_dst.as_slice(), counter_reg.as_slice()) || !chars_eq(
            mb_src.as_slice(),
            mov_tmp.as_slice(),
        ) {
            return StepExec::Skip;
        }
        let (ind1, ind2, ind3) = match (
            indent_of(lines[i + 1].as_slice()),
            indent_of(lines[i + 2].as_slice()),
            indent_of(lines[i + 3].as_slice()),
        ) {
            (Some(a), Some(b), Some(c)) => (a, b, c),
            _ => return StepExec::Fault,
        };
        let rep = loop_head_lines_exec(
            ind1.as_slice(),
            ind2.as_slice(),
            ind3.as_slice(),
            imm_reg.as_slice(),
            imm_val.as_slice(),
            counter_reg.as_slice(),
            exit_label.as_slice(),
            loop_label.as_slice(),
        );
        let drop = three_ranges(i + 2, i + 6, arm_pos, arm_pos + 2, end_pos, end_pos + 3);
        StepExec::Apply(EditExec { at: i + 1, rep, drop })
    }

    fn sli_local_exec(
        lines: &Vec<Vec<char>>,
        i: usize,
        loop_label: &[char],
        counter_reg: &[char],
        arm_label: &[char],
        mov_tmp: &[char],
        end_label: &[char],
    ) -> (r: Option<Vec<char>>)
        ensures
            match r {
                Some(x) => sli_local(
                    view_lines(lines@),
                    i as int,
                    loop_label@,
                    counter_reg@,
                    arm_label@,
                    mov_tmp@,
                    end_label@,
                ) == Some(x@),
                None => sli_local(
                    view_lines(lines@),
                    i as int,
                    loop_label@,
                    counter_reg@,
                    arm_label@,
                    mov_tmp@,
                    end_label@,
                ) is None,
            },
            r is Some ==> i + 14 < lines@.len(),
    {
        if !(i < lines.len() && lines.len() - i > 14) {
            return None;
        }
        let mut al = copy_chars(arm_label);
        al.push(':');
        let r1 = str_to_chars("r1");
        proof {
            reveal_strlit("r1");
        }
        if !chars_eq(tl(lines, i + 6).as_slice(), al.as_slice()) || !is_load(
            tl(lines, i + 7).as_slice(),
            r1.as_slice(),
            "0",
        ) {
            return None;
        }
        let exit_label = match Self::parse_jump_only(tl(lines, i + 8).as_slice()) {
            Some(x) => x,
            None => return None,
        };
        let mut el = copy_chars(end_label);
        el.push(':');
        if is_load(tl(lines, i + 9).as_slice(), mov_tmp, "0") && is_jump_to(
            tl(lines, i + 10).as_slice(),
            end_label,
        ) && chars_eq(tl(lines, i + 11).as_slice(), el.as_slice()) && is_mov(
            tl(lines, i + 12).as_slice(),
            counter_reg,
            mov_tmp,
        ) && is_load(tl(lines, i + 13).as_slice(), mov_tmp, "0") && is_jump_to(
            tl(lines, i + 14).as_slice(),
            loop_label,
        ) {
            Some(exit_label)
        } else {
            None
        }
    }

    fn simple_loop_increment_at_exec(lines: &Vec<Vec<char>>, i: usize) -> (r: StepExec)
        requires
            i + 5 < lines.len(),
        ensures
            view_step(r) == simple_loop_increment_at(view_lines(lines@), i as int),
            r matches StepExec::Apply(e) ==> edit_fits(e, lines@.len() as int),
    {
        let ghost ls = view_lines(lines@);
        let (loop_label, imm_reg, imm_val, counter_reg, arm_label, mov_tmp, end_label) =
            match Self::loop_head_exec(lines, i) {
            Some(x) => x,
            None => return StepExec::Skip,
        };
        let local = Self::sli_local_exec(
            lines,
            i,
            loop_label.as_slice(),
            counter_reg.as_slice(),
            arm_label.as_slice(),
            mov_tmp.as_slice(),
            end_label.as_slice(),
        );
        let is_local = local.is_some();
        let arm_pos = if is_local {
            i + 6
        } else {
            match Self::find_label_pos(lines, arm_label.as_slice()) {
                Some(x) => x,
                None => return StepExec::Skip,
            }
        };
        if !(arm_pos < lines.len() && lines.len() - arm_pos > 2) {
            return StepExec::Skip;
        }
        let exit_opt = if is_local {
            local
        } else {
            Self::parse_jump_only(tl(lines, arm_pos + 2).as_slice())
        };
        let exit_label = match exit_opt {
            Some(x) => x,
            None => return StepExec::Skip,
        };
        let r1 = str_to_chars("r1");
        proof {
            reveal_strlit("r1");
        }
        if !is_load(tl(lines, arm_pos + 1).as_slice(), r1.as_slice(), "0") {
            return StepExec::Skip;
        }
        let has_extra = is_local || (arm_pos < lines.len() && lines.len() - arm_pos > 4 && is_load(
            tl(lines, arm_pos + 3).as_slice(),
            mov_tmp.as_slice(),
            "0",
        ) && is_jump_to(tl(lines, arm_pos + 4).as_slice(), end_label.as_slice()));
        let extra: usize = if has_extra {
            2
        } else {
            0
        };
        let end_pos = if is_local {
            i + 11
        } else {
            match Self::find_label_pos(lines, end_label.as_slice()) {
                Some(x) => x,
                None => return StepExec::Skip,
            }
        };
        if !(end_pos < lines.len() && lines.len() - end_pos > 2) {
            return StepExec::Skip;
        }
        if !(lines.len() - end_pos > 3) {
            return StepExec::Fault;
        }
        if !Self::counter_end_exec(lines, end_pos, loop_label.as_slice(), counter_reg.as_slice(), mov_tmp.as_slice()) {
            return StepExec::Skip;
        }
        let (ind1, ind2, ind3) = match (
            indent_of(lines[i + 1].as_slice()),
            indent_of(lines[i + 2].as_slice()),
            indent_of(lines[i + 3].as_slice()),
        ) {
            (Some(a), Some(b), Some(c)) => (a, b, c),
            _ => return StepExec::Fault,
        };
        let rep = loop_head_lines_exec(
            ind1.as_slice(),
            ind2.as_slice(),
            ind3.as_slice(),
            imm_reg.as_slice(),
            imm_val.as_slice(),
            counter_reg.as_slice(),
            exit_label.as_slice(),
            loop_label.as_slice(),
        );
        let drop = three_ranges(i + 2, i + 5, arm_pos, arm_pos + 2 + extra, end_pos, end_pos + 3);
        StepExec::Apply(EditExec { at: i + 1, rep, drop })
    }
}


/// The passes in the order `AsmOptimizer::optimize` runs them, on lines.
pub open spec fn optimize_lines(l0: Seq<Seq<char>>) -> Option<Seq<Seq<char>>> {
    match run_pass(Pass::SimpleLoopIncrement, l0) {
        None => None,
        Some(l1) => match run_pass(Pass::SimpleCounterLoop, l1) {
            None => None,
            Some(l2) => match run_pass(Pass::LoopMatchIncrement, l2) {
                None => None,
                Some(l3) => match mov_add_mov_from(l3, 0, seq![]) {
                    None => None,
                    Some(l4) => match run_pass(Pass::InlineJumpBlock, l4) {
                        None => None,
                        Some(l5) => {
                            let l6 = overwritten_from(l5, 0, seq![]);
                            let l7 = keep_where(l6, |l: Seq<char>| !is_zero_immediate(l));
                            match load_mov_from(l7, 0, seq![]) {
                                None => None,
                                Some(l8) => match mov_chain_from(l8, 0, seq![]) {
                                    None => None,
                                    Some(l9) => Some(
                                        dedup_lines(keep_where(l9, |l: Seq<char>| !is_self_mov(l))),
                                    ),
                                },
                            }
                        },
                    },
                },
            },
        },
    }
}

/// The optimized text of `text`, each line followed by `'\n'`; `None` where a
/// pass fails.
pub open spec fn spec_optimize(text: Seq<char>) -> Option<Seq<char>> {
    match optimize_lines(lines(text)) {
        Some(ls) => Some(join_lines(ls)),
        None => None,
    }
}

fn join_lines_exec(ls: &Vec<Vec<char>>) -> (r: Vec<char>)
    ensures
        r@ == join_lines(view_lines(ls@)),
{
    let ghost v = view_lines(ls@);
    let mut out: Vec<char> = Vec::new();
    let mut i: usize = 0;
    proof {
        assert(v.take(0) =~= seq![]);
    }
    while i < ls.len()
        invariant
            i <= ls@.len(),
            v == view_lines(ls@),
            out@ == join_lines(v.take(i as int)),
        decreases ls@.len() - i,
    {
        append_chars(&mut out, ls[i].as_slice());
        out.push('\n');
        proof {
            assert(v.take(i + 1).drop_last() =~= v.take(i as int));
            assert(v.take(i + 1).last() == ls@[i as int]@);
        }
        i = i + 1;
    }
    proof {
        assert(v.take(i as int) =~= v);
    }
    out
}

impl AsmOptimizer {
    /// See `loop_match_increment_at`.
    pub fn fold_loop_match_increment(lines: &mut Vec<Vec<char>>) -> (ok: bool)
        ensures
            match run_pass(Pass::LoopMatchIncrement, view_lines(old(lines)@)) {
                Some(r) => ok && view_lines(final(lines)@) == r,
                None => !ok,
            },
    {
        Self::run_edits(Pass::LoopMatchIncrement, lines)
    }

    /// See `simple_counter_loop_at`.
    fn fold_simple_counter_loop(lines: &mut Vec<Vec<char>>) -> (ok: bool)
        ensures
            match run_pass(Pass::SimpleCounterLoop, view_lines(old(lines)@)) {
                Some(r) => ok && view_lines(final(lines)@) == r,
                None => !ok,
            },
    {
        Self::run_edits(Pass::SimpleCounterLoop, lines)
    }

    /// See `simple_loop_increment_at`.
    fn fold_simple_loop_increment(lines: &mut Vec<Vec<char>>) -> (ok: bool)
        ensures
            match run_pass(Pass::SimpleLoopIncrement, view_lines(old(lines)@)) {
                Some(r) => ok && view_lines(final(lines)@) == r,
                None => !ok,
            },
    {
        Self::run_edits(Pass::SimpleLoopIncrement, lines)
    }

    /// The optimized text, or `None` on the inputs where a pass would slice a
    /// text inside a char or read past the last line.
    pub fn try_optimize(text: &str) -> (r: Option<String>)
        ensures
            match r {
                Some(t) => spec_optimize(text@) == Some(t@),
                None => spec_optimize(text@) is None,
            },
    {
        let chars = str_to_chars(text);
        let mut ls = split_lines(chars.as_slice());
        proof {
            assert(view_lines(ls@) == lines(text@));
        }
        if !Self::fold_simple_loop_increment(&mut ls) {
            return None;
        }
        if !Self::fold_simple_counter_loop(&mut ls) {
            return None;
        }
        if !Self::fold_loop_match_increment(&mut ls) {
            return None;
        }
        if !Self::fold_mov_add_mov(&mut ls) {
            return None;
        }
        Self::inline_single_use_jump_block(&mut ls);
        Self::remove_overwritten_defs(&mut ls);
        Self::remove_zero_immediates(&mut ls);
        if !Self::fold_load_mov(&mut ls) {
            return None;
        }
        if !Self::collapse_mov_chain(&mut ls) {
            return None;
        }
        Self::remove_self_mov(&mut ls);
        Self::remove_duplicate_lines(&mut ls);
        let out = join_lines_exec(&ls);
        Some(chars_to_string(out.as_slice()))
    }

    /// The optimized text: each pass in turn, then the lines joined, each
    /// followed by `'\n'`.
    pub fn optimize(text: &str) -> (r: String)
        requires
            spec_optimize(text@) is Some,
        ensures
            spec_optimize(text@) == Some(r@),
    {
        match Self::try_optimize(text) {
            Some(t) => t,
            None => {
                proof {
                    assert(false);
                }
                String::new()
            },
        }
    }
}


// ---------------------------------------------------------------------------
// Laws of the passes
// ---------------------------------------------------------------------------
/// Every line that a filtering pass keeps passes its test: after
/// `remove_self_mov` no line is `MOV r r`, after `remove_zero_immediates` no
/// line adds or subtracts an immediate 0.
pub proof fn law_keep_where_kept(ls: Seq<Seq<char>>, keep: spec_fn(Seq<char>) -> bool)
    ensures
        forall|k: int| 0 <= k < keep_where(ls, keep).len() ==> keep(#[trigger] keep_where(ls, keep)[k]),
        keep_where(ls, keep).len() <= ls.len(),
    decreases ls.len(),
{
    if ls.len() > 0 {
        law_keep_where_kept(ls.drop_last(), keep);
        let a = keep_where(ls.drop_last(), keep);
        let b: Seq<Seq<char>> = if keep(ls.last()) {
            seq![ls.last()]
        } else {
            seq![]
        };
        assert forall|k: int| 0 <= k < keep_where(ls, keep).len() implies keep(
            #[trigger] keep_where(ls, keep)[k],
        ) by {
            if k < a.len() {
                assert(keep_where(ls, keep)[k] == a[k]);
            } else {
                assert(keep_where(ls, keep)[k] == b[k - a.len()]);
            }
        }
    }
}

proof fn lemma_dedup_last(ls: Seq<Seq<char>>)
    requires
        ls.len() > 0,
    ensures
        dedup_lines(ls).len() > 0,
        trim(dedup_lines(ls).last()) == trim(ls.last()),
    decreases ls.len(),
{
    if ls.len() > 1 {
        lemma_dedup_last(ls.drop_last());
        if trim(ls.last()) == trim(ls[ls.len() - 2]) {
            assert(dedup_lines(ls) =~= dedup_lines(ls.drop_last()));
            assert(ls.drop_last().last() == ls[ls.len() - 2]);
        }
    }
}

/// After `remove_duplicate_lines` no line has the trimmed text of the line
/// before it.
pub proof fn law_dedup_no_repeats(ls: Seq<Seq<char>>)
    ensures
        forall|k: int|
            0 < k < dedup_lines(ls).len() ==> #[trigger] trim(dedup_lines(ls)[k]) != trim(
                dedup_lines(ls)[k - 1],
            ),
    decreases ls.len(),
{
    if ls.len() > 1 {
        law_dedup_no_repeats(ls.drop_last());
        lemma_dedup_last(ls.drop_last());
        let a = dedup_lines(ls.drop_last());
        let d = dedup_lines(ls);
        assert(ls.drop_last().last() == ls[ls.len() - 2]);
        assert forall|k: int| 0 < k < d.len() implies #[trigger] trim(d[k]) != trim(d[k - 1]) by {
            if k < a.len() {
                assert(d[k] == a[k] && d[k - 1] == a[k - 1]);
            } else {
                assert(d[k] == ls.last());
                assert(d[k - 1] == a.last());
            }
        }
    }
}

/// A property of every line of `ls` holds of every line `dedup_lines` keeps.
proof fn lemma_dedup_keeps(ls: Seq<Seq<char>>, p: spec_fn(Seq<char>) -> bool)
    requires
        forall|k: int| 0 <= k < ls.len() ==> p(#[trigger] ls[k]),
    ensures
        forall|k: int| 0 <= k < dedup_lines(ls).len() ==> p(#[trigger] dedup_lines(ls)[k]),
        dedup_lines(ls).len() <= ls.len(),
    decreases ls.len(),
{
    if ls.len() > 1 {
        let a = ls.drop_last();
        assert forall|k: int| 0 <= k < a.len() implies p(#[trigger] a[k]) by {
            assert(a[k] == ls[k]);
        }
        lemma_dedup_keeps(a, p);
        let d = dedup_lines(ls);
        let da = dedup_lines(a);
        assert forall|k: int| 0 <= k < d.len() implies p(#[trigger] d[k]) by {
            if k < da.len() {
                assert(d[k] == da[k]);
            } else {
                assert(d[k] == ls.last());
                assert(p(ls[ls.len() - 1]));
            }
        }
    } else if ls.len() == 1 {
        assert(p(ls[0]));
    }
}

/// What `optimize` gives holds no self-move (`MOV r r`) and no line that
/// repeats the one before it.
pub proof fn law_optimize_output(l0: Seq<Seq<char>>)
    ensures
        optimize_lines(l0) matches Some(out) ==> {
            &&& forall|k: int| 0 <= k < out.len() ==> !is_self_mov(#[trigger] out[k])
            &&& forall|k: int| 0 < k < out.len() ==> #[trigger] trim(out[k]) != trim(out[k - 1])
        },
{
    if let Some(out) = optimize_lines(l0) {
        let l9 = match run_pass(Pass::SimpleLoopIncrement, l0) {
            Some(l1) => match run_pass(Pass::SimpleCounterLoop, l1) {
                Some(l2) => match run_pass(Pass::LoopMatchIncrement, l2) {
                    Some(l3) => match mov_add_mov_from(l3, 0, seq![]) {
                        Some(l4) => match run_pass(Pass::InlineJumpBlock, l4) {
                            Some(l5) => {
                                let l6 = overwritten_from(l5, 0, seq![]);
                                let l7 = keep_where(l6, |l: Seq<char>| !is_zero_immediate(l));
                                match load_mov_from(l7, 0, seq![]) {
                                    Some(l8) => match mov_chain_from(l8, 0, seq![]) {
                                        Some(l9) => l9,
                                        None => seq![],
                                    },
                                    None => seq![],
                                }
                            },
                            None => seq![],
                        },
                        None => seq![],
                    },
                    None => seq![],
                },
                None => seq![],
            },
            None => seq![],
        };
        let keep = |l: Seq<char>| !is_self_mov(l);
        let kept = keep_where(l9, keep);
        assert(out == dedup_lines(kept));
        law_keep_where_kept(l9, keep);
        lemma_dedup_keeps(kept, keep);
        law_dedup_no_repeats(kept);
    }
}


/// Folding `MOV a b; ADD/SUB_U64_IMMEDIATE a imm; MOV c a` keeps what it
/// computes: it becomes `MOV c b` and then the same immediate operation (an
/// add stays an add, a subtract stays a subtract) on `c` with the same
/// immediate, each line at the indentation of the one it comes from.
pub proof fn law_mov_add_mov_keeps_meaning(
    ls: Seq<Seq<char>>,
    i: int,
    acc: Seq<Seq<char>>,
    a: Seq<char>,
    b: Seq<char>,
    c: Seq<char>,
    imm: Seq<char>,
    ind1: Seq<char>,
    ind2: Seq<char>,
)
    requires
        0 <= i,
        i + 2 < ls.len(),
        mov_of(trim(ls[i])) == Some((a, b)),
        two_words_after(trim(ls[i + 1]), "ADD_U64_IMMEDIATE "@) == Some((a, imm)) || (!is_prefix(
            "ADD_U64_IMMEDIATE "@,
            trim(ls[i + 1]),
        ) && two_words_after(trim(ls[i + 1]), "SUB_U64_IMMEDIATE "@) == Some((a, imm))),
        mov_of(trim(ls[i + 2])) == Some((c, a)),
        indent(ls[i]) == Some(ind1),
        indent(ls[i + 1]) == Some(ind2),
    ensures
        mov_add_mov_from(ls, i, acc) == mov_add_mov_from(
            ls,
            i + 3,
            acc + seq![
                ind1 + "MOV "@ + c + " "@ + b,
                ind2 + (if is_prefix("ADD_U64_IMMEDIATE "@, trim(ls[i + 1])) {
                    "ADD_U64_IMMEDIATE"@
                } else {
                    "SUB_U64_IMMEDIATE"@
                }) + " "@ + c + " "@ + imm,
            ],
        ),
{
}

} // verus!
