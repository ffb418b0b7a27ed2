//! Numeric literals of the assembler: digits in a radix, `_` separators,
//! sign and `0x`/`0b`/`0o` prefixes, and register tokens `rN`.
use vstd::prelude::*;

verus! {

/// Value of a digit char in radixes up to 36 (36 for a char that is no digit),
/// as `char::to_digit` reads it.
pub open spec fn digit_value(c: char) -> nat {
    if '0' <= c <= '9' {
        ((c as u32) - 48) as nat
    } else if 'a' <= c <= 'z' {
        ((c as u32) - 97 + 10) as nat
    } else if 'A' <= c <= 'Z' {
        ((c as u32) - 65 + 10) as nat
    } else {
        36
    }
}

pub open spec fn digits_ok(s: Seq<char>, base: nat) -> bool {
    forall|i: int| 0 <= i < s.len() ==> #[trigger] digit_value(s[i]) < base
}

/// The number the digits spell in `base`, most significant first.
pub open spec fn digits_value(s: Seq<char>, base: nat) -> nat
    decreases s.len(),
{
    if s.len() == 0 {
        0
    } else {
        digits_value(s.drop_last(), base) * base + digit_value(s.last())
    }
}

pub open spec fn is_sign(c: char) -> bool {
    c == '+' || c == '-'
}

/// `u64::from_str_radix`: an optional `+`, then at least one digit, and a
/// value that fits.
pub open spec fn radix_unsigned(s: Seq<char>, base: nat) -> Option<u64> {
    if s.len() == 0 || (s.len() == 1 && is_sign(s[0])) {
        None
    } else {
        let d = if s[0] == '+' {
            s.drop_first()
        } else {
            s
        };
        if digits_ok(d, base) && digits_value(d, base) <= u64::MAX {
            Some(digits_value(d, base) as u64)
        } else {
            None
        }
    }
}

/// `i128::from_str_radix`: an optional sign, then at least one digit, and a
/// value in the range of `i128`.
pub open spec fn radix_signed(s: Seq<char>, base: nat) -> Option<int> {
    if s.len() == 0 || (s.len() == 1 && is_sign(s[0])) {
        None
    } else if s[0] == '-' {
        let d = s.drop_first();
        if digits_ok(d, base) && digits_value(d, base) <= 0x8000_0000_0000_0000_0000_0000_0000_0000 {
            Some(-(digits_value(d, base) as int))
        } else {
            None
        }
    } else {
        let d = if s[0] == '+' {
            s.drop_first()
        } else {
            s
        };
        if digits_ok(d, base) && digits_value(d, base) < 0x8000_0000_0000_0000_0000_0000_0000_0000 {
            Some(digits_value(d, base) as int)
        } else {
            None
        }
    }
}

/// The text without its `_` chars.
pub open spec fn drop_underscores(s: Seq<char>) -> Seq<char>
    decreases s.len(),
{
    if s.len() == 0 {
        s
    } else if s.last() == '_' {
        drop_underscores(s.drop_last())
    } else {
        drop_underscores(s.drop_last()).push(s.last())
    }
}

/// Two's complement wrap of an integer to 64 bits.
pub open spec fn wrap64(x: int) -> u64 {
    (x % 0x1_0000_0000_0000_0000) as u64
}

/// A value that a 64-bit word holds, read as signed or as unsigned.
pub open spec fn fits64(x: int) -> bool {
    -0x8000_0000_0000_0000 <= x <= u64::MAX
}

/// An immediate value: `_` separators dropped, an optional leading `-`, a
/// `0x`/`0b`/`0o` radix prefix, then digits. Immediates are 64-bit
/// integers: a negative value must fit in 64 bits and is kept in two's
/// complement.
pub open spec fn spec_parse_numeric(token: Seq<char>) -> Option<u64> {
    let c = drop_underscores(token);
    if c.len() == 0 {
        None
    } else {
        let negative = c[0] == '-';
        let c2 = if negative {
            c.drop_first()
        } else {
            c
        };
        let base: nat = if c2.len() >= 2 && c2[0] == '0' && c2[1] == 'x' {
            16
        } else if c2.len() >= 2 && c2[0] == '0' && c2[1] == 'b' {
            2
        } else if c2.len() >= 2 && c2[0] == '0' && c2[1] == 'o' {
            8
        } else {
            10
        };
        let digits = if base == 10 {
            c2
        } else {
            c2.subrange(2, c2.len() as int)
        };
        if digits.len() == 0 {
            None
        } else if negative {
            match radix_signed(digits, base) {
                Some(v) => if fits64(-v) {
                    Some(wrap64(-v))
                } else {
                    None
                },
                None => None,
            }
        } else {
            radix_unsigned(digits, base)
        }
    }
}

pub open spec fn all_decimal(s: Seq<char>) -> bool {
    forall|i: int| 0 <= i < s.len() ==> '0' <= #[trigger] s[i] <= '9'
}

/// A register token: `r` or `R`, then decimal digits (with `_` separators)
/// whose value fits in 64 bits.
pub open spec fn spec_parse_register(token: Seq<char>) -> Option<u64> {
    if token.len() >= 2 && (token[0] == 'r' || token[0] == 'R') {
        let digits = drop_underscores(token.drop_first());
        if digits.len() == 0 || !all_decimal(digits) || digits_value(digits, 10) > u64::MAX {
            None
        } else {
            Some(digits_value(digits, 10) as u64)
        }
    } else {
        None
    }
}

pub open spec fn is_register_spec(token: Seq<char>) -> bool {
    token.len() > 0 && (token[0] == 'r' || token[0] == 'R')
}

pub proof fn lemma_digits_value_mono(s: Seq<char>, k: int, base: nat)
    requires
        0 <= k <= s.len(),
        base >= 1,
    ensures
        digits_value(s.take(k), base) <= digits_value(s, base),
    decreases s.len(),
{
    if k < s.len() {
        lemma_digits_value_mono(s.drop_last(), k, base);
        assert(s.drop_last().take(k) =~= s.take(k));
        let a = digits_value(s.drop_last(), base);
        assert(a * base >= a) by (nonlinear_arith)
            requires
                base >= 1,
        ;
    } else {
        assert(s.take(k) =~= s);
    }
}

pub proof fn lemma_all_decimal_ok(s: Seq<char>)
    requires
        all_decimal(s),
    ensures
        digits_ok(s, 10),
{
    assert forall|i: int| 0 <= i < s.len() implies #[trigger] digit_value(s[i]) < 10 by {
        assert('0' <= s[i] <= '9');
    }
}

/// The value of one digit char (36 when it is no digit).
pub fn digit_of(c: char) -> (r: u32)
    ensures
        r == digit_value(c),
{
    if '0' <= c && c <= '9' {
        (c as u32) - 48
    } else if 'a' <= c && c <= 'z' {
        (c as u32) - 97 + 10
    } else if 'A' <= c && c <= 'Z' {
        (c as u32) - 65 + 10
    } else {
        36
    }
}

/// The value of `d` in `base` when every char is a digit and the value is at
/// most `bound`.
pub fn parse_digits(d: &[char], base: u32, bound: u128) -> (r: Option<u128>)
    requires
        2 <= base <= 16,
        bound <= 0x8000_0000_0000_0000_0000_0000_0000_0000,
    ensures
        r == (if digits_ok(d@, base as nat) && digits_value(d@, base as nat) <= bound {
            Some(digits_value(d@, base as nat) as u128)
        } else {
            None::<u128>
        }),
{
    let mut acc: u128 = 0;
    let mut i: usize = 0;
    while i < d.len()
        invariant
            2 <= base <= 16,
            bound <= 0x8000_0000_0000_0000_0000_0000_0000_0000,
            i <= d@.len(),
            digits_ok(d@.take(i as int), base as nat),
            acc == digits_value(d@.take(i as int), base as nat),
            acc <= bound,
        decreases d@.len() - i,
    {
        let ghost pre = d@.take(i as int);
        let ghost next = d@.take(i + 1);
        assert(next.drop_last() =~= pre);
        let v = digit_of(d[i]);
        if v >= base {
            assert(!digits_ok(d@, base as nat)) by {
                assert(digit_value(d@[i as int]) >= base);
            }
            return None;
        }
        if acc > bound / (base as u128) {
            proof {
                let b = base as int;
                let q = bound as int / b;
                assert(acc as int * b + v as int > bound) by (nonlinear_arith)
                    requires
                        acc as int > q,
                        q == bound as int / b,
                        b >= 2,
                        v >= 0,
                        bound >= 0,
                ;
                assert(digits_ok(next, base as nat)) by {
                    assert forall|k: int| 0 <= k < next.len() implies #[trigger] digit_value(
                        next[k],
                    ) < base by {
                        if k < i {
                            assert(next[k] == pre[k]);
                        }
                    }
                }
                if digits_ok(d@, base as nat) {
                    lemma_digits_value_mono(d@, i + 1, base as nat);
                }
            }
            return None;
        }
        proof {
            let b = base as int;
            assert(acc as int * b <= bound) by (nonlinear_arith)
                requires
                    acc as int <= bound as int / b,
                    b >= 2,
                    bound >= 0,
            ;
        }
        let nv = acc * (base as u128) + (v as u128);
        proof {
            assert(digits_ok(next, base as nat)) by {
                assert forall|k: int| 0 <= k < next.len() implies #[trigger] digit_value(
                    next[k],
                ) < base by {
                    if k < i {
                        assert(next[k] == pre[k]);
                    }
                }
            }
        }
        if nv > bound {
            proof {
                if digits_ok(d@, base as nat) {
                    lemma_digits_value_mono(d@, i + 1, base as nat);
                }
            }
            return None;
        }
        acc = nv;
        i = i + 1;
    }
    assert(d@.take(i as int) =~= d@);
    Some(acc)
}

/// `token` without its `_` chars.
pub fn remove_underscores(token: &[char]) -> (r: Vec<char>)
    ensures
        r@ == drop_underscores(token@),
{
    let mut r: Vec<char> = Vec::new();
    let mut i: usize = 0;
    while i < token.len()
        invariant
            i <= token@.len(),
            r@ == drop_underscores(token@.take(i as int)),
        decreases token@.len() - i,
    {
        assert(token@.take(i + 1).drop_last() =~= token@.take(i as int));
        if token[i] != '_' {
            r.push(token[i]);
        }
        i = i + 1;
    }
    assert(token@.take(i as int) =~= token@);
    r
}

/// `u64::from_str_radix`.
pub fn u64_from_radix(s: &[char], base: u32) -> (r: Option<u64>)
    requires
        2 <= base <= 16,
    ensures
        r == radix_unsigned(s@, base as nat),
{
    if s.len() == 0 || (s.len() == 1 && (s[0] == '+' || s[0] == '-')) {
        return None;
    }
    let start: usize = if s[0] == '+' {
        1
    } else {
        0
    };
    let d = crate::text::slice_vec(s, start, s.len());
    assert(d@ =~= (if s@[0] == '+' {
        s@.drop_first()
    } else {
        s@
    }));
    match parse_digits(d.as_slice(), base, 0xFFFF_FFFF_FFFF_FFFF) {
        Some(v) => Some(v as u64),
        None => None,
    }
}

/// `i128::from_str_radix`, as sign and magnitude.
pub fn i128_from_radix(s: &[char], base: u32) -> (r: Option<(bool, u128)>)
    requires
        2 <= base <= 16,
    ensures
        match r {
            Some((neg, m)) => radix_signed(s@, base as nat) == Some(if neg {
                -(m as int)
            } else {
                m as int
            }),
            None => radix_signed(s@, base as nat) is None,
        },
{
    if s.len() == 0 || (s.len() == 1 && (s[0] == '+' || s[0] == '-')) {
        return None;
    }
    if s[0] == '-' {
        let d = crate::text::slice_vec(s, 1, s.len());
        assert(d@ =~= s@.drop_first());
        match parse_digits(d.as_slice(), base, 0x8000_0000_0000_0000_0000_0000_0000_0000) {
            Some(v) => Some((true, v)),
            None => None,
        }
    } else {
        let start: usize = if s[0] == '+' {
            1
        } else {
            0
        };
        let d = crate::text::slice_vec(s, start, s.len());
        assert(d@ =~= (if s@[0] == '+' {
            s@.drop_first()
        } else {
            s@
        }));
        match parse_digits(d.as_slice(), base, 0x7FFF_FFFF_FFFF_FFFF_FFFF_FFFF_FFFF_FFFF) {
            Some(v) => Some((false, v)),
            None => None,
        }
    }
}

/// Low 64 bits of a magnitude, negated or not, in two's complement.
fn wrap_magnitude(m: u128, negate: bool) -> (r: u64)
    ensures
        r == (if negate {
            wrap64(-(m as int))
        } else {
            wrap64(m as int)
        }),
{
    let low = (m % 0x1_0000_0000_0000_0000u128) as u64;
    if !negate {
        low
    } else if low == 0 {
        0
    } else {
        u64::MAX - low + 1
    }
}

/// `parse_numeric`: an immediate value token (see `spec_parse_numeric`).
pub fn parse_numeric(token: &[char]) -> (r: Result<u64, ()>)
    ensures
        r == (match spec_parse_numeric(token@) {
            Some(v) => Ok::<u64, ()>(v),
            None => Err(()),
        }),
{
    let cleaned = remove_underscores(token);
    if cleaned.len() == 0 {
        return Err(());
    }
    let negative = cleaned[0] == '-';
    let c2 = if negative {
        crate::text::slice_vec(cleaned.as_slice(), 1, cleaned.len())
    } else {
        cleaned.clone()
    };
    assert(c2@ =~= (if negative {
        cleaned@.drop_first()
    } else {
        cleaned@
    }));
    let base: u32 = if c2.len() >= 2 && c2[0] == '0' && c2[1] == 'x' {
        16
    } else if c2.len() >= 2 && c2[0] == '0' && c2[1] == 'b' {
        2
    } else if c2.len() >= 2 && c2[0] == '0' && c2[1] == 'o' {
        8
    } else {
        10
    };
    let digits = if base == 10 {
        c2.clone()
    } else {
        crate::text::slice_vec(c2.as_slice(), 2, c2.len())
    };
    if digits.len() == 0 {
        return Err(());
    }
    if negative {
        match i128_from_radix(digits.as_slice(), base) {
            Some((neg, m)) => {
                // The value is -m or m; the result is its negation, wrapped,
                // where that negation fits in 64 bits.
                if neg && m > 0xFFFF_FFFF_FFFF_FFFFu128 {
                    return Err(());
                }
                if !neg && m > 0x8000_0000_0000_0000u128 {
                    return Err(());
                }
                let r = wrap_magnitude(m, !neg);
                proof {
                    let v: int = if neg {
                        -(m as int)
                    } else {
                        m as int
                    };
                    assert(-v == (if !neg {
                        -(m as int)
                    } else {
                        m as int
                    }));
                }
                Ok(r)
            },
            None => Err(()),
        }
    } else {
        match u64_from_radix(digits.as_slice(), base) {
            Some(v) => Ok(v),
            None => Err(()),
        }
    }
}

/// `is_register_token`: the token starts with `r` or `R`.
pub fn is_register_token(token: &[char]) -> (r: bool)
    ensures
        r == is_register_spec(token@),
{
    token.len() > 0 && (token[0] == 'r' || token[0] == 'R')
}

/// `parse_register`: the index in a register token (see `spec_parse_register`).
pub fn parse_register(token: &[char]) -> (r: Option<u64>)
    ensures
        r == spec_parse_register(token@),
{
    if token.len() < 2 || !(token[0] == 'r' || token[0] == 'R') {
        return None;
    }
    let rest = crate::text::slice_vec(token, 1, token.len());
    assert(rest@ =~= token@.drop_first());
    let digits = remove_underscores(rest.as_slice());
    if digits.len() == 0 {
        return None;
    }
    let mut i: usize = 0;
    while i < digits.len()
        invariant
            i <= digits@.len(),
            forall|k: int| 0 <= k < i ==> '0' <= #[trigger] digits@[k] <= '9',
            digits@ == drop_underscores(token@.drop_first()),
            token@.len() >= 2 && (token@[0] == 'r' || token@[0] == 'R'),
        decreases digits@.len() - i,
    {
        if !('0' <= digits[i] && digits[i] <= '9') {
            assert(!('0' <= digits@[i as int] <= '9'));
            assert(!all_decimal(digits@));
            assert(spec_parse_register(token@) is None);
            return None;
        }
        i = i + 1;
    }
    assert(all_decimal(digits@));
    proof {
        lemma_all_decimal_ok(digits@);
    }
    match parse_digits(digits.as_slice(), 10, 0xFFFF_FFFF_FFFF_FFFF) {
        Some(v) => Some(v as u64),
        None => None,
    }
}

} // verus!
