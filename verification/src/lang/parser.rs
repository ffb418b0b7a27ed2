//! The recursive-descent parser of the source language.
//!
//! The parser holds a lexer and one token of lookahead. Its specification
//! reads the same grammar over the lexer's positions: a state is the lexer's
//! position and the lookahead token.
use vstd::prelude::*;

use crate::lang::ast::{
    lemma_view_arms_push, lemma_view_exprs_index, lemma_view_exprs_push, lemma_view_stmts_push,
    view_arms, opt_text, view_block, view_expr, view_exprs, view_params, view_stmt, view_stmts, BinOp,
    Block, Expr, LoopExpr, MatchArm, MatchExpr, MatchPattern, Param, SArm, SBlock, SExpr, SField,
    SFunction, SImplDef, SLoop, SMatch, SParam, SProgram, SStmt, SStructDef, STraitDef,
    STraitMethod, Stmt, Function, ImplDef, Program, StructDef, StructField, TraitDef, TraitMethod,
    view_fields, view_function, view_functions, view_impl, view_impls, view_program, view_struct,
    view_structs, view_trait, view_trait_method, view_trait_methods, view_traits,
};
use crate::lang::lexer::{law_next_token_progress, spec_next_token, Lexer, SpecToken, Token};
use crate::text::{append_chars, append_str, chars_to_string, push_char, str_to_chars, string_of, text_is};

verus! {

/// A parser state: the lexer's position and the lookahead token.
pub struct PState {
    pub pos: int,
    pub la: SpecToken,
}

/// Input left to read: the chars after the position, and one more while
/// the lookahead is not `Eof`. Every step that consumes a token lowers it.
pub open spec fn measure(s: Seq<char>, ps: PState) -> int {
    (if 0 <= ps.pos <= s.len() {
        s.len() - ps.pos
    } else {
        0int
    }) + if ps.la is Eof {
        0int
    } else {
        1int
    }
}

pub open spec fn lt(s: Seq<char>, a: PState, b: PState) -> bool {
    measure(s, a) < measure(s, b)
}

pub open spec fn le(s: Seq<char>, a: PState, b: PState) -> bool {
    measure(s, a) <= measure(s, b)
}

/// The text of a token as the derived `Debug` of `Token` writes it.
pub uninterp spec fn token_debug(t: SpecToken) -> Seq<char>;

/// The message of a token other than the one expected:
/// `expected {expected:?}, got {got:?}`.
pub open spec fn expect_message(expected: SpecToken, got: SpecToken) -> Seq<char> {
    "expected "@ + token_debug(expected) + ", got "@ + token_debug(got)
}

/// `format!("{t:?}")` with the derived `Debug` of `Token`. The text is
/// named, not stated: it depends on the token alone.
#[verifier::external_body]
fn debug_text(t: &Token) -> (r: String)
    ensures
        r@ == token_debug(t@),
{
    format!("{t:?}")
}

/// `format!("expected {expected:?}, got {got:?}")`.
fn mismatch_message(expected: &Token, got: &Token) -> (r: String)
    ensures
        r@ == expect_message(expected@, got@),
{
    let mut v: Vec<char> = Vec::new();
    append_str(&mut v, "expected ");
    let e = debug_text(expected);
    let ec = str_to_chars(e.as_str());
    append_chars(&mut v, ec.as_slice());
    append_str(&mut v, ", got ");
    let g = debug_text(got);
    let gc = str_to_chars(g.as_str());
    append_chars(&mut v, gc.as_slice());
    proof {
        assert(v@ =~= expect_message(expected@, got@));
    }
    chars_to_string(v.as_slice())
}

// ---------------------------------------------------------------------------
// Token steps
// ---------------------------------------------------------------------------
pub open spec fn s_advance(s: Seq<char>, ps: PState) -> Result<PState, Seq<char>> {
    let (t, p) = spec_next_token(s, ps.pos);
    match t {
        Ok(tok) => Ok(PState { pos: p, la: tok }),
        Err(m) => Err(m),
    }
}

pub open spec fn s_peek(s: Seq<char>, ps: PState) -> Result<SpecToken, Seq<char>> {
    spec_next_token(s, ps.pos).0
}

pub open spec fn s_expect(s: Seq<char>, ps: PState, tok: SpecToken) -> Result<PState, Seq<char>> {
    if ps.la == tok {
        s_advance(s, ps)
    } else {
        Err(expect_message(tok, ps.la))
    }
}

pub open spec fn s_expect_ident(s: Seq<char>, ps: PState) -> Result<(Seq<char>, PState), Seq<char>> {
    match ps.la {
        SpecToken::Ident(n) => match s_advance(s, ps) {
            Ok(ps2) => Ok((n, ps2)),
            Err(m) => Err(m),
        },
        _ => Err("expected identifier"@),
    }
}

/// `name` or `Type::method` (as `Type__method`).
pub open spec fn s_call_name(s: Seq<char>, ps: PState) -> Result<(Seq<char>, PState), Seq<char>> {
    match s_expect_ident(s, ps) {
        Err(m) => Err(m),
        Ok((base, ps1)) => if ps1.la is ColonColon {
            match s_advance(s, ps1) {
                Err(m) => Err(m),
                Ok(ps2) => match s_expect_ident(s, ps2) {
                    Err(m) => Err(m),
                    Ok((method, ps3)) => Ok((base + "__"@ + method, ps3)),
                },
            }
        } else {
            Ok((base, ps1))
        },
    }
}

pub open spec fn s_terminator(s: Seq<char>, ps: PState) -> Result<PState, Seq<char>> {
    if ps.la is Dot {
        s_advance(s, ps)
    } else {
        Ok(ps)
    }
}

/// Words joined by single spaces.
pub open spec fn join_words(parts: Seq<Seq<char>>) -> Seq<char>
    decreases parts.len(),
{
    if parts.len() == 0 {
        seq![]
    } else if parts.len() == 1 {
        parts[0]
    } else {
        join_words(parts.drop_last()) + seq![' '] + parts.last()
    }
}

/// Where a type written as words ends.
#[derive(Clone, Copy, PartialEq, Eq, Debug)]
pub enum TypeEnd {
    /// `,` or `)`: a parameter's type.
    Delim,
    /// `{`: a function's return type.
    LBrace,
    /// Any token but a word: a `let`'s type.
    Assign,
    /// `,` or `}`: a struct field's type.
    StructField,
    /// `.` or `}`: a trait method's return type.
    TraitEnd,
}

pub open spec fn type_stops(kind: TypeEnd, t: SpecToken) -> bool {
    match kind {
        TypeEnd::Delim => t is Comma || t is RParen,
        TypeEnd::LBrace => t is LBrace,
        TypeEnd::Assign => true,
        TypeEnd::StructField => t is Comma || t is RBrace,
        TypeEnd::TraitEnd => t is Dot || t is RBrace,
    }
}

pub open spec fn type_error(kind: TypeEnd) -> Seq<char> {
    match kind {
        TypeEnd::Delim => "unexpected token in type"@,
        TypeEnd::LBrace => "unexpected token in return type"@,
        TypeEnd::Assign => seq![],
        TypeEnd::StructField => "unexpected token in struct field type"@,
        TypeEnd::TraitEnd => "unexpected token in trait return type"@,
    }
}

/// A type written as words, up to the token that ends it.
pub open spec fn s_type(s: Seq<char>, ps: PState, kind: TypeEnd, parts: Seq<Seq<char>>) -> Result<
    (Seq<char>, PState),
    Seq<char>,
>
    decreases measure(s, ps),
{
    match ps.la {
        SpecToken::Ident(w) => match s_advance(s, ps) {
            Err(m) => Err(m),
            Ok(ps2) => if lt(s, ps2, ps) {
                s_type(s, ps2, kind, parts.push(w))
            } else {
                Err(seq![])
            },
        },
        t => if type_stops(kind, t) {
            Ok((join_words(parts), ps))
        } else {
            Err(type_error(kind))
        },
    }
}

// ---------------------------------------------------------------------------
// Expressions and statements
// ---------------------------------------------------------------------------
pub open spec fn binop_eq(t: SpecToken) -> Option<BinOp> {
    match t {
        SpecToken::EqEq => Some(BinOp::Eq),
        SpecToken::NotEq => Some(BinOp::Ne),
        _ => None,
    }
}

pub open spec fn binop_cmp(t: SpecToken) -> Option<BinOp> {
    match t {
        SpecToken::Lt => Some(BinOp::Lt),
        SpecToken::Le => Some(BinOp::Le),
        SpecToken::Gt => Some(BinOp::Gt),
        SpecToken::Ge => Some(BinOp::Ge),
        _ => None,
    }
}

pub open spec fn binop_term(t: SpecToken) -> Option<BinOp> {
    match t {
        SpecToken::Plus => Some(BinOp::Add),
        SpecToken::Minus => Some(BinOp::Sub),
        _ => None,
    }
}

pub open spec fn binop_factor(t: SpecToken) -> Option<BinOp> {
    match t {
        SpecToken::Star => Some(BinOp::Mul),
        SpecToken::Slash => Some(BinOp::Div),
        SpecToken::Percent => Some(BinOp::Mod),
        _ => None,
    }
}

/// Each binary operator is read as the operation it spells: lexing its text
/// gives a token that the parser takes, at the level of its precedence, as
/// that operation (`<=` as `Le`, `<` as `Lt`, `*` as `Mul`, and so on).
pub proof fn law_operator_tokens()
    ensures
        spec_next_token("<"@, 0).0 matches Ok(tok) && level_op(Level::Comparison, tok) == Some(BinOp::Lt),
        spec_next_token("<="@, 0).0 matches Ok(tok) && level_op(Level::Comparison, tok) == Some(BinOp::Le),
        spec_next_token(">"@, 0).0 matches Ok(tok) && level_op(Level::Comparison, tok) == Some(BinOp::Gt),
        spec_next_token(">="@, 0).0 matches Ok(tok) && level_op(Level::Comparison, tok) == Some(BinOp::Ge),
        spec_next_token("=="@, 0).0 matches Ok(tok) && level_op(Level::Equality, tok) == Some(BinOp::Eq),
        spec_next_token("!="@, 0).0 matches Ok(tok) && level_op(Level::Equality, tok) == Some(BinOp::Ne),
        spec_next_token("+"@, 0).0 matches Ok(tok) && level_op(Level::Term, tok) == Some(BinOp::Add),
        spec_next_token("-"@, 0).0 matches Ok(tok) && level_op(Level::Term, tok) == Some(BinOp::Sub),
        spec_next_token("*"@, 0).0 matches Ok(tok) && level_op(Level::Factor, tok) == Some(BinOp::Mul),
        spec_next_token("/"@, 0).0 matches Ok(tok) && level_op(Level::Factor, tok) == Some(BinOp::Div),
        spec_next_token("%"@, 0).0 matches Ok(tok) && level_op(Level::Factor, tok) == Some(BinOp::Mod),
{
    reveal_strlit("<");
    reveal_strlit("<=");
    reveal_strlit(">");
    reveal_strlit(">=");
    reveal_strlit("==");
    reveal_strlit("!=");
    reveal_strlit("+");
    reveal_strlit("-");
    reveal_strlit("*");
    reveal_strlit("/");
    reveal_strlit("%");
}

/// Which operator level a left-associative chain reads.
#[derive(Clone, Copy, PartialEq, Eq, Debug)]
pub enum Level {
    Equality,
    Comparison,
    Term,
    Factor,
}

pub open spec fn level_op(l: Level, t: SpecToken) -> Option<BinOp> {
    match l {
        Level::Equality => binop_eq(t),
        Level::Comparison => binop_cmp(t),
        Level::Term => binop_term(t),
        Level::Factor => binop_factor(t),
    }
}

pub open spec fn level_rank(l: Level) -> int {
    match l {
        Level::Equality => 22,
        Level::Comparison => 20,
        Level::Term => 18,
        Level::Factor => 16,
    }
}

pub open spec fn s_binary(l: SExpr, op: BinOp, r: SExpr) -> SExpr {
    SExpr::Binary { left: Box::new(l), op, right: Box::new(r) }
}

/// The number after a relational match pattern.
pub open spec fn s_pattern_number(s: Seq<char>, ps: PState, msg: Seq<char>) -> Result<(i64, PState), Seq<char>> {
    match s_advance(s, ps) {
        Err(m) => Err(m),
        Ok(ps1) => match ps1.la {
            SpecToken::Number(n) => match s_advance(s, ps1) {
                Err(m) => Err(m),
                Ok(ps2) => Ok((n, ps2)),
            },
            _ => Err(msg),
        },
    }
}

/// A match pattern: `_`, or a relation and a number.
pub open spec fn s_pattern(s: Seq<char>, ps: PState) -> Result<(MatchPattern, PState), Seq<char>> {
    match ps.la {
        SpecToken::Underscore => match s_advance(s, ps) {
            Err(m) => Err(m),
            Ok(ps1) => Ok((MatchPattern::Wildcard, ps1)),
        },
        SpecToken::Lt => match s_pattern_number(s, ps, "expected number after '<'"@) {
            Err(m) => Err(m),
            Ok((n, ps1)) => Ok((MatchPattern::LessThan(n), ps1)),
        },
        SpecToken::Le => match s_pattern_number(s, ps, "expected number after '<='"@) {
            Err(m) => Err(m),
            Ok((n, ps1)) => Ok((MatchPattern::LessEqual(n), ps1)),
        },
        SpecToken::EqEq => match s_pattern_number(s, ps, "expected number after '=='"@) {
            Err(m) => Err(m),
            Ok((n, ps1)) => Ok((MatchPattern::Equal(n), ps1)),
        },
        SpecToken::NotEq => match s_pattern_number(s, ps, "expected number after '!='"@) {
            Err(m) => Err(m),
            Ok((n, ps1)) => Ok((MatchPattern::NotEqual(n), ps1)),
        },
        SpecToken::Gt => match s_pattern_number(s, ps, "expected number after '>'"@) {
            Err(m) => Err(m),
            Ok((n, ps1)) => Ok((MatchPattern::GreaterThan(n), ps1)),
        },
        SpecToken::Ge => match s_pattern_number(s, ps, "expected number after '>='"@) {
            Err(m) => Err(m),
            Ok((n, ps1)) => Ok((MatchPattern::GreaterEqual(n), ps1)),
        },
        _ => Err("invalid match pattern"@),
    }
}

/// A statement.
pub open spec fn p_stmt(s: Seq<char>, ps: PState) -> Result<(SStmt, PState), Seq<char>>
    decreases measure(s, ps), 30int,
{
    match ps.la {
            SpecToken::Let => p_let(s, ps),
            SpecToken::Brk => p_break(s, ps),
            SpecToken::Bang => p_reactor(s, ps),
            SpecToken::Ident(_) => match s_peek(s, ps) {
                Err(m) => Err(m),
                Ok(next) => if next is Assign {
                    match s_expect_ident(s, ps) {
                        Err(m) => Err(m),
                        Ok((name, ps1)) => match s_expect(s, ps1, SpecToken::Assign) {
                            Err(m) => Err(m),
                            Ok(ps2) => if lt(s, ps2, ps) {
                                match p_expr(s, ps2) {
                                    Err(m) => Err(m),
                                    Ok((e, ps3)) => match s_terminator(s, ps3) {
                                        Err(m) => Err(m),
                                        Ok(ps4) => Ok((SStmt::Assign { name, expr: e }, ps4)),
                                    },
                                }
                            } else {
                                Err(seq![])
                            },
                        },
                    }
                } else if next is LParen || next is ColonColon {
                    match s_call_name(s, ps) {
                        Err(m) => Err(m),
                        Ok((name, ps1)) => match s_expect(s, ps1, SpecToken::LParen) {
                            Err(m) => Err(m),
                            Ok(ps2) => if lt(s, ps2, ps) {
                                match p_args(s, ps2) {
                                    Err(m) => Err(m),
                                    Ok((args, ps3)) => match s_expect(s, ps3, SpecToken::RParen) {
                                        Err(m) => Err(m),
                                        Ok(ps4) => match s_terminator(s, ps4) {
                                            Err(m) => Err(m),
                                            Ok(ps5) => Ok((SStmt::Call { name, args }, ps5)),
                                        },
                                    },
                                }
                            } else {
                                Err(seq![])
                            },
                        },
                    }
                } else {
                    p_expr_stmt(s, ps)
                },
            },
            _ => p_expr_stmt(s, ps),
        }
}

/// An expression as a statement, with an optional `.` after it.
pub open spec fn p_expr_stmt(s: Seq<char>, ps: PState) -> Result<(SStmt, PState), Seq<char>>
    decreases measure(s, ps), 29int,
{
    match p_expr(s, ps) {
        Err(m) => Err(m),
        Ok((e, ps1)) => if ps1.la is Dot {
            match s_advance(s, ps1) {
                Err(m) => Err(m),
                Ok(ps2) => Ok((SStmt::ExprStmt(e), ps2)),
            }
        } else {
            Ok((SStmt::ExprStmt(e), ps1))
        },
    }
}

pub open spec fn p_let(s: Seq<char>, ps: PState) -> Result<(SStmt, PState), Seq<char>>
    decreases measure(s, ps), 29int,
{
    match s_expect(s, ps, SpecToken::Let) {
        Err(m) => Err(m),
        Ok(ps1) => match s_expect_ident(s, ps1) {
            Err(m) => Err(m),
            Ok((name, ps2)) => match s_expect(s, ps2, SpecToken::Colon) {
                Err(m) => Err(m),
                Ok(ps3) => match s_type(s, ps3, TypeEnd::Assign, seq![]) {
                    Err(m) => Err(m),
                    Ok((ty, ps4)) => match s_expect(s, ps4, SpecToken::Assign) {
                        Err(m) => Err(m),
                        Ok(ps5) => if lt(s, ps5, ps) {
                            match p_expr(s, ps5) {
                                Err(m) => Err(m),
                                Ok((e, ps6)) => match s_terminator(s, ps6) {
                                    Err(m) => Err(m),
                                    Ok(ps7) => Ok((SStmt::Let { name, ty, expr: e }, ps7)),
                                },
                            }
                        } else {
                            Err(seq![])
                        },
                    },
                },
            },
        },
    }
}

pub open spec fn p_break(s: Seq<char>, ps: PState) -> Result<(SStmt, PState), Seq<char>>
    decreases measure(s, ps), 29int,
{
    match s_expect(s, ps, SpecToken::Brk) {
        Err(m) => Err(m),
        Ok(ps1) => {
            let lab: Result<(Option<Seq<char>>, PState), Seq<char>> = if ps1.la is Tick {
                match s_advance(s, ps1) {
                    Err(m) => Err(m),
                    Ok(ps2) => match s_expect_ident(s, ps2) {
                        Err(m) => Err(m),
                        Ok((l, ps3)) => Ok((Some(l), ps3)),
                    },
                }
            } else {
                Ok((None, ps1))
            };
            match lab {
                Err(m) => Err(m),
                Ok((label, ps4)) => if lt(s, ps4, ps) {
                    match p_expr(s, ps4) {
                        Err(m) => Err(m),
                        Ok((e, ps5)) => match s_terminator(s, ps5) {
                            Err(m) => Err(m),
                            Ok(ps6) => Ok((SStmt::Break { label, expr: e }, ps6)),
                        },
                    }
                } else {
                    Err(seq![])
                },
            }
        },
    }
}

pub open spec fn p_reactor(s: Seq<char>, ps: PState) -> Result<(SStmt, PState), Seq<char>>
    decreases measure(s, ps), 29int,
{
    match s_expect(s, ps, SpecToken::Bang) {
        Err(m) => Err(m),
        Ok(ps1) => match s_expect_ident(s, ps1) {
            Err(m) => Err(m),
            Ok((reactor, ps2)) => if reactor != "reactor"@ {
                Err("expected reactor"@)
            } else {
                match s_expect(s, ps2, SpecToken::Dot) {
                    Err(m) => Err(m),
                    Ok(ps3) => match s_expect_ident(s, ps3) {
                        Err(m) => Err(m),
                        Ok((method, ps4)) => if method != "stdout"@ {
                            Err("expected stdout"@)
                        } else {
                            match s_expect(s, ps4, SpecToken::LParen) {
                                Err(m) => Err(m),
                                Ok(ps5) => if lt(s, ps5, ps) {
                                    match p_args(s, ps5) {
                                        Err(m) => Err(m),
                                        Ok((args, ps6)) => match s_expect(s, ps6, SpecToken::RParen) {
                                            Err(m) => Err(m),
                                            Ok(ps7) => match s_terminator(s, ps7) {
                                                Err(m) => Err(m),
                                                Ok(ps8) => if args.len() != 1 {
                                                    Err("stdout expects exactly one argument"@)
                                                } else {
                                                    Ok((SStmt::ReactorStdout { arg: args[0] }, ps8))
                                                },
                                            },
                                        },
                                    }
                                } else {
                                    Err(seq![])
                                },
                            }
                        },
                    },
                }
            },
        },
    }
}

/// Call arguments up to (not including) `)`.
pub open spec fn p_args(s: Seq<char>, ps: PState) -> Result<(Seq<SExpr>, PState), Seq<char>>
    decreases measure(s, ps), 26int,
{
    if ps.la is RParen {
        Ok((seq![], ps))
    } else {
        p_args_loop(s, ps, seq![])
    }
}

pub open spec fn p_args_loop(s: Seq<char>, ps: PState, acc: Seq<SExpr>) -> Result<
    (Seq<SExpr>, PState),
    Seq<char>,
>
    decreases measure(s, ps), 25int,
{
    match p_expr(s, ps) {
        Err(m) => Err(m),
        Ok((e, ps1)) => if ps1.la is Comma {
            match s_advance(s, ps1) {
                Err(m) => Err(m),
                Ok(ps2) => if lt(s, ps2, ps) {
                    p_args_loop(s, ps2, acc.push(e))
                } else {
                    Err(seq![])
                },
            }
        } else {
            Ok((acc.push(e), ps1))
        },
    }
}

pub open spec fn p_expr(s: Seq<char>, ps: PState) -> Result<(SExpr, PState), Seq<char>>
    decreases measure(s, ps), 24int,
{
    p_level(s, ps, Level::Equality)
}

/// The operand of an operator level.
pub open spec fn p_operand(s: Seq<char>, ps: PState, l: Level) -> Result<(SExpr, PState), Seq<char>>
    decreases measure(s, ps), level_rank(l) - 1,
{
    match l {
        Level::Equality => p_level(s, ps, Level::Comparison),
        Level::Comparison => p_level(s, ps, Level::Term),
        Level::Term => p_level(s, ps, Level::Factor),
        Level::Factor => p_primary(s, ps),
    }
}

/// A left-associative chain of the operators of one level.
pub open spec fn p_level(s: Seq<char>, ps: PState, l: Level) -> Result<(SExpr, PState), Seq<char>>
    decreases measure(s, ps), level_rank(l),
{
    match p_operand(s, ps, l) {
        Err(m) => Err(m),
        Ok((e, ps1)) => if le(s, ps1, ps) {
            p_level_loop(s, ps1, l, e)
        } else {
            Err(seq![])
        },
    }
}

pub open spec fn p_level_loop(s: Seq<char>, ps: PState, l: Level, lhs: SExpr) -> Result<
    (SExpr, PState),
    Seq<char>,
>
    decreases measure(s, ps), level_rank(l) - 2,
{
    match level_op(l, ps.la) {
        None => Ok((lhs, ps)),
        Some(op) => match s_advance(s, ps) {
            Err(m) => Err(m),
            Ok(ps1) => if lt(s, ps1, ps) {
                match p_operand(s, ps1, l) {
                    Err(m) => Err(m),
                    Ok((r, ps2)) => if lt(s, ps2, ps) {
                        p_level_loop(s, ps2, l, s_binary(lhs, op, r))
                    } else {
                        Err(seq![])
                    },
                }
            } else {
                Err(seq![])
            },
        },
    }
}

pub open spec fn p_primary(s: Seq<char>, ps: PState) -> Result<(SExpr, PState), Seq<char>>
    decreases measure(s, ps), 14int,
{
    match ps.la {
        SpecToken::Ident(name) => match s_peek(s, ps) {
            Err(m) => Err(m),
            Ok(next) => if next is LParen || next is ColonColon {
                match s_call_name(s, ps) {
                    Err(m) => Err(m),
                    Ok((cname, ps1)) => match s_expect(s, ps1, SpecToken::LParen) {
                        Err(m) => Err(m),
                        Ok(ps2) => if lt(s, ps2, ps) {
                            match p_args(s, ps2) {
                                Err(m) => Err(m),
                                Ok((args, ps3)) => match s_expect(s, ps3, SpecToken::RParen) {
                                    Err(m) => Err(m),
                                    Ok(ps4) => Ok((SExpr::Call { name: cname, args }, ps4)),
                                },
                            }
                        } else {
                            Err(seq![])
                        },
                    },
                }
            } else {
                match s_advance(s, ps) {
                    Err(m) => Err(m),
                    Ok(ps1) => Ok((SExpr::Ident(name), ps1)),
                }
            },
        },
        SpecToken::Str(b) => match s_advance(s, ps) {
            Err(m) => Err(m),
            Ok(ps1) => Ok((SExpr::StrLiteral(b), ps1)),
        },
        SpecToken::Number(v) => match s_advance(s, ps) {
            Err(m) => Err(m),
            Ok(ps1) => Ok((SExpr::IntLiteral(v), ps1)),
        },
        SpecToken::True => match s_advance(s, ps) {
            Err(m) => Err(m),
            Ok(ps1) => Ok((SExpr::BoolLiteral(true), ps1)),
        },
        SpecToken::False => match s_advance(s, ps) {
            Err(m) => Err(m),
            Ok(ps1) => Ok((SExpr::BoolLiteral(false), ps1)),
        },
        SpecToken::Loop => p_loop(s, ps),
        SpecToken::Match => p_match(s, ps),
        SpecToken::LBrace => match p_block(s, ps) {
            Err(m) => Err(m),
            Ok((b, ps1)) => Ok((SExpr::Block(b), ps1)),
        },
        SpecToken::LParen => match s_advance(s, ps) {
            Err(m) => Err(m),
            Ok(ps1) => if lt(s, ps1, ps) {
                match p_expr(s, ps1) {
                    Err(m) => Err(m),
                    Ok((e, ps2)) => match s_expect(s, ps2, SpecToken::RParen) {
                        Err(m) => Err(m),
                        Ok(ps3) => Ok((e, ps3)),
                    },
                }
            } else {
                Err(seq![])
            },
        },
        _ => Err("unexpected token in expression"@),
    }
}

/// `{ stmts tail? }`.
pub open spec fn p_block(s: Seq<char>, ps: PState) -> Result<(SBlock, PState), Seq<char>>
    decreases measure(s, ps), 12int,
{
    match s_expect(s, ps, SpecToken::LBrace) {
        Err(m) => Err(m),
        Ok(ps1) => if lt(s, ps1, ps) {
            p_block_loop(s, ps1, seq![])
        } else {
            Err(seq![])
        },
    }
}

pub open spec fn starts_stmt(t: SpecToken) -> bool {
    t is Let || t is Brk || t is Bang || t is Ident
}

pub open spec fn p_block_loop(s: Seq<char>, ps: PState, stmts: Seq<SStmt>) -> Result<
    (SBlock, PState),
    Seq<char>,
>
    decreases measure(s, ps), 31int,
{
    if ps.la is RBrace {
        match s_expect(s, ps, SpecToken::RBrace) {
            Err(m) => Err(m),
            Ok(ps1) => Ok((SBlock { stmts, tail: None }, ps1)),
        }
    } else if starts_stmt(ps.la) {
        match p_stmt(s, ps) {
            Err(m) => Err(m),
            Ok((st, ps1)) => if lt(s, ps1, ps) {
                p_block_loop(s, ps1, stmts.push(st))
            } else {
                Err(seq![])
            },
        }
    } else {
        match p_expr(s, ps) {
            Err(m) => Err(m),
            Ok((e, ps1)) => if ps1.la is Dot {
                match s_advance(s, ps1) {
                    Err(m) => Err(m),
                    Ok(ps2) => if lt(s, ps2, ps) {
                        p_block_loop(s, ps2, stmts.push(SStmt::ExprStmt(e)))
                    } else {
                        Err(seq![])
                    },
                }
            } else {
                match s_expect(s, ps1, SpecToken::RBrace) {
                    Err(m) => Err(m),
                    Ok(ps2) => Ok((SBlock { stmts, tail: Some(Box::new(e)) }, ps2)),
                }
            },
        }
    }
}

/// `loop 'label? { .. }`.
pub open spec fn p_loop(s: Seq<char>, ps: PState) -> Result<(SExpr, PState), Seq<char>>
    decreases measure(s, ps), 12int,
{
    match s_expect(s, ps, SpecToken::Loop) {
        Err(m) => Err(m),
        Ok(ps1) => {
            let lab: Result<(Option<Seq<char>>, PState), Seq<char>> = if ps1.la is Tick {
                match s_advance(s, ps1) {
                    Err(m) => Err(m),
                    Ok(ps2) => match s_expect_ident(s, ps2) {
                        Err(m) => Err(m),
                        Ok((l, ps3)) => Ok((Some(l), ps3)),
                    },
                }
            } else {
                Ok((None, ps1))
            };
            match lab {
                Err(m) => Err(m),
                Ok((label, ps4)) => if lt(s, ps4, ps) {
                    match p_block(s, ps4) {
                        Err(m) => Err(m),
                        Ok((body, ps5)) => Ok((SExpr::Loop(SLoop { label, body }), ps5)),
                    }
                } else {
                    Err(seq![])
                },
            }
        },
    }
}

/// `match e { pattern => body ... }`.
pub open spec fn p_match(s: Seq<char>, ps: PState) -> Result<(SExpr, PState), Seq<char>>
    decreases measure(s, ps), 12int,
{
    match s_expect(s, ps, SpecToken::Match) {
        Err(m) => Err(m),
        Ok(ps1) => if lt(s, ps1, ps) {
            match p_expr(s, ps1) {
                Err(m) => Err(m),
                Ok((scrutinee, ps2)) => match s_expect(s, ps2, SpecToken::LBrace) {
                    Err(m) => Err(m),
                    Ok(ps3) => if lt(s, ps3, ps) {
                        match p_arms(s, ps3, seq![]) {
                            Err(m) => Err(m),
                            Ok((arms, ps4)) => match s_expect(s, ps4, SpecToken::RBrace) {
                                Err(m) => Err(m),
                                Ok(ps5) => Ok(
                                    (
                                        SExpr::Match(
                                            SMatch { scrutinee: Box::new(scrutinee), arms },
                                        ),
                                        ps5,
                                    ),
                                ),
                            },
                        }
                    } else {
                        Err(seq![])
                    },
                },
            }
        } else {
            Err(seq![])
        },
    }
}

pub open spec fn p_arms(s: Seq<char>, ps: PState, acc: Seq<SArm>) -> Result<
    (Seq<SArm>, PState),
    Seq<char>,
>
    decreases measure(s, ps), 31int,
{
    if ps.la is RBrace {
        Ok((acc, ps))
    } else {
        match s_pattern(s, ps) {
            Err(m) => Err(m),
            Ok((pattern, ps1)) => match s_expect(s, ps1, SpecToken::FatArrow) {
                Err(m) => Err(m),
                Ok(ps2) => if lt(s, ps2, ps) {
                    let body: Result<(SBlock, PState), Seq<char>> = if ps2.la is LBrace {
                        p_block(s, ps2)
                    } else {
                        match p_expr(s, ps2) {
                            Err(m) => Err(m),
                            Ok((e, ps3)) => Ok((SBlock { stmts: seq![], tail: Some(Box::new(e)) }, ps3)),
                        }
                    };
                    match body {
                        Err(m) => Err(m),
                        Ok((b, ps4)) => if lt(s, ps4, ps) {
                            p_arms(s, ps4, acc.push(SArm { pattern, body: b }))
                        } else {
                            Err(seq![])
                        },
                    }
                } else {
                    Err(seq![])
                },
            },
        }
    }
}

// ---------------------------------------------------------------------------
// Items
// ---------------------------------------------------------------------------
/// Parameters up to (not including) `)`.
pub open spec fn p_params(s: Seq<char>, ps: PState) -> Result<(Seq<SParam>, PState), Seq<char>> {
    if ps.la is RParen {
        Ok((seq![], ps))
    } else {
        p_params_loop(s, ps, seq![])
    }
}

pub open spec fn p_params_loop(s: Seq<char>, ps: PState, acc: Seq<SParam>) -> Result<
    (Seq<SParam>, PState),
    Seq<char>,
>
    decreases measure(s, ps),
{
    match s_expect_ident(s, ps) {
        Err(m) => Err(m),
        Ok((name, ps1)) => match s_expect(s, ps1, SpecToken::Colon) {
            Err(m) => Err(m),
            Ok(ps2) => match s_type(s, ps2, TypeEnd::Delim, seq![]) {
                Err(m) => Err(m),
                Ok((ty, ps3)) => {
                    let acc2 = acc.push(SParam { name, ty });
                    if ps3.la is Comma {
                        match s_advance(s, ps3) {
                            Err(m) => Err(m),
                            Ok(ps4) => if lt(s, ps4, ps) {
                                p_params_loop(s, ps4, acc2)
                            } else {
                                Err(seq![])
                            },
                        }
                    } else {
                        Ok((acc2, ps3))
                    }
                },
            },
        },
    }
}

/// An optional `-> type`.
pub open spec fn p_return_type(s: Seq<char>, ps: PState, kind: TypeEnd) -> Result<
    (Option<Seq<char>>, PState),
    Seq<char>,
> {
    if ps.la is Arrow {
        match s_advance(s, ps) {
            Err(m) => Err(m),
            Ok(ps1) => match s_type(s, ps1, kind, seq![]) {
                Err(m) => Err(m),
                Ok((t, ps2)) => Ok((Some(t), ps2)),
            },
        }
    } else {
        Ok((None, ps))
    }
}

/// Statements up to (not including) `}`.
pub open spec fn p_body(s: Seq<char>, ps: PState, acc: Seq<SStmt>) -> Result<
    (Seq<SStmt>, PState),
    Seq<char>,
>
    decreases measure(s, ps),
{
    if ps.la is RBrace {
        Ok((acc, ps))
    } else {
        match p_stmt(s, ps) {
            Err(m) => Err(m),
            Ok((st, ps1)) => if lt(s, ps1, ps) {
                p_body(s, ps1, acc.push(st))
            } else {
                Err(seq![])
            },
        }
    }
}

/// `fn name(params) -> type? { stmts }`.
pub open spec fn p_function(s: Seq<char>, ps: PState) -> Result<(SFunction, PState), Seq<char>> {
    match s_expect(s, ps, SpecToken::Fn) {
        Err(m) => Err(m),
        Ok(ps1) => match s_expect_ident(s, ps1) {
            Err(m) => Err(m),
            Ok((name, ps2)) => match s_expect(s, ps2, SpecToken::LParen) {
                Err(m) => Err(m),
                Ok(ps3) => match p_params(s, ps3) {
                    Err(m) => Err(m),
                    Ok((params, ps4)) => match s_expect(s, ps4, SpecToken::RParen) {
                        Err(m) => Err(m),
                        Ok(ps5) => match p_return_type(s, ps5, TypeEnd::LBrace) {
                            Err(m) => Err(m),
                            Ok((return_type, ps6)) => match s_expect(s, ps6, SpecToken::LBrace) {
                                Err(m) => Err(m),
                                Ok(ps7) => match p_body(s, ps7, seq![]) {
                                    Err(m) => Err(m),
                                    Ok((body, ps8)) => match s_expect(s, ps8, SpecToken::RBrace) {
                                        Err(m) => Err(m),
                                        Ok(ps9) => Ok(
                                            (SFunction { name, params, body, return_type }, ps9),
                                        ),
                                    },
                                },
                            },
                        },
                    },
                },
            },
        },
    }
}

/// Struct fields up to (not including) `}`.
pub open spec fn p_fields(s: Seq<char>, ps: PState, acc: Seq<SField>) -> Result<
    (Seq<SField>, PState),
    Seq<char>,
>
    decreases measure(s, ps),
{
    if ps.la is RBrace {
        Ok((acc, ps))
    } else {
        match s_expect_ident(s, ps) {
            Err(m) => Err(m),
            Ok((name, ps1)) => match s_expect(s, ps1, SpecToken::Colon) {
                Err(m) => Err(m),
                Ok(ps2) => match s_type(s, ps2, TypeEnd::StructField, seq![]) {
                    Err(m) => Err(m),
                    Ok((ty, ps3)) => {
                        let acc2 = acc.push(SField { name, ty });
                        let next: Result<PState, Seq<char>> = if ps3.la is Comma {
                            s_advance(s, ps3)
                        } else {
                            Ok(ps3)
                        };
                        match next {
                            Err(m) => Err(m),
                            Ok(ps4) => if lt(s, ps4, ps) {
                                p_fields(s, ps4, acc2)
                            } else {
                                Err(seq![])
                            },
                        }
                    },
                },
            },
        }
    }
}

/// `struct Name { field: type, ... }`.
pub open spec fn p_struct(s: Seq<char>, ps: PState) -> Result<(SStructDef, PState), Seq<char>> {
    match s_expect(s, ps, SpecToken::Struct) {
        Err(m) => Err(m),
        Ok(ps1) => match s_expect_ident(s, ps1) {
            Err(m) => Err(m),
            Ok((name, ps2)) => match s_expect(s, ps2, SpecToken::LBrace) {
                Err(m) => Err(m),
                Ok(ps3) => match p_fields(s, ps3, seq![]) {
                    Err(m) => Err(m),
                    Ok((fields, ps4)) => match s_expect(s, ps4, SpecToken::RBrace) {
                        Err(m) => Err(m),
                        Ok(ps5) => Ok((SStructDef { name, fields }, ps5)),
                    },
                },
            },
        },
    }
}

/// `fn m(params) -> type?` and an optional `.`.
pub open spec fn p_trait_method(s: Seq<char>, ps: PState) -> Result<(STraitMethod, PState), Seq<char>> {
    match s_expect(s, ps, SpecToken::Fn) {
        Err(m) => Err(m),
        Ok(ps1) => match s_expect_ident(s, ps1) {
            Err(m) => Err(m),
            Ok((name, ps2)) => match s_expect(s, ps2, SpecToken::LParen) {
                Err(m) => Err(m),
                Ok(ps3) => match p_params(s, ps3) {
                    Err(m) => Err(m),
                    Ok((params, ps4)) => match s_expect(s, ps4, SpecToken::RParen) {
                        Err(m) => Err(m),
                        Ok(ps5) => match p_return_type(s, ps5, TypeEnd::TraitEnd) {
                            Err(m) => Err(m),
                            Ok((return_type, ps6)) => match s_terminator(s, ps6) {
                                Err(m) => Err(m),
                                Ok(ps7) => Ok((STraitMethod { name, params, return_type }, ps7)),
                            },
                        },
                    },
                },
            },
        },
    }
}

/// Trait method declarations up to (not including) `}`.
pub open spec fn p_methods(s: Seq<char>, ps: PState, acc: Seq<STraitMethod>) -> Result<
    (Seq<STraitMethod>, PState),
    Seq<char>,
>
    decreases measure(s, ps),
{
    if ps.la is RBrace {
        Ok((acc, ps))
    } else {
        match p_trait_method(s, ps) {
            Err(m) => Err(m),
            Ok((meth, ps1)) => if lt(s, ps1, ps) {
                p_methods(s, ps1, acc.push(meth))
            } else {
                Err(seq![])
            },
        }
    }
}

/// `trait Name { fn m(params) -> type? . ... }`.
pub open spec fn p_trait(s: Seq<char>, ps: PState) -> Result<(STraitDef, PState), Seq<char>> {
    match s_expect(s, ps, SpecToken::Trait) {
        Err(m) => Err(m),
        Ok(ps1) => match s_expect_ident(s, ps1) {
            Err(m) => Err(m),
            Ok((name, ps2)) => match s_expect(s, ps2, SpecToken::LBrace) {
                Err(m) => Err(m),
                Ok(ps3) => match p_methods(s, ps3, seq![]) {
                    Err(m) => Err(m),
                    Ok((methods, ps4)) => match s_expect(s, ps4, SpecToken::RBrace) {
                        Err(m) => Err(m),
                        Ok(ps5) => Ok((STraitDef { name, methods }, ps5)),
                    },
                },
            },
        },
    }
}

/// Functions up to (not including) `}`.
pub open spec fn p_functions(s: Seq<char>, ps: PState, acc: Seq<SFunction>) -> Result<
    (Seq<SFunction>, PState),
    Seq<char>,
>
    decreases measure(s, ps),
{
    if ps.la is RBrace {
        Ok((acc, ps))
    } else {
        match p_function(s, ps) {
            Err(m) => Err(m),
            Ok((f, ps1)) => if lt(s, ps1, ps) {
                p_functions(s, ps1, acc.push(f))
            } else {
                Err(seq![])
            },
        }
    }
}

/// `impl Name { fn ... }`.
pub open spec fn p_impl(s: Seq<char>, ps: PState) -> Result<(SImplDef, PState), Seq<char>> {
    match s_expect(s, ps, SpecToken::Impl) {
        Err(m) => Err(m),
        Ok(ps1) => match s_expect_ident(s, ps1) {
            Err(m) => Err(m),
            Ok((name, ps2)) => match s_expect(s, ps2, SpecToken::LBrace) {
                Err(m) => Err(m),
                Ok(ps3) => match p_functions(s, ps3, seq![]) {
                    Err(m) => Err(m),
                    Ok((methods, ps4)) => match s_expect(s, ps4, SpecToken::RBrace) {
                        Err(m) => Err(m),
                        Ok(ps5) => Ok((SImplDef { name, methods }, ps5)),
                    },
                },
            },
        },
    }
}

/// The items of a program, from `ps` to the end of the input.
pub open spec fn p_items(s: Seq<char>, ps: PState, acc: SProgram) -> Result<(SProgram, PState), Seq<char>>
    decreases measure(s, ps),
{
    match ps.la {
        SpecToken::Eof => Ok((acc, ps)),
        SpecToken::Struct => match p_struct(s, ps) {
            Err(m) => Err(m),
            Ok((d, ps1)) => if lt(s, ps1, ps) {
                p_items(s, ps1, SProgram { structs: acc.structs.push(d), ..acc })
            } else {
                Err(seq![])
            },
        },
        SpecToken::Trait => match p_trait(s, ps) {
            Err(m) => Err(m),
            Ok((d, ps1)) => if lt(s, ps1, ps) {
                p_items(s, ps1, SProgram { traits: acc.traits.push(d), ..acc })
            } else {
                Err(seq![])
            },
        },
        SpecToken::Impl => match p_impl(s, ps) {
            Err(m) => Err(m),
            Ok((d, ps1)) => if lt(s, ps1, ps) {
                p_items(s, ps1, SProgram { impls: acc.impls.push(d), ..acc })
            } else {
                Err(seq![])
            },
        },
        SpecToken::Fn => match p_function(s, ps) {
            Err(m) => Err(m),
            Ok((f, ps1)) => if lt(s, ps1, ps) {
                p_items(s, ps1, SProgram { functions: acc.functions.push(f), ..acc })
            } else {
                Err(seq![])
            },
        },
        _ => Err("unexpected token at top-level"@),
    }
}

pub open spec fn empty_program() -> SProgram {
    SProgram { functions: seq![], structs: seq![], traits: seq![], impls: seq![] }
}

/// The state after `Parser::new`: the first token, or `Eof` where lexing it
/// failed.
pub open spec fn start_state(s: Seq<char>) -> PState {
    let (t, p) = spec_next_token(s, 0);
    match t {
        Ok(tok) => PState { pos: p, la: tok },
        Err(_) => PState { pos: p, la: SpecToken::Eof },
    }
}

/// The whole program of a source text, or the first error message.
pub open spec fn spec_parse(s: Seq<char>) -> Result<SProgram, Seq<char>> {
    match p_items(s, start_state(s), empty_program()) {
        Ok((prog, _)) => Ok(prog),
        Err(m) => Err(m),
    }
}


// ---------------------------------------------------------------------------
// The executable parser
// ---------------------------------------------------------------------------
pub open spec fn ps_ok(s: Seq<char>, ps: PState) -> bool {
    0 <= ps.pos <= s.len()
}

/// Reading a token after a lookahead that is not `Eof` stays within the
/// input and lowers the measure.
pub proof fn lemma_advance(s: Seq<char>, ps: PState)
    requires
        ps_ok(s, ps),
        !(ps.la is Eof),
    ensures
        s_advance(s, ps) matches Ok(ps2) ==> ps_ok(s, ps2) && lt(s, ps2, ps),
{
    law_next_token_progress(s, ps.pos);
}

/// Byte-string equality.
pub fn bytes_eq(a: &[u8], b: &[u8]) -> (r: bool)
    ensures
        r == (a@ == b@),
{
    if a.len() != b.len() {
        return false;
    }
    let mut i: usize = 0;
    while i < a.len()
        invariant
            a@.len() == b@.len(),
            i <= a@.len(),
            a@.subrange(0, i as int) == b@.subrange(0, i as int),
        decreases a@.len() - i,
    {
        if a[i] != b[i] {
            assert(a@[i as int] != b@[i as int]);
            return false;
        }
        proof {
            assert(a@.subrange(0, i + 1) =~= a@.subrange(0, i as int).push(a@[i as int]));
            assert(b@.subrange(0, i + 1) =~= b@.subrange(0, i as int).push(b@[i as int]));
        }
        i = i + 1;
    }
    assert(a@ =~= a@.subrange(0, i as int));
    assert(b@ =~= b@.subrange(0, i as int));
    true
}

/// A copy of a byte string.
pub fn copy_bytes(a: &[u8]) -> (r: Vec<u8>)
    ensures
        r@ == a@,
{
    let mut r: Vec<u8> = Vec::new();
    let mut i: usize = 0;
    while i < a.len()
        invariant
            i <= a@.len(),
            r@ == a@.subrange(0, i as int),
        decreases a@.len() - i,
    {
        r.push(a[i]);
        i = i + 1;
    }
    assert(a@ =~= a@.subrange(0, i as int));
    r
}

/// Token equality (`==` on `Token`).
pub fn token_eq(a: &Token, b: &Token) -> (r: bool)
    ensures
        r == (a@ == b@),
{
    match a {
        Token::Ident(x) => match b {
            Token::Ident(y) => *x == *y,
            _ => false,
        },
        Token::Str(x) => match b {
            Token::Str(y) => bytes_eq(x.as_slice(), y.as_slice()),
            _ => false,
        },
        Token::Number(x) => match b {
            Token::Number(y) => *x == *y,
            _ => false,
        },
        Token::Let => matches!(b, Token::Let),
        Token::Struct => matches!(b, Token::Struct),
        Token::Impl => matches!(b, Token::Impl),
        Token::Trait => matches!(b, Token::Trait),
        Token::Loop => matches!(b, Token::Loop),
        Token::Match => matches!(b, Token::Match),
        Token::Brk => matches!(b, Token::Brk),
        Token::True => matches!(b, Token::True),
        Token::False => matches!(b, Token::False),
        Token::Fn => matches!(b, Token::Fn),
        Token::Arrow => matches!(b, Token::Arrow),
        Token::FatArrow => matches!(b, Token::FatArrow),
        Token::Assign => matches!(b, Token::Assign),
        Token::EqEq => matches!(b, Token::EqEq),
        Token::NotEq => matches!(b, Token::NotEq),
        Token::Lt => matches!(b, Token::Lt),
        Token::Le => matches!(b, Token::Le),
        Token::Gt => matches!(b, Token::Gt),
        Token::Ge => matches!(b, Token::Ge),
        Token::Plus => matches!(b, Token::Plus),
        Token::Minus => matches!(b, Token::Minus),
        Token::Star => matches!(b, Token::Star),
        Token::Slash => matches!(b, Token::Slash),
        Token::Percent => matches!(b, Token::Percent),
        Token::LParen => matches!(b, Token::LParen),
        Token::RParen => matches!(b, Token::RParen),
        Token::LBrace => matches!(b, Token::LBrace),
        Token::RBrace => matches!(b, Token::RBrace),
        Token::Comma => matches!(b, Token::Comma),
        Token::Colon => matches!(b, Token::Colon),
        Token::ColonColon => matches!(b, Token::ColonColon),
        Token::Dot => matches!(b, Token::Dot),
        Token::Bang => matches!(b, Token::Bang),
        Token::Tick => matches!(b, Token::Tick),
        Token::Underscore => matches!(b, Token::Underscore),
        Token::Eof => matches!(b, Token::Eof),
    }
}

/// Views of a list of texts.
pub open spec fn strings_view(v: Seq<String>) -> Seq<Seq<char>> {
    v.map_values(|x: String| x@)
}

/// `parts.join(" ")`.
pub fn join_strings(parts: &Vec<String>) -> (r: String)
    ensures
        r@ == join_words(strings_view(parts@)),
{
    let mut r = string_of("");
    proof {
        reveal_strlit("");
        assert(strings_view(parts@.subrange(0, 0)) =~= seq![]);
    }
    let mut i: usize = 0;
    while i < parts.len()
        invariant
            i <= parts@.len(),
            r@ == join_words(strings_view(parts@.subrange(0, i as int))),
        decreases parts@.len() - i,
    {
        let ghost before = r@;
        if i > 0 {
            push_char(&mut r, ' ');
        }
        let word = str_to_chars(parts[i].as_str());
        let mut k: usize = 0;
        while k < word.len()
            invariant
                k <= word@.len(),
                r@ == (if i > 0 {
                    before + seq![' ']
                } else {
                    before
                }) + word@.subrange(0, k as int),
            decreases word@.len() - k,
        {
            push_char(&mut r, word[k]);
            proof {
                assert(word@.subrange(0, k + 1) =~= word@.subrange(0, k as int).push(word@[k as int]));
            }
            k = k + 1;
        }
        proof {
            let pre = strings_view(parts@.subrange(0, i as int));
            let post = strings_view(parts@.subrange(0, i + 1));
            assert(post.drop_last() =~= pre);
            assert(post.last() == parts@[i as int]@);
            assert(word@.subrange(0, k as int) =~= parts@[i as int]@);
            if i == 0 {
                assert(post.len() == 1);
                assert(before =~= seq![]);
                assert(r@ =~= post[0]);
            }
        }
        i = i + 1;
    }
    assert(parts@.subrange(0, i as int) =~= parts@);
    r
}

/// The parser: a lexer and one token of lookahead.
pub struct Parser {
    lexer: Lexer,
    lookahead: Token,
}

impl Parser {
    /// The source text.
    pub closed spec fn src(&self) -> Seq<char> {
        self.lexer.input_view()
    }

    /// The lexer's position and the lookahead.
    pub closed spec fn state(&self) -> PState {
        PState { pos: self.lexer.pos_view(), la: self.lookahead@ }
    }

    pub closed spec fn wf(&self) -> bool {
        self.lexer.wf()
    }

    pub proof fn lemma_wf(&self)
        requires
            self.wf(),
        ensures
            ps_ok(self.src(), self.state()),
    {
        self.lexer.lemma_wf();
    }

    /// A parser at the first token of `input`; a first token that does not
    /// lex is taken as `Eof`.
    pub fn new(input: &str) -> (r: Self)
        requires
            input@.len() < usize::MAX,
        ensures
            r.wf(),
            r.src() == input@,
            r.state() == start_state(input@),
    {
        let mut lexer = Lexer::new(input);
        let lookahead = match lexer.next_token() {
            Ok(t) => t,
            Err(_) => Token::Eof,
        };
        Parser { lexer, lookahead }
    }

    fn advance(&mut self) -> (r: Result<(), String>)
        requires
            old(self).wf(),
        ensures
            final(self).wf(),
            final(self).src() == old(self).src(),
            match r {
                Ok(_) => s_advance(old(self).src(), old(self).state()) == Ok::<PState, Seq<char>>(
                    final(self).state(),
                ),
                Err(m) => s_advance(old(self).src(), old(self).state()) == Err::<PState, Seq<char>>(
                    m@,
                ),
            },
            r is Ok && !(old(self).state().la is Eof) ==> lt(
                old(self).src(),
                final(self).state(),
                old(self).state(),
            ),
    {
        proof {
            self.lemma_wf();
            if !(self.state().la is Eof) {
                lemma_advance(self.src(), self.state());
            }
        }
        match self.lexer.next_token() {
            Ok(t) => {
                self.lookahead = t;
                Ok(())
            },
            Err(m) => Err(m),
        }
    }

    /// The token after the lookahead, read by a second lexer.
    fn peek_token(&self) -> (r: Result<Token, String>)
        requires
            self.wf(),
        ensures
            match r {
                Ok(t) => s_peek(self.src(), self.state()) == Ok::<SpecToken, Seq<char>>(t@),
                Err(m) => s_peek(self.src(), self.state()) == Err::<SpecToken, Seq<char>>(m@),
            },
    {
        let mut lexer = self.lexer.fork();
        lexer.next_token()
    }

    fn expect(&mut self, token: Token) -> (r: Result<(), String>)
        requires
            old(self).wf(),
            !(token@ is Eof),
        ensures
            final(self).wf(),
            final(self).src() == old(self).src(),
            match r {
                Ok(_) => s_expect(old(self).src(), old(self).state(), token@) == Ok::<
                    PState,
                    Seq<char>,
                >(final(self).state()),
                Err(m) => s_expect(old(self).src(), old(self).state(), token@) == Err::<
                    PState,
                    Seq<char>,
                >(m@),
            },
            r is Ok ==> lt(old(self).src(), final(self).state(), old(self).state()),
    {
        if token_eq(&self.lookahead, &token) {
            self.advance()
        } else {
            Err(mismatch_message(&token, &self.lookahead))
        }
    }

    fn expect_ident(&mut self) -> (r: Result<String, String>)
        requires
            old(self).wf(),
        ensures
            final(self).wf(),
            final(self).src() == old(self).src(),
            match r {
                Ok(n) => s_expect_ident(old(self).src(), old(self).state()) == Ok::<
                    (Seq<char>, PState),
                    Seq<char>,
                >((n@, final(self).state())),
                Err(m) => s_expect_ident(old(self).src(), old(self).state()) == Err::<
                    (Seq<char>, PState),
                    Seq<char>,
                >(m@),
            },
            r is Ok ==> lt(old(self).src(), final(self).state(), old(self).state()),
    {
        let name = match &self.lookahead {
            Token::Ident(name) => name.clone(),
            _ => return Err(string_of("expected identifier")),
        };
        match self.advance() {
            Ok(_) => Ok(name),
            Err(m) => Err(m),
        }
    }

    /// `name`, or `Type::method` as `Type__method`.
    fn parse_call_name(&mut self) -> (r: Result<String, String>)
        requires
            old(self).wf(),
        ensures
            final(self).wf(),
            final(self).src() == old(self).src(),
            match r {
                Ok(n) => s_call_name(old(self).src(), old(self).state()) == Ok::<
                    (Seq<char>, PState),
                    Seq<char>,
                >((n@, final(self).state())),
                Err(m) => s_call_name(old(self).src(), old(self).state()) == Err::<
                    (Seq<char>, PState),
                    Seq<char>,
                >(m@),
            },
            r is Ok ==> lt(old(self).src(), final(self).state(), old(self).state()),
    {
        let base = match self.expect_ident() {
            Ok(b) => b,
            Err(m) => return Err(m),
        };
        if matches!(self.lookahead, Token::ColonColon) {
            match self.advance() {
                Ok(_) => {},
                Err(m) => return Err(m),
            }
            let method = match self.expect_ident() {
                Ok(x) => x,
                Err(m) => return Err(m),
            };
            let mut name = base;
            push_char(&mut name, '_');
            push_char(&mut name, '_');
            let chars = str_to_chars(method.as_str());
            let mut k: usize = 0;
            let ghost head = name@;
            while k < chars.len()
                invariant
                    k <= chars@.len(),
                    name@ == head + chars@.subrange(0, k as int),
                decreases chars@.len() - k,
            {
                push_char(&mut name, chars[k]);
                proof {
                    assert(chars@.subrange(0, k + 1) =~= chars@.subrange(0, k as int).push(chars@[k as int]));
                }
                k = k + 1;
            }
            proof {
                reveal_strlit("__");
                assert(chars@.subrange(0, k as int) =~= method@);
                assert(name@ =~= base@ + "__"@ + method@);
            }
            Ok(name)
        } else {
            Ok(base)
        }
    }

    /// An optional `.` after a statement.
    fn consume_stmt_terminator(&mut self) -> (r: Result<(), String>)
        requires
            old(self).wf(),
        ensures
            final(self).wf(),
            final(self).src() == old(self).src(),
            match r {
                Ok(_) => s_terminator(old(self).src(), old(self).state()) == Ok::<PState, Seq<char>>(
                    final(self).state(),
                ),
                Err(m) => s_terminator(old(self).src(), old(self).state()) == Err::<
                    PState,
                    Seq<char>,
                >(m@),
            },
            r is Ok ==> le(old(self).src(), final(self).state(), old(self).state()),
    {
        if matches!(self.lookahead, Token::Dot) {
            self.advance()
        } else {
            Ok(())
        }
    }

    /// A type written as words, up to the token that ends it.
    fn parse_type_until(&mut self, kind: TypeEnd) -> (r: Result<String, String>)
        requires
            old(self).wf(),
        ensures
            final(self).wf(),
            final(self).src() == old(self).src(),
            match r {
                Ok(t) => s_type(old(self).src(), old(self).state(), kind, seq![]) == Ok::<
                    (Seq<char>, PState),
                    Seq<char>,
                >((t@, final(self).state())),
                Err(m) => s_type(old(self).src(), old(self).state(), kind, seq![]) == Err::<
                    (Seq<char>, PState),
                    Seq<char>,
                >(m@),
            },
            r is Ok ==> le(old(self).src(), final(self).state(), old(self).state()),
    {
        let mut parts: Vec<String> = Vec::new();
        let ghost s = self.src();
        let ghost ps0 = self.state();
        proof {
            assert(strings_view(parts@) =~= seq![]);
        }
        loop
            invariant
                self.wf(),
                self.src() == s,
                s == old(self).src(),
                ps0 == old(self).state(),
                s_type(s, self.state(), kind, strings_view(parts@)) == s_type(s, ps0, kind, seq![]),
                le(s, self.state(), ps0),
            decreases measure(s, self.state()),
        {
            let word = match &self.lookahead {
                Token::Ident(w) => Some(w.clone()),
                _ => None,
            };
            match word {
                Some(w) => {
                    match self.advance() {
                        Ok(_) => {},
                        Err(m) => return Err(m),
                    }
                    proof {
                        assert(strings_view(parts@.push(w)) =~= strings_view(parts@).push(w@));
                    }
                    parts.push(w);
                },
                None => {
                    let stops = match kind {
                        TypeEnd::Delim => matches!(self.lookahead, Token::Comma | Token::RParen),
                        TypeEnd::LBrace => matches!(self.lookahead, Token::LBrace),
                        TypeEnd::Assign => true,
                        TypeEnd::StructField => matches!(self.lookahead, Token::Comma | Token::RBrace),
                        TypeEnd::TraitEnd => matches!(self.lookahead, Token::Dot | Token::RBrace),
                    };
                    if stops {
                        return Ok(join_strings(&parts));
                    }
                    let msg = match kind {
                        TypeEnd::Delim => string_of("unexpected token in type"),
                        TypeEnd::LBrace => string_of("unexpected token in return type"),
                        TypeEnd::Assign => string_of(""),
                        TypeEnd::StructField => string_of("unexpected token in struct field type"),
                        TypeEnd::TraitEnd => string_of("unexpected token in trait return type"),
                    };
                    proof {
                        if kind is Assign {
                            reveal_strlit("");
                        }
                    }
                    return Err(msg);
                },
            }
        }
    }
}


impl Parser {
    fn parse_type_until_delim(&mut self) -> (r: Result<String, String>)
        requires
            old(self).wf(),
        ensures
            final(self).wf(),
            final(self).src() == old(self).src(),
            match r {
                Ok(x) => s_type(old(self).src(), old(self).state(), TypeEnd::Delim, seq![]) == Ok::<(Seq<char>, PState), Seq<char>>(
                    (x@, final(self).state()),
                ),
                Err(m) => s_type(old(self).src(), old(self).state(), TypeEnd::Delim, seq![]) == Err::<(Seq<char>, PState), Seq<char>>(m@),
            },
            r is Ok ==> le(old(self).src(), final(self).state(), old(self).state()),
    {
        self.parse_type_until(TypeEnd::Delim)
    }

    fn parse_type_until_lbrace(&mut self) -> (r: Result<String, String>)
        requires
            old(self).wf(),
        ensures
            final(self).wf(),
            final(self).src() == old(self).src(),
            match r {
                Ok(x) => s_type(old(self).src(), old(self).state(), TypeEnd::LBrace, seq![]) == Ok::<(Seq<char>, PState), Seq<char>>(
                    (x@, final(self).state()),
                ),
                Err(m) => s_type(old(self).src(), old(self).state(), TypeEnd::LBrace, seq![]) == Err::<(Seq<char>, PState), Seq<char>>(m@),
            },
            r is Ok ==> le(old(self).src(), final(self).state(), old(self).state()),
    {
        self.parse_type_until(TypeEnd::LBrace)
    }

    fn parse_type_until_assign(&mut self) -> (r: Result<String, String>)
        requires
            old(self).wf(),
        ensures
            final(self).wf(),
            final(self).src() == old(self).src(),
            match r {
                Ok(x) => s_type(old(self).src(), old(self).state(), TypeEnd::Assign, seq![]) == Ok::<(Seq<char>, PState), Seq<char>>(
                    (x@, final(self).state()),
                ),
                Err(m) => s_type(old(self).src(), old(self).state(), TypeEnd::Assign, seq![]) == Err::<(Seq<char>, PState), Seq<char>>(m@),
            },
            r is Ok ==> le(old(self).src(), final(self).state(), old(self).state()),
    {
        self.parse_type_until(TypeEnd::Assign)
    }

    fn parse_type_until_struct_field_end(&mut self) -> (r: Result<String, String>)
        requires
            old(self).wf(),
        ensures
            final(self).wf(),
            final(self).src() == old(self).src(),
            match r {
                Ok(x) => s_type(old(self).src(), old(self).state(), TypeEnd::StructField, seq![]) == Ok::<(Seq<char>, PState), Seq<char>>(
                    (x@, final(self).state()),
                ),
                Err(m) => s_type(old(self).src(), old(self).state(), TypeEnd::StructField, seq![]) == Err::<(Seq<char>, PState), Seq<char>>(m@),
            },
            r is Ok ==> le(old(self).src(), final(self).state(), old(self).state()),
    {
        self.parse_type_until(TypeEnd::StructField)
    }

    fn parse_type_until_trait_end(&mut self) -> (r: Result<String, String>)
        requires
            old(self).wf(),
        ensures
            final(self).wf(),
            final(self).src() == old(self).src(),
            match r {
                Ok(x) => s_type(old(self).src(), old(self).state(), TypeEnd::TraitEnd, seq![]) == Ok::<(Seq<char>, PState), Seq<char>>(
                    (x@, final(self).state()),
                ),
                Err(m) => s_type(old(self).src(), old(self).state(), TypeEnd::TraitEnd, seq![]) == Err::<(Seq<char>, PState), Seq<char>>(m@),
            },
            r is Ok ==> le(old(self).src(), final(self).state(), old(self).state()),
    {
        self.parse_type_until(TypeEnd::TraitEnd)
    }

    /// The number after a relational match pattern.
    fn pattern_number(&mut self, msg: &str) -> (r: Result<i64, String>)
        requires
            old(self).wf(),
            !(old(self).state().la is Eof),
        ensures
            final(self).wf(),
            final(self).src() == old(self).src(),
            match r {
                Ok(x) => s_pattern_number(old(self).src(), old(self).state(), msg@) == Ok::<(i64, PState), Seq<char>>(
                    (x, final(self).state()),
                ),
                Err(m) => s_pattern_number(old(self).src(), old(self).state(), msg@) == Err::<(i64, PState), Seq<char>>(m@),
            },
            r is Ok ==> lt(old(self).src(), final(self).state(), old(self).state()),
    {
        proof {
            self.lemma_wf();
        }
        match self.advance() {
            Ok(_) => {},
            Err(m) => return Err(m),
        }
        let n = match &self.lookahead {
            Token::Number(n) => *n,
            _ => return Err(string_of(msg)),
        };
        match self.advance() {
            Ok(_) => Ok(n),
            Err(m) => Err(m),
        }
    }

    fn parse_pattern(&mut self) -> (r: Result<MatchPattern, String>)
        requires
            old(self).wf(),
        ensures
            final(self).wf(),
            final(self).src() == old(self).src(),
            match r {
                Ok(x) => s_pattern(old(self).src(), old(self).state()) == Ok::<(MatchPattern, PState), Seq<char>>(
                    (x, final(self).state()),
                ),
                Err(m) => s_pattern(old(self).src(), old(self).state()) == Err::<(MatchPattern, PState), Seq<char>>(m@),
            },
            r is Ok ==> lt(old(self).src(), final(self).state(), old(self).state()),
    {
        proof {
            self.lemma_wf();
        }
        if matches!(self.lookahead, Token::Underscore) {
            return match self.advance() {
                Ok(_) => Ok(MatchPattern::Wildcard),
                Err(m) => Err(m),
            };
        }
        if matches!(self.lookahead, Token::Lt) {
            return match self.pattern_number("expected number after '<'") {
                Ok(n) => Ok(MatchPattern::LessThan(n)),
                Err(m) => Err(m),
            };
        }
        if matches!(self.lookahead, Token::Le) {
            return match self.pattern_number("expected number after '<='") {
                Ok(n) => Ok(MatchPattern::LessEqual(n)),
                Err(m) => Err(m),
            };
        }
        if matches!(self.lookahead, Token::EqEq) {
            return match self.pattern_number("expected number after '=='") {
                Ok(n) => Ok(MatchPattern::Equal(n)),
                Err(m) => Err(m),
            };
        }
        if matches!(self.lookahead, Token::NotEq) {
            return match self.pattern_number("expected number after '!='") {
                Ok(n) => Ok(MatchPattern::NotEqual(n)),
                Err(m) => Err(m),
            };
        }
        if matches!(self.lookahead, Token::Gt) {
            return match self.pattern_number("expected number after '>'") {
                Ok(n) => Ok(MatchPattern::GreaterThan(n)),
                Err(m) => Err(m),
            };
        }
        if matches!(self.lookahead, Token::Ge) {
            return match self.pattern_number("expected number after '>='") {
                Ok(n) => Ok(MatchPattern::GreaterEqual(n)),
                Err(m) => Err(m),
            };
        }
        Err(string_of("invalid match pattern"))
    }

    fn parse_stmt(&mut self) -> (r: Result<Stmt, String>)
        requires
            old(self).wf(),
        ensures
            final(self).wf(),
            final(self).src() == old(self).src(),
            match r {
                Ok(x) => p_stmt(old(self).src(), old(self).state()) == Ok::<(SStmt, PState), Seq<char>>(
                    (view_stmt(&x), final(self).state()),
                ),
                Err(m) => p_stmt(old(self).src(), old(self).state()) == Err::<(SStmt, PState), Seq<char>>(m@),
            },
            r is Ok ==> lt(old(self).src(), final(self).state(), old(self).state()),
        decreases measure(old(self).src(), old(self).state()), 30int,
    {
        proof {
            self.lemma_wf();
        }
        if matches!(self.lookahead, Token::Let) {
            return self.parse_let();
        }
        if matches!(self.lookahead, Token::Brk) {
            return self.parse_break();
        }
        if matches!(self.lookahead, Token::Bang) {
            return self.parse_reactor_stdout();
        }
        if matches!(self.lookahead, Token::Ident(_)) {
        let next = match self.peek_token() {
            Ok(v) => v,
            Err(m) => return Err(m),
        };
            if matches!(next, Token::Assign) {
        let name = match self.expect_ident() {
            Ok(v) => v,
            Err(m) => return Err(m),
        };
        match self.expect(Token::Assign) {
            Ok(_) => {},
            Err(m) => return Err(m),
        }
        let expr = match self.parse_expr() {
            Ok(v) => v,
            Err(m) => return Err(m),
        };
        match self.consume_stmt_terminator() {
            Ok(_) => {},
            Err(m) => return Err(m),
        }
                return Ok(Stmt::Assign { name, expr });
            }
            if matches!(next, Token::LParen | Token::ColonColon) {
        let name = match self.parse_call_name() {
            Ok(v) => v,
            Err(m) => return Err(m),
        };
        match self.expect(Token::LParen) {
            Ok(_) => {},
            Err(m) => return Err(m),
        }
        let args = match self.parse_args() {
            Ok(v) => v,
            Err(m) => return Err(m),
        };
        match self.expect(Token::RParen) {
            Ok(_) => {},
            Err(m) => return Err(m),
        }
        match self.consume_stmt_terminator() {
            Ok(_) => {},
            Err(m) => return Err(m),
        }
                return Ok(Stmt::Call { name, args });
            }
        }
        let expr = match self.parse_expr() {
            Ok(v) => v,
            Err(m) => return Err(m),
        };
        if matches!(self.lookahead, Token::Dot) {
        match self.advance() {
            Ok(_) => {},
            Err(m) => return Err(m),
        }
        }
        Ok(Stmt::ExprStmt(expr))
    }

    fn parse_let(&mut self) -> (r: Result<Stmt, String>)
        requires
            old(self).wf(),
        ensures
            final(self).wf(),
            final(self).src() == old(self).src(),
            match r {
                Ok(x) => p_let(old(self).src(), old(self).state()) == Ok::<(SStmt, PState), Seq<char>>(
                    (view_stmt(&x), final(self).state()),
                ),
                Err(m) => p_let(old(self).src(), old(self).state()) == Err::<(SStmt, PState), Seq<char>>(m@),
            },
            r is Ok ==> lt(old(self).src(), final(self).state(), old(self).state()),
        decreases measure(old(self).src(), old(self).state()), 29int,
    {
        match self.expect(Token::Let) {
            Ok(_) => {},
            Err(m) => return Err(m),
        }
        let name = match self.expect_ident() {
            Ok(v) => v,
            Err(m) => return Err(m),
        };
        match self.expect(Token::Colon) {
            Ok(_) => {},
            Err(m) => return Err(m),
        }
        let ty = match self.parse_type_until_assign() {
            Ok(v) => v,
            Err(m) => return Err(m),
        };
        match self.expect(Token::Assign) {
            Ok(_) => {},
            Err(m) => return Err(m),
        }
        let expr = match self.parse_expr() {
            Ok(v) => v,
            Err(m) => return Err(m),
        };
        match self.consume_stmt_terminator() {
            Ok(_) => {},
            Err(m) => return Err(m),
        }
        Ok(Stmt::Let { name, ty, expr })
    }

    fn parse_break(&mut self) -> (r: Result<Stmt, String>)
        requires
            old(self).wf(),
        ensures
            final(self).wf(),
            final(self).src() == old(self).src(),
            match r {
                Ok(x) => p_break(old(self).src(), old(self).state()) == Ok::<(SStmt, PState), Seq<char>>(
                    (view_stmt(&x), final(self).state()),
                ),
                Err(m) => p_break(old(self).src(), old(self).state()) == Err::<(SStmt, PState), Seq<char>>(m@),
            },
            r is Ok ==> lt(old(self).src(), final(self).state(), old(self).state()),
        decreases measure(old(self).src(), old(self).state()), 29int,
    {
        match self.expect(Token::Brk) {
            Ok(_) => {},
            Err(m) => return Err(m),
        }
        let label = if matches!(self.lookahead, Token::Tick) {
        match self.advance() {
            Ok(_) => {},
            Err(m) => return Err(m),
        }
        let l = match self.expect_ident() {
            Ok(v) => v,
            Err(m) => return Err(m),
        };
            Some(l)
        } else {
            None
        };
        let expr = match self.parse_expr() {
            Ok(v) => v,
            Err(m) => return Err(m),
        };
        match self.consume_stmt_terminator() {
            Ok(_) => {},
            Err(m) => return Err(m),
        }
        Ok(Stmt::Break { label, expr })
    }

    /// `!reactor.stdout(arg)`.
    fn parse_reactor_stdout(&mut self) -> (r: Result<Stmt, String>)
        requires
            old(self).wf(),
        ensures
            final(self).wf(),
            final(self).src() == old(self).src(),
            match r {
                Ok(x) => p_reactor(old(self).src(), old(self).state()) == Ok::<(SStmt, PState), Seq<char>>(
                    (view_stmt(&x), final(self).state()),
                ),
                Err(m) => p_reactor(old(self).src(), old(self).state()) == Err::<(SStmt, PState), Seq<char>>(m@),
            },
            r is Ok ==> lt(old(self).src(), final(self).state(), old(self).state()),
        decreases measure(old(self).src(), old(self).state()), 29int,
    {
        match self.expect(Token::Bang) {
            Ok(_) => {},
            Err(m) => return Err(m),
        }
        let reactor = match self.expect_ident() {
            Ok(v) => v,
            Err(m) => return Err(m),
        };
        let reactor_chars = str_to_chars(reactor.as_str());
        if !text_is(reactor_chars.as_slice(), "reactor") {
            return Err(string_of("expected reactor"));
        }
        match self.expect(Token::Dot) {
            Ok(_) => {},
            Err(m) => return Err(m),
        }
        let method = match self.expect_ident() {
            Ok(v) => v,
            Err(m) => return Err(m),
        };
        let method_chars = str_to_chars(method.as_str());
        if !text_is(method_chars.as_slice(), "stdout") {
            return Err(string_of("expected stdout"));
        }
        match self.expect(Token::LParen) {
            Ok(_) => {},
            Err(m) => return Err(m),
        }
        let args = match self.parse_args() {
            Ok(v) => v,
            Err(m) => return Err(m),
        };
        match self.expect(Token::RParen) {
            Ok(_) => {},
            Err(m) => return Err(m),
        }
        match self.consume_stmt_terminator() {
            Ok(_) => {},
            Err(m) => return Err(m),
        }
        proof {
            lemma_view_exprs_index(args@);
        }
        if args.len() != 1 {
            return Err(string_of("stdout expects exactly one argument"));
        }
        let mut args = args;
        let arg = args.remove(0);
        Ok(Stmt::ReactorStdout { arg })
    }

    /// Call arguments up to (not including) `)`.
    #[verifier::loop_isolation(false)]
    fn parse_args(&mut self) -> (r: Result<Vec<Expr>, String>)
        requires
            old(self).wf(),
        ensures
            final(self).wf(),
            final(self).src() == old(self).src(),
            match r {
                Ok(x) => p_args(old(self).src(), old(self).state()) == Ok::<(Seq<SExpr>, PState), Seq<char>>(
                    (view_exprs(x@), final(self).state()),
                ),
                Err(m) => p_args(old(self).src(), old(self).state()) == Err::<(Seq<SExpr>, PState), Seq<char>>(m@),
            },
            r is Ok ==> le(old(self).src(), final(self).state(), old(self).state()),
        decreases measure(old(self).src(), old(self).state()), 26int,
    {
        let mut args: Vec<Expr> = Vec::new();
        proof {
            assert(args@ =~= seq![]);
        }
        if matches!(self.lookahead, Token::RParen) {
            return Ok(args);
        }
        let ghost s = self.src();
        let ghost ps0 = self.state();
        loop
            invariant
                self.wf(),
                self.src() == s,
                p_args_loop(s, self.state(), view_exprs(args@)) == p_args_loop(s, ps0, seq![]),
                le(s, self.state(), ps0),
            decreases measure(s, self.state()),
        {
        let e = match self.parse_expr() {
            Ok(v) => v,
            Err(m) => return Err(m),
        };
            proof {
                lemma_view_exprs_push(args@, e);
            }
            args.push(e);
            if matches!(self.lookahead, Token::Comma) {
        match self.advance() {
            Ok(_) => {},
            Err(m) => return Err(m),
        }
            } else {
                return Ok(args);
            }
        }
    }

    fn parse_expr(&mut self) -> (r: Result<Expr, String>)
        requires
            old(self).wf(),
        ensures
            final(self).wf(),
            final(self).src() == old(self).src(),
            match r {
                Ok(x) => p_expr(old(self).src(), old(self).state()) == Ok::<(SExpr, PState), Seq<char>>(
                    (view_expr(&x), final(self).state()),
                ),
                Err(m) => p_expr(old(self).src(), old(self).state()) == Err::<(SExpr, PState), Seq<char>>(m@),
            },
            r is Ok ==> lt(old(self).src(), final(self).state(), old(self).state()),
        decreases measure(old(self).src(), old(self).state()), 24int,
    {
        self.parse_equality()
    }

    #[verifier::loop_isolation(false)]
    fn parse_equality(&mut self) -> (r: Result<Expr, String>)
        requires
            old(self).wf(),
        ensures
            final(self).wf(),
            final(self).src() == old(self).src(),
            match r {
                Ok(x) => p_level(old(self).src(), old(self).state(), Level::Equality) == Ok::<(SExpr, PState), Seq<char>>(
                    (view_expr(&x), final(self).state()),
                ),
                Err(m) => p_level(old(self).src(), old(self).state(), Level::Equality) == Err::<(SExpr, PState), Seq<char>>(m@),
            },
            r is Ok ==> lt(old(self).src(), final(self).state(), old(self).state()),
        decreases measure(old(self).src(), old(self).state()), 22int,
    {
        let ghost s = self.src();
        let ghost ps0 = self.state();
        proof {
            self.lemma_wf();
        }
        proof {
            assert(p_operand(s, ps0, Level::Equality) == p_level(s, ps0, Level::Comparison));
        }
        let mut expr = match self.parse_comparison() {
            Ok(e) => e,
            Err(m) => return Err(m),
        };
        loop
            invariant
                self.wf(),
                self.src() == s,
                p_level_loop(s, self.state(), Level::Equality, view_expr(&expr)) == p_level(
                    s,
                    ps0,
                    Level::Equality,
                ),
                lt(s, self.state(), ps0),
            decreases measure(s, self.state()),
        {
            proof {
                self.lemma_wf();
            }
            let op = match &self.lookahead {
                Token::EqEq => BinOp::Eq,
                Token::NotEq => BinOp::Ne,
                _ => return Ok(expr),
            };
        match self.advance() {
            Ok(_) => {},
            Err(m) => return Err(m),
        }
            let ghost ps1 = self.state();
            proof {
                assert(p_operand(s, ps1, Level::Equality) == p_level(s, ps1, Level::Comparison));
            }
        let right = match self.parse_comparison() {
            Ok(v) => v,
            Err(m) => return Err(m),
        };
            expr = Expr::Binary { left: Box::new(expr), op, right: Box::new(right) };
        }
    }

    #[verifier::loop_isolation(false)]
    fn parse_comparison(&mut self) -> (r: Result<Expr, String>)
        requires
            old(self).wf(),
        ensures
            final(self).wf(),
            final(self).src() == old(self).src(),
            match r {
                Ok(x) => p_level(old(self).src(), old(self).state(), Level::Comparison) == Ok::<(SExpr, PState), Seq<char>>(
                    (view_expr(&x), final(self).state()),
                ),
                Err(m) => p_level(old(self).src(), old(self).state(), Level::Comparison) == Err::<(SExpr, PState), Seq<char>>(m@),
            },
            r is Ok ==> lt(old(self).src(), final(self).state(), old(self).state()),
        decreases measure(old(self).src(), old(self).state()), 20int,
    {
        let ghost s = self.src();
        let ghost ps0 = self.state();
        proof {
            self.lemma_wf();
        }
        proof {
            assert(p_operand(s, ps0, Level::Comparison) == p_level(s, ps0, Level::Term));
        }
        let mut expr = match self.parse_term() {
            Ok(e) => e,
            Err(m) => return Err(m),
        };
        loop
            invariant
                self.wf(),
                self.src() == s,
                p_level_loop(s, self.state(), Level::Comparison, view_expr(&expr)) == p_level(
                    s,
                    ps0,
                    Level::Comparison,
                ),
                lt(s, self.state(), ps0),
            decreases measure(s, self.state()),
        {
            proof {
                self.lemma_wf();
            }
            let op = match &self.lookahead {
                Token::Lt => BinOp::Lt,
                Token::Le => BinOp::Le,
                Token::Gt => BinOp::Gt,
                Token::Ge => BinOp::Ge,
                _ => return Ok(expr),
            };
        match self.advance() {
            Ok(_) => {},
            Err(m) => return Err(m),
        }
            let ghost ps1 = self.state();
            proof {
                assert(p_operand(s, ps1, Level::Comparison) == p_level(s, ps1, Level::Term));
            }
        let right = match self.parse_term() {
            Ok(v) => v,
            Err(m) => return Err(m),
        };
            expr = Expr::Binary { left: Box::new(expr), op, right: Box::new(right) };
        }
    }

    #[verifier::loop_isolation(false)]
    fn parse_term(&mut self) -> (r: Result<Expr, String>)
        requires
            old(self).wf(),
        ensures
            final(self).wf(),
            final(self).src() == old(self).src(),
            match r {
                Ok(x) => p_level(old(self).src(), old(self).state(), Level::Term) == Ok::<(SExpr, PState), Seq<char>>(
                    (view_expr(&x), final(self).state()),
                ),
                Err(m) => p_level(old(self).src(), old(self).state(), Level::Term) == Err::<(SExpr, PState), Seq<char>>(m@),
            },
            r is Ok ==> lt(old(self).src(), final(self).state(), old(self).state()),
        decreases measure(old(self).src(), old(self).state()), 18int,
    {
        let ghost s = self.src();
        let ghost ps0 = self.state();
        proof {
            self.lemma_wf();
        }
        proof {
            assert(p_operand(s, ps0, Level::Term) == p_level(s, ps0, Level::Factor));
        }
        let mut expr = match self.parse_factor() {
            Ok(e) => e,
            Err(m) => return Err(m),
        };
        loop
            invariant
                self.wf(),
                self.src() == s,
                p_level_loop(s, self.state(), Level::Term, view_expr(&expr)) == p_level(
                    s,
                    ps0,
                    Level::Term,
                ),
                lt(s, self.state(), ps0),
            decreases measure(s, self.state()),
        {
            proof {
                self.lemma_wf();
            }
            let op = match &self.lookahead {
                Token::Plus => BinOp::Add,
                Token::Minus => BinOp::Sub,
                _ => return Ok(expr),
            };
        match self.advance() {
            Ok(_) => {},
            Err(m) => return Err(m),
        }
            let ghost ps1 = self.state();
            proof {
                assert(p_operand(s, ps1, Level::Term) == p_level(s, ps1, Level::Factor));
            }
        let right = match self.parse_factor() {
            Ok(v) => v,
            Err(m) => return Err(m),
        };
            expr = Expr::Binary { left: Box::new(expr), op, right: Box::new(right) };
        }
    }

    #[verifier::loop_isolation(false)]
    fn parse_factor(&mut self) -> (r: Result<Expr, String>)
        requires
            old(self).wf(),
        ensures
            final(self).wf(),
            final(self).src() == old(self).src(),
            match r {
                Ok(x) => p_level(old(self).src(), old(self).state(), Level::Factor) == Ok::<(SExpr, PState), Seq<char>>(
                    (view_expr(&x), final(self).state()),
                ),
                Err(m) => p_level(old(self).src(), old(self).state(), Level::Factor) == Err::<(SExpr, PState), Seq<char>>(m@),
            },
            r is Ok ==> lt(old(self).src(), final(self).state(), old(self).state()),
        decreases measure(old(self).src(), old(self).state()), 16int,
    {
        let ghost s = self.src();
        let ghost ps0 = self.state();
        proof {
            self.lemma_wf();
        }
        proof {
            assert(p_operand(s, ps0, Level::Factor) == p_primary(s, ps0));
        }
        let mut expr = match self.parse_primary() {
            Ok(e) => e,
            Err(m) => return Err(m),
        };
        loop
            invariant
                self.wf(),
                self.src() == s,
                p_level_loop(s, self.state(), Level::Factor, view_expr(&expr)) == p_level(
                    s,
                    ps0,
                    Level::Factor,
                ),
                lt(s, self.state(), ps0),
            decreases measure(s, self.state()),
        {
            proof {
                self.lemma_wf();
            }
            let op = match &self.lookahead {
                Token::Star => BinOp::Mul,
                Token::Slash => BinOp::Div,
                Token::Percent => BinOp::Mod,
                _ => return Ok(expr),
            };
        match self.advance() {
            Ok(_) => {},
            Err(m) => return Err(m),
        }
            let ghost ps1 = self.state();
            proof {
                assert(p_operand(s, ps1, Level::Factor) == p_primary(s, ps1));
            }
        let right = match self.parse_primary() {
            Ok(v) => v,
            Err(m) => return Err(m),
        };
            expr = Expr::Binary { left: Box::new(expr), op, right: Box::new(right) };
        }
    }

    fn parse_primary(&mut self) -> (r: Result<Expr, String>)
        requires
            old(self).wf(),
        ensures
            final(self).wf(),
            final(self).src() == old(self).src(),
            match r {
                Ok(x) => p_primary(old(self).src(), old(self).state()) == Ok::<(SExpr, PState), Seq<char>>(
                    (view_expr(&x), final(self).state()),
                ),
                Err(m) => p_primary(old(self).src(), old(self).state()) == Err::<(SExpr, PState), Seq<char>>(m@),
            },
            r is Ok ==> lt(old(self).src(), final(self).state(), old(self).state()),
        decreases measure(old(self).src(), old(self).state()), 14int,
    {
        proof {
            self.lemma_wf();
        }
        let ident = match &self.lookahead {
            Token::Ident(name) => Some(name.clone()),
            _ => None,
        };
        if let Some(name) = ident {
        let next = match self.peek_token() {
            Ok(v) => v,
            Err(m) => return Err(m),
        };
            if matches!(next, Token::LParen | Token::ColonColon) {
        let cname = match self.parse_call_name() {
            Ok(v) => v,
            Err(m) => return Err(m),
        };
        match self.expect(Token::LParen) {
            Ok(_) => {},
            Err(m) => return Err(m),
        }
        let args = match self.parse_args() {
            Ok(v) => v,
            Err(m) => return Err(m),
        };
        match self.expect(Token::RParen) {
            Ok(_) => {},
            Err(m) => return Err(m),
        }
                return Ok(Expr::Call { name: cname, args });
            }
        match self.advance() {
            Ok(_) => {},
            Err(m) => return Err(m),
        }
            return Ok(Expr::Ident(name));
        }
        let bytes = match &self.lookahead {
            Token::Str(b) => Some(copy_bytes(b.as_slice())),
            _ => None,
        };
        if let Some(b) = bytes {
        match self.advance() {
            Ok(_) => {},
            Err(m) => return Err(m),
        }
            return Ok(Expr::StrLiteral(b));
        }
        let number = match &self.lookahead {
            Token::Number(v) => Some(*v),
            _ => None,
        };
        if let Some(v) = number {
        match self.advance() {
            Ok(_) => {},
            Err(m) => return Err(m),
        }
            return Ok(Expr::IntLiteral(v));
        }
        if matches!(self.lookahead, Token::True) {
        match self.advance() {
            Ok(_) => {},
            Err(m) => return Err(m),
        }
            return Ok(Expr::BoolLiteral(true));
        }
        if matches!(self.lookahead, Token::False) {
        match self.advance() {
            Ok(_) => {},
            Err(m) => return Err(m),
        }
            return Ok(Expr::BoolLiteral(false));
        }
        if matches!(self.lookahead, Token::Loop) {
            return self.parse_loop_expr();
        }
        if matches!(self.lookahead, Token::Match) {
            return self.parse_match_expr();
        }
        if matches!(self.lookahead, Token::LBrace) {
        let block = match self.parse_block() {
            Ok(v) => v,
            Err(m) => return Err(m),
        };
            return Ok(Expr::Block(block));
        }
        if matches!(self.lookahead, Token::LParen) {
        match self.advance() {
            Ok(_) => {},
            Err(m) => return Err(m),
        }
        let e = match self.parse_expr() {
            Ok(v) => v,
            Err(m) => return Err(m),
        };
        match self.expect(Token::RParen) {
            Ok(_) => {},
            Err(m) => return Err(m),
        }
            return Ok(e);
        }
        Err(string_of("unexpected token in expression"))
    }

    /// `{ stmts tail? }`.
    #[verifier::loop_isolation(false)]
    fn parse_block(&mut self) -> (r: Result<Block, String>)
        requires
            old(self).wf(),
        ensures
            final(self).wf(),
            final(self).src() == old(self).src(),
            match r {
                Ok(x) => p_block(old(self).src(), old(self).state()) == Ok::<(SBlock, PState), Seq<char>>(
                    (view_block(&x), final(self).state()),
                ),
                Err(m) => p_block(old(self).src(), old(self).state()) == Err::<(SBlock, PState), Seq<char>>(m@),
            },
            r is Ok ==> lt(old(self).src(), final(self).state(), old(self).state()),
        decreases measure(old(self).src(), old(self).state()), 12int,
    {
        let ghost s = self.src();
        let ghost ps0 = self.state();
        proof {
            self.lemma_wf();
        }
        match self.expect(Token::LBrace) {
            Ok(_) => {},
            Err(m) => return Err(m),
        }
        let ghost ps1 = self.state();
        let mut stmts: Vec<Stmt> = Vec::new();
        proof {
            assert(stmts@ =~= seq![]);
        }
        loop
            invariant
                self.wf(),
                self.src() == s,
                p_block_loop(s, self.state(), view_stmts(stmts@)) == p_block_loop(s, ps1, seq![]),
                lt(s, self.state(), ps0),
            decreases measure(s, self.state()),
        {
            proof {
                self.lemma_wf();
            }
            if matches!(self.lookahead, Token::RBrace) {
        match self.expect(Token::RBrace) {
            Ok(_) => {},
            Err(m) => return Err(m),
        }
                return Ok(Block { stmts, tail: None });
            } else if matches!(self.lookahead, Token::Let | Token::Brk | Token::Bang | Token::Ident(_)) {
        let st = match self.parse_stmt() {
            Ok(v) => v,
            Err(m) => return Err(m),
        };
                proof {
                    lemma_view_stmts_push(stmts@, st);
                }
                stmts.push(st);
            } else {
        let e = match self.parse_expr() {
            Ok(v) => v,
            Err(m) => return Err(m),
        };
                if matches!(self.lookahead, Token::Dot) {
        match self.advance() {
            Ok(_) => {},
            Err(m) => return Err(m),
        }
                    let st = Stmt::ExprStmt(e);
                    proof {
                        lemma_view_stmts_push(stmts@, st);
                    }
                    stmts.push(st);
                } else {
        match self.expect(Token::RBrace) {
            Ok(_) => {},
            Err(m) => return Err(m),
        }
                    return Ok(Block { stmts, tail: Some(Box::new(e)) });
                }
            }
        }
    }

    /// `loop 'label? { .. }`.
    fn parse_loop_expr(&mut self) -> (r: Result<Expr, String>)
        requires
            old(self).wf(),
        ensures
            final(self).wf(),
            final(self).src() == old(self).src(),
            match r {
                Ok(x) => p_loop(old(self).src(), old(self).state()) == Ok::<(SExpr, PState), Seq<char>>(
                    (view_expr(&x), final(self).state()),
                ),
                Err(m) => p_loop(old(self).src(), old(self).state()) == Err::<(SExpr, PState), Seq<char>>(m@),
            },
            r is Ok ==> lt(old(self).src(), final(self).state(), old(self).state()),
        decreases measure(old(self).src(), old(self).state()), 12int,
    {
        proof {
            self.lemma_wf();
        }
        match self.expect(Token::Loop) {
            Ok(_) => {},
            Err(m) => return Err(m),
        }
        let label = if matches!(self.lookahead, Token::Tick) {
        match self.advance() {
            Ok(_) => {},
            Err(m) => return Err(m),
        }
        let l = match self.expect_ident() {
            Ok(v) => v,
            Err(m) => return Err(m),
        };
            Some(l)
        } else {
            None
        };
        let body = match self.parse_block() {
            Ok(v) => v,
            Err(m) => return Err(m),
        };
        Ok(Expr::Loop(LoopExpr { label, body }))
    }

    /// `match e { pattern => body ... }`.
    #[verifier::loop_isolation(false)]
    fn parse_match_expr(&mut self) -> (r: Result<Expr, String>)
        requires
            old(self).wf(),
        ensures
            final(self).wf(),
            final(self).src() == old(self).src(),
            match r {
                Ok(x) => p_match(old(self).src(), old(self).state()) == Ok::<(SExpr, PState), Seq<char>>(
                    (view_expr(&x), final(self).state()),
                ),
                Err(m) => p_match(old(self).src(), old(self).state()) == Err::<(SExpr, PState), Seq<char>>(m@),
            },
            r is Ok ==> lt(old(self).src(), final(self).state(), old(self).state()),
        decreases measure(old(self).src(), old(self).state()), 12int,
    {
        let ghost s = self.src();
        let ghost ps0 = self.state();
        proof {
            self.lemma_wf();
        }
        match self.expect(Token::Match) {
            Ok(_) => {},
            Err(m) => return Err(m),
        }
        let scrutinee = match self.parse_expr() {
            Ok(v) => v,
            Err(m) => return Err(m),
        };
        match self.expect(Token::LBrace) {
            Ok(_) => {},
            Err(m) => return Err(m),
        }
        let ghost ps3 = self.state();
        let mut arms: Vec<MatchArm> = Vec::new();
        proof {
            assert(arms@ =~= seq![]);
        }
        loop
            invariant
                self.wf(),
                self.src() == s,
                p_arms(s, self.state(), view_arms(arms@)) == p_arms(s, ps3, seq![]),
                le(s, self.state(), ps3),
                lt(s, ps3, ps0),
            decreases measure(s, self.state()),
        {
            proof {
                self.lemma_wf();
            }
            if matches!(self.lookahead, Token::RBrace) {
        match self.expect(Token::RBrace) {
            Ok(_) => {},
            Err(m) => return Err(m),
        }
                return Ok(Expr::Match(MatchExpr { scrutinee: Box::new(scrutinee), arms }));
            }
        let pattern = match self.parse_pattern() {
            Ok(v) => v,
            Err(m) => return Err(m),
        };
        match self.expect(Token::FatArrow) {
            Ok(_) => {},
            Err(m) => return Err(m),
        }
            let body = if matches!(self.lookahead, Token::LBrace) {
                match self.parse_block() {
                    Ok(b) => b,
                    Err(m) => return Err(m),
                }
            } else {
                let e = match self.parse_expr() {
                    Ok(v) => v,
                    Err(m) => return Err(m),
                };
                let empty: Vec<Stmt> = Vec::new();
                proof {
                    assert(empty@ =~= seq![]);
                }
                Block { stmts: empty, tail: Some(Box::new(e)) }
            };
            let arm = MatchArm { pattern, body };
            proof {
                lemma_view_arms_push(arms@, arm);
            }
            arms.push(arm);
        }
    }
}

impl Parser {
    /// Parameters up to (not including) `)`.
    #[verifier::loop_isolation(false)]
    fn parse_params(&mut self) -> (r: Result<Vec<Param>, String>)
        requires
            old(self).wf(),
        ensures
            final(self).wf(),
            final(self).src() == old(self).src(),
            match r {
                Ok(x) => p_params(old(self).src(), old(self).state()) == Ok::<(Seq<SParam>, PState), Seq<char>>(
                    (view_params(x@), final(self).state()),
                ),
                Err(m) => p_params(old(self).src(), old(self).state()) == Err::<(Seq<SParam>, PState), Seq<char>>(m@),
            },
            r is Ok ==> le(old(self).src(), final(self).state(), old(self).state()),
    {
        let mut params: Vec<Param> = Vec::new();
        proof {
            assert(view_params(params@) =~= seq![]);
        }
        if matches!(self.lookahead, Token::RParen) {
            return Ok(params);
        }
        let ghost s = self.src();
        let ghost ps0 = self.state();
        loop
            invariant
                self.wf(),
                self.src() == s,
                p_params_loop(s, self.state(), view_params(params@)) == p_params_loop(s, ps0, seq![]),
                le(s, self.state(), ps0),
            decreases measure(s, self.state()),
        {
        let name = match self.expect_ident() {
            Ok(v) => v,
            Err(m) => return Err(m),
        };
        match self.expect(Token::Colon) {
            Ok(_) => {},
            Err(m) => return Err(m),
        }
        let ty = match self.parse_type_until_delim() {
            Ok(v) => v,
            Err(m) => return Err(m),
        };
            let param = Param { name, ty };
            proof {
                assert(view_params(params@.push(param)) =~= view_params(params@).push(
                    SParam { name: param.name@, ty: param.ty@ },
                ));
            }
            params.push(param);
            if matches!(self.lookahead, Token::Comma) {
        match self.advance() {
            Ok(_) => {},
            Err(m) => return Err(m),
        }
            } else {
                return Ok(params);
            }
        }
    }

    /// `fn name(params) -> type? { stmts }`.
    #[verifier::loop_isolation(false)]
    #[verifier::rlimit(40)]
    fn parse_function(&mut self) -> (r: Result<Function, String>)
        requires
            old(self).wf(),
        ensures
            final(self).wf(),
            final(self).src() == old(self).src(),
            match r {
                Ok(x) => p_function(old(self).src(), old(self).state()) == Ok::<(SFunction, PState), Seq<char>>(
                    (view_function(&x), final(self).state()),
                ),
                Err(m) => p_function(old(self).src(), old(self).state()) == Err::<(SFunction, PState), Seq<char>>(m@),
            },
            r is Ok ==> lt(old(self).src(), final(self).state(), old(self).state()),
    {
        let ghost s = self.src();
        let ghost ps0 = self.state();
        match self.expect(Token::Fn) {
            Ok(_) => {},
            Err(m) => return Err(m),
        }
        let name = match self.expect_ident() {
            Ok(v) => v,
            Err(m) => return Err(m),
        };
        match self.expect(Token::LParen) {
            Ok(_) => {},
            Err(m) => return Err(m),
        }
        let params = match self.parse_params() {
            Ok(v) => v,
            Err(m) => return Err(m),
        };
        match self.expect(Token::RParen) {
            Ok(_) => {},
            Err(m) => return Err(m),
        }
        let return_type = if matches!(self.lookahead, Token::Arrow) {
        match self.advance() {
            Ok(_) => {},
            Err(m) => return Err(m),
        }
        let ty = match self.parse_type_until_lbrace() {
            Ok(v) => v,
            Err(m) => return Err(m),
        };
            Some(ty)
        } else {
            None
        };
        match self.expect(Token::LBrace) {
            Ok(_) => {},
            Err(m) => return Err(m),
        }
        let ghost ps7 = self.state();
        let mut body: Vec<Stmt> = Vec::new();
        proof {
            assert(body@ =~= seq![]);
        }
        loop
            invariant
                self.wf(),
                self.src() == s,
                p_body(s, self.state(), view_stmts(body@)) == p_body(s, ps7, seq![]),
                lt(s, self.state(), ps0),
            decreases measure(s, self.state()),
        {
            if matches!(self.lookahead, Token::RBrace) {
        match self.expect(Token::RBrace) {
            Ok(_) => {},
            Err(m) => return Err(m),
        }
                return Ok(Function { name, params, body, return_type });
            }
        let st = match self.parse_stmt() {
            Ok(v) => v,
            Err(m) => return Err(m),
        };
            proof {
                lemma_view_stmts_push(body@, st);
            }
            body.push(st);
        }
    }

    /// `struct Name { field: type, ... }`.
    #[verifier::loop_isolation(false)]
    fn parse_struct_def(&mut self) -> (r: Result<StructDef, String>)
        requires
            old(self).wf(),
        ensures
            final(self).wf(),
            final(self).src() == old(self).src(),
            match r {
                Ok(x) => p_struct(old(self).src(), old(self).state()) == Ok::<(SStructDef, PState), Seq<char>>(
                    (view_struct(&x), final(self).state()),
                ),
                Err(m) => p_struct(old(self).src(), old(self).state()) == Err::<(SStructDef, PState), Seq<char>>(m@),
            },
            r is Ok ==> lt(old(self).src(), final(self).state(), old(self).state()),
    {
        let ghost s = self.src();
        let ghost ps0 = self.state();
        match self.expect(Token::Struct) {
            Ok(_) => {},
            Err(m) => return Err(m),
        }
        let name = match self.expect_ident() {
            Ok(v) => v,
            Err(m) => return Err(m),
        };
        match self.expect(Token::LBrace) {
            Ok(_) => {},
            Err(m) => return Err(m),
        }
        let ghost ps3 = self.state();
        let mut fields: Vec<StructField> = Vec::new();
        proof {
            assert(view_fields(fields@) =~= seq![]);
        }
        loop
            invariant
                self.wf(),
                self.src() == s,
                p_fields(s, self.state(), view_fields(fields@)) == p_fields(s, ps3, seq![]),
                lt(s, self.state(), ps0),
            decreases measure(s, self.state()),
        {
            if matches!(self.lookahead, Token::RBrace) {
        match self.expect(Token::RBrace) {
            Ok(_) => {},
            Err(m) => return Err(m),
        }
                return Ok(StructDef { name, fields });
            }
        let field_name = match self.expect_ident() {
            Ok(v) => v,
            Err(m) => return Err(m),
        };
        match self.expect(Token::Colon) {
            Ok(_) => {},
            Err(m) => return Err(m),
        }
        let ty = match self.parse_type_until_struct_field_end() {
            Ok(v) => v,
            Err(m) => return Err(m),
        };
            let field = StructField { name: field_name, ty };
            proof {
                assert(view_fields(fields@.push(field)) =~= view_fields(fields@).push(
                    SField { name: field.name@, ty: field.ty@ },
                ));
            }
            fields.push(field);
            if matches!(self.lookahead, Token::Comma) {
        match self.advance() {
            Ok(_) => {},
            Err(m) => return Err(m),
        }
            }
        }
    }

    /// `fn m(params) -> type?` and an optional `.`, in a trait.
    fn parse_trait_method(&mut self) -> (r: Result<TraitMethod, String>)
        requires
            old(self).wf(),
        ensures
            final(self).wf(),
            final(self).src() == old(self).src(),
            match r {
                Ok(x) => p_trait_method(old(self).src(), old(self).state()) == Ok::<(STraitMethod, PState), Seq<char>>(
                    (view_trait_method(&x), final(self).state()),
                ),
                Err(m) => p_trait_method(old(self).src(), old(self).state()) == Err::<(STraitMethod, PState), Seq<char>>(m@),
            },
            r is Ok ==> lt(old(self).src(), final(self).state(), old(self).state()),
    {
        match self.expect(Token::Fn) {
            Ok(_) => {},
            Err(m) => return Err(m),
        }
        let method_name = match self.expect_ident() {
            Ok(v) => v,
            Err(m) => return Err(m),
        };
        match self.expect(Token::LParen) {
            Ok(_) => {},
            Err(m) => return Err(m),
        }
        let params = match self.parse_params() {
            Ok(v) => v,
            Err(m) => return Err(m),
        };
        match self.expect(Token::RParen) {
            Ok(_) => {},
            Err(m) => return Err(m),
        }
        let return_type = if matches!(self.lookahead, Token::Arrow) {
        match self.advance() {
            Ok(_) => {},
            Err(m) => return Err(m),
        }
        let ty = match self.parse_type_until_trait_end() {
            Ok(v) => v,
            Err(m) => return Err(m),
        };
            Some(ty)
        } else {
            None
        };
        if matches!(self.lookahead, Token::Dot) {
        match self.advance() {
            Ok(_) => {},
            Err(m) => return Err(m),
        }
        }
        Ok(TraitMethod { name: method_name, params, return_type })
    }

    /// `trait Name { fn m(params) -> type? . ... }`.
    #[verifier::loop_isolation(false)]
    fn parse_trait_def(&mut self) -> (r: Result<TraitDef, String>)
        requires
            old(self).wf(),
        ensures
            final(self).wf(),
            final(self).src() == old(self).src(),
            match r {
                Ok(x) => p_trait(old(self).src(), old(self).state()) == Ok::<(STraitDef, PState), Seq<char>>(
                    (view_trait(&x), final(self).state()),
                ),
                Err(m) => p_trait(old(self).src(), old(self).state()) == Err::<(STraitDef, PState), Seq<char>>(m@),
            },
            r is Ok ==> lt(old(self).src(), final(self).state(), old(self).state()),
    {
        let ghost s = self.src();
        let ghost ps0 = self.state();
        match self.expect(Token::Trait) {
            Ok(_) => {},
            Err(m) => return Err(m),
        }
        let name = match self.expect_ident() {
            Ok(v) => v,
            Err(m) => return Err(m),
        };
        match self.expect(Token::LBrace) {
            Ok(_) => {},
            Err(m) => return Err(m),
        }
        let ghost ps3 = self.state();
        let mut methods: Vec<TraitMethod> = Vec::new();
        proof {
            assert(view_trait_methods(methods@) =~= seq![]);
        }
        loop
            invariant
                self.wf(),
                self.src() == s,
                p_methods(s, self.state(), view_trait_methods(methods@)) == p_methods(s, ps3, seq![]),
                lt(s, self.state(), ps0),
            decreases measure(s, self.state()),
        {
            if matches!(self.lookahead, Token::RBrace) {
        match self.expect(Token::RBrace) {
            Ok(_) => {},
            Err(m) => return Err(m),
        }
                return Ok(TraitDef { name, methods });
            }
        let method = match self.parse_trait_method() {
            Ok(v) => v,
            Err(m) => return Err(m),
        };
            proof {
                assert(view_trait_methods(methods@.push(method)) =~= view_trait_methods(methods@).push(
                    view_trait_method(&method),
                ));
            }
            methods.push(method);
        }
    }

    /// `impl Name { fn ... }`.
    #[verifier::loop_isolation(false)]
    fn parse_impl_def(&mut self) -> (r: Result<ImplDef, String>)
        requires
            old(self).wf(),
        ensures
            final(self).wf(),
            final(self).src() == old(self).src(),
            match r {
                Ok(x) => p_impl(old(self).src(), old(self).state()) == Ok::<(SImplDef, PState), Seq<char>>(
                    (view_impl(&x), final(self).state()),
                ),
                Err(m) => p_impl(old(self).src(), old(self).state()) == Err::<(SImplDef, PState), Seq<char>>(m@),
            },
            r is Ok ==> lt(old(self).src(), final(self).state(), old(self).state()),
    {
        let ghost s = self.src();
        let ghost ps0 = self.state();
        match self.expect(Token::Impl) {
            Ok(_) => {},
            Err(m) => return Err(m),
        }
        let name = match self.expect_ident() {
            Ok(v) => v,
            Err(m) => return Err(m),
        };
        match self.expect(Token::LBrace) {
            Ok(_) => {},
            Err(m) => return Err(m),
        }
        let ghost ps3 = self.state();
        let mut methods: Vec<Function> = Vec::new();
        proof {
            assert(view_functions(methods@) =~= seq![]);
        }
        loop
            invariant
                self.wf(),
                self.src() == s,
                p_functions(s, self.state(), view_functions(methods@)) == p_functions(s, ps3, seq![]),
                lt(s, self.state(), ps0),
            decreases measure(s, self.state()),
        {
            if matches!(self.lookahead, Token::RBrace) {
        match self.expect(Token::RBrace) {
            Ok(_) => {},
            Err(m) => return Err(m),
        }
                return Ok(ImplDef { name, methods });
            }
        let f = match self.parse_function() {
            Ok(v) => v,
            Err(m) => return Err(m),
        };
            proof {
                assert(view_functions(methods@.push(f)) =~= view_functions(methods@).push(
                    view_function(&f),
                ));
            }
            methods.push(f);
        }
    }

    /// The program: every item up to the end of the input.
    #[verifier::loop_isolation(false)]
    pub fn parse_program(&mut self) -> (r: Result<Program, String>)
        requires
            old(self).wf(),
        ensures
            final(self).wf(),
            final(self).src() == old(self).src(),
            match r {
                Ok(p) => p_items(old(self).src(), old(self).state(), empty_program()) == Ok::<(SProgram, PState), Seq<char>>(
                    (view_program(&p), final(self).state()),
                ),
                Err(m) => p_items(old(self).src(), old(self).state(), empty_program()) == Err::<(SProgram, PState), Seq<char>>(m@),
            },
    {
        let ghost s = self.src();
        let ghost ps0 = self.state();
        let mut functions: Vec<Function> = Vec::new();
        let mut structs: Vec<StructDef> = Vec::new();
        let mut traits: Vec<TraitDef> = Vec::new();
        let mut impls: Vec<ImplDef> = Vec::new();
        proof {
            assert(view_functions(functions@) =~= seq![]);
            assert(view_structs(structs@) =~= seq![]);
            assert(view_traits(traits@) =~= seq![]);
            assert(view_impls(impls@) =~= seq![]);
        }
        loop
            invariant
                self.wf(),
                self.src() == s,
                p_items(
                    s,
                    self.state(),
                    SProgram {
                        functions: view_functions(functions@),
                        structs: view_structs(structs@),
                        traits: view_traits(traits@),
                        impls: view_impls(impls@),
                    },
                ) == p_items(s, ps0, empty_program()),
            decreases measure(s, self.state()),
        {
            if matches!(self.lookahead, Token::Eof) {
                return Ok(Program { functions, structs, traits, impls });
            } else if matches!(self.lookahead, Token::Struct) {
        let d = match self.parse_struct_def() {
            Ok(v) => v,
            Err(m) => return Err(m),
        };
                proof {
                    assert(view_structs(structs@.push(d)) =~= view_structs(structs@).push(view_struct(&d)));
                }
                structs.push(d);
            } else if matches!(self.lookahead, Token::Trait) {
        let d = match self.parse_trait_def() {
            Ok(v) => v,
            Err(m) => return Err(m),
        };
                proof {
                    assert(view_traits(traits@.push(d)) =~= view_traits(traits@).push(view_trait(&d)));
                }
                traits.push(d);
            } else if matches!(self.lookahead, Token::Impl) {
        let d = match self.parse_impl_def() {
            Ok(v) => v,
            Err(m) => return Err(m),
        };
                proof {
                    assert(view_impls(impls@.push(d)) =~= view_impls(impls@).push(view_impl(&d)));
                }
                impls.push(d);
            } else if matches!(self.lookahead, Token::Fn) {
        let f = match self.parse_function() {
            Ok(v) => v,
            Err(m) => return Err(m),
        };
                proof {
                    assert(view_functions(functions@.push(f)) =~= view_functions(functions@).push(
                        view_function(&f),
                    ));
                }
                functions.push(f);
            } else {
                return Err(string_of("unexpected token at top-level"));
            }
        }
    }
}

} // verus!
