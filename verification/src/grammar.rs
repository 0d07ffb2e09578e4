//! The BudL grammar as functions on token sequences: what the parser makes
//! of the tokens from a position on. Each function gives the node parsed
//! and the position after it, or the text of the error.
//!
//! A position at or past the end of the tokens reads as an `Error` token
//! and stays where it is when a token is taken.
use crate::ast::{BinOp, ExprV, FieldV, FunctionV, MatchArmV, MatchPattern, StmtV, StructV, ContractV};
use crate::error::{decimal, CompileErrorV};
use crate::lexer::TokenV;
use vstd::prelude::*;

verus! {

pub type PRes<T> = Result<(T, int), Seq<char>>;

/// A parse result (success flag, value view, error view, position after)
/// agrees with what the grammar gives.
pub open spec fn agrees<V>(ok: bool, v: V, e: CompileErrorV, q: int, s: PRes<V>) -> bool {
    match s {
        Ok((w, p)) => ok && v == w && q == p,
        Err(m) => !ok && e == CompileErrorV::ParserError(m),
    }
}

/// A token without a payload.
pub open spec fn plain(t: TokenV) -> bool {
    !(t is Ident) && !(t is Int) && !(t is Hex)
}

pub open spec fn peek(ts: Seq<TokenV>, p: int) -> TokenV {
    if 0 <= p < ts.len() {
        ts[p]
    } else {
        TokenV::Error
    }
}

/// The position after taking the token at `p`.
pub open spec fn adv(ts: Seq<TokenV>, p: int) -> int {
    if 0 <= p < ts.len() {
        p + 1
    } else {
        p
    }
}

/// Tokens left from `p` on.
pub open spec fn rem(ts: Seq<TokenV>, p: int) -> nat {
    if 0 <= p < ts.len() {
        (ts.len() - p) as nat
    } else {
        0
    }
}

/// `q` is a position at or after `p` inside the tokens.
pub open spec fn fwd(ts: Seq<TokenV>, p: int, q: int) -> bool {
    p <= q <= ts.len()
}

/// `q` is a position strictly after `p` inside the tokens.
pub open spec fn past(ts: Seq<TokenV>, p: int, q: int) -> bool {
    0 <= p < q <= ts.len()
}

/// Debug text of a token, as `{:?}` prints the tokens that the lexer makes.
pub open spec fn token_debug(t: TokenV) -> Seq<char> {
    match t {
        TokenV::Ident(s) => "Ident(\""@ + s + "\")"@,
        TokenV::Hex(s) => "Hex(\""@ + s + "\")"@,
        TokenV::Int(n) => "Int("@ + decimal(n as nat) + ")"@,
        TokenV::Contract => "Contract"@,
        TokenV::Storage => "Storage"@,
        TokenV::Struct => "Struct"@,
        TokenV::Pub => "Pub"@,
        TokenV::Fn => "Fn"@,
        TokenV::Let => "Let"@,
        TokenV::Constrain => "Constrain"@,
        TokenV::If => "If"@,
        TokenV::Else => "Else"@,
        TokenV::While => "While"@,
        TokenV::Match => "Match"@,
        TokenV::For => "For"@,
        TokenV::In => "In"@,
        TokenV::Return => "Return"@,
        TokenV::BraceOpen => "BraceOpen"@,
        TokenV::BraceClose => "BraceClose"@,
        TokenV::ParenOpen => "ParenOpen"@,
        TokenV::ParenClose => "ParenClose"@,
        TokenV::BracketOpen => "BracketOpen"@,
        TokenV::BracketClose => "BracketClose"@,
        TokenV::Colon => "Colon"@,
        TokenV::Semicolon => "Semicolon"@,
        TokenV::Comma => "Comma"@,
        TokenV::Dot => "Dot"@,
        TokenV::DotDot => "DotDot"@,
        TokenV::Arrow => "Arrow"@,
        TokenV::FatArrow => "FatArrow"@,
        TokenV::Assign => "Assign"@,
        TokenV::Eq => "Eq"@,
        TokenV::Neq => "Neq"@,
        TokenV::Lt => "Lt"@,
        TokenV::Gt => "Gt"@,
        TokenV::Lte => "Lte"@,
        TokenV::Gte => "Gte"@,
        TokenV::Plus => "Plus"@,
        TokenV::Minus => "Minus"@,
        TokenV::Star => "Star"@,
        TokenV::Slash => "Slash"@,
        TokenV::Error => "Error"@,
    }
}

pub open spec fn expected_found(expected: TokenV, found: TokenV) -> Seq<char> {
    "Expected "@ + token_debug(expected) + ", found "@ + token_debug(found)
}

/// Takes the token `k` at `p`.
pub open spec fn expect(ts: Seq<TokenV>, p: int, k: TokenV) -> Result<int, Seq<char>> {
    if peek(ts, p) == k {
        Ok(adv(ts, p))
    } else {
        Err(expected_found(k, peek(ts, p)))
    }
}

/// Takes an identifier at `p`; `msg` if the token there is none.
pub open spec fn ident(ts: Seq<TokenV>, p: int, msg: Seq<char>) -> PRes<Seq<char>> {
    match peek(ts, p) {
        TokenV::Ident(n) => Ok((n, adv(ts, p))),
        _ => Err(msg),
    }
}

// ---------------------------------------------------------------------
// Numeric literals
// ---------------------------------------------------------------------

pub open spec fn hex_digit_value(c: char) -> nat {
    if '0' <= c && c <= '9' {
        ((c as int) - ('0' as int)) as nat
    } else if 'a' <= c && c <= 'f' {
        ((c as int) - ('a' as int) + 10) as nat
    } else {
        ((c as int) - ('A' as int) + 10) as nat
    }
}

/// The value of a string of hexadecimal digits.
pub open spec fn hex_value(w: Seq<char>) -> nat
    decreases w.len(),
{
    if w.len() == 0 {
        0
    } else {
        hex_value(w.drop_last()) * 16 + hex_digit_value(w.last())
    }
}

/// What a hexadecimal literal token `0x...` stands for.
pub open spec fn hex_literal(val: Seq<char>) -> Result<u64, Seq<char>> {
    let v = hex_value(val.subrange(2, val.len() as int));
    if v <= u64::MAX {
        Ok(v as u64)
    } else {
        Err("Invalid hex literal "@ + val + ": number too large to fit in target type"@)
    }
}

// ---------------------------------------------------------------------
// Expressions and statements
// ---------------------------------------------------------------------

pub open spec fn rel_op(t: TokenV) -> Option<BinOp> {
    match t {
        TokenV::Eq => Some(BinOp::Eq),
        TokenV::Neq => Some(BinOp::Neq),
        TokenV::Lt => Some(BinOp::Lt),
        TokenV::Gt => Some(BinOp::Gt),
        TokenV::Lte => Some(BinOp::Lte),
        TokenV::Gte => Some(BinOp::Gte),
        _ => None,
    }
}

pub open spec fn add_op(t: TokenV) -> Option<BinOp> {
    match t {
        TokenV::Plus => Some(BinOp::Add),
        TokenV::Minus => Some(BinOp::Sub),
        _ => None,
    }
}

pub open spec fn mul_op(t: TokenV) -> Option<BinOp> {
    match t {
        TokenV::Star => Some(BinOp::Mul),
        TokenV::Slash => Some(BinOp::Div),
        _ => None,
    }
}

/// Statements up to (not including) a closing brace.
pub open spec fn p_block(ts: Seq<TokenV>, p: int, acc: Seq<StmtV>) -> PRes<Seq<StmtV>>
    decreases rem(ts, p), 17nat,
{
    if peek(ts, p) == TokenV::BraceClose {
        Ok((acc, p))
    } else {
        match p_stmt(ts, p) {
            Err(e) => Err(e),
            Ok((s, q)) => if past(ts, p, q) {
                p_block(ts, q, acc.push(s))
            } else {
                Err(Seq::empty())
            },
        }
    }
}

/// A brace-delimited block `{ stmt* }` whose `{` is at `p`.
pub open spec fn p_braced(ts: Seq<TokenV>, p: int) -> PRes<Seq<StmtV>>
    decreases rem(ts, p), 10nat,
{
    match expect(ts, p, TokenV::BraceOpen) {
        Err(e) => Err(e),
        Ok(p1) => if past(ts, p, p1) {
            match p_block(ts, p1, Seq::empty()) {
                Err(e) => Err(e),
                Ok((b, q)) => if fwd(ts, p1, q) {
                    match expect(ts, q, TokenV::BraceClose) {
                        Err(e) => Err(e),
                        Ok(q1) => Ok((b, q1)),
                    }
                } else {
                    Err(Seq::empty())
                },
            }
        } else {
            Err(Seq::empty())
        },
    }
}

/// Expressions separated by optional commas, up to a closing parenthesis.
pub open spec fn p_args(ts: Seq<TokenV>, p: int, acc: Seq<ExprV>) -> PRes<Seq<ExprV>>
    decreases rem(ts, p), 11nat,
{
    if peek(ts, p) == TokenV::ParenClose {
        Ok((acc, p))
    } else {
        match p_expr(ts, p) {
            Err(e) => Err(e),
            Ok((e, q)) => if past(ts, p, q) {
                let q1 = if peek(ts, q) == TokenV::Comma {
                    adv(ts, q)
                } else {
                    q
                };
                p_args(ts, q1, acc.push(e))
            } else {
                Err(Seq::empty())
            },
        }
    }
}

/// `name: expr` pairs separated by optional commas, up to a closing brace.
pub open spec fn p_field_inits(ts: Seq<TokenV>, p: int, acc: Seq<(Seq<char>, ExprV)>) -> PRes<
    Seq<(Seq<char>, ExprV)>,
>
    decreases rem(ts, p), 7nat,
{
    if peek(ts, p) == TokenV::BraceClose {
        Ok((acc, p))
    } else {
        match ident(ts, p, "Expected struct field name"@) {
            Err(e) => Err(e),
            Ok((f, p1)) => match expect(ts, p1, TokenV::Colon) {
                Err(e) => Err(e),
                Ok(p2) => if past(ts, p, p2) {
                    match p_expr(ts, p2) {
                        Err(e) => Err(e),
                        Ok((v, q)) => if fwd(ts, p2, q) {
                            let q1 = if peek(ts, q) == TokenV::Comma {
                                adv(ts, q)
                            } else {
                                q
                            };
                            p_field_inits(ts, q1, acc.push((f, v)))
                        } else {
                            Err(Seq::empty())
                        },
                    }
                } else {
                    Err(Seq::empty())
                },
            },
        }
    }
}

/// `::name()` after `msg` or `block`, giving the call `prefix::name`.
pub open spec fn p_context_call(ts: Seq<TokenV>, p: int, prefix: Seq<char>) -> PRes<ExprV> {
    match expect(ts, p, TokenV::Colon) {
        Err(e) => Err(e),
        Ok(p1) => match expect(ts, p1, TokenV::Colon) {
            Err(e) => Err(e),
            Ok(p2) => match ident(ts, p2, "Expected field"@) {
                Err(e) => Err(e),
                Ok((f, p3)) => match expect(ts, p3, TokenV::ParenOpen) {
                    Err(e) => Err(e),
                    Ok(p4) => match expect(ts, p4, TokenV::ParenClose) {
                        Err(e) => Err(e),
                        Ok(p5) => Ok((ExprV::Call(prefix + "::"@ + f, Seq::empty()), p5)),
                    },
                },
            },
        },
    }
}

/// `(args)` after a call's name at `p`, giving the call `name(args)`.
pub open spec fn p_call_args(ts: Seq<TokenV>, p: int, name: Seq<char>) -> PRes<ExprV>
    decreases rem(ts, p), 8nat,
{
    match expect(ts, p, TokenV::ParenOpen) {
        Err(e) => Err(e),
        Ok(p1) => if past(ts, p, p1) {
            match p_args(ts, p1, Seq::empty()) {
                Err(e) => Err(e),
                Ok((args, q)) => if fwd(ts, p1, q) {
                    match expect(ts, q, TokenV::ParenClose) {
                        Err(e) => Err(e),
                        Ok(q1) => Ok((ExprV::Call(name, args), q1)),
                    }
                } else {
                    Err(Seq::empty())
                },
            }
        } else {
            Err(Seq::empty())
        },
    }
}

/// `(root, leaf, path)` after `verify_merkle_proof` at `p`.
pub open spec fn p_merkle(ts: Seq<TokenV>, p: int) -> PRes<ExprV>
    decreases rem(ts, p), 8nat,
{
    match expect(ts, p, TokenV::ParenOpen) {
        Err(e) => Err(e),
        Ok(p1) => if past(ts, p, p1) {
            match p_expr(ts, p1) {
                Err(e) => Err(e),
                Ok((root, q1)) => if fwd(ts, p1, q1) {
                    match expect(ts, q1, TokenV::Comma) {
                        Err(e) => Err(e),
                        Ok(q2) => if past(ts, q1, q2) {
                            match p_expr(ts, q2) {
                                Err(e) => Err(e),
                                Ok((leaf, q3)) => if fwd(ts, q2, q3) {
                                    match expect(ts, q3, TokenV::Comma) {
                                        Err(e) => Err(e),
                                        Ok(q4) => if past(ts, q3, q4) {
                                            match p_expr(ts, q4) {
                                                Err(e) => Err(e),
                                                Ok((path, q5)) => match expect(
                                                    ts,
                                                    q5,
                                                    TokenV::ParenClose,
                                                ) {
                                                    Err(e) => Err(e),
                                                    Ok(q6) => Ok(
                                                        (
                                                            ExprV::Call(
                                                                "verify_merkle_proof"@,
                                                                seq![root, leaf, path],
                                                            ),
                                                            q6,
                                                        ),
                                                    ),
                                                },
                                            }
                                        } else {
                                            Err(Seq::empty())
                                        },
                                    }
                                } else {
                                    Err(Seq::empty())
                                },
                            }
                        } else {
                            Err(Seq::empty())
                        },
                    }
                } else {
                    Err(Seq::empty())
                },
            }
        } else {
            Err(Seq::empty())
        },
    }
}

/// What follows an identifier `name` whose token was at `p - 1`.
pub open spec fn p_after_ident(ts: Seq<TokenV>, p: int, name: Seq<char>) -> PRes<ExprV>
    decreases rem(ts, p), 9nat,
{
    if name == "poseidon"@ {
        p_call_args(ts, p, "poseidon"@)
    } else if name == "msg"@ {
        p_context_call(ts, p, "msg"@)
    } else if name == "block"@ {
        p_context_call(ts, p, "block"@)
    } else if name == "verify_merkle_proof"@ {
        p_merkle(ts, p)
    } else if peek(ts, p) == TokenV::ParenOpen {
        p_call_args(ts, p, name)
    } else if peek(ts, p) == TokenV::BracketOpen {
        let p1 = adv(ts, p);
        if past(ts, p, p1) {
            match p_expr(ts, p1) {
                Err(e) => Err(e),
                Ok((k, q)) => match expect(ts, q, TokenV::BracketClose) {
                    Err(e) => Err(e),
                    Ok(q1) => Ok((ExprV::MappingRead(name, Box::new(k)), q1)),
                },
            }
        } else {
            Err(Seq::empty())
        }
    } else if peek(ts, p) == TokenV::BraceOpen {
        let p1 = adv(ts, p);
        if past(ts, p, p1) {
            match p_field_inits(ts, p1, Seq::empty()) {
                Err(e) => Err(e),
                Ok((fs, q)) => match expect(ts, q, TokenV::BraceClose) {
                    Err(e) => Err(e),
                    Ok(q1) => Ok((ExprV::StructLiteral(name, fs), q1)),
                },
            }
        } else {
            Err(Seq::empty())
        }
    } else {
        Ok((ExprV::Ident(name), p))
    }
}

pub open spec fn p_primary(ts: Seq<TokenV>, p: int) -> PRes<ExprV>
    decreases rem(ts, p), 2nat,
{
    let p1 = adv(ts, p);
    match peek(ts, p) {
        TokenV::Int(v) => Ok((ExprV::Int(v), p1)),
        TokenV::Hex(val) => match hex_literal(val) {
            Ok(v) => Ok((ExprV::Int(v), p1)),
            Err(e) => Err(e),
        },
        TokenV::ParenOpen => if past(ts, p, p1) {
            match p_expr(ts, p1) {
                Err(e) => Err(e),
                Ok((e, q)) => match expect(ts, q, TokenV::ParenClose) {
                    Err(e) => Err(e),
                    Ok(q1) => Ok((e, q1)),
                },
            }
        } else {
            Err(Seq::empty())
        },
        TokenV::Ident(name) => if past(ts, p, p1) {
            p_after_ident(ts, p1, name)
        } else {
            Err(Seq::empty())
        },
        TokenV::Storage => match expect(ts, p1, TokenV::Colon) {
            Err(e) => Err(e),
            Ok(p2) => match expect(ts, p2, TokenV::Colon) {
                Err(e) => Err(e),
                Ok(p3) => match ident(ts, p3, "Expected name"@) {
                    Err(e) => Err(e),
                    Ok((n, p4)) => Ok((ExprV::StorageRead(n), p4)),
                },
            },
        },
        _ => Err("Expected primary expression"@),
    }
}

pub open spec fn p_postfix_tail(ts: Seq<TokenV>, p: int, e: ExprV) -> PRes<ExprV>
    decreases rem(ts, p), 3nat,
{
    if peek(ts, p) == TokenV::Dot {
        match ident(ts, adv(ts, p), "Expected field name after dot"@) {
            Err(err) => Err(err),
            Ok((f, q)) => if past(ts, p, q) {
                p_postfix_tail(ts, q, ExprV::FieldAccess(Box::new(e), f))
            } else {
                Err(Seq::empty())
            },
        }
    } else {
        Ok((e, p))
    }
}

pub open spec fn p_postfix(ts: Seq<TokenV>, p: int) -> PRes<ExprV>
    decreases rem(ts, p), 4nat,
{
    match p_primary(ts, p) {
        Err(e) => Err(e),
        Ok((e, q)) => if past(ts, p, q) {
            p_postfix_tail(ts, q, e)
        } else {
            Err(Seq::empty())
        },
    }
}

pub open spec fn p_term_tail(ts: Seq<TokenV>, p: int, left: ExprV) -> PRes<ExprV>
    decreases rem(ts, p), 5nat,
{
    match mul_op(peek(ts, p)) {
        None => Ok((left, p)),
        Some(op) => {
            let p1 = adv(ts, p);
            if past(ts, p, p1) {
                match p_postfix(ts, p1) {
                    Err(e) => Err(e),
                    Ok((r, q)) => if fwd(ts, p1, q) {
                        p_term_tail(ts, q, ExprV::Binary(Box::new(left), op, Box::new(r)))
                    } else {
                        Err(Seq::empty())
                    },
                }
            } else {
                Err(Seq::empty())
            }
        },
    }
}

pub open spec fn p_term(ts: Seq<TokenV>, p: int) -> PRes<ExprV>
    decreases rem(ts, p), 6nat,
{
    match p_postfix(ts, p) {
        Err(e) => Err(e),
        Ok((l, q)) => if past(ts, p, q) {
            p_term_tail(ts, q, l)
        } else {
            Err(Seq::empty())
        },
    }
}

pub open spec fn p_arith_tail(ts: Seq<TokenV>, p: int, left: ExprV) -> PRes<ExprV>
    decreases rem(ts, p), 7nat,
{
    match add_op(peek(ts, p)) {
        None => Ok((left, p)),
        Some(op) => {
            let p1 = adv(ts, p);
            if past(ts, p, p1) {
                match p_term(ts, p1) {
                    Err(e) => Err(e),
                    Ok((r, q)) => if fwd(ts, p1, q) {
                        p_arith_tail(ts, q, ExprV::Binary(Box::new(left), op, Box::new(r)))
                    } else {
                        Err(Seq::empty())
                    },
                }
            } else {
                Err(Seq::empty())
            }
        },
    }
}

pub open spec fn p_arith(ts: Seq<TokenV>, p: int) -> PRes<ExprV>
    decreases rem(ts, p), 8nat,
{
    match p_term(ts, p) {
        Err(e) => Err(e),
        Ok((l, q)) => if past(ts, p, q) {
            p_arith_tail(ts, q, l)
        } else {
            Err(Seq::empty())
        },
    }
}

pub open spec fn p_expr_tail(ts: Seq<TokenV>, p: int, left: ExprV) -> PRes<ExprV>
    decreases rem(ts, p), 9nat,
{
    match rel_op(peek(ts, p)) {
        None => Ok((left, p)),
        Some(op) => {
            let p1 = adv(ts, p);
            if past(ts, p, p1) {
                match p_arith(ts, p1) {
                    Err(e) => Err(e),
                    Ok((r, q)) => if fwd(ts, p1, q) {
                        p_expr_tail(ts, q, ExprV::Binary(Box::new(left), op, Box::new(r)))
                    } else {
                        Err(Seq::empty())
                    },
                }
            } else {
                Err(Seq::empty())
            }
        },
    }
}

/// An expression: comparisons (left-associative) of sums of products of
/// postfix field accesses of primaries.
pub open spec fn p_expr(ts: Seq<TokenV>, p: int) -> PRes<ExprV>
    decreases rem(ts, p), 10nat,
{
    match p_arith(ts, p) {
        Err(e) => Err(e),
        Ok((l, q)) => if past(ts, p, q) {
            p_expr_tail(ts, q, l)
        } else {
            Err(Seq::empty())
        },
    }
}

/// `expr` then `;`.
pub open spec fn p_expr_semi(ts: Seq<TokenV>, p: int) -> PRes<ExprV>
    decreases rem(ts, p), 11nat,
{
    match p_expr(ts, p) {
        Err(e) => Err(e),
        Ok((e, q)) => match expect(ts, q, TokenV::Semicolon) {
            Err(err) => Err(err),
            Ok(q1) => Ok((e, q1)),
        },
    }
}

/// `( expr )` with the `(` at `p`.
pub open spec fn p_paren_expr(ts: Seq<TokenV>, p: int) -> PRes<ExprV>
    decreases rem(ts, p), 11nat,
{
    match expect(ts, p, TokenV::ParenOpen) {
        Err(e) => Err(e),
        Ok(p1) => if past(ts, p, p1) {
            match p_expr(ts, p1) {
                Err(e) => Err(e),
                Ok((e, q)) => match expect(ts, q, TokenV::ParenClose) {
                    Err(err) => Err(err),
                    Ok(q1) => Ok((e, q1)),
                },
            }
        } else {
            Err(Seq::empty())
        },
    }
}

pub open spec fn match_pattern(t: TokenV) -> Option<MatchPattern> {
    match t {
        TokenV::Ident(n) => if n == "_"@ {
            Some(MatchPattern::Wildcard)
        } else {
            None
        },
        TokenV::Int(v) => Some(MatchPattern::IntLit(v)),
        _ => None,
    }
}

/// One `pattern => body` arm of a `match`.
pub open spec fn p_arm(ts: Seq<TokenV>, p: int) -> PRes<MatchArmV>
    decreases rem(ts, p), 13nat,
{
    match match_pattern(peek(ts, p)) {
        None => Err("match arm pattern must be an integer literal or '_'"@),
        Some(pat) => match expect(ts, adv(ts, p), TokenV::FatArrow) {
            Err(e) => Err(e),
            Ok(p2) => if past(ts, p, p2) {
                if peek(ts, p2) == TokenV::BraceOpen {
                    match p_braced(ts, p2) {
                        Err(e) => Err(e),
                        Ok((b, q)) => Ok((MatchArmV { pattern: pat, body: b }, q)),
                    }
                } else {
                    match p_stmt(ts, p2) {
                        Err(e) => Err(e),
                        Ok((s, q)) => Ok((MatchArmV { pattern: pat, body: seq![s] }, q)),
                    }
                }
            } else {
                Err(Seq::empty())
            },
        },
    }
}

/// Arms of a `match`, `arm (, arm)* [,]` up to the closing brace: a comma
/// only ever follows an arm, so a comma before the first arm or a second
/// comma in a row is refused (as the start of an arm).
pub open spec fn p_arms(ts: Seq<TokenV>, p: int, acc: Seq<MatchArmV>) -> PRes<Seq<MatchArmV>>
    decreases rem(ts, p), 14nat,
{
    if peek(ts, p) == TokenV::BraceClose {
        Ok((acc, p))
    } else {
        match p_arm(ts, p) {
            Err(e) => Err(e),
            Ok((a, q)) => if past(ts, p, q) {
                if peek(ts, q) == TokenV::Comma {
                    p_arms(ts, adv(ts, q), acc.push(a))
                } else if peek(ts, q) == TokenV::BraceClose {
                    Ok((acc.push(a), q))
                } else {
                    Err("expected ',' or '}' after match arm"@)
                }
            } else {
                Err(Seq::empty())
            },
        }
    }
}

/// `let name = expr;` after `let`.
#[verifier::opaque]
pub open spec fn p_let(ts: Seq<TokenV>, p: int) -> PRes<StmtV> {
    match ident(ts, p, "Expected identifier after let"@) {
        Err(e) => Err(e),
        Ok((n, p1)) => match expect(ts, p1, TokenV::Assign) {
            Err(e) => Err(e),
            Ok(p2) => match p_expr_semi(ts, p2) {
                Err(e) => Err(e),
                Ok((e, q)) => Ok((StmtV::Let(n, e), q)),
            },
        },
    }
}

/// `(expr);` after `constrain`.
#[verifier::opaque]
pub open spec fn p_constrain(ts: Seq<TokenV>, p: int) -> PRes<StmtV> {
    match p_paren_expr(ts, p) {
        Err(e) => Err(e),
        Ok((e, q)) => match expect(ts, q, TokenV::Semicolon) {
            Err(err) => Err(err),
            Ok(q1) => Ok((StmtV::Constrain(e), q1)),
        },
    }
}

/// `::name = expr;` after `storage`.
#[verifier::opaque]
pub open spec fn p_storage_write(ts: Seq<TokenV>, p: int) -> PRes<StmtV> {
    match expect(ts, p, TokenV::Colon) {
        Err(e) => Err(e),
        Ok(p1) => match expect(ts, p1, TokenV::Colon) {
            Err(e) => Err(e),
            Ok(p2) => match ident(ts, p2, "Expected name"@) {
                Err(e) => Err(e),
                Ok((n, p3)) => match expect(ts, p3, TokenV::Assign) {
                    Err(e) => Err(e),
                    Ok(p4) => match p_expr_semi(ts, p4) {
                        Err(e) => Err(e),
                        Ok((e, q)) => Ok((StmtV::StorageWrite(n, e), q)),
                    },
                },
            },
        },
    }
}

/// `(cond) { ... }` and an optional `else { ... }` after `if`.
pub open spec fn p_if(ts: Seq<TokenV>, p: int) -> PRes<StmtV>
    decreases rem(ts, p), 12nat,
{
    match p_paren_expr(ts, p) {
        Err(e) => Err(e),
        Ok((c, q)) => if fwd(ts, p, q) {
            match p_braced(ts, q) {
                Err(e) => Err(e),
                Ok((t, q2)) => if fwd(ts, q, q2) {
                    if peek(ts, q2) == TokenV::Else {
                        let q3 = adv(ts, q2);
                        if past(ts, q2, q3) {
                            match p_braced(ts, q3) {
                                Err(e) => Err(e),
                                Ok((eb, q4)) => Ok((StmtV::If(c, t, Some(eb)), q4)),
                            }
                        } else {
                            Err(Seq::empty())
                        }
                    } else {
                        Ok((StmtV::If(c, t, None), q2))
                    }
                } else {
                    Err(Seq::empty())
                },
            }
        } else {
            Err(Seq::empty())
        },
    }
}

/// `(cond) { ... }` after `while`.
pub open spec fn p_while(ts: Seq<TokenV>, p: int) -> PRes<StmtV>
    decreases rem(ts, p), 12nat,
{
    match p_paren_expr(ts, p) {
        Err(e) => Err(e),
        Ok((c, q)) => if fwd(ts, p, q) {
            match p_braced(ts, q) {
                Err(e) => Err(e),
                Ok((b, q2)) => Ok((StmtV::While(c, b), q2)),
            }
        } else {
            Err(Seq::empty())
        },
    }
}

/// `(scrutinee) { arms };` after `match`.
pub open spec fn p_match_stmt(ts: Seq<TokenV>, p: int) -> PRes<StmtV>
    decreases rem(ts, p), 15nat,
{
    match p_paren_expr(ts, p) {
        Err(e) => Err(e),
        Ok((sc, q)) => match expect(ts, q, TokenV::BraceOpen) {
            Err(e) => Err(e),
            Ok(q1) => if past(ts, p, q1) {
                match p_arms(ts, q1, Seq::empty()) {
                    Err(e) => Err(e),
                    Ok((arms, q2)) => match expect(ts, q2, TokenV::BraceClose) {
                        Err(e) => Err(e),
                        Ok(q3) => match expect(ts, q3, TokenV::Semicolon) {
                            Err(e) => Err(e),
                            Ok(q4) => Ok((StmtV::Match { scrutinee: sc, arms }, q4)),
                        },
                    },
                }
            } else {
                Err(Seq::empty())
            },
        },
    }
}

/// `var in start..end { ... }` after `for`.
pub open spec fn p_for(ts: Seq<TokenV>, p: int) -> PRes<StmtV>
    decreases rem(ts, p), 12nat,
{
    match ident(ts, p, "Expected loop variable after for"@) {
        Err(e) => Err(e),
        Ok((v, p1)) => match expect(ts, p1, TokenV::In) {
            Err(e) => Err(e),
            Ok(p2) => match p_expr(ts, p2) {
                Err(e) => Err(e),
                Ok((s, q)) => match expect(ts, q, TokenV::DotDot) {
                    Err(e) => Err(e),
                    Ok(q1) => match p_expr(ts, q1) {
                        Err(e) => Err(e),
                        Ok((e, q2)) => if fwd(ts, p, q2) {
                            match p_braced(ts, q2) {
                                Err(err) => Err(err),
                                Ok((b, q3)) => Ok(
                                    (StmtV::For { var: v, start: s, end: e, body: b }, q3),
                                ),
                            }
                        } else {
                            Err(Seq::empty())
                        },
                    },
                },
            },
        },
    }
}

/// `expr? ;` after `return`.
#[verifier::opaque]
pub open spec fn p_return(ts: Seq<TokenV>, p: int) -> PRes<StmtV> {
    if peek(ts, p) != TokenV::Semicolon {
        match p_expr_semi(ts, p) {
            Err(e) => Err(e),
            Ok((e, q)) => Ok((StmtV::Return(Some(e)), q)),
        }
    } else {
        Ok((StmtV::Return(None), adv(ts, p)))
    }
}

/// `Name(args);` after `emit`.
#[verifier::opaque]
pub open spec fn p_emit(ts: Seq<TokenV>, p: int) -> PRes<StmtV> {
    match ident(ts, p, "Expected event name"@) {
        Err(e) => Err(e),
        Ok((ev, p1)) => match expect(ts, p1, TokenV::ParenOpen) {
            Err(e) => Err(e),
            Ok(p2) => match p_args(ts, p2, Seq::empty()) {
                Err(e) => Err(e),
                Ok((args, q)) => match expect(ts, q, TokenV::ParenClose) {
                    Err(e) => Err(e),
                    Ok(q1) => match expect(ts, q1, TokenV::Semicolon) {
                        Err(e) => Err(e),
                        Ok(q2) => Ok((StmtV::Emit(ev, args), q2)),
                    },
                },
            },
        },
    }
}

/// `[key] = value;` or `= value;` after a name that starts a statement.
#[verifier::opaque]
pub open spec fn p_assignment(ts: Seq<TokenV>, p: int, name: Seq<char>) -> PRes<StmtV> {
    if peek(ts, p) == TokenV::BracketOpen {
        match p_expr(ts, adv(ts, p)) {
            Err(e) => Err(e),
            Ok((k, q)) => match expect(ts, q, TokenV::BracketClose) {
                Err(e) => Err(e),
                Ok(q1) => match expect(ts, q1, TokenV::Assign) {
                    Err(e) => Err(e),
                    Ok(q2) => match p_expr_semi(ts, q2) {
                        Err(e) => Err(e),
                        Ok((v, q3)) => Ok((StmtV::MappingWrite(name, k, v), q3)),
                    },
                },
            },
        }
    } else {
        match expect(ts, p, TokenV::Assign) {
            Err(e) => Err(e),
            Ok(p1) => match p_expr_semi(ts, p1) {
                Err(e) => Err(e),
                Ok((e, q)) => Ok((StmtV::Assign(name, e), q)),
            },
        }
    }
}

/// A statement whose first token is at `p`.
pub open spec fn p_stmt(ts: Seq<TokenV>, p: int) -> PRes<StmtV>
    decreases rem(ts, p), 16nat,
{
    let p1 = adv(ts, p);
    match peek(ts, p) {
        TokenV::Let => p_let(ts, p1),
        TokenV::Constrain => p_constrain(ts, p1),
        TokenV::Storage => p_storage_write(ts, p1),
        TokenV::If => if past(ts, p, p1) {
            p_if(ts, p1)
        } else {
            Err(Seq::empty())
        },
        TokenV::While => if past(ts, p, p1) {
            p_while(ts, p1)
        } else {
            Err(Seq::empty())
        },
        TokenV::Match => if past(ts, p, p1) {
            p_match_stmt(ts, p1)
        } else {
            Err(Seq::empty())
        },
        TokenV::For => if past(ts, p, p1) {
            p_for(ts, p1)
        } else {
            Err(Seq::empty())
        },
        TokenV::Return => p_return(ts, p1),
        TokenV::Ident(name) => if name == "emit"@ {
            p_emit(ts, p1)
        } else {
            p_assignment(ts, p1, name)
        },
        _ => match p_expr_semi(ts, p) {
            Err(e) => Err(e),
            Ok((e, q)) => Ok((StmtV::Expr(e), q)),
        },
    }
}

// ---------------------------------------------------------------------
// Declarations
// ---------------------------------------------------------------------

/// `name: type` parameters, each optionally followed by a comma, up to `)`.
pub open spec fn p_params(ts: Seq<TokenV>, p: int, acc: Seq<FieldV>) -> PRes<Seq<FieldV>>
    decreases rem(ts, p),
{
    if peek(ts, p) == TokenV::ParenClose {
        Ok((acc, p))
    } else {
        match ident(ts, p, "Expected param name"@) {
            Err(e) => Err(e),
            Ok((n, p1)) => match expect(ts, p1, TokenV::Colon) {
                Err(e) => Err(e),
                Ok(p2) => match ident(ts, p2, "Expected param type"@) {
                    Err(e) => Err(e),
                    Ok((t, p3)) => {
                        let q = if peek(ts, p3) == TokenV::Comma {
                            adv(ts, p3)
                        } else {
                            p3
                        };
                        if past(ts, p, q) {
                            p_params(ts, q, acc.push(FieldV { name: n, ty: t }))
                        } else {
                            Err(Seq::empty())
                        }
                    },
                },
            },
        }
    }
}

/// A function declaration: `pub`? `fn name(params) (-> type)? { body }`.
pub open spec fn p_function(ts: Seq<TokenV>, p: int) -> PRes<FunctionV> {
    let is_pub = peek(ts, p) == TokenV::Pub;
    let p0 = if is_pub {
        adv(ts, p)
    } else {
        p
    };
    match expect(ts, p0, TokenV::Fn) {
        Err(e) => Err(e),
        Ok(p1) => match ident(ts, p1, "Expected function name"@) {
            Err(e) => Err(e),
            Ok((name, p2)) => match expect(ts, p2, TokenV::ParenOpen) {
                Err(e) => Err(e),
                Ok(p3) => match p_params(ts, p3, Seq::empty()) {
                    Err(e) => Err(e),
                    Ok((params, p4)) => match expect(ts, p4, TokenV::ParenClose) {
                        Err(e) => Err(e),
                        Ok(p5) => {
                            let ret: PRes<Option<Seq<char>>> = if peek(ts, p5) == TokenV::Arrow {
                                match ident(ts, adv(ts, p5), "Expected return type"@) {
                                    Err(e) => Err(e),
                                    Ok((t, p6)) => Ok((Some(t), p6)),
                                }
                            } else {
                                Ok((None, p5))
                            };
                            match ret {
                                Err(e) => Err(e),
                                Ok((return_type, p6)) => match p_braced(ts, p6) {
                                    Err(e) => Err(e),
                                    Ok((body, q)) => Ok(
                                        (
                                            FunctionV {
                                                name,
                                                params,
                                                return_type,
                                                body,
                                                is_pub,
                                            },
                                            q,
                                        ),
                                    ),
                                },
                            }
                        },
                    },
                },
            },
        },
    }
}

/// A storage or struct field's type: a name, or `Map<key, value>` written
/// back as `Map<key,value>`.
pub open spec fn p_field_type(ts: Seq<TokenV>, p: int) -> PRes<Seq<char>> {
    match ident(ts, p, "Expected type"@) {
        Err(e) => Err(e),
        Ok((ty, p1)) => if ty == "Map"@ {
            match expect(ts, p1, TokenV::Lt) {
                Err(e) => Err(e),
                Ok(p2) => match ident(ts, p2, "Expected map key type"@) {
                    Err(e) => Err(e),
                    Ok((k, p3)) => match expect(ts, p3, TokenV::Comma) {
                        Err(e) => Err(e),
                        Ok(p4) => match ident(ts, p4, "Expected map value type"@) {
                            Err(e) => Err(e),
                            Ok((v, p5)) => match expect(ts, p5, TokenV::Gt) {
                                Err(e) => Err(e),
                                Ok(p6) => Ok(("Map<"@ + k + ","@ + v + ">"@, p6)),
                            },
                        },
                    },
                },
            }
        } else {
            Ok((ty, p1))
        },
    }
}

/// `name: type,` entries of a `storage { ... }` block, up to `}`.
pub open spec fn p_storage_fields(ts: Seq<TokenV>, p: int, acc: Seq<FieldV>) -> PRes<Seq<FieldV>>
    decreases rem(ts, p),
{
    if peek(ts, p) == TokenV::BraceClose {
        Ok((acc, p))
    } else {
        match ident(ts, p, "Expected name"@) {
            Err(e) => Err(e),
            Ok((n, p1)) => match expect(ts, p1, TokenV::Colon) {
                Err(e) => Err(e),
                Ok(p2) => match p_field_type(ts, p2) {
                    Err(e) => Err(e),
                    Ok((t, p3)) => match expect(ts, p3, TokenV::Comma) {
                        Err(e) => Err(e),
                        Ok(q) => if past(ts, p, q) {
                            p_storage_fields(ts, q, acc.push(FieldV { name: n, ty: t }))
                        } else {
                            Err(Seq::empty())
                        },
                    },
                },
            },
        }
    }
}

/// `name: type,` fields of a struct declaration, up to `}`.
pub open spec fn p_struct_fields(ts: Seq<TokenV>, p: int, acc: Seq<FieldV>) -> PRes<Seq<FieldV>>
    decreases rem(ts, p),
{
    if peek(ts, p) == TokenV::BraceClose {
        Ok((acc, p))
    } else {
        match ident(ts, p, "Expected name"@) {
            Err(e) => Err(e),
            Ok((n, p1)) => match expect(ts, p1, TokenV::Colon) {
                Err(e) => Err(e),
                Ok(p2) => match ident(ts, p2, "Expected type"@) {
                    Err(e) => Err(e),
                    Ok((t, p3)) => match expect(ts, p3, TokenV::Comma) {
                        Err(e) => Err(e),
                        Ok(q) => if past(ts, p, q) {
                            p_struct_fields(ts, q, acc.push(FieldV { name: n, ty: t }))
                        } else {
                            Err(Seq::empty())
                        },
                    },
                },
            },
        }
    }
}

/// `{ name: type, ... }` after `storage`, its fields appended to `st`.
pub open spec fn p_storage_block(ts: Seq<TokenV>, p: int, st: Seq<FieldV>) -> PRes<Seq<FieldV>> {
    match expect(ts, p, TokenV::BraceOpen) {
        Err(e) => Err(e),
        Ok(p1) => match p_storage_fields(ts, p1, st) {
            Err(e) => Err(e),
            Ok((st2, q)) => match expect(ts, q, TokenV::BraceClose) {
                Err(e) => Err(e),
                Ok(q1) => Ok((st2, q1)),
            },
        },
    }
}

/// `Name { name: type, ... }` after `struct`.
pub open spec fn p_struct_decl(ts: Seq<TokenV>, p: int) -> PRes<StructV> {
    match ident(ts, p, "Expected name"@) {
        Err(e) => Err(e),
        Ok((n, p1)) => match expect(ts, p1, TokenV::BraceOpen) {
            Err(e) => Err(e),
            Ok(p2) => match p_struct_fields(ts, p2, Seq::empty()) {
                Err(e) => Err(e),
                Ok((fs, q)) => match expect(ts, q, TokenV::BraceClose) {
                    Err(e) => Err(e),
                    Ok(q1) => Ok((StructV { name: n, fields: fs }, q1)),
                },
            },
        },
    }
}

/// The declarations of a contract body, up to its closing brace: `storage`
/// blocks, `struct` declarations and functions, collected in order.
pub open spec fn p_items(
    ts: Seq<TokenV>,
    p: int,
    storage: Seq<FieldV>,
    structs: Seq<StructV>,
    functions: Seq<FunctionV>,
) -> Result<(Seq<FieldV>, Seq<StructV>, Seq<FunctionV>, int), Seq<char>>
    decreases rem(ts, p),
{
    if peek(ts, p) == TokenV::BraceClose {
        Ok((storage, structs, functions, p))
    } else if peek(ts, p) == TokenV::Storage {
        match p_storage_block(ts, adv(ts, p), storage) {
            Err(e) => Err(e),
            Ok((st, q)) => if past(ts, p, q) {
                p_items(ts, q, st, structs, functions)
            } else {
                Err(Seq::empty())
            },
        }
    } else if peek(ts, p) == TokenV::Struct {
        match p_struct_decl(ts, adv(ts, p)) {
            Err(e) => Err(e),
            Ok((sd, q)) => if past(ts, p, q) {
                p_items(ts, q, storage, structs.push(sd), functions)
            } else {
                Err(Seq::empty())
            },
        }
    } else {
        match p_function(ts, p) {
            Err(e) => Err(e),
            Ok((f, q)) => if past(ts, p, q) {
                p_items(ts, q, storage, structs, functions.push(f))
            } else {
                Err(Seq::empty())
            },
        }
    }
}

/// A whole contract: `contract Name { declarations }`.
pub open spec fn p_contract(ts: Seq<TokenV>, p: int) -> PRes<ContractV> {
    match expect(ts, p, TokenV::Contract) {
        Err(e) => Err(e),
        Ok(p1) => match ident(ts, p1, "Expected contract name"@) {
            Err(e) => Err(e),
            Ok((name, p2)) => match expect(ts, p2, TokenV::BraceOpen) {
                Err(e) => Err(e),
                Ok(p3) => match p_items(ts, p3, Seq::empty(), Seq::empty(), Seq::empty()) {
                    Err(e) => Err(e),
                    Ok((storage, structs, functions, q)) => match expect(
                        ts,
                        q,
                        TokenV::BraceClose,
                    ) {
                        Err(e) => Err(e),
                        Ok(q1) => Ok((ContractV { name, storage, structs, functions }, q1)),
                    },
                },
            },
        },
    }
}


/// An accepted arm list starts with the closing brace or with an arm's
/// pattern, never with a comma; since the list goes on after each comma in
/// the same way, no comma stands before the first arm or after another comma.
pub proof fn lemma_arms_start(ts: Seq<TokenV>, p: int, acc: Seq<MatchArmV>)
    ensures
        p_arms(ts, p, acc) is Ok ==> peek(ts, p) == TokenV::BraceClose || match_pattern(
            peek(ts, p),
        ) is Some,
        peek(ts, p) == TokenV::Comma ==> p_arms(ts, p, acc) is Err,
{
    if peek(ts, p) != TokenV::BraceClose && match_pattern(peek(ts, p)) is None {
        assert(p_arm(ts, p) is Err);
    }
}

/// An accepted contract is `contract <name> { ... }`: it starts with the
/// keyword, its name and an opening brace, and ends on a closing brace.
pub proof fn lemma_contract_frame(ts: Seq<TokenV>, p: int)
    ensures
        p_contract(ts, p) matches Ok((c, q)) ==> {
            &&& peek(ts, p) == TokenV::Contract
            &&& peek(ts, p + 1) == TokenV::Ident(c.name)
            &&& peek(ts, p + 2) == TokenV::BraceOpen
            &&& 0 < q <= ts.len()
            &&& peek(ts, q - 1) == TokenV::BraceClose
        },
{
    if let Ok((c, q)) = p_contract(ts, p) {
        let p1 = adv(ts, p);
        assert(peek(ts, p) == TokenV::Contract);
        assert(p1 == p + 1);
        let p2 = adv(ts, p1);
        assert(p2 == p + 2);
        let p3 = adv(ts, p2);
        match p_items(ts, p3, Seq::empty(), Seq::empty(), Seq::empty()) {
            Ok((storage, structs, functions, q0)) => {
                assert(peek(ts, q0) == TokenV::BraceClose);
                assert(q == q0 + 1);
            },
            Err(_) => {},
        }
    }
}

/// Names that the expression grammar reads as something other than a
/// variable: the builtins and the context prefixes.
pub open spec fn reserved_name(n: Seq<char>) -> bool {
    n == "poseidon"@ || n == "msg"@ || n == "block"@ || n == "verify_merkle_proof"@
}

/// The tokens at `p`: variable `a`, operator token `t`, variable `b`, `;`.
pub open spec fn simple_binary_at(ts: Seq<TokenV>, p: int, a: Seq<char>, t: TokenV, b: Seq<char>) -> bool {
    &&& 0 <= p
    &&& p + 3 < ts.len()
    &&& ts[p] == TokenV::Ident(a)
    &&& ts[p + 1] == t
    &&& ts[p + 2] == TokenV::Ident(b)
    &&& ts[p + 3] == TokenV::Semicolon
    &&& !reserved_name(a)
    &&& !reserved_name(b)
}

/// The expression `a op b`.
pub open spec fn bin(a: Seq<char>, op: BinOp, b: Seq<char>) -> ExprV {
    ExprV::Binary(Box::new(ExprV::Ident(a)), op, Box::new(ExprV::Ident(b)))
}

/// A variable followed by a token that continues no primary is that variable.
proof fn lemma_variable_operand(ts: Seq<TokenV>, p: int, a: Seq<char>)
    requires
        0 <= p,
        p + 1 < ts.len(),
        ts[p] == TokenV::Ident(a),
        !reserved_name(a),
        ts[p + 1] != TokenV::ParenOpen,
        ts[p + 1] != TokenV::BracketOpen,
        ts[p + 1] != TokenV::BraceOpen,
        ts[p + 1] != TokenV::Dot,
    ensures
        p_postfix(ts, p) == Ok::<(ExprV, int), Seq<char>>((ExprV::Ident(a), p + 1)),
{
    assert(p_after_ident(ts, p + 1, a) == Ok::<(ExprV, int), Seq<char>>((ExprV::Ident(a), p + 1)));
    assert(p_primary(ts, p) == Ok::<(ExprV, int), Seq<char>>((ExprV::Ident(a), p + 1)));
    assert(p_postfix_tail(ts, p + 1, ExprV::Ident(a)) == Ok::<(ExprV, int), Seq<char>>(
        (ExprV::Ident(a), p + 1),
    ));
}

/// `a t b ;` is one binary expression over the two variables, in that order,
/// whose operator is the one the token spells: `*` multiplies, `/` divides,
/// `+` adds, `-` subtracts, and `==`, `!=`, `<`, `>`, `<=`, `>=` compare.
pub proof fn lemma_binary_operators(ts: Seq<TokenV>, p: int, a: Seq<char>, t: TokenV, b: Seq<char>)
    requires
        simple_binary_at(ts, p, a, t, b),
    ensures
        t == TokenV::Star ==> p_expr(ts, p) == Ok::<(ExprV, int), Seq<char>>((bin(a, BinOp::Mul, b), p + 3)),
        t == TokenV::Slash ==> p_expr(ts, p) == Ok::<(ExprV, int), Seq<char>>((bin(a, BinOp::Div, b), p + 3)),
        t == TokenV::Plus ==> p_expr(ts, p) == Ok::<(ExprV, int), Seq<char>>((bin(a, BinOp::Add, b), p + 3)),
        t == TokenV::Minus ==> p_expr(ts, p) == Ok::<(ExprV, int), Seq<char>>((bin(a, BinOp::Sub, b), p + 3)),
        t == TokenV::Eq ==> p_expr(ts, p) == Ok::<(ExprV, int), Seq<char>>((bin(a, BinOp::Eq, b), p + 3)),
        t == TokenV::Neq ==> p_expr(ts, p) == Ok::<(ExprV, int), Seq<char>>((bin(a, BinOp::Neq, b), p + 3)),
        t == TokenV::Lt ==> p_expr(ts, p) == Ok::<(ExprV, int), Seq<char>>((bin(a, BinOp::Lt, b), p + 3)),
        t == TokenV::Gt ==> p_expr(ts, p) == Ok::<(ExprV, int), Seq<char>>((bin(a, BinOp::Gt, b), p + 3)),
        t == TokenV::Lte ==> p_expr(ts, p) == Ok::<(ExprV, int), Seq<char>>((bin(a, BinOp::Lte, b), p + 3)),
        t == TokenV::Gte ==> p_expr(ts, p) == Ok::<(ExprV, int), Seq<char>>((bin(a, BinOp::Gte, b), p + 3)),
{
    let ia = ExprV::Ident(a);
    let ib = ExprV::Ident(b);
    if mul_op(t) is Some || add_op(t) is Some || rel_op(t) is Some {
        lemma_variable_operand(ts, p, a);
        lemma_variable_operand(ts, p + 2, b);
        let semi = ts[p + 3];
        assert(mul_op(semi) is None && add_op(semi) is None && rel_op(semi) is None);
        if let Some(op) = mul_op(t) {
            let e = ExprV::Binary(Box::new(ia), op, Box::new(ib));
            assert(p_term_tail(ts, p + 3, e) == Ok::<(ExprV, int), Seq<char>>((e, p + 3)));
            assert(p_term_tail(ts, p + 1, ia) == Ok::<(ExprV, int), Seq<char>>((e, p + 3)));
            assert(p_term(ts, p) == Ok::<(ExprV, int), Seq<char>>((e, p + 3)));
            assert(p_arith_tail(ts, p + 3, e) == Ok::<(ExprV, int), Seq<char>>((e, p + 3)));
            assert(p_arith(ts, p) == Ok::<(ExprV, int), Seq<char>>((e, p + 3)));
            assert(p_expr_tail(ts, p + 3, e) == Ok::<(ExprV, int), Seq<char>>((e, p + 3)));
        } else {
            assert(p_term_tail(ts, p + 1, ia) == Ok::<(ExprV, int), Seq<char>>((ia, p + 1)));
            assert(p_term(ts, p) == Ok::<(ExprV, int), Seq<char>>((ia, p + 1)));
            assert(p_term_tail(ts, p + 3, ib) == Ok::<(ExprV, int), Seq<char>>((ib, p + 3)));
            assert(p_term(ts, p + 2) == Ok::<(ExprV, int), Seq<char>>((ib, p + 3)));
            if let Some(op) = add_op(t) {
                let e = ExprV::Binary(Box::new(ia), op, Box::new(ib));
                assert(p_arith_tail(ts, p + 3, e) == Ok::<(ExprV, int), Seq<char>>((e, p + 3)));
                assert(p_arith_tail(ts, p + 1, ia) == Ok::<(ExprV, int), Seq<char>>((e, p + 3)));
                assert(p_arith(ts, p) == Ok::<(ExprV, int), Seq<char>>((e, p + 3)));
                assert(p_expr_tail(ts, p + 3, e) == Ok::<(ExprV, int), Seq<char>>((e, p + 3)));
            } else {
                let op = rel_op(t)->0;
                let e = ExprV::Binary(Box::new(ia), op, Box::new(ib));
                assert(p_arith_tail(ts, p + 1, ia) == Ok::<(ExprV, int), Seq<char>>((ia, p + 1)));
                assert(p_arith(ts, p) == Ok::<(ExprV, int), Seq<char>>((ia, p + 1)));
                assert(p_arith_tail(ts, p + 3, ib) == Ok::<(ExprV, int), Seq<char>>((ib, p + 3)));
                assert(p_arith(ts, p + 2) == Ok::<(ExprV, int), Seq<char>>((ib, p + 3)));
                assert(p_expr_tail(ts, p + 3, e) == Ok::<(ExprV, int), Seq<char>>((e, p + 3)));
                assert(p_expr_tail(ts, p + 1, ia) == Ok::<(ExprV, int), Seq<char>>((e, p + 3)));
            }
        }
    }
}

/// The tokens at `p`: variables `a`, `b`, `c` with operator tokens `t1`
/// and `t2` between them, then `;`.
pub open spec fn two_ops_at(
    ts: Seq<TokenV>,
    p: int,
    a: Seq<char>,
    t1: TokenV,
    b: Seq<char>,
    t2: TokenV,
    c: Seq<char>,
) -> bool {
    &&& 0 <= p
    &&& p + 5 < ts.len()
    &&& ts[p] == TokenV::Ident(a)
    &&& ts[p + 1] == t1
    &&& ts[p + 2] == TokenV::Ident(b)
    &&& ts[p + 3] == t2
    &&& ts[p + 4] == TokenV::Ident(c)
    &&& ts[p + 5] == TokenV::Semicolon
    &&& !reserved_name(a)
    &&& !reserved_name(b)
    &&& !reserved_name(c)
}

/// Precedence and grouping: `*` and `/` bind tighter than `+` and `-`, and
/// operators of one level group to the left. So `a + b * c` is
/// `a + (b * c)`, `a * b + c` is `(a * b) + c`, and `a - b + c` and
/// `a / b * c` group as `(a - b) + c` and `(a / b) * c`.
pub proof fn lemma_precedence(
    ts: Seq<TokenV>,
    p: int,
    a: Seq<char>,
    t1: TokenV,
    b: Seq<char>,
    t2: TokenV,
    c: Seq<char>,
)
    requires
        two_ops_at(ts, p, a, t1, b, t2, c),
    ensures
        add_op(t1) is Some && mul_op(t2) is Some ==> p_expr(ts, p) == Ok::<(ExprV, int), Seq<char>>(
            (
                ExprV::Binary(
                    Box::new(ExprV::Ident(a)),
                    add_op(t1)->0,
                    Box::new(bin(b, mul_op(t2)->0, c)),
                ),
                p + 5,
            ),
        ),
        mul_op(t1) is Some && add_op(t2) is Some ==> p_expr(ts, p) == Ok::<(ExprV, int), Seq<char>>(
            (
                ExprV::Binary(
                    Box::new(bin(a, mul_op(t1)->0, b)),
                    add_op(t2)->0,
                    Box::new(ExprV::Ident(c)),
                ),
                p + 5,
            ),
        ),
        add_op(t1) is Some && add_op(t2) is Some ==> p_expr(ts, p) == Ok::<(ExprV, int), Seq<char>>(
            (
                ExprV::Binary(
                    Box::new(bin(a, add_op(t1)->0, b)),
                    add_op(t2)->0,
                    Box::new(ExprV::Ident(c)),
                ),
                p + 5,
            ),
        ),
        mul_op(t1) is Some && mul_op(t2) is Some ==> p_expr(ts, p) == Ok::<(ExprV, int), Seq<char>>(
            (
                ExprV::Binary(
                    Box::new(bin(a, mul_op(t1)->0, b)),
                    mul_op(t2)->0,
                    Box::new(ExprV::Ident(c)),
                ),
                p + 5,
            ),
        ),
{
    let ia = ExprV::Ident(a);
    let ib = ExprV::Ident(b);
    let ic = ExprV::Ident(c);
    let semi = ts[p + 5];
    if (add_op(t1) is Some || mul_op(t1) is Some) && (add_op(t2) is Some || mul_op(t2) is Some) {
        lemma_variable_operand(ts, p, a);
        lemma_variable_operand(ts, p + 2, b);
        lemma_variable_operand(ts, p + 4, c);
        assert(mul_op(semi) is None && add_op(semi) is None && rel_op(semi) is None);
        assert(rel_op(t1) is None && rel_op(t2) is None);
        if let Some(o1) = add_op(t1) {
            assert(p_term_tail(ts, p + 1, ia) == Ok::<(ExprV, int), Seq<char>>((ia, p + 1)));
            assert(p_term(ts, p) == Ok::<(ExprV, int), Seq<char>>((ia, p + 1)));
            if let Some(o2) = mul_op(t2) {
                let r = bin(b, o2, c);
                let e = ExprV::Binary(Box::new(ia), o1, Box::new(r));
                assert(p_term_tail(ts, p + 5, r) == Ok::<(ExprV, int), Seq<char>>((r, p + 5)));
                assert(p_term_tail(ts, p + 3, ib) == Ok::<(ExprV, int), Seq<char>>((r, p + 5)));
                assert(p_term(ts, p + 2) == Ok::<(ExprV, int), Seq<char>>((r, p + 5)));
                assert(p_arith_tail(ts, p + 5, e) == Ok::<(ExprV, int), Seq<char>>((e, p + 5)));
                assert(p_arith_tail(ts, p + 1, ia) == Ok::<(ExprV, int), Seq<char>>((e, p + 5)));
                assert(p_arith(ts, p) == Ok::<(ExprV, int), Seq<char>>((e, p + 5)));
                assert(p_expr_tail(ts, p + 5, e) == Ok::<(ExprV, int), Seq<char>>((e, p + 5)));
            } else {
                let o2 = add_op(t2)->0;
                let l = bin(a, o1, b);
                let e = ExprV::Binary(Box::new(l), o2, Box::new(ic));
                assert(p_term_tail(ts, p + 3, ib) == Ok::<(ExprV, int), Seq<char>>((ib, p + 3)));
                assert(p_term(ts, p + 2) == Ok::<(ExprV, int), Seq<char>>((ib, p + 3)));
                assert(p_term_tail(ts, p + 5, ic) == Ok::<(ExprV, int), Seq<char>>((ic, p + 5)));
                assert(p_term(ts, p + 4) == Ok::<(ExprV, int), Seq<char>>((ic, p + 5)));
                assert(p_arith_tail(ts, p + 5, e) == Ok::<(ExprV, int), Seq<char>>((e, p + 5)));
                assert(p_arith_tail(ts, p + 3, l) == Ok::<(ExprV, int), Seq<char>>((e, p + 5)));
                assert(p_arith_tail(ts, p + 1, ia) == Ok::<(ExprV, int), Seq<char>>((e, p + 5)));
                assert(p_arith(ts, p) == Ok::<(ExprV, int), Seq<char>>((e, p + 5)));
                assert(p_expr_tail(ts, p + 5, e) == Ok::<(ExprV, int), Seq<char>>((e, p + 5)));
            }
        } else {
            let o1 = mul_op(t1)->0;
            let l = bin(a, o1, b);
            if let Some(o2) = mul_op(t2) {
                let e = ExprV::Binary(Box::new(l), o2, Box::new(ic));
                assert(p_term_tail(ts, p + 5, e) == Ok::<(ExprV, int), Seq<char>>((e, p + 5)));
                assert(p_term_tail(ts, p + 3, l) == Ok::<(ExprV, int), Seq<char>>((e, p + 5)));
                assert(p_term_tail(ts, p + 1, ia) == Ok::<(ExprV, int), Seq<char>>((e, p + 5)));
                assert(p_term(ts, p) == Ok::<(ExprV, int), Seq<char>>((e, p + 5)));
                assert(p_arith_tail(ts, p + 5, e) == Ok::<(ExprV, int), Seq<char>>((e, p + 5)));
                assert(p_arith(ts, p) == Ok::<(ExprV, int), Seq<char>>((e, p + 5)));
                assert(p_expr_tail(ts, p + 5, e) == Ok::<(ExprV, int), Seq<char>>((e, p + 5)));
            } else {
                let o2 = add_op(t2)->0;
                let e = ExprV::Binary(Box::new(l), o2, Box::new(ic));
                assert(p_term_tail(ts, p + 3, l) == Ok::<(ExprV, int), Seq<char>>((l, p + 3)));
                assert(p_term_tail(ts, p + 1, ia) == Ok::<(ExprV, int), Seq<char>>((l, p + 3)));
                assert(p_term(ts, p) == Ok::<(ExprV, int), Seq<char>>((l, p + 3)));
                assert(p_term_tail(ts, p + 5, ic) == Ok::<(ExprV, int), Seq<char>>((ic, p + 5)));
                assert(p_term(ts, p + 4) == Ok::<(ExprV, int), Seq<char>>((ic, p + 5)));
                assert(p_arith_tail(ts, p + 5, e) == Ok::<(ExprV, int), Seq<char>>((e, p + 5)));
                assert(p_arith_tail(ts, p + 3, l) == Ok::<(ExprV, int), Seq<char>>((e, p + 5)));
                assert(p_arith(ts, p) == Ok::<(ExprV, int), Seq<char>>((e, p + 5)));
                assert(p_expr_tail(ts, p + 5, e) == Ok::<(ExprV, int), Seq<char>>((e, p + 5)));
            }
        }
    }
}

} // verus!
