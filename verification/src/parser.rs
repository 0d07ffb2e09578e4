//! The recursive-descent parser of BudL. Each parsing method is proved to
//! compute the function of the same shape in `grammar`.
use crate::ast::{
    lemma_expr_view_lists, lemma_stmt_view_lists, BinOp, Contract, Expr, Function, MatchArm,
    MatchPattern, Param, Stmt, StorageField, Struct, arms_view, exprs_view, field_inits_view,
    fields_view, functions_view, params_view, stmts_view, structs_view,
};
use crate::error::{push_decimal, CompileError, CompileErrorV};
use crate::grammar::{
    add_op, adv, agrees, rel_op, expect, hex_digit_value, hex_literal, hex_value, ident, mul_op,
    p_after_ident, p_args, p_arith, p_arith_tail, p_arm, p_arms, p_block, p_braced, p_call_args,
    p_context_call, p_contract, p_expr, p_expr_semi, p_expr_tail, p_field_inits, p_field_type,
    p_function, p_items, p_merkle, p_paren_expr, p_params, p_postfix, p_postfix_tail, p_primary,
    p_stmt, p_let, p_constrain, p_storage_write, p_if, p_while, p_match_stmt, p_for, p_return,
    p_emit, p_assignment, p_storage_fields, p_struct_fields, p_storage_block, p_struct_decl,
    p_term, p_term_tail, peek, plain, rem, token_debug,
};
use crate::lexer::{chars_of, is_hex_digit, token_well_formed, tokenize, tokens_view, tokens_well_formed, Token, TokenV, lex};
use vstd::prelude::*;

verus! {

/// A parser over the tokens of one source text.
pub struct Parser<'a> {
    tokens: Vec<Token>,
    pos: usize,
    _source: &'a str,
}

/// The error value for a parse error with text `m`.
fn parser_error(m: String) -> (e: CompileError)
    ensures
        e@ == CompileErrorV::ParserError(m@),
{
    CompileError::ParserError(m)
}

/// Whether the payload-free token `k` is the token `t`.
fn same_kind(t: &Token, k: &Token) -> (r: bool)
    requires
        plain(k@),
    ensures
        r == (t@ == k@),
{
    match k {
        Token::Contract => matches!(t, Token::Contract),
        Token::Storage => matches!(t, Token::Storage),
        Token::Struct => matches!(t, Token::Struct),
        Token::Pub => matches!(t, Token::Pub),
        Token::Fn => matches!(t, Token::Fn),
        Token::Let => matches!(t, Token::Let),
        Token::Constrain => matches!(t, Token::Constrain),
        Token::If => matches!(t, Token::If),
        Token::Else => matches!(t, Token::Else),
        Token::While => matches!(t, Token::While),
        Token::Match => matches!(t, Token::Match),
        Token::For => matches!(t, Token::For),
        Token::In => matches!(t, Token::In),
        Token::Return => matches!(t, Token::Return),
        Token::BraceOpen => matches!(t, Token::BraceOpen),
        Token::BraceClose => matches!(t, Token::BraceClose),
        Token::ParenOpen => matches!(t, Token::ParenOpen),
        Token::ParenClose => matches!(t, Token::ParenClose),
        Token::BracketOpen => matches!(t, Token::BracketOpen),
        Token::BracketClose => matches!(t, Token::BracketClose),
        Token::Colon => matches!(t, Token::Colon),
        Token::Semicolon => matches!(t, Token::Semicolon),
        Token::Comma => matches!(t, Token::Comma),
        Token::Dot => matches!(t, Token::Dot),
        Token::DotDot => matches!(t, Token::DotDot),
        Token::Arrow => matches!(t, Token::Arrow),
        Token::FatArrow => matches!(t, Token::FatArrow),
        Token::Assign => matches!(t, Token::Assign),
        Token::Eq => matches!(t, Token::Eq),
        Token::Neq => matches!(t, Token::Neq),
        Token::Lt => matches!(t, Token::Lt),
        Token::Gt => matches!(t, Token::Gt),
        Token::Lte => matches!(t, Token::Lte),
        Token::Gte => matches!(t, Token::Gte),
        Token::Plus => matches!(t, Token::Plus),
        Token::Minus => matches!(t, Token::Minus),
        Token::Star => matches!(t, Token::Star),
        Token::Slash => matches!(t, Token::Slash),
        Token::Error => matches!(t, Token::Error),
        Token::Ident(_) => false,
        Token::Int(_) => false,
        Token::Hex(_) => false,
    }
}

/// The debug text of a token.
fn debug_text(t: &Token) -> (s: String)
    ensures
        s@ == token_debug(t@),
{
    match t {
        Token::Ident(n) => {
            let mut s = String::from_str("Ident(\"");
            s.append(n.as_str());
            s.append("\")");
            s
        },
        Token::Hex(n) => {
            let mut s = String::from_str("Hex(\"");
            s.append(n.as_str());
            s.append("\")");
            s
        },
        Token::Int(v) => {
            let mut s = String::from_str("Int(");
            push_decimal(&mut s, *v);
            s.append(")");
            s
        },
        Token::Contract => String::from_str("Contract"),
        Token::Storage => String::from_str("Storage"),
        Token::Struct => String::from_str("Struct"),
        Token::Pub => String::from_str("Pub"),
        Token::Fn => String::from_str("Fn"),
        Token::Let => String::from_str("Let"),
        Token::Constrain => String::from_str("Constrain"),
        Token::If => String::from_str("If"),
        Token::Else => String::from_str("Else"),
        Token::While => String::from_str("While"),
        Token::Match => String::from_str("Match"),
        Token::For => String::from_str("For"),
        Token::In => String::from_str("In"),
        Token::Return => String::from_str("Return"),
        Token::BraceOpen => String::from_str("BraceOpen"),
        Token::BraceClose => String::from_str("BraceClose"),
        Token::ParenOpen => String::from_str("ParenOpen"),
        Token::ParenClose => String::from_str("ParenClose"),
        Token::BracketOpen => String::from_str("BracketOpen"),
        Token::BracketClose => String::from_str("BracketClose"),
        Token::Colon => String::from_str("Colon"),
        Token::Semicolon => String::from_str("Semicolon"),
        Token::Comma => String::from_str("Comma"),
        Token::Dot => String::from_str("Dot"),
        Token::DotDot => String::from_str("DotDot"),
        Token::Arrow => String::from_str("Arrow"),
        Token::FatArrow => String::from_str("FatArrow"),
        Token::Assign => String::from_str("Assign"),
        Token::Eq => String::from_str("Eq"),
        Token::Neq => String::from_str("Neq"),
        Token::Lt => String::from_str("Lt"),
        Token::Gt => String::from_str("Gt"),
        Token::Lte => String::from_str("Lte"),
        Token::Gte => String::from_str("Gte"),
        Token::Plus => String::from_str("Plus"),
        Token::Minus => String::from_str("Minus"),
        Token::Star => String::from_str("Star"),
        Token::Slash => String::from_str("Slash"),
        Token::Error => String::from_str("Error"),
    }
}

/// Whether `s` spells the word `w`.
fn is_word(s: &String, w: &str) -> (r: bool)
    ensures
        r == (s@ == w@),
{
    *s == String::from_str(w)
}

fn rel_op_of(t: &Token) -> (r: Option<BinOp>)
    ensures
        r == rel_op(t@),
{
    match t {
        Token::Eq => Some(BinOp::Eq),
        Token::Neq => Some(BinOp::Neq),
        Token::Lt => Some(BinOp::Lt),
        Token::Gt => Some(BinOp::Gt),
        Token::Lte => Some(BinOp::Lte),
        Token::Gte => Some(BinOp::Gte),
        _ => None,
    }
}

fn add_op_of(t: &Token) -> (r: Option<BinOp>)
    ensures
        r == add_op(t@),
{
    match t {
        Token::Plus => Some(BinOp::Add),
        Token::Minus => Some(BinOp::Sub),
        _ => None,
    }
}

fn mul_op_of(t: &Token) -> (r: Option<BinOp>)
    ensures
        r == mul_op(t@),
{
    match t {
        Token::Star => Some(BinOp::Mul),
        Token::Slash => Some(BinOp::Div),
        _ => None,
    }
}

/// The value of a hexadecimal literal token's text `0x...`; an error when
/// it exceeds `u64::MAX`.
fn hex_literal_value(val: &String) -> (r: Result<u64, String>)
    requires
        token_well_formed(TokenV::Hex(val@)),
    ensures
        match hex_literal(val@) {
            Ok(v) => r == Ok::<u64, String>(v),
            Err(m) => r is Err && r->Err_0@ == m,
        },
{
    let cs = chars_of(val.as_str());
    let n = cs.len();
    let mut acc: u64 = 0;
    let mut over = false;
    let mut k: usize = 2;
    while k < n
        invariant
            n == cs@.len(),
            cs@ == val@,
            2 <= k <= n,
            forall|m: int| 2 <= m < n ==> is_hex_digit(#[trigger] cs@[m]),
            !over ==> acc == hex_value(cs@.subrange(2, k as int)),
            over ==> hex_value(cs@.subrange(2, k as int)) > u64::MAX,
        decreases n - k,
    {
        let c = cs[k];
        assert(is_hex_digit(cs@[k as int]));
        let d: u64 = if c >= '0' && c <= '9' {
            (c as u32 - '0' as u32) as u64
        } else if c >= 'a' && c <= 'f' {
            (c as u32 - 'a' as u32 + 10) as u64
        } else {
            (c as u32 - 'A' as u32 + 10) as u64
        };
        assert(d == hex_digit_value(c));
        assert(cs@.subrange(2, k + 1).drop_last() =~= cs@.subrange(2, k as int));
        if !over {
            if acc > (u64::MAX - d) / 16 {
                over = true;
            } else {
                acc = acc * 16 + d;
            }
        }
        k = k + 1;
    }
    if over {
        let mut m = String::from_str("Invalid hex literal ");
        m.append(val.as_str());
        m.append(": number too large to fit in target type");
        Err(m)
    } else {
        Ok(acc)
    }
}

impl<'a> Parser<'a> {
    #[verifier::type_invariant]
    spec fn inv(&self) -> bool {
        &&& self.pos <= self.tokens@.len()
        &&& tokens_well_formed(tokens_view(self.tokens@))
    }

    /// The tokens, as the grammar reads them.
    pub closed spec fn toks(&self) -> Seq<TokenV> {
        tokens_view(self.tokens@)
    }

    /// The position of the next token.
    pub closed spec fn position(&self) -> int {
        self.pos as int
    }

    /// A parser at the first token of `source`.
    pub fn new(source: &'a str) -> (p: Self)
        ensures
            p.toks() == lex(source@),
            p.position() == 0,
    {
        let tokens = tokenize(source);
        Parser { tokens, pos: 0, _source: source }
    }

    fn peek(&self) -> (t: &Token)
        ensures
            t@ == peek(self.toks(), self.pos as int),
    {
        if self.pos < self.tokens.len() {
            &self.tokens[self.pos]
        } else {
            &Token::Error
        }
    }

    fn consume(&mut self) -> (t: Token)
        ensures
            final(self).tokens == old(self).tokens,
            t@ == peek(old(self).toks(), old(self).pos as int),
            final(self).pos == adv(old(self).toks(), old(self).pos as int),
            token_well_formed(t@),
    {
        proof {
            use_type_invariant(&*self);
        }
        let t = self.peek().clone();
        if self.pos < self.tokens.len() {
            self.pos = self.pos + 1;
        }
        t
    }

    fn expect(&mut self, expected: Token) -> (r: Result<(), CompileError>)
        requires
            plain(expected@),
        ensures
            final(self).tokens == old(self).tokens,
            final(self).pos == adv(old(self).toks(), old(self).pos as int),
            match expect(old(self).toks(), old(self).pos as int, expected@) {
                Ok(q) => r is Ok && final(self).pos == q,
                Err(m) => r is Err && r->Err_0@ == CompileErrorV::ParserError(m),
            },
    {
        let t = self.consume();
        if !same_kind(&t, &expected) {
            let mut m = String::from_str("Expected ");
            let e = debug_text(&expected);
            m.append(e.as_str());
            m.append(", found ");
            let f = debug_text(&t);
            m.append(f.as_str());
            return Err(parser_error(m));
        }
        Ok(())
    }

    /// Takes an identifier; `msg` is the error when the next token is none.
    fn take_ident(&mut self, msg: &str) -> (r: Result<String, CompileError>)
        ensures
            final(self).tokens == old(self).tokens,
            final(self).pos == adv(old(self).toks(), old(self).pos as int),
            match ident(old(self).toks(), old(self).pos as int, msg@) {
                Ok((n, q)) => r is Ok && r->Ok_0@ == n && final(self).pos == q,
                Err(m) => r is Err && r->Err_0@ == CompileErrorV::ParserError(m),
            },
    {
        match self.consume() {
            Token::Ident(n) => Ok(n),
            _ => Err(parser_error(String::from_str(msg))),
        }
    }

    fn parse_expr(&mut self) -> (r: Result<Expr, CompileError>)
        ensures
            final(self).tokens == old(self).tokens,
            old(self).pos <= final(self).pos <= final(self).tokens@.len(),
            r is Ok ==> old(self).pos < final(self).pos,
            agrees(
                r is Ok,
                r->Ok_0@,
                r->Err_0@,
                final(self).pos as int,
                p_expr(old(self).toks(), old(self).pos as int),
            ),
        decreases rem(old(self).toks(), old(self).pos as int), 10nat,
    {
        proof {
            use_type_invariant(&*self);
        }
        let ghost ts = self.toks();
        let ghost start = self.pos as int;
        let mut left = match self.parse_arith() {
            Ok(e) => e,
            Err(e) => {
                return Err(e);
            },
        };
        loop
            invariant
                self.tokens == old(self).tokens,
                ts == self.toks(),
                start == old(self).pos,
                start < self.pos <= self.tokens@.len(),
                p_expr(ts, start) == p_expr_tail(ts, self.pos as int, left@),
            decreases self.tokens@.len() - self.pos,
        {
            match rel_op_of(self.peek()) {
                None => {
                    return Ok(left);
                },
                Some(op) => {
                    self.consume();
                    let right = match self.parse_arith() {
                        Ok(e) => e,
                        Err(e) => {
                            return Err(e);
                        },
                    };
                    left = Expr::Binary(Box::new(left), op, Box::new(right));
                },
            }
        }
    }

    fn parse_arith(&mut self) -> (r: Result<Expr, CompileError>)
        ensures
            final(self).tokens == old(self).tokens,
            old(self).pos <= final(self).pos <= final(self).tokens@.len(),
            r is Ok ==> old(self).pos < final(self).pos,
            agrees(
                r is Ok,
                r->Ok_0@,
                r->Err_0@,
                final(self).pos as int,
                p_arith(old(self).toks(), old(self).pos as int),
            ),
        decreases rem(old(self).toks(), old(self).pos as int), 8nat,
    {
        proof {
            use_type_invariant(&*self);
        }
        let ghost ts = self.toks();
        let ghost start = self.pos as int;
        let mut left = match self.parse_term() {
            Ok(e) => e,
            Err(e) => {
                return Err(e);
            },
        };
        loop
            invariant
                self.tokens == old(self).tokens,
                ts == self.toks(),
                start == old(self).pos,
                start < self.pos <= self.tokens@.len(),
                p_arith(ts, start) == p_arith_tail(ts, self.pos as int, left@),
            decreases self.tokens@.len() - self.pos,
        {
            match add_op_of(self.peek()) {
                None => {
                    return Ok(left);
                },
                Some(op) => {
                    self.consume();
                    let right = match self.parse_term() {
                        Ok(e) => e,
                        Err(e) => {
                            return Err(e);
                        },
                    };
                    left = Expr::Binary(Box::new(left), op, Box::new(right));
                },
            }
        }
    }

    fn parse_term(&mut self) -> (r: Result<Expr, CompileError>)
        ensures
            final(self).tokens == old(self).tokens,
            old(self).pos <= final(self).pos <= final(self).tokens@.len(),
            r is Ok ==> old(self).pos < final(self).pos,
            agrees(
                r is Ok,
                r->Ok_0@,
                r->Err_0@,
                final(self).pos as int,
                p_term(old(self).toks(), old(self).pos as int),
            ),
        decreases rem(old(self).toks(), old(self).pos as int), 6nat,
    {
        proof {
            use_type_invariant(&*self);
        }
        let ghost ts = self.toks();
        let ghost start = self.pos as int;
        let mut left = match self.parse_postfix() {
            Ok(e) => e,
            Err(e) => {
                return Err(e);
            },
        };
        loop
            invariant
                self.tokens == old(self).tokens,
                ts == self.toks(),
                start == old(self).pos,
                start < self.pos <= self.tokens@.len(),
                p_term(ts, start) == p_term_tail(ts, self.pos as int, left@),
            decreases self.tokens@.len() - self.pos,
        {
            match mul_op_of(self.peek()) {
                None => {
                    return Ok(left);
                },
                Some(op) => {
                    self.consume();
                    let right = match self.parse_postfix() {
                        Ok(e) => e,
                        Err(e) => {
                            return Err(e);
                        },
                    };
                    left = Expr::Binary(Box::new(left), op, Box::new(right));
                },
            }
        }
    }

    fn parse_postfix(&mut self) -> (r: Result<Expr, CompileError>)
        ensures
            final(self).tokens == old(self).tokens,
            old(self).pos <= final(self).pos <= final(self).tokens@.len(),
            r is Ok ==> old(self).pos < final(self).pos,
            agrees(
                r is Ok,
                r->Ok_0@,
                r->Err_0@,
                final(self).pos as int,
                p_postfix(old(self).toks(), old(self).pos as int),
            ),
        decreases rem(old(self).toks(), old(self).pos as int), 4nat,
    {
        proof {
            use_type_invariant(&*self);
        }
        let ghost ts = self.toks();
        let ghost start = self.pos as int;
        let mut expr = match self.parse_primary() {
            Ok(e) => e,
            Err(e) => {
                return Err(e);
            },
        };
        while matches!(self.peek(), Token::Dot)
            invariant
                self.tokens == old(self).tokens,
                ts == self.toks(),
                start == old(self).pos,
                start < self.pos <= self.tokens@.len(),
                p_postfix(ts, start) == p_postfix_tail(ts, self.pos as int, expr@),
            decreases self.tokens@.len() - self.pos,
        {
            self.consume();
            let field = match self.take_ident("Expected field name after dot") {
                Ok(f) => f,
                Err(e) => {
                    return Err(e);
                },
            };
            expr = Expr::FieldAccess(Box::new(expr), field);
        }
        Ok(expr)
    }

    fn parse_primary(&mut self) -> (r: Result<Expr, CompileError>)
        ensures
            final(self).tokens == old(self).tokens,
            old(self).pos <= final(self).pos <= final(self).tokens@.len(),
            r is Ok ==> old(self).pos < final(self).pos,
            agrees(
                r is Ok,
                r->Ok_0@,
                r->Err_0@,
                final(self).pos as int,
                p_primary(old(self).toks(), old(self).pos as int),
            ),
        decreases rem(old(self).toks(), old(self).pos as int), 2nat,
    {
        proof {
            use_type_invariant(&*self);
        }
        match self.consume() {
            Token::Int(val) => Ok(Expr::Int(val)),
            Token::Hex(val) => match hex_literal_value(&val) {
                Ok(num) => Ok(Expr::Int(num)),
                Err(m) => Err(parser_error(m)),
            },
            Token::ParenOpen => {
                let expr = match self.parse_expr() {
                    Ok(e) => e,
                    Err(e) => {
                        return Err(e);
                    },
                };
                match self.expect(Token::ParenClose) {
                    Ok(()) => Ok(expr),
                    Err(e) => Err(e),
                }
            },
            Token::Ident(name) => self.parse_after_ident(name),
            Token::Storage => {
                match self.expect(Token::Colon) {
                    Ok(()) => {},
                    Err(e) => {
                        return Err(e);
                    },
                }
                match self.expect(Token::Colon) {
                    Ok(()) => {},
                    Err(e) => {
                        return Err(e);
                    },
                }
                match self.take_ident("Expected name") {
                    Ok(n) => Ok(Expr::StorageRead(n)),
                    Err(e) => Err(e),
                }
            },
            _ => Err(parser_error(String::from_str("Expected primary expression"))),
        }
    }

    /// What follows an identifier `name` just taken.
    fn parse_after_ident(&mut self, name: String) -> (r: Result<Expr, CompileError>)
        ensures
            final(self).tokens == old(self).tokens,
            old(self).pos <= final(self).pos <= final(self).tokens@.len(),
            agrees(
                r is Ok,
                r->Ok_0@,
                r->Err_0@,
                final(self).pos as int,
                p_after_ident(old(self).toks(), old(self).pos as int, name@),
            ),
        decreases rem(old(self).toks(), old(self).pos as int), 9nat,
    {
        proof {
            use_type_invariant(&*self);
        }
        if is_word(&name, "poseidon") {
            self.parse_call_args(String::from_str("poseidon"))
        } else if is_word(&name, "msg") {
            self.parse_context_call("msg")
        } else if is_word(&name, "block") {
            self.parse_context_call("block")
        } else if is_word(&name, "verify_merkle_proof") {
            self.parse_merkle()
        } else if matches!(self.peek(), Token::ParenOpen) {
            self.parse_call_args(name)
        } else if matches!(self.peek(), Token::BracketOpen) {
            self.consume();
            let key = match self.parse_expr() {
                Ok(e) => e,
                Err(e) => {
                    return Err(e);
                },
            };
            match self.expect(Token::BracketClose) {
                Ok(()) => Ok(Expr::MappingRead(name, Box::new(key))),
                Err(e) => Err(e),
            }
        } else if matches!(self.peek(), Token::BraceOpen) {
            self.consume();
            let fields = match self.parse_field_inits() {
                Ok(f) => f,
                Err(e) => {
                    return Err(e);
                },
            };
            match self.expect(Token::BraceClose) {
                Ok(()) => {
                    let e = Expr::StructLiteral(name, fields);
                    proof {
                        lemma_expr_view_lists(e);
                    }
                    Ok(e)
                },
                Err(e) => Err(e),
            }
        } else {
            Ok(Expr::Ident(name))
        }
    }

    /// `::field()` after `msg` or `block`.
    fn parse_context_call(&mut self, prefix: &str) -> (r: Result<Expr, CompileError>)
        ensures
            final(self).tokens == old(self).tokens,
            old(self).pos <= final(self).pos <= final(self).tokens@.len(),
            agrees(
                r is Ok,
                r->Ok_0@,
                r->Err_0@,
                final(self).pos as int,
                p_context_call(old(self).toks(), old(self).pos as int, prefix@),
            ),
    {
        proof {
            use_type_invariant(&*self);
        }
        match self.expect(Token::Colon) {
            Ok(()) => {},
            Err(e) => {
                return Err(e);
            },
        }
        match self.expect(Token::Colon) {
            Ok(()) => {},
            Err(e) => {
                return Err(e);
            },
        }
        let field = match self.take_ident("Expected field") {
            Ok(f) => f,
            Err(e) => {
                return Err(e);
            },
        };
        match self.expect(Token::ParenOpen) {
            Ok(()) => {},
            Err(e) => {
                return Err(e);
            },
        }
        match self.expect(Token::ParenClose) {
            Ok(()) => {},
            Err(e) => {
                return Err(e);
            },
        }
        let mut n = String::from_str(prefix);
        n.append("::");
        n.append(field.as_str());
        let e = Expr::Call(n, Vec::new());
        proof {
            lemma_expr_view_lists(e);
            assert(exprs_view(Seq::<Expr>::empty()) =~= Seq::empty());
        }
        Ok(e)
    }

    /// `(args)` after the name of a call.
    fn parse_call_args(&mut self, name: String) -> (r: Result<Expr, CompileError>)
        ensures
            final(self).tokens == old(self).tokens,
            old(self).pos <= final(self).pos <= final(self).tokens@.len(),
            agrees(
                r is Ok,
                r->Ok_0@,
                r->Err_0@,
                final(self).pos as int,
                p_call_args(old(self).toks(), old(self).pos as int, name@),
            ),
        decreases rem(old(self).toks(), old(self).pos as int), 8nat,
    {
        proof {
            use_type_invariant(&*self);
        }
        match self.expect(Token::ParenOpen) {
            Ok(()) => {},
            Err(e) => {
                return Err(e);
            },
        }
        let args = match self.parse_args() {
            Ok(a) => a,
            Err(e) => {
                return Err(e);
            },
        };
        match self.expect(Token::ParenClose) {
            Ok(()) => {
                let e = Expr::Call(name, args);
                proof {
                    lemma_expr_view_lists(e);
                }
                Ok(e)
            },
            Err(e) => Err(e),
        }
    }

    /// `(root, leaf, path)` after `verify_merkle_proof`.
    fn parse_merkle(&mut self) -> (r: Result<Expr, CompileError>)
        ensures
            final(self).tokens == old(self).tokens,
            old(self).pos <= final(self).pos <= final(self).tokens@.len(),
            agrees(
                r is Ok,
                r->Ok_0@,
                r->Err_0@,
                final(self).pos as int,
                p_merkle(old(self).toks(), old(self).pos as int),
            ),
        decreases rem(old(self).toks(), old(self).pos as int), 8nat,
    {
        proof {
            use_type_invariant(&*self);
        }
        match self.expect(Token::ParenOpen) {
            Ok(()) => {},
            Err(e) => {
                return Err(e);
            },
        }
        let root = match self.parse_expr() {
            Ok(e) => e,
            Err(e) => {
                return Err(e);
            },
        };
        match self.expect(Token::Comma) {
            Ok(()) => {},
            Err(e) => {
                return Err(e);
            },
        }
        let leaf = match self.parse_expr() {
            Ok(e) => e,
            Err(e) => {
                return Err(e);
            },
        };
        match self.expect(Token::Comma) {
            Ok(()) => {},
            Err(e) => {
                return Err(e);
            },
        }
        let path = match self.parse_expr() {
            Ok(e) => e,
            Err(e) => {
                return Err(e);
            },
        };
        match self.expect(Token::ParenClose) {
            Ok(()) => {},
            Err(e) => {
                return Err(e);
            },
        }
        let ghost (rv, lv, pv) = (root@, leaf@, path@);
        let args = vec![root, leaf, path];
        let e = Expr::Call(String::from_str("verify_merkle_proof"), args);
        proof {
            lemma_expr_view_lists(e);
            assert(exprs_view(args@) =~= seq![rv, lv, pv]);
        }
        Ok(e)
    }

    /// Expressions separated by optional commas, up to `)`.
    fn parse_args(&mut self) -> (r: Result<Vec<Expr>, CompileError>)
        ensures
            final(self).tokens == old(self).tokens,
            old(self).pos <= final(self).pos <= final(self).tokens@.len(),
            agrees(
                r is Ok,
                exprs_view(r->Ok_0@),
                r->Err_0@,
                final(self).pos as int,
                p_args(old(self).toks(), old(self).pos as int, Seq::empty()),
            ),
        decreases rem(old(self).toks(), old(self).pos as int), 11nat,
    {
        proof {
            use_type_invariant(&*self);
        }
        let ghost ts = self.toks();
        let ghost start = self.pos as int;
        let mut args: Vec<Expr> = Vec::new();
        proof {
            assert(exprs_view(args@) =~= Seq::empty());
        }
        while !matches!(self.peek(), Token::ParenClose)
            invariant
                self.tokens == old(self).tokens,
                ts == self.toks(),
                start == old(self).pos,
                start <= self.pos <= self.tokens@.len(),
                p_args(ts, start, Seq::empty()) == p_args(ts, self.pos as int, exprs_view(args@)),
            decreases self.tokens@.len() - self.pos,
        {
            let e = match self.parse_expr() {
                Ok(e) => e,
                Err(e) => {
                    return Err(e);
                },
            };
            if matches!(self.peek(), Token::Comma) {
                self.consume();
            }
            let ghost old_args = args@;
            args.push(e);
            proof {
                assert(exprs_view(args@) =~= exprs_view(old_args).push(e@));
            }
        }
        Ok(args)
    }

    /// `name: expr` pairs separated by optional commas, up to `}`.
    fn parse_field_inits(&mut self) -> (r: Result<Vec<(String, Expr)>, CompileError>)
        ensures
            final(self).tokens == old(self).tokens,
            old(self).pos <= final(self).pos <= final(self).tokens@.len(),
            agrees(
                r is Ok,
                field_inits_view(r->Ok_0@),
                r->Err_0@,
                final(self).pos as int,
                p_field_inits(old(self).toks(), old(self).pos as int, Seq::empty()),
            ),
        decreases rem(old(self).toks(), old(self).pos as int), 7nat,
    {
        proof {
            use_type_invariant(&*self);
        }
        let ghost ts = self.toks();
        let ghost start = self.pos as int;
        let mut fields: Vec<(String, Expr)> = Vec::new();
        proof {
            assert(field_inits_view(fields@) =~= Seq::empty());
        }
        while !matches!(self.peek(), Token::BraceClose)
            invariant
                self.tokens == old(self).tokens,
                ts == self.toks(),
                start == old(self).pos,
                start <= self.pos <= self.tokens@.len(),
                p_field_inits(ts, start, Seq::empty()) == p_field_inits(
                    ts,
                    self.pos as int,
                    field_inits_view(fields@),
                ),
            decreases self.tokens@.len() - self.pos,
        {
            let fname = match self.take_ident("Expected struct field name") {
                Ok(f) => f,
                Err(e) => {
                    return Err(e);
                },
            };
            match self.expect(Token::Colon) {
                Ok(()) => {},
                Err(e) => {
                    return Err(e);
                },
            }
            let val = match self.parse_expr() {
                Ok(e) => e,
                Err(e) => {
                    return Err(e);
                },
            };
            if matches!(self.peek(), Token::Comma) {
                self.consume();
            }
            let ghost old_fields = fields@;
            let ghost item = (fname@, val@);
            fields.push((fname, val));
            proof {
                assert(field_inits_view(fields@) =~= field_inits_view(old_fields).push(item));
            }
        }
        Ok(fields)
    }

    /// `expr ;`
    fn parse_expr_semi(&mut self) -> (r: Result<Expr, CompileError>)
        ensures
            final(self).tokens == old(self).tokens,
            old(self).pos <= final(self).pos <= final(self).tokens@.len(),
            r is Ok ==> old(self).pos < final(self).pos,
            agrees(
                r is Ok,
                r->Ok_0@,
                r->Err_0@,
                final(self).pos as int,
                p_expr_semi(old(self).toks(), old(self).pos as int),
            ),
    {
        proof {
            use_type_invariant(&*self);
        }
        let e = match self.parse_expr() {
            Ok(e) => e,
            Err(e) => {
                return Err(e);
            },
        };
        match self.expect(Token::Semicolon) {
            Ok(()) => Ok(e),
            Err(err) => Err(err),
        }
    }

    /// `( expr )`
    fn parse_paren_expr(&mut self) -> (r: Result<Expr, CompileError>)
        ensures
            final(self).tokens == old(self).tokens,
            old(self).pos <= final(self).pos <= final(self).tokens@.len(),
            r is Ok ==> old(self).pos < final(self).pos,
            agrees(
                r is Ok,
                r->Ok_0@,
                r->Err_0@,
                final(self).pos as int,
                p_paren_expr(old(self).toks(), old(self).pos as int),
            ),
    {
        proof {
            use_type_invariant(&*self);
        }
        match self.expect(Token::ParenOpen) {
            Ok(()) => {},
            Err(e) => {
                return Err(e);
            },
        }
        let e = match self.parse_expr() {
            Ok(e) => e,
            Err(e) => {
                return Err(e);
            },
        };
        match self.expect(Token::ParenClose) {
            Ok(()) => Ok(e),
            Err(err) => Err(err),
        }
    }

    /// Statements up to a closing brace (not taken).
    fn parse_block(&mut self) -> (r: Result<Vec<Stmt>, CompileError>)
        ensures
            final(self).tokens == old(self).tokens,
            old(self).pos <= final(self).pos <= final(self).tokens@.len(),
            agrees(
                r is Ok,
                stmts_view(r->Ok_0@),
                r->Err_0@,
                final(self).pos as int,
                p_block(old(self).toks(), old(self).pos as int, Seq::empty()),
            ),
        decreases rem(old(self).toks(), old(self).pos as int), 17nat,
    {
        proof {
            use_type_invariant(&*self);
        }
        let ghost ts = self.toks();
        let ghost start = self.pos as int;
        let mut body: Vec<Stmt> = Vec::new();
        proof {
            assert(stmts_view(body@) =~= Seq::empty());
        }
        while !matches!(self.peek(), Token::BraceClose)
            invariant
                self.tokens == old(self).tokens,
                ts == self.toks(),
                start == old(self).pos,
                start <= self.pos <= self.tokens@.len(),
                p_block(ts, start, Seq::empty()) == p_block(ts, self.pos as int, stmts_view(body@)),
            decreases self.tokens@.len() - self.pos,
        {
            let st = match self.parse_stmt() {
                Ok(st) => st,
                Err(e) => {
                    return Err(e);
                },
            };
            let ghost old_body = body@;
            let ghost sv = st@;
            body.push(st);
            proof {
                assert(stmts_view(body@) =~= stmts_view(old_body).push(sv));
            }
        }
        Ok(body)
    }

    /// `{ stmt* }`
    fn parse_braced(&mut self) -> (r: Result<Vec<Stmt>, CompileError>)
        ensures
            final(self).tokens == old(self).tokens,
            old(self).pos <= final(self).pos <= final(self).tokens@.len(),
            r is Ok ==> old(self).pos < final(self).pos,
            agrees(
                r is Ok,
                stmts_view(r->Ok_0@),
                r->Err_0@,
                final(self).pos as int,
                p_braced(old(self).toks(), old(self).pos as int),
            ),
        decreases rem(old(self).toks(), old(self).pos as int), 10nat,
    {
        proof {
            use_type_invariant(&*self);
        }
        match self.expect(Token::BraceOpen) {
            Ok(()) => {},
            Err(e) => {
                return Err(e);
            },
        }
        let body = match self.parse_block() {
            Ok(b) => b,
            Err(e) => {
                return Err(e);
            },
        };
        match self.expect(Token::BraceClose) {
            Ok(()) => Ok(body),
            Err(e) => Err(e),
        }
    }

    /// Parse one `pattern => body` arm of a `match`: the pattern is an
    /// integer literal or `_`; the body a braced block or one statement.
    fn parse_match_arm(&mut self) -> (r: Result<MatchArm, CompileError>)
        ensures
            final(self).tokens == old(self).tokens,
            old(self).pos <= final(self).pos <= final(self).tokens@.len(),
            r is Ok ==> old(self).pos < final(self).pos,
            agrees(
                r is Ok,
                r->Ok_0@,
                r->Err_0@,
                final(self).pos as int,
                p_arm(old(self).toks(), old(self).pos as int),
            ),
        decreases rem(old(self).toks(), old(self).pos as int), 13nat,
    {
        proof {
            use_type_invariant(&*self);
        }
        let pattern = match self.peek() {
            Token::Ident(name) => {
                if is_word(name, "_") {
                    MatchPattern::Wildcard
                } else {
                    return Err(
                        parser_error(
                            String::from_str("match arm pattern must be an integer literal or '_'"),
                        ),
                    );
                }
            },
            Token::Int(val) => MatchPattern::IntLit(*val),
            _ => {
                return Err(
                    parser_error(
                        String::from_str("match arm pattern must be an integer literal or '_'"),
                    ),
                );
            },
        };
        self.consume();
        match self.expect(Token::FatArrow) {
            Ok(()) => {},
            Err(e) => {
                return Err(e);
            },
        }
        if matches!(self.peek(), Token::BraceOpen) {
            let body = match self.parse_braced() {
                Ok(b) => b,
                Err(e) => {
                    return Err(e);
                },
            };
            Ok(MatchArm { pattern, body })
        } else {
            let st = match self.parse_stmt() {
                Ok(st) => st,
                Err(e) => {
                    return Err(e);
                },
            };
            let ghost sv = st@;
            let body = vec![st];
            proof {
                assert(stmts_view(body@) =~= seq![sv]);
            }
            Ok(MatchArm { pattern, body })
        }
    }

    /// The arms of a `match`, `arm (, arm)* [,]`, up to the closing brace
    /// (not taken); a comma with no arm before it is refused.
    fn parse_arms(&mut self) -> (r: Result<Vec<MatchArm>, CompileError>)
        ensures
            final(self).tokens == old(self).tokens,
            old(self).pos <= final(self).pos <= final(self).tokens@.len(),
            agrees(
                r is Ok,
                arms_view(r->Ok_0@),
                r->Err_0@,
                final(self).pos as int,
                p_arms(old(self).toks(), old(self).pos as int, Seq::empty()),
            ),
        decreases rem(old(self).toks(), old(self).pos as int), 14nat,
    {
        proof {
            use_type_invariant(&*self);
        }
        let ghost ts = self.toks();
        let ghost start = self.pos as int;
        let mut arms: Vec<MatchArm> = Vec::new();
        proof {
            assert(arms_view(arms@) =~= Seq::empty());
        }
        loop
            invariant
                self.tokens == old(self).tokens,
                ts == self.toks(),
                start == old(self).pos,
                start <= self.pos <= self.tokens@.len(),
                p_arms(ts, start, Seq::empty()) == p_arms(ts, self.pos as int, arms_view(arms@)),
            decreases self.tokens@.len() - self.pos,
        {
            if matches!(self.peek(), Token::BraceClose) {
                return Ok(arms);
            }
            let arm = match self.parse_match_arm() {
                Ok(a) => a,
                Err(e) => {
                    return Err(e);
                },
            };
            let ghost old_arms = arms@;
            let ghost av = arm@;
            arms.push(arm);
            proof {
                assert(arms_view(arms@) =~= arms_view(old_arms).push(av));
            }
            if matches!(self.peek(), Token::Comma) {
                self.consume();
            } else if matches!(self.peek(), Token::BraceClose) {
                return Ok(arms);
            } else {
                return Err(parser_error(String::from_str("expected ',' or '}' after match arm")));
            }
        }
    }


    /// `let name = expr;` after `let`.
    fn parse_let(&mut self) -> (r: Result<Stmt, CompileError>)
        ensures
            final(self).tokens == old(self).tokens,
            old(self).pos <= final(self).pos <= final(self).tokens@.len(),
            r is Ok ==> old(self).pos < final(self).pos,
            agrees(
                r is Ok,
                r->Ok_0@,
                r->Err_0@,
                final(self).pos as int,
                p_let(old(self).toks(), old(self).pos as int),
            ),
    {
        proof {
            use_type_invariant(&*self);
            reveal(p_let);
        }
        let name = match self.take_ident("Expected identifier after let") {
            Ok(x) => x,
            Err(e) => {
                return Err(e);
            },
        };
        match self.expect(Token::Assign) {
            Ok(()) => {},
            Err(e) => {
                return Err(e);
            },
        }
        let e = match self.parse_expr_semi() {
            Ok(x) => x,
            Err(e) => {
                return Err(e);
            },
        };
        Ok(Stmt::Let(name, e))
    }

    /// `(expr);` after `constrain`.
    fn parse_constrain(&mut self) -> (r: Result<Stmt, CompileError>)
        ensures
            final(self).tokens == old(self).tokens,
            old(self).pos <= final(self).pos <= final(self).tokens@.len(),
            r is Ok ==> old(self).pos < final(self).pos,
            agrees(
                r is Ok,
                r->Ok_0@,
                r->Err_0@,
                final(self).pos as int,
                p_constrain(old(self).toks(), old(self).pos as int),
            ),
    {
        proof {
            use_type_invariant(&*self);
            reveal(p_constrain);
        }
        let e = match self.parse_paren_expr() {
            Ok(x) => x,
            Err(e) => {
                return Err(e);
            },
        };
        match self.expect(Token::Semicolon) {
            Ok(()) => {},
            Err(e) => {
                return Err(e);
            },
        }
        Ok(Stmt::Constrain(e))
    }

    /// `::name = expr;` after `storage`.
    fn parse_storage_write(&mut self) -> (r: Result<Stmt, CompileError>)
        ensures
            final(self).tokens == old(self).tokens,
            old(self).pos <= final(self).pos <= final(self).tokens@.len(),
            r is Ok ==> old(self).pos < final(self).pos,
            agrees(
                r is Ok,
                r->Ok_0@,
                r->Err_0@,
                final(self).pos as int,
                p_storage_write(old(self).toks(), old(self).pos as int),
            ),
    {
        proof {
            use_type_invariant(&*self);
            reveal(p_storage_write);
        }
        match self.expect(Token::Colon) {
            Ok(()) => {},
            Err(e) => {
                return Err(e);
            },
        }
        match self.expect(Token::Colon) {
            Ok(()) => {},
            Err(e) => {
                return Err(e);
            },
        }
        let name = match self.take_ident("Expected name") {
            Ok(x) => x,
            Err(e) => {
                return Err(e);
            },
        };
        match self.expect(Token::Assign) {
            Ok(()) => {},
            Err(e) => {
                return Err(e);
            },
        }
        let e = match self.parse_expr_semi() {
            Ok(x) => x,
            Err(e) => {
                return Err(e);
            },
        };
        Ok(Stmt::StorageWrite(name, e))
    }

    /// `(cond) { ... }` and an optional `else { ... }` after `if`.
    fn parse_if(&mut self) -> (r: Result<Stmt, CompileError>)
        ensures
            final(self).tokens == old(self).tokens,
            old(self).pos <= final(self).pos <= final(self).tokens@.len(),
            r is Ok ==> old(self).pos < final(self).pos,
            agrees(
                r is Ok,
                r->Ok_0@,
                r->Err_0@,
                final(self).pos as int,
                p_if(old(self).toks(), old(self).pos as int),
            ),
        decreases rem(old(self).toks(), old(self).pos as int), 12nat,
    {
        proof {
            use_type_invariant(&*self);
        }
        let cond = match self.parse_paren_expr() {
            Ok(x) => x,
            Err(e) => {
                return Err(e);
            },
        };
        let then_branch = match self.parse_braced() {
            Ok(x) => x,
            Err(e) => {
                return Err(e);
            },
        };
        let mut else_branch = None;
        if matches!(self.peek(), Token::Else) {
            self.consume();
            let eb = match self.parse_braced() {
            Ok(x) => x,
            Err(e) => {
                return Err(e);
            },
        };
            else_branch = Some(eb);
        }
        let st = Stmt::If(cond, then_branch, else_branch);
        proof {
            lemma_stmt_view_lists(st);
        }
        Ok(st)
    }

    /// `(cond) { ... }` after `while`.
    fn parse_while(&mut self) -> (r: Result<Stmt, CompileError>)
        ensures
            final(self).tokens == old(self).tokens,
            old(self).pos <= final(self).pos <= final(self).tokens@.len(),
            r is Ok ==> old(self).pos < final(self).pos,
            agrees(
                r is Ok,
                r->Ok_0@,
                r->Err_0@,
                final(self).pos as int,
                p_while(old(self).toks(), old(self).pos as int),
            ),
        decreases rem(old(self).toks(), old(self).pos as int), 12nat,
    {
        proof {
            use_type_invariant(&*self);
        }
        let cond = match self.parse_paren_expr() {
            Ok(x) => x,
            Err(e) => {
                return Err(e);
            },
        };
        let body = match self.parse_braced() {
            Ok(x) => x,
            Err(e) => {
                return Err(e);
            },
        };
        let st = Stmt::While(cond, body);
        proof {
            lemma_stmt_view_lists(st);
        }
        Ok(st)
    }

    /// `(scrutinee) { arms };` after `match`: a match is a statement and
    /// ends with a semicolon, like the other block forms.
    fn parse_match_stmt(&mut self) -> (r: Result<Stmt, CompileError>)
        ensures
            final(self).tokens == old(self).tokens,
            old(self).pos <= final(self).pos <= final(self).tokens@.len(),
            r is Ok ==> old(self).pos < final(self).pos,
            agrees(
                r is Ok,
                r->Ok_0@,
                r->Err_0@,
                final(self).pos as int,
                p_match_stmt(old(self).toks(), old(self).pos as int),
            ),
        decreases rem(old(self).toks(), old(self).pos as int), 15nat,
    {
        proof {
            use_type_invariant(&*self);
        }
        let scrutinee = match self.parse_paren_expr() {
            Ok(x) => x,
            Err(e) => {
                return Err(e);
            },
        };
        match self.expect(Token::BraceOpen) {
            Ok(()) => {},
            Err(e) => {
                return Err(e);
            },
        }
        let arms = match self.parse_arms() {
            Ok(x) => x,
            Err(e) => {
                return Err(e);
            },
        };
        match self.expect(Token::BraceClose) {
            Ok(()) => {},
            Err(e) => {
                return Err(e);
            },
        }
        match self.expect(Token::Semicolon) {
            Ok(()) => {},
            Err(e) => {
                return Err(e);
            },
        }
        let st = Stmt::Match { scrutinee, arms };
        proof {
            lemma_stmt_view_lists(st);
        }
        Ok(st)
    }

    /// `var in start..end { ... }` after `for`.
    fn parse_for(&mut self) -> (r: Result<Stmt, CompileError>)
        ensures
            final(self).tokens == old(self).tokens,
            old(self).pos <= final(self).pos <= final(self).tokens@.len(),
            r is Ok ==> old(self).pos < final(self).pos,
            agrees(
                r is Ok,
                r->Ok_0@,
                r->Err_0@,
                final(self).pos as int,
                p_for(old(self).toks(), old(self).pos as int),
            ),
        decreases rem(old(self).toks(), old(self).pos as int), 12nat,
    {
        proof {
            use_type_invariant(&*self);
        }
        let var = match self.take_ident("Expected loop variable after for") {
            Ok(x) => x,
            Err(e) => {
                return Err(e);
            },
        };
        match self.expect(Token::In) {
            Ok(()) => {},
            Err(e) => {
                return Err(e);
            },
        }
        let start = match self.parse_expr() {
            Ok(x) => x,
            Err(e) => {
                return Err(e);
            },
        };
        match self.expect(Token::DotDot) {
            Ok(()) => {},
            Err(e) => {
                return Err(e);
            },
        }
        let end = match self.parse_expr() {
            Ok(x) => x,
            Err(e) => {
                return Err(e);
            },
        };
        let body = match self.parse_braced() {
            Ok(x) => x,
            Err(e) => {
                return Err(e);
            },
        };
        let st = Stmt::For { var, start, end, body };
        proof {
            lemma_stmt_view_lists(st);
        }
        Ok(st)
    }

    /// `expr? ;` after `return`.
    fn parse_return(&mut self) -> (r: Result<Stmt, CompileError>)
        ensures
            final(self).tokens == old(self).tokens,
            old(self).pos <= final(self).pos <= final(self).tokens@.len(),
            r is Ok ==> old(self).pos < final(self).pos,
            agrees(
                r is Ok,
                r->Ok_0@,
                r->Err_0@,
                final(self).pos as int,
                p_return(old(self).toks(), old(self).pos as int),
            ),
    {
        proof {
            use_type_invariant(&*self);
            reveal(p_return);
        }
        if !matches!(self.peek(), Token::Semicolon) {
            let e = match self.parse_expr_semi() {
            Ok(x) => x,
            Err(e) => {
                return Err(e);
            },
        };
            Ok(Stmt::Return(Some(e)))
        } else {
            self.consume();
            Ok(Stmt::Return(None))
        }
    }

    /// `Name(args);` after `emit`.
    fn parse_emit(&mut self) -> (r: Result<Stmt, CompileError>)
        ensures
            final(self).tokens == old(self).tokens,
            old(self).pos <= final(self).pos <= final(self).tokens@.len(),
            r is Ok ==> old(self).pos < final(self).pos,
            agrees(
                r is Ok,
                r->Ok_0@,
                r->Err_0@,
                final(self).pos as int,
                p_emit(old(self).toks(), old(self).pos as int),
            ),
    {
        proof {
            use_type_invariant(&*self);
            reveal(p_emit);
        }
        let event_name = match self.take_ident("Expected event name") {
            Ok(x) => x,
            Err(e) => {
                return Err(e);
            },
        };
        match self.expect(Token::ParenOpen) {
            Ok(()) => {},
            Err(e) => {
                return Err(e);
            },
        }
        let args = match self.parse_args() {
            Ok(x) => x,
            Err(e) => {
                return Err(e);
            },
        };
        match self.expect(Token::ParenClose) {
            Ok(()) => {},
            Err(e) => {
                return Err(e);
            },
        }
        match self.expect(Token::Semicolon) {
            Ok(()) => {},
            Err(e) => {
                return Err(e);
            },
        }
        let st = Stmt::Emit(event_name, args);
        proof {
            lemma_stmt_view_lists(st);
        }
        Ok(st)
    }

    /// `[key] = value;` or `= value;` after the name that starts a statement.
    fn parse_assignment(&mut self, name: String) -> (r: Result<Stmt, CompileError>)
        ensures
            final(self).tokens == old(self).tokens,
            old(self).pos <= final(self).pos <= final(self).tokens@.len(),
            r is Ok ==> old(self).pos < final(self).pos,
            agrees(
                r is Ok,
                r->Ok_0@,
                r->Err_0@,
                final(self).pos as int,
                p_assignment(old(self).toks(), old(self).pos as int, name@),
            ),
    {
        proof {
            use_type_invariant(&*self);
            reveal(p_assignment);
        }
        if matches!(self.peek(), Token::BracketOpen) {
            self.consume();
            let key = match self.parse_expr() {
            Ok(x) => x,
            Err(e) => {
                return Err(e);
            },
        };
            match self.expect(Token::BracketClose) {
            Ok(()) => {},
            Err(e) => {
                return Err(e);
            },
        }
            match self.expect(Token::Assign) {
            Ok(()) => {},
            Err(e) => {
                return Err(e);
            },
        }
            let val = match self.parse_expr_semi() {
            Ok(x) => x,
            Err(e) => {
                return Err(e);
            },
        };
            Ok(Stmt::MappingWrite(name, key, val))
        } else {
            match self.expect(Token::Assign) {
            Ok(()) => {},
            Err(e) => {
                return Err(e);
            },
        }
            let e = match self.parse_expr_semi() {
            Ok(x) => x,
            Err(e) => {
                return Err(e);
            },
        };
            Ok(Stmt::Assign(name, e))
        }
    }

    fn parse_stmt(&mut self) -> (r: Result<Stmt, CompileError>)
        ensures
            final(self).tokens == old(self).tokens,
            old(self).pos <= final(self).pos <= final(self).tokens@.len(),
            r is Ok ==> old(self).pos < final(self).pos,
            agrees(
                r is Ok,
                r->Ok_0@,
                r->Err_0@,
                final(self).pos as int,
                p_stmt(old(self).toks(), old(self).pos as int),
            ),
        decreases rem(old(self).toks(), old(self).pos as int), 16nat,
    {
        proof {
            use_type_invariant(&*self);
        }
        match self.peek() {
            Token::Let => {
                self.consume();
                self.parse_let()
            },
            Token::Constrain => {
                self.consume();
                self.parse_constrain()
            },
            Token::Storage => {
                self.consume();
                self.parse_storage_write()
            },
            Token::If => {
                self.consume();
                self.parse_if()
            },
            Token::While => {
                self.consume();
                self.parse_while()
            },
            Token::Match => {
                self.consume();
                self.parse_match_stmt()
            },
            Token::For => {
                self.consume();
                self.parse_for()
            },
            Token::Return => {
                self.consume();
                self.parse_return()
            },
            Token::Ident(name) => {
                if is_word(name, "emit") {
                    self.consume();
                    self.parse_emit()
                } else {
                    let name = name.clone();
                    self.consume();
                    self.parse_assignment(name)
                }
            },
            _ => {
                let e = match self.parse_expr_semi() {
            Ok(x) => x,
            Err(e) => {
                return Err(e);
            },
        };
                Ok(Stmt::Expr(e))
            },
        }
    }

    /// A field's type: a name, or `Map<key, value>` written `Map<key,value>`.
    fn parse_field_type(&mut self) -> (r: Result<String, CompileError>)
        ensures
            final(self).tokens == old(self).tokens,
            old(self).pos <= final(self).pos <= final(self).tokens@.len(),
            r is Ok ==> old(self).pos < final(self).pos,
            agrees(
                r is Ok,
                r->Ok_0@,
                r->Err_0@,
                final(self).pos as int,
                p_field_type(old(self).toks(), old(self).pos as int),
            ),
    {
        proof {
            use_type_invariant(&*self);
        }
        let ty = match self.take_ident("Expected type") {
            Ok(x) => x,
            Err(e) => {
                return Err(e);
            },
        };
        if is_word(&ty, "Map") {
            match self.expect(Token::Lt) {
                Ok(()) => {},
                Err(e) => {
                    return Err(e);
                },
            }
            let k = match self.take_ident("Expected map key type") {
                Ok(x) => x,
                Err(e) => {
                    return Err(e);
                },
            };
            match self.expect(Token::Comma) {
                Ok(()) => {},
                Err(e) => {
                    return Err(e);
                },
            }
            let v = match self.take_ident("Expected map value type") {
                Ok(x) => x,
                Err(e) => {
                    return Err(e);
                },
            };
            match self.expect(Token::Gt) {
                Ok(()) => {},
                Err(e) => {
                    return Err(e);
                },
            }
            let mut m = String::from_str("Map<");
            m.append(k.as_str());
            m.append(",");
            m.append(v.as_str());
            m.append(">");
            Ok(m)
        } else {
            Ok(ty)
        }
    }

    /// `{ name: type, ... }` after `storage`; the fields are appended to
    /// `storage`.
    fn parse_storage_block(&mut self, storage: &mut Vec<StorageField>) -> (r: Result<
        (),
        CompileError,
    >)
        ensures
            final(self).tokens == old(self).tokens,
            old(self).pos <= final(self).pos <= final(self).tokens@.len(),
            r is Ok ==> old(self).pos < final(self).pos,
            match p_storage_block(
                old(self).toks(),
                old(self).pos as int,
                fields_view(old(storage)@),
            ) {
                Ok((st, q)) => r is Ok && fields_view(final(storage)@) == st && final(self).pos
                    == q,
                Err(m) => r is Err && r->Err_0@ == CompileErrorV::ParserError(m),
            },
    {
        proof {
            use_type_invariant(&*self);
        }
        let ghost ts = self.toks();
match self.expect(Token::BraceOpen) {
            Ok(()) => {},
            Err(e) => {
                return Err(e);
            },
        }
        let ghost start = self.pos as int;
        let ghost st0 = fields_view(storage@);
        while !matches!(self.peek(), Token::BraceClose)
            invariant
                self.tokens == old(self).tokens,
                ts == self.toks(),
                old(self).pos < start <= self.pos <= self.tokens@.len(),
                expect(ts, old(self).pos as int, TokenV::BraceOpen) == Ok::<int, Seq<char>>(start),
                st0 == fields_view(old(storage)@),
                p_storage_fields(ts, start, st0) == p_storage_fields(
                    ts,
                    self.pos as int,
                    fields_view(storage@),
                ),
            decreases self.tokens@.len() - self.pos,
        {
            let name = match self.take_ident("Expected name") {
                Ok(x) => x,
                Err(e) => {
                    return Err(e);
                },
            };
            match self.expect(Token::Colon) {
                Ok(()) => {},
                Err(e) => {
                    return Err(e);
                },
            }
            let ty = match self.parse_field_type() {
                Ok(x) => x,
                Err(e) => {
                    return Err(e);
                },
            };
            match self.expect(Token::Comma) {
                Ok(()) => {},
                Err(e) => {
                    return Err(e);
                },
            }
            let ghost old_st = storage@;
            let f = StorageField { name, ty };
            let ghost fv = crate::ast::field_view(f);
            storage.push(f);
            proof {
                assert(fields_view(storage@) =~= fields_view(old_st).push(fv));
            }
        }
        match self.expect(Token::BraceClose) {
            Ok(()) => {},
            Err(e) => {
                return Err(e);
            },
        }
        Ok(())
    }

    /// `Name { name: type, ... }` after `struct`.
    fn parse_struct_decl(&mut self) -> (r: Result<Struct, CompileError>)
        ensures
            final(self).tokens == old(self).tokens,
            old(self).pos <= final(self).pos <= final(self).tokens@.len(),
            r is Ok ==> old(self).pos < final(self).pos,
            agrees(
                r is Ok,
                crate::ast::struct_view(r->Ok_0),
                r->Err_0@,
                final(self).pos as int,
                p_struct_decl(old(self).toks(), old(self).pos as int),
            ),
    {
        proof {
            use_type_invariant(&*self);
        }
        let ghost ts = self.toks();
        let name = match self.take_ident("Expected name") {
            Ok(x) => x,
            Err(e) => {
                return Err(e);
            },
        };
        match self.expect(Token::BraceOpen) {
            Ok(()) => {},
            Err(e) => {
                return Err(e);
            },
        }
        let ghost start = self.pos as int;
        let mut fields: Vec<StorageField> = Vec::new();
        proof {
            assert(fields_view(fields@) =~= Seq::empty());
        }
        while !matches!(self.peek(), Token::BraceClose)
            invariant
                self.tokens == old(self).tokens,
                ts == self.toks(),
                old(self).pos < start <= self.pos <= self.tokens@.len(),
                ident(ts, old(self).pos as int, "Expected name"@) == Ok::<(Seq<char>, int), Seq<char>>(
                    (name@, start - 1),
                ),
                expect(ts, start - 1, TokenV::BraceOpen) == Ok::<int, Seq<char>>(start),
                p_struct_fields(ts, start, Seq::empty()) == p_struct_fields(
                    ts,
                    self.pos as int,
                    fields_view(fields@),
                ),
            decreases self.tokens@.len() - self.pos,
        {
            let fname = match self.take_ident("Expected name") {
                Ok(x) => x,
                Err(e) => {
                    return Err(e);
                },
            };
            match self.expect(Token::Colon) {
                Ok(()) => {},
                Err(e) => {
                    return Err(e);
                },
            }
            let fty = match self.take_ident("Expected type") {
                Ok(x) => x,
                Err(e) => {
                    return Err(e);
                },
            };
            match self.expect(Token::Comma) {
                Ok(()) => {},
                Err(e) => {
                    return Err(e);
                },
            }
            let ghost old_fields = fields@;
            let f = StorageField { name: fname, ty: fty };
            let ghost fv = crate::ast::field_view(f);
            fields.push(f);
            proof {
                assert(fields_view(fields@) =~= fields_view(old_fields).push(fv));
            }
        }
        match self.expect(Token::BraceClose) {
            Ok(()) => {},
            Err(e) => {
                return Err(e);
            },
        }
        Ok(Struct { name, fields })
    }

    /// `name: type` parameters, each optionally followed by a comma, up to
    /// `)` (not taken).
    fn parse_params(&mut self) -> (r: Result<Vec<Param>, CompileError>)
        ensures
            final(self).tokens == old(self).tokens,
            old(self).pos <= final(self).pos <= final(self).tokens@.len(),
            agrees(
                r is Ok,
                params_view(r->Ok_0@),
                r->Err_0@,
                final(self).pos as int,
                p_params(old(self).toks(), old(self).pos as int, Seq::empty()),
            ),
    {
        proof {
            use_type_invariant(&*self);
        }
        let ghost ts = self.toks();
        let ghost start = self.pos as int;
        let mut params: Vec<Param> = Vec::new();
        proof {
            assert(params_view(params@) =~= Seq::empty());
        }
        while !matches!(self.peek(), Token::ParenClose)
            invariant
                self.tokens == old(self).tokens,
                ts == self.toks(),
                start == old(self).pos,
                start <= self.pos <= self.tokens@.len(),
                p_params(ts, start, Seq::empty()) == p_params(
                    ts,
                    self.pos as int,
                    params_view(params@),
                ),
            decreases self.tokens@.len() - self.pos,
        {
            let name = match self.take_ident("Expected param name") {
                Ok(x) => x,
                Err(e) => {
                    return Err(e);
                },
            };
            match self.expect(Token::Colon) {
                Ok(()) => {},
                Err(e) => {
                    return Err(e);
                },
            }
            let ty = match self.take_ident("Expected param type") {
                Ok(x) => x,
                Err(e) => {
                    return Err(e);
                },
            };
            let ghost old_params = params@;
            let ghost pv = crate::ast::FieldV { name: name@, ty: ty@ };
            params.push(Param { name, ty });
            proof {
                assert(params_view(params@) =~= params_view(old_params).push(pv));
            }
            if matches!(self.peek(), Token::Comma) {
                self.consume();
            }
        }
        Ok(params)
    }

    fn parse_function(&mut self) -> (r: Result<Function, CompileError>)
        ensures
            final(self).tokens == old(self).tokens,
            old(self).pos <= final(self).pos <= final(self).tokens@.len(),
            r is Ok ==> old(self).pos < final(self).pos,
            agrees(
                r is Ok,
                crate::ast::function_view(r->Ok_0),
                r->Err_0@,
                final(self).pos as int,
                p_function(old(self).toks(), old(self).pos as int),
            ),
    {
        proof {
            use_type_invariant(&*self);
        }
        let is_pub = if matches!(self.peek(), Token::Pub) {
            self.consume();
            true
        } else {
            false
        };
        match self.expect(Token::Fn) {
            Ok(()) => {},
            Err(e) => {
                return Err(e);
            },
        }
        let name = match self.take_ident("Expected function name") {
            Ok(x) => x,
            Err(e) => {
                return Err(e);
            },
        };
        match self.expect(Token::ParenOpen) {
            Ok(()) => {},
            Err(e) => {
                return Err(e);
            },
        }
        let params = match self.parse_params() {
            Ok(x) => x,
            Err(e) => {
                return Err(e);
            },
        };
        match self.expect(Token::ParenClose) {
            Ok(()) => {},
            Err(e) => {
                return Err(e);
            },
        }
        let mut return_type = None;
        if matches!(self.peek(), Token::Arrow) {
            self.consume();
            let ty = match self.take_ident("Expected return type") {
                Ok(x) => x,
                Err(e) => {
                    return Err(e);
                },
            };
            return_type = Some(ty);
        }
        let body = match self.parse_braced() {
            Ok(x) => x,
            Err(e) => {
                return Err(e);
            },
        };
        Ok(Function { name, params, return_type, body, is_pub })
    }

    /// Parses a whole contract: `contract Name { ... }` holding `storage`
    /// blocks, `struct` declarations and functions in any order.
    pub fn parse_contract(&mut self) -> (r: Result<Contract, CompileError>)
        ensures
            final(self).toks() == old(self).toks(),
            match p_contract(old(self).toks(), old(self).position()) {
                Ok((c, q)) => r is Ok && r->Ok_0@ == c && final(self).position() == q,
                Err(m) => r is Err && r->Err_0@ == CompileErrorV::ParserError(m),
            },
    {
        proof {
            use_type_invariant(&*self);
        }
        let ghost ts = self.toks();
        match self.expect(Token::Contract) {
            Ok(()) => {},
            Err(e) => {
                return Err(e);
            },
        }
        let name = match self.take_ident("Expected contract name") {
            Ok(x) => x,
            Err(e) => {
                return Err(e);
            },
        };
        match self.expect(Token::BraceOpen) {
            Ok(()) => {},
            Err(e) => {
                return Err(e);
            },
        }
        let ghost start = self.pos as int;
        let mut functions: Vec<Function> = Vec::new();
        let mut storage: Vec<StorageField> = Vec::new();
        let mut structs: Vec<Struct> = Vec::new();
        proof {
            assert(functions_view(functions@) =~= Seq::empty());
            assert(fields_view(storage@) =~= Seq::empty());
            assert(structs_view(structs@) =~= Seq::empty());
        }
        while !matches!(self.peek(), Token::BraceClose)
            invariant
                self.tokens == old(self).tokens,
                ts == self.toks(),
                start <= self.pos <= self.tokens@.len(),
                expect(ts, old(self).pos as int, TokenV::Contract) == Ok::<int, Seq<char>>(start - 2),
                ident(ts, start - 2, "Expected contract name"@) == Ok::<(Seq<char>, int), Seq<char>>(
                    (name@, start - 1),
                ),
                expect(ts, start - 1, TokenV::BraceOpen) == Ok::<int, Seq<char>>(start),
                p_items(ts, start, Seq::empty(), Seq::empty(), Seq::empty()) == p_items(
                    ts,
                    self.pos as int,
                    fields_view(storage@),
                    structs_view(structs@),
                    functions_view(functions@),
                ),
            decreases self.tokens@.len() - self.pos,
        {
            if matches!(self.peek(), Token::Storage) {
                self.consume();
                match self.parse_storage_block(&mut storage) {
                    Ok(()) => {},
                    Err(e) => {
                        return Err(e);
                    },
                }
            } else if matches!(self.peek(), Token::Struct) {
                self.consume();
                let sd = match self.parse_struct_decl() {
                    Ok(x) => x,
                    Err(e) => {
                        return Err(e);
                    },
                };
                let ghost old_structs = structs@;
                let ghost sv = crate::ast::struct_view(sd);
                structs.push(sd);
                proof {
                    assert(structs_view(structs@) =~= structs_view(old_structs).push(sv));
                }
            } else {
                let f = match self.parse_function() {
                    Ok(x) => x,
                    Err(e) => {
                        return Err(e);
                    },
                };
                let ghost old_functions = functions@;
                let ghost fv = crate::ast::function_view(f);
                functions.push(f);
                proof {
                    assert(functions_view(functions@) =~= functions_view(old_functions).push(fv));
                }
            }
        }
        match self.expect(Token::BraceClose) {
            Ok(()) => {},
            Err(e) => {
                return Err(e);
            },
        }
        Ok(Contract { name, storage, structs, functions })
    }
}

} // verus!
