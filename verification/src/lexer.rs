//! Tokens of BudL and the lexer that turns source text into them.
//!
//! The lexer skips white space (space, tab, line feed, carriage return,
//! form feed) and `//` line comments, and otherwise takes the longest token
//! that starts at the current character: keywords and identifiers
//! (`[A-Za-z_][A-Za-z0-9_]*`), hexadecimal literals (`0x` and hex digits),
//! decimal literals (a decimal literal above `u64::MAX` is an `Error` token),
//! and the punctuation below. Any other character is one `Error` token.
use vstd::prelude::*;

verus! {

#[derive(Debug, PartialEq, Eq)]
pub enum Token {
    Contract,
    Storage,
    Struct,
    Pub,
    Fn,
    Let,
    Constrain,
    If,
    Else,
    While,
    Match,
    For,
    In,
    Return,
    Ident(String),
    Int(u64),
    Hex(String),
    BraceOpen,
    BraceClose,
    ParenOpen,
    ParenClose,
    BracketOpen,
    BracketClose,
    Colon,
    Semicolon,
    Comma,
    Dot,
    DotDot,
    Arrow,
    FatArrow,
    Assign,
    Eq,
    Neq,
    Lt,
    Gt,
    Lte,
    Gte,
    Plus,
    Minus,
    Star,
    Slash,
    Error,
}

/// The model of a token: the token with its text as characters.
pub enum TokenV {
    Contract,
    Storage,
    Struct,
    Pub,
    Fn,
    Let,
    Constrain,
    If,
    Else,
    While,
    Match,
    For,
    In,
    Return,
    Ident(Seq<char>),
    Int(u64),
    Hex(Seq<char>),
    BraceOpen,
    BraceClose,
    ParenOpen,
    ParenClose,
    BracketOpen,
    BracketClose,
    Colon,
    Semicolon,
    Comma,
    Dot,
    DotDot,
    Arrow,
    FatArrow,
    Assign,
    Eq,
    Neq,
    Lt,
    Gt,
    Lte,
    Gte,
    Plus,
    Minus,
    Star,
    Slash,
    Error,
}

impl View for Token {
    type V = TokenV;

    open spec fn view(&self) -> TokenV {
        match self {
            Token::Contract => TokenV::Contract,
            Token::Storage => TokenV::Storage,
            Token::Struct => TokenV::Struct,
            Token::Pub => TokenV::Pub,
            Token::Fn => TokenV::Fn,
            Token::Let => TokenV::Let,
            Token::Constrain => TokenV::Constrain,
            Token::If => TokenV::If,
            Token::Else => TokenV::Else,
            Token::While => TokenV::While,
            Token::Match => TokenV::Match,
            Token::For => TokenV::For,
            Token::In => TokenV::In,
            Token::Return => TokenV::Return,
            Token::Ident(s) => TokenV::Ident(s@),
            Token::Int(n) => TokenV::Int(*n),
            Token::Hex(s) => TokenV::Hex(s@),
            Token::BraceOpen => TokenV::BraceOpen,
            Token::BraceClose => TokenV::BraceClose,
            Token::ParenOpen => TokenV::ParenOpen,
            Token::ParenClose => TokenV::ParenClose,
            Token::BracketOpen => TokenV::BracketOpen,
            Token::BracketClose => TokenV::BracketClose,
            Token::Colon => TokenV::Colon,
            Token::Semicolon => TokenV::Semicolon,
            Token::Comma => TokenV::Comma,
            Token::Dot => TokenV::Dot,
            Token::DotDot => TokenV::DotDot,
            Token::Arrow => TokenV::Arrow,
            Token::FatArrow => TokenV::FatArrow,
            Token::Assign => TokenV::Assign,
            Token::Eq => TokenV::Eq,
            Token::Neq => TokenV::Neq,
            Token::Lt => TokenV::Lt,
            Token::Gt => TokenV::Gt,
            Token::Lte => TokenV::Lte,
            Token::Gte => TokenV::Gte,
            Token::Plus => TokenV::Plus,
            Token::Minus => TokenV::Minus,
            Token::Star => TokenV::Star,
            Token::Slash => TokenV::Slash,
            Token::Error => TokenV::Error,
        }
    }
}

impl Clone for Token {
    fn clone(&self) -> (r: Self)
        ensures
            r == *self,
    {
        match self {
            Token::Ident(s) => Token::Ident(s.clone()),
            Token::Hex(s) => Token::Hex(s.clone()),
            Token::Int(n) => Token::Int(*n),
            Token::Contract => Token::Contract,
            Token::Storage => Token::Storage,
            Token::Struct => Token::Struct,
            Token::Pub => Token::Pub,
            Token::Fn => Token::Fn,
            Token::Let => Token::Let,
            Token::Constrain => Token::Constrain,
            Token::If => Token::If,
            Token::Else => Token::Else,
            Token::While => Token::While,
            Token::Match => Token::Match,
            Token::For => Token::For,
            Token::In => Token::In,
            Token::Return => Token::Return,
            Token::BraceOpen => Token::BraceOpen,
            Token::BraceClose => Token::BraceClose,
            Token::ParenOpen => Token::ParenOpen,
            Token::ParenClose => Token::ParenClose,
            Token::BracketOpen => Token::BracketOpen,
            Token::BracketClose => Token::BracketClose,
            Token::Colon => Token::Colon,
            Token::Semicolon => Token::Semicolon,
            Token::Comma => Token::Comma,
            Token::Dot => Token::Dot,
            Token::DotDot => Token::DotDot,
            Token::Arrow => Token::Arrow,
            Token::FatArrow => Token::FatArrow,
            Token::Assign => Token::Assign,
            Token::Eq => Token::Eq,
            Token::Neq => Token::Neq,
            Token::Lt => Token::Lt,
            Token::Gt => Token::Gt,
            Token::Lte => Token::Lte,
            Token::Gte => Token::Gte,
            Token::Plus => Token::Plus,
            Token::Minus => Token::Minus,
            Token::Star => Token::Star,
            Token::Slash => Token::Slash,
            Token::Error => Token::Error,
        }
    }
}

pub open spec fn tokens_view(ts: Seq<Token>) -> Seq<TokenV> {
    Seq::new(ts.len(), |i: int| ts[i]@)
}

// ---------------------------------------------------------------------
// Character classes and runs
// ---------------------------------------------------------------------

pub open spec fn is_ws(c: char) -> bool {
    c == ' ' || c == '\t' || c == '\n' || c == '\r' || c == '\x0C'
}

pub open spec fn is_ident_start(c: char) -> bool {
    ('a' <= c && c <= 'z') || ('A' <= c && c <= 'Z') || c == '_'
}

pub open spec fn is_digit(c: char) -> bool {
    '0' <= c && c <= '9'
}

pub open spec fn is_ident_char(c: char) -> bool {
    is_ident_start(c) || is_digit(c)
}

pub open spec fn is_hex_digit(c: char) -> bool {
    is_digit(c) || ('a' <= c && c <= 'f') || ('A' <= c && c <= 'F')
}

/// Which characters a run continues over.
pub enum CharClass {
    IdentChar,
    Digit,
    HexDigit,
    NotNewline,
}

pub open spec fn in_class(k: CharClass, c: char) -> bool {
    match k {
        CharClass::IdentChar => is_ident_char(c),
        CharClass::Digit => is_digit(c),
        CharClass::HexDigit => is_hex_digit(c),
        CharClass::NotNewline => c != '\n',
    }
}

/// The end of the longest run of `k` characters of `s` that starts at `i`.
pub open spec fn run_end(s: Seq<char>, i: int, k: CharClass) -> int
    decreases s.len() - i,
{
    if 0 <= i < s.len() && in_class(k, s[i]) {
        run_end(s, i + 1, k)
    } else {
        i
    }
}

/// The value of a string of decimal digits.
pub open spec fn decimal_value(w: Seq<char>) -> nat
    decreases w.len(),
{
    if w.len() == 0 {
        0
    } else {
        decimal_value(w.drop_last()) * 10 + ((w.last() as int) - ('0' as int)) as nat
    }
}

/// The keyword token spelled `w`, or the identifier `w`.
pub open spec fn word_token(w: Seq<char>) -> TokenV {
    if w == "contract"@ {
        TokenV::Contract
    } else if w == "storage"@ {
        TokenV::Storage
    } else if w == "struct"@ {
        TokenV::Struct
    } else if w == "pub"@ {
        TokenV::Pub
    } else if w == "fn"@ {
        TokenV::Fn
    } else if w == "let"@ {
        TokenV::Let
    } else if w == "constrain"@ {
        TokenV::Constrain
    } else if w == "if"@ {
        TokenV::If
    } else if w == "else"@ {
        TokenV::Else
    } else if w == "while"@ {
        TokenV::While
    } else if w == "match"@ {
        TokenV::Match
    } else if w == "for"@ {
        TokenV::For
    } else if w == "in"@ {
        TokenV::In
    } else if w == "return"@ {
        TokenV::Return
    } else {
        TokenV::Ident(w)
    }
}

/// The token spelled by the two characters `a b`, if any.
pub open spec fn pair_token(a: char, b: char) -> Option<TokenV> {
    if a == '-' && b == '>' {
        Some(TokenV::Arrow)
    } else if a == '=' && b == '>' {
        Some(TokenV::FatArrow)
    } else if a == '=' && b == '=' {
        Some(TokenV::Eq)
    } else if a == '!' && b == '=' {
        Some(TokenV::Neq)
    } else if a == '<' && b == '=' {
        Some(TokenV::Lte)
    } else if a == '>' && b == '=' {
        Some(TokenV::Gte)
    } else if a == '.' && b == '.' {
        Some(TokenV::DotDot)
    } else {
        None
    }
}

/// The token spelled by the single character `c`; `Error` if none.
pub open spec fn single_token(c: char) -> TokenV {
    if c == '{' {
        TokenV::BraceOpen
    } else if c == '}' {
        TokenV::BraceClose
    } else if c == '(' {
        TokenV::ParenOpen
    } else if c == ')' {
        TokenV::ParenClose
    } else if c == '[' {
        TokenV::BracketOpen
    } else if c == ']' {
        TokenV::BracketClose
    } else if c == ':' {
        TokenV::Colon
    } else if c == ';' {
        TokenV::Semicolon
    } else if c == ',' {
        TokenV::Comma
    } else if c == '.' {
        TokenV::Dot
    } else if c == '=' {
        TokenV::Assign
    } else if c == '<' {
        TokenV::Lt
    } else if c == '>' {
        TokenV::Gt
    } else if c == '+' {
        TokenV::Plus
    } else if c == '-' {
        TokenV::Minus
    } else if c == '*' {
        TokenV::Star
    } else if c == '/' {
        TokenV::Slash
    } else {
        TokenV::Error
    }
}

/// Whether a hexadecimal literal starts at `i`: `0x` and a hex digit.
pub open spec fn hex_starts(s: Seq<char>, i: int) -> bool {
    0 <= i && i + 2 < s.len() && s[i] == '0' && s[i + 1] == 'x' && is_hex_digit(s[i + 2])
}

/// The token that starts at `i` (which is neither white space nor the start
/// of a comment) and the index just after it.
pub open spec fn scan(s: Seq<char>, i: int) -> (TokenV, int) {
    let c = s[i];
    if is_ident_start(c) {
        let j = run_end(s, i + 1, CharClass::IdentChar);
        (word_token(s.subrange(i, j)), j)
    } else if hex_starts(s, i) {
        let j = run_end(s, i + 2, CharClass::HexDigit);
        (TokenV::Hex(s.subrange(i, j)), j)
    } else if is_digit(c) {
        let j = run_end(s, i + 1, CharClass::Digit);
        let v = decimal_value(s.subrange(i, j));
        if v <= u64::MAX {
            (TokenV::Int(v as u64), j)
        } else {
            (TokenV::Error, j)
        }
    } else if i + 1 < s.len() && pair_token(c, s[i + 1]) is Some {
        (pair_token(c, s[i + 1])->Some_0, i + 2)
    } else {
        (single_token(c), i + 1)
    }
}

/// Whether a `//` comment starts at `i`.
pub open spec fn comment_starts(s: Seq<char>, i: int) -> bool {
    0 <= i && i + 1 < s.len() && s[i] == '/' && s[i + 1] == '/'
}

/// The tokens of `s` from index `i` on.
pub open spec fn lex_from(s: Seq<char>, i: int) -> Seq<TokenV>
    decreases s.len() - i,
{
    if i < 0 || i >= s.len() {
        Seq::empty()
    } else if is_ws(s[i]) {
        lex_from(s, i + 1)
    } else if comment_starts(s, i) {
        let j = run_end(s, i + 2, CharClass::NotNewline);
        if i < j <= s.len() {
            lex_from(s, j)
        } else {
            Seq::empty()
        }
    } else {
        let (t, j) = scan(s, i);
        if i < j <= s.len() {
            seq![t] + lex_from(s, j)
        } else {
            Seq::empty()
        }
    }
}

/// The tokens of a source text.
pub open spec fn lex(s: Seq<char>) -> Seq<TokenV> {
    lex_from(s, 0)
}

/// A run starting at `i` ends at or after `i`, inside the text, and every
/// character it passes is in the class.
pub proof fn lemma_run_end(s: Seq<char>, i: int, k: CharClass)
    requires
        0 <= i <= s.len(),
    ensures
        i <= run_end(s, i, k) <= s.len(),
        forall|m: int| i <= m < run_end(s, i, k) ==> in_class(k, #[trigger] s[m]),
        run_end(s, i, k) < s.len() ==> !in_class(k, s[run_end(s, i, k)]),
    decreases s.len() - i,
{
    if i < s.len() && in_class(k, s[i]) {
        lemma_run_end(s, i + 1, k);
    }
}

/// How operators are spelled: an operator character followed by a space (or
/// ending the text) is one token, `+` `-` `*` `/` `<` `>` `=` giving plus,
/// minus, star, slash, less, greater and assignment, and the lexing goes on
/// right after it.
pub proof fn lemma_single_operator_spelling(s: Seq<char>, i: int)
    requires
        0 <= i < s.len(),
        i + 1 == s.len() || s[i + 1] == ' ',
    ensures
        s[i] == '+' ==> lex_from(s, i) == seq![TokenV::Plus] + lex_from(s, i + 1),
        s[i] == '-' ==> lex_from(s, i) == seq![TokenV::Minus] + lex_from(s, i + 1),
        s[i] == '*' ==> lex_from(s, i) == seq![TokenV::Star] + lex_from(s, i + 1),
        s[i] == '/' ==> lex_from(s, i) == seq![TokenV::Slash] + lex_from(s, i + 1),
        s[i] == '<' ==> lex_from(s, i) == seq![TokenV::Lt] + lex_from(s, i + 1),
        s[i] == '>' ==> lex_from(s, i) == seq![TokenV::Gt] + lex_from(s, i + 1),
        s[i] == '=' ==> lex_from(s, i) == seq![TokenV::Assign] + lex_from(s, i + 1),
{
}

/// Two-character operators: `==`, `!=`, `<=`, `>=`, `->` and `=>` followed
/// by a space (or ending the text) are one token each.
pub proof fn lemma_pair_operator_spelling(s: Seq<char>, i: int)
    requires
        0 <= i,
        i + 1 < s.len(),
        i + 2 == s.len() || s[i + 2] == ' ',
    ensures
        s[i] == '=' && s[i + 1] == '=' ==> lex_from(s, i) == seq![TokenV::Eq] + lex_from(s, i + 2),
        s[i] == '!' && s[i + 1] == '=' ==> lex_from(s, i) == seq![TokenV::Neq] + lex_from(s, i + 2),
        s[i] == '<' && s[i + 1] == '=' ==> lex_from(s, i) == seq![TokenV::Lte] + lex_from(s, i + 2),
        s[i] == '>' && s[i + 1] == '=' ==> lex_from(s, i) == seq![TokenV::Gte] + lex_from(s, i + 2),
        s[i] == '-' && s[i + 1] == '>' ==> lex_from(s, i) == seq![TokenV::Arrow] + lex_from(s, i + 2),
        s[i] == '=' && s[i + 1] == '>' ==> lex_from(s, i) == seq![TokenV::FatArrow] + lex_from(s, i + 2),
{
}

/// Every token the lexer makes is well formed: identifiers and hexadecimal
/// literals carry the text the lexer took for them.
pub open spec fn token_well_formed(t: TokenV) -> bool {
    match t {
        TokenV::Ident(w) => w.len() > 0 && is_ident_start(w[0]) && forall|m: int|
            0 <= m < w.len() ==> is_ident_char(#[trigger] w[m]),
        TokenV::Hex(w) => w.len() > 2 && w[0] == '0' && w[1] == 'x' && forall|m: int|
            2 <= m < w.len() ==> is_hex_digit(#[trigger] w[m]),
        _ => true,
    }
}

pub open spec fn tokens_well_formed(ts: Seq<TokenV>) -> bool {
    forall|m: int| 0 <= m < ts.len() ==> token_well_formed(#[trigger] ts[m])
}

// ---------------------------------------------------------------------
// The lexer
// ---------------------------------------------------------------------

/// The characters of `source`, in order.
pub(crate) fn chars_of(source: &str) -> (v: Vec<char>)
    ensures
        v@ == source@,
{
    let mut v: Vec<char> = Vec::new();
    for c in it: source.chars()
        invariant
            v@ == it.seq().take(it.index() as int),
    {
        v.push(c);
        assert(v@ =~= it.seq().take(it.index() + 1));
    }
    assert(v@ =~= source@);
    v
}

fn class_has(k: &CharClass, c: char) -> (r: bool)
    ensures
        r == in_class(*k, c),
{
    match k {
        CharClass::IdentChar => (c >= 'a' && c <= 'z') || (c >= 'A' && c <= 'Z') || c == '_' || (c
            >= '0' && c <= '9'),
        CharClass::Digit => c >= '0' && c <= '9',
        CharClass::HexDigit => (c >= '0' && c <= '9') || (c >= 'a' && c <= 'f') || (c >= 'A' && c
            <= 'F'),
        CharClass::NotNewline => c != '\n',
    }
}

/// Exec form of `run_end`.
fn run_end_exec(s: &Vec<char>, i: usize, k: CharClass) -> (j: usize)
    requires
        i <= s@.len(),
    ensures
        j == run_end(s@, i as int, k),
{
    let mut j = i;
    while j < s.len() && class_has(&k, s[j])
        invariant
            i <= j <= s@.len(),
            run_end(s@, j as int, k) == run_end(s@, i as int, k),
        decreases s@.len() - j,
    {
        j = j + 1;
    }
    j
}

/// The keyword token spelled `w`, or the identifier `w`.
fn word_token_exec(w: String) -> (t: Token)
    ensures
        t@ == word_token(w@),
{
    if w == String::from_str("contract") {
        Token::Contract
    } else if w == String::from_str("storage") {
        Token::Storage
    } else if w == String::from_str("struct") {
        Token::Struct
    } else if w == String::from_str("pub") {
        Token::Pub
    } else if w == String::from_str("fn") {
        Token::Fn
    } else if w == String::from_str("let") {
        Token::Let
    } else if w == String::from_str("constrain") {
        Token::Constrain
    } else if w == String::from_str("if") {
        Token::If
    } else if w == String::from_str("else") {
        Token::Else
    } else if w == String::from_str("while") {
        Token::While
    } else if w == String::from_str("match") {
        Token::Match
    } else if w == String::from_str("for") {
        Token::For
    } else if w == String::from_str("in") {
        Token::In
    } else if w == String::from_str("return") {
        Token::Return
    } else {
        Token::Ident(w)
    }
}

fn pair_token_exec(a: char, b: char) -> (t: Option<Token>)
    ensures
        match pair_token(a, b) {
            None => t is None,
            Some(v) => t is Some && t->Some_0@ == v,
        },
{
    if a == '-' && b == '>' {
        Some(Token::Arrow)
    } else if a == '=' && b == '>' {
        Some(Token::FatArrow)
    } else if a == '=' && b == '=' {
        Some(Token::Eq)
    } else if a == '!' && b == '=' {
        Some(Token::Neq)
    } else if a == '<' && b == '=' {
        Some(Token::Lte)
    } else if a == '>' && b == '=' {
        Some(Token::Gte)
    } else if a == '.' && b == '.' {
        Some(Token::DotDot)
    } else {
        None
    }
}

fn single_token_exec(c: char) -> (t: Token)
    ensures
        t@ == single_token(c),
{
    if c == '{' {
        Token::BraceOpen
    } else if c == '}' {
        Token::BraceClose
    } else if c == '(' {
        Token::ParenOpen
    } else if c == ')' {
        Token::ParenClose
    } else if c == '[' {
        Token::BracketOpen
    } else if c == ']' {
        Token::BracketClose
    } else if c == ':' {
        Token::Colon
    } else if c == ';' {
        Token::Semicolon
    } else if c == ',' {
        Token::Comma
    } else if c == '.' {
        Token::Dot
    } else if c == '=' {
        Token::Assign
    } else if c == '<' {
        Token::Lt
    } else if c == '>' {
        Token::Gt
    } else if c == '+' {
        Token::Plus
    } else if c == '-' {
        Token::Minus
    } else if c == '*' {
        Token::Star
    } else if c == '/' {
        Token::Slash
    } else {
        Token::Error
    }
}

/// The value of the decimal digits `s[i..j]`, or `None` above `u64::MAX`.
fn decimal_value_exec(s: &Vec<char>, i: usize, j: usize) -> (r: Option<u64>)
    requires
        i <= j <= s@.len(),
        forall|m: int| i <= m < j ==> is_digit(#[trigger] s@[m]),
    ensures
        match r {
            Some(v) => v == decimal_value(s@.subrange(i as int, j as int)),
            None => decimal_value(s@.subrange(i as int, j as int)) > u64::MAX,
        },
{
    let mut acc: u64 = 0;
    let mut over = false;
    let mut k = i;
    while k < j
        invariant
            i <= k <= j <= s@.len(),
            forall|m: int| i <= m < j ==> is_digit(#[trigger] s@[m]),
            !over ==> acc == decimal_value(s@.subrange(i as int, k as int)),
            over ==> decimal_value(s@.subrange(i as int, k as int)) > u64::MAX,
        decreases j - k,
    {
        let c = s[k];
        assert(is_digit(s@[k as int]));
        let d = (c as u32 - '0' as u32) as u64;
        assert(s@.subrange(i as int, k + 1).drop_last() =~= s@.subrange(i as int, k as int));
        if !over {
            if acc > (u64::MAX - d) / 10 {
                over = true;
            } else {
                acc = acc * 10 + d;
            }
        }
        k = k + 1;
    }
    if over {
        None
    } else {
        Some(acc)
    }
}

/// The tokens of a source text: see the module documentation.
pub fn tokenize(source: &str) -> (ts: Vec<Token>)
    ensures
        tokens_view(ts@) == lex(source@),
        tokens_well_formed(tokens_view(ts@)),
{
    let s = chars_of(source);
    let n = s.len();
    let mut out: Vec<Token> = Vec::new();
    let mut i: usize = 0;
    while i < n
        invariant
            n == s@.len(),
            s@ == source@,
            i <= n,
            tokens_view(out@) + lex_from(s@, i as int) == lex(s@),
            tokens_well_formed(tokens_view(out@)),
        decreases n - i,
    {
        let c = s[i];
        let ghost old_out = out@;
        if c == ' ' || c == '\t' || c == '\n' || c == '\r' || c == '\x0C' {
            i = i + 1;
        } else if c == '/' && n - i > 1 && s[i + 1] == '/' {
            proof {
                lemma_run_end(s@, i + 2, CharClass::NotNewline);
            }
            i = run_end_exec(&s, i + 2, CharClass::NotNewline);
        } else {
            let (t, j) = scan_exec(&s, source, i);
            out.push(t);
            proof {
                assert(tokens_view(out@) =~= tokens_view(old_out).push(t@));
                assert(tokens_view(out@) + lex_from(s@, j as int) =~= tokens_view(old_out) + (seq![
                    t@,
                ] + lex_from(s@, j as int)));
            }
            i = j;
        }
    }
    proof {
        assert(tokens_view(out@) + lex_from(s@, i as int) =~= tokens_view(out@));
    }
    out
}

/// The token that starts at `i` and the index just after it.
fn scan_exec(s: &Vec<char>, source: &str, i: usize) -> (r: (Token, usize))
    requires
        s@ == source@,
        i < s@.len(),
        !is_ws(s@[i as int]),
        !comment_starts(s@, i as int),
    ensures
        r.0@ == scan(s@, i as int).0,
        r.1 == scan(s@, i as int).1,
        i < r.1 <= s@.len(),
        token_well_formed(r.0@),
{
    let n = s.len();
    let c = s[i];
    if (c >= 'a' && c <= 'z') || (c >= 'A' && c <= 'Z') || c == '_' {
        proof {
            lemma_run_end(s@, i + 1, CharClass::IdentChar);
        }
        let j = run_end_exec(s, i + 1, CharClass::IdentChar);
        let w = String::from_str(source.substring_char(i, j));
        proof {
            let ww = s@.subrange(i as int, j as int);
            assert(ww[0] == c);
            assert forall|m: int| 0 <= m < ww.len() implies is_ident_char(#[trigger] ww[m]) by {
                if m > 0 {
                    assert(ww[m] == s@[i + m]);
                }
            }
        }
        (word_token_exec(w), j)
    } else if c == '0' && n - i > 2 && s[i + 1] == 'x' && class_has(&CharClass::HexDigit, s[i + 2]) {
        proof {
            lemma_run_end(s@, i + 2, CharClass::HexDigit);
        }
        let j = run_end_exec(s, i + 2, CharClass::HexDigit);
        let w = String::from_str(source.substring_char(i, j));
        proof {
            let ww = s@.subrange(i as int, j as int);
            assert forall|m: int| 2 <= m < ww.len() implies is_hex_digit(#[trigger] ww[m]) by {
                assert(ww[m] == s@[i + m]);
            }
        }
        (Token::Hex(w), j)
    } else if c >= '0' && c <= '9' {
        proof {
            lemma_run_end(s@, i + 1, CharClass::Digit);
        }
        let j = run_end_exec(s, i + 1, CharClass::Digit);
        match decimal_value_exec(s, i, j) {
            Some(v) => (Token::Int(v), j),
            None => (Token::Error, j),
        }
    } else {
        if n - i > 1 {
            match pair_token_exec(c, s[i + 1]) {
                Some(t) => {
                    return (t, i + 2);
                },
                None => {},
            }
        }
        (single_token_exec(c), i + 1)
    }
}

} // verus!
