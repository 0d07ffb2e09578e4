//! The abstract syntax of BudL contracts, and its mathematical model: each
//! node's view replaces every `String` by its characters and every `Vec`
//! by the sequence of the views of its elements.
use vstd::prelude::*;

verus! {

/// Binary operators of BudL expressions.
#[derive(Debug, Clone, Copy, PartialEq, Eq, Structural)]
pub enum BinOp {
    Add,
    Sub,
    Mul,
    Div,
    Eq,
    Neq,
    Lt,
    Gt,
    Lte,
    Gte,
}

#[derive(Debug)]
pub enum Expr {
    Int(u64),
    Ident(String),
    StorageRead(String),
    MappingRead(String, Box<Expr>),
    FieldAccess(Box<Expr>, String),
    StructLiteral(String, Vec<(String, Expr)>),
    Call(String, Vec<Expr>),
    Binary(Box<Expr>, BinOp, Box<Expr>),
}

#[derive(Debug, Clone, Copy, PartialEq, Eq, Structural)]
pub enum MatchPattern {
    Wildcard,
    IntLit(u64),
}

#[derive(Debug)]
pub struct MatchArm {
    pub pattern: MatchPattern,
    pub body: Vec<Stmt>,
}

#[derive(Debug)]
pub enum Stmt {
    Let(String, Expr),
    Constrain(Expr),
    Assign(String, Expr),
    StorageWrite(String, Expr),
    MappingWrite(String, Expr, Expr),
    If(Expr, Vec<Stmt>, Option<Vec<Stmt>>),
    While(Expr, Vec<Stmt>),
    For { var: String, start: Expr, end: Expr, body: Vec<Stmt> },
    Return(Option<Expr>),
    Emit(String, Vec<Expr>),
    Match { scrutinee: Expr, arms: Vec<MatchArm> },
    Expr(Expr),
}

#[derive(Debug)]
pub struct Param {
    pub name: String,
    pub ty: String,
}

#[derive(Debug)]
pub struct StorageField {
    pub name: String,
    pub ty: String,
}

#[derive(Debug)]
pub struct Struct {
    pub name: String,
    pub fields: Vec<StorageField>,
}

#[derive(Debug)]
pub struct Function {
    pub name: String,
    pub params: Vec<Param>,
    pub return_type: Option<String>,
    pub body: Vec<Stmt>,
    pub is_pub: bool,
}

#[derive(Debug)]
pub struct Contract {
    pub name: String,
    pub storage: Vec<StorageField>,
    pub structs: Vec<Struct>,
    pub functions: Vec<Function>,
}

// ---------------------------------------------------------------------
// The model
// ---------------------------------------------------------------------

pub enum ExprV {
    Int(u64),
    Ident(Seq<char>),
    StorageRead(Seq<char>),
    MappingRead(Seq<char>, Box<ExprV>),
    FieldAccess(Box<ExprV>, Seq<char>),
    StructLiteral(Seq<char>, Seq<(Seq<char>, ExprV)>),
    Call(Seq<char>, Seq<ExprV>),
    Binary(Box<ExprV>, BinOp, Box<ExprV>),
}

pub struct MatchArmV {
    pub pattern: MatchPattern,
    pub body: Seq<StmtV>,
}

pub enum StmtV {
    Let(Seq<char>, ExprV),
    Constrain(ExprV),
    Assign(Seq<char>, ExprV),
    StorageWrite(Seq<char>, ExprV),
    MappingWrite(Seq<char>, ExprV, ExprV),
    If(ExprV, Seq<StmtV>, Option<Seq<StmtV>>),
    While(ExprV, Seq<StmtV>),
    For { var: Seq<char>, start: ExprV, end: ExprV, body: Seq<StmtV> },
    Return(Option<ExprV>),
    Emit(Seq<char>, Seq<ExprV>),
    Match { scrutinee: ExprV, arms: Seq<MatchArmV> },
    Expr(ExprV),
}

pub struct FieldV {
    pub name: Seq<char>,
    pub ty: Seq<char>,
}

pub struct StructV {
    pub name: Seq<char>,
    pub fields: Seq<FieldV>,
}

pub struct FunctionV {
    pub name: Seq<char>,
    pub params: Seq<FieldV>,
    pub return_type: Option<Seq<char>>,
    pub body: Seq<StmtV>,
    pub is_pub: bool,
}

pub struct ContractV {
    pub name: Seq<char>,
    pub storage: Seq<FieldV>,
    pub structs: Seq<StructV>,
    pub functions: Seq<FunctionV>,
}

pub open spec fn expr_view(e: Expr) -> ExprV
    decreases e,
{
    match e {
        Expr::Int(n) => ExprV::Int(n),
        Expr::Ident(s) => ExprV::Ident(s@),
        Expr::StorageRead(s) => ExprV::StorageRead(s@),
        Expr::MappingRead(s, k) => ExprV::MappingRead(s@, Box::new(expr_view(*k))),
        Expr::FieldAccess(b, f) => ExprV::FieldAccess(Box::new(expr_view(*b)), f@),
        Expr::StructLiteral(s, fields) => ExprV::StructLiteral(
            s@,
            Seq::new(
                fields@.len(),
                |i: int|
                    if 0 <= i < fields@.len() {
                        (fields@[i].0@, expr_view(fields@[i].1))
                    } else {
                        (Seq::empty(), ExprV::Int(0))
                    },
            ),
        ),
        Expr::Call(s, args) => ExprV::Call(
            s@,
            Seq::new(
                args@.len(),
                |i: int|
                    if 0 <= i < args@.len() {
                        expr_view(args@[i])
                    } else {
                        ExprV::Int(0)
                    },
            ),
        ),
        Expr::Binary(a, op, b) => ExprV::Binary(Box::new(expr_view(*a)), op, Box::new(expr_view(*b))),
    }
}

pub open spec fn exprs_view(s: Seq<Expr>) -> Seq<ExprV> {
    Seq::new(s.len(), |i: int| expr_view(s[i]))
}

pub open spec fn field_inits_view(s: Seq<(String, Expr)>) -> Seq<(Seq<char>, ExprV)> {
    Seq::new(s.len(), |i: int| (s[i].0@, expr_view(s[i].1)))
}

pub open spec fn stmt_view(s: Stmt) -> StmtV
    decreases s,
{
    match s {
        Stmt::Let(n, e) => StmtV::Let(n@, expr_view(e)),
        Stmt::Constrain(e) => StmtV::Constrain(expr_view(e)),
        Stmt::Assign(n, e) => StmtV::Assign(n@, expr_view(e)),
        Stmt::StorageWrite(n, e) => StmtV::StorageWrite(n@, expr_view(e)),
        Stmt::MappingWrite(n, k, v) => StmtV::MappingWrite(n@, expr_view(k), expr_view(v)),
        Stmt::If(c, t, e) => StmtV::If(
            expr_view(c),
            Seq::new(
                t@.len(),
                |i: int|
                    if 0 <= i < t@.len() {
                        stmt_view(t@[i])
                    } else {
                        StmtV::Return(None)
                    },
            ),
            match e {
                None => None,
                Some(eb) => Some(
                    Seq::new(
                        eb@.len(),
                        |i: int|
                            if 0 <= i < eb@.len() {
                                stmt_view(eb@[i])
                            } else {
                                StmtV::Return(None)
                            },
                    ),
                ),
            },
        ),
        Stmt::While(c, b) => StmtV::While(
            expr_view(c),
            Seq::new(
                b@.len(),
                |i: int|
                    if 0 <= i < b@.len() {
                        stmt_view(b@[i])
                    } else {
                        StmtV::Return(None)
                    },
            ),
        ),
        Stmt::For { var, start, end, body } => StmtV::For {
            var: var@,
            start: expr_view(start),
            end: expr_view(end),
            body: Seq::new(
                body@.len(),
                |i: int|
                    if 0 <= i < body@.len() {
                        stmt_view(body@[i])
                    } else {
                        StmtV::Return(None)
                    },
            ),
        },
        Stmt::Return(e) => StmtV::Return(
            match e {
                None => None,
                Some(x) => Some(expr_view(x)),
            },
        ),
        Stmt::Emit(n, args) => StmtV::Emit(
            n@,
            Seq::new(
                args@.len(),
                |i: int|
                    if 0 <= i < args@.len() {
                        expr_view(args@[i])
                    } else {
                        ExprV::Int(0)
                    },
            ),
        ),
        Stmt::Match { scrutinee, arms } => StmtV::Match {
            scrutinee: expr_view(scrutinee),
            arms: Seq::new(
                arms@.len(),
                |i: int|
                    if 0 <= i < arms@.len() {
                        MatchArmV {
                            pattern: arms@[i].pattern,
                            body: Seq::new(
                                arms@[i].body@.len(),
                                |j: int|
                                    if 0 <= j < arms@[i].body@.len() {
                                        stmt_view(arms@[i].body@[j])
                                    } else {
                                        StmtV::Return(None)
                                    },
                            ),
                        }
                    } else {
                        MatchArmV { pattern: MatchPattern::Wildcard, body: Seq::empty() }
                    },
            ),
        },
        Stmt::Expr(e) => StmtV::Expr(expr_view(e)),
    }
}

pub open spec fn stmts_view(s: Seq<Stmt>) -> Seq<StmtV> {
    Seq::new(s.len(), |i: int| stmt_view(s[i]))
}

pub open spec fn arm_view(a: MatchArm) -> MatchArmV {
    MatchArmV { pattern: a.pattern, body: stmts_view(a.body@) }
}

pub open spec fn arms_view(s: Seq<MatchArm>) -> Seq<MatchArmV> {
    Seq::new(s.len(), |i: int| arm_view(s[i]))
}

pub open spec fn field_view(f: StorageField) -> FieldV {
    FieldV { name: f.name@, ty: f.ty@ }
}

pub open spec fn fields_view(s: Seq<StorageField>) -> Seq<FieldV> {
    Seq::new(s.len(), |i: int| field_view(s[i]))
}

pub open spec fn params_view(s: Seq<Param>) -> Seq<FieldV> {
    Seq::new(s.len(), |i: int| FieldV { name: s[i].name@, ty: s[i].ty@ })
}

pub open spec fn struct_view(s: Struct) -> StructV {
    StructV { name: s.name@, fields: fields_view(s.fields@) }
}

pub open spec fn structs_view(s: Seq<Struct>) -> Seq<StructV> {
    Seq::new(s.len(), |i: int| struct_view(s[i]))
}

pub open spec fn function_view(f: Function) -> FunctionV {
    FunctionV {
        name: f.name@,
        params: params_view(f.params@),
        return_type: match f.return_type {
            None => None,
            Some(r) => Some(r@),
        },
        body: stmts_view(f.body@),
        is_pub: f.is_pub,
    }
}

pub open spec fn functions_view(s: Seq<Function>) -> Seq<FunctionV> {
    Seq::new(s.len(), |i: int| function_view(s[i]))
}

pub open spec fn contract_view(c: Contract) -> ContractV {
    ContractV {
        name: c.name@,
        storage: fields_view(c.storage@),
        structs: structs_view(c.structs@),
        functions: functions_view(c.functions@),
    }
}

impl View for Expr {
    type V = ExprV;

    open spec fn view(&self) -> ExprV {
        expr_view(*self)
    }
}

impl View for Stmt {
    type V = StmtV;

    open spec fn view(&self) -> StmtV {
        stmt_view(*self)
    }
}

impl View for MatchArm {
    type V = MatchArmV;

    open spec fn view(&self) -> MatchArmV {
        arm_view(*self)
    }
}

impl View for Contract {
    type V = ContractV;

    open spec fn view(&self) -> ContractV {
        contract_view(*self)
    }
}

/// How the view of a call node is made of the views of its arguments.
pub proof fn lemma_expr_view_lists(e: Expr)
    ensures
        e matches Expr::Call(s, args) ==> expr_view(e) == ExprV::Call(s@, exprs_view(args@)),
        e matches Expr::StructLiteral(s, fields) ==> expr_view(e) == ExprV::StructLiteral(
            s@,
            field_inits_view(fields@),
        ),
{
    match e {
        Expr::Call(s, args) => {
            assert(expr_view(e)->Call_1 =~= exprs_view(args@));
        },
        Expr::StructLiteral(s, fields) => {
            assert(expr_view(e)->StructLiteral_1 =~= field_inits_view(fields@));
        },
        _ => {},
    }
}

/// How the view of a statement node is made of the views of its lists.
pub proof fn lemma_stmt_view_lists(s: Stmt)
    ensures
        s matches Stmt::If(c, t, e) ==> stmt_view(s) == StmtV::If(
            expr_view(c),
            stmts_view(t@),
            match e {
                None => None,
                Some(eb) => Some(stmts_view(eb@)),
            },
        ),
        s matches Stmt::While(c, b) ==> stmt_view(s) == StmtV::While(expr_view(c), stmts_view(b@)),
        s matches Stmt::For { var, start, end, body } ==> stmt_view(s) == (StmtV::For {
            var: var@,
            start: expr_view(start),
            end: expr_view(end),
            body: stmts_view(body@),
        }),
        s matches Stmt::Emit(n, args) ==> stmt_view(s) == StmtV::Emit(n@, exprs_view(args@)),
        s matches Stmt::Match { scrutinee, arms } ==> stmt_view(s) == (StmtV::Match {
            scrutinee: expr_view(scrutinee),
            arms: arms_view(arms@),
        }),
{
    match s {
        Stmt::If(c, t, e) => {
            assert(stmt_view(s)->If_1 =~= stmts_view(t@));
            match e {
                None => {},
                Some(eb) => {
                    assert(stmt_view(s)->If_2->Some_0 =~= stmts_view(eb@));
                },
            }
        },
        Stmt::While(c, b) => {
            assert(stmt_view(s)->While_1 =~= stmts_view(b@));
        },
        Stmt::For { var, start, end, body } => {
            assert(stmt_view(s)->For_body =~= stmts_view(body@));
        },
        Stmt::Emit(n, args) => {
            assert(stmt_view(s)->Emit_1 =~= exprs_view(args@));
        },
        Stmt::Match { scrutinee, arms } => {
            assert forall|i: int| 0 <= i < arms@.len() implies #[trigger] stmt_view(
                s,
            )->Match_arms[i] == arm_view(arms@[i]) by {
                assert(stmt_view(s)->Match_arms[i].body =~= stmts_view(arms@[i].body@));
            }
            assert(stmt_view(s)->Match_arms =~= arms_view(arms@));
        },
        _ => {},
    }
}

} // verus!
