//! Semantic analysis of BudL contracts: name resolution and type checking.
//!
//! The analysis registers the contract's structs and function signatures,
//! adds the builtins, then checks every function body and collects the
//! errors in the order it meets them; `analyze` reports the first one.
//! The functions `sem_*` below say what the analysis finds.
use crate::ast::{
    arms_view, exprs_view, field_inits_view, stmts_view, Contract, ContractV, Expr, ExprV,
    FieldV, Function, FunctionV, MatchArmV, Stmt, StmtV, Struct, StructV, BinOp,
    lemma_expr_view_lists, lemma_stmt_view_lists,
};
use crate::error::{decimal, push_decimal, CompileError, CompileErrorV};
use vstd::hash_map::StringHashMap;
use vstd::prelude::*;

verus! {

/// Types of BudL values.
#[derive(Debug, PartialEq, Eq)]
pub enum Type {
    U64,
    Bool,
    Field,
    Struct(String),
    Void,
    Unknown,
}

pub enum TypeV {
    U64,
    Bool,
    Field,
    Struct(Seq<char>),
    Void,
    Unknown,
}

impl View for Type {
    type V = TypeV;

    open spec fn view(&self) -> TypeV {
        match self {
            Type::U64 => TypeV::U64,
            Type::Bool => TypeV::Bool,
            Type::Field => TypeV::Field,
            Type::Struct(s) => TypeV::Struct(s@),
            Type::Void => TypeV::Void,
            Type::Unknown => TypeV::Unknown,
        }
    }
}

impl Clone for Type {
    fn clone(&self) -> (r: Self)
        ensures
            r == *self,
    {
        match self {
            Type::U64 => Type::U64,
            Type::Bool => Type::Bool,
            Type::Field => Type::Field,
            Type::Struct(s) => Type::Struct(s.clone()),
            Type::Void => Type::Void,
            Type::Unknown => Type::Unknown,
        }
    }
}

/// The type a type name stands for: `u64`, `bool` and `field` are the
/// scalar types, every other name a struct.
pub open spec fn type_of_name(s: Seq<char>) -> TypeV {
    if s == "u64"@ {
        TypeV::U64
    } else if s == "bool"@ {
        TypeV::Bool
    } else if s == "field"@ {
        TypeV::Field
    } else {
        TypeV::Struct(s)
    }
}

/// Debug text of a type, as `{:?}` prints it.
pub open spec fn type_debug(t: TypeV) -> Seq<char> {
    match t {
        TypeV::U64 => "U64"@,
        TypeV::Bool => "Bool"@,
        TypeV::Field => "Field"@,
        TypeV::Struct(s) => "Struct(\""@ + s + "\")"@,
        TypeV::Void => "Void"@,
        TypeV::Unknown => "Unknown"@,
    }
}

/// Two types clash when they differ and neither is `Unknown`.
pub open spec fn clash(a: TypeV, b: TypeV) -> bool {
    a != b && a != TypeV::Unknown && b != TypeV::Unknown
}

/// What the analysis knows of the contract: each struct's field types and
/// each function's parameter and result types.
pub struct Ctx {
    pub structs: Map<Seq<char>, Map<Seq<char>, TypeV>>,
    pub functions: Map<Seq<char>, (Seq<TypeV>, TypeV)>,
}

pub type Env = Map<Seq<char>, TypeV>;

/// The errors (in order) from the argument-type checks of a call to `name`
/// with parameter types `ps` and argument types `ts`, for arguments `0..n`.
pub open spec fn arg_errors(name: Seq<char>, ps: Seq<TypeV>, ts: Seq<TypeV>, n: nat) -> Seq<
    Seq<char>,
>
    decreases n,
{
    if n == 0 {
        Seq::empty()
    } else {
        let i = (n - 1) as nat;
        let prev = arg_errors(name, ps, ts, i);
        if clash(ps[i as int], ts[i as int]) {
            prev.push("Arg "@ + decimal(i) + " type mismatch in "@ + name)
        } else {
            prev
        }
    }
}

/// The type of an expression and the errors found in it.
pub open spec fn sem_expr(c: Ctx, env: Env, e: ExprV) -> (TypeV, Seq<Seq<char>>)
    decreases e,
{
    match e {
        ExprV::Int(_) => (TypeV::U64, Seq::empty()),
        ExprV::Ident(n) => if env.contains_key(n) {
            (env[n], Seq::empty())
        } else {
            (TypeV::Unknown, seq!["Undefined identifier: "@ + n])
        },
        ExprV::StorageRead(_) => (TypeV::U64, Seq::empty()),
        ExprV::MappingRead(_, k) => (TypeV::U64, sem_expr(c, env, *k).1),
        ExprV::FieldAccess(b, f) => {
            let (bt, es) = sem_expr(c, env, *b);
            match bt {
                TypeV::Struct(sn) => if c.structs.contains_key(sn) {
                    if c.structs[sn].contains_key(f) {
                        (c.structs[sn][f], es)
                    } else {
                        (TypeV::Unknown, es.push("Struct "@ + sn + " has no field "@ + f))
                    }
                } else {
                    (TypeV::Unknown, es)
                },
                TypeV::Unknown => (TypeV::Unknown, es),
                _ => (TypeV::Unknown, es.push("Field access on non-struct"@)),
            }
        },
        ExprV::StructLiteral(n, fields) => if c.structs.contains_key(n) {
            (TypeV::Struct(n), sem_field_inits(c, env, c.structs[n], fields))
        } else {
            (TypeV::Unknown, seq!["Undefined struct: "@ + n])
        },
        ExprV::Call(n, args) => {
            let (ats, es) = sem_args(c, env, args);
            if c.functions.contains_key(n) {
                let (ps, ret) = c.functions[n];
                if ps.len() != args.len() {
                    (
                        ret,
                        es.push(
                            "Function "@ + n + " expects "@ + decimal(ps.len()) + " args, got "@
                                + decimal(args.len()),
                        ),
                    )
                } else {
                    (ret, es + arg_errors(n, ps, ats, ps.len()))
                }
            } else {
                (TypeV::Unknown, es.push("Undefined function: "@ + n))
            }
        },
        ExprV::Binary(l, _, r) => {
            let (lt, e1) = sem_expr(c, env, *l);
            let (rt, e2) = sem_expr(c, env, *r);
            if clash(lt, rt) {
                (lt, (e1 + e2).push("Type mismatch in binary expression"@))
            } else {
                (lt, e1 + e2)
            }
        },
    }
}

/// The types of a list of expressions and the errors found in them, in order.
pub open spec fn sem_args(c: Ctx, env: Env, args: Seq<ExprV>) -> (Seq<TypeV>, Seq<Seq<char>>)
    decreases args,
{
    if args.len() == 0 {
        (Seq::empty(), Seq::empty())
    } else {
        let (ts, es) = sem_args(c, env, args.drop_last());
        let (t, e) = sem_expr(c, env, args.last());
        (ts.push(t), es + e)
    }
}

/// The errors of the field initialisers of a literal of a struct with
/// field types `sf`.
pub open spec fn sem_field_inits(
    c: Ctx,
    env: Env,
    sf: Map<Seq<char>, TypeV>,
    fields: Seq<(Seq<char>, ExprV)>,
) -> Seq<Seq<char>>
    decreases fields,
{
    if fields.len() == 0 {
        Seq::empty()
    } else {
        let prev = sem_field_inits(c, env, sf, fields.drop_last());
        let (fname, val) = fields.last();
        let (t, es) = sem_expr(c, env, val);
        let now = prev + es;
        if sf.contains_key(fname) {
            if sf[fname] != t && t != TypeV::Unknown {
                now.push("Field "@ + fname + " type mismatch"@)
            } else {
                now
            }
        } else {
            now.push("Unknown field "@ + fname)
        }
    }
}

/// The environment after a statement and the errors found in it, when the
/// enclosing function returns `ret`.
pub open spec fn sem_stmt(c: Ctx, ret: TypeV, env: Env, s: StmtV) -> (Env, Seq<Seq<char>>)
    decreases s,
{
    match s {
        StmtV::Let(n, e) => {
            let (t, es) = sem_expr(c, env, e);
            (env.insert(n, t), es)
        },
        StmtV::Constrain(e) => (env, sem_expr(c, env, e).1),
        StmtV::Assign(n, e) => if env.contains_key(n) {
            let (t, es) = sem_expr(c, env, e);
            if clash(env[n], t) {
                (
                    env,
                    es.push(
                        "Type mismatch in assign: expected "@ + type_debug(env[n]) + ", got "@
                            + type_debug(t),
                    ),
                )
            } else {
                (env, es)
            }
        } else {
            (env, seq!["Undefined variable: "@ + n] + sem_expr(c, env, e).1)
        },
        StmtV::StorageWrite(_, e) => (env, sem_expr(c, env, e).1),
        StmtV::MappingWrite(_, k, v) => (env, sem_expr(c, env, k).1 + sem_expr(c, env, v).1),
        StmtV::If(cond, t, eb) => {
            let es = sem_expr(c, env, cond).1;
            let (env1, e1) = sem_stmts(c, ret, env, t);
            match eb {
                None => (env1, es + e1),
                Some(b) => {
                    let (env2, e2) = sem_stmts(c, ret, env1, b);
                    (env2, es + e1 + e2)
                },
            }
        },
        StmtV::While(cond, b) => {
            let es = sem_expr(c, env, cond).1;
            let (env1, e1) = sem_stmts(c, ret, env, b);
            (env1, es + e1)
        },
        StmtV::For { var, start, end, body } => {
            let es = sem_expr(c, env, start).1 + sem_expr(c, env, end).1;
            let inner = env.insert(var, TypeV::U64);
            (env, es + sem_stmts(c, ret, inner, body).1)
        },
        StmtV::Return(e) => {
            let (rt, es) = match e {
                Some(x) => sem_expr(c, env, x),
                None => (TypeV::Void, Seq::empty()),
            };
            if clash(rt, ret) {
                (
                    env,
                    es.push(
                        "Type mismatch in return: expected "@ + type_debug(ret) + ", got "@
                            + type_debug(rt),
                    ),
                )
            } else {
                (env, es)
            }
        },
        StmtV::Emit(_, args) => (env, sem_args(c, env, args).1),
        // the scrutinee must be a `u64` expression; each arm is checked in a
        // copy of the scope
        StmtV::Match { scrutinee, arms } => {
            let (st, es) = sem_expr(c, env, scrutinee);
            let es1 = if st != TypeV::U64 {
                es.push("match scrutinee must be u64 or bool, got "@ + type_debug(st))
            } else {
                es
            };
            (env, es1 + sem_arms(c, ret, env, arms))
        },
        StmtV::Expr(e) => (env, sem_expr(c, env, e).1),
    }
}

/// The environment after a sequence of statements and their errors.
pub open spec fn sem_stmts(c: Ctx, ret: TypeV, env: Env, ss: Seq<StmtV>) -> (Env, Seq<Seq<char>>)
    decreases ss,
{
    if ss.len() == 0 {
        (env, Seq::empty())
    } else {
        let (env1, e1) = sem_stmts(c, ret, env, ss.drop_last());
        let (env2, e2) = sem_stmt(c, ret, env1, ss.last());
        (env2, e1 + e2)
    }
}

/// The errors of the arms of a `match`; each arm starts from `env`.
pub open spec fn sem_arms(c: Ctx, ret: TypeV, env: Env, arms: Seq<MatchArmV>) -> Seq<Seq<char>>
    decreases arms,
{
    if arms.len() == 0 {
        Seq::empty()
    } else {
        sem_arms(c, ret, env, arms.drop_last()) + sem_stmts(c, ret, env, arms.last().body).1
    }
}

/// The environment a function body starts from: its parameters.
pub open spec fn params_env(ps: Seq<FieldV>) -> Env
    decreases ps.len(),
{
    if ps.len() == 0 {
        Map::empty()
    } else {
        params_env(ps.drop_last()).insert(ps.last().name, type_of_name(ps.last().ty))
    }
}

/// The declared result type of a function.
pub open spec fn ret_type(f: FunctionV) -> TypeV {
    match f.return_type {
        Some(r) => type_of_name(r),
        None => TypeV::Void,
    }
}

/// The errors found in one function.
pub open spec fn sem_function(c: Ctx, f: FunctionV) -> Seq<Seq<char>> {
    sem_stmts(c, ret_type(f), params_env(f.params), f.body).1
}

/// The errors found in the functions `fs`, in order.
pub open spec fn sem_functions(c: Ctx, fs: Seq<FunctionV>) -> Seq<Seq<char>>
    decreases fs.len(),
{
    if fs.len() == 0 {
        Seq::empty()
    } else {
        sem_functions(c, fs.drop_last()) + sem_function(c, fs.last())
    }
}

/// A struct's field types; a later field of the same name wins.
pub open spec fn field_types(fs: Seq<FieldV>) -> Map<Seq<char>, TypeV>
    decreases fs.len(),
{
    if fs.len() == 0 {
        Map::empty()
    } else {
        field_types(fs.drop_last()).insert(fs.last().name, type_of_name(fs.last().ty))
    }
}

/// The struct table after registering `ss` over `m`.
pub open spec fn register_structs(m: Map<Seq<char>, Map<Seq<char>, TypeV>>, ss: Seq<StructV>) -> Map<
    Seq<char>,
    Map<Seq<char>, TypeV>,
>
    decreases ss.len(),
{
    if ss.len() == 0 {
        m
    } else {
        register_structs(m, ss.drop_last()).insert(ss.last().name, field_types(ss.last().fields))
    }
}

pub open spec fn param_types(ps: Seq<FieldV>) -> Seq<TypeV> {
    Seq::new(ps.len(), |i: int| type_of_name(ps[i].ty))
}

/// The signature table after registering `fs` over `m`.
pub open spec fn register_functions(
    m: Map<Seq<char>, (Seq<TypeV>, TypeV)>,
    fs: Seq<FunctionV>,
) -> Map<Seq<char>, (Seq<TypeV>, TypeV)>
    decreases fs.len(),
{
    if fs.len() == 0 {
        m
    } else {
        register_functions(m, fs.drop_last()).insert(
            fs.last().name,
            (param_types(fs.last().params), ret_type(fs.last())),
        )
    }
}

/// The builtins: `poseidon(u64, u64)`, `verify_merkle_proof(u64, u64, u64)`,
/// `msg::sender()`, `msg::nonce()` and `block::number()`, all of result `u64`.
pub open spec fn with_builtins(m: Map<Seq<char>, (Seq<TypeV>, TypeV)>) -> Map<
    Seq<char>,
    (Seq<TypeV>, TypeV),
> {
    m.insert("poseidon"@, (seq![TypeV::U64, TypeV::U64], TypeV::U64)).insert(
        "verify_merkle_proof"@,
        (seq![TypeV::U64, TypeV::U64, TypeV::U64], TypeV::U64),
    ).insert("msg::sender"@, (Seq::empty(), TypeV::U64)).insert(
        "msg::nonce"@,
        (Seq::empty(), TypeV::U64),
    ).insert("block::number"@, (Seq::empty(), TypeV::U64))
}

/// The tables after analysing contract `k` over tables `c`.
pub open spec fn analyzed_ctx(c: Ctx, k: ContractV) -> Ctx {
    Ctx {
        structs: register_structs(c.structs, k.structs),
        functions: with_builtins(register_functions(c.functions, k.functions)),
    }
}

/// All errors of contract `k` analysed over tables `c`, in order.
pub open spec fn contract_errors(c: Ctx, k: ContractV) -> Seq<Seq<char>> {
    sem_functions(analyzed_ctx(c, k), k.functions)
}

/// Registering structs over `m` overrides `m` with what the structs alone register.
proof fn lemma_register_structs_over(
    m: Map<Seq<char>, Map<Seq<char>, TypeV>>,
    ss: Seq<StructV>,
)
    ensures
        register_structs(m, ss) == m.union_prefer_right(register_structs(Map::empty(), ss)),
    decreases ss.len(),
{
    if ss.len() > 0 {
        lemma_register_structs_over(m, ss.drop_last());
        assert(register_structs(m, ss) =~= m.union_prefer_right(
            register_structs(Map::empty(), ss),
        ));
    } else {
        assert(m =~= m.union_prefer_right(Map::empty()));
    }
}

/// Registering functions over `m` overrides `m` with what the functions alone register.
proof fn lemma_register_functions_over(
    m: Map<Seq<char>, (Seq<TypeV>, TypeV)>,
    fs: Seq<FunctionV>,
)
    ensures
        register_functions(m, fs) == m.union_prefer_right(register_functions(Map::empty(), fs)),
    decreases fs.len(),
{
    if fs.len() > 0 {
        lemma_register_functions_over(m, fs.drop_last());
        assert(register_functions(m, fs) =~= m.union_prefer_right(
            register_functions(Map::empty(), fs),
        ));
    } else {
        assert(m =~= m.union_prefer_right(Map::empty()));
    }
}

/// Typing of expressions: a number is a `u64`; a variable has the type it
/// was bound with, and an unbound one is reported and of unknown type; a
/// binary expression has the type of its left operand, reports the errors
/// of the left then of the right operand, then one mismatch when both
/// operand types are known and differ (comparisons included).
pub proof fn lemma_expression_typing(c: Ctx, env: Env, l: ExprV, op: BinOp, r: ExprV, n: Seq<char>, v: u64)
    ensures
        sem_expr(c, env, ExprV::Int(v)) == (TypeV::U64, Seq::<Seq<char>>::empty()),
        env.contains_key(n) ==> sem_expr(c, env, ExprV::Ident(n)) == (env[n], Seq::<Seq<char>>::empty()),
        !env.contains_key(n) ==> sem_expr(c, env, ExprV::Ident(n)) == (
            TypeV::Unknown,
            seq!["Undefined identifier: "@ + n],
        ),
        ({
            let (lt, e1) = sem_expr(c, env, l);
            let (rt, e2) = sem_expr(c, env, r);
            let (t, es) = sem_expr(c, env, ExprV::Binary(Box::new(l), op, Box::new(r)));
            &&& t == lt
            &&& (lt != rt && lt != TypeV::Unknown && rt != TypeV::Unknown) ==> es == (e1 + e2).push(
                "Type mismatch in binary expression"@,
            )
            &&& !(lt != rt && lt != TypeV::Unknown && rt != TypeV::Unknown) ==> es == e1 + e2
        }),
{
}

/// Assignment: to an unbound variable it is reported (before the errors of
/// the value); to a bound one it reports a mismatch when the value's type
/// and the variable's are known and differ. It never changes the scope.
pub proof fn lemma_assignment_checks(c: Ctx, ret: TypeV, env: Env, n: Seq<char>, e: ExprV)
    ensures
        sem_stmt(c, ret, env, StmtV::Assign(n, e)).0 == env,
        !env.contains_key(n) ==> sem_stmt(c, ret, env, StmtV::Assign(n, e)).1 == seq![
            "Undefined variable: "@ + n,
        ] + sem_expr(c, env, e).1,
        ({
            let (u, es) = sem_expr(c, env, e);
            env.contains_key(n) && env[n] != u && env[n] != TypeV::Unknown && u != TypeV::Unknown
                ==> sem_stmt(c, ret, env, StmtV::Assign(n, e)).1 == es.push(
                "Type mismatch in assign: expected "@ + type_debug(env[n]) + ", got "@
                    + type_debug(u),
            )
        }),
        ({
            let (u, es) = sem_expr(c, env, e);
            env.contains_key(n) && !(env[n] != u && env[n] != TypeV::Unknown && u
                != TypeV::Unknown) ==> sem_stmt(c, ret, env, StmtV::Assign(n, e)).1 == es
        }),
{
}

/// `let n = e;` binds `n` to the type of `e` and reports only the errors of `e`.
pub proof fn lemma_let_binds(c: Ctx, ret: TypeV, env: Env, n: Seq<char>, e: ExprV)
    ensures
        sem_stmt(c, ret, env, StmtV::Let(n, e)) == (
            env.insert(n, sem_expr(c, env, e).0),
            sem_expr(c, env, e).1,
        ),
{
}

/// The text of a return-type error.
pub open spec fn return_mismatch(expected: TypeV, got: TypeV) -> Seq<char> {
    "Type mismatch in return: expected "@ + type_debug(expected) + ", got "@ + type_debug(got)
}

/// `return e;` in a function of result type `ret` reports exactly one error
/// of its own, after those of `e`, when the type of `e` is known, `ret` is
/// known and they differ (a result type of `Void` included); otherwise it
/// reports only the errors of `e`. A bare `return;` counts as a `Void` value.
pub proof fn lemma_return_checks_type(c: Ctx, ret: TypeV, env: Env, e: Option<ExprV>)
    ensures
        ({
            let (u, es) = match e {
                Some(x) => sem_expr(c, env, x),
                None => (TypeV::Void, Seq::<Seq<char>>::empty()),
            };
            &&& sem_stmt(c, ret, env, StmtV::Return(e)).0 == env
            &&& (u != ret && u != TypeV::Unknown && ret != TypeV::Unknown) ==> sem_stmt(
                c,
                ret,
                env,
                StmtV::Return(e),
            ).1 == es.push(return_mismatch(ret, u))
            &&& !(u != ret && u != TypeV::Unknown && ret != TypeV::Unknown) ==> sem_stmt(
                c,
                ret,
                env,
                StmtV::Return(e),
            ).1 == es
        }),
{
}

/// The errors of a statement list begin with those of its first statement.
proof fn lemma_first_stmt_errors(c: Ctx, ret: TypeV, env: Env, ss: Seq<StmtV>)
    requires
        ss.len() > 0,
    ensures
        sem_stmts(c, ret, env, ss).1.len() >= sem_stmt(c, ret, env, ss[0]).1.len(),
    decreases ss.len(),
{
    if ss.len() > 1 {
        lemma_first_stmt_errors(c, ret, env, ss.drop_last());
        assert(ss.drop_last()[0] == ss[0]);
        let (env1, e1) = sem_stmts(c, ret, env, ss.drop_last());
        assert(sem_stmts(c, ret, env, ss).1 == e1 + sem_stmt(c, ret, env1, ss.last()).1);
    } else {
        assert(ss.drop_last() =~= Seq::<StmtV>::empty());
        assert(sem_stmts(c, ret, env, ss.drop_last()) == (env, Seq::<Seq<char>>::empty()));
        assert(ss.last() == ss[0]);
    }
}

/// The errors of a list of functions include those of each of them.
proof fn lemma_function_errors(c: Ctx, fs: Seq<FunctionV>, i: int)
    requires
        0 <= i < fs.len(),
    ensures
        sem_functions(c, fs).len() >= sem_function(c, fs[i]).len(),
    decreases fs.len(),
{
    if i < fs.len() - 1 {
        lemma_function_errors(c, fs.drop_last(), i);
    }
}

/// The result type a function declares: `Void` when it declares none.
pub open spec fn declared_result(f: FunctionV) -> TypeV {
    match f.return_type {
        None => TypeV::Void,
        Some(r) => type_of_name(r),
    }
}

/// A function whose body starts with `return e;`, where `e` has a known type
/// other than the declared result type (`Void` when none is declared) and
/// that type is known, makes the analysis of its contract fail: `analyze`
/// returns `Err` exactly when `contract_errors` is not empty.
pub proof fn lemma_wrong_return_fails_analysis(c: Ctx, k: ContractV, i: int, e: ExprV)
    requires
        0 <= i < k.functions.len(),
        k.functions[i].body.len() > 0,
        k.functions[i].body[0] == StmtV::Return(Some(e)),
        sem_expr(analyzed_ctx(c, k), params_env(k.functions[i].params), e).0 != declared_result(
            k.functions[i],
        ),
        sem_expr(analyzed_ctx(c, k), params_env(k.functions[i].params), e).0 != TypeV::Unknown,
        declared_result(k.functions[i]) != TypeV::Unknown,
    ensures
        contract_errors(c, k).len() > 0,
{
    let c1 = analyzed_ctx(c, k);
    let f = k.functions[i];
    let env = params_env(f.params);
    lemma_return_checks_type(c1, declared_result(f), env, Some(e));
    assert(ret_type(f) == declared_result(f));
    lemma_first_stmt_errors(c1, ret_type(f), env, f.body);
    lemma_function_errors(c1, k.functions, i);
}

/// Analysing the same contract a second time leaves the tables as the first
/// analysis left them and finds the same errors, in the same order.
pub proof fn lemma_analyze_idempotent(c: Ctx, k: ContractV)
    ensures
        analyzed_ctx(analyzed_ctx(c, k), k) == analyzed_ctx(c, k),
        contract_errors(analyzed_ctx(c, k), k) == contract_errors(c, k),
{
    let c1 = analyzed_ctx(c, k);
    let rs = register_structs(Map::empty(), k.structs);
    let rf = register_functions(Map::empty(), k.functions);
    lemma_register_structs_over(c.structs, k.structs);
    lemma_register_structs_over(c1.structs, k.structs);
    lemma_register_functions_over(c.functions, k.functions);
    lemma_register_functions_over(c1.functions, k.functions);
    assert(c1.structs.union_prefer_right(rs) =~= c1.structs);
    assert(with_builtins(c1.functions.union_prefer_right(rf)) =~= c1.functions);
    assert(analyzed_ctx(c1, k) == c1);
}


// ---------------------------------------------------------------------
// The analyzer
// ---------------------------------------------------------------------

/// The views of a list of types.
pub open spec fn types_view(s: Seq<Type>) -> Seq<TypeV> {
    Seq::new(s.len(), |i: int| s[i]@)
}

/// The views of a list of errors.
pub open spec fn errs_view(v: Seq<CompileError>) -> Seq<CompileErrorV> {
    Seq::new(v.len(), |i: int| v[i]@)
}

/// Semantic errors with the texts `ms`.
pub open spec fn sem_errs(ms: Seq<Seq<char>>) -> Seq<CompileErrorV> {
    Seq::new(ms.len(), |i: int| CompileErrorV::SemanticError(ms[i]))
}

/// The variables in scope: later entries shadow earlier ones.
///
/// The environment is a list of bindings rather than a map because a `for`
/// body and each `match` arm are checked in a copy of the scope, and a copy
/// is taken here by remembering the length and truncating back to it:
/// vstd's `StringHashMap` has no specified `clone` (nor a way to walk it),
/// and std's `HashMap` keyed by `String` gets no specification without an
/// assumed key model. The map this list stands for is `env_view`, and every
/// check is proved against that map.
pub open spec fn env_view(s: Seq<(String, Type)>) -> Env
    decreases s.len(),
{
    if s.len() == 0 {
        Map::empty()
    } else {
        env_view(s.drop_last()).insert(s.last().0@, s.last().1@)
    }
}

proof fn lemma_sem_errs_add(a: Seq<Seq<char>>, b: Seq<Seq<char>>)
    ensures
        sem_errs(a + b) == sem_errs(a) + sem_errs(b),
        sem_errs(Seq::empty()) == Seq::<CompileErrorV>::empty(),
{
    assert(sem_errs(a + b) =~= sem_errs(a) + sem_errs(b));
    assert(sem_errs(Seq::empty()) =~= Seq::<CompileErrorV>::empty());
}

proof fn lemma_sem_errs_push(a: Seq<Seq<char>>, m: Seq<char>)
    ensures
        sem_errs(a.push(m)) == sem_errs(a).push(CompileErrorV::SemanticError(m)),
{
    assert(sem_errs(a.push(m)) =~= sem_errs(a).push(CompileErrorV::SemanticError(m)));
}

/// Entries after `i` that do not bind `n` do not change its binding.
proof fn lemma_env_lookup(s: Seq<(String, Type)>, i: int, n: Seq<char>)
    requires
        0 <= i <= s.len(),
        forall|k: int| i <= k < s.len() ==> (#[trigger] s[k]).0@ != n,
    ensures
        env_view(s).contains_key(n) == env_view(s.subrange(0, i)).contains_key(n),
        env_view(s).contains_key(n) ==> env_view(s)[n] == env_view(s.subrange(0, i))[n],
    decreases s.len(),
{
    if s.len() > i {
        lemma_env_lookup(s.drop_last(), i, n);
        assert(s.drop_last().subrange(0, i) =~= s.subrange(0, i));
    } else {
        assert(s.subrange(0, i) =~= s);
    }
}

/// The type bound to `name`, if any.
fn env_get(env: &Vec<(String, Type)>, name: &String) -> (r: Option<Type>)
    ensures
        match r {
            Some(t) => env_view(env@).contains_key(name@) && t@ == env_view(env@)[name@],
            None => !env_view(env@).contains_key(name@),
        },
{
    let mut i = env.len();
    while i > 0
        invariant
            i <= env@.len(),
            forall|k: int| i <= k < env@.len() ==> (#[trigger] env@[k]).0@ != name@,
        decreases i,
    {
        if env[i - 1].0 == *name {
            proof {
                lemma_env_lookup(env@, i as int, name@);
                assert(env@.subrange(0, i as int).drop_last() =~= env@.subrange(0, i - 1));
            }
            return Some(env[i - 1].1.clone());
        }
        i = i - 1;
    }
    proof {
        lemma_env_lookup(env@, 0, name@);
        assert(env@.subrange(0, 0) =~= Seq::<(String, Type)>::empty());
    }
    None
}

fn type_eq(a: &Type, b: &Type) -> (r: bool)
    ensures
        r == (a@ == b@),
{
    match (a, b) {
        (Type::U64, Type::U64) => true,
        (Type::Bool, Type::Bool) => true,
        (Type::Field, Type::Field) => true,
        (Type::Struct(x), Type::Struct(y)) => *x == *y,
        (Type::Void, Type::Void) => true,
        (Type::Unknown, Type::Unknown) => true,
        _ => false,
    }
}

fn clashes(a: &Type, b: &Type) -> (r: bool)
    ensures
        r == clash(a@, b@),
{
    !type_eq(a, b) && !matches!(a, Type::Unknown) && !matches!(b, Type::Unknown)
}

fn type_debug_text(t: &Type) -> (s: String)
    ensures
        s@ == type_debug(t@),
{
    match t {
        Type::U64 => String::from_str("U64"),
        Type::Bool => String::from_str("Bool"),
        Type::Field => String::from_str("Field"),
        Type::Struct(n) => {
            let mut s = String::from_str("Struct(\"");
            s.append(n.as_str());
            s.append("\")");
            s
        },
        Type::Void => String::from_str("Void"),
        Type::Unknown => String::from_str("Unknown"),
    }
}

fn push_err(errors: &mut Vec<CompileError>, m: String)
    ensures
        errs_view(final(errors)@) == errs_view(old(errors)@).push(CompileErrorV::SemanticError(m@)),
{
    let ghost mv = m@;
    errors.push(CompileError::SemanticError(m));
    assert(errs_view(errors@) =~= errs_view(old(errors)@).push(CompileErrorV::SemanticError(mv)));
}

/// `a` followed by the text of `b`.
fn cat(a: &str, b: &String) -> (s: String)
    ensures
        s@ == a@ + b@,
{
    let mut s = String::from_str(a);
    s.append(b.as_str());
    s
}

impl Type {
    /// The type a type name stands for; never fails.
    pub fn from_str(s: &str) -> (r: Result<Type, String>)
        ensures
            r is Ok && r->Ok_0@ == type_of_name(s@),
    {
        let t = String::from_str(s);
        if t == String::from_str("u64") {
            Ok(Type::U64)
        } else if t == String::from_str("bool") {
            Ok(Type::Bool)
        } else if t == String::from_str("field") {
            Ok(Type::Field)
        } else {
            Ok(Type::Struct(t))
        }
    }
}

/// `n` parameters of type `u64`.
fn u64_params(n: usize) -> (v: Vec<Type>)
    ensures
        types_view(v@) == Seq::new(n as nat, |i: int| TypeV::U64),
{
    let mut v: Vec<Type> = Vec::new();
    let mut i: usize = 0;
    while i < n
        invariant
            i <= n,
            v@.len() == i,
            types_view(v@) == Seq::new(i as nat, |k: int| TypeV::U64),
        decreases n - i,
    {
        let ghost old_v = v@;
        v.push(Type::U64);
        proof {
            assert(v@[i as int] == Type::U64);
            assert(types_view(v@)[i as int] == TypeV::U64);
            assert forall|k: int| 0 <= k < i implies types_view(v@)[k] == TypeV::U64 by {
                assert(v@[k] == old_v[k]);
                assert(types_view(old_v)[k] == TypeV::U64);
            }
            assert(types_view(v@) =~= Seq::new((i + 1) as nat, |k: int| TypeV::U64));
        }
        i = i + 1;
    }
    v
}

/// Type checker state: struct and function tables and the result type of
/// the function being checked.
pub struct SemanticAnalyzer {
    pub structs: StringHashMap<StringHashMap<Type>>,
    pub functions: StringHashMap<(Vec<Type>, Type)>,
    pub current_func_ret: Type,
}

/// The struct table as types.
pub open spec fn structs_table(m: Map<Seq<char>, StringHashMap<Type>>) -> Map<
    Seq<char>,
    Map<Seq<char>, TypeV>,
> {
    m.map_values(|t: StringHashMap<Type>| t@.map_values(|x: Type| x@))
}

/// The signature table as types.
pub open spec fn functions_table(m: Map<Seq<char>, (Vec<Type>, Type)>) -> Map<
    Seq<char>,
    (Seq<TypeV>, TypeV),
> {
    m.map_values(|sig: (Vec<Type>, Type)| (types_view(sig.0@), sig.1@))
}

impl SemanticAnalyzer {
    /// What the analyzer knows, as types.
    pub open spec fn ctx(&self) -> Ctx {
        Ctx { structs: structs_table(self.structs@), functions: functions_table(self.functions@) }
    }

    /// An analyzer with empty tables and result type `Void`.
    pub fn new() -> (a: Self)
        ensures
            a.structs@ == Map::<Seq<char>, StringHashMap<Type>>::empty(),
            a.functions@ == Map::<Seq<char>, (Vec<Type>, Type)>::empty(),
            a.current_func_ret@ == TypeV::Void,
    {
        SemanticAnalyzer {
            structs: StringHashMap::new(),
            functions: StringHashMap::new(),
            current_func_ret: Type::Void,
        }
    }

    fn analyze_expr(&self, expr: &Expr, env: &Vec<(String, Type)>, errors: &mut Vec<CompileError>) -> (t: Type)
        ensures
            t@ == sem_expr(self.ctx(), env_view(env@), expr@).0,
            errs_view(final(errors)@) == errs_view(old(errors)@) + sem_errs(
                sem_expr(self.ctx(), env_view(env@), expr@).1,
            ),
        decreases expr,
    {
        let ghost c = self.ctx();
        let ghost ev = env_view(env@);
        proof {
            lemma_expr_view_lists(*expr);
            lemma_sem_errs_add(Seq::empty(), Seq::empty());
        }
        match expr {
            Expr::Int(_) => {
                assert(errs_view(errors@) =~= errs_view(old(errors)@) + Seq::<CompileErrorV>::empty());
                Type::U64
            },
            Expr::Ident(name) => match env_get(env, name) {
                Some(t) => {
                    assert(errs_view(errors@) =~= errs_view(old(errors)@) + Seq::<CompileErrorV>::empty());
                    t
                },
                None => {
                    push_err(errors, cat("Undefined identifier: ", name));
                    proof {
                        lemma_sem_errs_push(Seq::empty(), "Undefined identifier: "@ + name@);
                        assert(seq!["Undefined identifier: "@ + name@] =~= Seq::<Seq<char>>::empty().push("Undefined identifier: "@ + name@));
                    }
                    Type::Unknown
                },
            },
            Expr::StorageRead(_) => {
                assert(errs_view(errors@) =~= errs_view(old(errors)@) + Seq::<CompileErrorV>::empty());
                Type::U64
            },
            Expr::MappingRead(_, key) => {
                self.analyze_expr(key, env, errors);
                Type::U64
            },
            Expr::FieldAccess(base, field) => {
                let base_ty = self.analyze_expr(base, env, errors);
                let ghost es = sem_expr(c, ev, base@).1;
                match &base_ty {
                    Type::Struct(sname) => {
                        match self.structs.get(sname.as_str()) {
                            Some(fields) => {
                                match fields.get(field.as_str()) {
                                    Some(fty) => {
                                        return fty.clone();
                                    },
                                    None => {
                                        let mut m = cat("Struct ", sname);
                                        m.append(" has no field ");
                                        m.append(field.as_str());
                                        push_err(errors, m);
                                        proof {
                                            lemma_sem_errs_push(es, "Struct "@ + sname@ + " has no field "@ + field@);
                                        }
                                    },
                                }
                            },
                            None => {},
                        }
                    },
                    Type::Unknown => {},
                    _ => {
                        push_err(errors, String::from_str("Field access on non-struct"));
                        proof {
                            lemma_sem_errs_push(es, "Field access on non-struct"@);
                        }
                    },
                }
                Type::Unknown
            },
            Expr::StructLiteral(name, fields) => {
                match self.structs.get(name.as_str()) {
                    Some(sfields) => {
                        let ghost sf = c.structs[name@];
                        let ghost fv = field_inits_view(fields@);
                        let ghost base = errs_view(errors@);
                        let mut i: usize = 0;
                        proof {
                            assert(fv.subrange(0, 0) =~= Seq::<(Seq<char>, ExprV)>::empty());
                            assert(errs_view(errors@) =~= base + sem_errs(Seq::empty()));
                        }
                        while i < fields.len()
                            invariant
                                i <= fields@.len(),
                                c == self.ctx(),
                                ev == env_view(env@),
                                fv == field_inits_view(fields@),
                                *expr == Expr::StructLiteral(*name, *fields),
                                sf == c.structs[name@],
                                sf == sfields@.map_values(|x: Type| x@),
                                errs_view(errors@) == base + sem_errs(
                                    sem_field_inits(c, ev, sf, fv.subrange(0, i as int)),
                                ),
                            decreases fields@.len() - i,
                        {
                            let (fname, val) = &fields[i];
                            proof {
                                assert(decreases_to!(*expr => (*expr)->StructLiteral_1));
                                assert(decreases_to!(*fields => fields@[i as int]));
                                assert(decreases_to!(fields@[i as int] => fields@[i as int].1));
                            }
                            let ty = self.analyze_expr(val, env, errors);
                            let ghost prev = sem_field_inits(c, ev, sf, fv.subrange(0, i as int));
                            let ghost es = sem_expr(c, ev, val@).1;
                            proof {
                                assert(fv.subrange(0, i + 1).drop_last() =~= fv.subrange(0, i as int));
                                lemma_sem_errs_add(prev, es);
                            }
                            match sfields.get(fname.as_str()) {
                                Some(expected_ty) => {
                                    if !type_eq(&ty, expected_ty) && !matches!(ty, Type::Unknown) {
                                        let mut m = cat("Field ", fname);
                                        m.append(" type mismatch");
                                        push_err(errors, m);
                                        proof {
                                            lemma_sem_errs_push(prev + es, "Field "@ + fname@ + " type mismatch"@);
                                        }
                                    }
                                },
                                None => {
                                    let m = cat("Unknown field ", fname);
                                    push_err(errors, m);
                                    proof {
                                        lemma_sem_errs_push(prev + es, "Unknown field "@ + fname@);
                                    }
                                },
                            }
                            i = i + 1;
                        }
                        proof {
                            assert(fv.subrange(0, fields@.len() as int) =~= fv);
                        }
                        Type::Struct(name.clone())
                    },
                    None => {
                        push_err(errors, cat("Undefined struct: ", name));
                        proof {
                            lemma_sem_errs_push(Seq::empty(), "Undefined struct: "@ + name@);
                            assert(seq!["Undefined struct: "@ + name@] =~= Seq::<Seq<char>>::empty().push("Undefined struct: "@ + name@));
                        }
                        Type::Unknown
                    },
                }
            },
            Expr::Call(name, args) => {
                let ghost av = exprs_view(args@);
                let ghost base = errs_view(errors@);
                let mut arg_types: Vec<Type> = Vec::new();
                let mut i: usize = 0;
                proof {
                    assert(av.subrange(0, 0) =~= Seq::<ExprV>::empty());
                    assert(types_view(arg_types@) =~= Seq::<TypeV>::empty());
                    assert(errs_view(errors@) =~= base + sem_errs(Seq::empty()));
                }
                while i < args.len()
                    invariant
                        i <= args@.len(),
                        c == self.ctx(),
                        ev == env_view(env@),
                        av == exprs_view(args@),
                        *expr == Expr::Call(*name, *args),
                        arg_types@.len() == i,
                        types_view(arg_types@) == sem_args(c, ev, av.subrange(0, i as int)).0,
                        errs_view(errors@) == base + sem_errs(sem_args(c, ev, av.subrange(0, i as int)).1),
                    decreases args@.len() - i,
                {
                    proof {
                        assert(decreases_to!(*expr => (*expr)->Call_1));
                        assert(decreases_to!(*args => args@[i as int]));
                    }
                    let t = self.analyze_expr(&args[i], env, errors);
                    proof {
                        assert(av.subrange(0, i + 1).drop_last() =~= av.subrange(0, i as int));
                        lemma_sem_errs_add(
                            sem_args(c, ev, av.subrange(0, i as int)).1,
                            sem_expr(c, ev, args@[i as int]@).1,
                        );
                    }
                    let ghost old_types = arg_types@;
                    arg_types.push(t);
                    proof {
                        assert(types_view(arg_types@) =~= types_view(old_types).push(t@));
                    }
                    i = i + 1;
                }
                proof {
                    assert(av.subrange(0, args@.len() as int) =~= av);
                }
                let ghost es = sem_args(c, ev, av).1;
                let ghost ats = sem_args(c, ev, av).0;
                match self.functions.get(name.as_str()) {
                    Some(sig) => {
                        let params = &sig.0;
                        if params.len() != args.len() {
                            let mut m = cat("Function ", name);
                            m.append(" expects ");
                            push_decimal(&mut m, params.len() as u64);
                            m.append(" args, got ");
                            push_decimal(&mut m, args.len() as u64);
                            push_err(errors, m);
                            proof {
                                lemma_sem_errs_push(es, "Function "@ + name@ + " expects "@ + decimal(params@.len()) + " args, got "@ + decimal(av.len()));
                            }
                        } else {
                            let ghost ps = types_view(params@);
                            let ghost base2 = errs_view(errors@);
                            let mut k: usize = 0;
                            proof {
                                assert(base2 =~= base2 + sem_errs(arg_errors(name@, ps, ats, 0)));
                            }
                            while k < params.len()
                                invariant
                                    k <= params@.len(),
                                    params@.len() == arg_types@.len(),
                                    ps == types_view(params@),
                                    ats == types_view(arg_types@),
                                    errs_view(errors@) == base2 + sem_errs(arg_errors(name@, ps, ats, k as nat)),
                                decreases params@.len() - k,
                            {
                                if clashes(&params[k], &arg_types[k]) {
                                    let mut m = String::from_str("Arg ");
                                    push_decimal(&mut m, k as u64);
                                    m.append(" type mismatch in ");
                                    m.append(name.as_str());
                                    push_err(errors, m);
                                    proof {
                                        lemma_sem_errs_push(arg_errors(name@, ps, ats, k as nat), "Arg "@ + decimal(k as nat) + " type mismatch in "@ + name@);
                                    }
                                }
                                k = k + 1;
                            }
                            proof {
                                lemma_sem_errs_add(es, arg_errors(name@, ps, ats, ps.len()));
                            }
                        }
                        sig.1.clone()
                    },
                    None => {
                        push_err(errors, cat("Undefined function: ", name));
                        proof {
                            lemma_sem_errs_push(es, "Undefined function: "@ + name@);
                        }
                        Type::Unknown
                    },
                }
            },
            Expr::Binary(left, _, right) => {
                let l_ty = self.analyze_expr(left, env, errors);
                let r_ty = self.analyze_expr(right, env, errors);
                let ghost e1 = sem_expr(c, ev, left@).1;
                let ghost e2 = sem_expr(c, ev, right@).1;
                proof {
                    lemma_sem_errs_add(e1, e2);
                }
                if clashes(&l_ty, &r_ty) {
                    push_err(errors, String::from_str("Type mismatch in binary expression"));
                    proof {
                        lemma_sem_errs_push(e1 + e2, "Type mismatch in binary expression"@);
                    }
                }
                l_ty
            },
        }
    }

    #[verifier::spinoff_prover]
    #[verifier::rlimit(50)]
    fn analyze_stmt(&self, stmt: &Stmt, env: &mut Vec<(String, Type)>, errors: &mut Vec<CompileError>)
        ensures
            env_view(final(env)@) == sem_stmt(
                self.ctx(),
                self.current_func_ret@,
                env_view(old(env)@),
                stmt@,
            ).0,
            errs_view(final(errors)@) == errs_view(old(errors)@) + sem_errs(
                sem_stmt(self.ctx(), self.current_func_ret@, env_view(old(env)@), stmt@).1,
            ),
            old(env)@.len() <= final(env)@.len(),
            final(env)@.subrange(0, old(env)@.len() as int) == old(env)@,
        decreases stmt,
    {
        let ghost c = self.ctx();
        let ghost ret = self.current_func_ret@;
        let ghost ev = env_view(env@);
        proof {
            lemma_stmt_view_lists(*stmt);
            assert(env@.subrange(0, env@.len() as int) =~= env@);
        }
        match stmt {
            Stmt::Let(name, expr) => {
                let ty = self.analyze_expr(expr, env, errors);
                let ghost old_env = env@;
                env.push((name.clone(), ty));
                proof {
                    assert(env@.drop_last() =~= old_env);
                    assert(env@.subrange(0, old_env.len() as int) =~= old_env);
                }
            },
            Stmt::Constrain(expr) => {
                self.analyze_expr(expr, env, errors);
            },
            Stmt::Assign(name, expr) => {
                match env_get(env, name) {
                    Some(expected_ty) => {
                        let ty = self.analyze_expr(expr, env, errors);
                        if clashes(&expected_ty, &ty) {
                            let mut m = String::from_str("Type mismatch in assign: expected ");
                            let a = type_debug_text(&expected_ty);
                            m.append(a.as_str());
                            m.append(", got ");
                            let b = type_debug_text(&ty);
                            m.append(b.as_str());
                            push_err(errors, m);
                            proof {
                                lemma_sem_errs_push(
                                    sem_expr(c, ev, expr@).1,
                                    "Type mismatch in assign: expected "@ + type_debug(expected_ty@)
                                        + ", got "@ + type_debug(ty@),
                                );
                            }
                        }
                    },
                    None => {
                        push_err(errors, cat("Undefined variable: ", name));
                        self.analyze_expr(expr, env, errors);
                        proof {
                            let m = "Undefined variable: "@ + name@;
                            lemma_sem_errs_add(seq![m], sem_expr(c, ev, expr@).1);
                            assert(sem_errs(seq![m]) =~= seq![CompileErrorV::SemanticError(m)]);
                        }
                    },
                }
            },
            Stmt::StorageWrite(_, expr) => {
                self.analyze_expr(expr, env, errors);
            },
            Stmt::MappingWrite(_, key, val) => {
                self.analyze_expr(key, env, errors);
                self.analyze_expr(val, env, errors);
                proof {
                    lemma_sem_errs_add(sem_expr(c, ev, key@).1, sem_expr(c, ev, val@).1);
                }
            },
            Stmt::If(cond, then_branch, else_branch) => {
                self.analyze_expr(cond, env, errors);
                let ghost e0 = sem_expr(c, ev, cond@).1;
                proof {
                    assert(decreases_to!(*stmt => (*stmt)->If_1));
                }
                self.analyze_stmts(then_branch, env, errors);
                let ghost r1 = sem_stmts(c, ret, ev, stmts_view(then_branch@));
                proof {
                    lemma_sem_errs_add(e0, r1.1);
                }
                match else_branch {
                    Some(eb) => {
                        proof {
                            assert(decreases_to!(*stmt => (*stmt)->If_2));
                            assert(decreases_to!((*stmt)->If_2 => (*stmt)->If_2->Some_0));
                        }
                        self.analyze_stmts(eb, env, errors);
                        proof {
                            lemma_sem_errs_add(e0 + r1.1, sem_stmts(c, ret, r1.0, stmts_view(eb@)).1);
                        }
                    },
                    None => {},
                }
            },
            Stmt::While(cond, body) => {
                self.analyze_expr(cond, env, errors);
                proof {
                    assert(decreases_to!(*stmt => (*stmt)->While_1));
                }
                self.analyze_stmts(body, env, errors);
                proof {
                    lemma_sem_errs_add(sem_expr(c, ev, cond@).1, sem_stmts(c, ret, ev, stmts_view(body@)).1);
                }
            },
            Stmt::For { var, start, end, body } => {
                self.analyze_expr(start, env, errors);
                self.analyze_expr(end, env, errors);
                let saved = env.len();
                let ghost old_env = env@;
                env.push((var.clone(), Type::U64));
                proof {
                    assert(env@.drop_last() =~= old_env);
                    assert(decreases_to!(*stmt => (*stmt)->For_body));
                }
                self.analyze_stmts(body, env, errors);
                env.truncate(saved);
                proof {
                    assert(env@ =~= old_env);
                    let es = sem_expr(c, ev, start@).1 + sem_expr(c, ev, end@).1;
                    lemma_sem_errs_add(sem_expr(c, ev, start@).1, sem_expr(c, ev, end@).1);
                    lemma_sem_errs_add(es, sem_stmts(c, ret, ev.insert(var@, TypeV::U64), stmts_view(body@)).1);
                }
            },
            Stmt::Return(expr) => {
                let ret_ty = match expr {
                    Some(e) => self.analyze_expr(e, env, errors),
                    None => {
                        proof {
                            lemma_sem_errs_add(Seq::empty(), Seq::empty());
                            assert(errs_view(errors@) =~= errs_view(old(errors)@) + Seq::<CompileErrorV>::empty());
                        }
                        Type::Void
                    },
                };
                let ghost es = match stmt@->Return_0 {
                    Some(x) => sem_expr(c, ev, x).1,
                    None => Seq::empty(),
                };
                if clashes(&ret_ty, &self.current_func_ret) {
                    let mut m = String::from_str("Type mismatch in return: expected ");
                    let a = type_debug_text(&self.current_func_ret);
                    m.append(a.as_str());
                    m.append(", got ");
                    let b = type_debug_text(&ret_ty);
                    m.append(b.as_str());
                    push_err(errors, m);
                    proof {
                        lemma_sem_errs_push(
                            es,
                            "Type mismatch in return: expected "@ + type_debug(ret) + ", got "@
                                + type_debug(ret_ty@),
                        );
                    }
                }
            },
            Stmt::Emit(_, args) => {
                let ghost av = exprs_view(args@);
                let ghost base = errs_view(errors@);
                let mut i: usize = 0;
                proof {
                    assert(av.subrange(0, 0) =~= Seq::<ExprV>::empty());
                    assert(errs_view(errors@) =~= base + sem_errs(Seq::empty()));
                }
                while i < args.len()
                    invariant
                        i <= args@.len(),
                        c == self.ctx(),
                        ev == env_view(env@),
                        av == exprs_view(args@),
                        errs_view(errors@) == base + sem_errs(sem_args(c, ev, av.subrange(0, i as int)).1),
                    decreases args@.len() - i,
                {
                    self.analyze_expr(&args[i], env, errors);
                    proof {
                        assert(av.subrange(0, i + 1).drop_last() =~= av.subrange(0, i as int));
                        lemma_sem_errs_add(
                            sem_args(c, ev, av.subrange(0, i as int)).1,
                            sem_expr(c, ev, args@[i as int]@).1,
                        );
                    }
                    i = i + 1;
                }
                proof {
                    assert(av.subrange(0, args@.len() as int) =~= av);
                }
            },
            Stmt::Match { scrutinee, arms } => {
                let scrutinee_ty = self.analyze_expr(scrutinee, env, errors);
                let ghost es = sem_expr(c, ev, scrutinee@).1;
                let ghost es1 = if scrutinee_ty@ != TypeV::U64 {
                    es.push("match scrutinee must be u64 or bool, got "@ + type_debug(scrutinee_ty@))
                } else {
                    es
                };
                if !matches!(scrutinee_ty, Type::U64) {
                    let mut m = String::from_str("match scrutinee must be u64 or bool, got ");
                    let a = type_debug_text(&scrutinee_ty);
                    m.append(a.as_str());
                    push_err(errors, m);
                    proof {
                        lemma_sem_errs_push(es, "match scrutinee must be u64 or bool, got "@ + type_debug(scrutinee_ty@));
                    }
                }
                let ghost avs = arms_view(arms@);
                let ghost base = errs_view(errors@);
                let ghost env0 = env@;
                let mut i: usize = 0;
                proof {
                    assert(avs.subrange(0, 0) =~= Seq::<MatchArmV>::empty());
                    assert(errs_view(errors@) =~= base + sem_errs(Seq::empty()));
                }
                while i < arms.len()
                    invariant
                        i <= arms@.len(),
                        c == self.ctx(),
                        ret == self.current_func_ret@,
                        env@ == env0,
                        ev == env_view(env0),
                        avs == arms_view(arms@),
                        *stmt == (Stmt::Match { scrutinee: *scrutinee, arms: *arms }),
                        errs_view(errors@) == base + sem_errs(sem_arms(c, ret, ev, avs.subrange(0, i as int))),
                    decreases arms@.len() - i,
                {
                    let saved = env.len();
                    proof {
                        assert(decreases_to!(*stmt => (*stmt)->Match_arms));
                        assert(decreases_to!((*stmt)->Match_arms => arms@[i as int]));
                        assert(decreases_to!(arms@[i as int] => arms@[i as int].body));
                    }
                    self.analyze_stmts(&arms[i].body, env, errors);
                    env.truncate(saved);
                    proof {
                        assert(env@ =~= env0);
                        assert(avs.subrange(0, i + 1).drop_last() =~= avs.subrange(0, i as int));
                        lemma_sem_errs_add(
                            sem_arms(c, ret, ev, avs.subrange(0, i as int)),
                            sem_stmts(c, ret, ev, stmts_view(arms@[i as int].body@)).1,
                        );
                    }
                    i = i + 1;
                }
                proof {
                    assert(avs.subrange(0, arms@.len() as int) =~= avs);
                    lemma_sem_errs_add(es1, sem_arms(c, ret, ev, avs));
                }
            },
            Stmt::Expr(expr) => {
                self.analyze_expr(expr, env, errors);
            },
        }
    }

    fn analyze_stmts(&self, ss: &Vec<Stmt>, env: &mut Vec<(String, Type)>, errors: &mut Vec<CompileError>)
        ensures
            env_view(final(env)@) == sem_stmts(
                self.ctx(),
                self.current_func_ret@,
                env_view(old(env)@),
                stmts_view(ss@),
            ).0,
            errs_view(final(errors)@) == errs_view(old(errors)@) + sem_errs(
                sem_stmts(self.ctx(), self.current_func_ret@, env_view(old(env)@), stmts_view(ss@)).1,
            ),
            old(env)@.len() <= final(env)@.len(),
            final(env)@.subrange(0, old(env)@.len() as int) == old(env)@,
        decreases ss,
    {
        let ghost c = self.ctx();
        let ghost ret = self.current_func_ret@;
        let ghost ev0 = env_view(env@);
        let ghost env0 = env@;
        let ghost sv = stmts_view(ss@);
        let ghost base = errs_view(errors@);
        let mut i: usize = 0;
        proof {
            assert(sv.subrange(0, 0) =~= Seq::<StmtV>::empty());
            assert(errs_view(errors@) =~= base + sem_errs(Seq::empty()));
            assert(env@.subrange(0, env0.len() as int) =~= env0);
        }
        while i < ss.len()
            invariant
                i <= ss@.len(),
                c == self.ctx(),
                ret == self.current_func_ret@,
                sv == stmts_view(ss@),
                env0.len() <= env@.len(),
                env@.subrange(0, env0.len() as int) == env0,
                env_view(env@) == sem_stmts(c, ret, ev0, sv.subrange(0, i as int)).0,
                errs_view(errors@) == base + sem_errs(sem_stmts(c, ret, ev0, sv.subrange(0, i as int)).1),
            decreases ss@.len() - i,
        {
            let ghost before = env@;
            let ghost r0 = sem_stmts(c, ret, ev0, sv.subrange(0, i as int));
            proof {
                assert(decreases_to!(*ss => ss@[i as int]));
            }
            self.analyze_stmt(&ss[i], env, errors);
            proof {
                assert(sv.subrange(0, i + 1).drop_last() =~= sv.subrange(0, i as int));
                lemma_sem_errs_add(r0.1, sem_stmt(c, ret, r0.0, ss@[i as int]@).1);
                assert(env@.subrange(0, env0.len() as int) =~= before.subrange(0, env0.len() as int));
            }
            i = i + 1;
        }
        proof {
            assert(sv.subrange(0, ss@.len() as int) =~= sv);
        }
    }

    fn analyze_function(&mut self, func: &Function, errors: &mut Vec<CompileError>)
        ensures
            final(self).structs == old(self).structs,
            final(self).functions == old(self).functions,
            final(self).current_func_ret@ == ret_type(crate::ast::function_view(*func)),
            errs_view(final(errors)@) == errs_view(old(errors)@) + sem_errs(
                sem_function(old(self).ctx(), crate::ast::function_view(*func)),
            ),
    {
        let ghost fv = crate::ast::function_view(*func);
        let ghost pv = fv.params;
        let mut env: Vec<(String, Type)> = Vec::new();
        let mut i: usize = 0;
        proof {
            assert(pv.subrange(0, 0) =~= Seq::<FieldV>::empty());
        }
        while i < func.params.len()
            invariant
                i <= func.params@.len(),
                fv == crate::ast::function_view(*func),
                pv == fv.params,
                env_view(env@) == params_env(pv.subrange(0, i as int)),
            decreases func.params@.len() - i,
        {
            let param = &func.params[i];
            let ty = match Type::from_str(param.ty.as_str()) {
                Ok(t) => t,
                Err(_) => Type::Unknown,
            };
            let ghost old_env = env@;
            env.push((param.name.clone(), ty));
            proof {
                assert(env@.drop_last() =~= old_env);
                assert(pv.subrange(0, i + 1).drop_last() =~= pv.subrange(0, i as int));
            }
            i = i + 1;
        }
        proof {
            assert(pv.subrange(0, pv.len() as int) =~= pv);
        }
        self.current_func_ret = match &func.return_type {
            Some(r) => match Type::from_str(r.as_str()) {
                Ok(t) => t,
                Err(_) => Type::Unknown,
            },
            None => Type::Void,
        };
        self.analyze_stmts(&func.body, &mut env, errors);
    }

    /// Registers the contract's structs and function signatures (then the
    /// builtins) in the tables and checks every function; reports the first
    /// error found, if any. The tables keep what was registered either way.
    pub fn analyze(&mut self, contract: &Contract) -> (r: Result<(), CompileError>)
        ensures
            final(self).ctx() == analyzed_ctx(old(self).ctx(), contract@),
            final(self).current_func_ret@ == (if contract@.functions.len() == 0 {
                old(self).current_func_ret@
            } else {
                ret_type(contract@.functions.last())
            }),
            r is Ok <==> contract_errors(old(self).ctx(), contract@).len() == 0,
            r is Err ==> r->Err_0@ == CompileErrorV::SemanticError(
                contract_errors(old(self).ctx(), contract@)[0],
            ),
    {
        let ghost c0 = self.ctx();
        let ghost kv = contract@;
        let ghost ret0 = self.current_func_ret@;
        let mut errors: Vec<CompileError> = Vec::new();
        // 1. Register structs
        let mut i: usize = 0;
        proof {
            assert(kv.structs.subrange(0, 0) =~= Seq::<StructV>::empty());
        }
        while i < contract.structs.len()
            invariant
                i <= contract.structs@.len(),
                kv == contract@,
                structs_table(self.structs@) == register_structs(c0.structs, kv.structs.subrange(0, i as int)),
                functions_table(self.functions@) == c0.functions,
                self.current_func_ret@ == ret0,
            decreases contract.structs@.len() - i,
        {
            let st = &contract.structs[i];
            let ghost fv = crate::ast::fields_view(st.fields@);
            let mut fields: StringHashMap<Type> = StringHashMap::new();
            let mut j: usize = 0;
            proof {
                assert(fv.subrange(0, 0) =~= Seq::<FieldV>::empty());
                assert(fields@.map_values(|x: Type| x@) =~= Map::<Seq<char>, TypeV>::empty());
            }
            while j < st.fields.len()
                invariant
                    j <= st.fields@.len(),
                    fv == crate::ast::fields_view(st.fields@),
                    fields@.map_values(|x: Type| x@) == field_types(fv.subrange(0, j as int)),
                decreases st.fields@.len() - j,
            {
                let f = &st.fields[j];
                let ty = match Type::from_str(f.ty.as_str()) {
                    Ok(t) => t,
                    Err(e) => {
                        return Err(CompileError::SemanticError(e));
                    },
                };
                let ghost old_fields = fields@;
                let ghost tv = ty@;
                fields.insert(f.name.clone(), ty);
                proof {
                    assert(fv.subrange(0, j + 1).drop_last() =~= fv.subrange(0, j as int));
                    assert(fields@.map_values(|x: Type| x@) =~= old_fields.map_values(|x: Type| x@).insert(f.name@, tv));
                }
                j = j + 1;
            }
            proof {
                assert(fv.subrange(0, fv.len() as int) =~= fv);
            }
            let ghost old_structs = self.structs@;
            let ghost fm = fields@;
            self.structs.insert(st.name.clone(), fields);
            proof {
                assert(structs_table(self.structs@) =~= structs_table(old_structs).insert(
                    st.name@,
                    fm.map_values(|x: Type| x@),
                ));
                assert(kv.structs.subrange(0, i + 1).drop_last() =~= kv.structs.subrange(0, i as int));
            }
            i = i + 1;
        }
        proof {
            assert(kv.structs.subrange(0, kv.structs.len() as int) =~= kv.structs);
        }
        // 2. Register function signatures
        let mut i: usize = 0;
        proof {
            assert(kv.functions.subrange(0, 0) =~= Seq::<FunctionV>::empty());
        }
        while i < contract.functions.len()
            invariant
                i <= contract.functions@.len(),
                kv == contract@,
                structs_table(self.structs@) == register_structs(c0.structs, kv.structs),
                functions_table(self.functions@) == register_functions(
                    c0.functions,
                    kv.functions.subrange(0, i as int),
                ),
                self.current_func_ret@ == ret0,
            decreases contract.functions@.len() - i,
        {
            let f = &contract.functions[i];
            let ghost pv = crate::ast::params_view(f.params@);
            let mut params: Vec<Type> = Vec::new();
            let mut k: usize = 0;
            proof {
                assert(types_view(params@) =~= param_types(pv).subrange(0, 0));
            }
            while k < f.params.len()
                invariant
                    k <= f.params@.len(),
                    pv == crate::ast::params_view(f.params@),
                    types_view(params@) == param_types(pv).subrange(0, k as int),
                decreases f.params@.len() - k,
            {
                let ty = match Type::from_str(f.params[k].ty.as_str()) {
                    Ok(t) => t,
                    Err(_) => Type::Unknown,
                };
                let ghost old_params = params@;
                proof {
                    assert(ty@ == param_types(pv)[k as int]);
                }
                params.push(ty);
                proof {
                    assert(types_view(params@) =~= types_view(old_params).push(ty@));
                    assert(param_types(pv).subrange(0, k + 1) =~= param_types(pv).subrange(0, k as int).push(ty@));
                }
                k = k + 1;
            }
            proof {
                assert(param_types(pv).subrange(0, pv.len() as int) =~= param_types(pv));
            }
            let ret_ty = match &f.return_type {
                Some(r) => match Type::from_str(r.as_str()) {
                    Ok(t) => t,
                    Err(_) => Type::Unknown,
                },
                None => Type::Void,
            };
            let ghost old_functions = self.functions@;
            let ghost sig = (types_view(params@), ret_ty@);
            self.functions.insert(f.name.clone(), (params, ret_ty));
            proof {
                assert(functions_table(self.functions@) =~= functions_table(old_functions).insert(
                    f.name@,
                    sig,
                ));
                assert(kv.functions.subrange(0, i + 1).drop_last() =~= kv.functions.subrange(0, i as int));
            }
            i = i + 1;
        }
        proof {
            assert(kv.functions.subrange(0, kv.functions.len() as int) =~= kv.functions);
        }
        // 3. Builtins
        let ghost t0 = self.functions@;
        let p2 = u64_params(2);
        let p3 = u64_params(3);
        let ghost p2v = types_view(p2@);
        let ghost p3v = types_view(p3@);
        self.functions.insert(String::from_str("poseidon"), (p2, Type::U64));
        self.functions.insert(String::from_str("verify_merkle_proof"), (p3, Type::U64));
        self.functions.insert(String::from_str("msg::sender"), (Vec::new(), Type::U64));
        self.functions.insert(String::from_str("msg::nonce"), (Vec::new(), Type::U64));
        self.functions.insert(String::from_str("block::number"), (Vec::new(), Type::U64));
        proof {
            reveal_strlit("poseidon");
            reveal_strlit("verify_merkle_proof");
            reveal_strlit("msg::sender");
            reveal_strlit("msg::nonce");
            reveal_strlit("block::number");
            let two = seq![TypeV::U64, TypeV::U64];
            let three = seq![TypeV::U64, TypeV::U64, TypeV::U64];
            assert(p2v =~= two);
            assert(p3v =~= three);
            assert(types_view(self.functions@["msg::sender"@].0@) =~= Seq::<TypeV>::empty());
            assert(types_view(self.functions@["msg::nonce"@].0@) =~= Seq::<TypeV>::empty());
            assert(types_view(self.functions@["block::number"@].0@) =~= Seq::<TypeV>::empty());
            assert(functions_table(self.functions@) =~= with_builtins(functions_table(t0)));
        }
        let ghost c1 = self.ctx();
        assert(c1 == analyzed_ctx(c0, kv));
        // 4. Check every function
        let mut i: usize = 0;
        proof {
            assert(kv.functions.subrange(0, 0) =~= Seq::<FunctionV>::empty());
            assert(errs_view(errors@) =~= sem_errs(Seq::empty()));
        }
        while i < contract.functions.len()
            invariant
                i <= contract.functions@.len(),
                kv == contract@,
                self.ctx() == c1,
                errs_view(errors@) == sem_errs(sem_functions(c1, kv.functions.subrange(0, i as int))),
                self.current_func_ret@ == (if i == 0 {
                    ret0
                } else {
                    ret_type(kv.functions[i - 1])
                }),
            decreases contract.functions@.len() - i,
        {
            let ghost before = errs_view(errors@);
            self.analyze_function(&contract.functions[i], &mut errors);
            proof {
                assert(kv.functions.subrange(0, i + 1).drop_last() =~= kv.functions.subrange(0, i as int));
                lemma_sem_errs_add(
                    sem_functions(c1, kv.functions.subrange(0, i as int)),
                    sem_function(c1, kv.functions[i as int]),
                );
            }
            i = i + 1;
        }
        proof {
            assert(kv.functions.subrange(0, kv.functions.len() as int) =~= kv.functions);
        }
        if errors.len() == 0 {
            Ok(())
        } else {
            proof {
                let ms = sem_functions(c1, kv.functions);
                assert(errs_view(errors@)[0] == errors@[0]@);
                assert(sem_errs(ms)[0] == CompileErrorV::SemanticError(ms[0]));
            }
            let e = errors.remove(0);
            Err(e)
        }
    }
}

impl Default for SemanticAnalyzer {
    fn default() -> (a: Self)
        ensures
            a.structs@ == Map::<Seq<char>, StringHashMap<Type>>::empty(),
            a.functions@ == Map::<Seq<char>, (Vec<Type>, Type)>::empty(),
            a.current_func_ret@ == TypeV::Void,
    {
        Self::new()
    }
}

} // verus!
