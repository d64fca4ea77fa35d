//! A tree-walking evaluator for the syntax tree, used as a cross-check for
//! the IR backend: it runs statements directly against one mutable memory
//! cell and collects the values that print statements produce.
//!
//! `eval_*_v` and `interp_stmts_v` are the mathematical meaning of a
//! program, over unbounded integers with truncating division; the
//! executable evaluator is proved to return exactly those values whenever
//! evaluation stays within the 64-bit range and never divides by zero
//! (`eval_expr_ok` / `interp_ok`).

use vstd::prelude::*;

use crate::ast::Expr;
use crate::ast::InfixExpr;
use crate::ast::InfixOp;
use crate::ast::PrefixExpr;
use crate::ast::PrefixOp;
use crate::ast::PrimaryExpr;
use crate::ast::Stmt;
use crate::ast::TransUnit;

verus! {

pub open spec fn int_abs(a: int) -> int {
    if a < 0 {
        -a
    } else {
        a
    }
}

/// Truncating division, as the `/` of the generated target code and of the
/// evaluator both behave: the quotient is rounded toward zero.
pub open spec fn tdiv(a: int, b: int) -> int {
    if (a < 0) == (b < 0) {
        int_abs(a) / int_abs(b)
    } else {
        -(int_abs(a) / int_abs(b))
    }
}

pub open spec fn eval_op(op: InfixOp, a: int, b: int) -> int {
    match op {
        InfixOp::Plus => a + b,
        InfixOp::Minus => a - b,
        InfixOp::Multiply => a * b,
        InfixOp::Divide => tdiv(a, b),
    }
}

pub open spec fn eval_expr_v(mem: int, e: Expr) -> int
    decreases e,
{
    match e {
        Expr::Primary(p) => eval_primary_v(mem, *p),
        Expr::Prefix(p) => eval_prefix_v(mem, *p),
        Expr::Infix(p) => eval_infix_v(mem, *p),
    }
}

pub open spec fn eval_primary_v(mem: int, p: PrimaryExpr) -> int
    decreases p,
{
    match p {
        PrimaryExpr::Mem => mem,
        PrimaryExpr::Int(i) => i as int,
        PrimaryExpr::Expr(e) => eval_expr_v(mem, *e),
    }
}

pub open spec fn eval_prefix_v(mem: int, p: PrefixExpr) -> int
    decreases p,
{
    let v = eval_expr_v(mem, *p.expr);
    match p.op {
        PrefixOp::Plus => v,
        PrefixOp::Minus => -v,
    }
}

pub open spec fn eval_infix_v(mem: int, x: InfixExpr) -> int
    decreases x,
{
    eval_op(x.op, eval_expr_v(mem, *x.lhs), eval_expr_v(mem, *x.rhs))
}

pub open spec fn in_i64(v: int) -> bool {
    i64::MIN as int <= v <= i64::MAX as int
}

/// Evaluation of `e` neither leaves the 64-bit range at any node nor
/// divides by zero.  Division by zero and overflow are deliberately not
/// checked by the language; an evaluation that runs into them has no
/// defined result, so the evaluator requires this predicate.
pub open spec fn eval_expr_ok(mem: int, e: Expr) -> bool
    decreases e,
{
    match e {
        Expr::Primary(p) => eval_primary_ok(mem, *p),
        Expr::Prefix(p) => eval_prefix_ok(mem, *p),
        Expr::Infix(p) => eval_infix_ok(mem, *p),
    }
}

pub open spec fn eval_primary_ok(mem: int, p: PrimaryExpr) -> bool
    decreases p,
{
    match p {
        PrimaryExpr::Mem => true,
        PrimaryExpr::Int(_) => true,
        PrimaryExpr::Expr(e) => eval_expr_ok(mem, *e),
    }
}

pub open spec fn eval_prefix_ok(mem: int, p: PrefixExpr) -> bool
    decreases p,
{
    &&& eval_expr_ok(mem, *p.expr)
    &&& in_i64(eval_prefix_v(mem, p))
}

pub open spec fn eval_infix_ok(mem: int, x: InfixExpr) -> bool
    decreases x,
{
    &&& eval_expr_ok(mem, *x.lhs)
    &&& eval_expr_ok(mem, *x.rhs)
    &&& (x.op is Divide ==> eval_expr_v(mem, *x.rhs) != 0)
    &&& in_i64(eval_infix_v(mem, x))
}

/// The memory cell the evaluator runs against.
pub struct Env {
    pub mem: i64,
}

impl Env {
    pub fn new() -> (r: Env)
        ensures
            r.mem == 0,
    {
        Env { mem: 0 }
    }

    pub fn get_mem(&self) -> (r: i64)
        ensures
            r == self.mem,
    {
        self.mem
    }

    pub fn set_mem(&mut self, val: i64)
        ensures
            final(self).mem == val,
    {
        self.mem = val;
    }
}

pub fn eval_expr(env: &mut Env, expr: &Expr) -> (r: i64)
    requires
        eval_expr_ok(old(env).mem as int, *expr),
    ensures
        r as int == eval_expr_v(old(env).mem as int, *expr),
        final(env).mem == old(env).mem,
    decreases expr,
{
    match expr {
        Expr::Primary(e) => eval_primary(env, e),
        Expr::Prefix(e) => eval_prefix(env, e),
        Expr::Infix(e) => eval_infix(env, e),
    }
}

pub fn eval_primary(env: &mut Env, expr: &PrimaryExpr) -> (r: i64)
    requires
        eval_primary_ok(old(env).mem as int, *expr),
    ensures
        r as int == eval_primary_v(old(env).mem as int, *expr),
        final(env).mem == old(env).mem,
    decreases expr,
{
    match expr {
        PrimaryExpr::Mem => env.get_mem(),
        PrimaryExpr::Int(i) => *i,
        PrimaryExpr::Expr(e) => eval_expr(env, e),
    }
}

pub fn eval_prefix(env: &mut Env, expr: &PrefixExpr) -> (r: i64)
    requires
        eval_prefix_ok(old(env).mem as int, *expr),
    ensures
        r as int == eval_prefix_v(old(env).mem as int, *expr),
        final(env).mem == old(env).mem,
    decreases expr,
{
    let rhs = eval_expr(env, &expr.expr);
    match expr.op {
        PrefixOp::Plus => rhs,
        PrefixOp::Minus => -rhs,
    }
}

pub fn eval_infix(env: &mut Env, expr: &InfixExpr) -> (r: i64)
    requires
        eval_infix_ok(old(env).mem as int, *expr),
    ensures
        r as int == eval_infix_v(old(env).mem as int, *expr),
        final(env).mem == old(env).mem,
    decreases expr,
{
    let lhs = eval_expr(env, &expr.lhs);
    let rhs = eval_expr(env, &expr.rhs);
    match expr.op {
        InfixOp::Plus => lhs + rhs,
        InfixOp::Minus => lhs - rhs,
        InfixOp::Multiply => lhs * rhs,
        InfixOp::Divide => {
            let q = lhs.checked_div(rhs).unwrap();
            proof {
                assert(q as int == tdiv(lhs as int, rhs as int));
            }
            q
        },
    }
}

/// The meaning of running statements from memory value `mem`: the final
/// memory value and the sequence of printed values, in program order.
#[verifier::ext_equal]
pub struct InterpResult {
    pub mem: int,
    pub output: Seq<int>,
}

pub open spec fn interp_stmts_v(mem: int, ss: Seq<Stmt>) -> InterpResult
    decreases ss.len(),
{
    if ss.len() == 0 {
        InterpResult { mem: mem, output: Seq::<int>::empty() }
    } else {
        match ss[0] {
            Stmt::ExprStmt(e) => interp_stmts_v(eval_expr_v(mem, e), ss.drop_first()),
            Stmt::PrintStmt(e) => {
                let rest = interp_stmts_v(mem, ss.drop_first());
                InterpResult { mem: rest.mem, output: seq![eval_expr_v(mem, e)] + rest.output }
            },
        }
    }
}

pub open spec fn interp_ok(mem: int, ss: Seq<Stmt>) -> bool
    decreases ss.len(),
{
    ss.len() == 0 || {
        match ss[0] {
            Stmt::ExprStmt(e) => eval_expr_ok(mem, e) && interp_ok(
                eval_expr_v(mem, e),
                ss.drop_first(),
            ),
            Stmt::PrintStmt(e) => eval_expr_ok(mem, e) && interp_ok(mem, ss.drop_first()),
        }
    }
}

/// Runs the program against a fresh memory cell and returns the printed
/// values in program order.
pub fn interpret(tu: &TransUnit) -> (out: Vec<i64>)
    requires
        interp_ok(0, tu.block.stmts@),
    ensures
        out@.map_values(|v: i64| v as int) == interp_stmts_v(0, tu.block.stmts@).output,
{
    let mut env = Env::new();
    let mut out: Vec<i64> = Vec::new();
    let ghost total = interp_stmts_v(0, tu.block.stmts@);
    let n = tu.block.stmts.len();
    let mut i: usize = 0;
    proof {
        assert(tu.block.stmts@.skip(0) =~= tu.block.stmts@);
        assert(out@.map_values(|v: i64| v as int) =~= Seq::<int>::empty());
    }
    while i < n
        invariant
            i <= n,
            n == tu.block.stmts.len(),
            interp_ok(env.mem as int, tu.block.stmts@.skip(i as int)),
            total == interp_stmts_v(0, tu.block.stmts@),
            total.mem == interp_stmts_v(env.mem as int, tu.block.stmts@.skip(i as int)).mem,
            total.output == out@.map_values(|v: i64| v as int) + interp_stmts_v(
                env.mem as int,
                tu.block.stmts@.skip(i as int),
            ).output,
        decreases n - i,
    {
        proof {
            assert(tu.block.stmts@.skip(i as int).len() > 0);
            assert(tu.block.stmts@.skip(i as int)[0] == tu.block.stmts@[i as int]);
            assert(tu.block.stmts@.skip(i as int).drop_first() =~= tu.block.stmts@.skip(
                i as int + 1,
            ));
        }
        let stmt = &tu.block.stmts[i];
        match stmt {
            Stmt::ExprStmt(expr) => {
                let ret = eval_expr(&mut env, expr);
                env.set_mem(ret);
            },
            Stmt::PrintStmt(expr) => {
                let v = eval_expr(&mut env, expr);
                out.push(v);
            },
        }
        i = i + 1;
        proof {
            assert(total.output == out@.map_values(|v: i64| v as int) + interp_stmts_v(
                env.mem as int,
                tu.block.stmts@.skip(i as int),
            ).output);
        }
    }
    proof {
        assert(tu.block.stmts@.skip(n as int).len() == 0);
        assert(total.output =~= out@.map_values(|v: i64| v as int));
    }
    out
}

} // verus!
