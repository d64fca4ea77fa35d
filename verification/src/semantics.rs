//! What the emitted instruction sequence computes, and the proof that it
//! computes the same thing as the tree-walking evaluator.
//!
//! `run_insts` executes a recorded instruction list symbolically: the run
//! state carries the value of the one storage cell, the value every
//! instruction has produced so far, and the values printed so far.  The
//! laws at the end of the module state the observable guarantees of
//! lowering: determinism, left-to-right order, transparency of unary plus
//! and parentheses, a fixed global registry, and equivalence with the
//! evaluator.

use vstd::prelude::*;

use crate::ast::Expr;
use crate::ast::InfixExpr;
use crate::ast::PrefixExpr;
use crate::ast::PrefixOp;
use crate::ast::PrimaryExpr;
use crate::ast::Stmt;
use crate::ast::TransUnit;
use crate::interpreter::eval_expr_v;
use crate::interpreter::eval_infix_v;
use crate::interpreter::eval_prefix_v;
use crate::interpreter::interp_stmts_v;
use crate::interpreter::tdiv;
use crate::ir::binop_of;
use crate::ir::init_ctx_v;
use crate::ir::lower_expr_v;
use crate::ir::lower_infix_v;
use crate::ir::lower_prefix_v;
use crate::ir::lower_primary_v;
use crate::ir::lower_stmt_v;
use crate::ir::lower_stmts_v;
use crate::ir::lemma_lower_expr_shape;
use crate::ir::mem_handle_v;
use crate::ir::BinaryOp;
use crate::ir::ContextV;
use crate::ir::IrGenerator;
use crate::ir::LoweredExpr;
use crate::ir::ValueV;

verus! {

/// The state of a symbolic run: the one storage cell, the result value of
/// every instruction executed so far (keyed by its handle), and the values
/// printed so far.
#[verifier::ext_equal]
pub struct RunState {
    pub mem: int,
    pub vals: Map<int, int>,
    pub output: Seq<int>,
}

pub open spec fn apply_binop(op: BinaryOp, a: int, b: int) -> int {
    match op {
        BinaryOp::Add => a + b,
        BinaryOp::Sub => a - b,
        BinaryOp::Mul => a * b,
        BinaryOp::Div => tdiv(a, b),
    }
}

/// The value a handle contributes as an operand: a constant is itself, any
/// other value is whatever the instruction at that handle produced.
pub open spec fn operand_val(arena: Seq<ValueV>, vals: Map<int, int>, h: int) -> int {
    match arena[h] {
        ValueV::Constant { value } => value,
        _ => vals[h],
    }
}

/// One step: executes the instruction at handle `h`.
pub open spec fn step_inst(arena: Seq<ValueV>, st: RunState, h: int) -> RunState {
    match arena[h] {
        ValueV::Load { .. } => RunState { vals: st.vals.insert(h, st.mem), ..st },
        ValueV::Store { source, .. } => RunState {
            mem: operand_val(arena, st.vals, source),
            ..st
        },
        ValueV::Binary { op, left, right, .. } => RunState {
            vals: st.vals.insert(
                h,
                apply_binop(
                    op,
                    operand_val(arena, st.vals, left),
                    operand_val(arena, st.vals, right),
                ),
            ),
            ..st
        },
        ValueV::Print { param } => RunState {
            output: st.output.push(operand_val(arena, st.vals, param)),
            ..st
        },
        _ => st,
    }
}

pub open spec fn run_insts(arena: Seq<ValueV>, insts: Seq<int>, st: RunState) -> RunState
    decreases insts.len(),
{
    if insts.len() == 0 {
        st
    } else {
        run_insts(arena, insts.drop_first(), step_inst(arena, st, insts[0]))
    }
}

/// Running a single instruction is one step.
pub proof fn lemma_run_one(arena: Seq<ValueV>, h: int, st: RunState)
    ensures
        run_insts(arena, seq![h], st) == step_inst(arena, st, h),
{
    reveal_with_fuel(run_insts, 2);
    assert(seq![h].drop_first() =~= Seq::<int>::empty());
    assert(seq![h][0] == h);
}

/// Running a concatenation runs the parts in order.
pub proof fn lemma_run_append(arena: Seq<ValueV>, i1: Seq<int>, i2: Seq<int>, st: RunState)
    ensures
        run_insts(arena, i1 + i2, st) == run_insts(arena, i2, run_insts(arena, i1, st)),
    decreases i1.len(),
{
    if i1.len() == 0 {
        assert(i1 + i2 =~= i2);
    } else {
        assert((i1 + i2).drop_first() =~= i1.drop_first() + i2);
        assert((i1 + i2)[0] == i1[0]);
        lemma_run_append(arena, i1.drop_first(), i2, step_inst(arena, st, i1[0]));
    }
}

/// The arena slice starting at `base` holds exactly `vals`.
pub open spec fn arena_has(a: Seq<ValueV>, base: int, vals: Seq<ValueV>) -> bool {
    &&& 0 <= base
    &&& base + vals.len() <= a.len()
    &&& forall|i: int| 0 <= i < vals.len() ==> a[base + i] == #[trigger] vals[i]
}

/// What a run of the instructions lowered for one expression does: it
/// leaves memory and output alone, touches only the handles of the values
/// it allocated, and leaves the result handle carrying exactly `expected`,
/// the value the evaluator gives the expression.
pub open spec fn expr_run_ok(
    a: Seq<ValueV>,
    out: LoweredExpr,
    base: int,
    st: RunState,
    expected: int,
) -> bool {
    let st2 = run_insts(a, out.insts, st);
    &&& st2.mem == st.mem
    &&& st2.output == st.output
    &&& (forall|k: int| !(base <= k < base + out.vals.len()) ==> st2.vals[k] == st.vals[k])
    &&& operand_val(a, st2.vals, out.handle) == expected
}

/// Running the instructions lowered for an expression computes the
/// evaluator's value for it.
pub proof fn lemma_run_expr(e: Expr, a: Seq<ValueV>, base: int, next_id: int, memh: int, st: RunState)
    requires
        0 <= memh < base,
        arena_has(a, base, lower_expr_v(e, base, next_id, memh).vals),
    ensures
        expr_run_ok(
            a,
            lower_expr_v(e, base, next_id, memh),
            base,
            st,
            eval_expr_v(st.mem, e),
        ),
    decreases e,
{
    let out = lower_expr_v(e, base, next_id, memh);
    lemma_lower_expr_shape(e, base, next_id, memh);
    match e {
        Expr::Primary(p) => {
            match *p {
                PrimaryExpr::Mem => {
                    assert(a[base] == out.vals[0]);
                    lemma_run_one(a, base, st);
                },
                PrimaryExpr::Int(_) => {
                    assert(a[base] == out.vals[0]);
                },
                PrimaryExpr::Expr(inner) => {
                    lemma_run_expr(*inner, a, base, next_id, memh, st);
                },
            }
        },
        Expr::Prefix(p) => {
            let sub = lower_expr_v(*p.expr, base, next_id, memh);
            lemma_lower_expr_shape(*p.expr, base, next_id, memh);
            assert(arena_has(a, base, sub.vals)) by {
                assert(forall|i: int|
                    0 <= i < sub.vals.len() ==> a[base + i] == #[trigger] sub.vals[i]) by {
                    assert(forall|i: int|
                        0 <= i < sub.vals.len() ==> out.vals[i] == #[trigger] sub.vals[i]);
                }
            }
            lemma_run_expr(*p.expr, a, base, next_id, memh, st);
            let st1 = run_insts(a, sub.insts, st);
            match p.op {
                PrefixOp::Plus => {
                },
                PrefixOp::Minus => {
                    let zero = base + sub.vals.len() as int;
                    assert(a[zero] == out.vals[sub.vals.len() as int]);
                    assert(a[zero + 1] == out.vals[sub.vals.len() as int + 1]);
                    lemma_run_append(a, sub.insts, seq![zero + 1], st);
                    lemma_run_one(a, zero + 1, st1);
                    let st2 = step_inst(a, st1, zero + 1);
                    assert(operand_val(a, st1.vals, zero) == 0);
                    assert(operand_val(a, st1.vals, sub.handle) == eval_expr_v(st.mem, *p.expr));
                    assert(st2.vals[zero + 1] == 0 - eval_expr_v(st.mem, *p.expr));
                    assert(operand_val(a, st2.vals, out.handle) == eval_prefix_v(st.mem, *p));
                },
            }
        },
        Expr::Infix(x) => {
            let l = lower_expr_v(*x.lhs, base, next_id, memh);
            let rbase = base + l.vals.len() as int;
            let r = lower_expr_v(*x.rhs, rbase, l.next_id, memh);
            let h = rbase + r.vals.len() as int;
            lemma_lower_expr_shape(*x.lhs, base, next_id, memh);
            lemma_lower_expr_shape(*x.rhs, rbase, l.next_id, memh);
            assert(arena_has(a, base, l.vals)) by {
                assert(forall|i: int|
                    0 <= i < l.vals.len() ==> out.vals[i] == #[trigger] l.vals[i]);
            }
            assert(arena_has(a, rbase, r.vals)) by {
                assert(forall|i: int|
                    0 <= i < r.vals.len() ==> out.vals[l.vals.len() + i as int] == #[trigger] r.vals[i]);
                assert(forall|i: int|
                    0 <= i < r.vals.len() ==> a[rbase + i] == #[trigger] r.vals[i]);
            }
            lemma_run_expr(*x.lhs, a, base, next_id, memh, st);
            let st1 = run_insts(a, l.insts, st);
            lemma_run_expr(*x.rhs, a, rbase, l.next_id, memh, st1);
            let st2 = run_insts(a, r.insts, st1);
            lemma_run_append(a, l.insts, r.insts + seq![h], st);
            lemma_run_append(a, r.insts, seq![h], st1);
            assert(out.insts =~= l.insts + (r.insts + seq![h]));
            assert(a[h] == out.vals[l.vals.len() + r.vals.len() as int]);
            lemma_run_one(a, h, st2);
            let st3 = step_inst(a, st2, h);
            // the left value survives the right side's run
            assert(operand_val(a, st2.vals, l.handle) == eval_expr_v(st.mem, *x.lhs)) by {
                assert(!(rbase <= l.handle < rbase + r.vals.len()));
                assert(st2.vals[l.handle] == st1.vals[l.handle]);
            }
            assert(operand_val(a, st2.vals, r.handle) == eval_expr_v(st.mem, *x.rhs));
            assert(st3.vals[h] == apply_binop(
                binop_of(x.op),
                eval_expr_v(st.mem, *x.lhs),
                eval_expr_v(st.mem, *x.rhs),
            ));
            assert(operand_val(a, st3.vals, out.handle) == eval_infix_v(st.mem, *x));
        },
    }
}

/// Running the instructions lowered for one statement performs one step of
/// the evaluator: an expression statement stores the expression's value in
/// memory, a print statement appends it to the output.
pub proof fn lemma_run_stmt(s: Stmt, a: Seq<ValueV>, base: int, next_id: int, memh: int, st: RunState)
    requires
        0 <= memh < base,
        arena_has(a, base, lower_stmt_v(s, base, next_id, memh).vals),
    ensures
        ({
            let out = lower_stmt_v(s, base, next_id, memh);
            let st2 = run_insts(a, out.insts, st);
            &&& (match s {
                Stmt::ExprStmt(e) => st2.mem == eval_expr_v(st.mem, e) && st2.output
                    == st.output,
                Stmt::PrintStmt(e) => st2.mem == st.mem && st2.output == st.output.push(
                    eval_expr_v(st.mem, e),
                ),
            })
            &&& (forall|k: int|
                !(base <= k < base + out.vals.len()) ==> st2.vals[k] == st.vals[k])
        }),
{
    let out = lower_stmt_v(s, base, next_id, memh);
    match s {
        Stmt::ExprStmt(e) => {
            let le = lower_expr_v(e, base, next_id, memh);
            let h = base + le.vals.len() as int;
            assert(arena_has(a, base, le.vals)) by {
                assert(forall|i: int|
                    0 <= i < le.vals.len() ==> out.vals[i] == #[trigger] le.vals[i]);
            }
            lemma_run_expr(e, a, base, next_id, memh, st);
            let st1 = run_insts(a, le.insts, st);
            lemma_run_append(a, le.insts, seq![h], st);
            lemma_run_one(a, h, st1);
            assert(a[h] == out.vals[le.vals.len() as int]);
        },
        Stmt::PrintStmt(e) => {
            let le = lower_expr_v(e, base, next_id, memh);
            let h = base + le.vals.len() as int;
            assert(arena_has(a, base, le.vals)) by {
                assert(forall|i: int|
                    0 <= i < le.vals.len() ==> out.vals[i] == #[trigger] le.vals[i]);
            }
            lemma_run_expr(e, a, base, next_id, memh, st);
            let st1 = run_insts(a, le.insts, st);
            lemma_run_append(a, le.insts, seq![h], st);
            lemma_run_one(a, h, st1);
            assert(a[h] == out.vals[le.vals.len() as int]);
        },
    }
}

/// Running everything lowered for a statement sequence computes the same
/// final memory value and the same output as evaluating the statements.
pub proof fn lemma_run_stmts(
    ss: Seq<Stmt>,
    a: Seq<ValueV>,
    base: int,
    next_id: int,
    memh: int,
    st: RunState,
)
    requires
        0 <= memh < base,
        arena_has(a, base, lower_stmts_v(ss, base, next_id, memh).vals),
    ensures
        ({
            let out = lower_stmts_v(ss, base, next_id, memh);
            let st2 = run_insts(a, out.insts, st);
            &&& st2.mem == interp_stmts_v(st.mem, ss).mem
            &&& st2.output == st.output + interp_stmts_v(st.mem, ss).output
        }),
    decreases ss.len(),
{
    let out = lower_stmts_v(ss, base, next_id, memh);
    if ss.len() == 0 {
        assert(st.output + interp_stmts_v(st.mem, ss).output =~= st.output);
    } else {
        let first = lower_stmt_v(ss[0], base, next_id, memh);
        let rbase = base + first.vals.len() as int;
        let rest = lower_stmts_v(ss.drop_first(), rbase, first.next_id, memh);
        assert(arena_has(a, base, first.vals)) by {
            assert(forall|i: int|
                0 <= i < first.vals.len() ==> out.vals[i] == #[trigger] first.vals[i]);
        }
        assert(arena_has(a, rbase, rest.vals)) by {
            assert(forall|i: int|
                0 <= i < rest.vals.len() ==> out.vals[first.vals.len() + i as int]
                    == #[trigger] rest.vals[i]);
            assert(forall|i: int|
                0 <= i < rest.vals.len() ==> a[rbase + i] == #[trigger] rest.vals[i]);
        }
        lemma_run_stmt(ss[0], a, base, next_id, memh, st);
        let st1 = run_insts(a, first.insts, st);
        lemma_run_stmts(ss.drop_first(), a, rbase, first.next_id, memh, st1);
        lemma_run_append(a, first.insts, rest.insts, st);
        let st2 = run_insts(a, rest.insts, st1);
        match ss[0] {
            Stmt::ExprStmt(e) => {
                assert(st2.output =~= st.output + interp_stmts_v(st.mem, ss).output);
            },
            Stmt::PrintStmt(e) => {
                assert(st1.output == st.output.push(eval_expr_v(st.mem, e)));
                assert(st2.output == st1.output + interp_stmts_v(st1.mem, ss.drop_first()).output);
                assert(st2.output =~= st.output + (seq![eval_expr_v(st.mem, e)]
                    + interp_stmts_v(st.mem, ss.drop_first()).output));
            },
        }
    }
}

/// Cross-backend equivalence: for any program, symbolically executing the
/// instruction sequence that lowering records into a fresh context yields
/// the same final memory value and the same printed values as the
/// tree-walking evaluator, both starting from memory zero.
pub proof fn lemma_cross_backend_equivalence(tu: TransUnit)
    ensures
        ({
            let c0 = init_ctx_v();
            let out = lower_stmts_v(
                tu.block.stmts@,
                c0.values.len() as int,
                c0.next_id,
                mem_handle_v(c0),
            );
            let a = c0.values + out.vals;
            let st0 = RunState {
                mem: 0,
                vals: Map::<int, int>::empty(),
                output: Seq::<int>::empty(),
            };
            let stf = run_insts(a, out.insts, st0);
            &&& stf.mem == interp_stmts_v(0, tu.block.stmts@).mem
            &&& stf.output == interp_stmts_v(0, tu.block.stmts@).output
        }),
{
    let c0 = init_ctx_v();
    assert(mem_handle_v(c0) == 0);
    let out = lower_stmts_v(tu.block.stmts@, 1, 1, 0);
    let a = c0.values + out.vals;
    let st0 = RunState { mem: 0, vals: Map::<int, int>::empty(), output: Seq::<int>::empty() };
    assert(arena_has(a, 1, out.vals)) by {
        assert(forall|i: int| 0 <= i < out.vals.len() ==> a[1 + i] == #[trigger] out.vals[i]);
    }
    lemma_run_stmts(tu.block.stmts@, a, 1, 1, 0, st0);
    assert(st0.output + interp_stmts_v(0, tu.block.stmts@).output =~= interp_stmts_v(
        0,
        tu.block.stmts@,
    ).output);
}

/// Determinism: the context lowering leaves behind is a function of the
/// syntax tree and the starting context alone, generated names included;
/// two runs from equal contexts end in equal contexts.
pub proof fn lemma_lowering_deterministic(tu: TransUnit, c0: ContextV, c1: ContextV, c2: ContextV)
    requires
        tu.lower_ens(c0, c1),
        tu.lower_ens(c0, c2),
    ensures
        c1 == c2,
{
    assert(c1 =~= c2);
}

/// Left-to-right evaluation order: lowering an infix expression records
/// all of the left side's instructions, then all of the right side's, then
/// the one combining operation.
pub proof fn lemma_infix_lowers_left_before_right(x: InfixExpr, base: int, next_id: int, memh: int)
    ensures
        ({
            let l = lower_expr_v(*x.lhs, base, next_id, memh);
            let r = lower_expr_v(*x.rhs, base + l.vals.len(), l.next_id, memh);
            lower_infix_v(x, base, next_id, memh).insts == l.insts + r.insts + seq![
                base + l.vals.len() + r.vals.len(),
            ]
        }),
{
}

/// Unary plus is transparent: lowering `+e` is exactly lowering `e`.
pub proof fn lemma_unary_plus_transparent(p: PrefixExpr, base: int, next_id: int, memh: int)
    requires
        p.op is Plus,
    ensures
        lower_prefix_v(p, base, next_id, memh) == lower_expr_v(*p.expr, base, next_id, memh),
{
}

/// Parentheses are transparent: lowering `(e)` is exactly lowering `e`.
pub proof fn lemma_parens_transparent(e: Box<Expr>, base: int, next_id: int, memh: int)
    ensures
        lower_primary_v(PrimaryExpr::Expr(e), base, next_id, memh) == lower_expr_v(
            *e,
            base,
            next_id,
            memh,
        ),
{
}

/// An integer literal lowers to one fresh constant and records no
/// instruction at all.
pub proof fn lemma_int_literal_lowers_to_constant(n: i64, base: int, next_id: int, memh: int)
    ensures
        lower_primary_v(PrimaryExpr::Int(n), base, next_id, memh) == (LoweredExpr {
            vals: seq![ValueV::Constant { value: n as int }],
            insts: Seq::<int>::empty(),
            handle: base,
            next_id: next_id,
        }),
{
}

/// Negation lowers to exactly one extra subtraction against a fresh zero
/// constant, and its value is the negation of the operand's value.
pub proof fn lemma_negation_lowers_to_subtract_from_zero(
    p: PrefixExpr,
    base: int,
    next_id: int,
    memh: int,
    m: int,
)
    requires
        p.op is Minus,
    ensures
        ({
            let sub = lower_expr_v(*p.expr, base, next_id, memh);
            let out = lower_prefix_v(p, base, next_id, memh);
            &&& out.insts == sub.insts + seq![base + sub.vals.len() + 1]
            &&& out.vals == sub.vals + seq![
                ValueV::Constant { value: 0 },
                ValueV::Binary {
                    name: crate::ir::local_name_v(sub.next_id),
                    ty: crate::ir::IrType::Int,
                    op: BinaryOp::Sub,
                    left: base + sub.vals.len(),
                    right: sub.handle,
                },
            ]
        }),
        eval_prefix_v(m, p) == -eval_expr_v(m, *p.expr),
{
}

/// Lowering registers no global: the registry is exactly what it was.
pub proof fn lemma_global_registry_unchanged(tu: TransUnit, c0: ContextV, c1: ContextV)
    requires
        tu.lower_ens(c0, c1),
    ensures
        c1.global_variables == c0.global_variables,
{
}

/// Global uniqueness: lowering any program into a fresh context leaves the
/// registry with exactly one entry, `mem` at handle zero.
pub proof fn lemma_global_uniqueness(tu: TransUnit, c1: ContextV)
    requires
        tu.lower_ens(init_ctx_v(), c1),
    ensures
        c1.global_variables.len() == 1,
        c1.global_variables[0] == ("mem"@, 0int),
{
}

} // verus!
