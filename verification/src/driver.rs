//! The driver: source text in, target text out.  It parses, counts the
//! register names the program will need (so that the name counter is known
//! to stay within machine range before lowering begins), lowers into a
//! fresh context, and emits.

use vstd::prelude::*;

use crate::ast::Expr;
use crate::ast::InfixExpr;
use crate::ast::PrefixExpr;
use crate::ast::PrefixOp;
use crate::ast::PrimaryExpr;
use crate::ast::Stmt;
use crate::ast::TransUnit;
use crate::codegen::allocas_ok;
use crate::codegen::emit_ir_v;
use crate::codegen::LlvmEmitter;
use crate::ir::expr_name_need;
use crate::ir::init_ctx_v;
use crate::ir::lemma_lower_stmts_names;
use crate::ir::lemma_lower_stmts_shape;
use crate::ir::lower_stmts_v;
use crate::ir::mem_handle_v;
use crate::ir::stmt_name_need;
use crate::ir::stmts_name_need;
use crate::ir::Context;
use crate::ir::ContextV;
use crate::ir::IrGenerator;
use crate::parser::parse;
use crate::parser::parse_v;
use crate::parser::ParseError;

verus! {

/// Why driving failed: the text is not a program, or the program is so
/// large that the register-name counter would leave machine range.
#[derive(Debug)]
pub enum DriveError {
    Parse(ParseError),
    CapacityExceeded,
}

fn expr_name_count(e: &Expr) -> (r: Option<usize>)
    ensures
        (match r {
            Some(c) => c as nat == expr_name_need(*e),
            None => expr_name_need(*e) > usize::MAX as nat,
        }),
    decreases e,
{
    match e {
        Expr::Primary(p) => match &**p {
            PrimaryExpr::Mem => Some(1),
            PrimaryExpr::Int(_) => Some(0),
            PrimaryExpr::Expr(inner) => expr_name_count(inner),
        },
        Expr::Prefix(p) => {
            let sub = expr_name_count(&p.expr);
            match p.op {
                PrefixOp::Plus => sub,
                PrefixOp::Minus => match sub {
                    Some(c) => c.checked_add(1),
                    None => None,
                },
            }
        },
        Expr::Infix(x) => {
            let l = expr_name_count(&x.lhs);
            let rr = expr_name_count(&x.rhs);
            match (l, rr) {
                (Some(a), Some(b)) => match a.checked_add(b) {
                    Some(ab) => ab.checked_add(1),
                    None => None,
                },
                _ => None,
            }
        },
    }
}

fn stmt_name_count(s: &Stmt) -> (r: Option<usize>)
    ensures
        (match r {
            Some(c) => c as nat == stmt_name_need(*s),
            None => stmt_name_need(*s) > usize::MAX as nat,
        }),
{
    match s {
        Stmt::ExprStmt(e) => expr_name_count(e),
        Stmt::PrintStmt(e) => expr_name_count(e),
    }
}

fn trans_unit_name_count(tu: &TransUnit) -> (r: Option<usize>)
    ensures
        (match r {
            Some(c) => c as nat == stmts_name_need(tu.block.stmts@),
            None => stmts_name_need(tu.block.stmts@) > usize::MAX as nat,
        }),
{
    let n = tu.block.stmts.len();
    let mut acc: usize = 0;
    let mut i: usize = 0;
    proof {
        assert(tu.block.stmts@.skip(0) =~= tu.block.stmts@);
    }
    while i < n
        invariant
            i <= n,
            n == tu.block.stmts.len(),
            acc as nat + stmts_name_need(tu.block.stmts@.skip(i as int)) == stmts_name_need(
                tu.block.stmts@,
            ),
        decreases n - i,
    {
        proof {
            assert(tu.block.stmts@.skip(i as int)[0] == tu.block.stmts@[i as int]);
            assert(tu.block.stmts@.skip(i as int).drop_first() =~= tu.block.stmts@.skip(
                i as int + 1,
            ));
        }
        match stmt_name_count(&tu.block.stmts[i]) {
            None => {
                return None;
            },
            Some(c) => {
                match acc.checked_add(c) {
                    None => {
                        return None;
                    },
                    Some(a) => {
                        acc = a;
                    },
                }
            },
        }
        i = i + 1;
    }
    proof {
        assert(tu.block.stmts@.skip(n as int).len() == 0);
    }
    Some(acc)
}

/// The view of the context that lowering `ss` into a fresh context leaves.
pub open spec fn compiled_ctx_v(ss: Seq<Stmt>) -> ContextV {
    let c0 = init_ctx_v();
    let out = lower_stmts_v(ss, c0.values.len() as int, c0.next_id, mem_handle_v(c0));
    ContextV {
        values: c0.values + out.vals,
        instructions: out.insts,
        next_id: out.next_id,
        global_variables: c0.global_variables,
    }
}

/// Compiles source text: on success the returned text is exactly the
/// rendering of the program's lowered form.  A text the grammar refuses is
/// a parse error; a program needing more register names than the machine
/// can count is reported as such, never lowered.
pub fn drive(src: &str) -> (r: Result<String, DriveError>)
    ensures
        (match r {
            Ok(text) => {
                &&& parse_v(src@) is Some
                &&& text@ == emit_ir_v(compiled_ctx_v(parse_v(src@)->0))
            },
            Err(DriveError::Parse(_)) => parse_v(src@) is None,
            Err(DriveError::CapacityExceeded) => {
                &&& parse_v(src@) is Some
                &&& 1 + stmts_name_need(parse_v(src@)->0) > usize::MAX as nat
            },
        }),
{
    let tu = match parse(src) {
        Ok(tu) => tu,
        Err(e) => {
            return Err(DriveError::Parse(e));
        },
    };
    let names = match trans_unit_name_count(&tu) {
        Some(c) => c,
        None => {
            return Err(DriveError::CapacityExceeded);
        },
    };
    if names == usize::MAX {
        return Err(DriveError::CapacityExceeded);
    }
    let mut ir_ctx = Context::new();
    let ghost c0 = init_ctx_v();
    let ghost ss = tu.block.stmts@;
    let ghost out = lower_stmts_v(ss, 1, 1, 0);
    proof {
        assert(mem_handle_v(c0) == 0);
        lemma_lower_stmts_names(ss, 1, 1, 0);
        assert(out.next_id <= usize::MAX as int);
    }
    tu.to_ir(&mut ir_ctx);
    proof {
        lemma_lower_stmts_shape(ss, 1, 1, 0);
        assert(ir_ctx@ =~= compiled_ctx_v(ss));
        assert(allocas_ok(ir_ctx@)) by {
            assert(forall|i: int|
                0 <= i < out.insts.len() ==> 1 <= #[trigger] out.insts[i] < 1 + out.vals.len()
                    && !(out.vals[out.insts[i] - 1] is Alloca));
        }
    }
    let text = ir_ctx.emit_ir();
    Ok(text)
}

} // verus!
