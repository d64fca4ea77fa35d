//! The emitter: one deterministic pass over a finalized context that
//! renders the textual target program — fixed print-routine boilerplate,
//! one zero-initialized declaration per registered global in registry
//! order, then one line per recorded instruction inside the entry routine.
//!
//! `emit_ir_v` is the mathematical rendering; `emit_ir` is proved to return
//! exactly it, so emission is pure formatting with no other effect.

use vstd::prelude::*;

use crate::ir::BinaryOp;
use crate::ir::Context;
use crate::ir::ContextV;
use crate::ir::InstructionValue;
use crate::ir::IrType;
use crate::ir::Value;
use crate::ir::ValueV;
use crate::ir::ctx_wf;
use crate::ir::i64_text;
use crate::ir::int_text;
use crate::ir::is_inst_v;
use crate::ir::value_refs_ok;

verus! {

use vstd::string::StringExecFns;

/// The fixed boilerplate that defines the `print` routine and its format
/// string; emitted verbatim, independent of program content.
pub open spec fn boilerplate_v() -> Seq<char> {
    "\n@.str = private unnamed_addr constant [6 x i8] c\"%lld\\0A\\00\", align 1\n\ndefine dso_local void @print(i64 noundef %0) #0{\n  %2 = alloca i64, align 8\n  store i64 %0, i64* %2, align 8\n  %3 = load i64, i64* %2, align 8\n  %4 = call i32 (i8*, ...) @printf(i8* noundef getelementptr inbounds ([6 x i8], [6 x i8]* @.str, i64 0, i64 0), i64 noundef %3)\n  ret void\n}\n\ndeclare i32 @printf(i8*, ...)\n"@
}

fn boilerplate_text() -> (r: &'static str)
    ensures
        r@ == boilerplate_v(),
{
    "\n@.str = private unnamed_addr constant [6 x i8] c\"%lld\\0A\\00\", align 1\n\ndefine dso_local void @print(i64 noundef %0) #0{\n  %2 = alloca i64, align 8\n  store i64 %0, i64* %2, align 8\n  %3 = load i64, i64* %2, align 8\n  %4 = call i32 (i8*, ...) @printf(i8* noundef getelementptr inbounds ([6 x i8], [6 x i8]* @.str, i64 0, i64 0), i64 noundef %3)\n  ret void\n}\n\ndeclare i32 @printf(i8*, ...)\n"
}

/// How a value renders when it stands as an operand: an instruction by its
/// result name (empty for the kinds that produce none), a global by its
/// symbol, a constant by its literal value.
pub open spec fn operand_text_v(v: ValueV) -> Seq<char> {
    match v {
        ValueV::Global { name, .. } => name,
        ValueV::Constant { value } => int_text(value),
        ValueV::Load { name, .. } => name,
        ValueV::Store { .. } => Seq::<char>::empty(),
        ValueV::Alloca { name, .. } => name,
        ValueV::Binary { name, .. } => name,
        ValueV::Print { .. } => Seq::<char>::empty(),
    }
}

pub open spec fn binop_text_v(op: BinaryOp) -> Seq<char> {
    match op {
        BinaryOp::Add => "add"@,
        BinaryOp::Sub => "sub"@,
        BinaryOp::Mul => "mul"@,
        BinaryOp::Div => "sdiv"@,
    }
}

/// The emitted line for one instruction value in arena `arena`; the empty
/// sequence for a value that is not an instruction.
pub open spec fn inst_line_v(arena: Seq<ValueV>, v: ValueV) -> Seq<char> {
    match v {
        ValueV::Load { name, source, .. } => "  "@ + name + " = load i64, i64* "@
            + operand_text_v(arena[source]) + "\n"@,
        ValueV::Store { source, destination } => "  store i64 "@ + operand_text_v(arena[source])
            + ", i64* "@ + operand_text_v(arena[destination]) + "\n"@,
        ValueV::Alloca { name, .. } => "  "@ + name + " = alloca i64\n"@,
        ValueV::Binary { name, op, left, right, .. } => "  "@ + name + " = "@ + binop_text_v(op)
            + " i64 "@ + operand_text_v(arena[left]) + ", "@ + operand_text_v(arena[right])
            + "\n"@,
        ValueV::Print { param } => "  call void @print(i64 "@ + operand_text_v(arena[param])
            + ")\n"@,
        _ => Seq::<char>::empty(),
    }
}

pub open spec fn inst_lines_v(arena: Seq<ValueV>, insts: Seq<int>) -> Seq<char>
    decreases insts.len(),
{
    if insts.len() == 0 {
        Seq::<char>::empty()
    } else {
        inst_line_v(arena, arena[insts[0]]) + inst_lines_v(arena, insts.drop_first())
    }
}

pub open spec fn global_decl_v(name: Seq<char>) -> Seq<char> {
    "@"@ + name + " = global i64 0\n"@
}

pub open spec fn global_decls_v(gs: Seq<(Seq<char>, int)>) -> Seq<char>
    decreases gs.len(),
{
    if gs.len() == 0 {
        Seq::<char>::empty()
    } else {
        global_decl_v(gs[0].0) + global_decls_v(gs.drop_first())
    }
}

/// The whole emitted program.
pub open spec fn emit_ir_v(c: ContextV) -> Seq<char> {
    boilerplate_v() + global_decls_v(c.global_variables) + "define void @main() {\n"@
        + inst_lines_v(c.values, c.instructions) + "  ret void\n}\n"@
}

/// No recorded alloca declares void storage; rendering such a value is a
/// defect the emitter rules out up front.
pub open spec fn alloca_ok_v(v: ValueV) -> bool {
    match v {
        ValueV::Alloca { ty, .. } => ty is Int,
        _ => true,
    }
}

pub open spec fn allocas_ok(c: ContextV) -> bool {
    forall|i: int|
        0 <= i < c.instructions.len() ==> alloca_ok_v(c.values[#[trigger] c.instructions[i]])
}

/// Rendering of a finalized context into target text.
pub trait LlvmEmitter {
    spec fn emit_req(&self) -> bool;

    spec fn emit_ens(&self, r: Seq<char>) -> bool;

    fn emit_ir(&self) -> (r: String)
        requires
            self.emit_req(),
        ensures
            self.emit_ens(r@),
    ;
}

impl LlvmEmitter for Context {
    open spec fn emit_req(&self) -> bool {
        &&& ctx_wf(self@)
        &&& allocas_ok(self@)
    }

    open spec fn emit_ens(&self, r: Seq<char>) -> bool {
        r == emit_ir_v(self@)
    }

    fn emit_ir(&self) -> (r: String) {
        let ghost c = self@;
        let mut llvm_ir = String::new();

        // Emit print function
        llvm_ir.append(boilerplate_text());

        // Emit global variable declarations
        let gn = self.global_variables.len();
        let mut i: usize = 0;
        proof {
            assert(c.global_variables.skip(0) =~= c.global_variables);
            assert(llvm_ir@ =~= boilerplate_v());
        }
        while i < gn
            invariant
                i <= gn,
                gn == self.global_variables.len(),
                c == self@,
                llvm_ir@ + global_decls_v(c.global_variables.skip(i as int)) == boilerplate_v()
                    + global_decls_v(c.global_variables),
            decreases gn - i,
        {
            proof {
                assert(c.global_variables.skip(i as int)[0] == c.global_variables[i as int]);
                assert(c.global_variables.skip(i as int).drop_first() =~= c.global_variables.skip(
                    i as int + 1,
                ));
            }
            llvm_ir.append("@");
            llvm_ir.append(self.global_variables[i].0.as_str());
            llvm_ir.append(" = global i64 0\n");
            i = i + 1;
            proof {
                assert(llvm_ir@ + global_decls_v(c.global_variables.skip(i as int))
                    =~= boilerplate_v() + global_decls_v(c.global_variables));
            }
        }
        proof {
            assert(c.global_variables.skip(gn as int).len() == 0);
            assert(llvm_ir@ =~= boilerplate_v() + global_decls_v(c.global_variables));
        }

        // Emit function definition
        llvm_ir.append("define void @main() {\n");

        // Emit instructions
        let ghost head = boilerplate_v() + global_decls_v(c.global_variables)
            + "define void @main() {\n"@;
        let n = self.instructions.len();
        let mut k: usize = 0;
        proof {
            assert(c.instructions.skip(0) =~= c.instructions);
            assert(llvm_ir@ + inst_lines_v(c.values, c.instructions.skip(0)) =~= head
                + inst_lines_v(c.values, c.instructions));
        }
        while k < n
            invariant
                k <= n,
                n == self.instructions.len(),
                c == self@,
                ctx_wf(c),
                allocas_ok(c),
                llvm_ir@ + inst_lines_v(c.values, c.instructions.skip(k as int)) == head
                    + inst_lines_v(c.values, c.instructions),
            decreases n - k,
        {
            proof {
                assert(c.instructions.skip(k as int)[0] == c.instructions[k as int]);
                assert(c.instructions.skip(k as int).drop_first() =~= c.instructions.skip(
                    k as int + 1,
                ));
            }
            let inst_id = self.instructions[k];
            let value = &self.values[inst_id];
            match value {
                Value::Instruction(instruction) => {
                    let llvm_instruction = emit_instruction(instruction, self);
                    llvm_ir.append(llvm_instruction.as_str());
                },
                _ => (),
            }
            k = k + 1;
            proof {
                assert(llvm_ir@ + inst_lines_v(c.values, c.instructions.skip(k as int)) =~= head
                    + inst_lines_v(c.values, c.instructions));
            }
        }
        proof {
            assert(c.instructions.skip(n as int).len() == 0);
        }

        // Emit function end
        llvm_ir.append("  ret void\n}\n");
        proof {
            assert(llvm_ir@ =~= emit_ir_v(c));
        }
        llvm_ir
    }
}

pub fn emit_instruction(instruction: &InstructionValue, context: &Context) -> (r: String)
    requires
        value_refs_ok(instruction@, context@.values.len() as int),
        alloca_ok_v(instruction@),
    ensures
        r@ == inst_line_v(context@.values, instruction@),
{
    proof {
        assert(context@.values.len() == context.values@.len());
        assert(forall|i: int|
            0 <= i < context.values@.len() ==> context@.values[i] == (#[trigger] context.values@[
                i
            ])@);
    }
    match instruction {
        InstructionValue::LoadInst(load_inst) => {
            let src = &context.values[load_inst.source];
            let mut s = String::from_str("  ");
            s.append(load_inst.name.as_str());
            s.append(" = load i64, i64* ");
            let op = emit_operand(src);
            s.append(op.as_str());
            s.append("\n");
            proof {
                assert(s@ =~= inst_line_v(context@.values, instruction@));
            }
            s
        },
        InstructionValue::StoreInst(store_inst) => {
            let dest = &context.values[store_inst.destination];
            let src = &context.values[store_inst.source];
            let mut s = String::from_str("  store i64 ");
            let op_src = emit_operand(src);
            s.append(op_src.as_str());
            s.append(", i64* ");
            let op_dest = emit_operand(dest);
            s.append(op_dest.as_str());
            s.append("\n");
            proof {
                assert(s@ =~= inst_line_v(context@.values, instruction@));
            }
            s
        },
        InstructionValue::AllocaInst(alloc_inst) => match alloc_inst.ty {
            IrType::Int => {
                let mut s = String::from_str("  ");
                s.append(alloc_inst.name.as_str());
                s.append(" = alloca i64\n");
                proof {
                    assert(s@ =~= inst_line_v(context@.values, instruction@));
                }
                s
            },
            IrType::Void => {
                proof {
                    assert(false);
                }
                String::new()
            },
        },
        InstructionValue::BinaryOperator(bin_op) => {
            let operation: &'static str = match bin_op.operation {
                BinaryOp::Add => "add",
                BinaryOp::Sub => "sub",
                BinaryOp::Mul => "mul",
                BinaryOp::Div => "sdiv",
            };
            let left = &context.values[bin_op.left_operand];
            let right = &context.values[bin_op.right_operand];
            let mut s = String::from_str("  ");
            s.append(bin_op.name.as_str());
            s.append(" = ");
            s.append(operation);
            s.append(" i64 ");
            let op_left = emit_operand(left);
            s.append(op_left.as_str());
            s.append(", ");
            let op_right = emit_operand(right);
            s.append(op_right.as_str());
            s.append("\n");
            proof {
                assert(s@ =~= inst_line_v(context@.values, instruction@));
            }
            s
        },
        InstructionValue::PrintIntInst(print_var_inst) => {
            let param_val = &context.values[print_var_inst.param];
            let mut s = String::from_str("  call void @print(i64 ");
            let op = emit_operand(param_val);
            s.append(op.as_str());
            s.append(")\n");
            proof {
                assert(s@ =~= inst_line_v(context@.values, instruction@));
            }
            s
        },
    }
}

pub fn emit_operand(value: &Value) -> (r: String)
    ensures
        r@ == operand_text_v(value@),
{
    match value {
        Value::Instruction(inst) => match inst {
            InstructionValue::BinaryOperator(b) => String::from_str(b.name.as_str()),
            InstructionValue::LoadInst(l) => String::from_str(l.name.as_str()),
            InstructionValue::StoreInst(_) => String::new(),
            InstructionValue::AllocaInst(a) => String::from_str(a.name.as_str()),
            InstructionValue::PrintIntInst(_) => String::new(),
        },
        Value::Global(global) => String::from_str(global.name.as_str()),
        Value::Constant(constant) => match constant {
            crate::ir::ConstantValue::Int(int_val) => i64_text(*int_val),
        },
    }
}

} // verus!
