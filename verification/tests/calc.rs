use calc::ast::Expr;
use calc::ast::InfixExpr;
use calc::ast::InfixOp;
use calc::ast::PrefixExpr;
use calc::ast::PrefixOp;
use calc::ast::PrimaryExpr;
use calc::codegen::emit_instruction;
use calc::codegen::emit_operand;
use calc::driver::drive;
use calc::driver::DriveError;
use calc::interpreter::eval_expr;
use calc::interpreter::interpret;
use calc::interpreter::Env;
use calc::ir::i64_text;
use calc::ir::AllocaInst;
use calc::ir::ConstantValue;
use calc::ir::Context;
use calc::ir::InstructionValue;
use calc::ir::IrGenerator;
use calc::ir::IrType;
use calc::ir::Value;
use calc::ir::ValueTrait;
use calc::parser::parse;

fn run(src: &str) -> Vec<i64> {
    let tu = parse(src).expect("program should parse");
    interpret(&tu)
}

fn emit(src: &str) -> String {
    drive(src).expect("program should compile")
}

#[test]
fn precedence_multiplication_binds_tighter() {
    assert_eq!(run("3+4*2;print mem;"), vec![11]);
}

#[test]
fn parentheses_override_precedence() {
    assert_eq!(run("(3+4)*2;print mem;"), vec![14]);
}

#[test]
fn division_truncates_toward_zero() {
    assert_eq!(run("10/3;print mem;"), vec![3]);
}

#[test]
fn negative_division_truncates_toward_zero() {
    assert_eq!(run("-7/2;print mem;"), vec![-3]);
}

#[test]
fn second_statement_overwrites_memory() {
    assert_eq!(run("1+1;2+2;print mem;"), vec![4]);
}

#[test]
fn memory_starts_at_zero() {
    assert_eq!(run("print mem;"), vec![0]);
}

#[test]
fn prints_appear_in_program_order() {
    assert_eq!(run("print 1;print 2;5;print mem;"), vec![1, 2, 5]);
}

#[test]
fn leading_sign_applies_to_whole_chain() {
    assert_eq!(run("-3+4;print mem;"), vec![-7]);
}

#[test]
fn whitespace_between_tokens_is_ignored() {
    assert_eq!(run(" 1 + 2 ;\n  print mem ;\t"), vec![3]);
}

#[test]
fn unary_plus_and_parens_are_transparent() {
    let plain = emit("5;");
    assert_eq!(emit("+5;"), plain);
    assert_eq!(emit("(((5)));"), plain);
}

#[test]
fn negation_adds_one_subtract_from_zero() {
    let text = emit("-5;");
    assert!(text.contains("  %1 = sub i64 0, 5\n"));
    assert_eq!(run("-5;print mem;"), vec![-5]);
}

#[test]
fn lowering_is_deterministic() {
    let src = "1+2*3;print mem;-4;print mem;";
    assert_eq!(emit(src), emit(src));
}

#[test]
fn left_side_lowered_before_right() {
    let text = emit("mem+mem;");
    let body = "define void @main() {\n\
                \x20 %1 = load i64, i64* @mem\n\
                \x20 %2 = load i64, i64* @mem\n\
                \x20 %3 = add i64 %1, %2\n\
                \x20 store i64 %3, i64* @mem\n\
                \x20 ret void\n}\n";
    assert!(text.ends_with(body));
}

#[test]
fn emitted_program_has_exact_shape() {
    let text = emit("1;");
    let expected = format!(
        "{}{}{}{}{}",
        "\n@.str = private unnamed_addr constant [6 x i8] c\"%lld\\0A\\00\", align 1\n\n\
         define dso_local void @print(i64 noundef %0) #0{\n\
         \x20 %2 = alloca i64, align 8\n\
         \x20 store i64 %0, i64* %2, align 8\n\
         \x20 %3 = load i64, i64* %2, align 8\n\
         \x20 %4 = call i32 (i8*, ...) @printf(i8* noundef getelementptr inbounds ([6 x i8], [6 x i8]* @.str, i64 0, i64 0), i64 noundef %3)\n\
         \x20 ret void\n}\n\ndeclare i32 @printf(i8*, ...)\n",
        "@mem = global i64 0\n",
        "define void @main() {\n",
        "  store i64 1, i64* @mem\n",
        "  ret void\n}\n",
    );
    assert_eq!(text, expected);
}

#[test]
fn compiled_program_mixes_all_instruction_kinds() {
    let text = emit("3+4*2;print mem;");
    let body = "define void @main() {\n\
                \x20 %1 = mul i64 4, 2\n\
                \x20 %2 = add i64 3, %1\n\
                \x20 store i64 %2, i64* @mem\n\
                \x20 %3 = load i64, i64* @mem\n\
                \x20 call void @print(i64 %3)\n\
                \x20 ret void\n}\n";
    assert!(text.ends_with(body));
}

#[test]
fn global_registry_holds_exactly_mem() {
    let tu = parse("mem+mem;print mem;1;").unwrap();
    let mut ctx = Context::new();
    tu.to_ir(&mut ctx);
    assert_eq!(ctx.global_variables.len(), 1);
    assert_eq!(ctx.global_variables[0].0, "mem");
    assert_eq!(ctx.global_variables[0].1, 0);
}

#[test]
fn parse_rejects_malformed_programs() {
    assert!(parse("1+;").is_err());
    assert!(parse("print ;").is_err());
    assert!(parse("((1);").is_err());
    assert!(parse("1").is_err());
    assert!(parse("me;").is_err());
    assert!(parse("@@").is_err());
}

#[test]
fn parse_rejects_literal_beyond_range() {
    assert!(parse("9223372036854775808;").is_err());
    let tu = parse("9223372036854775807;print mem;").unwrap();
    assert_eq!(interpret(&tu), vec![i64::MAX]);
}

#[test]
fn drive_reports_parse_errors() {
    match drive("not a program") {
        Err(DriveError::Parse(_)) => {}
        _ => panic!("expected a parse error"),
    }
}

#[test]
fn decimal_rendering_covers_extremes() {
    assert_eq!(i64_text(0), "0");
    assert_eq!(i64_text(42), "42");
    assert_eq!(i64_text(-1), "-1");
    assert_eq!(i64_text(i64::MAX), "9223372036854775807");
    assert_eq!(i64_text(i64::MIN), "-9223372036854775808");
}

#[test]
fn environment_reads_back_what_was_stored() {
    let mut env = Env::new();
    assert_eq!(env.get_mem(), 0);
    env.set_mem(-17);
    assert_eq!(env.get_mem(), -17);
}

#[test]
fn evaluator_handles_constructed_trees() {
    let mut env = Env::new();
    env.set_mem(10);
    let e = Expr::Infix(Box::new(InfixExpr {
        lhs: Box::new(Expr::Primary(Box::new(PrimaryExpr::Mem))),
        op: InfixOp::Minus,
        rhs: Box::new(Expr::Prefix(Box::new(PrefixExpr {
            op: PrefixOp::Minus,
            expr: Box::new(Expr::Primary(Box::new(PrimaryExpr::Int(4)))),
        }))),
    }));
    assert_eq!(eval_expr(&mut env, &e), 14);
    assert_eq!(env.get_mem(), 10);
}

#[test]
fn alloca_renders_even_though_lowering_never_emits_it() {
    let ctx = Context::new();
    let inst = InstructionValue::AllocaInst(AllocaInst {
        name: "%t".to_string(),
        ty: IrType::Int,
    });
    assert_eq!(emit_instruction(&inst, &ctx), "  %t = alloca i64\n");
}

#[test]
fn operands_render_by_kind() {
    assert_eq!(emit_operand(&Value::Constant(ConstantValue::Int(-9))), "-9");
    let ctx = Context::new();
    assert_eq!(emit_operand(&ctx.values[0]), "@mem");
}

#[test]
fn value_trait_dispatches_names_and_types() {
    let mut v = Value::Instruction(InstructionValue::AllocaInst(AllocaInst {
        name: "%a".to_string(),
        ty: IrType::Int,
    }));
    assert_eq!(v.name(), "%a");
    v.set_name("%b".to_string());
    assert_eq!(v.name(), "%b");
    assert!(matches!(v.ty(), IrType::Int));
    let c = Value::Constant(ConstantValue::Int(3));
    assert_eq!(c.name(), "");
    assert!(matches!(c.ty(), IrType::Int));
}

#[test]
fn interpreter_matches_compiled_constant_folding_example() {
    // the two backends agree on a program that exercises every operator
    assert_eq!(run("8-3;print mem;mem*mem;print mem;mem/4;print mem;6+mem;print mem;"),
               vec![5, 25, 6, 12]);
}
