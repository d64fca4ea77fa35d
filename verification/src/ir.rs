//! The intermediate representation: an arena of values addressed by handles,
//! an ordered instruction list, a registry of named globals, and a counter
//! that mints unique result names.  Lowering from the syntax tree into this
//! model lives here as well.
//!
//! The arena is an append-only `Vec<Value>`; a handle is the index of the
//! value in that vector.  Handles are stable because no value is ever moved
//! or removed.  Every operand handle held by a value points strictly below
//! that value's own position, so the arena grows in one forward pass.

use vstd::prelude::*;

use crate::ast::Block;
use crate::ast::Expr;
use crate::ast::InfixExpr;
use crate::ast::InfixOp;
use crate::ast::PrefixExpr;
use crate::ast::PrefixOp;
use crate::ast::PrimaryExpr;
use crate::ast::Stmt;
use crate::ast::TransUnit;

verus! {

use vstd::string::StringExecFns;

/// A handle: the index of a value in the arena of the one `Context` that
/// allocated it.
pub type ValueId = usize;

#[derive(Debug, Clone, Copy)]
pub enum IrType {
    Void,
    Int,
}

#[derive(Debug, Clone)]
pub struct GlobalValue {
    pub name: String,
    pub ty: IrType,
}

#[derive(Debug, Clone, Copy, PartialEq, Eq, Structural)]
pub enum ConstantValue {
    Int(i64),
}

#[derive(Debug, Clone, Copy)]
pub enum BinaryOp {
    Add,
    Sub,
    Mul,
    Div,
}

#[derive(Debug, Clone)]
pub struct LoadInst {
    pub name: String,
    pub ty: IrType,
    pub source: ValueId,
}

#[derive(Debug, Clone)]
pub struct StoreInst {
    pub source: ValueId,
    pub destination: ValueId,
}

#[derive(Debug, Clone)]
pub struct AllocaInst {
    pub name: String,
    pub ty: IrType,
}

#[derive(Debug, Clone)]
pub struct PrintIntInst {
    pub param: ValueId,
}

#[derive(Debug, Clone)]
pub struct BinaryOperator {
    pub name: String,
    pub ty: IrType,
    pub operation: BinaryOp,
    pub left_operand: ValueId,
    pub right_operand: ValueId,
}

#[derive(Debug, Clone)]
pub enum Value {
    Global(GlobalValue),
    Instruction(InstructionValue),
    Constant(ConstantValue),
}

#[derive(Debug, Clone)]
pub enum InstructionValue {
    BinaryOperator(BinaryOperator),
    LoadInst(LoadInst),
    StoreInst(StoreInst),
    AllocaInst(AllocaInst),
    PrintIntInst(PrintIntInst),
}

/// The mathematical shape of one arena value: names as character sequences,
/// handles as unbounded integers.
#[verifier::ext_equal]
pub enum ValueV {
    Global { name: Seq<char>, ty: IrType },
    Constant { value: int },
    Load { name: Seq<char>, ty: IrType, source: int },
    Store { source: int, destination: int },
    Alloca { name: Seq<char>, ty: IrType },
    Binary { name: Seq<char>, ty: IrType, op: BinaryOp, left: int, right: int },
    Print { param: int },
}

impl View for InstructionValue {
    type V = ValueV;

    open spec fn view(&self) -> ValueV {
        match self {
            InstructionValue::BinaryOperator(b) => ValueV::Binary {
                name: b.name@,
                ty: b.ty,
                op: b.operation,
                left: b.left_operand as int,
                right: b.right_operand as int,
            },
            InstructionValue::LoadInst(l) => ValueV::Load {
                name: l.name@,
                ty: l.ty,
                source: l.source as int,
            },
            InstructionValue::StoreInst(s) => ValueV::Store {
                source: s.source as int,
                destination: s.destination as int,
            },
            InstructionValue::AllocaInst(a) => ValueV::Alloca { name: a.name@, ty: a.ty },
            InstructionValue::PrintIntInst(p) => ValueV::Print { param: p.param as int },
        }
    }
}

impl View for Value {
    type V = ValueV;

    open spec fn view(&self) -> ValueV {
        match self {
            Value::Global(g) => ValueV::Global { name: g.name@, ty: g.ty },
            Value::Constant(c) => match c {
                ConstantValue::Int(i) => ValueV::Constant { value: *i as int },
            },
            Value::Instruction(inst) => inst@,
        }
    }
}

/// Does this arena value stand for an instruction?
pub open spec fn is_inst_v(v: ValueV) -> bool {
    match v {
        ValueV::Load { .. } => true,
        ValueV::Store { .. } => true,
        ValueV::Alloca { .. } => true,
        ValueV::Binary { .. } => true,
        ValueV::Print { .. } => true,
        _ => false,
    }
}

pub open spec fn is_global_v(v: ValueV) -> bool {
    match v {
        ValueV::Global { .. } => true,
        _ => false,
    }
}

/// Every operand handle held by `v` points strictly below `bound`.
pub open spec fn value_refs_ok(v: ValueV, bound: int) -> bool {
    match v {
        ValueV::Load { source, .. } => 0 <= source < bound,
        ValueV::Store { source, destination } => 0 <= source < bound && 0 <= destination
            < bound,
        ValueV::Binary { left, right, .. } => 0 <= left < bound && 0 <= right < bound,
        ValueV::Print { param } => 0 <= param < bound,
        _ => true,
    }
}

/// The mathematical shape of a whole compilation context.
#[verifier::ext_equal]
pub struct ContextV {
    pub values: Seq<ValueV>,
    pub instructions: Seq<int>,
    pub next_id: int,
    pub global_variables: Seq<(Seq<char>, int)>,
}

/// First handle registered under `name`, scanning in registration order.
pub open spec fn lookup_global_v(gs: Seq<(Seq<char>, int)>, name: Seq<char>) -> Option<int>
    decreases gs.len(),
{
    if gs.len() == 0 {
        None
    } else if gs[0].0 == name {
        Some(gs[0].1)
    } else {
        lookup_global_v(gs.drop_first(), name)
    }
}

/// Well-formedness of a context: all recorded handles address instructions,
/// all registered handles address globals, and every operand handle was
/// allocated strictly before the value that holds it.
pub open spec fn ctx_wf(c: ContextV) -> bool {
    &&& (forall|i: int| 0 <= i < c.values.len() ==> value_refs_ok(#[trigger] c.values[i], i))
    &&& (forall|i: int|
        0 <= i < c.instructions.len() ==> 0 <= #[trigger] c.instructions[i] < c.values.len()
            && is_inst_v(c.values[c.instructions[i]]))
    &&& (forall|i: int|
        0 <= i < c.global_variables.len() ==> 0 <= (#[trigger] c.global_variables[i]).1
            < c.values.len() && is_global_v(c.values[c.global_variables[i].1]))
    &&& 1 <= c.next_id
}

/// The context owned by one compilation: the arena, the ordered instruction
/// list, the register-name counter, and the global registry in registration
/// order.
pub struct Context {
    pub values: Vec<Value>,
    pub instructions: Vec<ValueId>,
    pub next_id: usize,
    pub global_variables: Vec<(String, ValueId)>,
}

impl View for Context {
    type V = ContextV;

    open spec fn view(&self) -> ContextV {
        ContextV {
            values: self.values@.map_values(|v: Value| v@),
            instructions: self.instructions@.map_values(|i: ValueId| i as int),
            next_id: self.next_id as int,
            global_variables: self.global_variables@.map_values(
                |g: (String, ValueId)| (g.0@, g.1 as int),
            ),
        }
    }
}

/// Decimal digit characters, most significant first.
pub open spec fn dec_digits(n: nat) -> Seq<char>
    decreases n,
{
    if n < 10 {
        seq![dec_digit(n as int)]
    } else {
        dec_digits(n / 10).push(dec_digit((n % 10) as int))
    }
}

pub open spec fn dec_digit(d: int) -> char {
    if d == 0 {
        '0'
    } else if d == 1 {
        '1'
    } else if d == 2 {
        '2'
    } else if d == 3 {
        '3'
    } else if d == 4 {
        '4'
    } else if d == 5 {
        '5'
    } else if d == 6 {
        '6'
    } else if d == 7 {
        '7'
    } else if d == 8 {
        '8'
    } else {
        '9'
    }
}

/// Decimal text of a signed integer, with a leading minus for negatives.
pub open spec fn int_text(n: int) -> Seq<char> {
    if n < 0 {
        seq!['-'] + dec_digits((-n) as nat)
    } else {
        dec_digits(n as nat)
    }
}

/// The register name minted for counter value `id`.
pub open spec fn local_name_v(id: int) -> Seq<char> {
    seq!['%'] + dec_digits(id as nat)
}

pub proof fn lemma_dec_digits_nonempty(n: nat)
    ensures
        dec_digits(n).len() >= 1,
        n >= 10 ==> dec_digits(n).len() >= 2,
        dec_digits(n)[0] != '%',
        dec_digits(n)[0] != '@',
    decreases n,
{
    if n >= 10 {
        lemma_dec_digits_nonempty(n / 10);
    }
}

pub proof fn lemma_dec_digits_injective(a: nat, b: nat)
    requires
        dec_digits(a) == dec_digits(b),
    ensures
        a == b,
    decreases a,
{
    lemma_dec_digits_nonempty(a);
    lemma_dec_digits_nonempty(b);
    if a < 10 && b < 10 {
        assert(dec_digits(a)[0] == dec_digit(a as int));
        assert(dec_digits(b)[0] == dec_digit(b as int));
    } else if a < 10 {
        assert(dec_digits(a).len() == 1);
    } else if b < 10 {
        assert(dec_digits(b).len() == 1);
    } else {
        assert(dec_digits(a).last() == dec_digit((a % 10) as int));
        assert(dec_digits(b).last() == dec_digit((b % 10) as int));
        assert(a % 10 == b % 10);
        assert(dec_digits(a).drop_last() =~= dec_digits(a / 10));
        assert(dec_digits(b).drop_last() =~= dec_digits(b / 10));
        lemma_dec_digits_injective(a / 10, b / 10);
    }
}

/// Distinct counter values mint distinct register names: with the counter
/// only ever advancing, no two names minted by one context are equal.
pub proof fn lemma_register_names_distinct(a: int, b: int)
    requires
        0 <= a,
        0 <= b,
        a != b,
    ensures
        local_name_v(a) != local_name_v(b),
{
    if local_name_v(a) == local_name_v(b) {
        assert(dec_digits(a as nat) =~= local_name_v(a).drop_first());
        assert(dec_digits(b as nat) =~= local_name_v(b).drop_first());
        lemma_dec_digits_injective(a as nat, b as nat);
    }
}

/// A register name starts with `%`, a global's symbol with `@`: the two
/// never collide.
pub proof fn lemma_register_name_not_global(id: int, global_name: Seq<char>)
    requires
        0 <= id,
    ensures
        local_name_v(id) != seq!['@'] + global_name,
{
    assert(local_name_v(id)[0] == '%');
    assert((seq!['@'] + global_name)[0] == '@');
}

/// Relies on std's `String::push`: appends the one character at the end.
#[verifier::external_body]
pub(crate) fn push_char(s: &mut String, c: char)
    ensures
        final(s)@ == old(s)@ + seq![c],
{
    s.push(c);
}

fn digit_char(d: u64) -> (c: char)
    requires
        d < 10,
    ensures
        c == dec_digit(d as int),
{
    if d == 0 {
        '0'
    } else if d == 1 {
        '1'
    } else if d == 2 {
        '2'
    } else if d == 3 {
        '3'
    } else if d == 4 {
        '4'
    } else if d == 5 {
        '5'
    } else if d == 6 {
        '6'
    } else if d == 7 {
        '7'
    } else if d == 8 {
        '8'
    } else {
        '9'
    }
}

fn push_decimal(n: u64, out: &mut String)
    ensures
        final(out)@ == old(out)@ + dec_digits(n as nat),
    decreases n,
{
    if n < 10 {
        push_char(out, digit_char(n));
        assert(dec_digits(n as nat) =~= seq![dec_digit(n as int)]);
    } else {
        push_decimal(n / 10, out);
        push_char(out, digit_char(n % 10));
        assert(final(out)@ =~= old(out)@ + dec_digits(n as nat));
    }
}

/// Decimal text of `n`, matching `int_text`.
pub fn i64_text(n: i64) -> (r: String)
    ensures
        r@ == int_text(n as int),
{
    let mut s = String::new();
    if n >= 0 {
        push_decimal(n as u64, &mut s);
        assert(s@ =~= int_text(n as int));
    } else {
        push_char(&mut s, '-');
        let m: u64 = (-(n as i128)) as u64;
        push_decimal(m, &mut s);
        assert(s@ =~= int_text(n as int));
    }
    s
}

impl Context {
    /// A fresh context with the single global cell `mem` already registered:
    /// no instructions, and the name counter at one.
    pub fn new() -> (r: Context)
        ensures
            r@ == init_ctx_v(),
            ctx_wf(r@),
    {
        let mut context = Context {
            values: Vec::new(),
            instructions: Vec::new(),
            next_id: 1,
            global_variables: Vec::new(),
        };
        proof {
            assert(context@.global_variables =~= Seq::<(Seq<char>, int)>::empty());
            assert(context@.values =~= Seq::<ValueV>::empty());
            assert(context@.instructions =~= Seq::<int>::empty());
        }
        context.create_global_variable(String::from_str("mem"));
        proof {
            assert(context@ =~= init_ctx_v());
        }
        context
    }

    /// Mints a fresh register name `%<counter>` and advances the counter.
    /// Distinct counter values give distinct names
    /// (`lemma_register_names_distinct`), and no minted name equals a
    /// global's `@`-prefixed symbol (`lemma_register_name_not_global`).
    pub fn generate_local_name(&mut self) -> (name: String)
        requires
            old(self).next_id < usize::MAX,
        ensures
            name@ == local_name_v(old(self)@.next_id),
            final(self)@ == (ContextV { next_id: old(self)@.next_id + 1, ..old(self)@ }),
    {
        let mut name = String::from_str("%");
        push_decimal(self.next_id as u64, &mut name);
        self.next_id = self.next_id + 1;
        proof {
            reveal_strlit("%");
            assert(name@ =~= local_name_v(old(self)@.next_id));
            assert(self@ =~= ContextV { next_id: old(self)@.next_id + 1, ..old(self)@ });
        }
        name
    }

    /// Registers a new global cell under `name`, allocating its arena value
    /// with the `@`-prefixed symbol.  Registering a name twice is a defect,
    /// ruled out by the precondition.
    pub fn create_global_variable(&mut self, name: String) -> (id: ValueId)
        requires
            lookup_global_v(old(self)@.global_variables, name@) is None,
        ensures
            final(self)@.values == old(self)@.values + seq![
                ValueV::Global { name: seq!['@'] + name@, ty: IrType::Int },
            ],
            final(self)@.global_variables == old(self)@.global_variables + seq![
                (name@, old(self)@.values.len() as int),
            ],
            final(self)@.instructions == old(self)@.instructions,
            final(self)@.next_id == old(self)@.next_id,
            id as int == old(self)@.values.len(),
            ctx_wf(old(self)@) ==> ctx_wf(final(self)@),
    {
        let ghost name_v = name@;
        let mut gname = String::from_str("@");
        gname.append(name.as_str());
        proof {
            reveal_strlit("@");
            assert(gname@ =~= seq!['@'] + name_v);
        }
        let value = Value::Global(GlobalValue { name: gname, ty: IrType::Int });
        let id = self.values.len();
        self.values.push(value);
        self.global_variables.push((name, id));
        proof {
            assert(self@.values =~= old(self)@.values + seq![
                ValueV::Global { name: seq!['@'] + name_v, ty: IrType::Int },
            ]);
            assert(self@.global_variables =~= old(self)@.global_variables + seq![
                (name_v, old(self)@.values.len() as int),
            ]);
            assert(self@.instructions =~= old(self)@.instructions);
        }
        id
    }

    /// Appends a value to the arena and returns its fresh handle.
    pub fn allocate(&mut self, value: Value) -> (id: ValueId)
        ensures
            final(self)@ == (ContextV {
                values: old(self)@.values + seq![value@],
                ..old(self)@
            }),
            id as int == old(self)@.values.len(),
            ctx_wf(old(self)@) && value_refs_ok(value@, old(self)@.values.len() as int)
                ==> ctx_wf(final(self)@),
    {
        let id = self.values.len();
        self.values.push(value);
        proof {
            assert(self@ =~= ContextV { values: old(self)@.values + seq![value@], ..old(self)@ });
        }
        id
    }

    /// Appends a handle to the ordered instruction list.  Only handles of
    /// instruction values are ever recorded.
    pub fn record_instruction(&mut self, id: ValueId)
        requires
            (id as int) < old(self)@.values.len(),
            is_inst_v(old(self)@.values[id as int]),
        ensures
            final(self)@ == (ContextV {
                instructions: old(self)@.instructions + seq![id as int],
                ..old(self)@
            }),
            ctx_wf(old(self)@) ==> ctx_wf(final(self)@),
    {
        self.instructions.push(id);
        proof {
            assert(self@ =~= ContextV {
                instructions: old(self)@.instructions + seq![id as int],
                ..old(self)@
            });
        }
    }

    /// First handle registered under `name`, or `None`.
    pub fn find_global(&self, name: &String) -> (r: Option<ValueId>)
        ensures
            match r {
                Some(id) => lookup_global_v(self@.global_variables, name@) == Some(id as int),
                None => lookup_global_v(self@.global_variables, name@) is None,
            },
    {
        let n = self.global_variables.len();
        let mut i: usize = 0;
        proof {
            assert(self@.global_variables.skip(0) =~= self@.global_variables);
        }
        while i < n
            invariant
                i <= n,
                n == self.global_variables.len(),
                lookup_global_v(self@.global_variables, name@) == lookup_global_v(
                    self@.global_variables.skip(i as int),
                    name@,
                ),
            decreases n - i,
        {
            proof {
                assert(self@.global_variables.skip(i as int)[0] == self@.global_variables[
                    i as int
                ]);
            }
            if self.global_variables[i].0 == *name {
                return Some(self.global_variables[i].1);
            }
            proof {
                assert(self@.global_variables.skip(i as int).drop_first()
                    =~= self@.global_variables.skip(i + 1));
            }
            i = i + 1;
        }
        None
    }
}

/// The context `Context::new` returns: the arena holds the one global
/// `@mem`, registered under `mem` at handle zero.
pub open spec fn init_ctx_v() -> ContextV {
    ContextV {
        values: seq![ValueV::Global { name: seq!['@'] + "mem"@, ty: IrType::Int }],
        instructions: Seq::<int>::empty(),
        next_id: 1,
        global_variables: seq![("mem"@, 0int)],
    }
}

} // verus!

verus! {

// ------------------------------------------------------------------
// Lowering: syntax tree -> IR.
//
// The functions `lower_*_v` are the mathematical mirror of lowering: they
// say, for a tree lowered into a context whose arena holds `base` values
// and whose name counter stands at `next_id`, exactly which values are
// appended, which handles are recorded, which handle carries the result,
// and where the counter ends.  Every `to_ir` is proved equal to its mirror,
// so lowering is deterministic by construction.
// ------------------------------------------------------------------

/// What lowering one expression appends to a context.
#[verifier::ext_equal]
pub struct LoweredExpr {
    pub vals: Seq<ValueV>,
    pub insts: Seq<int>,
    pub handle: int,
    pub next_id: int,
}

/// What lowering statements appends to a context.
#[verifier::ext_equal]
pub struct LoweredStmts {
    pub vals: Seq<ValueV>,
    pub insts: Seq<int>,
    pub next_id: int,
}

pub open spec fn binop_of(op: InfixOp) -> BinaryOp {
    match op {
        InfixOp::Plus => BinaryOp::Add,
        InfixOp::Minus => BinaryOp::Sub,
        InfixOp::Multiply => BinaryOp::Mul,
        InfixOp::Divide => BinaryOp::Div,
    }
}

pub open spec fn has_mem(c: ContextV) -> bool {
    lookup_global_v(c.global_variables, "mem"@) is Some
}

/// The handle registered under `mem`.
pub open spec fn mem_handle_v(c: ContextV) -> int {
    match lookup_global_v(c.global_variables, "mem"@) {
        Some(h) => h,
        None => 0,
    }
}

pub open spec fn lower_expr_v(e: Expr, base: int, next_id: int, mem: int) -> LoweredExpr
    decreases e,
{
    match e {
        Expr::Primary(p) => lower_primary_v(*p, base, next_id, mem),
        Expr::Prefix(p) => lower_prefix_v(*p, base, next_id, mem),
        Expr::Infix(p) => lower_infix_v(*p, base, next_id, mem),
    }
}

pub open spec fn lower_primary_v(p: PrimaryExpr, base: int, next_id: int, mem: int) -> LoweredExpr
    decreases p,
{
    match p {
        PrimaryExpr::Mem => LoweredExpr {
            vals: seq![
                ValueV::Load { name: local_name_v(next_id), ty: IrType::Int, source: mem },
            ],
            insts: seq![base],
            handle: base,
            next_id: next_id + 1,
        },
        PrimaryExpr::Int(i) => LoweredExpr {
            vals: seq![ValueV::Constant { value: i as int }],
            insts: Seq::<int>::empty(),
            handle: base,
            next_id: next_id,
        },
        PrimaryExpr::Expr(e) => lower_expr_v(*e, base, next_id, mem),
    }
}

pub open spec fn lower_prefix_v(p: PrefixExpr, base: int, next_id: int, mem: int) -> LoweredExpr
    decreases p,
{
    let sub = lower_expr_v(*p.expr, base, next_id, mem);
    match p.op {
        PrefixOp::Plus => sub,
        PrefixOp::Minus => {
            let zero = base + sub.vals.len();
            LoweredExpr {
                vals: sub.vals + seq![
                    ValueV::Constant { value: 0 },
                    ValueV::Binary {
                        name: local_name_v(sub.next_id),
                        ty: IrType::Int,
                        op: BinaryOp::Sub,
                        left: zero,
                        right: sub.handle,
                    },
                ],
                insts: sub.insts + seq![zero + 1],
                handle: zero + 1,
                next_id: sub.next_id + 1,
            }
        },
    }
}

pub open spec fn lower_infix_v(x: InfixExpr, base: int, next_id: int, mem: int) -> LoweredExpr
    decreases x,
{
    let l = lower_expr_v(*x.lhs, base, next_id, mem);
    let r = lower_expr_v(*x.rhs, base + l.vals.len(), l.next_id, mem);
    let h = base + l.vals.len() + r.vals.len();
    LoweredExpr {
        vals: l.vals + r.vals + seq![
            ValueV::Binary {
                name: local_name_v(r.next_id),
                ty: IrType::Int,
                op: binop_of(x.op),
                left: l.handle,
                right: r.handle,
            },
        ],
        insts: l.insts + r.insts + seq![h],
        handle: h,
        next_id: r.next_id + 1,
    }
}

pub open spec fn lower_stmt_v(s: Stmt, base: int, next_id: int, mem: int) -> LoweredStmts
    decreases s,
{
    match s {
        Stmt::ExprStmt(e) => {
            let le = lower_expr_v(e, base, next_id, mem);
            let h = base + le.vals.len();
            LoweredStmts {
                vals: le.vals + seq![ValueV::Store { source: le.handle, destination: mem }],
                insts: le.insts + seq![h],
                next_id: le.next_id,
            }
        },
        Stmt::PrintStmt(e) => {
            let le = lower_expr_v(e, base, next_id, mem);
            let h = base + le.vals.len();
            LoweredStmts {
                vals: le.vals + seq![ValueV::Print { param: le.handle }],
                insts: le.insts + seq![h],
                next_id: le.next_id,
            }
        },
    }
}

pub open spec fn lower_stmts_v(ss: Seq<Stmt>, base: int, next_id: int, mem: int) -> LoweredStmts
    decreases ss.len(),
{
    if ss.len() == 0 {
        LoweredStmts { vals: Seq::<ValueV>::empty(), insts: Seq::<int>::empty(), next_id: next_id }
    } else {
        let first = lower_stmt_v(ss[0], base, next_id, mem);
        let rest = lower_stmts_v(
            ss.drop_first(),
            base + first.vals.len(),
            first.next_id,
            mem,
        );
        LoweredStmts {
            vals: first.vals + rest.vals,
            insts: first.insts + rest.insts,
            next_id: rest.next_id,
        }
    }
}

/// Shared shape of everything the mirror produces: the result handle lies
/// among the appended values, every appended value only references below
/// itself, every recorded handle addresses an appended instruction, and the
/// name counter never moves backwards.
pub open spec fn shape_ok(o: LoweredExpr, base: int, next_id: int) -> bool {
    &&& 1 <= o.vals.len()
    &&& base <= o.handle < base + o.vals.len()
    &&& o.next_id >= next_id
    &&& (forall|i: int| 0 <= i < o.vals.len() ==> !((#[trigger] o.vals[i]) is Alloca))
    &&& (forall|i: int| 0 <= i < o.vals.len() ==> value_refs_ok(#[trigger] o.vals[i], base + i))
    &&& (forall|i: int|
        0 <= i < o.insts.len() ==> base <= #[trigger] o.insts[i] < base + o.vals.len()
            && is_inst_v(o.vals[o.insts[i] - base]))
}

pub open spec fn stmts_shape_ok(vals: Seq<ValueV>, insts: Seq<int>, next_id_in: int, next_id_out: int, base: int) -> bool {
    &&& next_id_out >= next_id_in
    &&& (forall|i: int| 0 <= i < vals.len() ==> !((#[trigger] vals[i]) is Alloca))
    &&& (forall|i: int| 0 <= i < vals.len() ==> value_refs_ok(#[trigger] vals[i], base + i))
    &&& (forall|i: int|
        0 <= i < insts.len() ==> base <= #[trigger] insts[i] < base + vals.len()
            && is_inst_v(vals[insts[i] - base]))
}

pub proof fn lemma_lower_expr_shape(e: Expr, base: int, next_id: int, mem: int)
    requires
        0 <= mem < base,
    ensures
        shape_ok(lower_expr_v(e, base, next_id, mem), base, next_id),
    decreases e,
{
    match e {
        Expr::Primary(p) => lemma_lower_primary_shape(*p, base, next_id, mem),
        Expr::Prefix(p) => lemma_lower_prefix_shape(*p, base, next_id, mem),
        Expr::Infix(p) => lemma_lower_infix_shape(*p, base, next_id, mem),
    }
}

pub proof fn lemma_lower_primary_shape(p: PrimaryExpr, base: int, next_id: int, mem: int)
    requires
        0 <= mem < base,
    ensures
        shape_ok(lower_primary_v(p, base, next_id, mem), base, next_id),
    decreases p,
{
    match p {
        PrimaryExpr::Mem => {
        },
        PrimaryExpr::Int(_) => {
        },
        PrimaryExpr::Expr(e) => lemma_lower_expr_shape(*e, base, next_id, mem),
    }
}

pub proof fn lemma_lower_prefix_shape(p: PrefixExpr, base: int, next_id: int, mem: int)
    requires
        0 <= mem < base,
    ensures
        shape_ok(lower_prefix_v(p, base, next_id, mem), base, next_id),
    decreases p,
{
    lemma_lower_expr_shape(*p.expr, base, next_id, mem);
}

pub proof fn lemma_lower_infix_shape(x: InfixExpr, base: int, next_id: int, mem: int)
    requires
        0 <= mem < base,
    ensures
        shape_ok(lower_infix_v(x, base, next_id, mem), base, next_id),
    decreases x,
{
    let l = lower_expr_v(*x.lhs, base, next_id, mem);
    lemma_lower_expr_shape(*x.lhs, base, next_id, mem);
    lemma_lower_expr_shape(*x.rhs, base + l.vals.len(), l.next_id, mem);
}

pub proof fn lemma_lower_stmt_shape(s: Stmt, base: int, next_id: int, mem: int)
    requires
        0 <= mem < base,
    ensures
        (stmts_shape_ok(
            lower_stmt_v(s, base, next_id, mem).vals,
            lower_stmt_v(s, base, next_id, mem).insts,
            next_id,
            lower_stmt_v(s, base, next_id, mem).next_id,
            base,
        )),
    decreases s,
{
    match s {
        Stmt::ExprStmt(e) => lemma_lower_expr_shape(e, base, next_id, mem),
        Stmt::PrintStmt(e) => lemma_lower_expr_shape(e, base, next_id, mem),
    }
}

pub proof fn lemma_lower_stmts_shape(ss: Seq<Stmt>, base: int, next_id: int, mem: int)
    requires
        0 <= mem < base,
    ensures
        (stmts_shape_ok(
            lower_stmts_v(ss, base, next_id, mem).vals,
            lower_stmts_v(ss, base, next_id, mem).insts,
            next_id,
            lower_stmts_v(ss, base, next_id, mem).next_id,
            base,
        )),
    decreases ss.len(),
{
    if ss.len() == 0 {
    } else {
        let first = lower_stmt_v(ss[0], base, next_id, mem);
        lemma_lower_stmt_shape(ss[0], base, next_id, mem);
        lemma_lower_stmts_shape(ss.drop_first(), base + first.vals.len(), first.next_id, mem);
    }
}

/// Precondition shared by every lowering step: a well-formed context with
/// the `mem` global registered, whose name counter will still fit in
/// `usize` when the step is done.
pub open spec fn lower_pre(c: ContextV, out_next_id: int) -> bool {
    &&& ctx_wf(c)
    &&& has_mem(c)
    &&& out_next_id <= usize::MAX as int
}

/// What every lowering step ensures: the context grew by exactly what the
/// mirror says, nothing else moved, and well-formedness is preserved.
pub open spec fn lower_post(c0: ContextV, c1: ContextV, out: LoweredExpr, r: int) -> bool {
    &&& c1.values == c0.values + out.vals
    &&& c1.instructions == c0.instructions + out.insts
    &&& c1.next_id == out.next_id
    &&& c1.global_variables == c0.global_variables
    &&& r == out.handle
    &&& ctx_wf(c1)
}

pub proof fn lemma_lookup_in_entries(gs: Seq<(Seq<char>, int)>, name: Seq<char>)
    ensures
        (match lookup_global_v(gs, name) {
            Some(h) => exists|j: int| 0 <= j < gs.len() && (#[trigger] gs[j]).1 == h,
            None => true,
        }),
    decreases gs.len(),
{
    if gs.len() == 0 {
    } else if gs[0].0 == name {
        assert(0 <= 0 < gs.len() && gs[0].1 == gs[0].1);
    } else {
        lemma_lookup_in_entries(gs.drop_first(), name);
        match lookup_global_v(gs.drop_first(), name) {
            Some(h) => {
                let j = choose|j: int|
                    0 <= j < gs.drop_first().len() && (#[trigger] gs.drop_first()[j]).1 == h;
                assert(gs[j + 1] == gs.drop_first()[j]);
            },
            None => {
            },
        }
    }
}

/// How many register names lowering an expression mints: one per `mem`
/// read, one per negation, one per infix operation.
pub open spec fn expr_name_need(e: Expr) -> nat
    decreases e,
{
    match e {
        Expr::Primary(p) => primary_name_need(*p),
        Expr::Prefix(p) => prefix_name_need(*p),
        Expr::Infix(x) => infix_name_need(*x),
    }
}

pub open spec fn primary_name_need(p: PrimaryExpr) -> nat
    decreases p,
{
    match p {
        PrimaryExpr::Mem => 1,
        PrimaryExpr::Int(_) => 0,
        PrimaryExpr::Expr(e) => expr_name_need(*e),
    }
}

pub open spec fn prefix_name_need(p: PrefixExpr) -> nat
    decreases p,
{
    match p.op {
        PrefixOp::Plus => expr_name_need(*p.expr),
        PrefixOp::Minus => expr_name_need(*p.expr) + 1,
    }
}

pub open spec fn infix_name_need(x: InfixExpr) -> nat
    decreases x,
{
    expr_name_need(*x.lhs) + expr_name_need(*x.rhs) + 1
}

pub open spec fn stmt_name_need(s: Stmt) -> nat
    decreases s,
{
    match s {
        Stmt::ExprStmt(e) => expr_name_need(e),
        Stmt::PrintStmt(e) => expr_name_need(e),
    }
}

pub open spec fn stmts_name_need(ss: Seq<Stmt>) -> nat
    decreases ss.len(),
{
    if ss.len() == 0 {
        0
    } else {
        stmt_name_need(ss[0]) + stmts_name_need(ss.drop_first())
    }
}

/// Lowering advances the name counter by exactly the name need of what it
/// lowers.
pub proof fn lemma_lower_expr_names(e: Expr, base: int, next_id: int, mem: int)
    ensures
        lower_expr_v(e, base, next_id, mem).next_id == next_id + expr_name_need(e),
    decreases e,
{
    match e {
        Expr::Primary(p) => {
            match *p {
                PrimaryExpr::Mem => {
                },
                PrimaryExpr::Int(_) => {
                },
                PrimaryExpr::Expr(inner) => {
                    lemma_lower_expr_names(*inner, base, next_id, mem);
                },
            }
        },
        Expr::Prefix(p) => {
            lemma_lower_expr_names(*p.expr, base, next_id, mem);
        },
        Expr::Infix(x) => {
            let l = lower_expr_v(*x.lhs, base, next_id, mem);
            lemma_lower_expr_names(*x.lhs, base, next_id, mem);
            lemma_lower_expr_names(*x.rhs, base + l.vals.len(), l.next_id, mem);
        },
    }
}

pub proof fn lemma_lower_stmt_names(s: Stmt, base: int, next_id: int, mem: int)
    ensures
        lower_stmt_v(s, base, next_id, mem).next_id == next_id + stmt_name_need(s),
    decreases s,
{
    match s {
        Stmt::ExprStmt(e) => lemma_lower_expr_names(e, base, next_id, mem),
        Stmt::PrintStmt(e) => lemma_lower_expr_names(e, base, next_id, mem),
    }
}

pub proof fn lemma_lower_stmts_names(ss: Seq<Stmt>, base: int, next_id: int, mem: int)
    ensures
        lower_stmts_v(ss, base, next_id, mem).next_id == next_id + stmts_name_need(ss),
    decreases ss.len(),
{
    if ss.len() == 0 {
    } else {
        let first = lower_stmt_v(ss[0], base, next_id, mem);
        lemma_lower_stmt_names(ss[0], base, next_id, mem);
        lemma_lower_stmts_names(ss.drop_first(), base + first.vals.len(), first.next_id, mem);
    }
}

/// In a well-formed context the `mem` handle addresses a global in the arena.
pub proof fn lemma_mem_handle_wf(c: ContextV)
    requires
        ctx_wf(c),
        has_mem(c),
    ensures
        0 <= mem_handle_v(c) < c.values.len(),
        is_global_v(c.values[mem_handle_v(c)]),
{
    lemma_lookup_in_entries(c.global_variables, "mem"@);
}

} // verus!

verus! {

/// Lowering into a context.  `lower_req` and `lower_ens` tie each
/// implementor's `to_ir` to its mathematical mirror.
pub trait IrGenerator {
    spec fn lower_req(&self, c: ContextV) -> bool;

    spec fn lower_ens(&self, c0: ContextV, c1: ContextV) -> bool;

    fn to_ir(&self, context: &mut Context)
        requires
            self.lower_req(old(context)@),
        ensures
            self.lower_ens(old(context)@, final(context)@),
    ;
}

impl IrGenerator for TransUnit {
    open spec fn lower_req(&self, c: ContextV) -> bool {
        lower_pre(
            c,
            lower_stmts_v(
                self.block.stmts@,
                c.values.len() as int,
                c.next_id,
                mem_handle_v(c),
            ).next_id,
        )
    }

    open spec fn lower_ens(&self, c0: ContextV, c1: ContextV) -> bool {
        let out = lower_stmts_v(
            self.block.stmts@,
            c0.values.len() as int,
            c0.next_id,
            mem_handle_v(c0),
        );
        &&& c1.values == c0.values + out.vals
        &&& c1.instructions == c0.instructions + out.insts
        &&& c1.next_id == out.next_id
        &&& c1.global_variables == c0.global_variables
        &&& ctx_wf(c1)
    }

    fn to_ir(&self, context: &mut Context) {
        self.block.to_ir(context);
    }
}

impl IrGenerator for Block {
    open spec fn lower_req(&self, c: ContextV) -> bool {
        lower_pre(
            c,
            lower_stmts_v(self.stmts@, c.values.len() as int, c.next_id, mem_handle_v(c)).next_id,
        )
    }

    open spec fn lower_ens(&self, c0: ContextV, c1: ContextV) -> bool {
        let out = lower_stmts_v(self.stmts@, c0.values.len() as int, c0.next_id, mem_handle_v(c0));
        &&& c1.values == c0.values + out.vals
        &&& c1.instructions == c0.instructions + out.insts
        &&& c1.next_id == out.next_id
        &&& c1.global_variables == c0.global_variables
        &&& ctx_wf(c1)
    }

    fn to_ir(&self, context: &mut Context) {
        let ghost c0 = context@;
        let ghost mem = mem_handle_v(c0);
        let ghost total = lower_stmts_v(self.stmts@, c0.values.len() as int, c0.next_id, mem);
        let n = self.stmts.len();
        let mut i: usize = 0;
        proof {
            assert(self.stmts@.skip(0) =~= self.stmts@);
        }
        while i < n
            invariant
                i <= n,
                n == self.stmts.len(),
                ctx_wf(context@),
                context@.global_variables == c0.global_variables,
                has_mem(c0) && ctx_wf(c0),
                total == lower_stmts_v(self.stmts@, c0.values.len() as int, c0.next_id, mem),
                total.next_id <= usize::MAX as int,
                mem == mem_handle_v(c0),
                c0.values.len() <= context@.values.len(),
                ({
                    let rem = lower_stmts_v(
                        self.stmts@.skip(i as int),
                        context@.values.len() as int,
                        context@.next_id,
                        mem,
                    );
                    &&& c0.values + total.vals == context@.values + rem.vals
                    &&& c0.instructions + total.insts == context@.instructions + rem.insts
                    &&& total.next_id == rem.next_id
                }),
            decreases n - i,
        {
            let ghost cpre = context@;
            let ghost rem = lower_stmts_v(
                self.stmts@.skip(i as int),
                cpre.values.len() as int,
                cpre.next_id,
                mem,
            );
            proof {
                lemma_mem_handle_wf(c0);
                // the remaining suffix is nonempty, so it unfolds to its head
                assert(self.stmts@.skip(i as int).len() > 0);
                assert(self.stmts@.skip(i as int)[0] == self.stmts@[i as int]);
                assert(self.stmts@.skip(i as int).drop_first() =~= self.stmts@.skip(i as int + 1));
                // the head statement's own counter demand is below the total
                let head = lower_stmt_v(self.stmts@[i as int], cpre.values.len() as int, cpre.next_id, mem);
                lemma_lower_stmts_shape(
                    self.stmts@.skip(i as int + 1),
                    cpre.values.len() as int + head.vals.len(),
                    head.next_id,
                    mem,
                );
            }
            let stmt = &self.stmts[i];
            stmt.to_ir(context);
            i = i + 1;
            proof {
                assert(c0.values + total.vals == context@.values + lower_stmts_v(
                    self.stmts@.skip(i as int),
                    context@.values.len() as int,
                    context@.next_id,
                    mem,
                ).vals);
            }
        }
        proof {
            assert(self.stmts@.skip(n as int).len() == 0);
            assert(context@.values =~= c0.values + total.vals);
            assert(context@.instructions =~= c0.instructions + total.insts);
        }
    }
}

impl IrGenerator for Stmt {
    open spec fn lower_req(&self, c: ContextV) -> bool {
        lower_pre(
            c,
            lower_stmt_v(*self, c.values.len() as int, c.next_id, mem_handle_v(c)).next_id,
        )
    }

    open spec fn lower_ens(&self, c0: ContextV, c1: ContextV) -> bool {
        let out = lower_stmt_v(*self, c0.values.len() as int, c0.next_id, mem_handle_v(c0));
        &&& c1.values == c0.values + out.vals
        &&& c1.instructions == c0.instructions + out.insts
        &&& c1.next_id == out.next_id
        &&& c1.global_variables == c0.global_variables
        &&& ctx_wf(c1)
    }

    fn to_ir(&self, context: &mut Context) {
        let ghost c0 = context@;
        proof {
            lemma_mem_handle_wf(c0);
        }
        match self {
            Stmt::ExprStmt(expr) => {
                proof {
                    lemma_lower_expr_shape(
                        *expr,
                        c0.values.len() as int,
                        c0.next_id,
                        mem_handle_v(c0),
                    );
                }
                let tmp = expr.to_ir(context);
                // save to mem
                let key = String::from_str("mem");
                let mem = context.find_global(&key).unwrap();
                let store_inst = StoreInst { source: tmp, destination: mem };
                let inst_value_id = context.allocate(
                    Value::Instruction(InstructionValue::StoreInst(store_inst)),
                );
                context.record_instruction(inst_value_id);
                proof {
                    let out = lower_stmt_v(*self, c0.values.len() as int, c0.next_id, mem_handle_v(c0));
                    assert(context@.values =~= c0.values + out.vals);
                    assert(context@.instructions =~= c0.instructions + out.insts);
                }
            },
            Stmt::PrintStmt(expr) => {
                proof {
                    lemma_lower_expr_shape(
                        *expr,
                        c0.values.len() as int,
                        c0.next_id,
                        mem_handle_v(c0),
                    );
                }
                let value_id = expr.to_ir(context);
                let print_var_inst = PrintIntInst { param: value_id };
                let inst_value_id = context.allocate(
                    Value::Instruction(InstructionValue::PrintIntInst(print_var_inst)),
                );
                context.record_instruction(inst_value_id);
                proof {
                    let out = lower_stmt_v(*self, c0.values.len() as int, c0.next_id, mem_handle_v(c0));
                    assert(context@.values =~= c0.values + out.vals);
                    assert(context@.instructions =~= c0.instructions + out.insts);
                }
            },
        }
    }
}

impl Expr {
    pub fn to_ir(&self, context: &mut Context) -> (r: ValueId)
        requires
            lower_pre(
                old(context)@,
                lower_expr_v(
                    *self,
                    old(context)@.values.len() as int,
                    old(context)@.next_id,
                    mem_handle_v(old(context)@),
                ).next_id,
            ),
        ensures
            lower_post(
                old(context)@,
                final(context)@,
                lower_expr_v(
                    *self,
                    old(context)@.values.len() as int,
                    old(context)@.next_id,
                    mem_handle_v(old(context)@),
                ),
                r as int,
            ),
        decreases self,
    {
        match self {
            Expr::Primary(primary_expr) => primary_expr.to_ir(context),
            Expr::Prefix(prefix_expr) => prefix_expr.to_ir(context),
            Expr::Infix(infix_expr) => infix_expr.to_ir(context),
        }
    }
}

impl PrimaryExpr {
    pub fn to_ir(&self, context: &mut Context) -> (r: ValueId)
        requires
            lower_pre(
                old(context)@,
                lower_primary_v(
                    *self,
                    old(context)@.values.len() as int,
                    old(context)@.next_id,
                    mem_handle_v(old(context)@),
                ).next_id,
            ),
        ensures
            lower_post(
                old(context)@,
                final(context)@,
                lower_primary_v(
                    *self,
                    old(context)@.values.len() as int,
                    old(context)@.next_id,
                    mem_handle_v(old(context)@),
                ),
                r as int,
            ),
        decreases self,
    {
        let ghost c0 = context@;
        match self {
            PrimaryExpr::Mem => {
                proof {
                    lemma_mem_handle_wf(c0);
                }
                // generate a load instruction reading the one memory cell
                let name = context.generate_local_name();
                let key = String::from_str("mem");
                let mem = context.find_global(&key).unwrap();
                let load_inst = LoadInst { name: name, ty: IrType::Int, source: mem };
                let inst_value_id = context.allocate(
                    Value::Instruction(InstructionValue::LoadInst(load_inst)),
                );
                context.record_instruction(inst_value_id);
                proof {
                    let out = lower_primary_v(*self, c0.values.len() as int, c0.next_id, mem_handle_v(c0));
                    assert(context@.values =~= c0.values + out.vals);
                    assert(context@.instructions =~= c0.instructions + out.insts);
                }
                inst_value_id
            },
            PrimaryExpr::Int(i) => {
                let value = Value::Constant(ConstantValue::Int(*i));
                let id = context.allocate(value);
                proof {
                    let out = lower_primary_v(*self, c0.values.len() as int, c0.next_id, mem_handle_v(c0));
                    assert(context@.values =~= c0.values + out.vals);
                    assert(context@.instructions =~= c0.instructions + out.insts);
                }
                id
            },
            PrimaryExpr::Expr(expr) => expr.to_ir(context),
        }
    }
}

impl PrefixExpr {
    pub fn to_ir(&self, context: &mut Context) -> (r: ValueId)
        requires
            lower_pre(
                old(context)@,
                lower_prefix_v(
                    *self,
                    old(context)@.values.len() as int,
                    old(context)@.next_id,
                    mem_handle_v(old(context)@),
                ).next_id,
            ),
        ensures
            lower_post(
                old(context)@,
                final(context)@,
                lower_prefix_v(
                    *self,
                    old(context)@.values.len() as int,
                    old(context)@.next_id,
                    mem_handle_v(old(context)@),
                ),
                r as int,
            ),
        decreases self,
    {
        let ghost c0 = context@;
        let ghost mem = mem_handle_v(c0);
        proof {
            lemma_mem_handle_wf(c0);
            lemma_lower_expr_shape(*self.expr, c0.values.len() as int, c0.next_id, mem);
        }
        let expr_value_id = self.expr.to_ir(context);
        match self.op {
            PrefixOp::Plus => expr_value_id,
            PrefixOp::Minus => {
                let zero = context.allocate(Value::Constant(ConstantValue::Int(0)));
                let bin_op = BinaryOperator {
                    name: context.generate_local_name(),
                    ty: IrType::Int,
                    operation: BinaryOp::Sub,
                    left_operand: zero,
                    right_operand: expr_value_id,
                };
                let id = context.allocate(
                    Value::Instruction(InstructionValue::BinaryOperator(bin_op)),
                );
                context.record_instruction(id);
                proof {
                    let out = lower_prefix_v(*self, c0.values.len() as int, c0.next_id, mem);
                    assert(context@.values =~= c0.values + out.vals);
                    assert(context@.instructions =~= c0.instructions + out.insts);
                }
                id
            },
        }
    }
}

impl InfixExpr {
    pub fn to_ir(&self, context: &mut Context) -> (r: ValueId)
        requires
            lower_pre(
                old(context)@,
                lower_infix_v(
                    *self,
                    old(context)@.values.len() as int,
                    old(context)@.next_id,
                    mem_handle_v(old(context)@),
                ).next_id,
            ),
        ensures
            lower_post(
                old(context)@,
                final(context)@,
                lower_infix_v(
                    *self,
                    old(context)@.values.len() as int,
                    old(context)@.next_id,
                    mem_handle_v(old(context)@),
                ),
                r as int,
            ),
        decreases self,
    {
        let ghost c0 = context@;
        let ghost mem = mem_handle_v(c0);
        let ghost l = lower_expr_v(*self.lhs, c0.values.len() as int, c0.next_id, mem);
        let ghost rr = lower_expr_v(*self.rhs, c0.values.len() as int + l.vals.len(), l.next_id, mem);
        proof {
            lemma_mem_handle_wf(c0);
            lemma_lower_expr_shape(*self.lhs, c0.values.len() as int, c0.next_id, mem);
            lemma_lower_expr_shape(*self.rhs, c0.values.len() as int + l.vals.len(), l.next_id, mem);
        }
        let lhs_value_id = self.lhs.to_ir(context);
        let rhs_value_id = self.rhs.to_ir(context);
        let bin_op = match self.op {
            InfixOp::Plus => BinaryOp::Add,
            InfixOp::Minus => BinaryOp::Sub,
            InfixOp::Multiply => BinaryOp::Mul,
            InfixOp::Divide => BinaryOp::Div,
        };
        let bin_inst = BinaryOperator {
            name: context.generate_local_name(),
            ty: IrType::Int,
            operation: bin_op,
            left_operand: lhs_value_id,
            right_operand: rhs_value_id,
        };
        let id = context.allocate(Value::Instruction(InstructionValue::BinaryOperator(bin_inst)));
        context.record_instruction(id);
        proof {
            let out = lower_infix_v(*self, c0.values.len() as int, c0.next_id, mem);
            assert(context@.values =~= c0.values + out.vals);
            assert(context@.instructions =~= c0.instructions + out.insts);
        }
        id
    }
}

} // verus!

verus! {

/// Uniform access to a value's result name and type, dispatched by
/// exhaustive matching over the closed set of value kinds.  The kinds that
/// produce no result report an empty name and the void type, and ignore
/// attempts to set either; `named_post` and `typed_post` say per kind what
/// a setter leaves behind.
pub trait ValueTrait: Sized {
    spec fn spec_name(&self) -> Seq<char>;

    spec fn spec_ty(&self) -> IrType;

    spec fn named_post(&self, prev: Self, name: Seq<char>) -> bool;

    spec fn typed_post(&self, prev: Self, ty: IrType) -> bool;

    fn name(&self) -> (r: String)
        ensures
            r@ == self.spec_name(),
    ;

    fn set_name(&mut self, name: String)
        ensures
            final(self).named_post(*old(self), name@),
    ;

    fn ty(&self) -> (r: IrType)
        ensures
            r == self.spec_ty(),
    ;

    fn set_ty(&mut self, ty: IrType)
        ensures
            final(self).typed_post(*old(self), ty),
    ;
}

impl ValueTrait for GlobalValue {
    open spec fn spec_name(&self) -> Seq<char> {
        self.name@
    }

    open spec fn spec_ty(&self) -> IrType {
        self.ty
    }

    open spec fn named_post(&self, prev: Self, name: Seq<char>) -> bool {
        self.name@ == name && self.ty == prev.ty
    }

    open spec fn typed_post(&self, prev: Self, ty: IrType) -> bool {
        self.ty == ty && self.name@ == prev.name@
    }

    fn name(&self) -> (r: String) {
        self.name.clone()
    }

    fn set_name(&mut self, name: String) {
        self.name = name;
    }

    fn ty(&self) -> (r: IrType) {
        self.ty
    }

    fn set_ty(&mut self, ty: IrType) {
        self.ty = ty;
    }
}

impl ValueTrait for LoadInst {
    open spec fn spec_name(&self) -> Seq<char> {
        self.name@
    }

    open spec fn spec_ty(&self) -> IrType {
        self.ty
    }

    open spec fn named_post(&self, prev: Self, name: Seq<char>) -> bool {
        self.name@ == name && self.ty == prev.ty && self.source == prev.source
    }

    open spec fn typed_post(&self, prev: Self, ty: IrType) -> bool {
        self.ty == ty && self.name@ == prev.name@ && self.source == prev.source
    }

    fn name(&self) -> (r: String) {
        self.name.clone()
    }

    fn set_name(&mut self, name: String) {
        self.name = name;
    }

    fn ty(&self) -> (r: IrType) {
        self.ty
    }

    fn set_ty(&mut self, ty: IrType) {
        self.ty = ty;
    }
}

impl ValueTrait for AllocaInst {
    open spec fn spec_name(&self) -> Seq<char> {
        self.name@
    }

    open spec fn spec_ty(&self) -> IrType {
        self.ty
    }

    open spec fn named_post(&self, prev: Self, name: Seq<char>) -> bool {
        self.name@ == name && self.ty == prev.ty
    }

    open spec fn typed_post(&self, prev: Self, ty: IrType) -> bool {
        self.ty == ty && self.name@ == prev.name@
    }

    fn name(&self) -> (r: String) {
        self.name.clone()
    }

    fn set_name(&mut self, name: String) {
        self.name = name;
    }

    fn ty(&self) -> (r: IrType) {
        self.ty
    }

    fn set_ty(&mut self, ty: IrType) {
        self.ty = ty;
    }
}

impl ValueTrait for BinaryOperator {
    open spec fn spec_name(&self) -> Seq<char> {
        self.name@
    }

    open spec fn spec_ty(&self) -> IrType {
        self.ty
    }

    open spec fn named_post(&self, prev: Self, name: Seq<char>) -> bool {
        self.name@ == name && self.ty == prev.ty && self.operation == prev.operation
            && self.left_operand == prev.left_operand && self.right_operand == prev.right_operand
    }

    open spec fn typed_post(&self, prev: Self, ty: IrType) -> bool {
        self.ty == ty && self.name@ == prev.name@ && self.operation == prev.operation
            && self.left_operand == prev.left_operand && self.right_operand == prev.right_operand
    }

    fn name(&self) -> (r: String) {
        self.name.clone()
    }

    fn set_name(&mut self, name: String) {
        self.name = name;
    }

    fn ty(&self) -> (r: IrType) {
        self.ty
    }

    fn set_ty(&mut self, ty: IrType) {
        self.ty = ty;
    }
}

impl ValueTrait for StoreInst {
    open spec fn spec_name(&self) -> Seq<char> {
        Seq::<char>::empty()
    }

    open spec fn spec_ty(&self) -> IrType {
        IrType::Void
    }

    open spec fn named_post(&self, prev: Self, name: Seq<char>) -> bool {
        *self == prev
    }

    open spec fn typed_post(&self, prev: Self, ty: IrType) -> bool {
        *self == prev
    }

    fn name(&self) -> (r: String) {
        let r = String::new();
        proof {
            assert(r@ =~= Seq::<char>::empty());
        }
        r
    }

    fn set_name(&mut self, name: String) {
    }

    fn ty(&self) -> (r: IrType) {
        IrType::Void
    }

    fn set_ty(&mut self, ty: IrType) {
    }
}

impl ValueTrait for PrintIntInst {
    open spec fn spec_name(&self) -> Seq<char> {
        Seq::<char>::empty()
    }

    open spec fn spec_ty(&self) -> IrType {
        IrType::Void
    }

    open spec fn named_post(&self, prev: Self, name: Seq<char>) -> bool {
        *self == prev
    }

    open spec fn typed_post(&self, prev: Self, ty: IrType) -> bool {
        *self == prev
    }

    fn name(&self) -> (r: String) {
        let r = String::new();
        proof {
            assert(r@ =~= Seq::<char>::empty());
        }
        r
    }

    fn set_name(&mut self, name: String) {
    }

    fn ty(&self) -> (r: IrType) {
        IrType::Void
    }

    fn set_ty(&mut self, ty: IrType) {
    }
}

impl ValueTrait for ConstantValue {
    open spec fn spec_name(&self) -> Seq<char> {
        Seq::<char>::empty()
    }

    open spec fn spec_ty(&self) -> IrType {
        match self {
            ConstantValue::Int(_) => IrType::Int,
        }
    }

    open spec fn named_post(&self, prev: Self, name: Seq<char>) -> bool {
        *self == prev
    }

    open spec fn typed_post(&self, prev: Self, ty: IrType) -> bool {
        *self == prev
    }

    fn name(&self) -> (r: String) {
        let r = String::new();
        proof {
            assert(r@ =~= Seq::<char>::empty());
        }
        r
    }

    fn set_name(&mut self, name: String) {
    }

    fn ty(&self) -> (r: IrType) {
        match self {
            ConstantValue::Int(_) => IrType::Int,
        }
    }

    fn set_ty(&mut self, ty: IrType) {
    }
}

impl ValueTrait for InstructionValue {
    open spec fn spec_name(&self) -> Seq<char> {
        match self {
            InstructionValue::BinaryOperator(v) => v.spec_name(),
            InstructionValue::LoadInst(v) => v.spec_name(),
            InstructionValue::StoreInst(v) => v.spec_name(),
            InstructionValue::AllocaInst(v) => v.spec_name(),
            InstructionValue::PrintIntInst(v) => v.spec_name(),
        }
    }

    open spec fn spec_ty(&self) -> IrType {
        match self {
            InstructionValue::BinaryOperator(v) => v.spec_ty(),
            InstructionValue::LoadInst(v) => v.spec_ty(),
            InstructionValue::StoreInst(v) => v.spec_ty(),
            InstructionValue::AllocaInst(v) => v.spec_ty(),
            InstructionValue::PrintIntInst(v) => v.spec_ty(),
        }
    }

    open spec fn named_post(&self, prev: Self, name: Seq<char>) -> bool {
        match (self, prev) {
            (InstructionValue::BinaryOperator(v), InstructionValue::BinaryOperator(p)) => v
                .named_post(p, name),
            (InstructionValue::LoadInst(v), InstructionValue::LoadInst(p)) => v.named_post(
                p,
                name,
            ),
            (InstructionValue::StoreInst(v), InstructionValue::StoreInst(p)) => v.named_post(
                p,
                name,
            ),
            (InstructionValue::AllocaInst(v), InstructionValue::AllocaInst(p)) => v.named_post(
                p,
                name,
            ),
            (InstructionValue::PrintIntInst(v), InstructionValue::PrintIntInst(p)) => v
                .named_post(p, name),
            _ => false,
        }
    }

    open spec fn typed_post(&self, prev: Self, ty: IrType) -> bool {
        match (self, prev) {
            (InstructionValue::BinaryOperator(v), InstructionValue::BinaryOperator(p)) => v
                .typed_post(p, ty),
            (InstructionValue::LoadInst(v), InstructionValue::LoadInst(p)) => v.typed_post(p, ty),
            (InstructionValue::StoreInst(v), InstructionValue::StoreInst(p)) => v.typed_post(
                p,
                ty,
            ),
            (InstructionValue::AllocaInst(v), InstructionValue::AllocaInst(p)) => v.typed_post(
                p,
                ty,
            ),
            (InstructionValue::PrintIntInst(v), InstructionValue::PrintIntInst(p)) => v
                .typed_post(p, ty),
            _ => false,
        }
    }

    fn name(&self) -> (r: String) {
        match self {
            InstructionValue::BinaryOperator(v) => v.name(),
            InstructionValue::LoadInst(v) => v.name(),
            InstructionValue::StoreInst(v) => v.name(),
            InstructionValue::AllocaInst(v) => v.name(),
            InstructionValue::PrintIntInst(v) => v.name(),
        }
    }

    fn set_name(&mut self, name: String) {
        match self {
            InstructionValue::BinaryOperator(v) => v.set_name(name),
            InstructionValue::LoadInst(v) => v.set_name(name),
            InstructionValue::StoreInst(v) => v.set_name(name),
            InstructionValue::AllocaInst(v) => v.set_name(name),
            InstructionValue::PrintIntInst(v) => v.set_name(name),
        }
    }

    fn ty(&self) -> (r: IrType) {
        match self {
            InstructionValue::BinaryOperator(v) => v.ty(),
            InstructionValue::LoadInst(v) => v.ty(),
            InstructionValue::StoreInst(v) => v.ty(),
            InstructionValue::AllocaInst(v) => v.ty(),
            InstructionValue::PrintIntInst(v) => v.ty(),
        }
    }

    fn set_ty(&mut self, ty: IrType) {
        match self {
            InstructionValue::BinaryOperator(v) => v.set_ty(ty),
            InstructionValue::LoadInst(v) => v.set_ty(ty),
            InstructionValue::StoreInst(v) => v.set_ty(ty),
            InstructionValue::AllocaInst(v) => v.set_ty(ty),
            InstructionValue::PrintIntInst(v) => v.set_ty(ty),
        }
    }
}

impl ValueTrait for Value {
    open spec fn spec_name(&self) -> Seq<char> {
        match self {
            Value::Global(v) => v.spec_name(),
            Value::Instruction(v) => v.spec_name(),
            Value::Constant(v) => v.spec_name(),
        }
    }

    open spec fn spec_ty(&self) -> IrType {
        match self {
            Value::Global(v) => v.spec_ty(),
            Value::Instruction(v) => v.spec_ty(),
            Value::Constant(v) => v.spec_ty(),
        }
    }

    open spec fn named_post(&self, prev: Self, name: Seq<char>) -> bool {
        match (self, prev) {
            (Value::Global(v), Value::Global(p)) => v.named_post(p, name),
            (Value::Instruction(v), Value::Instruction(p)) => v.named_post(p, name),
            (Value::Constant(v), Value::Constant(p)) => v.named_post(p, name),
            _ => false,
        }
    }

    open spec fn typed_post(&self, prev: Self, ty: IrType) -> bool {
        match (self, prev) {
            (Value::Global(v), Value::Global(p)) => v.typed_post(p, ty),
            (Value::Instruction(v), Value::Instruction(p)) => v.typed_post(p, ty),
            (Value::Constant(v), Value::Constant(p)) => v.typed_post(p, ty),
            _ => false,
        }
    }

    fn name(&self) -> (r: String) {
        match self {
            Value::Global(v) => v.name(),
            Value::Instruction(v) => v.name(),
            Value::Constant(v) => v.name(),
        }
    }

    fn set_name(&mut self, name: String) {
        match self {
            Value::Global(v) => v.set_name(name),
            Value::Instruction(v) => v.set_name(name),
            Value::Constant(v) => v.set_name(name),
        }
    }

    fn ty(&self) -> (r: IrType) {
        match self {
            Value::Global(v) => v.ty(),
            Value::Instruction(v) => v.ty(),
            Value::Constant(v) => v.ty(),
        }
    }

    fn set_ty(&mut self, ty: IrType) {
        match self {
            Value::Global(v) => v.set_ty(ty),
            Value::Instruction(v) => v.set_ty(ty),
            Value::Constant(v) => v.set_ty(ty),
        }
    }
}

} // verus!
