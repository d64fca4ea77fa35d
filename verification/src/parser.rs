//! The parser: source text to syntax tree.
//!
//! The grammar is a sequence of statements, each `expr ;` or `print expr ;`.
//! An expression is an optional leading sign applied to a whole chain of
//! infix operators (the sign binds loosest), `*` and `/` bind tighter than
//! `+` and `-`, chains associate to the left, and a primary is `mem`, an
//! unsigned integer literal, or a parenthesized expression.  ASCII blanks,
//! tabs and line breaks may stand between tokens.
//!
//! The functions `parse_*_v` are the mathematical mirror of the descent:
//! each executable function is proved to succeed exactly when its mirror
//! does, with the same tree and the same resulting position.  A literal
//! beyond the 64-bit range is a parse error.

use vstd::prelude::*;

use crate::ast::Block;
use crate::ast::Expr;
use crate::ast::InfixExpr;
use crate::ast::InfixOp;
use crate::ast::PrefixExpr;
use crate::ast::PrefixOp;
use crate::ast::PrimaryExpr;
use crate::ast::Stmt;
use crate::ast::TransUnit;

verus! {

use vstd::string::StrSliceExecFns;

/// Where in the input the parse failed.
#[derive(Debug)]
pub struct ParseError {
    pub pos: usize,
}

pub open spec fn is_ws_v(c: char) -> bool {
    c == ' ' || c == '\t' || c == '\r' || c == '\n'
}

pub open spec fn is_digit_v(c: char) -> bool {
    48 <= c as int <= 57
}

pub open spec fn prefix_op_of_v(c: char) -> Option<PrefixOp> {
    if c == '+' {
        Some(PrefixOp::Plus)
    } else if c == '-' {
        Some(PrefixOp::Minus)
    } else {
        None
    }
}

pub open spec fn add_op_of_v(c: char) -> Option<InfixOp> {
    if c == '+' {
        Some(InfixOp::Plus)
    } else if c == '-' {
        Some(InfixOp::Minus)
    } else {
        None
    }
}

pub open spec fn mul_op_of_v(c: char) -> Option<InfixOp> {
    if c == '*' {
        Some(InfixOp::Multiply)
    } else if c == '/' {
        Some(InfixOp::Divide)
    } else {
        None
    }
}

/// First position at or after `pos` that does not hold whitespace.
pub open spec fn skip_ws_v(s: Seq<char>, pos: int) -> int
    decreases s.len() - pos,
{
    if pos < 0 || pos >= s.len() {
        pos
    } else if is_ws_v(s[pos]) {
        skip_ws_v(s, pos + 1)
    } else {
        pos
    }
}

/// End of the digit run starting at `pos`.
pub open spec fn digits_end_v(s: Seq<char>, pos: int) -> int
    decreases s.len() - pos,
{
    if pos < 0 || pos >= s.len() {
        pos
    } else if is_digit_v(s[pos]) {
        digits_end_v(s, pos + 1)
    } else {
        pos
    }
}

pub proof fn lemma_digits_end_props(s: Seq<char>, pos: int)
    requires
        0 <= pos <= s.len(),
    ensures
        pos <= digits_end_v(s, pos) <= s.len(),
        forall|k: int| pos <= k < digits_end_v(s, pos) ==> is_digit_v(s[k]),
    decreases s.len() - pos,
{
    if pos < s.len() && is_digit_v(s[pos]) {
        lemma_digits_end_props(s, pos + 1);
    }
}

/// The value of the digits in `[start, end)`, most significant first.
pub open spec fn digits_val_v(s: Seq<char>, start: int, end: int) -> int
    decreases end - start,
{
    if end <= start {
        0
    } else {
        digits_val_v(s, start, end - 1) * 10 + (s[end - 1] as int - 48)
    }
}

pub proof fn lemma_digits_val_monotone(s: Seq<char>, start: int, mid: int, end: int)
    requires
        start <= mid <= end,
        forall|k: int| start <= k < end ==> is_digit_v(s[k]),
        digits_val_v(s, start, mid) >= 0,
    ensures
        digits_val_v(s, start, mid) <= digits_val_v(s, start, end),
        digits_val_v(s, start, end) >= 0,
    decreases end - mid,
{
    if mid < end {
        assert(digits_val_v(s, start, mid + 1) == digits_val_v(s, start, mid) * 10 + (s[mid]
            as int - 48));
        assert(digits_val_v(s, start, mid) * 10 >= digits_val_v(s, start, mid)) by (nonlinear_arith)
            requires digits_val_v(s, start, mid) >= 0,
        {}
        lemma_digits_val_monotone(s, start, mid + 1, end);
    }
}

/// An integer literal at `pos`: at least one digit, value within the
/// 64-bit range, trailing whitespace skipped.
pub open spec fn parse_int_v(s: Seq<char>, pos: int) -> Option<(i64, int)> {
    let end = digits_end_v(s, pos);
    if end == pos {
        None
    } else if digits_val_v(s, pos, end) > i64::MAX as int {
        None
    } else {
        Some(((digits_val_v(s, pos, end)) as i64, skip_ws_v(s, end)))
    }
}

pub open spec fn parse_primary_v(s: Seq<char>, pos: int) -> Option<(PrimaryExpr, int)>
    decreases s.len() - pos, 1int,
{
    if pos < 0 || pos >= s.len() {
        None
    } else if s[pos] == '(' {
        let p1 = skip_ws_v(s, pos + 1);
        if p1 <= pos || p1 > s.len() {
            None
        } else {
            match parse_expr_v(s, p1) {
                Some((e, p2)) => if 0 <= p2 < s.len() && s[p2] == ')' {
                    Some((PrimaryExpr::Expr(Box::new(e)), skip_ws_v(s, p2 + 1)))
                } else {
                    None
                },
                None => None,
            }
        }
    } else if pos + 3 <= s.len() && s[pos] == 'm' && s[pos + 1] == 'e' && s[pos + 2] == 'm' {
        Some((PrimaryExpr::Mem, skip_ws_v(s, pos + 3)))
    } else {
        match parse_int_v(s, pos) {
            Some((v, p1)) => Some((PrimaryExpr::Int(v), p1)),
            None => None,
        }
    }
}

pub open spec fn parse_multiplicative_v(s: Seq<char>, pos: int) -> Option<(Expr, int)>
    decreases s.len() - pos, 2int,
{
    match parse_primary_v(s, pos) {
        Some((p, p1)) => if p1 <= pos || p1 > s.len() {
            None
        } else {
            parse_multiplicative_more_v(s, Expr::Primary(Box::new(p)), p1)
        },
        None => None,
    }
}

pub open spec fn parse_multiplicative_more_v(s: Seq<char>, lhs: Expr, pos: int) -> Option<
    (Expr, int),
>
    decreases s.len() - pos, 3int,
{
    if 0 <= pos < s.len() && mul_op_of_v(s[pos]) is Some {
        let op = mul_op_of_v(s[pos])->0;
        let p1 = skip_ws_v(s, pos + 1);
        if p1 <= pos || p1 > s.len() {
            None
        } else {
            match parse_primary_v(s, p1) {
                Some((rhs, p2)) => if p2 <= pos || p2 > s.len() {
                    None
                } else {
                    parse_multiplicative_more_v(
                        s,
                        Expr::Infix(
                            Box::new(
                                InfixExpr {
                                    lhs: Box::new(lhs),
                                    op: op,
                                    rhs: Box::new(Expr::Primary(Box::new(rhs))),
                                },
                            ),
                        ),
                        p2,
                    )
                },
                None => None,
            }
        }
    } else {
        Some((lhs, pos))
    }
}

pub open spec fn parse_additive_v(s: Seq<char>, pos: int) -> Option<(Expr, int)>
    decreases s.len() - pos, 4int,
{
    match parse_multiplicative_v(s, pos) {
        Some((e, p1)) => if p1 <= pos || p1 > s.len() {
            None
        } else {
            parse_additive_more_v(s, e, p1)
        },
        None => None,
    }
}

pub open spec fn parse_additive_more_v(s: Seq<char>, lhs: Expr, pos: int) -> Option<(Expr, int)>
    decreases s.len() - pos, 5int,
{
    if 0 <= pos < s.len() && add_op_of_v(s[pos]) is Some {
        let op = add_op_of_v(s[pos])->0;
        let p1 = skip_ws_v(s, pos + 1);
        if p1 <= pos || p1 > s.len() {
            None
        } else {
            match parse_multiplicative_v(s, p1) {
                Some((rhs, p2)) => if p2 <= pos || p2 > s.len() {
                    None
                } else {
                    parse_additive_more_v(
                        s,
                        Expr::Infix(
                            Box::new(InfixExpr { lhs: Box::new(lhs), op: op, rhs: Box::new(rhs) }),
                        ),
                        p2,
                    )
                },
                None => None,
            }
        }
    } else {
        Some((lhs, pos))
    }
}

/// A whole expression: an optional leading sign, binding loosest, over an
/// additive chain.
pub open spec fn parse_expr_v(s: Seq<char>, pos: int) -> Option<(Expr, int)>
    decreases s.len() - pos, 6int,
{
    if pos < 0 || pos >= s.len() {
        None
    } else if prefix_op_of_v(s[pos]) is Some {
        let op = prefix_op_of_v(s[pos])->0;
        let p1 = skip_ws_v(s, pos + 1);
        if p1 <= pos || p1 > s.len() {
            None
        } else {
            match parse_expr_v(s, p1) {
                Some((e, p2)) => Some(
                    (Expr::Prefix(Box::new(PrefixExpr { op: op, expr: Box::new(e) })), p2),
                ),
                None => None,
            }
        }
    } else {
        parse_additive_v(s, pos)
    }
}

pub open spec fn starts_with_print_v(s: Seq<char>, pos: int) -> bool {
    &&& 0 <= pos
    &&& pos + 5 <= s.len()
    &&& s[pos] == 'p'
    &&& s[pos + 1] == 'r'
    &&& s[pos + 2] == 'i'
    &&& s[pos + 3] == 'n'
    &&& s[pos + 4] == 't'
}

pub open spec fn parse_statement_v(s: Seq<char>, pos: int) -> Option<(Stmt, int)>
    decreases s.len() - pos, 7int,
{
    if starts_with_print_v(s, pos) {
        let p1 = skip_ws_v(s, pos + 5);
        if p1 <= pos || p1 > s.len() {
            None
        } else {
            match parse_expr_v(s, p1) {
                Some((e, p2)) => if 0 <= p2 < s.len() && s[p2] == ';' {
                    Some((Stmt::PrintStmt(e), skip_ws_v(s, p2 + 1)))
                } else {
                    None
                },
                None => None,
            }
        }
    } else {
        match parse_expr_v(s, pos) {
            Some((e, p2)) => if 0 <= p2 < s.len() && s[p2] == ';' {
                Some((Stmt::ExprStmt(e), skip_ws_v(s, p2 + 1)))
            } else {
                None
            },
            None => None,
        }
    }
}

/// Statements until the end of the input.
pub open spec fn parse_stmts_v(s: Seq<char>, pos: int) -> Option<(Seq<Stmt>, int)>
    decreases s.len() - pos, 8int,
{
    if pos >= s.len() {
        Some((Seq::<Stmt>::empty(), pos))
    } else {
        match parse_statement_v(s, pos) {
            Some((st, p1)) => if p1 <= pos || p1 > s.len() {
                None
            } else {
                match parse_stmts_v(s, p1) {
                    Some((rest, p2)) => Some((seq![st] + rest, p2)),
                    None => None,
                }
            },
            None => None,
        }
    }
}

/// The whole input as a program: leading whitespace, statements, end of
/// input.
pub open spec fn parse_v(s: Seq<char>) -> Option<Seq<Stmt>> {
    match parse_stmts_v(s, skip_ws_v(s, 0)) {
        Some((ss, p)) => if p == s.len() {
            Some(ss)
        } else {
            None
        },
        None => None,
    }
}

} // verus!

verus! {

fn at_mul_op(s: &str, i: usize) -> (b: bool)
    requires
        (i as int) < s@.len(),
    ensures
        b == (mul_op_of_v(s@[i as int]) is Some),
{
    let c = s.get_char(i);
    c == '*' || c == '/'
}

fn at_add_op(s: &str, i: usize) -> (b: bool)
    requires
        (i as int) < s@.len(),
    ensures
        b == (add_op_of_v(s@[i as int]) is Some),
{
    let c = s.get_char(i);
    c == '+' || c == '-'
}

fn is_ws_char(c: char) -> (b: bool)
    ensures
        b == is_ws_v(c),
{
    c == ' ' || c == '\t' || c == '\r' || c == '\n'
}

fn is_digit_char(c: char) -> (b: bool)
    ensures
        b == is_digit_v(c),
{
    let u = c as u32;
    48 <= u && u <= 57
}

/// The leading sign an expression may carry.
pub fn parse_prefix(c: char) -> (r: Option<PrefixOp>)
    ensures
        r == prefix_op_of_v(c),
{
    if c == '+' {
        Some(PrefixOp::Plus)
    } else if c == '-' {
        Some(PrefixOp::Minus)
    } else {
        None
    }
}

/// The infix operator a character stands for.
pub fn parse_infix(c: char) -> (r: Option<InfixOp>)
    ensures
        c == '+' ==> r == Some(InfixOp::Plus),
        c == '-' ==> r == Some(InfixOp::Minus),
        c == '*' ==> r == Some(InfixOp::Multiply),
        c == '/' ==> r == Some(InfixOp::Divide),
        c != '+' && c != '-' && c != '*' && c != '/' ==> r is None,
{
    if c == '+' {
        Some(InfixOp::Plus)
    } else if c == '-' {
        Some(InfixOp::Minus)
    } else if c == '*' {
        Some(InfixOp::Multiply)
    } else if c == '/' {
        Some(InfixOp::Divide)
    } else {
        None
    }
}

fn skip_ws(s: &str, pos: usize) -> (r: usize)
    requires
        pos as int <= s@.len(),
    ensures
        r as int == skip_ws_v(s@, pos as int),
        pos <= r,
        r as int <= s@.len(),
{
    let n = s.unicode_len();
    let mut i = pos;
    while i < n && is_ws_char(s.get_char(i))
        invariant
            pos <= i,
            i as int <= s@.len(),
            n == s@.len(),
            skip_ws_v(s@, pos as int) == skip_ws_v(s@, i as int),
        decreases n - i,
    {
        i = i + 1;
    }
    i
}

/// An unsigned integer literal.  A run of digits whose value exceeds the
/// 64-bit range is a parse error.
pub fn parse_int(s: &str, pos: usize) -> (r: Result<(i64, usize), ParseError>)
    requires
        pos as int <= s@.len(),
    ensures
        (match r {
            Ok((v, p)) => {
                &&& parse_int_v(s@, pos as int) == Some((v, p as int))
                &&& pos < p
                &&& p as int <= s@.len()
            },
            Err(_) => parse_int_v(s@, pos as int) is None,
        }),
{
    let n = s.unicode_len();
    let ghost end = digits_end_v(s@, pos as int);
    proof {
        lemma_digits_end_props(s@, pos as int);
    }
    if pos >= n || !is_digit_char(s.get_char(pos)) {
        return Err(ParseError { pos });
    }
    let mut i = pos;
    let mut acc: i64 = 0;
    while i < n && is_digit_char(s.get_char(i))
        invariant
            pos <= i,
            i as int <= end,
            n == s@.len(),
            end == digits_end_v(s@, pos as int),
            digits_end_v(s@, i as int) == end,
            end <= s@.len(),
            forall|k: int| pos <= k < end ==> is_digit_v(s@[k]),
            acc as int == digits_val_v(s@, pos as int, i as int),
            acc >= 0,
        decreases n - i,
    {
        let c = s.get_char(i);
        proof {
            // the digit run cannot have ended at a digit
            lemma_digits_end_props(s@, i as int + 1);
            assert(digits_end_v(s@, i as int) == digits_end_v(s@, i as int + 1));
            assert((i as int) < end);
        }
        let d = (c as u32 - 48) as i64;
        proof {
            assert(d as int == s@[i as int] as int - 48);
            assert(0 <= d <= 9);
        }
        let acc10 = match acc.checked_mul(10) {
            Some(a) => a,
            None => {
                proof {
                    assert(digits_val_v(s@, pos as int, i as int + 1) == acc as int * 10 + d);
                    lemma_digits_val_monotone(s@, pos as int, i as int + 1, end);
                }
                return Err(ParseError { pos: i });
            },
        };
        let acc2 = match acc10.checked_add(d) {
            Some(a) => a,
            None => {
                proof {
                    assert(digits_val_v(s@, pos as int, i as int + 1) == acc as int * 10 + d);
                    lemma_digits_val_monotone(s@, pos as int, i as int + 1, end);
                }
                return Err(ParseError { pos: i });
            },
        };
        acc = acc2;
        i = i + 1;
    }
    proof {
        assert(i as int == end);
    }
    let p = skip_ws(s, i);
    Ok((acc, p))
}

/// A primary: `mem`, an integer literal, or a parenthesized expression.
pub fn parse_primary_expr(s: &str, pos: usize) -> (r: Result<(PrimaryExpr, usize), ParseError>)
    requires
        pos as int <= s@.len(),
    ensures
        (match r {
            Ok((p, q)) => {
                &&& parse_primary_v(s@, pos as int) == Some((p, q as int))
                &&& pos < q
                &&& q as int <= s@.len()
            },
            Err(_) => parse_primary_v(s@, pos as int) is None,
        }),
    decreases s@.len() - pos as int, 1int,
{
    let n = s.unicode_len();
    if pos >= n {
        return Err(ParseError { pos });
    }
    let c = s.get_char(pos);
    if c == '(' {
        let p1 = skip_ws(s, pos + 1);
        match parse_expr(s, p1) {
            Ok((e, p2)) => {
                if p2 < n && s.get_char(p2) == ')' {
                    let q = skip_ws(s, p2 + 1);
                    Ok((PrimaryExpr::Expr(Box::new(e)), q))
                } else {
                    Err(ParseError { pos: p2 })
                }
            },
            Err(e) => Err(e),
        }
    } else if n - pos >= 3 && c == 'm' && s.get_char(pos + 1) == 'e' && s.get_char(pos + 2)
        == 'm' {
        let q = skip_ws(s, pos + 3);
        Ok((PrimaryExpr::Mem, q))
    } else {
        match parse_int(s, pos) {
            Ok((v, q)) => Ok((PrimaryExpr::Int(v), q)),
            Err(e) => Err(e),
        }
    }
}

/// A chain of `*` and `/`, associating to the left.
pub fn parse_multiplicative(s: &str, pos: usize) -> (r: Result<(Expr, usize), ParseError>)
    requires
        pos as int <= s@.len(),
    ensures
        (match r {
            Ok((e, q)) => {
                &&& parse_multiplicative_v(s@, pos as int) == Some((e, q as int))
                &&& pos < q
                &&& q as int <= s@.len()
            },
            Err(_) => parse_multiplicative_v(s@, pos as int) is None,
        }),
    decreases s@.len() - pos as int, 2int,
{
    let n = s.unicode_len();
    match parse_primary_expr(s, pos) {
        Err(e) => Err(e),
        Ok((p0, p1)) => {
            let mut lhs = Expr::Primary(Box::new(p0));
            let mut q = p1;
            while q < n && at_mul_op(s, q)
                invariant
                    pos < q,
                    q as int <= s@.len(),
                    n == s@.len(),
                    (match parse_multiplicative_more_v(s@, lhs, q as int) {
                        Some((e2, p2)) => parse_multiplicative_v(s@, pos as int) == Some(
                            (e2, p2),
                        ),
                        None => parse_multiplicative_v(s@, pos as int) is None,
                    }),
                decreases s@.len() - q as int,
            {
                let cop = s.get_char(q);
                let op = parse_infix(cop).unwrap();
                let p2 = skip_ws(s, q + 1);
                match parse_primary_expr(s, p2) {
                    Err(e) => {
                        return Err(e);
                    },
                    Ok((rp, p3)) => {
                        lhs = Expr::Infix(
                            Box::new(
                                InfixExpr {
                                    lhs: Box::new(lhs),
                                    op: op,
                                    rhs: Box::new(Expr::Primary(Box::new(rp))),
                                },
                            ),
                        );
                        q = p3;
                    },
                }
            }
            Ok((lhs, q))
        },
    }
}

/// A chain of `+` and `-`, associating to the left.
pub fn parse_additive(s: &str, pos: usize) -> (r: Result<(Expr, usize), ParseError>)
    requires
        pos as int <= s@.len(),
    ensures
        (match r {
            Ok((e, q)) => {
                &&& parse_additive_v(s@, pos as int) == Some((e, q as int))
                &&& pos < q
                &&& q as int <= s@.len()
            },
            Err(_) => parse_additive_v(s@, pos as int) is None,
        }),
    decreases s@.len() - pos as int, 4int,
{
    let n = s.unicode_len();
    match parse_multiplicative(s, pos) {
        Err(e) => Err(e),
        Ok((e0, p1)) => {
            let mut lhs = e0;
            let mut q = p1;
            while q < n && at_add_op(s, q)
                invariant
                    pos < q,
                    q as int <= s@.len(),
                    n == s@.len(),
                    (match parse_additive_more_v(s@, lhs, q as int) {
                        Some((e2, p2)) => parse_additive_v(s@, pos as int) == Some((e2, p2)),
                        None => parse_additive_v(s@, pos as int) is None,
                    }),
                decreases s@.len() - q as int,
            {
                let cop = s.get_char(q);
                let op = parse_infix(cop).unwrap();
                let p2 = skip_ws(s, q + 1);
                match parse_multiplicative(s, p2) {
                    Err(e) => {
                        return Err(e);
                    },
                    Ok((rhs, p3)) => {
                        lhs = Expr::Infix(
                            Box::new(InfixExpr { lhs: Box::new(lhs), op: op, rhs: Box::new(rhs) }),
                        );
                        q = p3;
                    },
                }
            }
            Ok((lhs, q))
        },
    }
}

/// A whole expression: an optional leading sign over an additive chain.
pub fn parse_expr(s: &str, pos: usize) -> (r: Result<(Expr, usize), ParseError>)
    requires
        pos as int <= s@.len(),
    ensures
        (match r {
            Ok((e, q)) => {
                &&& parse_expr_v(s@, pos as int) == Some((e, q as int))
                &&& pos < q
                &&& q as int <= s@.len()
            },
            Err(_) => parse_expr_v(s@, pos as int) is None,
        }),
    decreases s@.len() - pos as int, 6int,
{
    let n = s.unicode_len();
    if pos >= n {
        return Err(ParseError { pos });
    }
    let c = s.get_char(pos);
    match parse_prefix(c) {
        Some(op) => {
            let p1 = skip_ws(s, pos + 1);
            match parse_expr(s, p1) {
                Ok((e, p2)) => Ok(
                    (Expr::Prefix(Box::new(PrefixExpr { op: op, expr: Box::new(e) })), p2),
                ),
                Err(e) => Err(e),
            }
        },
        None => parse_additive(s, pos),
    }
}

/// An expression statement: `expr ;`.
pub fn parse_expr_statement(s: &str, pos: usize) -> (r: Result<(Stmt, usize), ParseError>)
    requires
        pos as int <= s@.len(),
    ensures
        (match r {
            Ok((st, q)) => {
                &&& (match parse_expr_v(s@, pos as int) {
                    Some((e, p2)) => 0 <= p2 < s@.len() && s@[p2] == ';' && st == Stmt::ExprStmt(
                        e,
                    ) && q as int == skip_ws_v(s@, p2 + 1)
                    ,
                    None => false,
                })
                &&& pos < q
                &&& q as int <= s@.len()
            },
            Err(_) => (match parse_expr_v(s@, pos as int) {
                Some((e, p2)) => !(0 <= p2 < s@.len() && s@[p2] == ';'),
                None => true,
            }),
        }),
{
    let n = s.unicode_len();
    match parse_expr(s, pos) {
        Err(e) => Err(e),
        Ok((e, p2)) => {
            if p2 < n && s.get_char(p2) == ';' {
                let q = skip_ws(s, p2 + 1);
                Ok((Stmt::ExprStmt(e), q))
            } else {
                Err(ParseError { pos: p2 })
            }
        },
    }
}

/// A print statement: `print expr ;`, with `pos` standing at `print`.
pub fn parse_print_statement(s: &str, pos: usize) -> (r: Result<(Stmt, usize), ParseError>)
    requires
        starts_with_print_v(s@, pos as int),
        pos as int <= s@.len(),
    ensures
        (match r {
            Ok((st, q)) => {
                &&& parse_statement_v(s@, pos as int) == Some((st, q as int))
                &&& pos < q
                &&& q as int <= s@.len()
            },
            Err(_) => parse_statement_v(s@, pos as int) is None,
        }),
{
    let n = s.unicode_len();
    let p1 = skip_ws(s, pos + 5);
    match parse_expr(s, p1) {
        Err(e) => Err(e),
        Ok((e, p2)) => {
            if p2 < n && s.get_char(p2) == ';' {
                let q = skip_ws(s, p2 + 1);
                Ok((Stmt::PrintStmt(e), q))
            } else {
                Err(ParseError { pos: p2 })
            }
        },
    }
}

/// One statement: a print statement where the input starts with `print`,
/// an expression statement otherwise.
pub fn parse_statement(s: &str, pos: usize) -> (r: Result<(Stmt, usize), ParseError>)
    requires
        pos as int <= s@.len(),
    ensures
        (match r {
            Ok((st, q)) => {
                &&& parse_statement_v(s@, pos as int) == Some((st, q as int))
                &&& pos < q
                &&& q as int <= s@.len()
            },
            Err(_) => parse_statement_v(s@, pos as int) is None,
        }),
{
    let n = s.unicode_len();
    let is_print = n - pos >= 5 && s.get_char(pos) == 'p' && s.get_char(pos + 1) == 'r'
        && s.get_char(pos + 2) == 'i' && s.get_char(pos + 3) == 'n' && s.get_char(pos + 4) == 't';
    if is_print {
        parse_print_statement(s, pos)
    } else {
        match parse_expr_statement(s, pos) {
            Ok((st, q)) => Ok((st, q)),
            Err(e) => Err(e),
        }
    }
}

/// The statement list of a program, running to the end of the input.
pub fn parse_block(s: &str, pos: usize) -> (r: Result<(Block, usize), ParseError>)
    requires
        pos as int <= s@.len(),
    ensures
        (match r {
            Ok((b, q)) => {
                &&& parse_stmts_v(s@, pos as int) == Some((b.stmts@, q as int))
                &&& pos <= q
                &&& q as int <= s@.len()
            },
            Err(_) => parse_stmts_v(s@, pos as int) is None,
        }),
{
    let n = s.unicode_len();
    let mut stmts: Vec<Stmt> = Vec::new();
    let mut q = pos;
    proof {
        assert(stmts@ =~= Seq::<Stmt>::empty());
    }
    while q < n
        invariant
            pos <= q,
            q as int <= s@.len(),
            n == s@.len(),
            (match parse_stmts_v(s@, q as int) {
                Some((rest, pe)) => parse_stmts_v(s@, pos as int) == Some((stmts@ + rest, pe)),
                None => parse_stmts_v(s@, pos as int) is None,
            }),
        decreases n - q,
    {
        match parse_statement(s, q) {
            Err(e) => {
                return Err(e);
            },
            Ok((st, q2)) => {
                let ghost prev = stmts@;
                stmts.push(st);
                proof {
                    match parse_stmts_v(s@, q2 as int) {
                        Some((rest2, pe2)) => {
                            assert(prev + (seq![st] + rest2) =~= stmts@ + rest2);
                        },
                        None => {
                        },
                    }
                }
                q = q2;
            },
        }
    }
    proof {
        match parse_stmts_v(s@, q as int) {
            Some((rest, pe)) => {
                assert(rest =~= Seq::<Stmt>::empty());
                assert(stmts@ + rest =~= stmts@);
            },
            None => {
            },
        }
    }
    Ok((Block { stmts }, q))
}

/// The whole program as one translation unit.
pub fn parse_trans_unit(s: &str, pos: usize) -> (r: Result<(TransUnit, usize), ParseError>)
    requires
        pos as int <= s@.len(),
    ensures
        (match r {
            Ok((tu, q)) => {
                &&& parse_stmts_v(s@, pos as int) == Some((tu.block.stmts@, q as int))
                &&& pos <= q
                &&& q as int <= s@.len()
            },
            Err(_) => parse_stmts_v(s@, pos as int) is None,
        }),
{
    match parse_block(s, pos) {
        Ok((block, q)) => Ok((TransUnit { block }, q)),
        Err(e) => Err(e),
    }
}

/// Parses source text into a syntax tree: leading whitespace, statements,
/// end of input.  Succeeds exactly when the grammar accepts the text, with
/// the statements `parse_v` gives.
pub fn parse(src: &str) -> (r: Result<TransUnit, ParseError>)
    ensures
        (match r {
            Ok(tu) => parse_v(src@) == Some(tu.block.stmts@),
            Err(_) => parse_v(src@) is None,
        }),
{
    let p0 = skip_ws(src, 0);
    match parse_trans_unit(src, p0) {
        Err(e) => Err(e),
        Ok((tu, p)) => {
            let n = src.unicode_len();
            if p == n {
                Ok(tu)
            } else {
                Err(ParseError { pos: p })
            }
        },
    }
}

} // verus!
