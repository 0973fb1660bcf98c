//! Properties of the grammar, proved over the spec functions that the
//! parser's contracts use.
use vstd::prelude::*;

use crate::grammar::{
    binary, climb, column_def, column_list, column_type, constraint, constraints, create_table,
    expr, expr_list, head, order_by, order_key, order_list, precedence, prefix_operator, primary,
    select, starts_constraint, statement, tail, unary, where_clause, binary_operator, UNARY_PRECEDENCE,
};
use crate::statement::ExprView;
use crate::token::TokenView;
use crate::tokenizer::lex_all;

verus! {

/// A token that no clause consumes short of a statement's end: `Invalid` or `;`.
pub open spec fn stops_clause(t: TokenView) -> bool {
    t is Invalid || t is Semicolon
}

/// `r` is a suffix of `ts`, and no token before it is `Invalid` or `;`.
pub open spec fn consumed_valid(ts: Seq<TokenView>, r: Seq<TokenView>) -> bool {
    &&& r.len() <= ts.len()
    &&& r == ts.subrange(ts.len() - r.len(), ts.len() as int)
    &&& forall|i: int| 0 <= i < ts.len() - r.len() ==> !stops_clause(#[trigger] ts[i])
}

/// `r` is what follows a `;` that ends a prefix of `ts` in which no other token is
/// `Invalid` or `;`.
pub open spec fn ends_at_semicolon(ts: Seq<TokenView>, r: Seq<TokenView>) -> bool {
    &&& r.len() < ts.len()
    &&& ts[ts.len() - r.len() - 1] is Semicolon
    &&& consumed_valid(ts, ts.subrange(ts.len() - r.len() - 1, ts.len() as int))
    &&& r == ts.subrange(ts.len() - r.len(), ts.len() as int)
}

proof fn lemma_refl(ts: Seq<TokenView>)
    ensures
        consumed_valid(ts, ts),
{
    assert(ts == ts.subrange(0, ts.len() as int));
}

proof fn lemma_tail(ts: Seq<TokenView>)
    requires
        !stops_clause(head(ts)),
    ensures
        consumed_valid(ts, tail(ts)),
{
    if ts.len() > 0 {
        assert(tail(ts) == ts.subrange(1, ts.len() as int));
    } else {
        lemma_refl(ts);
    }
}

proof fn lemma_trans(a: Seq<TokenView>, b: Seq<TokenView>, c: Seq<TokenView>)
    requires
        consumed_valid(a, b),
        consumed_valid(b, c),
    ensures
        consumed_valid(a, c),
{
    let d = a.len() - b.len();
    assert(c == a.subrange(a.len() - c.len(), a.len() as int));
    assert forall|i: int| 0 <= i < a.len() - c.len() implies !stops_clause(#[trigger] a[i]) by {
        if i >= d {
            assert(a[i] == b[i - d]);
        }
    }
}

proof fn lemma_tail2(ts: Seq<TokenView>)
    requires
        !stops_clause(head(ts)),
        !stops_clause(head(tail(ts))),
    ensures
        consumed_valid(ts, tail(tail(ts))),
{
    lemma_tail(ts);
    lemma_tail(tail(ts));
    lemma_trans(ts, tail(ts), tail(tail(ts)));
}

proof fn lemma_expr(ts: Seq<TokenView>, min: u8)
    ensures
        expr(ts, min) matches Some((e, r)) ==> consumed_valid(ts, r),
    decreases ts.len(), 1nat,
{
    lemma_primary(ts);
    if let Some((e, r)) = primary(ts) {
        if r.len() < ts.len() {
            lemma_climb(e, r, min);
            if let Some((e2, r2)) = climb(e, r, min) {
                lemma_trans(ts, r, r2);
            }
        }
    }
}

proof fn lemma_primary(ts: Seq<TokenView>)
    ensures
        primary(ts) matches Some((e, r)) ==> consumed_valid(ts, r),
    decreases ts.len(), 0nat,
{
    if ts.len() > 0 && primary(ts) is Some {
        let r = ts.drop_first();
        lemma_tail(ts);
        if ts[0] is LeftParentheses {
            lemma_expr(r, 0);
            let r2 = (expr(r, 0)->0).1;
            lemma_tail(r2);
            lemma_trans(ts, r, r2);
            lemma_trans(ts, r2, tail(r2));
        } else if prefix_operator(ts[0]) is Some {
            lemma_expr(r, UNARY_PRECEDENCE);
            lemma_trans(ts, r, (expr(r, UNARY_PRECEDENCE)->0).1);
        }
    }
}

proof fn lemma_climb(left: ExprView, ts: Seq<TokenView>, min: u8)
    ensures
        climb(left, ts, min) matches Some((e, r)) ==> consumed_valid(ts, r),
    decreases ts.len(), 2nat,
{
    lemma_refl(ts);
    if let Some(op) = binary_operator(head(ts)) {
        if ts.len() > 0 && precedence(op) > min {
            let r0 = ts.drop_first();
            lemma_tail(ts);
            lemma_expr(r0, precedence(op));
            if let Some((right, r)) = expr(r0, precedence(op)) {
                if r.len() < ts.len() {
                    lemma_trans(ts, r0, r);
                    lemma_climb(binary(left, op, right), r, min);
                    if let Some((e2, r2)) = climb(binary(left, op, right), r, min) {
                        lemma_trans(ts, r, r2);
                    }
                }
            }
        }
    }
}

proof fn lemma_expr_list(ts: Seq<TokenView>)
    ensures
        expr_list(ts) matches Some((es, r)) ==> consumed_valid(ts, r),
    decreases ts.len(),
{
    lemma_expr(ts, 0);
    if let Some((e, r)) = expr(ts, 0) {
        if head(r) == TokenView::Comma && r.len() < ts.len() {
            lemma_tail(r);
            lemma_trans(ts, r, tail(r));
            lemma_expr_list(tail(r));
            if let Some((es, r2)) = expr_list(tail(r)) {
                lemma_trans(ts, tail(r), r2);
            }
        }
    }
}

proof fn lemma_order_key(ts: Seq<TokenView>)
    ensures
        order_key(ts) matches Some((e, r)) ==> consumed_valid(ts, r),
{
    lemma_expr(ts, 0);
    if let Some((e, r)) = expr(ts, 0) {
        if !stops_clause(head(r)) {
            lemma_tail(r);
            lemma_trans(ts, r, tail(r));
        }
    }
}

proof fn lemma_order_list(ts: Seq<TokenView>)
    ensures
        order_list(ts) matches Some((es, r)) ==> consumed_valid(ts, r),
    decreases ts.len(),
{
    lemma_order_key(ts);
    if let Some((e, r)) = order_key(ts) {
        if head(r) == TokenView::Comma && r.len() < ts.len() {
            lemma_tail(r);
            lemma_trans(ts, r, tail(r));
            lemma_order_list(tail(r));
            if let Some((es, r2)) = order_list(tail(r)) {
                lemma_trans(ts, tail(r), r2);
            }
        }
    }
}

proof fn lemma_semicolon_end(ts: Seq<TokenView>, r: Seq<TokenView>)
    requires
        consumed_valid(ts, r),
        head(r) is Semicolon,
    ensures
        ends_at_semicolon(ts, tail(r)),
{
    assert(ts.subrange(ts.len() - tail(r).len() - 1, ts.len() as int) == r);
    assert(tail(r) == ts.subrange(ts.len() - tail(r).len(), ts.len() as int));
}

proof fn lemma_select(ts: Seq<TokenView>)
    ensures
        select(ts) matches Some((s, r)) ==> ends_at_semicolon(ts, r),
{
    lemma_expr_list(ts);
    if let Some((cols, r1)) = expr_list(ts) {
        if head(r1) == TokenView::Keyword(crate::token::Keyword::From) && head(tail(r1)) is Identifier {
            lemma_tail2(r1);
            lemma_trans(ts, r1, tail(tail(r1)));
            let r1b = tail(tail(r1));
            if head(r1b) == TokenView::Keyword(crate::token::Keyword::Where) {
                lemma_tail(r1b);
                lemma_expr(tail(r1b), 0);
                if let Some((w, r2)) = expr(tail(r1b), 0) {
                    lemma_trans(r1b, tail(r1b), r2);
                }
            } else {
                lemma_refl(r1b);
            }
            if let Some((w, r2)) = where_clause(r1b) {
                lemma_trans(ts, r1b, r2);
                if head(r2) == TokenView::Keyword(crate::token::Keyword::Order) {
                    if head(tail(r2)) == TokenView::Keyword(crate::token::Keyword::By) {
                        lemma_tail2(r2);
                        lemma_order_list(tail(tail(r2)));
                        if let Some((o, r3)) = order_list(tail(tail(r2))) {
                            lemma_trans(r2, tail(tail(r2)), r3);
                        }
                    }
                } else {
                    lemma_refl(r2);
                }
                if let Some((o, r3)) = order_by(r2) {
                    lemma_trans(ts, r2, r3);
                    if head(r3) == TokenView::Semicolon {
                        lemma_semicolon_end(ts, r3);
                    }
                }
            }
        }
    }
}

proof fn lemma_column_type(ts: Seq<TokenView>)
    ensures
        column_type(ts) matches Some((t, r)) ==> consumed_valid(ts, r),
{
    if column_type(ts) is Some {
        lemma_tail(ts);
        let r = tail(ts);
        if head(ts) == TokenView::Keyword(crate::token::Keyword::Varchar) {
            lemma_tail2(r);
            lemma_tail(tail(tail(r)));
            lemma_trans(ts, r, tail(tail(r)));
            lemma_trans(ts, tail(tail(r)), tail(tail(tail(r))));
        }
    }
}

proof fn lemma_constraint(ts: Seq<TokenView>)
    ensures
        constraint(ts) matches Some((c, r)) ==> consumed_valid(ts, r),
{
    if constraint(ts) is Some {
        lemma_tail2(ts);
        if head(ts) == TokenView::Keyword(crate::token::Keyword::Check) {
            let r0 = tail(tail(ts));
            lemma_expr(r0, 0);
            let r = (expr(r0, 0)->0).1;
            lemma_tail(r);
            lemma_trans(ts, r0, r);
            lemma_trans(ts, r, tail(r));
        }
    }
}

proof fn lemma_constraints(ts: Seq<TokenView>)
    ensures
        constraints(ts) matches Some((cs, r)) ==> consumed_valid(ts, r),
    decreases ts.len(),
{
    lemma_refl(ts);
    if starts_constraint(head(ts)) {
        lemma_constraint(ts);
        if let Some((c, r)) = constraint(ts) {
            if r.len() < ts.len() {
                lemma_constraints(r);
                if let Some((cs, r2)) = constraints(r) {
                    lemma_trans(ts, r, r2);
                }
            }
        }
    }
}

proof fn lemma_column_def(ts: Seq<TokenView>)
    ensures
        column_def(ts) matches Some((c, r)) ==> consumed_valid(ts, r),
{
    if head(ts) is Identifier {
        lemma_tail(ts);
        lemma_column_type(tail(ts));
        if let Some((t, r1)) = column_type(tail(ts)) {
            lemma_trans(ts, tail(ts), r1);
            lemma_constraints(r1);
            if let Some((cs, r2)) = constraints(r1) {
                lemma_trans(ts, r1, r2);
            }
        }
    }
}

proof fn lemma_column_list(ts: Seq<TokenView>)
    ensures
        column_list(ts) matches Some((cs, r)) ==> consumed_valid(ts, r),
    decreases ts.len(),
{
    lemma_column_def(ts);
    if let Some((c, r)) = column_def(ts) {
        if head(r) == TokenView::Comma && r.len() < ts.len() {
            lemma_tail(r);
            lemma_trans(ts, r, tail(r));
            lemma_column_list(tail(r));
            if let Some((cs, r2)) = column_list(tail(r)) {
                lemma_trans(ts, tail(r), r2);
            }
        } else if head(r) == TokenView::RightParentheses {
            lemma_tail(r);
            lemma_trans(ts, r, tail(r));
        }
    }
}

proof fn lemma_create_table(ts: Seq<TokenView>)
    ensures
        create_table(ts) matches Some((s, r)) ==> ends_at_semicolon(ts, r),
{
    if create_table(ts) is Some {
        lemma_tail2(ts);
        let r0 = tail(tail(ts));
        lemma_column_list(r0);
        let r = (column_list(r0)->0).1;
        lemma_trans(ts, r0, r);
        lemma_semicolon_end(ts, r);
    }
}

proof fn lemma_prefix_end(ts: Seq<TokenView>, m: Seq<TokenView>, r: Seq<TokenView>)
    requires
        consumed_valid(ts, m),
        ends_at_semicolon(m, r),
    ensures
        ends_at_semicolon(ts, r),
{
    let mr = m.subrange(m.len() - r.len() - 1, m.len() as int);
    lemma_trans(ts, m, mr);
    assert(mr == ts.subrange(ts.len() - r.len() - 1, ts.len() as int));
    assert(ts[ts.len() - r.len() - 1] == m[m.len() - r.len() - 1]);
    assert(r == ts.subrange(ts.len() - r.len(), ts.len() as int));
}

/// A statement that parses ends at a `;` and spans no other `;` and no `Invalid` token.
pub proof fn lemma_statement_ends_at_semicolon(ts: Seq<TokenView>)
    ensures
        statement(ts) matches Some((s, r)) ==> ends_at_semicolon(ts, r),
{
    if statement(ts) is Some {
        lemma_tail(ts);
        if head(ts) == TokenView::Keyword(crate::token::Keyword::Select) {
            lemma_select(tail(ts));
            lemma_prefix_end(ts, tail(ts), (select(tail(ts))->0).1);
        } else {
            lemma_tail2(ts);
            lemma_create_table(tail(tail(ts)));
            lemma_prefix_end(ts, tail(tail(ts)), (create_table(tail(tail(ts)))->0).1);
        }
    }
}

/// An input whose tokens hold an `Invalid` one (an unrecognized character, an unterminated
/// string, an oversized number or a lone `!`) with no `;` before it does not parse.
/// Tokens after the first `;` are not read, so an `Invalid` one there decides nothing.
pub proof fn lemma_invalid_token_rejected(s: Seq<char>, k: int)
    requires
        0 <= k < lex_all(s, 0).len(),
        lex_all(s, 0)[k] is Invalid,
        forall|j: int| 0 <= j < k ==> !(#[trigger] lex_all(s, 0)[j] is Semicolon),
    ensures
        statement(lex_all(s, 0)) is None,
{
    let ts = lex_all(s, 0);
    lemma_statement_ends_at_semicolon(ts);
    if let Some((st, r)) = statement(ts) {
        let n = ts.len() - r.len() - 1;
        if k < n {
            assert(!stops_clause(ts[k]));
        } else if k > n {
            assert(!(ts[n] is Semicolon));
        }
    }
}

proof fn lemma_number_alone(n: u64, min: u8)
    ensures
        expr(seq![TokenView::Number(n)], min) == Some((ExprView::Number(n), Seq::<TokenView>::empty())),
{
    let ts = seq![TokenView::Number(n)];
    assert(ts.drop_first() =~= Seq::<TokenView>::empty());
    assert(primary(ts) == Some((ExprView::Number(n), Seq::<TokenView>::empty())));
    assert(climb(ExprView::Number(n), Seq::<TokenView>::empty(), min) == Some(
        (ExprView::Number(n), Seq::<TokenView>::empty()),
    ));
}

/// Precedence: in `a o1 b o2 c`, where `o2` binds tighter than `o1`, the `o2` operation
/// is the right operand of `o1`: `a o1 (b o2 c)`.
pub proof fn lemma_tighter_operator_nests(a: u64, b: u64, c: u64, t1: TokenView, t2: TokenView)
    requires
        binary_operator(t1) is Some,
        binary_operator(t2) is Some,
        precedence(binary_operator(t1)->0) < precedence(binary_operator(t2)->0),
    ensures
        expr(
            seq![TokenView::Number(a), t1, TokenView::Number(b), t2, TokenView::Number(c)],
            0,
        ) == Some((
            binary(
                ExprView::Number(a),
                binary_operator(t1)->0,
                binary(ExprView::Number(b), binary_operator(t2)->0, ExprView::Number(c)),
            ),
            Seq::<TokenView>::empty(),
        )),
{
    let (op1, op2) = (binary_operator(t1)->0, binary_operator(t2)->0);
    let (p1, p2) = (precedence(op1), precedence(op2));
    let (na, nb, nc) = (ExprView::Number(a), ExprView::Number(b), ExprView::Number(c));
    let ts = seq![TokenView::Number(a), t1, TokenView::Number(b), t2, TokenView::Number(c)];
    let s1 = seq![t1, TokenView::Number(b), t2, TokenView::Number(c)];
    let s2 = seq![TokenView::Number(b), t2, TokenView::Number(c)];
    let s3 = seq![t2, TokenView::Number(c)];
    let s4 = seq![TokenView::Number(c)];
    let e = Seq::<TokenView>::empty();
    assert(ts.drop_first() =~= s1);
    assert(s1.drop_first() =~= s2);
    assert(s2.drop_first() =~= s3);
    assert(s3.drop_first() =~= s4);
    lemma_number_alone(c, p2);
    let bc = binary(nb, op2, nc);
    assert(climb(bc, e, p1) == Some((bc, e)));
    assert(climb(nb, s3, p1) == Some((bc, e)));
    assert(primary(s2) == Some((nb, s3)));
    assert(expr(s2, p1) == Some((bc, e)));
    let abc = binary(na, op1, bc);
    assert(climb(abc, e, 0) == Some((abc, e)));
    assert(climb(na, s1, 0) == Some((abc, e)));
    assert(primary(ts) == Some((na, s1)));
}

/// Associativity: operators that bind equally group to the left, so `a o1 b o2 c`
/// parses as `(a o1 b) o2 c`.
pub proof fn lemma_equal_operators_associate_left(a: u64, b: u64, c: u64, t1: TokenView, t2: TokenView)
    requires
        binary_operator(t1) is Some,
        binary_operator(t2) is Some,
        precedence(binary_operator(t1)->0) == precedence(binary_operator(t2)->0),
    ensures
        expr(
            seq![TokenView::Number(a), t1, TokenView::Number(b), t2, TokenView::Number(c)],
            0,
        ) == Some((
            binary(
                binary(ExprView::Number(a), binary_operator(t1)->0, ExprView::Number(b)),
                binary_operator(t2)->0,
                ExprView::Number(c),
            ),
            Seq::<TokenView>::empty(),
        )),
{
    let (op1, op2) = (binary_operator(t1)->0, binary_operator(t2)->0);
    let (p1, p2) = (precedence(op1), precedence(op2));
    let (na, nb, nc) = (ExprView::Number(a), ExprView::Number(b), ExprView::Number(c));
    let ts = seq![TokenView::Number(a), t1, TokenView::Number(b), t2, TokenView::Number(c)];
    let s1 = seq![t1, TokenView::Number(b), t2, TokenView::Number(c)];
    let s2 = seq![TokenView::Number(b), t2, TokenView::Number(c)];
    let s3 = seq![t2, TokenView::Number(c)];
    let s4 = seq![TokenView::Number(c)];
    let e = Seq::<TokenView>::empty();
    assert(ts.drop_first() =~= s1);
    assert(s1.drop_first() =~= s2);
    assert(s2.drop_first() =~= s3);
    assert(s3.drop_first() =~= s4);
    assert(climb(nb, s3, p1) == Some((nb, s3)));
    assert(primary(s2) == Some((nb, s3)));
    assert(expr(s2, p1) == Some((nb, s3)));
    let ab = binary(na, op1, nb);
    lemma_number_alone(c, p2);
    let abc = binary(ab, op2, nc);
    assert(climb(abc, e, 0) == Some((abc, e)));
    assert(climb(ab, s3, 0) == Some((abc, e)));
    assert(climb(na, s1, 0) == Some((abc, e)));
    assert(primary(ts) == Some((na, s1)));
}

/// A prefix operator applies to the nearest operand only: `u a o b` parses as
/// `(u a) o b` for every binary operator `o`.
pub proof fn lemma_prefix_operator_binds_tightest(a: u64, b: u64, t0: TokenView, t1: TokenView)
    requires
        prefix_operator(t0) is Some,
        binary_operator(t1) is Some,
    ensures
        expr(seq![t0, TokenView::Number(a), t1, TokenView::Number(b)], 0) == Some((
            binary(
                unary(prefix_operator(t0)->0, ExprView::Number(a)),
                binary_operator(t1)->0,
                ExprView::Number(b),
            ),
            Seq::<TokenView>::empty(),
        )),
{
    let (u, op) = (prefix_operator(t0)->0, binary_operator(t1)->0);
    let p = precedence(op);
    let (na, nb) = (ExprView::Number(a), ExprView::Number(b));
    let ts = seq![t0, TokenView::Number(a), t1, TokenView::Number(b)];
    let s1 = seq![TokenView::Number(a), t1, TokenView::Number(b)];
    let s2 = seq![t1, TokenView::Number(b)];
    let s3 = seq![TokenView::Number(b)];
    let e = Seq::<TokenView>::empty();
    assert(ts.drop_first() =~= s1);
    assert(s1.drop_first() =~= s2);
    assert(s2.drop_first() =~= s3);
    assert(climb(na, s2, UNARY_PRECEDENCE) == Some((na, s2)));
    assert(primary(s1) == Some((na, s2)));
    assert(expr(s1, UNARY_PRECEDENCE) == Some((na, s2)));
    let ua = unary(u, na);
    assert(primary(ts) == Some((ua, s2)));
    lemma_number_alone(b, p);
    let uab = binary(ua, op, nb);
    assert(climb(uab, e, 0) == Some((uab, e)));
    assert(climb(ua, s2, 0) == Some((uab, e)));
}

} // verus!
