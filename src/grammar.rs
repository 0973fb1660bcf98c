//! The grammar, as spec functions over streams of token views.
//!
//! Each function reads a prefix of the stream `ts` and returns what it parsed
//! with the rest of the stream, or `None` where the prefix does not fit.
//! A stream that has run out reads as `Eof` for ever.
use vstd::prelude::*;

use crate::statement::{BinaryOperator, ColumnView, ConstraintView, DBType, ExprView, StatementView, UnaryOperator};
use crate::token::{Keyword, TokenView};

verus! {

pub open spec fn head(ts: Seq<TokenView>) -> TokenView {
    if ts.len() == 0 {
        TokenView::Eof
    } else {
        ts[0]
    }
}

pub open spec fn tail(ts: Seq<TokenView>) -> Seq<TokenView> {
    if ts.len() == 0 {
        ts
    } else {
        ts.drop_first()
    }
}

/// Binding power of a binary operator; higher binds tighter.
pub open spec fn precedence(op: BinaryOperator) -> u8 {
    match op {
        BinaryOperator::Or => 1,
        BinaryOperator::And => 2,
        BinaryOperator::Equal | BinaryOperator::NotEqual => 3,
        BinaryOperator::GreaterThan | BinaryOperator::GreaterThanOrEqual
        | BinaryOperator::LessThan | BinaryOperator::LessThanOrEqual => 4,
        BinaryOperator::Plus | BinaryOperator::Minus => 5,
        BinaryOperator::Multiply | BinaryOperator::Divide => 6,
    }
}

/// Binding power at which the operand of a prefix operator is parsed.
pub const UNARY_PRECEDENCE: u8 = 7;

pub open spec fn binary_operator(t: TokenView) -> Option<BinaryOperator> {
    match t {
        TokenView::Plus => Some(BinaryOperator::Plus),
        TokenView::Minus => Some(BinaryOperator::Minus),
        TokenView::Star => Some(BinaryOperator::Multiply),
        TokenView::Divide => Some(BinaryOperator::Divide),
        TokenView::GreaterThan => Some(BinaryOperator::GreaterThan),
        TokenView::GreaterThanOrEqual => Some(BinaryOperator::GreaterThanOrEqual),
        TokenView::LessThan => Some(BinaryOperator::LessThan),
        TokenView::LessThanOrEqual => Some(BinaryOperator::LessThanOrEqual),
        TokenView::Equal => Some(BinaryOperator::Equal),
        TokenView::NotEqual => Some(BinaryOperator::NotEqual),
        TokenView::Keyword(Keyword::And) => Some(BinaryOperator::And),
        TokenView::Keyword(Keyword::Or) => Some(BinaryOperator::Or),
        _ => None,
    }
}

pub open spec fn prefix_operator(t: TokenView) -> Option<UnaryOperator> {
    match t {
        TokenView::Minus => Some(UnaryOperator::Minus),
        TokenView::Plus => Some(UnaryOperator::Plus),
        TokenView::Keyword(Keyword::Not) => Some(UnaryOperator::Not),
        _ => None,
    }
}

pub open spec fn unary(op: UnaryOperator, e: ExprView) -> ExprView {
    ExprView::UnaryOperation { operand: Box::new(e), operator: op }
}

pub open spec fn binary(l: ExprView, op: BinaryOperator, r: ExprView) -> ExprView {
    ExprView::BinaryOperation { left_operand: Box::new(l), operator: op, right_operand: Box::new(r) }
}

/// An expression whose binary operators all bind tighter than `min`.
pub open spec fn expr(ts: Seq<TokenView>, min: u8) -> Option<(ExprView, Seq<TokenView>)>
    decreases ts.len(), 1nat,
{
    match primary(ts) {
        Some((e, r)) => if r.len() < ts.len() {
            climb(e, r, min)
        } else {
            None
        },
        None => None,
    }
}

/// A literal, an identifier, `*`, a parenthesized expression, or a prefix operator
/// applied to an operand.
pub open spec fn primary(ts: Seq<TokenView>) -> Option<(ExprView, Seq<TokenView>)>
    decreases ts.len(), 0nat,
{
    if ts.len() == 0 {
        None
    } else {
        let r = ts.drop_first();
        match ts[0] {
            TokenView::Number(n) => Some((ExprView::Number(n), r)),
            TokenView::String(s) => Some((ExprView::String(s), r)),
            TokenView::Identifier(s) => Some((ExprView::Identifier(s), r)),
            TokenView::Keyword(Keyword::True) => Some((ExprView::Bool(true), r)),
            TokenView::Keyword(Keyword::False) => Some((ExprView::Bool(false), r)),
            TokenView::Star => Some((ExprView::Identifier(seq!['*']), r)),
            TokenView::LeftParentheses => match expr(r, 0) {
                Some((e, r2)) => if head(r2) == TokenView::RightParentheses {
                    Some((e, tail(r2)))
                } else {
                    None
                },
                None => None,
            },
            t => match prefix_operator(t) {
                Some(op) => match expr(r, UNARY_PRECEDENCE) {
                    Some((e, r2)) => Some((unary(op, e), r2)),
                    None => None,
                },
                None => None,
            },
        }
    }
}

/// Folds into `left` each following binary operator that binds tighter than `min`,
/// with its right operand.
pub open spec fn climb(left: ExprView, ts: Seq<TokenView>, min: u8) -> Option<(ExprView, Seq<TokenView>)>
    decreases ts.len(), 2nat,
{
    match binary_operator(head(ts)) {
        Some(op) => if ts.len() > 0 && precedence(op) > min {
            match expr(ts.drop_first(), precedence(op)) {
                Some((right, r)) => if r.len() < ts.len() {
                    climb(binary(left, op, right), r, min)
                } else {
                    None
                },
                None => None,
            }
        } else {
            Some((left, ts))
        },
        None => Some((left, ts)),
    }
}

/// A non-empty, comma-separated list of expressions.
pub open spec fn expr_list(ts: Seq<TokenView>) -> Option<(Seq<ExprView>, Seq<TokenView>)>
    decreases ts.len(),
{
    match expr(ts, 0) {
        Some((e, r)) => if head(r) == TokenView::Comma && r.len() < ts.len() {
            match expr_list(tail(r)) {
                Some((es, r2)) => Some((seq![e] + es, r2)),
                None => None,
            }
        } else {
            Some((seq![e], r))
        },
        None => None,
    }
}

/// An ORDER BY key: an expression, tagged with `Asc` or `Desc` when one follows it.
pub open spec fn order_key(ts: Seq<TokenView>) -> Option<(ExprView, Seq<TokenView>)> {
    match expr(ts, 0) {
        Some((e, r)) => if head(r) == TokenView::Keyword(Keyword::Asc) {
            Some((unary(UnaryOperator::Asc, e), tail(r)))
        } else if head(r) == TokenView::Keyword(Keyword::Desc) {
            Some((unary(UnaryOperator::Desc, e), tail(r)))
        } else {
            Some((e, r))
        },
        None => None,
    }
}

/// A non-empty, comma-separated list of ORDER BY keys.
pub open spec fn order_list(ts: Seq<TokenView>) -> Option<(Seq<ExprView>, Seq<TokenView>)>
    decreases ts.len(),
{
    match order_key(ts) {
        Some((e, r)) => if head(r) == TokenView::Comma && r.len() < ts.len() {
            match order_list(tail(r)) {
                Some((es, r2)) => Some((seq![e] + es, r2)),
                None => None,
            }
        } else {
            Some((seq![e], r))
        },
        None => None,
    }
}

/// An optional `WHERE` clause.
pub open spec fn where_clause(ts: Seq<TokenView>) -> Option<(Option<ExprView>, Seq<TokenView>)> {
    if head(ts) == TokenView::Keyword(Keyword::Where) {
        match expr(tail(ts), 0) {
            Some((e, r)) => Some((Some(e), r)),
            None => None,
        }
    } else {
        Some((None, ts))
    }
}

/// An optional `ORDER BY` clause; empty when absent.
pub open spec fn order_by(ts: Seq<TokenView>) -> Option<(Seq<ExprView>, Seq<TokenView>)> {
    if head(ts) == TokenView::Keyword(Keyword::Order) {
        if head(tail(ts)) == TokenView::Keyword(Keyword::By) {
            order_list(tail(tail(ts)))
        } else {
            None
        }
    } else {
        Some((seq![], ts))
    }
}

/// The rest of a SELECT statement, after the `SELECT` keyword.
pub open spec fn select(ts: Seq<TokenView>) -> Option<(StatementView, Seq<TokenView>)> {
    match expr_list(ts) {
        Some((columns, r1)) => if head(r1) == TokenView::Keyword(Keyword::From) {
            match head(tail(r1)) {
                TokenView::Identifier(from) => match where_clause(tail(tail(r1))) {
                    Some((w, r2)) => match order_by(r2) {
                        Some((orderby, r3)) => if head(r3) == TokenView::Semicolon {
                            Some((
                                StatementView::Select { columns, from, where_clause: w, orderby },
                                tail(r3),
                            ))
                        } else {
                            None
                        },
                        None => None,
                    },
                    None => None,
                },
                _ => None,
            }
        } else {
            None
        },
        None => None,
    }
}

/// A column type: `INT`, `BOOL` or `VARCHAR(<size>)`, with a size that is positive and
/// fits a `usize`.
pub open spec fn column_type(ts: Seq<TokenView>) -> Option<(DBType, Seq<TokenView>)> {
    match head(ts) {
        TokenView::Keyword(Keyword::Int) => Some((DBType::Int, tail(ts))),
        TokenView::Keyword(Keyword::Bool) => Some((DBType::Bool, tail(ts))),
        TokenView::Keyword(Keyword::Varchar) => {
            let r = tail(ts);
            if head(r) == TokenView::LeftParentheses {
                match head(tail(r)) {
                    TokenView::Number(n) => if 0 < n <= usize::MAX && head(tail(tail(r)))
                        == TokenView::RightParentheses {
                        Some((DBType::Varchar(n as usize), tail(tail(tail(r)))))
                    } else {
                        None
                    },
                    _ => None,
                }
            } else {
                None
            }
        },
        _ => None,
    }
}

/// Whether `t` starts a column constraint.
pub open spec fn starts_constraint(t: TokenView) -> bool {
    t == TokenView::Keyword(Keyword::Primary) || t == TokenView::Keyword(Keyword::Not) || t
        == TokenView::Keyword(Keyword::Check)
}

/// One column constraint: `PRIMARY KEY`, `NOT NULL` or `CHECK (<expression>)`.
pub open spec fn constraint(ts: Seq<TokenView>) -> Option<(ConstraintView, Seq<TokenView>)> {
    match head(ts) {
        TokenView::Keyword(Keyword::Primary) => if head(tail(ts)) == TokenView::Keyword(Keyword::Key) {
            Some((ConstraintView::PrimaryKey, tail(tail(ts))))
        } else {
            None
        },
        TokenView::Keyword(Keyword::Not) => if head(tail(ts)) == TokenView::Keyword(Keyword::Null) {
            Some((ConstraintView::NotNull, tail(tail(ts))))
        } else {
            None
        },
        TokenView::Keyword(Keyword::Check) => if head(tail(ts)) == TokenView::LeftParentheses {
            match expr(tail(tail(ts)), 0) {
                Some((e, r)) => if head(r) == TokenView::RightParentheses {
                    Some((ConstraintView::Check(e), tail(r)))
                } else {
                    None
                },
                None => None,
            }
        } else {
            None
        },
        _ => None,
    }
}

/// Zero or more column constraints; stops at the first token that starts none.
pub open spec fn constraints(ts: Seq<TokenView>) -> Option<(Seq<ConstraintView>, Seq<TokenView>)>
    decreases ts.len(),
{
    if !starts_constraint(head(ts)) {
        Some((seq![], ts))
    } else {
        match constraint(ts) {
            Some((c, r)) => if r.len() < ts.len() {
                match constraints(r) {
                    Some((cs, r2)) => Some((seq![c] + cs, r2)),
                    None => None,
                }
            } else {
                None
            },
            None => None,
        }
    }
}

/// A column definition: a name, a type, then its constraints.
pub open spec fn column_def(ts: Seq<TokenView>) -> Option<(ColumnView, Seq<TokenView>)> {
    match head(ts) {
        TokenView::Identifier(name) => match column_type(tail(ts)) {
            Some((ty, r1)) => match constraints(r1) {
                Some((cs, r2)) => Some((
                    ColumnView { column_name: name, column_type: ty, constraints: cs },
                    r2,
                )),
                None => None,
            },
            None => None,
        },
        _ => None,
    }
}

/// Column definitions separated by commas, up to and including the closing `)`.
pub open spec fn column_list(ts: Seq<TokenView>) -> Option<(Seq<ColumnView>, Seq<TokenView>)>
    decreases ts.len(),
{
    match column_def(ts) {
        Some((c, r)) => if head(r) == TokenView::Comma && r.len() < ts.len() {
            match column_list(tail(r)) {
                Some((cs, r2)) => Some((seq![c] + cs, r2)),
                None => None,
            }
        } else if head(r) == TokenView::RightParentheses {
            Some((seq![c], tail(r)))
        } else {
            None
        },
        None => None,
    }
}

/// The rest of a CREATE TABLE statement, after the `TABLE` keyword.
pub open spec fn create_table(ts: Seq<TokenView>) -> Option<(StatementView, Seq<TokenView>)> {
    match head(ts) {
        TokenView::Identifier(table_name) => if head(tail(ts)) == TokenView::LeftParentheses {
            match column_list(tail(tail(ts))) {
                Some((column_list, r)) => if head(r) == TokenView::Semicolon {
                    Some((StatementView::CreateTable { table_name, column_list }, tail(r)))
                } else {
                    None
                },
                None => None,
            }
        } else {
            None
        },
        _ => None,
    }
}

/// One statement: SELECT or CREATE TABLE.
pub open spec fn statement(ts: Seq<TokenView>) -> Option<(StatementView, Seq<TokenView>)> {
    match head(ts) {
        TokenView::Keyword(Keyword::Select) => select(tail(ts)),
        TokenView::Keyword(Keyword::Create) => if head(tail(ts)) == TokenView::Keyword(Keyword::Table) {
            create_table(tail(tail(ts)))
        } else {
            None
        },
        _ => None,
    }
}

} // verus!
