use vstd::prelude::*;

use crate::grammar::{
    binary_operator, column_list, column_type, constraints, create_table, expr, expr_list,
    head, order_list, precedence, primary, select, statement, tail, UNARY_PRECEDENCE,
};
use crate::statement::{
    columns_view, constraints_view, exprs_view, StatementView, BinaryOperator, Constraint, DBType, Expression,
    Statement, TableColumn, UnaryOperator,
};
use crate::text::{expected_message, unexpected_message};
use crate::token::{Keyword, Token, TokenView};
use crate::tokenizer::{lemma_lex_all_unfold, lemma_step_advances, lex_all, Tokenizer};

verus! {

/// Puts `acc` in front of the list of a successful parse.
pub open spec fn prepend<A>(acc: Seq<A>, o: Option<(Seq<A>, Seq<TokenView>)>) -> Option<(Seq<A>, Seq<TokenView>)> {
    match o {
        Some((xs, r)) => Some((acc + xs, r)),
        None => None,
    }
}

proof fn lemma_prepend_push<A>(acc: Seq<A>, x: A, o: Option<(Seq<A>, Seq<TokenView>)>)
    ensures
        prepend(acc.push(x), o) == prepend(acc, prepend(seq![x], o)),
{
    if let Some((xs, r)) = o {
        assert(acc.push(x) + xs =~= acc + (seq![x] + xs));
    }
}

/// A recursive-descent parser with one token of lookahead.
pub struct Parser {
    tokenizer: Tokenizer,
    current_token: Token,
}

impl Parser {
    pub closed spec fn wf(&self) -> bool {
        &&& self.tokenizer.wf()
        &&& self.current_token is Eof ==> self.tokenizer.remaining() == Seq::<TokenView>::empty()
    }

    /// The tokens not yet consumed, the current one first.
    pub closed spec fn rest(&self) -> Seq<TokenView> {
        if self.current_token is Eof {
            Seq::empty()
        } else {
            seq![self.current_token@] + self.tokenizer.remaining()
        }
    }

    pub fn new(input: &str) -> (p: Self)
        ensures
            p.wf(),
            p.rest() == lex_all(input@, 0),
    {
        let mut tokenizer = Tokenizer::new(input);
        proof {
            lemma_lex_all_unfold(input@, 0);
        }
        let current_token = match tokenizer.next() {
            Some(t) => t,
            None => Token::Eof,
        };
        proof {
            tokenizer.lemma_wf_bounds();
            lemma_lex_all_unfold(input@, tokenizer.position());
            lemma_step_advances(input@, 0);
        }
        Parser { tokenizer, current_token }
    }

    /// Moves to the next token and returns the one it leaves.
    fn advance(&mut self) -> (prev: Token)
        requires
            old(self).wf(),
        ensures
            final(self).wf(),
            final(self).rest() == tail(old(self).rest()),
            prev@ == head(old(self).rest()),
    {
        proof {
            self.tokenizer.lemma_wf_bounds();
            lemma_lex_all_unfold(self.tokenizer.text(), self.tokenizer.position());
            lemma_step_advances(self.tokenizer.text(), self.tokenizer.position());
        }
        let mut next = match self.tokenizer.next() {
            Some(t) => t,
            None => Token::Eof,
        };
        proof {
            self.tokenizer.lemma_wf_bounds();
            lemma_lex_all_unfold(self.tokenizer.text(), self.tokenizer.position());
        }
        std::mem::swap(&mut self.current_token, &mut next);
        proof {
            if !(next is Eof) {
                assert(tail(old(self).rest()) =~= self.rest());
            }
        }
        next
    }

    fn is_current(&self, expected: &Token) -> (r: bool)
        requires
            self.wf(),
            expected is LeftParentheses || expected is RightParentheses || expected is Semicolon,
        ensures
            r == (head(self.rest()) == expected@),
    {
        match expected {
            Token::LeftParentheses => matches!(self.current_token, Token::LeftParentheses),
            Token::RightParentheses => matches!(self.current_token, Token::RightParentheses),
            _ => matches!(self.current_token, Token::Semicolon),
        }
    }

    fn expect_token(&mut self, expected: Token) -> (r: Result<(), String>)
        requires
            old(self).wf(),
            expected is LeftParentheses || expected is RightParentheses || expected is Semicolon,
        ensures
            final(self).wf(),
            head(old(self).rest()) == expected@ ==> r is Ok && final(self).rest() == tail(
                old(self).rest(),
            ),
            head(old(self).rest()) != expected@ ==> r is Err && final(self).rest() == old(
                self,
            ).rest(),
            final(self).rest().len() <= old(self).rest().len(),
    {
        if self.is_current(&expected) {
            self.advance();
            Ok(())
        } else {
            Err(expected_message(&expected, &self.current_token))
        }
    }

    fn get_precedence(operator: &BinaryOperator) -> (r: u8)
        ensures
            r == precedence(*operator),
    {
        match operator {
            BinaryOperator::Or => 1,
            BinaryOperator::And => 2,
            BinaryOperator::Equal | BinaryOperator::NotEqual => 3,
            BinaryOperator::GreaterThan | BinaryOperator::GreaterThanOrEqual
            | BinaryOperator::LessThan | BinaryOperator::LessThanOrEqual => 4,
            BinaryOperator::Plus | BinaryOperator::Minus => 5,
            BinaryOperator::Multiply | BinaryOperator::Divide => 6,
        }
    }

    fn get_binary_operator(token: &Token) -> (r: Option<BinaryOperator>)
        ensures
            r == binary_operator(token@),
    {
        match token {
            Token::Plus => Some(BinaryOperator::Plus),
            Token::Minus => Some(BinaryOperator::Minus),
            Token::Star => Some(BinaryOperator::Multiply),
            Token::Divide => Some(BinaryOperator::Divide),
            Token::GreaterThan => Some(BinaryOperator::GreaterThan),
            Token::GreaterThanOrEqual => Some(BinaryOperator::GreaterThanOrEqual),
            Token::LessThan => Some(BinaryOperator::LessThan),
            Token::LessThanOrEqual => Some(BinaryOperator::LessThanOrEqual),
            Token::Equal => Some(BinaryOperator::Equal),
            Token::NotEqual => Some(BinaryOperator::NotEqual),
            Token::Keyword(Keyword::And) => Some(BinaryOperator::And),
            Token::Keyword(Keyword::Or) => Some(BinaryOperator::Or),
            _ => None,
        }
    }

    fn parse_primary(&mut self) -> (res: Result<Expression, String>)
        requires
            old(self).wf(),
        ensures
            final(self).wf(),
            match primary(old(self).rest()) {
                Some((e, r)) => res matches Ok(x) && x@ == e && final(self).rest() == r,
                None => res is Err,
            },
            res is Ok ==> final(self).rest().len() < old(self).rest().len(),
            final(self).rest().len() <= old(self).rest().len(),
        decreases old(self).rest().len(), 0nat,
    {
        let token = self.advance();
        match token {
            Token::Number(n) => Ok(Expression::Number(n)),
            Token::String(s) => Ok(Expression::String(s)),
            Token::Identifier(id) => Ok(Expression::Identifier(id)),
            Token::Keyword(Keyword::True) => Ok(Expression::Bool(true)),
            Token::Keyword(Keyword::False) => Ok(Expression::Bool(false)),
            Token::Star => {
                let star = String::from_str("*");
                proof {
                    reveal_strlit("*");
                    assert(star@ =~= seq!['*']);
                }
                Ok(Expression::Identifier(star))
            },
            Token::LeftParentheses => {
                let expr = match self.parse_expression(0) {
                    Ok(e) => e,
                    Err(m) => return Err(m),
                };
                if !matches!(self.current_token, Token::RightParentheses) {
                    return Err(String::from_str("Expected closing parenthesis"));
                }
                self.advance();
                Ok(expr)
            },
            Token::Minus => {
                let expr = match self.parse_expression(UNARY_PRECEDENCE) {
                    Ok(e) => e,
                    Err(m) => return Err(m),
                };
                Ok(Expression::UnaryOperation { operand: Box::new(expr), operator: UnaryOperator::Minus })
            },
            Token::Plus => {
                let expr = match self.parse_expression(UNARY_PRECEDENCE) {
                    Ok(e) => e,
                    Err(m) => return Err(m),
                };
                Ok(Expression::UnaryOperation { operand: Box::new(expr), operator: UnaryOperator::Plus })
            },
            Token::Keyword(Keyword::Not) => {
                let expr = match self.parse_expression(UNARY_PRECEDENCE) {
                    Ok(e) => e,
                    Err(m) => return Err(m),
                };
                Ok(Expression::UnaryOperation { operand: Box::new(expr), operator: UnaryOperator::Not })
            },
            _ => Err(unexpected_message(&token)),
        }
    }

    /// Parses an expression whose binary operators all bind tighter than `precedence`.
    pub fn parse_expression(&mut self, precedence: u8) -> (res: Result<Expression, String>)
        requires
            old(self).wf(),
        ensures
            final(self).wf(),
            match expr(old(self).rest(), precedence) {
                Some((e, r)) => res matches Ok(x) && x@ == e && final(self).rest() == r,
                None => res is Err,
            },
            res is Ok ==> final(self).rest().len() < old(self).rest().len(),
            final(self).rest().len() <= old(self).rest().len(),
        decreases old(self).rest().len(), 1nat,
    {
        let mut left = match self.parse_primary() {
            Ok(e) => e,
            Err(m) => return Err(m),
        };
        loop
            invariant
                self.wf(),
                self.rest().len() < old(self).rest().len(),
                crate::grammar::climb(left@, self.rest(), precedence) == expr(old(self).rest(), precedence),
            decreases self.rest().len(),
        {
            let operator = match Self::get_binary_operator(&self.current_token) {
                Some(op) => op,
                None => return Ok(left),
            };
            let op_precedence = Self::get_precedence(&operator);
            if op_precedence <= precedence {
                return Ok(left);
            }
            self.advance();
            let right = match self.parse_expression(op_precedence) {
                Ok(e) => e,
                Err(m) => return Err(m),
            };
            left = Expression::BinaryOperation {
                left_operand: Box::new(left),
                operator,
                right_operand: Box::new(right),
            };
        }
    }

    fn parse_select_columns(&mut self) -> (res: Result<Vec<Expression>, String>)
        requires
            old(self).wf(),
        ensures
            final(self).wf(),
            match expr_list(old(self).rest()) {
                Some((es, r)) => res matches Ok(v) && exprs_view(v) == es && final(self).rest() == r,
                None => res is Err,
            },
    {
        let ghost target = expr_list(self.rest());
        let mut columns: Vec<Expression> = Vec::new();
        proof {
            if let Some((es, r)) = target {
                assert(exprs_view(columns) + es =~= es);
            }
        }
        loop
            invariant
                self.wf(),
                target == expr_list(old(self).rest()),
                prepend(exprs_view(columns), expr_list(self.rest())) == target,
            decreases self.rest().len(),
        {
            let ghost acc = exprs_view(columns);
            let e = match self.parse_expression(0) {
                Ok(e) => e,
                Err(m) => return Err(m),
            };
            let ghost ev = e@;
            columns.push(e);
            proof {
                assert(exprs_view(columns) =~= acc.push(ev));
                lemma_prepend_push(acc, ev, expr_list(tail(self.rest())));
            }
            if matches!(self.current_token, Token::Comma) {
                self.advance();
            } else {
                assert(acc.push(ev) =~= acc + seq![ev]);
                return Ok(columns);
            }
        }
    }

    fn parse_orderby(&mut self) -> (res: Result<Vec<Expression>, String>)
        requires
            old(self).wf(),
        ensures
            final(self).wf(),
            match order_list(old(self).rest()) {
                Some((es, r)) => res matches Ok(v) && exprs_view(v) == es && final(self).rest() == r,
                None => res is Err,
            },
    {
        let ghost target = order_list(self.rest());
        let mut orderby: Vec<Expression> = Vec::new();
        proof {
            if let Some((es, r)) = target {
                assert(exprs_view(orderby) + es =~= es);
            }
        }
        loop
            invariant
                self.wf(),
                target == order_list(old(self).rest()),
                prepend(exprs_view(orderby), order_list(self.rest())) == target,
            decreases self.rest().len(),
        {
            let ghost acc = exprs_view(orderby);
            let expr = match self.parse_expression(0) {
                Ok(e) => e,
                Err(m) => return Err(m),
            };
            let expr = if matches!(self.current_token, Token::Keyword(Keyword::Asc)) {
                self.advance();
                Expression::UnaryOperation { operand: Box::new(expr), operator: UnaryOperator::Asc }
            } else if matches!(self.current_token, Token::Keyword(Keyword::Desc)) {
                self.advance();
                Expression::UnaryOperation { operand: Box::new(expr), operator: UnaryOperator::Desc }
            } else {
                expr
            };
            let ghost ev = expr@;
            orderby.push(expr);
            proof {
                assert(exprs_view(orderby) =~= acc.push(ev));
                lemma_prepend_push(acc, ev, order_list(tail(self.rest())));
            }
            if matches!(self.current_token, Token::Comma) {
                self.advance();
            } else {
                assert(acc.push(ev) =~= acc + seq![ev]);
                return Ok(orderby);
            }
        }
    }

    fn parse_column_type(&mut self) -> (res: Result<DBType, String>)
        requires
            old(self).wf(),
        ensures
            final(self).wf(),
            match column_type(old(self).rest()) {
                Some((t, r)) => res == Ok::<DBType, String>(t) && final(self).rest() == r,
                None => res is Err,
            },
            final(self).rest().len() <= old(self).rest().len(),
    {
        if matches!(self.current_token, Token::Keyword(Keyword::Int)) {
            self.advance();
            Ok(DBType::Int)
        } else if matches!(self.current_token, Token::Keyword(Keyword::Bool)) {
            self.advance();
            Ok(DBType::Bool)
        } else if matches!(self.current_token, Token::Keyword(Keyword::Varchar)) {
            self.advance();
            match self.expect_token(Token::LeftParentheses) {
                Ok(()) => {},
                Err(m) => return Err(m),
            }
            let size = match self.current_token {
                Token::Number(n) => n,
                _ => return Err(String::from_str("Expected number for VARCHAR size")),
            };
            if size == 0 || size > usize::MAX as u64 {
                return Err(String::from_str("Expected a positive VARCHAR size"));
            }
            self.advance();
            match self.expect_token(Token::RightParentheses) {
                Ok(()) => {},
                Err(m) => return Err(m),
            }
            Ok(DBType::Varchar(size as usize))
        } else {
            Err(String::from_str("Expected a valid data type"))
        }
    }

    fn parse_column_constraints(&mut self) -> (res: Result<Vec<Constraint>, String>)
        requires
            old(self).wf(),
        ensures
            final(self).wf(),
            match constraints(old(self).rest()) {
                Some((cs, r)) => res matches Ok(v) && constraints_view(v) == cs && final(self).rest() == r,
                None => res is Err,
            },
            final(self).rest().len() <= old(self).rest().len(),
    {
        let ghost target = constraints(self.rest());
        let mut list: Vec<Constraint> = Vec::new();
        proof {
            if let Some((cs, r)) = target {
                assert(constraints_view(list) + cs =~= cs);
            }
        }
        loop
            invariant
                self.wf(),
                target == constraints(old(self).rest()),
                self.rest().len() <= old(self).rest().len(),
                prepend(constraints_view(list), constraints(self.rest())) == target,
            decreases self.rest().len(),
        {
            let ghost acc = constraints_view(list);
            let constraint = if matches!(self.current_token, Token::Keyword(Keyword::Primary)) {
                self.advance();
                if !matches!(self.current_token, Token::Keyword(Keyword::Key)) {
                    return Err(String::from_str("Expected KEY after PRIMARY"));
                }
                self.advance();
                Constraint::PrimaryKey
            } else if matches!(self.current_token, Token::Keyword(Keyword::Not)) {
                self.advance();
                if !matches!(self.current_token, Token::Keyword(Keyword::Null)) {
                    return Err(String::from_str("Expected NULL after NOT"));
                }
                self.advance();
                Constraint::NotNull
            } else if matches!(self.current_token, Token::Keyword(Keyword::Check)) {
                self.advance();
                match self.expect_token(Token::LeftParentheses) {
                    Ok(()) => {},
                    Err(m) => return Err(m),
                }
                let expr = match self.parse_expression(0) {
                    Ok(e) => e,
                    Err(m) => return Err(m),
                };
                match self.expect_token(Token::RightParentheses) {
                    Ok(()) => {},
                    Err(m) => return Err(m),
                }
                Constraint::Check(expr)
            } else {
                assert(acc + Seq::<crate::statement::ConstraintView>::empty() =~= acc);
                return Ok(list);
            };
            let ghost cv = constraint@;
            list.push(constraint);
            proof {
                assert(constraints_view(list) =~= acc.push(cv));
                lemma_prepend_push(acc, cv, constraints(self.rest()));
            }
        }
    }

    fn parse_column_definition(&mut self) -> (res: Result<TableColumn, String>)
        requires
            old(self).wf(),
        ensures
            final(self).wf(),
            match crate::grammar::column_def(old(self).rest()) {
                Some((c, r)) => res matches Ok(x) && x@ == c && final(self).rest() == r,
                None => res is Err,
            },
            res is Ok ==> final(self).rest().len() < old(self).rest().len(),
    {
        match self.advance() {
            Token::Identifier(name) => {
                let column_type = match self.parse_column_type() {
                    Ok(t) => t,
                    Err(m) => return Err(m),
                };
                let constraints = match self.parse_column_constraints() {
                    Ok(cs) => cs,
                    Err(m) => return Err(m),
                };
                Ok(TableColumn { column_name: name, column_type, constraints })
            },
            _ => Err(String::from_str("Expected column name")),
        }
    }

    /// Parses the rest of a CREATE TABLE statement; the current token is `TABLE`.
    fn parse_create_table(&mut self) -> (res: Result<Statement, String>)
        requires
            old(self).wf(),
        ensures
            final(self).wf(),
            match create_table(tail(old(self).rest())) {
                Some((s, r)) => res matches Ok(x) && x@ == s && final(self).rest() == r,
                None => res is Err,
            },
    {
        self.advance();
        let table_name = match self.advance() {
            Token::Identifier(name) => name,
            _ => return Err(String::from_str("Expected table name")),
        };
        match self.expect_token(Token::LeftParentheses) {
            Ok(()) => {},
            Err(m) => return Err(m),
        }
        let ghost target = column_list(self.rest());
        let mut columns: Vec<TableColumn> = Vec::new();
        proof {
            if let Some((cs, r)) = target {
                assert(columns_view(columns) + cs =~= cs);
            }
        }
        loop
            invariant_except_break
                prepend(columns_view(columns), column_list(self.rest())) == target,
            invariant
                self.wf(),
                create_table(tail(old(self).rest())) == match target {
                    Some((cs, r)) => if head(r) == TokenView::Semicolon {
                        Some((
                            StatementView::CreateTable { table_name: table_name@, column_list: cs },
                            tail(r),
                        ))
                    } else {
                        None
                    },
                    None => None,
                },
            ensures
                self.wf(),
                target matches Some((cs, r)) && columns_view(columns) == cs && self.rest() == r,
            decreases self.rest().len(),
        {
            let ghost acc = columns_view(columns);
            let column = match self.parse_column_definition() {
                Ok(c) => c,
                Err(m) => return Err(m),
            };
            let ghost cv = column@;
            columns.push(column);
            proof {
                assert(columns_view(columns) =~= acc.push(cv));
                lemma_prepend_push(acc, cv, column_list(tail(self.rest())));
                assert(acc.push(cv) =~= acc + seq![cv]);
            }
            if matches!(self.current_token, Token::Comma) {
                self.advance();
            } else if matches!(self.current_token, Token::RightParentheses) {
                self.advance();
                break;
            } else {
                return Err(String::from_str("Expected ',' or ')'"));
            }
        }
        match self.expect_token(Token::Semicolon) {
            Ok(()) => {},
            Err(m) => return Err(m),
        }
        Ok(Statement::CreateTable { table_name, column_list: columns })
    }

    /// Parses the rest of a SELECT statement, after the `SELECT` keyword.
    fn parse_select(&mut self) -> (res: Result<Statement, String>)
        requires
            old(self).wf(),
        ensures
            final(self).wf(),
            match select(old(self).rest()) {
                Some((s, r)) => res matches Ok(x) && x@ == s && final(self).rest() == r,
                None => res is Err,
            },
    {
        let columns = match self.parse_select_columns() {
            Ok(cs) => cs,
            Err(m) => return Err(m),
        };
        if !matches!(self.current_token, Token::Keyword(Keyword::From)) {
            return Err(String::from_str("Expected FROM clause"));
        }
        self.advance();
        let from = match self.advance() {
            Token::Identifier(name) => name,
            _ => return Err(String::from_str("Expected table name")),
        };
        let ghost after_from = self.rest();
        let mut where_clause: Option<Expression> = None;
        if matches!(self.current_token, Token::Keyword(Keyword::Where)) {
            self.advance();
            where_clause = match self.parse_expression(0) {
                Ok(e) => Some(e),
                Err(m) => return Err(m),
            };
        }
        assert(crate::grammar::where_clause(after_from) matches Some((w, r)) && self.rest() == r && w
            == match where_clause {
            Some(e) => Some(e@),
            None => None,
        });
        let ghost after_where = self.rest();
        let mut orderby: Vec<Expression> = Vec::new();
        if matches!(self.current_token, Token::Keyword(Keyword::Order)) {
            self.advance();
            if !matches!(self.current_token, Token::Keyword(Keyword::By)) {
                return Err(String::from_str("Expected BY after ORDER"));
            }
            self.advance();
            orderby = match self.parse_orderby() {
                Ok(keys) => keys,
                Err(m) => return Err(m),
            };
        } else {
            assert(exprs_view(orderby) =~= Seq::empty());
        }
        assert(crate::grammar::order_by(after_where) matches Some((o, r)) && self.rest() == r && o
            == exprs_view(orderby));
        match self.expect_token(Token::Semicolon) {
            Ok(()) => {},
            Err(m) => return Err(m),
        }
        Ok(Statement::Select { columns, from, where_clause, orderby })
    }

    /// Parses one statement, SELECT or CREATE TABLE, up to and including its `;`.
    /// Tokens after the `;` are left unread.
    pub fn parse_statement(&mut self) -> (res: Result<Statement, String>)
        requires
            old(self).wf(),
        ensures
            final(self).wf(),
            match statement(old(self).rest()) {
                Some((s, r)) => res matches Ok(x) && x@ == s && final(self).rest() == r,
                None => res is Err,
            },
            head(old(self).rest()) != TokenView::Keyword(Keyword::Select) && head(old(self).rest())
                != TokenView::Keyword(Keyword::Create) ==> (res matches Err(m) && m@
                == "Expected SELECT or CREATE"@),
            head(old(self).rest()) == TokenView::Keyword(Keyword::Create) && head(
                tail(old(self).rest()),
            ) != TokenView::Keyword(Keyword::Table) ==> (res matches Err(m) && m@
                == "Expected TABLE after CREATE"@),
    {
        if matches!(self.current_token, Token::Keyword(Keyword::Select)) {
            self.advance();
            self.parse_select()
        } else if matches!(self.current_token, Token::Keyword(Keyword::Create)) {
            self.advance();
            if !matches!(self.current_token, Token::Keyword(Keyword::Table)) {
                return Err(String::from_str("Expected TABLE after CREATE"));
            }
            self.parse_create_table()
        } else {
            Err(String::from_str("Expected SELECT or CREATE"))
        }
    }
}

} // verus!
