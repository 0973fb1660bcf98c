use vstd::prelude::*;

verus! {

/// Prefix operators, and the `ASC` / `DESC` tags that an ORDER BY key may carry.
#[derive(Debug, Clone, Copy, PartialEq, Eq, Structural)]
pub enum UnaryOperator {
    Minus,
    Plus,
    Not,
    Asc,
    Desc,
}

#[derive(Debug, Clone, Copy, PartialEq, Eq, Structural)]
pub enum BinaryOperator {
    Or,
    And,
    Equal,
    NotEqual,
    GreaterThan,
    GreaterThanOrEqual,
    LessThan,
    LessThanOrEqual,
    Plus,
    Minus,
    Multiply,
    Divide,
}

#[derive(Debug, Clone, Copy, PartialEq, Eq, Structural)]
pub enum DBType {
    Int,
    Bool,
    Varchar(usize),
}

/// An expression tree; `*` is the identifier `"*"`.
#[derive(Debug, PartialEq)]
pub enum Expression {
    Number(u64),
    String(String),
    Bool(bool),
    Identifier(String),
    UnaryOperation { operand: Box<Expression>, operator: UnaryOperator },
    BinaryOperation {
        left_operand: Box<Expression>,
        operator: BinaryOperator,
        right_operand: Box<Expression>,
    },
}

#[derive(Debug, PartialEq)]
pub enum Constraint {
    PrimaryKey,
    NotNull,
    Check(Expression),
}

#[derive(Debug, PartialEq)]
pub struct TableColumn {
    pub column_name: String,
    pub column_type: DBType,
    pub constraints: Vec<Constraint>,
}

#[derive(Debug, PartialEq)]
pub enum Statement {
    Select {
        columns: Vec<Expression>,
        from: String,
        where_clause: Option<Expression>,
        orderby: Vec<Expression>,
    },
    CreateTable { table_name: String, column_list: Vec<TableColumn> },
}

/// The mathematical value of an `Expression`.
pub enum ExprView {
    Number(u64),
    String(Seq<char>),
    Bool(bool),
    Identifier(Seq<char>),
    UnaryOperation { operand: Box<ExprView>, operator: UnaryOperator },
    BinaryOperation {
        left_operand: Box<ExprView>,
        operator: BinaryOperator,
        right_operand: Box<ExprView>,
    },
}

pub enum ConstraintView {
    PrimaryKey,
    NotNull,
    Check(ExprView),
}

pub struct ColumnView {
    pub column_name: Seq<char>,
    pub column_type: DBType,
    pub constraints: Seq<ConstraintView>,
}

pub enum StatementView {
    Select {
        columns: Seq<ExprView>,
        from: Seq<char>,
        where_clause: Option<ExprView>,
        orderby: Seq<ExprView>,
    },
    CreateTable { table_name: Seq<char>, column_list: Seq<ColumnView> },
}

pub open spec fn expr_view(e: Expression) -> ExprView
    decreases e,
{
    match e {
        Expression::Number(n) => ExprView::Number(n),
        Expression::String(s) => ExprView::String(s@),
        Expression::Bool(b) => ExprView::Bool(b),
        Expression::Identifier(s) => ExprView::Identifier(s@),
        Expression::UnaryOperation { operand, operator } => ExprView::UnaryOperation {
            operand: Box::new(expr_view(*operand)),
            operator,
        },
        Expression::BinaryOperation { left_operand, operator, right_operand } =>
            ExprView::BinaryOperation {
                left_operand: Box::new(expr_view(*left_operand)),
                operator,
                right_operand: Box::new(expr_view(*right_operand)),
            },
    }
}

impl View for Expression {
    type V = ExprView;

    open spec fn view(&self) -> ExprView {
        expr_view(*self)
    }
}

impl View for Constraint {
    type V = ConstraintView;

    open spec fn view(&self) -> ConstraintView {
        match self {
            Constraint::PrimaryKey => ConstraintView::PrimaryKey,
            Constraint::NotNull => ConstraintView::NotNull,
            Constraint::Check(e) => ConstraintView::Check(e@),
        }
    }
}

/// The views of a vector of expressions.
pub open spec fn exprs_view(v: Vec<Expression>) -> Seq<ExprView> {
    v@.map_values(|e: Expression| e@)
}

pub open spec fn constraints_view(v: Vec<Constraint>) -> Seq<ConstraintView> {
    v@.map_values(|c: Constraint| c@)
}

impl View for TableColumn {
    type V = ColumnView;

    open spec fn view(&self) -> ColumnView {
        ColumnView {
            column_name: self.column_name@,
            column_type: self.column_type,
            constraints: constraints_view(self.constraints),
        }
    }
}

pub open spec fn columns_view(v: Vec<TableColumn>) -> Seq<ColumnView> {
    v@.map_values(|c: TableColumn| c@)
}

impl View for Statement {
    type V = StatementView;

    open spec fn view(&self) -> StatementView {
        match self {
            Statement::Select { columns, from, where_clause, orderby } => StatementView::Select {
                columns: exprs_view(*columns),
                from: from@,
                where_clause: match where_clause {
                    Some(e) => Some(e@),
                    None => None,
                },
                orderby: exprs_view(*orderby),
            },
            Statement::CreateTable { table_name, column_list } => StatementView::CreateTable {
                table_name: table_name@,
                column_list: columns_view(*column_list),
            },
        }
    }
}

} // verus!
