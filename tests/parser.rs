use sql_parser::{
    BinaryOperator, Constraint, DBType, Expression, Parser, Statement, TableColumn, UnaryOperator,
};

fn ident(s: &str) -> Expression {
    Expression::Identifier(s.to_string())
}

fn bin(l: Expression, op: BinaryOperator, r: Expression) -> Expression {
    Expression::BinaryOperation {
        left_operand: Box::new(l),
        operator: op,
        right_operand: Box::new(r),
    }
}

fn un(op: UnaryOperator, e: Expression) -> Expression {
    Expression::UnaryOperation { operand: Box::new(e), operator: op }
}

fn expression(input: &str) -> Expression {
    Parser::new(input).parse_expression(0).unwrap()
}

#[test]
fn test_simple_select() {
    let mut parser = Parser::new("SELECT name, age FROM users;");
    let stmt = parser.parse_statement().unwrap();

    assert_eq!(stmt, Statement::Select {
        columns: vec![
            Expression::Identifier("name".to_string()),
            Expression::Identifier("age".to_string()),
        ],
        from: "users".to_string(),
        where_clause: None,
        orderby: vec![],
    });
}

#[test]
fn test_select_with_where() {
    let mut parser = Parser::new("SELECT id FROM users WHERE age >= 18;");
    let stmt = parser.parse_statement().unwrap();

    assert_eq!(stmt, Statement::Select {
        columns: vec![Expression::Identifier("id".to_string())],
        from: "users".to_string(),
        where_clause: Some(Expression::BinaryOperation {
            left_operand: Box::new(Expression::Identifier("age".to_string())),
            operator: BinaryOperator::GreaterThanOrEqual,
            right_operand: Box::new(Expression::Number(18)),
        }),
        orderby: vec![],
    });
}

#[test]
fn test_create_table() {
    let mut parser = Parser::new("CREATE TABLE users(id INT PRIMARY KEY, name VARCHAR(255) NOT NULL);");
    let stmt = parser.parse_statement().unwrap();

    assert_eq!(stmt, Statement::CreateTable {
        table_name: "users".to_string(),
        column_list: vec![
            TableColumn {
                column_name: "id".to_string(),
                column_type: DBType::Int,
                constraints: vec![Constraint::PrimaryKey],
            },
            TableColumn {
                column_name: "name".to_string(),
                column_type: DBType::Varchar(255),
                constraints: vec![Constraint::NotNull],
            },
        ],
    });
}

#[test]
fn multiplication_nests_inside_addition() {
    let e = expression("1 + 2 * 3");
    assert_eq!(e, bin(
        Expression::Number(1),
        BinaryOperator::Plus,
        bin(Expression::Number(2), BinaryOperator::Multiply, Expression::Number(3)),
    ));
}

#[test]
fn subtraction_associates_left() {
    let e = expression("1 - 2 - 3");
    assert_eq!(e, bin(
        bin(Expression::Number(1), BinaryOperator::Minus, Expression::Number(2)),
        BinaryOperator::Minus,
        Expression::Number(3),
    ));
}

#[test]
fn unary_minus_binds_tighter_than_plus() {
    let e = expression("-1 + 2");
    assert_eq!(e, bin(
        un(UnaryOperator::Minus, Expression::Number(1)),
        BinaryOperator::Plus,
        Expression::Number(2),
    ));
}

#[test]
fn parentheses_override_precedence() {
    let e = expression("(1 + 2) * 3");
    assert_eq!(e, bin(
        bin(Expression::Number(1), BinaryOperator::Plus, Expression::Number(2)),
        BinaryOperator::Multiply,
        Expression::Number(3),
    ));
}

#[test]
fn logical_operators_bind_loosest() {
    let e = expression("a = 1 OR NOT b AND c < 2");
    assert_eq!(e, bin(
        bin(ident("a"), BinaryOperator::Equal, Expression::Number(1)),
        BinaryOperator::Or,
        bin(
            un(UnaryOperator::Not, ident("b")),
            BinaryOperator::And,
            bin(ident("c"), BinaryOperator::LessThan, Expression::Number(2)),
        ),
    ));
}

#[test]
fn literals_and_star() {
    let mut parser = Parser::new("SELECT *, 'x', TRUE, FALSE, +7 FROM t;");
    let stmt = parser.parse_statement().unwrap();
    assert_eq!(stmt, Statement::Select {
        columns: vec![
            ident("*"),
            Expression::String("x".to_string()),
            Expression::Bool(true),
            Expression::Bool(false),
            un(UnaryOperator::Plus, Expression::Number(7)),
        ],
        from: "t".to_string(),
        where_clause: None,
        orderby: vec![],
    });
}

#[test]
fn unrecognized_character_fails() {
    assert!(Parser::new("SELECT @ FROM t;").parse_statement().is_err());
    assert!(Parser::new("SELECT a FROM t WHERE a != 'x;").parse_statement().is_err());
    assert!(Parser::new("SELECT a ! b FROM t;").parse_statement().is_err());
}

#[test]
fn order_by_direction_is_tagged() {
    let mut parser = Parser::new("SELECT a FROM t ORDER BY a DESC;");
    let stmt = parser.parse_statement().unwrap();
    assert_eq!(stmt, Statement::Select {
        columns: vec![ident("a")],
        from: "t".to_string(),
        where_clause: None,
        orderby: vec![un(UnaryOperator::Desc, ident("a"))],
    });
}

#[test]
fn order_by_several_keys() {
    let mut parser = Parser::new("SELECT a, b FROM t WHERE a > 1 ORDER BY a ASC, b, a + b DESC;");
    let stmt = parser.parse_statement().unwrap();
    assert_eq!(stmt, Statement::Select {
        columns: vec![ident("a"), ident("b")],
        from: "t".to_string(),
        where_clause: Some(bin(ident("a"), BinaryOperator::GreaterThan, Expression::Number(1))),
        orderby: vec![
            un(UnaryOperator::Asc, ident("a")),
            ident("b"),
            un(UnaryOperator::Desc, bin(ident("a"), BinaryOperator::Plus, ident("b"))),
        ],
    });
}

#[test]
fn create_table_with_check_and_bool() {
    let mut parser = Parser::new("create table t (flag BOOL NOT NULL CHECK (flag = TRUE), n INT);");
    let stmt = parser.parse_statement().unwrap();
    assert_eq!(stmt, Statement::CreateTable {
        table_name: "t".to_string(),
        column_list: vec![
            TableColumn {
                column_name: "flag".to_string(),
                column_type: DBType::Bool,
                constraints: vec![
                    Constraint::NotNull,
                    Constraint::Check(bin(ident("flag"), BinaryOperator::Equal, Expression::Bool(true))),
                ],
            },
            TableColumn {
                column_name: "n".to_string(),
                column_type: DBType::Int,
                constraints: vec![],
            },
        ],
    });
}

#[test]
fn statement_errors() {
    let failing = [
        "",
        "DROP TABLE t;",
        "CREATE t (a INT);",
        "SELECT a t;",
        "SELECT a FROM 5;",
        "SELECT a FROM t",
        "SELECT a FROM t ORDER a;",
        "SELECT (a FROM t;",
        "SELECT FROM t;",
        "CREATE TABLE t (a INT PRIMARY);",
        "CREATE TABLE t (a INT NOT);",
        "CREATE TABLE t (a VARCHAR);",
        "CREATE TABLE t (a VARCHAR(x));",
        "CREATE TABLE t (a VARCHAR(0));",
        "CREATE TABLE t (a FLOAT);",
        "CREATE TABLE t (a INT;",
        "CREATE TABLE t (5 INT);",
        "CREATE TABLE (a INT);",
        "CREATE TABLE t (a INT)",
    ];
    for input in failing {
        assert!(Parser::new(input).parse_statement().is_err(), "{}", input);
    }
}

#[test]
fn trailing_input_is_not_read() {
    let mut parser = Parser::new("SELECT a FROM t; @@@");
    assert!(parser.parse_statement().is_ok());
}

#[test]
fn varchar_size_must_be_positive() {
    let err = Parser::new("CREATE TABLE t (a VARCHAR(0));").parse_statement();
    assert_eq!(err, Err("Expected a positive VARCHAR size".to_string()));
    let ok = Parser::new("CREATE TABLE t (a VARCHAR(1));").parse_statement().unwrap();
    assert_eq!(ok, Statement::CreateTable {
        table_name: "t".to_string(),
        column_list: vec![TableColumn {
            column_name: "a".to_string(),
            column_type: DBType::Varchar(1),
            constraints: vec![],
        }],
    });
}

#[test]
fn invalid_token_before_semicolon_fails_after_it_is_ignored() {
    assert!(Parser::new("SELECT a FROM t WHERE a > 99999999999999999999;").parse_statement().is_err());
    assert!(Parser::new("SELECT a FROM t WHERE a = 'x").parse_statement().is_err());
    assert!(Parser::new("SELECT a FROM t; 'unterminated").parse_statement().is_ok());
}
