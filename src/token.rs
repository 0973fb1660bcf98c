use vstd::prelude::*;

verus! {

/// Reserved words; matched without regard to case.
#[derive(Debug, Clone, Copy, PartialEq, Eq, Structural)]
pub enum Keyword {
    Select,
    Create,
    Table,
    Where,
    Order,
    By,
    Asc,
    Desc,
    From,
    And,
    Or,
    Not,
    True,
    False,
    Primary,
    Key,
    Check,
    Int,
    Bool,
    Varchar,
    Null,
}

/// A lexical token.
#[derive(Debug, Clone, PartialEq)]
pub enum Token {
    Number(u64),
    String(String),
    Identifier(String),
    Keyword(Keyword),
    LeftParentheses,
    RightParentheses,
    Comma,
    Semicolon,
    Star,
    Divide,
    Minus,
    Plus,
    GreaterThan,
    GreaterThanOrEqual,
    LessThan,
    LessThanOrEqual,
    Equal,
    NotEqual,
    Eof,
    Invalid(char),
}

/// The mathematical value of a `Token`: text payloads become character sequences.
pub enum TokenView {
    Number(u64),
    String(Seq<char>),
    Identifier(Seq<char>),
    Keyword(Keyword),
    LeftParentheses,
    RightParentheses,
    Comma,
    Semicolon,
    Star,
    Divide,
    Minus,
    Plus,
    GreaterThan,
    GreaterThanOrEqual,
    LessThan,
    LessThanOrEqual,
    Equal,
    NotEqual,
    Eof,
    Invalid(char),
}

impl View for Token {
    type V = TokenView;

    open spec fn view(&self) -> TokenView {
        match self {
            Token::Number(n) => TokenView::Number(*n),
            Token::String(s) => TokenView::String(s@),
            Token::Identifier(s) => TokenView::Identifier(s@),
            Token::Keyword(k) => TokenView::Keyword(*k),
            Token::LeftParentheses => TokenView::LeftParentheses,
            Token::RightParentheses => TokenView::RightParentheses,
            Token::Comma => TokenView::Comma,
            Token::Semicolon => TokenView::Semicolon,
            Token::Star => TokenView::Star,
            Token::Divide => TokenView::Divide,
            Token::Minus => TokenView::Minus,
            Token::Plus => TokenView::Plus,
            Token::GreaterThan => TokenView::GreaterThan,
            Token::GreaterThanOrEqual => TokenView::GreaterThanOrEqual,
            Token::LessThan => TokenView::LessThan,
            Token::LessThanOrEqual => TokenView::LessThanOrEqual,
            Token::Equal => TokenView::Equal,
            Token::NotEqual => TokenView::NotEqual,
            Token::Eof => TokenView::Eof,
            Token::Invalid(c) => TokenView::Invalid(*c),
        }
    }
}

/// The keyword that an upper-cased word spells, if any.
pub open spec fn keyword_of(word: Seq<char>) -> Option<Keyword> {
    if word == "SELECT"@ {
        Some(Keyword::Select)
    } else if word == "CREATE"@ {
        Some(Keyword::Create)
    } else if word == "TABLE"@ {
        Some(Keyword::Table)
    } else if word == "WHERE"@ {
        Some(Keyword::Where)
    } else if word == "ORDER"@ {
        Some(Keyword::Order)
    } else if word == "BY"@ {
        Some(Keyword::By)
    } else if word == "ASC"@ {
        Some(Keyword::Asc)
    } else if word == "DESC"@ {
        Some(Keyword::Desc)
    } else if word == "FROM"@ {
        Some(Keyword::From)
    } else if word == "AND"@ {
        Some(Keyword::And)
    } else if word == "OR"@ {
        Some(Keyword::Or)
    } else if word == "NOT"@ {
        Some(Keyword::Not)
    } else if word == "TRUE"@ {
        Some(Keyword::True)
    } else if word == "FALSE"@ {
        Some(Keyword::False)
    } else if word == "PRIMARY"@ {
        Some(Keyword::Primary)
    } else if word == "KEY"@ {
        Some(Keyword::Key)
    } else if word == "CHECK"@ {
        Some(Keyword::Check)
    } else if word == "INT"@ {
        Some(Keyword::Int)
    } else if word == "BOOL"@ {
        Some(Keyword::Bool)
    } else if word == "VARCHAR"@ {
        Some(Keyword::Varchar)
    } else if word == "NULL"@ {
        Some(Keyword::Null)
    } else {
        None
    }
}

/// Whether `word` spells exactly the characters of `lit`.
fn spells(word: &Vec<char>, lit: &str) -> (r: bool)
    ensures
        r == (word@ == lit@),
{
    let n = lit.unicode_len();
    if word.len() != n {
        return false;
    }
    let mut i: usize = 0;
    while i < n
        invariant
            n == lit@.len(),
            word@.len() == n,
            i <= n,
            forall|j: int| 0 <= j < i ==> word@[j] == lit@[j],
        decreases n - i,
    {
        if word[i] != lit.get_char(i) {
            return false;
        }
        i = i + 1;
    }
    assert(word@ =~= lit@);
    true
}

/// Looks an upper-cased word up in the keyword table.
pub fn lookup_keyword(word: &Vec<char>) -> (r: Option<Keyword>)
    ensures
        r == keyword_of(word@),
{
    if spells(word, "SELECT") {
        Some(Keyword::Select)
    } else if spells(word, "CREATE") {
        Some(Keyword::Create)
    } else if spells(word, "TABLE") {
        Some(Keyword::Table)
    } else if spells(word, "WHERE") {
        Some(Keyword::Where)
    } else if spells(word, "ORDER") {
        Some(Keyword::Order)
    } else if spells(word, "BY") {
        Some(Keyword::By)
    } else if spells(word, "ASC") {
        Some(Keyword::Asc)
    } else if spells(word, "DESC") {
        Some(Keyword::Desc)
    } else if spells(word, "FROM") {
        Some(Keyword::From)
    } else if spells(word, "AND") {
        Some(Keyword::And)
    } else if spells(word, "OR") {
        Some(Keyword::Or)
    } else if spells(word, "NOT") {
        Some(Keyword::Not)
    } else if spells(word, "TRUE") {
        Some(Keyword::True)
    } else if spells(word, "FALSE") {
        Some(Keyword::False)
    } else if spells(word, "PRIMARY") {
        Some(Keyword::Primary)
    } else if spells(word, "KEY") {
        Some(Keyword::Key)
    } else if spells(word, "CHECK") {
        Some(Keyword::Check)
    } else if spells(word, "INT") {
        Some(Keyword::Int)
    } else if spells(word, "BOOL") {
        Some(Keyword::Bool)
    } else if spells(word, "VARCHAR") {
        Some(Keyword::Varchar)
    } else if spells(word, "NULL") {
        Some(Keyword::Null)
    } else {
        None
    }
}

} // verus!
