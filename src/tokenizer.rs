use vstd::prelude::*;

use crate::text::{
    alphanumeric, chars_of, is_alphanumeric, is_whitespace, string_from_chars, to_uppercase,
    upper_of, white_space,
};
use crate::token::{keyword_of, lookup_keyword, Token, TokenView};

verus! {

pub open spec fn is_digit(c: char) -> bool {
    '0' <= c <= '9'
}

/// A character that may start an identifier or keyword.
pub open spec fn starts_word(c: char) -> bool {
    ('a' <= c <= 'z') || ('A' <= c <= 'Z') || c == '_'
}

/// A character that may continue an identifier or keyword.
pub open spec fn continues_word(c: char) -> bool {
    alphanumeric(c) || c == '_'
}

/// The first index at or after `i` that does not hold whitespace.
pub open spec fn skip_ws(s: Seq<char>, i: int) -> int
    decreases s.len() - i,
{
    if 0 <= i < s.len() && white_space(s[i]) {
        skip_ws(s, i + 1)
    } else {
        i
    }
}

/// The first index at or after `i` that does not hold a decimal digit.
pub open spec fn digits_end(s: Seq<char>, i: int) -> int
    decreases s.len() - i,
{
    if 0 <= i < s.len() && is_digit(s[i]) {
        digits_end(s, i + 1)
    } else {
        i
    }
}

/// The first index at or after `i` that cannot continue a word.
pub open spec fn word_end(s: Seq<char>, i: int) -> int
    decreases s.len() - i,
{
    if 0 <= i < s.len() && continues_word(s[i]) {
        word_end(s, i + 1)
    } else {
        i
    }
}

/// The first index at or after `i` that holds `q`, or the length if none does.
pub open spec fn quote_end(s: Seq<char>, i: int, q: char) -> int
    decreases s.len() - i,
{
    if 0 <= i < s.len() && s[i] != q {
        quote_end(s, i + 1, q)
    } else {
        i
    }
}

/// The value of a sequence of decimal digits.
pub open spec fn digits_value(d: Seq<char>) -> nat
    decreases d.len(),
{
    if d.len() == 0 {
        0
    } else {
        digits_value(d.drop_last()) * 10 + (d.last() as nat - '0' as nat) as nat
    }
}

/// The token of a character that stands alone, or `Invalid` for one that starts no token.
pub open spec fn single_token(c: char) -> TokenView {
    if c == '(' {
        TokenView::LeftParentheses
    } else if c == ')' {
        TokenView::RightParentheses
    } else if c == ',' {
        TokenView::Comma
    } else if c == ';' {
        TokenView::Semicolon
    } else if c == '*' {
        TokenView::Star
    } else if c == '/' {
        TokenView::Divide
    } else if c == '-' {
        TokenView::Minus
    } else if c == '+' {
        TokenView::Plus
    } else if c == '=' {
        TokenView::Equal
    } else if c == '>' {
        TokenView::GreaterThan
    } else if c == '<' {
        TokenView::LessThan
    } else {
        TokenView::Invalid(c)
    }
}

/// The token of `c` when an `=` follows it, if the pair forms one.
pub open spec fn or_equal_token(c: char) -> Option<TokenView> {
    if c == '>' {
        Some(TokenView::GreaterThanOrEqual)
    } else if c == '<' {
        Some(TokenView::LessThanOrEqual)
    } else if c == '!' {
        Some(TokenView::NotEqual)
    } else {
        None
    }
}

/// The token of the word `w`: a keyword if its upper-case form is one, else an identifier.
pub open spec fn word_token(w: Seq<char>) -> TokenView {
    match keyword_of(upper_of(w)) {
        Some(k) => TokenView::Keyword(k),
        None => TokenView::Identifier(w),
    }
}

/// One step of the scanner from index `p` of `s`: the next token and the index after it,
/// or `None` when only whitespace is left.
pub open spec fn lex_step(s: Seq<char>, p: int) -> Option<(TokenView, int)> {
    let i = skip_ws(s, p);
    if i >= s.len() {
        None
    } else {
        let c = s[i];
        if is_digit(c) {
            let e = digits_end(s, i + 1);
            let v = digits_value(s.subrange(i, e));
            if v <= u64::MAX {
                Some((TokenView::Number(v as u64), e))
            } else {
                Some((TokenView::Invalid(c), e))
            }
        } else if starts_word(c) {
            let e = word_end(s, i + 1);
            Some((word_token(s.subrange(i, e)), e))
        } else if c == '\'' || c == '"' {
            let e = quote_end(s, i + 1, c);
            if e < s.len() {
                Some((TokenView::String(s.subrange(i + 1, e)), e + 1))
            } else {
                Some((TokenView::Invalid(c), e))
            }
        } else if or_equal_token(c) is Some && i + 1 < s.len() && s[i + 1] == '=' {
            Some((or_equal_token(c)->0, i + 2))
        } else {
            Some((single_token(c), i + 1))
        }
    }
}

/// All tokens of `s` from index `p` on.
pub open spec fn lex_all(s: Seq<char>, p: int) -> Seq<TokenView>
    decreases s.len() - p,
{
    match lex_step(s, p) {
        Some((t, q)) => if p < q <= s.len() {
            seq![t] + lex_all(s, q)
        } else {
            seq![]
        },
        None => seq![],
    }
}

proof fn lemma_skip_ws(s: Seq<char>, i: int)
    requires
        0 <= i <= s.len(),
    ensures
        i <= skip_ws(s, i) <= s.len(),
    decreases s.len() - i,
{
    if i < s.len() && white_space(s[i]) {
        lemma_skip_ws(s, i + 1);
    }
}

proof fn lemma_digits_end(s: Seq<char>, i: int)
    requires
        0 <= i <= s.len(),
    ensures
        i <= digits_end(s, i) <= s.len(),
        forall|j: int| i <= j < digits_end(s, i) ==> is_digit(#[trigger] s[j]),
    decreases s.len() - i,
{
    if i < s.len() && is_digit(s[i]) {
        lemma_digits_end(s, i + 1);
    }
}

proof fn lemma_word_end(s: Seq<char>, i: int)
    requires
        0 <= i <= s.len(),
    ensures
        i <= word_end(s, i) <= s.len(),
    decreases s.len() - i,
{
    if i < s.len() && continues_word(s[i]) {
        lemma_word_end(s, i + 1);
    }
}

proof fn lemma_quote_end(s: Seq<char>, i: int, q: char)
    requires
        0 <= i <= s.len(),
    ensures
        i <= quote_end(s, i, q) <= s.len(),
        forall|j: int| i <= j < quote_end(s, i, q) ==> #[trigger] s[j] != q,
        quote_end(s, i, q) < s.len() ==> s[quote_end(s, i, q)] == q,
    decreases s.len() - i,
{
    if i < s.len() && s[i] != q {
        lemma_quote_end(s, i + 1, q);
    }
}

/// A step of the scanner moves forward, stays within the input, and never yields `Eof`.
pub proof fn lemma_step_advances(s: Seq<char>, p: int)
    requires
        0 <= p <= s.len(),
    ensures
        lex_step(s, p) matches Some((t, q)) ==> p < q <= s.len() && t !is Eof,
        lex_step(s, p) is None ==> skip_ws(s, p) == s.len(),
{
    lemma_skip_ws(s, p);
    let i = skip_ws(s, p);
    if i < s.len() {
        lemma_digits_end(s, i + 1);
        lemma_word_end(s, i + 1);
        lemma_quote_end(s, i + 1, s[i]);
    }
}

/// The tokens of `s` from `p` on: the first step's token, then the rest.
pub proof fn lemma_lex_all_unfold(s: Seq<char>, p: int)
    requires
        0 <= p <= s.len(),
    ensures
        lex_step(s, p) matches Some((t, q)) ==> lex_all(s, p) == seq![t] + lex_all(s, q),
        lex_step(s, p) is None ==> lex_all(s, p) == Seq::<TokenView>::empty(),
        !lex_all(s, p).contains(TokenView::Eof),
    decreases s.len() - p,
{
    lemma_step_advances(s, p);
    if let Some((t, q)) = lex_step(s, p) {
        lemma_lex_all_unfold(s, q);
        assert(lex_all(s, p) == seq![t] + lex_all(s, q));
        assert(!lex_all(s, p).contains(TokenView::Eof)) by {
            if lex_all(s, p).contains(TokenView::Eof) {
                let k = choose|k: int| 0 <= k < lex_all(s, p).len() && lex_all(s, p)[k] == TokenView::Eof;
                if k > 0 {
                    assert(lex_all(s, q)[k - 1] == TokenView::Eof);
                }
            }
        }
    }
}

/// Scans a string into tokens, one at a time, front to back.
pub struct Tokenizer {
    input: Vec<char>,
    pos: usize,
}

impl Tokenizer {
    /// The characters being scanned.
    pub closed spec fn text(&self) -> Seq<char> {
        self.input@
    }

    /// The index of the next character to scan.
    pub closed spec fn position(&self) -> int {
        self.pos as int
    }

    pub closed spec fn wf(&self) -> bool {
        self.pos <= self.input@.len()
    }

    /// The tokens that are still to come.
    pub open spec fn remaining(&self) -> Seq<TokenView> {
        lex_all(self.text(), self.position())
    }

    pub fn new(input: &str) -> (t: Self)
        ensures
            t.wf(),
            t.text() == input@,
            t.position() == 0,
    {
        Tokenizer { input: chars_of(input), pos: 0 }
    }

    pub proof fn lemma_wf_bounds(&self)
        requires
            self.wf(),
        ensures
            0 <= self.position() <= self.text().len(),
    {
    }

    fn skip_whitespace(&mut self)
        requires
            old(self).wf(),
        ensures
            final(self).wf(),
            final(self).text() == old(self).text(),
            final(self).position() == skip_ws(old(self).text(), old(self).position()),
    {
        while self.pos < self.input.len() && is_whitespace(self.input[self.pos])
            invariant
                self.wf(),
                self.text() == old(self).text(),
                skip_ws(self.text(), self.position()) == skip_ws(old(self).text(), old(self).position()),
            decreases self.input.len() - self.pos,
        {
            self.pos = self.pos + 1;
        }
    }

    /// Scans the digits that follow `first_digit`, which was just consumed.
    fn read_number(&mut self, first_digit: char) -> (r: Token)
        requires
            old(self).wf(),
            is_digit(first_digit),
        ensures
            final(self).wf(),
            final(self).text() == old(self).text(),
            ({
                let s = old(self).text();
                let e = digits_end(s, old(self).position());
                let v = digits_value(seq![first_digit] + s.subrange(old(self).position(), e));
                &&& final(self).position() == e
                &&& r@ == if v <= u64::MAX {
                    TokenView::Number(v as u64)
                } else {
                    TokenView::Invalid(first_digit)
                }
            }),
    {
        let ghost s = self.input@;
        let start: usize = self.pos;
        let mut value: Option<u64> = Some(((first_digit as u32) - ('0' as u32)) as u64);
        proof {
            let d = seq![first_digit] + s.subrange(start as int, start as int);
            assert(d.drop_last() =~= Seq::<char>::empty());
            assert(d.last() == first_digit);
            assert(digits_value(d.drop_last()) == 0);
            assert(digits_value(d) == (first_digit as u32 - '0' as u32));
        }
        while self.pos < self.input.len() && '0' <= self.input[self.pos] && self.input[self.pos] <= '9'
            invariant
                self.wf(),
                self.input@ == s,
                s == old(self).input@,
                start == old(self).pos,
                start <= self.pos,
                digits_end(s, start as int) == digits_end(s, self.pos as int),
                value == (if digits_value(seq![first_digit] + s.subrange(start as int, self.pos as int))
                    <= u64::MAX {
                    Some(digits_value(seq![first_digit] + s.subrange(start as int, self.pos as int)) as u64)
                } else {
                    None::<u64>
                }),
            decreases self.input.len() - self.pos,
        {
            let c = self.input[self.pos];
            let d: u64 = ((c as u32) - ('0' as u32)) as u64;
            let ghost prev = digits_value(seq![first_digit] + s.subrange(start as int, self.pos as int));
            proof {
                let w = seq![first_digit] + s.subrange(start as int, self.pos + 1);
                assert(w.drop_last() =~= seq![first_digit] + s.subrange(start as int, self.pos as int));
                assert(digits_value(w) == prev * 10 + d);
            }
            value = match value {
                Some(v) => match v.checked_mul(10) {
                    Some(m) => m.checked_add(d),
                    None => None,
                },
                None => None,
            };
            self.pos = self.pos + 1;
        }
        match value {
            Some(n) => Token::Number(n),
            None => Token::Invalid(first_digit),
        }
    }

    /// Scans the rest of a word whose first character was just consumed.
    fn read_identifier_or_keyword(&mut self, first_char: char) -> (r: Token)
        requires
            old(self).wf(),
        ensures
            final(self).wf(),
            final(self).text() == old(self).text(),
            ({
                let s = old(self).text();
                let e = word_end(s, old(self).position());
                &&& final(self).position() == e
                &&& r@ == word_token(seq![first_char] + s.subrange(old(self).position(), e))
            }),
    {
        let ghost s = self.input@;
        let start: usize = self.pos;
        let mut word: Vec<char> = Vec::new();
        word.push(first_char);
        assert(word@ =~= seq![first_char] + s.subrange(start as int, start as int));
        while self.pos < self.input.len() && (is_alphanumeric(self.input[self.pos])
            || self.input[self.pos] == '_')
            invariant
                self.wf(),
                self.input@ == s,
                s == old(self).input@,
                start == old(self).pos,
                start <= self.pos,
                word_end(s, start as int) == word_end(s, self.pos as int),
                word@ == seq![first_char] + s.subrange(start as int, self.pos as int),
            decreases self.input.len() - self.pos,
        {
            word.push(self.input[self.pos]);
            self.pos = self.pos + 1;
            assert(word@ =~= seq![first_char] + s.subrange(start as int, self.pos as int));
        }
        let identifier = string_from_chars(&word);
        let upper = to_uppercase(identifier.as_str());
        let upper_chars = chars_of(upper.as_str());
        match lookup_keyword(&upper_chars) {
            Some(k) => Token::Keyword(k),
            None => Token::Identifier(identifier),
        }
    }

    /// Scans a quoted string whose opening quote was just consumed.
    fn read_string(&mut self, quote_char: char) -> (r: Token)
        requires
            old(self).wf(),
        ensures
            final(self).wf(),
            final(self).text() == old(self).text(),
            ({
                let s = old(self).text();
                let i = old(self).position();
                let e = quote_end(s, i, quote_char);
                if e < s.len() {
                    &&& final(self).position() == e + 1
                    &&& r@ == TokenView::String(s.subrange(i, e))
                } else {
                    &&& final(self).position() == e
                    &&& r@ == TokenView::Invalid(quote_char)
                }
            }),
    {
        let ghost s = self.input@;
        let start: usize = self.pos;
        let mut string: Vec<char> = Vec::new();
        while self.pos < self.input.len()
            invariant
                self.wf(),
                self.input@ == s,
                s == old(self).input@,
                start <= self.pos,
                start == old(self).pos,
                quote_end(s, start as int, quote_char) == quote_end(s, self.pos as int, quote_char),
                string@ == s.subrange(start as int, self.pos as int),
            decreases self.input.len() - self.pos,
        {
            let c = self.input[self.pos];
            if c == quote_char {
                assert(quote_end(s, self.pos as int, quote_char) == self.pos);
                self.pos = self.pos + 1;
                let r = Token::String(string_from_chars(&string));
                return r;
            }
            self.pos = self.pos + 1;
            string.push(c);
            assert(string@ =~= s.subrange(start as int, self.pos as int));
        }
        Token::Invalid(quote_char)
    }

    /// Scans the next token, or returns `None` when only whitespace is left.
    pub fn next(&mut self) -> (r: Option<Token>)
        requires
            old(self).wf(),
        ensures
            final(self).wf(),
            final(self).text() == old(self).text(),
            match lex_step(old(self).text(), old(self).position()) {
                Some((t, q)) => r matches Some(tok) && tok@ == t && final(self).position() == q,
                None => r is None && final(self).position() == old(self).text().len(),
            },
    {
        proof {
            lemma_skip_ws(self.input@, self.pos as int);
        }
        self.skip_whitespace();
        if self.pos >= self.input.len() {
            return None;
        }
        let next_char = self.input[self.pos];
        self.pos = self.pos + 1;
        proof {
            let s = self.input@;
            let p = self.pos as int;
            lemma_digits_end(s, p);
            lemma_word_end(s, p);
            assert(seq![next_char] + s.subrange(p, digits_end(s, p)) =~= s.subrange(p - 1, digits_end(s, p)));
            assert(seq![next_char] + s.subrange(p, word_end(s, p)) =~= s.subrange(p - 1, word_end(s, p)));
        }
        let token = if '0' <= next_char && next_char <= '9' {
            self.read_number(next_char)
        } else if ('a' <= next_char && next_char <= 'z') || ('A' <= next_char && next_char <= 'Z')
            || next_char == '_' {
            self.read_identifier_or_keyword(next_char)
        } else if next_char == '\'' || next_char == '"' {
            self.read_string(next_char)
        } else if next_char == '>' || next_char == '<' || next_char == '!' {
            if self.pos < self.input.len() && self.input[self.pos] == '=' {
                self.pos = self.pos + 1;
                if next_char == '>' {
                    Token::GreaterThanOrEqual
                } else if next_char == '<' {
                    Token::LessThanOrEqual
                } else {
                    Token::NotEqual
                }
            } else if next_char == '>' {
                Token::GreaterThan
            } else if next_char == '<' {
                Token::LessThan
            } else {
                Token::Invalid('!')
            }
        } else if next_char == '(' {
            Token::LeftParentheses
        } else if next_char == ')' {
            Token::RightParentheses
        } else if next_char == '=' {
            Token::Equal
        } else if next_char == '*' {
            Token::Star
        } else if next_char == '/' {
            Token::Divide
        } else if next_char == '-' {
            Token::Minus
        } else if next_char == '+' {
            Token::Plus
        } else if next_char == ',' {
            Token::Comma
        } else if next_char == ';' {
            Token::Semicolon
        } else {
            Token::Invalid(next_char)
        };
        Some(token)
    }

    /// Scans all the tokens that are left.
    pub fn collect(self) -> (r: Vec<Token>)
        requires
            self.wf(),
        ensures
            r@.map_values(|t: Token| t@) == self.remaining(),
    {
        let mut tokenizer = self;
        let mut tokens: Vec<Token> = Vec::new();
        loop
            invariant
                tokenizer.wf(),
                tokenizer.text() == self.text(),
                tokens@.map_values(|t: Token| t@) + tokenizer.remaining() == self.remaining(),
            decreases tokenizer.text().len() - tokenizer.position(),
        {
            proof {
                tokenizer.lemma_wf_bounds();
                lemma_lex_all_unfold(tokenizer.text(), tokenizer.position());
                lemma_step_advances(tokenizer.text(), tokenizer.position());
            }
            let ghost before = tokens@.map_values(|t: Token| t@);
            match tokenizer.next() {
                Some(t) => {
                    tokens.push(t);
                    assert(tokens@.map_values(|t: Token| t@) =~= before.push(tokens@.last()@));
                    assert(tokens@.map_values(|t: Token| t@) + tokenizer.remaining() =~= before
                        + (seq![tokens@.last()@] + tokenizer.remaining()));
                },
                None => {
                    assert(before + tokenizer.remaining() =~= before);
                    return tokens;
                },
            }
        }
    }
}

} // verus!
