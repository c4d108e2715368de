//! The lexer: scans a slice of characters into tokens, one call at a time.
//! Whitespace other than newlines is skipped; newlines are tokens of their
//! own and advance the line counter.

use vstd::prelude::*;
use crate::parser::error::Error;
use crate::parser::token::{Token, TokenType};

verus! {

/// Whether the character has the Unicode `Alphabetic` property.
pub uninterp spec fn is_alphabetic_c(c: char) -> bool;

/// Whether the character has the Unicode `White_Space` property.
pub uninterp spec fn is_whitespace_c(c: char) -> bool;

/// Whether the character is numeric under Unicode's `Numeric_Type`.
pub uninterp spec fn is_numeric_c(c: char) -> bool;

/// Relies on char::is_alphabetic: the answer depends on the character
/// alone.
#[verifier::external_body]
fn char_is_alphabetic(c: char) -> (r: bool)
    ensures
        r == is_alphabetic_c(c),
{
    c.is_alphabetic()
}

/// Relies on char::is_whitespace: the answer depends on the character
/// alone.
#[verifier::external_body]
fn char_is_whitespace(c: char) -> (r: bool)
    ensures
        r == is_whitespace_c(c),
{
    c.is_whitespace()
}

/// Relies on char::is_numeric: the answer depends on the character alone.
#[verifier::external_body]
fn char_is_numeric(c: char) -> (r: bool)
    ensures
        r == is_numeric_c(c),
{
    c.is_numeric()
}

/// Relies on String::push: appends the given character to the end of the
/// string.
pub assume_specification[ String::push ](s: &mut String, ch: char)
    ensures
        final(s)@ == old(s)@.push(ch),
;

/// Whether the character is one of the ten ASCII digits.
pub open spec fn is_ascii_digit_c(c: char) -> bool {
    48 <= c as u32 <= 57
}

/// Executable test for an ASCII digit.
fn is_ascii_digit(c: char) -> (r: bool)
    ensures
        r == is_ascii_digit_c(c),
{
    let u = c as u32;
    48 <= u && u <= 57
}

/// Whitespace the lexer discards: any whitespace but a newline.
pub open spec fn trim_cond(c: char) -> bool {
    c != '\n' && is_whitespace_c(c)
}

/// First position at or after `i` that is not discarded whitespace.
pub open spec fn ws_end(s: Seq<char>, i: nat) -> nat
    decreases s.len() - i,
{
    if i >= s.len() {
        i
    } else if trim_cond(s[i as int]) {
        ws_end(s, i + 1)
    } else {
        i
    }
}

/// First position at or after `i` that is not an ASCII digit.
pub open spec fn digit_end(s: Seq<char>, i: nat) -> nat
    decreases s.len() - i,
{
    if i >= s.len() {
        i
    } else if is_ascii_digit_c(s[i as int]) {
        digit_end(s, i + 1)
    } else {
        i
    }
}

/// First position at or after `i` that is not alphabetic.
pub open spec fn alpha_end(s: Seq<char>, i: nat) -> nat
    decreases s.len() - i,
{
    if i >= s.len() {
        i
    } else if is_alphabetic_c(s[i as int]) {
        alpha_end(s, i + 1)
    } else {
        i
    }
}

/// The token kind a reserved word scans to, if the word is reserved.
pub open spec fn keyword_type_s(w: Seq<char>) -> Option<TokenType> {
    if w == "let"@ {
        Some(TokenType::Let)
    } else if w == "true"@ {
        Some(TokenType::True)
    } else if w == "false"@ {
        Some(TokenType::False)
    } else if w == "print"@ {
        Some(TokenType::Print)
    } else if w == "or"@ {
        Some(TokenType::Or)
    } else if w == "and"@ {
        Some(TokenType::And)
    } else if w == "if"@ {
        Some(TokenType::If)
    } else if w == "else"@ {
        Some(TokenType::Else)
    } else if w == "for"@ {
        Some(TokenType::For)
    } else if w == "in"@ {
        Some(TokenType::In)
    } else {
        None
    }
}

/// The kind and length of the punctuation token starting at `j`, or `None`
/// when the character starts no token.
pub open spec fn symbol_token_s(s: Seq<char>, j: nat) -> Option<(TokenType, nat)> {
    let c = s[j as int];
    if c == '+' {
        Some((TokenType::Plus, 1nat))
    } else if c == '-' {
        Some((TokenType::Minus, 1nat))
    } else if c == '*' {
        Some((TokenType::Star, 1nat))
    } else if c == '/' {
        Some((TokenType::Slash, 1nat))
    } else if c == '=' {
        if j + 1 < s.len() && s[j as int + 1] == '=' {
            Some((TokenType::EqualsEquals, 2nat))
        } else {
            Some((TokenType::Equals, 1nat))
        }
    } else if c == '!' {
        if j + 1 < s.len() && s[j as int + 1] == '=' {
            Some((TokenType::BangEquals, 2nat))
        } else {
            Some((TokenType::Bang, 1nat))
        }
    } else if c == '<' {
        if j + 1 < s.len() && s[j as int + 1] == '=' {
            Some((TokenType::LessEquals, 2nat))
        } else {
            Some((TokenType::Less, 1nat))
        }
    } else if c == '>' {
        if j + 1 < s.len() && s[j as int + 1] == '=' {
            Some((TokenType::GreaterEquals, 2nat))
        } else {
            Some((TokenType::Greater, 1nat))
        }
    } else if c == '(' {
        Some((TokenType::LeftParen, 1nat))
    } else if c == ')' {
        Some((TokenType::RightParen, 1nat))
    } else if c == '[' {
        Some((TokenType::LeftSquareBracket, 1nat))
    } else if c == ']' {
        Some((TokenType::RightSquareBracket, 1nat))
    } else if c == '{' {
        Some((TokenType::LeftCurlyBracket, 1nat))
    } else if c == '}' {
        Some((TokenType::RightCurlyBracket, 1nat))
    } else if c == ',' {
        Some((TokenType::Comma, 1nat))
    } else if c == '.' {
        if j + 1 < s.len() && s[j as int + 1] == '.' {
            Some((TokenType::DotDot, 2nat))
        } else {
            Some((TokenType::Dot, 1nat))
        }
    } else if c == '\n' {
        Some((TokenType::Newline, 1nat))
    } else {
        None
    }
}

/// The message reported for a character that starts no token.
pub open spec fn unknown_msg(c: char) -> Seq<char> {
    "Unknown token '"@.push(c).push('\'')
}

/// A run of discarded whitespace over `[i0, i)` that stops at `i` ends the
/// whitespace scan exactly there.
proof fn lemma_ws_end(s: Seq<char>, i0: nat, i: nat)
    requires
        i0 <= i <= s.len(),
        forall|m: int| i0 <= m < i ==> trim_cond(#[trigger] s[m]),
        i == s.len() || !trim_cond(s[i as int]),
    ensures
        ws_end(s, i0) == i,
    decreases i - i0,
{
    if i0 < i {
        lemma_ws_end(s, i0 + 1, i);
    }
}

/// A run of ASCII digits over `[i0, i)` that stops at `i` ends the digit
/// scan exactly there.
proof fn lemma_digit_end(s: Seq<char>, i0: nat, i: nat)
    requires
        i0 <= i <= s.len(),
        forall|m: int| i0 <= m < i ==> is_ascii_digit_c(#[trigger] s[m]),
        i == s.len() || !is_ascii_digit_c(s[i as int]),
    ensures
        digit_end(s, i0) == i,
    decreases i - i0,
{
    if i0 < i {
        lemma_digit_end(s, i0 + 1, i);
    }
}

/// A run of alphabetic characters over `[i0, i)` that stops at `i` ends
/// the alphabetic scan exactly there.
proof fn lemma_alpha_end(s: Seq<char>, i0: nat, i: nat)
    requires
        i0 <= i <= s.len(),
        forall|m: int| i0 <= m < i ==> is_alphabetic_c(#[trigger] s[m]),
        i == s.len() || !is_alphabetic_c(s[i as int]),
    ensures
        alpha_end(s, i0) == i,
    decreases i - i0,
{
    if i0 < i {
        lemma_alpha_end(s, i0 + 1, i);
    }
}

/// The lexer: the characters being scanned, the scan position, and how
/// many newlines have been consumed.
pub struct Lexer<'a> {
    pub content: &'a [char],
    pub pos: usize,
    pub current_line: u64,
}

impl<'a> Lexer<'a> {
    /// The position is within the input and the line count cannot outrun
    /// it.
    pub open spec fn wf(&self) -> bool {
        self.pos <= self.content@.len() && self.current_line <= self.pos
    }

    /// A lexer at the start of the given characters.
    pub fn new(content: &'a [char]) -> (r: Self)
        ensures
            r.content@ == content@,
            r.pos == 0,
            r.current_line == 0,
            r.wf(),
    {
        Self { content, pos: 0, current_line: 0 }
    }

    /// The character `offset` places past the scan position, if any.
    fn peek(&self, offset: usize) -> (r: Option<char>)
        requires
            self.pos <= self.content@.len(),
        ensures
            r == (if self.pos + offset < self.content@.len() {
                Some(self.content@[self.pos + offset])
            } else {
                Option::<char>::None
            }),
    {
        let n = self.content.len();
        if offset < n - self.pos {
            Some(self.content[self.pos + offset])
        } else {
            None
        }
    }

    /// Takes the next `len` characters as a string and advances past them.
    fn chop(&mut self, len: usize) -> (r: String)
        requires
            old(self).pos + len <= old(self).content@.len(),
        ensures
            r@ == old(self).content@.subrange(
                old(self).pos as int,
                old(self).pos + len,
            ),
            final(self).content@ == old(self).content@,
            final(self).pos == old(self).pos + len,
            final(self).current_line == old(self).current_line,
    {
        let n = self.content.len();
        let mut lexeme = String::new();
        let mut k: usize = 0;
        while k < len
            invariant
                k <= len,
                n == self.content@.len(),
                self.pos + len <= n,
                self == old(self),
                lexeme@ == self.content@.subrange(self.pos as int, self.pos + k),
            decreases len - k,
        {
            lexeme.push(self.content[self.pos + k]);
            k = k + 1;
            proof {
                assert(lexeme@ =~= self.content@.subrange(self.pos as int, self.pos + k));
            }
        }
        self.pos = self.pos + len;
        lexeme
    }

    /// Scans either a one-character token or, when the next character
    /// matches, the two-character token.
    fn double_opt_token_helper(
        &mut self,
        token_type_single: TokenType,
        token_type_double: TokenType,
        next_char: char,
    ) -> (r: Result<Token, Error>)
        requires
            old(self).pos < old(self).content@.len(),
        ensures
            final(self).content@ == old(self).content@,
            final(self).current_line == old(self).current_line,
            ({
                let s = old(self).content@;
                let j = old(self).pos as int;
                if j + 1 < s.len() && s[j + 1] == next_char {
                    &&& r matches Ok(t)
                    &&& t.token_type == token_type_double
                    &&& t.lexeme@ == s.subrange(j, j + 2)
                    &&& final(self).pos == j + 2
                } else {
                    &&& r matches Ok(t)
                    &&& t.token_type == token_type_single
                    &&& t.lexeme@ == s.subrange(j, j + 1)
                    &&& final(self).pos == j + 1
                }
            }),
    {
        let matched = match self.peek(1) {
            Some(x) => x == next_char,
            None => false,
        };
        if matched {
            Ok(Token::new(token_type_double, self.chop(2)))
        } else {
            Ok(Token::new(token_type_single, self.chop(1)))
        }
    }

    /// Scans a maximal run of ASCII digits as an integer token.
    fn parse_number(&mut self) -> (r: (TokenType, String))
        requires
            old(self).pos <= old(self).content@.len(),
        ensures
            final(self).content@ == old(self).content@,
            final(self).current_line == old(self).current_line,
            old(self).pos <= final(self).pos <= old(self).content@.len(),
            r.0 == TokenType::Integer,
            ({
                let s = old(self).content@;
                let e = digit_end(s, old(self).pos as nat);
                final(self).pos == e && r.1@ == s.subrange(old(self).pos as int, e as int)
            }),
    {
        let s_len = self.content.len();
        let mut i: usize = 0;
        while self.pos + i < s_len && is_ascii_digit(self.content[self.pos + i])
            invariant
                self == old(self),
                self.pos + i <= self.content@.len(),
                s_len == self.content@.len(),
                forall|m: int|
                    self.pos <= m < self.pos + i ==> is_ascii_digit_c(#[trigger] self.content@[m]),
            decreases s_len - i,
        {
            i = i + 1;
        }
        proof {
            lemma_digit_end(self.content@, self.pos as nat, (self.pos + i) as nat);
        }
        (TokenType::Integer, self.chop(i))
    }

    /// The token kind of a reserved word, if the word is one.
    fn keyword_of(w: &String) -> (r: Option<TokenType>)
        ensures
            r == keyword_type_s(w@),
    {
        proof {
            reveal_strlit("let");
            reveal_strlit("true");
            reveal_strlit("false");
            reveal_strlit("print");
            reveal_strlit("or");
            reveal_strlit("and");
            reveal_strlit("if");
            reveal_strlit("else");
            reveal_strlit("for");
            reveal_strlit("in");
        }
        if w.eq(&"let".to_owned()) {
            Some(TokenType::Let)
        } else if w.eq(&"true".to_owned()) {
            Some(TokenType::True)
        } else if w.eq(&"false".to_owned()) {
            Some(TokenType::False)
        } else if w.eq(&"print".to_owned()) {
            Some(TokenType::Print)
        } else if w.eq(&"or".to_owned()) {
            Some(TokenType::Or)
        } else if w.eq(&"and".to_owned()) {
            Some(TokenType::And)
        } else if w.eq(&"if".to_owned()) {
            Some(TokenType::If)
        } else if w.eq(&"else".to_owned()) {
            Some(TokenType::Else)
        } else if w.eq(&"for".to_owned()) {
            Some(TokenType::For)
        } else if w.eq(&"in".to_owned()) {
            Some(TokenType::In)
        } else {
            None
        }
    }

    /// Scans the next token. Whitespace short of a newline is discarded
    /// first; at the end of the input there is no token. A maximal digit
    /// run scans as an integer, a maximal alphabetic run as a keyword or
    /// identifier, punctuation as itself (two-character operators eagerly),
    /// a newline as its own token, advancing the line counter; any other
    /// character is an error naming it.
    pub fn next_token(&mut self) -> (r: Option<Result<Token, Error>>)
        requires
            old(self).wf(),
        ensures
            final(self).wf(),
            final(self).content@ == old(self).content@,
            ({
                let s = old(self).content@;
                let j = ws_end(s, old(self).pos as nat);
                &&& (r is None <==> j >= s.len())
                &&& (r is None ==> final(self).pos == j && final(self).current_line == old(
                    self,
                ).current_line)
                &&& (j < s.len() ==> {
                    let c0 = s[j as int];
                    if is_numeric_c(c0) {
                        &&& r matches Some(Ok(t))
                        &&& t.token_type == TokenType::Integer
                        &&& t.lexeme@ == s.subrange(j as int, digit_end(s, j) as int)
                        &&& final(self).pos == digit_end(s, j)
                        &&& final(self).current_line == old(self).current_line
                    } else if is_alphabetic_c(c0) {
                        let w = s.subrange(j as int, alpha_end(s, j) as int);
                        &&& r matches Some(Ok(t))
                        &&& t.token_type == (match keyword_type_s(w) {
                            Some(k) => k,
                            None => TokenType::Identifier,
                        })
                        &&& t.lexeme@ == w
                        &&& final(self).pos == alpha_end(s, j)
                        &&& final(self).current_line == old(self).current_line
                    } else {
                        match symbol_token_s(s, j) {
                            Some(st) => {
                                &&& r matches Some(Ok(t))
                                &&& t.token_type == st.0
                                &&& t.lexeme@ == s.subrange(j as int, j + st.1 as int)
                                &&& final(self).pos == j + st.1 as int
                                &&& final(self).current_line == old(self).current_line + (
                                if st.0 is Newline {
                                    1int
                                } else {
                                    0int
                                })
                            },
                            None => {
                                &&& r matches Some(Err(e))
                                &&& e.message@ == unknown_msg(c0)
                                &&& final(self).pos == j + 1
                                &&& final(self).current_line == old(self).current_line
                            },
                        }
                    }
                })
            }),
    {
        let ghost s = self.content@;
        let ghost p0 = self.pos as nat;
        let s_len = self.content.len();
        while self.pos < s_len && self.content[self.pos] != '\n'
            && char_is_whitespace(self.content[self.pos])
            invariant
                self.content@ == s,
                self.pos <= s.len(),
                s_len == s.len(),
                self.current_line == old(self).current_line,
                self.current_line <= p0 <= self.pos,
                forall|m: int| p0 <= m < self.pos ==> trim_cond(#[trigger] s[m]),
            decreases s_len - self.pos,
        {
            self.pos = self.pos + 1;
        }
        proof {
            lemma_ws_end(s, p0, self.pos as nat);
        }

        if self.pos >= s_len {
            return None;
        }

        let c0 = self.content[self.pos];

        if char_is_numeric(c0) {
            let (token_type, num) = self.parse_number();
            return Some(Ok(Token::new(token_type, num)));
        }

        if char_is_alphabetic(c0) {
            let ghost j = self.pos as nat;
            let s_len2 = self.content.len();
            let mut i: usize = 0;
            while self.pos + i < s_len2 && char_is_alphabetic(self.content[self.pos + i])
                invariant
                    self.content@ == s,
                    self.pos + i <= s.len(),
                    s_len2 == s.len(),
                    self.pos == j,
                    forall|m: int|
                        self.pos <= m < self.pos + i ==> is_alphabetic_c(#[trigger] s[m]),
                decreases s_len2 - i,
            {
                i = i + 1;
            }
            proof {
                lemma_alpha_end(s, j, (self.pos + i) as nat);
            }
            let word = self.chop(i);
            let r = match Self::keyword_of(&word) {
                Some(keyword) => Some(Ok(Token::new(keyword, word))),
                None => Some(Ok(Token::new(TokenType::Identifier, word))),
            };
            return r;
        }

        match c0 {
            '+' => Some(Ok(Token::new(TokenType::Plus, self.chop(1)))),
            '-' => Some(Ok(Token::new(TokenType::Minus, self.chop(1)))),
            '*' => Some(Ok(Token::new(TokenType::Star, self.chop(1)))),
            '/' => Some(Ok(Token::new(TokenType::Slash, self.chop(1)))),
            '=' => Some(
                self.double_opt_token_helper(TokenType::Equals, TokenType::EqualsEquals, '='),
            ),
            '!' => Some(self.double_opt_token_helper(TokenType::Bang, TokenType::BangEquals, '=')),
            '<' => Some(self.double_opt_token_helper(TokenType::Less, TokenType::LessEquals, '=')),
            '>' => Some(
                self.double_opt_token_helper(TokenType::Greater, TokenType::GreaterEquals, '='),
            ),
            '(' => Some(Ok(Token::new(TokenType::LeftParen, self.chop(1)))),
            ')' => Some(Ok(Token::new(TokenType::RightParen, self.chop(1)))),
            '[' => Some(Ok(Token::new(TokenType::LeftSquareBracket, self.chop(1)))),
            ']' => Some(Ok(Token::new(TokenType::RightSquareBracket, self.chop(1)))),
            '{' => Some(Ok(Token::new(TokenType::LeftCurlyBracket, self.chop(1)))),
            '}' => Some(Ok(Token::new(TokenType::RightCurlyBracket, self.chop(1)))),
            ',' => Some(Ok(Token::new(TokenType::Comma, self.chop(1)))),
            '.' => Some(self.double_opt_token_helper(TokenType::Dot, TokenType::DotDot, '.')),
            '\n' => {
                self.current_line = self.current_line + 1;
                Some(Ok(Token::new(TokenType::Newline, self.chop(1))))
            },
            _ => {
                let lexeme = self.chop(1);
                let mut message = "Unknown token '".to_owned();
                message.push(c0);
                message.push('\'');
                Some(Err(Error::new(message)))
            },
        }
    }
}

} // verus!
