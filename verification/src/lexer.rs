//! The scanner: a cursor over a character buffer that produces one token per
//! call, skipping whitespace, disambiguating the two-character operators with
//! one character of lookahead, and consuming identifier and integer runs.
//!
//! The whole behaviour of a call is captured by the specification function
//! [`scan_token`], and `Lexer::next_token` is proved to return exactly the
//! token it describes and to leave the cursor exactly where it says.

use vstd::prelude::*;
use vstd::string::*;

use crate::token::{spec_lookup_identifier, Token, TokenKind, TokenModel};

verus! {

/// The one way a call of `next_token` can fail.
#[derive(Clone, Copy, Debug, PartialEq, Eq, Structural)]
pub enum TokenParsingError {
    /// The current character matches no fixed token, does not begin an
    /// identifier, and does not begin an integer literal.
    UnknownToken,
}

/// The character the cursor sees at index `i`: the buffer's character while
/// `i` is in range, and the sentinel once the input is exhausted.
pub open spec fn char_at(s: Seq<char>, i: int) -> char {
    if 0 <= i < s.len() {
        s[i]
    } else {
        '\x00'
    }
}

/// The whitespace the scanner skips: space, tab, newline, carriage return.
pub open spec fn is_whitespace_char(c: char) -> bool {
    c == ' ' || c == '\t' || c == '\n' || c == '\r'
}

/// The characters that may form an identifier run: ASCII letters and the
/// underscore.
pub open spec fn is_letter_char(c: char) -> bool {
    let u = c as u32;
    (('a' as u32) <= u && u <= ('z' as u32)) || (('A' as u32) <= u && u <= ('Z' as u32)) || c
        == '_'
}

/// The characters that may form an integer run: the decimal digits.
pub open spec fn is_digit_char(c: char) -> bool {
    let u = c as u32;
    ('0' as u32) <= u && u <= ('9' as u32)
}

/// The index of the first non-whitespace character at or after `i`, or the
/// buffer's length if only whitespace remains.
pub open spec fn whitespace_end(s: Seq<char>, i: int) -> int
    decreases s.len() - i,
{
    if 0 <= i < s.len() && is_whitespace_char(s[i]) {
        whitespace_end(s, i + 1)
    } else {
        i
    }
}

/// The index one past the letter run that starts at `i`: the first index at
/// or after `i` holding no letter.
pub open spec fn letter_run_end(s: Seq<char>, i: int) -> int
    decreases s.len() - i,
{
    if 0 <= i < s.len() && is_letter_char(s[i]) {
        letter_run_end(s, i + 1)
    } else {
        i
    }
}

/// The index one past the digit run that starts at `i`.
pub open spec fn digit_run_end(s: Seq<char>, i: int) -> int
    decreases s.len() - i,
{
    if 0 <= i < s.len() && is_digit_char(s[i]) {
        digit_run_end(s, i + 1)
    } else {
        i
    }
}

/// What one call of `next_token` does on buffer `s` with the cursor at
/// `pos`: the token or error it produces, and the index the cursor stands at
/// afterwards.
///
/// Whitespace is skipped first. A fixed character maps to its kind with the
/// one-character literal; `=` and `!` look one character ahead for `==` and
/// `!=`; the sentinel yields the end-of-input token with an empty literal; a
/// letter or digit begins a run whose full extent is the literal; anything
/// else is the unrecognized-character error, and the cursor still moves past
/// the offending character.
pub open spec fn scan_token(s: Seq<char>, pos: int) -> (Result<TokenModel, TokenParsingError>, int) {
    let i = whitespace_end(s, pos);
    let c = char_at(s, i);
    if c == '=' && char_at(s, i + 1) == '=' {
        (Ok(TokenModel { kind: TokenKind::Eq, literal: s.subrange(i, i + 2) }), i + 2)
    } else if c == '=' {
        (Ok(TokenModel { kind: TokenKind::Assign, literal: s.subrange(i, i + 1) }), i + 1)
    } else if c == '+' {
        (Ok(TokenModel { kind: TokenKind::Plus, literal: s.subrange(i, i + 1) }), i + 1)
    } else if c == '-' {
        (Ok(TokenModel { kind: TokenKind::Minus, literal: s.subrange(i, i + 1) }), i + 1)
    } else if c == '!' && char_at(s, i + 1) == '=' {
        (Ok(TokenModel { kind: TokenKind::NotEq, literal: s.subrange(i, i + 2) }), i + 2)
    } else if c == '!' {
        (Ok(TokenModel { kind: TokenKind::Bang, literal: s.subrange(i, i + 1) }), i + 1)
    } else if c == '/' {
        (Ok(TokenModel { kind: TokenKind::Slash, literal: s.subrange(i, i + 1) }), i + 1)
    } else if c == '*' {
        (Ok(TokenModel { kind: TokenKind::Asterisk, literal: s.subrange(i, i + 1) }), i + 1)
    } else if c == '<' {
        (Ok(TokenModel { kind: TokenKind::Lt, literal: s.subrange(i, i + 1) }), i + 1)
    } else if c == '>' {
        (Ok(TokenModel { kind: TokenKind::Gt, literal: s.subrange(i, i + 1) }), i + 1)
    } else if c == ';' {
        (Ok(TokenModel { kind: TokenKind::Semicolon, literal: s.subrange(i, i + 1) }), i + 1)
    } else if c == '(' {
        (Ok(TokenModel { kind: TokenKind::LParen, literal: s.subrange(i, i + 1) }), i + 1)
    } else if c == ')' {
        (Ok(TokenModel { kind: TokenKind::RParen, literal: s.subrange(i, i + 1) }), i + 1)
    } else if c == ',' {
        (Ok(TokenModel { kind: TokenKind::Comma, literal: s.subrange(i, i + 1) }), i + 1)
    } else if c == '{' {
        (Ok(TokenModel { kind: TokenKind::LBrace, literal: s.subrange(i, i + 1) }), i + 1)
    } else if c == '}' {
        (Ok(TokenModel { kind: TokenKind::RBrace, literal: s.subrange(i, i + 1) }), i + 1)
    } else if c == '\x00' {
        (
            Ok(TokenModel { kind: TokenKind::Eof, literal: Seq::<char>::empty() }),
            if i + 1 <= s.len() {
                i + 1
            } else {
                s.len() as int
            },
        )
    } else if is_letter_char(c) {
        let j = letter_run_end(s, i);
        (
            Ok(
                TokenModel {
                    kind: spec_lookup_identifier(s.subrange(i, j)),
                    literal: s.subrange(i, j),
                },
            ),
            j,
        )
    } else if is_digit_char(c) {
        let j = digit_run_end(s, i);
        (Ok(TokenModel { kind: TokenKind::Int, literal: s.subrange(i, j) }), j)
    } else {
        (Err(TokenParsingError::UnknownToken), i + 1)
    }
}

/// Where whitespace skipping stops: no earlier than it started, no later
/// than the buffer's end, on a non-whitespace character, with nothing but
/// whitespace before it.
pub proof fn lemma_whitespace_end_props(s: Seq<char>, i: int)
    requires
        0 <= i <= s.len(),
    ensures
        i <= whitespace_end(s, i) <= s.len(),
        !is_whitespace_char(char_at(s, whitespace_end(s, i))),
        forall|k: int| i <= k < whitespace_end(s, i) ==> is_whitespace_char(s[k]),
    decreases s.len() - i,
{
    if i < s.len() && is_whitespace_char(s[i]) {
        lemma_whitespace_end_props(s, i + 1);
    }
}

/// Where a letter run ends: no earlier than it started, no later than the
/// buffer's end, on a non-letter, with nothing but letters before it.
pub proof fn lemma_letter_run_end_props(s: Seq<char>, i: int)
    requires
        0 <= i <= s.len(),
    ensures
        i <= letter_run_end(s, i) <= s.len(),
        !is_letter_char(char_at(s, letter_run_end(s, i))),
        forall|k: int| i <= k < letter_run_end(s, i) ==> is_letter_char(s[k]),
    decreases s.len() - i,
{
    if i < s.len() && is_letter_char(s[i]) {
        lemma_letter_run_end_props(s, i + 1);
    }
}

/// Where a digit run ends: no earlier than it started, no later than the
/// buffer's end, on a non-digit, with nothing but digits before it.
pub proof fn lemma_digit_run_end_props(s: Seq<char>, i: int)
    requires
        0 <= i <= s.len(),
    ensures
        i <= digit_run_end(s, i) <= s.len(),
        !is_digit_char(char_at(s, digit_run_end(s, i))),
        forall|k: int| i <= k < digit_run_end(s, i) ==> is_digit_char(s[k]),
    decreases s.len() - i,
{
    if i < s.len() && is_digit_char(s[i]) {
        lemma_digit_run_end_props(s, i + 1);
    }
}

/// A stretch of letters with a non-letter just past it is exactly what a
/// letter run consumes: the run that starts at its first character ends at
/// its terminator.
pub proof fn lemma_letter_run_end_at(s: Seq<char>, i: int, j: int)
    requires
        0 <= i <= j <= s.len(),
        forall|k: int| i <= k < j ==> is_letter_char(s[k]),
        !is_letter_char(char_at(s, j)),
    ensures
        letter_run_end(s, i) == j,
    decreases j - i,
{
    if i < j {
        assert(is_letter_char(s[i]));
        lemma_letter_run_end_at(s, i + 1, j);
    }
}

/// The digit-run counterpart of `lemma_letter_run_end_at`.
pub proof fn lemma_digit_run_end_at(s: Seq<char>, i: int, j: int)
    requires
        0 <= i <= j <= s.len(),
        forall|k: int| i <= k < j ==> is_digit_char(s[k]),
        !is_digit_char(char_at(s, j)),
    ensures
        digit_run_end(s, i) == j,
    decreases j - i,
{
    if i < j {
        assert(is_digit_char(s[i]));
        lemma_digit_run_end_at(s, i + 1, j);
    }
}

/// The scanner: the input buffer and a cursor of three fields over it.
pub struct Lexer {
    input: String,
    position: usize,
    read_position: usize,
    character: char,
}

impl Lexer {
    /// The characters of the input buffer.
    pub closed spec fn buffer(&self) -> Seq<char> {
        self.input@
    }

    /// The index of the character the cursor currently examines; the
    /// buffer's length once the input is exhausted.
    pub closed spec fn cursor(&self) -> int {
        self.position as int
    }

    /// The cursor's well-formedness: the current position never passes the
    /// end of the buffer, the read position is one past it until the input is
    /// exhausted, and the current character is the one the buffer holds
    /// there, or the sentinel at the end.
    pub closed spec fn wf(&self) -> bool {
        let s = self.input@;
        let p = self.position as int;
        &&& p <= s.len()
        &&& (p < s.len() ==> self.read_position as int == p + 1)
        &&& (p == s.len() ==> self.read_position as int == p)
        &&& self.character == char_at(s, p)
    }

    /// Builds a scanner over the whole input buffer, with the cursor on the
    /// first character.
    pub fn new(input: String) -> (lexer: Lexer)
        ensures
            lexer.wf(),
            lexer.buffer() == input@,
            lexer.cursor() == 0,
    {
        let mut lexer = Lexer { input, position: 0, read_position: 0, character: '\x00' };
        lexer.read_char();
        lexer
    }

    /// Advances the cursor by one character: the character at the read
    /// position becomes current, or the sentinel once the input is
    /// exhausted, and both indices are clamped to the buffer's end.
    fn read_char(&mut self)
        ensures
            final(self).input == old(self).input,
            (old(self).read_position as int) < old(self).input@.len() ==> {
                &&& final(self).position == old(self).read_position
                &&& final(self).read_position as int == old(self).read_position as int + 1
            },
            (old(self).read_position as int) >= old(self).input@.len() ==> {
                &&& final(self).position as int == old(self).input@.len()
                &&& final(self).read_position as int == old(self).input@.len()
            },
            final(self).character == char_at(old(self).input@, final(self).position as int),
            final(self).wf(),
    {
        let len = self.input.as_str().unicode_len();
        if self.read_position >= len {
            self.character = '\x00';
            self.position = len;
            self.read_position = len;
        } else {
            self.character = self.input.as_str().get_char(self.read_position);
            self.position = self.read_position;
            self.read_position = self.read_position + 1;
        }
    }

    /// Steps the cursor back onto the last character of a run that the
    /// consuming loop overshot, so that the canonical one-character advance
    /// that ends `next_token` lands on the character that terminated the
    /// run. The current character is left as it stands: it is the one at the
    /// new read position.
    fn revert_position(&mut self)
        requires
            old(self).position >= 1,
        ensures
            final(self).input == old(self).input,
            final(self).position as int == old(self).position as int - 1,
            final(self).read_position == old(self).position,
            final(self).character == old(self).character,
    {
        self.read_position = self.position;
        self.position = self.position - 1;
    }

    /// The character at the read position, without moving the cursor;
    /// the sentinel once the read position passes the end.
    fn peek_char(&self) -> (c: char)
        ensures
            c == char_at(self.input@, self.read_position as int),
    {
        let len = self.input.as_str().unicode_len();
        if self.read_position >= len {
            '\x00'
        } else {
            self.input.as_str().get_char(self.read_position)
        }
    }

    /// Whether the current character may stand in an identifier run.
    fn is_letter(&self) -> (r: bool)
        ensures
            r == is_letter_char(self.character),
    {
        let u = self.character as u32;
        (('a' as u32) <= u && u <= ('z' as u32)) || (('A' as u32) <= u && u <= ('Z' as u32))
            || self.character == '_'
    }

    /// Whether the current character is a decimal digit.
    fn is_digit(&self) -> (r: bool)
        ensures
            r == is_digit_char(self.character),
    {
        let u = self.character as u32;
        ('0' as u32) <= u && u <= ('9' as u32)
    }

    /// Copies the characters of the buffer between two indices into a fresh
    /// string, for a fixed token's literal.
    fn slice_literal(&self, from: usize, to: usize) -> (lit: String)
        requires
            from <= to,
            to as int <= self.input@.len(),
        ensures
            lit@ == self.input@.subrange(from as int, to as int),
    {
        String::from_str(self.input.as_str().substring_char(from, to))
    }

    /// Produces the next token and advances the cursor past it, exactly as
    /// [`scan_token`] describes: after any whitespace, a fixed character (or
    /// pair, for `==` and `!=`) becomes its token, a letter begins an
    /// identifier run handed to the keyword classifier, a digit begins an
    /// integer run, the sentinel becomes the end-of-input token, and any
    /// other character is the unrecognized-character error. Once the input
    /// is exhausted, every further call returns the end-of-input token
    /// again.
    pub fn next_token(&mut self) -> (r: Result<Token, TokenParsingError>)
        requires
            old(self).wf(),
        ensures
            final(self).wf(),
            final(self).buffer() == old(self).buffer(),
            final(self).cursor() == scan_token(old(self).buffer(), old(self).cursor()).1,
            match (r, scan_token(old(self).buffer(), old(self).cursor()).0) {
                (Ok(t), Ok(model)) => t@ == model,
                (Err(e), Err(err)) => e == err,
                _ => false,
            },
    {
        self.skip_whitespace();
        let ghost s = self.input@;
        let ghost i = self.position as int;
        proof {
            lemma_whitespace_end_props(s, old(self).position as int);
        }
        let start = self.position;
        let result: Result<Token, TokenParsingError>;
        if self.character == '=' {
            if self.peek_char() == '=' {
                self.read_char();
                result = Ok(Token::new(TokenKind::Eq, self.slice_literal(start, start + 2)));
            } else {
                result = Ok(Token::new(TokenKind::Assign, self.slice_literal(start, start + 1)));
            }
        } else if self.character == '+' {
            result = Ok(Token::new(TokenKind::Plus, self.slice_literal(start, start + 1)));
        } else if self.character == '-' {
            result = Ok(Token::new(TokenKind::Minus, self.slice_literal(start, start + 1)));
        } else if self.character == '!' {
            if self.peek_char() == '=' {
                self.read_char();
                result = Ok(Token::new(TokenKind::NotEq, self.slice_literal(start, start + 2)));
            } else {
                result = Ok(Token::new(TokenKind::Bang, self.slice_literal(start, start + 1)));
            }
        } else if self.character == '/' {
            result = Ok(Token::new(TokenKind::Slash, self.slice_literal(start, start + 1)));
        } else if self.character == '*' {
            result = Ok(Token::new(TokenKind::Asterisk, self.slice_literal(start, start + 1)));
        } else if self.character == '<' {
            result = Ok(Token::new(TokenKind::Lt, self.slice_literal(start, start + 1)));
        } else if self.character == '>' {
            result = Ok(Token::new(TokenKind::Gt, self.slice_literal(start, start + 1)));
        } else if self.character == ';' {
            result = Ok(Token::new(TokenKind::Semicolon, self.slice_literal(start, start + 1)));
        } else if self.character == '(' {
            result = Ok(Token::new(TokenKind::LParen, self.slice_literal(start, start + 1)));
        } else if self.character == ')' {
            result = Ok(Token::new(TokenKind::RParen, self.slice_literal(start, start + 1)));
        } else if self.character == ',' {
            result = Ok(Token::new(TokenKind::Comma, self.slice_literal(start, start + 1)));
        } else if self.character == '{' {
            result = Ok(Token::new(TokenKind::LBrace, self.slice_literal(start, start + 1)));
        } else if self.character == '}' {
            result = Ok(Token::new(TokenKind::RBrace, self.slice_literal(start, start + 1)));
        } else if self.character == '\x00' {
            result = Ok(Token::new(TokenKind::Eof, String::new()));
        } else if self.is_letter() {
            proof {
                lemma_letter_run_end_props(s, i);
            }
            let lit = self.read_identifier();
            let kind = Token::lookup_identifier(lit.as_str());
            result = Ok(Token::new(kind, lit));
        } else if self.is_digit() {
            proof {
                lemma_digit_run_end_props(s, i);
            }
            let lit = self.read_number();
            result = Ok(Token::new(TokenKind::Int, lit));
        } else {
            result = Err(TokenParsingError::UnknownToken);
        }
        self.read_char();
        result
    }

    /// Consumes the letter run that begins at the current character, through
    /// the first non-letter, and steps back onto the run's last character,
    /// so that the one-character advance that ends `next_token` lands on the
    /// character that terminated the run. Returns the run as a fresh string.
    fn read_identifier(&mut self) -> (lit: String)
        requires
            old(self).wf(),
            is_letter_char(old(self).character),
        ensures
            ({
                let s = old(self).input@;
                let i = old(self).position as int;
                let t = letter_run_end(s, i);
                &&& final(self).input == old(self).input
                &&& lit@ == s.subrange(i, t)
                &&& final(self).position as int == t - 1
                &&& final(self).read_position as int == t
                &&& final(self).character == char_at(s, t)
            }),
    {
        let ghost s = self.input@;
        let ghost start_idx = self.position as int;
        proof {
            lemma_letter_run_end_props(s, start_idx);
        }
        let start = self.position;
        while self.is_letter()
            invariant
                self.wf(),
                self.input == old(self).input,
                old(self).position <= self.position,
                letter_run_end(self.input@, self.position as int) == letter_run_end(
                    old(self).input@,
                    old(self).position as int,
                ),
            decreases self.input@.len() - self.position,
        {
            self.read_char();
        }
        let upper = self.position;
        self.revert_position();
        let lexeme = self.input.as_str().substring_char(start, upper);
        String::from_str(lexeme)
    }

    /// Consumes the digit run that begins at the current character, through
    /// the first non-digit, stepping back onto the run's last character as
    /// `read_identifier` does. Returns the run as a fresh string.
    fn read_number(&mut self) -> (lit: String)
        requires
            old(self).wf(),
            is_digit_char(old(self).character),
        ensures
            ({
                let s = old(self).input@;
                let i = old(self).position as int;
                let t = digit_run_end(s, i);
                &&& final(self).input == old(self).input
                &&& lit@ == s.subrange(i, t)
                &&& final(self).position as int == t - 1
                &&& final(self).read_position as int == t
                &&& final(self).character == char_at(s, t)
            }),
    {
        let ghost s = self.input@;
        let ghost start_idx = self.position as int;
        proof {
            lemma_digit_run_end_props(s, start_idx);
        }
        let start = self.position;
        while self.is_digit()
            invariant
                self.wf(),
                self.input == old(self).input,
                old(self).position <= self.position,
                digit_run_end(self.input@, self.position as int) == digit_run_end(
                    old(self).input@,
                    old(self).position as int,
                ),
            decreases self.input@.len() - self.position,
        {
            self.read_char();
        }
        let upper = self.position;
        self.revert_position();
        let lexeme = self.input.as_str().substring_char(start, upper);
        String::from_str(lexeme)
    }

    /// Advances the cursor one character at a time until a non-whitespace
    /// character or the sentinel is current.
    fn skip_whitespace(&mut self)
        requires
            old(self).wf(),
        ensures
            final(self).wf(),
            final(self).input == old(self).input,
            final(self).position as int == whitespace_end(
                old(self).input@,
                old(self).position as int,
            ),
    {
        while self.character == ' ' || self.character == '\t' || self.character == '\n'
            || self.character == '\r'
            invariant
                self.wf(),
                self.input == old(self).input,
                whitespace_end(self.input@, self.position as int) == whitespace_end(
                    old(self).input@,
                    old(self).position as int,
                ),
            decreases self.input@.len() - self.position,
        {
            self.read_char();
        }
    }
}

} // verus!
