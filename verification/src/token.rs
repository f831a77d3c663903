//! Tokens and the keyword classifier.
//!
//! A token is an immutable pair of a kind (a closed enumeration) and a
//! literal (the exact source substring that produced it). The classifier
//! decides whether an identifier-like lexeme is a reserved word.

use vstd::prelude::*;
use vstd::string::*;

verus! {

/// The closed classification of a token.
#[derive(Clone, Copy, Debug, PartialEq, Eq, Structural)]
pub enum TokenKind {
    /// A character the scanner does not recognize.
    Illegal,
    /// End of input.
    Eof,
    /// A generic identifier.
    Ident,
    /// An integer literal.
    Int,
    /// `=`
    Assign,
    /// `+`
    Plus,
    /// `-`
    Minus,
    /// `!`
    Bang,
    /// `*`
    Asterisk,
    /// `/`
    Slash,
    /// `<`
    Lt,
    /// `>`
    Gt,
    /// `==`
    Eq,
    /// `!=`
    NotEq,
    /// `,`
    Comma,
    /// `;`
    Semicolon,
    /// `(`
    LParen,
    /// `)`
    RParen,
    /// `{`
    LBrace,
    /// `}`
    RBrace,
    /// `fn`
    Function,
    /// `let`
    Let,
    /// `true`
    True,
    /// `false`
    False,
    /// `if`
    If,
    /// `else`
    Else,
    /// `return`
    Return,
}

/// The mathematical value of a token: its kind and the characters of its
/// literal.
#[verifier::ext_equal]
pub struct TokenModel {
    /// The token's classification.
    pub kind: TokenKind,
    /// The characters of the literal.
    pub literal: Seq<char>,
}

/// An immutable (kind, literal) pair produced by the scanner.
#[derive(Debug)]
pub struct Token {
    /// The token's classification.
    pub kind: TokenKind,
    /// The exact source substring that produced the token.
    pub literal: String,
}

impl View for Token {
    type V = TokenModel;

    open spec fn view(&self) -> TokenModel {
        TokenModel { kind: self.kind, literal: self.literal@ }
    }
}

/// The kind a lexeme classifies as: the matching keyword kind where the
/// lexeme is one of the reserved words, and the generic identifier kind
/// otherwise.
pub open spec fn spec_lookup_identifier(lexeme: Seq<char>) -> TokenKind {
    if lexeme == "fn"@ {
        TokenKind::Function
    } else if lexeme == "let"@ {
        TokenKind::Let
    } else if lexeme == "true"@ {
        TokenKind::True
    } else if lexeme == "false"@ {
        TokenKind::False
    } else if lexeme == "if"@ {
        TokenKind::If
    } else if lexeme == "else"@ {
        TokenKind::Else
    } else if lexeme == "return"@ {
        TokenKind::Return
    } else {
        TokenKind::Ident
    }
}

/// Character-by-character string comparison, so that equality of lexemes is
/// itself verified code.
fn str_eq(a: &str, b: &str) -> (r: bool)
    ensures
        r == (a@ == b@),
{
    let a_len = a.unicode_len();
    let b_len = b.unicode_len();
    if a_len != b_len {
        assert(a@ != b@) by {
            assert(a@.len() != b@.len());
        }
        return false;
    }
    let mut i: usize = 0;
    while i < a_len
        invariant
            a_len == a@.len(),
            b_len == b@.len(),
            a_len == b_len,
            i <= a_len,
            forall|k: int| 0 <= k < i ==> a@[k] == b@[k],
        decreases a_len - i,
    {
        if a.get_char(i) != b.get_char(i) {
            assert(a@ != b@) by {
                assert(a@[i as int] != b@[i as int]);
            }
            return false;
        }
        i = i + 1;
    }
    assert(a@ =~= b@);
    true
}

impl Token {
    /// Builds the (kind, literal) pair.
    pub fn new(kind: TokenKind, literal: String) -> (t: Token)
        ensures
            t.kind == kind,
            t.literal == literal,
    {
        Token { kind, literal }
    }

    /// Classifies a lexeme: a reserved word maps to its keyword kind, any
    /// other lexeme to the generic identifier kind.
    pub fn lookup_identifier(identifier: &str) -> (kind: TokenKind)
        ensures
            kind == spec_lookup_identifier(identifier@),
    {
        if str_eq(identifier, "fn") {
            TokenKind::Function
        } else if str_eq(identifier, "let") {
            TokenKind::Let
        } else if str_eq(identifier, "true") {
            TokenKind::True
        } else if str_eq(identifier, "false") {
            TokenKind::False
        } else if str_eq(identifier, "if") {
            TokenKind::If
        } else if str_eq(identifier, "else") {
            TokenKind::Else
        } else if str_eq(identifier, "return") {
            TokenKind::Return
        } else {
            TokenKind::Ident
        }
    }
}

} // verus!
