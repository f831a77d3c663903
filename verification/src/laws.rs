//! The laws the scanner obeys, stated over [`scan_token`] — the
//! specification that `Lexer::next_token` is proved to implement — and
//! proved for every buffer and cursor position they speak of.

use vstd::prelude::*;

use crate::lexer::{
    char_at, digit_run_end, is_digit_char, is_letter_char, is_whitespace_char,
    lemma_digit_run_end_at, lemma_digit_run_end_props, lemma_letter_run_end_at,
    lemma_letter_run_end_props, lemma_whitespace_end_props, letter_run_end, scan_token,
    whitespace_end, TokenParsingError,
};
use crate::token::{spec_lookup_identifier, TokenKind, TokenModel};

verus! {

/// The single-character fixed tokens: the characters that map directly to a
/// kind with no lookahead.
pub open spec fn is_single_fixed_char(c: char) -> bool {
    c == '+' || c == '-' || c == '*' || c == '/' || c == '<' || c == '>' || c == '(' || c == ')'
        || c == '{' || c == '}' || c == ',' || c == ';'
}

/// The kind each single-character fixed token maps to.
pub open spec fn single_fixed_kind(c: char) -> TokenKind {
    if c == '+' {
        TokenKind::Plus
    } else if c == '-' {
        TokenKind::Minus
    } else if c == '*' {
        TokenKind::Asterisk
    } else if c == '/' {
        TokenKind::Slash
    } else if c == '<' {
        TokenKind::Lt
    } else if c == '>' {
        TokenKind::Gt
    } else if c == '(' {
        TokenKind::LParen
    } else if c == ')' {
        TokenKind::RParen
    } else if c == '{' {
        TokenKind::LBrace
    } else if c == '}' {
        TokenKind::RBrace
    } else if c == ',' {
        TokenKind::Comma
    } else if c == ';' {
        TokenKind::Semicolon
    } else {
        TokenKind::Illegal
    }
}

/// Law: scanning a one-character buffer holding a single fixed-token
/// character yields exactly the matching kind with that character as its
/// literal, and a second scan yields the end-of-input token.
pub proof fn lemma_single_fixed_token(c: char)
    requires
        is_single_fixed_char(c),
    ensures
        scan_token(seq![c], 0).0 == Ok::<TokenModel, TokenParsingError>(
            TokenModel { kind: single_fixed_kind(c), literal: seq![c] },
        ),
        scan_token(seq![c], 0).1 == 1,
        scan_token(seq![c], 1).0 == Ok::<TokenModel, TokenParsingError>(
            TokenModel { kind: TokenKind::Eof, literal: Seq::<char>::empty() },
        ),
{
    let s = seq![c];
    assert(whitespace_end(s, 0) == 0);
    assert(s.subrange(0, 1) =~= seq![c]);
    assert(whitespace_end(s, 1) == 1);
}

/// Law: a maximal letter/underscore run scans to one token whose literal is
/// the whole run, after which scanning resumes exactly at the character
/// that terminated the run; its kind is what the keyword classifier says of
/// the run.
pub proof fn lemma_identifier_run(s: Seq<char>, i: int, j: int)
    requires
        0 <= i < j <= s.len(),
        forall|k: int| i <= k < j ==> is_letter_char(s[k]),
        !is_letter_char(char_at(s, j)),
    ensures
        scan_token(s, i).0 == Ok::<TokenModel, TokenParsingError>(
            TokenModel {
                kind: spec_lookup_identifier(s.subrange(i, j)),
                literal: s.subrange(i, j),
            },
        ),
        scan_token(s, i).1 == j,
{
    assert(is_letter_char(s[i]));
    assert(whitespace_end(s, i) == i);
    lemma_letter_run_end_at(s, i, j);
}

/// Law: a maximal letter/underscore run that is none of the reserved words
/// scans to the generic identifier kind.
pub proof fn lemma_identifier_run_not_keyword(s: Seq<char>, i: int, j: int)
    requires
        0 <= i < j <= s.len(),
        forall|k: int| i <= k < j ==> is_letter_char(s[k]),
        !is_letter_char(char_at(s, j)),
        s.subrange(i, j) != "fn"@,
        s.subrange(i, j) != "let"@,
        s.subrange(i, j) != "true"@,
        s.subrange(i, j) != "false"@,
        s.subrange(i, j) != "if"@,
        s.subrange(i, j) != "else"@,
        s.subrange(i, j) != "return"@,
    ensures
        scan_token(s, i).0 == Ok::<TokenModel, TokenParsingError>(
            TokenModel { kind: TokenKind::Ident, literal: s.subrange(i, j) },
        ),
        scan_token(s, i).1 == j,
{
    lemma_identifier_run(s, i, j);
}

/// Law: a reserved word, scanned in isolation as the whole buffer, yields
/// its keyword kind — never the generic identifier kind — with the word
/// itself as the literal.
pub proof fn lemma_keyword_in_isolation(s: Seq<char>)
    requires
        s == "fn"@ || s == "let"@ || s == "true"@ || s == "false"@ || s == "if"@ || s == "else"@
            || s == "return"@,
    ensures
        scan_token(s, 0).0 == Ok::<TokenModel, TokenParsingError>(
            TokenModel { kind: spec_lookup_identifier(s), literal: s },
        ),
        scan_token(s, 0).1 == s.len(),
        spec_lookup_identifier(s) != TokenKind::Ident,
{
    reveal_strlit("fn");
    reveal_strlit("let");
    reveal_strlit("true");
    reveal_strlit("false");
    reveal_strlit("if");
    reveal_strlit("else");
    reveal_strlit("return");
    assert(forall|k: int| 0 <= k < s.len() ==> is_letter_char(s[k]));
    assert(!is_letter_char(char_at(s, s.len() as int)));
    lemma_identifier_run(s, 0, s.len() as int);
    assert(s.subrange(0, s.len() as int) =~= s);
}

/// Law: a maximal digit run scans to one integer-literal token whose
/// literal is the whole run, after which scanning resumes exactly at the
/// character that terminated the run.
pub proof fn lemma_integer_run(s: Seq<char>, i: int, j: int)
    requires
        0 <= i < j <= s.len(),
        forall|k: int| i <= k < j ==> is_digit_char(s[k]),
        !is_digit_char(char_at(s, j)),
    ensures
        scan_token(s, i).0 == Ok::<TokenModel, TokenParsingError>(
            TokenModel { kind: TokenKind::Int, literal: s.subrange(i, j) },
        ),
        scan_token(s, i).1 == j,
{
    assert(is_digit_char(s[i]));
    assert(whitespace_end(s, i) == i);
    lemma_digit_run_end_at(s, i, j);
}

/// Law: whitespace between tokens is fully skipped — scanning from any
/// position gives exactly what scanning from the end of the whitespace run
/// gives — and no whitespace character ever appears in a literal.
pub proof fn lemma_whitespace_skipped(s: Seq<char>, i: int)
    requires
        0 <= i <= s.len(),
    ensures
        scan_token(s, i) == scan_token(s, whitespace_end(s, i)),
        scan_token(s, i).0 matches Ok(t) ==> forall|k: int|
            0 <= k < t.literal.len() ==> !is_whitespace_char(#[trigger] t.literal[k]),
{
    lemma_whitespace_end_props(s, i);
    let j = whitespace_end(s, i);
    assert(whitespace_end(s, j) == j);
    let c = char_at(s, j);
    if c == '\x00' {
    } else if is_letter_char(c) {
        lemma_letter_run_end_props(s, j);
        let t = letter_run_end(s, j);
        assert forall|k: int| 0 <= k < t - j implies !is_whitespace_char(
            #[trigger] s.subrange(j, t)[k],
        ) by {
            assert(s.subrange(j, t)[k] == s[j + k]);
            assert(is_letter_char(s[j + k]));
        }
    } else if is_digit_char(c) {
        lemma_digit_run_end_props(s, j);
        let t = digit_run_end(s, j);
        assert forall|k: int| 0 <= k < t - j implies !is_whitespace_char(
            #[trigger] s.subrange(j, t)[k],
        ) by {
            assert(s.subrange(j, t)[k] == s[j + k]);
            assert(is_digit_char(s[j + k]));
        }
    } else {
    }
}

/// The results of `n` successive scans of buffer `s`, the first with the
/// cursor at `pos`, each further one with the cursor where the previous
/// scan left it — what draining a scanner produces.
pub open spec fn scan_prefix(s: Seq<char>, pos: int, n: nat) -> Seq<
    Result<TokenModel, TokenParsingError>,
>
    decreases n,
{
    if n == 0 {
        Seq::empty()
    } else {
        seq![scan_token(s, pos).0] + scan_prefix(s, scan_token(s, pos).1, (n - 1) as nat)
    }
}

/// Law: scanning is deterministic — over equal buffers, any number of
/// successive calls from the same cursor position produces the same
/// results, so two scanners constructed over identical buffers and drained
/// to end-of-input produce identical token sequences.
pub proof fn lemma_draining_deterministic(s1: Seq<char>, s2: Seq<char>, pos: int, n: nat)
    requires
        s1 == s2,
    ensures
        scan_prefix(s1, pos, n) == scan_prefix(s2, pos, n),
{
}

/// Law: the cursor makes forward progress — a scan never moves it
/// backwards or past the end, and it stands still only once the whole
/// buffer is consumed and the scan yields the end-of-input token, so a
/// drain that stops at that token terminates.
pub proof fn lemma_scan_progress(s: Seq<char>, pos: int)
    requires
        0 <= pos <= s.len(),
    ensures
        pos <= scan_token(s, pos).1 <= s.len(),
        scan_token(s, pos).1 == pos ==> scan_token(s, pos).0 == Ok::<
            TokenModel,
            TokenParsingError,
        >(TokenModel { kind: TokenKind::Eof, literal: Seq::<char>::empty() }),
{
    lemma_whitespace_end_props(s, pos);
    let j = whitespace_end(s, pos);
    let c = char_at(s, j);
    if is_letter_char(c) {
        lemma_letter_run_end_props(s, j);
    } else if is_digit_char(c) {
        lemma_digit_run_end_props(s, j);
    }
}

} // verus!

