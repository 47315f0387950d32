//! What the lexer does, stated over the source bytes and positions in them.

use vstd::prelude::*;

use super::error::{Error, SpecLexError};
use super::token::{char_token, is_digit_char, two_char_token, word_token, SpecToken, Token};

verus! {

/// ASCII whitespace: space, tab, line feed, form feed and carriage return.
pub open spec fn whitespace_char(c: char) -> bool {
    c == ' ' || c == '\t' || c == '\n' || c == '\x0C' || c == '\r'
}

/// A character that may stand in an identifier: an ASCII letter or an underscore.
pub open spec fn identifier_char(c: char) -> bool {
    ('a' <= c <= 'z') || ('A' <= c <= 'Z') || c == '_'
}

/// Bytes read as characters, one character per byte.
pub open spec fn chars_of_bytes(s: Seq<u8>) -> Seq<char> {
    s.map_values(|b: u8| b as char)
}

/// The first position at or after `i` that does not hold whitespace.
pub open spec fn skip_whitespace(s: Seq<u8>, i: int) -> int
    decreases s.len() - i,
{
    if 0 <= i < s.len() && whitespace_char(s[i] as char) {
        skip_whitespace(s, i + 1)
    } else {
        i
    }
}

/// The end of the run of digits (or of identifier characters) that goes on at `i`.
pub open spec fn run_end(s: Seq<u8>, i: int, digits: bool) -> int
    decreases s.len() - i,
{
    if 0 <= i < s.len() && (if digits {
        is_digit_char(s[i] as char)
    } else {
        identifier_char(s[i] as char)
    }) {
        run_end(s, i + 1, digits)
    } else {
        i
    }
}

/// Skipping whitespace never moves backwards, nor past the end.
pub proof fn lemma_skip_whitespace_bounds(s: Seq<u8>, i: int)
    ensures
        i <= skip_whitespace(s, i),
        0 <= i <= s.len() ==> skip_whitespace(s, i) <= s.len(),
    decreases s.len() - i,
{
    if 0 <= i < s.len() && whitespace_char(s[i] as char) {
        lemma_skip_whitespace_bounds(s, i + 1);
    }
}

/// A run never ends before it starts, nor past the end.
pub proof fn lemma_run_end_bounds(s: Seq<u8>, i: int, digits: bool)
    ensures
        i <= run_end(s, i, digits),
        0 <= i <= s.len() ==> run_end(s, i, digits) <= s.len(),
    decreases s.len() - i,
{
    if 0 <= i < s.len() && (if digits {
        is_digit_char(s[i] as char)
    } else {
        identifier_char(s[i] as char)
    }) {
        lemma_run_end_bounds(s, i + 1, digits);
    }
}

/// What one request for a token does on the source `s` read from `pos`: the
/// token or the failure, and the position after the bytes it consumed.
///
/// Whitespace is skipped; running out of bytes then is the clean end. `==` and
/// `!=` win over their first character alone; then come the punctuation marks;
/// a letter or underscore starts a maximal run of them, a digit a maximal run
/// of digits, resolved by [`word_token`]; any other byte is an error carrying it.
pub open spec fn scan(s: Seq<u8>, pos: int) -> (Result<SpecToken, SpecLexError>, int) {
    let k = skip_whitespace(s, pos);
    if k < 0 || k >= s.len() {
        (Err(SpecLexError::Eof), k)
    } else {
        let c = s[k] as char;
        if k + 1 < s.len() && two_char_token(c, s[k + 1] as char) is Some {
            (Ok(SpecToken::of_kind(two_char_token(c, s[k + 1] as char)->0)), k + 2)
        } else if char_token(c) is Some {
            (Ok(SpecToken::of_kind(char_token(c)->0)), k + 1)
        } else if identifier_char(c) || is_digit_char(c) {
            let end = run_end(s, k + 1, is_digit_char(c));
            (word_token(chars_of_bytes(s.subrange(k, end))), end)
        } else {
            (Err(SpecLexError::Token(seq![c])), k + 1)
        }
    }
}

/// A request for a token stays within the source, and consumes at least one
/// byte unless it reports the clean end.
pub proof fn lemma_scan_progress(s: Seq<u8>, pos: int)
    requires
        0 <= pos <= s.len(),
    ensures
        pos <= scan(s, pos).1 <= s.len(),
        scan(s, pos).0 != Err::<SpecToken, SpecLexError>(SpecLexError::Eof) ==> pos < scan(s, pos).1,
{
    lemma_skip_whitespace_bounds(s, pos);
    let k = skip_whitespace(s, pos);
    if k < s.len() {
        lemma_run_end_bounds(s, k + 1, true);
        lemma_run_end_bounds(s, k + 1, false);
    }
}

/// The tokens of the source `s` from `pos` on, up to its clean end, or the
/// first failure.
pub open spec fn lex_from(s: Seq<u8>, pos: int) -> Result<Seq<SpecToken>, SpecLexError>
    decreases s.len() - pos,
{
    if 0 <= pos <= s.len() {
        proof {
            lemma_scan_progress(s, pos);
        }
        match scan(s, pos).0 {
            Err(SpecLexError::Eof) => Ok(Seq::empty()),
            Err(e) => Err(e),
            Ok(t) => prepend_tokens(seq![t], lex_from(s, scan(s, pos).1)),
        }
    } else {
        Ok(Seq::empty())
    }
}

/// The tokens of a whole source.
pub open spec fn lex(s: Seq<u8>) -> Result<Seq<SpecToken>, SpecLexError> {
    lex_from(s, 0)
}

/// `done` followed by the tokens of `rest`, if `rest` succeeded.
pub open spec fn prepend_tokens(
    done: Seq<SpecToken>,
    rest: Result<Seq<SpecToken>, SpecLexError>,
) -> Result<Seq<SpecToken>, SpecLexError> {
    match rest {
        Ok(ts) => Ok(done + ts),
        Err(e) => Err(e),
    }
}

/// The model of the outcome of lexing a whole source.
pub open spec fn tokens_result(r: Result<Vec<Token>, Error>) -> Result<Seq<SpecToken>, SpecLexError> {
    match r {
        Ok(ts) => Ok(ts@.map_values(|t: Token| t@)),
        Err(e) => Err(e@),
    }
}

/// Lexing a lone punctuation character yields exactly the token it maps to,
/// and nothing after it.
pub proof fn lemma_lex_single_punctuation(c: u8)
    requires
        char_token(c as char) is Some,
    ensures
        lex(seq![c]) == Ok::<Seq<SpecToken>, SpecLexError>(
            seq![SpecToken::of_kind(char_token(c as char)->0)],
        ),
{
    let s = seq![c];
    let t = SpecToken::of_kind(char_token(c as char)->0);
    assert(skip_whitespace(s, 1) == 1);
    assert(lex_from(s, 1) == Ok::<Seq<SpecToken>, SpecLexError>(Seq::empty()));
    assert(skip_whitespace(s, 0) == 0);
    assert(scan(s, 0) == (Ok::<SpecToken, SpecLexError>(t), 1int));
    assert(seq![t] + Seq::<SpecToken>::empty() =~= seq![t]);
}

proof fn lemma_skip_all_whitespace(s: Seq<u8>, i: int)
    requires
        0 <= i <= s.len(),
        forall|j: int| 0 <= j < s.len() ==> whitespace_char(#[trigger] s[j] as char),
    ensures
        skip_whitespace(s, i) == s.len(),
    decreases s.len() - i,
{
    if i < s.len() {
        lemma_skip_all_whitespace(s, i + 1);
    }
}

/// Lexing a source made only of whitespace yields no token and ends cleanly.
pub proof fn lemma_lex_whitespace_only(s: Seq<u8>)
    requires
        forall|j: int| 0 <= j < s.len() ==> whitespace_char(#[trigger] s[j] as char),
    ensures
        lex(s) == Ok::<Seq<SpecToken>, SpecLexError>(Seq::empty()),
{
    lemma_skip_all_whitespace(s, 0);
}

} // verus!
