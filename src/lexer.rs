//! Tokenizer over a byte source.

mod error;
mod scan;
mod token;

use vstd::prelude::*;

pub use error::{Error, SpecLexError};
pub use scan::{
    chars_of_bytes, identifier_char, lemma_lex_single_punctuation, lemma_lex_whitespace_only,
    lemma_run_end_bounds, lemma_scan_progress, lemma_skip_whitespace_bounds, lex, lex_from,
    prepend_tokens, run_end, scan, skip_whitespace, tokens_result, whitespace_char,
};
pub(crate) use token::{integer_string, string_of};
pub use token::{
    all_digits, char_token, decimal_value, digit_char, digits_text, integer_text, is_digit_char,
    keyword, lemma_decimal_prefix, token_result, token_text, two_char_token, word_token,
    SpecToken, Token, TokenKind,
};

verus! {

/// Relies on `String::push`: the character is appended to the end of the string.
pub assume_specification[ String::push ](s: &mut String, ch: char)
    ensures
        final(s)@ == old(s)@.push(ch),
;

/// A pull-based tokenizer: it owns its source and hands out one token at a time.
pub struct Lexer {
    input: Vec<u8>,
    pos: usize,
}

impl Lexer {
    /// The bytes of the source.
    pub closed spec fn source(&self) -> Seq<u8> {
        self.input@
    }

    /// How many bytes of the source have been consumed.
    pub closed spec fn cursor(&self) -> int {
        self.pos as int
    }

    /// The cursor stays within the source.
    pub closed spec fn wf(&self) -> bool {
        self.pos <= self.input.len()
    }

    pub fn new(input: &[u8]) -> (l: Self)
        ensures
            l.wf(),
            0 <= l.cursor() <= l.source().len(),
            l.source() == input@,
            l.cursor() == 0,
    {
        Lexer { input: vstd::slice::slice_to_vec(input), pos: 0 }
    }

    /// Resets the Lexer with a new source of data.
    pub fn reset(&mut self, input: &[u8])
        ensures
            final(self).wf(),
            0 <= final(self).cursor() <= final(self).source().len(),
            final(self).source() == input@,
            final(self).cursor() == 0,
    {
        self.input = vstd::slice::slice_to_vec(input);
        self.pos = 0;
    }

    /// The next token, or `Error::Eof` once only whitespace is left.
    pub fn next_token(&mut self) -> (r: Result<Token, Error>)
        requires
            old(self).wf(),
        ensures
            final(self).wf(),
            0 <= final(self).cursor() <= final(self).source().len(),
            final(self).source() == old(self).source(),
            (token_result(r), final(self).cursor()) == scan(old(self).source(), old(self).cursor()),
    {
        let ghost s = self.input@;
        proof {
            lemma_scan_progress(s, self.pos as int);
        }
        let ch = match self.next_nonwhitespace_char() {
            Some(c) => c,
            None => return Err(Error::Eof),
        };
        let ghost k = self.pos - 1;
        proof {
            lemma_skip_whitespace_bounds(s, old(self).pos as int);
        }
        if Token::may_be_two_chars(ch) {
            if let Some(next) = self.peek_char() {
                let pair = [ch, next];
                assert(pair@[0] == ch && pair@[1] == next);
                if let Some(tok) = Token::from_two_chars(&pair) {
                    let _ = self.next_char();
                    return Ok(tok);
                }
            }
        }
        if let Some(tok) = Token::from_char(ch) {
            return Ok(tok);
        }
        let mut word = String::new();
        word.push(ch);
        if is_identifier_char(ch) {
            self.fill_buffer_until(&mut word, false);
        } else if '0' <= ch && ch <= '9' {
            self.fill_buffer_until(&mut word, true);
        } else {
            assert(word@ =~= seq![ch]);
            return Err(Error::Token(word));
        }
        proof {
            lemma_run_end_bounds(s, k + 1, true);
            lemma_run_end_bounds(s, k + 1, false);
        }
        assert(word@ =~= chars_of_bytes(s.subrange(k, self.pos as int))) by {
            assert(s.subrange(k, self.pos as int) =~= seq![s[k]] + s.subrange(k + 1, self.pos as int));
        }
        Token::from_word(word.as_str())
    }

    /// The next item of the token stream: `None` at its clean end, otherwise
    /// the next token or the failure that stops the stream.
    pub fn next(&mut self) -> (r: Option<Result<Token, Error>>)
        requires
            old(self).wf(),
        ensures
            final(self).wf(),
            0 <= final(self).cursor() <= final(self).source().len(),
            final(self).source() == old(self).source(),
            final(self).cursor() == scan(old(self).source(), old(self).cursor()).1,
            scan(old(self).source(), old(self).cursor()).0 == Err::<SpecToken, SpecLexError>(SpecLexError::Eof)
                ==> r is None,
            scan(old(self).source(), old(self).cursor()).0 != Err::<SpecToken, SpecLexError>(SpecLexError::Eof)
                ==> r is Some && token_result(r->0) == scan(old(self).source(), old(self).cursor()).0,
    {
        proof {
            lemma_scan_progress(self.input@, self.pos as int);
        }
        match self.next_token() {
            Ok(tok) => Some(Ok(tok)),
            Err(Error::Eof) => None,
            Err(err) => Some(Err(err)),
        }
    }

    /// All the tokens that are left, up to the clean end of the source, or the
    /// first failure.
    pub fn tokenize(&mut self) -> (r: Result<Vec<Token>, Error>)
        requires
            old(self).wf(),
        ensures
            final(self).wf(),
            0 <= final(self).cursor() <= final(self).source().len(),
            final(self).source() == old(self).source(),
            tokens_result(r) == lex_from(old(self).source(), old(self).cursor()),
    {
        let ghost s = self.input@;
        let ghost start = self.pos as int;
        let mut toks: Vec<Token> = Vec::new();
        assert(toks@.map_values(|t: Token| t@) =~= Seq::<SpecToken>::empty());
        loop
            invariant
                self.input@ == s,
                s == old(self).input@,
                start == old(self).pos,
                self.pos <= s.len(),
                lex_from(s, start) == prepend_tokens(toks@.map_values(|t: Token| t@), lex_from(s, self.pos as int)),
            decreases s.len() - self.pos,
        {
            let ghost before = self.pos as int;
            let ghost done = toks@.map_values(|t: Token| t@);
            proof {
                lemma_scan_progress(s, before);
            }
            match self.next_token() {
                Ok(tok) => {
                    toks.push(tok);
                    assert(toks@.map_values(|t: Token| t@) =~= done + seq![tok@]);
                    assert(done + seq![tok@] + lex_from(s, self.pos as int)->Ok_0 =~= done + (seq![tok@]
                        + lex_from(s, self.pos as int)->Ok_0));
                },
                Err(Error::Eof) => {
                    assert(done + Seq::<SpecToken>::empty() =~= done);
                    return Ok(toks);
                },
                Err(e) => {
                    return Err(e);
                },
            }
        }
    }

    /// Consumes and returns the next character.
    fn next_char(&mut self) -> (r: Option<char>)
        ensures
            final(self).input == old(self).input,
            old(self).pos < old(self).input.len() ==> r == Some(old(self).input@[old(self).pos as int] as char)
                && final(self).pos == old(self).pos + 1,
            old(self).pos >= old(self).input.len() ==> r is None && final(self).pos == old(self).pos,
    {
        if self.pos < self.input.len() {
            let byte = self.input[self.pos];
            self.pos = self.pos + 1;
            Some(byte as char)
        } else {
            None
        }
    }

    /// Returns the next character without consuming it.
    fn peek_char(&self) -> (r: Option<char>)
        ensures
            self.pos < self.input.len() ==> r == Some(self.input@[self.pos as int] as char),
            self.pos >= self.input.len() ==> r is None,
    {
        if self.pos < self.input.len() {
            Some(self.input[self.pos] as char)
        } else {
            None
        }
    }

    fn next_nonwhitespace_char(&mut self) -> (r: Option<char>)
        requires
            old(self).pos <= old(self).input.len(),
        ensures
            final(self).input == old(self).input,
            ({
                let k = skip_whitespace(old(self).input@, old(self).pos as int);
                if k < old(self).input.len() {
                    r == Some(old(self).input@[k] as char) && final(self).pos == k + 1
                } else {
                    r is None && final(self).pos == k
                }
            }),
    {
        let ghost start = self.pos as int;
        loop
            invariant
                self.input == old(self).input,
                start == old(self).pos,
                start <= self.pos <= self.input.len(),
                skip_whitespace(self.input@, start) == skip_whitespace(self.input@, self.pos as int),
            decreases self.input.len() - self.pos,
        {
            let ch = match self.next_char() {
                Some(c) => c,
                None => return None,
            };
            if !(ch == ' ' || ch == '\t' || ch == '\n' || ch == '\x0C' || ch == '\r') {
                return Some(ch);
            }
        }
    }

    /// Appends to `word` the characters of the run of digits (or of identifier
    /// characters) that goes on at the cursor, consuming them.
    fn fill_buffer_until(&mut self, word: &mut String, digits: bool)
        requires
            old(self).pos <= old(self).input.len(),
        ensures
            final(self).input == old(self).input,
            final(self).pos == run_end(old(self).input@, old(self).pos as int, digits),
            final(word)@ == old(word)@ + chars_of_bytes(
                old(self).input@.subrange(old(self).pos as int, final(self).pos as int),
            ),
    {
        let ghost start = self.pos as int;
        let ghost w0 = word@;
        loop
            invariant
                self.input == old(self).input,
                start == old(self).pos,
                w0 == old(word)@,
                start <= self.pos <= self.input.len(),
                run_end(self.input@, start, digits) == run_end(self.input@, self.pos as int, digits),
                word@ == w0 + chars_of_bytes(self.input@.subrange(start, self.pos as int)),
            ensures
                self.pos == run_end(self.input@, start, digits),
            decreases self.input.len() - self.pos,
        {
            let ch = match self.peek_char() {
                Some(c) => c,
                None => break,
            };
            let more = if digits {
                '0' <= ch && ch <= '9'
            } else {
                is_identifier_char(ch)
            };
            if !more {
                break;
            }
            let _ = self.next_char();
            word.push(ch);
            assert(self.input@[self.pos - 1] as char == ch);
            assert(chars_of_bytes(self.input@.subrange(start, self.pos as int)) =~= chars_of_bytes(
                self.input@.subrange(start, self.pos - 1),
            ).push(ch));
        }
    }
}

impl Default for Lexer {
    /// A lexer over an empty source.
    fn default() -> (l: Self)
        ensures
            l.wf(),
            0 <= l.cursor() <= l.source().len(),
            l.source() == Seq::<u8>::empty(),
            l.cursor() == 0,
    {
        Lexer { input: Vec::new(), pos: 0 }
    }
}

fn is_identifier_char(ch: char) -> (r: bool)
    ensures
        r == identifier_char(ch),
{
    ('a' <= ch && ch <= 'z') || ('A' <= ch && ch <= 'Z') || ch == '_'
}

} // verus!
