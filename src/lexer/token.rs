use vstd::prelude::*;

use super::error::{Error, SpecLexError};

verus! {

/// A lexical token of the language.
#[derive(Clone, Debug, PartialEq, Eq)]
pub enum Token {
    // Single-char long.
    Assign,
    Asterisk,
    Bang,
    Comma,
    GreaterThan,
    LeftBrace,
    LeftParen,
    LessThan,
    Minus,
    Plus,
    RightBrace,
    RightParen,
    Semicolon,
    Slash,
    // Two-char long.
    Equal,
    NotEqual,
    // Multichar reserved words.
    Else,
    False,
    Function,
    If,
    Let,
    Return,
    True,
    // User-provided values.
    Identifier(String),
    Integer(i64),
}

/// The variant tag of a [`Token`], without its payload. Grammar expectations
/// compare tokens by kind only.
#[derive(Clone, Copy, Debug, PartialEq, Eq, Structural)]
pub enum TokenKind {
    Assign,
    Asterisk,
    Bang,
    Comma,
    GreaterThan,
    LeftBrace,
    LeftParen,
    LessThan,
    Minus,
    Plus,
    RightBrace,
    RightParen,
    Semicolon,
    Slash,
    Equal,
    NotEqual,
    Else,
    False,
    Function,
    If,
    Let,
    Return,
    True,
    Identifier,
    Integer,
}

/// The mathematical model of a token: its kind, the text of an identifier and
/// the value of an integer (empty and zero for every other kind).
pub struct SpecToken {
    pub kind: TokenKind,
    pub text: Seq<char>,
    pub value: i64,
}

impl SpecToken {
    /// The model of a token of a payload-free kind.
    pub open spec fn of_kind(kind: TokenKind) -> SpecToken {
        SpecToken { kind, text: Seq::empty(), value: 0 }
    }
}

impl Token {
    /// The kind of this token.
    pub open spec fn spec_kind(&self) -> TokenKind {
        match self {
            Token::Assign => TokenKind::Assign,
            Token::Asterisk => TokenKind::Asterisk,
            Token::Bang => TokenKind::Bang,
            Token::Comma => TokenKind::Comma,
            Token::GreaterThan => TokenKind::GreaterThan,
            Token::LeftBrace => TokenKind::LeftBrace,
            Token::LeftParen => TokenKind::LeftParen,
            Token::LessThan => TokenKind::LessThan,
            Token::Minus => TokenKind::Minus,
            Token::Plus => TokenKind::Plus,
            Token::RightBrace => TokenKind::RightBrace,
            Token::RightParen => TokenKind::RightParen,
            Token::Semicolon => TokenKind::Semicolon,
            Token::Slash => TokenKind::Slash,
            Token::Equal => TokenKind::Equal,
            Token::NotEqual => TokenKind::NotEqual,
            Token::Else => TokenKind::Else,
            Token::False => TokenKind::False,
            Token::Function => TokenKind::Function,
            Token::If => TokenKind::If,
            Token::Let => TokenKind::Let,
            Token::Return => TokenKind::Return,
            Token::True => TokenKind::True,
            Token::Identifier(_) => TokenKind::Identifier,
            Token::Integer(_) => TokenKind::Integer,
        }
    }
}

impl View for Token {
    type V = SpecToken;

    open spec fn view(&self) -> SpecToken {
        match self {
            Token::Identifier(s) => SpecToken { kind: TokenKind::Identifier, text: s@, value: 0 },
            Token::Integer(v) => SpecToken { kind: TokenKind::Integer, text: Seq::empty(), value: *v },
            _ => SpecToken::of_kind(self.spec_kind()),
        }
    }
}

/// The model of the outcome of turning text into a token.
pub open spec fn token_result(r: Result<Token, Error>) -> Result<SpecToken, SpecLexError> {
    match r {
        Ok(t) => Ok(t@),
        Err(e) => Err(e@),
    }
}

/// The fixed single-character punctuation mappings.
pub open spec fn char_token(c: char) -> Option<TokenKind> {
    match c {
        '=' => Some(TokenKind::Assign),
        '*' => Some(TokenKind::Asterisk),
        '!' => Some(TokenKind::Bang),
        ',' => Some(TokenKind::Comma),
        '>' => Some(TokenKind::GreaterThan),
        '{' => Some(TokenKind::LeftBrace),
        '(' => Some(TokenKind::LeftParen),
        '<' => Some(TokenKind::LessThan),
        '-' => Some(TokenKind::Minus),
        '+' => Some(TokenKind::Plus),
        '}' => Some(TokenKind::RightBrace),
        ')' => Some(TokenKind::RightParen),
        ';' => Some(TokenKind::Semicolon),
        '/' => Some(TokenKind::Slash),
        _ => None,
    }
}

/// The two-character operators `==` and `!=`.
pub open spec fn two_char_token(first: char, second: char) -> Option<TokenKind> {
    if second != '=' {
        None
    } else if first == '!' {
        Some(TokenKind::NotEqual)
    } else if first == '=' {
        Some(TokenKind::Equal)
    } else {
        None
    }
}

/// The reserved words.
pub open spec fn keyword(w: Seq<char>) -> Option<TokenKind> {
    if w == seq!['e', 'l', 's', 'e'] {
        Some(TokenKind::Else)
    } else if w == seq!['f', 'a', 'l', 's', 'e'] {
        Some(TokenKind::False)
    } else if w == seq!['f', 'n'] {
        Some(TokenKind::Function)
    } else if w == seq!['i', 'f'] {
        Some(TokenKind::If)
    } else if w == seq!['l', 'e', 't'] {
        Some(TokenKind::Let)
    } else if w == seq!['r', 'e', 't', 'u', 'r', 'n'] {
        Some(TokenKind::Return)
    } else if w == seq!['t', 'r', 'u', 'e'] {
        Some(TokenKind::True)
    } else {
        None
    }
}

/// An ASCII decimal digit.
pub open spec fn is_digit_char(c: char) -> bool {
    '0' <= c <= '9'
}

/// Text made of decimal digits only.
pub open spec fn all_digits(w: Seq<char>) -> bool {
    forall|i: int| 0 <= i < w.len() ==> is_digit_char(#[trigger] w[i])
}

/// The base-10 value of a run of digits.
pub open spec fn decimal_value(w: Seq<char>) -> int
    decreases w.len(),
{
    if w.len() == 0 {
        0
    } else {
        decimal_value(w.drop_last()) * 10 + (w.last() as int - '0' as int)
    }
}

/// The token that a piece of text stands for: a punctuation mark, a reserved
/// word, an integer literal that must be a complete signed 64-bit value, or
/// else an identifier. Empty text stands for no token.
pub open spec fn word_token(w: Seq<char>) -> Result<SpecToken, SpecLexError> {
    if w.len() == 0 {
        Err(SpecLexError::Token(w))
    } else if w.len() == 1 && char_token(w[0]) is Some {
        Ok(SpecToken::of_kind(char_token(w[0])->0))
    } else if w.len() == 2 && two_char_token(w[0], w[1]) is Some {
        Ok(SpecToken::of_kind(two_char_token(w[0], w[1])->0))
    } else if keyword(w) is Some {
        Ok(SpecToken::of_kind(keyword(w)->0))
    } else if is_digit_char(w[0]) {
        if all_digits(w) && decimal_value(w) <= i64::MAX {
            Ok(SpecToken { kind: TokenKind::Integer, text: Seq::empty(), value: decimal_value(w) as i64 })
        } else {
            Err(SpecLexError::Token(w))
        }
    } else {
        Ok(SpecToken { kind: TokenKind::Identifier, text: w, value: 0 })
    }
}

/// The character of a decimal digit.
pub open spec fn digit_char(d: nat) -> char {
    (d + 48) as char
}

/// The decimal digits of a natural number, most significant first.
pub open spec fn digits_text(n: nat) -> Seq<char>
    decreases n,
{
    if n < 10 {
        seq![digit_char(n)]
    } else {
        digits_text(n / 10).push(digit_char(n % 10))
    }
}

/// The decimal text of an integer, with a leading `-` when it is negative.
pub open spec fn integer_text(v: int) -> Seq<char> {
    if v < 0 {
        seq!['-'] + digits_text((-v) as nat)
    } else {
        digits_text(v as nat)
    }
}

/// The source text of a token.
pub open spec fn token_text(t: SpecToken) -> Seq<char> {
    match t.kind {
        TokenKind::Assign => seq!['='],
        TokenKind::Asterisk => seq!['*'],
        TokenKind::Bang => seq!['!'],
        TokenKind::Comma => seq![','],
        TokenKind::GreaterThan => seq!['>'],
        TokenKind::LeftBrace => seq!['{'],
        TokenKind::LeftParen => seq!['('],
        TokenKind::LessThan => seq!['<'],
        TokenKind::Minus => seq!['-'],
        TokenKind::Plus => seq!['+'],
        TokenKind::RightBrace => seq!['}'],
        TokenKind::RightParen => seq![')'],
        TokenKind::Semicolon => seq![';'],
        TokenKind::Slash => seq!['/'],
        TokenKind::Equal => seq!['=', '='],
        TokenKind::NotEqual => seq!['!', '='],
        TokenKind::Else => seq!['e', 'l', 's', 'e'],
        TokenKind::False => seq!['f', 'a', 'l', 's', 'e'],
        TokenKind::Function => seq!['f', 'n'],
        TokenKind::If => seq!['i', 'f'],
        TokenKind::Let => seq!['l', 'e', 't'],
        TokenKind::Return => seq!['r', 'e', 't', 'u', 'r', 'n'],
        TokenKind::True => seq!['t', 'r', 'u', 'e'],
        TokenKind::Identifier => t.text,
        TokenKind::Integer => integer_text(t.value as int),
    }
}

/// A prefix of a run of digits has a value between zero and that of the run.
pub proof fn lemma_decimal_prefix(w: Seq<char>, k: int)
    requires
        all_digits(w),
        0 <= k <= w.len(),
    ensures
        0 <= decimal_value(w.subrange(0, k)) <= decimal_value(w),
    decreases w.len(),
{
    if w.len() > 0 {
        let p = w.drop_last();
        assert(all_digits(p)) by {
            assert forall|i: int| 0 <= i < p.len() implies is_digit_char(#[trigger] p[i]) by {
                assert(p[i] == w[i]);
            }
        }
        assert(is_digit_char(w[w.len() - 1]));
        if k == w.len() {
            assert(w.subrange(0, k) =~= w);
            lemma_decimal_prefix(p, p.len() as int);
            assert(p.subrange(0, p.len() as int) =~= p);
        } else {
            lemma_decimal_prefix(p, k);
            assert(p.subrange(0, k) =~= w.subrange(0, k));
            lemma_decimal_prefix(p, p.len() as int);
            assert(p.subrange(0, p.len() as int) =~= p);
        }
    }
}

impl Token {
    /// The kind of this token.
    pub fn kind(&self) -> (k: TokenKind)
        ensures
            k == self@.kind,
    {
        match self {
            Token::Assign => TokenKind::Assign,
            Token::Asterisk => TokenKind::Asterisk,
            Token::Bang => TokenKind::Bang,
            Token::Comma => TokenKind::Comma,
            Token::GreaterThan => TokenKind::GreaterThan,
            Token::LeftBrace => TokenKind::LeftBrace,
            Token::LeftParen => TokenKind::LeftParen,
            Token::LessThan => TokenKind::LessThan,
            Token::Minus => TokenKind::Minus,
            Token::Plus => TokenKind::Plus,
            Token::RightBrace => TokenKind::RightBrace,
            Token::RightParen => TokenKind::RightParen,
            Token::Semicolon => TokenKind::Semicolon,
            Token::Slash => TokenKind::Slash,
            Token::Equal => TokenKind::Equal,
            Token::NotEqual => TokenKind::NotEqual,
            Token::Else => TokenKind::Else,
            Token::False => TokenKind::False,
            Token::Function => TokenKind::Function,
            Token::If => TokenKind::If,
            Token::Let => TokenKind::Let,
            Token::Return => TokenKind::Return,
            Token::True => TokenKind::True,
            Token::Identifier(_) => TokenKind::Identifier,
            Token::Integer(_) => TokenKind::Integer,
        }
    }

    /// A copy of this token, payload included.
    pub fn duplicate(&self) -> (r: Token)
        ensures
            r == *self,
    {
        match self {
            Token::Identifier(s) => Token::Identifier(s.clone()),
            Token::Integer(v) => Token::Integer(*v),
            Token::Assign => Token::Assign,
            Token::Asterisk => Token::Asterisk,
            Token::Bang => Token::Bang,
            Token::Comma => Token::Comma,
            Token::GreaterThan => Token::GreaterThan,
            Token::LeftBrace => Token::LeftBrace,
            Token::LeftParen => Token::LeftParen,
            Token::LessThan => Token::LessThan,
            Token::Minus => Token::Minus,
            Token::Plus => Token::Plus,
            Token::RightBrace => Token::RightBrace,
            Token::RightParen => Token::RightParen,
            Token::Semicolon => Token::Semicolon,
            Token::Slash => Token::Slash,
            Token::Equal => Token::Equal,
            Token::NotEqual => Token::NotEqual,
            Token::Else => Token::Else,
            Token::False => Token::False,
            Token::Function => Token::Function,
            Token::If => Token::If,
            Token::Let => Token::Let,
            Token::Return => Token::Return,
            Token::True => Token::True,
        }
    }

    /// The source text of this token.
    pub fn to_string(&self) -> (s: String)
        ensures
            s@ == token_text(self@),
    {
        match self {
            Token::Assign => string_of(&['=']),
            Token::Asterisk => string_of(&['*']),
            Token::Bang => string_of(&['!']),
            Token::Comma => string_of(&[',']),
            Token::GreaterThan => string_of(&['>']),
            Token::LeftBrace => string_of(&['{']),
            Token::LeftParen => string_of(&['(']),
            Token::LessThan => string_of(&['<']),
            Token::Minus => string_of(&['-']),
            Token::Plus => string_of(&['+']),
            Token::RightBrace => string_of(&['}']),
            Token::RightParen => string_of(&[')']),
            Token::Semicolon => string_of(&[';']),
            Token::Slash => string_of(&['/']),
            Token::Equal => string_of(&['=', '=']),
            Token::NotEqual => string_of(&['!', '=']),
            Token::Else => string_of(&['e', 'l', 's', 'e']),
            Token::False => string_of(&['f', 'a', 'l', 's', 'e']),
            Token::Function => string_of(&['f', 'n']),
            Token::If => string_of(&['i', 'f']),
            Token::Let => string_of(&['l', 'e', 't']),
            Token::Return => string_of(&['r', 'e', 't', 'u', 'r', 'n']),
            Token::True => string_of(&['t', 'r', 'u', 'e']),
            Token::Identifier(s) => s.clone(),
            Token::Integer(v) => integer_string(*v),
        }
    }

    /// The token of a single punctuation character, if it is one.
    pub fn from_char(ch: char) -> (r: Option<Self>)
        ensures
            r is Some <==> char_token(ch) is Some,
            r is Some ==> r->0@ == SpecToken::of_kind(char_token(ch)->0),
    {
        match ch {
            '=' => Some(Self::Assign),
            '*' => Some(Self::Asterisk),
            '!' => Some(Self::Bang),
            ',' => Some(Self::Comma),
            '>' => Some(Self::GreaterThan),
            '{' => Some(Self::LeftBrace),
            '(' => Some(Self::LeftParen),
            '<' => Some(Self::LessThan),
            '-' => Some(Self::Minus),
            '+' => Some(Self::Plus),
            '}' => Some(Self::RightBrace),
            ')' => Some(Self::RightParen),
            ';' => Some(Self::Semicolon),
            '/' => Some(Self::Slash),
            _ => None,
        }
    }

    /// The token of a two-character operator, if the pair is one.
    pub fn from_two_chars(chs: &[char; 2]) -> (r: Option<Self>)
        ensures
            r is Some <==> two_char_token(chs@[0], chs@[1]) is Some,
            r is Some ==> r->0@ == SpecToken::of_kind(two_char_token(chs@[0], chs@[1])->0),
    {
        if chs[1] != '=' {
            return None;
        }
        match chs[0] {
            '!' => Some(Self::NotEqual),
            '=' => Some(Self::Equal),
            _ => None,
        }
    }

    /// Whether a character may begin a two-character operator.
    pub fn may_be_two_chars(ch: char) -> (r: bool)
        ensures
            r == (ch == '!' || ch == '='),
    {
        ch == '!' || ch == '='
    }

    /// The token that a whole piece of text stands for (see [`word_token`]).
    pub fn from_word(s: &str) -> (r: Result<Token, Error>)
        ensures
            token_result(r) == word_token(s@),
    {
        let w = chars_of(s);
        let n = w.len();
        if n == 0 {
            assert(s@ =~= Seq::<char>::empty());
            return Err(Error::Token(String::new()));
        }
        let first = w[0];
        if n == 1 {
            if let Some(tok) = Self::from_char(first) {
                return Ok(tok);
            }
        }
        if n == 2 {
            if let Some(tok) = Self::from_two_chars(&[first, w[1]]) {
                return Ok(tok);
            }
        }
        if let Some(tok) = keyword_token(&w) {
            return Ok(tok);
        }
        if '0' <= first && first <= '9' {
            return match decimal_of(&w) {
                Some(v) => Ok(Token::Integer(v)),
                None => Err(Error::Token(s.to_owned())),
            };
        }
        Ok(Token::Identifier(s.to_owned()))
    }
}

/// The decimal text of an integer.
pub(crate) fn integer_string(v: i64) -> (s: String)
    ensures
        s@ == integer_text(v as int),
{
    let mut s = String::new();
    if v < 0 {
        s.push('-');
        push_digits(&mut s, (0i128 - v as i128) as u64);
    } else {
        push_digits(&mut s, v as u64);
    }
    s
}

/// A string of the given characters.
pub(crate) fn string_of(cs: &[char]) -> (s: String)
    ensures
        s@ == cs@,
{
    let mut s = String::new();
    let mut i: usize = 0;
    while i < cs.len()
        invariant
            i <= cs@.len(),
            s@ == cs@.subrange(0, i as int),
        decreases cs@.len() - i,
    {
        s.push(cs[i]);
        i = i + 1;
        assert(s@ =~= cs@.subrange(0, i as int));
    }
    assert(cs@.subrange(0, cs@.len() as int) =~= cs@);
    s
}

/// Appends the decimal digits of `n` to `s`.
fn push_digits(s: &mut String, n: u64)
    ensures
        final(s)@ == old(s)@ + digits_text(n as nat),
    decreases n,
{
    if n >= 10 {
        push_digits(s, n / 10);
    }
    let d = (n % 10) as u8;
    s.push((48u8 + d) as char);
    assert(final(s)@ =~= old(s)@ + digits_text(n as nat)) by {
        if n >= 10 {
            assert(digits_text(n as nat) == digits_text((n / 10) as nat).push(digit_char((n % 10) as nat)));
        }
    }
}

/// The characters of a string, one by one.
fn chars_of(s: &str) -> (w: Vec<char>)
    ensures
        w@ == s@,
{
    let n = s.unicode_len();
    let mut w: Vec<char> = Vec::new();
    let mut i: usize = 0;
    while i < n
        invariant
            n == s@.len(),
            i <= n,
            w@ == s@.subrange(0, i as int),
        decreases n - i,
    {
        w.push(s.get_char(i));
        i = i + 1;
    }
    assert(w@ =~= s@);
    w
}

/// The reserved word that a piece of text spells, if any.
fn keyword_token(w: &Vec<char>) -> (r: Option<Token>)
    ensures
        r is Some <==> keyword(w@) is Some,
        r is Some ==> r->0@ == SpecToken::of_kind(keyword(w@)->0),
{
    let n = w.len();
    if n == 4 && w[0] == 'e' && w[1] == 'l' && w[2] == 's' && w[3] == 'e' {
        assert(w@ =~= seq!['e', 'l', 's', 'e']);
        Some(Token::Else)
    } else if n == 5 && w[0] == 'f' && w[1] == 'a' && w[2] == 'l' && w[3] == 's' && w[4] == 'e' {
        assert(w@ =~= seq!['f', 'a', 'l', 's', 'e']);
        Some(Token::False)
    } else if n == 2 && w[0] == 'f' && w[1] == 'n' {
        assert(w@ =~= seq!['f', 'n']);
        Some(Token::Function)
    } else if n == 2 && w[0] == 'i' && w[1] == 'f' {
        assert(w@ =~= seq!['i', 'f']);
        Some(Token::If)
    } else if n == 3 && w[0] == 'l' && w[1] == 'e' && w[2] == 't' {
        assert(w@ =~= seq!['l', 'e', 't']);
        Some(Token::Let)
    } else if n == 6 && w[0] == 'r' && w[1] == 'e' && w[2] == 't' && w[3] == 'u' && w[4] == 'r'
        && w[5] == 'n' {
        assert(w@ =~= seq!['r', 'e', 't', 'u', 'r', 'n']);
        Some(Token::Return)
    } else if n == 4 && w[0] == 't' && w[1] == 'r' && w[2] == 'u' && w[3] == 'e' {
        assert(w@ =~= seq!['t', 'r', 'u', 'e']);
        Some(Token::True)
    } else {
        None
    }
}

/// The value of text made of digits only, if it fits in an `i64`.
fn decimal_of(w: &Vec<char>) -> (r: Option<i64>)
    ensures
        r is Some <==> all_digits(w@) && decimal_value(w@) <= i64::MAX,
        r is Some ==> r->0 == decimal_value(w@),
{
    let n = w.len();
    let mut acc: i64 = 0;
    let mut i: usize = 0;
    while i < n
        invariant
            n == w@.len(),
            i <= n,
            all_digits(w@.subrange(0, i as int)),
            0 <= acc,
            acc == decimal_value(w@.subrange(0, i as int)),
        decreases n - i,
    {
        let c = w[i];
        if !('0' <= c && c <= '9') {
            assert(!all_digits(w@));
            return None;
        }
        let ghost prefix = w@.subrange(0, i as int + 1);
        assert(prefix.drop_last() =~= w@.subrange(0, i as int));
        let next: u128 = acc as u128 * 10 + (c as u32 - '0' as u32) as u128;
        assert(next == decimal_value(prefix));
        if next > i64::MAX as u128 {
            proof {
                if all_digits(w@) {
                    lemma_decimal_prefix(w@, i as int + 1);
                }
            }
            return None;
        }
        acc = next as i64;
        i = i + 1;
        assert(all_digits(w@.subrange(0, i as int))) by {
            assert forall|j: int| 0 <= j < i implies is_digit_char(#[trigger] w@.subrange(0, i as int)[j]) by {
                if j < i - 1 {
                    assert(w@.subrange(0, i as int)[j] == w@.subrange(0, i - 1)[j]);
                }
            }
        }
    }
    assert(w@.subrange(0, n as int) =~= w@);
    Some(acc)
}

impl core::str::FromStr for Token {
    type Err = Error;

    fn from_str(s: &str) -> (r: Result<Token, Error>)
        ensures
            token_result(r) == word_token(s@),
    {
        Token::from_word(s)
    }
}

} // verus!
