use vstd::prelude::*;

verus! {

/// A token of the formula syntax.
#[derive(Debug)]
pub enum Token {
    Var(String),
    And,
    Or,
    Not,
    LParen,
    RParen,
    Xor,
}

/// A character that no token starts with.
#[derive(Debug, Clone, Copy, PartialEq, Eq, Structural)]
pub enum LexerError {
    UnexpectedCharacter(char),
}

pub type LexerResult = Result<Token, LexerError>;

impl Token {
    /// Equality of tokens, a variable by its characters.
    pub open spec fn equiv(self, other: Token) -> bool {
        match self {
            Token::Var(a) => match other {
                Token::Var(b) => a@ == b@,
                _ => false,
            },
            _ => self == other,
        }
    }
}

impl Clone for Token {
    fn clone(&self) -> (r: Token)
        ensures
            r == *self,
    {
        match self {
            Token::Var(name) => Token::Var(name.clone()),
            Token::And => Token::And,
            Token::Or => Token::Or,
            Token::Not => Token::Not,
            Token::LParen => Token::LParen,
            Token::RParen => Token::RParen,
            Token::Xor => Token::Xor,
        }
    }
}

impl PartialEq for Token {
    fn eq(&self, other: &Token) -> (r: bool) {
        match (self, other) {
            (Token::Var(a), Token::Var(b)) => a.eq(b),
            (Token::And, Token::And) => true,
            (Token::Or, Token::Or) => true,
            (Token::Not, Token::Not) => true,
            (Token::LParen, Token::LParen) => true,
            (Token::RParen, Token::RParen) => true,
            (Token::Xor, Token::Xor) => true,
            _ => false,
        }
    }
}

impl vstd::std_specs::cmp::PartialEqSpecImpl for Token {
    open spec fn obeys_eq_spec() -> bool {
        true
    }

    open spec fn eq_spec(&self, other: &Token) -> bool {
        self.equiv(*other)
    }
}

/// ASCII whitespace: space, tab, line feed, form feed, carriage return.
pub open spec fn is_space(c: char) -> bool {
    c == ' ' || c == '\t' || c == '\n' || c == '\x0C' || c == '\r'
}

/// ASCII letters and digits.
pub open spec fn is_alphanumeric(c: char) -> bool {
    ('a' <= c && c <= 'z') || ('A' <= c && c <= 'Z') || ('0' <= c && c <= '9')
}

/// The symbol of negation, `¬`.
pub open spec fn is_not_sign(c: char) -> bool {
    c == '\u{ac}'
}

/// The first position at or after `i` that holds no whitespace.
pub open spec fn skip_space(s: Seq<char>, i: int) -> int
    decreases s.len() - i,
{
    if 0 <= i < s.len() && is_space(s[i]) {
        skip_space(s, i + 1)
    } else {
        i
    }
}

/// The end of the run of letters and digits that starts at `i`.
pub open spec fn word_end(s: Seq<char>, i: int) -> int
    decreases s.len() - i,
{
    if 0 <= i < s.len() && is_alphanumeric(s[i]) {
        word_end(s, i + 1)
    } else {
        i
    }
}

/// The single-character token that `c` stands for.
pub open spec fn symbol(c: char) -> Option<Token> {
    if c == '^' {
        Some(Token::Xor)
    } else if c == '|' {
        Some(Token::Or)
    } else if c == '&' {
        Some(Token::And)
    } else if is_not_sign(c) {
        Some(Token::Not)
    } else if c == '(' {
        Some(Token::LParen)
    } else if c == ')' {
        Some(Token::RParen)
    } else {
        None
    }
}

/// `t` is what the lexer yields from position `i` of `s`: nothing at the end
/// of the input, else the token after the whitespace, an error for a
/// character that starts no token.
pub open spec fn scanned(s: Seq<char>, i: int, t: Option<LexerResult>) -> bool {
    let k = skip_space(s, i);
    if !(0 <= k < s.len()) {
        t is None
    } else if symbol(s[k]) is Some {
        t == Some(Ok::<Token, LexerError>(symbol(s[k])->0))
    } else if is_alphanumeric(s[k]) {
        t matches Some(Ok(Token::Var(name))) && name@ == s.subrange(k, word_end(s, k))
    } else {
        t == Some(Err::<Token, LexerError>(LexerError::UnexpectedCharacter(s[k])))
    }
}

/// The position at which the lexer stands after yielding from position `i`.
pub open spec fn scan_end(s: Seq<char>, i: int) -> int {
    let k = skip_space(s, i);
    if !(0 <= k < s.len()) {
        k
    } else if symbol(s[k]) is None && is_alphanumeric(s[k]) {
        word_end(s, k)
    } else {
        k + 1
    }
}

proof fn lemma_skip_space_bounds(s: Seq<char>, i: int)
    requires
        0 <= i,
    ensures
        i <= skip_space(s, i),
        i <= s.len() ==> skip_space(s, i) <= s.len(),
    decreases s.len() - i,
{
    if 0 <= i < s.len() && is_space(s[i]) {
        lemma_skip_space_bounds(s, i + 1);
    }
}

proof fn lemma_word_end_bounds(s: Seq<char>, i: int)
    requires
        0 <= i <= s.len(),
    ensures
        i <= word_end(s, i) <= s.len(),
    decreases s.len() - i,
{
    if 0 <= i < s.len() && is_alphanumeric(s[i]) {
        lemma_word_end_bounds(s, i + 1);
    }
}

/// The lexer never moves back, and a call that yields an item moves it
/// forward and keeps it within the input.
pub proof fn lemma_scan_bounds(s: Seq<char>, i: int)
    ensures
        i <= scan_end(s, i),
        !scanned(s, i, None) ==> i < scan_end(s, i) <= s.len(),
        0 <= skip_space(s, i) < s.len() ==> !scanned(s, i, None),
{
    if 0 <= i {
        lemma_skip_space_bounds(s, i);
    }
    let k = skip_space(s, i);
    if 0 <= k < s.len() && is_alphanumeric(s[k]) {
        lemma_word_end_bounds(s, k + 1);
    }
}

/// Relies on `String::from_iter`, which collects characters in order.
#[verifier::external_body]
fn string_from_chars(chars: Vec<char>) -> (r: String)
    ensures
        r@ == chars@,
{
    String::from_iter(chars)
}

/// Splits a formula into tokens, one per call of `next`.
pub struct Lexer {
    chars: Vec<char>,
    position: usize,
}

impl Lexer {
    /// The characters of the input.
    pub closed spec fn text(&self) -> Seq<char> {
        self.chars@
    }

    /// The position of the next character to read.
    pub closed spec fn cursor(&self) -> int {
        self.position as int
    }

    pub fn new(string: &str) -> (r: Lexer)
        ensures
            r.text() == string@,
            r.cursor() == 0,
    {
        let n = string.unicode_len();
        let mut chars: Vec<char> = Vec::new();
        let mut i: usize = 0;
        while i < n
            invariant
                n == string@.len(),
                i <= n,
                chars@ == string@.subrange(0, i as int),
            decreases n - i,
        {
            chars.push(string.get_char(i));
            i = i + 1;
        }
        proof {
            assert(string@.subrange(0, n as int) =~= string@);
        }
        Lexer { chars, position: 0 }
    }

    /// The next token, or `None` at the end of the input. An unexpected
    /// character is yielded as an error and skipped.
    pub fn next(&mut self) -> (r: Option<LexerResult>)
        ensures
            final(self).text() == old(self).text(),
            scanned(old(self).text(), old(self).cursor(), r),
            final(self).cursor() == scan_end(old(self).text(), old(self).cursor()),
    {
        let ghost s = self.chars@;
        let ghost start = self.position as int;
        while self.position < self.chars.len() && is_ascii_space(self.chars[self.position])
            invariant
                self.chars@ == s,
                start <= self.position,
                skip_space(s, start) == skip_space(s, self.position as int),
            decreases self.chars@.len() - self.position,
        {
            self.position = self.position + 1;
        }
        if self.position >= self.chars.len() {
            return None;
        }
        let k = self.position;
        let c = self.chars[k];
        self.position = k + 1;
        if c == '^' {
            Some(Ok(Token::Xor))
        } else if c == '|' {
            Some(Ok(Token::Or))
        } else if c == '&' {
            Some(Ok(Token::And))
        } else if c == '\u{ac}' {
            Some(Ok(Token::Not))
        } else if c == '(' {
            Some(Ok(Token::LParen))
        } else if c == ')' {
            Some(Ok(Token::RParen))
        } else if is_ascii_alphanumeric(c) {
            let mut word: Vec<char> = Vec::new();
            word.push(c);
            while self.position < self.chars.len() && is_ascii_alphanumeric(
                self.chars[self.position],
            )
                invariant
                    self.chars@ == s,
                    k < self.position <= s.len(),
                    word@ == s.subrange(k as int, self.position as int),
                    word_end(s, k as int) == word_end(s, self.position as int),
                decreases self.chars@.len() - self.position,
            {
                word.push(self.chars[self.position]);
                self.position = self.position + 1;
            }
            Some(Ok(Token::Var(string_from_chars(word))))
        } else {
            Some(Err(LexerError::UnexpectedCharacter(c)))
        }
    }
}

fn is_ascii_space(c: char) -> (r: bool)
    ensures
        r == is_space(c),
{
    c == ' ' || c == '\t' || c == '\n' || c == '\x0C' || c == '\r'
}

fn is_ascii_alphanumeric(c: char) -> (r: bool)
    ensures
        r == is_alphanumeric(c),
{
    ('a' <= c && c <= 'z') || ('A' <= c && c <= 'Z') || ('0' <= c && c <= '9')
}

} // verus!
