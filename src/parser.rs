use vstd::prelude::*;

use crate::expression::Expression;
use crate::lexer::{scan_end, scanned, Lexer, LexerError, LexerResult, Token};

verus! {

/// Why a formula could not be parsed.
#[derive(Debug)]
pub enum ParserError {
    Lexer(LexerError),
    ExpectedToken(Token),
    UnexpectedToken(Token),
    ExpectedEndOfInput,
    UnexpectedEndOfInput,
}

pub type ParserResult = Result<Expression, ParserError>;

impl ParserError {
    /// Equality of errors, a token by `Token::equiv`.
    pub open spec fn equiv(self, other: ParserError) -> bool {
        match self {
            ParserError::ExpectedToken(a) => match other {
                ParserError::ExpectedToken(b) => a.equiv(b),
                _ => false,
            },
            ParserError::UnexpectedToken(a) => match other {
                ParserError::UnexpectedToken(b) => a.equiv(b),
                _ => false,
            },
            _ => self == other,
        }
    }
}

impl PartialEq for ParserError {
    fn eq(&self, other: &ParserError) -> (r: bool) {
        match (self, other) {
            (ParserError::Lexer(a), ParserError::Lexer(b)) => *a == *b,
            (ParserError::ExpectedToken(a), ParserError::ExpectedToken(b)) => a.eq(b),
            (ParserError::UnexpectedToken(a), ParserError::UnexpectedToken(b)) => a.eq(b),
            (ParserError::ExpectedEndOfInput, ParserError::ExpectedEndOfInput) => true,
            (ParserError::UnexpectedEndOfInput, ParserError::UnexpectedEndOfInput) => true,
            _ => false,
        }
    }
}

impl vstd::std_specs::cmp::PartialEqSpecImpl for ParserError {
    open spec fn obeys_eq_spec() -> bool {
        true
    }

    open spec fn eq_spec(&self, other: &ParserError) -> bool {
        self.equiv(*other)
    }
}

/// The position reached after `n` tokens, lexing `s` from `i`.
pub open spec fn scan_position(s: Seq<char>, i: int, n: nat) -> int
    decreases n,
{
    if n == 0 {
        i
    } else {
        scan_end(s, scan_position(s, i, (n - 1) as nat))
    }
}

/// `t` is the whole sequence of items that lexing `s` from `i` yields.
pub open spec fn lexes_to(s: Seq<char>, i: int, t: Seq<LexerResult>) -> bool {
    &&& forall|k: int| 0 <= k < t.len() ==> scanned(s, scan_position(s, i, k as nat), Some(#[trigger] t[k]))
    &&& scanned(s, scan_position(s, i, t.len()), None)
}

/// `t[i]` is the token `token`.
pub open spec fn token_at(t: Seq<LexerResult>, i: int, token: Token) -> bool {
    0 <= i < t.len() && t[i] == Ok::<Token, LexerError>(token)
}

/// An atom read from position `i`: a variable, a negated atom, or a formula
/// in parentheses. On success, the expression and the position after it.
pub open spec fn atom_from(t: Seq<LexerResult>, i: int) -> Result<(Expression, int), ParserError>
    decreases t.len() - i, 0int,
{
    if !(0 <= i < t.len()) {
        Err(ParserError::UnexpectedEndOfInput)
    } else {
        match t[i] {
            Ok(Token::Var(name)) => Ok((Expression::Var(name), i + 1)),
            Ok(Token::Not) => match atom_from(t, i + 1) {
                Ok((e, j)) => Ok((Expression::Not(Box::new(e)), j)),
                Err(x) => Err(x),
            },
            Ok(Token::LParen) => match or_from(t, i + 1) {
                Ok((e, j)) => if token_at(t, j, Token::RParen) {
                    Ok((e, j + 1))
                } else {
                    Err(ParserError::ExpectedToken(Token::RParen))
                },
                Err(x) => Err(x),
            },
            Ok(token) => Err(ParserError::UnexpectedToken(token)),
            Err(x) => Err(ParserError::Lexer(x)),
        }
    }
}

/// `left` followed by `^ atom` as long as a `^` comes, folded to the left.
pub open spec fn xor_rest(t: Seq<LexerResult>, i: int, left: Expression) -> Result<
    (Expression, int),
    ParserError,
>
    decreases t.len() - i, 1int,
{
    if token_at(t, i, Token::Xor) {
        match atom_from(t, i + 1) {
            Ok((right, j)) => if i < j <= t.len() {
                xor_rest(t, j, Expression::Xor(Box::new(left), Box::new(right)))
            } else {
                Ok((left, i))
            },
            Err(x) => Err(x),
        }
    } else {
        Ok((left, i))
    }
}

/// Atoms joined by `^`.
pub open spec fn xor_from(t: Seq<LexerResult>, i: int) -> Result<(Expression, int), ParserError>
    decreases t.len() - i, 2int,
{
    match atom_from(t, i) {
        Ok((left, j)) => if i <= j <= t.len() {
            xor_rest(t, j, left)
        } else {
            Ok((left, j))
        },
        Err(x) => Err(x),
    }
}

/// `left` followed by `& xor` as long as a `&` comes, folded to the left.
pub open spec fn and_rest(t: Seq<LexerResult>, i: int, left: Expression) -> Result<
    (Expression, int),
    ParserError,
>
    decreases t.len() - i, 3int,
{
    if token_at(t, i, Token::And) {
        match xor_from(t, i + 1) {
            Ok((right, j)) => if i < j <= t.len() {
                and_rest(t, j, Expression::And(Box::new(left), Box::new(right)))
            } else {
                Ok((left, i))
            },
            Err(x) => Err(x),
        }
    } else {
        Ok((left, i))
    }
}

/// `^`-formulas joined by `&`.
pub open spec fn and_from(t: Seq<LexerResult>, i: int) -> Result<(Expression, int), ParserError>
    decreases t.len() - i, 4int,
{
    match xor_from(t, i) {
        Ok((left, j)) => if i <= j <= t.len() {
            and_rest(t, j, left)
        } else {
            Ok((left, j))
        },
        Err(x) => Err(x),
    }
}

/// `left` followed by `| and` as long as a `|` comes, folded to the left.
pub open spec fn or_rest(t: Seq<LexerResult>, i: int, left: Expression) -> Result<
    (Expression, int),
    ParserError,
>
    decreases t.len() - i, 5int,
{
    if token_at(t, i, Token::Or) {
        match and_from(t, i + 1) {
            Ok((right, j)) => if i < j <= t.len() {
                or_rest(t, j, Expression::Or(Box::new(left), Box::new(right)))
            } else {
                Ok((left, i))
            },
            Err(x) => Err(x),
        }
    } else {
        Ok((left, i))
    }
}

/// `&`-formulas joined by `|`: a whole formula.
pub open spec fn or_from(t: Seq<LexerResult>, i: int) -> Result<(Expression, int), ParserError>
    decreases t.len() - i, 6int,
{
    match and_from(t, i) {
        Ok((left, j)) => if i <= j <= t.len() {
            or_rest(t, j, left)
        } else {
            Ok((left, j))
        },
        Err(x) => Err(x),
    }
}

/// The result of parsing the tokens from `i`: a formula that must be
/// followed by the end of the input.
pub open spec fn parse_from(t: Seq<LexerResult>, i: int) -> Result<Expression, ParserError> {
    match or_from(t, i) {
        Ok((e, j)) => if !(0 <= j < t.len()) {
            Ok(e)
        } else {
            match t[j] {
                Ok(token) => Err(ParserError::UnexpectedToken(token)),
                Err(x) => Err(ParserError::Lexer(x)),
            }
        },
        Err(x) => Err(x),
    }
}

/// `r` is what the step `s` gives, and `pos` the position it reached.
pub open spec fn step_outcome(
    s: Result<(Expression, int), ParserError>,
    r: ParserResult,
    pos: int,
) -> bool {
    match s {
        Ok((e, j)) => r == Ok::<Expression, ParserError>(e) && pos == j,
        Err(x) => r == Err::<Expression, ParserError>(x),
    }
}

/// Recursive-descent parser over the tokens of a lexer.
pub struct Parser {
    tokens: Vec<LexerResult>,
    position: usize,
}

impl Parser {
    /// The tokens the parser reads.
    pub closed spec fn tokens(&self) -> Seq<LexerResult> {
        self.tokens@
    }

    /// The position of the next token to read.
    pub closed spec fn cursor(&self) -> int {
        self.position as int
    }

    /// The cursor stands within the tokens.
    pub closed spec fn wf(&self) -> bool {
        self.position <= self.tokens.len()
    }

    /// Reads every item that `lexer` yields.
    pub fn new(lexer: Lexer) -> (r: Parser)
        ensures
            lexes_to(lexer.text(), lexer.cursor(), r.tokens()),
            r.cursor() == 0,
            r.wf(),
    {
        let ghost s = lexer.text();
        let ghost i0 = lexer.cursor();
        let mut rest = lexer;
        let mut tokens: Vec<LexerResult> = Vec::new();
        loop
            invariant
                lexer.text() == s,
                lexer.cursor() == i0,
                rest.text() == s,
                rest.cursor() == scan_position(s, i0, tokens@.len()),
                forall|k: int|
                    0 <= k < tokens@.len() ==> scanned(
                        s,
                        scan_position(s, i0, k as nat),
                        Some(#[trigger] tokens@[k]),
                    ),
                tokens@.len() > 0 ==> rest.cursor() <= s.len(),
            decreases if rest.cursor() <= s.len() {
                s.len() - rest.cursor() + 1
            } else {
                0
            },
        {
            let ghost before = tokens@;
            proof {
                crate::lexer::lemma_scan_bounds(s, rest.cursor());
            }
            match rest.next() {
                Some(item) => {
                    tokens.push(item);
                    proof {
                        assert(scan_position(s, i0, tokens@.len()) == scan_end(
                            s,
                            scan_position(s, i0, before.len()),
                        ));
                        assert forall|k: int| 0 <= k < tokens@.len() implies scanned(
                            s,
                            scan_position(s, i0, k as nat),
                            Some(#[trigger] tokens@[k]),
                        ) by {
                            if k < before.len() {
                                assert(tokens@[k] == before[k]);
                            }
                        }
                    }
                },
                None => {
                    return Parser { tokens, position: 0 };
                },
            }
        }
    }

    fn peek_is(&self, token: Token) -> (r: bool)
        requires
            !(token is Var),
        ensures
            r == token_at(self.tokens(), self.cursor(), token),
    {
        if self.position < self.tokens.len() {
            match (&self.tokens[self.position], &token) {
                (Ok(Token::And), Token::And) => true,
                (Ok(Token::Or), Token::Or) => true,
                (Ok(Token::Xor), Token::Xor) => true,
                (Ok(Token::Not), Token::Not) => true,
                (Ok(Token::LParen), Token::LParen) => true,
                (Ok(Token::RParen), Token::RParen) => true,
                _ => false,
            }
        } else {
            false
        }
    }

    fn take_token(&mut self) -> (r: Option<LexerResult>)
        requires
            old(self).wf(),
        ensures
            final(self).wf(),
            final(self).tokens() == old(self).tokens(),
            old(self).cursor() < old(self).tokens().len() ==> r == Some(
                old(self).tokens()[old(self).cursor()],
            ) && final(self).cursor() == old(self).cursor() + 1,
            old(self).cursor() >= old(self).tokens().len() ==> r is None && final(self).cursor()
                == old(self).cursor(),
    {
        if self.position < self.tokens.len() {
            let item = match &self.tokens[self.position] {
                Ok(token) => Ok(token.clone()),
                Err(error) => Err(*error),
            };
            self.position = self.position + 1;
            Some(item)
        } else {
            None
        }
    }

    fn parse_atom(&mut self) -> (r: ParserResult)
        requires
            old(self).wf(),
        ensures
            final(self).wf(),
            final(self).tokens() == old(self).tokens(),
            step_outcome(atom_from(old(self).tokens(), old(self).cursor()), r, final(self).cursor()),
            r is Ok ==> final(self).cursor() > old(self).cursor(),
        decreases old(self).tokens().len() - old(self).cursor(), 0int,
    {
        match self.take_token() {
            Some(Ok(Token::Var(name))) => Ok(Expression::Var(name)),
            Some(Ok(Token::Not)) => match self.parse_atom() {
                Ok(e) => Ok(Expression::Not(Box::new(e))),
                Err(x) => Err(x),
            },
            Some(Ok(Token::LParen)) => {
                let e = match self.parse_or() {
                    Ok(e) => e,
                    Err(x) => return Err(x),
                };
                match self.take_token() {
                    Some(Ok(Token::RParen)) => Ok(e),
                    _ => Err(ParserError::ExpectedToken(Token::RParen)),
                }
            },
            Some(Ok(token)) => Err(ParserError::UnexpectedToken(token)),
            Some(Err(error)) => Err(ParserError::Lexer(error)),
            None => Err(ParserError::UnexpectedEndOfInput),
        }
    }

    fn parse_xor(&mut self) -> (r: ParserResult)
        requires
            old(self).wf(),
        ensures
            final(self).wf(),
            final(self).tokens() == old(self).tokens(),
            step_outcome(xor_from(old(self).tokens(), old(self).cursor()), r, final(self).cursor()),
            r is Ok ==> final(self).cursor() > old(self).cursor(),
        decreases old(self).tokens().len() - old(self).cursor(), 2int,
    {
        let ghost t = self.tokens();
        let ghost i0 = self.cursor();
        let mut left = match self.parse_atom() {
            Ok(e) => e,
            Err(x) => return Err(x),
        };
        while self.peek_is(Token::Xor)
            invariant
                self.wf(),
                self.tokens() == t,
                t == old(self).tokens(),
                i0 == old(self).cursor(),
                i0 < self.cursor(),
                xor_from(t, i0) == xor_rest(t, self.cursor(), left),
            decreases t.len() - self.cursor(),
        {
            self.position = self.position + 1;
            let right = match self.parse_atom() {
                Ok(e) => e,
                Err(x) => return Err(x),
            };
            left = Expression::Xor(Box::new(left), Box::new(right));
        }
        Ok(left)
    }

    fn parse_and(&mut self) -> (r: ParserResult)
        requires
            old(self).wf(),
        ensures
            final(self).wf(),
            final(self).tokens() == old(self).tokens(),
            step_outcome(and_from(old(self).tokens(), old(self).cursor()), r, final(self).cursor()),
            r is Ok ==> final(self).cursor() > old(self).cursor(),
        decreases old(self).tokens().len() - old(self).cursor(), 4int,
    {
        let ghost t = self.tokens();
        let ghost i0 = self.cursor();
        let mut left = match self.parse_xor() {
            Ok(e) => e,
            Err(x) => return Err(x),
        };
        while self.peek_is(Token::And)
            invariant
                self.wf(),
                self.tokens() == t,
                t == old(self).tokens(),
                i0 == old(self).cursor(),
                i0 < self.cursor(),
                and_from(t, i0) == and_rest(t, self.cursor(), left),
            decreases t.len() - self.cursor(),
        {
            self.position = self.position + 1;
            let right = match self.parse_xor() {
                Ok(e) => e,
                Err(x) => return Err(x),
            };
            left = Expression::And(Box::new(left), Box::new(right));
        }
        Ok(left)
    }

    fn parse_or(&mut self) -> (r: ParserResult)
        requires
            old(self).wf(),
        ensures
            final(self).wf(),
            final(self).tokens() == old(self).tokens(),
            step_outcome(or_from(old(self).tokens(), old(self).cursor()), r, final(self).cursor()),
            r is Ok ==> final(self).cursor() > old(self).cursor(),
        decreases old(self).tokens().len() - old(self).cursor(), 6int,
    {
        let ghost t = self.tokens();
        let ghost i0 = self.cursor();
        let mut left = match self.parse_and() {
            Ok(e) => e,
            Err(x) => return Err(x),
        };
        while self.peek_is(Token::Or)
            invariant
                self.wf(),
                self.tokens() == t,
                t == old(self).tokens(),
                i0 == old(self).cursor(),
                i0 < self.cursor(),
                or_from(t, i0) == or_rest(t, self.cursor(), left),
            decreases t.len() - self.cursor(),
        {
            self.position = self.position + 1;
            let right = match self.parse_and() {
                Ok(e) => e,
                Err(x) => return Err(x),
            };
            left = Expression::Or(Box::new(left), Box::new(right));
        }
        Ok(left)
    }

    /// Parses the remaining tokens as one formula, see `parse_from`.
    pub fn parse(&mut self) -> (r: ParserResult)
        requires
            old(self).wf(),
        ensures
            final(self).wf(),
            final(self).tokens() == old(self).tokens(),
            r == parse_from(old(self).tokens(), old(self).cursor()),
    {
        let expression = match self.parse_or() {
            Ok(e) => e,
            Err(x) => return Err(x),
        };
        match self.take_token() {
            None => Ok(expression),
            Some(Ok(token)) => Err(ParserError::UnexpectedToken(token)),
            Some(Err(error)) => Err(ParserError::Lexer(error)),
        }
    }
}

} // verus!
