//! The scanner: source text to tokens, in one forward pass.
use crate::double::{decimal_double, is_digit, is_numeral, parse_decimal};
use crate::error::{LoxError, Problem, Site};
use crate::token::{Literal, LiteralModel, Token, TokenModel, TokenType};
use vstd::prelude::*;
use vstd::slice::slice_subrange;

verus! {

/// Whether a character has the Unicode `Alphabetic` property.
pub uninterp spec fn alphabetic(c: char) -> bool;

/// Relies on `char::is_alphabetic`, whose result depends on the character
/// alone.
#[verifier::external_body]
fn is_alphabetic_char(c: char) -> (r: bool)
    ensures
        r == alphabetic(c),
{
    c.is_alphabetic()
}

/// Relies on collecting `str::chars` into a `Vec`.
#[verifier::external_body]
fn chars_of(s: &str) -> (r: Vec<char>)
    ensures
        r@ == s@,
{
    s.chars().collect()
}

/// Relies on collecting a slice of characters into a `String`.
#[verifier::external_body]
fn text_of(chars: &[char]) -> (r: String)
    ensures
        r@ == chars@,
{
    chars.iter().collect()
}

/// A character that may start an identifier.
pub open spec fn starts_word(c: char) -> bool {
    alphabetic(c) || c == '_'
}

/// A character that may continue an identifier.
pub open spec fn continues_word(c: char) -> bool {
    is_digit(c) || starts_word(c)
}

/// The token of a character that stands alone.
pub open spec fn single_token(c: char) -> Option<TokenType> {
    if c == '(' {
        Some(TokenType::LeftParen)
    } else if c == ')' {
        Some(TokenType::RightParen)
    } else if c == '{' {
        Some(TokenType::LeftBrace)
    } else if c == '}' {
        Some(TokenType::RightBrace)
    } else if c == ',' {
        Some(TokenType::Comma)
    } else if c == '.' {
        Some(TokenType::Dot)
    } else if c == '-' {
        Some(TokenType::Minus)
    } else if c == '+' {
        Some(TokenType::Plus)
    } else if c == ';' {
        Some(TokenType::Semicolon)
    } else if c == '*' {
        Some(TokenType::Star)
    } else {
        None
    }
}

/// For a character that an `=` may follow: its token alone, and with the `=`.
pub open spec fn paired_token(c: char) -> Option<(TokenType, TokenType)> {
    if c == '!' {
        Some((TokenType::Bang, TokenType::BangEqual))
    } else if c == '=' {
        Some((TokenType::Equal, TokenType::EqualEqual))
    } else if c == '<' {
        Some((TokenType::Less, TokenType::LessEqual))
    } else if c == '>' {
        Some((TokenType::Greater, TokenType::GreaterEqual))
    } else {
        None
    }
}

/// The reserved words.
pub open spec fn keyword_type(s: Seq<char>) -> Option<TokenType> {
    if s == "and"@ {
        Some(TokenType::And)
    } else if s == "class"@ {
        Some(TokenType::Class)
    } else if s == "else"@ {
        Some(TokenType::Else)
    } else if s == "false"@ {
        Some(TokenType::False)
    } else if s == "for"@ {
        Some(TokenType::For)
    } else if s == "fun"@ {
        Some(TokenType::Fun)
    } else if s == "if"@ {
        Some(TokenType::If)
    } else if s == "nil"@ {
        Some(TokenType::Nil)
    } else if s == "or"@ {
        Some(TokenType::Or)
    } else if s == "print"@ {
        Some(TokenType::Print)
    } else if s == "return"@ {
        Some(TokenType::Return)
    } else if s == "super"@ {
        Some(TokenType::Super)
    } else if s == "this"@ {
        Some(TokenType::This)
    } else if s == "true"@ {
        Some(TokenType::True)
    } else if s == "var"@ {
        Some(TokenType::Var)
    } else if s == "while"@ {
        Some(TokenType::While)
    } else {
        None
    }
}

/// The end of the run of digits that starts at `i`.
pub open spec fn digits_end(src: Seq<char>, i: int) -> int
    decreases src.len() - i,
{
    if 0 <= i < src.len() && is_digit(src[i]) {
        digits_end(src, i + 1)
    } else {
        i
    }
}

/// The end of the run of identifier characters that starts at `i`.
pub open spec fn word_end(src: Seq<char>, i: int) -> int
    decreases src.len() - i,
{
    if 0 <= i < src.len() && continues_word(src[i]) {
        word_end(src, i + 1)
    } else {
        i
    }
}

/// The first index at or after `i` that holds `c`, or the length.
pub open spec fn find_from(src: Seq<char>, i: int, c: char) -> int
    decreases src.len() - i,
{
    if 0 <= i < src.len() && src[i] != c {
        find_from(src, i + 1, c)
    } else {
        i
    }
}

/// The end of a numeral that starts with a digit at `i`: its digits, and a dot
/// and more digits only where a digit follows the dot.
pub open spec fn numeral_end(src: Seq<char>, i: int) -> int {
    let k = digits_end(src, i);
    if k + 1 < src.len() && src[k] == '.' && is_digit(src[k + 1]) {
        digits_end(src, k + 1)
    } else {
        k
    }
}

/// The number of line breaks in `src[a..b]`.
pub open spec fn newlines(src: Seq<char>, a: int, b: int) -> nat
    decreases b - a,
{
    if a < b {
        let here: nat = if src[b - 1] == '\n' {
            1
        } else {
            0
        };
        newlines(src, a, b - 1) + here
    } else {
        0
    }
}

/// What one scanning step from index `i` does: where it stops, the line
/// there, and the token or error it reports, if any.
pub struct Step {
    pub next: int,
    pub line: nat,
    pub token: Option<TokenModel>,
    pub error: Option<LoxError>,
}

pub open spec fn token_of(
    src: Seq<char>,
    start: int,
    end: int,
    token_type: TokenType,
    literal: Option<LiteralModel>,
    line: nat,
) -> TokenModel {
    TokenModel { token_type, lexeme: src.subrange(start, end), literal, line }
}

pub open spec fn emit(next: int, line: nat, token: TokenModel) -> Step {
    Step { next, line, token: Some(token), error: None }
}

pub open spec fn skip(next: int, line: nat) -> Step {
    Step { next, line, token: None, error: None }
}

pub open spec fn lexical_error(line: nat, problem: Problem) -> LoxError {
    LoxError::ParseError { line: line as usize, site: Site::Line, problem }
}

/// One step of the scanner from index `i` on line `line`.
pub open spec fn step(src: Seq<char>, i: int, line: nat) -> Step {
    let c = src[i];
    if single_token(c) is Some {
        emit(i + 1, line, token_of(src, i, i + 1, single_token(c)->0, None, line))
    } else if paired_token(c) is Some {
        let (alone, with_equal) = paired_token(c)->0;
        if i + 1 < src.len() && src[i + 1] == '=' {
            emit(i + 2, line, token_of(src, i, i + 2, with_equal, None, line))
        } else {
            emit(i + 1, line, token_of(src, i, i + 1, alone, None, line))
        }
    } else if c == '/' {
        if i + 1 < src.len() && src[i + 1] == '/' {
            skip(find_from(src, i + 2, '\n'), line)
        } else {
            emit(i + 1, line, token_of(src, i, i + 1, TokenType::Slash, None, line))
        }
    } else if c == ' ' || c == '\r' || c == '\t' {
        skip(i + 1, line)
    } else if c == '\n' {
        skip(i + 1, line + 1)
    } else if c == '"' {
        let j = find_from(src, i + 1, '"');
        let end_line = line + newlines(src, i + 1, j);
        if j < src.len() {
            emit(
                j + 1,
                end_line,
                token_of(
                    src,
                    i,
                    j + 1,
                    TokenType::String,
                    Some(LiteralModel::Str(src.subrange(i + 1, j))),
                    end_line,
                ),
            )
        } else {
            Step {
                next: j,
                line: end_line,
                token: None,
                error: Some(lexical_error(end_line, Problem::UnterminatedString)),
            }
        }
    } else if is_digit(c) {
        let k = numeral_end(src, i);
        emit(
            k,
            line,
            token_of(
                src,
                i,
                k,
                TokenType::Number,
                Some(LiteralModel::Number(decimal_double(src.subrange(i, k)))),
                line,
            ),
        )
    } else if starts_word(c) {
        let k = word_end(src, i + 1);
        let kind = match keyword_type(src.subrange(i, k)) {
            Some(t) => t,
            None => TokenType::Identifier,
        };
        emit(k, line, token_of(src, i, k, kind, None, line))
    } else {
        Step {
            next: i + 1,
            line,
            token: None,
            error: Some(lexical_error(line, Problem::UnexpectedCharacter)),
        }
    }
}

pub open spec fn option_seq<A>(o: Option<A>) -> Seq<A> {
    match o {
        Some(a) => seq![a],
        None => seq![],
    }
}

/// Scanning from index `i` on line `line` to the end: the tokens, the lexical
/// errors, and the line reached.
pub open spec fn scan_from(src: Seq<char>, i: int, line: nat) -> (Seq<TokenModel>, Seq<
    LoxError,
>, nat)
    decreases src.len() - i,
{
    if 0 <= i < src.len() {
        let s = step(src, i, line);
        if i < s.next <= src.len() {
            let rest = scan_from(src, s.next, s.line);
            (option_seq(s.token) + rest.0, option_seq(s.error) + rest.1, rest.2)
        } else {
            (seq![], seq![], line)
        }
    } else {
        (seq![], seq![], line)
    }
}

/// The tokens of a source text: what scanning finds, then the end-of-input
/// token.
pub open spec fn scan(src: Seq<char>) -> Seq<TokenModel> {
    let r = scan_from(src, 0, 1);
    r.0.push(TokenModel { token_type: TokenType::Eof, lexeme: seq![], literal: None, line: r.2 })
}

/// The lexical errors of a source text, in source order.
pub open spec fn scan_errors(src: Seq<char>) -> Seq<LoxError> {
    scan_from(src, 0, 1).1
}

pub open spec fn token_views(tokens: Seq<Token>) -> Seq<TokenModel> {
    tokens.map_values(|t: Token| t@)
}

/// Turns source text into tokens. An unterminated string literal is reported
/// as a lexical error and yields no token; any other unknown character is
/// reported and skipped. Scanning always reaches the end of the input.
pub struct Scanner {
    source: Vec<char>,
    tokens: Vec<Token>,
    errors: Vec<LoxError>,
    line: usize,
    start: usize,
    current: usize,
}

impl Scanner {
    pub closed spec fn src(&self) -> Seq<char> {
        self.source@
    }

    /// The lexical errors found so far.
    pub closed spec fn reported(&self) -> Seq<LoxError> {
        self.errors@
    }

    pub fn new(source: String) -> (r: Scanner)
        requires
            source@.len() < usize::MAX,
        ensures
            r.src() == source@,
            r.reported() == Seq::<LoxError>::empty(),
    {
        let chars = chars_of(source.as_str());
        Scanner {
            source: chars,
            tokens: Vec::new(),
            errors: Vec::new(),
            line: 1,
            start: 0,
            current: 0,
        }
    }

    /// Hands out the lexical errors found and forgets them.
    pub fn take_errors(&mut self) -> (r: Vec<LoxError>)
        ensures
            r@ == old(self).reported(),
            final(self).reported() == Seq::<LoxError>::empty(),
            final(self).src() == old(self).src(),
    {
        let mut out: Vec<LoxError> = Vec::new();
        std::mem::swap(&mut out, &mut self.errors);
        out
    }

    closed spec fn wf(&self) -> bool {
        &&& self.start <= self.current <= self.source@.len()
        &&& self.line <= self.current + 1
        &&& self.line >= 1
        &&& self.source@.len() < usize::MAX
    }

    /// Everything but the position and line is as it was.
    closed spec fn moved_from(&self, old: &Scanner) -> bool {
        &&& self.source@ == old.source@
        &&& self.tokens@ == old.tokens@
        &&& self.errors@ == old.errors@
        &&& self.start == old.start
        &&& self.line == old.line
    }

    fn is_at_end(&self) -> (r: bool)
        ensures
            r == (self.current >= self.source@.len()),
    {
        self.current >= self.source.len()
    }

    fn is_next_end(&self) -> (r: bool)
        requires
            self.current < usize::MAX,
        ensures
            r == (self.current + 1 >= self.source@.len()),
    {
        self.current + 1 >= self.source.len()
    }

    /// The character at the position, or `'\0'` at the end.
    fn peek(&self) -> (r: char)
        ensures
            r == if self.current < self.source@.len() {
                self.source@[self.current as int]
            } else {
                '\0'
            },
    {
        if self.is_at_end() {
            '\0'
        } else {
            self.source[self.current]
        }
    }

    /// The character after the position, or `'\0'` past the end.
    fn peek_next(&self) -> (r: char)
        requires
            self.current < usize::MAX,
        ensures
            r == if self.current + 1 < self.source@.len() {
                self.source@[self.current + 1]
            } else {
                '\0'
            },
    {
        if self.is_next_end() {
            '\0'
        } else {
            self.source[self.current + 1]
        }
    }

    fn advance(&mut self) -> (r: char)
        requires
            old(self).wf(),
            old(self).current < old(self).source@.len(),
        ensures
            r == old(self).source@[old(self).current as int],
            final(self).current == old(self).current + 1,
            final(self).moved_from(old(self)),
    {
        let c = self.source[self.current];
        self.current = self.current + 1;
        c
    }

    /// Consumes the next character if it is `expected`.
    fn match_next_char(&mut self, expected: char) -> (r: bool)
        requires
            old(self).wf(),
        ensures
            r == (old(self).current < old(self).source@.len() && old(self).source@[old(
                self,
            ).current as int] == expected),
            final(self).current == old(self).current + if r {
                1int
            } else {
                0int
            },
            final(self).moved_from(old(self)),
            final(self).wf(),
    {
        if self.is_at_end() {
            return false;
        }
        if self.source[self.current] != expected {
            return false;
        }
        self.current = self.current + 1;
        true
    }

    fn is_digit(c: char) -> (r: bool)
        ensures
            r == is_digit(c),
    {
        '0' <= c && c <= '9'
    }

    fn is_alpha(c: char) -> (r: bool)
        ensures
            r == starts_word(c),
    {
        is_alphabetic_char(c) || c == '_'
    }

    fn is_alphanumeric(c: char) -> (r: bool)
        ensures
            r == continues_word(c),
    {
        Self::is_digit(c) || Self::is_alpha(c)
    }

    /// The text from the token's start to the position.
    fn current_text(&self) -> (r: String)
        requires
            self.wf(),
        ensures
            r@ == self.source@.subrange(self.start as int, self.current as int),
    {
        text_of(slice_subrange(self.source.as_slice(), self.start, self.current))
    }

    fn add_token(&mut self, token_type: TokenType)
        requires
            old(self).wf(),
        ensures
            token_views(final(self).tokens@) == token_views(old(self).tokens@).push(
                token_of(
                    old(self).source@,
                    old(self).start as int,
                    old(self).current as int,
                    token_type,
                    None,
                    old(self).line as nat,
                ),
            ),
            final(self).source@ == old(self).source@,
            final(self).errors@ == old(self).errors@,
            final(self).start == old(self).start,
            final(self).current == old(self).current,
            final(self).line == old(self).line,
    {
        let lexeme = self.current_text();
        let t = Token::new(token_type, lexeme, None, self.line);
        self.tokens.push(t);
        proof {
            lemma_views_push(old(self).tokens@, t);
        }
    }

    fn add_token_with_literal(&mut self, token_type: TokenType, literal: Literal)
        requires
            old(self).wf(),
        ensures
            token_views(final(self).tokens@) == token_views(old(self).tokens@).push(
                token_of(
                    old(self).source@,
                    old(self).start as int,
                    old(self).current as int,
                    token_type,
                    Some(literal@),
                    old(self).line as nat,
                ),
            ),
            final(self).source@ == old(self).source@,
            final(self).errors@ == old(self).errors@,
            final(self).start == old(self).start,
            final(self).current == old(self).current,
            final(self).line == old(self).line,
    {
        let lexeme = self.current_text();
        let t = Token::new(token_type, lexeme, Some(literal), self.line);
        self.tokens.push(t);
        proof {
            lemma_views_push(old(self).tokens@, t);
        }
    }

    fn identifier(&mut self)
        requires
            old(self).wf(),
            old(self).current == old(self).start + 1,
        ensures
            final(self).current > final(self).start,
            ({
                let src = old(self).source@;
                let k = word_end(src, old(self).start + 1);
                let kind = match keyword_type(src.subrange(old(self).start as int, k)) {
                    Some(t) => t,
                    None => TokenType::Identifier,
                };
                &&& final(self).current == k
                &&& token_views(final(self).tokens@) == token_views(old(self).tokens@).push(
                    token_of(src, old(self).start as int, k, kind, None, old(self).line as nat),
                )
            }),
            final(self).source@ == old(self).source@,
            final(self).errors@ == old(self).errors@,
            final(self).start == old(self).start,
            final(self).line == old(self).line,
            final(self).wf(),
    {
        while !self.is_at_end() && Self::is_alphanumeric(self.peek())
            invariant
                self.wf(),
                self.moved_from(old(self)),
                self.current > self.start,
                word_end(self.source@, self.start + 1) == word_end(
                    self.source@,
                    self.current as int,
                ),
            decreases self.source@.len() - self.current,
        {
            self.advance();
        }
        let text = slice_subrange(self.source.as_slice(), self.start, self.current);
        let kind = match keyword(text) {
            Some(t) => t,
            None => TokenType::Identifier,
        };
        self.add_token(kind);
    }

    fn number(&mut self)
        requires
            old(self).wf(),
            old(self).current == old(self).start + 1,
            is_digit(old(self).source@[old(self).start as int]),
        ensures
            final(self).current > final(self).start,
            ({
                let src = old(self).source@;
                let k = numeral_end(src, old(self).start as int);
                &&& final(self).current == k
                &&& token_views(final(self).tokens@) == token_views(old(self).tokens@).push(
                    token_of(
                        src,
                        old(self).start as int,
                        k,
                        TokenType::Number,
                        Some(
                            LiteralModel::Number(
                                decimal_double(src.subrange(old(self).start as int, k)),
                            ),
                        ),
                        old(self).line as nat,
                    ),
                )
            }),
            final(self).source@ == old(self).source@,
            final(self).errors@ == old(self).errors@,
            final(self).start == old(self).start,
            final(self).line == old(self).line,
            final(self).wf(),
    {
        let ghost src = self.source@;
        let ghost start = self.start as int;
        while Self::is_digit(self.peek())
            invariant
                self.wf(),
                self.moved_from(old(self)),
                self.source@ == src,
                self.start == start,
                self.current > self.start,
                digits_end(src, start) == digits_end(src, self.current as int),
                forall|j: int| start <= j < self.current ==> is_digit(#[trigger] src[j]),
            decreases self.source@.len() - self.current,
        {
            self.advance();
        }
        let k0 = self.current;
        assert(digits_end(src, start) == k0);
        if self.peek() == '.' && Self::is_digit(self.peek_next()) {
            self.advance();
            while Self::is_digit(self.peek())
                invariant
                    self.wf(),
                    self.moved_from(old(self)),
                    self.source@ == src,
                    self.start == start,
                    start < k0,
                    self.current >= k0 + 1,
                    k0 + 1 < src.len(),
                    src[k0 as int] == '.',
                    is_digit(src[k0 + 1]),
                    digits_end(src, k0 + 1) == digits_end(src, self.current as int),
                    forall|j: int| start <= j < k0 ==> is_digit(#[trigger] src[j]),
                    forall|j: int| k0 < j < self.current ==> is_digit(#[trigger] src[j]),
                decreases self.source@.len() - self.current,
            {
                self.advance();
            }
        }
        assert(self.current == k0 || (src[k0 as int] == '.' && self.current > k0 + 1 && forall|
            j: int,
        | k0 < j < self.current ==> is_digit(#[trigger] src[j])));
        let lexeme = self.current_text();
        proof {
            let lex = lexeme@;
            let w = k0 - start;
            assert(lex.len() == self.current - start);
            assert(0 < w <= lex.len());
            assert forall|i: int| 0 <= i < lex.len() implies is_digit(#[trigger] lex[i]) || (i == w
                && lex[i] == '.') by {
                assert(lex[i] == src[start + i]);
            }
            assert(is_numeral(lex));
        }
        let bits = parse_decimal(lexeme.as_str());
        self.add_token_with_literal(TokenType::Number, Literal::Number(bits.unwrap()));
    }

    fn string(&mut self)
        requires
            old(self).wf(),
            old(self).current == old(self).start + 1,
        ensures
            final(self).current > final(self).start,
            ({
                let src = old(self).source@;
                let j = find_from(src, old(self).start + 1, '"');
                let end_line = (old(self).line + newlines(src, old(self).start + 1, j)) as nat;
                &&& final(self).line == end_line
                &&& if j < src.len() {
                    &&& final(self).current == j + 1
                    &&& token_views(final(self).tokens@) == token_views(old(self).tokens@).push(
                        token_of(
                            src,
                            old(self).start as int,
                            j + 1,
                            TokenType::String,
                            Some(LiteralModel::Str(src.subrange(old(self).start + 1, j))),
                            end_line,
                        ),
                    )
                    &&& final(self).errors@ == old(self).errors@
                } else {
                    &&& final(self).current == j
                    &&& final(self).tokens@ == old(self).tokens@
                    &&& final(self).errors@ == old(self).errors@.push(
                        lexical_error(end_line, Problem::UnterminatedString),
                    )
                }
            }),
            final(self).source@ == old(self).source@,
            final(self).start == old(self).start,
            final(self).wf(),
    {
        let ghost src = self.source@;
        let ghost start = self.start as int;
        while self.peek() != '"' && !self.is_at_end()
            invariant
                self.wf(),
                self.source@ == src,
                self.tokens@ == old(self).tokens@,
                self.errors@ == old(self).errors@,
                self.start == start,
                self.current > start,
                find_from(src, start + 1, '"') == find_from(src, self.current as int, '"'),
                self.line == old(self).line + newlines(src, start + 1, self.current as int),
            decreases self.source@.len() - self.current,
        {
            let c = self.advance();
            if c == '\n' {
                self.line = self.line + 1;
            }
        }
        if self.is_at_end() {
            self.errors.push(LoxError::lox_error(self.line, Problem::UnterminatedString));
            return ;
        }
        self.advance();
        let value = text_of(slice_subrange(self.source.as_slice(), self.start + 1, self.current - 1));
        self.add_token_with_literal(TokenType::String, Literal::String(value));
    }

    /// One scanning step, after its first character `c` was consumed.
    fn handle_token(&mut self, c: char)
        requires
            old(self).wf(),
            old(self).current == old(self).start + 1,
            c == old(self).source@[old(self).start as int],
            old(self).line <= old(self).start + 1,
        ensures
            final(self).current > final(self).start,
            ({
                let s = step(old(self).source@, old(self).start as int, old(self).line as nat);
                &&& final(self).current == s.next
                &&& final(self).line == s.line
                &&& token_views(final(self).tokens@) == token_views(old(self).tokens@) + option_seq(
                    s.token,
                )
                &&& final(self).errors@ == old(self).errors@ + option_seq(s.error)
            }),
            final(self).source@ == old(self).source@,
            final(self).start == old(self).start,
            final(self).wf(),
    {
        let ghost s = step(old(self).source@, old(self).start as int, old(self).line as nat);
        let ghost before = token_views(old(self).tokens@);
        let ghost errors = old(self).errors@;
        if c == '(' {
            self.add_token(TokenType::LeftParen);
        } else if c == ')' {
            self.add_token(TokenType::RightParen);
        } else if c == '{' {
            self.add_token(TokenType::LeftBrace);
        } else if c == '}' {
            self.add_token(TokenType::RightBrace);
        } else if c == ',' {
            self.add_token(TokenType::Comma);
        } else if c == '.' {
            self.add_token(TokenType::Dot);
        } else if c == '-' {
            self.add_token(TokenType::Minus);
        } else if c == '+' {
            self.add_token(TokenType::Plus);
        } else if c == ';' {
            self.add_token(TokenType::Semicolon);
        } else if c == '*' {
            self.add_token(TokenType::Star);
        } else if c == '!' {
            if self.match_next_char('=') {
                self.add_token(TokenType::BangEqual);
            } else {
                self.add_token(TokenType::Bang);
            }
        } else if c == '=' {
            if self.match_next_char('=') {
                self.add_token(TokenType::EqualEqual);
            } else {
                self.add_token(TokenType::Equal);
            }
        } else if c == '<' {
            if self.match_next_char('=') {
                self.add_token(TokenType::LessEqual);
            } else {
                self.add_token(TokenType::Less);
            }
        } else if c == '>' {
            if self.match_next_char('=') {
                self.add_token(TokenType::GreaterEqual);
            } else {
                self.add_token(TokenType::Greater);
            }
        } else if c == '/' {
            if self.match_next_char('/') {
                while self.peek() != '\n' && !self.is_at_end()
                    invariant
                        self.wf(),
                        self.moved_from(old(self)),
                        self.current >= old(self).start + 2,
                        find_from(old(self).source@, old(self).start + 2, '\n') == find_from(
                            self.source@,
                            self.current as int,
                            '\n',
                        ),
                    decreases self.source@.len() - self.current,
                {
                    self.advance();
                }
            } else {
                self.add_token(TokenType::Slash);
            }
        } else if c == ' ' || c == '\r' || c == '\t' {
        } else if c == '\n' {
            self.line = self.line + 1;
        } else if c == '"' {
            self.string();
        } else if Self::is_digit(c) {
            self.number();
        } else if Self::is_alpha(c) {
            self.identifier();
        } else {
            self.errors.push(LoxError::lox_error(self.line, Problem::UnexpectedCharacter));
        }
        assert(token_views(self.tokens@) =~= before + option_seq(s.token));
        assert(self.errors@ =~= errors + option_seq(s.error));
    }

    /// Scans the whole source from its start: the tokens in source order,
    /// ending with the end-of-input token. The lexical errors met on the way
    /// are then in `reported()`.
    pub fn scan_tokens(&mut self) -> (r: Vec<Token>)
        requires
            old(self).src().len() < usize::MAX,
        ensures
            token_views(r@) == scan(old(self).src()),
            final(self).reported() == scan_errors(old(self).src()),
            final(self).src() == old(self).src(),
    {
        self.tokens = Vec::new();
        self.errors = Vec::new();
        self.line = 1;
        self.start = 0;
        self.current = 0;
        let ghost src = self.source@;
        let ghost whole = scan_from(src, 0, 1);
        assert(token_views(self.tokens@) =~= Seq::<TokenModel>::empty());
        assert(whole.0 =~= token_views(self.tokens@) + whole.0);
        assert(whole.1 =~= self.errors@ + whole.1);
        while !self.is_at_end()
            invariant
                self.wf(),
                self.source@ == src,
                whole == scan_from(src, 0, 1),
                ({
                    let rest = scan_from(src, self.current as int, self.line as nat);
                    &&& whole.0 == token_views(self.tokens@) + rest.0
                    &&& whole.1 == self.errors@ + rest.1
                    &&& whole.2 == rest.2
                }),
            decreases self.source@.len() - self.current,
        {
            self.start = self.current;
            let ghost at = self.current as int;
            let ghost line = self.line as nat;
            let c = self.advance();
            self.handle_token(c);
            proof {
                let s = step(src, at, line);
                let rest = scan_from(src, self.current as int, self.line as nat);
                assert(scan_from(src, at, line) == (option_seq(s.token) + rest.0, option_seq(s.error)
                    + rest.1, rest.2));
                assert(whole.0 =~= token_views(self.tokens@) + rest.0);
                assert(whole.1 =~= self.errors@ + rest.1);
            }
        }
        let eof = Token::new(TokenType::Eof, String::new(), None, self.line);
        let ghost tokens_before = self.tokens@;
        self.tokens.push(eof);
        proof {
            lemma_views_push(tokens_before, eof);
            assert(whole.0 =~= token_views(tokens_before));
            assert(whole.1 =~= self.errors@);
            assert(eof@.lexeme =~= Seq::<char>::empty());
        }
        let mut out: Vec<Token> = Vec::new();
        std::mem::swap(&mut out, &mut self.tokens);
        out
    }
}

/// Whether `text` spells `word`.
fn spells(text: &[char], word: &str) -> (r: bool)
    ensures
        r == (text@ == word@),
{
    let n = word.unicode_len();
    if text.len() != n {
        return false;
    }
    let mut i: usize = 0;
    while i < n
        invariant
            n == word@.len(),
            text@.len() == n,
            i <= n,
            forall|j: int| 0 <= j < i ==> text@[j] == word@[j],
        decreases n - i,
    {
        if text[i] != word.get_char(i) {
            return false;
        }
        i = i + 1;
    }
    assert(text@ =~= word@);
    true
}

/// The reserved word that `text` spells, if any.
fn keyword(text: &[char]) -> (r: Option<TokenType>)
    ensures
        r == keyword_type(text@),
{
    if spells(text, "and") {
        Some(TokenType::And)
    } else if spells(text, "class") {
        Some(TokenType::Class)
    } else if spells(text, "else") {
        Some(TokenType::Else)
    } else if spells(text, "false") {
        Some(TokenType::False)
    } else if spells(text, "for") {
        Some(TokenType::For)
    } else if spells(text, "fun") {
        Some(TokenType::Fun)
    } else if spells(text, "if") {
        Some(TokenType::If)
    } else if spells(text, "nil") {
        Some(TokenType::Nil)
    } else if spells(text, "or") {
        Some(TokenType::Or)
    } else if spells(text, "print") {
        Some(TokenType::Print)
    } else if spells(text, "return") {
        Some(TokenType::Return)
    } else if spells(text, "super") {
        Some(TokenType::Super)
    } else if spells(text, "this") {
        Some(TokenType::This)
    } else if spells(text, "true") {
        Some(TokenType::True)
    } else if spells(text, "var") {
        Some(TokenType::Var)
    } else if spells(text, "while") {
        Some(TokenType::While)
    } else {
        None
    }
}

proof fn lemma_views_push(tokens: Seq<Token>, t: Token)
    ensures
        token_views(tokens.push(t)) == token_views(tokens).push(t@),
{
    assert(token_views(tokens.push(t)) =~= token_views(tokens).push(t@));
}

} // verus!
