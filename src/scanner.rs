use vstd::prelude::*;
use vstd::string::*;

verus! {

/// The kind of a token.
#[derive(Copy, Clone, Debug, Eq, PartialEq, Structural)]
pub enum TT {
    // Single-character tokens.
    LeftParen,
    RightParen,
    LeftBrace,
    RightBrace,
    Comma,
    Dot,
    Minus,
    Plus,
    Semicolon,
    Slash,
    Star,
    // One or two character tokens.
    Bang,
    BangEqual,
    Equal,
    EqualEqual,
    Greater,
    GreaterEqual,
    Less,
    LessEqual,
    // Literals.
    Identifier,
    String,
    Number,
    // Keywords.
    And,
    Class,
    Else,
    False,
    For,
    Fun,
    If,
    Nil,
    Or,
    Print,
    Return,
    Super,
    This,
    True,
    Var,
    While,
    Error,
    Eof,
}

/// Why the scanner produced an error token.
#[derive(Copy, Clone, Debug, Eq, PartialEq, Structural)]
pub enum ScanError {
    UnexpectedCharacter,
    UnterminatedString,
}

/// What a token carries: the character span of its lexeme, or the reason for an error.
#[derive(Copy, Clone, Debug, Eq, PartialEq, Structural)]
pub enum TokenData {
    Lexeme(usize, usize),
    Message(ScanError),
}

#[derive(Copy, Clone, Debug, Eq, PartialEq, Structural)]
pub struct Token {
    pub typ: TT,
    pub data: TokenData,
    pub line: usize,
}

/// Turns source text into tokens, one at a time.
pub struct Scanner {
    source: Vec<char>,
    start: usize,
    current: usize,
    line: usize,
}

pub open spec fn digit_spec(c: char) -> bool {
    '0' <= c <= '9'
}

pub open spec fn alpha_spec(c: char) -> bool {
    ('a' <= c <= 'z') || ('A' <= c <= 'Z') || c == '_'
}

/// The character at `i`, or `'\0'` past the end.
pub open spec fn char_at(src: Seq<char>, i: nat) -> char {
    if i < src.len() {
        src[i as int]
    } else {
        '\0'
    }
}

/// The end of a comment that runs from `cur`: the next newline, or the end of the source.
pub open spec fn comment_end(src: Seq<char>, cur: nat) -> nat
    decreases src.len() - cur,
{
    if cur >= src.len() || src[cur as int] == '\n' {
        cur
    } else {
        comment_end(src, cur + 1)
    }
}

/// Position and line after the whitespace and comments that start at `cur`.
pub open spec fn skip_spec(src: Seq<char>, cur: nat, line: nat) -> (nat, nat)
    decreases src.len() - cur,
{
    if cur >= src.len() {
        (cur, line)
    } else {
        let c = src[cur as int];
        if c == ' ' || c == '\r' || c == '\t' {
            skip_spec(src, cur + 1, line)
        } else if c == '\n' {
            skip_spec(src, cur + 1, line + 1)
        } else if c == '/' && char_at(src, cur + 1) == '/' {
            let e = comment_end(src, cur);
            if cur < e <= src.len() {
                skip_spec(src, e, line)
            } else {
                (cur, line)
            }
        } else {
            (cur, line)
        }
    }
}

/// The end of the run of digits that starts at `cur`.
pub open spec fn digits_end(src: Seq<char>, cur: nat) -> nat
    decreases src.len() - cur,
{
    if cur < src.len() && digit_spec(src[cur as int]) {
        digits_end(src, cur + 1)
    } else {
        cur
    }
}

/// The end of a number literal whose first digit is at `cur`.
pub open spec fn number_end(src: Seq<char>, cur: nat) -> nat {
    let e = digits_end(src, cur);
    if char_at(src, e) == '.' && digit_spec(char_at(src, e + 1)) {
        digits_end(src, e + 1)
    } else {
        e
    }
}

/// The end of the run of letters, digits and underscores that starts at `cur`.
pub open spec fn word_end(src: Seq<char>, cur: nat) -> nat
    decreases src.len() - cur,
{
    if cur < src.len() && (alpha_spec(src[cur as int]) || digit_spec(src[cur as int])) {
        word_end(src, cur + 1)
    } else {
        cur
    }
}

/// Scans the body of a string literal from `cur`: whether a closing quote was found, where
/// it stands (or the end of the source), and the line there.
pub open spec fn string_spec(src: Seq<char>, cur: nat, line: nat) -> (bool, nat, nat)
    decreases src.len() - cur,
{
    if cur >= src.len() {
        (false, cur, line)
    } else if src[cur as int] == '"' {
        (true, cur, line)
    } else {
        string_spec(
            src,
            cur + 1,
            if src[cur as int] == '\n' {
                line + 1
            } else {
                line
            },
        )
    }
}

/// The kind of a one-character token.
pub open spec fn single_type(c: char) -> Option<TT> {
    if c == '(' {
        Some(TT::LeftParen)
    } else if c == ')' {
        Some(TT::RightParen)
    } else if c == '{' {
        Some(TT::LeftBrace)
    } else if c == '}' {
        Some(TT::RightBrace)
    } else if c == ';' {
        Some(TT::Semicolon)
    } else if c == ',' {
        Some(TT::Comma)
    } else if c == '.' {
        Some(TT::Dot)
    } else if c == '-' {
        Some(TT::Minus)
    } else if c == '+' {
        Some(TT::Plus)
    } else if c == '/' {
        Some(TT::Slash)
    } else if c == '*' {
        Some(TT::Star)
    } else {
        None
    }
}

/// The kinds of the operator that starts with `c`, without and with a following `=`.
pub open spec fn operator_types(c: char) -> Option<(TT, TT)> {
    if c == '!' {
        Some((TT::Bang, TT::BangEqual))
    } else if c == '=' {
        Some((TT::Equal, TT::EqualEqual))
    } else if c == '<' {
        Some((TT::Less, TT::LessEqual))
    } else if c == '>' {
        Some((TT::Greater, TT::GreaterEqual))
    } else {
        None
    }
}

/// `tt` where the word, past its first letter, is `rest`; else an identifier.
pub open spec fn keyword_if(word: Seq<char>, rest: Seq<char>, tt: TT) -> TT {
    if word.skip(1) == rest {
        tt
    } else {
        TT::Identifier
    }
}

/// The kind of a non-empty word: a keyword or an identifier.
pub open spec fn keyword_type(word: Seq<char>) -> TT {
    let c = word[0];
    if c == 'a' {
        keyword_if(word, seq!['n', 'd'], TT::And)
    } else if c == 'c' {
        keyword_if(word, seq!['l', 'a', 's', 's'], TT::Class)
    } else if c == 'e' {
        keyword_if(word, seq!['l', 's', 'e'], TT::Else)
    } else if c == 'f' {
        if word.skip(1) == seq!['a', 'l', 's', 'e'] {
            TT::False
        } else if word.skip(1) == seq!['o', 'r'] {
            TT::For
        } else {
            keyword_if(word, seq!['u', 'n'], TT::Fun)
        }
    } else if c == 'i' {
        keyword_if(word, seq!['f'], TT::If)
    } else if c == 'n' {
        keyword_if(word, seq!['i', 'l'], TT::Nil)
    } else if c == 'o' {
        keyword_if(word, seq!['r'], TT::Or)
    } else if c == 'p' {
        keyword_if(word, seq!['r', 'i', 'n', 't'], TT::Print)
    } else if c == 'r' {
        keyword_if(word, seq!['e', 't', 'u', 'r', 'n'], TT::Return)
    } else if c == 's' {
        keyword_if(word, seq!['u', 'p', 'e', 'r'], TT::Super)
    } else if c == 't' {
        if word.skip(1) == seq!['h', 'i', 's'] {
            TT::This
        } else {
            keyword_if(word, seq!['r', 'u', 'e'], TT::True)
        }
    } else if c == 'v' {
        keyword_if(word, seq!['a', 'r'], TT::Var)
    } else if c == 'w' {
        keyword_if(word, seq!['h', 'i', 'l', 'e'], TT::While)
    } else {
        TT::Identifier
    }
}

pub open spec fn lexeme(typ: TT, start: nat, end: nat, line: nat) -> Token {
    Token { typ, data: TokenData::Lexeme(start as usize, end as usize), line: line as usize }
}

pub open spec fn error(e: ScanError, line: nat) -> Token {
    Token { typ: TT::Error, data: TokenData::Message(e), line: line as usize }
}

/// The next token of `src` from position `cur` on line `line`, and the position and line after it.
pub open spec fn scan_spec(src: Seq<char>, cur: nat, line: nat) -> (Token, nat, nat) {
    let (s, l) = skip_spec(src, cur, line);
    if s >= src.len() {
        (lexeme(TT::Eof, s, s, l), s, l)
    } else {
        let c = src[s as int];
        if single_type(c) is Some {
            (lexeme(single_type(c)->0, s, s + 1, l), s + 1, l)
        } else if operator_types(c) is Some {
            let (short, long) = operator_types(c)->0;
            if char_at(src, s + 1) == '=' {
                (lexeme(long, s, s + 2, l), s + 2, l)
            } else {
                (lexeme(short, s, s + 1, l), s + 1, l)
            }
        } else if c == '"' {
            let (closed, p, l2) = string_spec(src, s + 1, l);
            if closed {
                (lexeme(TT::String, s, p + 1, l2), p + 1, l2)
            } else {
                (error(ScanError::UnterminatedString, l2), p, l2)
            }
        } else if digit_spec(c) {
            let e = number_end(src, s);
            (lexeme(TT::Number, s, e, l), e, l)
        } else if alpha_spec(c) {
            let e = word_end(src, s);
            (lexeme(keyword_type(src.subrange(s as int, e as int)), s, e, l), e, l)
        } else {
            (error(ScanError::UnexpectedCharacter, l), s + 1, l)
        }
    }
}

/// The number of newlines among the characters from `from` up to `to`.
pub open spec fn newlines(src: Seq<char>, from: nat, to: nat) -> nat
    decreases to - from,
{
    if from >= to || from >= src.len() {
        0
    } else {
        (if src[from as int] == '\n' {
            1nat
        } else {
            0nat
        }) + newlines(src, from + 1, to)
    }
}

/// Whether scanning can stop at `p`: the end, or a character that is neither whitespace nor
/// the start of a comment.
pub open spec fn skip_stops_at(src: Seq<char>, p: nat) -> bool {
    p >= src.len() || {
        let c = src[p as int];
        !(c == ' ' || c == '\r' || c == '\t' || c == '\n') && !(c == '/' && char_at(src, p + 1)
            == '/')
    }
}

proof fn lemma_newlines_split(src: Seq<char>, a: nat, b: nat, c: nat)
    requires
        a <= b <= c <= src.len(),
    ensures
        newlines(src, a, c) == newlines(src, a, b) + newlines(src, b, c),
    decreases b - a,
{
    if a < b {
        lemma_newlines_split(src, a + 1, b, c);
    }
}

proof fn lemma_newlines_one(src: Seq<char>, i: nat)
    requires
        i < src.len(),
    ensures
        newlines(src, i, i + 1) == (if src[i as int] == '\n' {
            1nat
        } else {
            0nat
        }),
{
    assert(newlines(src, i + 1, i + 1) == 0);
}

proof fn lemma_comment_end(src: Seq<char>, cur: nat)
    requires
        cur <= src.len(),
    ensures
        cur <= comment_end(src, cur) <= src.len(),
        newlines(src, cur, comment_end(src, cur)) == 0,
        cur < src.len() && src[cur as int] != '\n' ==> comment_end(src, cur) > cur,
    decreases src.len() - cur,
{
    if cur < src.len() && src[cur as int] != '\n' {
        lemma_comment_end(src, cur + 1);
    }
}

proof fn lemma_skip(src: Seq<char>, cur: nat, line: nat)
    requires
        cur <= src.len(),
    ensures
        cur <= skip_spec(src, cur, line).0 <= src.len(),
        skip_spec(src, cur, line).1 == line + newlines(src, cur, skip_spec(src, cur, line).0),
        skip_stops_at(src, skip_spec(src, cur, line).0),
    decreases src.len() - cur,
{
    if cur < src.len() {
        let c = src[cur as int];
        if c == ' ' || c == '\r' || c == '\t' || c == '\n' {
            let l2 = if c == '\n' { line + 1 } else { line };
            lemma_skip(src, cur + 1, l2);
            lemma_newlines_split(src, cur, cur + 1, skip_spec(src, cur, line).0);
        } else if c == '/' && char_at(src, cur + 1) == '/' {
            lemma_comment_end(src, cur);
            let e = comment_end(src, cur);
            lemma_skip(src, e, line);
            lemma_newlines_split(src, cur, e, skip_spec(src, e, line).0);
        }
    }
}

proof fn lemma_digits_end(src: Seq<char>, cur: nat)
    requires
        cur <= src.len(),
    ensures
        cur <= digits_end(src, cur) <= src.len(),
        newlines(src, cur, digits_end(src, cur)) == 0,
    decreases src.len() - cur,
{
    if cur < src.len() && digit_spec(src[cur as int]) {
        lemma_digits_end(src, cur + 1);
    }
}

proof fn lemma_word_end(src: Seq<char>, cur: nat)
    requires
        cur <= src.len(),
    ensures
        cur <= word_end(src, cur) <= src.len(),
        newlines(src, cur, word_end(src, cur)) == 0,
    decreases src.len() - cur,
{
    if cur < src.len() && (alpha_spec(src[cur as int]) || digit_spec(src[cur as int])) {
        lemma_word_end(src, cur + 1);
    }
}

proof fn lemma_string(src: Seq<char>, cur: nat, line: nat)
    requires
        cur <= src.len(),
    ensures
        cur <= string_spec(src, cur, line).1 <= src.len(),
        string_spec(src, cur, line).0 ==> string_spec(src, cur, line).1 < src.len()
            && src[string_spec(src, cur, line).1 as int] == '"',
        string_spec(src, cur, line).2 == line + newlines(src, cur, string_spec(src, cur, line).1),
    decreases src.len() - cur,
{
    if cur < src.len() && src[cur as int] != '"' {
        let l2 = if src[cur as int] == '\n' { line + 1 } else { line };
        lemma_string(src, cur + 1, l2);
        lemma_newlines_split(src, cur, cur + 1, string_spec(src, cur, line).1);
    }
}

/// Scanning a token moves forward through the source, and the line afterwards is the line
/// before plus the number of newlines passed over.
pub proof fn lemma_scan_counts_lines(src: Seq<char>, cur: nat, line: nat)
    requires
        cur <= src.len(),
    ensures
        cur <= scan_spec(src, cur, line).1 <= src.len(),
        scan_spec(src, cur, line).2 == line + newlines(src, cur, scan_spec(src, cur, line).1),
{
    lemma_skip(src, cur, line);
    let (s, l) = skip_spec(src, cur, line);
    let p = scan_spec(src, cur, line).1;
    if s < src.len() {
        let c = src[s as int];
        lemma_newlines_one(src, s);
        assert(newlines(src, s, s) == 0);
        if c == '"' {
            lemma_string(src, s + 1, l);
            lemma_newlines_split(src, s, s + 1, string_spec(src, s + 1, l).1);
            if string_spec(src, s + 1, l).0 {
                let q = string_spec(src, s + 1, l).1;
                lemma_newlines_one(src, q);
                lemma_newlines_split(src, s, q, q + 1);
            }
        } else if digit_spec(c) {
            lemma_digits_end(src, s);
            let e = digits_end(src, s);
            if char_at(src, e) == '.' && digit_spec(char_at(src, e + 1)) {
                lemma_digits_end(src, e + 1);
                lemma_newlines_one(src, e);
                lemma_newlines_split(src, s, e, e + 1);
                lemma_newlines_split(src, s, e + 1, digits_end(src, e + 1));
            }
        } else if alpha_spec(c) {
            lemma_word_end(src, s);
        } else if operator_types(c) is Some && char_at(src, s + 1) == '=' {
            lemma_newlines_one(src, s + 1);
            lemma_newlines_split(src, s, s + 1, s + 2);
        }
        lemma_newlines_split(src, cur, s, p);
    }
}

pub fn is_digit(c: char) -> (r: bool)
    ensures
        r == digit_spec(c),
{
    c >= '0' && c <= '9'
}

pub fn is_alpha(c: char) -> (r: bool)
    ensures
        r == alpha_spec(c),
{
    (c >= 'a' && c <= 'z') || (c >= 'A' && c <= 'Z') || c == '_'
}

impl Scanner {
    /// The source text, as characters.
    pub closed spec fn source(&self) -> Seq<char> {
        self.source@
    }

    /// The position of the next character to scan.
    pub closed spec fn position(&self) -> nat {
        self.current as nat
    }

    /// The line of the next character to scan.
    pub closed spec fn line(&self) -> nat {
        self.line as nat
    }

    pub closed spec fn wf(&self) -> bool {
        &&& self.current <= self.source@.len()
        &&& self.start <= self.current
        &&& 1 <= self.line <= self.current + 1
        &&& self.source@.len() < usize::MAX
    }

    spec fn same_text(&self, other: &Scanner) -> bool {
        self.source@ == other.source@
    }

    pub fn new(source: &str) -> (r: Scanner)
        requires
            source@.len() < usize::MAX,
        ensures
            r.wf(),
            r.source() == source@,
            r.position() == 0,
            r.line() == 1,
    {
        let n = source.unicode_len();
        let mut chars: Vec<char> = Vec::new();
        let mut i: usize = 0;
        while i < n
            invariant
                n == source@.len(),
                i <= n,
                chars@ == source@.take(i as int),
            decreases n - i,
        {
            chars.push(source.get_char(i));
            i = i + 1;
            assert(chars@ =~= source@.take(i as int));
        }
        assert(chars@ =~= source@);
        Scanner { source: chars, start: 0, current: 0, line: 1 }
    }

    /// Scans the next token; at the end of the source, an `Eof` token, again and again.
    pub fn scan_token(&mut self) -> (r: Token)
        requires
            old(self).wf(),
        ensures
            final(self).wf(),
            final(self).source() == old(self).source(),
            (r, final(self).position(), final(self).line()) == scan_spec(
                old(self).source(),
                old(self).position(),
                old(self).line(),
            ),
    {
        self.skip_whitespace();
        self.start = self.current;
        if self.is_at_end() {
            return self.make_token(TT::Eof);
        }
        let c = self.advance();
        match c {
            '(' => self.make_token(TT::LeftParen),
            ')' => self.make_token(TT::RightParen),
            '{' => self.make_token(TT::LeftBrace),
            '}' => self.make_token(TT::RightBrace),
            ';' => self.make_token(TT::Semicolon),
            ',' => self.make_token(TT::Comma),
            '.' => self.make_token(TT::Dot),
            '-' => self.make_token(TT::Minus),
            '+' => self.make_token(TT::Plus),
            '/' => self.make_token(TT::Slash),
            '*' => self.make_token(TT::Star),
            '!' => self.long_op_token('=', TT::BangEqual, TT::Bang),
            '=' => self.long_op_token('=', TT::EqualEqual, TT::Equal),
            '<' => self.long_op_token('=', TT::LessEqual, TT::Less),
            '>' => self.long_op_token('=', TT::GreaterEqual, TT::Greater),
            '"' => self.string_token(),
            _ => {
                if is_digit(c) {
                    self.number_token()
                } else if is_alpha(c) {
                    self.identifier_token()
                } else {
                    self.error_token(ScanError::UnexpectedCharacter)
                }
            },
        }
    }

    fn get_char(&self, idx: usize) -> (r: char)
        requires
            idx < self.source@.len(),
        ensures
            r == self.source@[idx as int],
    {
        self.source[idx]
    }

    fn peek(&self) -> (r: char)
        requires
            self.wf(),
        ensures
            r == char_at(self.source@, self.current as nat),
    {
        if self.is_at_end() {
            return '\0';
        }
        self.get_char(self.current)
    }

    fn peek_next(&self) -> (r: char)
        requires
            self.wf(),
        ensures
            r == char_at(self.source@, (self.current + 1) as nat),
    {
        if self.current + 1 >= self.source.len() {
            return '\0';
        }
        self.get_char(self.current + 1)
    }

    fn advance(&mut self) -> (r: char)
        requires
            old(self).wf(),
            old(self).current < old(self).source@.len(),
        ensures
            final(self).wf(),
            final(self).same_text(old(self)),
            r == old(self).source@[old(self).current as int],
            final(self).current == old(self).current + 1,
            final(self).line == old(self).line,
            final(self).start == old(self).start,
    {
        self.current = self.current + 1;
        self.get_char(self.current - 1)
    }

    /// Consumes `expected` if it comes next: `opt_a` then, else `opt_b`.
    fn either(&mut self, expected: char, opt_a: TT, opt_b: TT) -> (r: TT)
        requires
            old(self).wf(),
            expected != '\0',
        ensures
            final(self).wf(),
            final(self).same_text(old(self)),
            final(self).line == old(self).line,
            final(self).start == old(self).start,
            char_at(old(self).source@, old(self).current as nat) == expected ==> r == opt_a
                && final(self).current == old(self).current + 1,
            char_at(old(self).source@, old(self).current as nat) != expected ==> r == opt_b
                && final(self).current == old(self).current,
    {
        if self.is_at_end() || self.peek() != expected {
            if self.is_at_end() {
                assert(char_at(self.source@, self.current as nat) == '\0');
            }
            return opt_b;
        }
        self.current = self.current + 1;
        opt_a
    }

    fn skip_whitespace(&mut self)
        requires
            old(self).wf(),
        ensures
            final(self).wf(),
            final(self).same_text(old(self)),
            (final(self).current as nat, final(self).line as nat) == skip_spec(
                old(self).source@,
                old(self).current as nat,
                old(self).line as nat,
            ),
            skip_stops_at(final(self).source@, final(self).current as nat),
    {
        let ghost src = self.source@;
        proof {
            lemma_skip(src, self.current as nat, self.line as nat);
        }
        loop
            invariant
                self.wf(),
                self.source@ == src,
                src == old(self).source@,
                skip_spec(src, self.current as nat, self.line as nat) == skip_spec(
                    src,
                    old(self).current as nat,
                    old(self).line as nat,
                ),
            decreases src.len() - self.current,
        {
            let c = self.peek();
            if c == ' ' || c == '\r' || c == '\t' {
                self.advance();
            } else if c == '\n' {
                self.new_line();
            } else if c == '/' {
                if self.peek_next() == '/' {
                    let ghost c0 = self.current as nat;
                    let ghost l0 = self.line as nat;
                    self.advance();
                    while self.peek() != '\n' && !self.is_at_end()
                        invariant
                            self.wf(),
                            self.source@ == src,
                            src == old(self).source@,
                            self.line == l0,
                            c0 < self.current,
                            src[c0 as int] == '/',
                            char_at(src, c0 + 1) == '/',
                            skip_spec(src, c0, l0) == skip_spec(
                                src,
                                old(self).current as nat,
                                old(self).line as nat,
                            ),
                            comment_end(src, self.current as nat) == comment_end(src, c0),
                        decreases src.len() - self.current,
                    {
                        self.advance();
                    }
                } else {
                    return;
                }
            } else {
                return;
            }
        }
    }

    fn make_token(&self, typ: TT) -> (r: Token)
        ensures
            r == lexeme(typ, self.start as nat, self.current as nat, self.line as nat),
    {
        Token { typ, data: TokenData::Lexeme(self.start, self.current), line: self.line }
    }

    fn error_token(&self, e: ScanError) -> (r: Token)
        ensures
            r == error(e, self.line as nat),
    {
        Token { typ: TT::Error, data: TokenData::Message(e), line: self.line }
    }

    fn long_op_token(&mut self, expected: char, opt_a: TT, opt_b: TT) -> (r: Token)
        requires
            old(self).wf(),
            expected != '\0',
        ensures
            final(self).wf(),
            final(self).same_text(old(self)),
            final(self).line == old(self).line,
            char_at(old(self).source@, old(self).current as nat) == expected ==> r == lexeme(
                opt_a,
                old(self).start as nat,
                (old(self).current + 1) as nat,
                old(self).line as nat,
            ) && final(self).current == old(self).current + 1,
            char_at(old(self).source@, old(self).current as nat) != expected ==> r == lexeme(
                opt_b,
                old(self).start as nat,
                old(self).current as nat,
                old(self).line as nat,
            ) && final(self).current == old(self).current,
    {
        let token_type = self.either(expected, opt_a, opt_b);
        self.make_token(token_type)
    }

    /// Scans a string literal whose opening quote was just consumed.
    fn string_token(&mut self) -> (r: Token)
        requires
            old(self).wf(),
        ensures
            final(self).wf(),
            final(self).same_text(old(self)),
            ({
                let (closed, p, l) = string_spec(
                    old(self).source@,
                    old(self).current as nat,
                    old(self).line as nat,
                );
                if closed {
                    r == lexeme(TT::String, old(self).start as nat, p + 1, l) && final(self).current
                        == p + 1 && final(self).line == l
                } else {
                    r == error(ScanError::UnterminatedString, l) && final(self).current == p
                        && final(self).line == l
                }
            }),
    {
        let ghost src = self.source@;
        while !self.is_at_end() && self.peek() != '"'
            invariant
                self.wf(),
                self.source@ == src,
                src == old(self).source@,
                self.start == old(self).start,
                string_spec(src, self.current as nat, self.line as nat) == string_spec(
                    src,
                    old(self).current as nat,
                    old(self).line as nat,
                ),
            decreases src.len() - self.current,
        {
            if self.peek() == '\n' {
                self.new_line();
            } else {
                self.advance();
            }
        }
        if self.is_at_end() {
            return self.error_token(ScanError::UnterminatedString);
        }
        // The closing quote.
        self.advance();
        self.make_token(TT::String)
    }

    /// Scans a number literal whose first digit was just consumed.
    fn number_token(&mut self) -> (r: Token)
        requires
            old(self).wf(),
            old(self).current == old(self).start + 1,
            digit_spec(old(self).source@[old(self).start as int]),
        ensures
            final(self).wf(),
            final(self).same_text(old(self)),
            final(self).line == old(self).line,
            final(self).current == number_end(old(self).source@, old(self).start as nat),
            r == lexeme(
                TT::Number,
                old(self).start as nat,
                number_end(old(self).source@, old(self).start as nat),
                old(self).line as nat,
            ),
    {
        let ghost src = self.source@;
        while is_digit(self.peek())
            invariant
                self.wf(),
                self.source@ == src,
                src == old(self).source@,
                self.start == old(self).start,
                self.line == old(self).line,
                self.start < self.current,
                digits_end(src, self.current as nat) == digits_end(src, self.start as nat),
            decreases src.len() - self.current,
        {
            self.advance();
        }
        // Look for a fractional part.
        if self.peek() == '.' && is_digit(self.peek_next()) {
            // Consume the ".".
            self.advance();
            let ghost e = self.current as nat;
            while is_digit(self.peek())
                invariant
                    self.wf(),
                    self.source@ == src,
                    src == old(self).source@,
                src == old(self).source@,
                    self.start == old(self).start,
                    self.line == old(self).line,
                    e <= self.current,
                    digits_end(src, self.current as nat) == digits_end(src, e),
                decreases src.len() - self.current,
            {
                self.advance();
            }
        }
        self.make_token(TT::Number)
    }

    /// Scans an identifier or keyword whose first letter was just consumed.
    fn identifier_token(&mut self) -> (r: Token)
        requires
            old(self).wf(),
            old(self).current == old(self).start + 1,
            alpha_spec(old(self).source@[old(self).start as int]),
        ensures
            final(self).wf(),
            final(self).same_text(old(self)),
            final(self).line == old(self).line,
            final(self).current == word_end(old(self).source@, old(self).start as nat),
            r == lexeme(
                keyword_type(
                    old(self).source@.subrange(
                        old(self).start as int,
                        word_end(old(self).source@, old(self).start as nat) as int,
                    ),
                ),
                old(self).start as nat,
                word_end(old(self).source@, old(self).start as nat),
                old(self).line as nat,
            ),
    {
        let ghost src = self.source@;
        while is_alpha(self.peek()) || is_digit(self.peek())
            invariant
                self.wf(),
                self.source@ == src,
                src == old(self).source@,
                self.start == old(self).start,
                self.line == old(self).line,
                self.start < self.current,
                word_end(src, self.current as nat) == word_end(src, self.start as nat),
            decreases src.len() - self.current,
        {
            self.advance();
        }
        let typ = self.identifier_type();
        self.make_token(typ)
    }

    /// Whether the word being scanned, past its first letter, is `rest`.
    fn rest_is(&self, rest: &Vec<char>) -> (r: bool)
        requires
            self.wf(),
            self.start < self.current,
        ensures
            r == (self.source@.subrange(self.start as int, self.current as int).skip(1) == rest@),
    {
        let ghost word = self.source@.subrange(self.start as int, self.current as int);
        let n = self.current - self.start - 1;
        if n != rest.len() {
            assert(word.skip(1).len() != rest@.len());
            return false;
        }
        let mut i: usize = 0;
        while i < n
            invariant
                self.wf(),
                self.start < self.current,
                n == self.current - self.start - 1,
                n == rest@.len(),
                word == self.source@.subrange(self.start as int, self.current as int),
                i <= n,
                forall|k: int| 0 <= k < i ==> word.skip(1)[k] == rest@[k],
            decreases n - i,
        {
            if self.source[self.start + 1 + i] != rest[i] {
                assert(word.skip(1)[i as int] != rest@[i as int]);
                return false;
            }
            i = i + 1;
        }
        assert(word.skip(1) =~= rest@);
        true
    }

    fn check_keyword(&self, rest: Vec<char>, tt: TT) -> (r: TT)
        requires
            self.wf(),
            self.start < self.current,
        ensures
            r == keyword_if(self.source@.subrange(self.start as int, self.current as int), rest@, tt),
    {
        if self.rest_is(&rest) {
            tt
        } else {
            TT::Identifier
        }
    }

    fn identifier_type(&self) -> (r: TT)
        requires
            self.wf(),
            self.start < self.current,
        ensures
            r == keyword_type(self.source@.subrange(self.start as int, self.current as int)),
    {
        let c = self.get_char(self.start);
        let ghost word = self.source@.subrange(self.start as int, self.current as int);
        assert(word[0] == c);
        match c {
            'a' => self.check_keyword(vec!['n', 'd'], TT::And),
            'c' => self.check_keyword(vec!['l', 'a', 's', 's'], TT::Class),
            'e' => self.check_keyword(vec!['l', 's', 'e'], TT::Else),
            'f' => {
                if self.rest_is(&vec!['a', 'l', 's', 'e']) {
                    TT::False
                } else if self.rest_is(&vec!['o', 'r']) {
                    TT::For
                } else {
                    self.check_keyword(vec!['u', 'n'], TT::Fun)
                }
            },
            'i' => {
                let rest = vec!['f'];
                assert(rest@ =~= seq!['f']);
                self.check_keyword(rest, TT::If)
            },
            'n' => self.check_keyword(vec!['i', 'l'], TT::Nil),
            'o' => {
                let rest = vec!['r'];
                assert(rest@ =~= seq!['r']);
                self.check_keyword(rest, TT::Or)
            },
            'p' => self.check_keyword(vec!['r', 'i', 'n', 't'], TT::Print),
            'r' => self.check_keyword(vec!['e', 't', 'u', 'r', 'n'], TT::Return),
            's' => self.check_keyword(vec!['u', 'p', 'e', 'r'], TT::Super),
            't' => {
                if self.rest_is(&vec!['h', 'i', 's']) {
                    TT::This
                } else {
                    self.check_keyword(vec!['r', 'u', 'e'], TT::True)
                }
            },
            'v' => self.check_keyword(vec!['a', 'r'], TT::Var),
            'w' => self.check_keyword(vec!['h', 'i', 'l', 'e'], TT::While),
            _ => TT::Identifier,
        }
    }

    fn is_at_end(&self) -> (r: bool)
        requires
            self.wf(),
        ensures
            r == (self.current == self.source@.len()),
    {
        self.current == self.source.len()
    }

    fn new_line(&mut self)
        requires
            old(self).wf(),
            old(self).current < old(self).source@.len(),
        ensures
            final(self).wf(),
            final(self).same_text(old(self)),
            final(self).current == old(self).current + 1,
            final(self).line == old(self).line + 1,
            final(self).start == old(self).start,
    {
        self.advance();
        self.line = self.line + 1;
    }
}

} // verus!
