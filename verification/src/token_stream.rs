//! The lexical analyzer: tokens from the character cursor, with one token of lookahead.
use vstd::prelude::*;
use vstd::string::*;
use vstd::utf8::*;
use crate::text::lemma_boundary_at_ascii;
use crate::text_stream::{byte_at, col_at, row_at, TextStream, LINE_FEED};
use crate::util::{Diagnostic, Stream, TokenType};

verus! {

/// The tab.
pub const TAB: u8 = 9;

/// The space.
pub const SPACE: u8 = 32;

/// `!`
pub const BANG: u8 = 33;

/// The double quote, which opens and closes a string literal.
pub const QUOTE: u8 = 34;

/// `%`
pub const PERCENT: u8 = 37;

/// `&`
pub const AMPERSAND: u8 = 38;

/// `(`
pub const PAREN_OPEN: u8 = 40;

/// `)`
pub const PAREN_CLOSE: u8 = 41;

/// `*`
pub const STAR: u8 = 42;

/// `+`
pub const PLUS: u8 = 43;

/// `,`
pub const COMMA: u8 = 44;

/// `-`
pub const MINUS: u8 = 45;

/// The decimal point.
pub const POINT: u8 = 46;

/// `/`
pub const SLASH: u8 = 47;

/// The digit `0`.
pub const DIGIT_0: u8 = 48;

/// The digit `9`.
pub const DIGIT_9: u8 = 57;

/// `:`
pub const COLON: u8 = 58;

/// `;`
pub const SEMICOLON: u8 = 59;

/// `<`
pub const LESS: u8 = 60;

/// `=`
pub const EQUALS: u8 = 61;

/// `>`
pub const GREATER: u8 = 62;

/// The letter `A`.
pub const UPPER_A: u8 = 65;

/// The letter `Z`.
pub const UPPER_Z: u8 = 90;

/// `^`
pub const CARET: u8 = 94;

/// `_`
pub const UNDERSCORE: u8 = 95;

/// The letter `a`.
pub const LOWER_A: u8 = 97;

/// The letter `z`.
pub const LOWER_Z: u8 = 122;

/// `{`
pub const BRACE_OPEN: u8 = 123;

/// `|`
pub const BAR: u8 = 124;

/// `}`
pub const BRACE_CLOSE: u8 = 125;

/// A token: its kind and the text it was read from.
#[derive(Debug)]
pub struct Token {
    pub token_type: TokenType,
    pub value: String,
}

/// A token as contracts see it: its kind and the characters of its text.
pub struct Lexeme {
    pub kind: TokenType,
    pub text: Seq<char>,
}

/// The end marker, which has no text.
pub open spec fn end_marker() -> Lexeme {
    Lexeme { kind: TokenType::EOF, text: Seq::empty() }
}

impl View for Token {
    type V = Lexeme;

    open spec fn view(&self) -> Lexeme {
        Lexeme { kind: self.token_type, text: self.value@ }
    }
}

impl Token {
    /// A token of the given kind and text.
    pub fn new(token_type: TokenType, value: String) -> (r: Token)
        ensures
            r.token_type == token_type,
            r.value == value,
    {
        Token { token_type, value }
    }

    /// The end marker.
    pub fn new_eof() -> (r: Token)
        ensures
            r@ == end_marker(),
    {
        Token { token_type: TokenType::EOF, value: String::new() }
    }
}

impl Clone for Token {
    fn clone(&self) -> (r: Token)
        ensures
            r == *self,
    {
        Token { token_type: self.token_type, value: self.value.clone() }
    }
}

/// Space, tab and line feed separate tokens.
pub open spec fn blank(b: u8) -> bool {
    b == SPACE || b == LINE_FEED || b == TAB
}

/// An ASCII digit.
pub open spec fn digit(b: u8) -> bool {
    DIGIT_0 <= b <= DIGIT_9
}

/// An ASCII letter.
pub open spec fn letter(b: u8) -> bool {
    UPPER_A <= b <= UPPER_Z || LOWER_A <= b <= LOWER_Z
}

fn is_blank(b: u8) -> (r: bool)
    ensures
        r == blank(b),
{
    b == SPACE || b == LINE_FEED || b == TAB
}

fn is_digit(b: u8) -> (r: bool)
    ensures
        r == digit(b),
{
    DIGIT_0 <= b && b <= DIGIT_9
}

fn is_letter(b: u8) -> (r: bool)
    ensures
        r == letter(b),
{
    (UPPER_A <= b && b <= UPPER_Z) || (LOWER_A <= b && b <= LOWER_Z)
}

/// The classes of byte that a run is made of.
#[derive(Clone, Copy, Debug)]
pub enum ByteClass {
    /// The digits of a number.
    Digit,
    /// The letters, digits and underscores of a word.
    Word,
    /// Whatever may stand inside a string literal: all but the quote.
    Quoted,
}

impl ByteClass {
    /// Whether `b` belongs to the class.
    pub open spec fn holds(self, b: u8) -> bool {
        match self {
            ByteClass::Digit => digit(b),
            ByteClass::Word => letter(b) || digit(b) || b == UNDERSCORE,
            ByteClass::Quoted => b != QUOTE,
        }
    }

    fn test(&self, b: u8) -> (r: bool)
        ensures
            r == self.holds(b),
    {
        match self {
            ByteClass::Digit => is_digit(b),
            ByteClass::Word => is_letter(b) || is_digit(b) || b == UNDERSCORE,
            ByteClass::Quoted => b != QUOTE,
        }
    }
}

/// The first index from `p` on whose byte is not blank, or the end of the text.
pub open spec fn after_blanks(src: Seq<u8>, p: nat) -> nat
    decreases src.len() - p,
{
    if p < src.len() && blank(src[p as int]) {
        after_blanks(src, p + 1)
    } else {
        p
    }
}

/// The end of the longest run of bytes of `class` that starts at `p`.
pub open spec fn run_end(src: Seq<u8>, p: nat, class: ByteClass) -> nat
    decreases src.len() - p,
{
    if p < src.len() && class.holds(src[p as int]) {
        run_end(src, p + 1, class)
    } else {
        p
    }
}

/// The end of the number literal whose digits go on at `p`: the digits there, and, if a
/// decimal point follows them, the point and the digits after it.
pub open spec fn number_end(src: Seq<u8>, p: nat) -> nat {
    let whole = run_end(src, p, ByteClass::Digit);
    if byte_at(src, whole as int) == POINT {
        run_end(src, whole + 1, ByteClass::Digit)
    } else {
        whole
    }
}

/// The kind of a word: one of the keywords, or a variable.
pub open spec fn word_kind(text: Seq<char>) -> TokenType {
    if text == "NUMBER"@ {
        TokenType::TYPENUMBER
    } else if text == "CALL"@ {
        TokenType::CALL
    } else if text == "STRING"@ {
        TokenType::TYPESTRING
    } else if text == "WHILE"@ {
        TokenType::WHILE
    } else if text == "IF"@ {
        TokenType::IF
    } else if text == "ELSE"@ {
        TokenType::ELSE
    } else if text == "RET"@ {
        TokenType::RET
    } else if text == "FUNCTION"@ {
        TokenType::FUNCTION
    } else if text == "PUT"@ {
        TokenType::PUT
    } else {
        TokenType::VAR
    }
}

/// The operator that the two characters `a` and `b` spell together, if any:
/// `==`, `>=`, `<=`, `&&` or `||`.
pub open spec fn pair_kind(a: u8, b: u8) -> Option<TokenType> {
    if a == EQUALS && b == EQUALS {
        Some(TokenType::EQUAL)
    } else if a == GREATER && b == EQUALS {
        Some(TokenType::GOE)
    } else if a == LESS && b == EQUALS {
        Some(TokenType::LOE)
    } else if a == AMPERSAND && b == AMPERSAND {
        Some(TokenType::AND)
    } else if a == BAR && b == BAR {
        Some(TokenType::OR)
    } else {
        None
    }
}

/// The token that the character `a` is by itself, if any:
/// one of `{ } ( ) = + - * / % & | : , ! > < ; ^`.
pub open spec fn single_kind(a: u8) -> Option<TokenType> {
    if a == BRACE_OPEN {
        Some(TokenType::BEGIN)
    } else if a == BRACE_CLOSE {
        Some(TokenType::END)
    } else if a == PAREN_OPEN {
        Some(TokenType::LBRAC)
    } else if a == PAREN_CLOSE {
        Some(TokenType::RBRAC)
    } else if a == EQUALS {
        Some(TokenType::ASSIGN)
    } else if a == PLUS {
        Some(TokenType::ADD)
    } else if a == MINUS {
        Some(TokenType::SUB)
    } else if a == STAR {
        Some(TokenType::MUL)
    } else if a == SLASH {
        Some(TokenType::DIV)
    } else if a == PERCENT {
        Some(TokenType::MOD)
    } else if a == BAR {
        Some(TokenType::CAT)
    } else if a == COLON {
        Some(TokenType::COLON)
    } else if a == COMMA {
        Some(TokenType::COMMA)
    } else if a == BANG {
        Some(TokenType::NOT)
    } else if a == GREATER {
        Some(TokenType::GREATER)
    } else if a == LESS {
        Some(TokenType::LESS)
    } else if a == SEMICOLON {
        Some(TokenType::SEMICOLON)
    } else if a == CARET {
        Some(TokenType::POW)
    } else if a == AMPERSAND {
        Some(TokenType::AMPERSAND)
    } else {
        None
    }
}

/// The bytes of `src` from `lo` up to `hi`, and none where that is no range of `src`.
pub open spec fn slice(src: Seq<u8>, lo: int, hi: int) -> Seq<u8> {
    if 0 <= lo <= hi <= src.len() {
        src.subrange(lo, hi)
    } else {
        Seq::empty()
    }
}

/// The characters that the bytes of `src` from `lo` up to `hi` encode.
pub open spec fn text_in(src: Seq<u8>, lo: int, hi: int) -> Seq<char> {
    decode_utf8(slice(src, lo, hi))
}

/// What one request for a token yields: the token, and the number of characters
/// consumed since the start of the text when it has been read.
pub struct Scan {
    pub token: Lexeme,
    pub end: nat,
}

/// The token read from `src` after `p` characters have been consumed.
///
/// Blanks are skipped. A digit, or a minus sign right before a digit, begins a number
/// literal, whatever token stands before it: `3-5` is the two literals `3` and `-5`. A
/// quote begins a string literal, which runs up to the next quote or the end
/// of the text; the closing quote is consumed and is no part of the token's text. A
/// letter begins a word. Then come the tokens of two characters and those of one; a `&`
/// that no second `&` follows is a token of its own kind. Any other character is
/// consumed and yields the end marker, as the end of the text does.
pub open spec fn scan(src: Seq<u8>, p: nat) -> Scan {
    let s = after_blanks(src, p);
    let ch = byte_at(src, s as int);
    let ahead = byte_at(src, s + 1 as int);
    if digit(ch) || (ch == MINUS && digit(ahead)) {
        let e = number_end(src, s + 1);
        Scan { token: Lexeme { kind: TokenType::NUMBER, text: text_in(src, s as int, e as int) }, end: e }
    } else if ch == QUOTE {
        let e = run_end(src, s + 1, ByteClass::Quoted);
        Scan {
            token: Lexeme { kind: TokenType::STRING, text: text_in(src, s + 1 as int, e as int) },
            end: e + 1,
        }
    } else if letter(ch) {
        let e = run_end(src, s + 1, ByteClass::Word);
        let text = text_in(src, s as int, e as int);
        Scan { token: Lexeme { kind: word_kind(text), text }, end: e }
    } else if pair_kind(ch, ahead) is Some {
        Scan {
            token: Lexeme { kind: pair_kind(ch, ahead).unwrap(), text: text_in(src, s as int, s + 2 as int) },
            end: s + 2,
        }
    } else if single_kind(ch) is Some {
        Scan {
            token: Lexeme { kind: single_kind(ch).unwrap(), text: text_in(src, s as int, s + 1 as int) },
            end: s + 1,
        }
    } else {
        Scan { token: end_marker(), end: s + 1 }
    }
}

/// The number of characters consumed when the first `k` tokens of `src` have been read.
pub open spec fn mark(src: Seq<u8>, k: int) -> nat
    decreases k,
{
    if k <= 0 {
        0
    } else {
        scan(src, mark(src, k - 1)).end
    }
}

/// The token of `src` at index `k`, counted from 0; before the first token stands the end
/// marker.
pub open spec fn token_at(src: Seq<u8>, k: int) -> Lexeme {
    if k < 0 {
        end_marker()
    } else {
        scan(src, mark(src, k)).token
    }
}

/// Reading a token consumes at least one character.
pub proof fn lemma_scan_advances(src: Seq<u8>, p: nat)
    ensures
        scan(src, p).end > p,
        p >= src.len() ==> scan(src, p).token == end_marker(),
{
    lemma_after_blanks(src, p);
    let s = after_blanks(src, p);
    lemma_run_end(src, s + 1, ByteClass::Digit);
    lemma_run_end(src, s + 1, ByteClass::Word);
    lemma_run_end(src, s + 1, ByteClass::Quoted);
    let whole = run_end(src, s + 1, ByteClass::Digit);
    lemma_run_end(src, whole + 1, ByteClass::Digit);
}

/// Blanks are skipped forward, and none where the text has ended.
pub proof fn lemma_after_blanks(src: Seq<u8>, p: nat)
    ensures
        after_blanks(src, p) >= p,
        p >= src.len() ==> after_blanks(src, p) == p,
    decreases src.len() - p,
{
    if p < src.len() && blank(src[p as int]) {
        lemma_after_blanks(src, p + 1);
    }
}

/// A run ends at or behind its start.
pub proof fn lemma_run_end(src: Seq<u8>, p: nat, class: ByteClass)
    ensures
        run_end(src, p, class) >= p,
    decreases src.len() - p,
{
    if p < src.len() && class.holds(src[p as int]) {
        lemma_run_end(src, p + 1, class);
    }
}

/// When `k` tokens have been read, at least `k` characters have been consumed.
pub proof fn lemma_mark_grows(src: Seq<u8>, k: int)
    ensures
        k >= 0 ==> mark(src, k) >= k,
    decreases k,
{
    if k > 0 {
        lemma_mark_grows(src, k - 1);
        lemma_scan_advances(src, mark(src, k - 1));
    }
}

/// The tokens of a text. A text has no more tokens than bytes, so the sequence has the
/// length of the text; behind the last token of the text it holds end markers, which is
/// also what stands beyond its end.
#[verifier::opaque]
pub open spec fn tokens_of(src: Seq<u8>) -> Seq<Lexeme> {
    Seq::new(src.len(), |k: int| token_at(src, k))
}

/// `tokens_of` holds every token of the text: behind it only end markers follow.
pub proof fn lemma_tokens_of(src: Seq<u8>, k: int)
    ensures
        crate::grammar::tok(tokens_of(src), k) == token_at(src, k),
{
    reveal(tokens_of);
    if k >= src.len() {
        lemma_mark_grows(src, k);
        lemma_scan_advances(src, mark(src, k));
    }
}

fn keyword(word: &String) -> (r: TokenType)
    ensures
        r == word_kind(word@),
{
    if *word == String::from_str("NUMBER") {
        TokenType::TYPENUMBER
    } else if *word == String::from_str("CALL") {
        TokenType::CALL
    } else if *word == String::from_str("STRING") {
        TokenType::TYPESTRING
    } else if *word == String::from_str("WHILE") {
        TokenType::WHILE
    } else if *word == String::from_str("IF") {
        TokenType::IF
    } else if *word == String::from_str("ELSE") {
        TokenType::ELSE
    } else if *word == String::from_str("RET") {
        TokenType::RET
    } else if *word == String::from_str("FUNCTION") {
        TokenType::FUNCTION
    } else if *word == String::from_str("PUT") {
        TokenType::PUT
    } else {
        TokenType::VAR
    }
}

fn pair(a: u8, b: u8) -> (r: Option<TokenType>)
    ensures
        r == pair_kind(a, b),
{
    if a == EQUALS && b == EQUALS {
        Some(TokenType::EQUAL)
    } else if a == GREATER && b == EQUALS {
        Some(TokenType::GOE)
    } else if a == LESS && b == EQUALS {
        Some(TokenType::LOE)
    } else if a == AMPERSAND && b == AMPERSAND {
        Some(TokenType::AND)
    } else if a == BAR && b == BAR {
        Some(TokenType::OR)
    } else {
        None
    }
}

fn single(a: u8) -> (r: Option<TokenType>)
    ensures
        r == single_kind(a),
{
    if a == BRACE_OPEN {
        Some(TokenType::BEGIN)
    } else if a == BRACE_CLOSE {
        Some(TokenType::END)
    } else if a == PAREN_OPEN {
        Some(TokenType::LBRAC)
    } else if a == PAREN_CLOSE {
        Some(TokenType::RBRAC)
    } else if a == EQUALS {
        Some(TokenType::ASSIGN)
    } else if a == PLUS {
        Some(TokenType::ADD)
    } else if a == MINUS {
        Some(TokenType::SUB)
    } else if a == STAR {
        Some(TokenType::MUL)
    } else if a == SLASH {
        Some(TokenType::DIV)
    } else if a == PERCENT {
        Some(TokenType::MOD)
    } else if a == BAR {
        Some(TokenType::CAT)
    } else if a == COLON {
        Some(TokenType::COLON)
    } else if a == COMMA {
        Some(TokenType::COMMA)
    } else if a == BANG {
        Some(TokenType::NOT)
    } else if a == GREATER {
        Some(TokenType::GREATER)
    } else if a == LESS {
        Some(TokenType::LESS)
    } else if a == SEMICOLON {
        Some(TokenType::SEMICOLON)
    } else if a == CARET {
        Some(TokenType::POW)
    } else if a == AMPERSAND {
        Some(TokenType::AMPERSAND)
    } else {
        None
    }
}

/// The lexical analyzer over a source text.
pub struct TokenStream {
    in_stream: TextStream,
    cur: Token,
    next: Token,
}

impl TokenStream {
    /// The bytes of the text.
    pub closed spec fn source(&self) -> Seq<u8> {
        self.in_stream.source()
    }

    /// The number of characters consumed so far.
    pub closed spec fn consumed(&self) -> nat {
        self.in_stream.consumed()
    }

    /// The character cursor is in order.
    pub closed spec fn inv(&self) -> bool {
        self.in_stream.inv()
    }

    /// The stream stands at token `k` of its text: that token is current, the one after
    /// it is upcoming, and the characters of both have been consumed and no others.
    pub open spec fn synced(&self, k: int) -> bool {
        &&& k >= -2
        &&& self.consumed() == mark(self.source(), k + 2)
        &&& self.spec_current()@ == token_at(self.source(), k)
        &&& self.spec_peek()@ == token_at(self.source(), k + 1)
    }

    /// Passes over the longest run of `class` that starts at the upcoming character. A
    /// run that starts where a character begins ends where one begins.
    fn skip_run(&mut self, class: ByteClass)
        requires
            old(self).inv(),
            old(self).consumed() <= old(self).source().len(),
            is_char_boundary(old(self).source(), old(self).consumed() as int),
        ensures
            final(self).inv(),
            final(self).source() == old(self).source(),
            final(self).spec_current() == old(self).spec_current(),
            final(self).spec_peek() == old(self).spec_peek(),
            final(self).consumed() == run_end(old(self).source(), old(self).consumed(), class),
            old(self).consumed() <= final(self).consumed() <= old(self).source().len(),
            is_char_boundary(old(self).source(), final(self).consumed() as int),
    {
        let ghost src = self.source();
        let ghost start = self.consumed();
        proof {
            self.in_stream.lemma_source_is_text();
        }
        while !self.in_stream.eof() && class.test(self.in_stream.peek())
            invariant
                self.inv(),
                self.source() == src,
                valid_utf8(src),
                self.spec_current() == old(self).spec_current(),
                self.spec_peek() == old(self).spec_peek(),
                start <= self.consumed() <= src.len(),
                run_end(src, start, class) == run_end(src, self.consumed(), class),
                is_char_boundary(src, start as int),
                class != ByteClass::Quoted ==> is_char_boundary(src, self.consumed() as int),
            decreases src.len() - self.consumed(),
        {
            proof {
                if class != ByteClass::Quoted {
                    lemma_boundary_at_ascii(src, self.consumed() as int);
                }
            }
            self.in_stream.next();
        }
        proof {
            if self.consumed() < src.len() {
                if class == ByteClass::Quoted {
                    lemma_boundary_at_ascii(src, self.consumed() as int);
                }
            } else {
                is_char_boundary_start_end_of_seq(src);
            }
        }
    }

    /// The text of the bytes from `lo` up to the upcoming byte.
    fn text_from(&self, lo: usize) -> (r: String)
        requires
            self.inv(),
            lo <= self.consumed() <= self.source().len(),
            is_char_boundary(self.source(), lo as int),
            is_char_boundary(self.source(), self.consumed() as int),
        ensures
            r@ == text_in(self.source(), lo as int, self.consumed() as int),
    {
        let hi = self.in_stream.offset();
        self.in_stream.slice(lo, hi)
    }

    /// Reads the text of the longest run of `class` that starts at the upcoming
    /// character.
    fn read_until(&mut self, class: ByteClass) -> (run: String)
        requires
            old(self).inv(),
            old(self).consumed() <= old(self).source().len(),
            is_char_boundary(old(self).source(), old(self).consumed() as int),
        ensures
            final(self).inv(),
            final(self).source() == old(self).source(),
            final(self).spec_current() == old(self).spec_current(),
            final(self).spec_peek() == old(self).spec_peek(),
            final(self).consumed() == run_end(old(self).source(), old(self).consumed(), class),
            final(self).consumed() <= old(self).source().len(),
            run@ == text_in(old(self).source(), old(self).consumed() as int, final(self).consumed() as int),
    {
        let start = self.in_stream.offset();
        self.skip_run(class);
        self.text_from(start)
    }

    /// Reads the text of the longest run of `class` that starts at the upcoming
    /// character, behind the character that was consumed last.
    fn read_until_f(&mut self, class: ByteClass) -> (run: String)
        requires
            old(self).inv(),
            1 <= old(self).consumed() <= old(self).source().len(),
            old(self).source()[old(self).consumed() - 1] < 128,
        ensures
            final(self).inv(),
            final(self).source() == old(self).source(),
            final(self).spec_current() == old(self).spec_current(),
            final(self).spec_peek() == old(self).spec_peek(),
            final(self).consumed() == run_end(old(self).source(), old(self).consumed(), class),
            final(self).consumed() <= old(self).source().len(),
            run@ == text_in(old(self).source(), old(self).consumed() - 1, final(self).consumed() as int),
    {
        proof {
            self.in_stream.lemma_source_is_text();
            lemma_boundary_at_ascii(self.source(), self.consumed() - 1);
        }
        let start = self.in_stream.offset() - 1;
        self.skip_run(class);
        self.text_from(start)
    }

    /// Reads the rest of the number literal whose first character was consumed last.
    fn read_number(&mut self) -> (run: String)
        requires
            old(self).inv(),
            1 <= old(self).consumed() <= old(self).source().len(),
            old(self).source()[old(self).consumed() - 1] < 128,
        ensures
            final(self).inv(),
            final(self).source() == old(self).source(),
            final(self).spec_current() == old(self).spec_current(),
            final(self).spec_peek() == old(self).spec_peek(),
            final(self).consumed() == number_end(old(self).source(), old(self).consumed()),
            run@ == text_in(old(self).source(), old(self).consumed() - 1, final(self).consumed() as int),
    {
        proof {
            self.in_stream.lemma_source_is_text();
            lemma_boundary_at_ascii(self.source(), self.consumed() - 1);
        }
        let start = self.in_stream.offset() - 1;
        self.skip_run(ByteClass::Digit);
        if self.in_stream.peek() == POINT {
            proof {
                lemma_boundary_at_ascii(self.source(), self.consumed() as int);
            }
            self.in_stream.next();
            self.skip_run(ByteClass::Digit);
        }
        self.text_from(start)
    }

    /// Reads the next token from the text, past the lookahead: neither the current nor
    /// the upcoming token changes.
    pub fn prase_next(&mut self) -> (r: Token)
        requires
            old(self).inv(),
        ensures
            final(self).inv(),
            final(self).source() == old(self).source(),
            final(self).spec_current() == old(self).spec_current(),
            final(self).spec_peek() == old(self).spec_peek(),
            r@ == scan(old(self).source(), old(self).consumed()).token,
            final(self).consumed() == scan(old(self).source(), old(self).consumed()).end,
    {
        let ghost src = self.source();
        let ghost start = self.consumed();
        let mut ch = self.in_stream.next();
        while is_blank(ch)
            invariant
                self.inv(),
                self.source() == src,
                self.spec_current() == old(self).spec_current(),
                self.spec_peek() == old(self).spec_peek(),
                self.consumed() >= 1,
                ch == byte_at(src, self.consumed() - 1),
                after_blanks(src, start) == after_blanks(src, (self.consumed() - 1) as nat),
            decreases src.len() + 1 - self.consumed(),
        {
            ch = self.in_stream.next();
        }
        proof {
            self.in_stream.lemma_source_is_text();
        }
        let ahead = self.in_stream.peek();
        if is_digit(ch) || (ch == MINUS && is_digit(ahead)) {
            let text = self.read_number();
            Token::new(TokenType::NUMBER, text)
        } else if ch == QUOTE {
            proof {
                lemma_boundary_at_ascii(src, self.consumed() - 1);
            }
            let text = self.read_until(ByteClass::Quoted);
            self.in_stream.next();
            Token::new(TokenType::STRING, text)
        } else if is_letter(ch) {
            let word = self.read_until_f(ByteClass::Word);
            let kind = keyword(&word);
            Token::new(kind, word)
        } else {
            match pair(ch, ahead) {
                Some(kind) => {
                    proof {
                        lemma_boundary_at_ascii(src, self.consumed() - 1);
                        lemma_boundary_at_ascii(src, self.consumed() as int);
                    }
                    let at = self.in_stream.offset() - 1;
                    self.in_stream.next();
                    Token::new(kind, self.text_from(at))
                },
                None => match single(ch) {
                    Some(kind) => {
                        proof {
                            lemma_boundary_at_ascii(src, self.consumed() - 1);
                        }
                        let at = self.in_stream.offset() - 1;
                        Token::new(kind, self.text_from(at))
                    },
                    None => Token::new_eof(),
                },
            }
        }
    }

    /// A token stream at the start of `source`, with the first token upcoming.
    pub fn new(source: &str) -> (r: TokenStream)
        ensures
            r.inv(),
            r.source() == source.spec_bytes(),
            r.synced(-1),
    {
        let in_stream = TextStream::new(source);
        let mut stream = TokenStream { in_stream, cur: Token::new_eof(), next: Token::new_eof() };
        stream.next();
        stream
    }

    /// The row and the column that the character cursor has reached.
    pub fn position(&self) -> (r: (usize, usize))
        requires
            self.inv(),
        ensures
            r.0 == row_at(self.source(), self.consumed()),
            r.1 == col_at(self.source(), self.consumed()),
    {
        self.in_stream.position()
    }
}

impl Stream<Token> for TokenStream {
    open spec fn wf(&self) -> bool {
        self.inv()
    }

    closed spec fn spec_current(&self) -> Token {
        self.cur
    }

    closed spec fn spec_peek(&self) -> Token {
        self.next
    }

    /// Makes the upcoming token current and reads the one after it from the text.
    fn next(&mut self) -> (r: Token)
        ensures
            final(self).source() == old(self).source(),
            final(self).spec_peek()@ == scan(old(self).source(), old(self).consumed()).token,
            final(self).consumed() == scan(old(self).source(), old(self).consumed()).end,
            forall|k: int| old(self).synced(k) ==> final(self).synced(k + 1),
    {
        self.cur = self.next.clone();
        self.next = self.prase_next();
        self.cur.clone()
    }

    fn peek(&self) -> (r: Token) {
        self.next.clone()
    }

    fn current(&self) -> (r: Token) {
        self.cur.clone()
    }

    /// Rewinds the text to its start and forgets both tokens: the end marker takes their
    /// place until `next` is called.
    fn reset(&mut self)
        ensures
            final(self).source() == old(self).source(),
            final(self).synced(-2),
    {
        self.in_stream.reset();
        self.cur = Token::new_eof();
        self.next = Token::new_eof();
    }

    /// Whether no character remains in the text.
    fn eof(&self) -> (r: bool)
        ensures
            r == (self.consumed() >= self.source().len()),
    {
        self.in_stream.eof()
    }

    fn err(&self, msg: &str) -> (r: Diagnostic)
        ensures
            r.row == row_at(self.source(), self.consumed()),
            r.col == col_at(self.source(), self.consumed()),
    {
        self.in_stream.err(msg)
    }
}

} // verus!
