//! The lexer: a function from the bytes of a source text to its lexemes.
//!
//! Lexemes tile the source: each starts where the one before it ended, the
//! first at offset 0 and the last ending at the length of the source.

use crate::token::Token;
use vstd::prelude::*;
use vstd::slice::slice_subrange;
use vstd::string::StringSliceAdditionalSpecFns;

verus! {

/// One lexical unit: its kind and its byte range in the source.
#[derive(Debug, Clone, Copy, PartialEq, Eq, Structural)]
pub struct Lexeme {
    pub kind: Token,
    pub start: usize,
    pub end: usize,
}

/// Classes of bytes of which a lexeme may hold a maximal run.
#[derive(Debug, Clone, Copy, PartialEq, Eq, Structural)]
pub enum ByteClass {
    /// `[0-9a-zA-Z_]`
    IdentContinue,
    /// `[0-9]`
    Digit,
    /// Space and tab.
    Blank,
    /// `\n`
    NewLine,
    /// Anything but `\n`.
    NotNewLine,
    /// A UTF-8 continuation byte, `0x80..=0xBF`.
    Continuation,
}

pub open spec fn is_digit(b: u8) -> bool {
    0x30 <= b <= 0x39
}

pub open spec fn is_ident_start(b: u8) -> bool {
    b == 0x5f || (0x61 <= b <= 0x7a) || (0x41 <= b <= 0x5a)
}

pub open spec fn in_class(c: ByteClass, b: u8) -> bool {
    match c {
        ByteClass::IdentContinue => is_ident_start(b) || is_digit(b),
        ByteClass::Digit => is_digit(b),
        ByteClass::Blank => b == 0x20 || b == 0x09,
        ByteClass::NewLine => b == 0x0a,
        ByteClass::NotNewLine => b != 0x0a,
        ByteClass::Continuation => 0x80 <= b <= 0xbf,
    }
}

/// End of the maximal run of bytes of class `c` that starts at `i`.
pub open spec fn run_end(s: Seq<u8>, i: int, c: ByteClass) -> int
    decreases s.len() - i,
{
    if 0 <= i < s.len() && in_class(c, s[i]) {
        run_end(s, i + 1, c)
    } else {
        i
    }
}

/// Whether the byte at `i` exists and equals `b`.
pub open spec fn byte_is(s: Seq<u8>, i: int, b: u8) -> bool {
    0 <= i < s.len() && s[i] == b
}

/// Whether the byte at `i` exists and is a decimal digit.
pub open spec fn digit_at(s: Seq<u8>, i: int) -> bool {
    0 <= i < s.len() && is_digit(s[i])
}

/// The keyword that `text` spells, if any.
pub open spec fn keyword(text: Seq<u8>) -> Option<Token> {
    if text == "comp".spec_bytes() {
        Some(Token::COMP)
    } else if text == "res".spec_bytes() {
        Some(Token::RES)
    } else if text == "sys".spec_bytes() {
        Some(Token::SYS)
    } else if text == "query".spec_bytes() {
        Some(Token::QUERY)
    } else if text == "fn".spec_bytes() {
        Some(Token::FN)
    } else if text == "if".spec_bytes() {
        Some(Token::IF)
    } else if text == "else".spec_bytes() {
        Some(Token::ELSE)
    } else if text == "while".spec_bytes() {
        Some(Token::WHILE)
    } else if text == "let".spec_bytes() {
        Some(Token::LET)
    } else if text == "del".spec_bytes() {
        Some(Token::DEL)
    } else if text == "use".spec_bytes() {
        Some(Token::USE)
    } else {
        None
    }
}

/// End of the number literal that starts at the digit at `i`: an integer
/// part (`0`, or a nonzero digit and more digits), then an optional
/// fraction (`.` and digits), then an optional exponent (`e` or `E`, an
/// optional sign, digits). A part is taken only when it is complete.
pub open spec fn number_end(s: Seq<u8>, i: int) -> int {
    let int_end = if byte_is(s, i, 0x30) {
        i + 1
    } else {
        run_end(s, i + 1, ByteClass::Digit)
    };
    let frac_end = if byte_is(s, int_end, 0x2e) && digit_at(s, int_end + 1) {
        run_end(s, int_end + 1, ByteClass::Digit)
    } else {
        int_end
    };
    let digits = if byte_is(s, frac_end + 1, 0x2b) || byte_is(s, frac_end + 1, 0x2d) {
        frac_end + 2
    } else {
        frac_end + 1
    };
    if (byte_is(s, frac_end, 0x65) || byte_is(s, frac_end, 0x45)) && digit_at(s, digits) {
        run_end(s, digits, ByteClass::Digit)
    } else {
        frac_end
    }
}

/// The operator or punctuation mark that starts with byte `b`; `second`
/// says whether the byte after it is the one that forms its two-byte
/// variant (`=` after `+ - * / = < >`, the same byte again after `|` and
/// `&`). The result is the kind and the number of bytes.
pub open spec fn punct(b: u8, second: bool) -> Option<(Token, int)> {
    if b == 0x2b {
        Some(if second { (Token::PLUSEQ, 2int) } else { (Token::PLUS, 1int) })
    } else if b == 0x2d {
        Some(if second { (Token::MINUSEQ, 2int) } else { (Token::MINUS, 1int) })
    } else if b == 0x2a {
        Some(if second { (Token::STAREQ, 2int) } else { (Token::STAR, 1int) })
    } else if b == 0x2f {
        Some(if second { (Token::SLASHEQ, 2int) } else { (Token::SLASH, 1int) })
    } else if b == 0x3d {
        Some(if second { (Token::EQEQ, 2int) } else { (Token::EQ, 1int) })
    } else if b == 0x3c {
        Some(if second { (Token::LESSEQ, 2int) } else { (Token::LESS, 1int) })
    } else if b == 0x3e {
        Some(if second { (Token::GREATEREQ, 2int) } else { (Token::GREATER, 1int) })
    } else if b == 0x7c {
        Some(if second { (Token::OROR, 2int) } else { (Token::UNKNOWN, 1int) })
    } else if b == 0x26 {
        Some(if second { (Token::ANDAND, 2int) } else { (Token::UNKNOWN, 1int) })
    } else if b == 0x21 {
        Some((Token::EXCLAMATION, 1int))
    } else if b == 0x3a {
        Some((Token::COLON, 1int))
    } else if b == 0x7b {
        Some((Token::LBRACE, 1int))
    } else if b == 0x7d {
        Some((Token::RBRACE, 1int))
    } else if b == 0x5b {
        Some((Token::LBRACKET, 1int))
    } else if b == 0x5d {
        Some((Token::RBRACKET, 1int))
    } else if b == 0x28 {
        Some((Token::LPAREN, 1int))
    } else if b == 0x29 {
        Some((Token::RPAREN, 1int))
    } else if b == 0x2e {
        Some((Token::DOT, 1int))
    } else if b == 0x3b {
        Some((Token::SEMICOLON, 1int))
    } else if b == 0x2c {
        Some((Token::COMMA, 1int))
    } else {
        None
    }
}

/// The byte that, right after `b`, forms a two-byte operator with it.
pub open spec fn second_byte(b: u8) -> u8 {
    if b == 0x7c || b == 0x26 {
        b
    } else {
        0x3d
    }
}

/// Kind of the lexeme that starts at `i`, and the end of the text that its
/// pattern matches. The longest match wins, and a keyword wins over an
/// identifier of the same text. A comment runs from `#` up to and including
/// the next newline; without a newline the `#` is `UNKNOWN`, as is any byte
/// that starts no other lexeme.
pub open spec fn match_at(s: Seq<u8>, i: int) -> (Token, int)
    recommends
        0 <= i < s.len(),
{
    let b = s[i];
    if is_ident_start(b) {
        let e = run_end(s, i + 1, ByteClass::IdentContinue);
        match keyword(s.subrange(i, e)) {
            Some(k) => (k, e),
            None => (Token::IDENT, e),
        }
    } else if is_digit(b) {
        (Token::NUMBER, number_end(s, i))
    } else if in_class(ByteClass::Blank, b) {
        (Token::WHITE_SPACE, run_end(s, i + 1, ByteClass::Blank))
    } else if b == 0x0a {
        (Token::NEW_LINE, run_end(s, i + 1, ByteClass::NewLine))
    } else if b == 0x23 {
        let e = run_end(s, i + 1, ByteClass::NotNewLine);
        if e < s.len() {
            (Token::COMMENT, e + 1)
        } else {
            (Token::UNKNOWN, i + 1)
        }
    } else {
        match punct(b, byte_is(s, i + 1, second_byte(b))) {
            Some((k, n)) => (k, i + n),
            None => (Token::UNKNOWN, i + 1),
        }
    }
}

/// The lexeme that starts at `i`. A lexeme never ends inside a character:
/// it extends over the continuation bytes that follow the text matched.
pub open spec fn lexeme_at(s: Seq<u8>, i: int) -> Lexeme
    recommends
        0 <= i < s.len(),
{
    let (kind, e) = match_at(s, i);
    Lexeme { kind, start: i as usize, end: run_end(s, e, ByteClass::Continuation) as usize }
}

/// The lexemes of `s` from offset `i` on.
pub open spec fn lexemes_from(s: Seq<u8>, i: int) -> Seq<Lexeme>
    decreases s.len() - i,
{
    if 0 <= i < s.len() {
        let l = lexeme_at(s, i);
        if i < l.end <= s.len() {
            seq![l] + lexemes_from(s, l.end as int)
        } else {
            seq![l]
        }
    } else {
        Seq::empty()
    }
}

/// The lexemes of a whole source.
pub open spec fn lexemes(s: Seq<u8>) -> Seq<Lexeme> {
    lexemes_from(s, 0)
}

/// A run ends at or after its start, within the text; the byte at its end,
/// if any, is not of the class, and every byte before it is.
pub proof fn lemma_run_end(s: Seq<u8>, i: int, c: ByteClass)
    requires
        0 <= i <= s.len(),
    ensures
        i <= run_end(s, i, c) <= s.len(),
        run_end(s, i, c) < s.len() ==> !in_class(c, s[run_end(s, i, c)]),
        forall|j: int| i <= j < run_end(s, i, c) ==> in_class(c, #[trigger] s[j]),
    decreases s.len() - i,
{
    if i < s.len() && in_class(c, s[i]) {
        lemma_run_end(s, i + 1, c);
    }
}

/// The text matched at `i` is not empty and lies within the source.
pub proof fn lemma_match_at_bounds(s: Seq<u8>, i: int)
    requires
        0 <= i < s.len(),
    ensures
        i < match_at(s, i).1 <= s.len(),
{
    lemma_run_end(s, i + 1, ByteClass::IdentContinue);
    lemma_run_end(s, i + 1, ByteClass::Blank);
    lemma_run_end(s, i + 1, ByteClass::NewLine);
    lemma_run_end(s, i + 1, ByteClass::NotNewLine);
    lemma_run_end(s, i + 1, ByteClass::Digit);
    let int_end = if byte_is(s, i, 0x30) {
        i + 1
    } else {
        run_end(s, i + 1, ByteClass::Digit)
    };
    if int_end + 1 <= s.len() {
        lemma_run_end(s, int_end + 1, ByteClass::Digit);
    }
    let frac_end = if byte_is(s, int_end, 0x2e) && digit_at(s, int_end + 1) {
        run_end(s, int_end + 1, ByteClass::Digit)
    } else {
        int_end
    };
    if frac_end + 1 <= s.len() {
        lemma_run_end(s, frac_end + 1, ByteClass::Digit);
    }
    if frac_end + 2 <= s.len() {
        lemma_run_end(s, frac_end + 2, ByteClass::Digit);
    }
}

/// A lexeme is not empty, lies within the source, and ends at the end of
/// the source or before a byte that is no continuation byte.
pub proof fn lemma_lexeme_at(s: Seq<u8>, i: int)
    requires
        0 <= i < s.len(),
        s.len() <= usize::MAX,
    ensures
        lexeme_at(s, i).start == i,
        i < lexeme_at(s, i).end <= s.len(),
        lexeme_at(s, i).end < s.len() ==> !in_class(
            ByteClass::Continuation,
            s[lexeme_at(s, i).end as int],
        ),
{
    lemma_match_at_bounds(s, i);
    lemma_run_end(s, match_at(s, i).1, ByteClass::Continuation);
}


fn class_contains(c: ByteClass, b: u8) -> (r: bool)
    ensures
        r == in_class(c, b),
{
    match c {
        ByteClass::IdentContinue => b == 0x5f || (0x61 <= b && b <= 0x7a) || (0x41 <= b && b <= 0x5a)
            || (0x30 <= b && b <= 0x39),
        ByteClass::Digit => 0x30 <= b && b <= 0x39,
        ByteClass::Blank => b == 0x20 || b == 0x09,
        ByteClass::NewLine => b == 0x0a,
        ByteClass::NotNewLine => b != 0x0a,
        ByteClass::Continuation => 0x80 <= b && b <= 0xbf,
    }
}

fn scan_run(bytes: &[u8], i: usize, c: ByteClass) -> (e: usize)
    requires
        i <= bytes@.len(),
    ensures
        e == run_end(bytes@, i as int, c),
        i <= e <= bytes@.len(),
{
    let mut j: usize = i;
    while j < bytes.len() && class_contains(c, bytes[j])
        invariant
            i <= j <= bytes@.len(),
            run_end(bytes@, j as int, c) == run_end(bytes@, i as int, c),
        decreases bytes@.len() - j,
    {
        j = j + 1;
    }
    j
}

fn has_byte(bytes: &[u8], i: usize, b: u8) -> (r: bool)
    ensures
        r == byte_is(bytes@, i as int, b),
{
    i < bytes.len() && bytes[i] == b
}

fn has_digit(bytes: &[u8], i: usize) -> (r: bool)
    ensures
        r == digit_at(bytes@, i as int),
{
    i < bytes.len() && 0x30 <= bytes[i] && bytes[i] <= 0x39
}

fn bytes_eq(bytes: &[u8], start: usize, end: usize, lit: &[u8]) -> (r: bool)
    requires
        start <= end <= bytes@.len(),
    ensures
        r == (bytes@.subrange(start as int, end as int) == lit@),
{
    if end - start != lit.len() {
        return false;
    }
    let mut k: usize = 0;
    while k < lit.len()
        invariant
            start <= end <= bytes@.len(),
            end - start == lit@.len(),
            k <= lit@.len(),
            forall|j: int| 0 <= j < k ==> bytes@[start + j] == lit@[j],
        decreases lit@.len() - k,
    {
        if bytes[start + k] != lit[k] {
            assert(bytes@.subrange(start as int, end as int)[k as int] != lit@[k as int]);
            return false;
        }
        k = k + 1;
    }
    assert(bytes@.subrange(start as int, end as int) =~= lit@);
    true
}

fn keyword_of(bytes: &[u8], start: usize, end: usize) -> (r: Option<Token>)
    requires
        start <= end <= bytes@.len(),
    ensures
        r == keyword(bytes@.subrange(start as int, end as int)),
{
    if bytes_eq(bytes, start, end, "comp".as_bytes()) {
        Some(Token::COMP)
    } else if bytes_eq(bytes, start, end, "res".as_bytes()) {
        Some(Token::RES)
    } else if bytes_eq(bytes, start, end, "sys".as_bytes()) {
        Some(Token::SYS)
    } else if bytes_eq(bytes, start, end, "query".as_bytes()) {
        Some(Token::QUERY)
    } else if bytes_eq(bytes, start, end, "fn".as_bytes()) {
        Some(Token::FN)
    } else if bytes_eq(bytes, start, end, "if".as_bytes()) {
        Some(Token::IF)
    } else if bytes_eq(bytes, start, end, "else".as_bytes()) {
        Some(Token::ELSE)
    } else if bytes_eq(bytes, start, end, "while".as_bytes()) {
        Some(Token::WHILE)
    } else if bytes_eq(bytes, start, end, "let".as_bytes()) {
        Some(Token::LET)
    } else if bytes_eq(bytes, start, end, "del".as_bytes()) {
        Some(Token::DEL)
    } else if bytes_eq(bytes, start, end, "use".as_bytes()) {
        Some(Token::USE)
    } else {
        None
    }
}

fn scan_number(bytes: &[u8], i: usize) -> (e: usize)
    requires
        i < bytes@.len(),
        is_digit(bytes@[i as int]),
    ensures
        e == number_end(bytes@, i as int),
        i < e <= bytes@.len(),
{
    let int_end = if bytes[i] == 0x30 {
        i + 1
    } else {
        scan_run(bytes, i + 1, ByteClass::Digit)
    };
    let frac_end = if has_byte(bytes, int_end, 0x2e) && has_digit(bytes, int_end + 1) {
        scan_run(bytes, int_end + 1, ByteClass::Digit)
    } else {
        int_end
    };
    if has_byte(bytes, frac_end, 0x65) || has_byte(bytes, frac_end, 0x45) {
        let digits = if has_byte(bytes, frac_end + 1, 0x2b) || has_byte(bytes, frac_end + 1, 0x2d) {
            frac_end + 2
        } else {
            frac_end + 1
        };
        if has_digit(bytes, digits) {
            return scan_run(bytes, digits, ByteClass::Digit);
        }
    }
    frac_end
}

fn punct_of(b: u8, second: bool) -> (r: Option<(Token, usize)>)
    ensures
        match r {
            Some((k, n)) => punct(b, second) == Some((k, n as int)),
            None => punct(b, second).is_none(),
        },
{
    if b == 0x2b {
        Some(if second { (Token::PLUSEQ, 2) } else { (Token::PLUS, 1) })
    } else if b == 0x2d {
        Some(if second { (Token::MINUSEQ, 2) } else { (Token::MINUS, 1) })
    } else if b == 0x2a {
        Some(if second { (Token::STAREQ, 2) } else { (Token::STAR, 1) })
    } else if b == 0x2f {
        Some(if second { (Token::SLASHEQ, 2) } else { (Token::SLASH, 1) })
    } else if b == 0x3d {
        Some(if second { (Token::EQEQ, 2) } else { (Token::EQ, 1) })
    } else if b == 0x3c {
        Some(if second { (Token::LESSEQ, 2) } else { (Token::LESS, 1) })
    } else if b == 0x3e {
        Some(if second { (Token::GREATEREQ, 2) } else { (Token::GREATER, 1) })
    } else if b == 0x7c {
        Some(if second { (Token::OROR, 2) } else { (Token::UNKNOWN, 1) })
    } else if b == 0x26 {
        Some(if second { (Token::ANDAND, 2) } else { (Token::UNKNOWN, 1) })
    } else if b == 0x21 {
        Some((Token::EXCLAMATION, 1))
    } else if b == 0x3a {
        Some((Token::COLON, 1))
    } else if b == 0x7b {
        Some((Token::LBRACE, 1))
    } else if b == 0x7d {
        Some((Token::RBRACE, 1))
    } else if b == 0x5b {
        Some((Token::LBRACKET, 1))
    } else if b == 0x5d {
        Some((Token::RBRACKET, 1))
    } else if b == 0x28 {
        Some((Token::LPAREN, 1))
    } else if b == 0x29 {
        Some((Token::RPAREN, 1))
    } else if b == 0x2e {
        Some((Token::DOT, 1))
    } else if b == 0x3b {
        Some((Token::SEMICOLON, 1))
    } else if b == 0x2c {
        Some((Token::COMMA, 1))
    } else {
        None
    }
}

fn scan_match(bytes: &[u8], i: usize) -> (r: (Token, usize))
    requires
        i < bytes@.len(),
    ensures
        r.0 == match_at(bytes@, i as int).0,
        r.1 == match_at(bytes@, i as int).1,
        i < r.1 <= bytes@.len(),
{
    proof {
        lemma_match_at_bounds(bytes@, i as int);
    }
    let b = bytes[i];
    if b == 0x5f || (0x61 <= b && b <= 0x7a) || (0x41 <= b && b <= 0x5a) {
        let e = scan_run(bytes, i + 1, ByteClass::IdentContinue);
        match keyword_of(bytes, i, e) {
            Some(k) => (k, e),
            None => (Token::IDENT, e),
        }
    } else if 0x30 <= b && b <= 0x39 {
        (Token::NUMBER, scan_number(bytes, i))
    } else if b == 0x20 || b == 0x09 {
        (Token::WHITE_SPACE, scan_run(bytes, i + 1, ByteClass::Blank))
    } else if b == 0x0a {
        (Token::NEW_LINE, scan_run(bytes, i + 1, ByteClass::NewLine))
    } else if b == 0x23 {
        let e = scan_run(bytes, i + 1, ByteClass::NotNewLine);
        if e < bytes.len() {
            (Token::COMMENT, e + 1)
        } else {
            (Token::UNKNOWN, i + 1)
        }
    } else {
        let second = has_byte(bytes, i + 1, if b == 0x7c || b == 0x26 { b } else { 0x3d });
        match punct_of(b, second) {
            Some((k, n)) => (k, i + n),
            None => (Token::UNKNOWN, i + 1),
        }
    }
}

/// Splits a source text into its lexemes.
pub fn lex(source: &str) -> (r: Vec<Lexeme>)
    ensures
        r@ == lexemes(source.spec_bytes()),
{
    let bytes = source.as_bytes();
    let mut out: Vec<Lexeme> = Vec::new();
    let mut i: usize = 0;
    while i < bytes.len()
        invariant
            bytes@ == source.spec_bytes(),
            i <= bytes@.len(),
            out@ + lexemes_from(bytes@, i as int) == lexemes(bytes@),
        decreases bytes@.len() - i,
    {
        proof {
            lemma_lexeme_at(bytes@, i as int);
        }
        let (kind, m) = scan_match(bytes, i);
        let end = scan_run(bytes, m, ByteClass::Continuation);
        let l = Lexeme { kind, start: i, end };
        assert(l == lexeme_at(bytes@, i as int));
        proof {
            let rest = lexemes_from(bytes@, end as int);
            assert(lexemes_from(bytes@, i as int) == seq![l] + rest);
            assert(out@.push(l) + rest =~= out@ + (seq![l] + rest));
        }
        out.push(l);
        i = end;
    }
    assert(out@ + Seq::<Lexeme>::empty() =~= out@);
    out
}


/// Whether `ls` tiles the byte range `from..len`: each lexeme is not empty
/// and starts where the one before it ended, the first at `from` and the
/// last ending at `len`; and none ends before a continuation byte.
pub open spec fn tiles(s: Seq<u8>, ls: Seq<Lexeme>, from: int) -> bool {
    &&& (ls.len() == 0 <==> from == s.len())
    &&& ls.len() > 0 ==> ls[0].start == from && ls.last().end == s.len()
    &&& forall|k: int|
        0 <= k < ls.len() ==> {
            &&& (#[trigger] ls[k]).start < ls[k].end <= s.len()
            &&& (ls[k].end < s.len() ==> !in_class(ByteClass::Continuation, s[ls[k].end as int]))
        }
    &&& forall|j: int, k: int|
        0 <= j && k == j + 1 && k < ls.len() ==> (#[trigger] ls[j]).end == (#[trigger] ls[k]).start
}

/// The lexemes from `i` on tile the rest of the source.
pub proof fn lemma_lexemes_from(s: Seq<u8>, i: int)
    requires
        0 <= i <= s.len() <= usize::MAX,
    ensures
        tiles(s, lexemes_from(s, i), i),
    decreases s.len() - i,
{
    if i < s.len() {
        lemma_lexeme_at(s, i);
        let l = lexeme_at(s, i);
        let rest = lexemes_from(s, l.end as int);
        lemma_lexemes_from(s, l.end as int);
        let all = lexemes_from(s, i);
        assert(all == seq![l] + rest);
        assert forall|k: int| 0 <= k < all.len() implies {
            &&& (#[trigger] all[k]).start < all[k].end <= s.len()
            &&& (all[k].end < s.len() ==> !in_class(
                ByteClass::Continuation,
                s[all[k].end as int],
            ))
        } by {
            if k > 0 {
                assert(all[k] == rest[k - 1]);
            }
        }
        assert forall|j: int, k: int| 0 <= j && k == j + 1 && k < all.len() implies (
        #[trigger] all[j]).end == (#[trigger] all[k]).start by {
            assert(all[k] == rest[k - 1]);
            if j > 0 {
                assert(all[j] == rest[j - 1]);
            }
        }
        if rest.len() > 0 {
            assert(all.last() == rest.last());
        }
    }
}

/// The lexemes of a source tile it.
pub proof fn lemma_lexemes(s: Seq<u8>)
    requires
        s.len() <= usize::MAX,
    ensures
        tiles(s, lexemes(s), 0),
{
    lemma_lexemes_from(s, 0);
}

} // verus!
