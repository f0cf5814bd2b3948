//! The tokenizer: turns source text into tokens with byte-offset spans.
//!
//! It never fails: a character that starts no token becomes an `Illegal`
//! token and the parser reports it.

use vstd::prelude::*;
use vstd::string::*;
use vstd::utf8::*;
use crate::token::{Span, Token, TokenKind};

verus! {

/// Whether a character has the Unicode White_Space property.
pub uninterp spec fn is_white(c: char) -> bool;

/// Whether a character has the Unicode Alphabetic property.
pub uninterp spec fn is_alpha(c: char) -> bool;

/// Whether a character is alphabetic or numeric in Unicode's sense.
pub uninterp spec fn is_alnum(c: char) -> bool;

/// Relies on `char::is_whitespace`.
#[verifier::external_body]
fn white(c: char) -> (r: bool)
    ensures
        r == is_white(c),
{
    c.is_whitespace()
}

/// Relies on `char::is_alphabetic`.
#[verifier::external_body]
fn alpha(c: char) -> (r: bool)
    ensures
        r == is_alpha(c),
{
    c.is_alphabetic()
}

/// Relies on `char::is_alphanumeric`.
#[verifier::external_body]
fn alnum(c: char) -> (r: bool)
    ensures
        r == is_alnum(c),
{
    c.is_alphanumeric()
}

/// Relies on `str::chars`: the characters of the text, in order.
#[verifier::external_body]
pub(crate) fn chars_of(s: &str) -> (r: Vec<char>)
    ensures
        r@ == s@,
{
    s.chars().collect()
}

/// Relies on collecting characters into a `String`: the text of `cs[from..to]`.
#[verifier::external_body]
pub(crate) fn text_of(cs: &Vec<char>, from: usize, to: usize) -> (r: String)
    requires
        from <= to <= cs@.len(),
    ensures
        r@ == cs@.subrange(from as int, to as int),
{
    cs[from..to].iter().collect()
}

pub open spec fn is_digit(c: char) -> bool {
    '0' <= c && c <= '9'
}

/// Characters that may continue an identifier.
pub open spec fn is_word_char(c: char) -> bool {
    is_alnum(c) || c == '-' || c == '_'
}

/// Number of bytes of the UTF-8 encoding of `c`.
pub open spec fn char_width(c: char) -> nat {
    if (c as u32) < 0x80 {
        1
    } else if (c as u32) < 0x800 {
        2
    } else if (c as u32) < 0x10000 {
        3
    } else {
        4
    }
}

/// Number of bytes of the UTF-8 encoding of `s`.
pub open spec fn byte_len(s: Seq<char>) -> nat
    decreases s.len(),
{
    if s.len() == 0 {
        0
    } else {
        char_width(s[0]) + byte_len(s.drop_first())
    }
}

/// Byte offset of the character at index `k` of `s`.
pub open spec fn offset(s: Seq<char>, k: int) -> nat {
    byte_len(s.take(k))
}

/// First index at or after `i` that holds no whitespace.
pub open spec fn white_end(s: Seq<char>, i: int) -> int
    decreases s.len() - i,
{
    if 0 <= i < s.len() && is_white(s[i]) {
        white_end(s, i + 1)
    } else {
        i
    }
}

/// First index at or after `i` that holds no decimal digit.
pub open spec fn digit_end(s: Seq<char>, i: int) -> int
    decreases s.len() - i,
{
    if 0 <= i < s.len() && is_digit(s[i]) {
        digit_end(s, i + 1)
    } else {
        i
    }
}

/// First index at or after `i` that holds no identifier character.
pub open spec fn word_end(s: Seq<char>, i: int) -> int
    decreases s.len() - i,
{
    if 0 <= i < s.len() && is_word_char(s[i]) {
        word_end(s, i + 1)
    } else {
        i
    }
}

/// First index at or after `i` that holds a double quote, or the length.
pub open spec fn quote_end(s: Seq<char>, i: int) -> int
    decreases s.len() - i,
{
    if 0 <= i < s.len() && s[i] != '"' {
        quote_end(s, i + 1)
    } else {
        i
    }
}

/// ASCII case-insensitive equality of a character with a lower-case one.
pub open spec fn ci_char_eq(a: char, k: char) -> bool {
    a == k || ('a' <= k && k <= 'z' && (a as u32) + 32 == (k as u32))
}

/// ASCII case-insensitive equality of a word with a lower-case keyword.
pub open spec fn ci_eq(w: Seq<char>, kw: Seq<char>) -> bool {
    w.len() == kw.len() && forall|i: int| 0 <= i < w.len() ==> ci_char_eq(#[trigger] w[i], kw[i])
}

/// The keyword that a word spells, if any.
pub open spec fn keyword_kind(w: Seq<char>) -> Option<TokenKind> {
    if ci_eq(w, "and"@) {
        Some(TokenKind::And)
    } else if ci_eq(w, "or"@) {
        Some(TokenKind::Or)
    } else if ci_eq(w, "not"@) {
        Some(TokenKind::Not)
    } else if ci_eq(w, "in"@) {
        Some(TokenKind::In)
    } else if ci_eq(w, "is"@) {
        Some(TokenKind::Is)
    } else if ci_eq(w, "null"@) {
        Some(TokenKind::Null)
    } else if ci_eq(w, "today"@) {
        Some(TokenKind::Today)
    } else if ci_eq(w, "yesterday"@) {
        Some(TokenKind::Yesterday)
    } else if ci_eq(w, "tomorrow"@) {
        Some(TokenKind::Tomorrow)
    } else if ci_eq(w, "current_user"@) {
        Some(TokenKind::CurrentUser)
    } else {
        None
    }
}

/// Decimal value of a run of digits.
pub open spec fn digits_value(d: Seq<char>) -> int
    decreases d.len(),
{
    if d.len() == 0 {
        0
    } else {
        digits_value(d.drop_last()) * 10 + ((d.last() as u32) as int - 48)
    }
}

/// The token of a run of digits: its number, or `Illegal` where the value
/// exceeds `i64`.
pub open spec fn number_kind(d: Seq<char>) -> TokenKind {
    if digits_value(d) <= i64::MAX {
        TokenKind::Number(digits_value(d) as i64)
    } else {
        TokenKind::Illegal
    }
}

/// Whether the word `s[st..w]` followed by a colon forms a section keyword.
pub open spec fn is_section_word(w: Seq<char>) -> bool {
    ci_eq(w, "filter"@) || ci_eq(w, "crossfilter"@)
}

/// Punctuation that forms a token of one character by itself.
pub open spec fn is_single(c: char) -> bool {
    c == '=' || c == '(' || c == ')' || c == '[' || c == ']' || c == ';' || c == ',' || c == '-'
}

/// Index one past the token that starts at the non-whitespace index `st`.
pub open spec fn scan_end(s: Seq<char>, st: int) -> int {
    let c = s[st];
    if is_single(c) {
        st + 1
    } else if c == '<' || c == '>' || c == '!' {
        if st + 1 < s.len() && s[st + 1] == '=' {
            st + 2
        } else {
            st + 1
        }
    } else if c == '"' {
        let q = quote_end(s, st + 1);
        if q < s.len() {
            q + 1
        } else {
            q
        }
    } else if is_digit(c) {
        digit_end(s, st + 1)
    } else if is_alpha(c) {
        let w = word_end(s, st + 1);
        if w < s.len() && s[w] == ':' && is_section_word(s.subrange(st, w)) {
            w + 1
        } else {
            w
        }
    } else {
        st + 1
    }
}

/// The kind of the token that starts at the non-whitespace index `st`.
pub open spec fn scanned_kind_ok(s: Seq<char>, st: int, k: TokenKind) -> bool {
    let c = s[st];
    let e = scan_end(s, st);
    if c == '=' {
        k == TokenKind::Eq
    } else if c == '(' {
        k == TokenKind::LParen
    } else if c == ')' {
        k == TokenKind::RParen
    } else if c == '[' {
        k == TokenKind::LBracket
    } else if c == ']' {
        k == TokenKind::RBracket
    } else if c == ';' {
        k == TokenKind::Semicolon
    } else if c == ',' {
        k == TokenKind::Comma
    } else if c == '-' {
        k == TokenKind::Dash
    } else if c == '<' {
        k == (if e == st + 2 { TokenKind::Lte } else { TokenKind::Lt })
    } else if c == '>' {
        k == (if e == st + 2 { TokenKind::Gte } else { TokenKind::Gt })
    } else if c == '!' {
        k == (if e == st + 2 { TokenKind::NotEq } else { TokenKind::Illegal })
    } else if c == '"' {
        k matches TokenKind::String(t) && t@ == s.subrange(st + 1, quote_end(s, st + 1))
    } else if is_digit(c) {
        k == number_kind(s.subrange(st, e))
    } else if is_alpha(c) {
        let w = word_end(s, st + 1);
        let word = s.subrange(st, w);
        if e == w + 1 {
            k == (if ci_eq(word, "filter"@) { TokenKind::Filter } else { TokenKind::CrossFilter })
        } else {
            match keyword_kind(word) {
                Some(kk) => k == kk,
                None => k matches TokenKind::Identifier(t) && t@ == word,
            }
        }
    } else {
        k == TokenKind::Illegal
    }
}

/// The character ranges of the tokens of `s` read from index `i` on.
pub open spec fn lex_ranges(s: Seq<char>, i: int) -> Seq<(int, int)>
    decreases s.len() - i,
{
    let j = white_end(s, i);
    if 0 <= i <= j && j < s.len() && j < scan_end(s, j) <= s.len() {
        seq![(j, scan_end(s, j))] + lex_ranges(s, scan_end(s, j))
    } else {
        seq![]
    }
}

/// Token `t` is the one read from the character range `rg` of `s`.
pub open spec fn token_at(s: Seq<char>, rg: (int, int), t: Token) -> bool {
    &&& scanned_kind_ok(s, rg.0, t.kind)
    &&& t.span.start == offset(s, rg.0)
    &&& t.span.end == offset(s, rg.1)
}

/// `toks` are exactly the tokens of the source `s`, in order.
pub open spec fn lexed(s: Seq<char>, toks: Seq<Token>) -> bool {
    let r = lex_ranges(s, 0);
    &&& toks.len() == r.len()
    &&& forall|k: int| 0 <= k < r.len() ==> token_at(s, r[k], #[trigger] toks[k])
}

/// Every character of `s[a..b]` is whitespace.
pub open spec fn all_white(s: Seq<char>, a: int, b: int) -> bool {
    forall|x: int| a <= x < b ==> is_white(#[trigger] s[x])
}

/// End of the token before the `k`-th one of `r`, or `i` for the first.
pub open spec fn prev_end(r: Seq<(int, int)>, k: int, i: int) -> int {
    if k == 0 {
        i
    } else {
        r[k - 1].1
    }
}

/// The ranges are non-empty, in order, inside `s[i..]`, and all that lies
/// between them, before the first and after the last is whitespace.
pub open spec fn tiles(s: Seq<char>, r: Seq<(int, int)>, i: int) -> bool {
    &&& forall|k: int|
        0 <= k < r.len() ==> prev_end(r, k, i) <= (#[trigger] r[k]).0 < r[k].1 <= s.len()
    &&& forall|k: int| 0 <= k < r.len() ==> all_white(s, prev_end(r, k, i), (#[trigger] r[k]).0)
    &&& all_white(s, prev_end(r, r.len() as int, i), s.len() as int)
}

proof fn lemma_white_end(s: Seq<char>, i: int)
    requires
        0 <= i <= s.len(),
    ensures
        i <= white_end(s, i) <= s.len(),
        all_white(s, i, white_end(s, i)),
        white_end(s, i) < s.len() ==> !is_white(s[white_end(s, i)]),
    decreases s.len() - i,
{
    if i < s.len() && is_white(s[i]) {
        lemma_white_end(s, i + 1);
    }
}

proof fn lemma_digit_end(s: Seq<char>, i: int)
    requires
        0 <= i <= s.len(),
    ensures
        i <= digit_end(s, i) <= s.len(),
        forall|x: int| i <= x < digit_end(s, i) ==> is_digit(#[trigger] s[x]),
        digit_end(s, i) < s.len() ==> !is_digit(s[digit_end(s, i)]),
    decreases s.len() - i,
{
    if i < s.len() && is_digit(s[i]) {
        lemma_digit_end(s, i + 1);
    }
}

proof fn lemma_word_end(s: Seq<char>, i: int)
    requires
        0 <= i <= s.len(),
    ensures
        i <= word_end(s, i) <= s.len(),
    decreases s.len() - i,
{
    if i < s.len() && is_word_char(s[i]) {
        lemma_word_end(s, i + 1);
    }
}

proof fn lemma_quote_end(s: Seq<char>, i: int)
    requires
        0 <= i <= s.len(),
    ensures
        i <= quote_end(s, i) <= s.len(),
        quote_end(s, i) < s.len() ==> s[quote_end(s, i)] == '"',
    decreases s.len() - i,
{
    if i < s.len() && s[i] != '"' {
        lemma_quote_end(s, i + 1);
    }
}

proof fn lemma_scan_end(s: Seq<char>, st: int)
    requires
        0 <= st < s.len(),
    ensures
        st < scan_end(s, st) <= s.len(),
{
    lemma_digit_end(s, st + 1);
    lemma_word_end(s, st + 1);
    lemma_quote_end(s, st + 1);
}

/// The tokens of a text tile it: read in order, the source text of each
/// token's range, with only whitespace between them and around them, gives
/// back the whole text.
pub proof fn lemma_tokens_tile_source(s: Seq<char>)
    ensures
        tiles(s, lex_ranges(s, 0), 0),
{
    lemma_ranges_tile(s, 0);
}

proof fn lemma_ranges_tile(s: Seq<char>, i: int)
    requires
        0 <= i <= s.len(),
    ensures
        tiles(s, lex_ranges(s, i), i),
    decreases s.len() - i,
{
    lemma_white_end(s, i);
    let j = white_end(s, i);
    let r = lex_ranges(s, i);
    if j < s.len() {
        lemma_scan_end(s, j);
        let e = scan_end(s, j);
        lemma_ranges_tile(s, e);
        let rest = lex_ranges(s, e);
        assert(r == seq![(j, e)] + rest);
        assert forall|k: int| 0 <= k < r.len() implies prev_end(r, k, i) <= (#[trigger] r[k]).0
            < r[k].1 <= s.len() && all_white(s, prev_end(r, k, i), r[k].0) by {
            if k > 0 {
                assert(r[k] == rest[k - 1]);
                assert(prev_end(r, k, i) == prev_end(rest, k - 1, e));
            }
        }
        if rest.len() > 0 {
            assert(prev_end(r, r.len() as int, i) == prev_end(rest, rest.len() as int, e));
        }
    }
}

proof fn lemma_char_width_encoding(c: char)
    ensures
        encode_scalar(c as u32).len() == char_width(c),
{
    char_is_scalar(c);
}

proof fn lemma_byte_len_encoding(s: Seq<char>)
    ensures
        byte_len(s) == encode_utf8(s).len(),
    decreases s.len(),
{
    if s.len() > 0 {
        lemma_char_width_encoding(s[0]);
        lemma_byte_len_encoding(s.drop_first());
    }
}

proof fn lemma_byte_len_concat(a: Seq<char>, b: Seq<char>)
    ensures
        byte_len(a + b) == byte_len(a) + byte_len(b),
    decreases a.len(),
{
    if a.len() > 0 {
        assert((a + b).drop_first() =~= a.drop_first() + b);
        lemma_byte_len_concat(a.drop_first(), b);
    }
}

proof fn lemma_offset_step(s: Seq<char>, k: int)
    requires
        0 <= k < s.len(),
    ensures
        offset(s, k + 1) == offset(s, k) + char_width(s[k]),
        offset(s, k + 1) <= byte_len(s),
{
    assert(s.take(k + 1) =~= s.take(k) + seq![s[k]]);
    lemma_byte_len_concat(s.take(k), seq![s[k]]);
    assert(seq![s[k]].drop_first() =~= Seq::<char>::empty());
    assert(byte_len(Seq::<char>::empty()) == 0);
    assert(byte_len(seq![s[k]]) == char_width(s[k]));
    assert(s =~= s.take(k + 1) + s.skip(k + 1));
    lemma_byte_len_concat(s.take(k + 1), s.skip(k + 1));
}

/// Number of bytes of the UTF-8 encoding of `c`.
fn utf8_width(c: char) -> (r: usize)
    ensures
        r == char_width(c),
{
    let u = c as u32;
    if u < 0x80 {
        1
    } else if u < 0x800 {
        2
    } else if u < 0x10000 {
        3
    } else {
        4
    }
}

/// Compares `cs[from..to]` with a lower-case keyword, ignoring ASCII case.
fn ci_matches(cs: &Vec<char>, from: usize, to: usize, kw: &str) -> (r: bool)
    requires
        from <= to <= cs@.len(),
    ensures
        r == ci_eq(cs@.subrange(from as int, to as int), kw@),
{
    let n = kw.unicode_len();
    if to - from != n {
        return false;
    }
    let mut i: usize = 0;
    while i < n
        invariant
            n == kw@.len(),
            to - from == n,
            from <= to <= cs@.len(),
            0 <= i <= n,
            forall|x: int| 0 <= x < i ==> ci_char_eq(cs@[from + x], kw@[x]),
        decreases n - i,
    {
        let a = cs[from + i];
        let k = kw.get_char(i);
        let same = a == k || ('a' <= k && k <= 'z' && (a as u32) == (k as u32) - 32);
        assert(cs@.subrange(from as int, to as int)[i as int] == a);
        if !same {
            return false;
        }
        i = i + 1;
    }
    true
}

/// The token kind for a word: its keyword, or an identifier.
fn match_keyword(cs: &Vec<char>, from: usize, to: usize) -> (r: TokenKind)
    requires
        from <= to <= cs@.len(),
    ensures
        match keyword_kind(cs@.subrange(from as int, to as int)) {
            Some(kk) => r == kk,
            None => r matches TokenKind::Identifier(t) && t@ == cs@.subrange(
                from as int,
                to as int,
            ),
        },
{
    if ci_matches(cs, from, to, "and") {
        TokenKind::And
    } else if ci_matches(cs, from, to, "or") {
        TokenKind::Or
    } else if ci_matches(cs, from, to, "not") {
        TokenKind::Not
    } else if ci_matches(cs, from, to, "in") {
        TokenKind::In
    } else if ci_matches(cs, from, to, "is") {
        TokenKind::Is
    } else if ci_matches(cs, from, to, "null") {
        TokenKind::Null
    } else if ci_matches(cs, from, to, "today") {
        TokenKind::Today
    } else if ci_matches(cs, from, to, "yesterday") {
        TokenKind::Yesterday
    } else if ci_matches(cs, from, to, "tomorrow") {
        TokenKind::Tomorrow
    } else if ci_matches(cs, from, to, "current_user") {
        TokenKind::CurrentUser
    } else {
        TokenKind::Identifier(text_of(cs, from, to))
    }
}

/// A cursor over the characters of a source text.
pub struct Lexer {
    chars: Vec<char>,
    /// Index of the next character.
    position: usize,
    /// Byte offset of the next character.
    byte_position: usize,
}

impl Lexer {
    /// The source text.
    pub closed spec fn source(&self) -> Seq<char> {
        self.chars@
    }

    /// Index of the next character to read.
    pub closed spec fn cursor(&self) -> int {
        self.position as int
    }

    pub closed spec fn wf(&self) -> bool {
        &&& self.position <= self.chars@.len()
        &&& self.byte_position == offset(self.chars@, self.position as int)
        &&& byte_len(self.chars@) <= usize::MAX
    }

    pub fn new(input: &str) -> (r: Lexer)
        ensures
            r.wf(),
            r.source() == input@,
            r.cursor() == 0,
    {
        let n = input.as_bytes().len();
        proof {
            lemma_byte_len_encoding(input@);
        }
        let chars = chars_of(input);
        assert(chars@.take(0) =~= Seq::<char>::empty());
        Lexer { chars, position: 0, byte_position: 0 }
    }

    /// The next character, not consumed.
    fn peek(&self) -> (r: Option<char>)
        requires
            self.wf(),
        ensures
            r == (if self.position < self.chars@.len() {
                Some(self.chars@[self.position as int])
            } else {
                None::<char>
            }),
    {
        if self.position < self.chars.len() {
            Some(self.chars[self.position])
        } else {
            None
        }
    }

    /// Consumes and returns the next character.
    fn bump(&mut self) -> (r: Option<char>)
        requires
            old(self).wf(),
        ensures
            final(self).wf(),
            final(self).chars == old(self).chars,
            old(self).position < old(self).chars@.len() ==> r == Some(
                old(self).chars@[old(self).position as int],
            ) && final(self).position == old(self).position + 1,
            old(self).position >= old(self).chars@.len() ==> r is None && final(self).position
                == old(self).position,
    {
        if self.position < self.chars.len() {
            let c = self.chars[self.position];
            proof {
                lemma_offset_step(self.chars@, self.position as int);
            }
            self.position = self.position + 1;
            self.byte_position = self.byte_position + utf8_width(c);
            Some(c)
        } else {
            None
        }
    }

    fn skip_whitespace(&mut self)
        requires
            old(self).wf(),
        ensures
            final(self).wf(),
            final(self).chars == old(self).chars,
            final(self).position == white_end(old(self).chars@, old(self).position as int),
    {
        proof {
            lemma_white_end(self.chars@, self.position as int);
        }
        let ghost target = white_end(self.chars@, self.position as int);
        while self.position < self.chars.len() && white(self.chars[self.position])
            invariant
                self.wf(),
                self.chars == old(self).chars,
                white_end(self.chars@, self.position as int) == target,
            decreases self.chars@.len() - self.position,
        {
            self.bump();
        }
    }

    /// Reads a run of digits that started at character `start_char`.
    fn read_number(&mut self, start_char: usize, start: usize) -> (r: Token)
        requires
            old(self).wf(),
            start_char < old(self).position <= old(self).chars@.len(),
            old(self).position == start_char + 1,
            is_digit(old(self).chars@[start_char as int]),
        ensures
            final(self).wf(),
            final(self).chars == old(self).chars,
            final(self).position == digit_end(old(self).chars@, start_char + 1),
            r.kind == number_kind(
                old(self).chars@.subrange(start_char as int, final(self).position as int),
            ),
            r.span == (Span { start, end: final(self).byte_position }),
    {
        let ghost s = self.chars@;
        proof {
            lemma_digit_end(s, start_char + 1);
        }
        let first = self.chars[start_char];
        let mut value: i64 = (first as u32 - 48) as i64;
        let mut too_big = false;
        assert(s.subrange(start_char as int, start_char + 1).drop_last() =~= Seq::<char>::empty());
        assert(digits_value(Seq::<char>::empty()) == 0);
        assert(s.subrange(start_char as int, start_char + 1).last() == first);
        while self.position < self.chars.len() && '0' <= self.chars[self.position]
            && self.chars[self.position] <= '9'
            invariant
                self.wf(),
                self.chars@ == s,
                self.chars == old(self).chars,
                start_char < self.position <= s.len(),
                digit_end(s, self.position as int) == digit_end(s, start_char + 1),
                digits_value(s.subrange(start_char as int, self.position as int)) >= 0,
                !too_big ==> value == digits_value(s.subrange(start_char as int, self.position as int)),
                too_big ==> digits_value(s.subrange(start_char as int, self.position as int)) > i64::MAX,
            decreases s.len() - self.position,
        {
            let c = self.chars[self.position];
            let ghost before = s.subrange(start_char as int, self.position as int);
            assert(s.subrange(start_char as int, self.position + 1).drop_last() =~= before);
            if !too_big {
                let next: i128 = value as i128 * 10 + (c as u32 - 48) as i128;
                if next > i64::MAX as i128 {
                    too_big = true;
                } else {
                    value = next as i64;
                }
            }
            self.bump();
        }
        let ghost digits = s.subrange(start_char as int, self.position as int);
        let kind = if too_big { TokenKind::Illegal } else { TokenKind::Number(value) };
        Token { kind, span: Span { start, end: self.byte_position } }
    }

    /// Reads a string whose opening quote is at character `start_char`.
    fn read_string(&mut self, start_char: usize, start: usize) -> (r: Token)
        requires
            old(self).wf(),
            start_char < old(self).chars@.len(),
            old(self).position == start_char + 1,
        ensures
            final(self).wf(),
            final(self).chars == old(self).chars,
            ({
                let q = quote_end(old(self).chars@, start_char + 1);
                &&& final(self).position == (if q < old(self).chars@.len() { q + 1 } else { q })
                &&& r.kind matches TokenKind::String(t) && t@ == old(self).chars@.subrange(
                    start_char + 1,
                    q,
                )
            }),
            r.span == (Span { start, end: final(self).byte_position }),
    {
        let ghost s = self.chars@;
        proof {
            lemma_quote_end(s, start_char + 1);
        }
        let content_start = self.position;
        while self.position < self.chars.len() && self.chars[self.position] != '"'
            invariant
                self.wf(),
                self.chars@ == s,
                self.chars == old(self).chars,
                content_start <= self.position <= s.len(),
                content_start == start_char + 1,
                quote_end(s, self.position as int) == quote_end(s, start_char + 1),
            decreases s.len() - self.position,
        {
            self.bump();
        }
        let content_end = self.position;
        let content = text_of(&self.chars, content_start, content_end);
        self.bump();
        Token { kind: TokenKind::String(content), span: Span { start, end: self.byte_position } }
    }

    /// Reads an identifier or keyword whose first character is at `start_char`.
    fn read_identifier(&mut self, start_char: usize, start: usize) -> (r: Token)
        requires
            old(self).wf(),
            start_char < old(self).chars@.len(),
            old(self).position == start_char + 1,
            is_alpha(old(self).chars@[start_char as int]),
            !is_digit(old(self).chars@[start_char as int]),
            !is_single(old(self).chars@[start_char as int]),
            old(self).chars@[start_char as int] != '<',
            old(self).chars@[start_char as int] != '>',
            old(self).chars@[start_char as int] != '!',
            old(self).chars@[start_char as int] != '"',
        ensures
            final(self).wf(),
            final(self).chars == old(self).chars,
            final(self).position == scan_end(old(self).chars@, start_char as int),
            scanned_kind_ok(old(self).chars@, start_char as int, r.kind),
            r.span == (Span { start, end: final(self).byte_position }),
    {
        let ghost s = self.chars@;
        proof {
            lemma_word_end(s, start_char + 1);
        }
        while self.position < self.chars.len() && (alnum(self.chars[self.position])
            || self.chars[self.position] == '-' || self.chars[self.position] == '_')
            invariant
                self.wf(),
                self.chars@ == s,
                self.chars == old(self).chars,
                start_char < self.position <= s.len(),
                word_end(s, self.position as int) == word_end(s, start_char + 1),
            decreases s.len() - self.position,
        {
            self.bump();
        }
        let word_stop = self.position;
        if self.position < self.chars.len() && self.chars[self.position] == ':' {
            if ci_matches(&self.chars, start_char, word_stop, "filter") {
                self.bump();
                return Token { kind: TokenKind::Filter, span: Span { start, end: self.byte_position } };
            }
            if ci_matches(&self.chars, start_char, word_stop, "crossfilter") {
                self.bump();
                return Token {
                    kind: TokenKind::CrossFilter,
                    span: Span { start, end: self.byte_position },
                };
            }
        }
        let kind = match_keyword(&self.chars, start_char, word_stop);
        Token { kind, span: Span { start, end: self.byte_position } }
    }

    /// Reads the next token; `None` once only whitespace is left.
    pub fn next_token(&mut self) -> (r: Option<Token>)
        requires
            old(self).wf(),
        ensures
            final(self).wf(),
            final(self).source() == old(self).source(),
            ({
                let s = old(self).source();
                let j = white_end(s, old(self).cursor());
                if j < s.len() {
                    &&& final(self).cursor() == scan_end(s, j)
                    &&& r matches Some(t) && token_at(s, (j, scan_end(s, j)), t)
                } else {
                    &&& final(self).cursor() == j
                    &&& r is None
                }
            }),
    {
        self.skip_whitespace();
        let start = self.byte_position;
        let start_char = self.position;
        let ghost s = self.chars@;
        proof {
            lemma_white_end(s, old(self).position as int);
        }
        let c = match self.bump() {
            Some(c) => c,
            None => {
                return None;
            },
        };
        proof {
            lemma_scan_end(s, start_char as int);
        }
        let token = if c == '=' {
            Token { kind: TokenKind::Eq, span: Span { start, end: self.byte_position } }
        } else if c == '(' {
            Token { kind: TokenKind::LParen, span: Span { start, end: self.byte_position } }
        } else if c == ')' {
            Token { kind: TokenKind::RParen, span: Span { start, end: self.byte_position } }
        } else if c == '[' {
            Token { kind: TokenKind::LBracket, span: Span { start, end: self.byte_position } }
        } else if c == ']' {
            Token { kind: TokenKind::RBracket, span: Span { start, end: self.byte_position } }
        } else if c == ';' {
            Token { kind: TokenKind::Semicolon, span: Span { start, end: self.byte_position } }
        } else if c == ',' {
            Token { kind: TokenKind::Comma, span: Span { start, end: self.byte_position } }
        } else if c == '-' {
            Token { kind: TokenKind::Dash, span: Span { start, end: self.byte_position } }
        } else if c == '<' || c == '>' || c == '!' {
            let followed = self.peek() == Some('=');
            if followed {
                self.bump();
            }
            let kind = if c == '<' {
                if followed { TokenKind::Lte } else { TokenKind::Lt }
            } else if c == '>' {
                if followed { TokenKind::Gte } else { TokenKind::Gt }
            } else {
                if followed { TokenKind::NotEq } else { TokenKind::Illegal }
            };
            Token { kind, span: Span { start, end: self.byte_position } }
        } else if c == '"' {
            self.read_string(start_char, start)
        } else if '0' <= c && c <= '9' {
            self.read_number(start_char, start)
        } else if alpha(c) {
            self.read_identifier(start_char, start)
        } else {
            Token { kind: TokenKind::Illegal, span: Span { start, end: self.byte_position } }
        };
        Some(token)
    }
}

/// Reads all tokens of a source text.
pub fn tokenize(input: &str) -> (r: Vec<Token>)
    ensures
        lexed(input@, r@),
{
    let mut lexer = Lexer::new(input);
    let mut tokens: Vec<Token> = Vec::new();
    let ghost s = input@;
    let ghost done: Seq<(int, int)> = seq![];
    proof {
        lemma_ranges_tile(s, 0);
    }
    loop
        invariant
            lexer.wf(),
            s == input@,
            lexer.source() == s,
            0 <= lexer.cursor() <= s.len(),
            lex_ranges(s, 0) == done + lex_ranges(s, lexer.cursor()),
            tokens@.len() == done.len(),
            forall|k: int| 0 <= k < done.len() ==> token_at(s, done[k], #[trigger] tokens@[k]),
        decreases s.len() - lexer.cursor(),
    {
        let ghost at = lexer.cursor();
        proof {
            lemma_white_end(s, at);
        }
        match lexer.next_token() {
            Some(t) => {
                let ghost j = white_end(s, at);
                proof {
                    lemma_scan_end(s, j);
                    assert(lex_ranges(s, at) == seq![(j, scan_end(s, j))] + lex_ranges(
                        s,
                        scan_end(s, j),
                    ));
                    assert(done + lex_ranges(s, at) =~= (done + seq![(j, scan_end(s, j))])
                        + lex_ranges(s, scan_end(s, j)));
                    done = done + seq![(j, scan_end(s, j))];
                }
                tokens.push(t);
            },
            None => {
                assert(white_end(s, at) >= s.len());
                assert(lex_ranges(s, at) =~= Seq::<(int, int)>::empty());
                assert(done =~= lex_ranges(s, 0));
                assert forall|k: int| 0 <= k < lex_ranges(s, 0).len() implies token_at(
                    s,
                    lex_ranges(s, 0)[k],
                    #[trigger] tokens@[k],
                ) by {
                    assert(lex_ranges(s, 0)[k] == done[k]);
                }
                return tokens;
            },
        }
    }
}

} // verus!
