//! The parser: recursive descent with one token of lookahead.
//!
//! Grammar, loosest binding first:
//!
//! ```text
//! query        := (FILTER fieldFilters | CROSSFILTER '<' IDENT '>' fieldFilters)*
//! fieldFilters := fieldFilter (';' fieldFilter)*   -- stops before CROSSFILTER or at the end
//! fieldFilter  := IDENT '[' condition ']'
//! condition    := and (OR and)*
//! and          := not (AND not)*
//! not          := NOT not | primary
//! primary      := '(' condition ')' | IS [NOT] NULL | IN '(' [literal (',' literal)*] ')'
//!               | [compOp] literal
//! ```
//!
//! The first error ends parsing; there is no recovery.

use vstd::prelude::*;
use vstd::string::*;
use crate::ast::{
    CompOp, Condition, CondV, CrossFilter, CrossFilterV, FieldFilter, FieldFilterV, Identifier,
    Literal, LitV, Query, QueryV, crosses_view, filters_view, lits_view,
};
use crate::lexer::{chars_of, text_of};
use crate::token::{Span, Token, TokenKind, same_variant};

verus! {

/// A parse error: a message and the span of the offending token, or no span
/// at the end of input.
#[derive(Debug, Clone, PartialEq)]
pub struct ParseError {
    pub message: String,
    pub span: Option<Span>,
}

impl ParseError {
    fn new(message: String, span: Option<Span>) -> (r: ParseError)
        ensures
            r.span == span,
    {
        ParseError { message, span }
    }

    fn at_position(message: String, span: Span) -> (r: ParseError)
        ensures
            r.span == Some(span),
    {
        ParseError { message, span: Some(span) }
    }
}

/// The outcome of reading a phrase at some index: its value and the index
/// after it, or the span of the error (`None` at the end of input).
pub type PRes<T> = Result<(T, int), Option<Span>>;

/// Where an error at token index `i` is reported.
pub open spec fn err_at(t: Seq<Token>, i: int) -> Option<Span> {
    if 0 <= i < t.len() {
        Some(t[i].span)
    } else {
        None
    }
}

/// Token `i` exists and is of the variant of `k`.
pub open spec fn kind_at(t: Seq<Token>, i: int, k: TokenKind) -> bool {
    0 <= i < t.len() && same_variant(t[i].kind, k)
}

/// Token `i` exists and is an identifier.
pub open spec fn ident_at(t: Seq<Token>, i: int) -> bool {
    0 <= i < t.len() && t[i].kind is Identifier
}

/// Reading one token of the variant of `k` at `i`.
pub open spec fn expect_spec(t: Seq<Token>, i: int, k: TokenKind) -> Result<int, Option<Span>> {
    if kind_at(t, i, k) {
        Ok(i + 1)
    } else {
        Err(err_at(t, i))
    }
}

pub open spec fn literal_spec(t: Seq<Token>, i: int) -> PRes<LitV> {
    if !(0 <= i < t.len()) {
        Err(None)
    } else {
        match t[i].kind {
            TokenKind::String(s) => Ok((LitV::Text(s@), i + 1)),
            TokenKind::Number(n) => Ok((LitV::Number(n), i + 1)),
            TokenKind::Today => Ok((LitV::Date("today"@), i + 1)),
            TokenKind::Yesterday => Ok((LitV::Date("yesterday"@), i + 1)),
            TokenKind::Tomorrow => Ok((LitV::Date("tomorrow"@), i + 1)),
            TokenKind::CurrentUser => Ok((LitV::CurrentUser, i + 1)),
            TokenKind::Identifier(s) => Ok((LitV::Text(s@), i + 1)),
            _ => Err(Some(t[i].span)),
        }
    }
}

/// The comparison operator that a token kind stands for.
pub open spec fn comp_op_of(k: TokenKind) -> Option<CompOp> {
    match k {
        TokenKind::Eq => Some(CompOp::Eq),
        TokenKind::NotEq => Some(CompOp::NotEq),
        TokenKind::Gt => Some(CompOp::Gt),
        TokenKind::Lt => Some(CompOp::Lt),
        TokenKind::Gte => Some(CompOp::Gte),
        TokenKind::Lte => Some(CompOp::Lte),
        _ => None,
    }
}

/// The literals of an `IN` list from `i` up to its closing parenthesis,
/// appended to `acc`; the index returned is that of the parenthesis.
pub open spec fn in_items_spec(t: Seq<Token>, i: int, acc: Seq<LitV>) -> PRes<Seq<LitV>>
    decreases t.len() - i,
{
    match literal_spec(t, i) {
        Ok((l, j)) => if kind_at(t, j, TokenKind::RParen) {
            Ok((acc.push(l), j))
        } else if kind_at(t, j, TokenKind::Comma) {
            if i < j < t.len() {
                in_items_spec(t, j + 1, acc.push(l))
            } else {
                Err(None)
            }
        } else {
            Err(err_at(t, j))
        },
        Err(e) => Err(e),
    }
}

pub open spec fn cond_spec(t: Seq<Token>, i: int) -> PRes<CondV>
    decreases t.len() - i, 6int,
{
    or_spec(t, i)
}

pub open spec fn or_spec(t: Seq<Token>, i: int) -> PRes<CondV>
    decreases t.len() - i, 5int,
{
    match and_spec(t, i) {
        Ok((l, j)) => if i < j <= t.len() {
            or_rest_spec(t, l, j)
        } else {
            Err(None)
        },
        Err(e) => Err(e),
    }
}

/// The rest of a disjunction whose left operand `left` ends before `i`.
pub open spec fn or_rest_spec(t: Seq<Token>, left: CondV, i: int) -> PRes<CondV>
    decreases t.len() - i, 1int,
{
    if 0 <= i < t.len() && t[i].kind == TokenKind::Or {
        match and_spec(t, i + 1) {
            Ok((r, j)) => if i < j <= t.len() {
                or_rest_spec(t, CondV::Or(Box::new(left), Box::new(r)), j)
            } else {
                Err(None)
            },
            Err(e) => Err(e),
        }
    } else {
        Ok((left, i))
    }
}

pub open spec fn and_spec(t: Seq<Token>, i: int) -> PRes<CondV>
    decreases t.len() - i, 4int,
{
    match not_spec(t, i) {
        Ok((l, j)) => if i < j <= t.len() {
            and_rest_spec(t, l, j)
        } else {
            Err(None)
        },
        Err(e) => Err(e),
    }
}

/// The rest of a conjunction whose left operand `left` ends before `i`.
pub open spec fn and_rest_spec(t: Seq<Token>, left: CondV, i: int) -> PRes<CondV>
    decreases t.len() - i, 1int,
{
    if 0 <= i < t.len() && t[i].kind == TokenKind::And {
        match not_spec(t, i + 1) {
            Ok((r, j)) => if i < j <= t.len() {
                and_rest_spec(t, CondV::And(Box::new(left), Box::new(r)), j)
            } else {
                Err(None)
            },
            Err(e) => Err(e),
        }
    } else {
        Ok((left, i))
    }
}

pub open spec fn not_spec(t: Seq<Token>, i: int) -> PRes<CondV>
    decreases t.len() - i, 3int,
{
    if 0 <= i < t.len() && t[i].kind == TokenKind::Not {
        match not_spec(t, i + 1) {
            Ok((c, j)) => Ok((CondV::Not(Box::new(c)), j)),
            Err(e) => Err(e),
        }
    } else {
        primary_spec(t, i)
    }
}

pub open spec fn primary_spec(t: Seq<Token>, i: int) -> PRes<CondV>
    decreases t.len() - i, 2int,
{
    if !(0 <= i < t.len()) {
        Err(None)
    } else if t[i].kind == TokenKind::LParen {
        match cond_spec(t, i + 1) {
            Ok((c, j)) => match expect_spec(t, j, TokenKind::RParen) {
                Ok(k) => Ok((CondV::Grouped(Box::new(c)), k)),
                Err(e) => Err(e),
            },
            Err(e) => Err(e),
        }
    } else if t[i].kind == TokenKind::Is {
        if kind_at(t, i + 1, TokenKind::Not) {
            match expect_spec(t, i + 2, TokenKind::Null) {
                Ok(k) => Ok((CondV::IsNotNull, k)),
                Err(e) => Err(e),
            }
        } else {
            match expect_spec(t, i + 1, TokenKind::Null) {
                Ok(k) => Ok((CondV::IsNull, k)),
                Err(e) => Err(e),
            }
        }
    } else if t[i].kind == TokenKind::In {
        if !kind_at(t, i + 1, TokenKind::LParen) {
            Err(err_at(t, i + 1))
        } else if kind_at(t, i + 2, TokenKind::RParen) {
            Ok((CondV::In(seq![]), i + 3))
        } else {
            match in_items_spec(t, i + 2, seq![]) {
                Ok((vals, j)) => match expect_spec(t, j, TokenKind::RParen) {
                    Ok(k) => Ok((CondV::In(vals), k)),
                    Err(e) => Err(e),
                },
                Err(e) => Err(e),
            }
        }
    } else {
        match comp_op_of(t[i].kind) {
            Some(op) => match literal_spec(t, i + 1) {
                Ok((v, j)) => Ok((CondV::Comparison(op, v), j)),
                Err(e) => Err(e),
            },
            None => match literal_spec(t, i) {
                Ok((v, j)) => Ok((CondV::Comparison(CompOp::Eq, v), j)),
                Err(e) => Err(e),
            },
        }
    }
}

pub open spec fn field_filter_spec(t: Seq<Token>, i: int) -> PRes<FieldFilterV> {
    if !ident_at(t, i) {
        Err(err_at(t, i))
    } else if !kind_at(t, i + 1, TokenKind::LBracket) {
        Err(err_at(t, i + 1))
    } else {
        match cond_spec(t, i + 2) {
            Ok((c, j)) => match expect_spec(t, j, TokenKind::RBracket) {
                Ok(k) => Ok((FieldFilterV { field: t[i].kind->Identifier_0@, condition: c }, k)),
                Err(e) => Err(e),
            },
            Err(e) => Err(e),
        }
    }
}

/// Prepends filters to a successful outcome.
pub open spec fn prefixed(p: Seq<FieldFilterV>, r: PRes<Seq<FieldFilterV>>) -> PRes<
    Seq<FieldFilterV>,
> {
    match r {
        Ok((s, j)) => Ok((p + s, j)),
        Err(e) => Err(e),
    }
}

/// Field filters separated by semicolons. The run ends at a `CrossFilter:`
/// keyword or at the end of input, also right after a semicolon.
#[verifier::opaque]
pub open spec fn field_filters_spec(t: Seq<Token>, i: int) -> PRes<Seq<FieldFilterV>>
    decreases t.len() - i,
{
    match field_filter_spec(t, i) {
        Ok((f, j)) => if !(0 <= j < t.len()) {
            Ok((seq![f], j))
        } else if t[j].kind == TokenKind::Semicolon {
            if j + 1 >= t.len() || t[j + 1].kind == TokenKind::CrossFilter {
                Ok((seq![f], j + 1))
            } else if i < j {
                prefixed(seq![f], field_filters_spec(t, j + 1))
            } else {
                Err(None)
            }
        } else if t[j].kind == TokenKind::CrossFilter {
            Ok((seq![f], j))
        } else {
            Err(Some(t[j].span))
        },
        Err(e) => Err(e),
    }
}

/// Index of the first `-` at or after `i`, or the length.
pub open spec fn dash_at(w: Seq<char>, i: int) -> int
    decreases w.len() - i,
{
    if 0 <= i < w.len() && w[i] != '-' {
        dash_at(w, i + 1)
    } else {
        i
    }
}

/// The two non-empty halves of `Source-Target`, if the name has that shape.
pub open spec fn entity_pair(w: Seq<char>) -> Option<(Seq<char>, Seq<char>)> {
    let p = dash_at(w, 0);
    if 0 < p && p + 1 < w.len() && dash_at(w, p + 1) == w.len() {
        Some((w.take(p), w.skip(p + 1)))
    } else {
        None
    }
}

#[verifier::opaque]
pub open spec fn cross_filter_spec(t: Seq<Token>, i: int) -> PRes<CrossFilterV> {
    if !kind_at(t, i, TokenKind::Lt) {
        Err(err_at(t, i))
    } else if !ident_at(t, i + 1) {
        Err(err_at(t, i + 1))
    } else {
        match entity_pair(t[i + 1].kind->Identifier_0@) {
            None => Err(Some(t[i + 1].span)),
            Some((src, tgt)) => if !kind_at(t, i + 2, TokenKind::Gt) {
                Err(err_at(t, i + 2))
            } else {
                match field_filters_spec(t, i + 3) {
                    Ok((fs, j)) => Ok((CrossFilterV { source: src, target: tgt, filters: fs }, j)),
                    Err(e) => Err(e),
                }
            },
        }
    }
}

/// The query read from index `i` on, after the filters already read.
pub open spec fn query_spec(
    t: Seq<Token>,
    i: int,
    base: Seq<FieldFilterV>,
    cross: Seq<CrossFilterV>,
) -> Result<QueryV, Option<Span>>
    decreases t.len() - i,
{
    if !(0 <= i < t.len()) {
        Ok(QueryV { base, cross })
    } else if t[i].kind == TokenKind::Filter {
        match field_filters_spec(t, i + 1) {
            Ok((fs, j)) => if i < j <= t.len() {
                query_spec(t, j, base + fs, cross)
            } else {
                Err(None)
            },
            Err(e) => Err(e),
        }
    } else if t[i].kind == TokenKind::CrossFilter {
        match cross_filter_spec(t, i + 1) {
            Ok((cf, j)) => if i < j <= t.len() {
                query_spec(t, j, base, cross.push(cf))
            } else {
                Err(None)
            },
            Err(e) => Err(e),
        }
    } else {
        Err(Some(t[i].span))
    }
}

/// What parsing a whole token sequence gives.
pub open spec fn parse_spec(t: Seq<Token>) -> Result<QueryV, Option<Span>> {
    query_spec(t, 0, seq![], seq![])
}

/// An executable outcome `r`, with the parser at `after`, is the outcome `s`.
pub open spec fn parsed_as<T: View>(r: Result<T, ParseError>, s: PRes<T::V>, after: int) -> bool {
    match s {
        Ok((v, j)) => r matches Ok(x) && x@ == v && after == j,
        Err(sp) => r matches Err(e) && e.span == sp,
    }
}

/// An executable list of filters `r`, with the parser at `after`, is the outcome `s`.
pub open spec fn parsed_filters_as(
    r: Result<Vec<FieldFilter>, ParseError>,
    s: PRes<Seq<FieldFilterV>>,
    after: int,
) -> bool {
    match s {
        Ok((v, j)) => r matches Ok(x) && filters_view(x@) == v && after == j,
        Err(sp) => r matches Err(e) && e.span == sp,
    }
}

/// `r` is the outcome of parsing all of `t`: the query that `parse_spec`
/// gives, or an error at the span it gives.
pub open spec fn parse_outcome(t: Seq<Token>, r: Result<Query, ParseError>) -> bool {
    match parse_spec(t) {
        Ok(q) => r matches Ok(x) && x@ == q,
        Err(sp) => r matches Err(e) && e.span == sp,
    }
}

/// Parsing identical token sequences twice gives structurally equal
/// queries, or errors at the same span.
pub proof fn lemma_parse_deterministic(
    t1: Seq<Token>,
    t2: Seq<Token>,
    r1: Result<Query, ParseError>,
    r2: Result<Query, ParseError>,
)
    requires
        t1 == t2,
        parse_outcome(t1, r1),
        parse_outcome(t2, r2),
    ensures
        r1 is Ok <==> r2 is Ok,
        r1 matches Ok(a) ==> (r2 matches Ok(b) && a@ == b@),
        r1 matches Err(e1) ==> (r2 matches Err(e2) && e1.span == e2.span),
{
}

/// A cursor over a token sequence.
pub struct Parser<'a> {
    tokens: &'a [Token],
    position: usize,
}

impl<'a> Parser<'a> {
    /// The tokens being parsed.
    pub closed spec fn tokens(&self) -> Seq<Token> {
        self.tokens@
    }

    /// Index of the next token.
    pub closed spec fn pos(&self) -> int {
        self.position as int
    }

    pub closed spec fn wf(&self) -> bool {
        self.position <= self.tokens@.len()
    }

    pub fn new(tokens: &'a [Token]) -> (r: Parser<'a>)
        ensures
            r.wf(),
            r.tokens() == tokens@,
            r.pos() == 0,
    {
        Parser { tokens, position: 0 }
    }

    /// The next token, not consumed.
    fn peek(&self) -> (r: Option<&Token>)
        requires
            self.wf(),
        ensures
            r == (if self.position < self.tokens@.len() {
                Some(&self.tokens@[self.position as int])
            } else {
                None::<&Token>
            }),
    {
        if self.position < self.tokens.len() {
            Some(&self.tokens[self.position])
        } else {
            None
        }
    }

    /// Consumes the next token, if there is one.
    fn advance(&mut self)
        requires
            old(self).wf(),
        ensures
            final(self).wf(),
            final(self).tokens == old(self).tokens,
            final(self).position == (if old(self).position < old(self).tokens@.len() {
                old(self).position + 1
            } else {
                old(self).position as int
            }),
    {
        if self.position < self.tokens.len() {
            self.position = self.position + 1;
        }
    }

    /// The error for the token at the cursor.
    fn error_here(&self, message: &str) -> (r: ParseError)
        requires
            self.wf(),
        ensures
            r.span == err_at(self.tokens@, self.position as int),
    {
        self.error_here_with(String::from_str(message))
    }

    /// The error for the token at the cursor, with an owned message.
    fn error_here_with(&self, m: String) -> (r: ParseError)
        requires
            self.wf(),
        ensures
            r.span == err_at(self.tokens@, self.position as int),
    {
        match self.peek() {
            Some(token) => ParseError::at_position(m, token.span),
            None => ParseError::new(m, None),
        }
    }

    /// Whether the next token is of the variant of `kind`.
    fn match_token(&self, kind: &TokenKind) -> (r: bool)
        requires
            self.wf(),
        ensures
            r == kind_at(self.tokens@, self.position as int, *kind),
    {
        match self.peek() {
            Some(token) => variant_eq(&token.kind, kind),
            None => false,
        }
    }

    /// Consumes a token of the variant of `kind`, or fails at the cursor.
    fn expect(&mut self, kind: TokenKind) -> (r: Result<(), ParseError>)
        requires
            old(self).wf(),
        ensures
            final(self).wf(),
            final(self).tokens == old(self).tokens,
            match expect_spec(old(self).tokens@, old(self).position as int, kind) {
                Ok(j) => r is Ok && final(self).position == j,
                Err(sp) => r matches Err(e) && e.span == sp,
            },
    {
        if self.match_token(&kind) {
            self.advance();
            Ok(())
        } else {
            let mut m = String::from_str("expected ");
            m.append(kind_name(&kind));
            Err(self.error_here_with(m))
        }
    }

    /// Whether the next token is a comparison operator.
    fn is_comparison_operator(&self) -> (r: bool)
        requires
            self.wf(),
        ensures
            r == (self.position < self.tokens@.len() && comp_op_of(
                self.tokens@[self.position as int].kind,
            ) is Some),
    {
        match self.peek() {
            Some(token) => match token.kind {
                TokenKind::Eq | TokenKind::NotEq | TokenKind::Gt | TokenKind::Lt | TokenKind::Gte
                | TokenKind::Lte => true,
                _ => false,
            },
            None => false,
        }
    }

    /// Parses a whole query.
    pub fn parse(&mut self) -> (r: Result<Query, ParseError>)
        requires
            old(self).wf(),
            old(self).pos() == 0,
        ensures
            parse_outcome(old(self).tokens(), r),
    {
        let ghost t = self.tokens@;
        let mut base_filters: Vec<FieldFilter> = Vec::new();
        let mut cross_filters: Vec<CrossFilter> = Vec::new();
        assert(filters_view(base_filters@) =~= Seq::<FieldFilterV>::empty());
        assert(crosses_view(cross_filters@) =~= Seq::<CrossFilterV>::empty());
        loop
            invariant
                self.wf(),
                self.tokens@ == t,
                self.tokens == old(self).tokens,
                parse_spec(t) == query_spec(
                    t,
                    self.position as int,
                    filters_view(base_filters@),
                    crosses_view(cross_filters@),
                ),
            decreases t.len() - self.position,
        {
            let ghost at = self.position as int;
            let ghost bv = filters_view(base_filters@);
            let ghost cv = crosses_view(cross_filters@);
            if self.position >= self.tokens.len() {
                let q = Query { base_filters, cross_filters };
                assert(q@ == (QueryV { base: bv, cross: cv }));
                return Ok(q);
            }
            let is_filter = matches!(self.tokens[self.position].kind, TokenKind::Filter);
            let is_cross = matches!(self.tokens[self.position].kind, TokenKind::CrossFilter);
            if is_filter {
                self.advance();
                let mut filters = self.parse_field_filters_until_semicolon_or_crossfilter()?;
                let ghost fv = filters_view(filters@);
                proof {
                    assert(filters_view(base_filters@ + filters@) =~= bv + fv);
                }
                base_filters.append(&mut filters);
            } else if is_cross {
                self.advance();
                let cross_filter = self.parse_cross_filter()?;
                let ghost c = cross_filter@;
                cross_filters.push(cross_filter);
                proof {
                    assert(crosses_view(cross_filters@) =~= cv.push(c));
                }
            } else {
                return Err(self.error_here("expected Filter: or CrossFilter:"));
            }
        }
    }

    /// Parses field filters until a `CrossFilter:` keyword or the end of input.
    fn parse_field_filters_until_semicolon_or_crossfilter(&mut self) -> (r: Result<
        Vec<FieldFilter>,
        ParseError,
    >)
        requires
            old(self).wf(),
        ensures
            final(self).wf(),
            final(self).tokens == old(self).tokens,
            parsed_filters_as(
                r,
                field_filters_spec(old(self).tokens@, old(self).position as int),
                final(self).position as int,
            ),
            r is Ok ==> old(self).position < final(self).position,
    {
        let ghost t = self.tokens@;
        let ghost start = self.position as int;
        let mut filters: Vec<FieldFilter> = Vec::new();
        proof {
            reveal(field_filters_spec);
        }
        loop
            invariant
                self.wf(),
                self.tokens@ == t,
                self.tokens == old(self).tokens,
                start == old(self).position,
                start <= self.position,
                filters@.len() > 0 ==> start < self.position,
                field_filters_spec(t, start) == prefixed(
                    filters_view(filters@),
                    field_filters_spec(t, self.position as int),
                ),
            decreases t.len() - self.position,
        {
            proof {
                reveal(field_filters_spec);
            }
            let ghost at = self.position as int;
            let ghost fv = filters_view(filters@);
            let filter = self.parse_field_filter()?;
            let ghost f = filter@;
            let ghost j = self.position as int;
            filters.push(filter);
            proof {
                assert(filters_view(filters@) =~= fv.push(f));
                assert(fv + seq![f] =~= fv.push(f));
            }
            if self.position >= self.tokens.len() {
                return Ok(filters);
            }
            if matches!(self.tokens[self.position].kind, TokenKind::Semicolon) {
                self.advance();
                if self.position >= self.tokens.len() || matches!(
                    self.tokens[self.position].kind,
                    TokenKind::CrossFilter
                ) {
                    return Ok(filters);
                }
                proof {
                    let rest = field_filters_spec(t, j + 1);
                    assert(prefixed(fv, prefixed(seq![f], rest)) == prefixed(fv.push(f), rest))
                        by {
                        match rest {
                            Ok((s, k)) => {
                                assert(fv + (seq![f] + s) =~= fv.push(f) + s);
                            },
                            Err(e) => {},
                        }
                    }
                }
            } else if matches!(self.tokens[self.position].kind, TokenKind::CrossFilter) {
                return Ok(filters);
            } else {
                return Err(self.error_here("expected ; or CrossFilter:"));
            }
        }
    }

    /// Parses `<Source-Target>` and the field filters after it.
    fn parse_cross_filter(&mut self) -> (r: Result<CrossFilter, ParseError>)
        requires
            old(self).wf(),
        ensures
            final(self).wf(),
            final(self).tokens == old(self).tokens,
            parsed_as(
                r,
                cross_filter_spec(old(self).tokens@, old(self).position as int),
                final(self).position as int,
            ),
            r is Ok ==> old(self).position < final(self).position,
    {
        proof {
            reveal(cross_filter_spec);
        }
        self.expect(TokenKind::Lt)?;
        if !self.match_token(&TokenKind::Identifier(String::new())) {
            return Err(self.error_here("expected an entity pair Source-Target"));
        }
        let entity_token = &self.tokens[self.position];
        let name = match &entity_token.kind {
            TokenKind::Identifier(name) => name,
            _ => {
                return Err(self.error_here("expected an entity pair Source-Target"));
            },
        };
        let pair = split_entity_pair(name.as_str());
        let (source, target) = match pair {
            Some(p) => p,
            None => {
                return Err(
                    ParseError::at_position(
                        String::from_str("entity must be in the form Source-Target"),
                        entity_token.span,
                    ),
                );
            },
        };
        self.advance();
        self.expect(TokenKind::Gt)?;
        let filters = self.parse_field_filters_until_semicolon_or_crossfilter()?;
        Ok(
            CrossFilter {
                source_entity: Identifier(source),
                target_entity: Identifier(target),
                filters,
            },
        )
    }

    /// Parses `field[condition]`.
    fn parse_field_filter(&mut self) -> (r: Result<FieldFilter, ParseError>)
        requires
            old(self).wf(),
        ensures
            final(self).wf(),
            final(self).tokens == old(self).tokens,
            parsed_as(
                r,
                field_filter_spec(old(self).tokens@, old(self).position as int),
                final(self).position as int,
            ),
            r is Ok ==> old(self).position < final(self).position,
    {
        if !self.match_token(&TokenKind::Identifier(String::new())) {
            return Err(self.error_here("expected a field name"));
        }
        let field = match &self.tokens[self.position].kind {
            TokenKind::Identifier(name) => Identifier(name.clone()),
            _ => {
                return Err(self.error_here("expected a field name"));
            },
        };
        self.advance();
        self.expect(TokenKind::LBracket)?;
        let condition = self.parse_condition()?;
        self.expect(TokenKind::RBracket)?;
        Ok(FieldFilter { field, condition })
    }

    /// Parses a condition.
    fn parse_condition(&mut self) -> (r: Result<Condition, ParseError>)
        requires
            old(self).wf(),
        ensures
            final(self).wf(),
            final(self).tokens == old(self).tokens,
            parsed_as(
                r,
                cond_spec(old(self).tokens@, old(self).position as int),
                final(self).position as int,
            ),
            r is Ok ==> old(self).position < final(self).position,
        decreases old(self).tokens@.len() - old(self).position, 6int,
    {
        self.parse_or_expression()
    }

    /// Parses `and (OR and)*`, grouping to the left.
    fn parse_or_expression(&mut self) -> (r: Result<Condition, ParseError>)
        requires
            old(self).wf(),
        ensures
            final(self).wf(),
            final(self).tokens == old(self).tokens,
            parsed_as(
                r,
                or_spec(old(self).tokens@, old(self).position as int),
                final(self).position as int,
            ),
            r is Ok ==> old(self).position < final(self).position,
        decreases old(self).tokens@.len() - old(self).position, 5int,
    {
        let ghost t = self.tokens@;
        let ghost start = self.position as int;
        let mut left = self.parse_and_expression()?;
        while self.position < self.tokens.len() && matches!(
            self.tokens[self.position].kind,
            TokenKind::Or
        )
            invariant
                self.wf(),
                self.tokens@ == t,
                self.tokens == old(self).tokens,
                start == old(self).position,
                start < self.position,
                or_spec(t, start) == or_rest_spec(t, left@, self.position as int),
            decreases t.len() - self.position,
        {
            self.advance();
            let right = self.parse_and_expression()?;
            left = Condition::Or(Box::new(left), Box::new(right));
        }
        Ok(left)
    }

    /// Parses `not (AND not)*`, grouping to the left.
    fn parse_and_expression(&mut self) -> (r: Result<Condition, ParseError>)
        requires
            old(self).wf(),
        ensures
            final(self).wf(),
            final(self).tokens == old(self).tokens,
            parsed_as(
                r,
                and_spec(old(self).tokens@, old(self).position as int),
                final(self).position as int,
            ),
            r is Ok ==> old(self).position < final(self).position,
        decreases old(self).tokens@.len() - old(self).position, 4int,
    {
        let ghost t = self.tokens@;
        let ghost start = self.position as int;
        let mut left = self.parse_not_expression()?;
        while self.position < self.tokens.len() && matches!(
            self.tokens[self.position].kind,
            TokenKind::And
        )
            invariant
                self.wf(),
                self.tokens@ == t,
                self.tokens == old(self).tokens,
                start == old(self).position,
                start < self.position,
                and_spec(t, start) == and_rest_spec(t, left@, self.position as int),
            decreases t.len() - self.position,
        {
            self.advance();
            let right = self.parse_not_expression()?;
            left = Condition::And(Box::new(left), Box::new(right));
        }
        Ok(left)
    }

    /// Parses `NOT* primary`.
    fn parse_not_expression(&mut self) -> (r: Result<Condition, ParseError>)
        requires
            old(self).wf(),
        ensures
            final(self).wf(),
            final(self).tokens == old(self).tokens,
            parsed_as(
                r,
                not_spec(old(self).tokens@, old(self).position as int),
                final(self).position as int,
            ),
            r is Ok ==> old(self).position < final(self).position,
        decreases old(self).tokens@.len() - old(self).position, 3int,
    {
        if self.match_token(&TokenKind::Not) {
            self.advance();
            let inner = self.parse_not_expression()?;
            Ok(Condition::Not(Box::new(inner)))
        } else {
            self.parse_primary_expression()
        }
    }

    /// Parses a group, a null test, an `IN` list or a comparison.
    fn parse_primary_expression(&mut self) -> (r: Result<Condition, ParseError>)
        requires
            old(self).wf(),
        ensures
            final(self).wf(),
            final(self).tokens == old(self).tokens,
            parsed_as(
                r,
                primary_spec(old(self).tokens@, old(self).position as int),
                final(self).position as int,
            ),
            r is Ok ==> old(self).position < final(self).position,
        decreases old(self).tokens@.len() - old(self).position, 2int,
    {
        let ghost t = self.tokens@;
        if self.position >= self.tokens.len() {
            return Err(ParseError::new(String::from_str("unexpected end of input"), None));
        }
        if self.match_token(&TokenKind::LParen) {
            self.advance();
            let inner = self.parse_condition()?;
            self.expect(TokenKind::RParen)?;
            Ok(Condition::Grouped(Box::new(inner)))
        } else if self.match_token(&TokenKind::Is) {
            self.advance();
            if self.match_token(&TokenKind::Not) {
                self.advance();
                self.expect(TokenKind::Null)?;
                Ok(Condition::IsNotNull)
            } else {
                self.expect(TokenKind::Null)?;
                Ok(Condition::IsNull)
            }
        } else if self.match_token(&TokenKind::In) {
            self.advance();
            self.expect(TokenKind::LParen)?;
            let values = self.parse_in_items()?;
            self.expect(TokenKind::RParen)?;
            assert(values@.len() == 0 ==> lits_view(values@) =~= Seq::<LitV>::empty());
            Ok(Condition::In(values))
        } else if self.is_comparison_operator() {
            let op = self.parse_comparison_operator()?;
            let value = self.parse_literal()?;
            Ok(Condition::Comparison { op, value })
        } else {
            let value = self.parse_literal()?;
            Ok(Condition::Comparison { op: CompOp::Eq, value })
        }
    }

    /// Parses the literals of an `IN` list, stopping before its `)`.
    fn parse_in_items(&mut self) -> (r: Result<Vec<Literal>, ParseError>)
        requires
            old(self).wf(),
        ensures
            final(self).wf(),
            final(self).tokens == old(self).tokens,
            kind_at(old(self).tokens@, old(self).position as int, TokenKind::RParen) ==> (r matches Ok(v) && v@.len() == 0 && final(self).position == old(self).position),
            !kind_at(old(self).tokens@, old(self).position as int, TokenKind::RParen) ==> match in_items_spec(
                old(self).tokens@,
                old(self).position as int,
                seq![],
            ) {
                Ok((vals, j)) => r matches Ok(v) && lits_view(v@) == vals && final(self).position
                    == j,
                Err(sp) => r matches Err(e) && e.span == sp,
            },
            r is Ok ==> old(self).position <= final(self).position,
    {
        let ghost t = self.tokens@;
        let ghost start = self.position as int;
        let mut values: Vec<Literal> = Vec::new();
        if self.match_token(&TokenKind::RParen) {
            return Ok(values);
        }
        assert(lits_view(values@) =~= Seq::<LitV>::empty());
        loop
            invariant
                self.wf(),
                self.tokens@ == t,
                self.tokens == old(self).tokens,
                start == old(self).position,
                start <= self.position,
                !kind_at(t, start, TokenKind::RParen),
                in_items_spec(t, start, seq![]) == in_items_spec(
                    t,
                    self.position as int,
                    lits_view(values@),
                ),
            decreases t.len() - self.position,
        {
            let ghost acc = lits_view(values@);
            let value = self.parse_literal()?;
            let ghost l = value@;
            values.push(value);
            proof {
                assert(lits_view(values@) =~= acc.push(l));
            }
            if self.match_token(&TokenKind::RParen) {
                return Ok(values);
            }
            self.expect(TokenKind::Comma)?;
        }
    }

    fn parse_comparison_operator(&mut self) -> (r: Result<CompOp, ParseError>)
        requires
            old(self).wf(),
        ensures
            final(self).wf(),
            final(self).tokens == old(self).tokens,
            old(self).position < old(self).tokens@.len() ==> match comp_op_of(
                old(self).tokens@[old(self).position as int].kind,
            ) {
                Some(op) => r == Ok::<CompOp, ParseError>(op) && final(self).position
                    == old(self).position + 1,
                None => r matches Err(e) && e.span == Some(
                    old(self).tokens@[old(self).position as int].span,
                ),
            },
            old(self).position >= old(self).tokens@.len() ==> (r matches Err(e) && e.span is None),
    {
        if self.position >= self.tokens.len() {
            return Err(ParseError::new(String::from_str("expected a comparison operator"), None));
        }
        let op = match self.tokens[self.position].kind {
            TokenKind::Eq => CompOp::Eq,
            TokenKind::NotEq => CompOp::NotEq,
            TokenKind::Gt => CompOp::Gt,
            TokenKind::Lt => CompOp::Lt,
            TokenKind::Gte => CompOp::Gte,
            TokenKind::Lte => CompOp::Lte,
            _ => {
                return Err(self.error_here("expected a comparison operator"));
            },
        };
        self.advance();
        Ok(op)
    }

    fn parse_literal(&mut self) -> (r: Result<Literal, ParseError>)
        requires
            old(self).wf(),
        ensures
            final(self).wf(),
            final(self).tokens == old(self).tokens,
            parsed_as(
                r,
                literal_spec(old(self).tokens@, old(self).position as int),
                final(self).position as int,
            ),
            r is Ok ==> old(self).position < final(self).position,
    {
        if self.position >= self.tokens.len() {
            return Err(ParseError::new(String::from_str("expected a literal value"), None));
        }
        let lit = match &self.tokens[self.position].kind {
            TokenKind::String(s) => Literal::String(s.clone()),
            TokenKind::Number(n) => Literal::Number(*n),
            TokenKind::Today => Literal::Date(String::from_str("today")),
            TokenKind::Yesterday => Literal::Date(String::from_str("yesterday")),
            TokenKind::Tomorrow => Literal::Date(String::from_str("tomorrow")),
            TokenKind::CurrentUser => Literal::CurrentUser,
            TokenKind::Identifier(s) => Literal::String(s.clone()),
            _ => {
                return Err(self.error_here("expected a literal value"));
            },
        };
        self.advance();
        Ok(lit)
    }
}

/// How a token kind is named in error messages.
fn kind_name(k: &TokenKind) -> &'static str {
    match k {
        TokenKind::Filter => "Filter:",
        TokenKind::CrossFilter => "CrossFilter:",
        TokenKind::And => "AND",
        TokenKind::Or => "OR",
        TokenKind::Not => "NOT",
        TokenKind::In => "IN",
        TokenKind::Is => "IS",
        TokenKind::Null => "NULL",
        TokenKind::Identifier(_) => "an identifier",
        TokenKind::String(_) => "a string",
        TokenKind::Number(_) => "a number",
        TokenKind::Today => "today",
        TokenKind::Yesterday => "yesterday",
        TokenKind::Tomorrow => "tomorrow",
        TokenKind::CurrentUser => "current_user",
        TokenKind::LParen => "(",
        TokenKind::RParen => ")",
        TokenKind::LBracket => "[",
        TokenKind::RBracket => "]",
        TokenKind::Semicolon => ";",
        TokenKind::Comma => ",",
        TokenKind::Dash => "-",
        TokenKind::Eq => "=",
        TokenKind::NotEq => "!=",
        TokenKind::Gt => ">",
        TokenKind::Lt => "<",
        TokenKind::Gte => ">=",
        TokenKind::Lte => "<=",
        TokenKind::Illegal => "an illegal character",
        TokenKind::Eof => "the end of input",
    }
}

/// Whether two token kinds are of the same variant.
fn variant_eq(a: &TokenKind, b: &TokenKind) -> (r: bool)
    ensures
        r == same_variant(*a, *b),
{
    match (a, b) {
        (TokenKind::Identifier(_), TokenKind::Identifier(_)) => true,
        (TokenKind::String(_), TokenKind::String(_)) => true,
        (TokenKind::Number(_), TokenKind::Number(_)) => true,
        (TokenKind::Identifier(_), _) | (TokenKind::String(_), _) | (TokenKind::Number(_), _) => false,
        (_, TokenKind::Identifier(_)) | (_, TokenKind::String(_)) | (_, TokenKind::Number(_)) => false,
        (TokenKind::Filter, TokenKind::Filter) | (TokenKind::CrossFilter, TokenKind::CrossFilter)
        | (TokenKind::And, TokenKind::And) | (TokenKind::Or, TokenKind::Or) | (
            TokenKind::Not,
            TokenKind::Not,
        ) | (TokenKind::In, TokenKind::In) | (TokenKind::Is, TokenKind::Is) | (
            TokenKind::Null,
            TokenKind::Null,
        ) | (TokenKind::Today, TokenKind::Today) | (TokenKind::Yesterday, TokenKind::Yesterday)
        | (TokenKind::Tomorrow, TokenKind::Tomorrow) | (
            TokenKind::CurrentUser,
            TokenKind::CurrentUser,
        ) | (TokenKind::LParen, TokenKind::LParen) | (TokenKind::RParen, TokenKind::RParen) | (
            TokenKind::LBracket,
            TokenKind::LBracket,
        ) | (TokenKind::RBracket, TokenKind::RBracket) | (
            TokenKind::Semicolon,
            TokenKind::Semicolon,
        ) | (TokenKind::Comma, TokenKind::Comma) | (TokenKind::Dash, TokenKind::Dash) | (
            TokenKind::Eq,
            TokenKind::Eq,
        ) | (TokenKind::NotEq, TokenKind::NotEq) | (TokenKind::Gt, TokenKind::Gt) | (
            TokenKind::Lt,
            TokenKind::Lt,
        ) | (TokenKind::Gte, TokenKind::Gte) | (TokenKind::Lte, TokenKind::Lte) | (
            TokenKind::Illegal,
            TokenKind::Illegal,
        ) | (TokenKind::Eof, TokenKind::Eof) => true,
        _ => false,
    }
}

/// Splits `Source-Target` at its one hyphen into two non-empty names.
fn split_entity_pair(name: &str) -> (r: Option<(String, String)>)
    ensures
        match entity_pair(name@) {
            Some((s, t)) => r matches Some((a, b)) && a@ == s && b@ == t,
            None => r is None,
        },
{
    let cs = chars_of(name);
    let n = cs.len();
    let mut p: usize = 0;
    while p < n && cs[p] != '-'
        invariant
            cs@ == name@,
            n == cs@.len(),
            p <= n,
            dash_at(cs@, p as int) == dash_at(cs@, 0),
        decreases n - p,
    {
        p = p + 1;
    }
    if p == 0 || p >= n || n - p < 2 {
        return None;
    }
    let mut q: usize = p + 1;
    while q < n && cs[q] != '-'
        invariant
            cs@ == name@,
            n == cs@.len(),
            p < q <= n,
            dash_at(cs@, q as int) == dash_at(cs@, p + 1),
        decreases n - q,
    {
        q = q + 1;
    }
    if q != n {
        return None;
    }
    let source = text_of(&cs, 0, p);
    let target = text_of(&cs, p + 1, n);
    assert(cs@.subrange(0, p as int) =~= cs@.take(p as int));
    assert(cs@.subrange(p + 1, n as int) =~= cs@.skip(p + 1));
    Some((source, target))
}

} // verus!
