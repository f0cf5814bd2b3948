//! The query tree built by the parser, and its mathematical view.

use vstd::prelude::*;

verus! {

/// The root: a query with conditions on the primary entity and on linked ones.
#[derive(Debug, PartialEq)]
pub struct Query {
    /// Filters on the primary entity.
    pub base_filters: Vec<FieldFilter>,
    /// Filters on linked entities, each reached through one join.
    pub cross_filters: Vec<CrossFilter>,
}

/// A filter on a linked entity, e.g. `CrossFilter: <Test-Run> ...`.
#[derive(Debug, PartialEq)]
pub struct CrossFilter {
    pub source_entity: Identifier,
    pub target_entity: Identifier,
    /// Filters applied to the target entity.
    pub filters: Vec<FieldFilter>,
}

/// A condition on one field, e.g. `status[NOT "Open"]`.
#[derive(Debug, PartialEq)]
pub struct FieldFilter {
    pub field: Identifier,
    pub condition: Condition,
}

/// A name, compared by its text.
#[derive(Debug, Clone, PartialEq, Eq, Hash)]
pub struct Identifier(pub String);

/// A condition tree on one field.
#[derive(Debug, PartialEq)]
pub enum Condition {
    And(Box<Condition>, Box<Condition>),
    Or(Box<Condition>, Box<Condition>),
    Not(Box<Condition>),
    /// A parenthesised condition, kept as written.
    Grouped(Box<Condition>),
    Comparison { op: CompOp, value: Literal },
    In(Vec<Literal>),
    IsNull,
    IsNotNull,
}

/// A comparison operator.
#[derive(Debug, Clone, Copy, PartialEq, Eq, Structural)]
pub enum CompOp {
    Eq,
    NotEq,
    Gt,
    Lt,
    Gte,
    Lte,
}

/// A literal value.
#[derive(Debug, Clone, PartialEq)]
pub enum Literal {
    String(String),
    Number(i64),
    /// A date keyword such as `today`, or a date written out.
    Date(String),
    CurrentUser,
}

/// The value of a literal, with text as a sequence of characters.
pub enum LitV {
    Text(Seq<char>),
    Number(i64),
    Date(Seq<char>),
    CurrentUser,
}

/// The value of a condition tree.
pub enum CondV {
    And(Box<CondV>, Box<CondV>),
    Or(Box<CondV>, Box<CondV>),
    Not(Box<CondV>),
    Grouped(Box<CondV>),
    Comparison(CompOp, LitV),
    In(Seq<LitV>),
    IsNull,
    IsNotNull,
}

/// The value of a field filter.
pub struct FieldFilterV {
    pub field: Seq<char>,
    pub condition: CondV,
}

/// The value of a cross filter.
pub struct CrossFilterV {
    pub source: Seq<char>,
    pub target: Seq<char>,
    pub filters: Seq<FieldFilterV>,
}

/// The value of a query.
pub struct QueryV {
    pub base: Seq<FieldFilterV>,
    pub cross: Seq<CrossFilterV>,
}

impl View for Literal {
    type V = LitV;

    open spec fn view(&self) -> LitV {
        match self {
            Literal::String(s) => LitV::Text(s@),
            Literal::Number(n) => LitV::Number(*n),
            Literal::Date(d) => LitV::Date(d@),
            Literal::CurrentUser => LitV::CurrentUser,
        }
    }
}

/// The values of a list of literals.
pub open spec fn lits_view(v: Seq<Literal>) -> Seq<LitV> {
    v.map_values(|l: Literal| l@)
}

pub open spec fn cond_view(c: Condition) -> CondV
    decreases c,
{
    match c {
        Condition::And(l, r) => CondV::And(Box::new(cond_view(*l)), Box::new(cond_view(*r))),
        Condition::Or(l, r) => CondV::Or(Box::new(cond_view(*l)), Box::new(cond_view(*r))),
        Condition::Not(i) => CondV::Not(Box::new(cond_view(*i))),
        Condition::Grouped(i) => CondV::Grouped(Box::new(cond_view(*i))),
        Condition::Comparison { op, value } => CondV::Comparison(op, value@),
        Condition::In(vals) => CondV::In(lits_view(vals@)),
        Condition::IsNull => CondV::IsNull,
        Condition::IsNotNull => CondV::IsNotNull,
    }
}

impl View for Condition {
    type V = CondV;

    open spec fn view(&self) -> CondV {
        cond_view(*self)
    }
}

impl View for FieldFilter {
    type V = FieldFilterV;

    open spec fn view(&self) -> FieldFilterV {
        FieldFilterV { field: self.field.0@, condition: self.condition@ }
    }
}

pub open spec fn filters_view(v: Seq<FieldFilter>) -> Seq<FieldFilterV> {
    v.map_values(|f: FieldFilter| f@)
}

impl View for CrossFilter {
    type V = CrossFilterV;

    open spec fn view(&self) -> CrossFilterV {
        CrossFilterV {
            source: self.source_entity.0@,
            target: self.target_entity.0@,
            filters: filters_view(self.filters@),
        }
    }
}

pub open spec fn crosses_view(v: Seq<CrossFilter>) -> Seq<CrossFilterV> {
    v.map_values(|c: CrossFilter| c@)
}

impl View for Query {
    type V = QueryV;

    open spec fn view(&self) -> QueryV {
        QueryV {
            base: filters_view(self.base_filters@),
            cross: crosses_view(self.cross_filters@),
        }
    }
}

} // verus!
