//! The SQL that the compiler produces, as plain values, and its rendering
//! through sea-query's PostgreSQL builder.

use vstd::prelude::*;
use crate::ast::CompOp;
use crate::sea::{
    JoinV, SeaExpr, SeaOperand, StmtV, postgres_text, sea_and, sea_and_where, sea_bigint, sea_bool,
    sea_compare, sea_in, sea_inner_join, sea_is_not_null, sea_is_null, sea_keyword, sea_not, sea_or,
    sea_postgres, sea_select_from, sea_text,
};

verus! {

/// An SQL expression that stands for a value known only to the database.
#[derive(Debug, Clone, Copy, PartialEq, Eq, Structural)]
pub enum SqlKeyword {
    /// `CURRENT_DATE`
    CurrentDate,
    /// `CURRENT_DATE - INTERVAL '1 day'`
    Yesterday,
    /// `CURRENT_DATE + INTERVAL '1 day'`
    Tomorrow,
    /// `CURRENT_USER`, the session user.
    CurrentUser,
}

/// The SQL of a keyword expression.
pub open spec fn keyword_text(k: SqlKeyword) -> Seq<char> {
    match k {
        SqlKeyword::CurrentDate => "CURRENT_DATE"@,
        SqlKeyword::Yesterday => "CURRENT_DATE - INTERVAL '1 day'"@,
        SqlKeyword::Tomorrow => "CURRENT_DATE + INTERVAL '1 day'"@,
        SqlKeyword::CurrentUser => "CURRENT_USER"@,
    }
}

/// The SQL of a keyword expression.
pub fn keyword_sql(k: SqlKeyword) -> (r: &'static str)
    ensures
        r@ == keyword_text(k),
{
    match k {
        SqlKeyword::CurrentDate => "CURRENT_DATE",
        SqlKeyword::Yesterday => "CURRENT_DATE - INTERVAL '1 day'",
        SqlKeyword::Tomorrow => "CURRENT_DATE + INTERVAL '1 day'",
        SqlKeyword::CurrentUser => "CURRENT_USER",
    }
}

/// A typed SQL value: a text or integer parameter, or a keyword expression
/// written into the statement unquoted.
#[derive(Debug, Clone, PartialEq)]
pub enum SqlValue {
    Text(String),
    BigInt(i64),
    Keyword(SqlKeyword),
}

/// The mathematical value of a `SqlValue`.
pub enum ValueV {
    Text(Seq<char>),
    BigInt(i64),
    Keyword(SqlKeyword),
}

impl View for SqlValue {
    type V = ValueV;

    open spec fn view(&self) -> ValueV {
        match self {
            SqlValue::Text(s) => ValueV::Text(s@),
            SqlValue::BigInt(n) => ValueV::BigInt(*n),
            SqlValue::Keyword(k) => ValueV::Keyword(*k),
        }
    }
}

pub open spec fn values_view(v: Seq<SqlValue>) -> Seq<ValueV> {
    v.map_values(|x: SqlValue| x@)
}

/// A copy of a value.
pub fn copy_value(v: &SqlValue) -> (r: SqlValue)
    ensures
        r@ == v@,
{
    match v {
        SqlValue::Text(s) => SqlValue::Text(s.clone()),
        SqlValue::BigInt(n) => SqlValue::BigInt(*n),
        SqlValue::Keyword(k) => SqlValue::Keyword(*k),
    }
}

/// A boolean SQL expression over named columns.
#[derive(Debug, PartialEq)]
pub enum SqlExpr {
    /// `column op value`
    Compare { column: String, op: CompOp, value: SqlValue },
    /// `column IN (values)`
    InList { column: String, values: Vec<SqlValue> },
    IsNull { column: String },
    IsNotNull { column: String },
    And(Box<SqlExpr>, Box<SqlExpr>),
    Or(Box<SqlExpr>, Box<SqlExpr>),
    Not(Box<SqlExpr>),
    /// A constant truth value.
    Const(bool),
}

/// The mathematical value of a `SqlExpr`.
pub enum ExprV {
    Compare(Seq<char>, CompOp, ValueV),
    InList(Seq<char>, Seq<ValueV>),
    IsNull(Seq<char>),
    IsNotNull(Seq<char>),
    And(Box<ExprV>, Box<ExprV>),
    Or(Box<ExprV>, Box<ExprV>),
    Not(Box<ExprV>),
    Const(bool),
}

pub open spec fn expr_view(e: SqlExpr) -> ExprV
    decreases e,
{
    match e {
        SqlExpr::Compare { column, op, value } => ExprV::Compare(column@, op, value@),
        SqlExpr::InList { column, values } => ExprV::InList(column@, values_view(values@)),
        SqlExpr::IsNull { column } => ExprV::IsNull(column@),
        SqlExpr::IsNotNull { column } => ExprV::IsNotNull(column@),
        SqlExpr::And(l, r) => ExprV::And(Box::new(expr_view(*l)), Box::new(expr_view(*r))),
        SqlExpr::Or(l, r) => ExprV::Or(Box::new(expr_view(*l)), Box::new(expr_view(*r))),
        SqlExpr::Not(i) => ExprV::Not(Box::new(expr_view(*i))),
        SqlExpr::Const(b) => ExprV::Const(b),
    }
}

impl View for SqlExpr {
    type V = ExprV;

    open spec fn view(&self) -> ExprV {
        expr_view(*self)
    }
}

pub open spec fn exprs_view(v: Seq<SqlExpr>) -> Seq<ExprV> {
    v.map_values(|e: SqlExpr| e@)
}

/// A table name.
#[derive(Debug, Clone, PartialEq)]
pub struct TableName(pub String);

/// A column name, possibly qualified by a table or alias.
#[derive(Debug, Clone, PartialEq)]
pub struct ColumnName(pub String);

/// An inner join of `table` under `alias`, on equal `id` columns.
#[derive(Debug, Clone, PartialEq)]
pub struct JoinPlan {
    pub table: TableName,
    pub alias: String,
}

/// A `SELECT *` statement: its table, its joins in order, and the
/// conditions of its `WHERE` clause, which are joined by `AND`.
#[derive(Debug, PartialEq)]
pub struct SelectPlan {
    pub table: TableName,
    pub joins: Vec<JoinPlan>,
    pub conditions: Vec<SqlExpr>,
}

/// The mathematical value of a `SelectPlan`.
pub struct PlanV {
    pub table: Seq<char>,
    /// Each join as (table, alias).
    pub joins: Seq<(Seq<char>, Seq<char>)>,
    pub conditions: Seq<ExprV>,
}

pub open spec fn joins_view(v: Seq<JoinPlan>) -> Seq<(Seq<char>, Seq<char>)> {
    v.map_values(|j: JoinPlan| (j.table.0@, j.alias@))
}

impl View for SelectPlan {
    type V = PlanV;

    open spec fn view(&self) -> PlanV {
        PlanV {
            table: self.table.0@,
            joins: joins_view(self.joins@),
            conditions: exprs_view(self.conditions@),
        }
    }
}

/// The sea-query operand of a value.
fn to_sea_operand(v: &SqlValue) -> (r: SeaOperand)
    ensures
        r.model() == v@,
{
    match v {
        SqlValue::Text(s) => sea_text(s.as_str()),
        SqlValue::BigInt(n) => sea_bigint(*n),
        SqlValue::Keyword(k) => sea_keyword(*k, keyword_sql(*k)),
    }
}

/// The sea-query condition of an expression.
fn to_sea(e: &SqlExpr) -> (r: SeaExpr)
    ensures
        r.model() == e@,
    decreases e,
{
    match e {
        SqlExpr::Compare { column, op, value } => sea_compare(column.as_str(), *op, to_sea_operand(value)),
        SqlExpr::InList { column, values } => {
            let mut ops: Vec<SeaOperand> = Vec::new();
            let mut i: usize = 0;
            while i < values.len()
                invariant
                    i <= values@.len(),
                    ops@.map_values(|o: SeaOperand| o.model()) == values_view(values@).take(i as int),
                decreases values.len() - i,
            {
                let ghost before = ops@;
                ops.push(to_sea_operand(&values[i]));
                proof {
                    assert(ops@.map_values(|o: SeaOperand| o.model()) =~= before.map_values(
                        |o: SeaOperand| o.model(),
                    ).push(values@[i as int]@));
                    assert(values_view(values@).take(i + 1) =~= values_view(values@).take(
                        i as int,
                    ).push(values@[i as int]@));
                }
                i = i + 1;
            }
            assert(values_view(values@).take(values@.len() as int) =~= values_view(values@));
            sea_in(column.as_str(), ops)
        },
        SqlExpr::IsNull { column } => sea_is_null(column.as_str()),
        SqlExpr::IsNotNull { column } => sea_is_not_null(column.as_str()),
        SqlExpr::And(l, r) => sea_and(to_sea(l), to_sea(r)),
        SqlExpr::Or(l, r) => sea_or(to_sea(l), to_sea(r)),
        SqlExpr::Not(i) => sea_not(to_sea(i)),
        SqlExpr::Const(b) => sea_bool(*b),
    }
}

/// The statement that renders a plan: each join's table written as
/// `table AS alias` and joined on `primary.id = alias.id`, and every
/// condition in the `WHERE` clause.
pub open spec fn stmt_of(p: PlanV) -> StmtV {
    StmtV {
        table: p.table,
        joins: Seq::new(
            p.joins.len(),
            |k: int|
                JoinV {
                    table: p.joins[k].0 + " AS "@ + p.joins[k].1,
                    left: p.table,
                    right: p.joins[k].1,
                    column: "id"@,
                },
        ),
        wheres: p.conditions,
    }
}

/// The PostgreSQL text of a plan.
pub open spec fn plan_text(p: PlanV) -> Seq<char> {
    postgres_text(stmt_of(p))
}

/// Renders a statement as PostgreSQL text.
pub fn render_postgres(plan: &SelectPlan) -> (r: String)
    ensures
        r@ == plan_text(plan@),
{
    let ghost p = plan@;
    let ghost target = stmt_of(p);
    let mut s = sea_select_from(plan.table.0.as_str());
    let mut j: usize = 0;
    assert(target.joins.take(0) =~= Seq::<JoinV>::empty());
    while j < plan.joins.len()
        invariant
            p == plan@,
            target == stmt_of(p),
            j <= plan.joins@.len(),
            s.model() == (StmtV { table: target.table, joins: target.joins.take(j as int), wheres: seq![] }),
        decreases plan.joins@.len() - j,
    {
        let join = &plan.joins[j];
        let mut joined = join.table.0.clone();
        joined.append(" AS ");
        joined.append(join.alias.as_str());
        sea_inner_join(&mut s, joined.as_str(), plan.table.0.as_str(), join.alias.as_str(), "id");
        proof {
            assert(p.joins[j as int] == (join.table.0@, join.alias@));
            assert(target.joins.take(j + 1) =~= target.joins.take(j as int).push(target.joins[j as int]));
        }
        j = j + 1;
    }
    assert(target.joins.take(j as int) =~= target.joins);
    let mut i: usize = 0;
    assert(target.wheres.take(0) =~= Seq::<ExprV>::empty());
    while i < plan.conditions.len()
        invariant
            p == plan@,
            target == stmt_of(p),
            i <= plan.conditions@.len(),
            s.model() == (StmtV { table: target.table, joins: target.joins, wheres: target.wheres.take(i as int) }),
        decreases plan.conditions@.len() - i,
    {
        let e = to_sea(&plan.conditions[i]);
        sea_and_where(&mut s, e);
        proof {
            assert(target.wheres[i as int] == plan.conditions@[i as int]@);
            assert(target.wheres.take(i + 1) =~= target.wheres.take(i as int).push(target.wheres[i as int]));
        }
        i = i + 1;
    }
    assert(target.wheres.take(i as int) =~= target.wheres);
    sea_postgres(&s)
}

} // verus!
