//! The calls into sea-query that build and render a statement.
//!
//! Each value built here carries, as a ghost model, what it was built from.
//! The fields are private and every builder below pairs exactly one
//! sea-query call with the model of that call, so the model of a statement
//! records every call that shaped it, and its PostgreSQL text is a function
//! of that model.

use vstd::prelude::*;
use sea_query::{Alias, Asterisk, BinOper, Expr, JoinType, PostgresQueryBuilder, SelectStatement, SimpleExpr, Value};
use crate::ast::CompOp;
use crate::sql::{ExprV, SqlKeyword, ValueV, keyword_text};

verus! {

#[verifier::external_type_specification]
#[verifier::external_body]
pub struct ExSimpleExpr(SimpleExpr);

#[verifier::external_type_specification]
#[verifier::external_body]
pub struct ExSelectStatement(SelectStatement);

/// An inner join: `table` joined on `left.column = right.column`.
pub struct JoinV {
    pub table: Seq<char>,
    pub left: Seq<char>,
    pub right: Seq<char>,
    pub column: Seq<char>,
}

/// What a statement was built from: `SELECT *` from `table`, the joins in
/// order, and the `WHERE` conditions in order, joined by `AND`.
pub struct StmtV {
    pub table: Seq<char>,
    pub joins: Seq<JoinV>,
    pub wheres: Seq<ExprV>,
}

/// The PostgreSQL text that sea-query renders for a statement.
pub uninterp spec fn postgres_text(s: StmtV) -> Seq<char>;

/// A sea-query operand, with the value it stands for.
pub struct SeaOperand {
    expr: SimpleExpr,
    model: Ghost<ValueV>,
}

impl SeaOperand {
    pub closed spec fn model(&self) -> ValueV {
        self.model@
    }
}

/// A sea-query condition, with the expression it stands for.
pub struct SeaExpr {
    expr: SimpleExpr,
    model: Ghost<ExprV>,
}

impl SeaExpr {
    pub closed spec fn model(&self) -> ExprV {
        self.model@
    }
}

/// A sea-query statement, with what it was built from.
pub struct SeaStatement {
    stmt: SelectStatement,
    model: Ghost<StmtV>,
}

impl SeaStatement {
    pub closed spec fn model(&self) -> StmtV {
        self.model@
    }
}

/// Relies on sea-query's `Value::String` as an expression.
#[verifier::external_body]
fn raw_text(s: &str) -> SimpleExpr {
    Value::String(Some(Box::new(s.to_string()))).into()
}

/// Relies on sea-query's `Value::BigInt` as an expression.
#[verifier::external_body]
fn raw_bigint(n: i64) -> SimpleExpr {
    Value::BigInt(Some(n)).into()
}

/// Relies on sea-query's `Expr::cust`.
#[verifier::external_body]
fn raw_custom(sql: &str) -> SimpleExpr {
    Expr::cust(sql)
}

/// Relies on sea-query's `Expr::binary` on a column named by `Alias`.
#[verifier::external_body]
fn raw_compare(column: &str, op: CompOp, right: SimpleExpr) -> SimpleExpr {
    let bin = match op {
        CompOp::Eq => BinOper::Equal,
        CompOp::NotEq => BinOper::NotEqual,
        CompOp::Gt => BinOper::GreaterThan,
        CompOp::Lt => BinOper::SmallerThan,
        CompOp::Gte => BinOper::GreaterThanOrEqual,
        CompOp::Lte => BinOper::SmallerThanOrEqual,
    };
    Expr::col(Alias::new(column)).binary(bin, right)
}

/// Relies on sea-query's `Expr::is_in`.
#[verifier::external_body]
fn raw_in(column: &str, values: Vec<SimpleExpr>) -> SimpleExpr {
    Expr::col(Alias::new(column)).is_in(values)
}

/// Relies on sea-query's `Expr::is_null`.
#[verifier::external_body]
fn raw_is_null(column: &str) -> SimpleExpr {
    Expr::col(Alias::new(column)).is_null()
}

/// Relies on sea-query's `Expr::is_not_null`.
#[verifier::external_body]
fn raw_is_not_null(column: &str) -> SimpleExpr {
    Expr::col(Alias::new(column)).is_not_null()
}

/// Relies on sea-query's `SimpleExpr::and`.
#[verifier::external_body]
fn raw_and(a: SimpleExpr, b: SimpleExpr) -> SimpleExpr {
    a.and(b)
}

/// Relies on sea-query's `SimpleExpr::or`.
#[verifier::external_body]
fn raw_or(a: SimpleExpr, b: SimpleExpr) -> SimpleExpr {
    a.or(b)
}

/// Relies on sea-query's `SimpleExpr::not`.
#[verifier::external_body]
fn raw_not(a: SimpleExpr) -> SimpleExpr {
    a.not()
}

/// Relies on sea-query's `Expr::val` on a boolean.
#[verifier::external_body]
fn raw_bool(b: bool) -> SimpleExpr {
    Expr::val(b).into()
}

/// Relies on sea-query's `SelectStatement::new`, `column(Asterisk)` and `from`.
#[verifier::external_body]
fn raw_select_from(table: &str) -> SelectStatement {
    let mut stmt = SelectStatement::new();
    stmt.column(Asterisk).from(Alias::new(table));
    stmt
}

/// Relies on sea-query's `SelectStatement::join` with `JoinType::InnerJoin`
/// on `Expr::equals` between two qualified columns.
#[verifier::external_body]
fn raw_inner_join(s: &mut SelectStatement, table: &str, left: &str, right: &str, column: &str) {
    let on = Expr::col((Alias::new(left), Alias::new(column))).equals((Alias::new(right), Alias::new(column)));
    s.join(JoinType::InnerJoin, Alias::new(table), on);
}

/// Relies on sea-query's `SelectStatement::and_where`.
#[verifier::external_body]
fn raw_and_where(s: &mut SelectStatement, e: SimpleExpr) {
    s.and_where(e);
}

/// Relies on sea-query's `SelectStatement::to_string` with
/// `PostgresQueryBuilder`: the text is a function of the calls that built
/// the statement, which its model records.
#[verifier::external_body]
pub(crate) fn sea_postgres(s: &SeaStatement) -> (r: String)
    ensures
        r@ == postgres_text(s.model()),
{
    s.stmt.to_string(PostgresQueryBuilder)
}

pub(crate) fn sea_text(s: &str) -> (r: SeaOperand)
    ensures
        r.model() == ValueV::Text(s@),
{
    SeaOperand { expr: raw_text(s), model: Ghost(ValueV::Text(s@)) }
}

pub(crate) fn sea_bigint(n: i64) -> (r: SeaOperand)
    ensures
        r.model() == ValueV::BigInt(n),
{
    SeaOperand { expr: raw_bigint(n), model: Ghost(ValueV::BigInt(n)) }
}

pub(crate) fn sea_keyword(k: SqlKeyword, sql: &str) -> (r: SeaOperand)
    requires
        sql@ == keyword_text(k),
    ensures
        r.model() == ValueV::Keyword(k),
{
    SeaOperand { expr: raw_custom(sql), model: Ghost(ValueV::Keyword(k)) }
}

pub(crate) fn sea_compare(column: &str, op: CompOp, right: SeaOperand) -> (r: SeaExpr)
    ensures
        r.model() == ExprV::Compare(column@, op, right.model()),
{
    let model = Ghost(ExprV::Compare(column@, op, right.model()));
    SeaExpr { expr: raw_compare(column, op, right.expr), model }
}

pub(crate) fn sea_in(column: &str, values: Vec<SeaOperand>) -> (r: SeaExpr)
    ensures
        r.model() == ExprV::InList(column@, values@.map_values(|o: SeaOperand| o.model())),
{
    let ghost models = values@.map_values(|o: SeaOperand| o.model());
    let mut exprs: Vec<SimpleExpr> = Vec::new();
    let mut rest = values;
    let ghost mut k: int = 0;
    while rest.len() > 0
        invariant
            0 <= k <= models.len(),
            rest@.len() == models.len() - k,
            forall|j: int| 0 <= j < rest@.len() ==> (#[trigger] rest@[j]).model() == models[k + j],
        decreases rest@.len(),
    {
        let ghost before = rest@;
        let o = rest.remove(0);
        proof {
            assert(forall|j: int| 0 <= j < rest@.len() ==> rest@[j] == before[j + 1]);
            k = k + 1;
        }
        exprs.push(o.expr);
    }
    SeaExpr { expr: raw_in(column, exprs), model: Ghost(ExprV::InList(column@, models)) }
}

pub(crate) fn sea_is_null(column: &str) -> (r: SeaExpr)
    ensures
        r.model() == ExprV::IsNull(column@),
{
    SeaExpr { expr: raw_is_null(column), model: Ghost(ExprV::IsNull(column@)) }
}

pub(crate) fn sea_is_not_null(column: &str) -> (r: SeaExpr)
    ensures
        r.model() == ExprV::IsNotNull(column@),
{
    SeaExpr { expr: raw_is_not_null(column), model: Ghost(ExprV::IsNotNull(column@)) }
}

pub(crate) fn sea_and(a: SeaExpr, b: SeaExpr) -> (r: SeaExpr)
    ensures
        r.model() == ExprV::And(Box::new(a.model()), Box::new(b.model())),
{
    let model = Ghost(ExprV::And(Box::new(a.model()), Box::new(b.model())));
    SeaExpr { expr: raw_and(a.expr, b.expr), model }
}

pub(crate) fn sea_or(a: SeaExpr, b: SeaExpr) -> (r: SeaExpr)
    ensures
        r.model() == ExprV::Or(Box::new(a.model()), Box::new(b.model())),
{
    let model = Ghost(ExprV::Or(Box::new(a.model()), Box::new(b.model())));
    SeaExpr { expr: raw_or(a.expr, b.expr), model }
}

pub(crate) fn sea_not(a: SeaExpr) -> (r: SeaExpr)
    ensures
        r.model() == ExprV::Not(Box::new(a.model())),
{
    let model = Ghost(ExprV::Not(Box::new(a.model())));
    SeaExpr { expr: raw_not(a.expr), model }
}

pub(crate) fn sea_bool(b: bool) -> (r: SeaExpr)
    ensures
        r.model() == ExprV::Const(b),
{
    SeaExpr { expr: raw_bool(b), model: Ghost(ExprV::Const(b)) }
}

pub(crate) fn sea_select_from(table: &str) -> (r: SeaStatement)
    ensures
        r.model() == (StmtV { table: table@, joins: seq![], wheres: seq![] }),
{
    SeaStatement {
        stmt: raw_select_from(table),
        model: Ghost(StmtV { table: table@, joins: seq![], wheres: seq![] }),
    }
}

pub(crate) fn sea_inner_join(s: &mut SeaStatement, table: &str, left: &str, right: &str, column: &str)
    ensures
        final(s).model() == (StmtV {
            joins: old(s).model().joins.push(JoinV { table: table@, left: left@, right: right@, column: column@ }),
            ..old(s).model()
        }),
{
    raw_inner_join(&mut s.stmt, table, left, right, column);
    let ghost join = JoinV { table: table@, left: left@, right: right@, column: column@ };
    s.model = Ghost(StmtV { joins: s.model@.joins.push(join), ..s.model@ });
}

pub(crate) fn sea_and_where(s: &mut SeaStatement, e: SeaExpr)
    ensures
        final(s).model() == (StmtV { wheres: old(s).model().wheres.push(e.model()), ..old(s).model() }),
{
    let ghost m = e.model();
    raw_and_where(&mut s.stmt, e.expr);
    s.model = Ghost(StmtV { wheres: s.model@.wheres.push(m), ..s.model@ });
}

} // verus!
