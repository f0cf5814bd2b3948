//! The condition compiler, its rewrite rules, the statement assembler and
//! the batch planner.

use vstd::prelude::*;
use vstd::string::*;
use crate::ast::{
    CompOp, CondV, Condition, CrossFilter, CrossFilterV, FieldFilter, FieldFilterV, Identifier,
    LitV, Literal, Query, QueryV, crosses_view, filters_view, lits_view,
};
use crate::config::{ConfigError, TableMappingConfig};
use crate::mapping::{NameMap, map_clone, map_new, mapping_of, resolve_table_name, table_name_of};
use crate::sql::{
    ExprV, JoinPlan, PlanV, SelectPlan, SqlExpr, SqlKeyword, SqlValue, TableName, ValueV, copy_value,
    exprs_view, joins_view, plan_text, render_postgres, values_view,
};

verus! {

/// Thresholds of the rewrite rules.
#[derive(Debug, Clone, Copy, PartialEq, Eq, Structural)]
pub struct OptimizationConfig {
    /// Least number of equalities in an OR chain that becomes one `IN`.
    pub max_or_conditions_for_in: usize,
    /// Largest `IN` list kept whole; longer ones are split into chunks.
    pub max_in_values: usize,
}

impl Default for OptimizationConfig {
    fn default() -> (r: OptimizationConfig)
        ensures
            r.max_or_conditions_for_in == 5,
            r.max_in_values == 1000,
    {
        OptimizationConfig { max_or_conditions_for_in: 5, max_in_values: 1000 }
    }
}

/// Settings of the batch planner.
#[derive(Debug, Clone, Copy, PartialEq, Eq, Structural)]
pub struct BatchConfig {
    /// Largest `IN` list compiled into one statement.
    pub max_batch_size: usize,
    /// Whether oversized `IN` lists are split over several statements.
    pub enable_batch_processing: bool,
}

impl Default for BatchConfig {
    fn default() -> (r: BatchConfig)
        ensures
            r.max_batch_size == 500,
            r.enable_batch_processing,
    {
        BatchConfig { max_batch_size: 500, enable_batch_processing: true }
    }
}

/// A compile error.
#[derive(Debug, Clone, PartialEq)]
pub struct CompileError {
    pub message: String,
}

impl CompileError {
    pub fn new(message: String) -> (r: CompileError)
        ensures
            r.message == message,
    {
        CompileError { message }
    }
}

/// A rewrite applied while compiling.
#[derive(Debug, Clone, PartialEq)]
pub enum Optimization {
    /// A chain of equalities on `field` became one `IN` of `value_count` values.
    OrToIn { field: String, value_count: usize },
    /// An `IN` of `total_values` values became `union_count` chunks joined by `OR`.
    InToUnion { field: String, total_values: usize, union_count: usize },
    /// Reserved: no rule produces it.
    ConditionSimplification { original: String, simplified: String },
    /// Reserved: no rule produces it.
    RedundantConditionRemoval { removed_condition: String },
}

/// The mathematical value of an `Optimization`.
pub enum OptV {
    OrToIn(Seq<char>, nat),
    InToUnion(Seq<char>, nat, nat),
    ConditionSimplification(Seq<char>, Seq<char>),
    RedundantConditionRemoval(Seq<char>),
}

impl View for Optimization {
    type V = OptV;

    open spec fn view(&self) -> OptV {
        match self {
            Optimization::OrToIn { field, value_count } => OptV::OrToIn(field@, *value_count as nat),
            Optimization::InToUnion { field, total_values, union_count } => OptV::InToUnion(
                field@,
                *total_values as nat,
                *union_count as nat,
            ),
            Optimization::ConditionSimplification { original, simplified } =>
                OptV::ConditionSimplification(original@, simplified@),
            Optimization::RedundantConditionRemoval { removed_condition } =>
                OptV::RedundantConditionRemoval(removed_condition@),
        }
    }
}

pub open spec fn opts_view(v: Seq<Optimization>) -> Seq<OptV> {
    v.map_values(|o: Optimization| o@)
}

/// The SQL value of a literal. The date keywords become date arithmetic on
/// `CURRENT_DATE` and the current-user keyword the session user, both as
/// expressions; any other date is text.
pub open spec fn literal_value(l: LitV) -> ValueV {
    match l {
        LitV::Text(s) => ValueV::Text(s),
        LitV::Number(n) => ValueV::BigInt(n),
        LitV::Date(d) => if d == "today"@ {
            ValueV::Keyword(SqlKeyword::CurrentDate)
        } else if d == "yesterday"@ {
            ValueV::Keyword(SqlKeyword::Yesterday)
        } else if d == "tomorrow"@ {
            ValueV::Keyword(SqlKeyword::Tomorrow)
        } else {
            ValueV::Text(d)
        },
        LitV::CurrentUser => ValueV::Keyword(SqlKeyword::CurrentUser),
    }
}

pub open spec fn literal_values(ls: Seq<LitV>) -> Seq<ValueV> {
    ls.map_values(|l: LitV| literal_value(l))
}

/// The values of a chain of `OR` and groups whose leaves are all
/// equalities, left to right; `None` as soon as any other node occurs.
pub open spec fn eq_values(c: CondV) -> Option<Seq<LitV>>
    decreases c,
{
    match c {
        CondV::Comparison(CompOp::Eq, v) => Some(seq![v]),
        CondV::Or(l, r) => match (eq_values(*l), eq_values(*r)) {
            (Some(a), Some(b)) => Some(a + b),
            _ => None,
        },
        CondV::Grouped(i) => eq_values(*i),
        _ => None,
    }
}

pub open spec fn min(a: int, b: int) -> int {
    if a <= b {
        a
    } else {
        b
    }
}

/// `acc` extended, chunk by chunk from index `i`, with `OR` of one `IN` per
/// chunk of `size` values.
pub open spec fn chunks_from(col: Seq<char>, vs: Seq<ValueV>, size: int, i: int, acc: ExprV) -> ExprV
    decreases vs.len() - i,
{
    if size <= 0 || i < 0 || i >= vs.len() {
        acc
    } else {
        let e = min(i + size, vs.len() as int);
        chunks_from(
            col,
            vs,
            size,
            e,
            ExprV::Or(Box::new(acc), Box::new(ExprV::InList(col, vs.subrange(i, e)))),
        )
    }
}

/// The `OR`, left to right, of one `IN` per chunk of `size` values.
pub open spec fn chunked_in(col: Seq<char>, vs: Seq<ValueV>, size: int) -> ExprV {
    let e = min(size, vs.len() as int);
    chunks_from(col, vs, size, e, ExprV::InList(col, vs.subrange(0, e)))
}

/// Number of chunks of `size` in `n` values, rounded up.
pub open spec fn ceil_div(n: int, size: int) -> int {
    (n + size - 1) / size
}

/// What compiling a condition on column `col` gives: the predicate and the
/// log of rewrites, in traversal order.
pub open spec fn compile_spec(col: Seq<char>, c: CondV, cfg: OptimizationConfig) -> (
    ExprV,
    Seq<OptV>,
)
    decreases c,
{
    match c {
        CondV::Comparison(op, v) => (ExprV::Compare(col, op, literal_value(v)), seq![]),
        CondV::And(l, r) => {
            let (a, la) = compile_spec(col, *l, cfg);
            let (b, lb) = compile_spec(col, *r, cfg);
            (ExprV::And(Box::new(a), Box::new(b)), la + lb)
        },
        CondV::Or(l, r) => match eq_values(c) {
            Some(vs) if vs.len() >= cfg.max_or_conditions_for_in => (
                ExprV::InList(col, literal_values(vs)),
                seq![OptV::OrToIn(col, vs.len())],
            ),
            _ => {
                let (a, la) = compile_spec(col, *l, cfg);
                let (b, lb) = compile_spec(col, *r, cfg);
                (ExprV::Or(Box::new(a), Box::new(b)), la + lb)
            },
        },
        CondV::Not(i) => {
            let (a, la) = compile_spec(col, *i, cfg);
            (ExprV::Not(Box::new(a)), la)
        },
        CondV::Grouped(i) => compile_spec(col, *i, cfg),
        CondV::In(ls) => if ls.len() > cfg.max_in_values {
            (
                chunked_in(col, literal_values(ls), cfg.max_in_values as int),
                seq![
                    OptV::InToUnion(
                        col,
                        ls.len(),
                        ceil_div(ls.len() as int, cfg.max_in_values as int) as nat,
                    ),
                ],
            )
        } else {
            (ExprV::InList(col, literal_values(ls)), seq![])
        },
        CondV::IsNull => (ExprV::IsNull(col), seq![]),
        CondV::IsNotNull => (ExprV::IsNotNull(col), seq![]),
    }
}

/// Whether two texts are equal.
pub(crate) fn same_text(a: &str, b: &str) -> (r: bool)
    ensures
        r == (a@ == b@),
{
    let n = a.unicode_len();
    if n != b.unicode_len() {
        return false;
    }
    let mut i: usize = 0;
    while i < n
        invariant
            n == a@.len(),
            n == b@.len(),
            i <= n,
            forall|k: int| 0 <= k < i ==> a@[k] == b@[k],
        decreases n - i,
    {
        if a.get_char(i) != b.get_char(i) {
            return false;
        }
        i = i + 1;
    }
    assert(a@ =~= b@);
    true
}

/// A copy of a literal.
pub fn copy_literal(l: &Literal) -> (r: Literal)
    ensures
        r@ == l@,
{
    match l {
        Literal::String(s) => Literal::String(s.clone()),
        Literal::Number(n) => Literal::Number(*n),
        Literal::Date(d) => Literal::Date(d.clone()),
        Literal::CurrentUser => Literal::CurrentUser,
    }
}

/// The SQL value of a literal.
pub fn literal_to_value(literal: &Literal) -> (r: SqlValue)
    ensures
        r@ == literal_value(literal@),
{
    match literal {
        Literal::String(s) => SqlValue::Text(s.clone()),
        Literal::Number(n) => SqlValue::BigInt(*n),
        Literal::Date(d) => {
            if same_text(d.as_str(), "today") {
                SqlValue::Keyword(SqlKeyword::CurrentDate)
            } else if same_text(d.as_str(), "yesterday") {
                SqlValue::Keyword(SqlKeyword::Yesterday)
            } else if same_text(d.as_str(), "tomorrow") {
                SqlValue::Keyword(SqlKeyword::Tomorrow)
            } else {
                SqlValue::Text(d.clone())
            }
        },
        Literal::CurrentUser => SqlValue::Keyword(SqlKeyword::CurrentUser),
    }
}

/// The SQL values of a list of literals.
fn literals_to_values(ls: &Vec<Literal>) -> (r: Vec<SqlValue>)
    ensures
        values_view(r@) == literal_values(lits_view(ls@)),
{
    let mut out: Vec<SqlValue> = Vec::new();
    let mut i: usize = 0;
    while i < ls.len()
        invariant
            i <= ls@.len(),
            values_view(out@) == literal_values(lits_view(ls@.take(i as int))),
        decreases ls@.len() - i,
    {
        let v = literal_to_value(&ls[i]);
        let ghost before = out@;
        out.push(v);
        proof {
            assert(ls@.take(i + 1) =~= ls@.take(i as int).push(ls@[i as int]));
            assert(values_view(out@) =~= values_view(before).push(v@));
            assert(literal_values(lits_view(ls@.take(i + 1))) =~= literal_values(
                lits_view(ls@.take(i as int)),
            ).push(literal_value(ls@[i as int]@)));
        }
        i = i + 1;
    }
    assert(ls@.take(ls@.len() as int) =~= ls@);
    out
}

/// Appends the values of an equality chain to `values`; `false`, with
/// `values` then unspecified, where the chain holds any other node.
fn collect_equality_values(condition: &Condition, values: &mut Vec<Literal>) -> (ok: bool)
    ensures
        ok == (eq_values(condition@) is Some),
        ok ==> lits_view(final(values)@) == lits_view(old(values)@) + eq_values(condition@)->0,
    decreases condition,
{
    match condition {
        Condition::Comparison { op: CompOp::Eq, value } => {
            let ghost before = values@;
            values.push(copy_literal(value));
            assert(lits_view(values@) =~= lits_view(before) + seq![value@]);
            true
        },
        Condition::Comparison { .. } => false,
        Condition::Or(l, r) => {
            let ghost before = lits_view(values@);
            if !collect_equality_values(l, values) {
                return false;
            }
            let ghost mid = lits_view(values@);
            if !collect_equality_values(r, values) {
                return false;
            }
            proof {
                let a = eq_values((**l)@)->0;
                let b = eq_values((**r)@)->0;
                assert(before + (a + b) =~= (before + a) + b);
            }
            true
        },
        Condition::Grouped(inner) => collect_equality_values(inner, values),
        _ => false,
    }
}

/// An `IN` over one chunk of values.
fn in_list_of(column: &str, values: &Vec<SqlValue>, from: usize, to: usize) -> (r: SqlExpr)
    requires
        from <= to <= values@.len(),
    ensures
        r@ == ExprV::InList(column@, values_view(values@).subrange(from as int, to as int)),
{
    let mut chunk: Vec<SqlValue> = Vec::new();
    let mut i: usize = from;
    while i < to
        invariant
            from <= i <= to <= values@.len(),
            values_view(chunk@) == values_view(values@).subrange(from as int, i as int),
        decreases to - i,
    {
        let ghost before = chunk@;
        chunk.push(copy_value(&values[i]));
        proof {
            assert(values_view(chunk@) =~= values_view(before).push(values@[i as int]@));
            assert(values_view(values@).subrange(from as int, i + 1) =~= values_view(
                values@,
            ).subrange(from as int, i as int).push(values@[i as int]@));
        }
        i = i + 1;
    }
    SqlExpr::InList { column: String::from_str(column), values: chunk }
}

/// Splits an oversized `IN` into chunks of `max_in_values` joined by `OR`.
pub fn split_large_in_to_union(field: &str, values: &Vec<SqlValue>, config: &OptimizationConfig) -> (r: (
    SqlExpr,
    Optimization,
))
    requires
        0 < config.max_in_values < values@.len(),
    ensures
        r.0@ == chunked_in(field@, values_view(values@), config.max_in_values as int),
        r.1@ == OptV::InToUnion(
            field@,
            values@.len(),
            ceil_div(values@.len() as int, config.max_in_values as int) as nat,
        ),
{
    let size = config.max_in_values;
    let n = values.len();
    let ghost col = field@;
    let ghost vs = values_view(values@);
    let mut acc = in_list_of(field, values, 0, size);
    let mut start: usize = size;
    let mut count: usize = 1;
    assert(chunked_in(col, vs, size as int) == chunks_from(col, vs, size as int, size as int, acc@));
    while start < n
        invariant
            0 < size < n,
            n == values@.len(),
            vs == values_view(values@),
            col == field@,
            start == min(count * size, n as int),
            count >= 1,
            (count - 1) * size < n,
            chunked_in(col, vs, size as int) == chunks_from(col, vs, size as int, start as int, acc@),
        decreases n - start,
    {
        let end = if n - start < size { n } else { start + size };
        let chunk = in_list_of(field, values, start, end);
        acc = SqlExpr::Or(Box::new(acc), Box::new(chunk));
        proof {
            assert((count + 1) * size == count * size + size) by (nonlinear_arith);
            assert(count < n) by (nonlinear_arith)
                requires
                    count * size < n,
                    size >= 1,
            ;
        }
        count = count + 1;
        start = end;
    }
    proof {
        assert(count == ceil_div(n as int, size as int)) by (nonlinear_arith)
            requires
                count * size >= n,
                (count - 1) * size < n,
                size > 0,
        ;
    }
    let opt = Optimization::InToUnion { field: String::from_str(field), total_values: n, union_count: count };
    (acc, opt)
}


/// The conjunction, grouped to the left, of the expressions; true if none.
pub open spec fn and_all(es: Seq<ExprV>) -> ExprV
    decreases es.len(),
{
    if es.len() == 0 {
        ExprV::Const(true)
    } else if es.len() == 1 {
        es[0]
    } else {
        ExprV::And(Box::new(and_all(es.drop_last())), Box::new(es.last()))
    }
}

/// What compiling field filters gives, each on the column `prefix` + field:
/// one predicate per filter and the logs one after the other.
pub open spec fn compile_filters_spec(
    prefix: Seq<char>,
    fs: Seq<FieldFilterV>,
    cfg: OptimizationConfig,
) -> (Seq<ExprV>, Seq<OptV>)
    decreases fs.len(),
{
    if fs.len() == 0 {
        (seq![], seq![])
    } else {
        let (es, ls) = compile_filters_spec(prefix, fs.drop_last(), cfg);
        let (e, l) = compile_spec(prefix + fs.last().field, fs.last().condition, cfg);
        (es.push(e), ls + l)
    }
}

pub open spec fn digit_char(d: int) -> char {
    seq!['0', '1', '2', '3', '4', '5', '6', '7', '8', '9'][d]
}

/// Decimal digits of a number.
pub open spec fn decimal(n: nat) -> Seq<char>
    decreases n,
{
    if n < 10 {
        seq![digit_char(n as int)]
    } else {
        decimal(n / 10).push(digit_char((n % 10) as int))
    }
}

/// The alias of the `n`-th joined table, counting from 1.
pub open spec fn alias_name(n: nat) -> Seq<char> {
    "joined_table_"@ + decimal(n)
}

/// The `WHERE` contribution and log of the base filters, on columns of `table`.
pub open spec fn base_part(q: QueryV, table: Seq<char>, cfg: OptimizationConfig) -> (
    Seq<ExprV>,
    Seq<OptV>,
) {
    if q.base.len() == 0 {
        (seq![], seq![])
    } else {
        let (es, ls) = compile_filters_spec(table + "."@, q.base, cfg);
        (seq![and_all(es)], ls)
    }
}

/// The `WHERE` contributions and logs of cross filters, one each, on columns
/// of their aliases.
pub open spec fn cross_parts(cs: Seq<CrossFilterV>, cfg: OptimizationConfig) -> (
    Seq<ExprV>,
    Seq<OptV>,
)
    decreases cs.len(),
{
    if cs.len() == 0 {
        (seq![], seq![])
    } else {
        let (es, ls) = cross_parts(cs.drop_last(), cfg);
        let (fe, fl) = compile_filters_spec(
            alias_name(cs.len()) + "."@,
            cs.last().filters,
            cfg,
        );
        (es.push(and_all(fe)), ls + fl)
    }
}

/// One join per cross filter: its target's table under its alias.
pub open spec fn joins_spec(cs: Seq<CrossFilterV>, m: Map<Seq<char>, Seq<char>>) -> Seq<
    (Seq<char>, Seq<char>),
> {
    Seq::new(cs.len(), |k: int| (table_name_of(m, cs[k].target), alias_name((k + 1) as nat)))
}

/// The statement that a query compiles to.
pub open spec fn plan_spec(
    q: QueryV,
    entity: Seq<char>,
    m: Map<Seq<char>, Seq<char>>,
    cfg: OptimizationConfig,
) -> PlanV {
    let table = table_name_of(m, entity);
    PlanV {
        table,
        joins: joins_spec(q.cross, m),
        conditions: base_part(q, table, cfg).0 + cross_parts(q.cross, cfg).0,
    }
}

/// The log of compiling a query: base filters first, then cross filters.
pub open spec fn log_spec(
    q: QueryV,
    entity: Seq<char>,
    m: Map<Seq<char>, Seq<char>>,
    cfg: OptimizationConfig,
) -> Seq<OptV> {
    base_part(q, table_name_of(m, entity), cfg).1 + cross_parts(q.cross, cfg).1
}

fn digit_text(d: usize) -> (r: &'static str)
    requires
        d < 10,
    ensures
        r@ == seq![digit_char(d as int)],
{
    if d == 0 {
        proof { reveal_strlit("0"); }
        assert("0"@ =~= seq!['0']);
        "0"
    } else if d == 1 {
        proof { reveal_strlit("1"); }
        assert("1"@ =~= seq!['1']);
        "1"
    } else if d == 2 {
        proof { reveal_strlit("2"); }
        assert("2"@ =~= seq!['2']);
        "2"
    } else if d == 3 {
        proof { reveal_strlit("3"); }
        assert("3"@ =~= seq!['3']);
        "3"
    } else if d == 4 {
        proof { reveal_strlit("4"); }
        assert("4"@ =~= seq!['4']);
        "4"
    } else if d == 5 {
        proof { reveal_strlit("5"); }
        assert("5"@ =~= seq!['5']);
        "5"
    } else if d == 6 {
        proof { reveal_strlit("6"); }
        assert("6"@ =~= seq!['6']);
        "6"
    } else if d == 7 {
        proof { reveal_strlit("7"); }
        assert("7"@ =~= seq!['7']);
        "7"
    } else if d == 8 {
        proof { reveal_strlit("8"); }
        assert("8"@ =~= seq!['8']);
        "8"
    } else {
        proof { reveal_strlit("9"); }
        assert("9"@ =~= seq!['9']);
        "9"
    }
}

/// The decimal text of a number.
fn decimal_text(n: usize) -> (r: String)
    ensures
        r@ == decimal(n as nat),
    decreases n,
{
    if n < 10 {
        String::from_str(digit_text(n))
    } else {
        let mut s = decimal_text(n / 10);
        s.append(digit_text(n % 10));
        s
    }
}

/// The alias of the `n`-th joined table.
fn alias_text(n: usize) -> (r: String)
    ensures
        r@ == alias_name(n as nat),
{
    let mut s = String::from_str("joined_table_");
    let d = decimal_text(n);
    s.append(d.as_str());
    s
}

/// `prefix` followed by a dot.
fn dotted(prefix: &str) -> (r: String)
    ensures
        r@ == prefix@ + "."@,
{
    let mut s = String::from_str(prefix);
    s.append(".");
    s
}

/// Result of compiling a query into one statement.
#[derive(Debug)]
pub struct CompileResult {
    /// The statement as PostgreSQL text.
    pub sql: String,
    /// The rewrites applied, in traversal order.
    pub optimizations: Vec<Optimization>,
    /// The statement that the text renders.
    pub plan: SelectPlan,
}

/// Holds the rewrite thresholds used when compiling.
#[derive(Debug, Clone)]
pub struct DefaultQueryOptimizer {
    config: OptimizationConfig,
}

impl DefaultQueryOptimizer {
    pub fn new() -> (r: DefaultQueryOptimizer)
        ensures
            r.thresholds() == (OptimizationConfig {
                max_or_conditions_for_in: 5,
                max_in_values: 1000,
            }),
    {
        DefaultQueryOptimizer { config: OptimizationConfig::default() }
    }

    pub fn with_config(config: OptimizationConfig) -> (r: DefaultQueryOptimizer)
        ensures
            r.thresholds() == config,
    {
        DefaultQueryOptimizer { config }
    }

    pub closed spec fn thresholds(&self) -> OptimizationConfig {
        self.config
    }

    /// The thresholds in use.
    pub fn optimization_config(&self) -> (r: &OptimizationConfig)
        ensures
            *r == self.thresholds(),
    {
        &self.config
    }

    /// Rewrites applied to a query before compiling: none, since every rule
    /// is applied while compiling.
    pub fn optimize(&self, query: &mut Query) -> (r: Vec<Optimization>)
        ensures
            r@.len() == 0,
            *final(query) == *old(query),
    {
        Vec::new()
    }

    pub fn set_optimization_config(&mut self, config: OptimizationConfig)
        ensures
            final(self).thresholds() == config,
    {
        self.config = config;
    }
}

/// Holds the batch planner's settings.
#[derive(Debug, Clone)]
pub struct DefaultBatchProcessor {
    config: BatchConfig,
}

impl DefaultBatchProcessor {
    pub fn new() -> (r: DefaultBatchProcessor)
        ensures
            r.batch_config() == (BatchConfig { max_batch_size: 500, enable_batch_processing: true }),
    {
        DefaultBatchProcessor { config: BatchConfig::default() }
    }

    pub fn with_config(config: BatchConfig) -> (r: DefaultBatchProcessor)
        ensures
            r.batch_config() == config,
    {
        DefaultBatchProcessor { config }
    }

    pub closed spec fn batch_config(&self) -> BatchConfig {
        self.config
    }

    /// The settings in use.
    pub fn config(&self) -> (r: &BatchConfig)
        ensures
            *r == self.batch_config(),
    {
        &self.config
    }
}

/// Resolves entity names to table names.
#[derive(Debug, Clone)]
pub struct DefaultTableMapper {
    mappings: NameMap,
}

impl DefaultTableMapper {
    pub fn new() -> (r: DefaultTableMapper)
        ensures
            r.mapping() =~= Map::empty(),
    {
        DefaultTableMapper { mappings: map_new() }
    }

    pub fn with_mappings(mappings: NameMap) -> (r: DefaultTableMapper)
        ensures
            r.mapping() == mapping_of(mappings),
    {
        DefaultTableMapper { mappings }
    }

    /// The explicit entries.
    pub closed spec fn mapping(&self) -> Map<Seq<char>, Seq<char>> {
        mapping_of(self.mappings)
    }

    /// The table of an entity: its mapped name, else its name in lower case.
    pub fn get_table_name(&self, entity: &str) -> (r: String)
        ensures
            r@ == table_name_of(self.mapping(), entity@),
    {
        resolve_table_name(&self.mappings, entity)
    }

    /// Replaces all entries.
    pub fn set_table_mapping(&mut self, mapping: NameMap)
        ensures
            final(self).mapping() == mapping_of(mapping),
    {
        self.mappings = mapping;
    }
}

/// The SQL dialects a compiler may target.
#[derive(Debug, Clone, Copy, PartialEq, Eq, Structural)]
pub enum SqlDialect {
    PostgreSQL,
    MySQL,
    SQLite,
    MsSQL,
    Oracle,
}

/// Everything a compiler is built from.
#[derive(Debug, Clone)]
pub struct CompilerConfig {
    pub optimization_config: OptimizationConfig,
    pub batch_config: BatchConfig,
    pub table_mapping: NameMap,
    pub dialect: SqlDialect,
}

impl Default for CompilerConfig {
    fn default() -> (r: CompilerConfig)
        ensures
            r.optimization_config == (OptimizationConfig {
                max_or_conditions_for_in: 5,
                max_in_values: 1000,
            }),
            r.batch_config == (BatchConfig { max_batch_size: 500, enable_batch_processing: true }),
            mapping_of(r.table_mapping) =~= Map::empty(),
            r.dialect == SqlDialect::PostgreSQL,
    {
        CompilerConfig {
            optimization_config: OptimizationConfig::default(),
            batch_config: BatchConfig::default(),
            table_mapping: map_new(),
            dialect: SqlDialect::PostgreSQL,
        }
    }
}

/// The compiler: rewrite thresholds, batch settings and table mapping.
pub struct SqlCompiler {
    optimizer: DefaultQueryOptimizer,
    batch_processor: DefaultBatchProcessor,
    table_mapper: DefaultTableMapper,
}

impl SqlCompiler {
    pub fn new() -> (r: SqlCompiler)
        ensures
            r.opt_config() == (OptimizationConfig { max_or_conditions_for_in: 5, max_in_values: 1000 }),
            r.batch_config() == (BatchConfig { max_batch_size: 500, enable_batch_processing: true }),
            r.mapping() =~= Map::empty(),
    {
        SqlCompiler {
            optimizer: DefaultQueryOptimizer::new(),
            batch_processor: DefaultBatchProcessor::new(),
            table_mapper: DefaultTableMapper::new(),
        }
    }

    pub fn from_config(config: CompilerConfig) -> (r: SqlCompiler)
        ensures
            r.opt_config() == config.optimization_config,
            r.batch_config() == config.batch_config,
            r.mapping() == mapping_of(config.table_mapping),
    {
        SqlCompiler {
            optimizer: DefaultQueryOptimizer::with_config(config.optimization_config),
            batch_processor: DefaultBatchProcessor::with_config(config.batch_config),
            table_mapper: DefaultTableMapper::with_mappings(config.table_mapping),
        }
    }

    pub closed spec fn opt_config(&self) -> OptimizationConfig {
        self.optimizer.thresholds()
    }

    pub closed spec fn batch_config(&self) -> BatchConfig {
        self.batch_processor.batch_config()
    }

    pub closed spec fn mapping(&self) -> Map<Seq<char>, Seq<char>> {
        self.table_mapper.mapping()
    }

    pub fn optimizer(&self) -> (r: &DefaultQueryOptimizer)
        ensures
            r.thresholds() == self.opt_config(),
    {
        &self.optimizer
    }

    pub fn batch_processor(&self) -> (r: &DefaultBatchProcessor)
        ensures
            r.batch_config() == self.batch_config(),
    {
        &self.batch_processor
    }

    pub fn table_mapper(&self) -> (r: &DefaultTableMapper)
        ensures
            r.mapping() == self.mapping(),
    {
        &self.table_mapper
    }

    pub fn optimizer_mut(&mut self) -> (r: &mut DefaultQueryOptimizer)
        ensures
            r.thresholds() == old(self).opt_config(),
            final(self).batch_config() == old(self).batch_config(),
            final(self).mapping() == old(self).mapping(),
            final(self).opt_config() == final(r).thresholds(),
    {
        &mut self.optimizer
    }

    pub fn batch_processor_mut(&mut self) -> (r: &mut DefaultBatchProcessor)
        ensures
            r.batch_config() == old(self).batch_config(),
            final(self).opt_config() == old(self).opt_config(),
            final(self).mapping() == old(self).mapping(),
            final(self).batch_config() == final(r).batch_config(),
    {
        &mut self.batch_processor
    }

    pub fn table_mapper_mut(&mut self) -> (r: &mut DefaultTableMapper)
        ensures
            r.mapping() == old(self).mapping(),
            final(self).opt_config() == old(self).opt_config(),
            final(self).batch_config() == old(self).batch_config(),
            final(self).mapping() == final(r).mapping(),
    {
        &mut self.table_mapper
    }

    fn compile_comparison(&self, field: &str, op: CompOp, value: &Literal) -> (r: Result<
        SqlExpr,
        CompileError,
    >)
        ensures
            r matches Ok(e) && e@ == ExprV::Compare(field@, op, literal_value(value@)),
    {
        let v = literal_to_value(value);
        Ok(SqlExpr::Compare { column: String::from_str(field), op, value: v })
    }

    /// The equality values of an `OR` chain, if it holds nothing else.
    fn extract_equality_values_from_or(&self, condition: &Condition) -> (r: Option<Vec<Literal>>)
        ensures
            match eq_values(condition@) {
                Some(vs) => r matches Some(v) && lits_view(v@) == vs,
                None => r is None,
            },
    {
        let mut values: Vec<Literal> = Vec::new();
        if collect_equality_values(condition, &mut values) {
            assert(lits_view(Seq::<Literal>::empty()) =~= Seq::<LitV>::empty());
            assert(Seq::<LitV>::empty() + eq_values(condition@)->0 =~= eq_values(condition@)->0);
            Some(values)
        } else {
            None
        }
    }

    /// The OR-to-IN rewrite of an `OR` node, where it applies.
    fn try_optimize_or_to_in(&self, field: &str, condition: &Condition) -> (r: Result<
        Option<(SqlExpr, Optimization)>,
        CompileError,
    >)
        ensures
            match eq_values(condition@) {
                Some(vs) if vs.len() >= self.opt_config().max_or_conditions_for_in => r matches Ok(
                    Some((e, o)),
                ) && e@ == ExprV::InList(field@, literal_values(vs)) && o@ == OptV::OrToIn(
                    field@,
                    vs.len(),
                ),
                _ => r matches Ok(None),
            },
    {
        match self.extract_equality_values_from_or(condition) {
            Some(values) => {
                if values.len() >= self.optimizer.config.max_or_conditions_for_in {
                    let in_values = literals_to_values(&values);
                    let e = SqlExpr::InList { column: String::from_str(field), values: in_values };
                    let o = Optimization::OrToIn {
                        field: String::from_str(field),
                        value_count: values.len(),
                    };
                    Ok(Some((e, o)))
                } else {
                    Ok(None)
                }
            },
            None => Ok(None),
        }
    }

    /// Compiles a condition on column `field`, applying the rewrite rules.
    fn compile_condition(&self, field: &str, condition: &Condition) -> (r: Result<
        (SqlExpr, Vec<Optimization>),
        CompileError,
    >)
        requires
            self.opt_config().max_in_values > 0,
        ensures
            r matches Ok((e, log)) && (e@, opts_view(log@)) == compile_spec(
                field@,
                condition@,
                self.opt_config(),
            ),
        decreases condition,
    {
        let ghost cfg = self.opt_config();
        match condition {
            Condition::Comparison { op, value } => {
                let e = self.compile_comparison(field, *op, value)?;
                let log: Vec<Optimization> = Vec::new();
                assert(opts_view(log@) =~= Seq::<OptV>::empty());
                Ok((e, log))
            },
            Condition::And(l, r) => {
                let (a, mut la) = self.compile_condition(field, l)?;
                let (b, mut lb) = self.compile_condition(field, r)?;
                let ghost (va, vb) = (opts_view(la@), opts_view(lb@));
                la.append(&mut lb);
                assert(opts_view(la@) =~= va + vb);
                Ok((SqlExpr::And(Box::new(a), Box::new(b)), la))
            },
            Condition::Or(l, r) => {
                match self.try_optimize_or_to_in(field, condition)? {
                    Some((e, o)) => {
                        let log = vec![o];
                        assert(opts_view(log@) =~= seq![o@]);
                        Ok((e, log))
                    },
                    None => {
                        let (a, mut la) = self.compile_condition(field, l)?;
                        let (b, mut lb) = self.compile_condition(field, r)?;
                        let ghost (va, vb) = (opts_view(la@), opts_view(lb@));
                        la.append(&mut lb);
                        assert(opts_view(la@) =~= va + vb);
                        Ok((SqlExpr::Or(Box::new(a), Box::new(b)), la))
                    },
                }
            },
            Condition::Not(inner) => {
                let (a, la) = self.compile_condition(field, inner)?;
                Ok((SqlExpr::Not(Box::new(a)), la))
            },
            Condition::Grouped(inner) => self.compile_condition(field, inner),
            Condition::In(values) => {
                let in_values = literals_to_values(values);
                if in_values.len() > self.optimizer.config.max_in_values {
                    let (e, o) = split_large_in_to_union(field, &in_values, &self.optimizer.config);
                    let log = vec![o];
                    assert(opts_view(log@) =~= seq![o@]);
                    Ok((e, log))
                } else {
                    let log: Vec<Optimization> = Vec::new();
                    assert(opts_view(log@) =~= Seq::<OptV>::empty());
                    Ok((SqlExpr::InList { column: String::from_str(field), values: in_values }, log))
                }
            },
            Condition::IsNull => {
                let log: Vec<Optimization> = Vec::new();
                assert(opts_view(log@) =~= Seq::<OptV>::empty());
                Ok((SqlExpr::IsNull { column: String::from_str(field) }, log))
            },
            Condition::IsNotNull => {
                let log: Vec<Optimization> = Vec::new();
                assert(opts_view(log@) =~= Seq::<OptV>::empty());
                Ok((SqlExpr::IsNotNull { column: String::from_str(field) }, log))
            },
        }
    }

    /// The conjunction, grouped to the left, of the conditions; true if none.
    fn combine_conditions_with_and(&self, conditions: Vec<SqlExpr>) -> (r: SqlExpr)
        ensures
            r@ == and_all(exprs_view(conditions@)),
    {
        let ghost all = exprs_view(conditions@);
        let mut rest = conditions;
        if rest.len() == 0 {
            return SqlExpr::Const(true);
        }
        let mut acc = rest.remove(0);
        let ghost mut k: int = 1;
        proof {
            assert(all.take(1).drop_last() =~= Seq::<ExprV>::empty());
            assert(and_all(all.take(1)) == all[0]);
            assert(exprs_view(rest@) =~= all.skip(1));
        }
        while rest.len() > 0
            invariant
                1 <= k <= all.len(),
                rest@.len() == all.len() - k,
                exprs_view(rest@) == all.skip(k),
                acc@ == and_all(all.take(k)),
            decreases rest@.len(),
        {
            let ghost before = rest@;
            assert(exprs_view(before)[0] == before[0]@);
            let next = rest.remove(0);
            proof {
                assert(next@ == all[k]);
                assert(all.take(k + 1).drop_last() =~= all.take(k));
                assert(rest@ =~= before.skip(1));
                assert(exprs_view(rest@) =~= exprs_view(before).skip(1));
                assert(all.skip(k).skip(1) =~= all.skip(k + 1));
                assert(exprs_view(rest@) =~= all.skip(k + 1));
                k = k + 1;
            }
            acc = SqlExpr::And(Box::new(acc), Box::new(next));
        }
        assert(all.take(k) =~= all);
        acc
    }

    /// Compiles each filter on the column `prefix` + its field.
    fn compile_filter_list(&self, filters: &Vec<FieldFilter>, prefix: &str) -> (r: Result<
        (Vec<SqlExpr>, Vec<Optimization>),
        CompileError,
    >)
        requires
            self.opt_config().max_in_values > 0,
        ensures
            r matches Ok((es, log)) && (exprs_view(es@), opts_view(log@)) == compile_filters_spec(
                prefix@,
                filters_view(filters@),
                self.opt_config(),
            ),
    {
        let ghost fs = filters_view(filters@);
        let mut es: Vec<SqlExpr> = Vec::new();
        let mut log: Vec<Optimization> = Vec::new();
        let mut i: usize = 0;
        assert(fs.take(0) =~= Seq::<FieldFilterV>::empty());
        while i < filters.len()
            invariant
                self.opt_config().max_in_values > 0,
                fs == filters_view(filters@),
                i <= filters@.len(),
                (exprs_view(es@), opts_view(log@)) == compile_filters_spec(
                    prefix@,
                    fs.take(i as int),
                    self.opt_config(),
                ),
            decreases filters@.len() - i,
        {
            let filter = &filters[i];
            let mut column = String::from_str(prefix);
            column.append(filter.field.0.as_str());
            let (e, mut l) = self.compile_condition(column.as_str(), &filter.condition)?;
            let ghost (ve, vl) = (exprs_view(es@), opts_view(log@));
            let ghost (ne, nl) = (e@, opts_view(l@));
            es.push(e);
            log.append(&mut l);
            proof {
                assert(fs.take(i + 1).drop_last() =~= fs.take(i as int));
                assert(fs.take(i + 1).last() == filters@[i as int]@);
                assert(exprs_view(es@) =~= ve.push(ne));
                assert(opts_view(log@) =~= vl + nl);
            }
            i = i + 1;
        }
        assert(fs.take(filters@.len() as int) =~= fs);
        Ok((es, log))
    }

    /// Compiles base filters on columns of the entity's table, joined by `AND`.
    fn compile_field_filters(&self, filters: &Vec<FieldFilter>, entity: &str) -> (r: Result<
        (SqlExpr, Vec<Optimization>),
        CompileError,
    >)
        requires
            self.opt_config().max_in_values > 0,
        ensures
            r matches Ok((e, log)) && ({
                let (es, ls) = compile_filters_spec(
                    table_name_of(self.mapping(), entity@) + "."@,
                    filters_view(filters@),
                    self.opt_config(),
                );
                e@ == and_all(es) && opts_view(log@) == ls
            }),
    {
        let table = self.table_mapper.get_table_name(entity);
        let prefix = dotted(table.as_str());
        let (es, log) = self.compile_filter_list(filters, prefix.as_str())?;
        let e = self.combine_conditions_with_and(es);
        Ok((e, log))
    }

    /// Compiles the filters of the next cross filter on columns of its alias.
    fn compile_cross_filter(&self, cross_filter: &CrossFilter, join_index: &mut usize) -> (r: Result<
        (SqlExpr, Vec<Optimization>),
        CompileError,
    >)
        requires
            self.opt_config().max_in_values > 0,
            *old(join_index) < usize::MAX,
        ensures
            *final(join_index) == *old(join_index) + 1,
            r matches Ok((e, log)) && ({
                let (es, ls) = compile_filters_spec(
                    alias_name(*final(join_index) as nat) + "."@,
                    filters_view(cross_filter.filters@),
                    self.opt_config(),
                );
                e@ == and_all(es) && opts_view(log@) == ls
            }),
    {
        *join_index = *join_index + 1;
        let alias = alias_text(*join_index);
        let prefix = dotted(alias.as_str());
        let (es, log) = self.compile_filter_list(&cross_filter.filters, prefix.as_str())?;
        let e = self.combine_conditions_with_and(es);
        Ok((e, log))
    }

    /// Compiles a query into one statement on the entity's table, with one
    /// join per cross filter.
    pub fn compile(&self, query: Query, entity: &str) -> (r: Result<CompileResult, CompileError>)
        requires
            self.opt_config().max_in_values > 0,
        ensures
            r matches Ok(res) && res.plan@ == plan_spec(
                query@,
                entity@,
                self.mapping(),
                self.opt_config(),
            ) && opts_view(res.optimizations@) == log_spec(
                query@,
                entity@,
                self.mapping(),
                self.opt_config(),
            ) && res.sql@ == plan_text(res.plan@),
    {
        self.compile_ref(&query, entity)
    }

    /// `compile` on a borrowed query.
    pub fn compile_ref(&self, query: &Query, entity: &str) -> (r: Result<CompileResult, CompileError>)
        requires
            self.opt_config().max_in_values > 0,
        ensures
            r matches Ok(res) && res.plan@ == plan_spec(
                query@,
                entity@,
                self.mapping(),
                self.opt_config(),
            ) && opts_view(res.optimizations@) == log_spec(
                query@,
                entity@,
                self.mapping(),
                self.opt_config(),
            ) && res.sql@ == plan_text(res.plan@),
    {
        let ghost q = query@;
        let ghost m = self.mapping();
        let ghost cfg = self.opt_config();
        let table = self.table_mapper.get_table_name(entity);
        let ghost tv = table@;
        let mut conditions: Vec<SqlExpr> = Vec::new();
        let mut optimizations: Vec<Optimization> = Vec::new();
        let mut joins: Vec<JoinPlan> = Vec::new();
        if query.base_filters.len() > 0 {
            let (c, log) = self.compile_field_filters(&query.base_filters, entity)?;
            conditions.push(c);
            optimizations = log;
            assert(exprs_view(conditions@) =~= base_part(q, tv, cfg).0);
        } else {
            assert(exprs_view(conditions@) =~= base_part(q, tv, cfg).0);
            assert(opts_view(optimizations@) =~= base_part(q, tv, cfg).1);
        }
        let ghost cs = q.cross;
        let mut join_index: usize = 0;
        let mut k: usize = 0;
        assert(cs.take(0) =~= Seq::<CrossFilterV>::empty());
        assert(joins_view(joins@) =~= joins_spec(cs.take(0), m));
        assert(base_part(q, tv, cfg).0 + cross_parts(cs.take(0), cfg).0 =~= base_part(q, tv, cfg).0);
        assert(base_part(q, tv, cfg).1 + cross_parts(cs.take(0), cfg).1 =~= base_part(q, tv, cfg).1);
        while k < query.cross_filters.len()
            invariant
                self.opt_config().max_in_values > 0,
                q == query@,
                cs == q.cross,
                m == self.mapping(),
                cfg == self.opt_config(),
                k <= query.cross_filters@.len(),
                cs.len() == query.cross_filters@.len(),
                joins@.len() == k,
                join_index == k,
                exprs_view(conditions@) == base_part(q, tv, cfg).0 + cross_parts(cs.take(k as int), cfg).0,
                opts_view(optimizations@) == base_part(q, tv, cfg).1 + cross_parts(cs.take(k as int), cfg).1,
                joins_view(joins@) == joins_spec(cs.take(k as int), m),
            decreases query.cross_filters@.len() - k,
        {
            let cross_filter = &query.cross_filters[k];
            let (c, mut log) = self.compile_cross_filter(cross_filter, &mut join_index)?;
            let join_table = self.table_mapper.get_table_name(cross_filter.target_entity.0.as_str());
            let alias = alias_text(join_index);
            let ghost (vc, vo, vj) = (exprs_view(conditions@), opts_view(optimizations@), joins_view(joins@));
            let ghost (nc, nl) = (c@, opts_view(log@));
            conditions.push(c);
            optimizations.append(&mut log);
            joins.push(JoinPlan { table: TableName(join_table), alias });
            proof {
                let t1 = cs.take(k + 1);
                assert(t1.drop_last() =~= cs.take(k as int));
                assert(t1.last() == cs[k as int]);
                assert(cs[k as int] == query.cross_filters@[k as int]@);
                assert(exprs_view(conditions@) =~= vc.push(nc));
                assert(opts_view(optimizations@) =~= vo + nl);
                assert(exprs_view(conditions@) =~= base_part(q, tv, cfg).0 + cross_parts(t1, cfg).0);
                assert(opts_view(optimizations@) =~= base_part(q, tv, cfg).1 + cross_parts(t1, cfg).1);
                assert forall|j: int| 0 <= j < k + 1 implies joins_view(joins@)[j] == joins_spec(
                    t1,
                    m,
                )[j] by {
                    if j < k {
                        assert(joins_view(joins@)[j] == vj[j]);
                        assert(t1[j] == cs.take(k as int)[j]);
                    }
                }
                assert(joins_view(joins@) =~= joins_spec(t1, m));
            }
            k = k + 1;
        }
        assert(cs.take(k as int) =~= cs);
        let plan = SelectPlan { table: TableName(table), joins, conditions };
        let sql = render_postgres(&plan);
        Ok(CompileResult { sql, optimizations, plan })
    }
}


/// The values of the first `IN` with more than `size` values, in pre-order.
pub open spec fn large_in_of(c: CondV, size: nat) -> Option<Seq<LitV>>
    decreases c,
{
    match c {
        CondV::In(vs) => if vs.len() > size {
            Some(vs)
        } else {
            None
        },
        CondV::And(l, r) => match large_in_of(*l, size) {
            Some(v) => Some(v),
            None => large_in_of(*r, size),
        },
        CondV::Or(l, r) => match large_in_of(*l, size) {
            Some(v) => Some(v),
            None => large_in_of(*r, size),
        },
        CondV::Not(i) => large_in_of(*i, size),
        CondV::Grouped(i) => large_in_of(*i, size),
        _ => None,
    }
}

/// The condition with the `IN` found by `large_in_of` given the values `chunk`.
pub open spec fn replace_in(c: CondV, size: nat, chunk: Seq<LitV>) -> CondV
    decreases c,
{
    match c {
        CondV::In(vs) => if vs.len() > size {
            CondV::In(chunk)
        } else {
            c
        },
        CondV::And(l, r) => if large_in_of(*l, size) is Some {
            CondV::And(Box::new(replace_in(*l, size, chunk)), r)
        } else {
            CondV::And(l, Box::new(replace_in(*r, size, chunk)))
        },
        CondV::Or(l, r) => if large_in_of(*l, size) is Some {
            CondV::Or(Box::new(replace_in(*l, size, chunk)), r)
        } else {
            CondV::Or(l, Box::new(replace_in(*r, size, chunk)))
        },
        CondV::Not(i) => CondV::Not(Box::new(replace_in(*i, size, chunk))),
        CondV::Grouped(i) => CondV::Grouped(Box::new(replace_in(*i, size, chunk))),
        _ => c,
    }
}

/// Index of the first filter from `i` on that holds an `IN` of more than
/// `size` values, or the length.
pub open spec fn first_large_filter(fs: Seq<FieldFilterV>, size: nat, i: int) -> int
    decreases fs.len() - i,
{
    if i < 0 || i >= fs.len() {
        fs.len() as int
    } else if large_in_of(fs[i].condition, size) is Some {
        i
    } else {
        first_large_filter(fs, size, i + 1)
    }
}

pub open spec fn large_in_filters(fs: Seq<FieldFilterV>, size: nat) -> Option<Seq<LitV>> {
    let p = first_large_filter(fs, size, 0);
    if p < fs.len() {
        large_in_of(fs[p].condition, size)
    } else {
        None
    }
}

pub open spec fn replace_filters(fs: Seq<FieldFilterV>, size: nat, chunk: Seq<LitV>) -> Seq<
    FieldFilterV,
> {
    let p = first_large_filter(fs, size, 0);
    Seq::new(
        fs.len(),
        |j: int|
            if j == p {
                FieldFilterV { field: fs[j].field, condition: replace_in(fs[j].condition, size, chunk) }
            } else {
                fs[j]
            },
    )
}

/// Index of the first cross filter from `i` on that holds an oversized `IN`.
pub open spec fn first_large_cross(cs: Seq<CrossFilterV>, size: nat, i: int) -> int
    decreases cs.len() - i,
{
    if i < 0 || i >= cs.len() {
        cs.len() as int
    } else if large_in_filters(cs[i].filters, size) is Some {
        i
    } else {
        first_large_cross(cs, size, i + 1)
    }
}

pub open spec fn large_in_crosses(cs: Seq<CrossFilterV>, size: nat) -> Option<Seq<LitV>> {
    let p = first_large_cross(cs, size, 0);
    if p < cs.len() {
        large_in_filters(cs[p].filters, size)
    } else {
        None
    }
}

pub open spec fn replace_crosses(cs: Seq<CrossFilterV>, size: nat, chunk: Seq<LitV>) -> Seq<
    CrossFilterV,
> {
    let p = first_large_cross(cs, size, 0);
    Seq::new(
        cs.len(),
        |j: int|
            if j == p {
                CrossFilterV {
                    source: cs[j].source,
                    target: cs[j].target,
                    filters: replace_filters(cs[j].filters, size, chunk),
                }
            } else {
                cs[j]
            },
    )
}

/// The values of the first `IN` of more than `size` values in a query:
/// base filters first, then cross filters, each left to right.
pub open spec fn large_in_query(q: QueryV, size: nat) -> Option<Seq<LitV>> {
    match large_in_filters(q.base, size) {
        Some(v) => Some(v),
        None => large_in_crosses(q.cross, size),
    }
}

/// The query with the `IN` found by `large_in_query` given the values `chunk`.
pub open spec fn replace_query(q: QueryV, size: nat, chunk: Seq<LitV>) -> QueryV {
    if large_in_filters(q.base, size) is Some {
        QueryV { base: replace_filters(q.base, size, chunk), cross: q.cross }
    } else {
        QueryV { base: q.base, cross: replace_crosses(q.cross, size, chunk) }
    }
}

/// The `k`-th chunk of `size` values.
pub open spec fn chunk_at(vs: Seq<LitV>, size: nat, k: int) -> Seq<LitV> {
    vs.subrange(k * size, min((k + 1) * size, vs.len() as int))
}

/// The logs one after the other.
pub open spec fn concat_logs(ls: Seq<Seq<OptV>>) -> Seq<OptV>
    decreases ls.len(),
{
    if ls.len() == 0 {
        seq![]
    } else {
        concat_logs(ls.drop_last()) + ls.last()
    }
}

/// The value of a batch result: statements, merged log, estimated rows.
pub struct BatchV {
    pub plans: Seq<PlanV>,
    pub log: Seq<OptV>,
    pub rows: Option<nat>,
}

/// What the batch planner gives. Without an `IN` of more than
/// `max_batch_size` values, or with batching off, one statement as
/// `compile` makes it. Else one statement per chunk of that `IN`'s values,
/// with the chunk in its place, the logs merged in chunk order and one
/// closing `InToUnion` entry for the batch, and an estimate of
/// statements times batch size rows.
pub open spec fn batch_spec(
    q: QueryV,
    entity: Seq<char>,
    m: Map<Seq<char>, Seq<char>>,
    cfg: OptimizationConfig,
    bcfg: BatchConfig,
) -> BatchV {
    let size = bcfg.max_batch_size as nat;
    let found = if bcfg.enable_batch_processing {
        large_in_query(q, size)
    } else {
        None
    };
    match found {
        None => BatchV { plans: seq![plan_spec(q, entity, m, cfg)], log: log_spec(q, entity, m, cfg), rows: None },
        Some(vs) => {
            let n = ceil_div(vs.len() as int, size as int);
            let chunked = |k: int| replace_query(q, size, chunk_at(vs, size, k));
            BatchV {
                plans: Seq::new(n as nat, |k: int| plan_spec(chunked(k), entity, m, cfg)),
                log: concat_logs(Seq::new(n as nat, |k: int| log_spec(chunked(k), entity, m, cfg)))
                    + seq![OptV::InToUnion("batch_processing"@, n as nat, n as nat)],
                rows: if n * size <= usize::MAX {
                    Some((n * size) as nat)
                } else {
                    None
                },
            }
        },
    }
}

/// With batching off, the batch planner gives exactly the one statement and
/// the log that `compile` gives for the same query and settings.
pub proof fn lemma_disabled_batch_is_single_statement(
    q: QueryV,
    entity: Seq<char>,
    m: Map<Seq<char>, Seq<char>>,
    cfg: OptimizationConfig,
    bcfg: BatchConfig,
)
    requires
        !bcfg.enable_batch_processing,
    ensures
        batch_spec(q, entity, m, cfg, bcfg).plans == seq![plan_spec(q, entity, m, cfg)],
        batch_spec(q, entity, m, cfg, bcfg).log == log_spec(q, entity, m, cfg),
        batch_spec(q, entity, m, cfg, bcfg).rows is None,
{
}

/// Result of the batch planner.
#[derive(Debug)]
pub struct BatchQueryResult {
    /// The statements as PostgreSQL text, in chunk order.
    pub queries: Vec<String>,
    /// The merged log.
    pub optimizations: Vec<Optimization>,
    /// Statements times batch size, where batching happened.
    pub total_estimated_rows: Option<usize>,
    /// The statements that the texts render.
    pub plans: Vec<SelectPlan>,
}

pub open spec fn plans_view(v: Seq<SelectPlan>) -> Seq<PlanV> {
    v.map_values(|p: SelectPlan| p@)
}

/// A batch result `r` is the value `b`.
pub open spec fn batch_is(r: BatchQueryResult, b: BatchV) -> bool {
    &&& plans_view(r.plans@) == b.plans
    &&& r.queries@.len() == r.plans@.len()
    &&& forall|k: int| 0 <= k < r.queries@.len() ==> (#[trigger] r.queries@[k])@ == plan_text(
        r.plans@[k]@,
    )
    &&& opts_view(r.optimizations@) == b.log
    &&& match b.rows {
        Some(n) => r.total_estimated_rows == Some(n as usize),
        None => r.total_estimated_rows is None,
    }
}

/// Copies of the literals.
fn copy_literals(ls: &Vec<Literal>, from: usize, to: usize) -> (r: Vec<Literal>)
    requires
        from <= to <= ls@.len(),
    ensures
        lits_view(r@) == lits_view(ls@).subrange(from as int, to as int),
{
    let mut out: Vec<Literal> = Vec::new();
    let mut i: usize = from;
    while i < to
        invariant
            from <= i <= to <= ls@.len(),
            lits_view(out@) == lits_view(ls@).subrange(from as int, i as int),
        decreases to - i,
    {
        let ghost before = out@;
        out.push(copy_literal(&ls[i]));
        proof {
            assert(lits_view(out@) =~= lits_view(before).push(ls@[i as int]@));
            assert(lits_view(ls@).subrange(from as int, i + 1) =~= lits_view(ls@).subrange(
                from as int,
                i as int,
            ).push(ls@[i as int]@));
        }
        i = i + 1;
    }
    out
}

/// Whether a condition holds an `IN` of more than `size` values.
fn has_large_in(c: &Condition, size: usize) -> (r: bool)
    ensures
        r == (large_in_of(c@, size as nat) is Some),
    decreases c,
{
    match c {
        Condition::In(vs) => vs.len() > size,
        Condition::And(l, r) => has_large_in(l, size) || has_large_in(r, size),
        Condition::Or(l, r) => has_large_in(l, size) || has_large_in(r, size),
        Condition::Not(i) => has_large_in(i, size),
        Condition::Grouped(i) => has_large_in(i, size),
        _ => false,
    }
}

proof fn lemma_replace_absent(c: CondV, size: nat, chunk: Seq<LitV>)
    requires
        large_in_of(c, size) is None,
    ensures
        replace_in(c, size, chunk) == c,
    decreases c,
{
    match c {
        CondV::And(l, r) => {
            lemma_replace_absent(*l, size, chunk);
            lemma_replace_absent(*r, size, chunk);
        },
        CondV::Or(l, r) => {
            lemma_replace_absent(*l, size, chunk);
            lemma_replace_absent(*r, size, chunk);
        },
        CondV::Not(i) => lemma_replace_absent(*i, size, chunk),
        CondV::Grouped(i) => lemma_replace_absent(*i, size, chunk),
        _ => {},
    }
}

/// A copy of a condition; where `active`, with its first `IN` of more than
/// `size` values given the values `chunk`.
fn replace_condition(c: &Condition, size: usize, chunk: &Vec<Literal>, active: bool) -> (r: Condition)
    ensures
        r@ == (if active {
            replace_in(c@, size as nat, lits_view(chunk@))
        } else {
            c@
        }),
    decreases c,
{
    proof {
        if active {
            if large_in_of(c@, size as nat) is None {
                lemma_replace_absent(c@, size as nat, lits_view(chunk@));
            }
        }
    }
    match c {
        Condition::In(vs) => {
            if active && vs.len() > size {
                let copy = copy_literals(chunk, 0, chunk.len());
                assert(lits_view(chunk@).subrange(0, chunk@.len() as int) =~= lits_view(chunk@));
                Condition::In(copy)
            } else {
                let copy = copy_literals(vs, 0, vs.len());
                assert(lits_view(vs@).subrange(0, vs@.len() as int) =~= lits_view(vs@));
                Condition::In(copy)
            }
        },
        Condition::And(l, r) => {
            let left_has = has_large_in(l, size);
            let nl = replace_condition(l, size, chunk, active && left_has);
            let nr = replace_condition(r, size, chunk, active && !left_has);
            Condition::And(Box::new(nl), Box::new(nr))
        },
        Condition::Or(l, r) => {
            let left_has = has_large_in(l, size);
            let nl = replace_condition(l, size, chunk, active && left_has);
            let nr = replace_condition(r, size, chunk, active && !left_has);
            Condition::Or(Box::new(nl), Box::new(nr))
        },
        Condition::Not(i) => Condition::Not(Box::new(replace_condition(i, size, chunk, active))),
        Condition::Grouped(i) => Condition::Grouped(
            Box::new(replace_condition(i, size, chunk, active)),
        ),
        Condition::Comparison { op, value } => Condition::Comparison { op: *op, value: copy_literal(value) },
        Condition::IsNull => Condition::IsNull,
        Condition::IsNotNull => Condition::IsNotNull,
    }
}


proof fn lemma_first_large_filter(fs: Seq<FieldFilterV>, size: nat, i: int)
    requires
        0 <= i <= fs.len(),
    ensures
        i <= first_large_filter(fs, size, i) <= fs.len(),
        first_large_filter(fs, size, i) < fs.len() ==> large_in_of(
            fs[first_large_filter(fs, size, i)].condition,
            size,
        ) is Some,
        forall|j: int| i <= j < first_large_filter(fs, size, i) ==> large_in_of(
            #[trigger] fs[j].condition,
            size,
        ) is None,
    decreases fs.len() - i,
{
    if i < fs.len() && large_in_of(fs[i].condition, size) is None {
        lemma_first_large_filter(fs, size, i + 1);
    }
}

proof fn lemma_first_large_cross(cs: Seq<CrossFilterV>, size: nat, i: int)
    requires
        0 <= i <= cs.len(),
    ensures
        i <= first_large_cross(cs, size, i) <= cs.len(),
        first_large_cross(cs, size, i) < cs.len() ==> large_in_filters(
            cs[first_large_cross(cs, size, i)].filters,
            size,
        ) is Some,
        forall|j: int| i <= j < first_large_cross(cs, size, i) ==> large_in_filters(
            #[trigger] cs[j].filters,
            size,
        ) is None,
    decreases cs.len() - i,
{
    if i < cs.len() && large_in_filters(cs[i].filters, size) is None {
        lemma_first_large_cross(cs, size, i + 1);
    }
}

/// The values of the first oversized `IN` of a condition.
fn extract_large_in_from_condition(c: &Condition, size: usize) -> (r: Option<Vec<Literal>>)
    ensures
        match large_in_of(c@, size as nat) {
            Some(vs) => r matches Some(v) && lits_view(v@) == vs,
            None => r is None,
        },
    decreases c,
{
    match c {
        Condition::In(vs) => {
            if vs.len() > size {
                let copy = copy_literals(vs, 0, vs.len());
                assert(lits_view(vs@).subrange(0, vs@.len() as int) =~= lits_view(vs@));
                Some(copy)
            } else {
                None
            }
        },
        Condition::And(l, r) | Condition::Or(l, r) => {
            match extract_large_in_from_condition(l, size) {
                Some(v) => Some(v),
                None => extract_large_in_from_condition(r, size),
            }
        },
        Condition::Not(i) | Condition::Grouped(i) => extract_large_in_from_condition(i, size),
        _ => None,
    }
}

/// The values of the first oversized `IN` of a list of filters.
fn extract_large_in_from_filters(fs: &Vec<FieldFilter>, size: usize) -> (r: Option<Vec<Literal>>)
    ensures
        match large_in_filters(filters_view(fs@), size as nat) {
            Some(vs) => r matches Some(v) && lits_view(v@) == vs,
            None => r is None,
        },
{
    let ghost fv = filters_view(fs@);
    proof {
        lemma_first_large_filter(fv, size as nat, 0);
    }
    let mut i: usize = 0;
    while i < fs.len()
        invariant
            fv == filters_view(fs@),
            i <= fs@.len(),
            first_large_filter(fv, size as nat, 0) >= i,
            0 <= first_large_filter(fv, size as nat, 0) <= fv.len(),
            first_large_filter(fv, size as nat, 0) < fv.len() ==> large_in_of(
                fv[first_large_filter(fv, size as nat, 0)].condition,
                size as nat,
            ) is Some,
            forall|j: int| 0 <= j < first_large_filter(fv, size as nat, 0) ==> large_in_of(
                #[trigger] fv[j].condition,
                size as nat,
            ) is None,
        decreases fs@.len() - i,
    {
        assert(fv[i as int].condition == fs@[i as int].condition@);
        match extract_large_in_from_condition(&fs[i].condition, size) {
            Some(v) => {
                return Some(v);
            },
            None => {},
        }
        i = i + 1;
    }
    None
}

/// The values of the first oversized `IN` of a query: base filters first.
fn find_large_in_conditions(query: &Query, max_batch_size: usize) -> (r: Option<Vec<Literal>>)
    ensures
        match large_in_query(query@, max_batch_size as nat) {
            Some(vs) => r matches Some(v) && lits_view(v@) == vs,
            None => r is None,
        },
{
    match extract_large_in_from_filters(&query.base_filters, max_batch_size) {
        Some(v) => {
            return Some(v);
        },
        None => {},
    }
    let ghost cv = crosses_view(query.cross_filters@);
    let ghost size = max_batch_size as nat;
    proof {
        lemma_first_large_cross(cv, size, 0);
    }
    let mut i: usize = 0;
    while i < query.cross_filters.len()
        invariant
            cv == crosses_view(query.cross_filters@),
            size == max_batch_size as nat,
            large_in_filters(query@.base, size) is None,
            i <= query.cross_filters@.len(),
            first_large_cross(cv, size, 0) >= i,
            0 <= first_large_cross(cv, size, 0) <= cv.len(),
            first_large_cross(cv, size, 0) < cv.len() ==> large_in_filters(
                cv[first_large_cross(cv, size, 0)].filters,
                size,
            ) is Some,
            forall|j: int| 0 <= j < first_large_cross(cv, size, 0) ==> large_in_filters(
                #[trigger] cv[j].filters,
                size,
            ) is None,
        decreases query.cross_filters@.len() - i,
    {
        assert(cv[i as int].filters == filters_view(query.cross_filters@[i as int].filters@));
        match extract_large_in_from_filters(&query.cross_filters[i].filters, max_batch_size) {
            Some(v) => {
                return Some(v);
            },
            None => {},
        }
        i = i + 1;
    }
    None
}

/// Whether any of the filters holds an `IN` of more than `size` values.
fn has_large_in_filters(fs: &Vec<FieldFilter>, size: usize) -> (r: bool)
    ensures
        r == (large_in_filters(filters_view(fs@), size as nat) is Some),
{
    extract_large_in_from_filters(fs, size).is_some()
}

/// Copies of the filters; where `active`, with the first oversized `IN`
/// given the values `chunk`.
fn replace_filter_list(fs: &Vec<FieldFilter>, size: usize, chunk: &Vec<Literal>, active: bool) -> (r:
    Vec<FieldFilter>)
    ensures
        filters_view(r@) == (if active {
            replace_filters(filters_view(fs@), size as nat, lits_view(chunk@))
        } else {
            filters_view(fs@)
        }),
{
    let ghost fv = filters_view(fs@);
    let ghost sz = size as nat;
    let ghost ch = lits_view(chunk@);
    let ghost expected = if active {
        replace_filters(fv, sz, ch)
    } else {
        fv
    };
    let ghost p = first_large_filter(fv, sz, 0);
    let mut out: Vec<FieldFilter> = Vec::new();
    let mut still = active;
    let mut i: usize = 0;
    while i < fs.len()
        invariant
            fv == filters_view(fs@),
            sz == size as nat,
            ch == lits_view(chunk@),
            p == first_large_filter(fv, sz, 0),
            expected == (if active { replace_filters(fv, sz, ch) } else { fv }),
            expected.len() == fv.len(),
            i <= fs@.len(),
            still ==> active && p == first_large_filter(fv, sz, i as int),
            !still ==> !active || p < i,
            out@.len() == i,
            forall|j: int| 0 <= j < i ==> (#[trigger] out@[j])@ == expected[j],
        decreases fs@.len() - i,
    {
        let f = &fs[i];
        let has = has_large_in(&f.condition, size);
        let condition = replace_condition(&f.condition, size, chunk, still && has);
        let nf = FieldFilter { field: Identifier(f.field.0.clone()), condition };
        proof {
            assert(fv[i as int] == f@);
            lemma_first_large_filter(fv, sz, i + 1);
            if still && has == false {
                assert(first_large_filter(fv, sz, i as int) == first_large_filter(fv, sz, i + 1));
            }
            if active {
                assert(expected[i as int] == (if i == p {
                    FieldFilterV {
                        field: fv[i as int].field,
                        condition: replace_in(fv[i as int].condition, sz, ch),
                    }
                } else {
                    fv[i as int]
                }));
            }
            assert(nf@ == expected[i as int]);
        }
        let ghost before = out@;
        out.push(nf);
        assert(forall|j: int| 0 <= j < i ==> out@[j] == before[j]);
        if has {
            still = false;
        }
        i = i + 1;
    }
    assert(filters_view(out@) =~= expected);
    out
}

/// Copies of the cross filters; where `active`, with the first oversized
/// `IN` given the values `chunk`.
fn replace_cross_list(cs: &Vec<CrossFilter>, size: usize, chunk: &Vec<Literal>, active: bool) -> (r:
    Vec<CrossFilter>)
    ensures
        crosses_view(r@) == (if active {
            replace_crosses(crosses_view(cs@), size as nat, lits_view(chunk@))
        } else {
            crosses_view(cs@)
        }),
{
    let ghost cv = crosses_view(cs@);
    let ghost sz = size as nat;
    let ghost ch = lits_view(chunk@);
    let ghost expected = if active {
        replace_crosses(cv, sz, ch)
    } else {
        cv
    };
    let ghost p = first_large_cross(cv, sz, 0);
    let mut out: Vec<CrossFilter> = Vec::new();
    let mut still = active;
    let mut i: usize = 0;
    while i < cs.len()
        invariant
            cv == crosses_view(cs@),
            sz == size as nat,
            ch == lits_view(chunk@),
            p == first_large_cross(cv, sz, 0),
            expected == (if active { replace_crosses(cv, sz, ch) } else { cv }),
            expected.len() == cv.len(),
            i <= cs@.len(),
            still ==> active && p == first_large_cross(cv, sz, i as int),
            !still ==> !active || p < i,
            out@.len() == i,
            forall|j: int| 0 <= j < i ==> (#[trigger] out@[j])@ == expected[j],
        decreases cs@.len() - i,
    {
        let c = &cs[i];
        let has = has_large_in_filters(&c.filters, size);
        let filters = replace_filter_list(&c.filters, size, chunk, still && has);
        let nc = CrossFilter {
            source_entity: Identifier(c.source_entity.0.clone()),
            target_entity: Identifier(c.target_entity.0.clone()),
            filters,
        };
        proof {
            assert(cv[i as int] == c@);
            lemma_first_large_cross(cv, sz, i + 1);
            if still && has == false {
                assert(first_large_cross(cv, sz, i as int) == first_large_cross(cv, sz, i + 1));
            }
            if active {
                assert(expected[i as int] == (if i == p {
                    CrossFilterV {
                        source: cv[i as int].source,
                        target: cv[i as int].target,
                        filters: replace_filters(cv[i as int].filters, sz, ch),
                    }
                } else {
                    cv[i as int]
                }));
            }
            assert(nc@ == expected[i as int]);
        }
        let ghost before = out@;
        out.push(nc);
        assert(forall|j: int| 0 <= j < i ==> out@[j] == before[j]);
        if has {
            still = false;
        }
        i = i + 1;
    }
    assert(crosses_view(out@) =~= expected);
    out
}

/// A copy of the query with its first oversized `IN` given the values `chunk`.
fn replace_in_condition_with_batch(query: &Query, size: usize, chunk: &Vec<Literal>) -> (r: Query)
    ensures
        r@ == replace_query(query@, size as nat, lits_view(chunk@)),
{
    let base_has = has_large_in_filters(&query.base_filters, size);
    let base_filters = replace_filter_list(&query.base_filters, size, chunk, base_has);
    let cross_filters = replace_cross_list(&query.cross_filters, size, chunk, !base_has);
    Query { base_filters, cross_filters }
}

/// The values in chunks of `batch_size`, the last one possibly shorter.
fn create_batches(values: &Vec<Literal>, batch_size: usize) -> (r: Vec<Vec<Literal>>)
    requires
        batch_size > 0,
    ensures
        r@.len() == ceil_div(values@.len() as int, batch_size as int),
        forall|k: int| 0 <= k < r@.len() ==> lits_view((#[trigger] r@[k])@) == chunk_at(
            lits_view(values@),
            batch_size as nat,
            k,
        ),
{
    let n = values.len();
    let ghost vs = lits_view(values@);
    let mut out: Vec<Vec<Literal>> = Vec::new();
    let mut start: usize = 0;
    assert(out@.len() * batch_size == 0) by (nonlinear_arith)
        requires
            out@.len() == 0,
    ;
    while start < n
        invariant
            n == values@.len(),
            vs == lits_view(values@),
            batch_size > 0,
            start == min(out@.len() * batch_size, n as int),
            out@.len() > 0 ==> (out@.len() - 1) * batch_size < n,
            forall|k: int| 0 <= k < out@.len() ==> lits_view((#[trigger] out@[k])@) == chunk_at(
                vs,
                batch_size as nat,
                k,
            ),
        decreases n - start,
    {
        let k = out.len();
        let end = if n - start < batch_size { n } else { start + batch_size };
        let chunk = copy_literals(values, start, end);
        proof {
            assert((k + 1) * batch_size == k * batch_size + batch_size) by (nonlinear_arith);
            assert(start == k * batch_size);
            assert(end == min((k + 1) * batch_size, n as int));
        }
        out.push(chunk);
        start = end;
    }
    proof {
        if n == 0 {
            assert(out@.len() == 0);
            assert(ceil_div(0, batch_size as int) == 0) by (nonlinear_arith)
                requires
                    batch_size > 0,
            ;
        } else {
            let c = out@.len() as int;
            assert(c * batch_size >= n);
            assert(c > 0) by (nonlinear_arith)
                requires
                    c * batch_size >= n,
                    n > 0,
                    c >= 0,
            ;
            assert(c == ceil_div(n as int, batch_size as int)) by (nonlinear_arith)
                requires
                    c * batch_size >= n,
                    (c - 1) * batch_size < n,
                    batch_size > 0,
            ;
        }
    }
    out
}


impl SqlCompiler {
    /// The batch planner with settings `config`.
    pub fn compile_batch_with(&self, query: &Query, entity: &str, config: &BatchConfig) -> (r: Result<
        BatchQueryResult,
        CompileError,
    >)
        requires
            self.opt_config().max_in_values > 0,
            config.enable_batch_processing ==> config.max_batch_size > 0,
        ensures
            r matches Ok(res) && batch_is(
                res,
                batch_spec(query@, entity@, self.mapping(), self.opt_config(), *config),
            ),
    {
        let ghost q = query@;
        let ghost m = self.mapping();
        let ghost cfg = self.opt_config();
        let size = config.max_batch_size;
        let found = if config.enable_batch_processing {
            find_large_in_conditions(query, size)
        } else {
            None
        };
        let values = match found {
            None => {
                let res = self.compile_ref(query, entity)?;
                let plans = vec![res.plan];
                assert(plans_view(plans@) =~= seq![plan_spec(q, entity@, m, cfg)]);
                return Ok(
                    BatchQueryResult {
                        queries: vec![res.sql],
                        optimizations: res.optimizations,
                        total_estimated_rows: None,
                        plans,
                    },
                );
            },
            Some(v) => v,
        };
        let ghost vs = lits_view(values@);
        let ghost sz = size as nat;
        let batches = create_batches(&values, size);
        let ghost n = batches@.len();
        let ghost chunked = |k: int| replace_query(q, sz, chunk_at(vs, sz, k));
        let ghost plan_of = |k: int| plan_spec(chunked(k), entity@, m, cfg);
        let ghost log_of = |k: int| log_spec(chunked(k), entity@, m, cfg);
        let mut queries: Vec<String> = Vec::new();
        let mut plans: Vec<SelectPlan> = Vec::new();
        let mut optimizations: Vec<Optimization> = Vec::new();
        let mut k: usize = 0;
        assert(plans_view(plans@) =~= Seq::new(0, plan_of));
        assert(Seq::new(0, log_of) =~= Seq::<Seq<OptV>>::empty());
        assert(opts_view(optimizations@) =~= concat_logs(Seq::new(0, log_of)));
        while k < batches.len()
            invariant
                self.opt_config().max_in_values > 0,
                q == query@,
                m == self.mapping(),
                cfg == self.opt_config(),
                sz == size as nat,
                n == batches@.len(),
                forall|j: int| 0 <= j < n ==> lits_view((#[trigger] batches@[j])@) == chunk_at(vs, sz, j),
                chunked == (|j: int| replace_query(q, sz, chunk_at(vs, sz, j))),
                plan_of == (|j: int| plan_spec(chunked(j), entity@, m, cfg)),
                log_of == (|j: int| log_spec(chunked(j), entity@, m, cfg)),
                k <= n,
                queries@.len() == k,
                plans@.len() == k,
                forall|j: int| 0 <= j < k ==> (#[trigger] queries@[j])@ == plan_text(plans@[j]@),
                plans_view(plans@) == Seq::new(k as nat, plan_of),
                opts_view(optimizations@) == concat_logs(Seq::new(k as nat, log_of)),
            decreases n - k,
        {
            let batch_query = replace_in_condition_with_batch(query, size, &batches[k]);
            let res = self.compile_ref(&batch_query, entity)?;
            let ghost (vp, vo) = (plans_view(plans@), opts_view(optimizations@));
            let ghost (np, nl) = (res.plan@, opts_view(res.optimizations@));
            let mut log = res.optimizations;
            let ghost (oq, op) = (queries@, plans@);
            queries.push(res.sql);
            plans.push(res.plan);
            assert(forall|j: int| 0 <= j < k ==> queries@[j] == oq[j] && plans@[j] == op[j]);
            optimizations.append(&mut log);
            proof {
                assert(np == plan_of(k as int));
                assert(nl == log_of(k as int));
                assert(Seq::new((k + 1) as nat, log_of).drop_last() =~= Seq::new(k as nat, log_of));
                assert(plans_view(plans@) =~= vp.push(np));
                assert(Seq::new((k + 1) as nat, plan_of) =~= Seq::new(k as nat, plan_of).push(
                    plan_of(k as int),
                ));
                assert(plans_view(plans@) =~= Seq::new((k + 1) as nat, plan_of));
                assert(opts_view(optimizations@) =~= concat_logs(Seq::new((k + 1) as nat, log_of)));
            }
            k = k + 1;
        }
        let count = queries.len();
        let ghost before = opts_view(optimizations@);
        optimizations.push(
            Optimization::InToUnion {
                field: String::from_str("batch_processing"),
                total_values: count,
                union_count: count,
            },
        );
        assert(opts_view(optimizations@) =~= before + seq![
            OptV::InToUnion("batch_processing"@, count as nat, count as nat),
        ]);
        assert((count as int) * (size as int) <= u128::MAX) by (nonlinear_arith)
            requires
                0 <= count <= 0xffff_ffff_ffff_ffff,
                0 <= size <= 0xffff_ffff_ffff_ffff,
        ;
        let wide: u128 = count as u128 * size as u128;
        let total_estimated_rows = if wide <= usize::MAX as u128 {
            Some(wide as usize)
        } else {
            None
        };
        Ok(BatchQueryResult { queries, optimizations, total_estimated_rows, plans })
    }

    /// The batch planner with this compiler's own batch settings.
    pub fn compile_batch_query(&self, query: Query, entity: &str) -> (r: Result<
        BatchQueryResult,
        CompileError,
    >)
        requires
            self.opt_config().max_in_values > 0,
            self.batch_config().enable_batch_processing ==> self.batch_config().max_batch_size > 0,
        ensures
            r matches Ok(res) && batch_is(
                res,
                batch_spec(query@, entity@, self.mapping(), self.opt_config(), self.batch_config()),
            ),
    {
        self.compile_batch_with(&query, entity, &self.batch_processor.config)
    }

    /// Applies the optimizer's pre-pass, which changes nothing, then compiles.
    pub fn compile_optimized(&mut self, query: Query, entity: &str) -> (r: Result<
        CompileResult,
        CompileError,
    >)
        requires
            old(self).opt_config().max_in_values > 0,
        ensures
            final(self).opt_config() == old(self).opt_config(),
            final(self).batch_config() == old(self).batch_config(),
            final(self).mapping() == old(self).mapping(),
            r matches Ok(res) && res.plan@ == plan_spec(
                query@,
                entity@,
                old(self).mapping(),
                old(self).opt_config(),
            ) && opts_view(res.optimizations@) == log_spec(
                query@,
                entity@,
                old(self).mapping(),
                old(self).opt_config(),
            ),
    {
        let mut query = query;
        let mut pre = self.optimizer.optimize(&mut query);
        let mut result = self.compile_ref(&query, entity)?;
        let ghost before = opts_view(result.optimizations@);
        result.optimizations.append(&mut pre);
        assert(opts_view(result.optimizations@) =~= before);
        Ok(result)
    }
}

impl DefaultBatchProcessor {
    /// The batch planner with settings `config`, on a compiler with default
    /// thresholds and no table mapping.
    pub fn compile_batch(&self, query: Query, entity: &str, config: &BatchConfig) -> (r: Result<
        BatchQueryResult,
        CompileError,
    >)
        requires
            config.enable_batch_processing ==> config.max_batch_size > 0,
        ensures
            r matches Ok(res) && batch_is(
                res,
                batch_spec(
                    query@,
                    entity@,
                    Map::empty(),
                    OptimizationConfig { max_or_conditions_for_in: 5, max_in_values: 1000 },
                    *config,
                ),
            ),
    {
        let compiler = SqlCompiler::new();
        assert(compiler.mapping() == Map::<Seq<char>, Seq<char>>::empty());
        compiler.compile_batch_with(&query, entity, config)
    }
}


/// Compiles a query into one statement.
pub trait QueryCompiler {
    fn compile(&self, query: Query, entity: &str) -> Result<CompileResult, CompileError>;

    /// The compiler's name, for logs.
    fn name(&self) -> &'static str;

    fn supported_dialect(&self) -> SqlDialect;
}

/// Rewrites a query before it is compiled.
pub trait QueryOptimizer {
    fn optimize(&self, query: &mut Query) -> Vec<Optimization>;

    fn optimization_config(&self) -> &OptimizationConfig;

    fn set_optimization_config(&mut self, config: OptimizationConfig);
}

/// Compiles a query into several statements where an `IN` list is oversized.
pub trait BatchQueryCompiler {
    fn compile_batch(&self, query: Query, entity: &str, config: &BatchConfig) -> Result<
        BatchQueryResult,
        CompileError,
    >;
}

/// Resolves entity names to table names.
pub trait TableMappingProvider {
    fn get_table_name(&self, entity: &str) -> String;

    fn set_table_mapping(&mut self, mapping: NameMap);

    fn load_mapping_from_config(&mut self, config: &TableMappingConfig) -> Result<(), ConfigError>;
}

/// Builds compilers.
pub trait CompilerFactory {
    type Compiler: QueryCompiler;

    fn create_default() -> Self::Compiler;

    fn create_with_config(config: CompilerConfig) -> Result<Self::Compiler, CompileError>;
}

impl SqlCompiler {
    /// The compiler's name, for logs.
    pub fn name(&self) -> (r: &'static str)
        ensures
            r@ == "SeaQuerySqlCompiler"@,
    {
        "SeaQuerySqlCompiler"
    }

    pub fn supported_dialect(&self) -> (r: SqlDialect)
        ensures
            r == SqlDialect::PostgreSQL,
    {
        SqlDialect::PostgreSQL
    }
}

impl QueryCompiler for SqlCompiler {
    /// Compiles, or fails where `max_in_values` is zero.
    fn compile(&self, query: Query, entity: &str) -> Result<CompileResult, CompileError> {
        if self.optimizer.config.max_in_values == 0 {
            return Err(CompileError::new(String::from_str("max_in_values must be positive")));
        }
        self.compile_ref(&query, entity)
    }

    fn name(&self) -> &'static str {
        SqlCompiler::name(self)
    }

    fn supported_dialect(&self) -> SqlDialect {
        SqlCompiler::supported_dialect(self)
    }
}

impl QueryOptimizer for DefaultQueryOptimizer {
    fn optimize(&self, query: &mut Query) -> Vec<Optimization> {
        DefaultQueryOptimizer::optimize(self, query)
    }

    fn optimization_config(&self) -> &OptimizationConfig {
        &self.config
    }

    fn set_optimization_config(&mut self, config: OptimizationConfig) {
        self.config = config;
    }
}

impl BatchQueryCompiler for DefaultBatchProcessor {
    /// Plans the batch, or fails where batching is on with a batch size of zero.
    fn compile_batch(&self, query: Query, entity: &str, config: &BatchConfig) -> Result<
        BatchQueryResult,
        CompileError,
    > {
        if config.enable_batch_processing && config.max_batch_size == 0 {
            return Err(CompileError::new(String::from_str("max_batch_size must be positive")));
        }
        DefaultBatchProcessor::compile_batch(self, query, entity, config)
    }
}

impl TableMappingProvider for DefaultTableMapper {
    fn get_table_name(&self, entity: &str) -> String {
        resolve_table_name(&self.mappings, entity)
    }

    fn set_table_mapping(&mut self, mapping: NameMap) {
        self.mappings = mapping;
    }

    fn load_mapping_from_config(&mut self, config: &TableMappingConfig) -> Result<(), ConfigError> {
        self.mappings = map_clone(&config.mappings);
        Ok(())
    }
}

/// Builds `SqlCompiler`s.
pub struct SqlCompilerFactory;

impl CompilerFactory for SqlCompilerFactory {
    type Compiler = SqlCompiler;

    fn create_default() -> SqlCompiler {
        SqlCompiler::new()
    }

    fn create_with_config(config: CompilerConfig) -> Result<SqlCompiler, CompileError> {
        Ok(SqlCompiler::from_config(config))
    }
}

} // verus!
