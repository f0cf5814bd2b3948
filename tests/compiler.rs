use std::collections::HashMap;

use report_dispatcher::ast::{CompOp, Condition, CrossFilter, FieldFilter, Identifier, Literal, Query};
use report_dispatcher::lexer::tokenize;
use report_dispatcher::parser::Parser;
use report_dispatcher::sql::{render_postgres, JoinPlan, SelectPlan, SqlExpr, SqlKeyword, SqlValue, TableName};
use report_dispatcher::sql_compiler::{
    BatchConfig, BatchQueryCompiler, BatchQueryResult, CompileError, CompileResult, CompilerConfig,
    CompilerFactory, DefaultBatchProcessor, DefaultTableMapper, Optimization, OptimizationConfig,
    QueryCompiler, QueryOptimizer, SqlCompiler, SqlCompilerFactory, SqlDialect, TableMappingProvider,
};
use report_dispatcher::config::{ConfigError, TableMappingConfig};
use report_dispatcher::registry::CompilerRegistry;

fn parse(input: &str) -> Query {
    let tokens = tokenize(input);
    Parser::new(&tokens).parse().unwrap()
}

fn create_test_compiler() -> SqlCompiler {
    let mut compiler = SqlCompiler::new();
    let mut mapping = HashMap::new();
    mapping.insert("Test".to_string(), "tests".to_string());
    mapping.insert("Run".to_string(), "test_runs".to_string());
    compiler.table_mapper_mut().set_table_mapping(mapping);
    compiler
}

fn compiler_with(max_or: usize, max_in: usize) -> SqlCompiler {
    SqlCompiler::from_config(CompilerConfig {
        optimization_config: OptimizationConfig { max_or_conditions_for_in: max_or, max_in_values: max_in },
        ..CompilerConfig::default()
    })
}

fn status_eq(v: &str) -> Condition {
    Condition::Comparison { op: CompOp::Eq, value: Literal::String(v.to_string()) }
}

fn in_query(field: &str, n: i64) -> Query {
    Query {
        base_filters: vec![FieldFilter {
            field: Identifier(field.to_string()),
            condition: Condition::In((0..n).map(Literal::Number).collect()),
        }],
        cross_filters: vec![],
    }
}

struct CustomCompiler {
    name: String,
    dialect: SqlDialect,
    config: OptimizationConfig,
}

impl CustomCompiler {
    fn new(name: String, dialect: SqlDialect) -> Self {
        Self { name, dialect, config: OptimizationConfig::default() }
    }
}

impl QueryCompiler for CustomCompiler {
    fn compile(&self, _query: Query, _entity: &str) -> Result<CompileResult, CompileError> {
        let plan = report_dispatcher::sql::SelectPlan {
            table: report_dispatcher::sql::TableName("custom_table".to_string()),
            joins: vec![],
            conditions: vec![],
        };
        Ok(CompileResult {
            sql: format!("-- Generated by {} for {:?}\nSELECT * FROM custom_table;", self.name, self.dialect),
            optimizations: vec![],
            plan,
        })
    }

    fn name(&self) -> &'static str {
        "CustomCompiler"
    }

    fn supported_dialect(&self) -> SqlDialect {
        self.dialect
    }
}

impl QueryOptimizer for CustomCompiler {
    fn optimize(&self, _query: &mut Query) -> Vec<Optimization> {
        vec![Optimization::ConditionSimplification {
            original: "custom_original".to_string(),
            simplified: "custom_simplified".to_string(),
        }]
    }

    fn optimization_config(&self) -> &OptimizationConfig {
        &self.config
    }

    fn set_optimization_config(&mut self, _config: OptimizationConfig) {}
}

impl BatchQueryCompiler for CustomCompiler {
    fn compile_batch(&self, query: Query, entity: &str, _config: &BatchConfig) -> Result<BatchQueryResult, CompileError> {
        let result = QueryCompiler::compile(self, query, entity)?;
        Ok(BatchQueryResult {
            queries: vec![result.sql],
            optimizations: result.optimizations,
            total_estimated_rows: Some(100),
            plans: vec![result.plan],
        })
    }
}

impl TableMappingProvider for CustomCompiler {
    fn get_table_name(&self, entity: &str) -> String {
        format!("custom_{}", entity.to_lowercase())
    }

    fn set_table_mapping(&mut self, _mapping: HashMap<String, String>) {}

    fn load_mapping_from_config(&mut self, _config: &TableMappingConfig) -> Result<(), ConfigError> {
        Ok(())
    }
}

#[test]
fn test_trait_based_compilation() {
    let compiler: Box<dyn QueryCompiler> = Box::new(SqlCompiler::new());
    let query = Query {
        base_filters: vec![FieldFilter { field: Identifier("status".to_string()), condition: status_eq("Open") }],
        cross_filters: vec![],
    };
    let result = compiler.compile(query, "Test").unwrap();
    assert_eq!(compiler.name(), "SeaQuerySqlCompiler");
    assert_eq!(compiler.supported_dialect(), SqlDialect::PostgreSQL);
    assert!(result.sql.contains("status"));
}

#[test]
fn test_custom_compiler() {
    let compiler = CustomCompiler::new("TestCompiler".to_string(), SqlDialect::MySQL);
    let query = Query { base_filters: vec![], cross_filters: vec![] };
    let result = QueryCompiler::compile(&compiler, query, "Test").unwrap();
    assert!(result.sql.contains("custom_table"));
    assert!(result.sql.contains("TestCompiler"));
    assert!(result.sql.contains("MySQL"));
    assert_eq!(compiler.name(), "CustomCompiler");
    assert_eq!(compiler.supported_dialect(), SqlDialect::MySQL);
}

#[test]
fn test_compiler_registry() {
    let mut registry: CompilerRegistry<fn() -> Box<dyn QueryCompiler>> =
        CompilerRegistry::new(|| Box::new(SqlCompiler::new()));

    registry.register("custom", || {
        Box::new(CustomCompiler::new("RegisteredCustom".to_string(), SqlDialect::SQLite))
    });

    let default_compiler = registry.create("default").unwrap();
    assert_eq!(default_compiler.name(), "SeaQuerySqlCompiler");

    let custom_compiler = registry.create("custom").unwrap();
    assert_eq!(custom_compiler.name(), "CustomCompiler");

    let available = registry.available_compilers();
    assert!(available.contains(&"default".to_string()));
    assert!(available.contains(&"custom".to_string()));
    assert!(available.contains(&"sql".to_string()));
}

#[test]
fn registering_a_name_again_replaces_its_constructor() {
    let mut registry: CompilerRegistry<fn() -> Box<dyn QueryCompiler>> =
        CompilerRegistry::new(|| Box::new(SqlCompiler::new()));
    registry.register("sql", || Box::new(CustomCompiler::new("Other".to_string(), SqlDialect::MySQL)));
    assert_eq!(registry.available_compilers(), vec!["sql".to_string(), "default".to_string()]);
    assert_eq!(registry.create("sql").unwrap().name(), "CustomCompiler");
    assert!(registry.create("missing").is_none());
}

#[test]
fn test_compiler_factory() {
    let compiler = SqlCompilerFactory::create_default();
    assert_eq!(compiler.name(), "SeaQuerySqlCompiler");

    let config = CompilerConfig {
        optimization_config: OptimizationConfig { max_or_conditions_for_in: 10, max_in_values: 2000 },
        batch_config: BatchConfig::default(),
        table_mapping: {
            let mut map = HashMap::new();
            map.insert("Entity".to_string(), "entity_table".to_string());
            map
        },
        dialect: SqlDialect::PostgreSQL,
    };

    let compiler = SqlCompilerFactory::create_with_config(config.clone()).unwrap();
    assert_eq!(compiler.optimizer().optimization_config().max_or_conditions_for_in, 10);
    assert_eq!(compiler.optimizer().optimization_config().max_in_values, 2000);
    assert_eq!(compiler.table_mapper().get_table_name("Entity"), "entity_table");
}

#[test]
fn test_different_sql_dialects() {
    let dialects = vec![
        SqlDialect::PostgreSQL,
        SqlDialect::MySQL,
        SqlDialect::SQLite,
        SqlDialect::MsSQL,
        SqlDialect::Oracle,
    ];
    for dialect in dialects {
        let compiler = CustomCompiler::new(format!("{:?}Compiler", dialect), dialect);
        assert_eq!(compiler.supported_dialect(), dialect);
        let query = Query { base_filters: vec![], cross_filters: vec![] };
        let result = QueryCompiler::compile(&compiler, query, "Test").unwrap();
        assert!(result.sql.contains(&format!("{:?}", dialect)));
    }
}

#[test]
fn single_equality_with_empty_mapping() {
    let compiler = SqlCompiler::new();
    let result = compiler.compile(parse(r#"Filter: status["Open"]"#), "Issue").unwrap();
    assert!(result.optimizations.is_empty());
    assert_eq!(result.plan.table.0, "issue");
    assert_eq!(
        result.plan.conditions,
        vec![SqlExpr::Compare {
            column: "issue.status".to_string(),
            op: CompOp::Eq,
            value: SqlValue::Text("Open".to_string()),
        }]
    );
    assert!(result.sql.contains("WHERE"));
    assert!(result.sql.contains(r#""issue.status" = 'Open'"#), "{}", result.sql);
    assert!(result.sql.contains(r#"FROM "issue""#), "{}", result.sql);
}

#[test]
fn five_equalities_fold_into_one_in() {
    let query = parse(r#"Filter: status["Open" OR "Pending" OR "Review" OR "Approved" OR "Testing"]"#);
    let result = SqlCompiler::new().compile(query, "Issue").unwrap();
    assert_eq!(
        result.optimizations,
        vec![Optimization::OrToIn { field: "issue.status".to_string(), value_count: 5 }]
    );
    match &result.plan.conditions[0] {
        SqlExpr::InList { column, values } => {
            assert_eq!(column, "issue.status");
            assert_eq!(values.len(), 5);
            assert_eq!(values[4], SqlValue::Text("Testing".to_string()));
        }
        other => panic!("expected one membership test, got {:?}", other),
    }
    assert!(result.sql.contains(" IN ("), "{}", result.sql);
    assert!(!result.sql.contains(" OR "), "{}", result.sql);
}

#[test]
fn five_equalities_stay_a_disjunction_under_threshold_six() {
    let query = parse(r#"Filter: status["Open" OR "Pending" OR "Review" OR "Approved" OR "Testing"]"#);
    let result = compiler_with(6, 1000).compile(query, "Issue").unwrap();
    assert!(result.optimizations.is_empty());
    match &result.plan.conditions[0] {
        SqlExpr::Or(left, right) => {
            assert!(matches!(left.as_ref(), SqlExpr::Or(_, _)));
            assert!(matches!(right.as_ref(), SqlExpr::Compare { .. }));
        }
        other => panic!("expected a disjunction, got {:?}", other),
    }
    assert!(result.sql.contains(" OR "), "{}", result.sql);
}

#[test]
fn a_non_equality_in_the_chain_blocks_the_fold() {
    let query = parse(r#"Filter: s[>3 OR "a" OR "b" OR "c" OR "d" OR "e"]"#);
    let result = SqlCompiler::new().compile(query, "Issue").unwrap();
    assert!(result.optimizations.is_empty());
}

#[test]
fn a_qualifying_left_operand_folds_on_its_own() {
    let query = parse(r#"Filter: s["a" OR "b" OR "c" OR "d" OR "e" OR >3]"#);
    let result = SqlCompiler::new().compile(query, "Issue").unwrap();
    assert_eq!(result.optimizations, vec![Optimization::OrToIn { field: "issue.s".to_string(), value_count: 5 }]);
    assert!(matches!(&result.plan.conditions[0], SqlExpr::Or(l, _) if matches!(l.as_ref(), SqlExpr::InList { .. })));
}

#[test]
fn grouped_equalities_are_folded_through_the_groups() {
    let query = parse(r#"Filter: s[("a" OR "b") OR ("c" OR ("d" OR "e"))]"#);
    let result = SqlCompiler::new().compile(query, "Issue").unwrap();
    assert_eq!(result.optimizations, vec![Optimization::OrToIn { field: "issue.s".to_string(), value_count: 5 }]);
}

#[test]
fn oversized_in_is_split_into_chunks() {
    let result = SqlCompiler::new().compile(in_query("id", 1500), "Issue").unwrap();
    assert_eq!(
        result.optimizations,
        vec![Optimization::InToUnion { field: "issue.id".to_string(), total_values: 1500, union_count: 2 }]
    );
    match &result.plan.conditions[0] {
        SqlExpr::Or(a, b) => match (a.as_ref(), b.as_ref()) {
            (SqlExpr::InList { values: first, .. }, SqlExpr::InList { values: second, .. }) => {
                assert_eq!(first.len(), 1000);
                assert_eq!(second.len(), 500);
                assert_eq!(second[0], SqlValue::BigInt(1000));
            }
            other => panic!("unexpected chunks {:?}", other),
        },
        other => panic!("expected a disjunction of chunks, got {:?}", other),
    }
}

#[test]
fn in_list_at_the_limit_stays_whole() {
    let result = SqlCompiler::new().compile(in_query("id", 1000), "Issue").unwrap();
    assert!(result.optimizations.is_empty());
}

#[test]
fn three_chunks_are_counted_rounding_up() {
    let result = compiler_with(5, 2).compile(in_query("id", 5), "Issue").unwrap();
    assert_eq!(
        result.optimizations,
        vec![Optimization::InToUnion { field: "issue.id".to_string(), total_values: 5, union_count: 3 }]
    );
}

#[test]
fn double_negation_compiles_to_two_negations() {
    let result = SqlCompiler::new().compile(parse(r#"Filter: status[NOT NOT "Open"]"#), "Issue").unwrap();
    match &result.plan.conditions[0] {
        SqlExpr::Not(inner) => match inner.as_ref() {
            SqlExpr::Not(inner2) => assert!(matches!(inner2.as_ref(), SqlExpr::Compare { .. })),
            other => panic!("expected a second negation, got {:?}", other),
        },
        other => panic!("expected a negation, got {:?}", other),
    }
}

#[test]
fn date_and_user_literals_map_to_expressions() {
    let result = SqlCompiler::new()
        .compile(parse(r#"Filter: a[>today]; b[<yesterday]; c[tomorrow]; d[current_user]"#), "Issue")
        .unwrap();
    let texts: Vec<SqlValue> = match &result.plan.conditions[0] {
        SqlExpr::And(l, r) => {
            let mut v = vec![];
            if let SqlExpr::And(l2, r2) = l.as_ref() {
                if let SqlExpr::And(l3, r3) = l2.as_ref() {
                    for e in [l3.as_ref(), r3.as_ref(), r2.as_ref(), r.as_ref()] {
                        if let SqlExpr::Compare { value, .. } = e {
                            v.push(value.clone());
                        }
                    }
                }
            }
            v
        }
        _ => vec![],
    };
    assert_eq!(
        texts,
        vec![
            SqlValue::Keyword(SqlKeyword::CurrentDate),
            SqlValue::Keyword(SqlKeyword::Yesterday),
            SqlValue::Keyword(SqlKeyword::Tomorrow),
            SqlValue::Keyword(SqlKeyword::CurrentUser),
        ]
    );
    assert!(result.sql.contains(r#""issue.a" > (CURRENT_DATE)"#), "{}", result.sql);
    assert!(result.sql.contains(r#""issue.b" < (CURRENT_DATE - INTERVAL '1 day')"#), "{}", result.sql);
    assert!(result.sql.contains(r#""issue.c" = (CURRENT_DATE + INTERVAL '1 day')"#), "{}", result.sql);
    assert!(result.sql.contains(r#""issue.d" = (CURRENT_USER)"#), "{}", result.sql);
    assert!(!result.sql.contains("'CURRENT"), "{}", result.sql);
}

#[test]
fn other_dates_stay_text() {
    let query = Query {
        base_filters: vec![FieldFilter {
            field: Identifier("due".to_string()),
            condition: Condition::Comparison { op: CompOp::Lt, value: Literal::Date("2023-12-25".to_string()) },
        }],
        cross_filters: vec![],
    };
    let result = SqlCompiler::new().compile(query, "Issue").unwrap();
    assert!(result.sql.contains(r#""issue.due" < '2023-12-25'"#), "{}", result.sql);
}

#[test]
fn keyword_values_in_a_membership_test_are_unquoted() {
    let result = SqlCompiler::new().compile(parse(r#"Filter: d[IN (today, "x")]"#), "Issue").unwrap();
    assert!(result.sql.contains("CURRENT_DATE") && result.sql.contains("'x'"), "{}", result.sql);
    assert!(!result.sql.contains("'CURRENT_DATE'"), "{}", result.sql);
}

#[test]
fn every_condition_of_a_plan_is_rendered() {
    let plan = SelectPlan {
        table: TableName("t".to_string()),
        joins: vec![JoinPlan { table: TableName("u".to_string()), alias: "j1".to_string() }],
        conditions: vec![
            SqlExpr::IsNull { column: "t.a".to_string() },
            SqlExpr::IsNull { column: "t.b".to_string() },
            SqlExpr::IsNull { column: "j1.c".to_string() },
        ],
    };
    let sql = render_postgres(&plan);
    assert!(sql.contains(r#""t.a" IS NULL"#) && sql.contains(r#""t.b" IS NULL"#) && sql.contains(r#""j1.c" IS NULL"#), "{}", sql);
    assert!(sql.contains(r#"INNER JOIN "u AS j1" ON "t"."id" = "j1"."id""#), "{}", sql);
}

#[test]
fn compiler_name_and_dialect() {
    let compiler = SqlCompiler::new();
    assert_eq!(compiler.name(), "SeaQuerySqlCompiler");
    assert_eq!(compiler.supported_dialect(), SqlDialect::PostgreSQL);
}

#[test]
fn cross_filters_join_under_numbered_aliases() {
    let compiler = create_test_compiler();
    let query = parse(r#"Filter: a[1]; CrossFilter: <Test-Run> status["PASS"]; CrossFilter: <Test-Run> x[IS NULL]"#);
    let result = compiler.compile(query, "Test").unwrap();
    assert_eq!(result.plan.table.0, "tests");
    assert_eq!(result.plan.joins.len(), 2);
    assert_eq!(result.plan.joins[0].table.0, "test_runs");
    assert_eq!(result.plan.joins[0].alias, "joined_table_1");
    assert_eq!(result.plan.joins[1].alias, "joined_table_2");
    assert_eq!(result.plan.conditions.len(), 3);
    assert_eq!(result.plan.conditions[2], SqlExpr::IsNull { column: "joined_table_2.x".to_string() });
    assert!(result.sql.contains("INNER JOIN"), "{}", result.sql);
    assert!(result.sql.contains("joined_table_1"), "{}", result.sql);
}

#[test]
fn ten_cross_filters_get_two_digit_aliases() {
    let mut text = String::from("CrossFilter: <A-B> f[1]");
    for _ in 1..10 {
        text.push_str("; CrossFilter: <A-B> f[1]");
    }
    let result = SqlCompiler::new().compile(parse(&text), "A").unwrap();
    assert_eq!(result.plan.joins[9].alias, "joined_table_10");
}

#[test]
fn no_filters_means_no_where_clause() {
    let result = SqlCompiler::new().compile(parse(""), "Issue").unwrap();
    assert!(result.plan.conditions.is_empty());
    assert!(!result.sql.contains("WHERE"), "{}", result.sql);
}

#[test]
fn disabled_batching_gives_the_plain_statement() {
    let mut compiler = compiler_with(5, 1000);
    *compiler.batch_processor_mut() = DefaultBatchProcessor::with_config(BatchConfig {
        max_batch_size: 500,
        enable_batch_processing: false,
    });
    let plain = compiler.compile(in_query("id", 1200), "Issue").unwrap();
    let batch = compiler.compile_batch_query(in_query("id", 1200), "Issue").unwrap();
    assert_eq!(batch.queries, vec![plain.sql]);
    assert_eq!(batch.optimizations, plain.optimizations);
    assert_eq!(batch.total_estimated_rows, None);
}

#[test]
fn batching_splits_the_first_oversized_in() {
    let compiler = SqlCompiler::new();
    let batch = compiler.compile_batch_query(in_query("id", 1200), "Issue").unwrap();
    assert_eq!(batch.queries.len(), 3);
    assert_eq!(batch.total_estimated_rows, Some(1500));
    assert_eq!(
        batch.optimizations.last(),
        Some(&Optimization::InToUnion { field: "batch_processing".to_string(), total_values: 3, union_count: 3 })
    );
    match &batch.plans[2].conditions[0] {
        SqlExpr::InList { values, .. } => {
            assert_eq!(values.len(), 200);
            assert_eq!(values[0], SqlValue::BigInt(1000));
        }
        other => panic!("unexpected {:?}", other),
    }
}

#[test]
fn batching_without_an_oversized_in_gives_one_statement() {
    let batch = SqlCompiler::new().compile_batch_query(in_query("id", 500), "Issue").unwrap();
    assert_eq!(batch.queries.len(), 1);
    assert_eq!(batch.total_estimated_rows, None);
}

#[test]
fn batch_processor_uses_a_default_compiler() {
    let processor = DefaultBatchProcessor::new();
    let config = BatchConfig { max_batch_size: 2, enable_batch_processing: true };
    let batch = processor.compile_batch(in_query("id", 3), "Issue", &config).unwrap();
    assert_eq!(batch.queries.len(), 2);
    assert_eq!(batch.total_estimated_rows, Some(4));
}

#[test]
fn trait_compile_rejects_a_zero_chunk_size() {
    let compiler = compiler_with(5, 0);
    let err = QueryCompiler::compile(&compiler, in_query("id", 3), "Issue").unwrap_err();
    assert!(!err.message.is_empty());
}

#[test]
fn trait_batch_rejects_a_zero_batch_size() {
    let processor = DefaultBatchProcessor::new();
    let config = BatchConfig { max_batch_size: 0, enable_batch_processing: true };
    assert!(BatchQueryCompiler::compile_batch(&processor, in_query("id", 3), "Issue", &config).is_err());
}

#[test]
fn compile_optimized_matches_compile() {
    let mut compiler = SqlCompiler::new();
    let a = compiler.compile_optimized(parse(r#"Filter: a[1 OR 2]"#), "Issue").unwrap();
    let b = compiler.compile(parse(r#"Filter: a[1 OR 2]"#), "Issue").unwrap();
    assert_eq!(a.sql, b.sql);
    assert_eq!(a.optimizations, b.optimizations);
}

#[test]
fn table_mapper_falls_back_to_lower_case() {
    let mut mapper = DefaultTableMapper::new();
    assert_eq!(mapper.get_table_name("BugFix"), "bugfix");
    mapper.load_mapping_from_config(&TableMappingConfig::default()).unwrap();
    assert_eq!(TableMappingProvider::get_table_name(&mapper, "Issue"), "issues");
}

#[test]
fn cross_filter_ast_built_by_hand_compiles() {
    let query = Query {
        base_filters: vec![],
        cross_filters: vec![CrossFilter {
            source_entity: Identifier("Test".to_string()),
            target_entity: Identifier("Run".to_string()),
            filters: vec![],
        }],
    };
    let result = create_test_compiler().compile(query, "Test").unwrap();
    assert_eq!(result.plan.conditions, vec![SqlExpr::Const(true)]);
}
