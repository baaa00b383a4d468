use indexmap::IndexMap;
use pivot_sql::Aggregate;
use pivot_sql::ColumnType;
use pivot_sql::Filter;
use pivot_sql::FilterTerm;
use pivot_sql::GenericSQLError;
use pivot_sql::GenericSQLVirtualServerModel;
use pivot_sql::GenericSQLVirtualServerModelArgs;
use pivot_sql::Scalar;
use pivot_sql::Sort;
use pivot_sql::SortDir;
use pivot_sql::ViewConfig;
use pivot_sql::ViewPort;

fn default_builder() -> GenericSQLVirtualServerModel {
    GenericSQLVirtualServerModel::new(GenericSQLVirtualServerModelArgs::default())
}

#[test]
fn test_facade_queries() {
    let builder = default_builder();
    assert_eq!(
        builder.view_column_size("v").unwrap(),
        "SELECT COUNT(*) FROM (DESCRIBE v)"
    );
    assert_eq!(
        builder.table_validate_expression("t", "a + b").unwrap(),
        "DESCRIBE (SELECT a + b FROM t)"
    );
    assert_eq!(builder.view_schema("v").unwrap(), "DESCRIBE v");
    assert_eq!(builder.view_size("v").unwrap(), "SELECT COUNT(*) FROM v");
}

#[test]
fn test_flat_query_exact() {
    let builder = default_builder();
    let mut config = ViewConfig::default();
    config.columns = vec![Some("col1".to_string())];
    let sql = builder.table_make_view("t", "v", &config).unwrap();
    assert_eq!(sql, "CREATE TABLE v AS (SELECT \"col1\" as \"col1\" FROM t)");
}

#[test]
fn test_empty_columns_flat() {
    let builder = default_builder();
    let config = ViewConfig::default();
    let sql = builder.table_make_view("t", "v", &config).unwrap();
    assert_eq!(sql, "CREATE TABLE v AS (SELECT  FROM t)");
}

#[test]
fn test_alias_underscore_rewrite() {
    let builder = default_builder();
    let mut config = ViewConfig::default();
    config.columns = vec![Some("my_col".to_string())];
    let sql = builder.table_make_view("t", "v", &config).unwrap();
    assert!(sql.contains("\"my_col\" as \"my-col\""), "{}", sql);
}

#[test]
fn test_expression_substitution() {
    let builder = default_builder();
    let mut config = ViewConfig::default();
    config.columns = vec![Some("e1".to_string())];
    config.expressions = vec![("e1".to_string(), "(a + b)".to_string())];
    let sql = builder.table_make_view("t", "v", &config).unwrap();
    assert!(sql.contains("(a + b) as \"e1\""), "{}", sql);
}

#[test]
fn test_filter_string_escaping() {
    let builder = default_builder();
    let mut config = ViewConfig::default();
    config.columns = vec![Some("c".to_string())];
    config.filter = vec![Filter {
        column: "c".to_string(),
        op: "=".to_string(),
        term: FilterTerm::Scalar(Scalar::String("x'y".to_string())),
    }];
    let sql = builder.table_make_view("t", "v", &config).unwrap();
    assert!(sql.contains(" WHERE \"c\" = 'x''y'"), "{}", sql);
}

#[test]
fn test_filter_array_all_null_dropped() {
    let builder = default_builder();
    let mut config = ViewConfig::default();
    config.columns = vec![Some("c".to_string())];
    config.filter = vec![Filter {
        column: "c".to_string(),
        op: "IN".to_string(),
        term: FilterTerm::Array(vec![Scalar::Null]),
    }];
    let sql = builder.table_make_view("t", "v", &config).unwrap();
    assert!(!sql.contains("WHERE"), "{}", sql);
}

#[test]
fn test_filter_array_mixed() {
    let builder = default_builder();
    let mut config = ViewConfig::default();
    config.columns = vec![Some("c".to_string())];
    config.filter = vec![Filter {
        column: "c".to_string(),
        op: "IN".to_string(),
        term: FilterTerm::Array(vec![
            Scalar::Null,
            Scalar::Bool(true),
            Scalar::Float("1.5".to_string()),
        ]),
    }];
    let sql = builder.table_make_view("t", "v", &config).unwrap();
    assert!(sql.contains(" WHERE \"c\" IN (TRUE, 1.5)"), "{}", sql);
}

#[test]
fn test_scalar_rendering() {
    assert_eq!(
        GenericSQLVirtualServerModel::scalar_to_sql(&Scalar::Bool(false)),
        Some("FALSE".to_string())
    );
    assert_eq!(
        GenericSQLVirtualServerModel::scalar_to_sql(&Scalar::Null),
        None
    );
    assert_eq!(
        GenericSQLVirtualServerModel::scalar_to_sql(&Scalar::Float("2.25".to_string())),
        Some("2.25".to_string())
    );
}

#[test]
fn test_multi_aggregate_uses_name_only() {
    let builder = default_builder();
    let mut config = ViewConfig::default();
    config.columns = vec![Some("value".to_string())];
    config.group_by = vec!["g".to_string()];
    config.aggregates = vec![(
        "value".to_string(),
        Aggregate::MultiAggregate("sum".to_string(), vec!["extra".to_string()]),
    )];
    let sql = builder.table_make_view("t", "v", &config).unwrap();
    assert!(sql.contains("sum(\"value\")"), "{}", sql);
    assert!(!sql.contains("extra"), "{}", sql);
}

#[test]
fn test_default_aggregate_is_any_value() {
    let builder = default_builder();
    let mut config = ViewConfig::default();
    config.columns = vec![Some("value".to_string())];
    config.group_by = vec!["category".to_string()];
    let sql = builder.table_make_view("t", "v", &config).unwrap();
    assert!(sql.contains("any_value(\"value\") as \"value\""), "{}", sql);
}

#[test]
fn test_abs_sort_collapses_to_plain_direction() {
    let builder = default_builder();
    let mut config = ViewConfig::default();
    config.columns = vec![Some("c".to_string())];
    config.sort = vec![
        Sort("c".to_string(), SortDir::AscAbs),
        Sort("d".to_string(), SortDir::DescAbs),
    ];
    let sql = builder.table_make_view("t", "v", &config).unwrap();
    assert!(sql.contains(" ORDER BY \"c\" ASC, \"d\" DESC"), "{}", sql);
}

#[test]
fn test_sort_none_produces_no_order_by() {
    let builder = default_builder();
    let mut config = ViewConfig::default();
    config.columns = vec![Some("c".to_string())];
    config.sort = vec![Sort("c".to_string(), SortDir::NoSort)];
    let sql = builder.table_make_view("t", "v", &config).unwrap();
    assert!(!sql.contains("ORDER BY"), "{}", sql);
}

#[test]
fn test_custom_create_entity_and_grouping_fn() {
    let args = GenericSQLVirtualServerModelArgs {
        create_entity: Some("VIEW".to_string()),
        grouping_fn: Some("GROUPING".to_string()),
    };
    let builder = GenericSQLVirtualServerModel::new(args);
    let mut config = ViewConfig::default();
    config.columns = vec![Some("value".to_string())];
    config.group_by = vec!["g".to_string()];
    let sql = builder.table_make_view("t", "v", &config).unwrap();
    assert!(sql.starts_with("CREATE VIEW v AS ("), "{}", sql);
    assert!(sql.contains("GROUPING(\"g\") AS __GROUPING_ID__"), "{}", sql);
    assert!(!sql.contains("GROUPING_ID("), "{}", sql);
}

#[test]
fn test_window_generation_without_split() {
    let builder = default_builder();
    let mut config = ViewConfig::default();
    config.columns = vec![Some("value".to_string())];
    config.group_by = vec!["region".to_string(), "category".to_string()];
    config.sort = vec![Sort("value".to_string(), SortDir::Asc)];
    config.aggregates = vec![(
        "value".to_string(),
        Aggregate::SingleAggregate("sum".to_string()),
    )];
    let sql = builder.table_make_view("t", "v", &config).unwrap();
    assert!(
        sql.contains("__WINDOW_0__ AS (PARTITION BY GROUPING_ID(\"region\"), __ROW_PATH_0__"),
        "{}",
        sql
    );
    assert!(
        sql.contains("first(sum(\"value\")) OVER __WINDOW_0__ ASC"),
        "{}",
        sql
    );
    assert!(sql.contains("__ROW_PATH_1__ ASC"), "{}", sql);
}

#[test]
fn test_compile_twice_identical() {
    let builder = default_builder();
    let mut config = ViewConfig::default();
    config.columns = vec![Some("value".to_string())];
    config.group_by = vec!["region".to_string(), "category".to_string()];
    config.split_by = vec!["quarter".to_string()];
    config.sort = vec![Sort("value".to_string(), SortDir::Asc)];
    config.aggregates = vec![(
        "value".to_string(),
        Aggregate::SingleAggregate("sum".to_string()),
    )];
    let first = builder.table_make_view("t", "v", &config).unwrap();
    let second = builder.table_make_view("t", "v", &config).unwrap();
    assert_eq!(first, second);
}

#[test]
fn test_view_get_data_no_end_row_omits_limit() {
    let builder = default_builder();
    let config = ViewConfig::default();
    let viewport = ViewPort {
        start_row: None,
        end_row: None,
        start_col: None,
        end_col: None,
    };
    let mut schema = IndexMap::new();
    schema.insert("col1".to_string(), ColumnType::String);
    let sql = builder
        .view_get_data("v", &config, &viewport, &schema)
        .unwrap();
    assert_eq!(sql, "SELECT \"col1\" FROM v");
}

#[test]
fn test_view_get_data_limit_formula() {
    let builder = default_builder();
    let config = ViewConfig::default();
    let viewport = ViewPort {
        start_row: Some(20),
        end_row: Some(75),
        start_col: None,
        end_col: None,
    };
    let mut schema = IndexMap::new();
    schema.insert("col1".to_string(), ColumnType::String);
    let sql = builder
        .view_get_data("v", &config, &viewport, &schema)
        .unwrap();
    assert_eq!(sql, "SELECT \"col1\" FROM v LIMIT 55 OFFSET 20");
}

#[test]
fn test_view_get_data_preserves_schema_order() {
    let builder = default_builder();
    let config = ViewConfig::default();
    let viewport = ViewPort {
        start_row: None,
        end_row: None,
        start_col: None,
        end_col: None,
    };
    let mut schema = IndexMap::new();
    schema.insert("c".to_string(), ColumnType::Float);
    schema.insert("a".to_string(), ColumnType::Float);
    schema.insert("b".to_string(), ColumnType::Float);
    let sql = builder
        .view_get_data("v", &config, &viewport, &schema)
        .unwrap();
    assert_eq!(sql, "SELECT \"c\", \"a\", \"b\" FROM v");
}

#[test]
fn test_view_get_data_hides_internal_and_prepends_group_columns() {
    let builder = default_builder();
    let mut config = ViewConfig::default();
    config.group_by = vec!["g".to_string()];
    let viewport = ViewPort {
        start_row: None,
        end_row: None,
        start_col: None,
        end_col: None,
    };
    let mut schema = IndexMap::new();
    schema.insert("__GROUPING_ID__".to_string(), ColumnType::Integer);
    schema.insert("__ROW_PATH_0__".to_string(), ColumnType::String);
    schema.insert("x".to_string(), ColumnType::Float);
    let sql = builder
        .view_get_data("v", &config, &viewport, &schema)
        .unwrap();
    assert_eq!(
        sql,
        "SELECT \"__GROUPING_ID__\", \"__ROW_PATH_0__\", \"x\" FROM v"
    );
}

#[test]
fn test_view_get_data_column_slicing() {
    let builder = default_builder();
    let config = ViewConfig::default();
    let viewport = ViewPort {
        start_row: None,
        end_row: None,
        start_col: Some(1),
        end_col: Some(2),
    };
    let mut schema = IndexMap::new();
    schema.insert("a".to_string(), ColumnType::Float);
    schema.insert("b".to_string(), ColumnType::Float);
    schema.insert("c".to_string(), ColumnType::Float);
    let sql = builder
        .view_get_data("v", &config, &viewport, &schema)
        .unwrap();
    assert_eq!(sql, "SELECT \"b\" FROM v");
}

#[test]
fn test_flat_query_has_no_grouping_artifacts() {
    let builder = default_builder();
    let mut config = ViewConfig::default();
    config.columns = vec![Some("col1".to_string()), Some("col2".to_string())];
    config.sort = vec![Sort("col1".to_string(), SortDir::Desc)];
    let sql = builder.table_make_view("t", "v", &config).unwrap();
    assert!(!sql.contains("ROLLUP"), "{}", sql);
    assert!(!sql.contains("PIVOT"), "{}", sql);
    assert!(!sql.contains("__ROW_PATH_"), "{}", sql);
}

#[test]
fn test_error_messages() {
    assert_eq!(
        GenericSQLError::ColumnNotFound("x".to_string()).message(),
        "Column not found: x"
    );
    assert_eq!(
        GenericSQLError::InvalidConfig("bad".to_string()).message(),
        "Invalid configuration: bad"
    );
    assert_eq!(
        GenericSQLError::UnsupportedOperation("nope".to_string()).message(),
        "Unsupported operation: nope"
    );
}
