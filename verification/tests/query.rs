#![allow(unused_imports)]
use querydown::ast::{AnnotationValue, ComputedColumn, ConstantDef, CustomComparisonDef, FunctionDef, TableDef, Call, CallSyntax, Case, CaseVariant, ColumnControl, ColumnGlob, ColumnSpec, Comparison, ComparisonSide, ConditionSet, Conjunction, Date, Definitions, Duration, Expr, FunctionBody, FunctionDimension, GroupSpec, HasQuantity, NullsSort, Operator, PathPart, Quantity, Query, Range, RangeBound, Exclusivity, ResultColumnStatement, ScopedConditionSet, SortDirection, SortExpr, SortSpec, TableWithMany, Transformation, WindowFn, AnonymousFunctionCall, Assignment};
use querydown::parse;
fn parse_query(source: &str) -> Result<Query, ()> {
    parse(source).map_err(|_| ())
}

#[test]
fn test_parse_query() {
    assert_eq!(
        parse_query("#foo a:1 b:2 $c"),
        Ok(Query {
            definitions: Definitions::default(),
            base_table: "foo".to_string(),
            transformations: vec![Transformation {
                sorting: vec![],
                conditions: ConditionSet {
                    conjunction: Conjunction::And,
                    entries: vec![
                        Expr::Comparison(Box::new(Comparison {
                            left: ComparisonSide::Expr(Expr::Path(vec![PathPart::Column(
                                "a".to_string()
                            )])),
                            operator: Operator::Match,
                            right: ComparisonSide::Expr(Expr::Number("1".to_string())),
                        })),
                        Expr::Comparison(Box::new(Comparison {
                            left: ComparisonSide::Expr(Expr::Path(vec![PathPart::Column(
                                "b".to_string()
                            )])),
                            operator: Operator::Match,
                            right: ComparisonSide::Expr(Expr::Number("2".to_string())),
                        })),
                    ],
                },
                result_columns: vec![ResultColumnStatement::Spec(ColumnSpec {
                    alias: None,
                    column_control: ColumnControl {
                        sort: None,
                        group: None,
                        is_partition_by: false,
                        is_hidden: false
                    },
                    expr: Expr::Path(vec![PathPart::Column("c".to_string())]),
                    annotation: None,
                })],
            }],
        })
    );
}

#[test]
fn test_parse_query_with_comments() {
    // Comments are permitted anywhere whitespace is, and are not propagated into the AST, so a
    // query peppered with comments parses identically to the same query without them.
    let commented = parse_query("#foo // pick rows\n a:1 /* nested /* block */ comment */ b:2 $c")
        ;
    let plain = parse_query("#foo a:1 b:2 $c");
    assert!(commented.is_ok());
    assert_eq!(commented, plain);
}

#[test]
fn test_parse_query_with_computed_columns() {
    // Computed column definitions precede the base table. Each defines a named expression scoped
    // to a table, and a later definition may reference an earlier one by name.
    let result = parse_query("#users.age = birth_date|age|years|floor\n#users.can_purchase_alcohol = age:>=21\n#users $can_purchase_alcohol")
        
        .unwrap();
    assert_eq!(result.base_table, "users".to_string());
    assert_eq!(result.definitions.computed_columns.len(), 2);
    assert_eq!(
        result.definitions.computed_columns[0].table,
        "users".to_string()
    );
    assert_eq!(
        result.definitions.computed_columns[0].name,
        "age".to_string()
    );
    assert_eq!(
        result.definitions.computed_columns[1].name,
        "can_purchase_alcohol".to_string()
    );
    assert_eq!(
        result.definitions.computed_columns[1].expr,
        Expr::Comparison(Box::new(Comparison {
            left: ComparisonSide::Expr(Expr::Path(vec![PathPart::Column("age".to_string())])),
            operator: Operator::Gte,
            right: ComparisonSide::Expr(Expr::Number("21".to_string())),
        }))
    );
}

#[test]
fn test_parse_query_with_constants() {
    // Constant definitions precede the base table and bind a name to an expression.
    let result = parse_query("@user_id = 1234\n#issues author:@user_id")
        
        .unwrap();
    assert_eq!(result.base_table, "issues".to_string());
    assert_eq!(
        result.definitions.constants,
        vec![ConstantDef {
            name: "user_id".to_string(),
            expr: Expr::Number("1234".to_string()),
        }]
    );
    assert!(result.definitions.computed_columns.is_empty());
}

#[test]
fn test_parse_query_with_function() {
    // A function definition with a single parameter and no local assignments.
    let result = parse_query("@@double = @x => @x * 2\n#issues $id|double")
        
        .unwrap();
    assert_eq!(result.base_table, "issues".to_string());
    assert_eq!(result.definitions.functions.len(), 1);
    let func = &result.definitions.functions[0];
    assert_eq!(func.name, "double".to_string());
    assert_eq!(func.params, vec!["x".to_string()]);
    assert!(func.body.assignments.is_empty());
    assert_eq!(
        func.body.expr,
        Expr::Product(
            Box::new(Expr::Variable("x".to_string())),
            Box::new(Expr::Number("2".to_string())),
        )
    );
}

#[test]
fn test_parse_query_with_function_containing_assignment() {
    // A function body may contain local assignments before the result expression.
    let result = parse_query("@@f = @a @b =>\n  @s = @a + @b\n  @s * 2\n#issues $id|f(2 3)")
        
        .unwrap();
    let func = &result.definitions.functions[0];
    assert_eq!(func.name, "f".to_string());
    assert_eq!(func.params, vec!["a".to_string(), "b".to_string()]);
    assert_eq!(func.body.assignments.len(), 1);
    assert_eq!(func.body.assignments[0].name, "s".to_string());
    assert_eq!(
        func.body.assignments[0].expr,
        Expr::Sum(
            Box::new(Expr::Variable("a".to_string())),
            Box::new(Expr::Variable("b".to_string())),
        )
    );
    assert_eq!(
        func.body.expr,
        Expr::Product(
            Box::new(Expr::Variable("s".to_string())),
            Box::new(Expr::Number("2".to_string())),
        )
    );
}

#[test]
fn test_parse_query_with_constant_from_subquery() {
    // A constant may be defined as a `#( ... )` scalar subquery. The right-hand side parses into
    // an `Expr::Subquery` wrapping the inner query.
    let result = parse_query("@latest = #( #comments $created_at%max )\n#issues created_at:>@latest")
        
        .unwrap();
    assert_eq!(result.base_table, "issues".to_string());
    assert_eq!(result.definitions.constants.len(), 1);
    let constant = &result.definitions.constants[0];
    assert_eq!(constant.name, "latest".to_string());
    let Expr::Subquery(inner) = &constant.expr else {
        panic!("expected a subquery, got {:?}", constant.expr);
    };
    assert_eq!(inner.base_table, "comments".to_string());
}

#[test]
fn test_parse_query_with_user_defined_table() {
    // A user-defined table definition `#name = #( query )` parses into a `TableDef`, and the
    // name can then be used as the query's base table.
    let result = parse_query("#project_months = #( #issues $project \\g $%count -> issue_count )\n#project_months $project")
        
        .unwrap();
    assert_eq!(result.base_table, "project_months".to_string());
    assert_eq!(result.definitions.tables.len(), 1);
    let table = &result.definitions.tables[0];
    assert_eq!(table.name, "project_months".to_string());
    assert_eq!(table.query.base_table, "issues".to_string());
    // A table definition is not mistaken for a computed column or custom comparison.
    assert!(result.definitions.computed_columns.is_empty());
    assert!(result.definitions.custom_comparisons.is_empty());
}

#[test]
fn test_table_definition_distinguished_from_computed_column() {
    // `#table.name = expr` is a computed column, whereas `#name = #( ... )` is a table; the two
    // are told apart by what follows the name.
    let result = parse_query("#users.adult = birth_date|age|years|floor:>=21\n#users $adult")
        
        .unwrap();
    assert_eq!(result.definitions.computed_columns.len(), 1);
    assert!(result.definitions.tables.is_empty());
}

#[test]
fn test_parse_query_with_custom_comparison() {
    let result = parse_query("#issues.comment:@x = ++#comments{body:@x}\n#issues comment:workaround")
        
        .unwrap();
    assert_eq!(result.base_table, "issues".to_string());
    assert_eq!(result.definitions.custom_comparisons.len(), 1);
    let def = &result.definitions.custom_comparisons[0];
    assert_eq!(def.table, "issues".to_string());
    assert_eq!(def.name, "comment".to_string());
    assert_eq!(def.operator, Operator::Match);
    assert_eq!(def.param, "x".to_string());
    assert_eq!(
        def.body,
        Expr::HasQuantity(HasQuantity {
            quantity: Quantity::AtLeastOne,
            path_parts: vec![PathPart::TableWithMany(TableWithMany {
                table: "comments".to_string(),
                condition_set: ConditionSet {
                    conjunction: Conjunction::And,
                    entries: vec![Expr::Comparison(Box::new(Comparison {
                        left: ComparisonSide::Expr(Expr::Path(vec![PathPart::Column(
                            "body".to_string()
                        )])),
                        operator: Operator::Match,
                        right: ComparisonSide::Expr(Expr::Variable("x".to_string())),
                    }))]
                },
                linking_column: None,
            })]
        })
    );
}
