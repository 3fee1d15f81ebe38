use std::sync::Arc;

use fuse_storage::aggregator::{AggregateFunction, AggregatorParams};
use fuse_storage::block_schema::{check_block_schema, BlockColumn, BlockSchema};
use fuse_storage::error::ErrorCode;
use fuse_storage::functions::{
    FunctionDescription, FunctionFactory, FunctionFeatures, FunctionKind, LogicNotFunction,
    MathsFunction,
};
use fuse_storage::interpreters::{
    bind_kill_stmt, CommitInterpreter, CreateDatabasePlan, DropConnectionInterpreter,
    DropConnectionPlan, Interpreter, KillTarget, QueryContext,
};
use fuse_storage::merge::{
    get_mutation_type, has_star_clause, plan_merge, split_merge_into_clauses, InsertOperation,
    MatchOperation, MatchedClause, MergeOption, MutationStrategy, UnmatchedClause,
};
use fuse_storage::metrics::MetricsMiddleware;
use fuse_storage::pprof::{profile_settings, PProfRequest};
use fuse_storage::processor::{
    generate_from_received, source_event, source_fetch, Event, FetchAction, Fetched,
    OutputAction, Received, SourceState,
};
use fuse_storage::snapshot::{DataType, TableField, TableSchema, TypeKind};
use fuse_storage::sort_utils::{
    add_order_field, find_bigger_child_of_root, has_order_field, order_field_type,
    plan_sort_pipeline, DataField, DataSchema, SortColumnDescription, SortPipelineBuilder,
    SortPipelineKind, ORDER_COL_NAME,
};
use fuse_storage::table_options::TableOptions;
use fuse_storage::text::str_contains;

fn update(is_star: bool) -> MergeOption {
    MergeOption::Match(MatchedClause {
        has_selection: false,
        operation: MatchOperation::Update { is_star },
    })
}

fn delete() -> MergeOption {
    MergeOption::Match(MatchedClause {
        has_selection: true,
        operation: MatchOperation::Delete,
    })
}

fn insert(is_star: bool) -> MergeOption {
    MergeOption::Unmatch(UnmatchedClause {
        has_selection: false,
        insert_operation: InsertOperation { is_star },
    })
}

#[test]
fn merge_clauses_are_split() {
    let (matched, unmatched) =
        split_merge_into_clauses(&[update(false), insert(false), delete(), insert(true)]).unwrap();
    assert_eq!(matched.len(), 2);
    assert_eq!(unmatched.len(), 2);
    assert_eq!(matched[1].operation, MatchOperation::Delete);
    assert!(unmatched[1].insert_operation.is_star);
    assert!(has_star_clause(&matched, &unmatched));
    assert_eq!(
        split_merge_into_clauses(&[]),
        Err(ErrorCode::BadArguments(
            "at least one matched or unmatched clause for merge into".to_string()
        ))
    );
    let (matched, unmatched) = split_merge_into_clauses(&[update(true)]).unwrap();
    assert!(has_star_clause(&matched, &unmatched));
    let (matched, unmatched) = split_merge_into_clauses(&[update(false), delete()]).unwrap();
    assert!(!has_star_clause(&matched, &unmatched));
}

#[test]
fn mutation_kinds() {
    assert_eq!(get_mutation_type(0, 2), Ok(MutationStrategy::NotMatchedOnly));
    assert_eq!(get_mutation_type(3, 0), Ok(MutationStrategy::MatchedOnly));
    assert_eq!(get_mutation_type(1, 1), Ok(MutationStrategy::MixedMatched));
    assert_eq!(
        get_mutation_type(0, 0),
        Err(ErrorCode::SemanticError(
            "we must have matched or unmatched clause at least one".to_string()
        ))
    );
    let plan = plan_merge(&[insert(true)]).unwrap();
    assert_eq!(plan.strategy, MutationStrategy::NotMatchedOnly);
    assert!(plan.has_star_clause);
    assert!(plan_merge(&[]).is_err());
}

fn field(name: &str, kind: TypeKind, nullable: bool) -> TableField {
    TableField {
        name: name.to_string(),
        data_type: DataType { kind, nullable },
    }
}

fn column(kind: TypeKind, nullable: bool) -> BlockColumn {
    BlockColumn {
        data_type: DataType { kind, nullable },
    }
}

#[test]
fn blocks_are_checked_against_the_schema() {
    let schema = TableSchema {
        fields: vec![
            field("a", TypeKind::Number, false),
            field("b", TypeKind::String, true),
        ],
    };
    let block = BlockSchema {
        columns: vec![column(TypeKind::Number, false), column(TypeKind::String, false)],
    };
    assert_eq!(
        check_block_schema(&schema, block).unwrap(),
        BlockSchema {
            columns: vec![column(TypeKind::Number, false), column(TypeKind::String, true)],
        }
    );
    assert_eq!(
        check_block_schema(
            &schema,
            BlockSchema {
                columns: vec![column(TypeKind::Number, false)]
            }
        ),
        Err(ErrorCode::TableSchemaMismatch(
            "Data schema mismatched. Data columns length: 1, schema fields length: 2".to_string()
        ))
    );
    assert_eq!(
        check_block_schema(
            &schema,
            BlockSchema {
                columns: vec![column(TypeKind::Number, true), column(TypeKind::String, true)]
            }
        ),
        Err(ErrorCode::TableSchemaMismatch(
            "Data schema mismatched (col name: a). Data column is nullable, but schema field is not nullable"
                .to_string()
        ))
    );
    assert!(matches!(
        check_block_schema(
            &schema,
            BlockSchema {
                columns: vec![column(TypeKind::Number, false), column(TypeKind::Binary, true)]
            }
        ),
        Err(ErrorCode::TableSchemaMismatch(_))
    ));
    assert!(check_block_schema(
        &schema,
        BlockSchema {
            columns: vec![column(TypeKind::Null, false), column(TypeKind::String, true)]
        }
    )
    .is_err());
}

#[test]
fn steps_of_a_source() {
    let state = |is_finished, output_finished, output_can_push, generated| SourceState {
        is_finished,
        output_finished,
        output_can_push,
        generated,
    };
    assert_eq!(
        source_event(state(true, false, true, Some((1, 2)))),
        (Event::Finished, OutputAction::Finish, Some((1, 2)))
    );
    assert_eq!(
        source_event(state(false, true, true, None)),
        (Event::Finished, OutputAction::Leave, None)
    );
    assert_eq!(
        source_event(state(false, false, false, Some((1, 2)))),
        (Event::NeedConsume, OutputAction::Leave, Some((1, 2)))
    );
    assert_eq!(
        source_event(state(false, false, true, None)),
        (Event::Async, OutputAction::Leave, None)
    );
    assert_eq!(
        source_event(state(false, false, true, Some((10, 200)))),
        (
            Event::NeedConsume,
            OutputAction::Push {
                rows: 10,
                bytes: 200
            },
            None
        )
    );
    assert_eq!(source_fetch(Fetched::Batch), FetchAction::KeepBatch);
    assert_eq!(source_fetch(Fetched::StreamEnded), FetchAction::DropStream);
    assert_eq!(source_fetch(Fetched::PartAvailable), FetchAction::OpenStream);
    assert_eq!(source_fetch(Fetched::NoPartLeft), FetchAction::Finish);
    assert_eq!(generate_from_received(Received::Segment(7)), Ok(Some(7)));
    assert_eq!(generate_from_received(Received::<u8>::Closed), Ok(None));
    assert_eq!(
        generate_from_received(Received::<u8>::Failed(ErrorCode::Internal("x".to_string()))),
        Err(ErrorCode::Internal("x".to_string()))
    );
}

#[test]
fn heap_and_order_column() {
    assert_eq!(*find_bigger_child_of_root(&[9, 4]), 4);
    assert_eq!(*find_bigger_child_of_root(&[9, 4, 7, 1]), 7);
    assert_eq!(*find_bigger_child_of_root(&[9, 8, 7]), 8);

    let schema = DataSchema {
        fields: vec![
            DataField {
                name: "a".to_string(),
                kind: TypeKind::Variant,
            },
            DataField {
                name: "b".to_string(),
                kind: TypeKind::Date,
            },
        ],
    };
    let by = |offset| SortColumnDescription {
        offset,
        asc: true,
        nulls_first: false,
    };
    assert_eq!(order_field_type(&schema, &[by(1)]), TypeKind::Date);
    assert_eq!(order_field_type(&schema, &[by(0)]), TypeKind::Binary);
    assert_eq!(order_field_type(&schema, &[by(1), by(0)]), TypeKind::Binary);
    assert!(!has_order_field(&schema));
    let with_order = add_order_field(schema.clone(), &[by(1)]);
    assert_eq!(with_order.fields.len(), 3);
    assert_eq!(with_order.fields[2].name, ORDER_COL_NAME);
    assert_eq!(with_order.fields[2].kind, TypeKind::Date);
    assert!(has_order_field(&with_order));
    assert_eq!(add_order_field(with_order.clone(), &[by(0)]), with_order);
    assert!(!has_order_field(&DataSchema { fields: vec![] }));
}

#[test]
fn sort_pipelines() {
    let builder = SortPipelineBuilder::create(DataSchema { fields: vec![] }, vec![], 1000)
        .with_limit(Some(10))
        .with_block_size_hit(5000)
        .with_block_size_hit(300);
    assert_eq!(builder.limit(), Some(10));
    assert_eq!(builder.block_size(), 300);
    assert!(builder.outputs_order_col(1));
    let builder = builder.remove_order_col_at_last();
    assert!(!builder.outputs_order_col(1));
    assert!(builder.outputs_order_col(2));

    let plan = plan_sort_pipeline(Some(true), 4, 8);
    assert_eq!(plan.kind, SortPipelineKind::MultiMerge);
    assert!(plan.remove_order_col_at_last && !plan.resize_to_max_threads);
    let plan = plan_sort_pipeline(Some(true), 1, 1);
    assert_eq!(plan.kind, SortPipelineKind::MergeSortOfSorted);
    assert!(plan.resize_to_max_threads);
    let plan = plan_sort_pipeline(Some(true), 1, 8);
    assert_eq!(plan.kind, SortPipelineKind::MultiMerge);
    let plan = plan_sort_pipeline(Some(false), 4, 8);
    assert_eq!(plan.kind, SortPipelineKind::FullSort);
    assert!(!plan.remove_order_col_at_last);
    let plan = plan_sort_pipeline(None, 4, 1);
    assert_eq!(plan.kind, SortPipelineKind::FullSort);
    assert!(plan.remove_order_col_at_last && plan.resize_to_max_threads);
}

#[test]
fn aggregator_parameters() {
    let function = |name: &str, return_kind| AggregateFunction {
        name: name.to_string(),
        return_kind,
    };
    let params = AggregatorParams::try_create(
        vec![TypeKind::String],
        vec![0],
        vec![
            function("AggregateSumFunction", TypeKind::Number),
            function("AggregateDistinctCombinator(count)", TypeKind::Number),
        ],
        vec![vec![1], vec![2]],
        "layout",
        false,
        true,
        65536,
        4,
    );
    assert_eq!(params.states_layout, Some("layout"));
    assert!(params.has_distinct_combinator());
    assert_eq!(params.num_states(), 2);
    assert_eq!(
        params.empty_result_block(),
        vec![TypeKind::Number, TypeKind::Number, TypeKind::String]
    );
    let none = AggregatorParams::try_create(vec![], vec![], vec![], vec![], 7u8, false, false, 1, 1);
    assert_eq!(none.states_layout, None);
    assert!(!none.has_distinct_combinator());
    assert!(str_contains("abcabd", "abd"));
    assert!(!str_contains("abcabd", "abe"));
    assert!(str_contains("abc", ""));
    assert!(!str_contains("ab", "abc"));
}

#[test]
fn interpreters_tell_what_they_are() {
    let ctx = Arc::new(QueryContext {
        id: "q1".to_string(),
        tenant: "t1".to_string(),
    });
    let commit = CommitInterpreter::try_create(ctx.clone()).unwrap();
    assert_eq!(commit.name(), "CommitInterpreter");
    assert!(commit.is_txn_command());
    assert!(!commit.is_ddl());
    assert_eq!(commit.context().id, "q1");
    let drop = DropConnectionInterpreter::try_create(ctx, DropConnectionPlan {
        if_exists: true,
        name: "c".to_string(),
    })
    .unwrap();
    assert_eq!(drop.name(), "DropConnectionInterpreter");
    assert!(drop.is_ddl());
    assert!(!drop.is_txn_command());
    let request = drop.request();
    assert_eq!(
        (request.tenant.as_str(), request.name.as_str(), request.if_exists),
        ("t1", "c", true)
    );
    let kill = bind_kill_stmt(&KillTarget::Connection, "42");
    assert!(kill.kill_connection);
    assert_eq!(kill.id, "42");
    assert!(!bind_kill_stmt(&KillTarget::Query, "q").kill_connection);
    let plan = CreateDatabasePlan {
        if_not_exists: true,
        db: "d".to_string(),
        options: TableOptions::new(),
    };
    assert!(plan.schema().fields.is_empty());
}

#[test]
fn requests_are_counted() {
    let middleware = MetricsMiddleware::new("/v1/query");
    let endpoint = middleware.transform(5u8);
    assert_eq!(*endpoint.endpoint(), 5);
    let fast = endpoint.record("GET", "200", 60_000_000_000);
    assert!(!fast.slow);
    assert_eq!(
        (fast.method.as_str(), fast.api.as_str(), fast.status_code.as_str()),
        ("GET", "/v1/query", "200")
    );
    assert!(endpoint.record("POST", "500", 60_000_000_001).slow);
    assert_eq!(profile_settings(None), (5, 99));
    assert_eq!(
        profile_settings(Some(PProfRequest {
            seconds: 30,
            frequency: 1000
        })),
        (30, 1000)
    );
}

#[test]
fn functions_are_registered() {
    let desc = LogicNotFunction::desc();
    assert_eq!(desc.function_creator, FunctionKind::LogicNot);
    assert_eq!(
        desc.features,
        FunctionFeatures {
            is_deterministic: true,
            negative_function_name: Some("".to_string()),
            is_bool_func: true,
        }
    );
    let mut factory = FunctionFactory::create();
    factory.register("floor", FunctionDescription::creator(FunctionKind::Abs));
    MathsFunction::register(&mut factory);
    for (name, kind) in [
        ("pi", FunctionKind::Pi),
        ("abs", FunctionKind::Abs),
        ("sin", FunctionKind::Sin),
        ("cos", FunctionKind::Cos),
        ("tan", FunctionKind::Tan),
        ("cot", FunctionKind::Cot),
        ("crc32", FunctionKind::Crc32),
        ("degrees", FunctionKind::Degrees),
        ("radians", FunctionKind::Radians),
        ("log", FunctionKind::Log),
        ("log10", FunctionKind::Log10),
        ("log2", FunctionKind::Log2),
        ("ln", FunctionKind::Ln),
        ("ceil", FunctionKind::Ceil),
        ("ceiling", FunctionKind::Ceil),
        ("floor", FunctionKind::Floor),
    ] {
        let desc = factory.get(name).unwrap();
        assert_eq!(desc.function_creator, kind);
        assert!(desc.features.is_deterministic);
    }
    assert!(factory.get("exp").is_none());
}
