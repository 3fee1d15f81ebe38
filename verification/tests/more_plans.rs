use fuse_storage::column_error::Error;
use fuse_storage::error::ErrorCode;
use fuse_storage::functions::{register_integer_basic_arithmetic, NumberDataType};
use fuse_storage::hive_partition::{parse_hive_partitions, HivePartitionFiller};
use fuse_storage::list_iterator::deserialize_list;
use fuse_storage::replace_into::{BlockMeta, ReplaceIntoOperation};
use fuse_storage::snapshot::TypeKind;
use fuse_storage::sort_utils::{
    needs_projection, plan_merge_sort, plan_multi_merge, sort_descriptions, sort_projection,
    DataField, DataSchema, MultiMergeKind, OrderBy, SortColumnDescription,
};

fn schema(names: &[&str]) -> DataSchema {
    DataSchema {
        fields: names
            .iter()
            .map(|n| DataField {
                name: n.to_string(),
                kind: TypeKind::Number,
            })
            .collect(),
    }
}

#[test]
fn projection_of_a_sort() {
    let input = schema(&["a", "b", "c", "b"]);
    let names = vec!["c".to_string(), "x".to_string(), "b".to_string()];
    assert_eq!(sort_projection(&input, &names), vec![2, 1]);
    assert_eq!(input.index_of("b"), Some(1));
    assert_eq!(input.index_of("z"), None);
    assert!(needs_projection(None, &Some(vec![2, 1]), 4));
    assert!(!needs_projection(None, &Some(vec![0, 1, 2, 3]), 4));
    assert!(!needs_projection(Some(true), &Some(vec![2, 1]), 4));
    assert!(needs_projection(Some(false), &Some(vec![]), 4));
    assert!(!needs_projection(None, &None, 4));
}

#[test]
fn descriptions_of_a_sort() {
    let plan = schema(&["a", "b", "c"]);
    let by = |name: &str, asc, nulls_first| OrderBy {
        order_by: name.to_string(),
        asc,
        nulls_first,
    };
    assert_eq!(
        sort_descriptions(&plan, &vec![by("c", true, false), by("a", false, true)]),
        Ok(vec![
            SortColumnDescription {
                offset: 2,
                asc: true,
                nulls_first: false
            },
            SortColumnDescription {
                offset: 0,
                asc: false,
                nulls_first: true
            },
        ])
    );
    assert_eq!(
        sort_descriptions(&plan, &vec![by("c", true, false), by("d", false, true)]),
        Err(ErrorCode::BadArguments(
            "Unable to get field named \"d\"".to_string()
        ))
    );
    assert_eq!(sort_descriptions(&plan, &vec![]), Ok(vec![]));
}

#[test]
fn merge_sort_plans() {
    let plan = plan_merge_sort(1, true, 0, 0);
    assert!(!plan.need_multi_merge && !plan.output_order_col && !plan.may_spill);
    assert!(!plan.add_order_field);
    let plan = plan_merge_sort(1, true, 1 << 30, 1 << 20);
    assert!(plan.may_spill && plan.add_order_field && !plan.output_order_col);
    let plan = plan_merge_sort(1, true, 1 << 30, 0);
    assert!(!plan.may_spill);
    let plan = plan_merge_sort(4, true, 0, 0);
    assert!(plan.need_multi_merge && plan.output_order_col && plan.add_order_field);
    let plan = plan_merge_sort(1, false, 0, 0);
    assert!(!plan.need_multi_merge && plan.output_order_col);
    assert_eq!(plan_multi_merge(true), MultiMergeKind::KWayMergeSort);
    assert_eq!(plan_multi_merge(false), MultiMergeKind::MultiSortMerge);
}

#[test]
fn operation_attached_to_a_block() {
    assert_eq!(
        ReplaceIntoOperation::try_from_block_meta(Some(BlockMeta::ReplaceInto(
            ReplaceIntoOperation::Nothing
        ))),
        Ok(ReplaceIntoOperation::Nothing)
    );
    assert_eq!(
        ReplaceIntoOperation::try_from_block_meta(None),
        Err(ErrorCode::Internal(
            "convert ReplaceIntoOperation from data block failed, no block meta found".to_string()
        ))
    );
    assert_eq!(
        ReplaceIntoOperation::try_from_block_meta(Some(BlockMeta::Other)),
        Err(ErrorCode::Internal(
            "downcast block meta to MutationIntoOperation failed, type mismatch".to_string()
        ))
    );
}

#[test]
fn pairs_of_integer_types() {
    let mut registry = vec![(NumberDataType::Int8, NumberDataType::Int8)];
    register_integer_basic_arithmetic(&mut registry);
    assert_eq!(registry.len(), 65);
    assert_eq!(registry[1], (NumberDataType::UInt8, NumberDataType::UInt8));
    assert_eq!(registry[2], (NumberDataType::UInt8, NumberDataType::UInt16));
    assert_eq!(registry[8], (NumberDataType::UInt8, NumberDataType::Int64));
    assert_eq!(registry[9], (NumberDataType::UInt16, NumberDataType::UInt8));
    assert_eq!(registry[1 + 4 * 8 + 3], (NumberDataType::Int8, NumberDataType::UInt64));
    assert_eq!(registry[64], (NumberDataType::Int64, NumberDataType::Int64));
}

#[test]
fn partitions_in_a_location() {
    let partitions = parse_hive_partitions("warehouse/t/year=2024/month=03/part-0.parquet");
    assert_eq!(partitions.get("year").map(|v| v.as_str()), Some("2024"));
    assert_eq!(partitions.get("month").map(|v| v.as_str()), Some("03"));
    assert!(!partitions.contains_key("warehouse"));
    assert!(!partitions.contains_key("part-0.parquet"));
    let odd = parse_hive_partitions("a=1/a=2//b=/=c/d=e=f/g");
    assert_eq!(odd.get("a").map(|v| v.as_str()), Some("2"));
    assert_eq!(odd.get("b").map(|v| v.as_str()), Some(""));
    assert_eq!(odd.get("").map(|v| v.as_str()), Some("c"));
    assert!(!odd.contains_key("d"));
    assert!(!odd.contains_key("g"));

    let filler = HivePartitionFiller::create(vec!["month".to_string(), "year".to_string()]);
    assert_eq!(
        filler.extract_scalars("t/year=2024/month=03/f"),
        Ok(vec!["03".to_string(), "2024".to_string()])
    );
    assert_eq!(
        filler.extract_scalars("t/year=2024/f"),
        Err(ErrorCode::TableInfoError(
            "couldn't find hive partition info :month".to_string()
        ))
    );
    assert_eq!(HivePartitionFiller::create(vec![]).extract_scalars(""), Ok(vec![]));
}

#[test]
fn pages_of_a_list() {
    let wrap = |nested: u8, values: Vec<u8>| (nested + 1, vec![values.len() as u8]);
    assert_eq!(
        deserialize_list(Some(Ok((1u8, vec![7u8, 8]))), wrap),
        Some(Ok((2, vec![2])))
    );
    assert_eq!(
        deserialize_list(Some(Err(Error::Overflow)), wrap),
        Some(Err(Error::Overflow))
    );
    assert_eq!(deserialize_list(None, wrap), None);
}
