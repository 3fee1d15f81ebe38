//! Checking a block of data against the schema that it is read for.

use vstd::prelude::*;
use vstd::string::*;
use crate::error::ErrorCode;
use crate::snapshot::{DataType, TableSchema, TypeKind};

verus! {

/// A column of a block: the type of its values.
#[derive(Debug, Clone, Copy, PartialEq, Eq, Structural)]
pub struct BlockColumn {
    pub data_type: DataType,
}

/// The columns of a block of data.
#[derive(Debug, Clone, PartialEq, Eq)]
pub struct BlockSchema {
    pub columns: Vec<BlockColumn>,
}

/// Whether values of the type may be without a value: the type is nullable
/// or is the type of nothing.
pub open spec fn is_nullable_or_null(data_type: DataType) -> bool {
    data_type.nullable || data_type.kind == TypeKind::Null
}

/// Whether the column at `i` cannot be read for the field at `i`: the
/// column may lack values and the field may not, or they are of different
/// kinds.
pub open spec fn column_mismatch(block: Seq<BlockColumn>, schema: TableSchema, i: int) -> bool {
    (is_nullable_or_null(block[i].data_type) && !schema.fields@[i].data_type.nullable)
        || block[i].data_type.kind != schema.fields@[i].data_type.kind
}

/// Whether the block can be read for the schema: as many columns as
/// fields, and no column that cannot be read for its field.
pub open spec fn block_matches(block: Seq<BlockColumn>, schema: TableSchema) -> bool {
    &&& block.len() == schema.fields@.len()
    &&& forall|i: int| 0 <= i < block.len() ==> !column_mismatch(block, schema, i)
}

/// The type of a column once it is read for its field: nullable where the
/// field is.
pub open spec fn adjusted(column: BlockColumn, field_type: DataType) -> BlockColumn {
    if field_type.nullable && !is_nullable_or_null(column.data_type) {
        BlockColumn { data_type: DataType { kind: column.data_type.kind, nullable: true } }
    } else {
        column
    }
}

/// Whether values of the type may be without a value.
fn nullable_or_null(data_type: &DataType) -> (r: bool)
    ensures
        r == is_nullable_or_null(*data_type),
{
    data_type.nullable || matches!(data_type.kind, TypeKind::Null)
}

/// Whether two kinds of column are the same.
fn same_kind(a: &TypeKind, b: &TypeKind) -> (r: bool)
    ensures
        r == (*a == *b),
{
    match (a, b) {
        (TypeKind::Null, TypeKind::Null) => true,
        (TypeKind::Boolean, TypeKind::Boolean) => true,
        (TypeKind::Number, TypeKind::Number) => true,
        (TypeKind::Decimal, TypeKind::Decimal) => true,
        (TypeKind::Timestamp, TypeKind::Timestamp) => true,
        (TypeKind::Date, TypeKind::Date) => true,
        (TypeKind::String, TypeKind::String) => true,
        (TypeKind::Binary, TypeKind::Binary) => true,
        (TypeKind::Variant, TypeKind::Variant) => true,
        _ => false,
    }
}

/// Checks that a block can be read for a schema, and makes its columns
/// nullable where the fields are.
///
/// The block must have as many columns as the schema has fields. A column
/// that may lack values needs a field that may; a column and its field must
/// be of one kind. The first column at fault is the one reported. A column
/// that is sound keeps its type, but becomes nullable where its field is.
pub fn check_block_schema(schema: &TableSchema, block: BlockSchema) -> (r: Result<
    BlockSchema,
    ErrorCode,
>)
    ensures
        match r {
            Ok(checked) => block_matches(block.columns@, *schema) && checked.columns@.len()
                == block.columns@.len() && forall|i: int|
                0 <= i < block.columns@.len() ==> #[trigger] checked.columns@[i] == adjusted(
                    block.columns@[i],
                    schema.fields@[i].data_type,
                ),
            Err(e) => !block_matches(block.columns@, *schema) && e is TableSchemaMismatch,
        },
{
    let ghost given = block.columns@;
    let mut columns = block.columns;
    if columns.len() != schema.fields.len() {
        let mut message = String::from_str("Data schema mismatched. Data columns length: ");
        message.append(crate::text::u64_to_decimal(columns.len() as u64).as_str());
        message.append(", schema fields length: ");
        message.append(crate::text::u64_to_decimal(schema.fields.len() as u64).as_str());
        return Err(ErrorCode::TableSchemaMismatch(message));
    }
    let mut i: usize = 0;
    while i < columns.len()
        invariant
            i <= columns@.len(),
            given == block.columns@,
            columns@.len() == given.len(),
            given.len() == schema.fields@.len(),
            forall|j: int| 0 <= j < i ==> !column_mismatch(given, *schema, j),
            forall|j: int|
                0 <= j < i ==> #[trigger] columns@[j] == adjusted(
                    given[j],
                    schema.fields@[j].data_type,
                ),
            forall|j: int| i <= j < given.len() ==> #[trigger] columns@[j] == given[j],
        decreases columns.len() - i,
    {
        let col = columns[i];
        let field_type = schema.fields[i].data_type;
        // If the actual data is nullable, the field must be nullbale.
        if nullable_or_null(&col.data_type) && !field_type.nullable {
            assert(column_mismatch(given, *schema, i as int));
            let mut message = String::from_str("Data schema mismatched (col name: ");
            message.append(schema.fields[i].name.as_str());
            message.append("). Data column is nullable, but schema field is not nullable");
            return Err(ErrorCode::TableSchemaMismatch(message));
        }
        // The inner type of the data and field should be the same.
        if !same_kind(&col.data_type.kind, &field_type.kind) {
            assert(column_mismatch(given, *schema, i as int));
            let mut message = String::from_str("Data schema mismatched (col name: ");
            message.append(schema.fields[i].name.as_str());
            message.append("). Data column type differs from the schema field type");
            return Err(ErrorCode::TableSchemaMismatch(message));
        }
        // If the field is nullable but the actual data is not nullable,
        // we should wrap nullable for the data.
        if field_type.nullable && !nullable_or_null(&col.data_type) {
            columns.set(
                i,
                BlockColumn { data_type: DataType { kind: col.data_type.kind, nullable: true } },
            );
        }
        i += 1;
    }
    Ok(BlockSchema { columns })
}

} // verus!
