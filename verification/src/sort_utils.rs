//! Helpers of sorting: the heap of a merge, and the column that keeps the
//! order of sorted blocks.

use vstd::prelude::*;
use vstd::string::*;
use crate::snapshot::TypeKind;
use crate::text::str_eq;

verus! {

/// The name of the column that keeps the order of sorted blocks.
pub const ORDER_COL_NAME: &'static str = "_order_col";

/// Whether `heap` is laid out as a heap with the greatest item on top: no
/// item is greater than its parent.
pub open spec fn is_max_heap(heap: Seq<u64>) -> bool {
    forall|i: int| 1 <= i < heap.len() ==> #[trigger] heap[i] <= heap[(i - 1) / 2]
}

/// The greater of two numbers.
pub open spec fn max_of(a: u64, b: u64) -> u64 {
    if a >= b {
        a
    } else {
        b
    }
}

/// Find the bigger child of the root of the heap.
pub fn find_bigger_child_of_root(heap: &[u64]) -> (r: &u64)
    requires
        heap@.len() >= 2,
    ensures
        *r == (if heap@.len() == 2 {
            heap@[1]
        } else {
            max_of(heap@[1], heap@[2])
        }),
{
    if heap.len() == 2 {
        &heap[1]
    } else if heap[1] >= heap[2] {
        &heap[1]
    } else {
        &heap[2]
    }
}

/// In a heap, no item below the root is greater than the bigger child of
/// the root: that child is the second greatest item.
pub proof fn lemma_bigger_child_is_second(heap: Seq<u64>, i: int)
    requires
        is_max_heap(heap),
        heap.len() >= 2,
        1 <= i < heap.len(),
    ensures
        heap[i] <= (if heap.len() == 2 {
            heap[1]
        } else {
            max_of(heap[1], heap[2])
        }),
    decreases i,
{
    if i > 2 {
        let parent = (i - 1) / 2;
        lemma_bigger_child_is_second(heap, parent);
    }
}

/// A field of a block of data: its name, and the kind of its values.
#[derive(Debug, Clone, PartialEq, Eq)]
pub struct DataField {
    pub name: String,
    pub kind: TypeKind,
}

/// The fields of a block of data.
#[derive(Debug, Clone, PartialEq, Eq)]
pub struct DataSchema {
    pub fields: Vec<DataField>,
}

/// By which column blocks are sorted, and how.
#[derive(Debug, Clone, Copy, PartialEq, Eq, Structural)]
pub struct SortColumnDescription {
    pub offset: usize,
    pub asc: bool,
    pub nulls_first: bool,
}

/// Whether values of the kind can stand for their own order.
pub open spec fn is_simple_order_kind(kind: TypeKind) -> bool {
    kind == TypeKind::Number || kind == TypeKind::Date || kind == TypeKind::Timestamp || kind
        == TypeKind::Binary || kind == TypeKind::String
}

/// The kind of the order column: that of the column sorted by, where there
/// is one column only and its values can stand for their own order; else
/// bytes.
pub open spec fn order_field_kind(schema: Seq<DataField>, desc: Seq<SortColumnDescription>) -> TypeKind {
    if desc.len() == 1 && desc[0].offset < schema.len() && is_simple_order_kind(
        schema[desc[0].offset as int].kind,
    ) {
        schema[desc[0].offset as int].kind
    } else {
        TypeKind::Binary
    }
}

/// The kind of the order column.
pub fn order_field_type(schema: &DataSchema, desc: &[SortColumnDescription]) -> (r: TypeKind)
    requires
        desc@.len() > 0,
        desc@.len() == 1 ==> desc@[0].offset < schema.fields@.len(),
    ensures
        r == order_field_kind(schema.fields@, desc@),
{
    if desc.len() == 1 {
        let order_by_field = &schema.fields[desc[0].offset];
        if matches!(
            order_by_field.kind,
            TypeKind::Number | TypeKind::Date | TypeKind::Timestamp | TypeKind::Binary | TypeKind::String
        ) {
            return order_by_field.kind;
        }
    }
    TypeKind::Binary
}

/// Whether the last field of the schema is the order column.
pub open spec fn has_order(schema: Seq<DataField>) -> bool {
    schema.len() > 0 && schema.last().name@ == ORDER_COL_NAME@
}

/// Whether the last field of the schema is the order column.
pub fn has_order_field(schema: &DataSchema) -> (r: bool)
    ensures
        r == has_order(schema.fields@),
{
    let n = schema.fields.len();
    n > 0 && str_eq(schema.fields[n - 1].name.as_str(), ORDER_COL_NAME)
}

/// Puts the order column behind the fields of the schema, unless it is
/// there already.
pub fn add_order_field(schema: DataSchema, desc: &[SortColumnDescription]) -> (r: DataSchema)
    requires
        desc@.len() > 0,
        desc@.len() == 1 ==> desc@[0].offset < schema.fields@.len(),
    ensures
        has_order(schema.fields@) ==> r == schema,
        !has_order(schema.fields@) ==> r.fields@.len() == schema.fields@.len() + 1
            && r.fields@.subrange(0, schema.fields@.len() as int) == schema.fields@
            && r.fields@.last().name@ == ORDER_COL_NAME@ && r.fields@.last().kind
            == order_field_kind(schema.fields@, desc@),
{
    if has_order_field(&schema) {
        schema
    } else {
        let kind = order_field_type(&schema, desc);
        let mut fields = schema.fields;
        fields.push(DataField { name: String::from_str(ORDER_COL_NAME), kind });
        DataSchema { fields }
    }
}

/// How a sort is built.
#[derive(Debug, Clone, PartialEq, Eq)]
pub struct SortPipelineBuilder {
    schema: DataSchema,
    sort_desc: Vec<SortColumnDescription>,
    limit: Option<usize>,
    block_size: usize,
    remove_order_col_at_last: bool,
}

/// Which pipeline a sort is built as.
#[derive(Debug, Clone, Copy, PartialEq, Eq, Structural)]
pub enum SortPipelineKind {
    /// On the coordinator, over sorted streams of several nodes: merge them.
    MultiMerge,
    /// On the coordinator, over one sorted stream: merge sort it, the order
    /// column being there already.
    MergeSortOfSorted,
    /// The whole sort: sort parts, then merge them.
    FullSort,
}

/// What the sort of a plan comes to.
#[derive(Debug, Clone, Copy, PartialEq, Eq, Structural)]
pub struct SortPipelinePlan {
    pub kind: SortPipelineKind,
    pub remove_order_col_at_last: bool,
    /// Whether the pipeline is widened to all threads first.
    pub resize_to_max_threads: bool,
}

impl SortPipelineBuilder {
    /// A builder for blocks of the schema `schema`, sorted by `sort_desc`,
    /// in blocks of `block_size` rows at most.
    pub fn create(schema: DataSchema, sort_desc: Vec<SortColumnDescription>, block_size: usize) -> (r:
        Self)
        ensures
            r.limit_view() is None,
            r.block_size_view() == block_size,
            !r.removes_order_col(),
    {
        Self { schema, sort_desc, limit: None, block_size, remove_order_col_at_last: false }
    }

    /// How many rows are wanted at most.
    pub closed spec fn limit_view(&self) -> Option<usize> {
        self.limit
    }

    /// How many rows a block holds at most.
    pub closed spec fn block_size_view(&self) -> usize {
        self.block_size
    }

    /// Whether the order column is taken off at the end.
    pub closed spec fn removes_order_col(&self) -> bool {
        self.remove_order_col_at_last
    }

    /// The builder with `limit` rows wanted at most.
    pub fn with_limit(self, limit: Option<usize>) -> (r: Self)
        ensures
            r.limit_view() == limit,
            r.block_size_view() == self.block_size_view(),
            r.removes_order_col() == self.removes_order_col(),
    {
        let mut r = self;
        r.limit = limit;
        r
    }

    /// The expected output block size, the actual output block size will be
    /// equal to or less than the given value.
    pub fn with_block_size_hit(self, block_size: usize) -> (r: Self)
        ensures
            r.block_size_view() == (if self.block_size_view() <= block_size {
                self.block_size_view()
            } else {
                block_size
            }),
            r.limit_view() == self.limit_view(),
            r.removes_order_col() == self.removes_order_col(),
    {
        let mut r = self;
        if block_size < r.block_size {
            r.block_size = block_size;
        }
        r
    }

    /// The builder that takes the order column off at the end.
    pub fn remove_order_col_at_last(self) -> (r: Self)
        ensures
            r.removes_order_col(),
            r.limit_view() == self.limit_view(),
            r.block_size_view() == self.block_size_view(),
    {
        let mut r = self;
        r.remove_order_col_at_last = true;
        r
    }

    /// How many rows are wanted at most.
    pub fn limit(&self) -> (r: Option<usize>)
        ensures
            r == self.limit_view(),
    {
        self.limit
    }

    /// How many rows a block holds at most.
    pub fn block_size(&self) -> (r: usize)
        ensures
            r == self.block_size_view(),
    {
        self.block_size
    }

    /// Whether the merge sort puts out the order column: it does for a
    /// merge of several streams to come, and where the column is not taken
    /// off at the end.
    pub fn outputs_order_col(&self, pipeline_outputs: usize) -> (r: bool)
        ensures
            r == (pipeline_outputs > 1 || !self.removes_order_col()),
    {
        pipeline_outputs > 1 || !self.remove_order_col_at_last
    }
}

/// Decides how a sort is built from where it runs.
///
/// After an exchange the data of each node is sorted already: the
/// coordinator merges the streams, or merge sorts the one stream there is.
/// Before an exchange each node does the whole sort and keeps the order
/// column. On a single node the whole sort is done and the order column
/// taken off. A pipeline of one output, or a single thread, is widened to
/// all threads first.
pub fn plan_sort_pipeline(after_exchange: Option<bool>, pipeline_outputs: usize, max_threads: usize) -> (r:
    SortPipelinePlan)
    ensures
        r.resize_to_max_threads == (pipeline_outputs == 1 || max_threads == 1),
        r.kind == (match after_exchange {
            Some(true) => if (if r.resize_to_max_threads {
                max_threads
            } else {
                pipeline_outputs
            }) > 1 {
                SortPipelineKind::MultiMerge
            } else {
                SortPipelineKind::MergeSortOfSorted
            },
            _ => SortPipelineKind::FullSort,
        }),
        r.remove_order_col_at_last == !(after_exchange == Some(false)),
{
    let resize = pipeline_outputs == 1 || max_threads == 1;
    let outputs = if resize {
        max_threads
    } else {
        pipeline_outputs
    };
    match after_exchange {
        Some(true) => {
            if outputs > 1 {
                SortPipelinePlan {
                    kind: SortPipelineKind::MultiMerge,
                    remove_order_col_at_last: true,
                    resize_to_max_threads: resize,
                }
            } else {
                SortPipelinePlan {
                    kind: SortPipelineKind::MergeSortOfSorted,
                    remove_order_col_at_last: true,
                    resize_to_max_threads: resize,
                }
            }
        },
        Some(false) => SortPipelinePlan {
            kind: SortPipelineKind::FullSort,
            remove_order_col_at_last: false,
            resize_to_max_threads: resize,
        },
        None => SortPipelinePlan {
            kind: SortPipelineKind::FullSort,
            remove_order_col_at_last: true,
            resize_to_max_threads: resize,
        },
    }
}


/// The place of the first field of the name `name`, or the number of
/// fields where there is none.
pub open spec fn field_index(fields: Seq<DataField>, name: Seq<char>) -> int
    decreases fields.len(),
{
    if fields.len() == 0 {
        0
    } else if fields[0].name@ == name {
        0
    } else {
        1 + field_index(fields.drop_first(), name)
    }
}

/// `field_index` is within the fields or just behind them, names the name
/// where it is within, and passes no field of the name.
pub proof fn lemma_field_index(fields: Seq<DataField>, name: Seq<char>)
    ensures
        0 <= field_index(fields, name) <= fields.len(),
        field_index(fields, name) < fields.len() ==> fields[field_index(fields, name)].name@
            == name,
        forall|i: int| 0 <= i < field_index(fields, name) ==> (#[trigger] fields[i]).name@ != name,
    decreases fields.len(),
{
    if fields.len() == 0 {
    } else if fields[0].name@ == name {
    } else {
        let t = fields.drop_first();
        lemma_field_index(t, name);
        assert forall|i: int| 0 <= i < field_index(fields, name) implies (#[trigger] fields[i]).name@
            != name by {
            if i > 0 {
                assert(t[i - 1] == fields[i]);
            }
        }
    }
}

/// A place that names the name (or the end) and passes no field of the
/// name is `field_index`.
pub proof fn lemma_field_index_unique(fields: Seq<DataField>, name: Seq<char>, k: int)
    requires
        0 <= k <= fields.len(),
        k < fields.len() ==> fields[k].name@ == name,
        forall|i: int| 0 <= i < k ==> (#[trigger] fields[i]).name@ != name,
    ensures
        field_index(fields, name) == k,
{
    lemma_field_index(fields, name);
}

impl DataSchema {
    /// The place of the first field of the name `name`, if there is one.
    pub fn index_of(&self, name: &str) -> (r: Option<usize>)
        ensures
            match r {
                Some(i) => i == field_index(self.fields@, name@) && i < self.fields@.len(),
                None => field_index(self.fields@, name@) == self.fields@.len(),
            },
    {
        let mut i: usize = 0;
        while i < self.fields.len()
            invariant
                i <= self.fields.len(),
                forall|j: int| 0 <= j < i ==> (#[trigger] self.fields@[j]).name@ != name@,
            decreases self.fields.len() - i,
        {
            if str_eq(self.fields[i].name.as_str(), name) {
                proof {
                    lemma_field_index_unique(self.fields@, name@, i as int);
                }
                return Some(i);
            }
            i += 1;
        }
        proof {
            lemma_field_index_unique(self.fields@, name@, i as int);
        }
        None
    }
}

/// The places in the schema of those of the first `upto` names that the
/// schema has, in the order of the names.
pub open spec fn found_places(fields: Seq<DataField>, names: Seq<String>, upto: int) -> Seq<usize>
    decreases upto,
{
    if upto <= 0 {
        Seq::empty()
    } else if field_index(fields, names[upto - 1]@) < fields.len() {
        found_places(fields, names, upto - 1).push(field_index(fields, names[upto - 1]@) as usize)
    } else {
        found_places(fields, names, upto - 1)
    }
}

/// The columns that a sort keeps of its input: the places of the columns
/// named, as far as the input has them.
pub fn sort_projection(input_schema: &DataSchema, pre_projection: &Vec<String>) -> (r: Vec<usize>)
    ensures
        r@ == found_places(input_schema.fields@, pre_projection@, pre_projection@.len() as int),
{
    let mut projection: Vec<usize> = Vec::new();
    let mut i: usize = 0;
    while i < pre_projection.len()
        invariant
            i <= pre_projection.len(),
            projection@ == found_places(input_schema.fields@, pre_projection@, i as int),
        decreases pre_projection.len() - i,
    {
        match input_schema.index_of(pre_projection[i].as_str()) {
            Some(place) => projection.push(place),
            None => {},
        }
        i += 1;
    }
    projection
}

/// Whether a sort puts a projection in front: the data has not come over
/// an exchange, columns are named to keep, and they are fewer than the
/// input has.
pub fn needs_projection(
    after_exchange: Option<bool>,
    projection: &Option<Vec<usize>>,
    input_fields: usize,
) -> (r: bool)
    ensures
        r == (after_exchange != Some(true) && (projection matches Some(p) && p@.len()
            < input_fields)),
{
    if matches!(after_exchange, Some(true)) {
        return false;
    }
    match projection {
        Some(p) => p.len() < input_fields,
        None => false,
    }
}

/// By which column of the plan rows are ordered, by name.
#[derive(Debug, Clone, PartialEq, Eq)]
pub struct OrderBy {
    pub order_by: String,
    pub asc: bool,
    pub nulls_first: bool,
}

/// Whether `desc` orders by the columns that `order_by` names, each at its
/// place in the schema.
pub open spec fn describes_order(
    desc: Seq<SortColumnDescription>,
    fields: Seq<DataField>,
    order_by: Seq<OrderBy>,
) -> bool {
    &&& desc.len() == order_by.len()
    &&& forall|i: int|
        0 <= i < desc.len() ==> (#[trigger] desc[i]).offset == field_index(
            fields,
            order_by[i].order_by@,
        ) && desc[i].offset < fields.len() && desc[i].asc == order_by[i].asc
            && desc[i].nulls_first == order_by[i].nulls_first
}

/// Whether the schema has every column that `order_by` names.
pub open spec fn all_found(fields: Seq<DataField>, order_by: Seq<OrderBy>) -> bool {
    forall|i: int|
        0 <= i < order_by.len() ==> field_index(fields, (#[trigger] order_by[i]).order_by@)
            < fields.len()
}

/// Finds the columns that a sort orders by in the schema of the plan. A
/// column that the schema has not is refused.
pub fn sort_descriptions(plan_schema: &DataSchema, order_by: &Vec<OrderBy>) -> (r: Result<
    Vec<SortColumnDescription>,
    crate::error::ErrorCode,
>)
    ensures
        match r {
            Ok(desc) => all_found(plan_schema.fields@, order_by@) && describes_order(
                desc@,
                plan_schema.fields@,
                order_by@,
            ),
            Err(e) => !all_found(plan_schema.fields@, order_by@) && e is BadArguments,
        },
{
    let mut sort_desc: Vec<SortColumnDescription> = Vec::new();
    let mut i: usize = 0;
    while i < order_by.len()
        invariant
            i <= order_by.len(),
            sort_desc@.len() == i,
            forall|j: int|
                0 <= j < i ==> field_index(plan_schema.fields@, (#[trigger] order_by@[j]).order_by@)
                    < plan_schema.fields@.len(),
            forall|j: int|
                0 <= j < i ==> (#[trigger] sort_desc@[j]).offset == field_index(
                    plan_schema.fields@,
                    order_by@[j].order_by@,
                ) && sort_desc@[j].offset < plan_schema.fields@.len() && sort_desc@[j].asc
                    == order_by@[j].asc && sort_desc@[j].nulls_first == order_by@[j].nulls_first,
        decreases order_by.len() - i,
    {
        let offset = match plan_schema.index_of(order_by[i].order_by.as_str()) {
            Some(offset) => offset,
            None => {
                let mut m = String::from_str("Unable to get field named \"");
                m.append(order_by[i].order_by.as_str());
                m.append("\"");
                return Err(crate::error::ErrorCode::BadArguments(m));
            },
        };
        sort_desc.push(
            SortColumnDescription {
                offset,
                asc: order_by[i].asc,
                nulls_first: order_by[i].nulls_first,
            },
        );
        i += 1;
    }
    Ok(sort_desc)
}

/// How a merge sort is built.
#[derive(Debug, Clone, Copy, PartialEq, Eq, Structural)]
pub struct MergeSortPlan {
    /// Whether the streams are merged into one afterwards.
    pub need_multi_merge: bool,
    /// Whether the order column is put out.
    pub output_order_col: bool,
    /// Whether the sort may spill to disk.
    pub may_spill: bool,
    /// Whether the order column is put behind the fields for the merge
    /// sort.
    pub add_order_field: bool,
}

/// Decides how a merge sort is built: several outputs are merged
/// afterwards; the order column is put out for that merge and where it is
/// not taken off at the end; the sort may spill where memory is limited in
/// all and for each thread; and the order column is there for the merge
/// sort where it is put out or the sort may spill.
pub fn plan_merge_sort(
    pipeline_outputs: usize,
    remove_order_col_at_last: bool,
    max_memory_usage: usize,
    bytes_limit_per_proc: usize,
) -> (r: MergeSortPlan)
    ensures
        r.need_multi_merge == (pipeline_outputs > 1),
        r.output_order_col == (pipeline_outputs > 1 || !remove_order_col_at_last),
        r.may_spill == (max_memory_usage != 0 && bytes_limit_per_proc != 0),
        r.add_order_field == (r.output_order_col || r.may_spill),
{
    // Merge sort
    let need_multi_merge = pipeline_outputs > 1;
    let output_order_col = need_multi_merge || !remove_order_col_at_last;
    let may_spill = max_memory_usage != 0 && bytes_limit_per_proc != 0;
    MergeSortPlan {
        need_multi_merge,
        output_order_col,
        may_spill,
        add_order_field: output_order_col || may_spill,
    }
}

/// How several sorted streams are merged into one.
#[derive(Debug, Clone, Copy, PartialEq, Eq, Structural)]
pub enum MultiMergeKind {
    /// By as many threads as there are, each merging a share.
    KWayMergeSort,
    /// By one processor.
    MultiSortMerge,
}

/// Chooses how several sorted streams are merged.
pub fn plan_multi_merge(enable_parallel_multi_merge_sort: bool) -> (r: MultiMergeKind)
    ensures
        r == (if enable_parallel_multi_merge_sort {
            MultiMergeKind::KWayMergeSort
        } else {
            MultiMergeKind::MultiSortMerge
        }),
{
    if enable_parallel_multi_merge_sort {
        MultiMergeKind::KWayMergeSort
    } else {
        MultiMergeKind::MultiSortMerge
    }
}

} // verus!
