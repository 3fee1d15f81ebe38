//! The parameters of an aggregation.

use vstd::prelude::*;
use vstd::string::*;
use crate::snapshot::TypeKind;
use crate::text::{contains_text, str_contains};

verus! {

/// An aggregate function, as far as the parameters of an aggregation hold
/// it: its name, and the kind of what it returns.
#[derive(Debug, Clone, PartialEq, Eq)]
pub struct AggregateFunction {
    pub name: String,
    pub return_kind: TypeKind,
}

/// The parameters of an aggregation. `L` is the layout of the states of
/// the functions in memory.
#[derive(Debug, PartialEq, Eq)]
pub struct AggregatorParams<L> {
    pub group_columns: Vec<usize>,
    pub group_data_types: Vec<TypeKind>,
    pub aggregate_functions: Vec<AggregateFunction>,
    pub aggregate_functions_arguments: Vec<Vec<usize>>,
    /// about function state memory layout
    /// If there is no aggregate function, layout is None
    pub states_layout: Option<L>,
    pub enable_experimental_aggregate_hashtable: bool,
    pub cluster_aggregator: bool,
    pub max_block_size: usize,
    pub max_spill_io_requests: usize,
}

/// The name by which a function that takes distinct values only is known.
pub open spec fn distinct_marker() -> Seq<char> {
    "DistinctCombinator"@
}

/// Whether one of the functions takes distinct values only.
pub open spec fn any_distinct(functions: Seq<AggregateFunction>) -> bool {
    exists|i: int|
        0 <= i < functions.len() && contains_text((#[trigger] functions[i]).name@, distinct_marker())
}

/// The kinds of the columns of the block of an aggregation without rows:
/// what each function returns, then the kinds of the groups.
pub open spec fn result_kinds(functions: Seq<AggregateFunction>, groups: Seq<TypeKind>) -> Seq<
    TypeKind,
> {
    Seq::new(functions.len(), |i: int| functions[i].return_kind) + groups
}

impl<L> AggregatorParams<L> {
    /// The parameters of an aggregation. The layout of the states is kept
    /// only where there is a function to have a state.
    pub fn try_create(
        group_data_types: Vec<TypeKind>,
        group_columns: Vec<usize>,
        agg_funcs: Vec<AggregateFunction>,
        agg_args: Vec<Vec<usize>>,
        states_layout: L,
        enable_experimental_aggregate_hashtable: bool,
        cluster_aggregator: bool,
        max_block_size: usize,
        max_spill_io_requests: usize,
    ) -> (r: AggregatorParams<L>)
        ensures
            r.group_columns == group_columns,
            r.group_data_types == group_data_types,
            r.aggregate_functions == agg_funcs,
            r.aggregate_functions_arguments == agg_args,
            r.states_layout == (if agg_funcs@.len() > 0 {
                Some(states_layout)
            } else {
                None
            }),
            r.enable_experimental_aggregate_hashtable == enable_experimental_aggregate_hashtable,
            r.cluster_aggregator == cluster_aggregator,
            r.max_block_size == max_block_size,
            r.max_spill_io_requests == max_spill_io_requests,
    {
        let states_layout = if agg_funcs.len() > 0 {
            Some(states_layout)
        } else {
            None
        };
        AggregatorParams {
            group_columns,
            group_data_types,
            aggregate_functions: agg_funcs,
            aggregate_functions_arguments: agg_args,
            states_layout,
            enable_experimental_aggregate_hashtable,
            cluster_aggregator,
            max_block_size,
            max_spill_io_requests,
        }
    }

    /// Whether one of the functions takes distinct values only.
    pub fn has_distinct_combinator(&self) -> (r: bool)
        ensures
            r == any_distinct(self.aggregate_functions@),
    {
        let mut i: usize = 0;
        while i < self.aggregate_functions.len()
            invariant
                i <= self.aggregate_functions.len(),
                forall|j: int|
                    0 <= j < i ==> !contains_text(
                        (#[trigger] self.aggregate_functions@[j]).name@,
                        distinct_marker(),
                    ),
            decreases self.aggregate_functions.len() - i,
        {
            if str_contains(self.aggregate_functions[i].name.as_str(), "DistinctCombinator") {
                return true;
            }
            i += 1;
        }
        false
    }

    /// The kinds of the columns of the block of an aggregation without
    /// rows.
    pub fn empty_result_block(&self) -> (r: Vec<TypeKind>)
        ensures
            r@ == result_kinds(self.aggregate_functions@, self.group_data_types@),
    {
        let mut columns: Vec<TypeKind> = Vec::new();
        let mut i: usize = 0;
        while i < self.aggregate_functions.len()
            invariant
                i <= self.aggregate_functions.len(),
                columns@ == Seq::new(i as nat, |k: int| self.aggregate_functions@[k].return_kind),
            decreases self.aggregate_functions.len() - i,
        {
            columns.push(self.aggregate_functions[i].return_kind);
            assert(columns@ =~= Seq::new(
                (i + 1) as nat,
                |k: int| self.aggregate_functions@[k].return_kind,
            ));
            i += 1;
        }
        let ghost front = columns@;
        let mut k: usize = 0;
        while k < self.group_data_types.len()
            invariant
                k <= self.group_data_types.len(),
                columns@ == front + self.group_data_types@.subrange(0, k as int),
            decreases self.group_data_types.len() - k,
        {
            columns.push(self.group_data_types[k]);
            k += 1;
        }
        assert(self.group_data_types@.subrange(0, self.group_data_types@.len() as int)
            =~= self.group_data_types@);
        columns
    }

    /// How many states there are: one for each function.
    pub fn num_states(&self) -> (r: usize)
        ensures
            r == self.aggregate_functions@.len(),
    {
        self.aggregate_functions.len()
    }
}

} // verus!
