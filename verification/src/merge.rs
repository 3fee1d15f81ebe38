//! The clauses of a merge statement: which of them apply to matched rows
//! and which to unmatched ones, and what kind of mutation they make.

use vstd::prelude::*;
use vstd::string::*;
use crate::error::ErrorCode;

verus! {

/// What is done to a row of the target that matches a row of the source.
#[derive(Debug, Clone, Copy, PartialEq, Eq, Structural)]
pub enum MatchOperation {
    /// The row is updated; `is_star` says that every column is set from the
    /// source.
    Update { is_star: bool },
    /// The row is deleted.
    Delete,
}

/// A clause for matched rows.
#[derive(Debug, Clone, Copy, PartialEq, Eq, Structural)]
pub struct MatchedClause {
    /// Whether the clause has a condition of its own.
    pub has_selection: bool,
    pub operation: MatchOperation,
}

/// What is inserted for a row of the source without a match.
#[derive(Debug, Clone, Copy, PartialEq, Eq, Structural)]
pub struct InsertOperation {
    /// Whether every column is set from the source.
    pub is_star: bool,
}

/// A clause for unmatched rows.
#[derive(Debug, Clone, Copy, PartialEq, Eq, Structural)]
pub struct UnmatchedClause {
    /// Whether the clause has a condition of its own.
    pub has_selection: bool,
    pub insert_operation: InsertOperation,
}

/// A clause of a merge statement.
#[derive(Debug, Clone, Copy, PartialEq, Eq, Structural)]
pub enum MergeOption {
    Match(MatchedClause),
    Unmatch(UnmatchedClause),
}

/// The kind of mutation that a merge statement makes.
#[derive(Debug, Clone, Copy, PartialEq, Eq, Structural)]
pub enum MutationStrategy {
    /// Only matched rows are changed.
    MatchedOnly,
    /// Only unmatched rows are inserted.
    NotMatchedOnly,
    /// Both.
    MixedMatched,
}

/// The clauses for matched rows among the first `upto` clauses, in order.
pub open spec fn matched_among(options: Seq<MergeOption>, upto: int) -> Seq<MatchedClause>
    decreases upto,
{
    if upto <= 0 {
        Seq::empty()
    } else {
        match options[upto - 1] {
            MergeOption::Match(clause) => matched_among(options, upto - 1).push(clause),
            MergeOption::Unmatch(_) => matched_among(options, upto - 1),
        }
    }
}

/// The clauses for unmatched rows among the first `upto` clauses, in order.
pub open spec fn unmatched_among(options: Seq<MergeOption>, upto: int) -> Seq<UnmatchedClause>
    decreases upto,
{
    if upto <= 0 {
        Seq::empty()
    } else {
        match options[upto - 1] {
            MergeOption::Match(_) => unmatched_among(options, upto - 1),
            MergeOption::Unmatch(clause) => unmatched_among(options, upto - 1).push(clause),
        }
    }
}

/// Whether a clause sets every column from the source.
pub open spec fn has_star(
    matched_clauses: Seq<MatchedClause>,
    unmatched_clauses: Seq<UnmatchedClause>,
) -> bool {
    ||| exists|i: int|
        0 <= i < matched_clauses.len() && (#[trigger] matched_clauses[i]).operation
            == (MatchOperation::Update { is_star: true })
    ||| exists|i: int|
        0 <= i < unmatched_clauses.len() && (#[trigger] unmatched_clauses[i]).insert_operation.is_star
}

/// The kind of mutation for so many clauses of each sort, or `None` where
/// there is no clause at all.
pub open spec fn mutation_type_of(matched_len: int, unmatched_len: int) -> Option<MutationStrategy> {
    if matched_len == 0 && unmatched_len > 0 {
        Some(MutationStrategy::NotMatchedOnly)
    } else if unmatched_len == 0 && matched_len > 0 {
        Some(MutationStrategy::MatchedOnly)
    } else if unmatched_len > 0 && matched_len > 0 {
        Some(MutationStrategy::MixedMatched)
    } else {
        None
    }
}

/// Splits the clauses of a merge statement into those for matched rows and
/// those for unmatched rows, each in their order. A statement without
/// clauses is refused.
pub fn split_merge_into_clauses(merge_options: &[MergeOption]) -> (r: Result<
    (Vec<MatchedClause>, Vec<UnmatchedClause>),
    ErrorCode,
>)
    ensures
        match r {
            Ok((matched, unmatched)) => merge_options@.len() > 0 && matched@ == matched_among(
                merge_options@,
                merge_options@.len() as int,
            ) && unmatched@ == unmatched_among(merge_options@, merge_options@.len() as int),
            Err(e) => merge_options@.len() == 0 && (e matches ErrorCode::BadArguments(m) && m@
                == "at least one matched or unmatched clause for merge into"@),
        },
{
    if merge_options.len() == 0 {
        return Err(
            ErrorCode::BadArguments(
                String::from_str("at least one matched or unmatched clause for merge into"),
            ),
        );
    }
    let mut match_clauses: Vec<MatchedClause> = Vec::new();
    let mut unmatch_clauses: Vec<UnmatchedClause> = Vec::new();
    let mut i: usize = 0;
    while i < merge_options.len()
        invariant
            i <= merge_options.len(),
            match_clauses@ == matched_among(merge_options@, i as int),
            unmatch_clauses@ == unmatched_among(merge_options@, i as int),
        decreases merge_options.len() - i,
    {
        match merge_options[i] {
            MergeOption::Match(match_clause) => match_clauses.push(match_clause),
            MergeOption::Unmatch(unmatch_clause) => unmatch_clauses.push(unmatch_clause),
        }
        i += 1;
    }
    Ok((match_clauses, unmatch_clauses))
}

/// Whether a clause sets every column from the source.
pub fn has_star_clause(
    matched_clauses: &Vec<MatchedClause>,
    unmatched_clauses: &Vec<UnmatchedClause>,
) -> (r: bool)
    ensures
        r == has_star(matched_clauses@, unmatched_clauses@),
{
    let mut i: usize = 0;
    while i < matched_clauses.len()
        invariant
            i <= matched_clauses.len(),
            forall|j: int|
                0 <= j < i ==> (#[trigger] matched_clauses@[j]).operation != (
                MatchOperation::Update { is_star: true }),
        decreases matched_clauses.len() - i,
    {
        if let MatchOperation::Update { is_star } = matched_clauses[i].operation {
            if is_star {
                return true;
            }
        }
        i += 1;
    }
    let mut k: usize = 0;
    while k < unmatched_clauses.len()
        invariant
            k <= unmatched_clauses.len(),
            forall|j: int|
                0 <= j < matched_clauses@.len() ==> (#[trigger] matched_clauses@[j]).operation != (
                MatchOperation::Update { is_star: true }),
            forall|j: int|
                0 <= j < k ==> !(#[trigger] unmatched_clauses@[j]).insert_operation.is_star,
        decreases unmatched_clauses.len() - k,
    {
        if unmatched_clauses[k].insert_operation.is_star {
            return true;
        }
        k += 1;
    }
    false
}

/// Tells the kind of mutation from how many clauses there are of each
/// sort. No clause at all is refused.
pub fn get_mutation_type(matched_len: usize, unmatched_len: usize) -> (r: Result<
    MutationStrategy,
    ErrorCode,
>)
    ensures
        match r {
            Ok(strategy) => mutation_type_of(matched_len as int, unmatched_len as int) == Some(
                strategy,
            ),
            Err(e) => mutation_type_of(matched_len as int, unmatched_len as int) is None && (
            e matches ErrorCode::SemanticError(m) && m@
                == "we must have matched or unmatched clause at least one"@),
        },
{
    if matched_len == 0 && unmatched_len > 0 {
        Ok(MutationStrategy::NotMatchedOnly)
    } else if unmatched_len == 0 && matched_len > 0 {
        Ok(MutationStrategy::MatchedOnly)
    } else if unmatched_len > 0 && matched_len > 0 {
        Ok(MutationStrategy::MixedMatched)
    } else {
        Err(
            ErrorCode::SemanticError(
                String::from_str("we must have matched or unmatched clause at least one"),
            ),
        )
    }
}

/// What a merge statement comes to once its clauses are sorted out.
#[derive(Debug, Clone, PartialEq, Eq)]
pub struct MergePlan {
    pub strategy: MutationStrategy,
    pub has_star_clause: bool,
    pub matched_clauses: Vec<MatchedClause>,
    pub unmatched_clauses: Vec<UnmatchedClause>,
}

/// Sorts out the clauses of a merge statement: splits them, tells the kind
/// of mutation, and whether a clause sets every column from the source.
pub fn plan_merge(merge_options: &[MergeOption]) -> (r: Result<MergePlan, ErrorCode>)
    ensures
        match r {
            Ok(plan) => {
                &&& merge_options@.len() > 0
                &&& plan.matched_clauses@ == matched_among(
                    merge_options@,
                    merge_options@.len() as int,
                )
                &&& plan.unmatched_clauses@ == unmatched_among(
                    merge_options@,
                    merge_options@.len() as int,
                )
                &&& mutation_type_of(
                    plan.matched_clauses@.len() as int,
                    plan.unmatched_clauses@.len() as int,
                ) == Some(plan.strategy)
                &&& plan.has_star_clause == has_star(plan.matched_clauses@, plan.unmatched_clauses@)
            },
            Err(_) => merge_options@.len() == 0,
        },
{
    let (matched_clauses, unmatched_clauses) = match split_merge_into_clauses(merge_options) {
        Ok(pair) => pair,
        Err(e) => {
            return Err(e);
        },
    };
    proof {
        lemma_split_covers(merge_options@, merge_options@.len() as int);
    }
    let strategy = match get_mutation_type(matched_clauses.len(), unmatched_clauses.len()) {
        Ok(strategy) => strategy,
        Err(e) => {
            return Err(e);
        },
    };
    let has_star_clause = has_star_clause(&matched_clauses, &unmatched_clauses);
    Ok(MergePlan { strategy, has_star_clause, matched_clauses, unmatched_clauses })
}

/// Every clause is on one side of the split: the two sides together are as
/// many as the clauses.
pub proof fn lemma_split_covers(options: Seq<MergeOption>, upto: int)
    requires
        0 <= upto <= options.len(),
    ensures
        matched_among(options, upto).len() + unmatched_among(options, upto).len() == upto,
    decreases upto,
{
    if upto > 0 {
        lemma_split_covers(options, upto - 1);
    }
}

} // verus!
