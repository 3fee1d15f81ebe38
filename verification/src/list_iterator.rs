//! Pages of a list column, made from the pages of what the list holds.

use vstd::prelude::*;
use crate::column_error::Error;

verus! {

/// Makes the page of a list column from the next page of what the list
/// holds: `create_list` wraps the values, with what is known of the
/// nesting, into a list. An error of the page, and the end of the pages,
/// are handed on.
pub fn deserialize_list<N, C, F: FnOnce(N, C) -> (N, C)>(
    value: Option<Result<(N, C), Error>>,
    create_list: F,
) -> (r: Option<Result<(N, C), Error>>)
    requires
        forall|nested: N, values: C| create_list.requires((nested, values)),
    ensures
        match value {
            Some(Ok((nested, values))) => r matches Some(Ok(list)) && create_list.ensures(
                (nested, values),
                list,
            ),
            Some(Err(err)) => r == Some(Err::<(N, C), Error>(err)),
            None => r is None,
        },
{
    let (nested, values) = match value {
        Some(Ok((nested, values))) => (nested, values),
        Some(Err(err)) => {
            return Some(Err(err));
        },
        None => {
            return None;
        },
    };
    Some(Ok(create_list(nested, values)))
}

} // verus!
