//! Errors reported by the GraphQL endpoint itself.
//!
//! A GraphQL response may carry an `errors` array beside (or instead of) its
//! data; the transport hands those through unchanged as a
//! `GraphQLClientError`.

use vstd::prelude::*;

verus! {

/// One entry of a GraphQL response's `errors` array.
#[derive(Debug)]
pub struct GQLError {
    pub message: String,
}

/// The whole `errors` array of a failed GraphQL response.
#[derive(Debug)]
pub struct GraphQLClientError {
    pub errors: Vec<GQLError>,
}

} // verus!
