//! Advanced query parameters controlling the amount of data retrieved:
//! either a `depth` level or a `tree` field selection, never both.

use vstd::prelude::*;

use crate::tree::TreeQueryParam;

verus! {

/// Advanced query parameters supported by the server to control the
/// amount of data retrieved: exactly one of a depth level or a tree
/// field selection, mutually exclusive by construction.
#[derive(Debug)]
pub enum AdvancedQuery {
    /// depth query parameter
    Depth(u8),
    /// tree query parameter
    Tree(TreeQueryParam),
}

/// The wire shape of an [`AdvancedQuery`]: a pair of optional fields of
/// which exactly one is populated.
#[derive(Debug)]
pub struct InternalAdvancedQueryParams {
    /// The `depth` query parameter, when the query is a depth
    pub depth: Option<u8>,
    /// The `tree` query parameter, when the query is a tree
    pub tree: Option<TreeQueryParam>,
}

impl From<AdvancedQuery> for InternalAdvancedQueryParams {
    /// Converts the union into the wire shape: a depth query populates
    /// `depth` and leaves `tree` absent; a tree query populates `tree`
    /// and leaves `depth` absent.
    fn from(query: AdvancedQuery) -> (r: Self) {
        match query {
            AdvancedQuery::Depth(depth) => InternalAdvancedQueryParams {
                depth: Option::Some(depth),
                tree: Option::None,
            },
            AdvancedQuery::Tree(tree) => InternalAdvancedQueryParams {
                depth: Option::None,
                tree: Option::Some(tree),
            },
        }
    }
}

impl vstd::std_specs::convert::FromSpecImpl<AdvancedQuery> for InternalAdvancedQueryParams {
    open spec fn obeys_from_spec() -> bool {
        true
    }

    open spec fn from_spec(v: AdvancedQuery) -> Self {
        match v {
            AdvancedQuery::Depth(depth) => InternalAdvancedQueryParams {
                depth: Option::Some(depth),
                tree: Option::None,
            },
            AdvancedQuery::Tree(tree) => InternalAdvancedQueryParams {
                depth: Option::None,
                tree: Option::Some(tree),
            },
        }
    }
}

/// The wire shape populates exactly one of its two fields: a depth
/// query carries `depth` and leaves `tree` absent, a tree query carries
/// `tree` and leaves `depth` absent.
pub proof fn lemma_query_wire_exclusive(q: AdvancedQuery)
    ensures
        ({
            let w = <InternalAdvancedQueryParams as vstd::std_specs::convert::FromSpec<
                AdvancedQuery,
            >>::from_spec(q);
            &&& (w.depth is Some) != (w.tree is Some)
            &&& (q matches AdvancedQuery::Depth(d) ==> w.depth == Option::Some(d) && w.tree
                is None)
            &&& (q matches AdvancedQuery::Tree(t) ==> w.tree == Option::Some(t) && w.depth
                is None)
        }),
{
}

impl From<TreeQueryParam> for Option<AdvancedQuery> {
    /// Wraps a tree into the query union, ready to hand to a request.
    fn from(val: TreeQueryParam) -> (r: Self) {
        Option::Some(AdvancedQuery::Tree(val))
    }
}

impl vstd::std_specs::convert::FromSpecImpl<TreeQueryParam> for Option<AdvancedQuery> {
    open spec fn obeys_from_spec() -> bool {
        true
    }

    open spec fn from_spec(v: TreeQueryParam) -> Self {
        Option::Some(AdvancedQuery::Tree(v))
    }
}

} // verus!
