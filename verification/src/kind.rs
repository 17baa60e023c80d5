use vstd::prelude::*;

use crate::text::text_eq;

verus! {

/// Which generated GraphQL root a tagged method belongs to.
#[derive(Debug, Clone, Copy, PartialEq, Eq, Structural)]
pub enum Kind {
    Query,
    Mutation,
    Subscription,
}

/// The attribute name that tags a method with `k`.
pub open spec fn marker_text(k: Kind) -> Seq<char> {
    match k {
        Kind::Query => "query"@,
        Kind::Mutation => "mutation"@,
        Kind::Subscription => "subscription"@,
    }
}

/// The suffix appended to the type name to name the wrapper type of `k`.
pub open spec fn suffix_text(k: Kind) -> Seq<char> {
    match k {
        Kind::Query => "Query"@,
        Kind::Mutation => "Mutation"@,
        Kind::Subscription => "Subscription"@,
    }
}

/// The path of the `async-graphql` attribute macro that drives the wrapper of `k`.
pub open spec fn macro_path_text(k: Kind) -> Seq<char> {
    match k {
        Kind::Query | Kind::Mutation => "::async_graphql::Object"@,
        Kind::Subscription => "::async_graphql::Subscription"@,
    }
}

/// The kind whose marker is `name`, if any.
pub open spec fn marker_kind(name: Seq<char>) -> Option<Kind> {
    if name == marker_text(Kind::Query) {
        Some(Kind::Query)
    } else if name == marker_text(Kind::Mutation) {
        Some(Kind::Mutation)
    } else if name == marker_text(Kind::Subscription) {
        Some(Kind::Subscription)
    } else {
        None
    }
}

/// The kinds in the order in which their wrapper types are emitted.
pub open spec fn kinds_in_order() -> Seq<Kind> {
    seq![Kind::Query, Kind::Mutation, Kind::Subscription]
}

impl Kind {
    pub fn marker(self) -> (r: &'static str)
        ensures
            r@ == marker_text(self),
    {
        match self {
            Kind::Query => "query",
            Kind::Mutation => "mutation",
            Kind::Subscription => "subscription",
        }
    }

    pub fn type_suffix(self) -> (r: &'static str)
        ensures
            r@ == suffix_text(self),
    {
        match self {
            Kind::Query => "Query",
            Kind::Mutation => "Mutation",
            Kind::Subscription => "Subscription",
        }
    }

    /// The path of the attribute macro placed on the wrapper's `impl` block.
    pub fn async_graphql_macro(self) -> (r: &'static str)
        ensures
            r@ == macro_path_text(self),
    {
        match self {
            Kind::Query | Kind::Mutation => "::async_graphql::Object",
            Kind::Subscription => "::async_graphql::Subscription",
        }
    }
}

/// The kinds in emission order: query, mutation, subscription.
pub fn all_kinds() -> (r: [Kind; 3])
    ensures
        r@ == kinds_in_order(),
{
    let r = [Kind::Query, Kind::Mutation, Kind::Subscription];
    assert(r@ =~= kinds_in_order());
    r
}

/// The kind tagged by an attribute named `name`, if `name` is one of the markers.
pub fn kind_for_marker(name: &str) -> (r: Option<Kind>)
    ensures
        r == marker_kind(name@),
{
    if text_eq(name, Kind::Query.marker()) {
        Some(Kind::Query)
    } else if text_eq(name, Kind::Mutation.marker()) {
        Some(Kind::Mutation)
    } else if text_eq(name, Kind::Subscription.marker()) {
        Some(Kind::Subscription)
    } else {
        None
    }
}

/// Markers name their kind and nothing else: reading back the marker of `k`
/// gives `k`, and a name that reads as `k` is the marker of `k`.
pub proof fn lemma_marker_round_trip(k: Kind, name: Seq<char>)
    ensures
        marker_kind(marker_text(k)) == Some(k),
        marker_kind(name) == Some(k) ==> name == marker_text(k),
{
    reveal_strlit("query");
    reveal_strlit("mutation");
    reveal_strlit("subscription");
    assert(marker_text(Kind::Query).len() == 5);
    assert(marker_text(Kind::Mutation).len() == 8);
    assert(marker_text(Kind::Subscription).len() == 12);
}

/// Distinct kinds have distinct markers and distinct wrapper suffixes.
pub proof fn lemma_kinds_distinct(k1: Kind, k2: Kind)
    requires
        k1 != k2,
    ensures
        marker_text(k1) != marker_text(k2),
        suffix_text(k1) != suffix_text(k2),
        suffix_text(k1).len() != suffix_text(k2).len(),
{
    reveal_strlit("query");
    reveal_strlit("mutation");
    reveal_strlit("subscription");
    reveal_strlit("Query");
    reveal_strlit("Mutation");
    reveal_strlit("Subscription");
    assert(marker_text(k1).len() != marker_text(k2).len());
    assert(suffix_text(k1).len() != suffix_text(k2).len());
}

} // verus!
