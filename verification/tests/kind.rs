use armature_graphql_macros::kind::{all_kinds, kind_for_marker, Kind};
use armature_graphql_macros::text::{text_eq, unraw};

#[test]
fn markers_and_suffixes() {
    assert_eq!(Kind::Query.marker(), "query");
    assert_eq!(Kind::Mutation.marker(), "mutation");
    assert_eq!(Kind::Subscription.marker(), "subscription");
    assert_eq!(Kind::Query.type_suffix(), "Query");
    assert_eq!(Kind::Mutation.type_suffix(), "Mutation");
    assert_eq!(Kind::Subscription.type_suffix(), "Subscription");
}

#[test]
fn macro_paths() {
    assert_eq!(Kind::Query.async_graphql_macro(), "::async_graphql::Object");
    assert_eq!(Kind::Mutation.async_graphql_macro(), "::async_graphql::Object");
    assert_eq!(Kind::Subscription.async_graphql_macro(), "::async_graphql::Subscription");
}

#[test]
fn markers_read_back_as_their_kind() {
    for k in all_kinds() {
        assert_eq!(kind_for_marker(k.marker()), Some(k));
    }
    assert_eq!(all_kinds(), [Kind::Query, Kind::Mutation, Kind::Subscription]);
    assert_eq!(kind_for_marker("graphql"), None);
    assert_eq!(kind_for_marker("queryx"), None);
    assert_eq!(kind_for_marker(""), None);
}

#[test]
fn text_helpers() {
    assert!(text_eq("abc", "abc"));
    assert!(!text_eq("abc", "abd"));
    assert!(!text_eq("abc", "ab"));
    assert!(text_eq("", ""));
    assert_eq!(unraw("r#match"), "match");
    assert_eq!(unraw("Foo"), "Foo");
    assert_eq!(unraw("r"), "r");
    assert_eq!(unraw("r#"), "");
}
