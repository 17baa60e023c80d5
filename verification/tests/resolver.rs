use armature_graphql_macros::expansion::{resolver_impl2, Delimiter, Expansion, Piece, Resolution};
use armature_graphql_macros::kind::Kind;
use armature_graphql_macros::resolver::{
    find_marker, self_type_ident, strip_markers, MarkerError, ResolverError, SelfTypeError,
};
use armature_graphql_macros::syntax::{ImplNode, ItemNode, MetaNode, MethodNode, PathArguments, TypeNode};
use proc_macro2::TokenStream;

fn tokens(text: &str) -> TokenStream {
    text.parse::<TokenStream>().expect("balanced tokens")
}

fn resolve(attr: &str, item: &str) -> Resolution {
    resolver_impl2(tokens(attr), tokens(item))
}

fn expand(attr: &str, item: &str) -> Result<Expansion, ResolverError<syn::Error>> {
    resolve(attr, item).outcome
}

fn model_of(item: &str) -> ImplNode {
    resolve("", item).model.expect("an impl block")
}

fn method_from(text: &str) -> MethodNode {
    let block = model_of(&format!("impl Foo {{ {} }}", text));
    match block.items.into_iter().next() {
        Some(ItemNode::Fn(method)) => method,
        _ => panic!("not a method: {}", text),
    }
}

fn type_from(text: &str) -> TypeNode {
    model_of(&format!("impl {} {{}}", text)).self_ty
}

fn error_text(e: &ResolverError<syn::Error>) -> String {
    e.message().expect("this error has a message")
}

/// Token text, printed the one way `proc-macro2` prints it here.
fn norm(text: &str) -> String {
    tokens(text).to_string()
}

/// The head of each section as token text, the block's type written by name.
fn heads(x: &Expansion) -> Vec<String> {
    x.sections
        .iter()
        .map(|s| {
            let parts: Vec<String> = s
                .head
                .iter()
                .map(|p| match p {
                    Piece::Text(t) => t.clone(),
                    Piece::Name(t) => t.clone(),
                    Piece::TypeName => x.plan.struct_name.clone(),
                    Piece::Open(Delimiter::Paren) => "(".to_string(),
                    Piece::Close(Delimiter::Paren) => ")".to_string(),
                    Piece::Open(Delimiter::Brace) => "{".to_string(),
                    Piece::Close(Delimiter::Brace) => "}".to_string(),
                    Piece::BlockAttrs | Piece::BlockUnsafety => String::new(),
                    Piece::BlockSelfTy => "Self".to_string(),
                    Piece::Item(_) | Piece::Method { .. } => panic!("an item in a head"),
                })
                .collect();
            norm(&parts.join(" "))
        })
        .collect()
}

#[test]
fn find_marker_recognizes_each_kind() {
    let query = method_from("#[query] async fn f(&self) -> i32 { 1 }");
    assert!(matches!(find_marker(&query).unwrap(), Some(Kind::Query)));

    let mutation = method_from("#[mutation] async fn f(&self) -> i32 { 1 }");
    assert!(matches!(find_marker(&mutation).unwrap(), Some(Kind::Mutation)));

    let subscription = method_from("#[subscription] async fn f(&self) -> i32 { 1 }");
    assert!(matches!(find_marker(&subscription).unwrap(), Some(Kind::Subscription)));
}

#[test]
fn find_marker_returns_none_for_untagged_methods() {
    let plain = method_from("fn helper(&self) -> i32 { 1 }");
    assert!(find_marker(&plain).unwrap().is_none());

    // Unrelated attributes (e.g. async-graphql's own field options) are
    // ignored, not mistaken for a marker.
    let with_graphql_attr = method_from("#[graphql(name = \"foo\")] async fn f(&self) -> i32 { 1 }");
    assert!(find_marker(&with_graphql_attr).unwrap().is_none());
}

#[test]
fn find_marker_rejects_more_than_one_tag() {
    let method = method_from("#[query] #[mutation] async fn f(&self) -> i32 { 1 }");
    let err = find_marker(&method).unwrap_err();
    assert!(err.message().contains("already tagged"));
}

#[test]
fn find_marker_rejects_arguments_on_the_marker() {
    let method = method_from("#[query(name = \"foo\")] async fn f(&self) -> i32 { 1 }");
    let err = find_marker(&method).unwrap_err();
    assert!(err.message().contains("takes no arguments"));
}

#[test]
fn strip_markers_removes_only_the_marker_attribute() {
    let mut method = method_from("#[query] #[graphql(name = \"foo\")] async fn f(&self) -> i32 { 1 }");
    strip_markers(&mut method);
    assert_eq!(method.attrs.len(), 1);
    assert_eq!(method.attrs[0].path().get_ident().unwrap().as_str(), "graphql");
}

#[test]
fn self_type_ident_accepts_a_plain_named_type() {
    let ty = type_from("Foo");
    assert_eq!(self_type_ident(&ty).unwrap(), "Foo");
}

#[test]
fn self_type_ident_rejects_generics() {
    let ty = type_from("Foo<T>");
    assert!(self_type_ident(&ty).is_err());
}

#[test]
fn self_type_ident_rejects_non_path_types() {
    let ty = type_from("(Foo, Bar)");
    assert!(self_type_ident(&ty).is_err());
}

#[test]
fn resolver_impl_rejects_trait_impls() {
    let err = expand("", "impl SomeTrait for Foo {}").unwrap_err();
    assert!(error_text(&err).contains("inherent"));
}

#[test]
fn resolver_impl_rejects_generic_impls() {
    let err = expand("", "impl<T> Foo<T> {}").unwrap_err();
    assert!(error_text(&err).contains("generic"));
}

#[test]
fn resolver_impl_rejects_attribute_arguments() {
    let err = expand("some_arg", "impl Foo {}").unwrap_err();
    assert!(error_text(&err).contains("takes no arguments"));
}

#[test]
fn resolver_impl_leaves_untagged_methods_on_the_original_type_only() {
    let out = expand(
        "",
        "impl Foo { #[query] async fn a(&self) -> i32 { 1 } fn helper(&self) -> i32 { 2 } }",
    )
    .unwrap();
    let text = heads(&out).join(" ");
    assert!(text.contains("FooQuery"));
    assert!(!text.contains("FooMutation"));
    assert!(!text.contains("FooSubscription"));
    // The helper (item 1) stays in the original `impl Foo` block only.
    let mut helper = 0;
    for section in &out.sections {
        for piece in section.head.iter().chain(section.body.iter()) {
            match piece {
                Piece::Item(1) => helper += 1,
                Piece::Method { item: 1, .. } => helper += 1,
                _ => {}
            }
        }
    }
    assert_eq!(helper, 1);
}

// ---------------------------------------------------------------------------
// The expansion, from text
// ---------------------------------------------------------------------------

fn original_head_is_block(x: &Expansion) {
    let head = &x.sections[0].head;
    assert_eq!(head.len(), 4);
    assert!(matches!(head[0], Piece::BlockAttrs));
    assert!(matches!(head[1], Piece::BlockUnsafety));
    assert!(matches!(&head[2], Piece::Text(t) if t.as_str() == "impl"));
    assert!(matches!(head[3], Piece::BlockSelfTy));
}

#[test]
fn a_mutation_only_block_gets_one_object_wrapper() {
    let out = expand("", "impl Foo { #[mutation] async fn m(&self) -> i32 { 1 } }").unwrap();
    assert_eq!(out.sections.len(), 2);
    original_head_is_block(&out);
    assert!(out.sections[0].body.is_empty());
    let wrapper = &out.sections[1];
    assert_eq!(
        heads(&out)[1],
        norm(
            "#[derive(Clone)] #[doc(hidden)] pub struct FooMutation(pub Foo); \
             impl ::std::ops::Deref for FooMutation { type Target = Foo; fn deref(&self) -> &Self::Target { &self.0 } } \
             impl ::std::convert::From<Foo> for FooMutation { fn from(value: Foo) -> Self { Self(value) } } \
             #[::async_graphql::Object] impl FooMutation"
        )
    );
    // The names are identifiers of their own, spanned like the block's type.
    assert!(matches!(&wrapper.head[1], Piece::Name(n) if n.as_str() == "FooMutation"));
    assert!(matches!(wrapper.head[4], Piece::TypeName));
    assert_eq!(wrapper.body.len(), 1);
    assert!(matches!(&wrapper.body[0], Piece::Method { item: 0, kept_attrs } if kept_attrs.is_empty()));
    let text = heads(&out).join(" ");
    assert!(!text.contains("FooQuery") && !text.contains("FooSubscription"));
    assert!(!text.contains(&norm("async_graphql::Subscription")));
}

#[test]
fn a_subscription_only_block_gets_one_subscription_wrapper() {
    let out = expand("", "impl Foo { #[subscription] async fn s(&self) -> i32 { 1 } }").unwrap();
    assert_eq!(out.sections.len(), 2);
    let text = heads(&out).join(" ");
    assert!(text.contains(&norm("pub struct FooSubscription(pub Foo);")));
    assert!(text.ends_with(&norm("#[::async_graphql::Subscription] impl FooSubscription")));
    assert!(!text.contains("FooQuery") && !text.contains("FooMutation"));
    assert!(!text.contains(&norm("async_graphql::Object")));
    assert!(matches!(&out.sections[1].body[0], Piece::Method { item: 0, kept_attrs } if kept_attrs.is_empty()));
}

#[test]
fn an_untagged_block_is_written_back_unchanged() {
    let out = expand(
        "",
        "#[allow(dead_code)] impl Foo { const C: i32 = 1; fn helper(&self) -> i32 { 2 } }",
    )
    .unwrap();
    assert_eq!(out.sections.len(), 1);
    original_head_is_block(&out);
    let body = &out.sections[0].body;
    assert_eq!(body.len(), 2);
    assert!(matches!(body[0], Piece::Item(0)));
    assert!(matches!(body[1], Piece::Item(1)));
}

#[test]
fn wrappers_follow_kind_order_and_keep_other_attributes() {
    let out = expand(
        "",
        "unsafe impl Users { \
           #[subscription] async fn s(&self) -> i32 { 1 } \
           type T = u8; \
           #[doc = \"x\"] #[query] async fn q(&self) -> i32 { 1 } \
           fn plain(&self) {} \
           #[mutation] #[graphql(name = \"m2\")] async fn m(&self) -> i32 { 1 } }",
    )
    .unwrap();
    assert_eq!(out.plan.struct_name, "Users");
    assert_eq!(out.plan.remaining, vec![1, 3]);
    assert_eq!(out.sections.len(), 4);
    let names: Vec<&str> = out.plan.wrappers.iter().map(|w| w.name.as_str()).collect();
    assert_eq!(names, vec!["UsersQuery", "UsersMutation", "UsersSubscription"]);
    assert!(matches!(&out.sections[1].body[0], Piece::Method { item: 2, kept_attrs } if kept_attrs == &vec![0]));
    assert!(matches!(&out.sections[2].body[0], Piece::Method { item: 4, kept_attrs } if kept_attrs == &vec![1]));
    assert!(matches!(&out.sections[3].body[0], Piece::Method { item: 0, kept_attrs } if kept_attrs.is_empty()));
}

#[test]
fn unreadable_items_are_reported_as_such() {
    let r = resolve("", "struct Foo;");
    assert!(r.attr_is_empty);
    assert!(r.block.is_none() && r.model.is_none());
    assert!(matches!(r.outcome, Err(ResolverError::Unparsable(_))));
    assert!(matches!(expand("", "fn main() {}"), Err(ResolverError::Unparsable(_))));
    // Attribute arguments are reported first, before the block is read.
    let r = resolve("x", "struct Foo;");
    assert!(!r.attr_is_empty);
    assert!(r.block.is_none() && r.model.is_none());
    assert!(matches!(r.outcome, Err(ResolverError::AttributeArguments)));
}

#[test]
fn refusals_name_the_offending_method_and_attribute() {
    let err = expand(
        "",
        "impl Foo { fn a(&self) {} #[query] #[mutation(x)] fn b(&self) {} }",
    )
    .unwrap_err();
    assert!(matches!(
        err,
        ResolverError::Marker {
            item: 1,
            error: MarkerError::TakesNoArguments { attr: 1, kind: Kind::Mutation }
        }
    ));
    let err = expand("", "impl <Foo as Tr>::Assoc {}").unwrap_err();
    assert_eq!(
        error_text(&err),
        "#[resolver] does not support qualified-path `impl` blocks"
    );
    let err = expand("", "impl &Foo {}").unwrap_err();
    assert_eq!(
        error_text(&err),
        "#[resolver] only supports a plain `impl TypeName { ... }` block"
    );
}

#[test]
fn reading_tokens_into_the_model() {
    let r = resolve("", "impl a::b::Foo<> { #[query] fn f() {} const C: u8 = 0; }");
    assert!(r.block.is_some());
    let block = r.model.expect("an impl block");
    assert!(!block.is_trait_impl);
    assert_eq!(block.generic_params, 0);
    assert_eq!(block.items.len(), 2);
    assert!(matches!(block.items[1], ItemNode::Other));
    match &block.self_ty {
        TypeNode::Named(tp) => {
            assert!(!tp.qself);
            assert!(!tp.path.leading_colon);
            assert_eq!(tp.path.segments.len(), 3);
            assert_eq!(tp.path.segments[0].ident, "a");
            assert_eq!(tp.path.segments[2].ident, "Foo");
            assert_eq!(tp.path.segments[2].arguments, PathArguments::AngleBracketed(0));
        }
        TypeNode::Other => panic!("a path type"),
    }
    // A refused block still has its model and its parsed tree.
    let r = resolve("", "impl<T> Foo<T> {}");
    assert!(r.block.is_some());
    assert_eq!(r.model.expect("an impl block").generic_params, 1);
    // Inner attributes of a method count as its attributes too, after the outer ones.
    let method = method_from("#[doc = \"a\"] fn f() { #![query] }");
    assert_eq!(method.attrs.len(), 2);
    assert!(matches!(&method.attrs[0].meta, MetaNode::NameValue(_)));
    assert!(matches!(find_marker(&method), Ok(Some(Kind::Query))));
    match type_from("::std::option::Option<u8>") {
        TypeNode::Named(tp) => {
            assert!(tp.path.leading_colon);
            assert_eq!(tp.path.segments[2].arguments, PathArguments::AngleBracketed(1));
        }
        TypeNode::Other => panic!("a path type"),
    }
    assert!(matches!(type_from("fn(u8)"), TypeNode::Other));
}

#[test]
fn keyword_paths_in_attributes_are_read() {
    let out = expand(
        "",
        "impl Foo { #[unsafe(no_mangle)] #[query] fn f(&self) {} #[unsafe(no_mangle)] fn g() {} }",
    )
    .unwrap();
    assert_eq!(out.plan.remaining, vec![1]);
    assert_eq!(out.sections.len(), 2);
    assert!(matches!(&out.sections[1].body[0], Piece::Method { item: 0, kept_attrs } if kept_attrs == &vec![0]));
    let method = method_from("#[unsafe(no_mangle)] fn f() {}");
    assert!(matches!(&method.attrs[0].meta, MetaNode::List(p) if p.segments[0].ident == "unsafe"));
}

#[test]
fn a_parenthesized_self_type_is_left_to_the_parser() {
    // `syn` reads no `impl` block here; its own error is reported.
    let r = resolve("", "impl Fn(u8) -> u8 {}");
    assert!(r.model.is_none());
    assert!(matches!(r.outcome, Err(ResolverError::Unparsable(_))));
    // A function-pointer type parses, and has no name to build wrappers from.
    let err = expand("", "impl fn(u8) {}").unwrap_err();
    assert!(matches!(err, ResolverError::SelfType(SelfTypeError::NotPath)));
    assert_eq!(
        error_text(&err),
        "#[resolver] only supports a plain `impl TypeName { ... }` block"
    );
}

#[test]
fn plan_indices_name_parts_of_the_parsed_block() {
    let r = resolve(
        "",
        "impl Foo { #[doc = \"d\"] #[query] fn q(&self) {} const C: u8 = 0; #[mutation] #[inline] fn m(&self) {} }",
    );
    let block = r.block.expect("the parsed block");
    let out = r.outcome.expect("an accepted block");
    assert_eq!(block.items.len(), 3);
    for &i in &out.plan.remaining {
        assert!(i < block.items.len());
    }
    assert_eq!(out.plan.remaining, vec![1]);
    for wrapper in &out.plan.wrappers {
        for moved in &wrapper.methods {
            match &block.items[moved.item] {
                syn::ImplItem::Fn(method) => {
                    for &a in &moved.kept_attrs {
                        assert!(a < method.attrs.len());
                        assert!(!method.attrs[a].path().is_ident("query"));
                        assert!(!method.attrs[a].path().is_ident("mutation"));
                    }
                }
                _ => panic!("a moved item is a method of the block"),
            }
        }
    }
    assert_eq!(out.plan.wrappers[0].methods[0].kept_attrs, vec![0]);
    assert_eq!(out.plan.wrappers[1].methods[0].kept_attrs, vec![1]);
}
