use armature_graphql_macros::kind::Kind;
use armature_graphql_macros::resolver::{
    find_marker, plan_resolver, self_type_ident, strip_markers, MarkerError, ResolverError,
    ResolverPlan, SelfTypeError,
};
use armature_graphql_macros::syntax::{
    AttrNode, ItemNode, MethodNode, ImplNode, MetaNode, PathNode, PathArguments, SegmentNode, TypeNode,
    TypePathNode,
};

fn ident_path(name: &str) -> PathNode {
    PathNode::from_ident(name)
}

/// `#[name]`
fn bare(name: &str) -> AttrNode {
    AttrNode { meta: MetaNode::Bare(ident_path(name)) }
}

/// `#[name(...)]`
fn listed(name: &str) -> AttrNode {
    AttrNode { meta: MetaNode::List(ident_path(name)) }
}

fn method(attrs: Vec<AttrNode>) -> MethodNode {
    MethodNode { attrs }
}

fn named_type(name: &str, arguments: PathArguments) -> TypeNode {
    TypeNode::Named(TypePathNode {
        qself: false,
        path: PathNode {
            leading_colon: false,
            segments: vec![SegmentNode { ident: name.to_string(), arguments }],
        },
    })
}

fn inherent_impl(name: &str, items: Vec<ItemNode>) -> ImplNode {
    ImplNode {
        is_trait_impl: false,
        generic_params: 0,
        self_ty: named_type(name, PathArguments::Absent),
        items,
    }
}

fn plan_of(attr_is_empty: bool, item: ImplNode) -> Result<ResolverPlan, ResolverError<()>> {
    plan_resolver::<()>(attr_is_empty, Ok(item))
}

fn error_text(e: &ResolverError<()>) -> String {
    e.message().expect("this error has a message")
}

// ---------------------------------------------------------------------------
// Further cases
// ---------------------------------------------------------------------------

#[test]
fn marker_messages_are_exact() {
    let e = MarkerError::TakesNoArguments { attr: 0, kind: Kind::Mutation };
    assert_eq!(
        e.message(),
        "#[mutation] takes no arguments; use `async-graphql`'s own #[graphql(...)] attribute on the method or its parameters for field-level options"
    );
    let e = MarkerError::AlreadyTagged { attr: 1, existing: Kind::Subscription };
    assert_eq!(
        e.message(),
        "method is already tagged #[subscription]; a resolver method can only be one of #[query], #[mutation], or #[subscription]"
    );
}

#[test]
fn second_tag_reports_the_first_kind_and_its_own_index() {
    let m = method(vec![listed("graphql"), bare("subscription"), bare("graphql"), bare("query")]);
    assert_eq!(
        find_marker(&m),
        Err(MarkerError::AlreadyTagged { attr: 3, existing: Kind::Subscription })
    );
}

#[test]
fn second_tag_with_arguments_reports_its_arguments() {
    let m = method(vec![bare("query"), listed("mutation")]);
    assert_eq!(find_marker(&m), Err(MarkerError::TakesNoArguments { attr: 1, kind: Kind::Mutation }));
}

#[test]
fn name_value_marker_takes_no_arguments() {
    let m = method(vec![AttrNode { meta: MetaNode::NameValue(ident_path("query")) }]);
    assert_eq!(find_marker(&m), Err(MarkerError::TakesNoArguments { attr: 0, kind: Kind::Query }));
}

#[test]
fn qualified_marker_paths_are_not_markers() {
    // `#[::query]` and `#[a::query]`
    let mut leading = ident_path("query");
    leading.leading_colon = true;
    let two = PathNode {
        leading_colon: false,
        segments: vec![
            SegmentNode { ident: "a".to_string(), arguments: PathArguments::Absent },
            SegmentNode { ident: "query".to_string(), arguments: PathArguments::Absent },
        ],
    };
    let m = method(vec![AttrNode { meta: MetaNode::Bare(leading) }, AttrNode { meta: MetaNode::Bare(two) }]);
    assert_eq!(find_marker(&m), Ok(None));
    // Marker names are case-sensitive.
    assert_eq!(find_marker(&method(vec![bare("Query")])), Ok(None));
}

#[test]
fn stripping_keeps_order_and_leaves_an_untagged_method() {
    let mut m = method(vec![listed("graphql"), bare("query"), bare("doc"), listed("query")]);
    strip_markers(&mut m);
    let names: Vec<String> =
        m.attrs.iter().map(|a| a.path().get_ident().unwrap().clone()).collect();
    assert_eq!(names, vec!["graphql".to_string(), "doc".to_string()]);
    assert_eq!(find_marker(&m), Ok(None));
    let before = m.attrs.len();
    strip_markers(&mut m);
    assert_eq!(m.attrs.len(), before);
}

#[test]
fn self_type_errors_are_distinguished() {
    assert_eq!(self_type_ident(&TypeNode::Other), Err(SelfTypeError::NotPath));
    let qualified = TypeNode::Named(TypePathNode { qself: true, path: ident_path("Assoc") });
    assert_eq!(self_type_ident(&qualified), Err(SelfTypeError::QualifiedPath));
    let unnamed = TypeNode::Named(TypePathNode { qself: false, path: PathNode { leading_colon: false, segments: vec![] } });
    assert_eq!(self_type_ident(&unnamed), Err(SelfTypeError::Unnamed));
    assert_eq!(
        self_type_ident(&named_type("Foo", PathArguments::Parenthesized)),
        Err(SelfTypeError::GenericType)
    );
    assert_eq!(
        SelfTypeError::GenericType.message(),
        "#[resolver] does not support generic types yet; implement each concrete instantiation separately"
    );
    assert_eq!(SelfTypeError::NotPath.message(), "#[resolver] only supports a plain `impl TypeName { ... }` block");
    assert_eq!(SelfTypeError::QualifiedPath.message(), "#[resolver] does not support qualified-path `impl` blocks");
    assert_eq!(SelfTypeError::Unnamed.message(), "#[resolver] requires a named type to implement");
}

#[test]
fn self_type_ident_uses_the_last_segment_and_accepts_empty_brackets() {
    let ty = TypeNode::Named(TypePathNode {
        qself: false,
        path: PathNode {
            leading_colon: true,
            segments: vec![
                SegmentNode { ident: "crate".to_string(), arguments: PathArguments::Absent },
                SegmentNode { ident: "Users".to_string(), arguments: PathArguments::AngleBracketed(0) },
            ],
        },
    });
    assert_eq!(self_type_ident(&ty), Ok("Users".to_string()));
}

#[test]
fn resolver_errors_come_in_order() {
    // Attribute arguments are reported before anything about the item.
    let r = plan_resolver::<&str>(false, Err("not an impl"));
    assert!(matches!(r, Err(ResolverError::AttributeArguments)));
    let r = plan_resolver::<&str>(true, Err("not an impl"));
    assert!(matches!(r, Err(ResolverError::Unparsable("not an impl"))));
    let mut both = inherent_impl("Foo", vec![]);
    both.is_trait_impl = true;
    both.generic_params = 2;
    assert!(matches!(plan_of(true, both), Err(ResolverError::TraitImpl)));
    let mut generic_and_unnamed = inherent_impl("Foo", vec![]);
    generic_and_unnamed.generic_params = 1;
    generic_and_unnamed.self_ty = TypeNode::Other;
    assert!(matches!(plan_of(true, generic_and_unnamed), Err(ResolverError::GenericImpl)));
    let mut tuple = inherent_impl("Foo", vec![ItemNode::Fn(method(vec![listed("query")]))]);
    tuple.self_ty = TypeNode::Other;
    assert!(matches!(plan_of(true, tuple), Err(ResolverError::SelfType(SelfTypeError::NotPath))));
}

#[test]
fn first_bad_method_is_reported() {
    let item = inherent_impl(
        "Foo",
        vec![
            ItemNode::Other,
            ItemNode::Fn(method(vec![bare("query")])),
            ItemNode::Fn(method(vec![bare("mutation"), bare("query")])),
            ItemNode::Fn(method(vec![listed("subscription")])),
        ],
    );
    let err = plan_of(true, item).unwrap_err();
    assert!(matches!(
        err,
        ResolverError::Marker {
            item: 2,
            error: MarkerError::AlreadyTagged { attr: 1, existing: Kind::Mutation }
        }
    ));
    assert_eq!(
        error_text(&err),
        "method is already tagged #[mutation]; a resolver method can only be one of #[query], #[mutation], or #[subscription]"
    );
}

#[test]
fn resolver_error_messages_are_exact() {
    assert_eq!(error_text(&ResolverError::AttributeArguments), "#[resolver] takes no arguments");
    assert_eq!(
        error_text(&ResolverError::TraitImpl),
        "#[resolver] must be applied to an inherent `impl TypeName { ... }` block, not a trait impl"
    );
    assert_eq!(
        error_text(&ResolverError::GenericImpl),
        "#[resolver] does not support generic `impl` blocks yet"
    );
    assert!(ResolverError::Unparsable(()).message().is_none());
}

#[test]
fn plan_distributes_every_item() {
    let item = inherent_impl(
        "UserResolver",
        vec![
            ItemNode::Fn(method(vec![bare("subscription")])),
            ItemNode::Other,
            ItemNode::Fn(method(vec![listed("graphql"), bare("query")])),
            ItemNode::Fn(method(vec![])),
            ItemNode::Fn(method(vec![bare("query"), bare("doc")])),
            ItemNode::Fn(method(vec![bare("graphql")])),
        ],
    );
    let plan = plan_of(true, item).unwrap();
    assert_eq!(plan.struct_name, "UserResolver");
    assert_eq!(plan.remaining, vec![1, 3, 5]);
    assert_eq!(plan.wrappers.len(), 2);
    assert_eq!(plan.wrappers[0].kind, Kind::Query);
    assert_eq!(plan.wrappers[0].name, "UserResolverQuery");
    let items: Vec<usize> = plan.wrappers[0].methods.iter().map(|m| m.item).collect();
    assert_eq!(items, vec![2, 4]);
    assert_eq!(plan.wrappers[0].methods[0].kept_attrs, vec![0]);
    assert_eq!(plan.wrappers[0].methods[1].kept_attrs, vec![1]);
    assert_eq!(plan.wrappers[1].kind, Kind::Subscription);
    assert_eq!(plan.wrappers[1].name, "UserResolverSubscription");
    assert_eq!(plan.wrappers[1].methods.len(), 1);
    assert_eq!(plan.wrappers[1].methods[0].item, 0);
    assert!(plan.wrappers[1].methods[0].kept_attrs.is_empty());
}

#[test]
fn plan_of_a_block_without_tags_has_no_wrappers() {
    let plan = plan_of(true, inherent_impl("Foo", vec![ItemNode::Other, ItemNode::Fn(method(vec![]))])).unwrap();
    assert_eq!(plan.remaining, vec![0, 1]);
    assert!(plan.wrappers.is_empty());
}

#[test]
fn wrapper_names_drop_the_raw_prefix() {
    let plan = plan_of(
        true,
        inherent_impl("r#Type", vec![ItemNode::Fn(method(vec![bare("mutation")]))]),
    )
    .unwrap();
    assert_eq!(plan.struct_name, "r#Type");
    assert_eq!(plan.wrappers.len(), 1);
    assert_eq!(plan.wrappers[0].name, "TypeMutation");
}
