//! The decisions of the `#[resolver]` attribute: which marker a method
//! carries, what the tagged method keeps of its attributes, what the
//! annotated type is called, and how the items of the block are distributed
//! over the original block and the wrapper types.

use vstd::prelude::*;
use vstd::string::*;

use crate::text::{unraw, unraw_text};

use crate::kind::{kind_for_marker, marker_kind, marker_text, suffix_text, Kind};
use crate::positions::{
    elements_where, lemma_elements_step, lemma_elements_whole, lemma_positions_prefix,
    lemma_positions_spec, lemma_positions_step, lemma_positions_whole, positions_where,
};
use crate::syntax::{
    arguments_empty, meta_path, path_ident_text, AttrNode, ItemNode, MethodNode, ImplNode, TypeNode,
};

verus! {

// ---------------------------------------------------------------------------
// Markers on a method
// ---------------------------------------------------------------------------

/// The kind an attribute tags its method with, if its path is a marker name.
pub open spec fn attr_marker(a: AttrNode) -> Option<Kind> {
    match path_ident_text(meta_path(a.meta)) {
        Some(id) => marker_kind(id),
        None => None,
    }
}

pub open spec fn is_marker(a: AttrNode) -> bool {
    attr_marker(a) is Some
}

pub open spec fn marker_pred() -> spec_fn(AttrNode) -> bool {
    |a: AttrNode| is_marker(a)
}

pub open spec fn unmarked_pred() -> spec_fn(AttrNode) -> bool {
    |a: AttrNode| !is_marker(a)
}

/// The indices of the marker attributes, in order.
pub open spec fn marker_positions(attrs: Seq<AttrNode>) -> Seq<int> {
    positions_where(attrs, marker_pred())
}

/// Why a method's markers are rejected; `attr` is the index of the offending attribute.
#[derive(Debug, Clone, Copy, PartialEq, Eq, Structural)]
pub enum MarkerError {
    /// The marker is written with arguments (`#[query(...)]` or `#[query = ...]`).
    TakesNoArguments { attr: usize, kind: Kind },
    /// A second marker follows the marker of kind `existing`.
    AlreadyTagged { attr: usize, existing: Kind },
}

/// What `find_marker` decides for a method with attributes `attrs`. Only
/// the first two markers matter: a first marker with arguments is refused; a
/// single bare marker gives its kind; a second marker is refused, for its
/// arguments if it has any, else as a second tag.
pub open spec fn find_marker_result(attrs: Seq<AttrNode>) -> Result<Option<Kind>, MarkerError> {
    let ps = marker_positions(attrs);
    if ps.len() == 0 {
        Ok(None)
    } else {
        let first = attrs[ps[0]];
        let k0 = attr_marker(first)->Some_0;
        if !(first.meta is Bare) {
            Err(MarkerError::TakesNoArguments { attr: ps[0] as usize, kind: k0 })
        } else if ps.len() == 1 {
            Ok(Some(k0))
        } else {
            let second = attrs[ps[1]];
            if !(second.meta is Bare) {
                Err(
                    MarkerError::TakesNoArguments {
                        attr: ps[1] as usize,
                        kind: attr_marker(second)->Some_0,
                    },
                )
            } else {
                Err(MarkerError::AlreadyTagged { attr: ps[1] as usize, existing: k0 })
            }
        }
    }
}

/// The text of the error reported for a rejected marker.
pub open spec fn marker_error_text(e: MarkerError) -> Seq<char> {
    match e {
        MarkerError::TakesNoArguments { kind, .. } => "#["@ + marker_text(kind)
            + "] takes no arguments; use `async-graphql`'s own #[graphql(...)] attribute on the method or its parameters for field-level options"@,
        MarkerError::AlreadyTagged { existing, .. } => "method is already tagged #["@ + marker_text(
            existing,
        )
            + "]; a resolver method can only be one of #[query], #[mutation], or #[subscription]"@,
    }
}

impl MarkerError {
    pub fn message(&self) -> (r: String)
        ensures
            r@ == marker_error_text(*self),
    {
        match self {
            MarkerError::TakesNoArguments { kind, .. } => {
                let mut s = String::from_str("#[");
                s.append(kind.marker());
                s.append(
                    "] takes no arguments; use `async-graphql`'s own #[graphql(...)] attribute on the method or its parameters for field-level options",
                );
                s
            },
            MarkerError::AlreadyTagged { existing, .. } => {
                let mut s = String::from_str("method is already tagged #[");
                s.append(existing.marker());
                s.append(
                    "]; a resolver method can only be one of #[query], #[mutation], or #[subscription]",
                );
                s
            },
        }
    }
}

/// The kind an attribute tags its method with, if any.
pub fn marker_of(attr: &AttrNode) -> (r: Option<Kind>)
    ensures
        r == attr_marker(*attr),
{
    match attr.path().get_ident() {
        Some(ident) => kind_for_marker(ident.as_str()),
        None => None,
    }
}

/// Find the `#[query]`/`#[mutation]`/`#[subscription]` marker on a method,
/// rejecting a marker with arguments and a second marker. Methods without a
/// marker give `None` and stay on the original type.
pub fn find_marker(method: &MethodNode) -> (r: Result<Option<Kind>, MarkerError>)
    ensures
        r == find_marker_result(method.attrs@),
{
    let ghost attrs = method.attrs@;
    let n = method.attrs.len();
    let mut found: Option<Kind> = None;
    let mut i: usize = 0;
    while i < n
        invariant
            n == attrs.len(),
            attrs == method.attrs@,
            i <= n,
            marker_positions(attrs.take(i as int)).len() <= 1,
            marker_positions(attrs.take(i as int)).len() == 0 ==> found is None,
            marker_positions(attrs.take(i as int)).len() == 1 ==> {
                let p0 = marker_positions(attrs.take(i as int))[0];
                &&& 0 <= p0 < i
                &&& found == attr_marker(attrs[p0])
                &&& found is Some
                &&& attrs[p0].meta is Bare
            },
        decreases n - i,
    {
        let attr = &method.attrs[i];
        let ghost before = marker_positions(attrs.take(i as int));
        let ghost after = marker_positions(attrs.take(i + 1));
        proof {
            lemma_positions_step(attrs, marker_pred(), i as int);
            assert(*attr == attrs[i as int]);
        }
        match marker_of(attr) {
            None => {},
            Some(kind) => {
                proof {
                    lemma_positions_prefix(attrs, marker_pred(), i + 1);
                    let all = marker_positions(attrs);
                    assert(after == before.push(i as int));
                    assert(after[before.len() as int] == i as int);
                    assert(all[before.len() as int] == i as int);
                    if before.len() == 1 {
                        assert(after[0] == before[0]);
                        assert(all[0] == before[0]);
                    }
                }
                if !attr.meta.is_path() {
                    return Err(MarkerError::TakesNoArguments { attr: i, kind });
                }
                match found {
                    Some(existing) => {
                        return Err(MarkerError::AlreadyTagged { attr: i, existing });
                    },
                    None => {
                        found = Some(kind);
                    },
                }
            },
        }
        i = i + 1;
    }
    proof {
        lemma_positions_whole(attrs, marker_pred());
    }
    Ok(found)
}

/// Each entry of `v` is the corresponding position of `p`.
pub open spec fn indices_match(v: Seq<usize>, p: Seq<int>) -> bool {
    &&& v.len() == p.len()
    &&& forall|j: int| 0 <= j < v.len() ==> v[j] as int == #[trigger] p[j]
}

/// The attributes a tagged method keeps once its markers are removed.
pub open spec fn unmarked_attrs(attrs: Seq<AttrNode>) -> Seq<AttrNode> {
    elements_where(attrs, unmarked_pred())
}

/// Remove the marker attributes of a method, keeping every other attribute in
/// its order.
pub fn strip_markers(method: &mut MethodNode)
    ensures
        final(method).attrs@ == unmarked_attrs(old(method).attrs@),
{
    let ghost orig = method.attrs@;
    let ghost mut j: int = 0;
    let mut i: usize = 0;
    proof {
        assert(orig.take(0) =~= Seq::<AttrNode>::empty());
        assert(orig.skip(0) =~= orig);
    }
    while i < method.attrs.len()
        invariant
            0 <= j <= orig.len(),
            method.attrs@ == elements_where(orig.take(j), unmarked_pred()) + orig.skip(j),
            i == elements_where(orig.take(j), unmarked_pred()).len(),
        decreases orig.len() - j,
    {
        proof {
            lemma_elements_step(orig, unmarked_pred(), j);
            lemma_positions_spec(orig.take(j), unmarked_pred());
            if j == orig.len() {
                assert(orig.skip(j).len() == 0);
            }
            assert(method.attrs@[i as int] == orig[j]);
        }
        let kind = marker_of(&method.attrs[i]);
        if kind.is_some() {
            method.attrs.remove(i);
            proof {
                assert(method.attrs@ =~= elements_where(orig.take(j + 1), unmarked_pred()) + orig.skip(
                    j + 1,
                ));
            }
        } else {
            i = i + 1;
            proof {
                assert(method.attrs@ =~= elements_where(orig.take(j + 1), unmarked_pred()) + orig.skip(
                    j + 1,
                ));
            }
        }
        proof {
            j = j + 1;
        }
    }
    proof {
        if j < orig.len() {
            assert(method.attrs@.len() > i);
        }
        lemma_elements_whole(orig, unmarked_pred());
        assert(orig.skip(orig.len() as int) =~= Seq::<AttrNode>::empty());
        assert(method.attrs@ =~= unmarked_attrs(orig));
    }
}

/// The indices of the attributes a tagged method keeps once its markers are removed.
pub fn kept_attr_indices(method: &MethodNode) -> (r: Vec<usize>)
    ensures
        indices_match(r@, positions_where(method.attrs@, unmarked_pred())),
{
    let ghost attrs = method.attrs@;
    let n = method.attrs.len();
    let mut kept: Vec<usize> = Vec::new();
    let mut i: usize = 0;
    while i < n
        invariant
            n == attrs.len(),
            attrs == method.attrs@,
            i <= n,
            indices_match(kept@, positions_where(attrs.take(i as int), unmarked_pred())),
        decreases n - i,
    {
        proof {
            lemma_positions_step(attrs, unmarked_pred(), i as int);
        }
        if marker_of(&method.attrs[i]).is_none() {
            kept.push(i);
        }
        i = i + 1;
    }
    proof {
        lemma_positions_whole(attrs, unmarked_pred());
    }
    kept
}

// ---------------------------------------------------------------------------
// The annotated type
// ---------------------------------------------------------------------------

/// Why the type of an `impl` block cannot be given wrapper types.
#[derive(Debug, Clone, Copy, PartialEq, Eq, Structural)]
pub enum SelfTypeError {
    /// Not a path type (a tuple, a reference, ...).
    NotPath,
    /// A qualified path such as `<T as Trait>::Assoc`.
    QualifiedPath,
    /// A path without segments.
    Unnamed,
    /// The last segment carries generic arguments.
    GenericType,
}

/// The name of the type an `impl` block is for: the identifier of the last
/// segment of a plain, unqualified path type without generic arguments.
pub open spec fn self_type_result(t: TypeNode) -> Result<Seq<char>, SelfTypeError> {
    match t {
        TypeNode::Other => Err(SelfTypeError::NotPath),
        TypeNode::Named(tp) => {
            let segs = tp.path.segments@;
            if tp.qself {
                Err(SelfTypeError::QualifiedPath)
            } else if segs.len() == 0 {
                Err(SelfTypeError::Unnamed)
            } else if !arguments_empty(segs.last().arguments) {
                Err(SelfTypeError::GenericType)
            } else {
                Ok(segs.last().ident@)
            }
        },
    }
}

pub open spec fn self_type_error_text(e: SelfTypeError) -> Seq<char> {
    match e {
        SelfTypeError::NotPath => "#[resolver] only supports a plain `impl TypeName { ... }` block"@,
        SelfTypeError::QualifiedPath => "#[resolver] does not support qualified-path `impl` blocks"@,
        SelfTypeError::Unnamed => "#[resolver] requires a named type to implement"@,
        SelfTypeError::GenericType => "#[resolver] does not support generic types yet; implement each concrete instantiation separately"@,
    }
}

impl SelfTypeError {
    pub fn message(&self) -> (r: String)
        ensures
            r@ == self_type_error_text(*self),
    {
        match self {
            SelfTypeError::NotPath => String::from_str(
                "#[resolver] only supports a plain `impl TypeName { ... }` block",
            ),
            SelfTypeError::QualifiedPath => String::from_str(
                "#[resolver] does not support qualified-path `impl` blocks",
            ),
            SelfTypeError::Unnamed => String::from_str(
                "#[resolver] requires a named type to implement",
            ),
            SelfTypeError::GenericType => String::from_str(
                "#[resolver] does not support generic types yet; implement each concrete instantiation separately",
            ),
        }
    }
}

/// Extract the plain, non-generic type name an `impl` block is for (`Foo`
/// out of `impl Foo { ... }`), rejecting the other shapes of type.
pub fn self_type_ident(self_ty: &TypeNode) -> (r: Result<String, SelfTypeError>)
    ensures
        match r {
            Ok(name) => self_type_result(*self_ty) == Ok::<Seq<char>, SelfTypeError>(name@),
            Err(e) => self_type_result(*self_ty) == Err::<Seq<char>, SelfTypeError>(e),
        },
{
    match self_ty {
        TypeNode::Other => Err(SelfTypeError::NotPath),
        TypeNode::Named(type_path) => {
            if type_path.qself {
                return Err(SelfTypeError::QualifiedPath);
            }
            let n = type_path.path.segments.len();
            if n == 0 {
                return Err(SelfTypeError::Unnamed);
            }
            let segment = &type_path.path.segments[n - 1];
            if !segment.arguments.is_empty() {
                return Err(SelfTypeError::GenericType);
            }
            Ok(segment.ident.clone())
        },
    }
}

/// The name of the wrapper type of kind `k` for a type named `ty_name`:
/// the name without a raw prefix, followed by the kind's suffix.
pub open spec fn wrapper_name_text(ty_name: Seq<char>, k: Kind) -> Seq<char> {
    unraw_text(ty_name) + suffix_text(k)
}

pub fn wrapper_name(ty_name: &str, k: Kind) -> (r: String)
    ensures
        r@ == wrapper_name_text(ty_name@, k),
{
    let mut name = unraw(ty_name);
    name.append(k.type_suffix());
    name
}

// ---------------------------------------------------------------------------
// The whole block
// ---------------------------------------------------------------------------

/// Why `#[resolver]` refuses its input. `P` is the parser's own error, for an
/// item that is not an `impl` block at all.
#[derive(Debug)]
pub enum ResolverError<P> {
    /// The attribute itself was given arguments: `#[resolver(...)]`.
    AttributeArguments,
    /// The annotated item does not parse as an `impl` block.
    Unparsable(P),
    /// `impl Trait for Type` rather than an inherent block.
    TraitImpl,
    /// The block declares generic parameters.
    GenericImpl,
    /// The type of the block has no plain name.
    SelfType(SelfTypeError),
    /// The method at index `item` of the block carries unusable markers.
    Marker { item: usize, error: MarkerError },
}

impl<P> ResolverError<P> {
    /// The text reported for the error; the parser reports its own errors, so
    /// `Unparsable` has none.
    pub fn message(&self) -> (r: Option<String>)
        ensures
            r is Some == !(*self is Unparsable),
            r matches Some(m) ==> m@ == resolver_error_text(*self),
    {
        match self {
            ResolverError::AttributeArguments => Some(
                String::from_str("#[resolver] takes no arguments"),
            ),
            ResolverError::Unparsable(_) => None,
            ResolverError::TraitImpl => Some(
                String::from_str(
                    "#[resolver] must be applied to an inherent `impl TypeName { ... }` block, not a trait impl",
                ),
            ),
            ResolverError::GenericImpl => Some(
                String::from_str("#[resolver] does not support generic `impl` blocks yet"),
            ),
            ResolverError::SelfType(e) => Some(e.message()),
            ResolverError::Marker { error, .. } => Some(error.message()),
        }
    }
}

pub open spec fn resolver_error_text<P>(e: ResolverError<P>) -> Seq<char> {
    match e {
        ResolverError::AttributeArguments => "#[resolver] takes no arguments"@,
        ResolverError::Unparsable(_) => Seq::empty(),
        ResolverError::TraitImpl => "#[resolver] must be applied to an inherent `impl TypeName { ... }` block, not a trait impl"@,
        ResolverError::GenericImpl => "#[resolver] does not support generic `impl` blocks yet"@,
        ResolverError::SelfType(e) => self_type_error_text(e),
        ResolverError::Marker { error, .. } => marker_error_text(error),
    }
}

/// What `find_marker` decides for an item; items other than methods carry no marker.
pub open spec fn item_marker(item: ItemNode) -> Result<Option<Kind>, MarkerError> {
    match item {
        ItemNode::Fn(m) => find_marker_result(m.attrs@),
        ItemNode::Other => Ok(None),
    }
}

/// The attributes of an item that is a method.
pub open spec fn item_attrs(item: ItemNode) -> Seq<AttrNode> {
    match item {
        ItemNode::Fn(m) => m.attrs@,
        ItemNode::Other => Seq::empty(),
    }
}

pub open spec fn fails_pred() -> spec_fn(ItemNode) -> bool {
    |it: ItemNode| item_marker(it) is Err
}

pub open spec fn stays_pred() -> spec_fn(ItemNode) -> bool {
    |it: ItemNode| item_marker(it) == Ok::<Option<Kind>, MarkerError>(None)
}

pub open spec fn moves_pred(k: Kind) -> spec_fn(ItemNode) -> bool {
    |it: ItemNode| item_marker(it) == Ok::<Option<Kind>, MarkerError>(Some(k))
}

/// The indices of the items that stay in the original block.
pub open spec fn staying_items(items: Seq<ItemNode>) -> Seq<int> {
    positions_where(items, stays_pred())
}

/// The indices of the methods tagged with `k`, in block order.
pub open spec fn bucket(items: Seq<ItemNode>, k: Kind) -> Seq<int> {
    positions_where(items, moves_pred(k))
}

/// The kinds that get a wrapper type: those with at least one tagged method,
/// in the order query, mutation, subscription.
pub open spec fn planned_kinds(items: Seq<ItemNode>) -> Seq<Kind> {
    (if bucket(items, Kind::Query).len() > 0 {
        seq![Kind::Query]
    } else {
        Seq::empty()
    }) + (if bucket(items, Kind::Mutation).len() > 0 {
        seq![Kind::Mutation]
    } else {
        Seq::empty()
    }) + (if bucket(items, Kind::Subscription).len() > 0 {
        seq![Kind::Subscription]
    } else {
        Seq::empty()
    })
}

/// What `#[resolver]` decides for its input: the first reason to refuse it,
/// in the order attribute arguments, parse, trait impl, generics, type name,
/// and then the methods in block order; or success.
pub open spec fn resolver_outcome<P>(attr_is_empty: bool, item: Result<ImplNode, P>) -> Result<
    (),
    ResolverError<P>,
> {
    if !attr_is_empty {
        Err(ResolverError::AttributeArguments)
    } else {
        match item {
            Err(p) => Err(ResolverError::Unparsable(p)),
            Ok(input) => if input.is_trait_impl {
                Err(ResolverError::TraitImpl)
            } else if input.generic_params > 0 {
                Err(ResolverError::GenericImpl)
            } else {
                match self_type_result(input.self_ty) {
                    Err(e) => Err(ResolverError::SelfType(e)),
                    Ok(_) => {
                        let failing = positions_where(input.items@, fails_pred());
                        if failing.len() > 0 {
                            Err(
                                ResolverError::Marker {
                                    item: failing[0] as usize,
                                    error: item_marker(input.items@[failing[0]])->Err_0,
                                },
                            )
                        } else {
                            Ok(())
                        }
                    },
                }
            },
        }
    }
}

/// A tagged method moved to a wrapper type: its index in the block and the
/// indices of the attributes it keeps.
#[derive(Debug, Clone)]
pub struct MovedMethod {
    pub item: usize,
    pub kept_attrs: Vec<usize>,
}

/// A wrapper type to generate: its kind, its name and its methods in block order.
#[derive(Debug, Clone)]
pub struct WrapperPlan {
    pub kind: Kind,
    pub name: String,
    pub methods: Vec<MovedMethod>,
}

/// The expansion of a block: the type's name, the indices of the items that
/// stay in the original block, and the wrapper types in emission order.
#[derive(Debug, Clone)]
pub struct ResolverPlan {
    pub struct_name: String,
    pub remaining: Vec<usize>,
    pub wrappers: Vec<WrapperPlan>,
}

pub open spec fn moved_matches(items: Seq<ItemNode>, index: int, m: MovedMethod) -> bool {
    &&& m.item as int == index
    &&& indices_match(m.kept_attrs@, positions_where(item_attrs(items[index]), unmarked_pred()))
}

/// `list` describes the methods at `pos`, in that order.
pub open spec fn moved_list_matches(
    items: Seq<ItemNode>,
    list: Seq<MovedMethod>,
    pos: Seq<int>,
) -> bool {
    &&& list.len() == pos.len()
    &&& forall|j: int| 0 <= j < list.len() ==> moved_matches(items, pos[j], #[trigger] list[j])
}

pub open spec fn wrapper_matches(
    items: Seq<ItemNode>,
    struct_name: Seq<char>,
    w: WrapperPlan,
    k: Kind,
) -> bool {
    &&& w.kind == k
    &&& w.name@ == wrapper_name_text(struct_name, k)
    &&& moved_list_matches(items, w.methods@, bucket(items, k))
}

/// `plan` is the expansion of `input`.
pub open spec fn plan_of(input: ImplNode, plan: ResolverPlan) -> bool {
    let items = input.items@;
    &&& self_type_result(input.self_ty) == Ok::<Seq<char>, SelfTypeError>(plan.struct_name@)
    &&& indices_match(plan.remaining@, staying_items(items))
    &&& plan.wrappers@.len() == planned_kinds(items).len()
    &&& forall|w: int|
        0 <= w < plan.wrappers@.len() ==> wrapper_matches(
            items,
            plan.struct_name@,
            #[trigger] plan.wrappers@[w],
            planned_kinds(items)[w],
        )
}

/// Decide how an `impl` block's tagged methods are split into one wrapper
/// type per kind in use, leaving untagged items on the original type.
/// `attr_is_empty` tells whether the attribute was written without
/// arguments; `item` is the model of the block, or the parser's error.
pub fn plan_resolver<P>(attr_is_empty: bool, item: Result<ImplNode, P>) -> (r: Result<
    ResolverPlan,
    ResolverError<P>,
>)
    ensures
        match r {
            Ok(plan) => resolver_outcome(attr_is_empty, item) is Ok && plan_of(item->Ok_0, plan),
            Err(e) => resolver_outcome(attr_is_empty, item) == Err::<(), ResolverError<P>>(e),
        },
{
    if !attr_is_empty {
        return Err(ResolverError::AttributeArguments);
    }
    match item {
        Ok(input) => plan_block::<P>(&input),
        Err(p) => Err(ResolverError::Unparsable(p)),
    }
}

/// `plan_resolver` on a parsed block, for an attribute written without
/// arguments.
pub fn plan_block<P>(input: &ImplNode) -> (r: Result<ResolverPlan, ResolverError<P>>)
    ensures
        match r {
            Ok(plan) => resolver_outcome(true, Ok::<ImplNode, P>(*input)) is Ok && plan_of(
                *input,
                plan,
            ),
            Err(e) => resolver_outcome(true, Ok::<ImplNode, P>(*input)) == Err::<
                (),
                ResolverError<P>,
            >(e),
        },
{
    if input.is_trait_impl {
        return Err(ResolverError::TraitImpl);
    }
    if input.generic_params > 0 {
        return Err(ResolverError::GenericImpl);
    }
    let struct_name = match self_type_ident(&input.self_ty) {
        Ok(name) => name,
        Err(e) => {
            return Err(ResolverError::SelfType(e));
        },
    };
    let ghost items = input.items@;
    let n = input.items.len();
    let mut remaining: Vec<usize> = Vec::new();
    let mut queries: Vec<MovedMethod> = Vec::new();
    let mut mutations: Vec<MovedMethod> = Vec::new();
    let mut subscriptions: Vec<MovedMethod> = Vec::new();
    let mut i: usize = 0;
    while i < n
        invariant
            items == input.items@,
            !input.is_trait_impl,
            input.generic_params == 0,
            self_type_result(input.self_ty) == Ok::<Seq<char>, SelfTypeError>(struct_name@),
            n == items.len(),
            i <= n,
            positions_where(items.take(i as int), fails_pred()).len() == 0,
            indices_match(remaining@, positions_where(items.take(i as int), stays_pred())),
            moved_list_matches(
                items,
                queries@,
                positions_where(items.take(i as int), moves_pred(Kind::Query)),
            ),
            moved_list_matches(
                items,
                mutations@,
                positions_where(items.take(i as int), moves_pred(Kind::Mutation)),
            ),
            moved_list_matches(
                items,
                subscriptions@,
                positions_where(items.take(i as int), moves_pred(Kind::Subscription)),
            ),
        decreases n - i,
    {
        proof {
            lemma_positions_step(items, fails_pred(), i as int);
            lemma_positions_step(items, stays_pred(), i as int);
            lemma_positions_step(items, moves_pred(Kind::Query), i as int);
            lemma_positions_step(items, moves_pred(Kind::Mutation), i as int);
            lemma_positions_step(items, moves_pred(Kind::Subscription), i as int);
        }
        match &input.items[i] {
            ItemNode::Other => {
                remaining.push(i);
            },
            ItemNode::Fn(method) => {
                match find_marker(method) {
                    Err(error) => {
                        proof {
                            lemma_positions_prefix(items, fails_pred(), i + 1);
                            let f = positions_where(items.take(i + 1), fails_pred());
                            assert(items[i as int] == ItemNode::Fn(*method));
                            assert(item_marker(items[i as int]) == Err::<Option<Kind>, MarkerError>(
                                error,
                            ));
                            assert(fails_pred()(items[i as int]));
                            assert(f[0] == i as int);
                            assert(positions_where(items, fails_pred())[0] == i as int);

                        }
                        return Err(ResolverError::Marker { item: i, error });
                    },
                    Ok(None) => {
                        remaining.push(i);
                    },
                    Ok(Some(kind)) => {
                        let moved = MovedMethod { item: i, kept_attrs: kept_attr_indices(method) };
                        match kind {
                            Kind::Query => queries.push(moved),
                            Kind::Mutation => mutations.push(moved),
                            Kind::Subscription => subscriptions.push(moved),
                        }
                    },
                }
            },
        }
        i = i + 1;
    }
    proof {
        lemma_positions_whole(items, fails_pred());
        lemma_positions_whole(items, stays_pred());
        lemma_positions_whole(items, moves_pred(Kind::Query));
        lemma_positions_whole(items, moves_pred(Kind::Mutation));
        lemma_positions_whole(items, moves_pred(Kind::Subscription));
    }
    let mut wrappers: Vec<WrapperPlan> = Vec::new();
    if queries.len() > 0 {
        let name = wrapper_name(struct_name.as_str(), Kind::Query);
        wrappers.push(WrapperPlan { kind: Kind::Query, name, methods: queries });
    }
    if mutations.len() > 0 {
        let name = wrapper_name(struct_name.as_str(), Kind::Mutation);
        wrappers.push(WrapperPlan { kind: Kind::Mutation, name, methods: mutations });
    }
    if subscriptions.len() > 0 {
        let name = wrapper_name(struct_name.as_str(), Kind::Subscription);
        wrappers.push(WrapperPlan { kind: Kind::Subscription, name, methods: subscriptions });
    }
    let plan = ResolverPlan { struct_name, remaining, wrappers };
    proof {
        let ks = planned_kinds(items);
        assert(plan.wrappers@.len() == ks.len());
        assert forall|w: int| 0 <= w < plan.wrappers@.len() implies wrapper_matches(
            items,
            plan.struct_name@,
            #[trigger] plan.wrappers@[w],
            ks[w],
        ) by {}
    }
    Ok(plan)
}

} // verus!
