//! Reading an annotated `impl` block into the model of `syntax`. The tokens
//! are parsed by `syn`; each trusted wrapper below hands out one part of
//! `syn`'s tree, converted one for one, and verified code assembles the model
//! from those parts. Each wrapper's result is named by a spec function of its
//! argument, and `impl_describes` states, over those names, what a model of a
//! parsed block is.

use vstd::prelude::*;

use crate::syntax::{
    AttrNode, ItemNode, MethodNode, ImplNode, MetaNode, PathNode, PathArguments, SegmentNode, TypeNode,
    TypePathNode,
};

verus! {

/// The form of an attribute's contents.
#[derive(Debug, Clone, Copy, PartialEq, Eq, Structural)]
pub enum MetaForm {
    Bare,
    List,
    NameValue,
}

// ---------------------------------------------------------------------------
// What `proc-macro2` and `syn` return, by name. Each is a function of its
// argument alone: the tokens are already lexed, and the tree already parsed.
// ---------------------------------------------------------------------------

/// Whether a token stream holds no tokens.
pub uninterp spec fn token_stream_is_empty(tokens: proc_macro2::TokenStream) -> bool;

/// The `impl` block that `syn` parses from the tokens, if they are one.
pub uninterp spec fn item_impl_of(tokens: proc_macro2::TokenStream) -> Option<syn::ItemImpl>;

/// Of a parsed `impl` block: whether it implements a trait, the number of its
/// generic parameters, its type and its items.
pub uninterp spec fn impl_parts_of(block: syn::ItemImpl) -> (bool, usize, syn::Type, Seq<syn::ImplItem>);

/// The attributes of an item that is a method; `None` for other items.
pub uninterp spec fn method_attrs_of(item: syn::ImplItem) -> Option<Seq<syn::Attribute>>;

/// The form of an attribute's contents and its path.
pub uninterp spec fn attr_parts_of(attr: syn::Attribute) -> (MetaForm, syn::Path);

/// For a path type, whether it is qualified and its path; `None` for other types.
pub uninterp spec fn type_path_parts_of(ty: syn::Type) -> Option<(bool, syn::Path)>;

/// Whether a path has a leading `::`, and its segments in order.
pub uninterp spec fn path_parts_of(path: syn::Path) -> (bool, Seq<syn::PathSegment>);

/// A segment's identifier as printed, and the form of its arguments.
pub uninterp spec fn segment_parts_of(segment: syn::PathSegment) -> (Seq<char>, PathArguments);

/// Calls `proc_macro2::TokenStream::is_empty`; the answer is
/// `token_stream_is_empty` of the stream.
#[verifier::external_body]
pub(crate) fn tokens_are_empty(tokens: &proc_macro2::TokenStream) -> (r: bool)
    ensures
        r == token_stream_is_empty(*tokens),
{
    tokens.is_empty()
}

/// Calls `syn::parse2::<syn::ItemImpl>`: `Ok` with the block exactly when
/// `item_impl_of` the tokens is that block. Nothing is claimed of the error.
#[verifier::external_body]
pub(crate) fn parse_item_impl(tokens: proc_macro2::TokenStream) -> (r: syn::Result<syn::ItemImpl>)
    ensures
        match r {
            Ok(block) => item_impl_of(tokens) == Some(block),
            Err(_) => item_impl_of(tokens) is None,
        },
{
    syn::parse2::<syn::ItemImpl>(tokens)
}

/// Hands out the fields of a parsed `impl` block that the model keeps, as
/// `impl_parts_of` names them: `trait_.is_some()`, `generics.params.len()`,
/// `self_ty` and `items`.
#[verifier::external_body]
fn impl_parts(block: &syn::ItemImpl) -> (r: (bool, usize, &syn::Type, &Vec<syn::ImplItem>))
    ensures
        r.0 == impl_parts_of(*block).0,
        r.1 == impl_parts_of(*block).1,
        *r.2 == impl_parts_of(*block).2,
        r.3@ == impl_parts_of(*block).3,
{
    (block.trait_.is_some(), block.generics.params.len(), &*block.self_ty, &block.items)
}

/// The attributes of an item that is a method (`syn::ImplItem::Fn`), as
/// `method_attrs_of` names them.
#[verifier::external_body]
fn method_attrs(item: &syn::ImplItem) -> (r: Option<&Vec<syn::Attribute>>)
    ensures
        match r {
            Some(attrs) => method_attrs_of(*item) == Some(attrs@),
            None => method_attrs_of(*item) is None,
        },
{
    match item {
        syn::ImplItem::Fn(method) => Some(&method.attrs),
        _ => None,
    }
}

/// The form of an attribute's contents (`syn::Meta`'s variant) and its path,
/// as `attr_parts_of` names them.
#[verifier::external_body]
fn attr_parts(attr: &syn::Attribute) -> (r: (MetaForm, &syn::Path))
    ensures
        r.0 == attr_parts_of(*attr).0,
        *r.1 == attr_parts_of(*attr).1,
{
    match &attr.meta {
        syn::Meta::Path(path) => (MetaForm::Bare, path),
        syn::Meta::List(list) => (MetaForm::List, &list.path),
        syn::Meta::NameValue(name_value) => (MetaForm::NameValue, &name_value.path),
    }
}

/// For a path type (`syn::Type::Path`), whether it is qualified and its path,
/// as `type_path_parts_of` names them.
#[verifier::external_body]
fn type_path_parts(ty: &syn::Type) -> (r: Option<(bool, &syn::Path)>)
    ensures
        match r {
            Some((qself, path)) => type_path_parts_of(*ty) == Some((qself, *path)),
            None => type_path_parts_of(*ty) is None,
        },
{
    match ty {
        syn::Type::Path(type_path) => Some((type_path.qself.is_some(), &type_path.path)),
        _ => None,
    }
}

/// Whether a path has a leading `::`, and its segments in order, as
/// `path_parts_of` names them.
#[verifier::external_body]
fn path_parts(path: &syn::Path) -> (r: (bool, Vec<&syn::PathSegment>))
    ensures
        r.0 == path_parts_of(*path).0,
        r.1@.len() == path_parts_of(*path).1.len(),
        forall|i: int| 0 <= i < r.1@.len() ==> *#[trigger] r.1@[i] == path_parts_of(*path).1[i],
{
    (path.leading_colon.is_some(), path.segments.iter().collect())
}

/// A segment's identifier as `Ident`'s `to_string` prints it, and the form
/// of its arguments with the number of arguments between angle brackets, as
/// `segment_parts_of` names them.
#[verifier::external_body]
fn segment_parts(segment: &syn::PathSegment) -> (r: (String, PathArguments))
    ensures
        r.0@ == segment_parts_of(*segment).0,
        r.1 == segment_parts_of(*segment).1,
{
    let arguments = match &segment.arguments {
        syn::PathArguments::None => PathArguments::Absent,
        syn::PathArguments::AngleBracketed(a) => PathArguments::AngleBracketed(a.args.len()),
        syn::PathArguments::Parenthesized(_) => PathArguments::Parenthesized,
    };
    (segment.ident.to_string(), arguments)
}

// ---------------------------------------------------------------------------
// What a model of the parsed tree is
// ---------------------------------------------------------------------------

pub open spec fn segment_describes(segment: syn::PathSegment, m: SegmentNode) -> bool {
    segment_parts_of(segment) == (m.ident@, m.arguments)
}

pub open spec fn path_describes(path: syn::Path, m: PathNode) -> bool {
    let parts = path_parts_of(path);
    &&& m.leading_colon == parts.0
    &&& m.segments@.len() == parts.1.len()
    &&& forall|i: int|
        0 <= i < parts.1.len() ==> segment_describes(parts.1[i], #[trigger] m.segments@[i])
}

pub open spec fn attr_describes(attr: syn::Attribute, m: AttrNode) -> bool {
    let parts = attr_parts_of(attr);
    match (parts.0, m.meta) {
        (MetaForm::Bare, MetaNode::Bare(p)) => path_describes(parts.1, p),
        (MetaForm::List, MetaNode::List(p)) => path_describes(parts.1, p),
        (MetaForm::NameValue, MetaNode::NameValue(p)) => path_describes(parts.1, p),
        _ => false,
    }
}

pub open spec fn attrs_describe(attrs: Seq<syn::Attribute>, m: Seq<AttrNode>) -> bool {
    &&& m.len() == attrs.len()
    &&& forall|i: int| 0 <= i < attrs.len() ==> attr_describes(attrs[i], #[trigger] m[i])
}

pub open spec fn item_describes(item: syn::ImplItem, m: ItemNode) -> bool {
    match (method_attrs_of(item), m) {
        (Some(attrs), ItemNode::Fn(method)) => attrs_describe(attrs, method.attrs@),
        (None, ItemNode::Other) => true,
        _ => false,
    }
}

pub open spec fn type_describes(ty: syn::Type, m: TypeNode) -> bool {
    match (type_path_parts_of(ty), m) {
        (Some((qself, path)), TypeNode::Named(tp)) => tp.qself == qself && path_describes(
            path,
            tp.path,
        ),
        (None, TypeNode::Other) => true,
        _ => false,
    }
}

/// `m` is the model of the parsed block `block`: the same trait flag, number
/// of generic parameters and type, and item by item the same kinds, with the
/// same attributes in the same order.
pub open spec fn impl_describes(block: syn::ItemImpl, m: ImplNode) -> bool {
    let parts = impl_parts_of(block);
    &&& m.is_trait_impl == parts.0
    &&& m.generic_params == parts.1
    &&& type_describes(parts.2, m.self_ty)
    &&& m.items@.len() == parts.3.len()
    &&& forall|i: int| 0 <= i < parts.3.len() ==> item_describes(parts.3[i], #[trigger] m.items@[i])
}

// ---------------------------------------------------------------------------
// Assembling the model
// ---------------------------------------------------------------------------

fn describe_path(path: &syn::Path) -> (r: PathNode)
    ensures
        path_describes(*path, r),
{
    let (leading_colon, parts) = path_parts(path);
    let mut segments: Vec<SegmentNode> = Vec::new();
    let mut i: usize = 0;
    while i < parts.len()
        invariant
            i <= parts@.len(),
            parts@.len() == path_parts_of(*path).1.len(),
            forall|j: int| 0 <= j < parts@.len() ==> *#[trigger] parts@[j] == path_parts_of(*path).1[j],
            segments@.len() == i,
            forall|j: int| 0 <= j < i ==> segment_describes(
                path_parts_of(*path).1[j],
                #[trigger] segments@[j],
            ),
        decreases parts@.len() - i,
    {
        let (ident, arguments) = segment_parts(parts[i]);
        segments.push(SegmentNode { ident, arguments });
        i = i + 1;
    }
    PathNode { leading_colon, segments }
}

fn describe_attrs(attrs: &Vec<syn::Attribute>) -> (r: Vec<AttrNode>)
    ensures
        attrs_describe(attrs@, r@),
{
    let mut models: Vec<AttrNode> = Vec::new();
    let mut i: usize = 0;
    while i < attrs.len()
        invariant
            i <= attrs@.len(),
            models@.len() == i,
            forall|j: int| 0 <= j < i ==> attr_describes(attrs@[j], #[trigger] models@[j]),
        decreases attrs@.len() - i,
    {
        let (form, path) = attr_parts(&attrs[i]);
        let path = describe_path(path);
        let meta = match form {
            MetaForm::Bare => MetaNode::Bare(path),
            MetaForm::List => MetaNode::List(path),
            MetaForm::NameValue => MetaNode::NameValue(path),
        };
        models.push(AttrNode { meta });
        i = i + 1;
    }
    models
}

fn describe_type(ty: &syn::Type) -> (r: TypeNode)
    ensures
        type_describes(*ty, r),
{
    match type_path_parts(ty) {
        Some((qself, path)) => TypeNode::Named(TypePathNode { qself, path: describe_path(path) }),
        None => TypeNode::Other,
    }
}

/// The model of a parsed `impl` block.
pub fn describe_impl(block: &syn::ItemImpl) -> (r: ImplNode)
    ensures
        impl_describes(*block, r),
{
    let (is_trait_impl, generic_params, self_ty, items) = impl_parts(block);
    let mut models: Vec<ItemNode> = Vec::new();
    let mut i: usize = 0;
    while i < items.len()
        invariant
            i <= items@.len(),
            items@ == impl_parts_of(*block).3,
            models@.len() == i,
            forall|j: int| 0 <= j < i ==> item_describes(items@[j], #[trigger] models@[j]),
        decreases items@.len() - i,
    {
        let model = match method_attrs(&items[i]) {
            Some(attrs) => ItemNode::Fn(MethodNode { attrs: describe_attrs(attrs) }),
            None => ItemNode::Other,
        };
        models.push(model);
        i = i + 1;
    }
    ImplNode { is_trait_impl, generic_params, self_ty: describe_type(self_ty), items: models }
}

} // verus!
