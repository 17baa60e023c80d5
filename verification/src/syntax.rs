//! A plain model of the parts of an `impl` block that the planning reads.
//! Each type keeps the shape of the syntax node it stands for; the front end
//! fills it in field by field from the parsed tokens.

use vstd::prelude::*;

verus! {

/// The arguments after a path segment: none, `<...>` with so many arguments,
/// or `(...)`.
#[derive(Debug, Clone, Copy, PartialEq, Eq, Structural)]
pub enum PathArguments {
    Absent,
    AngleBracketed(usize),
    Parenthesized,
}

/// One segment of a path: an identifier and its arguments.
#[derive(Debug, Clone)]
pub struct SegmentNode {
    pub ident: String,
    pub arguments: PathArguments,
}

/// A path such as `a::b::C<T>`, possibly with a leading `::`.
#[derive(Debug, Clone)]
pub struct PathNode {
    pub leading_colon: bool,
    pub segments: Vec<SegmentNode>,
}

/// The form of an attribute's contents: a bare path (`#[query]`), a list
/// (`#[query(...)]`) or a name-value pair (`#[query = ...]`); each holds the
/// attribute's path.
#[derive(Debug, Clone)]
pub enum MetaNode {
    Bare(PathNode),
    List(PathNode),
    NameValue(PathNode),
}

/// An attribute on an item.
#[derive(Debug, Clone)]
pub struct AttrNode {
    pub meta: MetaNode,
}

/// A method of an `impl` block, by its attributes.
#[derive(Debug, Clone)]
pub struct MethodNode {
    pub attrs: Vec<AttrNode>,
}

/// An item of an `impl` block: a method, or anything else (constants, types, macros).
#[derive(Debug, Clone)]
pub enum ItemNode {
    Fn(MethodNode),
    Other,
}

/// A type written as a path, possibly qualified (`<T as Trait>::Assoc`).
#[derive(Debug, Clone)]
pub struct TypePathNode {
    pub qself: bool,
    pub path: PathNode,
}

/// The type an `impl` block is for: a path type, or any other kind of type.
#[derive(Debug, Clone)]
pub enum TypeNode {
    Named(TypePathNode),
    Other,
}

/// An `impl` block.
#[derive(Debug, Clone)]
pub struct ImplNode {
    /// `impl Trait for Type` rather than an inherent `impl Type`.
    pub is_trait_impl: bool,
    /// The number of generic parameters declared after `impl`.
    pub generic_params: usize,
    pub self_ty: TypeNode,
    pub items: Vec<ItemNode>,
}

/// `true` exactly for `PathArguments::Absent`.
pub open spec fn arguments_none(a: PathArguments) -> bool {
    a is Absent
}

/// `true` for no arguments and for an empty `<>`.
pub open spec fn arguments_empty(a: PathArguments) -> bool {
    match a {
        PathArguments::Absent => true,
        PathArguments::AngleBracketed(n) => n == 0,
        PathArguments::Parenthesized => false,
    }
}

/// The identifier a path consists of, when it is a single plain identifier:
/// no leading `::`, one segment, and no arguments on it.
pub open spec fn path_ident_text(p: PathNode) -> Option<Seq<char>> {
    if !p.leading_colon && p.segments@.len() == 1 && arguments_none(p.segments@[0].arguments) {
        Some(p.segments@[0].ident@)
    } else {
        None
    }
}

/// The path of an attribute, whatever the form of its contents.
pub open spec fn meta_path(m: MetaNode) -> PathNode {
    match m {
        MetaNode::Bare(p) => p,
        MetaNode::List(p) => p,
        MetaNode::NameValue(p) => p,
    }
}

impl PathArguments {
    pub fn is_none(&self) -> (r: bool)
        ensures
            r == arguments_none(*self),
    {
        match self {
            PathArguments::Absent => true,
            _ => false,
        }
    }

    pub fn is_empty(&self) -> (r: bool)
        ensures
            r == arguments_empty(*self),
    {
        match self {
            PathArguments::Absent => true,
            PathArguments::AngleBracketed(n) => *n == 0,
            PathArguments::Parenthesized => false,
        }
    }
}

impl PathNode {
    /// The single identifier this path consists of, if it is one.
    pub fn get_ident(&self) -> (r: Option<&String>)
        ensures
            r is Some == path_ident_text(*self) is Some,
            r matches Some(id) ==> path_ident_text(*self) == Some(id@),
    {
        if !self.leading_colon && self.segments.len() == 1 && self.segments[0].arguments.is_none() {
            Some(&self.segments[0].ident)
        } else {
            None
        }
    }

    /// A path of one plain identifier.
    pub fn from_ident(name: &str) -> (r: PathNode)
        ensures
            !r.leading_colon,
            r.segments@.len() == 1,
            r.segments@[0].ident@ == name@,
            r.segments@[0].arguments == PathArguments::Absent,
    {
        let mut segments = Vec::new();
        segments.push(SegmentNode { ident: name.to_owned(), arguments: PathArguments::Absent });
        PathNode { leading_colon: false, segments }
    }
}

impl MetaNode {
    pub fn path(&self) -> (r: &PathNode)
        ensures
            *r == meta_path(*self),
    {
        match self {
            MetaNode::Bare(p) => p,
            MetaNode::List(p) => p,
            MetaNode::NameValue(p) => p,
        }
    }

    /// Whether the contents are a bare path.
    pub fn is_path(&self) -> (r: bool)
        ensures
            r == (*self is Bare),
    {
        match self {
            MetaNode::Bare(_) => true,
            _ => false,
        }
    }
}

impl AttrNode {
    pub fn path(&self) -> (r: &PathNode)
        ensures
            *r == meta_path(self.meta),
    {
        self.meta.path()
    }
}

} // verus!
