//! What `#[resolver]` writes in place of the annotated block, and the whole
//! pipeline from the attribute's and the block's tokens to that expansion.

use vstd::prelude::*;
use vstd::string::*;

use crate::kind::{macro_path_text, Kind};
use crate::parse::{
    describe_impl, impl_describes, item_impl_of, parse_item_impl, token_stream_is_empty,
    tokens_are_empty,
};
use crate::resolver::{
    plan_block, plan_of, resolver_outcome, MovedMethod, ResolverError, ResolverPlan, WrapperPlan,
};
use crate::syntax::ImplNode;

verus! {

/// The delimiter of a group of tokens.
#[derive(Debug, Clone, Copy, PartialEq, Eq, Structural)]
pub enum Delimiter {
    Paren,
    Brace,
}

/// A piece of the expansion. `Text` holds tokens written by the expansion
/// itself (balanced, as source text); `Open` and `Close` delimit a group of
/// the pieces between them; the other pieces stand for tokens of the
/// annotated block, which the front end copies with their spans.
#[derive(Debug, Clone)]
pub enum Piece {
    Text(String),
    /// Opens a group, up to the matching `Close`.
    Open(Delimiter),
    /// Closes the innermost open group.
    Close(Delimiter),
    /// The identifier of the block's type (the last segment of its path).
    TypeName,
    /// An identifier with this text, spanned like the block's type identifier.
    Name(String),
    /// The attributes of the annotated block.
    BlockAttrs,
    /// `unsafe`, where the annotated block is written `unsafe impl`.
    BlockUnsafety,
    /// The type of the annotated block.
    BlockSelfTy,
    /// The item at this index of the block, unchanged.
    Item(usize),
    /// The method at index `item` of the block, keeping only the attributes
    /// at the indices `kept_attrs`, in that order.
    Method { item: usize, kept_attrs: Vec<usize> },
}

/// A section of the expansion: the tokens of `head`, then the tokens of
/// `body` inside braces.
#[derive(Debug, Clone)]
pub struct Section {
    pub head: Vec<Piece>,
    pub body: Vec<Piece>,
}

/// The expansion of an accepted block: the plan it follows and the sections
/// that are written out, in order.
#[derive(Debug, Clone)]
pub struct Expansion {
    pub plan: ResolverPlan,
    pub sections: Vec<Section>,
}

pub ghost enum PieceView {
    Text(Seq<char>),
    Open(Delimiter),
    Close(Delimiter),
    TypeName,
    Name(Seq<char>),
    BlockAttrs,
    BlockUnsafety,
    BlockSelfTy,
    Item(usize),
    Method { item: usize, kept_attrs: Seq<usize> },
}

pub ghost struct SectionView {
    pub head: Seq<PieceView>,
    pub body: Seq<PieceView>,
}

impl View for Piece {
    type V = PieceView;

    open spec fn view(&self) -> PieceView {
        match self {
            Piece::Text(s) => PieceView::Text(s@),
            Piece::Open(d) => PieceView::Open(*d),
            Piece::Close(d) => PieceView::Close(*d),
            Piece::TypeName => PieceView::TypeName,
            Piece::Name(s) => PieceView::Name(s@),
            Piece::BlockAttrs => PieceView::BlockAttrs,
            Piece::BlockUnsafety => PieceView::BlockUnsafety,
            Piece::BlockSelfTy => PieceView::BlockSelfTy,
            Piece::Item(i) => PieceView::Item(*i),
            Piece::Method { item, kept_attrs } => PieceView::Method {
                item: *item,
                kept_attrs: kept_attrs@,
            },
        }
    }
}

pub open spec fn pieces_view(v: Seq<Piece>) -> Seq<PieceView> {
    v.map_values(|p: Piece| p@)
}

impl View for Section {
    type V = SectionView;

    open spec fn view(&self) -> SectionView {
        SectionView { head: pieces_view(self.head@), body: pieces_view(self.body@) }
    }
}

pub open spec fn sections_view(v: Seq<Section>) -> Seq<SectionView> {
    v.map_values(|s: Section| s@)
}

/// The declarations of the wrapper type `name` around the block's type (a
/// `Clone` tuple struct holding the value, with `Deref` to it and `From` it),
/// followed by the head of its `impl` block, marked with the `async-graphql`
/// macro of `k`.
pub open spec fn wrapper_head_pieces(name: Seq<char>, k: Kind) -> Seq<PieceView> {
    seq![
        PieceView::Text("#[derive(Clone)] #[doc(hidden)] pub struct"@),
        PieceView::Name(name),
        PieceView::Open(Delimiter::Paren),
        PieceView::Text("pub"@),
        PieceView::TypeName,
        PieceView::Close(Delimiter::Paren),
        PieceView::Text("; impl ::std::ops::Deref for"@),
        PieceView::Name(name),
        PieceView::Open(Delimiter::Brace),
        PieceView::Text("type Target ="@),
        PieceView::TypeName,
        PieceView::Text("; fn deref(&self) -> &Self::Target { &self.0 }"@),
        PieceView::Close(Delimiter::Brace),
        PieceView::Text("impl ::std::convert::From<"@),
        PieceView::TypeName,
        PieceView::Text("> for"@),
        PieceView::Name(name),
        PieceView::Open(Delimiter::Brace),
        PieceView::Text("fn from"@),
        PieceView::Open(Delimiter::Paren),
        PieceView::Text("value:"@),
        PieceView::TypeName,
        PieceView::Close(Delimiter::Paren),
        PieceView::Text("-> Self { Self(value) }"@),
        PieceView::Close(Delimiter::Brace),
        PieceView::Text("#["@ + macro_path_text(k) + "] impl"@),
        PieceView::Name(name),
    ]
}

/// The original block, with the items that stay, in order.
pub open spec fn original_section(remaining: Seq<usize>) -> SectionView {
    SectionView {
        head: seq![
            PieceView::BlockAttrs,
            PieceView::BlockUnsafety,
            PieceView::Text("impl"@),
            PieceView::BlockSelfTy,
        ],
        body: remaining.map_values(|i: usize| PieceView::Item(i)),
    }
}

pub open spec fn moved_piece(m: MovedMethod) -> PieceView {
    PieceView::Method { item: m.item, kept_attrs: m.kept_attrs@ }
}

/// A wrapper type with its moved methods, in order.
pub open spec fn wrapper_section(w: WrapperPlan) -> SectionView {
    SectionView {
        head: wrapper_head_pieces(w.name@, w.kind),
        body: w.methods@.map_values(|m: MovedMethod| moved_piece(m)),
    }
}

/// The sections written for `plan`: the original block, then each wrapper.
pub open spec fn expansion_of(plan: ResolverPlan) -> Seq<SectionView> {
    seq![original_section(plan.remaining@)] + plan.wrappers@.map_values(
        |w: WrapperPlan| wrapper_section(w),
    )
}

pub fn wrapper_head(name: &str, k: Kind) -> (r: Vec<Piece>)
    ensures
        pieces_view(r@) == wrapper_head_pieces(name@, k),
{
    let mut attribute = String::from_str("#[");
    attribute.append(k.async_graphql_macro());
    attribute.append("] impl");
    let mut r: Vec<Piece> = Vec::new();
    r.push(Piece::Text(String::from_str("#[derive(Clone)] #[doc(hidden)] pub struct")));
    r.push(Piece::Name(String::from_str(name)));
    r.push(Piece::Open(Delimiter::Paren));
    r.push(Piece::Text(String::from_str("pub")));
    r.push(Piece::TypeName);
    r.push(Piece::Close(Delimiter::Paren));
    r.push(Piece::Text(String::from_str("; impl ::std::ops::Deref for")));
    r.push(Piece::Name(String::from_str(name)));
    r.push(Piece::Open(Delimiter::Brace));
    r.push(Piece::Text(String::from_str("type Target =")));
    r.push(Piece::TypeName);
    r.push(Piece::Text(String::from_str("; fn deref(&self) -> &Self::Target { &self.0 }")));
    r.push(Piece::Close(Delimiter::Brace));
    r.push(Piece::Text(String::from_str("impl ::std::convert::From<")));
    r.push(Piece::TypeName);
    r.push(Piece::Text(String::from_str("> for")));
    r.push(Piece::Name(String::from_str(name)));
    r.push(Piece::Open(Delimiter::Brace));
    r.push(Piece::Text(String::from_str("fn from")));
    r.push(Piece::Open(Delimiter::Paren));
    r.push(Piece::Text(String::from_str("value:")));
    r.push(Piece::TypeName);
    r.push(Piece::Close(Delimiter::Paren));
    r.push(Piece::Text(String::from_str("-> Self { Self(value) }")));
    r.push(Piece::Close(Delimiter::Brace));
    r.push(Piece::Text(attribute));
    r.push(Piece::Name(String::from_str(name)));
    proof {
        assert(pieces_view(r@) =~= wrapper_head_pieces(name@, k));
    }
    r
}

fn copy_indices(v: &Vec<usize>) -> (r: Vec<usize>)
    ensures
        r@ == v@,
{
    let mut r: Vec<usize> = Vec::new();
    let mut i: usize = 0;
    while i < v.len()
        invariant
            i <= v@.len(),
            r@ == v@.take(i as int),
        decreases v@.len() - i,
    {
        r.push(v[i]);
        i = i + 1;
        proof {
            assert(r@ =~= v@.take(i as int));
        }
    }
    proof {
        assert(v@.take(v@.len() as int) =~= v@);
    }
    r
}

/// The sections written for `plan`.
pub fn expand(plan: &ResolverPlan) -> (r: Vec<Section>)
    ensures
        sections_view(r@) == expansion_of(*plan),
{
    let mut head: Vec<Piece> = Vec::new();
    head.push(Piece::BlockAttrs);
    head.push(Piece::BlockUnsafety);
    head.push(Piece::Text(String::from_str("impl")));
    head.push(Piece::BlockSelfTy);
    let mut body: Vec<Piece> = Vec::new();
    let mut i: usize = 0;
    while i < plan.remaining.len()
        invariant
            i <= plan.remaining@.len(),
            pieces_view(body@) == plan.remaining@.take(i as int).map_values(
                |j: usize| PieceView::Item(j),
            ),
        decreases plan.remaining@.len() - i,
    {
        let ghost prev = body@;
        body.push(Piece::Item(plan.remaining[i]));
        proof {
            assert(pieces_view(body@) =~= pieces_view(prev).push(
                PieceView::Item(plan.remaining@[i as int]),
            ));
            assert(plan.remaining@.take(i + 1).map_values(|j: usize| PieceView::Item(j))
                =~= plan.remaining@.take(i as int).map_values(|j: usize| PieceView::Item(j)).push(
                PieceView::Item(plan.remaining@[i as int]),
            ));
        }
        i = i + 1;
    }
    proof {
        assert(plan.remaining@.take(plan.remaining@.len() as int) =~= plan.remaining@);
        assert(pieces_view(head@) =~= original_section(plan.remaining@).head);
    }
    let mut sections: Vec<Section> = Vec::new();
    sections.push(Section { head, body });
    let mut w: usize = 0;
    while w < plan.wrappers.len()
        invariant
            w <= plan.wrappers@.len(),
            sections_view(sections@) == seq![original_section(plan.remaining@)]
                + plan.wrappers@.take(w as int).map_values(
                |x: WrapperPlan| wrapper_section(x),
            ),
        decreases plan.wrappers@.len() - w,
    {
        let wrapper = &plan.wrappers[w];
        let head = wrapper_head(wrapper.name.as_str(), wrapper.kind);
        let mut body: Vec<Piece> = Vec::new();
        let mut j: usize = 0;
        while j < wrapper.methods.len()
            invariant
                j <= wrapper.methods@.len(),
                pieces_view(body@) == wrapper.methods@.take(j as int).map_values(
                    |m: MovedMethod| moved_piece(m),
                ),
            decreases wrapper.methods@.len() - j,
        {
            let moved = &wrapper.methods[j];
            let ghost prev = body@;
            body.push(Piece::Method { item: moved.item, kept_attrs: copy_indices(&moved.kept_attrs) });
            proof {
                assert(pieces_view(body@) =~= pieces_view(prev).push(moved_piece(*moved)));
                assert(wrapper.methods@.take(j + 1).map_values(|m: MovedMethod| moved_piece(m))
                    =~= wrapper.methods@.take(j as int).map_values(
                    |m: MovedMethod| moved_piece(m),
                ).push(moved_piece(*moved)));
            }
            j = j + 1;
        }
        proof {
            assert(wrapper.methods@.take(wrapper.methods@.len() as int) =~= wrapper.methods@);
            assert(pieces_view(head@) =~= wrapper_section(*wrapper).head);
        }
        let section = Section { head, body };
        proof {
            assert(section@ == wrapper_section(*wrapper));
        }
        let ghost prev = sections@;
        sections.push(section);
        proof {
            assert(sections_view(sections@) =~= sections_view(prev).push(section@));
            assert(plan.wrappers@.take(w + 1).map_values(
                |x: WrapperPlan| wrapper_section(x),
            ) =~= plan.wrappers@.take(w as int).map_values(
                |x: WrapperPlan| wrapper_section(x),
            ).push(wrapper_section(*wrapper)));
            assert(sections_view(sections@) =~= seq![original_section(plan.remaining@)]
                + plan.wrappers@.take(w + 1).map_values(
                |x: WrapperPlan| wrapper_section(x),
            ));
        }
        w = w + 1;
    }
    proof {
        assert(plan.wrappers@.take(plan.wrappers@.len() as int) =~= plan.wrappers@);
    }
    sections
}

/// What `#[resolver]` makes of its input: whether the attribute was written
/// without arguments, the block as `syn` parsed it and the model read from
/// that same tree (both absent where the attribute had arguments or the
/// tokens did not parse), and the outcome.
pub struct Resolution {
    pub attr_is_empty: bool,
    pub block: Option<syn::ItemImpl>,
    pub model: Option<ImplNode>,
    pub outcome: Result<Expansion, ResolverError<syn::Error>>,
}

/// Where `#[resolver]` stands on an `impl` block: `attr` holds the tokens of
/// the attribute's arguments and `item` those of the annotated block.
///
/// Arguments to the attribute are refused first; then tokens that `syn`
/// does not parse as an `impl` block; a parsed block is read into its model
/// and planned from it exactly as `plan_block` states, an accepted plan being
/// written out as `expand` states.
pub fn resolver_impl2(attr: proc_macro2::TokenStream, item: proc_macro2::TokenStream) -> (r: Resolution)
    ensures
        r.attr_is_empty == token_stream_is_empty(attr),
        r.attr_is_empty ==> (r.block is Some <==> item_impl_of(item) is Some),
        r.block matches Some(b) ==> item_impl_of(item) == Some(b),
        r.model matches Some(m) ==> r.block matches Some(b) && impl_describes(b, m),
        !r.attr_is_empty <==> r.outcome matches Err(ResolverError::AttributeArguments),
        !r.attr_is_empty ==> r.block is None && r.model is None,
        r.block is Some <==> r.model is Some,
        r.attr_is_empty && r.model is None ==> r.outcome matches Err(ResolverError::Unparsable(_)),
        r.model matches Some(m) ==> match r.outcome {
            Ok(x) => {
                &&& resolver_outcome(true, Ok::<ImplNode, syn::Error>(m)) is Ok
                &&& plan_of(m, x.plan)
                &&& sections_view(x.sections@) == expansion_of(x.plan)
            },
            Err(e) => resolver_outcome(true, Ok::<ImplNode, syn::Error>(m)) == Err::<
                (),
                ResolverError<syn::Error>,
            >(e),
        },
{
    if !tokens_are_empty(&attr) {
        return Resolution {
            attr_is_empty: false,
            block: None,
            model: None,
            outcome: Err(ResolverError::AttributeArguments),
        };
    }
    let block = match parse_item_impl(item) {
        Err(e) => {
            return Resolution {
                attr_is_empty: true,
                block: None,
                model: None,
                outcome: Err(ResolverError::Unparsable(e)),
            };
        },
        Ok(block) => block,
    };
    let model = describe_impl(&block);
    let planned = plan_block::<syn::Error>(&model);
    let outcome = match planned {
        Err(e) => Err(e),
        Ok(plan) => {
            let sections = expand(&plan);
            Ok(Expansion { plan, sections })
        },
    };
    Resolution { attr_is_empty: true, block: Some(block), model: Some(model), outcome }
}

} // verus!
