//! What `#[resolver]` writes for an accepted block, stated against the
//! block's model: which items stay, where each tagged method goes, which
//! attributes it keeps, and which `async-graphql` macro drives each wrapper.

use vstd::prelude::*;

use crate::expansion::{expansion_of, Delimiter, PieceView};
use crate::kind::Kind;
use crate::positions::{lemma_positions_spec, positions_where};
use crate::properties::{lemma_moved_methods_keep_all_but_markers, lemma_plan_partitions_items};
use crate::resolver::{
    bucket, is_marker, item_attrs, item_marker, moved_matches, moves_pred, plan_of,
    planned_kinds, resolver_outcome, self_type_result, stays_pred, wrapper_matches,
    MarkerError, ResolverError, ResolverPlan,
};
use crate::syntax::{AttrNode, ImplNode};

verus! {

/// The attribute that heads the `impl` block of a wrapper of kind `k`:
/// queries and mutations are `async-graphql` objects, subscriptions its
/// subscription roots.
pub open spec fn graphql_attribute(k: Kind) -> Seq<char> {
    "#["@ + (match k {
        Kind::Query => "::async_graphql::Object"@,
        Kind::Mutation => "::async_graphql::Object"@,
        Kind::Subscription => "::async_graphql::Subscription"@,
    }) + "] impl"@
}

/// The order in which wrapper types are written.
pub open spec fn kind_rank(k: Kind) -> int {
    match k {
        Kind::Query => 0,
        Kind::Mutation => 1,
        Kind::Subscription => 2,
    }
}

/// The name of the block's type: the identifier of the last segment of its
/// path.
pub open spec fn type_ident(input: ImplNode) -> Seq<char> {
    input.self_ty->Named_0.path.segments@.last().ident@
}

/// The name of the wrapper of kind `k` around a type named `ty`: `ty`
/// without a raw prefix `r#`, then `Query`, `Mutation` or `Subscription`.
pub open spec fn expected_wrapper_name(ty: Seq<char>, k: Kind) -> Seq<char> {
    (if ty.len() >= 2 && ty[0] == 'r' && ty[1] == '#' {
        ty.subrange(2, ty.len() as int)
    } else {
        ty
    }) + match k {
        Kind::Query => "Query"@,
        Kind::Mutation => "Mutation"@,
        Kind::Subscription => "Subscription"@,
    }
}

/// The declarations written for the wrapper `name` of kind `k`: a `Clone`
/// tuple struct holding a value of the block's type, `Deref` to that type,
/// `From` it, and the head of the wrapper's `impl` block under the kind's
/// `async-graphql` attribute.
pub open spec fn wrapper_declaration(name: Seq<char>, k: Kind) -> Seq<PieceView> {
    seq![
        PieceView::Text("#[derive(Clone)] #[doc(hidden)] pub struct"@),
        PieceView::Name(name),
        PieceView::Open(Delimiter::Paren),
        PieceView::Text("pub"@),
        PieceView::TypeName,
        PieceView::Close(Delimiter::Paren),
        PieceView::Text("; impl ::std::ops::Deref for"@),
        PieceView::Name(name),
        PieceView::Open(Delimiter::Brace),
        PieceView::Text("type Target ="@),
        PieceView::TypeName,
        PieceView::Text("; fn deref(&self) -> &Self::Target { &self.0 }"@),
        PieceView::Close(Delimiter::Brace),
        PieceView::Text("impl ::std::convert::From<"@),
        PieceView::TypeName,
        PieceView::Text("> for"@),
        PieceView::Name(name),
        PieceView::Open(Delimiter::Brace),
        PieceView::Text("fn from"@),
        PieceView::Open(Delimiter::Paren),
        PieceView::Text("value:"@),
        PieceView::TypeName,
        PieceView::Close(Delimiter::Paren),
        PieceView::Text("-> Self { Self(value) }"@),
        PieceView::Close(Delimiter::Brace),
        PieceView::Text(graphql_attribute(k)),
        PieceView::Name(name),
    ]
}

/// The index of the block's item that a piece writes out, for `Item` and
/// `Method` pieces.
pub open spec fn piece_item(p: PieceView) -> Option<int> {
    match p {
        PieceView::Item(i) => Some(i as int),
        PieceView::Method { item, .. } => Some(item as int),
        _ => None,
    }
}

/// Only a plain inherent block is accepted: arguments to the attribute are
/// refused, a trait impl is refused as such, then a generic block; an
/// accepted block names its type and every one of its methods carries at
/// most one well-formed marker.
pub proof fn lemma_refusals<P>(input: ImplNode, item: Result<ImplNode, P>)
    ensures
        resolver_outcome(false, item) == Err::<(), ResolverError<P>>(
            ResolverError::AttributeArguments,
        ),
        input.is_trait_impl ==> resolver_outcome(true, Ok::<ImplNode, P>(input)) == Err::<
            (),
            ResolverError<P>,
        >(ResolverError::TraitImpl),
        !input.is_trait_impl && input.generic_params > 0 ==> resolver_outcome(
            true,
            Ok::<ImplNode, P>(input),
        ) == Err::<(), ResolverError<P>>(ResolverError::GenericImpl),
        resolver_outcome(true, Ok::<ImplNode, P>(input)) is Ok ==> {
            &&& !input.is_trait_impl
            &&& input.generic_params == 0
            &&& input.self_ty is Named
            &&& !input.self_ty->Named_0.qself
            &&& input.self_ty->Named_0.path.segments@.len() > 0
            &&& input.self_ty->Named_0.path.segments@.last().arguments matches (
                crate::syntax::PathArguments::Absent | crate::syntax::PathArguments::AngleBracketed(0)
            )
            &&& self_type_result(input.self_ty) == Ok::<Seq<char>, crate::resolver::SelfTypeError>(
                type_ident(input),
            )
            &&& forall|i: int| 0 <= i < input.items@.len() ==> #[trigger] item_marker(input.items@[i]) is Ok
        },
{
    if resolver_outcome(true, Ok::<ImplNode, P>(input)) is Ok {
        assert(resolver_outcome(true, Ok::<ImplNode, ()>(input)) is Ok);
        let items = input.items@;
        crate::positions::lemma_positions_spec(items, crate::resolver::fails_pred());
        assert forall|i: int| 0 <= i < items.len() implies #[trigger] item_marker(items[i]) is Ok by {
            if item_marker(items[i]) is Err {
                assert(crate::resolver::fails_pred()(items[i]));
                assert(positions_where(items, crate::resolver::fails_pred()).contains(i));
            }
        }
    }
}

/// The original block comes first and keeps exactly the items that carry no
/// marker, each once, in block order; every other section writes moved
/// methods only.
pub proof fn lemma_untagged_items_stay(input: ImplNode, plan: ResolverPlan)
    requires
        resolver_outcome(true, Ok::<ImplNode, ()>(input)) is Ok,
        plan_of(input, plan),
    ensures
        expansion_of(plan).len() >= 1,
        expansion_of(plan)[0].head == seq![
            PieceView::BlockAttrs,
            PieceView::BlockUnsafety,
            PieceView::Text("impl"@),
            PieceView::BlockSelfTy,
        ],
        forall|j: int|
            0 <= j < expansion_of(plan)[0].body.len() ==> {
                let p = #[trigger] expansion_of(plan)[0].body[j];
                &&& p is Item
                &&& 0 <= piece_item(p)->Some_0 < input.items@.len()
                &&& item_marker(input.items@[piece_item(p)->Some_0]) == Ok::<
                    Option<Kind>,
                    MarkerError,
                >(None)
            },
        forall|i: int|
            0 <= i < input.items@.len() && #[trigger] item_marker(input.items@[i]) == Ok::<
                Option<Kind>,
                MarkerError,
            >(None) ==> exists|j: int|
                0 <= j < expansion_of(plan)[0].body.len() && piece_item(
                    #[trigger] expansion_of(plan)[0].body[j],
                ) == Some(i),
        forall|a: int, b: int|
            0 <= a < b < expansion_of(plan)[0].body.len() ==> piece_item(
                #[trigger] expansion_of(plan)[0].body[a],
            )->Some_0 < piece_item(#[trigger] expansion_of(plan)[0].body[b])->Some_0,
        forall|s: int, j: int|
            1 <= s < expansion_of(plan).len() && 0 <= j < expansion_of(plan)[s].body.len()
                ==> #[trigger] expansion_of(plan)[s].body[j] is Method,
{
    let items = input.items@;
    let secs = expansion_of(plan);
    let rem = plan.remaining@;
    lemma_plan_partitions_items(input, plan);
    lemma_positions_spec(items, stays_pred());
    let stay = positions_where(items, stays_pred());
    assert(secs[0].body =~= rem.map_values(|i: usize| PieceView::Item(i)));
    assert forall|j: int| 0 <= j < secs[0].body.len() implies {
        let p = #[trigger] secs[0].body[j];
        &&& p is Item
        &&& 0 <= piece_item(p)->Some_0 < items.len()
        &&& item_marker(items[piece_item(p)->Some_0]) == Ok::<Option<Kind>, MarkerError>(None)
    } by {
        assert(secs[0].body[j] == PieceView::Item(rem[j]));
        assert(rem[j] as int == stay[j]);
        assert(stays_pred()(items[stay[j]]));
    }
    assert forall|i: int|
        0 <= i < items.len() && #[trigger] item_marker(items[i]) == Ok::<Option<Kind>, MarkerError>(
            None,
        ) implies exists|j: int|
        0 <= j < secs[0].body.len() && piece_item(#[trigger] secs[0].body[j]) == Some(i) by {
        let j = choose|j: int| 0 <= j < rem.len() && #[trigger] rem[j] as int == i;
        assert(secs[0].body[j] == PieceView::Item(rem[j]));
    }
    assert forall|a: int, b: int| 0 <= a < b < secs[0].body.len() implies piece_item(
        #[trigger] secs[0].body[a],
    )->Some_0 < piece_item(#[trigger] secs[0].body[b])->Some_0 by {
        assert(secs[0].body[a] == PieceView::Item(rem[a]));
        assert(secs[0].body[b] == PieceView::Item(rem[b]));
    }
    assert forall|s: int, j: int|
        1 <= s < secs.len() && 0 <= j < secs[s].body.len() implies #[trigger] secs[s].body[j] is Method by {
        let w = plan.wrappers@[s - 1];
        assert(secs[s] == crate::expansion::wrapper_section(w));
    }
}

/// Each wrapper section writes methods that all carry the marker of one
/// kind, ends its head with that kind's `async-graphql` attribute and the
/// wrapper's name (the type's name without a raw prefix, then the kind's
/// suffix), and lists its methods in block order. Every tagged method is
/// written exactly once, in the section of its kind.
pub proof fn lemma_tagged_methods_move_to_their_wrapper(input: ImplNode, plan: ResolverPlan)
    requires
        resolver_outcome(true, Ok::<ImplNode, ()>(input)) is Ok,
        plan_of(input, plan),
    ensures
        forall|s: int|
            1 <= s < expansion_of(plan).len() ==> {
                let sec = #[trigger] expansion_of(plan)[s];
                let k = plan.wrappers@[s - 1].kind;
                &&& sec.head.len() >= 2
                &&& sec.head[sec.head.len() - 2] == PieceView::Text(graphql_attribute(k))
                &&& sec.head[sec.head.len() - 1] == PieceView::Name(
                    expected_wrapper_name(type_ident(input), k),
                )
                &&& sec.head == wrapper_declaration(expected_wrapper_name(type_ident(input), k), k)
                &&& sec.body.len() > 0
                &&& forall|j: int|
                    0 <= j < sec.body.len() ==> {
                        &&& #[trigger] sec.body[j] is Method
                        &&& 0 <= piece_item(sec.body[j])->Some_0 < input.items@.len()
                        &&& item_marker(input.items@[piece_item(sec.body[j])->Some_0]) == Ok::<
                            Option<Kind>,
                            MarkerError,
                        >(Some(k))
                    }
                &&& forall|a: int, b: int|
                    0 <= a < b < sec.body.len() ==> piece_item(#[trigger] sec.body[a])->Some_0
                        < piece_item(#[trigger] sec.body[b])->Some_0
            },
        forall|i: int|
            0 <= i < input.items@.len() && #[trigger] item_marker(input.items@[i]) is Ok
                && item_marker(input.items@[i])->Ok_0 is Some ==> exists|s: int, j: int|
                1 <= s < expansion_of(plan).len() && 0 <= j < expansion_of(plan)[s].body.len()
                    && piece_item(#[trigger] expansion_of(plan)[s].body[j]) == Some(i),
        expansion_of(plan).len() == plan.wrappers@.len() + 1,
        forall|w1: int, w2: int|
            0 <= w1 < w2 < plan.wrappers@.len() ==> kind_rank(#[trigger] plan.wrappers@[w1].kind)
                < kind_rank(#[trigger] plan.wrappers@[w2].kind),
        forall|s1: int, j1: int, s2: int, j2: int|
            1 <= s1 < expansion_of(plan).len() && 1 <= s2 < expansion_of(plan).len() && 0 <= j1
                < expansion_of(plan)[s1].body.len() && 0 <= j2 < expansion_of(plan)[s2].body.len()
                && piece_item(#[trigger] expansion_of(plan)[s1].body[j1]) == piece_item(
                #[trigger] expansion_of(plan)[s2].body[j2],
            ) ==> s1 == s2 && j1 == j2,
{
    let items = input.items@;
    let secs = expansion_of(plan);
    let ks = planned_kinds(items);
    lemma_plan_partitions_items(input, plan);
    assert forall|s: int| 1 <= s < secs.len() implies {
        let sec = #[trigger] secs[s];
        let k = plan.wrappers@[s - 1].kind;
        &&& sec.head.len() >= 2
        &&& sec.head[sec.head.len() - 2] == PieceView::Text(graphql_attribute(k))
        &&& sec.head[sec.head.len() - 1] == PieceView::Name(
            expected_wrapper_name(type_ident(input), k),
        )
        &&& sec.head == wrapper_declaration(expected_wrapper_name(type_ident(input), k), k)
        &&& sec.body.len() > 0
        &&& forall|j: int|
            0 <= j < sec.body.len() ==> {
                &&& #[trigger] sec.body[j] is Method
                &&& 0 <= piece_item(sec.body[j])->Some_0 < items.len()
                &&& item_marker(items[piece_item(sec.body[j])->Some_0]) == Ok::<
                    Option<Kind>,
                    MarkerError,
                >(Some(k))
            }
        &&& forall|a: int, b: int|
            0 <= a < b < sec.body.len() ==> piece_item(#[trigger] sec.body[a])->Some_0 < piece_item(
                #[trigger] sec.body[b],
            )->Some_0
    } by {
        let w = s - 1;
        let wp = plan.wrappers@[w];
        let k = wp.kind;
        let sec = secs[s];
        assert(sec == crate::expansion::wrapper_section(wp));
        assert(wrapper_matches(items, plan.struct_name@, wp, ks[w]));
        assert(graphql_attribute(k) == "#["@ + crate::kind::macro_path_text(k) + "] impl"@);
        let ty = plan.struct_name@;
        assert(ty == type_ident(input));
        assert(crate::text::unraw_text(ty) =~= (if ty.len() >= 2 && ty[0] == 'r' && ty[1] == '#' {
            ty.subrange(2, ty.len() as int)
        } else {
            ty
        }));
        assert(wp.name@ == expected_wrapper_name(type_ident(input), k));
        assert(sec.head =~= wrapper_declaration(wp.name@, k));
        let pos = bucket(items, k);
        lemma_positions_spec(items, moves_pred(k));
        assert forall|j: int| 0 <= j < sec.body.len() implies {
            &&& #[trigger] sec.body[j] is Method
            &&& 0 <= piece_item(sec.body[j])->Some_0 < items.len()
            &&& item_marker(items[piece_item(sec.body[j])->Some_0]) == Ok::<
                Option<Kind>,
                MarkerError,
            >(Some(k))
        } by {
            assert(plan.wrappers@[w].methods@[j].item == wp.methods@[j].item);
        }
        assert forall|a: int, b: int| 0 <= a < b < sec.body.len() implies piece_item(
            #[trigger] sec.body[a],
        )->Some_0 < piece_item(#[trigger] sec.body[b])->Some_0 by {
            assert(moved_matches(items, pos[a], wp.methods@[a]));
            assert(moved_matches(items, pos[b], wp.methods@[b]));
        }
    }
    lemma_kinds_in_rank_order(items);
    assert forall|w1: int, w2: int| 0 <= w1 < w2 < plan.wrappers@.len() implies kind_rank(
        #[trigger] plan.wrappers@[w1].kind,
    ) < kind_rank(#[trigger] plan.wrappers@[w2].kind) by {
        assert(wrapper_matches(items, plan.struct_name@, plan.wrappers@[w1], ks[w1]));
        assert(wrapper_matches(items, plan.struct_name@, plan.wrappers@[w2], ks[w2]));
    }
    assert forall|i: int|
        0 <= i < items.len() && #[trigger] item_marker(items[i]) is Ok && item_marker(items[i])->Ok_0 is Some implies exists|
        s: int,
        j: int,
    |
        1 <= s < secs.len() && 0 <= j < secs[s].body.len() && piece_item(#[trigger] secs[s].body[j])
            == Some(i) by {
        let (w, j) = choose|w: int, j: int|
            0 <= w < plan.wrappers@.len() && 0 <= j < plan.wrappers@[w].methods@.len()
                && plan.wrappers@[w].kind == item_marker(items[i])->Ok_0->Some_0
                && #[trigger] plan.wrappers@[w].methods@[j].item == i;
        assert(secs[w + 1] == crate::expansion::wrapper_section(plan.wrappers@[w]));
        assert(piece_item(secs[w + 1].body[j]) == Some(i));
    }
    assert forall|s1: int, j1: int, s2: int, j2: int|
        1 <= s1 < secs.len() && 1 <= s2 < secs.len() && 0 <= j1 < secs[s1].body.len() && 0 <= j2
            < secs[s2].body.len() && piece_item(#[trigger] secs[s1].body[j1]) == piece_item(
            #[trigger] secs[s2].body[j2],
        ) implies s1 == s2 && j1 == j2 by {
        let w1 = plan.wrappers@[s1 - 1];
        let w2 = plan.wrappers@[s2 - 1];
        assert(secs[s1] == crate::expansion::wrapper_section(w1));
        assert(secs[s2] == crate::expansion::wrapper_section(w2));
        assert(plan.wrappers@[s1 - 1].methods@[j1].item == w1.methods@[j1].item);
        assert(plan.wrappers@[s2 - 1].methods@[j2].item == w2.methods@[j2].item);
        if s1 != s2 {
            assert(plan.wrappers@[s1 - 1].kind != plan.wrappers@[s2 - 1].kind);
        } else {
            let k = w1.kind;
            assert(wrapper_matches(items, plan.struct_name@, w1, ks[s1 - 1]));
            let pos = bucket(items, k);
            lemma_positions_spec(items, moves_pred(k));
            assert(moved_matches(items, pos[j1], w1.methods@[j1]));
            assert(moved_matches(items, pos[j2], w1.methods@[j2]));
        }
    }
}

/// `kept` lists, in increasing order, exactly the indices of the attributes
/// in `attrs` that are not markers.
pub open spec fn keeps_all_but_markers(attrs: Seq<AttrNode>, kept: Seq<usize>) -> bool {
    &&& forall|t: int|
        0 <= t < kept.len() ==> #[trigger] kept[t] < attrs.len() && !is_marker(attrs[kept[t] as int])
    &&& forall|a: int|
        0 <= a < attrs.len() && !is_marker(#[trigger] attrs[a]) ==> exists|t: int|
            0 <= t < kept.len() && #[trigger] kept[t] as int == a
    &&& forall|t1: int, t2: int| 0 <= t1 < t2 < kept.len() ==> #[trigger] kept[t1] < #[trigger] kept[t2]
}

proof fn lemma_kinds_in_rank_order(items: Seq<crate::syntax::ItemNode>)
    ensures
        forall|w1: int, w2: int|
            0 <= w1 < w2 < planned_kinds(items).len() ==> kind_rank(#[trigger] planned_kinds(items)[w1])
                < kind_rank(#[trigger] planned_kinds(items)[w2]),
{
    let ks = planned_kinds(items);
    let q = bucket(items, Kind::Query).len() > 0;
    let m = bucket(items, Kind::Mutation).len() > 0;
    let s = bucket(items, Kind::Subscription).len() > 0;
    if q && m && s {
        assert(ks =~= seq![Kind::Query, Kind::Mutation, Kind::Subscription]);
    } else if q && m {
        assert(ks =~= seq![Kind::Query, Kind::Mutation]);
    } else if q && s {
        assert(ks =~= seq![Kind::Query, Kind::Subscription]);
    } else if m && s {
        assert(ks =~= seq![Kind::Mutation, Kind::Subscription]);
    } else if q {
        assert(ks =~= seq![Kind::Query]);
    } else if m {
        assert(ks =~= seq![Kind::Mutation]);
    } else if s {
        assert(ks =~= seq![Kind::Subscription]);
    } else {
        assert(ks =~= Seq::<Kind>::empty());
    }
}

/// A moved method is written with exactly its attributes that are not
/// markers: every such attribute once, in the method's own order, and no
/// marker.
pub proof fn lemma_moved_methods_written_without_markers(input: ImplNode, plan: ResolverPlan)
    requires
        resolver_outcome(true, Ok::<ImplNode, ()>(input)) is Ok,
        plan_of(input, plan),
    ensures
        forall|s: int, j: int|
            1 <= s < expansion_of(plan).len() && 0 <= j < expansion_of(plan)[s].body.len() ==> {
                let p = #[trigger] expansion_of(plan)[s].body[j];
                &&& p is Method
                &&& keeps_all_but_markers(
                    item_attrs(input.items@[piece_item(p)->Some_0]),
                    p->kept_attrs,
                )
            },
{
    let secs = expansion_of(plan);
    lemma_moved_methods_keep_all_but_markers(input, plan);
    assert forall|s: int, j: int| 1 <= s < secs.len() && 0 <= j < secs[s].body.len() implies {
        let p = #[trigger] secs[s].body[j];
        &&& p is Method
        &&& keeps_all_but_markers(item_attrs(input.items@[piece_item(p)->Some_0]), p->kept_attrs)
    } by {
        let w = s - 1;
        let wp = plan.wrappers@[w];
        assert(secs[s] == crate::expansion::wrapper_section(wp));
        let m = plan.wrappers@[w].methods@[j];
        assert(secs[s].body[j] == PieceView::Method { item: m.item, kept_attrs: m.kept_attrs@ });
        let attrs = item_attrs(input.items@[m.item as int]);
        let kept = m.kept_attrs@;
        assert(forall|t: int|
            0 <= t < kept.len() ==> #[trigger] kept[t] < attrs.len() && !is_marker(
                attrs[kept[t] as int],
            ));
        assert(forall|a: int|
            0 <= a < attrs.len() && !is_marker(#[trigger] attrs[a]) ==> exists|t: int|
                0 <= t < kept.len() && #[trigger] kept[t] as int == a);
        assert(forall|t1: int, t2: int|
            0 <= t1 < t2 < kept.len() ==> #[trigger] kept[t1] < #[trigger] kept[t2]);
        assert(keeps_all_but_markers(attrs, kept));
    }
}

} // verus!
