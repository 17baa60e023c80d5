//! Properties of the `#[resolver]` decisions that hold for every input.

use vstd::prelude::*;

use crate::expansion::{expansion_of, original_section};
use crate::kind::{lemma_kinds_distinct, Kind};
use crate::positions::{
    lemma_elements_all, lemma_elements_satisfy, lemma_positions_all, lemma_positions_empty,
    lemma_positions_spec, positions_where,
};
use crate::resolver::{
    attr_marker, bucket, fails_pred, item_attrs, find_marker_result, is_marker, item_marker, marker_positions,
    marker_pred, moved_matches, moves_pred, plan_of, planned_kinds, resolver_outcome, stays_pred,
    unmarked_attrs, unmarked_pred, wrapper_matches, wrapper_name_text, MarkerError, ResolverPlan,
};
use crate::parse::{impl_describes, impl_parts_of, item_describes, method_attrs_of};
use crate::syntax::{AttrNode, ItemNode, ImplNode};

verus! {

/// A method is given a kind exactly when it carries one marker, written as a
/// bare path, and that marker names the kind.
pub proof fn lemma_single_bare_marker(attrs: Seq<AttrNode>, k: Kind)
    ensures
        find_marker_result(attrs) == Ok::<Option<Kind>, MarkerError>(Some(k)) <==> {
            let ps = marker_positions(attrs);
            &&& ps.len() == 1
            &&& attr_marker(attrs[ps[0]]) == Some(k)
            &&& attrs[ps[0]].meta is Bare
        },
{
    lemma_positions_spec(attrs, marker_pred());
}

/// A method stays on the original type exactly when none of its attributes is a marker.
pub proof fn lemma_untagged_iff_no_marker(attrs: Seq<AttrNode>)
    ensures
        find_marker_result(attrs) == Ok::<Option<Kind>, MarkerError>(None) <==> forall|
            i: int,
        |
            0 <= i < attrs.len() ==> !is_marker(#[trigger] attrs[i]),
{
    lemma_positions_spec(attrs, marker_pred());
    lemma_positions_empty(attrs, marker_pred());
    if marker_positions(attrs).len() > 0 {
        let i = marker_positions(attrs)[0];
        assert(is_marker(attrs[i]));
    }
}

/// A method whose markers were stripped carries no marker any more, and
/// stripping it again changes nothing.
pub proof fn lemma_stripped_method_is_untagged(attrs: Seq<AttrNode>)
    ensures
        find_marker_result(unmarked_attrs(attrs)) == Ok::<
            Option<Kind>,
            MarkerError,
        >(None),
        unmarked_attrs(unmarked_attrs(attrs)) == unmarked_attrs(attrs),
{
    let stripped = unmarked_attrs(attrs);
    lemma_elements_satisfy(attrs, unmarked_pred());
    assert forall|i: int| 0 <= i < stripped.len() implies !is_marker(#[trigger] stripped[i]) by {
        assert(unmarked_pred()(stripped[i]));
    }
    lemma_untagged_iff_no_marker(stripped);
    assert forall|i: int| 0 <= i < stripped.len() implies unmarked_pred()(#[trigger] stripped[i]) by {
        assert(!is_marker(stripped[i]));
    }
    lemma_elements_all(stripped, unmarked_pred());
}

/// The kinds that get a wrapper are exactly those with a tagged method, each once.
pub proof fn lemma_planned_kinds(items: Seq<ItemNode>)
    ensures
        forall|k: Kind| #[trigger]
            planned_kinds(items).contains(k) <==> bucket(items, k).len() > 0,
        forall|w1: int, w2: int|
            0 <= w1 < w2 < planned_kinds(items).len() ==> #[trigger] planned_kinds(items)[w1]
                != #[trigger] planned_kinds(items)[w2],
{
    let ks = planned_kinds(items);
    let q = bucket(items, Kind::Query).len() > 0;
    let m = bucket(items, Kind::Mutation).len() > 0;
    let s = bucket(items, Kind::Subscription).len() > 0;
    if q && m && s {
        assert(ks =~= seq![Kind::Query, Kind::Mutation, Kind::Subscription]);
    } else if q && m {
        assert(ks =~= seq![Kind::Query, Kind::Mutation]);
    } else if q && s {
        assert(ks =~= seq![Kind::Query, Kind::Subscription]);
    } else if m && s {
        assert(ks =~= seq![Kind::Mutation, Kind::Subscription]);
    } else if q {
        assert(ks =~= seq![Kind::Query]);
    } else if m {
        assert(ks =~= seq![Kind::Mutation]);
    } else if s {
        assert(ks =~= seq![Kind::Subscription]);
    } else {
        assert(ks =~= Seq::<Kind>::empty());
    }
    assert forall|k: Kind| #[trigger] ks.contains(k) <==> bucket(items, k).len() > 0 by {
        if bucket(items, k).len() > 0 {
            match k {
                Kind::Query => assert(ks[0] == k),
                Kind::Mutation => assert(ks[if q { 1int } else { 0int }] == k),
                Kind::Subscription => assert(ks[ks.len() - 1] == k),
            }
        }
    }
}

/// The expansion of an accepted block distributes its items: every item
/// either stays on the original type (exactly the items that are not tagged
/// methods) or moves to the one wrapper of its kind; there is one wrapper per
/// kind in use, each with at least one method and a name of its own; and the
/// staying items keep their order.
pub proof fn lemma_plan_partitions_items(input: ImplNode, plan: ResolverPlan)
    requires
        resolver_outcome(true, Ok::<ImplNode, ()>(input)) is Ok,
        plan_of(input, plan),
    ensures
        forall|i: int| 0 <= i < input.items@.len() ==> #[trigger] item_marker(input.items@[i]) is Ok,
        forall|i: int|
            0 <= i < input.items@.len() ==> ((exists|j: int|
                0 <= j < plan.remaining@.len() && #[trigger] plan.remaining@[j] as int == i)
                <==> #[trigger] item_marker(input.items@[i]) == Ok::<
                Option<Kind>,
                MarkerError,
            >(None)),
        forall|i: int|
            0 <= i < input.items@.len() ==> (#[trigger] item_marker(input.items@[i]) matches Ok(
                Some(k),
            ) ==> exists|w: int, j: int|
                0 <= w < plan.wrappers@.len() && 0 <= j < plan.wrappers@[w].methods@.len()
                    && plan.wrappers@[w].kind == k && #[trigger] plan.wrappers@[w].methods@[j].item
                    == i),
        forall|w: int, j: int|
            0 <= w < plan.wrappers@.len() && 0 <= j < plan.wrappers@[w].methods@.len() ==> {
                let i = #[trigger] plan.wrappers@[w].methods@[j].item as int;
                &&& 0 <= i < input.items@.len()
                &&& item_marker(input.items@[i]) == Ok::<
                    Option<Kind>,
                    MarkerError,
                >(Some(plan.wrappers@[w].kind))
            },
        forall|w: int| 0 <= w < plan.wrappers@.len() ==> #[trigger] plan.wrappers@[w].methods@.len() > 0,
        forall|w1: int, w2: int|
            0 <= w1 < plan.wrappers@.len() && 0 <= w2 < plan.wrappers@.len() && w1 != w2 ==> {
                &&& #[trigger] plan.wrappers@[w1].kind != #[trigger] plan.wrappers@[w2].kind
                &&& plan.wrappers@[w1].name@ != plan.wrappers@[w2].name@
            },
        forall|a: int, b: int|
            0 <= a < b < plan.remaining@.len() ==> #[trigger] plan.remaining@[a]
                < #[trigger] plan.remaining@[b],
{
    let items = input.items@;
    let ks = planned_kinds(items);
    lemma_planned_kinds(items);
    lemma_positions_empty(items, fails_pred());
    lemma_positions_spec(items, stays_pred());
    lemma_positions_spec(items, moves_pred(Kind::Query));
    lemma_positions_spec(items, moves_pred(Kind::Mutation));
    lemma_positions_spec(items, moves_pred(Kind::Subscription));
    assert forall|i: int| 0 <= i < items.len() implies #[trigger] item_marker(items[i]) is Ok by {
        assert(!fails_pred()(items[i]));
    }
    let stay = positions_where(items, stays_pred());
    assert forall|i: int| 0 <= i < items.len() implies ((exists|j: int|
        0 <= j < plan.remaining@.len() && #[trigger] plan.remaining@[j] as int == i)
        <==> #[trigger] item_marker(items[i]) == Ok::<Option<Kind>, MarkerError>(
        None,
    )) by {
        if item_marker(items[i]) == Ok::<Option<Kind>, MarkerError>(None) {
            assert(stays_pred()(items[i]));
            assert(stay.contains(i));
            let j = choose|j: int| 0 <= j < stay.len() && stay[j] == i;
            assert(plan.remaining@[j] as int == stay[j]);
        }
        if exists|j: int| 0 <= j < plan.remaining@.len() && #[trigger] plan.remaining@[j] as int == i {
            let j = choose|j: int| 0 <= j < plan.remaining@.len() && #[trigger] plan.remaining@[j] as int == i;
            assert(plan.remaining@[j] as int == stay[j]);
            assert(stays_pred()(items[stay[j]]));
        }
    }
    assert forall|i: int|
        0 <= i < items.len() implies (#[trigger] item_marker(items[i]) matches Ok(Some(k)) ==> exists|
        w: int,
        j: int,
    |
        0 <= w < plan.wrappers@.len() && 0 <= j < plan.wrappers@[w].methods@.len()
            && plan.wrappers@[w].kind == k && #[trigger] plan.wrappers@[w].methods@[j].item
            == i) by {
        if item_marker(items[i]) matches Ok(Some(_)) {
        let k = item_marker(items[i])->Ok_0->Some_0;
        let b = bucket(items, k);
        assert(moves_pred(k)(items[i]));
        assert(b.contains(i));
        let j = choose|j: int| 0 <= j < b.len() && b[j] == i;
        assert(ks.contains(k));
        let w = choose|w: int| 0 <= w < ks.len() && ks[w] == k;
        let wp = plan.wrappers@[w];
        assert(wrapper_matches(items, plan.struct_name@, wp, ks[w]));
        assert(moved_matches(items, b[j], wp.methods@[j]));
        }
    }
    assert forall|w: int, j: int|
        0 <= w < plan.wrappers@.len() && 0 <= j < plan.wrappers@[w].methods@.len() implies {
            let i = #[trigger] plan.wrappers@[w].methods@[j].item as int;
            &&& 0 <= i < items.len()
            &&& item_marker(items[i]) == Ok::<Option<Kind>, MarkerError>(
                Some(plan.wrappers@[w].kind),
            )
        } by {
        let wp = plan.wrappers@[w];
        let k = ks[w];
        assert(wrapper_matches(items, plan.struct_name@, wp, k));
        let b = bucket(items, k);
        assert(moved_matches(items, b[j], wp.methods@[j]));
        assert(moves_pred(k)(items[b[j]]));
    }
    assert forall|w: int| 0 <= w < plan.wrappers@.len() implies #[trigger] plan.wrappers@[w].methods@.len()
        > 0 by {
        let k = ks[w];
        assert(ks.contains(k));
        assert(wrapper_matches(items, plan.struct_name@, plan.wrappers@[w], k));
    }
    assert forall|w1: int, w2: int|
        0 <= w1 < plan.wrappers@.len() && 0 <= w2 < plan.wrappers@.len() && w1 != w2 implies {
            &&& #[trigger] plan.wrappers@[w1].kind != #[trigger] plan.wrappers@[w2].kind
            &&& plan.wrappers@[w1].name@ != plan.wrappers@[w2].name@
        } by {
        let k1 = ks[w1];
        let k2 = ks[w2];
        assert(wrapper_matches(items, plan.struct_name@, plan.wrappers@[w1], k1));
        assert(wrapper_matches(items, plan.struct_name@, plan.wrappers@[w2], k2));
        if w1 < w2 {
            assert(k1 != k2);
        } else {
            assert(ks[w2] != ks[w1]);
        }
        lemma_wrapper_names_distinct(plan.struct_name@, k1, k2);
    }
    assert forall|a: int, b: int| 0 <= a < b < plan.remaining@.len() implies #[trigger] plan.remaining@[a]
        < #[trigger] plan.remaining@[b] by {
        assert(plan.remaining@[a] as int == stay[a]);
        assert(plan.remaining@[b] as int == stay[b]);
    }
}

/// A block without tagged methods is written back unchanged: one section,
/// the original block with every item in order, and no wrapper.
pub proof fn lemma_untagged_block_written_back(input: ImplNode, plan: ResolverPlan)
    requires
        resolver_outcome(true, Ok::<ImplNode, ()>(input)) is Ok,
        plan_of(input, plan),
        forall|i: int|
            0 <= i < input.items@.len() ==> #[trigger] item_marker(input.items@[i]) == Ok::<
                Option<Kind>,
                MarkerError,
            >(None),
    ensures
        expansion_of(plan) == seq![
            original_section(Seq::new(input.items@.len(), |i: int| i as usize)),
        ],
{
    let items = input.items@;
    assert forall|i: int| 0 <= i < items.len() implies stays_pred()(#[trigger] items[i]) by {
        assert(item_marker(items[i]) == Ok::<Option<Kind>, MarkerError>(None));
    }
    lemma_positions_all(items, stays_pred());
    assert forall|j: int| 0 <= j < plan.remaining@.len() implies #[trigger] plan.remaining@[j] == (j as usize) by {
        assert(positions_where(items, stays_pred())[j] == j);
        assert(plan.remaining@[j] as int == j);
    }
    assert(plan.remaining@ =~= Seq::new(items.len(), |i: int| i as usize));
    assert forall|k: Kind| #[trigger] bucket(items, k).len() == 0 by {
        lemma_positions_empty(items, moves_pred(k));
        assert forall|i: int| 0 <= i < items.len() implies !moves_pred(k)(#[trigger] items[i]) by {
            assert(item_marker(items[i]) == Ok::<Option<Kind>, MarkerError>(None));
        }
    }
    assert(bucket(items, Kind::Query).len() == 0);
    assert(bucket(items, Kind::Mutation).len() == 0);
    assert(bucket(items, Kind::Subscription).len() == 0);
    assert(planned_kinds(items) =~= Seq::<Kind>::empty());
    assert(expansion_of(plan) =~= seq![
        original_section(Seq::new(input.items@.len(), |i: int| i as usize)),
    ]);
}

/// A moved method keeps exactly its attributes that are not markers, in
/// their order: the marker that tagged it is gone and nothing else is.
pub proof fn lemma_moved_methods_keep_all_but_markers(input: ImplNode, plan: ResolverPlan)
    requires
        plan_of(input, plan),
    ensures
        forall|w: int, j: int|
            0 <= w < plan.wrappers@.len() && 0 <= j < plan.wrappers@[w].methods@.len() ==> {
                let m = #[trigger] plan.wrappers@[w].methods@[j];
                let attrs = item_attrs(input.items@[m.item as int]);
                &&& forall|t: int|
                    0 <= t < m.kept_attrs@.len() ==> #[trigger] m.kept_attrs@[t] < attrs.len()
                        && !is_marker(attrs[m.kept_attrs@[t] as int])
                &&& forall|a: int|
                    0 <= a < attrs.len() && !is_marker(#[trigger] attrs[a]) ==> exists|t: int|
                        0 <= t < m.kept_attrs@.len() && #[trigger] m.kept_attrs@[t] as int == a
                &&& forall|t1: int, t2: int|
                    0 <= t1 < t2 < m.kept_attrs@.len() ==> #[trigger] m.kept_attrs@[t1]
                        < #[trigger] m.kept_attrs@[t2]
            },
{
    let items = input.items@;
    let ks = planned_kinds(items);
    assert forall|w: int, j: int|
        0 <= w < plan.wrappers@.len() && 0 <= j < plan.wrappers@[w].methods@.len() implies {
            let m = #[trigger] plan.wrappers@[w].methods@[j];
            let attrs = item_attrs(input.items@[m.item as int]);
            &&& forall|t: int|
                0 <= t < m.kept_attrs@.len() ==> #[trigger] m.kept_attrs@[t] < attrs.len()
                    && !is_marker(attrs[m.kept_attrs@[t] as int])
            &&& forall|a: int|
                0 <= a < attrs.len() && !is_marker(#[trigger] attrs[a]) ==> exists|t: int|
                    0 <= t < m.kept_attrs@.len() && #[trigger] m.kept_attrs@[t] as int == a
            &&& forall|t1: int, t2: int|
                0 <= t1 < t2 < m.kept_attrs@.len() ==> #[trigger] m.kept_attrs@[t1]
                    < #[trigger] m.kept_attrs@[t2]
        } by {
        let wp = plan.wrappers@[w];
        let m = wp.methods@[j];
        assert(wrapper_matches(items, plan.struct_name@, wp, ks[w]));
        let b = bucket(items, ks[w]);
        assert(moved_matches(items, b[j], m));
        let attrs = item_attrs(items[m.item as int]);
        let ps = positions_where(attrs, unmarked_pred());
        lemma_positions_spec(attrs, unmarked_pred());
        assert forall|t: int| 0 <= t < m.kept_attrs@.len() implies #[trigger] m.kept_attrs@[t] < attrs.len()
            && !is_marker(attrs[m.kept_attrs@[t] as int]) by {
            assert(m.kept_attrs@[t] as int == ps[t]);
            assert(unmarked_pred()(attrs[ps[t]]));
        }
        assert forall|a: int| 0 <= a < attrs.len() && !is_marker(#[trigger] attrs[a]) implies exists|t: int|
            0 <= t < m.kept_attrs@.len() && #[trigger] m.kept_attrs@[t] as int == a by {
            assert(unmarked_pred()(attrs[a]));
            assert(ps.contains(a));
            let t = choose|t: int| 0 <= t < ps.len() && ps[t] == a;
            assert(m.kept_attrs@[t] as int == ps[t]);
        }
        assert forall|t1: int, t2: int| 0 <= t1 < t2 < m.kept_attrs@.len() implies #[trigger] m.kept_attrs@[t1]
            < #[trigger] m.kept_attrs@[t2] by {
            assert(m.kept_attrs@[t1] as int == ps[t1]);
            assert(m.kept_attrs@[t2] as int == ps[t2]);
        }
    }
}

/// Wrappers of different kinds for the same type have different names.
pub proof fn lemma_wrapper_names_distinct(name: Seq<char>, k1: Kind, k2: Kind)
    requires
        k1 != k2,
    ensures
        wrapper_name_text(name, k1) != wrapper_name_text(name, k2),
{
    lemma_kinds_distinct(k1, k2);
    assert(wrapper_name_text(name, k1).len() != wrapper_name_text(name, k2).len());
}

/// Every index in the plan of an accepted block names a part of the parsed
/// block it was read from: each item that stays and each moved method is an
/// item of the block, each moved method is a method there, and each attribute
/// it keeps is one of that method's attributes.
pub proof fn lemma_plan_indexes_the_block<P>(block: syn::ItemImpl, input: ImplNode, plan: ResolverPlan)
    requires
        impl_describes(block, input),
        resolver_outcome(true, Ok::<ImplNode, P>(input)) is Ok,
        plan_of(input, plan),
    ensures
        forall|j: int|
            0 <= j < plan.remaining@.len() ==> #[trigger] plan.remaining@[j] < impl_parts_of(
                block,
            ).3.len(),
        forall|w: int, j: int|
            0 <= w < plan.wrappers@.len() && 0 <= j < plan.wrappers@[w].methods@.len() ==> {
                let m = #[trigger] plan.wrappers@[w].methods@[j];
                &&& m.item < impl_parts_of(block).3.len()
                &&& method_attrs_of(impl_parts_of(block).3[m.item as int]) matches Some(attrs)
                    && forall|a: int|
                    0 <= a < m.kept_attrs@.len() ==> #[trigger] m.kept_attrs@[a] < attrs.len()
            },
{
    let items = input.items@;
    let parts = impl_parts_of(block).3;
    assert(resolver_outcome(true, Ok::<ImplNode, ()>(input)) is Ok);
    lemma_plan_partitions_items(input, plan);
    lemma_positions_spec(items, stays_pred());
    assert forall|j: int| 0 <= j < plan.remaining@.len() implies #[trigger] plan.remaining@[j]
        < parts.len() by {
        assert(plan.remaining@[j] as int == positions_where(items, stays_pred())[j]);
    }
    let ks = planned_kinds(items);
    assert forall|w: int, j: int|
        0 <= w < plan.wrappers@.len() && 0 <= j < plan.wrappers@[w].methods@.len() implies {
            let m = #[trigger] plan.wrappers@[w].methods@[j];
            &&& m.item < parts.len()
            &&& method_attrs_of(parts[m.item as int]) matches Some(attrs) && forall|a: int|
                0 <= a < m.kept_attrs@.len() ==> #[trigger] m.kept_attrs@[a] < attrs.len()
        } by {
        let wp = plan.wrappers@[w];
        let m = wp.methods@[j];
        let i = m.item as int;
        assert(wrapper_matches(items, plan.struct_name@, wp, ks[w]));
        let pos = bucket(items, ks[w]);
        assert(moved_matches(items, pos[j], m));
        assert(0 <= i < items.len());
        assert(item_describes(parts[i], items[i]));
        assert(items[i] is Fn);
        let attrs = method_attrs_of(parts[i])->Some_0;
        let method = items[i]->Fn_0;
        let unmarked = positions_where(item_attrs(items[i]), unmarked_pred());
        lemma_positions_spec(item_attrs(items[i]), unmarked_pred());
        assert forall|a: int| 0 <= a < m.kept_attrs@.len() implies #[trigger] m.kept_attrs@[a]
            < attrs.len() by {
            assert(m.kept_attrs@[a] as int == unmarked[a]);
        }
    }
}

} // verus!
