//! The two passes over a primitive stream that cut a region out of it.
//!
//! The first pass keeps the ways that a rule accepts, in the order in which the
//! stream gives them. The second pass keeps the nodes that those ways refer to.
//! Where the stream gives a node identifier more than once, the last node
//! with it stays.

use crate::model::{
    node_views, primitive_views, referenced_ids, way_views, Node, NodeView, Primitive,
    PrimitiveView, Region, RegionView, Way, WayView,
};
use crate::predicate::TagPredicate;
use crate::tags::distinct_keys;
use std::collections::{HashMap, HashSet};
use vstd::prelude::*;

verus! {

/// `ways`, and after them `p` where it is a way that `rule` accepts.
pub open spec fn keep_way(ways: Seq<WayView>, p: PrimitiveView, rule: TagPredicate) -> Seq<
    WayView,
> {
    match p {
        PrimitiveView::Way(w) => if rule.holds(w.tags) {
            ways.push(w)
        } else {
            ways
        },
        _ => ways,
    }
}

/// The ways of `stream` that `rule` accepts, in the order of the stream.
pub open spec fn retained_ways(stream: Seq<PrimitiveView>, rule: TagPredicate) -> Seq<WayView>
    decreases stream.len(),
{
    if stream.len() == 0 {
        Seq::empty()
    } else {
        keep_way(retained_ways(stream.drop_last(), rule), stream.last(), rule)
    }
}

/// `nodes`, with `p` put under its identifier where it is a node that
/// `required` asks for.
pub open spec fn keep_node(nodes: Map<i64, NodeView>, p: PrimitiveView, required: Set<i64>) -> Map<
    i64,
    NodeView,
> {
    match p {
        PrimitiveView::Node(n) => if required.contains(n.id) {
            nodes.insert(n.id, n)
        } else {
            nodes
        },
        _ => nodes,
    }
}

/// The nodes of `stream` that `required` asks for, each under its identifier.
pub open spec fn collected_nodes(stream: Seq<PrimitiveView>, required: Set<i64>) -> Map<
    i64,
    NodeView,
>
    decreases stream.len(),
{
    if stream.len() == 0 {
        Map::empty()
    } else {
        keep_node(collected_nodes(stream.drop_last(), required), stream.last(), required)
    }
}

/// The region that `stream` gives under `rule`.
pub open spec fn extracted(name: Seq<char>, stream: Seq<PrimitiveView>, rule: TagPredicate)
    -> RegionView {
    let ways = retained_ways(stream, rule);
    RegionView { name, ways, nodes: collected_nodes(stream, referenced_ids(ways)) }
}

/// Whether `stream` gives a node with the identifier `id`.
pub open spec fn has_node(stream: Seq<PrimitiveView>, id: i64) -> bool {
    exists|i: int| 0 <= i < stream.len() && #[trigger] stream[i] == PrimitiveView::Node(
        stream[i]->Node_0,
    ) && stream[i]->Node_0.id == id
}

/// Whether `p` is a way that `rule` accepts.
pub open spec fn is_accepted_way(p: PrimitiveView, rule: TagPredicate) -> bool {
    p is Way && rule.holds(p->Way_0.tags)
}

/// The number of ways in `stream` that `rule` accepts.
pub open spec fn accepted_count(stream: Seq<PrimitiveView>, rule: TagPredicate) -> nat
    decreases stream.len(),
{
    if stream.len() == 0 {
        0
    } else {
        accepted_count(stream.drop_last(), rule) + if is_accepted_way(stream.last(), rule) {
            1nat
        } else {
            0nat
        }
    }
}

/// Whether no tag mapping in `stream` holds a key twice.
pub open spec fn stream_wf(stream: Seq<PrimitiveView>) -> bool {
    forall|i: int|
        0 <= i < stream.len() ==> match #[trigger] stream[i] {
            PrimitiveView::Node(n) => distinct_keys(n.tags),
            PrimitiveView::Way(w) => distinct_keys(w.tags),
            PrimitiveView::Relation(_) => true,
        }
}

/// The node identifiers that the ways before `w` refer to, and the first `k`
/// of the way `w`.
pub open spec fn referenced_before(ways: Seq<WayView>, w: int, k: int) -> Set<i64> {
    Set::new(
        |id: i64|
            exists|a: int, b: int|
                0 <= a < ways.len() && 0 <= b < ways[a].nodes.len() && (a < w || (a == w && b < k))
                    && #[trigger] ways[a].nodes[b] == id,
    )
}

/// Before the first way nothing is referred to, and after the last way all is.
proof fn lemma_referenced_start(ways: Seq<WayView>)
    ensures
        referenced_before(ways, 0, 0) == Set::<i64>::empty(),
        referenced_before(ways, ways.len() as int, 0) == referenced_ids(ways),
{
    assert(referenced_before(ways, 0, 0) =~= Set::<i64>::empty());
    assert(referenced_before(ways, ways.len() as int, 0) =~= referenced_ids(ways));
}

/// One more node identifier of a way adds that identifier.
proof fn lemma_referenced_step(ways: Seq<WayView>, w: int, k: int)
    requires
        0 <= w < ways.len(),
        0 <= k < ways[w].nodes.len(),
    ensures
        referenced_before(ways, w, k + 1) == referenced_before(ways, w, k).insert(
            ways[w].nodes[k],
        ),
{
    let now = referenced_before(ways, w, k + 1);
    let then = referenced_before(ways, w, k).insert(ways[w].nodes[k]);
    assert forall|id: i64| now.contains(id) == then.contains(id) by {
        if now.contains(id) {
            let (a, b) = choose|a: int, b: int|
                0 <= a < ways.len() && 0 <= b < ways[a].nodes.len() && (a < w || (a == w && b < k
                    + 1)) && #[trigger] ways[a].nodes[b] == id;
            if !(a == w && b == k) {
                assert(ways[a].nodes[b] == id);
                assert(referenced_before(ways, w, k).contains(id));
            }
        }
        if then.contains(id) {
            if id == ways[w].nodes[k] {
                assert(ways[w].nodes[k] == id);
            } else {
                let (a, b) = choose|a: int, b: int|
                    0 <= a < ways.len() && 0 <= b < ways[a].nodes.len() && (a < w || (a == w && b
                        < k)) && #[trigger] ways[a].nodes[b] == id;
                assert(ways[a].nodes[b] == id);
            }
            assert(now.contains(id));
        }
    }
    assert(now =~= then);
}

/// When a way is done, the next one starts with what was referred to so far.
proof fn lemma_referenced_next_way(ways: Seq<WayView>, w: int)
    requires
        0 <= w < ways.len(),
    ensures
        referenced_before(ways, w, ways[w].nodes.len() as int) == referenced_before(
            ways,
            w + 1,
            0,
        ),
{
    let now = referenced_before(ways, w, ways[w].nodes.len() as int);
    let then = referenced_before(ways, w + 1, 0);
    assert forall|id: i64| now.contains(id) == then.contains(id) by {
        if now.contains(id) {
            let (a, b) = choose|a: int, b: int|
                0 <= a < ways.len() && 0 <= b < ways[a].nodes.len() && (a < w || (a == w && b
                    < ways[w].nodes.len())) && #[trigger] ways[a].nodes[b] == id;
            assert(ways[a].nodes[b] == id);
            assert(then.contains(id));
        }
        if then.contains(id) {
            let (a, b) = choose|a: int, b: int|
                0 <= a < ways.len() && 0 <= b < ways[a].nodes.len() && (a < w + 1 || (a == w + 1
                    && b < 0)) && #[trigger] ways[a].nodes[b] == id;
            assert(ways[a].nodes[b] == id);
            assert(now.contains(id));
        }
    }
    assert(now =~= then);
}

/// Adds `p` to `ways` where it is a way that `rule` accepts.
pub(crate) fn retain_way(ways: &mut Vec<Way>, p: &Primitive, rule: &TagPredicate)
    ensures
        way_views(final(ways)@) == keep_way(way_views(old(ways)@), p@, *rule),
{
    match p {
        Primitive::Way(w) => {
            if rule.matches(&w.tags) {
                let kept = w.clone();
                ways.push(kept);
                assert(way_views(ways@) =~= way_views(old(ways)@).push(w@));
            }
        },
        _ => {},
    }
}

/// Puts `p` into `nodes` where it is a node that `required` asks for.
pub(crate) fn retain_node(nodes: &mut HashMap<i64, Node>, p: &Primitive, required: &HashSet<i64>)
    ensures
        node_views(final(nodes)@) == keep_node(node_views(old(nodes)@), p@, required@),
{
    broadcast use vstd::std_specs::hash::group_hash_axioms;

    match p {
        Primitive::Node(n) => {
            if required.contains(&n.id) {
                let kept = n.clone();
                nodes.insert(n.id, kept);
                assert(node_views(nodes@) =~= node_views(old(nodes)@).insert(n.id, n@));
            }
        },
        _ => {},
    }
}

/// The node identifiers that the ways refer to, each once.
pub fn required_node_ids(ways: &Vec<Way>) -> (required: HashSet<i64>)
    ensures
        required@ == referenced_ids(way_views(ways@)),
{
    broadcast use vstd::std_specs::hash::group_hash_axioms;

    let ghost views = way_views(ways@);
    let mut required: HashSet<i64> = HashSet::new();
    let mut w: usize = 0;
    proof {
        lemma_referenced_start(views);
    }
    while w < ways.len()
        invariant
            w <= ways.len(),
            views == way_views(ways@),
            required@ == referenced_before(views, w as int, 0),
        decreases ways.len() - w,
    {
        let way = &ways[w];
        assert(views[w as int] == way@);
        let mut k: usize = 0;
        while k < way.nodes.len()
            invariant
                w < ways.len(),
                k <= way.nodes.len(),
                views == way_views(ways@),
                views[w as int] == way@,
                required@ == referenced_before(views, w as int, k as int),
            decreases way.nodes.len() - k,
        {
            proof {
                lemma_referenced_step(views, w as int, k as int);
            }
            required.insert(way.nodes[k]);
            k = k + 1;
        }
        proof {
            lemma_referenced_next_way(views, w as int);
        }
        w = w + 1;
    }
    proof {
        lemma_referenced_start(views);
    }
    required
}

/// Cuts the region `name` out of `stream`: the ways that `rule` accepts, in the
/// order of the stream, and the nodes of the stream that they refer to. A
/// node that a way refers to and the stream lacks is left out.
pub fn extract(name: String, stream: &Vec<Primitive>, rule: &TagPredicate) -> (region: Region)
    ensures
        region@ == extracted(name@, primitive_views(stream@), *rule),
        region.ways.len() == accepted_count(primitive_views(stream@), *rule),
        forall|w: int, k: int|
            0 <= w < region@.ways.len() && 0 <= k < region@.ways[w].nodes.len() ==> (
            region@.nodes.contains_key(#[trigger] region@.ways[w].nodes[k]) <==> has_node(
                primitive_views(stream@),
                region@.ways[w].nodes[k],
            )),
        region@.closed(),
        stream_wf(primitive_views(stream@)) ==> region@.tags_wf(),
{
    let ghost source = primitive_views(stream@);
    proof {
        lemma_filter_exact(source, *rule);
        lemma_node_closure(name@, source, *rule);
        lemma_collected_nodes(source, referenced_ids(retained_ways(source, *rule)));
        if stream_wf(source) {
            lemma_extracted_wf(name@, source, *rule);
        }
    }
    let mut ways: Vec<Way> = Vec::new();
    let mut i: usize = 0;
    assert(way_views(ways@) =~= retained_ways(source.subrange(0, 0), *rule));
    while i < stream.len()
        invariant
            i <= stream.len(),
            source == primitive_views(stream@),
            way_views(ways@) == retained_ways(source.subrange(0, i as int), *rule),
        decreases stream.len() - i,
    {
        proof {
            let next = source.subrange(0, i + 1);
            assert(next.drop_last() == source.subrange(0, i as int));
            assert(next.last() == stream@[i as int]@);
        }
        retain_way(&mut ways, &stream[i], rule);
        i = i + 1;
    }
    assert(source.subrange(0, stream.len() as int) == source);
    let required = required_node_ids(&ways);
    let mut nodes: HashMap<i64, Node> = HashMap::new();
    let mut j: usize = 0;
    assert(node_views(nodes@) =~= collected_nodes(source.subrange(0, 0), required@));
    while j < stream.len()
        invariant
            j <= stream.len(),
            source == primitive_views(stream@),
            node_views(nodes@) == collected_nodes(source.subrange(0, j as int), required@),
        decreases stream.len() - j,
    {
        proof {
            let next = source.subrange(0, j + 1);
            assert(next.drop_last() == source.subrange(0, j as int));
            assert(next.last() == stream@[j as int]@);
        }
        retain_node(&mut nodes, &stream[j], &required);
        j = j + 1;
    }
    Region { name, ways, nodes }
}

/// Every way that was kept is a way of the stream that the rule accepts, and
/// every such way of the stream was kept: as many ways are kept as the stream
/// has accepted ones, and none of the others.
pub proof fn lemma_filter_exact(stream: Seq<PrimitiveView>, rule: TagPredicate)
    ensures
        retained_ways(stream, rule).len() == accepted_count(stream, rule),
        forall|i: int|
            0 <= i < retained_ways(stream, rule).len() ==> rule.holds(
                (#[trigger] retained_ways(stream, rule)[i]).tags,
            ) && stream.contains(PrimitiveView::Way(retained_ways(stream, rule)[i])),
        forall|j: int|
            0 <= j < stream.len() && is_accepted_way(#[trigger] stream[j], rule)
                ==> retained_ways(stream, rule).contains(stream[j]->Way_0),
    decreases stream.len(),
{
    let kept = retained_ways(stream, rule);
    if stream.len() > 0 {
        let front = stream.drop_last();
        let before = retained_ways(front, rule);
        lemma_filter_exact(front, rule);
        assert forall|i: int| 0 <= i < kept.len() implies rule.holds((#[trigger] kept[i]).tags)
            && stream.contains(PrimitiveView::Way(kept[i])) by {
            if i < before.len() {
                assert(kept[i] == before[i]);
                let at = choose|at: int|
                    0 <= at < front.len() && front[at] == PrimitiveView::Way(before[i]);
                assert(stream[at] == front[at]);
            } else {
                assert(stream[stream.len() - 1] == PrimitiveView::Way(kept[i]));
            }
        }
        assert forall|j: int|
            0 <= j < stream.len() && is_accepted_way(
                #[trigger] stream[j],
                rule,
            ) implies kept.contains(stream[j]->Way_0) by {
            if j < front.len() {
                assert(front[j] == stream[j]);
                let at = choose|at: int|
                    0 <= at < before.len() && before[at] == front[j]->Way_0;
                assert(kept[at] == before[at]);
            } else {
                assert(kept[kept.len() - 1] == stream[j]->Way_0);
            }
        }
    }
}

/// A node is collected where it is asked for and the stream gives it; it then
/// stands under its own identifier and is a node of the stream.
pub proof fn lemma_collected_nodes(stream: Seq<PrimitiveView>, required: Set<i64>)
    ensures
        forall|id: i64| #[trigger]
            collected_nodes(stream, required).contains_key(id) <==> required.contains(id)
                && has_node(stream, id),
        forall|id: i64| #[trigger]
            collected_nodes(stream, required).contains_key(id) ==> collected_nodes(
                stream,
                required,
            )[id].id == id && stream.contains(
                PrimitiveView::Node(collected_nodes(stream, required)[id]),
            ),
    decreases stream.len(),
{
    let nodes = collected_nodes(stream, required);
    if stream.len() > 0 {
        let front = stream.drop_last();
        let before = collected_nodes(front, required);
        let last = stream.last();
        lemma_collected_nodes(front, required);
        assert forall|id: i64| #[trigger]
            nodes.contains_key(id) <==> required.contains(id) && has_node(stream, id) by {
            if nodes.contains_key(id) {
                if before.contains_key(id) {
                    let at = choose|at: int|
                        0 <= at < front.len() && #[trigger] front[at] == PrimitiveView::Node(
                            front[at]->Node_0,
                        ) && front[at]->Node_0.id == id;
                    assert(stream[at] == front[at]);
                } else {
                    assert(stream[stream.len() - 1] == last);
                }
                assert(has_node(stream, id));
            }
            if required.contains(id) && has_node(stream, id) {
                let at = choose|at: int|
                    0 <= at < stream.len() && #[trigger] stream[at] == PrimitiveView::Node(
                        stream[at]->Node_0,
                    ) && stream[at]->Node_0.id == id;
                if at < front.len() {
                    assert(front[at] == stream[at]);
                    assert(has_node(front, id));
                }
            }
        }
        assert forall|id: i64| #[trigger] nodes.contains_key(id) implies nodes[id].id == id
            && stream.contains(PrimitiveView::Node(nodes[id])) by {
            if last is Node && required.contains(last->Node_0.id) && last->Node_0.id == id {
                assert(stream[stream.len() - 1] == PrimitiveView::Node(nodes[id]));
            } else {
                assert(before.contains_key(id));
                let at = choose|at: int|
                    0 <= at < front.len() && front[at] == PrimitiveView::Node(before[id]);
                assert(stream[at] == front[at]);
            }
        }
    }
}

/// Node closure: of the nodes that a kept way refers to, the region holds
/// those that the stream gives and lacks those that the stream lacks; and it
/// holds no other node, and each under its own identifier.
pub proof fn lemma_node_closure(name: Seq<char>, stream: Seq<PrimitiveView>, rule: TagPredicate)
    ensures
        extracted(name, stream, rule).closed(),
        forall|w: int, k: int|
            0 <= w < extracted(name, stream, rule).ways.len() && 0 <= k < extracted(
                name,
                stream,
                rule,
            ).ways[w].nodes.len() ==> (extracted(name, stream, rule).nodes.contains_key(
                #[trigger] extracted(name, stream, rule).ways[w].nodes[k],
            ) <==> has_node(stream, extracted(name, stream, rule).ways[w].nodes[k])),
        forall|id: i64| #[trigger]
            extracted(name, stream, rule).nodes.contains_key(id) ==> referenced_ids(
                extracted(name, stream, rule).ways,
            ).contains(id) && has_node(stream, id),
{
    let region = extracted(name, stream, rule);
    let required = referenced_ids(region.ways);
    lemma_collected_nodes(stream, required);
    assert forall|w: int, k: int|
        0 <= w < region.ways.len() && 0 <= k < region.ways[w].nodes.len() implies (
    region.nodes.contains_key(#[trigger] region.ways[w].nodes[k]) <==> has_node(
        stream,
        region.ways[w].nodes[k],
    )) by {
        assert(required.contains(region.ways[w].nodes[k]));
    }
}

/// A stream whose tag mappings hold no key twice gives a region of which the
/// same is true.
pub proof fn lemma_extracted_wf(name: Seq<char>, stream: Seq<PrimitiveView>, rule: TagPredicate)
    requires
        stream_wf(stream),
    ensures
        extracted(name, stream, rule).tags_wf(),
{
    let region = extracted(name, stream, rule);
    lemma_filter_exact(stream, rule);
    lemma_collected_nodes(stream, referenced_ids(region.ways));
    assert forall|id: i64| #[trigger] region.nodes.contains_key(id) implies distinct_keys(
        region.nodes[id].tags,
    ) by {
        let at = choose|at: int|
            0 <= at < stream.len() && stream[at] == PrimitiveView::Node(region.nodes[id]);
        assert(stream[at] is Node);
    }
    assert forall|w: int| 0 <= w < region.ways.len() implies distinct_keys(
        (#[trigger] region.ways[w]).tags,
    ) by {
        let at = choose|at: int|
            0 <= at < stream.len() && stream[at] == PrimitiveView::Way(region.ways[w]);
        assert(stream[at] is Way);
    }
}

} // verus!
