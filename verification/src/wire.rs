//! The layout of a region in its cache entry.
//!
//! A region is written as a name, then its ways, then its nodes, each node
//! after its identifier. A way is its identifier, its tags and its node
//! identifiers; a node is its identifier, its tags, its latitude and its
//! longitude. The bytes themselves are bincode's.

use crate::model::{node_views, way_views, Node, NodeView, Region, RegionView, Way, WayView};
use crate::tags::{distinct_keys, TagSeq, Tags};
use std::collections::HashMap;
use vstd::prelude::*;
use vstd::std_specs::iter::IteratorSpec;

verus! {

/// Tags as they are written: pairs of key and value.
pub type WireTags = Vec<(String, String)>;

/// A way as it is written: identifier, tags, node identifiers.
pub type WireWay = (i64, WireTags, Vec<i64>);

/// A node as it is written: identifier, tags, latitude, longitude.
pub type WireNode = (i64, WireTags, i32, i32);

/// A region as it is written: name, ways, nodes under their identifiers.
pub type WireRegion = (String, Vec<WireWay>, Vec<(i64, WireNode)>);

/// What a [`WireWay`] holds.
pub type WireWayView = (i64, TagSeq, Seq<i64>);

/// What a [`WireNode`] holds.
pub type WireNodeView = (i64, TagSeq, i32, i32);

/// What a [`WireRegion`] holds.
pub type WireRegionView = (Seq<char>, Seq<WireWayView>, Seq<(i64, WireNodeView)>);

/// bincode's error. The functions here hand it on and read nothing from it.
#[verifier::external_type_specification]
#[verifier::external_body]
pub struct ExBincodeErrorKind(bincode::ErrorKind);

/// The bytes that bincode writes for a region.
pub uninterp spec fn bincode_encoding(region: WireRegionView) -> Seq<u8>;

/// The region that bincode reads from `bytes`, where it reads one.
pub uninterp spec fn bincode_decoding(bytes: Seq<u8>) -> Option<WireRegionView>;

/// Writes a region with `bincode::serialize`.
///
/// Not proved, and taken from bincode's source:
/// - that it does not refuse a value of this type. It sets no size limit;
///   every sequence in the type is a `Vec`, whose length is known; and it
///   writes to a vector in memory.
/// - that the bytes depend on the value alone.
/// - that `bincode::deserialize` reads from the bytes the value that was
///   written: the round trip that bincode's documentation shows.
#[verifier::external_body]
pub(crate) fn bincode_serialize(region: &WireRegion) -> (r: Result<Vec<u8>, bincode::Error>)
    ensures
        r is Ok,
        r matches Ok(bytes) ==> bytes@ == bincode_encoding(region.deep_view())
            && bincode_decoding(bytes@) == Some(region.deep_view()),
{
    bincode::serialize(region)
}

/// Reads a region with `bincode::deserialize`.
///
/// Not proved: that what is read depends on the bytes alone.
#[verifier::external_body]
pub(crate) fn bincode_deserialize(bytes: &[u8]) -> (r: Result<WireRegion, bincode::Error>)
    ensures
        r matches Ok(region) ==> bincode_decoding(bytes@) == Some(region.deep_view()),
        r is Err ==> bincode_decoding(bytes@) is None,
{
    bincode::deserialize(bytes)
}

/// The tags of `tags` as they are written.
pub fn tags_to_wire(tags: &Tags) -> (wire: WireTags)
    ensures
        wire.deep_view() == tags@,
{
    let n = tags.len();
    let mut wire: WireTags = Vec::new();
    let mut i: usize = 0;
    while i < n
        invariant
            n == tags@.len(),
            i <= n,
            wire.deep_view() == tags@.subrange(0, i as int),
        decreases n - i,
    {
        let tag = tags.entry(i);
        let ghost before = wire.deep_view();
        wire.push((tag.key.clone(), tag.value.clone()));
        proof {
            assert(wire.deep_view() =~= before.push(tag@));
            assert(tags@.subrange(0, i + 1) =~= tags@.subrange(0, i as int).push(tags@[i as int]));
        }
        i = i + 1;
    }
    assert(tags@.subrange(0, n as int) == tags@);
    wire
}

/// The tags that were written as `wire`, where no key is there twice.
pub fn tags_from_wire(wire: &WireTags) -> (r: Option<Tags>)
    ensures
        r is Some <==> distinct_keys(wire.deep_view()),
        r matches Some(tags) ==> tags@ == wire.deep_view(),
{
    let ghost written = wire.deep_view();
    let n = wire.len();
    let mut tags = Tags::new();
    let mut i: usize = 0;
    while i < n
        invariant
            n == wire.len(),
            i <= n,
            written == wire.deep_view(),
            tags@ == written.subrange(0, i as int),
            distinct_keys(tags@),
        decreases n - i,
    {
        let pair = &wire[i];
        assert(written[i as int] == (pair.0@, pair.1@));
        proof {
            crate::tags::lemma_key_index(tags@, pair.0@);
        }
        if tags.contains_key(&pair.0) {
            proof {
                let at = crate::tags::key_index(tags@, pair.0@);
                assert(written[at].0 == tags@[at].0);
                assert(written[at].0 == written[i as int].0);
            }
            return None;
        }
        let ghost before = tags@;
        tags.insert(pair.0.clone(), pair.1.clone());
        proof {
            assert(tags@ == before.push((pair.0@, pair.1@)));
            assert(written.subrange(0, i + 1) =~= before.push(written[i as int]));
            crate::tags::lemma_with_tag(before, pair.0@, pair.1@);
        }
        i = i + 1;
    }
    assert(written.subrange(0, n as int) == written);
    Some(tags)
}

/// A way as it is written.
pub open spec fn wire_of_way(way: WayView) -> WireWayView {
    (way.id, way.tags, way.nodes)
}

/// The way that was written.
pub open spec fn way_of_wire(wire: WireWayView) -> WayView {
    WayView { id: wire.0, tags: wire.1, nodes: wire.2 }
}

/// A node as it is written.
pub open spec fn wire_of_node(node: NodeView) -> WireNodeView {
    (node.id, node.tags, node.decimicro_lat, node.decimicro_lon)
}

/// The node that was written.
pub open spec fn node_of_wire(wire: WireNodeView) -> NodeView {
    NodeView { id: wire.0, tags: wire.1, decimicro_lat: wire.2, decimicro_lon: wire.3 }
}

/// The ways that were written, in their order.
pub open spec fn ways_of_wire(wire: Seq<WireWayView>) -> Seq<WayView> {
    wire.map_values(|w: WireWayView| way_of_wire(w))
}

/// The nodes that were written, each under the identifier it was written
/// after. Of two nodes under one identifier the later one stays.
pub open spec fn nodes_of_wire(wire: Seq<(i64, WireNodeView)>) -> Map<i64, NodeView>
    decreases wire.len(),
{
    if wire.len() == 0 {
        Map::empty()
    } else {
        nodes_of_wire(wire.drop_last()).insert(wire.last().0, node_of_wire(wire.last().1))
    }
}

/// The region that was written.
pub open spec fn region_of_wire(wire: WireRegionView) -> RegionView {
    RegionView { name: wire.0, ways: ways_of_wire(wire.1), nodes: nodes_of_wire(wire.2) }
}

/// Whether what was written can be a region: no tag mapping holds a key
/// twice.
pub open spec fn wire_valid(wire: WireRegionView) -> bool {
    &&& forall|i: int| 0 <= i < wire.1.len() ==> distinct_keys((#[trigger] wire.1[i]).1)
    &&& forall|j: int| 0 <= j < wire.2.len() ==> distinct_keys((#[trigger] wire.2[j]).1.1)
}

/// A way as it is written.
pub fn way_to_wire(way: &Way) -> (wire: WireWay)
    ensures
        wire.deep_view() == wire_of_way(way@),
{
    let wire = (way.id, tags_to_wire(&way.tags), way.nodes.clone());
    assert(wire.2.deep_view() =~= way.nodes@);
    wire
}

/// The way that was written as `wire`, where its tags hold no key twice.
pub fn way_from_wire(wire: &WireWay) -> (r: Option<Way>)
    ensures
        r is Some <==> distinct_keys(wire.deep_view().1),
        r matches Some(way) ==> way@ == way_of_wire(wire.deep_view()),
{
    match tags_from_wire(&wire.1) {
        Some(tags) => {
            let way = Way { id: wire.0, tags, nodes: wire.2.clone() };
            assert(wire.2.deep_view() =~= way.nodes@);
            Some(way)
        },
        None => None,
    }
}

/// A node as it is written.
pub fn node_to_wire(node: &Node) -> (wire: WireNode)
    ensures
        wire.deep_view() == wire_of_node(node@),
{
    (node.id, tags_to_wire(&node.tags), node.decimicro_lat, node.decimicro_lon)
}

/// The node that was written as `wire`, where its tags hold no key twice.
pub fn node_from_wire(wire: &WireNode) -> (r: Option<Node>)
    ensures
        r is Some <==> distinct_keys(wire.deep_view().1),
        r matches Some(node) ==> node@ == node_of_wire(wire.deep_view()),
{
    match tags_from_wire(&wire.1) {
        Some(tags) => Some(
            Node { id: wire.0, tags, decimicro_lat: wire.2, decimicro_lon: wire.3 },
        ),
        None => None,
    }
}

/// Whether `wire` lists the nodes of `nodes`: each entry is a node of the map
/// under its identifier, and each node of the map has an entry.
pub open spec fn lists_nodes(wire: Seq<(i64, WireNodeView)>, nodes: Map<i64, NodeView>) -> bool {
    &&& forall|j: int|
        0 <= j < wire.len() ==> nodes.contains_key((#[trigger] wire[j]).0) && wire[j].1
            == wire_of_node(nodes[wire[j].0])
    &&& forall|id: i64| #[trigger]
        nodes.contains_key(id) ==> exists|j: int|
            0 <= j < wire.len() && (#[trigger] wire[j]).0 == id
}

/// Every entry that is read back is a node of the map it was listed from.
proof fn lemma_listed_prefix(wire: Seq<(i64, WireNodeView)>, nodes: Map<i64, NodeView>)
    requires
        forall|j: int|
            0 <= j < wire.len() ==> nodes.contains_key((#[trigger] wire[j]).0) && wire[j].1
                == wire_of_node(nodes[wire[j].0]),
    ensures
        forall|id: i64| #[trigger]
            nodes_of_wire(wire).contains_key(id) <==> exists|j: int|
                0 <= j < wire.len() && (#[trigger] wire[j]).0 == id,
        forall|id: i64| #[trigger]
            nodes_of_wire(wire).contains_key(id) ==> nodes_of_wire(wire)[id] == nodes[id],
    decreases wire.len(),
{
    if wire.len() > 0 {
        let front = wire.drop_last();
        assert forall|j: int| 0 <= j < front.len() implies nodes.contains_key(
            (#[trigger] front[j]).0,
        ) && front[j].1 == wire_of_node(nodes[front[j].0]) by {
            assert(front[j] == wire[j]);
        }
        lemma_listed_prefix(front, nodes);
        let last = wire.last();
        assert(wire[wire.len() - 1] == last);
        assert forall|id: i64| #[trigger]
            nodes_of_wire(wire).contains_key(id) <==> exists|j: int|
                0 <= j < wire.len() && (#[trigger] wire[j]).0 == id by {
            if nodes_of_wire(wire).contains_key(id) {
                if id == last.0 {
                    assert(wire[wire.len() - 1].0 == id);
                } else {
                    assert(nodes_of_wire(front).contains_key(id));
                    let j = choose|j: int| 0 <= j < front.len() && (#[trigger] front[j]).0 == id;
                    assert(wire[j] == front[j]);
                }
            }
            if exists|j: int| 0 <= j < wire.len() && (#[trigger] wire[j]).0 == id {
                let j = choose|j: int| 0 <= j < wire.len() && (#[trigger] wire[j]).0 == id;
                if j < front.len() {
                    assert(front[j] == wire[j]);
                    assert(nodes_of_wire(front).contains_key(id));
                }
            }
        }
        assert(node_of_wire(wire_of_node(nodes[last.0])) == nodes[last.0]);
        assert forall|id: i64| #[trigger]
            nodes_of_wire(wire).contains_key(id) implies nodes_of_wire(wire)[id] == nodes[id] by {
            if id != last.0 {
                assert(nodes_of_wire(front).contains_key(id));
            }
        }
    }
}

/// Reading back a listing of a node map gives that map.
pub proof fn lemma_listed_nodes_read_back(wire: Seq<(i64, WireNodeView)>, nodes: Map<i64, NodeView>)
    requires
        lists_nodes(wire, nodes),
    ensures
        nodes_of_wire(wire) == nodes,
{
    lemma_listed_prefix(wire, nodes);
    assert forall|id: i64| nodes_of_wire(wire).contains_key(id) == nodes.contains_key(id) by {
        if nodes_of_wire(wire).contains_key(id) {
            let j = choose|j: int| 0 <= j < wire.len() && (#[trigger] wire[j]).0 == id;
            assert(nodes.contains_key(wire[j].0));
        }
    }
    assert(nodes_of_wire(wire) =~= nodes);
}

/// The ways as they are written, in their order.
fn ways_to_wire(ways: &Vec<Way>) -> (wire: Vec<WireWay>)
    ensures
        ways_of_wire(wire.deep_view()) == way_views(ways@),
        wire.deep_view().len() == ways.len(),
        forall|i: int|
            0 <= i < ways.len() ==> (#[trigger] wire.deep_view()[i]) == wire_of_way(ways@[i]@),
{
    let n = ways.len();
    let mut wire: Vec<WireWay> = Vec::new();
    let mut i: usize = 0;
    while i < n
        invariant
            n == ways.len(),
            i <= n,
            wire.deep_view().len() == i,
            forall|k: int|
                0 <= k < i ==> (#[trigger] wire.deep_view()[k]) == wire_of_way(ways@[k]@),
        decreases n - i,
    {
        let ghost before = wire.deep_view();
        let way = way_to_wire(&ways[i]);
        wire.push(way);
        proof {
            assert(wire.deep_view() =~= before.push(way.deep_view()));
        }
        i = i + 1;
    }
    assert(ways_of_wire(wire.deep_view()) =~= way_views(ways@));
    wire
}

/// The nodes as they are written, each after its identifier, in the order in
/// which the map gives them.
fn nodes_to_wire(nodes: &HashMap<i64, Node>) -> (wire: Vec<(i64, WireNode)>)
    ensures
        lists_nodes(wire.deep_view(), node_views(nodes@)),
{
    broadcast use vstd::std_specs::hash::group_hash_axioms;

    let mut wire: Vec<(i64, WireNode)> = Vec::new();
    let ghost listing = nodes.iter().remaining();
    for entry in it: nodes.iter()
        invariant
            it.seq() == listing,
            listing == nodes.iter().remaining(),
            wire.deep_view().len() == it.index(),
            forall|j: int|
                0 <= j < it.index() ==> (#[trigger] wire.deep_view()[j]) == (
                    *listing[j].0,
                    wire_of_node((*listing[j].1)@),
                ),
    {
        let ghost before = wire.deep_view();
        let id: i64 = *entry.0;
        let node = node_to_wire(entry.1);
        wire.push((id, node));
        proof {
            assert(wire.deep_view() =~= before.push((id, node.deep_view())));
        }
    }
    proof {
        let written = wire.deep_view();
        let views = node_views(nodes@);
        assert forall|j: int| 0 <= j < written.len() implies views.contains_key(
            (#[trigger] written[j]).0,
        ) && written[j].1 == wire_of_node(views[written[j].0]) by {
            assert(nodes@.contains_key(*listing[j].0));
            assert(nodes@[*listing[j].0] == *listing[j].1);
        }
        assert forall|id: i64| #[trigger] views.contains_key(id) implies exists|j: int|
            0 <= j < written.len() && (#[trigger] written[j]).0 == id by {
            assert(nodes@.contains_key(id));
            assert(listing.contains((&id, &nodes@[id])));
            let j = choose|j: int| 0 <= j < listing.len() && listing[j] == (&id, &nodes@[id]);
            assert(written[j].0 == id);
        }
    }
    wire
}

/// Whether `wire` is a writing of `region`: its name, its ways in their
/// order, and a listing of its nodes.
pub open spec fn writes_region(wire: WireRegionView, region: RegionView) -> bool {
    &&& wire.0 == region.name
    &&& wire.1 == region.ways.map_values(|w: WayView| wire_of_way(w))
    &&& lists_nodes(wire.2, region.nodes)
}

/// What is read back from a writing of a region is that region, and the
/// writing is valid just where no tag mapping of the region holds a key twice.
pub proof fn lemma_writing_reads_back(wire: WireRegionView, region: RegionView)
    requires
        writes_region(wire, region),
    ensures
        region_of_wire(wire) == region,
        wire_valid(wire) <==> region.tags_wf(),
{
    lemma_listed_nodes_read_back(wire.2, region.nodes);
    assert(ways_of_wire(wire.1) =~= region.ways);
    if wire_valid(wire) {
        assert forall|id: i64| #[trigger] region.nodes.contains_key(id) implies distinct_keys(
            region.nodes[id].tags,
        ) by {
            let j = choose|j: int| 0 <= j < wire.2.len() && (#[trigger] wire.2[j]).0 == id;
            assert(distinct_keys(wire.2[j].1.1));
        }
        assert forall|w: int| 0 <= w < region.ways.len() implies distinct_keys(
            (#[trigger] region.ways[w]).tags,
        ) by {
            assert(distinct_keys(wire.1[w].1));
        }
    }
    if region.tags_wf() {
        assert forall|i: int| 0 <= i < wire.1.len() implies distinct_keys(
            (#[trigger] wire.1[i]).1,
        ) by {
            assert(distinct_keys(region.ways[i].tags));
        }
        assert forall|j: int| 0 <= j < wire.2.len() implies distinct_keys(
            (#[trigger] wire.2[j]).1.1,
        ) by {
            assert(region.nodes.contains_key(wire.2[j].0));
        }
    }
}

/// A region as it is written.
pub fn region_to_wire(region: &Region) -> (wire: WireRegion)
    ensures
        writes_region(wire.deep_view(), region@),
{
    let ways = ways_to_wire(&region.ways);
    let nodes = nodes_to_wire(&region.nodes);
    let wire = (region.name.clone(), ways, nodes);
    proof {
        let written = wire.deep_view();
        assert(written.1 == wire.1.deep_view());
        assert(written.2 == wire.2.deep_view());
        assert(written.1 =~= region@.ways.map_values(|w: WayView| wire_of_way(w)));
    }
    wire
}

/// The ways that were written as `wire`, where no tag mapping holds a key
/// twice.
fn ways_from_wire(wire: &Vec<WireWay>) -> (r: Option<Vec<Way>>)
    ensures
        r is Some <==> forall|i: int|
            0 <= i < wire.deep_view().len() ==> distinct_keys((#[trigger] wire.deep_view()[i]).1),
        r matches Some(ways) ==> way_views(ways@) == ways_of_wire(wire.deep_view()),
{
    let ghost written = wire.deep_view();
    let n = wire.len();
    let mut ways: Vec<Way> = Vec::new();
    let mut i: usize = 0;
    while i < n
        invariant
            n == wire.len(),
            i <= n,
            written == wire.deep_view(),
            ways.len() == i,
            forall|k: int| 0 <= k < i ==> distinct_keys((#[trigger] written[k]).1),
            forall|k: int| 0 <= k < i ==> (#[trigger] ways@[k])@ == way_of_wire(written[k]),
        decreases n - i,
    {
        assert(written[i as int] == wire@[i as int].deep_view());
        match way_from_wire(&wire[i]) {
            Some(way) => {
                ways.push(way);
            },
            None => {
                return None;
            },
        }
        i = i + 1;
    }
    assert(way_views(ways@) =~= ways_of_wire(written));
    Some(ways)
}

/// The nodes that were written as `wire`, where no tag mapping holds a key
/// twice.
fn nodes_from_wire(wire: &Vec<(i64, WireNode)>) -> (r: Option<HashMap<i64, Node>>)
    ensures
        r is Some <==> forall|j: int|
            0 <= j < wire.deep_view().len() ==> distinct_keys(
                (#[trigger] wire.deep_view()[j]).1.1,
            ),
        r matches Some(nodes) ==> node_views(nodes@) == nodes_of_wire(wire.deep_view()),
{
    broadcast use vstd::std_specs::hash::group_hash_axioms;

    let ghost written = wire.deep_view();
    let n = wire.len();
    let mut nodes: HashMap<i64, Node> = HashMap::new();
    let mut j: usize = 0;
    assert(node_views(nodes@) =~= nodes_of_wire(written.subrange(0, 0)));
    while j < n
        invariant
            n == wire.len(),
            j <= n,
            written == wire.deep_view(),
            forall|k: int| 0 <= k < j ==> distinct_keys((#[trigger] written[k]).1.1),
            node_views(nodes@) == nodes_of_wire(written.subrange(0, j as int)),
        decreases n - j,
    {
        let entry = &wire[j];
        assert(written[j as int] == entry.deep_view());
        match node_from_wire(&entry.1) {
            Some(node) => {
                let ghost before = nodes@;
                nodes.insert(entry.0, node);
                proof {
                    let next = written.subrange(0, j + 1);
                    assert(next.drop_last() == written.subrange(0, j as int));
                    assert(next.last() == written[j as int]);
                    assert(node_views(nodes@) =~= node_views(before).insert(entry.0, node@));
                }
            },
            None => {
                return None;
            },
        }
        j = j + 1;
    }
    assert(written.subrange(0, n as int) == written);
    Some(nodes)
}

/// The region that was written as `wire`, where what was written can be one.
pub fn region_from_wire(wire: &WireRegion) -> (r: Option<Region>)
    ensures
        r is Some <==> wire_valid(wire.deep_view()),
        r matches Some(region) ==> region@ == region_of_wire(wire.deep_view()),
{
    let ghost written = wire.deep_view();
    assert(written.1 == wire.1.deep_view());
    assert(written.2 == wire.2.deep_view());
    let ways = match ways_from_wire(&wire.1) {
        Some(ways) => ways,
        None => {
            return None;
        },
    };
    let nodes = match nodes_from_wire(&wire.2) {
        Some(nodes) => nodes,
        None => {
            return None;
        },
    };
    Some(Region { name: wire.0.clone(), ways, nodes })
}

/// The region that the bytes of a cache entry hold, where they hold one:
/// bincode reads them, and no tag mapping holds a key twice.
pub open spec fn decoded(bytes: Seq<u8>) -> Option<RegionView> {
    match bincode_decoding(bytes) {
        Some(wire) => if wire_valid(wire) {
            Some(region_of_wire(wire))
        } else {
            None
        },
        None => None,
    }
}

/// The bytes of a cache entry for `region`: what bincode writes for a writing
/// of the region, with the nodes in the order in which the map gives them.
/// bincode reads that writing back from them.
pub fn encode_region(region: &Region) -> (bytes: Vec<u8>)
    ensures
        exists|wire: WireRegionView| #[trigger]
            writes_region(wire, region@) && bytes@ == bincode_encoding(wire) && bincode_decoding(
                bytes@,
            ) == Some(wire),
{
    let wire = region_to_wire(region);
    match bincode_serialize(&wire) {
        Ok(bytes) => {
            assert(writes_region(wire.deep_view(), region@));
            bytes
        },
        Err(_) => vstd::pervasive::unreached(),
    }
}

/// The region that the bytes of a cache entry hold, where they hold one.
pub fn decode_region(bytes: &[u8]) -> (r: Option<Region>)
    ensures
        r is Some <==> decoded(bytes@) is Some,
        r matches Some(region) ==> Some(region@) == decoded(bytes@) && region@.tags_wf(),
{
    match bincode_deserialize(bytes) {
        Ok(wire) => {
            let r = region_from_wire(&wire);
            proof {
                if r is Some {
                    lemma_valid_wire_tags(wire.deep_view());
                }
            }
            r
        },
        Err(_) => None,
    }
}

/// A region that is read from valid bytes holds no key twice in a tag mapping.
pub proof fn lemma_valid_wire_tags(wire: WireRegionView)
    requires
        wire_valid(wire),
    ensures
        region_of_wire(wire).tags_wf(),
{
    let region = region_of_wire(wire);
    lemma_read_nodes_are_written(wire.2);
    assert forall|id: i64| #[trigger] region.nodes.contains_key(id) implies distinct_keys(
        region.nodes[id].tags,
    ) by {
        let j = choose|j: int|
            0 <= j < wire.2.len() && region.nodes[id] == node_of_wire((#[trigger] wire.2[j]).1);
        assert(distinct_keys(wire.2[j].1.1));
    }
    assert forall|w: int| 0 <= w < region.ways.len() implies distinct_keys(
        (#[trigger] region.ways[w]).tags,
    ) by {
        assert(distinct_keys(wire.1[w].1));
    }
}

/// Every node that is read back was written.
pub proof fn lemma_read_nodes_are_written(wire: Seq<(i64, WireNodeView)>)
    ensures
        forall|id: i64| #[trigger]
            nodes_of_wire(wire).contains_key(id) ==> exists|j: int|
                0 <= j < wire.len() && nodes_of_wire(wire)[id] == node_of_wire(
                    (#[trigger] wire[j]).1,
                ),
    decreases wire.len(),
{
    if wire.len() > 0 {
        let front = wire.drop_last();
        lemma_read_nodes_are_written(front);
        assert forall|id: i64| #[trigger] nodes_of_wire(wire).contains_key(id) implies exists|
            j: int,
        |
            0 <= j < wire.len() && nodes_of_wire(wire)[id] == node_of_wire(
                (#[trigger] wire[j]).1,
            ) by {
            if id == wire.last().0 {
                assert(nodes_of_wire(wire)[id] == node_of_wire(wire[wire.len() - 1].1));
            } else {
                assert(nodes_of_wire(front).contains_key(id));
                let j = choose|j: int|
                    0 <= j < front.len() && nodes_of_wire(front)[id] == node_of_wire(
                        (#[trigger] front[j]).1,
                    );
                assert(wire[j] == front[j]);
            }
        }
    }
}

} // verus!
