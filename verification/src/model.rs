//! The primitives of a map extract and the region that is cut out of them.

use crate::tags::{distinct_keys, TagSeq, Tags};
use std::collections::HashMap;
use vstd::prelude::*;

verus! {

/// What a [`Node`] holds.
pub struct NodeView {
    pub id: i64,
    pub tags: TagSeq,
    pub decimicro_lat: i32,
    pub decimicro_lon: i32,
}

/// What a [`Way`] holds.
pub struct WayView {
    pub id: i64,
    pub tags: TagSeq,
    pub nodes: Seq<i64>,
}

/// What a [`Primitive`] holds.
pub enum PrimitiveView {
    Node(NodeView),
    Way(WayView),
    Relation(i64),
}

/// What a [`Region`] holds.
pub struct RegionView {
    pub name: Seq<char>,
    pub ways: Seq<WayView>,
    pub nodes: Map<i64, NodeView>,
}

/// A point of the map. Its position is given in units of 10⁻⁷ degrees.
#[derive(Debug)]
pub struct Node {
    pub id: i64,
    pub tags: Tags,
    pub decimicro_lat: i32,
    pub decimicro_lon: i32,
}

impl View for Node {
    type V = NodeView;

    open spec fn view(&self) -> NodeView {
        NodeView {
            id: self.id,
            tags: self.tags@,
            decimicro_lat: self.decimicro_lat,
            decimicro_lon: self.decimicro_lon,
        }
    }
}

impl Clone for Node {
    fn clone(&self) -> (r: Node)
        ensures
            r@ == self@,
    {
        Node {
            id: self.id,
            tags: self.tags.clone(),
            decimicro_lat: self.decimicro_lat,
            decimicro_lon: self.decimicro_lon,
        }
    }
}

/// A path over the map: the nodes it runs through, by their identifiers and
/// in the order of travel.
#[derive(Debug)]
pub struct Way {
    pub id: i64,
    pub tags: Tags,
    pub nodes: Vec<i64>,
}

impl View for Way {
    type V = WayView;

    open spec fn view(&self) -> WayView {
        WayView { id: self.id, tags: self.tags@, nodes: self.nodes@ }
    }
}

impl Clone for Way {
    fn clone(&self) -> (r: Way)
        ensures
            r@ == self@,
    {
        Way { id: self.id, tags: self.tags.clone(), nodes: self.nodes.clone() }
    }
}

/// One record of a primitive stream. Of a relation only the identifier is
/// kept: nothing here reads more of it.
#[derive(Debug)]
pub enum Primitive {
    Node(Node),
    Way(Way),
    Relation(i64),
}

impl View for Primitive {
    type V = PrimitiveView;

    open spec fn view(&self) -> PrimitiveView {
        match self {
            Primitive::Node(n) => PrimitiveView::Node(n@),
            Primitive::Way(w) => PrimitiveView::Way(w@),
            Primitive::Relation(id) => PrimitiveView::Relation(*id),
        }
    }
}

/// What each way of `ways` holds.
pub open spec fn way_views(ways: Seq<Way>) -> Seq<WayView> {
    ways.map_values(|w: Way| w@)
}

/// What each node of `nodes` holds.
pub open spec fn node_views(nodes: Map<i64, Node>) -> Map<i64, NodeView> {
    nodes.map_values(|n: Node| n@)
}

/// What each primitive of `stream` holds.
pub open spec fn primitive_views(stream: Seq<Primitive>) -> Seq<PrimitiveView> {
    stream.map_values(|p: Primitive| p@)
}

/// The node identifiers that at least one way of `ways` refers to.
pub open spec fn referenced_ids(ways: Seq<WayView>) -> Set<i64> {
    Set::new(
        |id: i64|
            exists|w: int, k: int|
                0 <= w < ways.len() && 0 <= k < ways[w].nodes.len() && #[trigger] ways[w].nodes[k]
                    == id,
    )
}

/// The railway geometry of one region: the ways that were kept and the nodes
/// that they run through.
#[derive(Debug)]
pub struct Region {
    pub name: String,
    pub ways: Vec<Way>,
    pub nodes: HashMap<i64, Node>,
}

impl View for Region {
    type V = RegionView;

    open spec fn view(&self) -> RegionView {
        RegionView { name: self.name@, ways: way_views(self.ways@), nodes: node_views(self.nodes@) }
    }
}

impl RegionView {
    /// Whether no tag mapping of the region holds a key twice.
    pub open spec fn tags_wf(self) -> bool {
        &&& forall|id: i64| #[trigger]
            self.nodes.contains_key(id) ==> distinct_keys(self.nodes[id].tags)
        &&& forall|w: int|
            0 <= w < self.ways.len() ==> distinct_keys((#[trigger] self.ways[w]).tags)
    }

    /// Whether every node stands under its own identifier and is one that a
    /// way refers to.
    pub open spec fn closed(self) -> bool {
        forall|id: i64| #[trigger]
            self.nodes.contains_key(id) ==> self.nodes[id].id == id && referenced_ids(
                self.ways,
            ).contains(id)
    }

    /// Whether the region is one that an extraction can have made.
    pub open spec fn wf(self) -> bool {
        self.tags_wf() && self.closed()
    }
}

impl Region {
    /// Whether the region is one that an extraction can have made.
    pub open spec fn wf(&self) -> bool {
        self@.wf()
    }

    /// The node with the given identifier, where the region has it. A way may
    /// refer to a node that the region lacks: then no position is known for it.
    pub fn node(&self, id: i64) -> (r: Option<&Node>)
        ensures
            r matches Some(n) ==> self@.nodes.contains_key(id) && n@ == self@.nodes[id],
            r is None ==> !self@.nodes.contains_key(id),
    {
        broadcast use vstd::std_specs::hash::group_hash_axioms;

        self.nodes.get(&id)
    }
}

} // verus!
