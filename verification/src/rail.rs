//! A railway track with its geometry resolved.

use crate::maxspeed::{maxspeed_of, try_parse_maxspeed, MaxSpeed};
use crate::model::{node_views, Node, NodeView, Way};
use crate::tags::{tag_value, TagSeq};
use std::collections::HashMap;
use vstd::prelude::*;

verus! {

/// A position as longitude and latitude, in units of 10⁻⁷ degrees.
pub type Position = (i32, i32);

/// One track: a way with its name, its speed limit and the positions of its
/// nodes. A node that the region does not hold has no position.
#[derive(Debug)]
pub struct Rail {
    pub id: i64,
    pub name: Option<String>,
    pub maxspeed: MaxSpeed,
    pub geometry: Vec<Option<Position>>,
}

/// The speed limit that the tags give: that of the tag `maxspeed`, and no
/// limit where the tag is absent; nothing where the tag's text has no
/// meaning.
pub open spec fn maxspeed_of_tags(tags: TagSeq) -> Option<MaxSpeed> {
    match tag_value(tags, "maxspeed"@) {
        Some(text) => maxspeed_of(text),
        None => Some(MaxSpeed::NoLimit),
    }
}

/// The position of the node `id`, where `nodes` holds it.
pub open spec fn position_of(nodes: Map<i64, NodeView>, id: i64) -> Option<Position> {
    if nodes.contains_key(id) {
        Some((nodes[id].decimicro_lon, nodes[id].decimicro_lat))
    } else {
        None
    }
}

/// The positions of the nodes `ids`, in their order.
pub open spec fn geometry_of(nodes: Map<i64, NodeView>, ids: Seq<i64>) -> Seq<Option<Position>> {
    ids.map_values(|id: i64| position_of(nodes, id))
}

impl Rail {
    /// The track that `way` describes, with the positions that `nodes` gives;
    /// nothing where the speed limit of the way has no meaning.
    pub fn from_way(way: &Way, nodes: &HashMap<i64, Node>) -> (r: Option<Rail>)
        ensures
            r is Some <==> maxspeed_of_tags(way@.tags) is Some,
            r matches Some(rail) ==> {
                &&& rail.id == way.id
                &&& match tag_value(way@.tags, "name"@) {
                    Some(name) => rail.name matches Some(n) && n@ == name,
                    None => rail.name is None,
                }
                &&& Some(rail.maxspeed) == maxspeed_of_tags(way@.tags)
                &&& rail.geometry@ == geometry_of(node_views(nodes@), way@.nodes)
            },
    {
        broadcast use vstd::std_specs::hash::group_hash_axioms;

        let maxspeed_key = String::from_str("maxspeed");
        let maxspeed = match way.tags.get(&maxspeed_key) {
            Some(text) => match try_parse_maxspeed(text.as_str()) {
                Some(speed) => speed,
                None => {
                    return None;
                },
            },
            None => MaxSpeed::NoLimit,
        };
        let name_key = String::from_str("name");
        let name = match way.tags.get(&name_key) {
            Some(text) => Some(text.clone()),
            None => None,
        };
        let mut geometry: Vec<Option<Position>> = Vec::new();
        let mut k: usize = 0;
        while k < way.nodes.len()
            invariant
                k <= way.nodes.len(),
                geometry@ == geometry_of(node_views(nodes@), way@.nodes.subrange(0, k as int)),
            decreases way.nodes.len() - k,
        {
            let id = way.nodes[k];
            let position = match nodes.get(&id) {
                Some(node) => Some((node.decimicro_lon, node.decimicro_lat)),
                None => None,
            };
            geometry.push(position);
            assert(geometry@ =~= geometry_of(
                node_views(nodes@),
                way@.nodes.subrange(0, k + 1),
            ));
            k = k + 1;
        }
        assert(way@.nodes.subrange(0, way.nodes.len() as int) == way@.nodes);
        Some(Rail { id: way.id, name, maxspeed, geometry })
    }
}

} // verus!
