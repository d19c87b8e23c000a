use rail_extract::extract::{extract, required_node_ids};
use rail_extract::extractor::{Action, Event, Extractor, Phase};
use rail_extract::model::{Node, Primitive, Region, Way};
use rail_extract::predicate::TagPredicate;
use rail_extract::tags::Tags;

fn tags(pairs: &[(&str, &str)]) -> Tags {
    let mut t = Tags::new();
    for (k, v) in pairs {
        t.insert(k.to_string(), v.to_string());
    }
    t
}

fn node(id: i64, lat: i32, lon: i32) -> Primitive {
    Primitive::Node(Node { id, tags: Tags::new(), decimicro_lat: lat, decimicro_lon: lon })
}

fn rail(id: i64, nodes: &[i64]) -> Primitive {
    Primitive::Way(Way { id, tags: tags(&[("railway", "rail")]), nodes: nodes.to_vec() })
}

fn road(id: i64, nodes: &[i64]) -> Primitive {
    Primitive::Way(Way { id, tags: tags(&[("highway", "primary")]), nodes: nodes.to_vec() })
}

fn sample() -> Vec<Primitive> {
    vec![
        node(1, 10, 100),
        node(2, 20, 200),
        node(3, 30, 300),
        node(4, 40, 400),
        rail(10, &[1, 2, 99]),
        road(11, &[3, 4]),
        Primitive::Relation(7),
        rail(12, &[2, 4]),
        node(5, 50, 500),
    ]
}

fn way_ids(region: &Region) -> Vec<i64> {
    region.ways.iter().map(|w| w.id).collect()
}

fn node_ids(region: &Region) -> Vec<i64> {
    let mut ids: Vec<i64> = region.nodes.keys().copied().collect();
    ids.sort();
    ids
}

#[test]
fn extract_keeps_the_accepted_ways_in_stream_order() {
    let region = extract("test".to_string(), &sample(), &TagPredicate::railway());
    assert_eq!(region.name, "test");
    assert_eq!(way_ids(&region), vec![10, 12]);
    assert_eq!(region.ways[0].nodes, vec![1, 2, 99]);
    assert_eq!(region.ways[1].nodes, vec![2, 4]);
    assert_eq!(region.ways[0].tags.get(&"railway".to_string()), Some(&"rail".to_string()));
}

#[test]
fn extract_keeps_the_nodes_that_kept_ways_refer_to() {
    let region = extract("test".to_string(), &sample(), &TagPredicate::railway());
    assert_eq!(node_ids(&region), vec![1, 2, 4]);
    let n = region.node(4).unwrap();
    assert_eq!((n.id, n.decimicro_lat, n.decimicro_lon), (4, 40, 400));
}

#[test]
fn a_node_that_the_stream_lacks_is_left_out() {
    let region = extract("test".to_string(), &sample(), &TagPredicate::railway());
    assert!(region.ways[0].nodes.contains(&99));
    assert!(region.node(99).is_none());
    assert!(!region.nodes.contains_key(&99));
}

#[test]
fn nodes_of_rejected_ways_are_left_out() {
    let region = extract("test".to_string(), &sample(), &TagPredicate::railway());
    assert!(region.node(3).is_none());
    assert!(region.node(5).is_none());
}

#[test]
fn node_closure_holds_of_every_kept_way() {
    let stream = sample();
    let in_stream: Vec<i64> = stream
        .iter()
        .filter_map(|p| match p {
            Primitive::Node(n) => Some(n.id),
            _ => None,
        })
        .collect();
    let region = extract("test".to_string(), &stream, &TagPredicate::railway());
    for way in &region.ways {
        for id in &way.nodes {
            assert_eq!(region.nodes.contains_key(id), in_stream.contains(id));
        }
    }
    for (id, n) in &region.nodes {
        assert_eq!(*id, n.id);
        assert!(region.ways.iter().any(|w| w.nodes.contains(id)));
    }
}

#[test]
fn exactly_the_accepted_ways_are_kept() {
    let mut stream = Vec::new();
    for i in 0..7 {
        stream.push(rail(100 + i, &[i]));
        stream.push(road(200 + i, &[i]));
    }
    for i in 0..4 {
        stream.push(road(300 + i, &[i]));
    }
    let region = extract("n".to_string(), &stream, &TagPredicate::railway());
    assert_eq!(region.ways.len(), 7);
    assert_eq!(way_ids(&region), vec![100, 101, 102, 103, 104, 105, 106]);
    assert!(region.nodes.is_empty());
}

#[test]
fn an_empty_stream_gives_an_empty_region() {
    let region = extract("empty".to_string(), &Vec::new(), &TagPredicate::railway());
    assert_eq!(region.name, "empty");
    assert!(region.ways.is_empty());
    assert!(region.nodes.is_empty());
}

#[test]
fn nodes_may_come_after_the_ways_that_need_them() {
    let stream = vec![rail(1, &[8, 9]), node(9, 1, 2), node(8, 3, 4)];
    let region = extract("late".to_string(), &stream, &TagPredicate::railway());
    assert_eq!(node_ids(&region), vec![8, 9]);
}

#[test]
fn of_two_nodes_with_one_identifier_the_last_stays() {
    let stream = vec![node(1, 10, 10), rail(5, &[1]), node(1, 20, 20)];
    let region = extract("dup".to_string(), &stream, &TagPredicate::railway());
    assert_eq!(region.nodes.len(), 1);
    assert_eq!(region.node(1).unwrap().decimicro_lat, 20);
}

#[test]
fn required_node_ids_are_the_union_over_the_ways() {
    let ways = vec![
        Way { id: 1, tags: Tags::new(), nodes: vec![1, 2, 3] },
        Way { id: 2, tags: Tags::new(), nodes: vec![3, 4, 1] },
        Way { id: 3, tags: Tags::new(), nodes: vec![] },
    ];
    let mut ids: Vec<i64> = required_node_ids(&ways).into_iter().collect();
    ids.sort();
    assert_eq!(ids, vec![1, 2, 3, 4]);
    assert!(required_node_ids(&Vec::new()).is_empty());
}

fn feed(machine: &mut Extractor, stream: Vec<Primitive>) {
    for p in stream {
        assert_eq!(machine.step(Event::Item(p)), Action::Next);
    }
}

#[test]
fn the_machine_gives_what_extract_gives() {
    let mut machine = Extractor::new("test".to_string(), TagPredicate::railway());
    assert_eq!(machine.phase(), Phase::CollectingWays);
    feed(&mut machine, sample());
    assert_eq!(machine.step(Event::EndOfStream), Action::Rewind);
    assert_eq!(machine.phase(), Phase::ComputingRequiredNodes);
    assert_eq!(machine.step(Event::Rewound), Action::Next);
    assert_eq!(machine.phase(), Phase::CollectingNodes);
    feed(&mut machine, sample());
    assert_eq!(machine.step(Event::EndOfStream), Action::Finish);
    assert_eq!(machine.phase(), Phase::Done);
    let region = machine.into_region().unwrap();
    let direct = extract("test".to_string(), &sample(), &TagPredicate::railway());
    assert_eq!(region.name, direct.name);
    assert_eq!(way_ids(&region), way_ids(&direct));
    assert_eq!(node_ids(&region), node_ids(&direct));
    assert_eq!(node_ids(&region), vec![1, 2, 4]);
}

#[test]
fn no_primitive_is_taken_before_the_stream_is_rewound() {
    let mut machine = Extractor::new("test".to_string(), TagPredicate::railway());
    feed(&mut machine, sample());
    assert_eq!(machine.step(Event::EndOfStream), Action::Rewind);
    assert_eq!(machine.step(Event::Item(node(1, 10, 100))), Action::Refuse);
    assert_eq!(machine.step(Event::EndOfStream), Action::Refuse);
    assert_eq!(machine.phase(), Phase::ComputingRequiredNodes);
    assert_eq!(machine.step(Event::Rewound), Action::Next);
    assert_eq!(machine.step(Event::EndOfStream), Action::Finish);
    let region = machine.into_region().unwrap();
    assert!(region.nodes.is_empty());
    assert_eq!(way_ids(&region), vec![10, 12]);
}

#[test]
fn ways_of_the_second_pass_are_not_kept_again() {
    let mut machine = Extractor::new("test".to_string(), TagPredicate::railway());
    feed(&mut machine, vec![rail(1, &[7])]);
    machine.step(Event::EndOfStream);
    machine.step(Event::Rewound);
    feed(&mut machine, vec![rail(1, &[7]), rail(2, &[7]), node(7, 1, 1), node(8, 1, 1)]);
    machine.step(Event::EndOfStream);
    let region = machine.into_region().unwrap();
    assert_eq!(way_ids(&region), vec![1]);
    assert_eq!(node_ids(&region), vec![7]);
}

#[test]
fn an_unreadable_stream_ends_the_extraction() {
    let mut machine = Extractor::new("test".to_string(), TagPredicate::railway());
    feed(&mut machine, vec![rail(1, &[7])]);
    assert_eq!(machine.step(Event::Unreadable), Action::Abort);
    assert_eq!(machine.phase(), Phase::Failed);
    assert_eq!(machine.step(Event::EndOfStream), Action::Refuse);
    assert_eq!(machine.step(Event::Unreadable), Action::Refuse);
    assert!(machine.into_region().is_none());
}

#[test]
fn a_failed_rewind_ends_the_extraction() {
    let mut machine = Extractor::new("test".to_string(), TagPredicate::railway());
    machine.step(Event::EndOfStream);
    assert_eq!(machine.step(Event::Unreadable), Action::Abort);
    assert_eq!(machine.phase(), Phase::Failed);
}

#[test]
fn there_is_no_region_before_the_end() {
    let mut machine = Extractor::new("test".to_string(), TagPredicate::railway());
    machine.step(Event::EndOfStream);
    machine.step(Event::Rewound);
    assert!(machine.into_region().is_none());
}

#[test]
fn a_finished_machine_refuses_everything() {
    let mut machine = Extractor::new("test".to_string(), TagPredicate::railway());
    machine.step(Event::EndOfStream);
    machine.step(Event::Rewound);
    machine.step(Event::EndOfStream);
    assert_eq!(machine.step(Event::Item(node(1, 1, 1))), Action::Refuse);
    assert_eq!(machine.step(Event::Rewound), Action::Refuse);
    assert_eq!(machine.step(Event::Unreadable), Action::Refuse);
    assert_eq!(machine.phase(), Phase::Done);
}

#[test]
fn rewound_is_refused_during_a_pass() {
    let mut machine = Extractor::new("test".to_string(), TagPredicate::railway());
    assert_eq!(machine.step(Event::Rewound), Action::Refuse);
    assert_eq!(machine.phase(), Phase::CollectingWays);
}
