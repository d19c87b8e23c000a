use rail_extract::cache::{load_or_build, plan, store, CacheError, CachePlan, RegionCache};
use rail_extract::model::{Node, Region, Way};
use rail_extract::tags::Tags;
use std::collections::HashMap;

fn tags(pairs: &[(&str, &str)]) -> Tags {
    let mut t = Tags::new();
    for (k, v) in pairs {
        t.insert(k.to_string(), v.to_string());
    }
    t
}

fn sample() -> Region {
    let mut nodes = HashMap::new();
    let places = [(1i64, 525_000_000i32, 134_000_000i32), (2, -1, i32::MIN), (4, 0, i32::MAX)];
    for (id, lat, lon) in places {
        nodes.insert(
            id,
            Node { id, tags: tags(&[("ref", "n")]), decimicro_lat: lat, decimicro_lon: lon },
        );
    }
    Region {
        name: "berlin".to_string(),
        ways: vec![
            Way {
                id: 10,
                tags: tags(&[("railway", "rail"), ("name", "Stadtbahn"), ("maxspeed", "60")]),
                nodes: vec![1, 2, 99],
            },
            Way { id: -12, tags: tags(&[("railway", "rail")]), nodes: vec![2, 4] },
            Way { id: i64::MAX, tags: Tags::new(), nodes: vec![] },
        ],
        nodes,
    }
}

fn same_tags(a: &Tags, b: &Tags) {
    assert_eq!(a.len(), b.len());
    for i in 0..a.len() {
        assert_eq!(a.entry(i).key, b.entry(i).key);
        assert_eq!(a.entry(i).value, b.entry(i).value);
    }
}

fn same_region(a: &Region, b: &Region) {
    assert_eq!(a.name, b.name);
    assert_eq!(a.ways.len(), b.ways.len());
    for (x, y) in a.ways.iter().zip(b.ways.iter()) {
        assert_eq!(x.id, y.id);
        assert_eq!(x.nodes, y.nodes);
        same_tags(&x.tags, &y.tags);
    }
    assert_eq!(a.nodes.len(), b.nodes.len());
    for (id, x) in &a.nodes {
        let y = b.nodes.get(id).unwrap();
        assert_eq!(x.id, y.id);
        assert_eq!(x.decimicro_lat, y.decimicro_lat);
        assert_eq!(x.decimicro_lon, y.decimicro_lon);
        same_tags(&x.tags, &y.tags);
    }
}

#[test]
fn what_is_stored_is_restored() {
    let region = sample();
    let bytes = store(&region);
    let restored = RegionCache::for_region("berlin").restore(&bytes).unwrap();
    same_region(&region, &restored);
}

#[test]
fn an_empty_region_is_restored() {
    let region = Region { name: String::new(), ways: Vec::new(), nodes: HashMap::new() };
    let bytes = store(&region);
    let restored = RegionCache::for_region("").restore(&bytes).unwrap();
    same_region(&region, &restored);
}

#[test]
fn the_bytes_of_a_small_region_are_known() {
    let region = Region {
        name: "a".to_string(),
        ways: vec![Way { id: 2, tags: tags(&[("k", "v")]), nodes: vec![3] }],
        nodes: HashMap::new(),
    };
    let mut expected: Vec<u8> = Vec::new();
    expected.extend_from_slice(&1u64.to_le_bytes());
    expected.push(b'a');
    expected.extend_from_slice(&1u64.to_le_bytes());
    expected.extend_from_slice(&2i64.to_le_bytes());
    expected.extend_from_slice(&1u64.to_le_bytes());
    expected.extend_from_slice(&1u64.to_le_bytes());
    expected.push(b'k');
    expected.extend_from_slice(&1u64.to_le_bytes());
    expected.push(b'v');
    expected.extend_from_slice(&1u64.to_le_bytes());
    expected.extend_from_slice(&3i64.to_le_bytes());
    expected.extend_from_slice(&0u64.to_le_bytes());
    assert_eq!(store(&region), expected);
}

#[test]
fn the_bytes_of_a_node_are_known() {
    let mut nodes = HashMap::new();
    nodes.insert(7, Node { id: 7, tags: Tags::new(), decimicro_lat: -2, decimicro_lon: 5 });
    let region = Region { name: String::new(), ways: Vec::new(), nodes };
    let mut expected: Vec<u8> = Vec::new();
    expected.extend_from_slice(&0u64.to_le_bytes());
    expected.extend_from_slice(&0u64.to_le_bytes());
    expected.extend_from_slice(&1u64.to_le_bytes());
    expected.extend_from_slice(&7i64.to_le_bytes());
    expected.extend_from_slice(&7i64.to_le_bytes());
    expected.extend_from_slice(&0u64.to_le_bytes());
    expected.extend_from_slice(&(-2i32).to_le_bytes());
    expected.extend_from_slice(&5i32.to_le_bytes());
    assert_eq!(store(&region), expected);
}

#[test]
fn truncated_bytes_are_corrupt() {
    let bytes = store(&sample());
    for cut in [0, 1, 8, 9, bytes.len() / 2, bytes.len() - 1] {
        let r = RegionCache::for_region("berlin").restore(&bytes[..cut]);
        assert_eq!(r.err(), Some(CacheError::Corrupt));
    }
}

#[test]
fn bytes_of_another_kind_are_corrupt() {
    let r = RegionCache::for_region("berlin").restore(b"this is no cache entry at all");
    assert_eq!(r.err(), Some(CacheError::Corrupt));
    let r = RegionCache::for_region("berlin").restore(&[0xff; 64]);
    assert_eq!(r.err(), Some(CacheError::Corrupt));
}

#[test]
fn a_name_that_is_not_text_is_corrupt() {
    let mut bytes: Vec<u8> = Vec::new();
    bytes.extend_from_slice(&2u64.to_le_bytes());
    bytes.extend_from_slice(&[0xc3, 0x28]);
    bytes.extend_from_slice(&0u64.to_le_bytes());
    bytes.extend_from_slice(&0u64.to_le_bytes());
    let r = RegionCache::for_region("x").restore(&bytes);
    assert_eq!(r.err(), Some(CacheError::Corrupt));
}

#[test]
fn a_tag_key_that_is_written_twice_is_corrupt() {
    let mut bytes: Vec<u8> = Vec::new();
    bytes.extend_from_slice(&0u64.to_le_bytes());
    bytes.extend_from_slice(&1u64.to_le_bytes());
    bytes.extend_from_slice(&2i64.to_le_bytes());
    bytes.extend_from_slice(&2u64.to_le_bytes());
    for value in [b'v', b'w'] {
        bytes.extend_from_slice(&1u64.to_le_bytes());
        bytes.push(b'k');
        bytes.extend_from_slice(&1u64.to_le_bytes());
        bytes.push(value);
    }
    bytes.extend_from_slice(&0u64.to_le_bytes());
    bytes.extend_from_slice(&0u64.to_le_bytes());
    let r = RegionCache::for_region("x").restore(&bytes);
    assert_eq!(r.err(), Some(CacheError::Corrupt));
}

#[test]
fn an_entry_is_found_by_the_name_of_its_region() {
    assert_eq!(RegionCache::for_region("berlin").path(), "./cache/berlin.bin");
    assert_eq!(RegionCache::for_region("").path(), "./cache/.bin");
}

#[test]
fn plan_rebuilds_what_is_absent_or_forced() {
    assert_eq!(plan(false, false), CachePlan::Rebuild);
    assert_eq!(plan(false, true), CachePlan::Rebuild);
    assert_eq!(plan(true, true), CachePlan::Rebuild);
    assert_eq!(plan(true, false), CachePlan::Reuse);
}

#[test]
fn a_second_load_does_not_rebuild() {
    let mut calls = 0;
    let mut directory: HashMap<String, Vec<u8>> = HashMap::new();
    for _ in 0..2 {
        let exists = directory.contains_key("./cache/berlin.bin");
        let update = load_or_build("berlin", exists, false, || {
            calls += 1;
            sample()
        });
        if let Some(bytes) = update.write {
            directory.insert(update.handle.path().to_string(), bytes);
        }
    }
    assert_eq!(calls, 1);
    assert_eq!(directory.len(), 1);
    let bytes = directory.get("./cache/berlin.bin").unwrap();
    let restored = RegionCache::for_region("berlin").restore(bytes).unwrap();
    same_region(&sample(), &restored);
}

#[test]
fn an_entry_that_exists_is_reused_as_it_is() {
    let mut calls = 0;
    let update = load_or_build("berlin", true, false, || {
        calls += 1;
        sample()
    });
    assert!(update.write.is_none());
    assert_eq!(update.handle.path(), "./cache/berlin.bin");
    assert_eq!(calls, 0);
}

#[test]
fn a_forced_load_rebuilds_and_overwrites() {
    let mut directory: HashMap<String, Vec<u8>> = HashMap::new();
    directory.insert("./cache/berlin.bin".to_string(), b"old".to_vec());
    let mut calls = 0;
    let update = load_or_build("berlin", true, true, || {
        calls += 1;
        sample()
    });
    assert_eq!(calls, 1);
    let bytes = update.write.unwrap();
    assert_eq!(bytes.len(), store(&sample()).len());
    assert_ne!(bytes, b"old".to_vec());
    directory.insert(update.handle.path().to_string(), bytes);
    let restored = RegionCache::for_region("berlin")
        .restore(directory.get("./cache/berlin.bin").unwrap())
        .unwrap();
    same_region(&sample(), &restored);
}

#[test]
fn a_load_without_an_entry_rebuilds() {
    let mut calls = 0;
    let update = load_or_build("berlin", false, false, || {
        calls += 1;
        sample()
    });
    assert_eq!(calls, 1);
    assert!(update.write.is_some());
}

#[test]
fn a_forced_load_leaves_no_remnant_of_the_old_entry() {
    let old = sample();
    let new = Region {
        name: "berlin".to_string(),
        ways: vec![Way { id: 1, tags: tags(&[("railway", "rail")]), nodes: vec![5] }],
        nodes: HashMap::new(),
    };
    let mut directory: HashMap<String, Vec<u8>> = HashMap::new();
    directory.insert("./cache/berlin.bin".to_string(), store(&old));
    let expected = store(&new);
    assert!(expected.len() < directory["./cache/berlin.bin"].len());

    let exists = directory.contains_key("./cache/berlin.bin");
    let update = load_or_build("berlin", exists, true, || Region {
        name: "berlin".to_string(),
        ways: vec![Way { id: 1, tags: tags(&[("railway", "rail")]), nodes: vec![5] }],
        nodes: HashMap::new(),
    });
    let path = update.handle.path().to_string();
    directory.insert(path, update.write.unwrap());

    assert_eq!(directory.len(), 1);
    assert_eq!(directory["./cache/berlin.bin"], expected);
    let restored = update.handle.restore(&directory["./cache/berlin.bin"]).unwrap();
    same_region(&new, &restored);
    assert_eq!(restored.name, "berlin");
}

#[test]
fn a_reused_entry_does_not_call_rebuild() {
    let update = load_or_build("berlin", true, false, || -> Region {
        panic!("the entry exists and nothing forces a rebuild")
    });
    assert!(update.write.is_none());
    assert_eq!(update.handle.path(), "./cache/berlin.bin");
}

#[test]
fn every_region_is_stored() {
    let mut nodes = HashMap::new();
    nodes.insert(3, Node { id: 9, tags: Tags::new(), decimicro_lat: 0, decimicro_lon: 0 });
    let odd = Region { name: "\u{0}é漢".to_string(), ways: Vec::new(), nodes };
    let restored = RegionCache::for_region("odd").restore(&store(&odd)).unwrap();
    same_region(&odd, &restored);
    assert_eq!(restored.nodes.get(&3).unwrap().id, 9);
}
