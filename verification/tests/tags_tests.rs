use rail_extract::predicate::TagPredicate;
use rail_extract::tags::Tags;

fn tags(pairs: &[(&str, &str)]) -> Tags {
    let mut t = Tags::new();
    for (k, v) in pairs {
        t.insert(k.to_string(), v.to_string());
    }
    t
}

#[test]
fn new_tags_are_empty() {
    let t = Tags::new();
    assert!(t.is_empty());
    assert_eq!(t.len(), 0);
    assert_eq!(t.get(&"railway".to_string()), None);
}

#[test]
fn insert_adds_a_new_key_at_the_end() {
    let t = tags(&[("railway", "rail"), ("name", "Main Line")]);
    assert_eq!(t.len(), 2);
    assert_eq!(t.entry(0).key, "railway");
    assert_eq!(t.entry(0).value, "rail");
    assert_eq!(t.entry(1).key, "name");
    assert_eq!(t.entry(1).value, "Main Line");
}

#[test]
fn insert_replaces_the_value_of_a_key_in_place() {
    let t = tags(&[("railway", "rail"), ("name", "Old"), ("railway", "tram")]);
    assert_eq!(t.len(), 2);
    assert_eq!(t.entry(0).key, "railway");
    assert_eq!(t.entry(0).value, "tram");
    assert_eq!(t.get(&"name".to_string()), Some(&"Old".to_string()));
}

#[test]
fn contains_asks_for_key_and_value() {
    let t = tags(&[("railway", "rail")]);
    assert!(t.contains(&"railway".to_string(), &"rail".to_string()));
    assert!(!t.contains(&"railway".to_string(), &"tram".to_string()));
    assert!(!t.contains(&"highway".to_string(), &"rail".to_string()));
    assert!(t.contains_key(&"railway".to_string()));
    assert!(!t.contains_key(&"rail".to_string()));
}

#[test]
fn clone_keeps_the_tags() {
    let t = tags(&[("a", "1"), ("b", "2")]);
    let c = t.clone();
    assert_eq!(c.len(), 2);
    assert_eq!(c.entry(1).key, "b");
    assert_eq!(c.entry(1).value, "2");
}

#[test]
fn railway_rule_asks_for_railway_rail() {
    let rule = TagPredicate::railway();
    assert!(rule.matches(&tags(&[("name", "x"), ("railway", "rail")])));
    assert!(!rule.matches(&tags(&[("railway", "tram")])));
    assert!(!rule.matches(&tags(&[("highway", "rail")])));
    assert!(!rule.matches(&Tags::new()));
}

#[test]
fn rules_combine() {
    let rail = tags(&[("railway", "rail"), ("usage", "main")]);
    let tram = tags(&[("railway", "tram")]);
    let both = TagPredicate::key_is("railway", "rail").and(TagPredicate::has_key("usage"));
    assert!(both.matches(&rail));
    assert!(!both.matches(&tram));
    let either = TagPredicate::key_is("railway", "rail").or(TagPredicate::key_is("railway", "tram"));
    assert!(either.matches(&rail));
    assert!(either.matches(&tram));
    assert!(!either.matches(&Tags::new()));
    let not_rail = TagPredicate::key_is("railway", "rail").negate();
    assert!(!not_rail.matches(&rail));
    assert!(not_rail.matches(&tram));
}
