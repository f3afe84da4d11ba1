use modelc::ident::{Identifier, InvalidIdentifier};
use modelc::vanilla::texture::{TextureMap, TextureRef};

fn lit(ns: &str, path: &str) -> TextureRef {
    TextureRef::Literal(Identifier::new(ns, path))
}

fn refer(name: &str) -> TextureRef {
    TextureRef::Reference(name.to_string())
}

fn map_of(entries: &[(&str, TextureRef)]) -> TextureMap {
    let mut map = TextureMap::new();
    for (name, slot) in entries.iter() {
        map.insert(name.to_string(), slot.clone());
    }
    map
}

#[test]
fn slot_text_with_hash_is_a_reference() {
    assert_eq!(TextureRef::parse("#side"), Ok(refer("side")));
    assert_eq!(TextureRef::parse("#"), Ok(refer("")));
    assert_eq!(TextureRef::parse("#Any Thing:at all"), Ok(refer("Any Thing:at all")));
    assert_eq!(TextureRef::parse("##x"), Ok(refer("#x")));
}

#[test]
fn slot_text_without_hash_is_an_identifier() {
    assert_eq!(TextureRef::parse("block/stone"), Ok(lit("minecraft", "block/stone")));
    assert_eq!(TextureRef::parse("custom:b"), Ok(lit("custom", "b")));
    assert_eq!(TextureRef::parse("Custom:b"), Err(InvalidIdentifier::Namespace));
    assert_eq!(TextureRef::parse("custom:B"), Err(InvalidIdentifier::Path));
    assert_eq!(TextureRef::parse("a#b"), Err(InvalidIdentifier::Path));
}

#[test]
fn literal_gives_the_identifier_of_a_literal_only() {
    assert_eq!(lit("a", "b").literal(), Some(Identifier::new("a", "b")));
    assert_eq!(refer("a").literal(), None);
}

#[test]
fn unwrap_gives_the_identifier_of_a_literal() {
    assert_eq!(lit("a", "b").unwrap(), Identifier::new("a", "b"));
}

#[test]
fn new_map_is_empty() {
    let map = TextureMap::new();
    assert_eq!(map.len(), 0);
    assert!(!map.contains("a"));
    assert_eq!(map.get("a"), None);
    assert!(map.entries().is_empty());
}

#[test]
fn insert_adds_and_replaces() {
    let mut map = TextureMap::new();
    map.insert("a".to_string(), lit("x", "one"));
    map.insert("b".to_string(), refer("a"));
    assert_eq!(map.len(), 2);
    assert_eq!(map.get("a"), Some(&lit("x", "one")));
    assert_eq!(map.get("b"), Some(&refer("a")));
    map.insert("a".to_string(), lit("x", "two"));
    assert_eq!(map.len(), 2);
    assert_eq!(map.get("a"), Some(&lit("x", "two")));
    assert_eq!(map.get("b"), Some(&refer("a")));
    assert!(map.contains("a"));
    assert!(!map.contains("c"));
}

#[test]
fn entries_hold_each_name_once() {
    let map = map_of(&[("a", lit("x", "1")), ("b", lit("x", "2")), ("a", lit("x", "3"))]);
    let mut names: Vec<String> = map.entries().iter().map(|e| e.name.clone()).collect();
    names.sort();
    assert_eq!(names, vec!["a".to_string(), "b".to_string()]);
    for e in map.entries().iter() {
        assert_eq!(map.get(&e.name), Some(&e.slot));
    }
}

#[test]
fn extend_lets_the_other_map_win() {
    let mut base = map_of(&[("a", lit("p", "x")), ("b", lit("p", "y"))]);
    let other = map_of(&[("b", lit("c", "z")), ("c", lit("c", "w"))]);
    base.extend(other);
    assert_eq!(base.len(), 3);
    assert_eq!(base.get("a"), Some(&lit("p", "x")));
    assert_eq!(base.get("b"), Some(&lit("c", "z")));
    assert_eq!(base.get("c"), Some(&lit("c", "w")));
}

#[test]
fn clone_keeps_every_entry() {
    let map = map_of(&[("a", lit("p", "x")), ("b", refer("a"))]);
    let copy = map.clone();
    assert_eq!(copy.len(), 2);
    assert_eq!(copy.get("a"), Some(&lit("p", "x")));
    assert_eq!(copy.get("b"), Some(&refer("a")));
}

#[test]
fn resolve_of_a_literal_is_the_literal() {
    let map = map_of(&[("a", lit("p", "x"))]);
    assert_eq!(lit("q", "y").resolve(&map), lit("q", "y"));
}

#[test]
fn resolve_follows_a_chain_to_its_literal() {
    let map = map_of(&[
        ("a", refer("b")),
        ("b", refer("c")),
        ("c", refer("d")),
        ("d", lit("minecraft", "stone")),
    ]);
    assert_eq!(refer("a").resolve(&map), lit("minecraft", "stone"));
    assert_eq!(refer("c").resolve(&map), lit("minecraft", "stone"));
    assert_eq!(refer("d").resolve(&map), lit("minecraft", "stone"));
}

#[test]
fn resolve_stops_at_a_name_the_map_lacks() {
    let map = map_of(&[("a", refer("b")), ("b", refer("missing"))]);
    assert_eq!(refer("a").resolve(&map), refer("missing"));
    assert_eq!(refer("nothing").resolve(&map), refer("nothing"));
    assert_eq!(refer("a").resolve(&TextureMap::new()), refer("a"));
}

#[test]
fn resolve_stops_on_a_cycle() {
    let two = map_of(&[("a", refer("b")), ("b", refer("a"))]);
    assert_eq!(refer("a").resolve(&two), refer("a"));
    assert_eq!(refer("b").resolve(&two), refer("b"));
    let own = map_of(&[("a", refer("a"))]);
    assert_eq!(refer("a").resolve(&own), refer("a"));
    let tail = map_of(&[("start", refer("x")), ("x", refer("y")), ("y", refer("z")), ("z", refer("x"))]);
    assert_eq!(refer("start").resolve(&tail), refer("x"));
    assert_eq!(refer("start").resolve(&tail).literal(), None);
}

#[test]
fn resolve_is_flat_per_step_not_per_merge() {
    let map = map_of(&[("a", refer("b")), ("b", lit("p", "first"))]);
    let mut later = map.clone();
    later.insert("b".to_string(), lit("p", "second"));
    assert_eq!(refer("a").resolve(&map), lit("p", "first"));
    assert_eq!(refer("a").resolve(&later), lit("p", "second"));
}
