use serde::ser::Error;
use serde::{Serialize, Serializer};
use surqx::Vars;

struct Unencodable;

impl Serialize for Unencodable {
    fn serialize<S: Serializer>(&self, _serializer: S) -> Result<S::Ok, S::Error> {
        Err(S::Error::custom("cannot encode this value"))
    }
}

struct AlsoUnencodable;

impl Serialize for AlsoUnencodable {
    fn serialize<S: Serializer>(&self, _serializer: S) -> Result<S::Ok, S::Error> {
        Err(S::Error::custom("second failure"))
    }
}

#[test]
fn failed_put_is_reported_at_serialize() {
    let r = Vars::new().put("a", 1).put("x", Unencodable).serialize();
    let msg = r.err().unwrap();
    assert!(msg.contains("cannot encode this value"));
}

#[test]
fn failures_are_joined_in_order() {
    let r = Vars::new().put("x", Unencodable).put("ok", 3).put("y", AlsoUnencodable).serialize();
    let msg = r.err().unwrap();
    let first = msg.find("cannot encode this value").unwrap();
    let second = msg.find("second failure").unwrap();
    assert!(first < second);
    assert!(msg[first..second].contains('\n'));
}

#[test]
fn successful_puts_serialize_to_their_keys() {
    let b = Vars::new().put("name", "John").put("age", 18).serialize().unwrap();
    let keys: Vec<&str> = b.iter().map(|(k, _)| k.as_str()).collect();
    assert_eq!(keys, vec!["age", "name"]);
    assert_eq!(b[0].1, surrealdb_core::sql::Value::from(18));
}

#[test]
fn put_on_a_bound_key_replaces_its_value() {
    let b = Vars::new().put("a", 1).put("b", 2).put("a", 3).serialize().unwrap();
    assert_eq!(b.len(), 2);
    assert_eq!(b[0].0, "a");
    assert_eq!(b[0].1, surrealdb_core::sql::Value::from(3));
}

#[test]
fn empty_binder_serializes_to_nothing() {
    let b = Vars::new().serialize().unwrap();
    assert!(b.is_empty());
}

#[test]
fn bindings_come_out_in_name_order() {
    let b = Vars::new().put("b", 2).put("a", 1).put("c", 3).put("ab", 4).serialize().unwrap();
    let keys: Vec<&str> = b.iter().map(|(k, _)| k.as_str()).collect();
    assert_eq!(keys, vec!["a", "ab", "b", "c"]);
}
