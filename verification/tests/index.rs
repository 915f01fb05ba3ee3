use std::sync::Arc;

use storage::index::{IndexValue, IndexWorker, Indexable, ValueView};

/// A user record with a name and an age.
struct User {
    name: String,
    age: i64,
}

impl Indexable for User {
    // The verifier's view of `index_value`; nothing calls it at run time.
    fn index_spec(&self, _field: vstd::seq::Seq<char>) -> Option<ValueView> {
        unreachable!()
    }

    fn index_value(&self, field: &str) -> Option<IndexValue> {
        match field {
            "name" => Some(IndexValue::from(self.name.clone())),
            "age" => Some(IndexValue::from(self.age)),
            _ => None,
        }
    }
}

fn user(name: &str, age: i64) -> User {
    User { name: name.to_string(), age }
}

fn key(k: &str) -> String {
    k.to_string()
}

fn sorted(mut keys: Vec<String>) -> Vec<String> {
    keys.sort();
    keys
}

fn name(n: &str) -> IndexValue {
    IndexValue::from(n.to_string())
}

#[test]
fn nothing_is_indexed_until_registered() {
    let mut worker = IndexWorker::new();
    assert!(!worker.has_index("name"));
    worker.on_change(&key("k1"), None, Some(&user("ann", 30)));
    assert!(worker.lookup("name", &name("ann")).is_empty());
    assert!(worker.create_index("name".to_string()));
    assert!(!worker.create_index("name".to_string()));
    assert!(worker.has_index("name"));
    assert!(worker.lookup("name", &name("ann")).is_empty());
    assert!(worker.drop_index("name"));
    assert!(!worker.drop_index("name"));
    assert!(!worker.has_index("name"));
}

#[test]
fn insert_update_remove_keep_the_index_in_sync() {
    let mut worker = IndexWorker::default();
    worker.create_index("name".to_string());
    worker.create_index("age".to_string());
    let ann = user("ann", 30);
    let bob = user("bob", 30);
    worker.on_change(&key("k1"), None, Some(&ann));
    worker.on_change(&key("k2"), None, Some(&bob));
    assert_eq!(worker.lookup("name", &name("ann")), vec![key("k1")]);
    assert_eq!(sorted(worker.lookup("age", &IndexValue::from(30i64))), vec![key("k1"), key("k2")]);

    let ann_older = user("ann", 31);
    worker.on_change(&key("k1"), Some(&ann), Some(&ann_older));
    assert_eq!(worker.lookup("name", &name("ann")), vec![key("k1")]);
    assert_eq!(worker.lookup("age", &IndexValue::from(30i64)), vec![key("k2")]);
    assert_eq!(worker.lookup("age", &IndexValue::from(31i64)), vec![key("k1")]);

    worker.on_change(&key("k2"), Some(&bob), None);
    assert!(worker.lookup("name", &name("bob")).is_empty());
    assert!(worker.lookup("age", &IndexValue::from(30i64)).is_empty());
    assert!(worker.lookup("colour", &name("red")).is_empty());
}

#[test]
fn backfill_rebuilds_from_existing_entries() {
    let mut worker = IndexWorker::new();
    let entries = vec![
        (key("a"), Arc::new(user("ann", 1))),
        (key("b"), Arc::new(user("bob", 2))),
        (key("c"), Arc::new(user("ann", 3))),
    ];
    worker.backfill("name", entries.clone());
    assert!(worker.lookup("name", &name("ann")).is_empty());
    worker.create_index("name".to_string());
    worker.on_change(&key("stale"), None, Some(&user("ann", 9)));
    worker.backfill("name", entries);
    assert_eq!(sorted(worker.lookup("name", &name("ann"))), vec![key("a"), key("c")]);
    assert_eq!(worker.lookup("name", &name("bob")), vec![key("b")]);
}

#[test]
fn backfill_values_skips_keys_without_a_value() {
    let mut worker = IndexWorker::new();
    worker.create_index("flag".to_string());
    worker.backfill_values("flag", vec![
        (key("x"), Some(IndexValue::from(true))),
        (key("y"), None),
        (key("z"), Some(IndexValue::from(true))),
    ]);
    assert_eq!(sorted(worker.lookup("flag", &IndexValue::from(true))), vec![key("x"), key("z")]);
    assert!(worker.lookup("flag", &IndexValue::from(false)).is_empty());
}

#[test]
fn change_key_moves_between_buckets() {
    let mut worker = IndexWorker::new();
    worker.create_index("n".to_string());
    worker.change_key("n", &key("k"), None, Some(IndexValue::from(1i32)));
    assert_eq!(worker.lookup("n", &IndexValue::Int(1)), vec![key("k")]);
    worker.change_key("n", &key("k"), Some(IndexValue::from(1i32)), Some(IndexValue::from(2i32)));
    assert!(worker.lookup("n", &IndexValue::Int(1)).is_empty());
    assert_eq!(worker.lookup("n", &IndexValue::Int(2)), vec![key("k")]);
    worker.change_key("other", &key("k"), None, Some(IndexValue::Int(5)));
    assert!(!worker.has_index("other"));
}

#[test]
fn byte_values_have_no_fields() {
    let mut worker = IndexWorker::new();
    worker.create_index("any".to_string());
    let v = b"payload".to_vec();
    worker.on_change(&key("k"), None, Some(&v));
    assert!(worker.lookup("any", &name("payload")).is_empty());
}
