use myblog::doc::{Document, Value};
use myblog::filter::{Cond, Filter};
use myblog::oid::ObjectId;
use myblog::store::{Collection, StoreError};

fn oid(s: &str) -> ObjectId {
    ObjectId::with_string(s).unwrap()
}

fn id_filter(s: &str) -> Filter {
    Filter {
        fields: vec![("_id".to_string(), Cond::Eq(Value::Oid(oid(s))))],
        or_groups: Vec::new(),
    }
}

fn doc(title: &str, author: &str, content: &str) -> Document {
    let mut d = Document::new();
    d.push("title".to_string(), Value::Str(title.to_string()));
    d.push("author".to_string(), Value::Str(author.to_string()));
    d.push("content".to_string(), Value::Str(content.to_string()));
    d
}

const ID_A: &str = "aaaaaaaaaaaaaaaaaaaaaaaa";
const ID_B: &str = "bbbbbbbbbbbbbbbbbbbbbbbb";

#[test]
fn insert_assigns_the_fresh_identifier() {
    let mut col = Collection::new();
    let inserted = col.insert_one(doc("A", "B", "C"), oid(ID_A)).unwrap();
    assert_eq!(inserted.to_hex(), ID_A);
    assert_eq!(col.count(), 1);
    let found = col.find(&id_filter(ID_A));
    assert_eq!(found.len(), 1);
    assert_eq!(found[0].entries[0].0, "_id");
}

#[test]
fn insert_with_a_taken_identifier_is_a_duplicate_key() {
    let mut col = Collection::new();
    col.insert_one(doc("A", "B", "C"), oid(ID_A)).unwrap();
    let second = col.insert_one(doc("D", "E", "F"), oid(ID_A));
    assert!(matches!(second, Err(StoreError::DuplicateKey)));
    assert_eq!(col.count(), 1);
}

#[test]
fn delete_on_a_nonexistent_id_returns_zero_not_an_error() {
    let mut col = Collection::new();
    col.insert_one(doc("A", "B", "C"), oid(ID_A)).unwrap();
    let removed = col.delete_one(&id_filter(ID_B));
    assert_eq!(removed, 0);
    assert_eq!(col.count(), 1);
}

#[test]
fn delete_removes_the_matched_document() {
    let mut col = Collection::new();
    col.insert_one(doc("A", "B", "C"), oid(ID_A)).unwrap();
    assert_eq!(col.delete_one(&id_filter(ID_A)), 1);
    assert_eq!(col.count(), 0);
}

#[test]
fn update_on_a_nonexistent_id_returns_zero() {
    let mut col = Collection::new();
    let mut set = Document::new();
    set.push("title".to_string(), Value::Str("new".to_string()));
    let n = col.update_one(&id_filter(ID_A), &set).unwrap();
    assert_eq!(n, 0);
}

#[test]
fn partial_update_modifies_only_the_given_field() {
    let mut col = Collection::new();
    col.insert_one(doc("old title", "the author", "the content"), oid(ID_A)).unwrap();
    let mut set = Document::new();
    set.push("title".to_string(), Value::Str("new title".to_string()));
    let n = col.update_one(&id_filter(ID_A), &set).unwrap();
    assert_eq!(n, 1);
    let found = col.find(&id_filter(ID_A));
    assert_eq!(found.len(), 1);
    let entries = &found[0].entries;
    let get = |k: &str| -> String {
        entries
            .iter()
            .find(|e| e.0 == k)
            .map(|e| match &e.1 {
                Value::Str(s) => s.clone(),
                _ => panic!("expected a string field"),
            })
            .unwrap()
    };
    assert_eq!(get("title"), "new title");
    assert_eq!(get("author"), "the author");
    assert_eq!(get("content"), "the content");
}

#[test]
fn applying_the_same_partial_update_twice_gives_the_same_state() {
    let mut col = Collection::new();
    col.insert_one(doc("old", "auth", "cont"), oid(ID_A)).unwrap();
    let mut set = Document::new();
    set.push("title".to_string(), Value::Str("new".to_string()));
    col.update_one(&id_filter(ID_A), &set).unwrap();
    let after_once: Vec<String> = col.find(&id_filter(ID_A))[0]
        .entries
        .iter()
        .map(|e| format!("{:?}", e))
        .collect();
    col.update_one(&id_filter(ID_A), &set).unwrap();
    let after_twice: Vec<String> = col.find(&id_filter(ID_A))[0]
        .entries
        .iter()
        .map(|e| format!("{:?}", e))
        .collect();
    assert_eq!(after_once, after_twice);
}

#[test]
fn an_update_may_not_change_the_identifier() {
    let mut col = Collection::new();
    col.insert_one(doc("A", "B", "C"), oid(ID_A)).unwrap();
    let mut set = Document::new();
    set.push("_id".to_string(), Value::Oid(oid(ID_B)));
    let refused = col.update_one(&id_filter(ID_A), &set);
    assert!(matches!(refused, Err(StoreError::ImmutableId)));
    let found = col.find(&id_filter(ID_A));
    assert_eq!(found.len(), 1);
}

#[test]
fn find_keeps_storage_order() {
    let mut col = Collection::new();
    col.insert_one(doc("first", "x", "y"), oid(ID_A)).unwrap();
    col.insert_one(doc("second", "x", "y"), oid(ID_B)).unwrap();
    let all = col.find(&Filter::empty());
    assert_eq!(all.len(), 2);
    assert!(matches!(&all[0].entries[1].1, Value::Str(s) if s == "first"));
    assert!(matches!(&all[1].entries[1].1, Value::Str(s) if s == "second"));
}
