use myblog::article::Article;
use myblog::common::service::struct_into_document;
use myblog::doc::{Document, DocumentRecord, Value};
use myblog::oid::ObjectId;

fn article(id: Option<ObjectId>, title: &str, author: &str, content: &str) -> Article {
    Article {
        _id: id,
        title: title.to_string(),
        author: author.to_string(),
        content: content.to_string(),
    }
}

fn entry_names(d: &Document) -> Vec<String> {
    d.entries.iter().map(|e| e.0.clone()).collect()
}

#[test]
fn to_document_keeps_field_order() {
    let a = article(None, "A", "B", "C");
    let d = a.to_document();
    assert_eq!(entry_names(&d), vec!["_id", "title", "author", "content"]);
    assert!(matches!(d.entries[0].1, Value::Null));
}

#[test]
fn null_id_is_stripped_before_storage() {
    let a = article(None, "A", "B", "C");
    let d = struct_into_document(&a).expect("mapping cannot fail");
    assert_eq!(entry_names(&d), vec!["title", "author", "content"]);
    assert!(d.entries.iter().all(|e| !matches!(e.1, Value::Null)));
}

#[test]
fn mapper_roundtrip_without_id() {
    let a = article(None, "A title", "An author", "Some content");
    let d = struct_into_document(&a).unwrap();
    let back = Article::from_document(&d).expect("stored documents parse");
    assert!(back._id.is_none());
    assert_eq!(back.title, "A title");
    assert_eq!(back.author, "An author");
    assert_eq!(back.content, "Some content");
}

#[test]
fn mapper_roundtrip_with_id() {
    let oid = ObjectId::with_string("0123456789abcdef01234567").unwrap();
    let a = article(Some(oid), "A", "B", "C");
    let d = struct_into_document(&a).unwrap();
    assert_eq!(entry_names(&d), vec!["_id", "title", "author", "content"]);
    let back = Article::from_document(&d).unwrap();
    assert_eq!(back._id.unwrap().to_hex(), "0123456789abcdef01234567");
    assert_eq!(back.title, "A");
}

#[test]
fn a_document_missing_a_field_does_not_parse() {
    let mut d = Document::new();
    d.push("title".to_string(), Value::Str("A".to_string()));
    d.push("author".to_string(), Value::Str("B".to_string()));
    assert!(Article::from_document(&d).is_none());
}
