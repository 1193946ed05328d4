use myblog::article::handler::build_filter;
use myblog::article::ArticleQuery;
use myblog::doc::{Document, Value};
use myblog::filter::{doc_matches, Cond, Filter};
use myblog::oid::ObjectId;

fn query(id: Option<ObjectId>, keyword: &str) -> ArticleQuery {
    ArticleQuery { _id: id, keyword: keyword.to_string() }
}

fn article_doc(title: &str, author: &str, content: &str) -> Document {
    let mut d = Document::new();
    d.push("title".to_string(), Value::Str(title.to_string()));
    d.push("author".to_string(), Value::Str(author.to_string()));
    d.push("content".to_string(), Value::Str(content.to_string()));
    d
}

#[test]
fn empty_query_builds_the_empty_filter() {
    let f = build_filter(&query(None, ""));
    assert!(f.fields.is_empty());
    assert!(f.or_groups.is_empty());
}

#[test]
fn the_empty_filter_matches_every_document() {
    let f = Filter::empty();
    assert!(doc_matches(&article_doc("A", "B", "C"), &f));
    assert!(doc_matches(&Document::new(), &f));
}

#[test]
fn keyword_builds_one_or_group_over_the_three_fields() {
    let f = build_filter(&query(None, "rust"));
    assert!(f.fields.is_empty());
    assert_eq!(f.or_groups.len(), 1);
    let group = &f.or_groups[0];
    let keys: Vec<&str> = group.iter().map(|e| e.0.as_str()).collect();
    assert_eq!(keys, vec!["title", "author", "content"]);
    for (_, cond) in group.iter() {
        match cond {
            Cond::Regex { pattern, options } => {
                assert_eq!(pattern, "rust");
                assert_eq!(options, "i");
            },
            _ => panic!("keyword conditions are patterns"),
        }
    }
}

#[test]
fn id_constrains_the_filter_regardless_of_keyword() {
    let oid = ObjectId::with_string("0123456789abcdef01234567").unwrap();
    let f = build_filter(&query(Some(oid), "rust"));
    assert_eq!(f.fields.len(), 1);
    assert_eq!(f.fields[0].0, "_id");
    match &f.fields[0].1 {
        Cond::Eq(Value::Oid(o)) => assert_eq!(o.to_hex(), "0123456789abcdef01234567"),
        _ => panic!("the id condition is an exact match"),
    }
    assert_eq!(f.or_groups.len(), 1);
}

#[test]
fn keyword_matching_is_case_insensitive_substring() {
    let f = build_filter(&query(None, "rust"));
    assert!(doc_matches(&article_doc("Learning Rust", "B", "C"), &f));
    assert!(doc_matches(&article_doc("A", "a RUSTacean", "C"), &f));
    assert!(doc_matches(&article_doc("A", "B", "trust me"), &f));
    assert!(!doc_matches(&article_doc("A", "B", "C"), &f));
}

#[test]
fn keyword_must_occur_in_at_least_one_field() {
    let f = build_filter(&query(None, "needle"));
    let d = article_doc("hay", "stack", "needless");
    assert!(doc_matches(&d, &f));
    let d2 = article_doc("hay", "stack", "nothing");
    assert!(!doc_matches(&d2, &f));
}
