use myblog::article::handler::{list_article, remove_article, save_article, update_article};
use myblog::article::service::ArticleService;
use myblog::article::{Article, ArticleQuery};
use myblog::common::BusinessError;
use myblog::oid::ObjectId;

fn fresh_id(s: &str) -> ObjectId {
    ObjectId::with_string(s).unwrap()
}

fn article(title: &str, author: &str, content: &str) -> Article {
    Article {
        _id: None,
        title: title.to_string(),
        author: author.to_string(),
        content: content.to_string(),
    }
}

const FRESH: &str = "0123456789abcdef01234567";

#[test]
fn save_then_list_by_id_yields_the_saved_article() {
    let mut service = ArticleService::new();
    let resp = save_article(&mut service, article("A", "B", "C"), fresh_id(FRESH)).unwrap();
    assert_eq!(resp.code, 0);
    let id = resp.data.unwrap();
    assert_eq!(id, FRESH);

    let query = ArticleQuery { _id: ObjectId::with_string(&id), keyword: String::new() };
    let listed = list_article(&service, query).unwrap();
    assert_eq!(listed.code, 0);
    let articles = listed.data.unwrap();
    assert_eq!(articles.len(), 1);
    let a = &articles[0];
    assert_eq!(a._id.as_ref().unwrap().to_hex(), FRESH);
    assert_eq!(a.title, "A");
    assert_eq!(a.author, "B");
    assert_eq!(a.content, "C");
}

#[test]
fn end_to_end_post_then_get_by_hex_id() {
    let mut service = ArticleService::new();
    let driver_id = ObjectId::with_string(&bson::oid::ObjectId::new().to_hex()).unwrap();
    let resp = save_article(&mut service, article("A", "B", "C"), driver_id).unwrap();
    assert_eq!(resp.code, 0);
    assert_eq!(resp.message, "ok");
    let hex_id = resp.data.unwrap();
    assert_eq!(hex_id.len(), 24);
    assert!(hex_id.chars().all(|c| c.is_ascii_hexdigit()));

    let query = ArticleQuery { _id: ObjectId::with_string(&hex_id), keyword: String::new() };
    let listed = list_article(&service, query).unwrap();
    assert_eq!(listed.code, 0);
    let articles = listed.data.unwrap();
    assert_eq!(articles.len(), 1);
    assert_eq!(articles[0]._id.as_ref().unwrap().to_hex(), hex_id);
    assert_eq!(articles[0].title, "A");
}

#[test]
fn list_with_empty_query_returns_everything() {
    let mut service = ArticleService::new();
    save_article(&mut service, article("one", "x", "y"), fresh_id("aaaaaaaaaaaaaaaaaaaaaaaa"))
        .unwrap();
    save_article(&mut service, article("two", "x", "y"), fresh_id("bbbbbbbbbbbbbbbbbbbbbbbb"))
        .unwrap();
    let query = ArticleQuery { _id: None, keyword: String::new() };
    let listed = list_article(&service, query).unwrap();
    assert_eq!(listed.data.unwrap().len(), 2);
}

#[test]
fn list_by_keyword_is_case_insensitive_across_fields() {
    let mut service = ArticleService::new();
    save_article(
        &mut service,
        article("Rust for beginners", "alice", "systems"),
        fresh_id("aaaaaaaaaaaaaaaaaaaaaaaa"),
    )
    .unwrap();
    save_article(
        &mut service,
        article("Gardening", "a rustacean", "flowers"),
        fresh_id("bbbbbbbbbbbbbbbbbbbbbbbb"),
    )
    .unwrap();
    save_article(
        &mut service,
        article("Cooking", "bob", "pasta"),
        fresh_id("cccccccccccccccccccccccc"),
    )
    .unwrap();
    let query = ArticleQuery { _id: None, keyword: "RUST".to_string() };
    let listed = list_article(&service, query).unwrap();
    let titles: Vec<String> = listed.data.unwrap().iter().map(|a| a.title.clone()).collect();
    assert_eq!(titles, vec!["Rust for beginners", "Gardening"]);
}

#[test]
fn update_modifies_the_stored_article() {
    let mut service = ArticleService::new();
    save_article(&mut service, article("old", "auth", "cont"), fresh_id(FRESH)).unwrap();
    let resp = update_article(&mut service, FRESH, article("new", "auth", "cont")).unwrap();
    assert_eq!(resp.code, 0);
    assert_eq!(resp.data.unwrap(), 1);
    let query = ArticleQuery { _id: ObjectId::with_string(FRESH), keyword: String::new() };
    let listed = list_article(&service, query).unwrap();
    assert_eq!(listed.data.unwrap()[0].title, "new");
}

#[test]
fn update_on_a_nonexistent_id_counts_zero() {
    let mut service = ArticleService::new();
    let resp = update_article(&mut service, FRESH, article("a", "b", "c")).unwrap();
    assert_eq!(resp.data.unwrap(), 0);
}

#[test]
fn malformed_id_on_update_is_a_validation_error_and_touches_nothing() {
    let mut service = ArticleService::new();
    save_article(&mut service, article("A", "B", "C"), fresh_id(FRESH)).unwrap();
    let err = update_article(&mut service, "not-hex", article("x", "y", "z")).unwrap_err();
    match &err {
        BusinessError::ValidationError { field } => assert_eq!(field, "id"),
        _ => panic!("expected a validation error"),
    }
    assert_eq!(err.to_code(), 10001);
    let query = ArticleQuery { _id: None, keyword: String::new() };
    let listed = list_article(&service, query).unwrap();
    assert_eq!(listed.data.unwrap()[0].title, "A");
}

#[test]
fn malformed_id_on_remove_is_a_validation_error() {
    let mut service = ArticleService::new();
    let err = remove_article(&mut service, "").unwrap_err();
    assert_eq!(err.to_code(), 10001);
    let err2 = remove_article(&mut service, "0123").unwrap_err();
    match err2 {
        BusinessError::ValidationError { field } => assert_eq!(field, "id"),
        _ => panic!("expected a validation error"),
    }
}

#[test]
fn remove_on_a_nonexistent_id_counts_zero_not_an_error() {
    let mut service = ArticleService::new();
    let resp = remove_article(&mut service, FRESH).unwrap();
    assert_eq!(resp.code, 0);
    assert_eq!(resp.data.unwrap(), 0);
}

#[test]
fn remove_deletes_the_article() {
    let mut service = ArticleService::new();
    save_article(&mut service, article("A", "B", "C"), fresh_id(FRESH)).unwrap();
    let resp = remove_article(&mut service, FRESH).unwrap();
    assert_eq!(resp.data.unwrap(), 1);
    let query = ArticleQuery { _id: None, keyword: String::new() };
    let listed = list_article(&service, query).unwrap();
    assert!(listed.data.unwrap().is_empty());
}

#[test]
fn saving_under_a_taken_id_is_an_internal_error() {
    let mut service = ArticleService::new();
    save_article(&mut service, article("A", "B", "C"), fresh_id(FRESH)).unwrap();
    let err = save_article(&mut service, article("D", "E", "F"), fresh_id(FRESH)).unwrap_err();
    assert_eq!(err.to_code(), 10000);
}
