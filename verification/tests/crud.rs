use testrec::handlers::{create_test, delete_test, get_test, health, list_tests, update_test};
use testrec::config::Config;
use testrec::models::{ApiError, CreateTestRequest, UpdateTestRequest};
use testrec::store::Store;

fn create_req(title: &str, content: Option<&str>) -> CreateTestRequest {
    CreateTestRequest { title: title.to_string(), content: content.map(|c| c.to_string()) }
}

fn update_req(title: Option<&str>, content: Option<&str>) -> UpdateTestRequest {
    UpdateTestRequest {
        title: title.map(|t| t.to_string()),
        content: content.map(|c| c.to_string()),
    }
}

#[test]
fn health_says_ok() {
    assert_eq!(health(), "OK");
}

#[test]
fn list_of_empty_store_is_empty() {
    let store = Store::new();
    assert!(list_tests(&store).is_empty());
}

#[test]
fn created_ids_are_unique_and_stable() {
    let mut store = Store::new();
    let a = create_test(&mut store, create_req("first", None)).unwrap();
    let b = create_test(&mut store, create_req("second", None)).unwrap();
    assert_ne!(a.id, b.id);
    let a2 = update_test(&mut store, &a.id_string(), update_req(Some("renamed"), None)).unwrap();
    assert_eq!(a2.id, a.id);
    assert_eq!(a2.created_at, a.created_at);
}

#[test]
fn create_then_get_round_trips() {
    let mut store = Store::new();
    let made = create_test(&mut store, create_req("a title", Some("some content"))).unwrap();
    assert_eq!(made.created_at, made.updated_at);
    let got = get_test(&store, &made.id_string()).unwrap();
    assert_eq!(got.title, "a title");
    assert_eq!(got.content.as_deref(), Some("some content"));
    assert_eq!(got.id, made.id);
    assert_eq!(got.created_at, made.created_at);
    assert_eq!(got.updated_at, made.updated_at);
}

#[test]
fn same_update_twice_same_content_timestamp_moves() {
    let mut store = Store::new();
    let made = store.create(7, 100, create_req("t", None)).unwrap();
    let first = store.update(made.id, 200, update_req(None, Some("hi"))).unwrap();
    let second = store.update(made.id, 300, update_req(None, Some("hi"))).unwrap();
    assert_eq!(first.title, second.title);
    assert_eq!(first.content, second.content);
    assert_eq!(first.updated_at, 200);
    assert_eq!(second.updated_at, 300);
    assert!(second.updated_at > first.updated_at);
}

#[test]
fn updating_only_content_keeps_title() {
    let mut store = Store::new();
    let made = create_test(&mut store, create_req("keep me", None)).unwrap();
    let after = update_test(&mut store, &made.id_string(), update_req(None, Some("new"))).unwrap();
    assert_eq!(after.title, "keep me");
    assert_eq!(after.content.as_deref(), Some("new"));
}

#[test]
fn updating_only_title_keeps_content() {
    let mut store = Store::new();
    let made = create_test(&mut store, create_req("old", Some("body"))).unwrap();
    let after = update_test(&mut store, &made.id_string(), update_req(Some("new"), None)).unwrap();
    assert_eq!(after.title, "new");
    assert_eq!(after.content.as_deref(), Some("body"));
}

#[test]
fn empty_update_only_bumps_updated_at() {
    let mut store = Store::new();
    let made = store.create(9, 50, create_req("t", Some("c"))).unwrap();
    let after = store.update(9, 60, update_req(None, None)).unwrap();
    assert_eq!(after.title, made.title);
    assert_eq!(after.content, made.content);
    assert_eq!(after.created_at, 50);
    assert_eq!(after.updated_at, 60);
}

#[test]
fn delete_of_unknown_id_is_not_found() {
    let mut store = Store::new();
    let made = create_test(&mut store, create_req("x", None)).unwrap();
    let missing = "00000000-0000-0000-0000-00000000ffff";
    assert_eq!(delete_test(&mut store, missing), Err(ApiError::NotFound));
    assert!(get_test(&store, &made.id_string()).is_ok());
}

#[test]
fn second_delete_of_same_id_is_not_found() {
    let mut store = Store::new();
    let made = create_test(&mut store, create_req("x", None)).unwrap();
    let id = made.id_string();
    assert_eq!(delete_test(&mut store, &id), Ok(()));
    assert_eq!(delete_test(&mut store, &id), Err(ApiError::NotFound));
}

#[test]
fn list_returns_newest_first() {
    let mut store = Store::new();
    store.create(1, 10, create_req("oldest", None)).unwrap();
    store.create(2, 20, create_req("middle", None)).unwrap();
    store.create(3, 30, create_req("newest", None)).unwrap();
    let all = list_tests(&store);
    assert_eq!(all.len(), 3);
    assert_eq!(all[0].title, "newest");
    assert_eq!(all[1].title, "middle");
    assert_eq!(all[2].title, "oldest");
    assert_eq!(all[0].created_at, 30);
    assert_eq!(all[1].created_at, 20);
    assert_eq!(all[2].created_at, 10);
}

#[test]
fn full_lifecycle_scenario() {
    let mut store = Store::new();
    let posted = create_test(&mut store, create_req("A", None)).unwrap();
    let t = posted.created_at;
    assert_eq!(posted.title, "A");
    assert_eq!(posted.content, None);
    assert_eq!(posted.updated_at, t);

    let id = posted.id_string();
    let put = update_test(&mut store, &id, update_req(None, Some("hi"))).unwrap();
    assert_eq!(put.title, "A");
    assert_eq!(put.content.as_deref(), Some("hi"));
    assert!(put.updated_at >= t);

    let got = get_test(&store, &id).unwrap();
    assert_eq!(got, put);

    assert_eq!(delete_test(&mut store, &id), Ok(()));
    assert_eq!(get_test(&store, &id), Err(ApiError::NotFound));
}

#[test]
fn malformed_id_fails_before_reaching_the_store() {
    let mut store = Store::new();
    create_test(&mut store, create_req("x", None)).unwrap();
    assert_eq!(get_test(&store, "not-a-uuid"), Err(ApiError::InvalidId));
    assert_eq!(
        update_test(&mut store, "also not one", update_req(Some("y"), None)),
        Err(ApiError::InvalidId)
    );
    assert_eq!(delete_test(&mut store, ""), Err(ApiError::InvalidId));
    assert_eq!(list_tests(&store).len(), 1);
}

#[test]
fn get_of_unknown_id_is_not_found() {
    let store = Store::new();
    let missing = "123e4567-e89b-12d3-a456-426614174000";
    assert_eq!(get_test(&store, missing), Err(ApiError::NotFound));
}

#[test]
fn colliding_id_is_a_store_failure() {
    let mut store = Store::new();
    store.create(5, 10, create_req("one", None)).unwrap();
    let again = store.create(5, 20, create_req("two", None));
    assert_eq!(again, Err(ApiError::Internal));
    assert_eq!(list_tests(&store).len(), 1);
}

#[test]
fn error_status_codes() {
    assert_eq!(ApiError::InvalidId.status_code(), 404);
    assert_eq!(ApiError::NotFound.status_code(), 404);
    assert_eq!(ApiError::Internal.status_code(), 500);
}

#[test]
fn id_text_is_hyphenated_and_reads_back() {
    let mut store = Store::new();
    let made = store.create(0xdead_beef, 10, create_req("x", None)).unwrap();
    let text = made.id_string();
    assert_eq!(text.len(), 36);
    assert_eq!(text.matches('-').count(), 4);
    assert_eq!(text, "00000000-0000-0000-0000-0000deadbeef");
    let got = get_test(&store, &text).unwrap();
    assert_eq!(got.id, 0xdead_beef);
}

#[test]
fn handler_timestamps_come_from_a_real_clock() {
    let mut store = Store::new();
    let made = create_test(&mut store, create_req("x", None)).unwrap();
    let lower = chrono::DateTime::parse_from_rfc3339("2020-01-01T00:00:00Z")
        .unwrap()
        .timestamp_micros();
    let upper = chrono::DateTime::parse_from_rfc3339("2100-01-01T00:00:00Z")
        .unwrap()
        .timestamp_micros();
    assert!(made.created_at > lower);
    assert!(made.created_at < upper);
}

#[test]
fn config_holds_its_fields() {
    let config = Config {
        database_url: "postgresql://user:pw@localhost:5433/db".to_string(),
        server_host: "0.0.0.0".to_string(),
        server_port: 8080,
    };
    assert_eq!(config.server_port, 8080);
    assert_eq!(config.server_host, "0.0.0.0");
}
