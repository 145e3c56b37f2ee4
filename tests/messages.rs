use nylas::auth::Nylas;
use nylas::error::NylasError;
use nylas::filter::FilterCriteria;
use nylas::http::HttpMethod;
use nylas::messages::{EmailAddress, Message, Messages, View};

fn message(id: &str, date: i64, to: &str) -> Message {
    Message {
        id: id.to_string(),
        object: "message".to_string(),
        account_id: "acc".to_string(),
        thread_id: format!("thread-{}", id),
        subject: String::new(),
        from: vec![],
        to: vec![EmailAddress { email: to.to_string(), name: Some("Someone".to_string()) }],
        cc: vec![],
        bcc: vec![],
        reply_to: vec![],
        date,
        unread: false,
        starred: false,
        snippet: String::new(),
        body: String::new(),
        files: vec![],
        events: vec![],
        folder: None,
        labels: vec![],
        headers: None,
    }
}

fn authed() -> Nylas {
    Nylas::new("id", "secret", Some("tok")).unwrap()
}

#[test]
fn view_strings() {
    assert_eq!(View::Ids.to_string(), "ids");
    assert_eq!(View::Count.to_string(), "count");
    assert_eq!(View::Expanded.to_string(), "expanded");
}

#[test]
fn requests_need_a_token() {
    let n = Nylas::new("id", "secret", None).unwrap();
    let m = Messages::new(&n);
    assert!(matches!(m.list_request(None), Err(NylasError::MissingAccessToken)));
    assert!(matches!(m.search_request("x", None, None), Err(NylasError::MissingAccessToken)));
    assert!(matches!(m.get_request("abc", None), Err(NylasError::MissingAccessToken)));
}

#[test]
fn list_request_urls() {
    let n = authed();
    let m = Messages::new(&n);
    let req = m.list_request(None).unwrap();
    assert_eq!(req.method, HttpMethod::Get);
    assert_eq!(req.url, "https://api.nylas.com/messages");
    assert_eq!(
        req.headers,
        vec![
            ("Accept".to_string(), "application/json".to_string()),
            ("Authorization".to_string(), "Bearer tok".to_string()),
        ]
    );
    assert!(req.form.is_empty());
    let req = m.list_request(Some(View::Expanded)).unwrap();
    assert_eq!(req.url, "https://api.nylas.com/messages?view=expanded");
}

#[test]
fn search_request_urls() {
    let n = authed();
    let m = Messages::new(&n);
    let req = m.search_request("hello world", None, None).unwrap();
    assert_eq!(req.url, "https://api.nylas.com/messages/search?q=hello+world");
    let req = m.search_request("a@b.com", Some(5), Some(-10)).unwrap();
    assert_eq!(req.url, "https://api.nylas.com/messages/search?q=a%40b.com&limit=5&offset=-10");
    let req = m.search_request("x", None, Some(0)).unwrap();
    assert_eq!(req.url, "https://api.nylas.com/messages/search?q=x&offset=0");
}

#[test]
fn get_request_urls() {
    let n = authed();
    let m = Messages::new(&n);
    assert_eq!(m.get_request("abc123", None).unwrap().url, "https://api.nylas.com/messages/abc123");
    assert_eq!(
        m.get_request("abc123", Some(View::Ids)).unwrap().url,
        "https://api.nylas.com/messages/abc123?view=ids"
    );
}

#[test]
fn get_outcome_not_found_is_none() {
    assert_eq!(Messages::get_outcome(404, ""), Ok(false));
    assert_eq!(Messages::get_outcome(404, "{\"message\":\"missing\"}"), Ok(false));
}

#[test]
fn get_outcome_server_error() {
    assert_eq!(Messages::get_outcome(500, ""), Err(NylasError::HttpError { status: 500 }));
    assert_eq!(Messages::get_outcome(401, "{}"), Err(NylasError::HttpError { status: 401 }));
}

#[test]
fn get_outcome_success() {
    assert_eq!(Messages::get_outcome(200, "{\"id\":\"m\"}"), Ok(true));
    assert_eq!(Messages::get_outcome(200, ""), Ok(false));
    assert_eq!(Messages::get_outcome(200, " \n\t"), Ok(false));
    assert_eq!(Messages::get_outcome(299, "null"), Ok(true));
}

#[test]
fn list_outcome_statuses() {
    assert_eq!(Messages::list_outcome(200), Ok(()));
    assert_eq!(Messages::list_outcome(204), Ok(()));
    assert_eq!(Messages::list_outcome(199), Err(NylasError::HttpError { status: 199 }));
    assert_eq!(Messages::list_outcome(300), Err(NylasError::HttpError { status: 300 }));
}

#[test]
fn most_recent_picks_latest() {
    let ms = vec![message("a", 100, "x"), message("b", 300, "x"), message("c", 200, "x")];
    let m = Messages::most_recent(ms).unwrap();
    assert_eq!(m.date, 300);
    assert_eq!(m.id, "b");
}

#[test]
fn most_recent_of_nothing_is_none() {
    assert!(Messages::most_recent(vec![]).is_none());
}

#[test]
fn most_recent_tie_takes_first() {
    let ms = vec![message("a", 5, "x"), message("b", 9, "x"), message("c", 9, "x")];
    assert_eq!(Messages::most_recent(ms).unwrap().id, "b");
}

#[test]
fn filter_messages_keeps_order() {
    let ms = vec![message("a", 1, "x@y"), message("b", 2, "z@y"), message("c", 3, "x@y")];
    let c = FilterCriteria::from_pairs(&vec![("to", "x@y")]);
    let kept: Vec<String> = Messages::filter_messages(ms, Some(&c)).into_iter().map(|m| m.id).collect();
    assert_eq!(kept, vec!["a".to_string(), "c".to_string()]);
}

#[test]
fn filter_messages_without_criteria() {
    let ms = vec![message("a", 1, "x@y"), message("b", 2, "z@y")];
    assert_eq!(Messages::filter_messages(ms, None).len(), 2);
    assert!(Messages::filter_messages(vec![], Some(&FilterCriteria::new())).is_empty());
}
