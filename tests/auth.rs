use nylas::auth::Nylas;
use nylas::error::NylasError;
use nylas::http::HttpMethod;

fn manager() -> Nylas {
    Nylas::new("abc", "secret", None).unwrap()
}

#[test]
fn new_rejects_empty_client_id() {
    assert!(matches!(Nylas::new("", "secret", None), Err(NylasError::InvalidCredentials)));
}

#[test]
fn new_rejects_empty_client_secret() {
    assert!(matches!(Nylas::new("abc", "", Some("tok")), Err(NylasError::InvalidCredentials)));
}

#[test]
fn new_keeps_credentials_and_token() {
    let n = Nylas::new("abc", "secret", Some("tok")).unwrap();
    assert_eq!(n.client_id, "abc");
    assert_eq!(n.client_secret, "secret");
    assert_eq!(n.access_token.as_deref(), Some("tok"));
    assert!(n.account.is_none());
}

#[test]
fn with_token_sets_the_token() {
    let n = manager().with_token("t2");
    assert_eq!(n.access_token.as_deref(), Some("t2"));
    assert_eq!(n.client_id, "abc");
}

#[test]
fn auth_url_with_empty_credentials_fails() {
    let n = Nylas { client_id: String::new(), client_secret: "s".to_string(), account: None, access_token: None };
    let r = n.authentication_url("https://example.com/cb", Some("x"), None, None);
    assert_eq!(r, Err(NylasError::InvalidCredentials));
    let n = Nylas { client_id: "c".to_string(), client_secret: String::new(), account: None, access_token: None };
    let r = n.authentication_url("not a url", None, None, None);
    assert_eq!(r, Err(NylasError::InvalidCredentials));
}

#[test]
fn auth_url_rejects_malformed_redirect() {
    let n = manager();
    assert_eq!(n.authentication_url("", None, None, None), Err(NylasError::InvalidRedirectUri));
    assert_eq!(
        n.authentication_url("example.com/callback", None, None, None),
        Err(NylasError::InvalidRedirectUri)
    );
    assert_eq!(n.authentication_url("/relative/path", None, None, None), Err(NylasError::InvalidRedirectUri));
}

#[test]
fn auth_url_minimal() {
    let url = manager().authentication_url("http://localhost:3000/cb", None, None, None).unwrap();
    assert_eq!(
        url,
        "https://api.nylas.com/oauth/authorize?client_id=abc&redirect_uri=http%3A%2F%2Flocalhost%3A3000%2Fcb&response_type=code"
    );
}

#[test]
fn auth_url_with_all_parameters_is_form_encoded() {
    let url = manager()
        .authentication_url(
            "https://example.com/cb",
            Some("a b@x.com"),
            Some("unique_identifier"),
            Some("email,calendar,contacts"),
        )
        .unwrap();
    assert_eq!(
        url,
        "https://api.nylas.com/oauth/authorize?client_id=abc&redirect_uri=https%3A%2F%2Fexample.com%2Fcb&response_type=code&login_hint=a+b%40x.com&state=unique_identifier&scopes=email%2Ccalendar%2Ccontacts"
    );
}

#[test]
fn auth_url_names_each_required_key_once() {
    let url = manager()
        .authentication_url("https://example.com/?client_id=x&response_type=y", Some("client_id=z"), None, None)
        .unwrap();
    let query = url.split_once('?').unwrap().1;
    let keys: Vec<&str> = query.split('&').map(|p| p.split_once('=').unwrap().0).collect();
    for k in ["client_id", "redirect_uri", "response_type"] {
        assert_eq!(keys.iter().filter(|x| **x == k).count(), 1);
    }
    assert!(query.contains("response_type=code"));
}

#[test]
fn exchange_request_with_empty_credentials_fails() {
    let n = Nylas { client_id: "c".to_string(), client_secret: String::new(), account: None, access_token: None };
    assert!(matches!(n.exchange_request("code"), Err(NylasError::InvalidCredentials)));
}

#[test]
fn exchange_request_posts_the_form() {
    let req = manager().exchange_request("the-code").unwrap();
    assert_eq!(req.method, HttpMethod::Post);
    assert_eq!(req.url, "https://api.nylas.com/oauth/token");
    assert_eq!(req.headers, vec![("Accept".to_string(), "application/json".to_string())]);
    let form: Vec<(&str, &str)> = req.form.iter().map(|(k, v)| (k.as_str(), v.as_str())).collect();
    assert_eq!(
        form,
        vec![
            ("client_id", "abc"),
            ("client_secret", "secret"),
            ("grant_type", "authorization_code"),
            ("code", "the-code"),
        ]
    );
}

#[test]
fn token_from_response_success() {
    let body = r#"{"access_token":"tok-123","token_type":"bearer","provider":"gmail"}"#;
    assert_eq!(Nylas::token_from_response(200, body), Ok("tok-123".to_string()));
}

#[test]
fn token_from_response_without_token() {
    assert_eq!(Nylas::token_from_response(200, r#"{"error":"nope"}"#), Err(NylasError::TokenNotFound));
}

#[test]
fn token_from_response_malformed_json() {
    assert_eq!(Nylas::token_from_response(200, "not json"), Err(NylasError::DecodeError));
    assert_eq!(Nylas::token_from_response(201, r#"{"access_token": 5}"#), Err(NylasError::DecodeError));
}

#[test]
fn token_from_response_http_error() {
    assert_eq!(
        Nylas::token_from_response(400, r#"{"access_token":"x"}"#),
        Err(NylasError::HttpError { status: 400 })
    );
    assert_eq!(Nylas::token_from_response(302, ""), Err(NylasError::HttpError { status: 302 }));
}

#[test]
fn token_from_entries_picks_access_token() {
    let entries = vec![
        ("a".to_string(), "1".to_string()),
        ("access_token".to_string(), "t".to_string()),
    ];
    assert_eq!(Nylas::token_from_entries(&entries), Ok("t".to_string()));
    let entries = vec![("access_tokens".to_string(), "t".to_string())];
    assert_eq!(Nylas::token_from_entries(&entries), Err(NylasError::TokenNotFound));
}

#[test]
fn account_request_needs_token() {
    assert!(matches!(manager().account_request(), Err(NylasError::MissingAccessToken)));
    let n = Nylas { client_id: String::new(), client_secret: "s".to_string(), account: None, access_token: Some("t".to_string()) };
    assert!(matches!(n.account_request(), Err(NylasError::InvalidCredentials)));
}

#[test]
fn account_request_uses_bearer_token() {
    let req = manager().with_token("tok").account_request().unwrap();
    assert_eq!(req.method, HttpMethod::Get);
    assert_eq!(req.url, "https://api.nylas.com/account");
    assert_eq!(
        req.headers,
        vec![
            ("Accept".to_string(), "application/json".to_string()),
            ("Authorization".to_string(), "Bearer tok".to_string()),
        ]
    );
    assert!(req.form.is_empty());
}
