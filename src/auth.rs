use vstd::prelude::*;
use vstd::string::StringExecFns;
use vstd::utf8::encode_utf8;

pub use crate::accounts::Account;
use crate::error::NylasError;
use crate::http::{
    accept_json_headers,
    bearer_auth_headers,
    bearer_headers,
    check_status,
    is_success,
    json_headers,
    text_pair,
    HttpMethod,
    HttpRequest,
};
use crate::text::str_equal;
use crate::query::{
    encoded_text,
    form_encode,
    lemma_encoded_has_no_delimiters,
    lemma_query_pairs_of,
    plain_params,
    push_param,
    query_of,
    query_pairs,
};

verus! {

/// The page where a user grants access.
pub const AUTHORIZE_URL: &'static str = "https://api.nylas.com/oauth/authorize";

/// The endpoint that trades an authorization code for an access token.
pub const TOKEN_URL: &'static str = "https://api.nylas.com/oauth/token";

/// The key of the access token in the token endpoint's answer.
pub const TOKEN_FIELD: &'static str = "access_token";

/// The endpoint that describes the account of an access token.
pub const ACCOUNT_URL: &'static str = "https://api.nylas.com/account";

#[verifier::external_type_specification]
#[verifier::external_body]
pub struct ExUrl(url::Url);

#[verifier::external_type_specification]
#[verifier::external_body]
pub struct ExUrlParseError(url::ParseError);

#[verifier::external_type_specification]
#[verifier::external_body]
pub struct ExJsonError(serde_json::Error);

/// Whether a text parses as an absolute URL.
pub uninterp spec fn absolute_url(s: Seq<char>) -> bool;

/// Relies on `url::Url::parse`: success exactly for absolute URLs. Without a
/// base, the parser needs a scheme ended by `:`, so a text without `:` fails.
pub assume_specification[ url::Url::parse ](input: &str) -> (r: Result<url::Url, url::ParseError>)
    ensures
        r is Ok == absolute_url(input@),
        !input@.contains(':') ==> r is Err,
;

/// The entries of a JSON object whose values are all strings, in key order;
/// `None` when the text is not such an object.
pub uninterp spec fn json_string_object(body: Seq<char>) -> Option<Seq<(Seq<char>, Seq<char>)>>;

/// Relies on `serde_json::from_str` into a `BTreeMap<String, String>`: it
/// decodes a JSON object whose values are all strings, and the map hands its
/// entries out in key order.
#[verifier::external_body]
fn decode_string_object(body: &str) -> (r: Result<Vec<(String, String)>, serde_json::Error>)
    ensures
        match r {
            Ok(v) => json_string_object(body@) == Some(v.deep_view()),
            Err(_) => json_string_object(body@) is None,
        },
{
    serde_json::from_str::<std::collections::BTreeMap<String, String>>(body).map(
        |m| m.into_iter().collect(),
    )
}

/// The view of an optional string slice.
pub open spec fn opt_text(o: Option<&str>) -> Option<Seq<char>> {
    match o {
        Some(s) => Some(s@),
        None => None,
    }
}

/// A parameter that is there only when its value is.
pub open spec fn optional_param(key: Seq<char>, v: Option<Seq<char>>) -> Seq<(Seq<char>, Seq<char>)> {
    match v {
        Some(x) => seq![(key, encoded_text(x))],
        None => Seq::empty(),
    }
}

/// The query parameters of the authorization URL, values form-encoded.
pub open spec fn auth_params(
    client_id: Seq<char>,
    redirect_uri: Seq<char>,
    login_hint: Option<Seq<char>>,
    state: Option<Seq<char>>,
    scopes: Option<Seq<char>>,
) -> Seq<(Seq<char>, Seq<char>)> {
    seq![
        ("client_id"@, encoded_text(client_id)),
        ("redirect_uri"@, encoded_text(redirect_uri)),
        ("response_type"@, "code"@),
    ] + optional_param("login_hint"@, login_hint) + optional_param("state"@, state)
        + optional_param("scopes"@, scopes)
}

/// The full authorization URL.
pub open spec fn auth_url_text(
    client_id: Seq<char>,
    redirect_uri: Seq<char>,
    login_hint: Option<Seq<char>>,
    state: Option<Seq<char>>,
    scopes: Option<Seq<char>>,
) -> Seq<char> {
    AUTHORIZE_URL@ + seq!['?'] + query_of(
        auth_params(client_id, redirect_uri, login_hint, state, scopes),
    )
}

/// The form fields that trade `code` for a token.
pub open spec fn token_form(client_id: Seq<char>, client_secret: Seq<char>, code: Seq<char>) -> Seq<
    (Seq<char>, Seq<char>),
> {
    seq![
        ("client_id"@, client_id),
        ("client_secret"@, client_secret),
        ("grant_type"@, "authorization_code"@),
        ("code"@, code),
    ]
}

/// The value of the first entry with key `k`.
pub open spec fn lookup(es: Seq<(Seq<char>, Seq<char>)>, k: Seq<char>) -> Option<Seq<char>>
    decreases es.len(),
{
    if es.len() == 0 {
        None
    } else if es[0].0 == k {
        Some(es[0].1)
    } else {
        lookup(es.drop_first(), k)
    }
}

/// What a decoded token response yields: its `access_token`, or `TokenNotFound`.
pub open spec fn token_outcome(es: Seq<(Seq<char>, Seq<char>)>) -> Result<Seq<char>, NylasError> {
    match lookup(es, TOKEN_FIELD@) {
        Some(t) => Ok(t),
        None => Err(NylasError::TokenNotFound),
    }
}

/// The view of a result that carries a string.
pub open spec fn text_result(r: Result<String, NylasError>) -> Result<Seq<char>, NylasError> {
    match r {
        Ok(s) => Ok(s@),
        Err(e) => Err(e),
    }
}

/// What a whole token response yields, from its status and body.
pub open spec fn token_response_outcome(status: u16, body: Seq<char>) -> Result<Seq<char>, NylasError> {
    if !is_success(status) {
        Err(NylasError::HttpError { status })
    } else {
        match json_string_object(body) {
            Some(es) => token_outcome(es),
            None => Err(NylasError::DecodeError),
        }
    }
}

/// The authorization URL is the authorization page, `?`, and a query that, read
/// back, holds `client_id`, `redirect_uri` and `response_type=code` as its first
/// three parameters and none of these names again: each appears exactly once.
pub proof fn lemma_auth_url_names_each_param_once(
    client_id: Seq<char>,
    redirect_uri: Seq<char>,
    login_hint: Option<Seq<char>>,
    state: Option<Seq<char>>,
    scopes: Option<Seq<char>>,
)
    ensures
        ({
            let url = auth_url_text(client_id, redirect_uri, login_hint, state, scopes);
            let n = AUTHORIZE_URL@.len() as int + 1;
            let ps = query_pairs(url.skip(n));
            &&& url.take(n) == AUTHORIZE_URL@ + seq!['?']
            &&& ps.len() >= 3
            &&& ps[0] == ("client_id"@, encoded_text(client_id))
            &&& ps[1] == ("redirect_uri"@, encoded_text(redirect_uri))
            &&& ps[2] == ("response_type"@, "code"@)
            &&& forall|j: int|
                3 <= j < ps.len() ==> (#[trigger] ps[j]).0 != "client_id"@ && ps[j].0
                    != "redirect_uri"@ && ps[j].0 != "response_type"@
        }),
{
    reveal_strlit("client_id");
    reveal_strlit("redirect_uri");
    reveal_strlit("response_type");
    reveal_strlit("code");
    reveal_strlit("login_hint");
    reveal_strlit("state");
    reveal_strlit("scopes");
    let ps = auth_params(client_id, redirect_uri, login_hint, state, scopes);
    let url = auth_url_text(client_id, redirect_uri, login_hint, state, scopes);
    let n = AUTHORIZE_URL@.len() as int + 1;
    assert(url.take(n) =~= AUTHORIZE_URL@ + seq!['?']);
    assert(url.skip(n) =~= query_of(ps));
    lemma_encoded_has_no_delimiters(encode_utf8(client_id));
    lemma_encoded_has_no_delimiters(encode_utf8(redirect_uri));
    if let Some(x) = login_hint {
        lemma_encoded_has_no_delimiters(encode_utf8(x));
    }
    if let Some(x) = state {
        lemma_encoded_has_no_delimiters(encode_utf8(x));
    }
    if let Some(x) = scopes {
        lemma_encoded_has_no_delimiters(encode_utf8(x));
    }
    assert(plain_params(ps));
    lemma_query_pairs_of(ps);
    assert(ps.len() >= 3);
    assert forall|j: int| 3 <= j < ps.len() implies (#[trigger] ps[j]).0 != "client_id"@ && ps[j].0
        != "redirect_uri"@ && ps[j].0 != "response_type"@ by {
        let k = ps[j].0;
        assert(k == "login_hint"@ || k == "state"@ || k == "scopes"@);
        assert(k.len() != 9 && k.len() != 12 && k.len() != 13);
    }
}

/// Client credentials, the current access token, and the account it belongs to.
pub struct Nylas {
    pub client_id: String,
    pub client_secret: String,
    pub account: Option<Account>,
    pub access_token: Option<String>,
}

impl Nylas {
    /// Both credentials are non-empty.
    pub open spec fn has_credentials(&self) -> bool {
        self.client_id@.len() > 0 && self.client_secret@.len() > 0
    }

    /// A token manager for the given credentials, holding `access_token` if one is given.
    pub fn new(client_id: &str, client_secret: &str, access_token: Option<&str>) -> (r: Result<
        Nylas,
        NylasError,
    >)
        ensures
            (client_id@.len() == 0 || client_secret@.len() == 0) ==> r == Err::<Nylas, NylasError>(
                NylasError::InvalidCredentials,
            ),
            (client_id@.len() > 0 && client_secret@.len() > 0) ==> (r matches Ok(n) && n.client_id@
                == client_id@ && n.client_secret@ == client_secret@ && n.access_token.deep_view()
                == opt_text(access_token) && n.account is None),
    {
        if client_id.is_empty() || client_secret.is_empty() {
            return Err(NylasError::InvalidCredentials);
        }
        let token = match access_token {
            Some(t) => Some(String::from_str(t)),
            None => None,
        };
        Ok(Nylas {
            client_id: String::from_str(client_id),
            client_secret: String::from_str(client_secret),
            account: None,
            access_token: token,
        })
    }

    /// The same manager with `token` as its access token.
    pub fn with_token(self, token: &str) -> (r: Nylas)
        ensures
            r.client_id == self.client_id,
            r.client_secret == self.client_secret,
            r.account == self.account,
            r.access_token.deep_view() == Some(token@),
    {
        Nylas { access_token: Some(String::from_str(token)), ..self }
    }

    /// The URL where a user grants access; the server then redirects to `redirect_uri`.
    pub fn authentication_url(
        &self,
        redirect_uri: &str,
        login_hint: Option<&str>,
        state: Option<&str>,
        scopes: Option<&str>,
    ) -> (r: Result<String, NylasError>)
        ensures
            !self.has_credentials() ==> r == Err::<String, NylasError>(
                NylasError::InvalidCredentials,
            ),
            self.has_credentials() && !redirect_uri@.contains(':') ==> r == Err::<
                String,
                NylasError,
            >(NylasError::InvalidRedirectUri),
            self.has_credentials() && !absolute_url(redirect_uri@) ==> r == Err::<
                String,
                NylasError,
            >(NylasError::InvalidRedirectUri),
            self.has_credentials() && absolute_url(redirect_uri@) ==> (r matches Ok(u) && u@
                == auth_url_text(
                self.client_id@,
                redirect_uri@,
                opt_text(login_hint),
                opt_text(state),
                opt_text(scopes),
            )),
    {
        if self.client_id.as_str().is_empty() || self.client_secret.as_str().is_empty() {
            return Err(NylasError::InvalidCredentials);
        }
        if url::Url::parse(redirect_uri).is_err() {
            return Err(NylasError::InvalidRedirectUri);
        }
        let ghost mut ps: Seq<(Seq<char>, Seq<char>)> = Seq::empty();
        let mut q = String::new();
        let v = form_encode(self.client_id.as_str());
        push_param(&mut q, Ghost(ps), "client_id", v.as_str());
        proof { ps = ps.push(("client_id"@, v@)); }
        let v = form_encode(redirect_uri);
        push_param(&mut q, Ghost(ps), "redirect_uri", v.as_str());
        proof { ps = ps.push(("redirect_uri"@, v@)); }
        push_param(&mut q, Ghost(ps), "response_type", "code");
        proof { ps = ps.push(("response_type"@, "code"@)); }
        let ghost base = ps;
        if let Some(h) = login_hint {
            let v = form_encode(h);
            push_param(&mut q, Ghost(ps), "login_hint", v.as_str());
            proof { ps = ps.push(("login_hint"@, v@)); }
        }
        assert(ps == base + optional_param("login_hint"@, opt_text(login_hint)));
        let ghost base = ps;
        if let Some(s) = state {
            let v = form_encode(s);
            push_param(&mut q, Ghost(ps), "state", v.as_str());
            proof { ps = ps.push(("state"@, v@)); }
        }
        assert(ps == base + optional_param("state"@, opt_text(state)));
        let ghost base = ps;
        if let Some(s) = scopes {
            let v = form_encode(s);
            push_param(&mut q, Ghost(ps), "scopes", v.as_str());
            proof { ps = ps.push(("scopes"@, v@)); }
        }
        assert(ps == base + optional_param("scopes"@, opt_text(scopes)));
        assert(ps =~= auth_params(
            self.client_id@,
            redirect_uri@,
            opt_text(login_hint),
            opt_text(state),
            opt_text(scopes),
        ));
        let mut url = String::from_str(AUTHORIZE_URL);
        url.append("?");
        url.append(q.as_str());
        proof {
            reveal_strlit("?");
        }
        assert(url@ =~= auth_url_text(
            self.client_id@,
            redirect_uri@,
            opt_text(login_hint),
            opt_text(state),
            opt_text(scopes),
        ));
        Ok(url)
    }

    /// The POST that trades `authorization_code` for an access token.
    pub fn exchange_request(&self, authorization_code: &str) -> (r: Result<HttpRequest, NylasError>)
        ensures
            !self.has_credentials() ==> r == Err::<HttpRequest, NylasError>(
                NylasError::InvalidCredentials,
            ),
            self.has_credentials() ==> (r matches Ok(req) && req.method == HttpMethod::Post
                && req.url@ == TOKEN_URL@ && req.headers.deep_view() == json_headers()
                && req.form.deep_view() == token_form(
                self.client_id@,
                self.client_secret@,
                authorization_code@,
            )),
    {
        if self.client_id.as_str().is_empty() || self.client_secret.as_str().is_empty() {
            return Err(NylasError::InvalidCredentials);
        }
        let mut form: Vec<(String, String)> = Vec::new();
        form.push(text_pair("client_id", self.client_id.as_str()));
        form.push(text_pair("client_secret", self.client_secret.as_str()));
        form.push(text_pair("grant_type", "authorization_code"));
        form.push(text_pair("code", authorization_code));
        assert(form.deep_view() =~= token_form(
            self.client_id@,
            self.client_secret@,
            authorization_code@,
        ));
        Ok(
            HttpRequest {
                method: HttpMethod::Post,
                url: String::from_str(TOKEN_URL),
                headers: accept_json_headers(),
                form,
            },
        )
    }

    /// The access token held by the entries of a decoded token response.
    pub fn token_from_entries(entries: &Vec<(String, String)>) -> (r: Result<String, NylasError>)
        ensures
            text_result(r) == token_outcome(entries.deep_view()),
    {
        let ghost es = entries.deep_view();
        let mut i: usize = 0;
        assert(es.skip(0) =~= es);
        while i < entries.len()
            invariant
                i <= entries.len(),
                es == entries.deep_view(),
                lookup(es, TOKEN_FIELD@) == lookup(es.skip(i as int), TOKEN_FIELD@),
            decreases entries.len() - i,
        {
            proof {
                assert(es.skip(i as int)[0] == es[i as int]);
                assert(es.skip(i as int).drop_first() =~= es.skip(i + 1));
                assert(es[i as int] == (entries@[i as int].0@, entries@[i as int].1@));
            }
            if str_equal(entries[i].0.as_str(), TOKEN_FIELD) {
                return Ok(entries[i].1.clone());
            }
            i = i + 1;
        }
        assert(es.skip(i as int).len() == 0);
        Err(NylasError::TokenNotFound)
    }

    /// What the token endpoint's answer yields: the access token, or the error it stands for.
    pub fn token_from_response(status: u16, body: &str) -> (r: Result<String, NylasError>)
        ensures
            text_result(r) == token_response_outcome(status, body@),
    {
        if let Err(e) = check_status(status) {
            return Err(e);
        }
        match decode_string_object(body) {
            Ok(entries) => Nylas::token_from_entries(&entries),
            Err(_) => Err(NylasError::DecodeError),
        }
    }

    /// The GET that describes the account of the access token.
    pub fn account_request(&self) -> (r: Result<HttpRequest, NylasError>)
        ensures
            !self.has_credentials() ==> r == Err::<HttpRequest, NylasError>(
                NylasError::InvalidCredentials,
            ),
            self.has_credentials() && self.access_token is None ==> r == Err::<
                HttpRequest,
                NylasError,
            >(NylasError::MissingAccessToken),
            self.has_credentials() && self.access_token is Some ==> (r matches Ok(req)
                && req.method == HttpMethod::Get && req.url@ == ACCOUNT_URL@
                && req.headers.deep_view() == bearer_headers(self.access_token->0@)
                && req.form@.len() == 0),
    {
        if self.client_id.as_str().is_empty() || self.client_secret.as_str().is_empty() {
            return Err(NylasError::InvalidCredentials);
        }
        match &self.access_token {
            Some(t) => Ok(
                HttpRequest {
                    method: HttpMethod::Get,
                    url: String::from_str(ACCOUNT_URL),
                    headers: bearer_auth_headers(t.as_str()),
                    form: Vec::new(),
                },
            ),
            None => Err(NylasError::MissingAccessToken),
        }
    }
} // impl Nylas

} // verus!
