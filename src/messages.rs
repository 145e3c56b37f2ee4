use vstd::prelude::*;
use vstd::string::StringExecFns;
use vstd::view::View as _;

use crate::auth::Nylas;
use crate::error::NylasError;
use crate::filter::{matches_spec, FilterCriteria};
use crate::http::{bearer_auth_headers, bearer_headers, check_status, is_success, HttpMethod, HttpRequest};
use crate::query::{encoded_text, form_encode, push_param, query_of};
use crate::text::{chars_of, decimal_text, i32_text};

verus! {

#[verifier::external_type_specification]
#[verifier::external_body]
pub struct ExJsonValue(serde_json::Value);

/// How much of each message the remote API returns.
#[derive(Debug, Clone, Copy, PartialEq, Eq, Structural)]
pub enum View {
    Ids,
    Count,
    Expanded,
}

impl View {
    /// The query value of the view.
    pub open spec fn text(self) -> Seq<char> {
        match self {
            View::Ids => "ids"@,
            View::Count => "count"@,
            View::Expanded => "expanded"@,
        }
    }

    /// The query value of the view: `ids`, `count` or `expanded`.
    pub fn to_string(&self) -> (r: String)
        ensures
            r@ == self.text(),
    {
        match self {
            View::Ids => String::from_str("ids"),
            View::Count => String::from_str("count"),
            View::Expanded => String::from_str("expanded"),
        }
    }
}

/// A mailbox, with its display name if it has one.
#[derive(Debug, Clone)]
pub struct EmailAddress {
    pub email: String,
    pub name: Option<String>,
}

/// A file attached to a message.
#[derive(Debug, Clone)]
pub struct File {
    pub content_disposition: String,
    pub content_type: String,
    pub filename: Option<String>,
    pub id: String,
    pub size: i64,
}

/// A calendar event that a message carries.
#[derive(Debug, Clone)]
pub struct Event {
    pub account_id: String,
    pub busy: bool,
    pub calendar_id: String,
    pub description: String,
    pub id: String,
    pub location: String,
    pub message_id: String,
    pub object: String,
    pub owner: String,
    pub participants: Vec<Participant>,
    pub read_only: bool,
    /// Passed through as the remote API wrote it.
    pub reminders: Option<serde_json::Value>,
    pub status: String,
    pub title: String,
    /// Passed through as the remote API wrote it.
    pub visibility: Option<serde_json::Value>,
    pub when: std::collections::HashMap<String, i64>,
}

/// Someone invited to an event.
#[derive(Debug, Clone)]
pub struct Participant {
    pub comment: Option<String>,
    pub email: String,
    pub name: String,
    pub phone_number: Option<String>,
    pub status: String,
}

/// The folder of a message; the remote API gives it no fields that are read here.
#[derive(Debug, Clone)]
pub struct Folder {}

/// A label on a message.
#[derive(Debug, Clone)]
pub struct Label {
    pub display_name: String,
    pub id: String,
    pub name: String,
}

/// An email message as the remote API returns it.
#[derive(Debug, Clone)]
pub struct Message {
    pub id: String,
    pub object: String,
    pub account_id: String,
    pub thread_id: String,
    pub subject: String,
    pub from: Vec<EmailAddress>,
    pub to: Vec<EmailAddress>,
    pub cc: Vec<EmailAddress>,
    pub bcc: Vec<EmailAddress>,
    pub reply_to: Vec<EmailAddress>,
    /// Unix seconds.
    pub date: i64,
    pub unread: bool,
    pub starred: bool,
    pub snippet: String,
    pub body: String,
    pub files: Vec<File>,
    pub events: Vec<Event>,
    pub folder: Option<Folder>,
    pub labels: Vec<Label>,
    /// Passed through as the remote API wrote it.
    pub headers: Option<serde_json::Value>,
}


/// The messages collection.
pub const MESSAGES_URL: &'static str = "https://api.nylas.com/messages";

/// The `?view=` suffix of a URL, when a view is asked for.
pub open spec fn view_suffix(view: Option<View>) -> Seq<char> {
    match view {
        Some(v) => "?view="@ + v.text(),
        None => Seq::empty(),
    }
}

/// A parameter written in decimal, there only when its value is.
pub open spec fn number_param(key: Seq<char>, v: Option<i32>) -> Seq<(Seq<char>, Seq<char>)> {
    match v {
        Some(n) => seq![(key, decimal_text(n as int))],
        None => Seq::empty(),
    }
}

/// The query parameters of a search, the query form-encoded.
pub open spec fn search_params(query: Seq<char>, limit: Option<i32>, offset: Option<i32>) -> Seq<
    (Seq<char>, Seq<char>),
> {
    seq![("q"@, encoded_text(query))] + number_param("limit"@, limit) + number_param(
        "offset"@,
        offset,
    )
}

/// The URL of a search.
pub open spec fn search_url(query: Seq<char>, limit: Option<i32>, offset: Option<i32>) -> Seq<char> {
    MESSAGES_URL@ + "/search?"@ + query_of(search_params(query, limit, offset))
}

/// The URL of one message.
pub open spec fn message_url(id: Seq<char>, view: Option<View>) -> Seq<char> {
    MESSAGES_URL@ + "/"@ + id + view_suffix(view)
}

/// An authenticated GET of `url`.
pub open spec fn is_bearer_get(req: HttpRequest, token: Seq<char>, url: Seq<char>) -> bool {
    &&& req.method == HttpMethod::Get
    &&& req.url@ == url
    &&& req.headers.deep_view() == bearer_headers(token)
    &&& req.form@.len() == 0
}

/// JSON whitespace.
pub open spec fn is_blank_char(c: char) -> bool {
    c == ' ' || c == '\t' || c == '\n' || c == '\r'
}

/// A body with nothing in it but whitespace.
pub open spec fn is_blank(body: Seq<char>) -> bool {
    forall|i: int| 0 <= i < body.len() ==> is_blank_char(#[trigger] body[i])
}

/// What the status and body of a single-message fetch call for: `Ok(true)` to
/// decode the body, `Ok(false)` for no message, or an error.
pub open spec fn get_outcome_spec(status: u16, body: Seq<char>) -> Result<bool, NylasError> {
    if status == 404 {
        Ok(false)
    } else if is_success(status) {
        Ok(!is_blank(body))
    } else {
        Err(NylasError::HttpError { status })
    }
}

/// Some message of `ms` has the greatest date, and none before it has as great a one.
pub open spec fn is_first_latest(ms: Seq<Message>, i: int) -> bool {
    &&& 0 <= i < ms.len()
    &&& forall|k: int| 0 <= k < ms.len() ==> (#[trigger] ms[k]).date <= ms[i].date
    &&& forall|k: int| 0 <= k < i ==> (#[trigger] ms[k]).date < ms[i].date
}

/// Message operations on behalf of a token manager's access token.
pub struct Messages<'a> {
    pub nylas: &'a Nylas,
}

impl<'a> Messages<'a> {
    /// Message operations with the access token of `nylas`.
    pub fn new(nylas: &'a Nylas) -> (r: Self)
        ensures
            r.nylas == nylas,
    {
        Messages { nylas }
    }

    /// The token that requests are made with.
    pub open spec fn token(&self) -> Option<Seq<char>> {
        self.nylas.access_token.deep_view()
    }

    /// An authenticated GET of `url`, or `MissingAccessToken`.
    fn bearer_get(&self, url: String) -> (r: Result<HttpRequest, NylasError>)
        ensures
            self.token() is None ==> r == Err::<HttpRequest, NylasError>(
                NylasError::MissingAccessToken,
            ),
            self.token() is Some ==> (r matches Ok(req) && is_bearer_get(
                req,
                self.token()->0,
                url@,
            )),
    {
        match &self.nylas.access_token {
            Some(t) => Ok(
                HttpRequest {
                    method: HttpMethod::Get,
                    url,
                    headers: bearer_auth_headers(t.as_str()),
                    form: Vec::new(),
                },
            ),
            None => Err(NylasError::MissingAccessToken),
        }
    }

    /// The GET of the whole collection, with the view asked for if any.
    pub fn list_request(&self, view: Option<View>) -> (r: Result<HttpRequest, NylasError>)
        ensures
            self.token() is None ==> r == Err::<HttpRequest, NylasError>(
                NylasError::MissingAccessToken,
            ),
            self.token() is Some ==> (r matches Ok(req) && is_bearer_get(
                req,
                self.token()->0,
                MESSAGES_URL@ + view_suffix(view),
            )),
    {
        let mut url = String::from_str(MESSAGES_URL);
        if let Some(v) = view {
            url.append("?view=");
            let t = v.to_string();
            url.append(t.as_str());
        }
        assert(url@ =~= MESSAGES_URL@ + view_suffix(view));
        self.bearer_get(url)
    }

    /// The GET of a free-text search, with a limit and an offset if given.
    pub fn search_request(&self, query: &str, limit: Option<i32>, offset: Option<i32>) -> (r:
        Result<HttpRequest, NylasError>)
        ensures
            self.token() is None ==> r == Err::<HttpRequest, NylasError>(
                NylasError::MissingAccessToken,
            ),
            self.token() is Some ==> (r matches Ok(req) && is_bearer_get(
                req,
                self.token()->0,
                search_url(query@, limit, offset),
            )),
    {
        let ghost mut ps: Seq<(Seq<char>, Seq<char>)> = Seq::empty();
        let mut q = String::new();
        let v = form_encode(query);
        push_param(&mut q, Ghost(ps), "q", v.as_str());
        proof { ps = ps.push(("q"@, v@)); }
        let ghost base = ps;
        if let Some(n) = limit {
            let v = i32_text(n);
            push_param(&mut q, Ghost(ps), "limit", v.as_str());
            proof { ps = ps.push(("limit"@, v@)); }
        }
        assert(ps == base + number_param("limit"@, limit));
        let ghost base = ps;
        if let Some(n) = offset {
            let v = i32_text(n);
            push_param(&mut q, Ghost(ps), "offset", v.as_str());
            proof { ps = ps.push(("offset"@, v@)); }
        }
        assert(ps == base + number_param("offset"@, offset));
        assert(ps =~= search_params(query@, limit, offset));
        let mut url = String::from_str(MESSAGES_URL);
        url.append("/search?");
        url.append(q.as_str());
        assert(url@ =~= search_url(query@, limit, offset));
        self.bearer_get(url)
    }

    /// The GET of the message with id `id`, with the view asked for if any.
    pub fn get_request(&self, id: &str, view: Option<View>) -> (r: Result<HttpRequest, NylasError>)
        ensures
            self.token() is None ==> r == Err::<HttpRequest, NylasError>(
                NylasError::MissingAccessToken,
            ),
            self.token() is Some ==> (r matches Ok(req) && is_bearer_get(
                req,
                self.token()->0,
                message_url(id@, view),
            )),
    {
        let mut url = String::from_str(MESSAGES_URL);
        url.append("/");
        url.append(id);
        if let Some(v) = view {
            url.append("?view=");
            let t = v.to_string();
            url.append(t.as_str());
        }
        assert(url@ =~= message_url(id@, view));
        self.bearer_get(url)
    }

    /// What a collection fetch's status stands for: nothing wrong, or `HttpError`.
    pub fn list_outcome(status: u16) -> (r: Result<(), NylasError>)
        ensures
            is_success(status) ==> r == Ok::<(), NylasError>(()),
            !is_success(status) ==> r == Err::<(), NylasError>(NylasError::HttpError { status }),
    {
        check_status(status)
    }

    /// What a single-message fetch's status and body call for: `Ok(true)` to
    /// decode the body, `Ok(false)` when there is no message (a 404, or a
    /// successful answer with an empty body), else `HttpError`.
    pub fn get_outcome(status: u16, body: &str) -> (r: Result<bool, NylasError>)
        ensures
            r == get_outcome_spec(status, body@),
    {
        if status == 404 {
            return Ok(false);
        }
        if let Err(e) = check_status(status) {
            return Err(e);
        }
        let cs = chars_of(body);
        let mut i: usize = 0;
        while i < cs.len()
            invariant
                i <= cs.len(),
                cs@ == body@,
                status != 404,
                is_success(status),
                forall|k: int| 0 <= k < i ==> is_blank_char(#[trigger] cs@[k]),
            decreases cs.len() - i,
        {
            let c = cs[i];
            if !(c == ' ' || c == '\t' || c == '\n' || c == '\r') {
                assert(!is_blank_char(body@[i as int]));
                return Ok(true);
            }
            i = i + 1;
        }
        Ok(false)
    }

    /// The messages that meet the criteria, in their order; all of them when
    /// there are no criteria.
    pub fn filter_messages(messages: Vec<Message>, criteria: Option<&FilterCriteria>) -> (r: Vec<
        Message,
    >)
        ensures
            criteria is None ==> r@ == messages@,
            criteria matches Some(c) ==> r@ == messages@.filter(|m: Message| matches_spec(m, c@)),
    {
        match criteria {
            None => messages,
            Some(c) => {
                let ghost all = messages@;
                let mut kept: Vec<Message> = Vec::new();
                for m in it: messages.into_iter()
                    invariant
                        it.seq() == all,
                        kept@ == all.take(it.index() as int).filter(|m: Message| matches_spec(m, c@)),
                {
                    let ghost k = it.index() as int;
                    let keep = m.matches_filter(c);
                    proof {
                        assert(m == all[k]);
                        assert(all.take(k + 1).drop_last() =~= all.take(k));
                        assert(all.take(k + 1).last() == all[k]);
                        reveal(Seq::filter);
                    }
                    if keep {
                        kept.push(m);
                    }
                }
                assert(all.take(all.len() as int) =~= all);
                kept
            },
        }
    }

    /// The message with the greatest date, the first such when several share
    /// it; `None` for no messages.
    pub fn most_recent(messages: Vec<Message>) -> (r: Option<Message>)
        ensures
            messages@.len() == 0 ==> r is None,
            messages@.len() > 0 ==> exists|i: int|
                is_first_latest(messages@, i) && r == Some(#[trigger] messages@[i]),
    {
        if messages.len() == 0 {
            return None;
        }
        let mut best: usize = 0;
        let mut i: usize = 1;
        while i < messages.len()
            invariant
                1 <= i <= messages.len(),
                best < i,
                forall|k: int| 0 <= k < i ==> (#[trigger] messages@[k]).date <= messages@[best as int].date,
                forall|k: int| 0 <= k < best ==> (#[trigger] messages@[k]).date < messages@[best as int].date,
            decreases messages.len() - i,
        {
            if messages[i].date > messages[best].date {
                best = i;
            }
            i = i + 1;
        }
        let ghost all = messages@;
        assert(is_first_latest(all, best as int));
        let mut messages = messages;
        let m = messages.swap_remove(best);
        assert(m == all[best as int]);
        Some(m)
    }
}

} // verus!
