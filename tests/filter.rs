use nylas::filter::FilterCriteria;
use nylas::messages::{EmailAddress, Label, Message};

fn address(email: &str) -> EmailAddress {
    EmailAddress { email: email.to_string(), name: None }
}

fn label(name: &str) -> Label {
    Label { display_name: name.to_uppercase(), id: format!("id-{}", name), name: name.to_string() }
}

fn message() -> Message {
    Message {
        id: "m1".to_string(),
        object: "message".to_string(),
        account_id: "acc".to_string(),
        thread_id: "t1".to_string(),
        subject: "Quarterly report".to_string(),
        from: vec![address("boss@corp.com")],
        to: vec![address("me@corp.com"), address("team@corp.com")],
        cc: vec![],
        bcc: vec![address("audit@corp.com")],
        reply_to: vec![],
        date: 1700000000,
        unread: true,
        starred: false,
        snippet: "Please find attached".to_string(),
        body: "<p>Numbers are up</p>".to_string(),
        files: vec![],
        events: vec![],
        folder: None,
        labels: vec![label("inbox"), label("work")],
        headers: None,
    }
}

fn criteria(pairs: &[(&str, &str)]) -> FilterCriteria {
    FilterCriteria::from_pairs(&pairs.to_vec())
}

#[test]
fn empty_criteria_match() {
    assert!(message().matches_filter(&FilterCriteria::new()));
    assert!(message().matches_filter(&criteria(&[])));
    let mut bare = message();
    bare.to = vec![];
    bare.labels = vec![];
    assert!(bare.matches_filter(&criteria(&[])));
}

#[test]
fn to_criterion() {
    let mut m = message();
    m.to = vec![];
    assert!(!m.matches_filter(&criteria(&[("to", "x@y.com")])));
    m.to = vec![address("x@y.com")];
    assert!(m.matches_filter(&criteria(&[("to", "x@y.com")])));
    assert!(!m.matches_filter(&criteria(&[("to", "X@y.com")])));
}

#[test]
fn address_criteria_other_lists() {
    let m = message();
    assert!(m.matches_filter(&criteria(&[("from", "boss@corp.com")])));
    assert!(!m.matches_filter(&criteria(&[("from", "me@corp.com")])));
    assert!(!m.matches_filter(&criteria(&[("cc", "me@corp.com")])));
    assert!(m.matches_filter(&criteria(&[("bcc", "audit@corp.com")])));
}

#[test]
fn all_criteria_must_hold() {
    let m = message();
    assert!(m.matches_filter(&criteria(&[("subject", "report")])));
    assert!(!m.matches_filter(&criteria(&[("unread", "false")])));
    assert!(!m.matches_filter(&criteria(&[("subject", "report"), ("unread", "false")])));
    assert!(m.matches_filter(&criteria(&[("subject", "report"), ("unread", "true")])));
}

#[test]
fn date_criterion_parses_integer() {
    let m = message();
    assert!(m.matches_filter(&criteria(&[("date", "1700000000")])));
    assert!(m.matches_filter(&criteria(&[("date", "+1700000000")])));
    assert!(!m.matches_filter(&criteria(&[("date", "1700000001")])));
    assert!(!m.matches_filter(&criteria(&[("date", " 1700000000")])));
}

#[test]
fn unparsable_date_compares_with_zero() {
    let mut m = message();
    m.date = 0;
    assert!(m.matches_filter(&criteria(&[("date", "yesterday")])));
    assert!(m.matches_filter(&criteria(&[("date", "99999999999999999999")])));
    m.date = -5;
    assert!(m.matches_filter(&criteria(&[("date", "-5")])));
}

#[test]
fn unparsable_flag_is_false() {
    let m = message();
    assert!(m.matches_filter(&criteria(&[("starred", "nonsense")])));
    assert!(!m.matches_filter(&criteria(&[("unread", "TRUE")])));
    assert!(m.matches_filter(&criteria(&[("starred", "false")])));
}

#[test]
fn text_criteria_are_substrings() {
    let m = message();
    assert!(m.matches_filter(&criteria(&[("snippet", "find")])));
    assert!(m.matches_filter(&criteria(&[("snippet", "")])));
    assert!(!m.matches_filter(&criteria(&[("snippet", "Find")])));
    assert!(m.matches_filter(&criteria(&[("body", "up</p>")])));
    assert!(!m.matches_filter(&criteria(&[("subject", "Quarterly report!")])));
}

#[test]
fn thread_id_is_exact() {
    let m = message();
    assert!(m.matches_filter(&criteria(&[("thread_id", "t1")])));
    assert!(!m.matches_filter(&criteria(&[("thread_id", "t")])));
}

#[test]
fn labels_split_on_commas() {
    let m = message();
    assert!(m.matches_filter(&criteria(&[("labels", "personal,work")])));
    assert!(m.matches_filter(&criteria(&[("labels", "inbox")])));
    assert!(!m.matches_filter(&criteria(&[("labels", "personal, work")])));
    assert!(!m.matches_filter(&criteria(&[("labels", "")])));
}

#[test]
fn unknown_keys_are_ignored_and_later_pairs_win() {
    let m = message();
    assert!(m.matches_filter(&criteria(&[("colour", "blue")])));
    assert!(m.matches_filter(&criteria(&[("thread_id", "zz"), ("thread_id", "t1")])));
    assert!(!m.matches_filter(&criteria(&[("thread_id", "t1"), ("thread_id", "zz")])));
}

#[test]
fn set_by_name() {
    let mut c = FilterCriteria::new();
    c.set("to", "me@corp.com");
    c.set("nothing", "x");
    assert_eq!(c.to.as_deref(), Some("me@corp.com"));
    assert!(c.from.is_none());
    assert!(message().matches_filter(&c));
}
