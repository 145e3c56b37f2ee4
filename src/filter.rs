use vstd::prelude::*;
use vstd::string::StringExecFns;

use crate::messages::{EmailAddress, Label, Message};
use crate::text::{
    chars_equal,
    chars_of,
    contains_chars,
    contains_infix,
    parse_bool,
    parse_i64,
    parsed_bool,
    parsed_i64,
    split_chars,
    split_on,
    str_equal,
};

verus! {

/// What a filter asks of each field: `None` imposes nothing.
pub struct CriteriaView {
    pub to: Option<Seq<char>>,
    pub from: Option<Seq<char>>,
    pub cc: Option<Seq<char>>,
    pub bcc: Option<Seq<char>>,
    pub date: Option<Seq<char>>,
    pub unread: Option<Seq<char>>,
    pub starred: Option<Seq<char>>,
    pub snippet: Option<Seq<char>>,
    pub subject: Option<Seq<char>>,
    pub body: Option<Seq<char>>,
    pub thread_id: Option<Seq<char>>,
    pub labels: Option<Seq<char>>,
}

/// Criteria that a message must all meet to pass a filter; an absent one imposes nothing.
#[derive(Debug, Clone)]
pub struct FilterCriteria {
    /// Some recipient has exactly this address.
    pub to: Option<String>,
    /// Some sender has exactly this address.
    pub from: Option<String>,
    /// Some copy recipient has exactly this address.
    pub cc: Option<String>,
    /// Some blind copy recipient has exactly this address.
    pub bcc: Option<String>,
    /// The date equals this decimal number (0 when it does not parse).
    pub date: Option<String>,
    /// The unread flag equals this `true` or `false` (false when it does not parse).
    pub unread: Option<String>,
    /// The starred flag equals this `true` or `false` (false when it does not parse).
    pub starred: Option<String>,
    /// The snippet contains this text.
    pub snippet: Option<String>,
    /// The subject contains this text.
    pub subject: Option<String>,
    /// The body contains this text.
    pub body: Option<String>,
    /// The thread id is exactly this.
    pub thread_id: Option<String>,
    /// Some comma-separated name here is the name of a label of the message.
    pub labels: Option<String>,
}

impl View for FilterCriteria {
    type V = CriteriaView;

    open spec fn view(&self) -> CriteriaView {
        CriteriaView {
            to: self.to.deep_view(),
            from: self.from.deep_view(),
            cc: self.cc.deep_view(),
            bcc: self.bcc.deep_view(),
            date: self.date.deep_view(),
            unread: self.unread.deep_view(),
            starred: self.starred.deep_view(),
            snippet: self.snippet.deep_view(),
            subject: self.subject.deep_view(),
            body: self.body.deep_view(),
            thread_id: self.thread_id.deep_view(),
            labels: self.labels.deep_view(),
        }
    }
}

/// Criteria that impose nothing.
pub open spec fn no_criteria() -> CriteriaView {
    CriteriaView {
        to: None,
        from: None,
        cc: None,
        bcc: None,
        date: None,
        unread: None,
        starred: None,
        snippet: None,
        subject: None,
        body: None,
        thread_id: None,
        labels: None,
    }
}

/// `c` with the criterion named `k` set to `v`; an unknown name changes nothing.
pub open spec fn with_criterion(c: CriteriaView, k: Seq<char>, v: Seq<char>) -> CriteriaView {
    if k == "to"@ {
        CriteriaView { to: Some(v), ..c }
    } else if k == "from"@ {
        CriteriaView { from: Some(v), ..c }
    } else if k == "cc"@ {
        CriteriaView { cc: Some(v), ..c }
    } else if k == "bcc"@ {
        CriteriaView { bcc: Some(v), ..c }
    } else if k == "date"@ {
        CriteriaView { date: Some(v), ..c }
    } else if k == "unread"@ {
        CriteriaView { unread: Some(v), ..c }
    } else if k == "starred"@ {
        CriteriaView { starred: Some(v), ..c }
    } else if k == "snippet"@ {
        CriteriaView { snippet: Some(v), ..c }
    } else if k == "subject"@ {
        CriteriaView { subject: Some(v), ..c }
    } else if k == "body"@ {
        CriteriaView { body: Some(v), ..c }
    } else if k == "thread_id"@ {
        CriteriaView { thread_id: Some(v), ..c }
    } else if k == "labels"@ {
        CriteriaView { labels: Some(v), ..c }
    } else {
        c
    }
}

/// The criteria that name/value pairs give, a later pair overriding an earlier one.
pub open spec fn criteria_of(ps: Seq<(Seq<char>, Seq<char>)>) -> CriteriaView
    decreases ps.len(),
{
    if ps.len() == 0 {
        no_criteria()
    } else {
        with_criterion(criteria_of(ps.drop_last()), ps.last().0, ps.last().1)
    }
}

/// One of the names that criteria can be given under.
pub open spec fn is_criterion_name(k: Seq<char>) -> bool {
    k == "to"@ || k == "from"@ || k == "cc"@ || k == "bcc"@ || k == "date"@ || k == "unread"@
        || k == "starred"@ || k == "snippet"@ || k == "subject"@ || k == "body"@ || k
        == "thread_id"@ || k == "labels"@
}

/// The criterion that `c` holds under the name `k`.
pub open spec fn criterion_named(c: CriteriaView, k: Seq<char>) -> Option<Seq<char>> {
    if k == "to"@ {
        c.to
    } else if k == "from"@ {
        c.from
    } else if k == "cc"@ {
        c.cc
    } else if k == "bcc"@ {
        c.bcc
    } else if k == "date"@ {
        c.date
    } else if k == "unread"@ {
        c.unread
    } else if k == "starred"@ {
        c.starred
    } else if k == "snippet"@ {
        c.snippet
    } else if k == "subject"@ {
        c.subject
    } else if k == "body"@ {
        c.body
    } else if k == "thread_id"@ {
        c.thread_id
    } else if k == "labels"@ {
        c.labels
    } else {
        None
    }
}

/// Pair `i` of `ps` is the last one with its name, so that no later pair overrides it.
pub open spec fn is_last_of_its_name(ps: Seq<(Seq<char>, Seq<char>)>, i: int) -> bool {
    0 <= i < ps.len() && forall|j: int| i < j < ps.len() ==> (#[trigger] ps[j]).0 != ps[i].0
}

/// Some address in `list` is exactly `x`.
pub open spec fn has_email(list: Seq<EmailAddress>, x: Seq<char>) -> bool {
    exists|i: int| 0 <= i < list.len() && (#[trigger] list[i]).email@ == x
}

/// One of `names` is the name of one of `labels`.
pub open spec fn has_label(labels: Seq<Label>, names: Seq<Seq<char>>) -> bool {
    exists|i: int, j: int|
        0 <= i < names.len() && 0 <= j < labels.len() && #[trigger] names[i] == (
        #[trigger] labels[j]).name@
}

/// The date a criterion asks for: its decimal value, or 0 when it does not parse.
pub open spec fn date_wanted(x: Seq<char>) -> i64 {
    match parsed_i64(x) {
        Some(d) => d,
        None => 0,
    }
}

/// The flag a criterion asks for: `true` or `false`, and false when it does not parse.
pub open spec fn flag_wanted(x: Seq<char>) -> bool {
    match parsed_bool(x) {
        Some(b) => b,
        None => false,
    }
}

/// An address criterion, if set, names an address of the list.
pub open spec fn address_ok(list: Seq<EmailAddress>, c: Option<Seq<char>>) -> bool {
    match c {
        Some(x) => has_email(list, x),
        None => true,
    }
}

/// A date criterion, if set, asks for this date.
pub open spec fn date_ok(date: i64, c: Option<Seq<char>>) -> bool {
    match c {
        Some(x) => date == date_wanted(x),
        None => true,
    }
}

/// A flag criterion, if set, asks for this flag.
pub open spec fn flag_ok(flag: bool, c: Option<Seq<char>>) -> bool {
    match c {
        Some(x) => flag == flag_wanted(x),
        None => true,
    }
}

/// A text criterion, if set, occurs in the field.
pub open spec fn text_ok(field: Seq<char>, c: Option<Seq<char>>) -> bool {
    match c {
        Some(x) => contains_infix(field, x),
        None => true,
    }
}

/// An exact criterion, if set, is the field.
pub open spec fn exact_ok(field: Seq<char>, c: Option<Seq<char>>) -> bool {
    match c {
        Some(x) => field == x,
        None => true,
    }
}

/// A labels criterion, if set, names a label of the message.
pub open spec fn labels_ok(labels: Seq<Label>, c: Option<Seq<char>>) -> bool {
    match c {
        Some(x) => has_label(labels, split_on(x, ',')),
        None => true,
    }
}

/// A message passes a filter when it meets every criterion that is set.
pub open spec fn matches_spec(m: Message, c: CriteriaView) -> bool {
    &&& address_ok(m.to@, c.to)
    &&& address_ok(m.from@, c.from)
    &&& address_ok(m.cc@, c.cc)
    &&& address_ok(m.bcc@, c.bcc)
    &&& date_ok(m.date, c.date)
    &&& flag_ok(m.unread, c.unread)
    &&& flag_ok(m.starred, c.starred)
    &&& text_ok(m.snippet@, c.snippet)
    &&& text_ok(m.subject@, c.subject)
    &&& text_ok(m.body@, c.body)
    &&& exact_ok(m.thread_id@, c.thread_id)
    &&& labels_ok(m.labels@, c.labels)
}

/// Whether some address in `list` is exactly `x`.
fn any_email(list: &Vec<EmailAddress>, x: &String) -> (r: bool)
    ensures
        r == has_email(list@, x@),
{
    let mut i: usize = 0;
    while i < list.len()
        invariant
            i <= list.len(),
            forall|k: int| 0 <= k < i ==> (#[trigger] list@[k]).email@ != x@,
        decreases list.len() - i,
    {
        if list[i].email == *x {
            return true;
        }
        i = i + 1;
    }
    false
}

/// Whether an address list meets an address criterion.
fn address_matches(list: &Vec<EmailAddress>, c: &Option<String>) -> (r: bool)
    ensures
        r == address_ok(list@, c.deep_view()),
{
    match c {
        Some(x) => any_email(list, x),
        None => true,
    }
}

/// Whether a date meets a date criterion.
fn date_matches(date: i64, c: &Option<String>) -> (r: bool)
    ensures
        r == date_ok(date, c.deep_view()),
{
    match c {
        Some(x) => {
            let wanted = match parse_i64(x.as_str()) {
                Some(d) => d,
                None => 0,
            };
            date == wanted
        },
        None => true,
    }
}

/// Whether a flag meets a flag criterion.
fn flag_matches(flag: bool, c: &Option<String>) -> (r: bool)
    ensures
        r == flag_ok(flag, c.deep_view()),
{
    match c {
        Some(x) => {
            let wanted = match parse_bool(x.as_str()) {
                Some(b) => b,
                None => false,
            };
            flag == wanted
        },
        None => true,
    }
}

/// Whether a text field contains the criterion's text.
fn text_matches(field: &String, c: &Option<String>) -> (r: bool)
    ensures
        r == text_ok(field@, c.deep_view()),
{
    match c {
        Some(x) => {
            let hay = chars_of(field.as_str());
            let needle = chars_of(x.as_str());
            contains_chars(&hay, &needle)
        },
        None => true,
    }
}

/// Whether a field equals the criterion's text.
fn exact_matches(field: &String, c: &Option<String>) -> (r: bool)
    ensures
        r == exact_ok(field@, c.deep_view()),
{
    match c {
        Some(x) => *field == *x,
        None => true,
    }
}

/// Whether some label of `labels` is named `name`.
fn any_label_named(labels: &Vec<Label>, name: &Vec<char>) -> (r: bool)
    ensures
        r == exists|j: int| 0 <= j < labels@.len() && name@ == (#[trigger] labels@[j]).name@,
{
    let mut j: usize = 0;
    while j < labels.len()
        invariant
            j <= labels.len(),
            forall|k: int| 0 <= k < j ==> name@ != (#[trigger] labels@[k]).name@,
        decreases labels.len() - j,
    {
        let n = chars_of(labels[j].name.as_str());
        if chars_equal(&n, name) {
            return true;
        }
        j = j + 1;
    }
    false
}

/// Whether some comma-separated name of the criterion names a label.
fn labels_match(labels: &Vec<Label>, c: &Option<String>) -> (r: bool)
    ensures
        r == labels_ok(labels@, c.deep_view()),
{
    match c {
        Some(x) => {
            let text = chars_of(x.as_str());
            let names = split_chars(&text, ',');
            let ghost want = split_on(x@, ',');
            let mut i: usize = 0;
            while i < names.len()
                invariant
                    i <= names.len(),
                    c.deep_view() == Some(x@),
                    want == split_on(x@, ','),
                    names@.len() == want.len(),
                    forall|k: int| 0 <= k < names@.len() ==> #[trigger] names@[k]@ == want[k],
                    forall|k: int, j: int|
                        0 <= k < i && 0 <= j < labels@.len() ==> #[trigger] want[k] != (
                        #[trigger] labels@[j]).name@,
                decreases names.len() - i,
            {
                if any_label_named(labels, &names[i]) {
                    assert(names@[i as int]@ == want[i as int]);
                    let ghost j = choose|j: int|
                        0 <= j < labels@.len() && names@[i as int]@ == (
                        #[trigger] labels@[j]).name@;
                    assert(want[i as int] == labels@[j].name@);
                    return true;
                }
                i = i + 1;
            }
            false
        },
        None => true,
    }
}

/// Makes the contents of the criterion names known, so that they can be told apart.
proof fn reveal_criterion_names() {
    reveal_strlit("to");
    reveal_strlit("from");
    reveal_strlit("cc");
    reveal_strlit("bcc");
    reveal_strlit("date");
    reveal_strlit("unread");
    reveal_strlit("starred");
    reveal_strlit("snippet");
    reveal_strlit("subject");
    reveal_strlit("body");
    reveal_strlit("thread_id");
    reveal_strlit("labels");
}

/// Setting one criterion changes only the criterion of that name.
proof fn lemma_criterion_named_after_set(c: CriteriaView, k: Seq<char>, v: Seq<char>, k2: Seq<char>)
    requires
        is_criterion_name(k2),
    ensures
        criterion_named(with_criterion(c, k, v), k2) == if k2 == k {
            Some(v)
        } else {
            criterion_named(c, k2)
        },
{
    reveal_criterion_names();
}

/// A pair that no later pair overrides gives the criterion of its name.
proof fn lemma_criterion_named_of_pairs(ps: Seq<(Seq<char>, Seq<char>)>, i: int)
    requires
        is_last_of_its_name(ps, i),
        is_criterion_name(ps[i].0),
    ensures
        criterion_named(criteria_of(ps), ps[i].0) == Some(ps[i].1),
    decreases ps.len(),
{
    let last = ps.last();
    lemma_criterion_named_after_set(criteria_of(ps.drop_last()), last.0, last.1, ps[i].0);
    if i < ps.len() - 1 {
        assert(ps[ps.len() - 1].0 != ps[i].0);
        let front = ps.drop_last();
        assert(front[i] == ps[i]);
        assert forall|j: int| i < j < front.len() implies (#[trigger] front[j]).0 != front[i].0 by {
            assert(front[j] == ps[j]);
        }
        lemma_criterion_named_of_pairs(front, i);
    }
}

/// A message that meets all criteria meets any one of them alone.
proof fn lemma_single_criterion_from_all(m: Message, c: CriteriaView, k: Seq<char>, v: Seq<char>)
    requires
        matches_spec(m, c),
        is_criterion_name(k),
        criterion_named(c, k) == Some(v),
    ensures
        matches_spec(m, with_criterion(no_criteria(), k, v)),
{
    reveal_criterion_names();
}

/// Criteria made from no pairs let every message through.
pub proof fn lemma_no_criteria_match_every_message(m: Message)
    ensures
        matches_spec(m, criteria_of(Seq::empty())),
{
}

/// A message passes `{"to": x}` exactly when one of its recipients has the address `x`.
pub proof fn lemma_to_criterion(m: Message, x: Seq<char>)
    ensures
        matches_spec(m, criteria_of(seq![("to"@, x)])) <==> exists|i: int|
            0 <= i < m.to@.len() && (#[trigger] m.to@[i]).email@ == x,
{
    let ps = seq![("to"@, x)];
    assert(ps.drop_last() =~= Seq::<(Seq<char>, Seq<char>)>::empty());
    assert(ps.last() == ("to"@, x));
    assert(criteria_of(ps.drop_last()) == no_criteria());
    assert(criteria_of(ps) == with_criterion(no_criteria(), "to"@, x));
    assert(criteria_of(ps).to == Some(x));
}

/// Criteria are all required: a message that passes the criteria of `ps` passes
/// each pair of `ps` that no later pair overrides, taken alone. So failing any
/// one of them fails the whole filter.
pub proof fn lemma_every_criterion_is_required(m: Message, ps: Seq<(Seq<char>, Seq<char>)>, i: int)
    requires
        is_last_of_its_name(ps, i),
        matches_spec(m, criteria_of(ps)),
    ensures
        matches_spec(m, criteria_of(seq![ps[i]])),
{
    let single = seq![ps[i]];
    assert(single.drop_last() =~= Seq::<(Seq<char>, Seq<char>)>::empty());
    assert(single.last() == ps[i]);
    assert(criteria_of(single.drop_last()) == no_criteria());
    assert(criteria_of(single) == with_criterion(no_criteria(), ps[i].0, ps[i].1));
    if is_criterion_name(ps[i].0) {
        lemma_criterion_named_of_pairs(ps, i);
        lemma_single_criterion_from_all(m, criteria_of(ps), ps[i].0, ps[i].1);
    } else {
        reveal_criterion_names();
        assert(with_criterion(no_criteria(), ps[i].0, ps[i].1) == no_criteria());
    }
}

impl FilterCriteria {
    /// Criteria that impose nothing.
    pub fn new() -> (r: FilterCriteria)
        ensures
            r@ == no_criteria(),
    {
        FilterCriteria {
            to: None,
            from: None,
            cc: None,
            bcc: None,
            date: None,
            unread: None,
            starred: None,
            snippet: None,
            subject: None,
            body: None,
            thread_id: None,
            labels: None,
        }
    }

    /// Sets the criterion named `key` to `value`; an unknown name is ignored.
    pub fn set(&mut self, key: &str, value: &str)
        ensures
            final(self)@ == with_criterion(old(self)@, key@, value@),
    {
        let v = Some(String::from_str(value));
        if str_equal(key, "to") {
            self.to = v;
        } else if str_equal(key, "from") {
            self.from = v;
        } else if str_equal(key, "cc") {
            self.cc = v;
        } else if str_equal(key, "bcc") {
            self.bcc = v;
        } else if str_equal(key, "date") {
            self.date = v;
        } else if str_equal(key, "unread") {
            self.unread = v;
        } else if str_equal(key, "starred") {
            self.starred = v;
        } else if str_equal(key, "snippet") {
            self.snippet = v;
        } else if str_equal(key, "subject") {
            self.subject = v;
        } else if str_equal(key, "body") {
            self.body = v;
        } else if str_equal(key, "thread_id") {
            self.thread_id = v;
        } else if str_equal(key, "labels") {
            self.labels = v;
        }
    }

    /// The criteria that name/value pairs give; a later pair overrides an earlier
    /// one with the same name, and unknown names are ignored.
    pub fn from_pairs(pairs: &Vec<(&str, &str)>) -> (r: FilterCriteria)
        ensures
            r@ == criteria_of(pairs.deep_view()),
    {
        let ghost ps = pairs.deep_view();
        let mut r = FilterCriteria::new();
        let mut i: usize = 0;
        while i < pairs.len()
            invariant
                i <= pairs.len(),
                ps == pairs.deep_view(),
                r@ == criteria_of(ps.take(i as int)),
            decreases pairs.len() - i,
        {
            let (k, v) = pairs[i];
            proof {
                assert(ps.take(i + 1).drop_last() =~= ps.take(i as int));
                assert(ps[i as int] == (k@, v@));
            }
            r.set(k, v);
            i = i + 1;
        }
        assert(ps.take(i as int) =~= ps);
        r
    }
}

impl Message {
    /// Whether the message meets every criterion that is set.
    pub fn matches_filter(&self, criteria: &FilterCriteria) -> (r: bool)
        ensures
            r == matches_spec(*self, criteria@),
    {
        address_matches(&self.to, &criteria.to) && address_matches(&self.from, &criteria.from)
            && address_matches(&self.cc, &criteria.cc) && address_matches(
            &self.bcc,
            &criteria.bcc,
        ) && date_matches(self.date, &criteria.date) && flag_matches(
            self.unread,
            &criteria.unread,
        ) && flag_matches(self.starred, &criteria.starred) && text_matches(
            &self.snippet,
            &criteria.snippet,
        ) && text_matches(&self.subject, &criteria.subject) && text_matches(
            &self.body,
            &criteria.body,
        ) && exact_matches(&self.thread_id, &criteria.thread_id) && labels_match(
            &self.labels,
            &criteria.labels,
        )
    }
}

} // verus!
