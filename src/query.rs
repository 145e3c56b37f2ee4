use vstd::prelude::*;
use vstd::string::StringExecFns;
use vstd::utf8::encode_utf8;

use crate::text::{lemma_split_nonempty, split_on};


verus! {

/// A byte that form encoding keeps as it is: an ASCII letter or digit, or one of `*-._`.
pub open spec fn byte_kept(b: u8) -> bool {
    b == 42 || b == 45 || b == 46 || b == 95 || (48 <= b && b <= 57) || (65 <= b && b <= 90) || (97
        <= b && b <= 122)
}

/// The upper-case hexadecimal digit for `d` in 0..=15.
pub open spec fn hex_char(d: int) -> char {
    seq!['0', '1', '2', '3', '4', '5', '6', '7', '8', '9', 'A', 'B', 'C', 'D', 'E', 'F'][d]
}

/// What form encoding writes for one byte: the byte itself, `+` for a space, else `%XX`.
pub open spec fn encode_byte(b: u8) -> Seq<char> {
    if byte_kept(b) {
        seq![b as char]
    } else if b == 32 {
        seq!['+']
    } else {
        seq!['%', hex_char(b as int / 16), hex_char(b as int % 16)]
    }
}

/// The `application/x-www-form-urlencoded` form of a byte string.
pub open spec fn form_encoded(b: Seq<u8>) -> Seq<char>
    decreases b.len(),
{
    if b.len() == 0 {
        Seq::<char>::empty()
    } else {
        form_encoded(b.drop_last()) + encode_byte(b.last())
    }
}

/// The form encoding of a text, taken over its UTF-8 bytes.
pub open spec fn encoded_text(s: Seq<char>) -> Seq<char> {
    form_encoded(encode_utf8(s))
}

/// Relies on `url::form_urlencoded::byte_serialize`: each UTF-8 byte that is an
/// ASCII letter or digit or one of `*-._` is kept, a space becomes `+`, and any
/// other byte becomes `%` and two upper-case hexadecimal digits.
#[verifier::external_body]
pub(crate) fn form_encode(s: &str) -> (r: String)
    ensures
        r@ == encoded_text(s@),
{
    url::form_urlencoded::byte_serialize(s.as_bytes()).collect()
}

/// Form encoding never writes `&` or `=`.
pub proof fn lemma_encoded_has_no_delimiters(b: Seq<u8>)
    ensures
        !form_encoded(b).contains('&'),
        !form_encoded(b).contains('='),
    decreases b.len(),
{
    if b.len() > 0 {
        lemma_encoded_has_no_delimiters(b.drop_last());
        let last = b.last();
        let e = encode_byte(last);
        assert(!e.contains('&') && !e.contains('=')) by {
            if byte_kept(last) {
                assert(e[0] == last as char);
                assert((last as char) != '&' && (last as char) != '=') by {
                    assert(last != 38u8 && last != 61u8);
                }
            } else if last != 32 {
                let hi = last as int / 16;
                let lo = last as int % 16;
                let digits = seq!['0', '1', '2', '3', '4', '5', '6', '7', '8', '9', 'A', 'B', 'C', 'D', 'E', 'F'];
                assert(!digits.contains('&') && !digits.contains('='));
                assert(digits.contains(hex_char(hi)));
                assert(digits.contains(hex_char(lo)));
            }
        }
        let prev = form_encoded(b.drop_last());
        assert(form_encoded(b) == prev + e);
        assert forall|i: int| 0 <= i < (prev + e).len() implies (prev + e)[i] != '&' && (prev + e)[i] != '=' by {
            if i < prev.len() {
                assert((prev + e)[i] == prev[i]);
            } else {
                assert((prev + e)[i] == e[i - prev.len()]);
            }
        }
    }
}

/// One `key=value` parameter.
pub open spec fn param_text(p: (Seq<char>, Seq<char>)) -> Seq<char> {
    p.0 + seq!['='] + p.1
}

/// Parameters joined with `&`, in order.
pub open spec fn query_of(ps: Seq<(Seq<char>, Seq<char>)>) -> Seq<char>
    decreases ps.len(),
{
    if ps.len() == 0 {
        Seq::<char>::empty()
    } else if ps.len() == 1 {
        param_text(ps[0])
    } else {
        query_of(ps.drop_last()) + seq!['&'] + param_text(ps.last())
    }
}

/// Appends `key=value` to a query that holds `ps`.
pub(crate) fn push_param(
    q: &mut String,
    Ghost(ps): Ghost<Seq<(Seq<char>, Seq<char>)>>,
    key: &str,
    value: &str,
)
    requires
        old(q)@ == query_of(ps),
    ensures
        final(q)@ == query_of(ps.push((key@, value@))),
{
    let ghost nps = ps.push((key@, value@));
    assert(nps.drop_last() =~= ps);
    assert(ps.len() > 0 ==> query_of(ps).len() > 0);
    if !q.as_str().is_empty() {
        q.append("&");
    }
    q.append(key);
    q.append("=");
    q.append(value);
    proof {
        reveal_strlit("&");
        reveal_strlit("=");
        if ps.len() == 0 {
            assert(q@ =~= query_of(nps));
        } else {
            assert(q@ =~= query_of(nps));
        }
    }
}


/// The position of the first `c` in `s`, or its length when there is none.
pub open spec fn first_index(s: Seq<char>, c: char) -> int
    decreases s.len(),
{
    if s.len() == 0 {
        0
    } else if s[0] == c {
        0
    } else {
        1 + first_index(s.drop_first(), c)
    }
}

/// A `key=value` piece read back: the text before its first `=`, and after it.
pub open spec fn param_of(seg: Seq<char>) -> (Seq<char>, Seq<char>) {
    let i = first_index(seg, '=');
    (seg.take(i), seg.skip(i + 1))
}

/// The parameters of a query read back from its text.
pub open spec fn query_pairs(q: Seq<char>) -> Seq<(Seq<char>, Seq<char>)> {
    split_on(q, '&').map_values(|seg: Seq<char>| param_of(seg))
}

/// Splitting distributes over a separator: the pieces of `a`, then those of `b`.
pub proof fn lemma_split_concat(a: Seq<char>, b: Seq<char>, sep: char)
    ensures
        split_on(a + seq![sep] + b, sep) == split_on(a, sep) + split_on(b, sep),
    decreases b.len(),
{
    let s = a + seq![sep] + b;
    if b.len() == 0 {
        assert(s.drop_last() =~= a);
        assert(split_on(b, sep) =~= seq![Seq::<char>::empty()]);
        assert(split_on(s, sep) =~= split_on(a, sep) + split_on(b, sep));
    } else {
        let b1 = b.drop_last();
        assert(s.drop_last() =~= a + seq![sep] + b1);
        lemma_split_concat(a, b1, sep);
        lemma_split_nonempty(b1, sep);
        lemma_split_nonempty(a, sep);
        assert(split_on(s, sep) =~= split_on(a, sep) + split_on(b, sep));
    }
}

/// A text without the separator is a single piece.
pub proof fn lemma_split_single(t: Seq<char>, sep: char)
    requires
        !t.contains(sep),
    ensures
        split_on(t, sep) == seq![t],
    decreases t.len(),
{
    if t.len() > 0 {
        let t1 = t.drop_last();
        assert(!t1.contains(sep)) by {
            if t1.contains(sep) {
                let i = choose|i: int| 0 <= i < t1.len() && t1[i] == sep;
                assert(t[i] == sep);
            }
        }
        lemma_split_single(t1, sep);
        assert(t.last() != sep) by {
            assert(t[t.len() - 1] == t.last());
        }
        assert(t1.push(t.last()) =~= t);
        assert(split_on(t, sep) == seq![t1].update(0, t1.push(t.last())));
        assert(split_on(t, sep) =~= seq![t]);
    } else {
        assert(t =~= Seq::<char>::empty());
        assert(split_on(t, sep) =~= seq![t]);
    }
}

/// The first `=` of `k=v` is the one after `k`, when `k` holds none.
pub proof fn lemma_first_index_after_key(k: Seq<char>, v: Seq<char>)
    requires
        !k.contains('='),
    ensures
        first_index(k + seq!['='] + v, '=') == k.len(),
    decreases k.len(),
{
    let s = k + seq!['='] + v;
    if k.len() == 0 {
        assert(s[0] == '=');
    } else {
        assert(s[0] == k[0]);
        let k1 = k.drop_first();
        assert(!k1.contains('=')) by {
            if k1.contains('=') {
                let i = choose|i: int| 0 <= i < k1.len() && k1[i] == '=';
                assert(k[i + 1] == '=');
            }
        }
        assert(s.drop_first() =~= k1 + seq!['='] + v);
        lemma_first_index_after_key(k1, v);
    }
}

/// Parameters whose keys hold no `&` or `=` and whose values hold no `&`.
pub open spec fn plain_params(ps: Seq<(Seq<char>, Seq<char>)>) -> bool {
    forall|i: int|
        0 <= i < ps.len() ==> !(#[trigger] ps[i]).0.contains('&') && !ps[i].0.contains('=')
            && !ps[i].1.contains('&')
}

/// The pieces of a joined query are the parameters' own texts.
pub proof fn lemma_split_query(ps: Seq<(Seq<char>, Seq<char>)>)
    requires
        ps.len() >= 1,
        plain_params(ps),
    ensures
        split_on(query_of(ps), '&') == ps.map_values(|p: (Seq<char>, Seq<char>)| param_text(p)),
    decreases ps.len(),
{
    let last = ps.last();
    assert(!param_text(last).contains('&')) by {
        assert(ps[ps.len() - 1] == last);
        let t = param_text(last);
        if t.contains('&') {
            let i = choose|i: int| 0 <= i < t.len() && t[i] == '&';
            if i < last.0.len() {
                assert(last.0[i] == '&');
            } else if i > last.0.len() {
                assert(last.1[i - last.0.len() - 1] == '&');
            }
        }
    }
    lemma_split_single(param_text(last), '&');
    if ps.len() == 1 {
        assert(split_on(query_of(ps), '&') =~= ps.map_values(
            |p: (Seq<char>, Seq<char>)| param_text(p),
        ));
    } else {
        let front = ps.drop_last();
        assert(plain_params(front)) by {
            assert forall|i: int| 0 <= i < front.len() implies !(#[trigger] front[i]).0.contains(
                '&',
            ) && !front[i].0.contains('=') && !front[i].1.contains('&') by {
                assert(front[i] == ps[i]);
            }
        }
        lemma_split_query(front);
        lemma_split_concat(query_of(front), param_text(last), '&');
        assert(split_on(query_of(ps), '&') =~= ps.map_values(
            |p: (Seq<char>, Seq<char>)| param_text(p),
        ));
    }
}

/// Reading a joined query back gives the parameters it was made of.
pub proof fn lemma_query_pairs_of(ps: Seq<(Seq<char>, Seq<char>)>)
    requires
        ps.len() >= 1,
        plain_params(ps),
    ensures
        query_pairs(query_of(ps)) == ps,
{
    lemma_split_query(ps);
    assert forall|i: int| 0 <= i < ps.len() implies param_of(param_text(#[trigger] ps[i]))
        == ps[i] by {
        let p = ps[i];
        lemma_first_index_after_key(p.0, p.1);
        assert(param_text(p).take(p.0.len() as int) =~= p.0);
        assert(param_text(p).skip(p.0.len() as int + 1) =~= p.1);
    }
    assert(query_pairs(query_of(ps)) =~= ps);
}

} // verus!
