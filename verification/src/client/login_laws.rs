//! What holds of login sessions, forms, cookies and escaped texts.

use crate::client::login_page::{
    cookie_value, escaped, escaped_char, field_in, first_cookie, first_field, pair_field, session_cookie_in,
    SessionStore, SESSION_COOKIE,
};
use crate::clock::max_nanos;
use crate::text::{
    all_space, has_prefix, is_space_spec, lemma_split_joined, lemma_split_whole, lemma_trim_pad, split_spec,
    trim_end_spec, trim_spec, trim_start_spec,
};
use crate::vec_map::lemma_vec_map;
use vstd::prelude::*;

verus! {

/// Whether `c` is a hexadecimal digit in lower case.
pub open spec fn is_lower_hex(c: char) -> bool {
    '0' <= c <= '9' || 'a' <= c <= 'f'
}

/// A created session has a token of 64 hexadecimal digits, is live from the
/// start, and leaves every other session that is still live as it was; the
/// ones that have ended are no longer held.
pub proof fn law_create_keeps_live_sessions(
    pre: SessionStore,
    post: SessionStore,
    raw: Seq<u8>,
    t1: u128,
    t2: u128,
    token: Seq<char>,
    other: Seq<char>,
)
    requires
        raw.len() == 32,
        t2 <= max_nanos(),
        pre.created(post, raw, t1, t2, token),
        other != token,
    ensures
        token.len() == 64,
        forall|i: int| 0 <= i < 64 ==> is_lower_hex(#[trigger] token[i]),
        post.is_live(token, t2),
        pre.is_live(other, t1) ==> post.inner@.contains_key(other) && post.inner@[other]
            == pre.inner@[other],
        !pre.is_live(other, t1) ==> !post.inner@.contains_key(other),
{
    assert forall|i: int| 0 <= i < 64 implies is_lower_hex(#[trigger] token[i]) by {
        let b = raw[i / 2] as int;
        assert(0 <= b / 16 < 16 && 0 <= b % 16 < 16);
    }
}

/// An ended session is refused from then on, at any time, and is no longer
/// counted; every other session stays as it was. Ending it again, or ending
/// one that is not held, changes nothing.
pub proof fn law_invalidated_session_is_refused(
    pre: SessionStore,
    post: SessionStore,
    checked: SessionStore,
    token: Seq<char>,
    other: Seq<char>,
    t1: u128,
    t2: u128,
    r: bool,
)
    requires
        pre.wf(),
        pre.invalidated(post, token),
        post.validated(checked, token, t1, t2, r),
        other != token,
    ensures
        !r,
        post.inner@.len() == if pre.inner@.contains_key(token) {
            pre.inner@.len() - 1
        } else {
            pre.inner@.len() as int
        },
        !pre.inner@.contains_key(token) ==> post.inner@ == pre.inner@,
        post.is_live(other, t1) == pre.is_live(other, t1),
        forall|again: SessionStore| #[trigger]
            post.invalidated(again, token) ==> again.inner@ == post.inner@,
{
    lemma_vec_map(pre.inner);
    if !pre.inner@.contains_key(token) {
        assert(pre.inner@.remove(token) =~= pre.inner@);
    } else {
        assert(pre.inner@.remove(token).dom() =~= pre.inner@.dom().remove(token));
    }
    assert(post.inner@.remove(token) =~= post.inner@);
}

proof fn lemma_first_field_joined(p: Seq<Seq<char>>, q: Seq<Seq<char>>, name: Seq<char>)
    ensures
        first_field(p + q, name) == match first_field(p, name) {
            Some(v) => Some(v),
            None => first_field(q, name),
        },
    decreases q.len(),
{
    if q.len() == 0 {
        assert(p + q =~= p);
    } else {
        assert((p + q).drop_last() =~= p + q.drop_last());
        assert((p + q).last() == q.last());
        lemma_first_field_joined(p, q.drop_last(), name);
    }
}

proof fn lemma_first_field(pairs: Seq<Seq<char>>, name: Seq<char>)
    ensures
        first_field(pairs, name) is None <==> forall|i: int|
            0 <= i < pairs.len() ==> pair_field(#[trigger] pairs[i], name) is None,
        forall|i: int|
            0 <= i < pairs.len() && pair_field(#[trigger] pairs[i], name) is Some && (forall|j: int|
                0 <= j < i ==> pair_field(#[trigger] pairs[j], name) is None) ==> first_field(
                pairs,
                name,
            ) == pair_field(pairs[i], name),
    decreases pairs.len(),
{
    if pairs.len() > 0 {
        let front = pairs.drop_last();
        lemma_first_field(front, name);
        assert(forall|i: int| 0 <= i < front.len() ==> front[i] == #[trigger] pairs[i]);
        assert(forall|i: int| 0 <= i < front.len() ==> #[trigger] front[i] == pairs[i]);
        assert(pairs.last() == pairs[pairs.len() - 1]);
    }
}

/// The first pair with a field's name decides the field's value; the field is
/// absent exactly when no pair has its name.
pub proof fn law_first_pair_decides(body: Seq<char>, name: Seq<char>)
    ensures
        ({
            let pairs = split_spec(body, '&');
            &&& field_in(body, name) is None <==> forall|i: int|
                0 <= i < pairs.len() ==> pair_field(#[trigger] pairs[i], name) is None
            &&& forall|i: int|
                0 <= i < pairs.len() && pair_field(#[trigger] pairs[i], name) is Some && (forall|
                    j: int,
                |
                    0 <= j < i ==> pair_field(#[trigger] pairs[j], name) is None) ==> field_in(
                    body,
                    name,
                ) == pair_field(pairs[i], name)
        }),
{
    lemma_first_field(split_spec(body, '&'), name);
}

/// Whatever is appended to a form changes no field that it has already.
pub proof fn law_later_fields_ignored(body: Seq<char>, more: Seq<char>, name: Seq<char>)
    ensures
        field_in(body, name) is Some ==> field_in(body + seq!['&'] + more, name) == field_in(
            body,
            name,
        ),
        field_in(body, name) is None ==> field_in(body + seq!['&'] + more, name) == field_in(
            more,
            name,
        ),
{
    lemma_split_joined(body, '&', more);
    lemma_first_field_joined(split_spec(body, '&'), split_spec(more, '&'), name);
}

proof fn lemma_first_cookie_joined(p: Seq<Seq<char>>, q: Seq<Seq<char>>)
    ensures
        first_cookie(p + q) == match first_cookie(p) {
            Some(v) => Some(v),
            None => first_cookie(q),
        },
    decreases p.len(),
{
    if p.len() == 0 {
        assert(p + q =~= q);
    } else {
        assert((p + q).skip(1) =~= p.skip(1) + q);
        assert((p + q)[0] == p[0]);
        lemma_first_cookie_joined(p.skip(1), q);
    }
}

/// The pair that a browser sends for a session.
pub open spec fn cookie_pair(token: Seq<char>) -> Seq<char> {
    SESSION_COOKIE@ + "="@ + token
}

proof fn lemma_cookie_pair(pad: Seq<char>, token: Seq<char>)
    requires
        all_space(pad),
        token.len() > 0 ==> !is_space_spec(token.last()),
        !token.contains(';'),
    ensures
        split_spec(pad + cookie_pair(token), ';') == seq![pad + cookie_pair(token)],
        cookie_value(pad + cookie_pair(token)) == Some(token),
{
    reveal_strlit("__krot_session");
    reveal_strlit("=");
    let name = SESSION_COOKIE@;
    let s = cookie_pair(token);
    let p = pad + s;
    assert forall|j: int| 0 <= j < p.len() implies p[j] != ';' by {
        if j < pad.len() {
            assert(is_space_spec(pad[j]));
        } else if j > pad.len() + name.len() {
            assert(p[j] == token[j - pad.len() - name.len() - 1]);
            assert(token.contains(token[j - pad.len() - name.len() - 1]));
        }
    }
    lemma_split_whole(p, ';');
    lemma_trim_pad(pad, s, Seq::empty());
    assert(pad + s + Seq::<char>::empty() =~= p);
    assert(!is_space_spec(s[0]));
    assert(s.last() == if token.len() > 0 { token.last() } else { '=' });
    assert(trim_start_spec(s) == s);
    assert(trim_end_spec(s) == s);
    assert(trim_spec(s) == s);
    assert(s.take(name.len() as int) =~= name);
    let v = s.skip(name.len() as int);
    assert(v =~= "="@ + token);
    assert(v.take(1) =~= "="@);
    assert(v.skip(1) =~= token);
}

/// The cookie that a browser sends back for a session is read as that
/// session's token: alone, or among other cookies, with white space before it,
/// as long as no session cookie stands before it.
pub proof fn law_cookie_reads_back(
    before: Seq<char>,
    pad: Seq<char>,
    token: Seq<char>,
    behind: Seq<char>,
)
    requires
        all_space(pad),
        token.len() > 0 ==> !is_space_spec(token.last()),
        !token.contains(';'),
        session_cookie_in(before) is None,
    ensures
        session_cookie_in(pad + cookie_pair(token)) == Some(token),
        session_cookie_in(pad + cookie_pair(token) + seq![';'] + behind) == Some(token),
        session_cookie_in(before + seq![';'] + (pad + cookie_pair(token))) == Some(token),
        session_cookie_in(
            before + seq![';'] + (pad + cookie_pair(token) + seq![';'] + behind),
        ) == Some(token),
{
    let own = pad + cookie_pair(token);
    lemma_cookie_pair(pad, token);
    assert(seq![own][0] == own);
    let rest = own + seq![';'] + behind;
    lemma_split_joined(own, ';', behind);
    lemma_first_cookie_joined(seq![own], split_spec(behind, ';'));
    lemma_split_joined(before, ';', own);
    lemma_first_cookie_joined(split_spec(before, ';'), seq![own]);
    lemma_split_joined(before, ';', rest);
    lemma_first_cookie_joined(split_spec(before, ';'), split_spec(rest, ';'));
}

/// Escaping two texts one behind the other is escaping them together.
pub proof fn law_escape_joined(a: Seq<char>, b: Seq<char>)
    ensures
        escaped(a + b) == escaped(a) + escaped(b),
    decreases b.len(),
{
    if b.len() == 0 {
        assert(a + b =~= a);
        assert(escaped(a) + escaped(b) =~= escaped(a));
    } else {
        assert((a + b).drop_last() =~= a + b.drop_last());
        assert((a + b).last() == b.last());
        law_escape_joined(a, b.drop_last());
        assert(escaped(a + b) =~= escaped(a) + escaped(b));
    }
}

/// What the front of a text stands for in HTML: a character, and the number
/// of characters that were written for it.
pub open spec fn front_of(t: Seq<char>) -> (char, int) {
    if has_prefix(t, "&amp;"@) {
        ('&', 5)
    } else if has_prefix(t, "&lt;"@) {
        ('<', 4)
    } else if has_prefix(t, "&gt;"@) {
        ('>', 4)
    } else if has_prefix(t, "&quot;"@) {
        ('"', 6)
    } else if has_prefix(t, "&#39;"@) {
        ('\'', 5)
    } else {
        (t[0], 1)
    }
}

/// A text with its entities replaced, from left to right, by what they stand for.
pub open spec fn unescaped(t: Seq<char>) -> Seq<char>
    decreases t.len(),
{
    if t.len() == 0 {
        Seq::empty()
    } else {
        proof {
            lemma_entity_lengths();
        }
        seq![front_of(t).0] + unescaped(t.skip(front_of(t).1))
    }
}

/// The lengths of the entities.
pub proof fn lemma_entity_lengths()
    ensures
        "&amp;"@.len() == 5,
        "&lt;"@.len() == 4,
        "&gt;"@.len() == 4,
        "&quot;"@.len() == 6,
        "&#39;"@.len() == 5,
{
    reveal_strlit("&amp;");
    reveal_strlit("&lt;");
    reveal_strlit("&gt;");
    reveal_strlit("&quot;");
    reveal_strlit("&#39;");
}

proof fn lemma_front_of_escaped(c: char, rest: Seq<char>)
    ensures
        front_of(escaped_char(c) + rest) == (c, escaped_char(c).len() as int),
{
    reveal_strlit("&amp;");
    reveal_strlit("&lt;");
    reveal_strlit("&gt;");
    reveal_strlit("&quot;");
    reveal_strlit("&#39;");
    let e = escaped_char(c);
    let t = e + rest;
    assert(t.take(e.len() as int) =~= e);
    if c == '&' || c == '<' || c == '>' || c == '"' || c == '\'' {
        assert(t[1] == e[1]);
        assert(has_prefix(t, "&amp;"@) ==> t.take(5)[1] == t[1]);
        assert(has_prefix(t, "&lt;"@) ==> t.take(4)[1] == t[1]);
        assert(has_prefix(t, "&gt;"@) ==> t.take(4)[1] == t[1]);
        assert(has_prefix(t, "&quot;"@) ==> t.take(6)[1] == t[1]);
    } else {
        assert(t[0] == c);
        assert(has_prefix(t, "&amp;"@) ==> t.take(5)[0] == t[0]);
        assert(has_prefix(t, "&lt;"@) ==> t.take(4)[0] == t[0]);
        assert(has_prefix(t, "&gt;"@) ==> t.take(4)[0] == t[0]);
        assert(has_prefix(t, "&quot;"@) ==> t.take(6)[0] == t[0]);
        assert(has_prefix(t, "&#39;"@) ==> t.take(5)[0] == t[0]);
    }
}

proof fn lemma_escaped_front(s: Seq<char>)
    requires
        s.len() > 0,
    ensures
        escaped(s) == escaped_char(s[0]) + escaped(s.skip(1)),
{
    let one = seq![s[0]];
    assert(s =~= one + s.skip(1));
    law_escape_joined(one, s.skip(1));
    assert(one.drop_last() =~= Seq::empty());
    assert(escaped(Seq::empty()) =~= Seq::empty());
    assert(escaped(one) =~= escaped_char(s[0]));
}

/// Replacing the entities of an escaped text gives the text back.
pub proof fn law_unescape_escaped(s: Seq<char>)
    ensures
        unescaped(escaped(s)) == s,
    decreases s.len(),
{
    if s.len() > 0 {
        lemma_escaped_front(s);
        let c = s[0];
        let e = escaped_char(c);
        let rest = escaped(s.skip(1));
        law_unescape_escaped(s.skip(1));
        lemma_front_of_escaped(c, rest);
        lemma_entity_lengths();
        assert((e + rest).skip(e.len() as int) =~= rest);
        assert(unescaped(e + rest) == seq![c] + unescaped(rest));
        assert(seq![c] + s.skip(1) =~= s);
    }
}

/// Whether `e` stands in `t` at position `i`.
pub open spec fn stands_at(t: Seq<char>, i: int, e: Seq<char>) -> bool {
    0 <= i && i + e.len() <= t.len() && t.subrange(i, i + e.len()) == e
}

/// Whether one of the five entities stands in `t` at position `i`.
pub open spec fn entity_at(t: Seq<char>, i: int) -> bool {
    ||| stands_at(t, i, "&amp;"@)
    ||| stands_at(t, i, "&lt;"@)
    ||| stands_at(t, i, "&gt;"@)
    ||| stands_at(t, i, "&quot;"@)
    ||| stands_at(t, i, "&#39;"@)
}

/// Every ampersand in an escaped text begins an entity.
pub proof fn law_escaped_ampersands(s: Seq<char>)
    ensures
        forall|i: int|
            0 <= i < escaped(s).len() && #[trigger] escaped(s)[i] == '&' ==> entity_at(
                escaped(s),
                i,
            ),
    decreases s.len(),
{
    if s.len() > 0 {
        reveal_strlit("&amp;");
        reveal_strlit("&lt;");
        reveal_strlit("&gt;");
        reveal_strlit("&quot;");
        reveal_strlit("&#39;");
        let front = escaped(s.drop_last());
        let e = escaped_char(s.last());
        let t = escaped(s);
        law_escaped_ampersands(s.drop_last());
        assert forall|i: int| 0 <= i < t.len() && #[trigger] t[i] == '&' implies entity_at(
            t,
            i,
        ) by {
            if i < front.len() {
                assert(front[i] == '&');
                assert(entity_at(front, i));
                assert(i + 4 <= front.len());
                assert(t.subrange(i, i + 4) =~= front.subrange(i, i + 4));
                if i + 5 <= front.len() {
                    assert(t.subrange(i, i + 5) =~= front.subrange(i, i + 5));
                }
                if i + 6 <= front.len() {
                    assert(t.subrange(i, i + 6) =~= front.subrange(i, i + 6));
                }
            } else {
                assert(t[i] == e[i - front.len()]);
                assert(i == front.len());
                assert(t.subrange(i, i + e.len()) =~= e);
            }
        }
    }
}

} // verus!
