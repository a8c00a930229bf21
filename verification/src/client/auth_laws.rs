//! Who is let through to a published HTTP tunnel, over all requests.

use crate::client::local_auth::{
    api_key_spec, bearer_rest, first_next, form_matches, form_pass, is_api_key_header, law_login_redirect_returns, lemma_query_chars,
    login_redirect, next_of_form, next_of_query, path_only, query_bytes, session_decided, token_in, ActionView, Moment, Outcome,
};
use crate::client::login_laws::{cookie_pair, law_later_fields_ignored};
use crate::client::login_page::{
    clear_cookie_spec, escape_at_front, field_in, first_field, form_bytes, html_response_spec, pair_field, redirect_spec,
    safe_next_spec,
    session_cookie_in, session_ttl_nanos, set_cookie_spec, SessionStore, LOGIN_PATH, LOGOUT_PATH,
};
use crate::clock::max_nanos;
use crate::codec::hex_text;
use crate::http_parse::HeaderView;
use crate::server::admin_api::header_text;
use crate::text::{all_space, dec, has_prefix, is_space_spec, lemma_split_whole, lower, lower_hex, trim_spec, upper_hex};
use crate::text_laws::{law_cut_first, law_cut_first_of_joined, law_strip, law_trim_is_tight, law_trim_keeps_tight, tight};
use vstd::prelude::*;
use vstd::utf8::{decode_utf8, encode_utf8, valid_utf8};

verus! {

/// Whether a header can carry a key: one of two names, in any case.
pub open spec fn may_carry(h: HeaderView) -> bool {
    lower(h.name) == lower("x-api-key"@) || lower(h.name) == lower("authorization"@)
}

/// Whether a text is a scheme, white space, and then the key, where the
/// scheme is `bearer` in any case.
pub open spec fn is_bearer_of(t: Seq<char>, key: Seq<char>) -> bool {
    exists|scheme: Seq<char>, gap: Seq<char>|
        #![trigger lower(scheme), all_space(gap)]
        lower(scheme) == lower("bearer"@) && all_space(gap) && gap.len() > 0 && t == scheme + gap + key
}

/// Whether a header carries this key: as it is, or behind the bearer scheme.
/// White space around either does not count.
pub open spec fn carries(h: HeaderView, key: Seq<char>) -> bool {
    &&& valid_utf8(h.value)
    &&& tight(key)
    &&& {
        ||| lower(h.name) == lower("x-api-key"@) && trim_spec(decode_utf8(h.value)) == key
        ||| lower(h.name) == lower("authorization"@) && is_bearer_of(
            trim_spec(decode_utf8(h.value)),
            key,
        )
    }
}

proof fn lemma_names_differ()
    ensures
        lower("x-api-key"@) != lower("authorization"@),
{
    reveal_strlit("x-api-key");
    reveal_strlit("authorization");
    assert(lower("x-api-key"@).len() == 9);
    assert(lower("authorization"@).len() == 13);
}

proof fn lemma_bearer(t: Seq<char>, key: Seq<char>)
    requires
        tight(t),
    ensures
        (bearer_rest(t) is Some && trim_spec(bearer_rest(t)->0) == key) <==> tight(key) && is_bearer_of(
            t,
            key,
        ),
{
    reveal_strlit("bearer");
    assert(lower("bearer"@).len() == 6);
    if bearer_rest(t) is Some && trim_spec(bearer_rest(t)->0) == key {
        let rest = t.skip(6);
        law_trim_is_tight(rest);
        let (a, b) = choose|a: Seq<char>, b: Seq<char>|
            #![trigger all_space(a), all_space(b)]
            all_space(a) && all_space(b) && rest == a + trim_spec(rest) + b;
        if b.len() > 0 {
            assert(rest.last() == b.last());
            assert(is_space_spec(b[b.len() - 1]));
            assert(t.last() == rest.last());
        }
        if key.len() == 0 {
            assert(rest =~= a + b);
            assert(a.len() > 0);
            assert(is_space_spec(a[a.len() - 1]));
            assert(t.last() == a.last());
        }
        assert(rest =~= a + key);
        assert(rest[0] == t[6]);
        if a.len() == 0 {
            assert(key[0] == rest[0]);
        }
        let scheme = t.take(6);
        assert(t =~= scheme + rest);
        assert(scheme + (a + key) =~= scheme + a + key);
        assert(lower(scheme) == lower("bearer"@) && all_space(a));
    }
    if tight(key) && is_bearer_of(t, key) {
        let (scheme, gap) = choose|scheme: Seq<char>, gap: Seq<char>|
            #![trigger lower(scheme), all_space(gap)]
            lower(scheme) == lower("bearer"@) && all_space(gap) && gap.len() > 0 && t == scheme + gap
                + key;
        assert(scheme.len() == 6) by {
            assert(lower(scheme).len() == scheme.len());
        }
        assert(t.take(6) =~= scheme);
        assert(t[6] == gap[0]);
        assert(is_space_spec(gap[0]));
        assert(t.skip(6) =~= gap + key + Seq::<char>::empty());
        law_trim_keeps_tight(gap, key, Seq::empty());
    }
}

proof fn lemma_carries(h: HeaderView, key: Seq<char>)
    requires
        may_carry(h),
        valid_utf8(h.value),
    ensures
        carries(h, key) <==> if is_api_key_header(h) {
            trim_spec(decode_utf8(h.value)) == key
        } else {
            bearer_rest(trim_spec(decode_utf8(h.value))) is Some && trim_spec(
                bearer_rest(trim_spec(decode_utf8(h.value)))->0,
            ) == key
        },
{
    lemma_names_differ();
    law_trim_is_tight(decode_utf8(h.value));
    lemma_bearer(trim_spec(decode_utf8(h.value)), key);
}

/// Whether a header decides on its own: it carries the key, or could but is
/// not UTF-8.
pub open spec fn decides(h: HeaderView, key: Seq<char>) -> bool {
    carries(h, key) || (may_carry(h) && !valid_utf8(h.value))
}

proof fn lemma_key_outcome(key: Seq<char>, headers: Seq<HeaderView>, saw: bool, i: int)
    requires
        0 <= i <= headers.len(),
        forall|j: int| 0 <= j < i ==> !decides(#[trigger] headers[j], key),
        i < headers.len() ==> decides(headers[i], key),
    ensures
        i < headers.len() && carries(headers[i], key) ==> api_key_spec(key, headers, saw)
            == Outcome::Accepted,
        i < headers.len() && !carries(headers[i], key) ==> api_key_spec(key, headers, saw)
            == Outcome::BadCreds,
        i == headers.len() && (saw || exists|j: int|
            0 <= j < headers.len() && may_carry(#[trigger] headers[j])) ==> api_key_spec(
            key,
            headers,
            saw,
        ) == Outcome::BadCreds,
        i == headers.len() && !saw && (forall|j: int|
            0 <= j < headers.len() ==> !may_carry(#[trigger] headers[j])) ==> api_key_spec(
            key,
            headers,
            saw,
        ) == Outcome::Missing,
    decreases headers.len(),
{
    lemma_names_differ();
    if headers.len() > 0 {
        let h = headers[0];
        if may_carry(h) && valid_utf8(h.value) {
            lemma_carries(h, key);
        }
        if i > 0 {
            let rest = headers.skip(1);
            assert(!decides(headers[0], key));
            assert forall|j: int| 0 <= j < i - 1 implies !decides(#[trigger] rest[j], key) by {
                assert(rest[j] == headers[j + 1]);
            }
            if i < headers.len() {
                assert(rest[i - 1] == headers[i]);
            }
            let next = saw || may_carry(h);
            lemma_key_outcome(key, rest, next, i - 1);
            if i == headers.len() {
                if exists|j: int| 0 <= j < headers.len() && may_carry(#[trigger] headers[j]) {
                    let j = choose|j: int| 0 <= j < headers.len() && may_carry(#[trigger] headers[j]);
                    if j > 0 {
                        assert(rest[j - 1] == headers[j]);
                    }
                }
                if forall|j: int| 0 <= j < headers.len() ==> !may_carry(#[trigger] headers[j]) {
                    assert forall|j: int| 0 <= j < rest.len() implies !may_carry(
                        #[trigger] rest[j],
                    ) by {
                        assert(rest[j] == headers[j + 1]);
                    }
                }
            }
        }
    }
}

/// The first header that decides is the one that counts: a key that is
/// carried is accepted, wherever among the headers it stands, and a header
/// that could carry it but is not UTF-8 is refused. Where none decides, the
/// request is refused if a header could have carried a key, and else it is
/// told that one is missing.
pub proof fn law_first_deciding_header_counts(key: Seq<char>, headers: Seq<HeaderView>, i: int)
    requires
        0 <= i <= headers.len(),
        forall|j: int| 0 <= j < i ==> !decides(#[trigger] headers[j], key),
        i < headers.len() ==> decides(headers[i], key),
    ensures
        i < headers.len() && carries(headers[i], key) ==> api_key_spec(key, headers, false)
            == Outcome::Accepted,
        i < headers.len() && !carries(headers[i], key) ==> api_key_spec(key, headers, false)
            == Outcome::BadCreds,
        i == headers.len() && (exists|j: int|
            0 <= j < headers.len() && may_carry(#[trigger] headers[j])) ==> api_key_spec(
            key,
            headers,
            false,
        ) == Outcome::BadCreds,
        i == headers.len() && (forall|j: int|
            0 <= j < headers.len() ==> !may_carry(#[trigger] headers[j])) ==> api_key_spec(
            key,
            headers,
            false,
        ) == Outcome::Missing,
{
    lemma_key_outcome(key, headers, false, i);
}

proof fn lemma_first_deciding(key: Seq<char>, headers: Seq<HeaderView>) -> (i: int)
    ensures
        0 <= i <= headers.len(),
        forall|j: int| 0 <= j < i ==> !decides(#[trigger] headers[j], key),
        i < headers.len() ==> decides(headers[i], key),
    decreases headers.len(),
{
    if headers.len() == 0 || decides(headers[0], key) {
        0
    } else {
        let rest = headers.skip(1);
        let i = lemma_first_deciding(key, rest);
        assert forall|j: int| 0 <= j < i + 1 implies !decides(#[trigger] headers[j], key) by {
            if j > 0 {
                assert(rest[j - 1] == headers[j]);
            }
        }
        if i < rest.len() {
            assert(rest[i] == headers[i + 1]);
        }
        i + 1
    }
}

/// Among headers in UTF-8, the key is accepted exactly when one carries it.
pub proof fn law_key_accepted_iff_carried(key: Seq<char>, headers: Seq<HeaderView>)
    requires
        forall|j: int| 0 <= j < headers.len() ==> valid_utf8((#[trigger] headers[j]).value),
    ensures
        api_key_spec(key, headers, false) == Outcome::Accepted <==> exists|j: int|
            0 <= j < headers.len() && carries(#[trigger] headers[j], key),
{
    let i = lemma_first_deciding(key, headers);
    lemma_key_outcome(key, headers, false, i);
    if i < headers.len() {
        assert(carries(headers[i], key));
    } else if exists|j: int| 0 <= j < headers.len() && carries(#[trigger] headers[j], key) {
        let j = choose|j: int| 0 <= j < headers.len() && carries(#[trigger] headers[j], key);
        assert(decides(headers[j], key));
    }
}

proof fn lemma_other_header(
    key: Seq<char>,
    before: Seq<HeaderView>,
    h: HeaderView,
    behind: Seq<HeaderView>,
    saw: bool,
)
    requires
        !may_carry(h),
    ensures
        api_key_spec(key, before + seq![h] + behind, saw) == api_key_spec(key, before + behind, saw),
    decreases before.len(),
{
    let with = before + seq![h] + behind;
    let without = before + behind;
    if before.len() == 0 {
        assert(with[0] == h);
        assert(with.skip(1) =~= behind);
        assert(without =~= behind);
    } else {
        let rest = before.skip(1);
        assert(with[0] == before[0] && without[0] == before[0]);
        assert(with.skip(1) =~= rest + seq![h] + behind);
        assert(without.skip(1) =~= rest + behind);
        lemma_other_header(key, rest, h, behind, true);
        lemma_other_header(key, rest, h, behind, saw);
    }
}

/// A header that could not carry a key changes nothing, wherever it stands.
pub proof fn law_other_headers_change_nothing(
    key: Seq<char>,
    before: Seq<HeaderView>,
    h: HeaderView,
    behind: Seq<HeaderView>,
)
    requires
        !may_carry(h),
    ensures
        api_key_spec(key, before + seq![h] + behind, false) == api_key_spec(key, before + behind, false),
{
    lemma_other_header(key, before, h, behind, false);
}

/// The session token in a header, if it is a cookie header that has one.
pub open spec fn token_of(h: HeaderView) -> Option<Seq<char>> {
    if lower(h.name) == lower("cookie"@) && valid_utf8(h.value) {
        session_cookie_in(decode_utf8(h.value))
    } else {
        None
    }
}

/// The first header with a session token counts, whatever stands before and
/// behind it.
pub proof fn law_first_token_counts(headers: Seq<HeaderView>, i: int)
    requires
        0 <= i <= headers.len(),
        forall|j: int| 0 <= j < i ==> token_of(#[trigger] headers[j]) is None,
        i < headers.len() ==> token_of(headers[i]) is Some,
    ensures
        i == headers.len() ==> token_in(headers) is None,
        i < headers.len() ==> token_in(headers) == token_of(headers[i]),
    decreases headers.len(),
{
    if i > 0 {
        let rest = headers.skip(1);
        assert(token_of(headers[0]) is None);
        assert forall|j: int| 0 <= j < i - 1 implies token_of(#[trigger] rest[j]) is None by {
            assert(rest[j] == headers[j + 1]);
        }
        if i < headers.len() {
            assert(rest[i - 1] == headers[i]);
        }
        law_first_token_counts(rest, i - 1);
    }
}

/// A plain byte of a form value stands for itself, `+` for a space, and `%`
/// with two hexadecimal digits of either case for a byte. A `%` without these
/// stands for itself.
pub proof fn law_form_byte(b: u8, v: u8, rest: Seq<u8>)
    requires
        b != 0x2b && b != 0x25,
    ensures
        form_bytes(seq![b] + rest) == seq![b] + form_bytes(rest),
        form_bytes(seq![0x2bu8] + rest) == seq![0x20u8] + form_bytes(rest),
        form_bytes(
            seq![0x25u8, upper_hex(v as int / 16) as u8, upper_hex(v as int % 16) as u8] + rest,
        ) == seq![v] + form_bytes(rest),
        form_bytes(
            seq![0x25u8, lower_hex(v as int / 16) as u8, lower_hex(v as int % 16) as u8] + rest,
        ) == seq![v] + form_bytes(rest),
        rest.len() < 2 ==> form_bytes(seq![0x25u8] + rest) == seq![0x25u8] + form_bytes(rest),
        !escape_at_front(seq![0x25u8] + rest) ==> form_bytes(seq![0x25u8] + rest) == seq![0x25u8]
            + form_bytes(rest),
{
    let s1 = seq![b] + rest;
    assert(s1.skip(1) =~= rest);
    let s2 = seq![0x2bu8] + rest;
    assert(s2.skip(1) =~= rest);
    let s3 = seq![0x25u8] + rest;
    assert(s3.skip(1) =~= rest);
    let u = seq![0x25u8, upper_hex(v as int / 16) as u8, upper_hex(v as int % 16) as u8] + rest;
    assert(u.skip(3) =~= rest);
    assert(u[0] == 0x25 && u[1] == upper_hex(v as int / 16) as u8 && u[2] == upper_hex(
        v as int % 16,
    ) as u8);
    let l = seq![0x25u8, lower_hex(v as int / 16) as u8, lower_hex(v as int % 16) as u8] + rest;
    assert(l.skip(3) =~= rest);
    assert(l[0] == 0x25 && l[1] == lower_hex(v as int / 16) as u8 && l[2] == lower_hex(
        v as int % 16,
    ) as u8);
}

/// A login form as a browser writes it.
pub open spec fn form_of(user: Seq<char>, pass: Seq<char>, next: Seq<char>) -> Seq<char> {
    "user="@ + query_bytes(encode_utf8(user)) + "&pass="@ + query_bytes(encode_utf8(pass)) + "&next="@
        + query_bytes(encode_utf8(next))
}

proof fn lemma_field(name: Seq<char>, value: Seq<char>)
    requires
        !name.contains('='),
        !name.contains('&'),
    ensures
        ({
            let pair = name + seq!['='] + query_bytes(encode_utf8(value));
            &&& !pair.contains('&')
            &&& pair_field(pair, name) == Some(value)
            &&& forall|other: Seq<char>| other != name ==> #[trigger] pair_field(pair, other) is None
        }),
{
    let q = query_bytes(encode_utf8(value));
    let pair = name + seq!['='] + q;
    lemma_query_chars(encode_utf8(value));
    law_login_redirect_returns(value);
    law_cut_first_of_joined(name, '=', q);
    if pair.contains('&') {
        let k = choose|k: int| 0 <= k < pair.len() && pair[k] == '&';
        if k < name.len() {
            assert(name[k] == '&');
        } else if k > name.len() {
            assert(pair[k] == q[k - name.len() - 1]);
        }
    }
}

/// The fields of a form that a browser wrote are the texts that the user
/// entered, whatever characters they hold.
pub proof fn law_form_reads_back(user: Seq<char>, pass: Seq<char>, next: Seq<char>)
    ensures
        field_in(form_of(user, pass, next), "user"@) == Some(user),
        field_in(form_of(user, pass, next), "pass"@) == Some(pass),
        field_in(form_of(user, pass, next), "next"@) == Some(next),
        form_matches(form_of(user, pass, next), user, pass),
        next_of_form(form_of(user, pass, next)) == safe_next_spec(next),
        forall|u: Seq<char>, p: Seq<char>| #[trigger]
            form_matches(form_of(user, pass, next), u, p) ==> u == user && p == pass,
{
    reveal_strlit("user=");
    reveal_strlit("&pass=");
    reveal_strlit("&next=");
    reveal_strlit("user");
    reveal_strlit("pass");
    reveal_strlit("next");
    assert("user"@[0] == 'u' && "pass"@[0] == 'p' && "next"@[0] == 'n');
    lemma_field("user"@, user);
    lemma_field("pass"@, pass);
    lemma_field("next"@, next);
    let a = "user"@ + seq!['='] + query_bytes(encode_utf8(user));
    let b = "pass"@ + seq!['='] + query_bytes(encode_utf8(pass));
    let c = "next"@ + seq!['='] + query_bytes(encode_utf8(next));
    let body = form_of(user, pass, next);
    assert(body =~= a + seq!['&'] + (b + seq!['&'] + c));
    lemma_split_whole(a, '&');
    lemma_split_whole(b, '&');
    lemma_split_whole(c, '&');
    lemma_field_alone(a, "user"@);
    lemma_field_alone(a, "pass"@);
    lemma_field_alone(a, "next"@);
    lemma_field_alone(b, "pass"@);
    lemma_field_alone(b, "next"@);
    lemma_field_alone(c, "next"@);
    law_later_fields_ignored(a, b + seq!['&'] + c, "user"@);
    law_later_fields_ignored(a, b + seq!['&'] + c, "pass"@);
    law_later_fields_ignored(a, b + seq!['&'] + c, "next"@);
    law_later_fields_ignored(b, c, "pass"@);
    law_later_fields_ignored(b, c, "next"@);
}

proof fn lemma_field_alone(pair: Seq<char>, name: Seq<char>)
    requires
        !pair.contains('&'),
    ensures
        field_in(pair, name) == pair_field(pair, name),
{
    lemma_split_whole(pair, '&');
    let one = seq![pair];
    assert(one.drop_last() =~= Seq::empty());
    assert(first_field(one.drop_last(), name) is None);
}

/// A login with the right credentials grants a cookie, and the next request
/// that carries the cookie, among others and anywhere in its headers, is let
/// through until the session ends.
pub proof fn law_login_opens_the_way(
    user: Seq<char>,
    pass: Seq<char>,
    pre: SessionStore,
    mid: SessionStore,
    post: SessionStore,
    login_path: Seq<char>,
    first_headers: Seq<HeaderView>,
    body: Seq<u8>,
    m1: Moment,
    r1: ActionView,
    method: Seq<char>,
    path: Seq<char>,
    headers: Seq<HeaderView>,
    i: int,
    m2: Moment,
    r2: ActionView,
)
    requires
        m1.t2 <= max_nanos(),
        path_only(login_path) == LOGIN_PATH@,
        form_matches(header_text(body), user, pass),
        session_decided(user, pass, pre, mid, "POST"@, login_path, first_headers, body, m1, r1),
        path_only(path) != LOGIN_PATH@,
        path_only(path) != LOGOUT_PATH@,
        0 <= i < headers.len(),
        forall|j: int| 0 <= j < i ==> token_of(#[trigger] headers[j]) is None,
        token_of(headers[i]) == Some(hex_text(m1.raw@)),
        m2.t1 < m1.t2 + session_ttl_nanos(),
        session_decided(user, pass, mid, post, method, path, headers, Seq::empty(), m2, r2),
    ensures
        r1 matches ActionView::Redirect { set_cookie, .. } && set_cookie == Some(
            set_cookie_spec(hex_text(m1.raw@)),
        ),
        has_prefix(set_cookie_spec(hex_text(m1.raw@)), cookie_pair(hex_text(m1.raw@))),
        r2 is Forward,
{
    reveal_strlit("/__krot/login");
    reveal_strlit("/__krot/logout");
    assert(LOGIN_PATH@.len() != LOGOUT_PATH@.len());
    law_first_token_counts(headers, i);
    let t = hex_text(m1.raw@);
    assert(set_cookie_spec(t).take(cookie_pair(t).len() as int) =~= cookie_pair(t));
}

/// Leaving ends the session of the cookie that the request carries: the same
/// cookie then leads back to the login page, with the path to return to.
pub proof fn law_logout_closes_the_way(
    user: Seq<char>,
    pass: Seq<char>,
    pre: SessionStore,
    mid: SessionStore,
    post: SessionStore,
    method1: Seq<char>,
    path1: Seq<char>,
    headers: Seq<HeaderView>,
    body: Seq<u8>,
    m1: Moment,
    r1: ActionView,
    method2: Seq<char>,
    path2: Seq<char>,
    m2: Moment,
    r2: ActionView,
)
    requires
        path_only(path1) == LOGOUT_PATH@,
        session_decided(user, pass, pre, mid, method1, path1, headers, body, m1, r1),
        path_only(path2) != LOGIN_PATH@,
        path_only(path2) != LOGOUT_PATH@,
        session_decided(user, pass, mid, post, method2, path2, headers, body, m2, r2),
    ensures
        r1 matches ActionView::Redirect { location, set_cookie } && location == "/"@ && set_cookie
            == Some(clear_cookie_spec()),
        r2 matches ActionView::Redirect { location, set_cookie } && location == login_redirect(path2)
            && set_cookie is None,
{
}

/// A login form with other credentials opens no session: the page is shown
/// again, with a message and the same target, and the store stays as it was.
/// Asking for the page shows it without a message.
pub proof fn law_wrong_credentials_open_nothing(
    user: Seq<char>,
    pass: Seq<char>,
    pre: SessionStore,
    post: SessionStore,
    method: Seq<char>,
    path: Seq<char>,
    headers: Seq<HeaderView>,
    body: Seq<u8>,
    m: Moment,
    r: ActionView,
)
    requires
        path_only(path) == LOGIN_PATH@,
        session_decided(user, pass, pre, post, method, path, headers, body, m, r),
        lower(method) == lower("POST"@) ==> !form_matches(header_text(body), user, pass),
    ensures
        post == pre,
        r is ServeLoginPage,
        lower(method) == lower("POST"@) ==> r->error == Some("Invalid username or password."@) && r->next
            == next_of_form(header_text(body)),
        lower(method) != lower("POST"@) ==> r->error is None && r->next == next_of_query(path),
{
    reveal_strlit("/__krot/login");
    reveal_strlit("/__krot/logout");
    assert(LOGIN_PATH@.len() != LOGOUT_PATH@.len());
}

/// A request under a live session is let through whatever it asks for and
/// whatever its method, unless it asks for the login or logout path; without
/// one it is sent to the login page.
pub proof fn law_session_decides(
    user: Seq<char>,
    pass: Seq<char>,
    pre: SessionStore,
    post: SessionStore,
    method: Seq<char>,
    path: Seq<char>,
    headers: Seq<HeaderView>,
    body: Seq<u8>,
    m: Moment,
    r: ActionView,
)
    requires
        path_only(path) != LOGIN_PATH@,
        path_only(path) != LOGOUT_PATH@,
        session_decided(user, pass, pre, post, method, path, headers, body, m, r),
    ensures
        r is Forward <==> token_in(headers) is Some && pre.is_live(token_in(headers)->0, m.t1),
        !(r is Forward) ==> r == (ActionView::Redirect {
            location: login_redirect(path),
            set_cookie: None,
        }),
{
}

/// The right credentials, whatever the case of the method, lead to the target
/// that the form names, with a cookie for the new session; the sessions of
/// others stay as they are.
pub proof fn law_login_leads_on(
    user: Seq<char>,
    pass: Seq<char>,
    next: Seq<char>,
    pre: SessionStore,
    post: SessionStore,
    method: Seq<char>,
    path: Seq<char>,
    headers: Seq<HeaderView>,
    m: Moment,
    r: ActionView,
    other: Seq<char>,
    t: u128,
)
    requires
        m.t2 <= max_nanos(),
        m.t1 <= t,
        path_only(path) == LOGIN_PATH@,
        lower(method) == lower("POST"@),
        session_decided(
            user,
            pass,
            pre,
            post,
            method,
            path,
            headers,
            encode_utf8(form_of(user, pass, next)),
            m,
            r,
        ),
        other != hex_text(m.raw@),
    ensures
        r == (ActionView::Redirect {
            location: safe_next_spec(next),
            set_cookie: Some(set_cookie_spec(hex_text(m.raw@))),
        }),
        post.is_live(other, t) == pre.is_live(other, t),
        post.is_live(hex_text(m.raw@), t) <==> t < m.t2 + session_ttl_nanos(),
{
    broadcast use vstd::utf8::encode_utf8_valid_utf8, vstd::utf8::encode_utf8_decode_utf8;

    reveal_strlit("/__krot/login");
    reveal_strlit("/__krot/logout");
    assert(LOGIN_PATH@.len() != LOGOUT_PATH@.len());
    law_form_reads_back(user, pass, next);
    assert(header_text(encode_utf8(form_of(user, pass, next))) == form_of(user, pass, next));
}

/// A path is what stands before its first question mark.
pub proof fn law_query_is_dropped(path: Seq<char>, query: Seq<char>)
    requires
        !path.contains('?'),
    ensures
        path_only(path) == path,
        path_only(path + seq!['?'] + query) == path,
{
    law_cut_first_of_joined(path, '?', query);
    crate::text_laws::law_cut_first(path, '?');
}

/// A session lasts eight hours from its start, and from each request that it
/// was used for.
pub proof fn law_session_lasts_eight_hours(
    pre: SessionStore,
    post: SessionStore,
    used: SessionStore,
    raw: Seq<u8>,
    t1: u128,
    t2: u128,
    token: Seq<char>,
    t3: u128,
    t4: u128,
    t: u128,
)
    requires
        t2 <= max_nanos(),
        t4 <= max_nanos(),
        pre.created(post, raw, t1, t2, token),
        post.validated(used, token, t3, t4, post.is_live(token, t3)),
    ensures
        post.is_live(token, t) <==> t < t2 + 8 * 3600 * 1_000_000_000,
        t3 < t2 + 8 * 3600 * 1_000_000_000 ==> (used.is_live(token, t) <==> t < t4 + 8 * 3600
            * 1_000_000_000),
        t3 >= t2 + 8 * 3600 * 1_000_000_000 ==> !used.is_live(token, t),
{
}

/// A target is kept when it is a path on this site: it begins with one slash
/// and holds no line break. Anything else leads to the root.
pub proof fn law_only_local_targets_are_kept(s: Seq<char>, rest: Seq<char>, i: int)
    ensures
        safe_next_spec(s) == s || safe_next_spec(s) == "/"@,
        s.len() == 0 || s[0] != '/' ==> safe_next_spec(s) == "/"@,
        safe_next_spec(seq!['/', '/'] + rest) == "/"@,
        0 <= i < s.len() && (s[i] == '\r' || s[i] == '\n') ==> safe_next_spec(s) == "/"@,
        rest.len() > 0 && rest[0] != '/' && !rest.contains('\r') && !rest.contains('\n') ==> safe_next_spec(
            seq!['/'] + rest,
        ) == seq!['/'] + rest,
{
    let doubled = seq!['/', '/'] + rest;
    assert(doubled[0] == '/' && doubled[1] == '/');
    let local = seq!['/'] + rest;
    if rest.len() > 0 {
        assert(local[1] == rest[0]);
    }
    if !rest.contains('\r') && !rest.contains('\n') {
        if local.contains('\r') {
            let k = choose|k: int| 0 <= k < local.len() && local[k] == '\r';
            assert(rest[k - 1] == '\r');
        }
        if local.contains('\n') {
            let k = choose|k: int| 0 <= k < local.len() && local[k] == '\n';
            assert(rest[k - 1] == '\n');
        }
    }
    if 0 <= i < s.len() {
        assert(s.contains(s[i]));
    }
}

/// In the query of a redirect, letters, digits and `-_.~/:@,;=` stand for
/// themselves; any other byte is written as `%` and two digits.
pub proof fn law_query_bytes(b: u8, before: Seq<u8>)
    ensures
        ({
            let c = b as char;
            let plain = 'a' <= c <= 'z' || 'A' <= c <= 'Z' || '0' <= c <= '9' || c == '-' || c == '_' || c
                == '.' || c == '~' || c == '/' || c == ':' || c == '@' || c == ',' || c == ';' || c == '=';
            &&& plain ==> query_bytes(seq![b]) == seq![c]
            &&& !plain ==> query_bytes(seq![b]) == seq![
                '%',
                upper_hex(b as int / 16),
                upper_hex(b as int % 16),
            ]
            &&& query_bytes(before.push(b)) == query_bytes(before) + query_bytes(seq![b])
        }),
{
    let none = Seq::<u8>::empty();
    assert(seq![b].drop_last() =~= none);
    assert(query_bytes(none) =~= Seq::empty());
    assert(query_bytes(seq![b]) =~= crate::client::local_auth::query_byte(b));
    assert(before.push(b).drop_last() =~= before);
}

/// The first pair of a query that is named `next` counts; pairs before and
/// behind it do not. A query without one leads to the root.
pub proof fn law_first_next_counts(pairs: Seq<Seq<char>>, i: int, value: Seq<char>)
    requires
        0 <= i <= pairs.len(),
        forall|j: int| 0 <= j < i ==> !has_prefix(#[trigger] pairs[j], "next="@),
    ensures
        i == pairs.len() ==> first_next(pairs) is None,
        i < pairs.len() && pairs[i] == "next="@ + value ==> first_next(pairs) == Some(value),
    decreases i,
{
    if i > 0 {
        let rest = pairs.skip(1);
        assert(!has_prefix(pairs[0], "next="@));
        law_strip("next="@, pairs[0]);
        assert forall|j: int| 0 <= j < i - 1 implies !has_prefix(#[trigger] rest[j], "next="@) by {
            assert(rest[j] == pairs[j + 1]);
        }
        law_first_next_counts(rest, i - 1, value);
        if i < pairs.len() {
            assert(rest[i - 1] == pairs[i]);
        }
    } else {
        law_strip("next="@, value);
    }
}

/// A login page without a query, and a form without a target, lead to the root.
pub proof fn law_root_is_the_default(path: Seq<char>, body: Seq<char>)
    ensures
        !path.contains('?') ==> next_of_query(path) == "/"@,
        field_in(body, "next"@) is None ==> next_of_form(body) == "/"@,
        field_in(body, "next"@) is Some ==> next_of_form(body) == safe_next_spec(field_in(body, "next"@)->0),
        field_in(body, "pass"@) is None ==> form_pass(body).len() == 0,
        field_in(body, "pass"@) is Some ==> form_pass(body) == field_in(body, "pass"@)->0,
        field_in(body, "user"@) is None ==> forall|u: Seq<char>, p: Seq<char>|
            !#[trigger] form_matches(body, u, p),
{
    law_cut_first(path, '?');
}

/// The cookie of a session is kept from scripts, holds for the whole site, and
/// lasts as long as the session; the cookie that ends it lasts no time.
pub proof fn law_session_cookies(token: Seq<char>)
    ensures
        set_cookie_spec(token) == "__krot_session"@ + "="@ + token + "; HttpOnly; SameSite=Lax; Path=/; Max-Age="@
            + dec(28800),
        clear_cookie_spec() == "__krot_session"@ + "=; HttpOnly; SameSite=Lax; Path=/; Max-Age=0"@,
{
}

/// A redirect names its target and sets at most one cookie; a page is sent
/// whole, with its length. Neither may be kept by a cache.
pub proof fn law_answers(location: Seq<char>, cookie: Seq<char>, page: Seq<char>)
    ensures
        redirect_spec(location, None) == encode_utf8(
            "HTTP/1.1 302 Found\r\nLocation: "@ + location + "\r\n"@
                + "Content-Length: 0\r\nCache-Control: no-store\r\nConnection: close\r\n\r\n"@,
        ),
        redirect_spec(location, Some(cookie)) == encode_utf8(
            "HTTP/1.1 302 Found\r\nLocation: "@ + location + "\r\n"@ + ("Set-Cookie: "@ + cookie + "\r\n"@)
                + "Content-Length: 0\r\nCache-Control: no-store\r\nConnection: close\r\n\r\n"@,
        ),
        ({
            let body = encode_utf8(page);
            let r = html_response_spec(page);
            let head = encode_utf8(
                "HTTP/1.1 200 OK\r\nContent-Type: text/html; charset=utf-8\r\nContent-Length: "@ + dec(
                    body.len(),
                ) + "\r\nCache-Control: no-store\r\nConnection: close\r\n\r\n"@,
            );
            &&& r.take(head.len() as int) == head
            &&& r.skip(head.len() as int) == body
        }),
{
    assert("HTTP/1.1 302 Found\r\nLocation: "@ + location + "\r\n"@ + Seq::<char>::empty()
        =~= "HTTP/1.1 302 Found\r\nLocation: "@ + location + "\r\n"@);
    let body = encode_utf8(page);
    let r = html_response_spec(page);
    let head = encode_utf8(
        "HTTP/1.1 200 OK\r\nContent-Type: text/html; charset=utf-8\r\nContent-Length: "@ + dec(body.len())
            + "\r\nCache-Control: no-store\r\nConnection: close\r\n\r\n"@,
    );
    assert(r.take(head.len() as int) =~= head);
    assert(r.skip(head.len() as int) =~= body);
}

} // verus!
