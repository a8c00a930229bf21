//! What holds of the login page, whatever is shown on it.

use crate::client::login_laws::{law_unescape_escaped, stands_at};
use crate::client::login_page::{
    error_block, escaped, law_escaped_is_inert, page_spec, LOGIN_PATH, PAGE_FIELDS, PAGE_FORM, PAGE_HEAD, PAGE_TAIL,
};
use vstd::prelude::*;

verus! {

/// The number of times `c` occurs in `s`.
pub open spec fn count_of(s: Seq<char>, c: char) -> nat
    decreases s.len(),
{
    if s.len() == 0 {
        0
    } else {
        count_of(s.drop_last(), c) + if s.last() == c {
            1nat
        } else {
            0nat
        }
    }
}

proof fn lemma_count_joined(a: Seq<char>, b: Seq<char>, c: char)
    ensures
        count_of(a + b, c) == count_of(a, c) + count_of(b, c),
    decreases b.len(),
{
    if b.len() == 0 {
        assert(a + b =~= a);
    } else {
        assert((a + b).drop_last() =~= a + b.drop_last());
        assert((a + b).last() == b.last());
        lemma_count_joined(a, b.drop_last(), c);
    }
}

proof fn lemma_count_none(s: Seq<char>, c: char)
    requires
        forall|i: int| 0 <= i < s.len() ==> #[trigger] s[i] != c,
    ensures
        count_of(s, c) == 0,
    decreases s.len(),
{
    if s.len() > 0 {
        assert(s.last() == s[s.len() - 1]);
        assert forall|i: int| 0 <= i < s.drop_last().len() implies #[trigger] s.drop_last()[i]
            != c by {
            assert(s.drop_last()[i] == s[i]);
        }
        lemma_count_none(s.drop_last(), c);
    }
}

proof fn lemma_count_page(next: Seq<char>, error: Option<Seq<char>>, c: char)
    requires
        c == '<' || c == '"',
    ensures
        count_of(page_spec(next, error), c) == count_of(PAGE_HEAD@, c) + count_of(LOGIN_PATH@, c)
            + count_of(PAGE_FORM@, c) + count_of(PAGE_FIELDS@, c) + count_of(PAGE_TAIL@, c) + if error
            is Some {
            count_of("<p class=\"err\">"@, c) + count_of("</p>"@, c)
        } else {
            0nat
        },
{
    let h = PAGE_HEAD@;
    let p = LOGIN_PATH@;
    let f = PAGE_FORM@;
    let e = error_block(error);
    let d = PAGE_FIELDS@;
    let n = escaped(next);
    let t = PAGE_TAIL@;
    lemma_count_joined(h, p, c);
    lemma_count_joined(h + p, f, c);
    lemma_count_joined(h + p + f, e, c);
    lemma_count_joined(h + p + f + e, d, c);
    lemma_count_joined(h + p + f + e + d, n, c);
    lemma_count_joined(h + p + f + e + d + n, t, c);
    law_escaped_is_inert(next);
    lemma_count_none(n, c);
    if error is Some {
        let m = escaped(error->0);
        law_escaped_is_inert(error->0);
        lemma_count_none(m, c);
        lemma_count_joined("<p class=\"err\">"@, m, c);
        lemma_count_joined("<p class=\"err\">"@ + m, "</p>"@, c);
    }
}

/// What is shown on the page opens no tag and ends no attribute: the numbers
/// of `<` and of `"` depend on whether there is a message, and on nothing else.
pub proof fn law_page_markup_is_fixed(
    n1: Seq<char>,
    e1: Option<Seq<char>>,
    n2: Seq<char>,
    e2: Option<Seq<char>>,
)
    requires
        e1 is Some == e2 is Some,
    ensures
        count_of(page_spec(n1, e1), '<') == count_of(page_spec(n2, e2), '<'),
        count_of(page_spec(n1, e1), '"') == count_of(page_spec(n2, e2), '"'),
{
    lemma_count_page(n1, e1, '<');
    lemma_count_page(n1, e1, '"');
    lemma_count_page(n2, e2, '<');
    lemma_count_page(n2, e2, '"');
}

/// Whether a `<` with these two characters behind it stands at `k`.
spec fn tag_at(s: Seq<char>, k: int, b: char, c: char) -> bool {
    0 <= k && k + 2 < s.len() && s[k] == '<' && s[k + 1] == b && s[k + 2] == c
}

/// Whether `t" v` stands at `k`.
spec fn mark_at(s: Seq<char>, k: int) -> bool {
    0 <= k && k + 3 < s.len() && s[k] == 't' && s[k + 1] == '"' && s[k + 2] == ' ' && s[k + 3]
        == 'v'
}

/// Whether one of the marks that the laws look for stands at `k`.
spec fn marked(s: Seq<char>, k: int) -> bool {
    tag_at(s, k, 's', 'c') || tag_at(s, k, 'p', ' ') || mark_at(s, k)
}

/// Whether the last two characters of `s` begin no mark.
spec fn closed_end(s: Seq<char>) -> bool {
    &&& s.len() >= 3
    &&& s[s.len() - 1] != '<' && s[s.len() - 2] != '<'
    &&& s[s.len() - 1] == '"' ==> s[s.len() - 2] != 't'
    &&& s[s.len() - 2] == '"' ==> s[s.len() - 3] != 't'
}

/// Whether the first two characters of `s` end no mark.
spec fn closed_start(s: Seq<char>) -> bool {
    s.len() > 0 && s[0] == '"' ==> s.len() > 1 && s[1] != ' '
}

proof fn lemma_marked_joined(x: Seq<char>, y: Seq<char>, k: int)
    requires
        closed_end(x),
        closed_start(y),
    ensures
        mark_at(x + y, k) ==> mark_at(x, k) || mark_at(y, k - x.len()),
        tag_at(x + y, k, 's', 'c') ==> tag_at(x, k, 's', 'c') || tag_at(y, k - x.len(), 's', 'c'),
        tag_at(x + y, k, 'p', ' ') ==> tag_at(x, k, 'p', ' ') || tag_at(y, k - x.len(), 'p', ' '),
{
}

proof fn lemma_head(k: int)
    ensures
        !marked(PAGE_HEAD@, k),
        closed_end(PAGE_HEAD@),
{
    reveal_strlit("<!doctype html>\n<html lang=\"en\">\n<head>\n<meta charset=\"utf-8\">\n<meta name=\"viewport\" content=\"width=device-width,initial-scale=1\">\n<title>krot · sign in</title>\n<style>\n  :root { color-scheme: dark; }\n  * { box-sizing: border-box; }\n  html,body { height: 100%; margin: 0; }\n  body {\n    background: #1a1410;\n    color: #e8dcd0;\n    font: 15px/1.4 -apple-system, BlinkMacSystemFont, \"Segoe UI\", Inter, system-ui, sans-serif;\n    display: grid; place-items: center;\n  }\n  .card {\n    width: min(360px, 92vw);\n    background: #221913;\n    border: 1px solid #3a2a20;\n    border-radius: 14px;\n    padding: 32px 28px;\n    box-shadow: 0 12px 40px rgba(0,0,0,.35);\n  }\n  .brand { display: flex; align-items: center; gap: 12px; margin-bottom: 24px; }\n  .brand .mole { width: 48px; height: 48px; flex: 0 0 auto; }\n  .brand .word { display: flex; flex-direction: column; line-height: 1; }\n  .brand .word .name { font-size: 26px; font-weight: 800; letter-spacing: -0.5px; }\n  .brand .word .name em { font-style: normal; color: #e89a9a; }\n  .brand .word .trail { margin-top: 4px; width: 100%; height: 8px; display: block; }\n  .brand .word .tag { margin-top: 6px; font-size: 9px; letter-spacing: 3px; color: #8a7a6a; text-transform: uppercase; }\n  label { display: block; font-size: 12px; text-transform: uppercase; letter-spacing: 1px; color: #a89a8a; margin: 14px 0 6px; }\n  input[type=text], input[type=password] {\n    width: 100%; padding: 10px 12px;\n    background: #1a1410; color: #f5ece0;\n    border: 1px solid #3a2a20; border-radius: 8px;\n    font: inherit;\n  }\n  input:focus { outline: none; border-color: #e89a9a; }\n  button {\n    margin-top: 20px; width: 100%;\n    padding: 11px 14px; border: 0; border-radius: 8px;\n    background: #e89a9a; color: #2b1a14;\n    font-weight: 700; font-size: 15px; cursor: pointer;\n  }\n  button:hover { background: #f0b0b0; }\n  .err { margin: 14px 0 0; padding: 10px 12px; background: #3a1a1a; border: 1px solid #7a2a2a; border-radius: 8px; color: #f5b0b0; font-size: 13px; }\n  .foot { margin-top: 22px; text-align: center; font-size: 11px; color: #6a5a4a; }\n</style>\n</head>\n<body>\n  <form class=\"card\" method=\"post\" action=\"");
}

proof fn lemma_form(k: int)
    ensures
        !marked(PAGE_FORM@, k),
        closed_end(PAGE_FORM@),
        closed_start(PAGE_FORM@),
{
    reveal_strlit("\">\n    <div class=\"brand\">\n      <svg class=\"mole\" viewBox=\"0 0 120 120\" aria-hidden=\"true\">\n        <ellipse cx=\"60\" cy=\"70\" rx=\"42\" ry=\"34\" fill=\"#5a3a28\"/>\n        <circle cx=\"60\" cy=\"50\" r=\"30\" fill=\"#6a4a34\"/>\n        <path d=\"M42 46 h10 M68 46 h10\" stroke=\"#2b1a12\" stroke-width=\"3\" stroke-linecap=\"round\"/>\n        <path d=\"M55 62 L60 70 L65 62 Z\" fill=\"#e89a9a\"/>\n        <circle cx=\"60\" cy=\"66\" r=\"1.6\" fill=\"#2b1a12\"/>\n        <ellipse cx=\"34\" cy=\"82\" rx=\"10\" ry=\"8\" fill=\"#e89a9a\"/>\n        <ellipse cx=\"86\" cy=\"82\" rx=\"10\" ry=\"8\" fill=\"#e89a9a\"/>\n      </svg>\n      <div class=\"word\">\n        <div class=\"name\">kr<em>o</em>t</div>\n        <svg class=\"trail\" viewBox=\"0 0 160 8\" preserveAspectRatio=\"none\" aria-hidden=\"true\">\n          <path d=\"M2 4 Q 12 0, 22 4 T 42 4 T 62 4 T 82 4 T 102 4 T 122 4 T 142 4\"\n                fill=\"none\" stroke=\"#e89a9a\" stroke-width=\"1.5\" stroke-linecap=\"round\"/>\n          <circle cx=\"30\" cy=\"6\" r=\"0.8\" fill=\"#8a5a4a\"/>\n          <circle cx=\"70\" cy=\"6\" r=\"0.8\" fill=\"#8a5a4a\"/>\n          <circle cx=\"110\" cy=\"6\" r=\"0.8\" fill=\"#8a5a4a\"/>\n          <circle cx=\"152\" cy=\"4\" r=\"2\" fill=\"#2b1a12\" stroke=\"#e89a9a\" stroke-width=\"1\"/>\n        </svg>\n        <div class=\"tag\">tunnels that dig</div>\n      </div>\n    </div>\n    ");
}

proof fn lemma_fields(k: int)
    ensures
        !tag_at(PAGE_FIELDS@, k, 's', 'c'),
        !tag_at(PAGE_FIELDS@, k, 'p', ' '),
        mark_at(PAGE_FIELDS@, k) ==> k == PAGE_FIELDS@.len() - 10,
        closed_end(PAGE_FIELDS@),
        closed_start(PAGE_FIELDS@),
        PAGE_FIELDS@.last() == '"',
        PAGE_FIELDS@[PAGE_FIELDS@.len() - 2] == '=',
        PAGE_FIELDS@.len() > 19,
        PAGE_FIELDS@.skip(PAGE_FIELDS@.len() - 19) == "name=\"next\" value=\""@,
{
    reveal_strlit("\n    <label for=\"u\">Username</label>\n    <input id=\"u\" name=\"user\" type=\"text\" autocomplete=\"username\" autofocus required>\n    <label for=\"p\">Password</label>\n    <input id=\"p\" name=\"pass\" type=\"password\" autocomplete=\"current-password\" required>\n    <input type=\"hidden\" name=\"next\" value=\"");
    reveal_strlit("name=\"next\" value=\"");
    assert(PAGE_FIELDS@.skip(PAGE_FIELDS@.len() - 19) =~= "name=\"next\" value=\""@);
}

proof fn lemma_tail(k: int)
    ensures
        !marked(PAGE_TAIL@, k),
        closed_start(PAGE_TAIL@),
        PAGE_TAIL@.len() > 2,
        PAGE_TAIL@[0] == '"',
{
    reveal_strlit("\">\n    <button type=\"submit\">Sign in</button>\n    <div class=\"foot\">protected by krot</div>\n  </form>\n</body>\n</html>\n");
}

proof fn lemma_path(k: int)
    ensures
        !marked(LOGIN_PATH@, k),
        closed_end(LOGIN_PATH@),
        closed_start(LOGIN_PATH@),
{
    reveal_strlit("/__krot/login");
}

proof fn lemma_block(error: Option<Seq<char>>, k: int)
    ensures
        ({
            let e = error_block(error);
            &&& !tag_at(e, k, 's', 'c')
            &&& !mark_at(e, k)
            &&& tag_at(e, k, 'p', ' ') ==> error is Some && k == 0
            &&& error is Some ==> closed_end(e)
            &&& closed_start(e)
        }),
{
    reveal_strlit("<p class=\"err\">");
    reveal_strlit("</p>");
    if error is Some {
        let m = escaped(error->0);
        let e = error_block(error);
        law_escaped_is_inert(error->0);
        assert(e.len() == 15 + m.len() + 4);
        assert forall|j: int| 15 <= j < 15 + m.len() implies e[j] == m[j - 15] by {}
        assert(e[e.len() - 4] == '<' && e[e.len() - 3] == '/' && e[e.len() - 2] == 'p' && e[e.len()
            - 1] == '>');
        assert(0 <= k && k + 3 < e.len() ==> k + 1 < 15 || 15 <= k + 1 < 15 + m.len() || k + 1
            >= 15 + m.len());
    }
}

proof fn lemma_next(next: Seq<char>, k: int)
    ensures
        !marked(escaped(next), k),
        closed_start(escaped(next)),
        closed_end(PAGE_FIELDS@ + escaped(next)),
        forall|x: Seq<char>| closed_end(#[trigger] (x + PAGE_FIELDS@ + escaped(next))),
{
    law_escaped_is_inert(next);
    lemma_fields(0);
}

/// Where a mark stands on the page: the field `next`, or the message.
proof fn lemma_page(next: Seq<char>, error: Option<Seq<char>>, k: int)
    ensures
        ({
            let s = page_spec(next, error);
            let e0 = PAGE_HEAD@.len() + LOGIN_PATH@.len() + PAGE_FORM@.len();
            &&& !tag_at(s, k, 's', 'c')
            &&& tag_at(s, k, 'p', ' ') ==> error is Some && k == e0
            &&& mark_at(s, k) ==> k == e0 + error_block(error).len() + PAGE_FIELDS@.len() - 10
        }),
{
    let h = PAGE_HEAD@;
    let p = LOGIN_PATH@;
    let f = PAGE_FORM@;
    let e = error_block(error);
    let d = PAGE_FIELDS@;
    let n = escaped(next);
    let t = PAGE_TAIL@;
    let s1 = h + p;
    let s2 = s1 + f;
    let s3 = s2 + e;
    let s4 = s3 + d;
    let s5 = s4 + n;
    lemma_head(k);
    lemma_path(k - h.len());
    lemma_form(k - s1.len());
    lemma_block(error, k - s2.len());
    lemma_fields(k - s3.len());
    lemma_next(next, k - s4.len());
    lemma_tail(k - s5.len());
    assert(closed_end(s1));
    assert(closed_end(s2));
    assert(closed_end(s3)) by {
        if error is None {
            assert(s3 =~= s2);
        }
    }
    assert(closed_end(s4));
    assert(closed_end(s5));
    lemma_marked_joined(h, p, k);
    lemma_marked_joined(s1, f, k);
    lemma_marked_joined(s2, e, k);
    lemma_marked_joined(s3, d, k);
    lemma_marked_joined(s4, n, k);
    lemma_marked_joined(s5, t, k);
}

/// No script element stands on the page.
pub proof fn law_page_has_no_script(next: Seq<char>, error: Option<Seq<char>>, i: int)
    ensures
        !stands_at(page_spec(next, error), i, "<script"@),
{
    reveal_strlit("<script");
    let s = page_spec(next, error);
    lemma_page(next, error, i);
    if stands_at(s, i, "<script"@) {
        let w = s.subrange(i, i + 7);
        assert(w[0] == s[i] && w[1] == s[i + 1] && w[2] == s[i + 2]);
    }
}

/// The page has one field `next`, and its value is the escaped target.
pub proof fn law_page_has_one_next_field(next: Seq<char>, error: Option<Seq<char>>)
    ensures
        exists|i: int|
            #[trigger] stands_at(
                page_spec(next, error),
                i,
                "name=\"next\" value=\""@ + escaped(next) + "\""@,
            ),
        forall|i: int, j: int| #[trigger]
            stands_at(page_spec(next, error), i, "name=\"next\" value=\""@) && #[trigger] stands_at(
                page_spec(next, error),
                j,
                "name=\"next\" value=\""@,
            ) ==> i == j,
{
    reveal_strlit("name=\"next\" value=\"");
    reveal_strlit("\"");
    let s = page_spec(next, error);
    let name = "name=\"next\" value=\""@;
    let n = escaped(next);
    let front = PAGE_HEAD@ + LOGIN_PATH@ + PAGE_FORM@ + error_block(error);
    let at = front.len() + PAGE_FIELDS@.len() - 19;
    lemma_fields(0);
    lemma_tail(0);
    let part = name + n + "\""@;
    let w = s.subrange(at, at + part.len());
    assert forall|j: int| 0 <= j < part.len() implies w[j] == part[j] by {
        if j < 19 {
            assert(PAGE_FIELDS@.skip(PAGE_FIELDS@.len() - 19)[j] == name[j]);
        }
    }
    assert(w =~= part);
    assert(stands_at(s, at, part));
    assert forall|i: int, j: int| #[trigger]
        stands_at(s, i, name) && #[trigger] stands_at(s, j, name) implies i == j by {
        lemma_page(next, error, i + 9);
        lemma_page(next, error, j + 9);
        let a = s.subrange(i, i + 19);
        assert(a[9] == s[i + 9] && a[10] == s[i + 10] && a[11] == s[i + 11] && a[12] == s[i + 12]);
        let b = s.subrange(j, j + 19);
        assert(b[9] == s[j + 9] && b[10] == s[j + 10] && b[11] == s[j + 11] && b[12] == s[j + 12]);
    }
}

/// The element that shows a message.
pub open spec fn message_element(msg: Seq<char>) -> Seq<char> {
    "<p class=\"err\">"@ + escaped(msg) + "</p>"@
}

/// The page shows a message exactly when there is one, and shows that one.
pub proof fn law_page_shows_message(next: Seq<char>, error: Option<Seq<char>>, msg: Seq<char>)
    ensures
        (exists|i: int| #[trigger] stands_at(page_spec(next, error), i, message_element(msg)))
            <==> error == Some(msg),
        error is None ==> forall|i: int|
            !#[trigger] stands_at(page_spec(next, error), i, "<p class=\"err\">"@),
{
    reveal_strlit("<p class=\"err\">");
    reveal_strlit("</p>");
    let s = page_spec(next, error);
    let front = PAGE_HEAD@ + LOGIN_PATH@ + PAGE_FORM@;
    let part = message_element(msg);
    if error == Some(msg) {
        assert(s.subrange(front.len() as int, front.len() as int + part.len()) =~= part);
        assert(stands_at(s, front.len() as int, part));
    }
    assert forall|i: int| #[trigger] stands_at(s, i, part) implies error == Some(msg) by {
        lemma_page(next, error, i);
        let w = s.subrange(i, i + part.len());
        assert(w[0] == s[i] && w[1] == s[i + 1] && w[2] == s[i + 2]);
        let shown = error->0;
        let a = escaped(msg);
        let b = escaped(shown);
        law_escaped_is_inert(msg);
        law_escaped_is_inert(shown);
        assert(w[15 + a.len() as int] == '<');
        assert(s[i + 15 + b.len()] == '<');
        if a.len() < b.len() {
            assert(s[i + 15 + a.len()] == b[a.len() as int]);
        }
        if b.len() < a.len() {
            assert(w[15 + b.len() as int] == a[b.len() as int]);
        }
        assert forall|j: int| 0 <= j < a.len() implies a[j] == b[j] by {
            assert(w[15 + j] == a[j]);
            assert(s[i + 15 + j] == b[j]);
        }
        assert(a =~= b);
        law_unescape_escaped(msg);
        law_unescape_escaped(shown);
    }
    if error is None {
        assert forall|i: int| !#[trigger] stands_at(s, i, "<p class=\"err\">"@) by {
            lemma_page(next, error, i);
            if stands_at(s, i, "<p class=\"err\">"@) {
                let w = s.subrange(i, i + 15);
                assert(w[0] == s[i] && w[1] == s[i + 1] && w[2] == s[i + 2]);
            }
        }
    }
}

} // verus!
