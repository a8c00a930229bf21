//! What the lines of an `authorized_keys` file grant, option by option.

use crate::codec::base64_bytes;
use crate::server::admin_reply::{law_rate_text_reads_back, period_word, rate_text};
use crate::server::keys::{
    add_fragment, apexes_of, comment_spec, conns_spec, entry_of, entry_spec, is_entry_for, is_idle_line, is_revoked, join_commas,
    keys_spec, line_words, options_of, port_range, ports_item, ports_items, ports_spec, with_line, with_option, without_key, EntryView,
};
use crate::server::rate::{rate_spec, RatePer};
use crate::text::{
    all_space, cut_first, dec, has_prefix, has_suffix, is_digit_spec, is_space_spec, lemma_dec_roundtrip, lemma_split_joined,
    lemma_split_whole, no_space, split_spec, trim_spec, uint_spec,
};
use crate::text_laws::{
    ended_lines, joined_by, law_cut_first, law_cut_first_of_joined, law_cut_last, law_joined_is_split, law_number_is_digits, law_number_reads_back,
    law_trim_is_tight, law_trim_keeps_tight, law_words_of_spaced, spaced, tight,
};
use vstd::prelude::*;

verus! {

/// The value of the last pair with this key, if there is one.
pub open spec fn last_value(pairs: Seq<(Seq<char>, Seq<char>)>, k: Seq<char>) -> Option<Seq<char>>
    decreases pairs.len(),
{
    if pairs.len() == 0 {
        None
    } else if pairs.last().0 == k {
        Some(pairs.last().1)
    } else {
        last_value(pairs.drop_last(), k)
    }
}

proof fn lemma_option_names()
    ensures
        "subdomain"@ != "conns"@ && "subdomain"@ != "bw"@ && "subdomain"@ != "quota"@ && "subdomain"@
            != "ports"@ && "subdomain"@ != "federation"@,
        "conns"@ != "bw"@ && "conns"@ != "quota"@ && "conns"@ != "ports"@ && "conns"@ != "federation"@,
        "bw"@ != "quota"@ && "bw"@ != "ports"@ && "bw"@ != "federation"@,
        "quota"@ != "ports"@ && "quota"@ != "federation"@,
        "ports"@ != "federation"@,
{
    reveal_strlit("subdomain");
    reveal_strlit("conns");
    reveal_strlit("bw");
    reveal_strlit("quota");
    reveal_strlit("ports");
    reveal_strlit("federation");
    assert("conns"@[0] == 'c' && "quota"@[0] == 'q' && "ports"@[0] == 'p');
    assert("subdomain"@.len() == 9 && "bw"@.len() == 2 && "federation"@.len() == 10);
}

/// Each option sets its own field and no other: a field says what the last
/// option with its name says, and the default where there is none. Only
/// `subdomain` sets two, one by `*` and one by a list.
pub proof fn law_each_option_sets_its_field(pairs: Seq<(Seq<char>, Seq<char>)>)
    ensures
        entry_of(pairs).max_conns == (match last_value(pairs, "conns"@) {
            Some(v) => conns_spec(v),
            None => None,
        }),
        entry_of(pairs).bw == (match last_value(pairs, "bw"@) {
            Some(v) => rate_spec(v),
            None => None,
        }),
        entry_of(pairs).quota == (match last_value(pairs, "quota"@) {
            Some(v) => rate_spec(v),
            None => None,
        }),
        entry_of(pairs).allowed_ports == (match last_value(pairs, "ports"@) {
            Some(v) => ports_spec(v),
            None => None,
        }),
        entry_of(pairs).federation == (match last_value(pairs, "federation"@) {
            Some(v) => apexes_of(split_spec(v, ',')),
            None => Seq::empty(),
        }),
        entry_of(pairs).allow_any_subdomain <==> exists|i: int|
            0 <= i < pairs.len() && #[trigger] pairs[i] == ("subdomain"@, "*"@),
        (forall|i: int| 0 <= i < pairs.len() ==> (#[trigger] pairs[i]).0 != "subdomain"@ || pairs[i].1 == "*"@)
            ==> entry_of(pairs).allowed_subdomains.len() == 0,
        last_value(pairs, "subdomain"@) matches Some(v) ==> v != "*"@ ==> entry_of(
            pairs,
        ).allowed_subdomains == split_spec(v, ','),
        entry_of(pairs).comment is None,
    decreases pairs.len(),
{
    lemma_option_names();
    if pairs.len() > 0 {
        let front = pairs.drop_last();
        law_each_option_sets_its_field(front);
        let (k, v) = pairs.last();
        let star = ("subdomain"@, "*"@);
        assert(pairs[pairs.len() - 1] == (k, v));
        if exists|i: int| 0 <= i < pairs.len() && #[trigger] pairs[i] == star {
            let i = choose|i: int| 0 <= i < pairs.len() && #[trigger] pairs[i] == star;
            if i < front.len() {
                assert(front[i] == star);
            }
        }
        if exists|i: int| 0 <= i < front.len() && #[trigger] front[i] == star {
            let i = choose|i: int| 0 <= i < front.len() && #[trigger] front[i] == star;
            assert(pairs[i] == star);
        }
        if forall|i: int|
            0 <= i < pairs.len() ==> (#[trigger] pairs[i]).0 != "subdomain"@ || pairs[i].1 == "*"@ {
            assert forall|i: int| 0 <= i < front.len() implies (#[trigger] front[i]).0
                != "subdomain"@ || front[i].1 == "*"@ by {
                assert(front[i] == pairs[i]);
            }
        }
    } else {
        assert(entry_of(pairs).federation =~= Seq::empty());
    }
}

/// How an option is written.
pub open spec fn option_text(p: (Seq<char>, Seq<char>)) -> Seq<char> {
    p.0 + seq!['='] + p.1
}

/// Whether an option can be written: nothing in it ends it early.
pub open spec fn is_writable(p: (Seq<char>, Seq<char>)) -> bool {
    &&& no_space(p.0) && no_space(p.1)
    &&& !p.0.contains('#') && !p.1.contains('#')
    &&& !p.0.contains('=') && !p.1.contains('=')
    &&& !p.0.contains(',')
}

/// Options as they are written.
pub open spec fn option_texts(pairs: Seq<(Seq<char>, Seq<char>)>) -> Seq<Seq<char>> {
    Seq::new(pairs.len(), |i: int| option_text(pairs[i]))
}

/// A list value is read in one piece, commas and all.
proof fn lemma_option_fragments(toks: Seq<Seq<char>>, k: Seq<char>, v: Seq<char>)
    requires
        is_writable((k, v)),
    ensures
        options_of(toks + split_spec(option_text((k, v)), ',')) == options_of(toks).push((k, v)),
    decreases v.len(),
{
    reveal_strlit(",");
    let t = option_text((k, v));
    law_cut_last(v, ',');
    if v.contains(',') {
        let (a, b) = crate::text::cut_last(v, ',')->0;
        assert(v == a + seq![','] + b);
        assert(is_writable((k, a))) by {
            assert forall|i: int| 0 <= i < a.len() implies !is_space_spec(#[trigger] a[i]) by {
                assert(a[i] == v[i]);
            }
            if a.contains('#') {
                let i = choose|i: int| 0 <= i < a.len() && a[i] == '#';
                assert(v[i] == '#');
            }
            if a.contains('=') {
                let i = choose|i: int| 0 <= i < a.len() && a[i] == '=';
                assert(v[i] == '=');
            }
        }
        lemma_option_fragments(toks, k, a);
        assert(t =~= option_text((k, a)) + seq![','] + b);
        lemma_split_joined(option_text((k, a)), ',', b);
        lemma_split_whole(b, ',');
        let before = toks + split_spec(option_text((k, a)), ',');
        let all = toks + split_spec(t, ',');
        assert(all =~= before.push(b));
        assert(all.drop_last() =~= before);
        assert(!b.contains('=')) by {
            if b.contains('=') {
                let i = choose|i: int| 0 <= i < b.len() && b[i] == '=';
                assert(v[a.len() + 1 + i] == '=');
            }
        }
        law_cut_first(b, '=');
        let pairs = options_of(before);
        assert(pairs.last() == (k, a));
        assert(a + ","@ + b =~= v);
        assert(add_fragment(pairs, b) =~= options_of(toks).push((k, v)));
    } else {
        assert(!t.contains(',')) by {
            if t.contains(',') {
                let i = choose|i: int| 0 <= i < t.len() && t[i] == ',';
                if i < k.len() {
                    assert(k[i] == ',');
                } else if i > k.len() {
                    assert(v[i - k.len() - 1] == ',');
                }
            }
        }
        lemma_split_whole(t, ',');
        law_cut_first_of_joined(k, '=', v);
        let all = toks + seq![t];
        assert(all.drop_last() =~= toks);
        assert(all.last() == t);
    }
}

proof fn lemma_options_read(pairs: Seq<(Seq<char>, Seq<char>)>)
    requires
        forall|i: int| 0 <= i < pairs.len() ==> is_writable(#[trigger] pairs[i]),
    ensures
        options_of(split_spec(join_commas(option_texts(pairs)), ',')) == pairs,
    decreases pairs.len(),
{
    reveal_strlit(",");
    let ts = option_texts(pairs);
    let none = Seq::<Seq<char>>::empty();
    assert(options_of(none) =~= Seq::empty());
    if pairs.len() == 0 {
        let e = Seq::<char>::empty();
        lemma_split_whole(e, ',');
        law_cut_first(e, '=');
        assert(seq![e].drop_last() =~= none);
        assert(options_of(seq![e]) =~= pairs);
    } else {
        let front = pairs.drop_last();
        let (k, v) = pairs.last();
        assert(is_writable(pairs[pairs.len() - 1]));
        assert forall|i: int| 0 <= i < front.len() implies is_writable(#[trigger] front[i]) by {
            assert(front[i] == pairs[i]);
        }
        lemma_options_read(front);
        assert(ts.drop_last() =~= option_texts(front));
        assert(ts.last() == option_text((k, v)));
        if pairs.len() == 1 {
            lemma_option_fragments(none, k, v);
            assert(none + split_spec(ts[0], ',') =~= split_spec(ts[0], ','));
            assert(options_of(none).push((k, v)) =~= pairs);
        } else {
            let before = join_commas(option_texts(front));
            assert(join_commas(ts) =~= before + seq![','] + ts.last());
            lemma_split_joined(before, ',', ts.last());
            lemma_option_fragments(split_spec(before, ','), k, v);
            assert(front.push((k, v)) =~= pairs);
        }
    }
}

/// A line as it is written: white space, `ed25519`, the key and the options
/// with white space between them, and white space again. `gaps[0]` stands
/// behind `ed25519`, and `gaps[1 + i]` before the option at `i`.
pub open spec fn written_line(
    a: Seq<char>,
    b64: Seq<char>,
    pairs: Seq<(Seq<char>, Seq<char>)>,
    gaps: Seq<Seq<char>>,
    b: Seq<char>,
) -> Seq<char> {
    a + spaced(
        seq!["ed25519"@, b64] + option_texts(pairs),
        seq![Seq::<char>::empty()] + gaps,
        Seq::empty(),
    ) + b
}

/// Whether the parts of a line can be written and the key is one.
pub open spec fn line_writable(
    a: Seq<char>,
    b64: Seq<char>,
    raw: Seq<u8>,
    pairs: Seq<(Seq<char>, Seq<char>)>,
    gaps: Seq<Seq<char>>,
    b: Seq<char>,
) -> bool {
    &&& all_space(a) && all_space(b)
    &&& b64.len() > 0 && no_space(b64) && !b64.contains('#')
    &&& base64_bytes(b64) == Ok::<Seq<u8>, Seq<char>>(raw)
    &&& raw.len() == 32
    &&& gaps.len() == pairs.len() + 1
    &&& forall|i: int| 0 <= i < gaps.len() ==> all_space(#[trigger] gaps[i]) && gaps[i].len() > 0
    &&& forall|i: int| 0 <= i < pairs.len() ==> is_writable(#[trigger] pairs[i])
}

proof fn lemma_spaced_chars(words: Seq<Seq<char>>, gaps: Seq<Seq<char>>, c: char)
    requires
        gaps.len() == words.len(),
        !is_space_spec(c),
        forall|i: int| 0 <= i < gaps.len() ==> all_space(#[trigger] gaps[i]),
        forall|i: int| 0 <= i < words.len() ==> !(#[trigger] words[i]).contains(c),
    ensures
        !spaced(words, gaps, Seq::empty()).contains(c),
    decreases words.len(),
{
    if words.len() > 0 {
        let ws = words.skip(1);
        let gs = gaps.skip(1);
        assert forall|i: int| 0 <= i < gs.len() implies all_space(#[trigger] gs[i]) by {
            assert(gs[i] == gaps[i + 1]);
        }
        assert forall|i: int| 0 <= i < ws.len() implies !(#[trigger] ws[i]).contains(c) by {
            assert(ws[i] == words[i + 1]);
        }
        lemma_spaced_chars(ws, gs, c);
        let s = spaced(words, gaps, Seq::empty());
        let rest = spaced(ws, gs, Seq::empty());
        if s.contains(c) {
            let k = choose|k: int| 0 <= k < s.len() && s[k] == c;
            let g = gaps[0];
            let w = words[0];
            assert(all_space(g) && !w.contains(c));
            if k < g.len() {
                assert(is_space_spec(g[k]));
            } else if k < g.len() + w.len() {
                assert(w[k - g.len()] == c);
            } else {
                assert(rest[k - g.len() - w.len()] == c);
            }
        }
    }
}

proof fn lemma_spaced_ends(words: Seq<Seq<char>>, gaps: Seq<Seq<char>>)
    requires
        gaps.len() == words.len(),
        words.len() > 0,
        forall|i: int| 0 <= i < words.len() ==> (#[trigger] words[i]).len() > 0,
    ensures
        spaced(words, gaps, Seq::empty()).len() > 0,
        spaced(words, gaps, Seq::empty()).last() == words.last().last(),
        gaps[0].len() == 0 ==> spaced(words, gaps, Seq::empty())[0] == words[0][0],
    decreases words.len(),
{
    let ws = words.skip(1);
    let gs = gaps.skip(1);
    let rest = spaced(ws, gs, Seq::empty());
    assert(words[0].len() > 0);
    if ws.len() > 0 {
        assert forall|i: int| 0 <= i < ws.len() implies (#[trigger] ws[i]).len() > 0 by {
            assert(ws[i] == words[i + 1]);
        }
        lemma_spaced_ends(ws, gs);
        assert(ws.last() == words.last());
    } else {
        assert(words.last() == words[0]);
        assert(rest =~= Seq::empty());
    }
}

/// A line reads back: it is an entry for its key, and grants what its options
/// grant, in whatever order they stand and whatever white space is between
/// them. What stands behind a `#` is its comment and grants nothing.
pub proof fn law_line_reads_back(
    a: Seq<char>,
    b64: Seq<char>,
    raw: Seq<u8>,
    pairs: Seq<(Seq<char>, Seq<char>)>,
    gaps: Seq<Seq<char>>,
    b: Seq<char>,
    note: Seq<char>,
)
    requires
        line_writable(a, b64, raw, pairs, gaps, b),
    ensures
        entry_spec(written_line(a, b64, pairs, gaps, b)) == Some((raw, entry_of(pairs))),
        entry_spec(written_line(a, b64, pairs, gaps, b) + seq!['#'] + note) == Some(
            (
                raw,
                EntryView {
                    comment: if trim_spec(note).len() == 0 {
                        None
                    } else {
                        Some(trim_spec(note))
                    },
                    ..entry_of(pairs)
                },
            ),
        ),
{
    reveal_strlit("ed25519");
    let head = seq!["ed25519"@, b64];
    let words = head + option_texts(pairs);
    let all_gaps = seq![Seq::<char>::empty()] + gaps;
    let body = spaced(words, all_gaps, Seq::empty());
    let line = written_line(a, b64, pairs, gaps, b);
    assert(no_space("ed25519"@));
    assert forall|i: int| 0 <= i < words.len() implies (#[trigger] words[i]).len() > 0 && no_space(
        words[i],
    ) && !words[i].contains('#') by {
        if i == 0 {
            assert(words[0] == "ed25519"@);
            if words[0].contains('#') {
                let k = choose|k: int| 0 <= k < words[0].len() && words[0][k] == '#';
                assert(k == 0 || k == 1 || k == 2 || k == 3 || k == 4 || k == 5 || k == 6);
            }
        } else if i == 1 {
            assert(words[1] == b64);
        } else {
            let p = pairs[i - 2];
            let w = option_text(p);
            assert(words[i] == w);
            assert(is_writable(p));
            assert forall|j: int| 0 <= j < w.len() implies !is_space_spec(#[trigger] w[j]) by {
                if j < p.0.len() {
                    assert(w[j] == p.0[j]);
                } else if j > p.0.len() {
                    assert(w[j] == p.1[j - p.0.len() - 1]);
                }
            }
            if w.contains('#') {
                let j = choose|j: int| 0 <= j < w.len() && w[j] == '#';
                if j < p.0.len() {
                    assert(p.0[j] == '#');
                } else if j > p.0.len() {
                    assert(p.1[j - p.0.len() - 1] == '#');
                }
            }
        }
    }
    assert forall|i: int| 0 <= i < all_gaps.len() implies all_space(#[trigger] all_gaps[i]) by {
        if i > 0 {
            assert(all_gaps[i] == gaps[i - 1]);
        }
    }
    assert forall|i: int| 1 <= i < all_gaps.len() implies (#[trigger] all_gaps[i]).len() > 0 by {
        assert(all_gaps[i] == gaps[i - 1]);
    }
    assert(all_space(Seq::<char>::empty()));
    law_words_of_spaced(words, all_gaps, Seq::empty());
    lemma_spaced_chars(words, all_gaps, '#');
    lemma_spaced_ends(words, all_gaps);
    assert(all_gaps[0].len() == 0);
    assert(tight(body)) by {
        assert(words[0] == "ed25519"@);
        let w = words[words.len() - 1];
        assert(w.len() > 0 && no_space(w));
        assert(!is_space_spec(w[w.len() - 1]));
    }
    law_trim_keeps_tight(a, body, b);
    assert(!line.contains('#')) by {
        if line.contains('#') {
            let k = choose|k: int| 0 <= k < line.len() && line[k] == '#';
            if k < a.len() {
                assert(is_space_spec(a[k]));
            } else if k < a.len() + body.len() {
                assert(body[k - a.len()] == '#');
            } else {
                assert(is_space_spec(b[k - a.len() - body.len()]));
            }
        }
    }
    lemma_split_whole(line, '#');
    lemma_split_joined(line, '#', note);
    law_cut_first(line, '#');
    law_cut_first_of_joined(line, '#', note);
    let noted = line + seq!['#'] + note;
    assert(split_spec(noted, '#')[0] == line);
    assert(line_words(line) == words);
    assert(line_words(noted) == words);
    assert(words.skip(2) =~= option_texts(pairs));
    lemma_options_read(pairs);
    law_each_option_sets_its_field(pairs);
    assert(words[0] == "ed25519"@ && words[1] == b64);
    assert(comment_spec(line) is None);
    let e = entry_of(pairs);
    assert(EntryView { comment: None, ..e } == e);
}

/// A line with no options grants nothing beyond the defaults.
pub proof fn law_bare_line_grants_nothing(b64: Seq<char>, raw: Seq<u8>, gap: Seq<char>)
    requires
        line_writable(Seq::empty(), b64, raw, Seq::empty(), seq![gap], Seq::empty()),
    ensures
        entry_spec("ed25519"@ + gap + b64) == Some((raw, EntryView::blank())),
{
    let none = Seq::<(Seq<char>, Seq<char>)>::empty();
    let e = Seq::<char>::empty();
    law_line_reads_back(e, b64, raw, none, seq![gap], e, e);
    let words = seq!["ed25519"@, b64] + option_texts(none);
    let gaps = seq![e] + seq![gap];
    assert(words.skip(1).skip(1) =~= Seq::empty());
    assert(words.skip(1)[0] == b64);
    assert(gaps.skip(1)[0] == gap);
    reveal_with_fuel(spaced, 3);
    assert(written_line(e, b64, none, seq![gap], e) =~= "ed25519"@ + gap + b64);
}

/// A text that names one option and nothing else.
pub open spec fn one_option(b64: Seq<char>, k: Seq<char>, v: Seq<char>) -> Seq<char> {
    "ed25519"@ + seq![' '] + b64 + seq![' '] + k + seq!['='] + v
}

proof fn lemma_one_option(b64: Seq<char>, raw: Seq<u8>, k: Seq<char>, v: Seq<char>)
    requires
        b64.len() > 0 && no_space(b64) && !b64.contains('#'),
        base64_bytes(b64) == Ok::<Seq<u8>, Seq<char>>(raw),
        raw.len() == 32,
        is_writable((k, v)),
    ensures
        entry_spec(one_option(b64, k, v)) == Some((raw, with_option(EntryView::blank(), k, v))),
{
    let e = Seq::<char>::empty();
    let pairs = seq![(k, v)];
    let gaps = seq![seq![' '], seq![' ']];
    law_line_reads_back(e, b64, raw, pairs, gaps, e, e);
    let words = seq!["ed25519"@, b64] + option_texts(pairs);
    let all_gaps = seq![e] + gaps;
    reveal_with_fuel(spaced, 4);
    let w1 = words.skip(1);
    let w2 = w1.skip(1);
    let g1 = all_gaps.skip(1);
    let g2 = g1.skip(1);
    assert(w1[0] == b64 && w2[0] == option_text((k, v)) && w2.skip(1) =~= Seq::empty());
    assert(g1[0] == seq![' '] && g2[0] == seq![' ']);
    assert(written_line(e, b64, pairs, gaps, e) =~= one_option(b64, k, v));
    assert(pairs.drop_last() =~= Seq::empty());
    assert(entry_of(pairs.drop_last()) == EntryView::blank());
    assert(pairs.last() == (k, v));
}

proof fn lemma_plain_digits(n: nat)
    ensures
        no_space(dec(n)),
        !dec(n).contains('#') && !dec(n).contains('=') && !dec(n).contains(',') && !dec(n).contains(
            '-',
        ),
        dec(n).len() > 0,
        tight(dec(n)),
{
    lemma_dec_roundtrip(n);
    let d = dec(n);
    assert forall|i: int| 0 <= i < d.len() implies !is_space_spec(#[trigger] d[i]) && d[i] != '#'
        && d[i] != '=' && d[i] != ',' && d[i] != '-' by {
        assert(is_digit_spec(d[i]));
    }
}

proof fn lemma_option_words()
    ensures
        forall|v: Seq<char>|
            no_space(v) && !v.contains('#') && !v.contains('=') ==> #[trigger] is_writable(
                ("subdomain"@, v),
            ) && is_writable(("conns"@, v)) && is_writable(("bw"@, v)) && is_writable(("quota"@, v))
                && is_writable(("ports"@, v)) && is_writable(("federation"@, v)),
{
    reveal_strlit("subdomain");
    reveal_strlit("conns");
    reveal_strlit("bw");
    reveal_strlit("quota");
    reveal_strlit("ports");
    reveal_strlit("federation");
    lemma_letters("subdomain"@);
    lemma_letters("conns"@);
    lemma_letters("bw"@);
    lemma_letters("quota"@);
    lemma_letters("ports"@);
    lemma_letters("federation"@);
}

proof fn lemma_letters(k: Seq<char>)
    requires
        forall|i: int| 0 <= i < k.len() ==> 'a' <= #[trigger] k[i] <= 'z',
    ensures
        no_space(k) && !k.contains('#') && !k.contains('=') && !k.contains(','),
{
}

/// A line whose only option is a number of connections grants that number and
/// nothing else.
pub proof fn law_conns_alone(b64: Seq<char>, raw: Seq<u8>, n: u32)
    requires
        b64.len() > 0 && no_space(b64) && !b64.contains('#'),
        base64_bytes(b64) == Ok::<Seq<u8>, Seq<char>>(raw),
        raw.len() == 32,
    ensures
        entry_spec(one_option(b64, "conns"@, dec(n as nat))) == Some(
            (raw, EntryView { max_conns: Some(n), ..EntryView::blank() }),
        ),
{
    lemma_option_names();
    lemma_option_words();
    lemma_plain_digits(n as nat);
    assert(is_writable(("subdomain"@, dec(n as nat))));
    lemma_one_option(b64, raw, "conns"@, dec(n as nat));
    law_number_reads_back(n as nat, u32::MAX as nat);
}

proof fn lemma_rate_text_plain(r: RatePer)
    ensures
        no_space(rate_text(r)) && !rate_text(r).contains('#') && !rate_text(r).contains('='),
{
    reveal_strlit("B/");
    reveal_strlit("s");
    reveal_strlit("m");
    reveal_strlit("h");
    reveal_strlit("day");
    reveal_strlit("week");
    reveal_strlit("month");
    let d = dec(r.bytes as nat);
    let w = period_word(r.period);
    let t = rate_text(r);
    lemma_dec_roundtrip(r.bytes as nat);
    lemma_letters(w);
    assert forall|i: int| 0 <= i < t.len() implies !is_space_spec(#[trigger] t[i]) && t[i] != '#'
        && t[i] != '=' by {
        if i < d.len() {
            assert(t[i] == d[i]);
            assert(is_digit_spec(d[i]));
        } else if i >= d.len() + 2 {
            assert(t[i] == w[i - d.len() - 2]);
            assert(w.contains(w[i - d.len() - 2]));
        }
    }
}

/// A line whose only option is a quota has that quota and no bandwidth cap,
/// and one whose only option is a bandwidth cap has that cap and no quota;
/// neither grants anything else.
pub proof fn law_rates_alone(b64: Seq<char>, raw: Seq<u8>, r: RatePer)
    requires
        b64.len() > 0 && no_space(b64) && !b64.contains('#'),
        base64_bytes(b64) == Ok::<Seq<u8>, Seq<char>>(raw),
        raw.len() == 32,
    ensures
        entry_spec(one_option(b64, "quota"@, rate_text(r))) == Some(
            (raw, EntryView { quota: Some(r), ..EntryView::blank() }),
        ),
        entry_spec(one_option(b64, "bw"@, rate_text(r))) == Some(
            (raw, EntryView { bw: Some(r), ..EntryView::blank() }),
        ),
{
    lemma_option_names();
    lemma_option_words();
    lemma_rate_text_plain(r);
    assert(is_writable(("subdomain"@, rate_text(r))));
    lemma_one_option(b64, raw, "quota"@, rate_text(r));
    lemma_one_option(b64, raw, "bw"@, rate_text(r));
    law_rate_text_reads_back(r);
}

proof fn lemma_joined_plain(ps: Seq<Seq<char>>)
    requires
        forall|i: int|
            0 <= i < ps.len() ==> no_space(#[trigger] ps[i]) && !ps[i].contains('#')
                && !ps[i].contains('='),
    ensures
        no_space(joined_by(ps, ',')) && !joined_by(ps, ',').contains('#') && !joined_by(
            ps,
            ',',
        ).contains('='),
    decreases ps.len(),
{
    if ps.len() > 1 {
        let rest = ps.skip(1);
        assert forall|i: int| 0 <= i < rest.len() implies no_space(#[trigger] rest[i])
            && !rest[i].contains('#') && !rest[i].contains('=') by {
            assert(rest[i] == ps[i + 1]);
        }
        lemma_joined_plain(rest);
        let t = joined_by(rest, ',');
        let s = joined_by(ps, ',');
        let p = ps[0];
        assert(no_space(p) && !p.contains('#') && !p.contains('='));
        assert forall|i: int| 0 <= i < s.len() implies !is_space_spec(#[trigger] s[i]) && s[i] != '#'
            && s[i] != '=' by {
            if i < p.len() {
                assert(s[i] == p[i]);
                assert(p.contains(p[i]));
            } else if i > p.len() {
                assert(s[i] == t[i - p.len() - 1]);
                assert(t.contains(t[i - p.len() - 1]));
            }
        }
    } else if ps.len() == 1 {
        assert(no_space(ps[0]));
    }
}

/// A line whose only option is a list of subdomains grants these names, in
/// their order; `*` in their place grants any. Nothing else is granted.
pub proof fn law_subdomains_alone(b64: Seq<char>, raw: Seq<u8>, names: Seq<Seq<char>>)
    requires
        b64.len() > 0 && no_space(b64) && !b64.contains('#'),
        base64_bytes(b64) == Ok::<Seq<u8>, Seq<char>>(raw),
        raw.len() == 32,
        names.len() > 0,
        forall|i: int|
            0 <= i < names.len() ==> no_space(#[trigger] names[i]) && !names[i].contains('#')
                && !names[i].contains('=') && !names[i].contains(','),
        names != seq!["*"@],
    ensures
        entry_spec(one_option(b64, "subdomain"@, joined_by(names, ','))) == Some(
            (raw, EntryView { allowed_subdomains: names, ..EntryView::blank() }),
        ),
        entry_spec(one_option(b64, "subdomain"@, "*"@)) == Some(
            (raw, EntryView { allow_any_subdomain: true, ..EntryView::blank() }),
        ),
{
    reveal_strlit("*");
    lemma_option_names();
    lemma_option_words();
    lemma_joined_plain(names);
    let v = joined_by(names, ',');
    assert(is_writable(("subdomain"@, v)));
    lemma_one_option(b64, raw, "subdomain"@, v);
    law_joined_is_split(names, ',');
    if v == "*"@ {
        assert(!v.contains(',')) by {
            if v.contains(',') {
                let k = choose|k: int| 0 <= k < v.len() && v[k] == ',';
                assert(k == 0);
            }
        }
        lemma_split_whole(v, ',');
        assert(names =~= seq!["*"@]);
    }
    let star = "*"@;
    assert(no_space(star) && !star.contains('#') && !star.contains('=')) by {
        assert forall|i: int| 0 <= i < star.len() implies star[i] == '*' by {}
    }
    assert(is_writable(("subdomain"@, star)));
    lemma_one_option(b64, raw, "subdomain"@, star);
}

proof fn lemma_apexes(ps: Seq<Seq<char>>)
    requires
        forall|i: int| 0 <= i < ps.len() ==> tight(#[trigger] ps[i]) && ps[i].len() > 0,
    ensures
        apexes_of(ps) == ps,
    decreases ps.len(),
{
    if ps.len() > 0 {
        let front = ps.drop_last();
        assert forall|i: int| 0 <= i < front.len() implies tight(#[trigger] front[i])
            && front[i].len() > 0 by {
            assert(front[i] == ps[i]);
        }
        lemma_apexes(front);
        let l = ps[ps.len() - 1];
        assert(tight(l) && l.len() > 0);
        let e = Seq::<char>::empty();
        law_trim_keeps_tight(e, l, e);
        assert(apexes_of(ps) =~= ps);
    } else {
        assert(apexes_of(ps) =~= ps);
    }
}

/// A line whose only option is a list of relays grants these, in their order,
/// and nothing else.
pub proof fn law_federation_alone(b64: Seq<char>, raw: Seq<u8>, names: Seq<Seq<char>>)
    requires
        b64.len() > 0 && no_space(b64) && !b64.contains('#'),
        base64_bytes(b64) == Ok::<Seq<u8>, Seq<char>>(raw),
        raw.len() == 32,
        names.len() > 0,
        forall|i: int|
            0 <= i < names.len() ==> (#[trigger] names[i]).len() > 0 && no_space(names[i])
                && !names[i].contains('#') && !names[i].contains('=') && !names[i].contains(','),
    ensures
        entry_spec(one_option(b64, "federation"@, joined_by(names, ','))) == Some(
            (raw, EntryView { federation: names, ..EntryView::blank() }),
        ),
{
    lemma_option_names();
    lemma_option_words();
    lemma_joined_plain(names);
    let v = joined_by(names, ',');
    assert(is_writable(("subdomain"@, v)));
    lemma_one_option(b64, raw, "federation"@, v);
    law_joined_is_split(names, ',');
    assert forall|i: int| 0 <= i < names.len() implies tight(#[trigger] names[i]) && names[i].len()
        > 0 by {
        let n = names[i];
        assert(!is_space_spec(n[0]) && !is_space_spec(n[n.len() - 1]));
    }
    lemma_apexes(names);
}

/// White space and empty items in a list of relays do not count.
pub proof fn law_federation_items_are_trimmed(before: Seq<Seq<char>>, w: Seq<char>, name: Seq<char>, u: Seq<char>)
    requires
        all_space(w),
        all_space(u),
        tight(name),
        name.len() > 0,
    ensures
        apexes_of(before.push(w + name + u)) == apexes_of(before).push(name),
        apexes_of(before.push(w)) == apexes_of(before),
{
    law_trim_keeps_tight(w, name, u);
    let a = before.push(w + name + u);
    assert(a.drop_last() =~= before);
    let b = before.push(w);
    assert(b.drop_last() =~= before);
    let e = Seq::<char>::empty();
    law_trim_keeps_tight(w, e, e);
    assert(w + e + e =~= w);
}

/// How an item of a list of ports is written: one port, or a range of them.
pub open spec fn ports_text(item: (u16, u16)) -> Seq<char> {
    if item.0 == item.1 {
        dec(item.0 as nat)
    } else {
        dec(item.0 as nat) + seq!['-'] + dec(item.1 as nat)
    }
}

/// The items of a list of ports as they are written.
pub open spec fn ports_texts(items: Seq<(u16, u16)>) -> Seq<Seq<char>> {
    Seq::new(items.len(), |i: int| ports_text(items[i]))
}

proof fn lemma_ports_item(item: (u16, u16))
    ensures
        item.0 <= item.1 ==> ports_item(ports_text(item)) == Some(
            port_range(item.0 as nat, item.1 as nat),
        ),
        item.0 > item.1 ==> ports_item(ports_text(item)) is None,
        !ports_text(item).contains(','),
        no_space(ports_text(item)) && !ports_text(item).contains('#') && !ports_text(item).contains(
            '=',
        ),
{
    let (lo, hi) = item;
    let a = dec(lo as nat);
    let b = dec(hi as nat);
    let t = ports_text(item);
    lemma_plain_digits(lo as nat);
    lemma_plain_digits(hi as nat);
    law_number_reads_back(lo as nat, u16::MAX as nat);
    law_number_reads_back(hi as nat, u16::MAX as nat);
    let e = Seq::<char>::empty();
    assert forall|i: int| 0 <= i < t.len() implies !is_space_spec(#[trigger] t[i]) && t[i] != '#'
        && t[i] != '=' && t[i] != ',' by {
        if lo != hi {
            if i < a.len() {
                assert(t[i] == a[i]);
                assert(a.contains(a[i]));
            } else if i > a.len() {
                assert(t[i] == b[i - a.len() - 1]);
                assert(b.contains(b[i - a.len() - 1]));
            }
        } else {
            assert(a.contains(a[i]));
        }
    }
    assert(tight(t)) by {
        assert(!is_space_spec(t[0]) && !is_space_spec(t[t.len() - 1]));
    }
    law_trim_keeps_tight(e, t, e);
    law_trim_keeps_tight(e, a, e);
    law_trim_keeps_tight(e, b, e);
    if lo == hi {
        law_cut_first(t, '-');
        assert(seq![lo] =~= port_range(lo as nat, hi as nat));
    } else {
        law_cut_first_of_joined(a, '-', b);
    }
}

proof fn lemma_ports_items(items: Seq<(u16, u16)>)
    requires
        forall|i: int| 0 <= i < items.len() ==> (#[trigger] items[i]).0 <= items[i].1,
    ensures
        ports_items(ports_texts(items)) is Some,
        items.len() > 0 ==> ports_items(ports_texts(items))->0.len() > 0,
        forall|p: u16|
            ports_items(ports_texts(items))->0.contains(p) <==> exists|i: int|
                0 <= i < items.len() && #[trigger] items[i].0 <= p <= items[i].1,
    decreases items.len(),
{
    let ts = ports_texts(items);
    if items.len() > 0 {
        let front = items.drop_last();
        let last = items[items.len() - 1];
        assert forall|i: int| 0 <= i < front.len() implies (#[trigger] front[i]).0 <= front[i].1 by {
            assert(front[i] == items[i]);
        }
        lemma_ports_items(front);
        lemma_ports_item(last);
        assert(ts.drop_last() =~= ports_texts(front));
        assert(ts.last() == ports_text(last));
        let a = ports_items(ports_texts(front))->0;
        let b = port_range(last.0 as nat, last.1 as nat);
        let all = ports_items(ts)->0;
        assert(all == a + b);
        assert forall|p: u16|
            all.contains(p) <==> exists|i: int|
                0 <= i < items.len() && #[trigger] items[i].0 <= p <= items[i].1 by {
            if all.contains(p) {
                let k = choose|k: int| 0 <= k < all.len() && all[k] == p;
                if k < a.len() {
                    assert(a[k] == p);
                    assert(a.contains(p));
                    let i = choose|i: int|
                        0 <= i < front.len() && #[trigger] front[i].0 <= p <= front[i].1;
                    assert(items[i].0 <= p <= items[i].1);
                } else {
                    assert(b[k - a.len()] == p);
                    assert(items[items.len() - 1].0 <= p <= items[items.len() - 1].1);
                }
            }
            if exists|i: int| 0 <= i < items.len() && #[trigger] items[i].0 <= p <= items[i].1 {
                let i = choose|i: int| 0 <= i < items.len() && #[trigger] items[i].0 <= p <= items[i].1;
                if i < front.len() {
                    assert(front[i].0 <= p <= front[i].1);
                    assert(a.contains(p));
                    let k = choose|k: int| 0 <= k < a.len() && a[k] == p;
                    assert(all[k] == p);
                } else {
                    assert(b[p - last.0] == p);
                    assert(all[a.len() + (p - last.0)] == p);
                }
            }
        }
    }
}

/// A list of ports and ranges allows exactly the ports that it lists and those
/// within its ranges, both ends included.
pub proof fn law_ports_are_those_listed(items: Seq<(u16, u16)>)
    requires
        items.len() > 0,
        forall|i: int| 0 <= i < items.len() ==> (#[trigger] items[i]).0 <= items[i].1,
    ensures
        ports_spec(joined_by(ports_texts(items), ',')) is Some,
        forall|p: u16|
            ports_spec(joined_by(ports_texts(items), ','))->0.contains(p) <==> exists|i: int|
                0 <= i < items.len() && #[trigger] items[i].0 <= p <= items[i].1,
{
    let ts = ports_texts(items);
    assert forall|i: int| 0 <= i < ts.len() implies !(#[trigger] ts[i]).contains(',') by {
        lemma_ports_item(items[i]);
    }
    law_joined_is_split(ts, ',');
    lemma_ports_items(items);
}

proof fn lemma_ports_none(parts: Seq<Seq<char>>, i: int)
    requires
        0 <= i < parts.len(),
        ports_item(parts[i]) is None,
    ensures
        ports_items(parts) is None,
    decreases parts.len(),
{
    if i < parts.len() - 1 {
        assert(parts.drop_last()[i] == parts[i]);
        lemma_ports_none(parts.drop_last(), i);
    }
}

/// One range that runs backwards, or one item that is no number, makes the
/// whole list void.
pub proof fn law_bad_item_voids_the_list(v: Seq<char>, i: int, lo: u16, hi: u16)
    requires
        0 <= i < split_spec(v, ',').len(),
        hi < lo && split_spec(v, ',')[i] == ports_text((lo, hi)) || !exists|k: int|
            0 <= k < split_spec(v, ',')[i].len() && is_digit_spec(#[trigger] split_spec(v, ',')[i][k]),
    ensures
        ports_spec(v) is None,
{
    let part = split_spec(v, ',')[i];
    if hi < lo && part == ports_text((lo, hi)) {
        lemma_ports_item((lo, hi));
    } else {
        lemma_no_digit_no_port(part);
    }
    lemma_ports_none(split_spec(v, ','), i);
}

proof fn lemma_no_digit_no_port(part: Seq<char>)
    requires
        !exists|k: int| 0 <= k < part.len() && is_digit_spec(#[trigger] part[k]),
    ensures
        ports_item(part) is None,
{
    let t = trim_spec(part);
    law_trim_is_tight(part);
    let (a, b) = choose|a: Seq<char>, b: Seq<char>|
        #![trigger all_space(a), all_space(b)]
        all_space(a) && all_space(b) && part == a + t + b;
    assert forall|k: int| 0 <= k < t.len() implies !is_digit_spec(#[trigger] t[k]) by {
        assert(part[a.len() + k] == t[k]);
    }
    lemma_no_digit_no_number(t);
    law_cut_first(t, '-');
    if cut_first(t, '-') is Some {
        let (lo, hi) = cut_first(t, '-')->0;
        let l = trim_spec(lo);
        law_trim_is_tight(lo);
        let (x, y) = choose|x: Seq<char>, y: Seq<char>|
            #![trigger all_space(x), all_space(y)]
            all_space(x) && all_space(y) && lo == x + l + y;
        assert forall|k: int| 0 <= k < l.len() implies !is_digit_spec(#[trigger] l[k]) by {
            assert(lo[x.len() + k] == l[k]);
            assert(t[x.len() + k] == l[k]);
        }
        lemma_no_digit_no_number(l);
    }
}

proof fn lemma_no_digit_no_number(s: Seq<char>)
    requires
        forall|k: int| 0 <= k < s.len() ==> !is_digit_spec(#[trigger] s[k]),
    ensures
        uint_spec(s, u16::MAX as nat) is None,
{
    if s.len() > 0 && s[0] == '+' {
        let d = s.drop_first();
        if d.len() > 0 {
            assert(d[0] == s[1]);
        }
    } else if s.len() > 0 {
        assert(!is_digit_spec(s[0]));
    }
}

/// A line whose only option is a list of ports allows those ports, and grants
/// nothing else.
pub proof fn law_ports_alone(b64: Seq<char>, raw: Seq<u8>, items: Seq<(u16, u16)>)
    requires
        b64.len() > 0 && no_space(b64) && !b64.contains('#'),
        base64_bytes(b64) == Ok::<Seq<u8>, Seq<char>>(raw),
        raw.len() == 32,
        items.len() > 0,
    ensures
        entry_spec(one_option(b64, "ports"@, joined_by(ports_texts(items), ','))) == Some(
            (
                raw,
                EntryView {
                    allowed_ports: ports_spec(joined_by(ports_texts(items), ',')),
                    ..EntryView::blank()
                },
            ),
        ),
{
    lemma_option_names();
    lemma_option_words();
    let ts = ports_texts(items);
    assert forall|i: int| 0 <= i < ts.len() implies no_space(#[trigger] ts[i]) && !ts[i].contains('#')
        && !ts[i].contains('=') by {
        lemma_ports_item(items[i]);
    }
    lemma_joined_plain(ts);
    let v = joined_by(ts, ',');
    assert(is_writable(("subdomain"@, v)));
    lemma_one_option(b64, raw, "ports"@, v);
}

/// Two entries carry the same authorization exactly when they agree on every
/// field but the comment.
pub proof fn law_authorization_is_all_but_comment(a: EntryView, b: EntryView)
    ensures
        a.same_authorization(b) <==> a.allow_any_subdomain == b.allow_any_subdomain
            && a.allowed_subdomains == b.allowed_subdomains && a.max_conns == b.max_conns
            && a.allowed_ports == b.allowed_ports && a.bw == b.bw && a.quota == b.quota
            && a.federation == b.federation,
{
}

/// Whether a line says nothing: it is blank, or a comment.
pub open spec fn says_nothing(l: Seq<char>) -> bool {
    trim_spec(l).len() == 0 || trim_spec(l)[0] == '#'
}

/// A file is accepted exactly when each of its lines says nothing or is an
/// entry. A key is then authorized exactly when a line is an entry for it, and
/// the last such line says how.
pub proof fn law_file_is_its_lines(ls: Seq<Seq<char>>, key: Seq<u8>, i: int)
    ensures
        keys_spec(ls) is Ok <==> forall|j: int|
            0 <= j < ls.len() ==> says_nothing(#[trigger] ls[j]) || entry_spec(trim_spec(ls[j])) is Some,
        keys_spec(ls) matches Ok(m) ==> (m.contains_key(key) <==> exists|j: int|
            0 <= j < ls.len() && !says_nothing(#[trigger] ls[j]) && entry_spec(trim_spec(ls[j])) is Some
                && (entry_spec(trim_spec(ls[j]))->0).0 == key),
        keys_spec(ls) matches Ok(m) ==> 0 <= i < ls.len() && is_entry_for(ls[i], key) && (forall|j: int|
            i < j < ls.len() ==> !is_entry_for(#[trigger] ls[j], key)) ==> m[key] == (entry_spec(
            trim_spec(ls[i]),
        )->0).1,
    decreases ls.len(),
{
    if ls.len() > 0 {
        let front = ls.drop_last();
        let last = ls[ls.len() - 1];
        let n = ls.len() - 1;
        law_file_is_its_lines(front, key, i);
        assert(is_idle_line(trim_spec(last)) == says_nothing(last));
        assert forall|j: int| 0 <= j < n implies #[trigger] ls[j] == front[j] by {}
        if keys_spec(ls) is Ok {
            assert forall|j: int| 0 <= j < ls.len() implies says_nothing(#[trigger] ls[j])
                || entry_spec(trim_spec(ls[j])) is Some by {
                if j < n {
                    assert(front[j] == ls[j]);
                }
            }
            let m = keys_spec(ls)->Ok_0;
            let before = keys_spec(front)->Ok_0;
            if m.contains_key(key) {
                if before.contains_key(key) {
                    let j = choose|j: int|
                        0 <= j < front.len() && !says_nothing(#[trigger] front[j]) && entry_spec(
                            trim_spec(front[j]),
                        ) is Some && (entry_spec(trim_spec(front[j]))->0).0 == key;
                    assert(ls[j] == front[j]);
                } else {
                    assert(ls[n] == last);
                }
            }
            if exists|j: int|
                0 <= j < ls.len() && !says_nothing(#[trigger] ls[j]) && entry_spec(trim_spec(ls[j]))
                    is Some && (entry_spec(trim_spec(ls[j]))->0).0 == key {
                let j = choose|j: int|
                    0 <= j < ls.len() && !says_nothing(#[trigger] ls[j]) && entry_spec(
                        trim_spec(ls[j]),
                    ) is Some && (entry_spec(trim_spec(ls[j]))->0).0 == key;
                if j < n {
                    assert(front[j] == ls[j]);
                }
            }
            if 0 <= i < ls.len() && is_entry_for(ls[i], key) && (forall|j: int|
                i < j < ls.len() ==> !is_entry_for(#[trigger] ls[j], key)) {
                if i < n {
                    assert(front[i] == ls[i]);
                    assert forall|j: int| i < j < front.len() implies !is_entry_for(
                        #[trigger] front[j],
                        key,
                    ) by {
                        assert(front[j] == ls[j]);
                    }
                    assert(!is_entry_for(ls[n], key));
                }
            }
        } else {
            if forall|j: int|
                0 <= j < ls.len() ==> says_nothing(#[trigger] ls[j]) || entry_spec(trim_spec(ls[j]))
                    is Some {
                assert forall|j: int| 0 <= j < front.len() implies says_nothing(#[trigger] front[j])
                    || entry_spec(trim_spec(front[j])) is Some by {
                    assert(front[j] == ls[j]);
                }
                assert(says_nothing(ls[n]) || entry_spec(trim_spec(ls[n])) is Some);
            }
        }
    }
}

/// Lines without those that are entries for a key.
proof fn lemma_without_joined(a: Seq<Seq<char>>, b: Seq<Seq<char>>, target: Seq<u8>)
    ensures
        without_key(a + b, target) == without_key(a, target) + without_key(b, target),
    decreases b.len(),
{
    if b.len() == 0 {
        assert(a + b =~= a);
        assert(without_key(a, target) + without_key(b, target) =~= without_key(a, target));
    } else {
        lemma_without_joined(a, b.drop_last(), target);
        assert((a + b).drop_last() =~= a + b.drop_last());
        assert((a + b).last() == b.last());
        assert(without_key(a + b, target) =~= without_key(a, target) + without_key(b, target));
    }
}

/// Removing a key takes its entries out of the file and leaves every other
/// line as it is, comments and blank lines too, in order.
pub proof fn law_removal_keeps_other_lines(
    before: Seq<Seq<char>>,
    l: Seq<char>,
    after: Seq<Seq<char>>,
    target: Seq<u8>,
)
    ensures
        is_entry_for(l, target) ==> without_key(before + seq![l] + after, target) == without_key(
            before + after,
            target,
        ),
        (forall|i: int| 0 <= i < before.len() ==> !is_entry_for(#[trigger] before[i], target))
            ==> without_key(before, target) == ended_lines(before),
        says_nothing(l) ==> !is_entry_for(l, target),
    decreases before.len(),
{
    lemma_without_joined(before, after, target);
    lemma_without_joined(before, seq![l], target);
    lemma_without_joined(before + seq![l], after, target);
    assert(seq![l].drop_last() =~= Seq::empty());
    reveal_with_fuel(without_key, 2);
    if is_entry_for(l, target) {
        assert(without_key(seq![l], target) =~= Seq::empty());
        assert(without_key(before, target) + without_key(seq![l], target) =~= without_key(
            before,
            target,
        ));
    }
    if forall|i: int| 0 <= i < before.len() ==> !is_entry_for(#[trigger] before[i], target) {
        lemma_without_none(before, target);
    }
}

proof fn lemma_without_none(ls: Seq<Seq<char>>, target: Seq<u8>)
    requires
        forall|i: int| 0 <= i < ls.len() ==> !is_entry_for(#[trigger] ls[i], target),
    ensures
        without_key(ls, target) == ended_lines(ls),
    decreases ls.len(),
{
    reveal_strlit("\n");
    if ls.len() > 0 {
        let rest = ls.skip(1);
        assert forall|i: int| 0 <= i < rest.len() implies !is_entry_for(#[trigger] rest[i], target) by {
            assert(rest[i] == ls[i + 1]);
        }
        lemma_without_none(rest, target);
        let one = seq![ls[0]];
        assert(one + rest =~= ls);
        lemma_without_joined(one, rest, target);
        assert(one.drop_last() =~= Seq::empty());
        assert(!is_entry_for(ls[0], target));
        assert(one.last() == ls[0]);
        assert(without_key(one.drop_last(), target) =~= Seq::empty());
        assert(without_key(one, target) =~= ls[0] + seq!['\n']);
    }
}

/// Appending a line leaves the file as it is and adds the line at the end, on
/// a line of its own.
pub proof fn law_append_adds_one_line(contents: Seq<char>, line: Seq<char>)
    ensures
        has_prefix(with_line(contents, line), contents),
        with_line(contents, line).last() == '\n',
        contents.len() == 0 && (line.len() == 0 || line.last() != '\n') ==> with_line(contents, line) == line.push(
            '\n',
        ),
        with_line(contents.push('\n'), line) == contents.push('\n') + with_line(Seq::empty(), line),
        contents.len() > 0 && contents.last() != '\n' ==> with_line(contents, line) == with_line(
            contents.push('\n'),
            line,
        ),
        with_line(contents, line.push('\n')).len() > 0,
        line.len() == 0 || line.last() != '\n' ==> with_line(contents, line.push('\n')) == with_line(
            contents,
            line,
        ),
{
    reveal_strlit("\n");
    let nl = "\n"@;
    assert(nl =~= seq!['\n']);
    lemma_ends(contents);
    lemma_ends(line);
    lemma_ends(line.push('\n'));
    lemma_ends(contents.push('\n'));
    lemma_ends(Seq::empty());
    let w = with_line(contents, line);
    assert(w.take(contents.len() as int) =~= contents);
    assert(contents + nl =~= contents.push('\n'));
    assert(line + nl =~= line.push('\n'));
    assert(Seq::<char>::empty() + line =~= line);
    assert(with_line(Seq::empty(), line) =~= if line.len() > 0 && line.last() == '\n' {
        line
    } else {
        line.push('\n')
    });
    assert(with_line(contents.push('\n'), line) =~= contents.push('\n') + with_line(Seq::empty(), line));
    if line.len() == 0 || line.last() != '\n' {
        let head = if contents.len() > 0 && contents.last() != '\n' {
            contents + nl
        } else {
            contents
        };
        assert(head + line + nl =~= head + line.push('\n'));
    }
}

proof fn lemma_ends(s: Seq<char>)
    ensures
        has_suffix(s, "\n"@) <==> s.len() > 0 && s.last() == '\n',
{
    reveal_strlit("\n");
    if s.len() > 0 {
        let t = s.skip(s.len() - 1);
        assert(t.len() == 1 && t[0] == s.last());
        if s.last() == '\n' {
            assert(t =~= "\n"@);
        }
    }
}

/// The first line that is neither idle nor an entry is named by its number,
/// whatever stands behind it.
pub proof fn law_first_bad_line_is_named(before: Seq<Seq<char>>, l: Seq<char>, after: Seq<Seq<char>>)
    requires
        keys_spec(before) is Ok,
        !says_nothing(l),
        entry_spec(trim_spec(l)) is None,
    ensures
        keys_spec(before + seq![l] + after) == Err::<Map<Seq<u8>, EntryView>, Seq<char>>(
            "line "@ + dec((before.len() + 1) as nat) + ": "@ + l,
        ),
    decreases after.len(),
{
    let all = before + seq![l] + after;
    if after.len() == 0 {
        assert(all.drop_last() =~= before);
        assert(all.last() == l);
    } else {
        law_first_bad_line_is_named(before, l, after.drop_last());
        assert(all.drop_last() =~= before + seq![l] + after.drop_last());
    }
}

/// A reload reports a key exactly when it was listed before and is now gone or
/// says something else than before, its comment aside; a new key is not
/// reported.
pub proof fn law_what_a_reload_reports(
    old_keys: Map<Seq<u8>, EntryView>,
    new_keys: Map<Seq<u8>, EntryView>,
    key: Seq<u8>,
)
    ensures
        !old_keys.contains_key(key) ==> !is_revoked(old_keys, new_keys, key),
        old_keys.contains_key(key) && !new_keys.contains_key(key) ==> is_revoked(old_keys, new_keys, key),
        old_keys.contains_key(key) && new_keys.contains_key(key) && (old_keys[key].bw != new_keys[key].bw
            || old_keys[key].quota != new_keys[key].quota || old_keys[key].max_conns
            != new_keys[key].max_conns || old_keys[key].allowed_ports != new_keys[key].allowed_ports
            || old_keys[key].allow_any_subdomain != new_keys[key].allow_any_subdomain
            || old_keys[key].allowed_subdomains != new_keys[key].allowed_subdomains
            || old_keys[key].federation != new_keys[key].federation) ==> is_revoked(
            old_keys,
            new_keys,
            key,
        ),
{
}

/// A number of connections is a number of at most 32 bits; anything else sets
/// no limit.
pub proof fn law_connections_are_a_number(v: Seq<char>)
    ensures
        conns_spec(v) is Some <==> uint_spec(v, 0xFFFF_FFFF) is Some,
        conns_spec(v) is Some ==> conns_spec(v)->0 == uint_spec(v, 0xFFFF_FFFF)->0,
{
    if uint_spec(v, 0xFFFF_FFFF) is Some {
        law_number_is_digits(v, 0xFFFF_FFFF);
    }
}

/// Only a line of two words or more that begins with `ed25519`, and whose
/// second word is 32 bytes in base64, is an entry.
pub proof fn law_what_is_no_entry(line: Seq<char>)
    ensures
        entry_spec(line) is Some <==> line_words(line).len() >= 2 && line_words(line)[0] == "ed25519"@
            && base64_bytes(line_words(line)[1]) is Ok && base64_bytes(line_words(line)[1])->Ok_0.len() == 32,
        entry_spec(line) is Some ==> (entry_spec(line)->0).0 == base64_bytes(line_words(line)[1])->Ok_0,
{
}

} // verus!
