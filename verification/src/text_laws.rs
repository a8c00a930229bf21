//! What splitting, trimming, case folding and reading numbers come to.

use crate::codec::no_ascii_capital;
use crate::text::{
    all_digits, all_space, cut_first, cut_last, dec, dec_value, drop_cr, has_prefix, has_suffix, is_space_spec,
    lemma_dec_roundtrip, lemma_first_at, lemma_first_at_is, lemma_last_at, lemma_lines_append, lemma_lines_single,
    lemma_split_joined, lemma_split_whole, lemma_trim_cut, lemma_trim_pad, lemma_words_cons, lemma_words_skip_space,
    lines_spec, lower, no_space, split_spec, strip_prefix_spec, strip_suffix_spec, trim_end_spec, trim_spec,
    trim_start_spec, uint_spec, words_spec,
};
use vstd::prelude::*;

verus! {

/// Texts with `c` between each two of them.
pub open spec fn joined_by(ps: Seq<Seq<char>>, c: char) -> Seq<char>
    decreases ps.len(),
{
    if ps.len() == 0 {
        Seq::empty()
    } else if ps.len() == 1 {
        ps[0]
    } else {
        ps[0] + seq![c] + joined_by(ps.skip(1), c)
    }
}

/// The pieces of a text hold no separator, and give the text back when they
/// are joined by it.
pub proof fn law_split_is_undone(s: Seq<char>, c: char)
    ensures
        split_spec(s, c).len() > 0,
        forall|i: int|
            0 <= i < split_spec(s, c).len() ==> !(#[trigger] split_spec(s, c)[i]).contains(c),
        joined_by(split_spec(s, c), c) == s,
    decreases s.len(),
{
    let ps = split_spec(s, c);
    lemma_first_at(s, c);
    let i = crate::text::first_at(s, c);
    if i < s.len() {
        let rest = s.skip(i + 1);
        law_split_is_undone(rest, c);
        let tail = split_spec(rest, c);
        assert(ps.skip(1) =~= tail);
        assert(s =~= s.take(i) + seq![c] + rest);
        assert forall|k: int| 0 <= k < ps.len() implies !(#[trigger] ps[k]).contains(c) by {
            if k == 0 {
                assert(ps[0] == s.take(i));
                if ps[0].contains(c) {
                    let j = choose|j: int| 0 <= j < i && s.take(i)[j] == c;
                    assert(s[j] == c);
                }
            } else {
                assert(ps[k] == tail[k - 1]);
            }
        }
    } else {
        assert(ps =~= seq![s]);
    }
}

/// Texts without the separator are the pieces of what they give when joined.
pub proof fn law_joined_is_split(ps: Seq<Seq<char>>, c: char)
    requires
        ps.len() > 0,
        forall|i: int| 0 <= i < ps.len() ==> !(#[trigger] ps[i]).contains(c),
    ensures
        split_spec(joined_by(ps, c), c) == ps,
    decreases ps.len(),
{
    lemma_split_whole(ps[0], c);
    if ps.len() == 1 {
        assert(ps =~= seq![ps[0]]);
    } else {
        let rest = ps.skip(1);
        assert forall|i: int| 0 <= i < rest.len() implies !(#[trigger] rest[i]).contains(c) by {
            assert(rest[i] == ps[i + 1]);
        }
        law_joined_is_split(rest, c);
        lemma_split_joined(ps[0], c, joined_by(rest, c));
        assert(seq![ps[0]] + rest =~= ps);
    }
}

/// A text is cut at its first separator: nothing is lost, and no separator
/// stands before the cut. It is not cut exactly when it holds none.
pub proof fn law_cut_first(s: Seq<char>, c: char)
    ensures
        cut_first(s, c) is None <==> !s.contains(c),
        cut_first(s, c) matches Some((a, b)) ==> s == a + seq![c] + b && !a.contains(c),
{
    lemma_first_at(s, c);
    let i = crate::text::first_at(s, c);
    if i < s.len() {
        assert(s[i] == c);
        assert(s =~= s.take(i) + seq![c] + s.skip(i + 1));
        if s.take(i).contains(c) {
            let j = choose|j: int| 0 <= j < i && s.take(i)[j] == c;
            assert(s[j] == c);
        }
    } else if s.contains(c) {
        let j = choose|j: int| 0 <= j < s.len() && s[j] == c;
        assert(s[j] != c);
    }
}

/// A text is cut at its last separator: nothing is lost, and no separator
/// stands behind the cut. It is not cut exactly when it holds none.
pub proof fn law_cut_last(s: Seq<char>, c: char)
    ensures
        cut_last(s, c) is None <==> !s.contains(c),
        cut_last(s, c) matches Some((a, b)) ==> s == a + seq![c] + b && !b.contains(c),
{
    lemma_last_at(s, c);
    let i = crate::text::last_at(s, c);
    if i >= 0 {
        assert(s[i] == c);
        assert(s =~= s.take(i) + seq![c] + s.skip(i + 1));
        let t = s.skip(i + 1);
        if t.contains(c) {
            let j = choose|j: int| 0 <= j < t.len() && t[j] == c;
            assert(s[i + 1 + j] == c);
        }
    } else if s.contains(c) {
        let j = choose|j: int| 0 <= j < s.len() && s[j] == c;
        assert(s[j] != c);
    }
}

/// A text in front of a separator that it does not hold is cut off before it.
pub proof fn law_cut_first_of_joined(a: Seq<char>, c: char, b: Seq<char>)
    requires
        !a.contains(c),
    ensures
        cut_first(a + seq![c] + b, c) == Some((a, b)),
{
    let s = a + seq![c] + b;
    assert forall|j: int| 0 <= j < a.len() implies s[j] != c by {
        assert(s[j] == a[j]);
        assert(a.contains(a[j]));
    }
    lemma_first_at_is(s, c, a.len() as int);
    assert(s.take(a.len() as int) =~= a);
    assert(s.skip(a.len() as int + 1) =~= b);
}

/// A text behind a separator that it does not hold is cut off behind it.
pub proof fn law_cut_last_of_joined(a: Seq<char>, c: char, b: Seq<char>)
    requires
        !b.contains(c),
    ensures
        cut_last(a + seq![c] + b, c) == Some((a, b)),
{
    let s = a + seq![c] + b;
    lemma_last_at(s, c);
    let i = crate::text::last_at(s, c);
    assert(s[a.len() as int] == c);
    if i < a.len() {
        assert(s[a.len() as int] != c);
    } else if i > a.len() {
        assert(s[i] == b[i - a.len() - 1]);
        assert(b.contains(b[i - a.len() - 1]));
    }
    assert(s.take(a.len() as int) =~= a);
    assert(s.skip(a.len() as int + 1) =~= b);
}

/// Whether a text begins and ends in something other than white space.
pub open spec fn tight(s: Seq<char>) -> bool {
    s.len() > 0 ==> !is_space_spec(s[0]) && !is_space_spec(s.last())
}

proof fn lemma_trim_ends(s: Seq<char>)
    ensures
        trim_end_spec(s).len() > 0 ==> !is_space_spec(trim_end_spec(s).last()) && trim_end_spec(s)[0]
            == s[0],
    decreases s.len(),
{
    if s.len() > 0 && is_space_spec(s.last()) {
        lemma_trim_ends(s.drop_last());
    }
}

proof fn lemma_trim_start_ends(s: Seq<char>)
    ensures
        trim_start_spec(s).len() > 0 ==> !is_space_spec(trim_start_spec(s)[0]),
    decreases s.len(),
{
    if s.len() > 0 && is_space_spec(s[0]) {
        lemma_trim_start_ends(s.drop_first());
    }
}

/// Trimming leaves a text without white space at its ends, and takes off
/// nothing but white space.
pub proof fn law_trim_is_tight(s: Seq<char>)
    ensures
        tight(trim_spec(s)),
        exists|a: Seq<char>, b: Seq<char>|
            #![trigger all_space(a), all_space(b)]
            all_space(a) && all_space(b) && s == a + trim_spec(s) + b,
{
    lemma_trim_start_ends(s);
    lemma_trim_ends(trim_start_spec(s));
    let cut = lemma_trim_cut(s);
    let a = s.take(cut.0);
    let b = s.skip(cut.1);
    assert(s =~= a + trim_spec(s) + b);
}

/// A text without white space at its ends is what is left of it, whatever
/// white space stands around it.
pub proof fn law_trim_keeps_tight(a: Seq<char>, s: Seq<char>, b: Seq<char>)
    requires
        all_space(a),
        all_space(b),
        tight(s),
    ensures
        trim_spec(a + s + b) == s,
        trim_spec(s) == s,
{
    lemma_trim_pad(a, s, b);
    assert(trim_start_spec(s) == s);
    assert(trim_end_spec(s) == s);
}

/// Words with white space between them, and maybe around them, are the words
/// of the text; `gaps[i]` stands before the word at `i`, and `last` behind all.
pub open spec fn spaced(words: Seq<Seq<char>>, gaps: Seq<Seq<char>>, last: Seq<char>) -> Seq<char>
    decreases words.len(),
{
    if words.len() == 0 {
        last
    } else {
        gaps[0] + words[0] + spaced(words.skip(1), gaps.skip(1), last)
    }
}

/// The words of a text are what stands between its white space.
pub proof fn law_words_of_spaced(words: Seq<Seq<char>>, gaps: Seq<Seq<char>>, last: Seq<char>)
    requires
        gaps.len() == words.len(),
        forall|i: int| 0 <= i < words.len() ==> (#[trigger] words[i]).len() > 0 && no_space(words[i]),
        forall|i: int| 0 <= i < gaps.len() ==> all_space(#[trigger] gaps[i]),
        forall|i: int| 1 <= i < gaps.len() ==> (#[trigger] gaps[i]).len() > 0,
        all_space(last),
    ensures
        words_spec(spaced(words, gaps, last)) == words,
    decreases words.len(),
{
    if words.len() == 0 {
        lemma_words_skip_space(last, Seq::empty());
        assert(last + Seq::<char>::empty() =~= last);
        assert(words_spec(Seq::empty()) =~= Seq::empty());
        assert(words =~= Seq::empty());
    } else {
        let ws = words.skip(1);
        let gs = gaps.skip(1);
        let rest = spaced(ws, gs, last);
        assert forall|i: int| 0 <= i < ws.len() implies (#[trigger] ws[i]).len() > 0 && no_space(
            ws[i],
        ) by {
            assert(ws[i] == words[i + 1]);
        }
        assert forall|i: int| 0 <= i < gs.len() implies all_space(#[trigger] gs[i]) by {
            assert(gs[i] == gaps[i + 1]);
        }
        assert forall|i: int| 1 <= i < gs.len() implies (#[trigger] gs[i]).len() > 0 by {
            assert(gs[i] == gaps[i + 1]);
        }
        law_words_of_spaced(ws, gs, last);
        assert(rest.len() == 0 || is_space_spec(rest[0])) by {
            if ws.len() > 0 {
                assert(gs[0] == gaps[1]);
                assert(rest[0] == gs[0][0]);
            } else if rest.len() > 0 {
                assert(rest[0] == last[0]);
            }
        }
        assert(words[0].len() > 0);
        lemma_words_cons(words[0], rest);
        assert(gaps[0] + words[0] + rest =~= gaps[0] + (words[0] + rest));
        assert(all_space(gaps[0]));
        lemma_words_skip_space(gaps[0], words[0] + rest);
        assert(seq![words[0]] + ws =~= words);
    }
}

/// Lines, each with a newline behind it.
pub open spec fn ended_lines(ls: Seq<Seq<char>>) -> Seq<char>
    decreases ls.len(),
{
    if ls.len() == 0 {
        Seq::empty()
    } else {
        ls[0] + seq!['\n'] + ended_lines(ls.skip(1))
    }
}

/// The lines of a text are what stands before its newlines; a carriage return
/// before a newline belongs to it.
pub proof fn law_lines_of_ended(ls: Seq<Seq<char>>)
    requires
        forall|i: int| 0 <= i < ls.len() ==> !(#[trigger] ls[i]).contains('\n'),
    ensures
        lines_spec(ended_lines(ls)).len() == ls.len(),
        forall|i: int| 0 <= i < ls.len() ==> #[trigger] lines_spec(ended_lines(ls))[i] == drop_cr(ls[i]),
        forall|i: int|
            0 <= i < ls.len() && !ls[i].contains('\r') ==> #[trigger] lines_spec(ended_lines(ls))[i]
                == ls[i],
    decreases ls.len(),
{
    if ls.len() > 0 {
        let rest = ls.skip(1);
        assert forall|i: int| 0 <= i < rest.len() implies !(#[trigger] rest[i]).contains('\n') by {
            assert(rest[i] == ls[i + 1]);
        }
        law_lines_of_ended(rest);
        let first = ls[0].push('\n');
        assert(!ls[0].contains('\n'));
        lemma_lines_single(ls[0]);
        lemma_lines_append(first, ended_lines(rest));
        assert(ended_lines(ls) =~= first + ended_lines(rest));
        let all = lines_spec(ended_lines(ls));
        assert(all =~= seq![drop_cr(ls[0])] + lines_spec(ended_lines(rest)));
        assert forall|i: int| 0 <= i < ls.len() implies #[trigger] all[i] == drop_cr(ls[i]) by {
            if i > 0 {
                assert(all[i] == lines_spec(ended_lines(rest))[i - 1]);
                assert(rest[i - 1] == ls[i]);
            }
        }
        assert forall|i: int| 0 <= i < ls.len() && !ls[i].contains('\r') implies #[trigger] all[i]
            == ls[i] by {
            if ls[i].len() > 0 {
                assert(ls[i].contains(ls[i].last()));
            }
        }
    }
}

/// What stands behind a prefix or before a suffix is what stripping leaves,
/// and there is something to strip only then.
pub proof fn law_strip(p: Seq<char>, s: Seq<char>)
    ensures
        strip_prefix_spec(p + s, p) == Some(s),
        strip_suffix_spec(s + p, p) == Some(s),
        strip_prefix_spec(s, p) matches Some(rest) ==> s == p + rest,
        strip_suffix_spec(s, p) matches Some(rest) ==> s == rest + p,
        strip_prefix_spec(s, p) is Some == has_prefix(s, p),
        strip_suffix_spec(s, p) is Some == has_suffix(s, p),
{
    assert((p + s).take(p.len() as int) =~= p);
    assert((p + s).skip(p.len() as int) =~= s);
    assert((s + p).skip((s + p).len() - p.len()) =~= p);
    assert((s + p).take((s + p).len() - p.len()) =~= s);
    if has_prefix(s, p) {
        assert(s =~= p + s.skip(p.len() as int));
    }
    if has_suffix(s, p) {
        assert(s =~= s.take(s.len() - p.len()) + p);
    }
}

/// Lowering a text replaces each letter `A` to `Z` by the one 32 places on,
/// and changes nothing else; lowering again changes nothing.
pub proof fn law_lower(s: Seq<char>, i: int)
    requires
        0 <= i < s.len(),
    ensures
        lower(s).len() == s.len(),
        'A' <= s[i] <= 'Z' ==> lower(s)[i] as u32 == s[i] as u32 + 32,
        !('A' <= s[i] <= 'Z') ==> lower(s)[i] == s[i],
        no_ascii_capital(lower(s)),
        lower(lower(s)) == lower(s),
{
    assert(lower(lower(s)) =~= lower(s));
}

/// Texts are lowered one behind the other as they are lowered together.
pub proof fn law_lower_joined(a: Seq<char>, b: Seq<char>)
    ensures
        lower(a + b) == lower(a) + lower(b),
{
    assert(lower(a + b) =~= lower(a) + lower(b));
}

proof fn lemma_digits_of(n: nat)
    ensures
        dec(n).len() > 0,
        n > 0 ==> dec(n)[0] != '0',
    decreases n,
{
    if n >= 10 {
        lemma_digits_of(n / 10);
        assert(dec(n)[0] == dec(n / 10)[0]);
    }
}

/// The decimal digits of a number begin with no zero that could be left out,
/// and different numbers have different digits.
pub proof fn law_digits_are_canonical(n: nat, m: nat)
    ensures
        all_digits(dec(n)),
        dec(n).len() > 1 ==> dec(n)[0] != '0',
        dec(n) == dec(m) ==> n == m,
        n < 10 ==> dec(n).len() == 1,
        dec(10 * n + 9) == (if n == 0 {
            seq!['9']
        } else {
            dec(n) + seq!['9']
        }),
{
    lemma_dec_roundtrip(n);
    lemma_dec_roundtrip(m);
    lemma_digits_of(n);
    assert((10 * n + 9) / 10 == n);
    assert((10 * n + 9) % 10 == 9);
    assert(('0' as u32 + 9) as char == '9');
    if n > 0 {
        assert(dec(10 * n + 9) =~= dec(n) + seq!['9']);
    } else {
        assert(dec(9) =~= seq!['9']);
    }
}

proof fn lemma_leading_zero(d: Seq<char>)
    ensures
        dec_value(seq!['0'] + d) == dec_value(d),
    decreases d.len(),
{
    let s = seq!['0'] + d;
    if d.len() == 0 {
        assert(s.drop_last() =~= Seq::empty());
        assert(dec_value(Seq::empty()) == 0);
    } else {
        assert(s.drop_last() =~= seq!['0'] + d.drop_last());
        assert(s.last() == d.last());
        lemma_leading_zero(d.drop_last());
    }
}

/// The digits of a number are read as that number when it is small enough, and
/// not at all when it is not; a sign `+` and leading zeros change nothing.
pub proof fn law_number_reads_back(n: nat, max: nat)
    ensures
        uint_spec(dec(n), max) == (if n <= max {
            Some(n)
        } else {
            None
        }),
        uint_spec(seq!['+'] + dec(n), max) == uint_spec(dec(n), max),
        uint_spec(seq!['0'] + dec(n), max) == uint_spec(dec(n), max),
{
    lemma_dec_roundtrip(n);
    let d = dec(n);
    assert(crate::text::is_digit_spec(d[0]));
    assert((seq!['+'] + d).drop_first() =~= d);
    let z = seq!['0'] + d;
    lemma_leading_zero(d);
    assert forall|i: int| 0 <= i < z.len() implies crate::text::is_digit_spec(#[trigger] z[i]) by {
        if i > 0 {
            assert(z[i] == d[i - 1]);
        }
    }
    assert(all_digits(z));
}

/// What reads as a number is a sign or none and digits, with the number's
/// last digit at the end.
pub proof fn law_number_is_digits(s: Seq<char>, max: nat)
    requires
        uint_spec(s, max) is Some,
    ensures
        ({
            let d = if s[0] == '+' {
                s.drop_first()
            } else {
                s
            };
            &&& s.len() > 0
            &&& all_digits(d)
            &&& uint_spec(s, max)->0 <= max
            &&& uint_spec(s, max)->0 % 10 == d.last() as u32 - '0' as u32
            &&& d.len() > 1 ==> uint_spec(d.drop_last(), max) == Some(uint_spec(s, max)->0 / 10)
        }),
{
    let d = if s[0] == '+' {
        s.drop_first()
    } else {
        s
    };
    assert(crate::text::is_digit_spec(d[d.len() - 1]));
    if d.len() > 1 {
        let e = d.drop_last();
        assert forall|i: int| 0 <= i < e.len() implies crate::text::is_digit_spec(#[trigger] e[i]) by {
            assert(e[i] == d[i]);
        }
        assert(crate::text::is_digit_spec(e[0]));
    }
}

/// The white space is that of Unicode: the control characters from tab to
/// carriage return, the next line, and the spaces and separators of each kind.
pub proof fn law_white_space(c: char)
    ensures
        is_space_spec(c) <==> (0x09 <= c as u32 <= 0x0d || c == ' ' || c as u32 == 0x85 || c as u32 == 0xa0
            || c as u32 == 0x1680 || 0x2000 <= c as u32 <= 0x200a || 0x2028 <= c as u32 <= 0x2029 || c as u32
            == 0x202f || c as u32 == 0x205f || c as u32 == 0x3000),
{
}

/// A carriage return goes with the newline behind it, and only one does.
pub proof fn law_carriage_return(s: Seq<char>)
    ensures
        drop_cr(s.push('\r')) == s,
        s.len() == 0 || s.last() != '\r' ==> drop_cr(s) == s,
{
    assert(s.push('\r').drop_last() =~= s);
}

/// What stands behind the last newline is a line too, as it is, unless it is
/// empty.
pub proof fn law_last_line(ls: Seq<Seq<char>>, tail: Seq<char>)
    requires
        forall|i: int| 0 <= i < ls.len() ==> !(#[trigger] ls[i]).contains('\n'),
        !tail.contains('\n'),
    ensures
        tail.len() > 0 ==> lines_spec(ended_lines(ls) + tail) == lines_spec(ended_lines(ls)).push(tail),
        lines_spec(Seq::empty()) == Seq::<Seq<char>>::empty(),
    decreases ls.len(),
{
    if ls.len() == 0 {
        assert(ended_lines(ls) + tail =~= tail);
        lemma_first_at(tail, '\n');
        assert(lines_spec(ended_lines(ls)) =~= Seq::empty());
        if tail.len() > 0 {
            let i = crate::text::first_at(tail, '\n');
            if i < tail.len() {
                assert(tail[i] == '\n');
            }
            assert(lines_spec(tail) =~= lines_spec(ended_lines(ls)).push(tail));
        }
    } else {
        let rest = ls.skip(1);
        assert forall|i: int| 0 <= i < rest.len() implies !(#[trigger] rest[i]).contains('\n') by {
            assert(rest[i] == ls[i + 1]);
        }
        law_last_line(rest, tail);
        let first = ls[0].push('\n');
        assert(!ls[0].contains('\n'));
        lemma_lines_append(first, ended_lines(rest));
        lemma_lines_append(first, ended_lines(rest) + tail);
        assert(ended_lines(ls) =~= first + ended_lines(rest));
        assert(ended_lines(ls) + tail =~= first + (ended_lines(rest) + tail));
        if tail.len() > 0 {
            assert(lines_spec(ended_lines(ls) + tail) =~= lines_spec(ended_lines(ls)).push(tail));
        }
    }
}

} // verus!
