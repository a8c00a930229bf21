//! Text primitives over sequences of characters: searching, splitting,
//! trimming, case folding, and decimal and hexadecimal numbers.

use crate::bytes::constant_time_eq;
use vstd::prelude::*;
use vstd::string::*;
use vstd::utf8::{decode_utf8, encode_utf8};

verus! {

/// Two texts are equal where their UTF-8 bytes are.
pub proof fn lemma_utf8_injective(a: Seq<char>, b: Seq<char>)
    ensures
        encode_utf8(a) == encode_utf8(b) <==> a == b,
{
    broadcast use vstd::utf8::encode_utf8_decode_utf8;

    if encode_utf8(a) == encode_utf8(b) {
        assert(decode_utf8(encode_utf8(a)) == a);
        assert(decode_utf8(encode_utf8(b)) == b);
    }
}

/// Whether two texts hold the same characters.
pub fn same_str(a: &str, b: &str) -> (r: bool)
    ensures
        r == (a@ == b@),
{
    proof {
        lemma_utf8_injective(a@, b@);
    }
    constant_time_eq(a.as_bytes(), b.as_bytes())
}

/// `String::push` of `std`: appends one character.
#[verifier::external_body]
pub(crate) fn push_char(s: &mut String, c: char)
    ensures
        final(s)@ == old(s)@.push(c),
{
    s.push(c)
}

/// The texts held by a sequence of strings.
pub open spec fn views(v: Seq<String>) -> Seq<Seq<char>> {
    Seq::new(v.len(), |i: int| v[i]@)
}

/// Position of the first `x` in `s`, or the length of `s` when there is none.
pub open spec fn first_at<A>(s: Seq<A>, x: A) -> int
    decreases s.len(),
{
    if s.len() == 0 || s[0] == x {
        0
    } else {
        1 + first_at(s.drop_first(), x)
    }
}

/// Position of the last `x` in `s`, or -1 when there is none.
pub open spec fn last_at<A>(s: Seq<A>, x: A) -> int
    decreases s.len(),
{
    if s.len() == 0 {
        -1
    } else if s.last() == x {
        s.len() - 1
    } else {
        last_at(s.drop_last(), x)
    }
}

pub proof fn lemma_first_at<A>(s: Seq<A>, x: A)
    ensures
        0 <= first_at(s, x) <= s.len(),
        first_at(s, x) < s.len() ==> s[first_at(s, x)] == x,
        forall|j: int| 0 <= j < first_at(s, x) ==> s[j] != x,
    decreases s.len(),
{
    if s.len() > 0 && s[0] != x {
        let t = s.drop_first();
        lemma_first_at(t, x);
        assert forall|j: int| 0 <= j < first_at(s, x) implies s[j] != x by {
            if j > 0 {
                assert(s[j] == t[j - 1]);
            }
        }
    }
}

pub proof fn lemma_first_at_is<A>(s: Seq<A>, x: A, i: int)
    requires
        0 <= i <= s.len(),
        i < s.len() ==> s[i] == x,
        forall|j: int| 0 <= j < i ==> s[j] != x,
    ensures
        first_at(s, x) == i,
{
    lemma_first_at(s, x);
    let k = first_at(s, x);
    if k < i {
        assert(s[k] != x);
    } else if i < k {
        assert(s[i] != x);
    }
}

pub proof fn lemma_last_at<A>(s: Seq<A>, x: A)
    ensures
        -1 <= last_at(s, x) < s.len(),
        last_at(s, x) >= 0 ==> s[last_at(s, x)] == x,
        forall|j: int| last_at(s, x) < j < s.len() ==> s[j] != x,
    decreases s.len(),
{
    if s.len() > 0 && s.last() != x {
        let t = s.drop_last();
        lemma_last_at(t, x);
        assert forall|j: int| last_at(s, x) < j < s.len() implies s[j] != x by {
            if j < s.len() - 1 {
                assert(s[j] == t[j]);
            }
        }
    }
}

/// The characters of `s`.
pub fn chars_of(s: &str) -> (r: Vec<char>)
    ensures
        r@ == s@,
{
    let mut out: Vec<char> = Vec::new();
    for c in it: s.chars()
        invariant
            out@ == it.seq().take(it.index()),
            it.seq() == s@,
    {
        out.push(c);
    }
    out
}

/// The text `cs[from..to]`.
pub fn string_range(cs: &Vec<char>, from: usize, to: usize) -> (r: String)
    requires
        from <= to <= cs@.len(),
    ensures
        r@ == cs@.subrange(from as int, to as int),
{
    let mut out = String::new();
    for i in from..to
        invariant
            from <= i <= to <= cs@.len(),
            out@ == cs@.subrange(from as int, i as int),
    {
        push_char(&mut out, cs[i]);
        assert(out@ =~= cs@.subrange(from as int, i + 1));
    }
    out
}

/// Position of the first `c` in `cs`, the length when there is none.
pub fn find_char(cs: &Vec<char>, c: char) -> (r: usize)
    ensures
        r == first_at(cs@, c),
{
    let mut i: usize = 0;
    while i < cs.len()
        invariant
            i <= cs@.len(),
            forall|j: int| 0 <= j < i ==> cs@[j] != c,
        decreases cs@.len() - i,
    {
        if cs[i] == c {
            proof {
                lemma_first_at_is(cs@, c, i as int);
            }
            return i;
        }
        i += 1;
    }
    proof {
        lemma_first_at_is(cs@, c, i as int);
    }
    i
}

/// `s` cut at every `c`.
pub open spec fn split_spec(s: Seq<char>, c: char) -> Seq<Seq<char>>
    decreases s.len(),
{
    let i = first_at(s, c);
    if 0 <= i < s.len() {
        seq![s.take(i)] + split_spec(s.skip(i + 1), c)
    } else {
        seq![s]
    }
}

/// `str::split` on a single character.
pub fn split(s: &str, c: char) -> (r: Vec<String>)
    ensures
        views(r@) == split_spec(s@, c),
{
    let cs = chars_of(s);
    let mut out: Vec<String> = Vec::new();
    let mut start: usize = 0;
    let mut i: usize = 0;
    assert(cs@.skip(0) =~= s@);
    while i < cs.len()
        invariant
            cs@ == s@,
            start <= i <= cs@.len(),
            forall|j: int| start <= j < i ==> cs@[j] != c,
            views(out@) + split_spec(cs@.skip(start as int), c) == split_spec(s@, c),
        decreases cs@.len() - i,
    {
        if cs[i] == c {
            let piece = string_range(&cs, start, i);
            proof {
                let rest = cs@.skip(start as int);
                lemma_first_at_is(rest, c, i - start);
                assert(rest.take(i - start) =~= piece@);
                assert(rest.skip(i - start + 1) =~= cs@.skip(i + 1));
                assert(views(out@.push(piece)) =~= views(out@) + seq![piece@]);
                assert(views(out@) + (seq![piece@] + split_spec(cs@.skip(i + 1), c)) =~= (views(
                    out@,
                ) + seq![piece@]) + split_spec(cs@.skip(i + 1), c));
            }
            out.push(piece);
            start = i + 1;
        }
        i += 1;
    }
    let last = string_range(&cs, start, i);
    proof {
        let rest = cs@.skip(start as int);
        lemma_first_at_is(rest, c, rest.len() as int);
        assert(rest =~= last@);
        assert(views(out@.push(last)) =~= views(out@) + seq![last@]);
    }
    out.push(last);
    out
}

/// Two texts with a separator between them split into the pieces of both.
pub proof fn lemma_split_joined(a: Seq<char>, c: char, b: Seq<char>)
    ensures
        split_spec(a + seq![c] + b, c) == split_spec(a, c) + split_spec(b, c),
    decreases a.len(),
{
    let s = a + seq![c] + b;
    let i = first_at(a, c);
    lemma_first_at(a, c);
    assert forall|j: int| 0 <= j < i implies s[j] != c by {
        assert(s[j] == a[j]);
    }
    lemma_first_at_is(s, c, i);
    if i < a.len() {
        assert(s.take(i) =~= a.take(i));
        assert(s.skip(i + 1) =~= a.skip(i + 1) + seq![c] + b);
        lemma_split_joined(a.skip(i + 1), c, b);
        assert(split_spec(s, c) =~= split_spec(a, c) + split_spec(b, c));
    } else {
        assert(s.take(i) =~= a);
        assert(s.skip(i + 1) =~= b);
        assert(split_spec(s, c) =~= split_spec(a, c) + split_spec(b, c));
    }
}

/// A text without the separator is its only piece.
pub proof fn lemma_split_whole(s: Seq<char>, c: char)
    requires
        !s.contains(c),
    ensures
        split_spec(s, c) == seq![s],
{
    assert forall|j: int| 0 <= j < s.len() implies s[j] != c by {
        assert(s.contains(s[j]));
    }
    lemma_first_at_is(s, c, s.len() as int);
}

/// `s` cut at its first `c`: what stands before and behind it.
pub open spec fn cut_first(s: Seq<char>, c: char) -> Option<(Seq<char>, Seq<char>)> {
    let i = first_at(s, c);
    if i < s.len() {
        Some((s.take(i), s.skip(i + 1)))
    } else {
        None
    }
}

/// `s` cut at its last `c`.
pub open spec fn cut_last(s: Seq<char>, c: char) -> Option<(Seq<char>, Seq<char>)> {
    let i = last_at(s, c);
    if i >= 0 {
        Some((s.take(i), s.skip(i + 1)))
    } else {
        None
    }
}

/// The view of a pair of texts, if there is one.
pub open spec fn pair_view(p: Option<(String, String)>) -> Option<(Seq<char>, Seq<char>)> {
    match p {
        Some((a, b)) => Some((a@, b@)),
        None => None,
    }
}

/// `str::split_once` on a character.
pub fn split_once(s: &str, c: char) -> (r: Option<(String, String)>)
    ensures
        pair_view(r) == cut_first(s@, c),
{
    let cs = chars_of(s);
    let i = find_char(&cs, c);
    proof {
        lemma_first_at(s@, c);
    }
    if i < cs.len() {
        let a = string_range(&cs, 0, i);
        let b = string_range(&cs, i + 1, cs.len());
        assert(a@ =~= s@.take(i as int));
        assert(b@ =~= s@.skip(i + 1));
        Some((a, b))
    } else {
        None
    }
}

/// `str::rsplit_once` on a character.
pub fn rsplit_once(s: &str, c: char) -> (r: Option<(String, String)>)
    ensures
        pair_view(r) == cut_last(s@, c),
{
    let cs = chars_of(s);
    proof {
        lemma_last_at(s@, c);
    }
    let mut i: usize = cs.len();
    while i > 0
        invariant
            cs@ == s@,
            i <= cs@.len(),
            last_at(s@, c) < i,
            -1 <= last_at(s@, c),
            last_at(s@, c) >= 0 ==> s@[last_at(s@, c)] == c,
            forall|j: int| last_at(s@, c) < j < s@.len() ==> s@[j] != c,
        decreases i,
    {
        i -= 1;
        if cs[i] == c {
            let a = string_range(&cs, 0, i);
            let b = string_range(&cs, i + 1, cs.len());
            assert(a@ =~= s@.take(i as int));
            assert(b@ =~= s@.skip(i + 1));
            return Some((a, b));
        }
    }
    None
}

/// The characters with the Unicode property `White_Space`.
pub open spec fn is_space_spec(c: char) -> bool {
    ||| 0x9 <= c as u32 <= 0xd
    ||| c as u32 == 0x20
    ||| c as u32 == 0x85
    ||| c as u32 == 0xa0
    ||| c as u32 == 0x1680
    ||| 0x2000 <= c as u32 <= 0x200a
    ||| c as u32 == 0x2028
    ||| c as u32 == 0x2029
    ||| c as u32 == 0x202f
    ||| c as u32 == 0x205f
    ||| c as u32 == 0x3000
}

/// `char::is_whitespace`.
pub fn is_space(c: char) -> (r: bool)
    ensures
        r == is_space_spec(c),
{
    let u: u32 = c as u32;
    (0x9 <= u && u <= 0xd) || u == 0x20 || u == 0x85 || u == 0xa0 || u == 0x1680 || (0x2000 <= u && u
        <= 0x200a) || u == 0x2028 || u == 0x2029 || u == 0x202f || u == 0x205f || u == 0x3000
}

/// `s` without its leading white space.
pub open spec fn trim_start_spec(s: Seq<char>) -> Seq<char>
    decreases s.len(),
{
    if s.len() > 0 && is_space_spec(s[0]) {
        trim_start_spec(s.drop_first())
    } else {
        s
    }
}

/// `s` without its trailing white space.
pub open spec fn trim_end_spec(s: Seq<char>) -> Seq<char>
    decreases s.len(),
{
    if s.len() > 0 && is_space_spec(s.last()) {
        trim_end_spec(s.drop_last())
    } else {
        s
    }
}

/// `s` without white space at either end.
pub open spec fn trim_spec(s: Seq<char>) -> Seq<char> {
    trim_end_spec(trim_start_spec(s))
}

fn trim_end_from(cs: &Vec<char>, from: usize) -> (to: usize)
    requires
        from <= cs@.len(),
    ensures
        from <= to <= cs@.len(),
        cs@.subrange(from as int, to as int) == trim_end_spec(cs@.skip(from as int)),
{
    let mut to: usize = cs.len();
    assert(cs@.subrange(from as int, to as int) =~= cs@.skip(from as int));
    while to > from && is_space(cs[to - 1])
        invariant
            from <= to <= cs@.len(),
            trim_end_spec(cs@.subrange(from as int, to as int)) == trim_end_spec(
                cs@.skip(from as int),
            ),
        decreases to,
    {
        assert(cs@.subrange(from as int, to as int).drop_last() =~= cs@.subrange(
            from as int,
            to - 1,
        ));
        to -= 1;
    }
    to
}

fn trim_start_of(cs: &Vec<char>) -> (from: usize)
    ensures
        from <= cs@.len(),
        cs@.skip(from as int) == trim_start_spec(cs@),
{
    let mut from: usize = 0;
    assert(cs@.skip(0) =~= cs@);
    while from < cs.len() && is_space(cs[from])
        invariant
            from <= cs@.len(),
            trim_start_spec(cs@.skip(from as int)) == trim_start_spec(cs@),
        decreases cs@.len() - from,
    {
        assert(cs@.skip(from as int).drop_first() =~= cs@.skip(from + 1));
        from += 1;
    }
    from
}

/// `str::trim`.
pub fn trim(s: &str) -> (r: String)
    ensures
        r@ == trim_spec(s@),
{
    let cs = chars_of(s);
    let from = trim_start_of(&cs);
    let to = trim_end_from(&cs, from);
    string_range(&cs, from, to)
}

/// `str::trim_end`.
pub fn trim_end(s: &str) -> (r: String)
    ensures
        r@ == trim_end_spec(s@),
{
    let cs = chars_of(s);
    let to = trim_end_from(&cs, 0);
    assert(cs@.skip(0) =~= cs@);
    string_range(&cs, 0, to)
}

/// Length of the run of `s` up to its first white space.
pub open spec fn word_len(s: Seq<char>) -> int
    decreases s.len(),
{
    if s.len() == 0 || is_space_spec(s[0]) {
        0
    } else {
        1 + word_len(s.drop_first())
    }
}

/// The words of `s`: its maximal runs without white space.
pub open spec fn words_spec(s: Seq<char>) -> Seq<Seq<char>>
    decreases s.len(),
    via words_decreases
{
    let t = trim_start_spec(s);
    if t.len() == 0 {
        Seq::empty()
    } else {
        seq![t.take(word_len(t))] + words_spec(t.skip(word_len(t)))
    }
}

#[via_fn]
proof fn words_decreases(s: Seq<char>) {
    lemma_trim_start(s);
    lemma_word_len(trim_start_spec(s));
}

proof fn lemma_trim_start(s: Seq<char>)
    ensures
        trim_start_spec(s).len() <= s.len(),
        trim_start_spec(s).len() > 0 ==> !is_space_spec(trim_start_spec(s)[0]),
    decreases s.len(),
{
    if s.len() > 0 && is_space_spec(s[0]) {
        lemma_trim_start(s.drop_first());
    }
}

proof fn lemma_word_len(s: Seq<char>)
    ensures
        0 <= word_len(s) <= s.len(),
        s.len() > 0 && !is_space_spec(s[0]) ==> word_len(s) > 0,
    decreases s.len(),
{
    if s.len() > 0 && !is_space_spec(s[0]) {
        lemma_word_len(s.drop_first());
    }
}

/// `str::split_whitespace`.
pub fn split_whitespace(s: &str) -> (r: Vec<String>)
    ensures
        views(r@) == words_spec(s@),
{
    let mut rest = chars_of(s);
    let mut out: Vec<String> = Vec::new();
    loop
        invariant
            views(out@) + words_spec(rest@) == words_spec(s@),
        decreases rest@.len(),
    {
        let ghost before = rest@;
        let from = trim_start_of(&rest);
        let ghost t = rest@.skip(from as int);
        let mut to: usize = from;
        assert(rest@.skip(to as int) =~= t);
        while to < rest.len() && !is_space(rest[to])
            invariant
                from <= to <= rest@.len(),
                word_len(t) == (to - from) + word_len(rest@.skip(to as int)),
            decreases rest@.len() - to,
        {
            assert(rest@.skip(to as int).drop_first() =~= rest@.skip(to + 1));
            to += 1;
        }
        if from == rest.len() {
            assert(words_spec(before) =~= Seq::empty());
            assert(views(out@) =~= words_spec(s@));
            return out;
        }
        let word = string_range(&rest, from, to);
        let mut tail: Vec<char> = Vec::new();
        for i in to..rest.len()
            invariant
                to <= i <= rest@.len(),
                tail@ == rest@.subrange(to as int, i as int),
        {
            tail.push(rest[i]);
            assert(tail@ =~= rest@.subrange(to as int, i + 1));
        }
        proof {
            lemma_trim_start(before);
            lemma_word_len(t);
            assert(t.take(word_len(t)) =~= word@);
            assert(t.skip(word_len(t)) =~= tail@);
            assert(views(out@.push(word)) =~= views(out@) + seq![word@]);
            assert(views(out@) + (seq![word@] + words_spec(tail@)) =~= (views(out@) + seq![word@])
                + words_spec(tail@));
        }
        out.push(word);
        rest = tail;
    }
}

/// A terminated line without its carriage return.
pub open spec fn drop_cr(s: Seq<char>) -> Seq<char> {
    if s.len() > 0 && s.last() == '\r' {
        s.drop_last()
    } else {
        s
    }
}

/// The lines of `s`, without their terminators.
pub open spec fn lines_spec(s: Seq<char>) -> Seq<Seq<char>>
    decreases s.len(),
{
    let i = first_at(s, '\n');
    if s.len() == 0 {
        Seq::empty()
    } else if 0 <= i < s.len() {
        seq![drop_cr(s.take(i))] + lines_spec(s.skip(i + 1))
    } else {
        seq![s]
    }
}

/// `str::lines`.
pub fn lines(s: &str) -> (r: Vec<String>)
    ensures
        views(r@) == lines_spec(s@),
{
    let cs = chars_of(s);
    let mut out: Vec<String> = Vec::new();
    let mut start: usize = 0;
    let mut i: usize = 0;
    assert(cs@.skip(0) =~= s@);
    while i < cs.len()
        invariant
            cs@ == s@,
            start <= i <= cs@.len(),
            forall|j: int| start <= j < i ==> cs@[j] != '\n',
            views(out@) + lines_spec(cs@.skip(start as int)) == lines_spec(s@),
        decreases cs@.len() - i,
    {
        if cs[i] == '\n' {
            let end: usize = if i > start && cs[i - 1] == '\r' {
                i - 1
            } else {
                i
            };
            let line = string_range(&cs, start, end);
            proof {
                let rest = cs@.skip(start as int);
                lemma_first_at_is(rest, '\n', i - start);
                assert(drop_cr(rest.take(i - start)) =~= line@);
                assert(rest.skip(i - start + 1) =~= cs@.skip(i + 1));
                assert(views(out@.push(line)) =~= views(out@) + seq![line@]);
                assert(views(out@) + (seq![line@] + lines_spec(cs@.skip(i + 1))) =~= (views(out@)
                    + seq![line@]) + lines_spec(cs@.skip(i + 1)));
            }
            out.push(line);
            start = i + 1;
        }
        i += 1;
    }
    let ghost rest = cs@.skip(start as int);
    if start < cs.len() {
        let line = string_range(&cs, start, i);
        proof {
            lemma_first_at_is(rest, '\n', rest.len() as int);
            assert(rest =~= line@);
            assert(views(out@.push(line)) =~= views(out@) + seq![line@]);
        }
        out.push(line);
    } else {
        assert(lines_spec(rest) =~= Seq::empty());
        assert(views(out@) =~= lines_spec(s@));
    }
    out
}

/// Whether `s` begins with `p`.
pub open spec fn has_prefix(s: Seq<char>, p: Seq<char>) -> bool {
    p.len() <= s.len() && s.take(p.len() as int) == p
}

/// Whether `s` ends with `p`.
pub open spec fn has_suffix(s: Seq<char>, p: Seq<char>) -> bool {
    p.len() <= s.len() && s.skip(s.len() - p.len()) == p
}

/// `s` without the prefix `p`, if it has it.
pub open spec fn strip_prefix_spec(s: Seq<char>, p: Seq<char>) -> Option<Seq<char>> {
    if has_prefix(s, p) {
        Some(s.skip(p.len() as int))
    } else {
        None
    }
}

/// `s` without the suffix `p`, if it has it.
pub open spec fn strip_suffix_spec(s: Seq<char>, p: Seq<char>) -> Option<Seq<char>> {
    if has_suffix(s, p) {
        Some(s.take(s.len() - p.len()))
    } else {
        None
    }
}

/// The view of an optional text.
pub open spec fn opt_view(o: Option<String>) -> Option<Seq<char>> {
    match o {
        Some(t) => Some(t@),
        None => None,
    }
}

fn matches_at(cs: &Vec<char>, at: usize, ps: &Vec<char>) -> (r: bool)
    requires
        at + ps@.len() <= cs@.len(),
    ensures
        r == (cs@.subrange(at as int, at + ps@.len()) == ps@),
{
    let mut i: usize = 0;
    while i < ps.len()
        invariant
            i <= ps@.len(),
            at + ps@.len() <= cs.len(),
            forall|j: int| 0 <= j < i ==> cs@[at + j] == ps@[j],
        decreases ps@.len() - i,
    {
        if cs[at + i] != ps[i] {
            assert(cs@.subrange(at as int, at + ps@.len())[i as int] != ps@[i as int]);
            return false;
        }
        i += 1;
    }
    assert(cs@.subrange(at as int, at + ps@.len()) =~= ps@);
    true
}

/// `str::starts_with`.
pub fn starts_with(s: &str, p: &str) -> (r: bool)
    ensures
        r == has_prefix(s@, p@),
{
    let cs = chars_of(s);
    let ps = chars_of(p);
    assert(p@.len() <= s@.len() ==> s@.subrange(0, p@.len() as int) =~= s@.take(p@.len() as int));
    ps.len() <= cs.len() && matches_at(&cs, 0, &ps)
}

/// `str::ends_with`.
pub fn ends_with(s: &str, p: &str) -> (r: bool)
    ensures
        r == has_suffix(s@, p@),
{
    let cs = chars_of(s);
    let ps = chars_of(p);
    assert(p@.len() <= s@.len() ==> s@.subrange(s@.len() - p@.len(), s@.len() as int) =~= s@.skip(
        s@.len() - p@.len(),
    ));
    ps.len() <= cs.len() && matches_at(&cs, cs.len() - ps.len(), &ps)
}

/// `str::strip_prefix`.
pub fn strip_prefix(s: &str, p: &str) -> (r: Option<String>)
    ensures
        opt_view(r) == strip_prefix_spec(s@, p@),
{
    if starts_with(s, p) {
        let cs = chars_of(s);
        let ps = chars_of(p);
        let rest = string_range(&cs, ps.len(), cs.len());
        assert(rest@ =~= s@.skip(p@.len() as int));
        Some(rest)
    } else {
        None
    }
}

/// `str::strip_suffix`.
pub fn strip_suffix(s: &str, p: &str) -> (r: Option<String>)
    ensures
        opt_view(r) == strip_suffix_spec(s@, p@),
{
    if ends_with(s, p) {
        let cs = chars_of(s);
        let ps = chars_of(p);
        let rest = string_range(&cs, 0, cs.len() - ps.len());
        assert(rest@ =~= s@.take(s@.len() - p@.len()));
        Some(rest)
    } else {
        None
    }
}

/// Whether the character `c` occurs in `s`.
pub fn contains_char(s: &str, c: char) -> (r: bool)
    ensures
        r == s@.contains(c),
{
    let cs = chars_of(s);
    let i = find_char(&cs, c);
    proof {
        lemma_first_at(s@, c);
        if i < s@.len() {
            assert(s@[i as int] == c);
        }
    }
    i < cs.len()
}

/// The lower-case form of an ASCII letter; any other character as it is.
pub open spec fn lower_char(c: char) -> char {
    if 'A' <= c <= 'Z' {
        (c as u32 + 32) as char
    } else {
        c
    }
}

/// `s` with its ASCII letters in lower case.
pub open spec fn lower(s: Seq<char>) -> Seq<char> {
    s.map_values(|c: char| lower_char(c))
}

fn to_lower_char(c: char) -> (r: char)
    ensures
        r == lower_char(c),
{
    if 'A' <= c && c <= 'Z' {
        ((c as u8) + 32) as char
    } else {
        c
    }
}

/// `str::to_ascii_lowercase`.
pub fn to_ascii_lowercase(s: &str) -> (r: String)
    ensures
        r@ == lower(s@),
{
    let cs = chars_of(s);
    let mut out = String::new();
    for i in 0..cs.len()
        invariant
            cs@ == s@,
            out@ == lower(s@.take(i as int)),
    {
        let c = to_lower_char(cs[i]);
        assert(s@.take(i + 1) =~= s@.take(i as int).push(s@[i as int]));
        assert(lower(s@.take(i + 1)) =~= lower(s@.take(i as int)).push(c));
        push_char(&mut out, c);
    }
    assert(s@.take(s@.len() as int) =~= s@);
    out
}

/// `str::eq_ignore_ascii_case`.
pub fn eq_ignore_ascii_case(a: &str, b: &str) -> (r: bool)
    ensures
        r == (lower(a@) == lower(b@)),
{
    let x = to_ascii_lowercase(a);
    let y = to_ascii_lowercase(b);
    same_str(x.as_str(), y.as_str())
}

/// Whether `c` is one of `0` to `9`.
pub open spec fn is_digit_spec(c: char) -> bool {
    '0' <= c <= '9'
}

/// Whether `s` is a non-empty run of decimal digits.
pub open spec fn all_digits(s: Seq<char>) -> bool {
    s.len() > 0 && forall|i: int| 0 <= i < s.len() ==> is_digit_spec(#[trigger] s[i])
}

/// The number that the digits `s` write in base ten.
pub open spec fn dec_value(s: Seq<char>) -> nat
    decreases s.len(),
{
    if s.len() == 0 {
        0
    } else {
        (10 * dec_value(s.drop_last()) + (s.last() as u32 - '0' as u32)) as nat
    }
}

/// The unsigned number no larger than `max` that `s` writes: digits behind an optional `+`.
pub open spec fn uint_spec(s: Seq<char>, max: nat) -> Option<nat> {
    let d = if s.len() > 0 && s[0] == '+' {
        s.drop_first()
    } else {
        s
    };
    if all_digits(d) && dec_value(d) <= max {
        Some(dec_value(d))
    } else {
        None
    }
}

proof fn lemma_dec_value_grows(s: Seq<char>, i: int)
    requires
        0 <= i <= s.len(),
        forall|j: int| 0 <= j < s.len() ==> is_digit_spec(#[trigger] s[j]),
    ensures
        dec_value(s.take(i)) <= dec_value(s),
    decreases s.len() - i,
{
    if i < s.len() {
        lemma_dec_value_grows(s, i + 1);
        assert(s.take(i + 1).drop_last() =~= s.take(i));
        assert(is_digit_spec(s[i]));
    } else {
        assert(s.take(i) =~= s);
    }
}

/// `str::parse` for an unsigned number no larger than `max`.
pub fn parse_uint(s: &str, max: u64) -> (r: Option<u64>)
    ensures
        match uint_spec(s@, max as nat) {
            Some(v) => r == Some(v as u64) && v <= max,
            None => r is None,
        },
{
    let cs = chars_of(s);
    let from: usize = if cs.len() > 0 && cs[0] == '+' {
        1
    } else {
        0
    };
    let ghost d = if s@.len() > 0 && s@[0] == '+' {
        s@.drop_first()
    } else {
        s@
    };
    assert(cs@.skip(from as int) =~= d);
    if from == cs.len() {
        return None;
    }
    let mut v: u64 = 0;
    let mut i: usize = from;
    assert(d.take(0) =~= Seq::<char>::empty());
    while i < cs.len()
        invariant
            from <= i <= cs@.len(),
            d == cs@.skip(from as int),
            uint_spec(s@, max as nat) == (if all_digits(d) && dec_value(d) <= max {
                Some(dec_value(d))
            } else {
                None
            }),
            forall|j: int| 0 <= j < i - from ==> is_digit_spec(#[trigger] d[j]),
            v == dec_value(d.take(i - from)),
            v <= max,
        decreases cs@.len() - i,
    {
        let c = cs[i];
        assert(d[i - from] == c);
        if c < '0' || c > '9' {
            assert(!is_digit_spec(d[i - from]));
            return None;
        }
        let digit: u64 = (c as u32 - '0' as u32) as u64;
        let ghost next = d.take(i - from + 1);
        assert(next.drop_last() =~= d.take(i - from));
        proof {
            if all_digits(d) {
                lemma_dec_value_grows(d, i - from + 1);
            }
        }
        if v > (max - digit.min(max)) / 10 || digit > max {
            assert(10 * v + digit > max);
            return None;
        }
        assert(10 * v + digit <= max);
        v = 10 * v + digit;
        i += 1;
    }
    assert(d.take(d.len() as int) =~= d);
    Some(v)
}

/// The decimal digits of `n`.
pub open spec fn dec(n: nat) -> Seq<char>
    decreases n,
{
    if n < 10 {
        seq![('0' as u32 + n) as char]
    } else {
        dec(n / 10).push(('0' as u32 + n % 10) as char)
    }
}

/// Appends `n` in decimal.
pub fn push_u64(out: &mut String, n: u64)
    ensures
        final(out)@ == old(out)@ + dec(n as nat),
    decreases n,
{
    if n >= 10 {
        push_u64(out, n / 10);
    }
    let c = (0x30u8 + (n % 10) as u8) as char;
    push_char(out, c);
    assert(out@ =~= old(out)@ + dec(n as nat));
}

/// A number's decimal digits read back as that number.
pub proof fn lemma_dec_roundtrip(n: nat)
    ensures
        all_digits(dec(n)),
        dec_value(dec(n)) == n,
    decreases n,
{
    let c = ('0' as u32 + n % 10) as char;
    if n < 10 {
        assert(dec(n).drop_last() =~= Seq::<char>::empty());
        assert(dec_value(dec(n).drop_last()) == 0);
    } else {
        lemma_dec_roundtrip(n / 10);
        assert(dec(n).drop_last() =~= dec(n / 10));
        assert forall|i: int| 0 <= i < dec(n).len() implies is_digit_spec(#[trigger] dec(n)[i]) by {
            if i < dec(n / 10).len() {
                assert(dec(n)[i] == dec(n / 10)[i]);
                assert(is_digit_spec(dec(n / 10)[i]));
            }
        }
    }
}

/// The upper-case hexadecimal digit of `n`.
pub open spec fn upper_hex(n: int) -> char {
    if n < 10 {
        ('0' as u32 + n) as char
    } else {
        ('A' as u32 + (n - 10)) as char
    }
}

/// The lower-case hexadecimal digit of `n`.
pub open spec fn lower_hex(n: int) -> char {
    if n < 10 {
        ('0' as u32 + n) as char
    } else {
        ('a' as u32 + (n - 10)) as char
    }
}

/// The upper-case hexadecimal digit of `n`.
pub fn upper_hex_digit(n: u8) -> (c: char)
    requires
        n < 16,
    ensures
        c == upper_hex(n as int),
{
    if n < 10 {
        (0x30u8 + n) as char
    } else {
        (0x41u8 + (n - 10)) as char
    }
}

/// The lower-case hexadecimal digit of `n`.
pub fn lower_hex_digit(n: u8) -> (c: char)
    requires
        n < 16,
    ensures
        c == lower_hex(n as int),
{
    if n < 10 {
        (0x30u8 + n) as char
    } else {
        (0x61u8 + (n - 10)) as char
    }
}

/// Whether every character is white space.
pub open spec fn all_space(s: Seq<char>) -> bool {
    forall|i: int| 0 <= i < s.len() ==> is_space_spec(#[trigger] s[i])
}

proof fn lemma_trim_start_pad(w: Seq<char>, x: Seq<char>)
    requires
        all_space(w),
    ensures
        trim_start_spec(w + x) == trim_start_spec(x),
    decreases w.len(),
{
    if w.len() == 0 {
        assert(w + x =~= x);
    } else {
        assert(is_space_spec(w[0]));
        assert((w + x).drop_first() =~= w.drop_first() + x);
        assert(all_space(w.drop_first()));
        lemma_trim_start_pad(w.drop_first(), x);
    }
}

proof fn lemma_trim_end_pad(x: Seq<char>, w: Seq<char>)
    requires
        all_space(w),
    ensures
        trim_end_spec(x + w) == trim_end_spec(x),
    decreases w.len(),
{
    if w.len() == 0 {
        assert(x + w =~= x);
    } else {
        assert(is_space_spec(w.last()));
        assert((x + w).drop_last() =~= x + w.drop_last());
        assert(all_space(w.drop_last()));
        lemma_trim_end_pad(x, w.drop_last());
    }
}

proof fn lemma_trim_start_tail(x: Seq<char>, w: Seq<char>)
    requires
        all_space(w),
    ensures
        trim_start_spec(x).len() > 0 ==> trim_start_spec(x + w) == trim_start_spec(x) + w,
        trim_start_spec(x).len() == 0 ==> trim_start_spec(x + w).len() == 0,
    decreases x.len(),
{
    if x.len() == 0 {
        assert(x + w =~= w);
        lemma_trim_start_pad(w, Seq::empty());
        assert(w + Seq::<char>::empty() =~= w);
    } else if is_space_spec(x[0]) {
        assert((x + w).drop_first() =~= x.drop_first() + w);
        lemma_trim_start_tail(x.drop_first(), w);
    }
}

/// White space around a text does not change what is left after trimming.
pub proof fn lemma_trim_pad(w1: Seq<char>, x: Seq<char>, w2: Seq<char>)
    requires
        all_space(w1),
        all_space(w2),
    ensures
        trim_spec(w1 + x + w2) == trim_spec(x),
{
    assert(w1 + x + w2 =~= w1 + (x + w2));
    lemma_trim_start_pad(w1, x + w2);
    lemma_trim_start_tail(x, w2);
    if trim_start_spec(x).len() > 0 {
        lemma_trim_end_pad(trim_start_spec(x), w2);
    } else {
        assert(trim_start_spec(x) =~= trim_start_spec(x + w2));
    }
}

proof fn lemma_trim_start_cut(s: Seq<char>) -> (a: int)
    ensures
        0 <= a <= s.len(),
        trim_start_spec(s) == s.skip(a),
        all_space(s.take(a)),
    decreases s.len(),
{
    if s.len() > 0 && is_space_spec(s[0]) {
        let b = lemma_trim_start_cut(s.drop_first());
        assert(s.drop_first().skip(b) =~= s.skip(b + 1));
        assert forall|i: int| 0 <= i < s.take(b + 1).len() implies is_space_spec(
            #[trigger] s.take(b + 1)[i],
        ) by {
            if i > 0 {
                assert(s.drop_first().take(b)[i - 1] == s[i]);
            }
        }
        b + 1
    } else {
        assert(s.skip(0) =~= s);
        0
    }
}

proof fn lemma_trim_end_cut(s: Seq<char>) -> (b: int)
    ensures
        0 <= b <= s.len(),
        trim_end_spec(s) == s.take(b),
        all_space(s.skip(b)),
    decreases s.len(),
{
    if s.len() > 0 && is_space_spec(s.last()) {
        let b = lemma_trim_end_cut(s.drop_last());
        assert(s.drop_last().take(b) =~= s.take(b));
        assert forall|i: int| 0 <= i < s.skip(b).len() implies is_space_spec(#[trigger] s.skip(b)[i]) by {
            if i < s.len() - b - 1 {
                assert(s.drop_last().skip(b)[i] == s[b + i]);
            }
        }
        b
    } else {
        assert(s.take(s.len() as int) =~= s);
        s.len() as int
    }
}

/// Trimming cuts white space off both ends and nothing else.
pub proof fn lemma_trim_cut(s: Seq<char>) -> (cut: (int, int))
    ensures
        0 <= cut.0 <= cut.1 <= s.len(),
        trim_spec(s) == s.subrange(cut.0, cut.1),
        all_space(s.take(cut.0)),
        all_space(s.skip(cut.1)),
{
    let a = lemma_trim_start_cut(s);
    let t = s.skip(a);
    let b = lemma_trim_end_cut(t);
    assert(t.take(b) =~= s.subrange(a, a + b));
    assert(t.skip(b) =~= s.skip(a + b));
    (a, a + b)
}

/// The lines of a text that ends in a newline, and of what follows it.
pub proof fn lemma_lines_append(a: Seq<char>, b: Seq<char>)
    requires
        a.len() > 0 ==> a.last() == '\n',
    ensures
        lines_spec(a + b) == lines_spec(a) + lines_spec(b),
    decreases a.len(),
{
    if a.len() == 0 {
        assert(a + b =~= b);
        assert(lines_spec(a) + lines_spec(b) =~= lines_spec(b));
    } else {
        lemma_first_at(a, '\n');
        let i = first_at(a, '\n');
        assert(i < a.len()) by {
            if i == a.len() {
                assert(a[a.len() - 1] != '\n');
            }
        }
        assert forall|j: int| 0 <= j < i implies (a + b)[j] != '\n' by {
            assert((a + b)[j] == a[j]);
        }
        lemma_first_at_is(a + b, '\n', i);
        let rest = a.skip(i + 1);
        assert((a + b).take(i) =~= a.take(i));
        assert((a + b).skip(i + 1) =~= rest + b);
        if rest.len() > 0 {
            assert(rest.last() == a.last());
        }
        lemma_lines_append(rest, b);
        let head = seq![drop_cr(a.take(i))];
        assert(head + (lines_spec(rest) + lines_spec(b)) =~= (head + lines_spec(rest)) + lines_spec(b));
    }
}

/// One line and its terminator.
pub proof fn lemma_lines_single(l: Seq<char>)
    requires
        !l.contains('\n'),
    ensures
        lines_spec(l.push('\n')) == seq![drop_cr(l)],
{
    let s = l.push('\n');
    assert forall|j: int| 0 <= j < l.len() implies s[j] != '\n' by {
        assert(l.contains(l[j]));
    }
    lemma_first_at_is(s, '\n', l.len() as int);
    assert(s.take(l.len() as int) =~= l);
    assert(s.skip(l.len() as int + 1).len() == 0);
    assert(lines_spec(s.skip(l.len() as int + 1)) =~= Seq::empty());
    assert(lines_spec(s) =~= seq![drop_cr(l)]);
}

/// No line holds a newline.
pub proof fn lemma_lines_have_no_newline(s: Seq<char>)
    ensures
        forall|i: int| 0 <= i < lines_spec(s).len() ==> !(#[trigger] lines_spec(s)[i]).contains('\n'),
    decreases s.len(),
{
    if s.len() > 0 {
        lemma_first_at(s, '\n');
        let i = first_at(s, '\n');
        if i < s.len() {
            lemma_lines_have_no_newline(s.skip(i + 1));
            let line = drop_cr(s.take(i));
            assert forall|k: int| 0 <= k < lines_spec(s).len() implies !(#[trigger] lines_spec(
                s,
            )[k]).contains('\n') by {
                if k == 0 {
                    assert(lines_spec(s)[0] == line);
                    assert forall|j: int| 0 <= j < line.len() implies line[j] != '\n' by {
                        assert(line[j] == s[j]);
                    }
                } else {
                    assert(lines_spec(s)[k] == lines_spec(s.skip(i + 1))[k - 1]);
                }
            }
        } else {
            assert forall|k: int| 0 <= k < lines_spec(s).len() implies !(#[trigger] lines_spec(
                s,
            )[k]).contains('\n') by {
                assert forall|j: int| 0 <= j < s.len() implies s[j] != '\n' by {}
            }
        }
    }
}

/// A terminator's carriage return is white space.
pub proof fn lemma_trim_drop_cr(l: Seq<char>)
    ensures
        trim_spec(drop_cr(l)) == trim_spec(l),
{
    if l.len() > 0 && l.last() == '\r' {
        let w = seq!['\r'];
        assert(all_space(w));
        assert(all_space(Seq::<char>::empty()));
        lemma_trim_pad(Seq::empty(), l.drop_last(), w);
        assert(Seq::<char>::empty() + l.drop_last() + w =~= l);
    }
}

/// Terminating the last line of a text changes at most its carriage return.
pub proof fn lemma_lines_terminated(s: Seq<char>)
    requires
        s.len() > 0,
        s.last() != '\n',
    ensures
        lines_spec(s).len() > 0,
        lines_spec(s.push('\n')) == lines_spec(s).drop_last().push(drop_cr(lines_spec(s).last())),
    decreases s.len(),
{
    lemma_first_at(s, '\n');
    let i = first_at(s, '\n');
    let t = s.push('\n');
    if i == s.len() {
        assert forall|j: int| 0 <= j < s.len() implies t[j] != '\n' by {
            assert(t[j] == s[j]);
        }
        lemma_first_at_is(t, '\n', i);
        assert(t.take(i) =~= s);
        assert(t.skip(i + 1).len() == 0);
        assert(lines_spec(t.skip(i + 1)) =~= Seq::empty());
        assert(lines_spec(t) =~= seq![drop_cr(s)]);
        assert(lines_spec(s).drop_last().push(drop_cr(lines_spec(s).last())) =~= seq![drop_cr(s)]);
    } else {
        assert forall|j: int| 0 <= j < i implies t[j] != '\n' by {
            assert(t[j] == s[j]);
        }
        lemma_first_at_is(t, '\n', i);
        let rest = s.skip(i + 1);
        assert(rest.len() > 0) by {
            if i == s.len() - 1 {
                assert(s[i] == '\n');
            }
        }
        assert(rest.last() == s.last());
        lemma_lines_terminated(rest);
        assert(t.take(i) =~= s.take(i));
        assert(t.skip(i + 1) =~= rest.push('\n'));
        let head = seq![drop_cr(s.take(i))];
        assert(lines_spec(s) == head + lines_spec(rest));
        assert(lines_spec(s).last() == lines_spec(rest).last());
        assert(head + lines_spec(rest).drop_last().push(drop_cr(lines_spec(rest).last())) =~= (head
            + lines_spec(rest)).drop_last().push(drop_cr(lines_spec(rest).last())));
    }
}

/// Whether no character is white space.
pub open spec fn no_space(s: Seq<char>) -> bool {
    forall|i: int| 0 <= i < s.len() ==> !is_space_spec(#[trigger] s[i])
}

proof fn lemma_word_len_is(w: Seq<char>, rest: Seq<char>)
    requires
        no_space(w),
        rest.len() == 0 || is_space_spec(rest[0]),
    ensures
        word_len(w + rest) == w.len(),
    decreases w.len(),
{
    if w.len() == 0 {
        assert(w + rest =~= rest);
    } else {
        assert(!is_space_spec(w[0]));
        assert((w + rest).drop_first() =~= w.drop_first() + rest);
        assert(no_space(w.drop_first())) by {
            assert forall|i: int| 0 <= i < w.drop_first().len() implies !is_space_spec(
                #[trigger] w.drop_first()[i],
            ) by {
                assert(w.drop_first()[i] == w[i + 1]);
            }
        }
        lemma_word_len_is(w.drop_first(), rest);
    }
}

/// A word at the front of a text, behind nothing and before white space or the end.
pub proof fn lemma_words_cons(w: Seq<char>, rest: Seq<char>)
    requires
        w.len() > 0,
        no_space(w),
        rest.len() == 0 || is_space_spec(rest[0]),
    ensures
        words_spec(w + rest) == seq![w] + words_spec(rest),
{
    let s = w + rest;
    assert(!is_space_spec(w[0]));
    assert(trim_start_spec(s) == s);
    lemma_word_len_is(w, rest);
    assert(s.take(w.len() as int) =~= w);
    assert(s.skip(w.len() as int) =~= rest);
}

/// Leading white space separates no words.
pub proof fn lemma_words_skip_space(w: Seq<char>, s: Seq<char>)
    requires
        all_space(w),
    ensures
        words_spec(w + s) == words_spec(s),
{
    lemma_trim_start_pad(w, s);
}

} // verus!
