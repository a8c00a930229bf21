//! `authorized_keys` parser and in-memory index.
//!
//! One entry per line:
//! ```text
//! ed25519 <base64-pubkey> [key=value,key=value] [# comment]
//! ```
//!
//! The recognised options are `subdomain=<name[,name...]|*>`,
//! `ports=<p[,p...]>`, `conns=<n>`, `bw=<n><unit>/<period>`,
//! `quota=<n><unit>/<period>` and `federation=<apex[,apex...]>`. Any other
//! `key=value` is taken as it stands and ignored. Options are separated by white
//! space or commas; a fragment without `=` continues the value before it.

use crate::codec::{base64_bytes, base64_decode};
use crate::proto::ids::{same_key, PubKey};
use crate::server::error::ServerError;
use crate::server::rate::{parse_rate_per, rate_spec, RatePer};
use crate::text::{
    all_space, chars_of, cut_first, dec, drop_cr, ends_with, first_at, has_suffix, is_space_spec, lemma_first_at,
    lemma_first_at_is, lemma_lines_append, lemma_lines_have_no_newline, lemma_lines_single, lemma_lines_terminated,
    lemma_trim_cut, lemma_trim_drop_cr, lemma_trim_pad, lines, lines_spec, opt_view, parse_uint, push_u64, same_str,
    split, split_once, split_spec, split_whitespace, trim, trim_end, trim_end_spec, trim_spec, uint_spec, views,
    words_spec,
};
use crate::vec_map::{lemma_vec_map, SameKey, VecMap};
use vstd::prelude::*;
use vstd::string::*;

verus! {

impl View for PubKey {
    type V = Seq<u8>;

    open spec fn view(&self) -> Seq<u8> {
        self.0@
    }
}

impl SameKey for PubKey {
    fn same(&self, other: &PubKey) -> (r: bool) {
        assert(self.0@ == other.0@ ==> self.0 == other.0);
        same_key(self, other)
    }
}

/// A single trust entry.
#[derive(Debug, Clone, PartialEq, Eq)]
pub struct AuthorizedEntry {
    pub allow_any_subdomain: bool,
    pub allowed_subdomains: Vec<String>,
    pub max_conns: Option<u32>,
    /// Remote TCP ports that may be asked for; `None` is no restriction.
    pub allowed_ports: Option<Vec<u16>>,
    /// Bandwidth cap.
    pub bw: Option<RatePer>,
    /// Period quota.
    pub quota: Option<RatePer>,
    /// Apex domains of the relays on which this identity may publish the same tunnel.
    pub federation: Vec<String>,
    pub comment: Option<String>,
}

/// What an entry says.
pub struct EntryView {
    pub allow_any_subdomain: bool,
    pub allowed_subdomains: Seq<Seq<char>>,
    pub max_conns: Option<u32>,
    pub allowed_ports: Option<Seq<u16>>,
    pub bw: Option<RatePer>,
    pub quota: Option<RatePer>,
    pub federation: Seq<Seq<char>>,
    pub comment: Option<Seq<char>>,
}

/// The view of an optional list of ports.
pub open spec fn ports_view(o: Option<Vec<u16>>) -> Option<Seq<u16>> {
    match o {
        Some(v) => Some(v@),
        None => None,
    }
}

impl View for AuthorizedEntry {
    type V = EntryView;

    open spec fn view(&self) -> EntryView {
        EntryView {
            allow_any_subdomain: self.allow_any_subdomain,
            allowed_subdomains: views(self.allowed_subdomains@),
            max_conns: self.max_conns,
            allowed_ports: ports_view(self.allowed_ports),
            bw: self.bw,
            quota: self.quota,
            federation: views(self.federation@),
            comment: opt_view(self.comment),
        }
    }
}

impl EntryView {
    /// An entry that grants nothing beyond the defaults.
    pub open spec fn blank() -> EntryView {
        EntryView {
            allow_any_subdomain: false,
            allowed_subdomains: Seq::empty(),
            max_conns: None,
            allowed_ports: None,
            bw: None,
            quota: None,
            federation: Seq::empty(),
            comment: None,
        }
    }

    /// Whether two entries grant the same; the comment does not count.
    pub open spec fn same_authorization(self, other: EntryView) -> bool {
        self == EntryView { comment: self.comment, ..other }
    }
}

fn same_texts(a: &Vec<String>, b: &Vec<String>) -> (r: bool)
    ensures
        r == (views(a@) == views(b@)),
{
    assert(views(a@).len() == a@.len() && views(b@).len() == b@.len());
    if a.len() != b.len() {
        return false;
    }
    let mut i: usize = 0;
    while i < a.len()
        invariant
            i <= a@.len(),
            a@.len() == b@.len(),
            forall|j: int| 0 <= j < i ==> (#[trigger] a@[j])@ == b@[j]@,
        decreases a@.len() - i,
    {
        if !same_str(a[i].as_str(), b[i].as_str()) {
            assert(views(a@)[i as int] != views(b@)[i as int]);
            return false;
        }
        i += 1;
    }
    assert(views(a@) =~= views(b@));
    true
}

fn same_numbers(x: &Vec<u16>, y: &Vec<u16>) -> (r: bool)
    ensures
        r == (x@ == y@),
{
    if x.len() != y.len() {
        return false;
    }
    let mut i: usize = 0;
    while i < x.len()
        invariant
            i <= x@.len(),
            x@.len() == y@.len(),
            forall|j: int| 0 <= j < i ==> x@[j] == y@[j],
        decreases x@.len() - i,
    {
        if x[i] != y[i] {
            return false;
        }
        i += 1;
    }
    assert(x@ =~= y@);
    true
}

fn same_ports(a: &Option<Vec<u16>>, b: &Option<Vec<u16>>) -> (r: bool)
    ensures
        r == (ports_view(*a) == ports_view(*b)),
{
    match (a, b) {
        (None, None) => true,
        (Some(x), Some(y)) => same_numbers(x, y),
        _ => false,
    }
}

fn same_rate(a: &Option<RatePer>, b: &Option<RatePer>) -> (r: bool)
    ensures
        r == (*a == *b),
{
    match (a, b) {
        (None, None) => true,
        (Some(x), Some(y)) => *x == *y,
        _ => false,
    }
}

fn copy_texts(v: &Vec<String>) -> (r: Vec<String>)
    ensures
        views(r@) == views(v@),
{
    let mut out: Vec<String> = Vec::new();
    for i in 0..v.len()
        invariant
            out@.len() == i,
            forall|j: int| 0 <= j < i ==> (#[trigger] out@[j])@ == v@[j]@,
    {
        out.push(v[i].clone());
    }
    assert(views(out@) =~= views(v@));
    out
}

fn copy_ports(v: &Option<Vec<u16>>) -> (r: Option<Vec<u16>>)
    ensures
        ports_view(r) == ports_view(*v),
{
    match v {
        None => None,
        Some(p) => {
            let mut out: Vec<u16> = Vec::new();
            for i in 0..p.len()
                invariant
                    out@ == p@.take(i as int),
            {
                out.push(p[i]);
                assert(out@ =~= p@.take(i + 1));
            }
            assert(p@.take(p@.len() as int) =~= p@);
            Some(out)
        },
    }
}

impl AuthorizedEntry {
    /// An entry that grants nothing beyond the defaults.
    pub fn blank() -> (r: AuthorizedEntry)
        ensures
            r@ == EntryView::blank(),
    {
        let r = AuthorizedEntry {
            allow_any_subdomain: false,
            allowed_subdomains: Vec::new(),
            max_conns: None,
            allowed_ports: None,
            bw: None,
            quota: None,
            federation: Vec::new(),
            comment: None,
        };
        assert(r@.allowed_subdomains =~= Seq::empty());
        assert(r@.federation =~= Seq::empty());
        r
    }

    /// Whether two entries carry the same authorization. The comment is
    /// ignored, so that an edit of it revokes nothing.
    pub fn authorization_equal(&self, other: &AuthorizedEntry) -> (r: bool)
        ensures
            r == self@.same_authorization(other@),
    {
        let conns = match (self.max_conns, other.max_conns) {
            (None, None) => true,
            (Some(a), Some(b)) => a == b,
            _ => false,
        };
        self.allow_any_subdomain == other.allow_any_subdomain && same_texts(
            &self.allowed_subdomains,
            &other.allowed_subdomains,
        ) && conns && same_ports(&self.allowed_ports, &other.allowed_ports) && same_rate(
            &self.bw,
            &other.bw,
        ) && same_rate(&self.quota, &other.quota) && same_texts(&self.federation, &other.federation)
    }

    /// A copy of this entry.
    pub fn copy(&self) -> (r: AuthorizedEntry)
        ensures
            r@ == self@,
    {
        let comment = match &self.comment {
            None => None,
            Some(c) => Some(c.clone()),
        };
        AuthorizedEntry {
            allow_any_subdomain: self.allow_any_subdomain,
            allowed_subdomains: copy_texts(&self.allowed_subdomains),
            max_conns: self.max_conns,
            allowed_ports: copy_ports(&self.allowed_ports),
            bw: self.bw,
            quota: self.quota,
            federation: copy_texts(&self.federation),
            comment,
        }
    }
}

/// The ports from `lo` to `hi`.
pub open spec fn port_range(lo: nat, hi: nat) -> Seq<u16> {
    Seq::new((hi - lo + 1) as nat, |i: int| (lo + i) as u16)
}

/// The ports that one item of a `ports=` list names: a port or a range.
pub open spec fn ports_item(part: Seq<char>) -> Option<Seq<u16>> {
    let t = trim_spec(part);
    match cut_first(t, '-') {
        Some((lo, hi)) => match (
            uint_spec(trim_spec(lo), u16::MAX as nat),
            uint_spec(trim_spec(hi), u16::MAX as nat),
        ) {
            (Some(lo), Some(hi)) => if hi < lo {
                None
            } else {
                Some(port_range(lo, hi))
            },
            _ => None,
        },
        None => match uint_spec(t, u16::MAX as nat) {
            Some(p) => Some(seq![p as u16]),
            None => None,
        },
    }
}

/// The ports of all items, unless one of them is malformed.
pub open spec fn ports_items(parts: Seq<Seq<char>>) -> Option<Seq<u16>>
    decreases parts.len(),
{
    if parts.len() == 0 {
        Some(Seq::empty())
    } else {
        match (ports_items(parts.drop_last()), ports_item(parts.last())) {
            (Some(a), Some(b)) => Some(a + b),
            _ => None,
        }
    }
}

/// The ports of a `ports=` value.
pub open spec fn ports_spec(s: Seq<char>) -> Option<Seq<u16>> {
    match ports_items(split_spec(s, ',')) {
        Some(p) => if p.len() == 0 {
            None
        } else {
            Some(p)
        },
        None => None,
    }
}

proof fn lemma_ports_fail(parts: Seq<Seq<char>>, i: int)
    requires
        0 <= i < parts.len(),
        ports_item(parts[i]) is None,
    ensures
        ports_items(parts) is None,
    decreases parts.len(),
{
    if i < parts.len() - 1 {
        assert(parts.drop_last()[i] == parts[i]);
        lemma_ports_fail(parts.drop_last(), i);
    }
}

fn parse_ports_item(part: &str) -> (r: Option<Vec<u16>>)
    ensures
        ports_view(r) == ports_item(part@),
{
    let t = trim(part);
    match split_once(t.as_str(), '-') {
        Some((lo, hi)) => {
            let lo = match parse_uint(trim(lo.as_str()).as_str(), 0xFFFF) {
                None => return None,
                Some(v) => v as u16,
            };
            let hi = match parse_uint(trim(hi.as_str()).as_str(), 0xFFFF) {
                None => return None,
                Some(v) => v as u16,
            };
            if hi < lo {
                return None;
            }
            let mut out: Vec<u16> = Vec::new();
            let mut p: u16 = lo;
            while p < hi
                invariant
                    lo <= p <= hi,
                    out@.len() == p - lo,
                    forall|i: int| 0 <= i < out@.len() ==> out@[i] == lo + i,
                decreases hi - p,
            {
                out.push(p);
                p += 1;
            }
            out.push(hi);
            assert(out@ =~= port_range(lo as nat, hi as nat));
            Some(out)
        },
        None => match parse_uint(t.as_str(), 0xFFFF) {
            None => None,
            Some(v) => {
                let mut out: Vec<u16> = Vec::new();
                out.push(v as u16);
                assert(out@ =~= seq![v as u16]);
                Some(out)
            },
        },
    }
}

/// Parse a `ports=` value: a list (`8080,8443`), a range (`10000-19999`) or a
/// mix. A malformed value gives `None`, which is no restriction.
pub fn parse_ports(s: &str) -> (r: Option<Vec<u16>>)
    ensures
        ports_view(r) == ports_spec(s@),
{
    let parts = split(s, ',');
    let mut out: Vec<u16> = Vec::new();
    let ghost all = split_spec(s@, ',');
    assert(all.take(0) =~= Seq::empty());
    for i in 0..parts.len()
        invariant
            all == split_spec(s@, ','),
            all == views(parts@),
            ports_items(all.take(i as int)) == Some(out@),
    {
        assert(all.len() == parts@.len());
        assert(all[i as int] == parts@[i as int]@);
        let item = parse_ports_item(parts[i].as_str());
        assert(all.take(i + 1).drop_last() =~= all.take(i as int));
        match item {
            None => {
                proof {
                    lemma_ports_fail(all, i as int);
                }
                return None;
            },
            Some(mut ports) => {
                out.append(&mut ports);
            },
        }
    }
    assert(all.take(all.len() as int) =~= all);
    if out.len() == 0 {
        return None;
    }
    Some(out)
}

/// The names of the recognised options.
pub open spec fn is_option(k: Seq<char>) -> bool {
    k == "subdomain"@ || k == "conns"@ || k == "bw"@ || k == "quota"@ || k == "ports"@ || k
        == "federation"@
}

/// The options gathered so far, with one more fragment: a new option, of
/// whatever name, or more of the last value.
pub open spec fn add_fragment(pairs: Seq<(Seq<char>, Seq<char>)>, tok: Seq<char>) -> Seq<
    (Seq<char>, Seq<char>),
> {
    match cut_first(tok, '=') {
        Some((k, v)) => pairs.push((k, v)),
        None => if pairs.len() > 0 {
            pairs.drop_last().push((pairs.last().0, pairs.last().1 + ","@ + tok))
        } else {
            pairs
        },
    }
}

/// The options that a sequence of fragments stands for.
pub open spec fn options_of(toks: Seq<Seq<char>>) -> Seq<(Seq<char>, Seq<char>)>
    decreases toks.len(),
{
    if toks.len() == 0 {
        Seq::empty()
    } else {
        add_fragment(options_of(toks.drop_last()), toks.last())
    }
}

/// The items of a `federation=` list: trimmed, without empty ones.
pub open spec fn apexes_of(parts: Seq<Seq<char>>) -> Seq<Seq<char>>
    decreases parts.len(),
{
    if parts.len() == 0 {
        Seq::empty()
    } else {
        let t = trim_spec(parts.last());
        if t.len() == 0 {
            apexes_of(parts.drop_last())
        } else {
            apexes_of(parts.drop_last()).push(t)
        }
    }
}

/// The number that a `conns=` value gives.
pub open spec fn conns_spec(v: Seq<char>) -> Option<u32> {
    match uint_spec(v, u32::MAX as nat) {
        Some(n) => Some(n as u32),
        None => None,
    }
}

/// An entry with one more option.
pub open spec fn with_option(e: EntryView, k: Seq<char>, v: Seq<char>) -> EntryView {
    if k == "subdomain"@ {
        if v == "*"@ {
            EntryView { allow_any_subdomain: true, ..e }
        } else {
            EntryView { allowed_subdomains: split_spec(v, ','), ..e }
        }
    } else if k == "conns"@ {
        EntryView { max_conns: conns_spec(v), ..e }
    } else if k == "bw"@ {
        EntryView { bw: rate_spec(v), ..e }
    } else if k == "quota"@ {
        EntryView { quota: rate_spec(v), ..e }
    } else if k == "ports"@ {
        EntryView { allowed_ports: ports_spec(v), ..e }
    } else if k == "federation"@ {
        EntryView { federation: apexes_of(split_spec(v, ',')), ..e }
    } else {
        e
    }
}

/// The entry that a sequence of options makes.
pub open spec fn entry_of(pairs: Seq<(Seq<char>, Seq<char>)>) -> EntryView
    decreases pairs.len(),
{
    if pairs.len() == 0 {
        EntryView::blank()
    } else {
        with_option(entry_of(pairs.drop_last()), pairs.last().0, pairs.last().1)
    }
}

/// An option of an unknown name is ignored, and so is what continues its value:
/// an entry is the same with it and without it, wherever it stands.
pub proof fn law_unknown_options_ignored(
    before: Seq<(Seq<char>, Seq<char>)>,
    k: Seq<char>,
    v: Seq<char>,
    after: Seq<(Seq<char>, Seq<char>)>,
)
    requires
        !is_option(k),
    ensures
        entry_of(before + seq![(k, v)] + after) == entry_of(before + after),
    decreases after.len(),
{
    let with = before + seq![(k, v)] + after;
    if after.len() == 0 {
        assert(with.drop_last() =~= before);
        assert(before + after =~= before);
    } else {
        assert(with.drop_last() =~= before + seq![(k, v)] + after.drop_last());
        assert((before + after).drop_last() =~= before + after.drop_last());
        law_unknown_options_ignored(before, k, v, after.drop_last());
    }
}

/// A fragment that names an unknown option leaves the entry as it is.
pub proof fn law_unknown_fragment_changes_nothing(toks: Seq<Seq<char>>, tok: Seq<char>)
    requires
        cut_first(tok, '=') is Some,
        !is_option((cut_first(tok, '=')->0).0),
    ensures
        entry_of(options_of(toks.push(tok))) == entry_of(options_of(toks)),
{
    let (k, v) = cut_first(tok, '=')->0;
    let pairs = options_of(toks);
    assert(toks.push(tok).drop_last() =~= toks);
    law_unknown_options_ignored(pairs, k, v, Seq::empty());
    assert(pairs + seq![(k, v)] + Seq::<(Seq<char>, Seq<char>)>::empty() =~= pairs.push((k, v)));
    assert(pairs + Seq::<(Seq<char>, Seq<char>)>::empty() =~= pairs);
}

/// Texts joined by commas.
pub open spec fn join_commas(ts: Seq<Seq<char>>) -> Seq<char>
    decreases ts.len(),
{
    if ts.len() == 0 {
        Seq::empty()
    } else if ts.len() == 1 {
        ts[0]
    } else {
        join_commas(ts.drop_last()) + ","@ + ts.last()
    }
}

/// The comment behind the first `#`, trimmed; none when it is empty.
pub open spec fn comment_spec(line: Seq<char>) -> Option<Seq<char>> {
    match cut_first(line, '#') {
        None => None,
        Some((_, c)) => if trim_spec(c).len() == 0 {
            None
        } else {
            Some(trim_spec(c))
        },
    }
}

/// The words of a line in front of its comment.
pub open spec fn line_words(line: Seq<char>) -> Seq<Seq<char>> {
    words_spec(trim_spec(split_spec(line, '#')[0]))
}

/// The key and entry that a line stands for.
pub open spec fn entry_spec(line: Seq<char>) -> Option<(Seq<u8>, EntryView)> {
    let words = line_words(line);
    if words.len() < 2 || words[0] != "ed25519"@ {
        None
    } else {
        match base64_bytes(words[1]) {
            Err(_) => None,
            Ok(raw) => if raw.len() != 32 {
                None
            } else {
                let options = options_of(split_spec(join_commas(words.skip(2)), ','));
                Some((raw, (EntryView { comment: comment_spec(line), ..entry_of(options) })))
            },
        }
    }
}

/// The views of option pairs.
pub open spec fn pair_views(v: Seq<(String, String)>) -> Seq<(Seq<char>, Seq<char>)> {
    Seq::new(v.len(), |i: int| (v[i].0@, v[i].1@))
}

fn join_from(words: &Vec<String>, from: usize) -> (r: String)
    requires
        from <= words@.len(),
    ensures
        r@ == join_commas(views(words@).skip(from as int)),
{
    let ghost all = views(words@).skip(from as int);
    let mut out = String::new();
    assert(all.take(0) =~= Seq::empty());
    for i in from..words.len()
        invariant
            from <= i <= words@.len(),
            all == views(words@).skip(from as int),
            out@ == join_commas(all.take(i - from)),
    {
        assert(all[i - from] == words@[i as int]@);
        if i > from {
            out.append(",");
        }
        out.append(words[i].as_str());
        proof {
            let t = all.take(i - from + 1);
            assert(t.drop_last() =~= all.take(i - from));
            if i == from {
                assert(out@ =~= t[0]);
            }
        }
    }
    assert(all.take(all.len() as int) =~= all);
    out
}

fn gather_options(toks: &Vec<String>) -> (r: Vec<(String, String)>)
    ensures
        pair_views(r@) == options_of(views(toks@)),
{
    let mut pairs: Vec<(String, String)> = Vec::new();
    let ghost all = views(toks@);
    assert(all.take(0) =~= Seq::empty());
    assert(pair_views(pairs@) =~= Seq::empty());
    for i in 0..toks.len()
        invariant
            all == views(toks@),
            pair_views(pairs@) == options_of(all.take(i as int)),
    {
        let ghost before = pair_views(pairs@);
        let tok = &toks[i];
        assert(all[i as int] == tok@);
        assert(all.take(i + 1).drop_last() =~= all.take(i as int));
        match split_once(tok.as_str(), '=') {
            Some((k, v)) => {
                assert(pair_views(pairs@.push((k, v))) =~= before.push((k@, v@)));
                pairs.push((k, v));
            },
            None => if let Some((k, v)) = pairs.pop() {
                let mut longer = v;
                longer.append(",");
                longer.append(tok.as_str());
                pairs.push((k, longer));
                assert(pair_views(pairs@) =~= before.drop_last().push(
                    (before.last().0, before.last().1 + ","@ + tok@),
                ));
            },
        }
    }
    assert(all.take(all.len() as int) =~= all);
    pairs
}

fn parse_apexes(v: &str) -> (r: Vec<String>)
    ensures
        views(r@) == apexes_of(split_spec(v@, ',')),
{
    let parts = split(v, ',');
    let ghost all = split_spec(v@, ',');
    let mut out: Vec<String> = Vec::new();
    assert(all.take(0) =~= Seq::empty());
    assert(views(out@) =~= Seq::empty());
    for i in 0..parts.len()
        invariant
            all == views(parts@),
            views(out@) == apexes_of(all.take(i as int)),
    {
        assert(all[i as int] == parts@[i as int]@);
        assert(all.take(i + 1).drop_last() =~= all.take(i as int));
        let t = trim(parts[i].as_str());
        if !t.as_str().is_empty() {
            assert(views(out@.push(t)) =~= views(out@).push(t@));
            out.push(t);
        }
    }
    assert(all.take(all.len() as int) =~= all);
    out
}

fn apply_option(entry: &mut AuthorizedEntry, k: &str, v: &str)
    ensures
        final(entry)@ == with_option(old(entry)@, k@, v@),
{
    if same_str(k, "subdomain") {
        if same_str(v, "*") {
            entry.allow_any_subdomain = true;
        } else {
            entry.allowed_subdomains = split(v, ',');
        }
    } else if same_str(k, "conns") {
        entry.max_conns = match parse_uint(v, 0xFFFF_FFFF) {
            Some(n) => Some(n as u32),
            None => None,
        };
    } else if same_str(k, "bw") {
        entry.bw = parse_rate_per(v);
    } else if same_str(k, "quota") {
        entry.quota = parse_rate_per(v);
    } else if same_str(k, "ports") {
        entry.allowed_ports = parse_ports(v);
    } else if same_str(k, "federation") {
        entry.federation = parse_apexes(v);
    }
}

fn build_entry(pairs: &Vec<(String, String)>) -> (r: AuthorizedEntry)
    ensures
        r@ == entry_of(pair_views(pairs@)),
{
    let mut entry = AuthorizedEntry::blank();
    let ghost all = pair_views(pairs@);
    assert(all.take(0) =~= Seq::empty());
    for i in 0..pairs.len()
        invariant
            all == pair_views(pairs@),
            entry@ == entry_of(all.take(i as int)),
    {
        assert(all.take(i + 1).drop_last() =~= all.take(i as int));
        let (k, v) = &pairs[i];
        apply_option(&mut entry, k.as_str(), v.as_str());
    }
    assert(all.take(all.len() as int) =~= all);
    entry
}

fn parse_comment(line: &str) -> (r: Option<String>)
    ensures
        opt_view(r) == comment_spec(line@),
{
    match split_once(line, '#') {
        None => None,
        Some((_, c)) => {
            let t = trim(c.as_str());
            if t.as_str().is_empty() {
                None
            } else {
                Some(t)
            }
        },
    }
}

pub(crate) fn array32(v: &Vec<u8>) -> (r: Option<[u8; 32]>)
    ensures
        match r {
            Some(a) => a@ == v@,
            None => v@.len() != 32,
        },
{
    if v.len() != 32 {
        return None;
    }
    let mut out: [u8; 32] = [0u8; 32];
    for i in 0..32usize
        invariant
            v@.len() == 32,
            forall|j: int| 0 <= j < i ==> out@[j] == v@[j],
    {
        out[i] = v[i];
    }
    assert(out@ =~= v@);
    Some(out)
}

/// Parse one line; `None` when it is not an entry.
pub fn parse_line(line: &str) -> (r: Option<(PubKey, AuthorizedEntry)>)
    ensures
        match entry_spec(line@) {
            Some((key, entry)) => r is Some && (r->0).0@ == key && (r->0).1@ == entry,
            None => r is None,
        },
{
    let pieces = split(line, '#');
    proof {
        let i = first_at(line@, '#');
        lemma_first_at(line@, '#');
        assert(split_spec(line@, '#').len() >= 1);
        assert(views(pieces@).len() == pieces@.len());
        assert(views(pieces@)[0] == pieces@[0]@);
    }
    let bare = trim(pieces[0].as_str());
    let words = split_whitespace(bare.as_str());
    let ghost ws = line_words(line@);
    assert(ws == views(words@));
    assert(ws.len() == words@.len());
    if words.len() < 2 {
        return None;
    }
    assert(ws[0] == words@[0]@ && ws[1] == words@[1]@);
    if !same_str(words[0].as_str(), "ed25519") {
        return None;
    }
    let raw = match base64_decode(words[1].as_str()) {
        Ok(raw) => raw,
        Err(_) => return None,
    };
    let key = match array32(&raw) {
        Some(key) => key,
        None => return None,
    };
    let joined = join_from(&words, 2);
    let toks = split(joined.as_str(), ',');
    let pairs = gather_options(&toks);
    let mut entry = build_entry(&pairs);
    entry.comment = parse_comment(line);
    Some((PubKey(key), entry))
}

/// Whether a trimmed line holds no entry: it is empty or a comment.
pub open spec fn is_idle_line(t: Seq<char>) -> bool {
    t.len() == 0 || t[0] == '#'
}

/// The index that the lines of a file stand for; of two entries with one key
/// the later counts. A line that is no entry refuses the file.
pub open spec fn keys_spec(ls: Seq<Seq<char>>) -> Result<Map<Seq<u8>, EntryView>, Seq<char>>
    decreases ls.len(),
{
    if ls.len() == 0 {
        Ok(Map::empty())
    } else {
        match keys_spec(ls.drop_last()) {
            Err(e) => Err(e),
            Ok(m) => {
                let t = trim_spec(ls.last());
                if is_idle_line(t) {
                    Ok(m)
                } else {
                    match entry_spec(t) {
                        Some((key, entry)) => Ok(m.insert(key, entry)),
                        None => Err("line "@ + dec(ls.len()) + ": "@ + ls.last()),
                    }
                }
            },
        }
    }
}

proof fn lemma_keys_fail(ls: Seq<Seq<char>>, n: int)
    requires
        0 <= n <= ls.len(),
        keys_spec(ls.take(n)) is Err,
    ensures
        keys_spec(ls) == keys_spec(ls.take(n)),
    decreases ls.len() - n,
{
    if n < ls.len() {
        assert(ls.take(n + 1).drop_last() =~= ls.take(n));
        lemma_keys_fail(ls, n + 1);
    } else {
        assert(ls.take(n) =~= ls);
    }
}

fn starts_with_hash(t: &str) -> (r: bool)
    ensures
        r == (t@.len() > 0 && t@[0] == '#'),
{
    let cs = chars_of(t);
    cs.len() > 0 && cs[0] == '#'
}

fn parse_contents(contents: &str) -> (r: Result<VecMap<PubKey, AuthorizedEntry>, ServerError>)
    ensures
        match keys_spec(lines_spec(contents@)) {
            Ok(m) => r is Ok && r->Ok_0.wf() && r->Ok_0@ == m,
            Err(e) => r is Err && r->Err_0 is Keys && r->Err_0->Keys_0@ == e,
        },
{
    let ls = lines(contents);
    let ghost all = lines_spec(contents@);
    let mut out: VecMap<PubKey, AuthorizedEntry> = VecMap::new();
    assert(all.take(0) =~= Seq::empty());
    for i in 0..ls.len()
        invariant
            all == lines_spec(contents@),
            all == views(ls@),
            out.wf(),
            keys_spec(all.take(i as int)) == Ok::<Map<Seq<u8>, EntryView>, Seq<char>>(out@),
    {
        assert(all[i as int] == ls@[i as int]@);
        assert(all.take(i + 1).drop_last() =~= all.take(i as int));
        let t = trim(ls[i].as_str());
        if !t.as_str().is_empty() && !starts_with_hash(t.as_str()) {
            match parse_line(t.as_str()) {
                None => {
                    let mut message = "line ".to_owned();
                    push_u64(&mut message, i as u64 + 1);
                    message.append(": ");
                    message.append(ls[i].as_str());
                    proof {
                        assert(keys_spec(all.take(i + 1)) == Err::<Map<Seq<u8>, EntryView>, Seq<char>>(
                            message@,
                        ));
                        lemma_keys_fail(all, i + 1);
                    }
                    return Err(ServerError::Keys(message));
                },
                Some((key, entry)) => {
                    out.insert(key, entry);
                },
            }
        }
    }
    assert(all.take(all.len() as int) =~= all);
    Ok(out)
}

/// Whether the line `l` is an entry for the key `target`.
pub open spec fn is_entry_for(l: Seq<char>, target: Seq<u8>) -> bool {
    let t = trim_spec(l);
    !is_idle_line(t) && entry_spec(t) is Some && (entry_spec(t)->0).0 == target
}

/// The lines without the entries for the key `target`, each ended by a newline.
pub open spec fn without_key(ls: Seq<Seq<char>>, target: Seq<u8>) -> Seq<char>
    decreases ls.len(),
{
    if ls.len() == 0 {
        Seq::empty()
    } else if is_entry_for(ls.last(), target) {
        without_key(ls.drop_last(), target)
    } else {
        without_key(ls.drop_last(), target) + ls.last() + "\n"@
    }
}

/// A file's contents with `line` appended as a line of its own.
pub open spec fn with_line(contents: Seq<char>, line: Seq<char>) -> Seq<char> {
    let head = if contents.len() > 0 && !has_suffix(contents, "\n"@) {
        contents + "\n"@
    } else {
        contents
    };
    if has_suffix(line, "\n"@) {
        head + line
    } else {
        head + line + "\n"@
    }
}

/// Whether a reload takes the authorization of `key` away or changes it.
pub open spec fn is_revoked(
    old_keys: Map<Seq<u8>, EntryView>,
    new_keys: Map<Seq<u8>, EntryView>,
    key: Seq<u8>,
) -> bool {
    old_keys.contains_key(key) && (!new_keys.contains_key(key)
        || !old_keys[key].same_authorization(new_keys[key]))
}

/// An entry that has been accepted but not yet been written: the new contents
/// of the file, and what the index gains once they are on disk.
pub struct PendingEntry {
    pub contents: String,
    pub pubkey: PubKey,
    pub entry: AuthorizedEntry,
    pub line: String,
}

/// In-memory index over the `authorized_keys` file.
pub struct KeyRegistry {
    pub entries: VecMap<PubKey, AuthorizedEntry>,
    /// Keys whose authorization an appended line changed since the last
    /// reload, which is yet to report them.
    pub replaced: Vec<PubKey>,
}

impl View for KeyRegistry {
    type V = Map<Seq<u8>, EntryView>;

    open spec fn view(&self) -> Map<Seq<u8>, EntryView> {
        self.entries@
    }
}

impl KeyRegistry {
    /// No key has two entries, and none is noted twice.
    pub open spec fn wf(self) -> bool {
        self.entries.wf() && key_views(self.replaced@).no_duplicates()
    }

    /// Whether the next reload reports `key` because an appended line changed it.
    pub open spec fn awaits_report(self, key: Seq<u8>) -> bool {
        key_views(self.replaced@).contains(key)
    }

    /// What taking an entry into the index leaves behind: a key whose
    /// authorization this changes is noted.
    pub open spec fn inserted(self, post: KeyRegistry, key: Seq<u8>, entry: EntryView) -> bool {
        &&& post@ == self@.insert(key, entry)
        &&& forall|k: Seq<u8>| #[trigger]
            post.awaits_report(k) <==> self.awaits_report(k) || is_revoked(self@, post@, k)
    }

    /// What a reload of a file that says `m` reports and leaves behind: each
    /// key whose authorization the file or an appended line took away or
    /// changed is reported, once.
    pub open spec fn reloaded(
        self,
        post: KeyRegistry,
        m: Map<Seq<u8>, EntryView>,
        reported: Seq<Seq<u8>>,
    ) -> bool {
        &&& post@ == m
        &&& reported.no_duplicates()
        &&& forall|key: Seq<u8>| #[trigger]
            reported.contains(key) <==> is_revoked(self@, m, key) || self.awaits_report(key)
        &&& forall|key: Seq<u8>| !#[trigger] post.awaits_report(key)
    }

    /// Load the registry from the contents of its file.
    pub fn open(contents: &str) -> (r: Result<KeyRegistry, ServerError>)
        ensures
            match keys_spec(lines_spec(contents@)) {
                Ok(m) => {
                    &&& r is Ok
                    &&& r->Ok_0.wf()
                    &&& r->Ok_0@ == m
                    &&& r->Ok_0.replaced@.len() == 0
                },
                Err(e) => r is Err && r->Err_0 is Keys && r->Err_0->Keys_0@ == e,
            },
    {
        match parse_contents(contents) {
            Ok(entries) => Ok(KeyRegistry { entries, replaced: Vec::new() }),
            Err(e) => Err(e),
        }
    }

    /// Whether a key is authorized.
    pub fn contains(&self, pubkey: &PubKey) -> (r: bool)
        requires
            self.wf(),
        ensures
            r == self@.contains_key(pubkey@),
    {
        self.entries.contains_key(pubkey)
    }

    /// The entry of a key.
    pub fn get(&self, pubkey: &PubKey) -> (r: Option<AuthorizedEntry>)
        requires
            self.wf(),
        ensures
            match r {
                Some(entry) => self@.contains_key(pubkey@) && entry@ == self@[pubkey@],
                None => !self@.contains_key(pubkey@),
            },
    {
        match self.entries.get(pubkey) {
            Some(entry) => Some(entry.copy()),
            None => None,
        }
    }

    /// Every entry, once.
    pub fn snapshot(&self) -> (r: Vec<(PubKey, AuthorizedEntry)>)
        requires
            self.wf(),
        ensures
            r@.len() == self.entries@.len(),
            keys_distinct_in(r@),
            forall|i: int|
                0 <= i < r@.len() ==> self@.contains_key((#[trigger] r@[i]).0@) && self@[r@[i].0@]
                    == r@[i].1@,
    {
        proof {
            lemma_vec_map(self.entries);
        }
        let mut out: Vec<(PubKey, AuthorizedEntry)> = Vec::new();
        for i in 0..self.entries.items.len()
            invariant
                self.wf(),
                out@.len() == i,
                forall|j: int|
                    0 <= j < i ==> (#[trigger] out@[j]).0@ == self.entries.items@[j].0@ && out@[j].1@
                        == self.entries.items@[j].1@,
        {
            let (key, entry) = &self.entries.items[i];
            out.push((*key, entry.copy()));
        }
        proof {
            lemma_vec_map(self.entries);
            assert forall|i: int, j: int| 0 <= i < j < out@.len() implies #[trigger] out@[i].0@
                != #[trigger] out@[j].0@ by {
                assert(self.entries.items@[i].0@ != self.entries.items@[j].0@);
            }
            assert forall|i: int| 0 <= i < out@.len() implies self@.contains_key(
                (#[trigger] out@[i]).0@,
            ) && self@[out@[i].0@] == out@[i].1@ by {
                assert(self.entries.items@[i].0@ == out@[i].0@);
            }
        }
        out
    }

    /// The contents of the file without the entries for `target`; `None` when
    /// there is no such entry. The index follows on the next reload.
    pub fn remove_pubkey(&self, contents: &str, target: &PubKey) -> (r: Option<String>)
        ensures
            match r {
                Some(text) => {
                    &&& exists|i: int|
                        0 <= i < lines_spec(contents@).len() && is_entry_for(
                            #[trigger] lines_spec(contents@)[i],
                            target@,
                        )
                    &&& text@ == without_key(lines_spec(contents@), target@)
                },
                None => forall|i: int|
                    0 <= i < lines_spec(contents@).len() ==> !is_entry_for(
                        #[trigger] lines_spec(contents@)[i],
                        target@,
                    ),
            },
    {
        let ls = lines(contents);
        let ghost all = lines_spec(contents@);
        let mut out = String::new();
        let mut removed = false;
        assert(all.take(0) =~= Seq::empty());
        for i in 0..ls.len()
            invariant
                all == lines_spec(contents@),
                all == views(ls@),
                out@ == without_key(all.take(i as int), target@),
                removed == exists|j: int| 0 <= j < i && is_entry_for(#[trigger] all[j], target@),
        {
            assert(all[i as int] == ls@[i as int]@);
            assert(all.take(i + 1).drop_last() =~= all.take(i as int));
            assert(all.take(i + 1).last() == all[i as int]);
            let line = &ls[i];
            let t = trim(line.as_str());
            let mut drop_line = false;
            if !t.as_str().is_empty() && !starts_with_hash(t.as_str()) {
                if let Some((key, _)) = parse_line(t.as_str()) {
                    if key.same(target) {
                        drop_line = true;
                    }
                }
            }
            assert(drop_line == is_entry_for(all[i as int], target@));
            if drop_line {
                removed = true;
            } else {
                out.append(line.as_str());
                out.append("\n");
            }
        }
        assert(all.take(all.len() as int) =~= all);
        if removed {
            Some(out)
        } else {
            None
        }
    }

    /// The number of authorized keys.
    pub fn len(&self) -> (r: usize)
        requires
            self.wf(),
        ensures
            r == self@.len(),
    {
        self.entries.len()
    }

    /// Whether no key is authorized.
    pub fn is_empty(&self) -> (r: bool)
        requires
            self.wf(),
        ensures
            r == (self@.len() == 0),
    {
        self.entries.len() == 0
    }

    /// Accept a line for appending to a file with these contents. The index
    /// is unchanged until [`KeyRegistry::insert`].
    pub fn append_line(&self, contents: &str, line: &str) -> (r: Result<PendingEntry, ServerError>)
        ensures
            match entry_spec(line@) {
                Some((key, entry)) => {
                    &&& r is Ok
                    &&& r->Ok_0.pubkey@ == key
                    &&& r->Ok_0.entry@ == entry
                    &&& r->Ok_0.contents@ == with_line(contents@, line@)
                    &&& r->Ok_0.line@ == trim_end_spec(line@)
                },
                None => {
                    &&& r is Err
                    &&& r->Err_0 is Keys
                    &&& r->Err_0->Keys_0@ == "cannot parse: "@ + line@
                },
            },
    {
        let (pubkey, entry) = match parse_line(line) {
            Some(p) => p,
            None => return Err(ServerError::Keys("cannot parse: ".to_owned().concat(line))),
        };
        let mut text = contents.to_owned();
        if !contents.is_empty() && !ends_with(contents, "\n") {
            text.append("\n");
        }
        text.append(line);
        if !ends_with(line, "\n") {
            text.append("\n");
        }
        Ok(PendingEntry { contents: text, pubkey, entry, line: trim_end(line) })
    }

    /// Take an accepted entry into the index, once its file is written;
    /// returns the line as it was written. Where this changes the
    /// authorization of a key, the next reload reports the key.
    pub fn insert(&mut self, pending: PendingEntry) -> (r: String)
        requires
            old(self).wf(),
        ensures
            final(self).wf(),
            old(self).inserted(*final(self), pending.pubkey@, pending.entry@),
            r@ == pending.line@,
    {
        let ghost before = self@;
        let ghost key = pending.pubkey@;
        let changed = match self.entries.get(&pending.pubkey) {
            Some(entry) => !entry.authorization_equal(&pending.entry),
            None => false,
        };
        if changed {
            add_key(&mut self.replaced, pending.pubkey);
        }
        self.entries.insert(pending.pubkey, pending.entry);
        proof {
            assert forall|k: Seq<u8>| is_revoked(before, self@, k) <==> changed && k == key by {
                if k != key {
                    assert(before.contains_key(k) ==> self@[k] == before[k]);
                }
            }
        }
        pending.line
    }

    /// Replace the index by what the file holds now. Returns, once each, the
    /// keys whose authorization was removed or changed since the last reload,
    /// by the file or by an appended line; a file that cannot be parsed leaves
    /// the index as it was.
    pub fn reload(&mut self, contents: &str) -> (r: Result<Vec<PubKey>, ServerError>)
        requires
            old(self).wf(),
        ensures
            final(self).wf(),
            match keys_spec(lines_spec(contents@)) {
                Ok(m) => r is Ok && old(self).reloaded(*final(self), m, key_views(r->Ok_0@)),
                Err(e) => {
                    &&& r is Err
                    &&& r->Err_0 is Keys
                    &&& r->Err_0->Keys_0@ == e
                    &&& *final(self) == *old(self)
                },
            },
    {
        let fresh = match parse_contents(contents) {
            Ok(m) => m,
            Err(e) => return Err(e),
        };
        let mut revoked = revoked_keys(&self.entries, &fresh);
        let ghost noted = key_views(self.replaced@);
        for i in 0..self.replaced.len()
            invariant
                noted == key_views(self.replaced@),
                key_views(revoked@).no_duplicates(),
                forall|key: Seq<u8>| #[trigger]
                    key_views(revoked@).contains(key) <==> is_revoked(
                        self.entries@,
                        fresh@,
                        key,
                    ) || noted.take(i as int).contains(key),
        {
            let ghost so_far = key_views(revoked@);
            add_key(&mut revoked, self.replaced[i]);
            proof {
                let key = self.replaced@[i as int]@;
                assert(noted[i as int] == key);
                assert(noted.take(i + 1) =~= noted.take(i as int).push(key));
                assert forall|k: Seq<u8>| #[trigger]
                    key_views(revoked@).contains(k) <==> is_revoked(self.entries@, fresh@, k)
                        || noted.take(i + 1).contains(k) by {
                    assert(so_far.contains(k) <==> is_revoked(self.entries@, fresh@, k)
                        || noted.take(i as int).contains(k));
                    if noted.take(i as int).contains(k) {
                        let j = choose|j: int| 0 <= j < i && noted.take(i as int)[j] == k;
                        assert(noted.take(i + 1)[j] == k);
                    }
                    assert(noted.take(i + 1)[i as int] == key);
                }
            }
        }
        assert(noted.take(noted.len() as int) =~= noted);
        self.entries = fresh;
        self.replaced = Vec::new();
        Ok(revoked)
    }
}

/// Notes a key in a list, once.
fn add_key(keys: &mut Vec<PubKey>, key: PubKey)
    requires
        key_views(old(keys)@).no_duplicates(),
    ensures
        key_views(final(keys)@).no_duplicates(),
        forall|k: Seq<u8>| #[trigger]
            key_views(final(keys)@).contains(k) <==> key_views(old(keys)@).contains(k) || k == key@,
{
    for i in 0..keys.len()
        invariant
            keys@ == old(keys)@,
            key_views(keys@).no_duplicates(),
            forall|j: int| 0 <= j < i ==> (#[trigger] keys@[j])@ != key@,
    {
        if keys[i].same(&key) {
            assert(key_views(keys@)[i as int] == key@);
            return;
        }
    }
    let ghost before = key_views(keys@);
    keys.push(key);
    proof {
        let after = key_views(keys@);
        assert(after =~= before.push(key@));
        assert forall|i: int, j: int| 0 <= i < after.len() && 0 <= j < after.len() && i
            != j implies after[i] != after[j] by {
            if i < before.len() && j < before.len() {
                assert(before[i] != before[j]);
            }
        }
        assert forall|k: Seq<u8>| #[trigger] after.contains(k) <==> before.contains(k) || k
            == key@ by {
            if before.contains(k) {
                let j = choose|j: int| 0 <= j < before.len() && before[j] == k;
                assert(after[j] == k);
            }
            assert(after[before.len() as int] == key@);
        }
    }
}

/// No key occurs twice in a snapshot.
pub open spec fn keys_distinct_in(s: Seq<(PubKey, AuthorizedEntry)>) -> bool {
    forall|i: int, j: int| 0 <= i < j < s.len() ==> #[trigger] s[i].0@ != #[trigger] s[j].0@
}

/// The keys of a list.
pub open spec fn key_views(s: Seq<PubKey>) -> Seq<Seq<u8>> {
    Seq::new(s.len(), |i: int| s[i]@)
}

/// The revoked keys among `items`, in order.
spec fn revoked_among(
    items: Seq<(PubKey, AuthorizedEntry)>,
    old_keys: Map<Seq<u8>, EntryView>,
    new_keys: Map<Seq<u8>, EntryView>,
) -> Seq<Seq<u8>>
    decreases items.len(),
{
    if items.len() == 0 {
        Seq::empty()
    } else {
        let key = items.last().0@;
        let head = revoked_among(items.drop_last(), old_keys, new_keys);
        if is_revoked(old_keys, new_keys, key) {
            head.push(key)
        } else {
            head
        }
    }
}

proof fn lemma_revoked_among(
    items: Seq<(PubKey, AuthorizedEntry)>,
    old_keys: Map<Seq<u8>, EntryView>,
    new_keys: Map<Seq<u8>, EntryView>,
)
    requires
        keys_distinct_in(items),
    ensures
        revoked_among(items, old_keys, new_keys).no_duplicates(),
        forall|key: Seq<u8>| #[trigger]
            revoked_among(items, old_keys, new_keys).contains(key) <==> is_revoked(
                old_keys,
                new_keys,
                key,
            ) && exists|i: int| 0 <= i < items.len() && #[trigger] items[i].0@ == key,
    decreases items.len(),
{
    if items.len() > 0 {
        let t = items.drop_last();
        let last = items.last().0@;
        let head = revoked_among(t, old_keys, new_keys);
        let all = revoked_among(items, old_keys, new_keys);
        assert(keys_distinct_in(t)) by {
            assert forall|i: int, j: int| 0 <= i < j < t.len() implies #[trigger] t[i].0@
                != #[trigger] t[j].0@ by {
                assert(items[i].0@ != items[j].0@);
            }
        }
        lemma_revoked_among(t, old_keys, new_keys);
        assert(!head.contains(last)) by {
            if head.contains(last) {
                let i = choose|i: int| 0 <= i < t.len() && #[trigger] t[i].0@ == last;
                assert(items[i].0@ != items[items.len() - 1].0@);
            }
        }
        assert forall|key: Seq<u8>| #[trigger] all.contains(key) <==> is_revoked(
            old_keys,
            new_keys,
            key,
        ) && exists|i: int| 0 <= i < items.len() && #[trigger] items[i].0@ == key by {
            if all.contains(key) {
                let a = choose|a: int| 0 <= a < all.len() && all[a] == key;
                if a < head.len() {
                    assert(head[a] == key);
                    assert(head.contains(key));
                    let i = choose|i: int| 0 <= i < t.len() && #[trigger] t[i].0@ == key;
                    assert(items[i].0@ == key);
                } else {
                    assert(items[items.len() - 1].0@ == key);
                }
            }
            if is_revoked(old_keys, new_keys, key) && exists|i: int|
                0 <= i < items.len() && #[trigger] items[i].0@ == key {
                let i = choose|i: int| 0 <= i < items.len() && #[trigger] items[i].0@ == key;
                if i < t.len() {
                    assert(t[i].0@ == key);
                    assert(head.contains(key));
                    let a = choose|a: int| 0 <= a < head.len() && head[a] == key;
                    assert(all[a] == key);
                } else {
                    assert(all[all.len() - 1] == key);
                }
            }
        }
        assert forall|a: int, b: int| 0 <= a < all.len() && 0 <= b < all.len() && a != b implies all[a]
            != all[b] by {
            if a < head.len() && b < head.len() {
                assert(head[a] != head[b]);
            } else if a < head.len() {
                assert(head.contains(head[a]));
            } else {
                assert(head.contains(head[b]));
            }
        }
    }
}

fn revoked_keys(
    current: &VecMap<PubKey, AuthorizedEntry>,
    fresh: &VecMap<PubKey, AuthorizedEntry>,
) -> (r: Vec<PubKey>)
    requires
        current.wf(),
        fresh.wf(),
    ensures
        key_views(r@).no_duplicates(),
        forall|key: Seq<u8>|
            key_views(r@).contains(key) <==> #[trigger] is_revoked(current@, fresh@, key),
{
    let ghost items = current.items@;
    let mut out: Vec<PubKey> = Vec::new();
    assert(items.take(0) =~= Seq::empty());
    assert(key_views(out@) =~= revoked_among(items.take(0), current@, fresh@));
    for i in 0..current.items.len()
        invariant
            current.wf(),
            fresh.wf(),
            items == current.items@,
            key_views(out@) == revoked_among(items.take(i as int), current@, fresh@),
    {
        let (key, entry) = &current.items[i];
        let revoked = match fresh.get(key) {
            None => true,
            Some(now) => !entry.authorization_equal(now),
        };
        proof {
            lemma_vec_map(*current);
            assert(current.items@[i as int].0@ == key@);
            assert(current@.contains_key(key@));
            assert(items.take(i + 1).drop_last() =~= items.take(i as int));
            assert(items.take(i + 1).last() == items[i as int]);
            assert(revoked == is_revoked(current@, fresh@, key@));
        }
        if revoked {
            assert(key_views(out@.push(*key)) =~= key_views(out@).push(key@));
            out.push(*key);
        }
    }
    proof {
        assert(items.take(items.len() as int) =~= items);
        lemma_revoked_among(items, current@, fresh@);
        lemma_vec_map(*current);
        assert forall|key: Seq<u8>|
            key_views(out@).contains(key) <==> #[trigger] is_revoked(current@, fresh@, key) by {
            if is_revoked(current@, fresh@, key) {
                assert(current@.contains_key(key));
            }
        }
    }
    out
}

/// White space around a line does not change what it says.
proof fn lemma_entry_trim(l: Seq<char>)
    ensures
        entry_spec(trim_spec(l)) == entry_spec(l),
        entry_spec(l) is Some ==> !is_idle_line(trim_spec(l)),
{
    let (a, b) = lemma_trim_cut(l);
    let t = trim_spec(l);
    let w1 = l.take(a);
    let w2 = l.skip(b);
    lemma_first_at(l, '#');
    let i = first_at(l, '#');
    assert(all_space(Seq::<char>::empty()));
    if i < l.len() {
        assert(a <= i < b) by {
            if i < a {
                assert(is_space_spec(w1[i]));
            }
            if i >= b {
                assert(is_space_spec(w2[i - b]));
            }
        }
        assert forall|j: int| 0 <= j < i - a implies t[j] != '#' by {
            assert(t[j] == l[a + j]);
        }
        lemma_first_at_is(t, '#', i - a);
        let p = t.take(i - a);
        assert(w1 + p + Seq::<char>::empty() =~= l.take(i));
        lemma_trim_pad(w1, p, Seq::empty());
        let c = t.skip(i - a + 1);
        assert(Seq::<char>::empty() + c + w2 =~= l.skip(i + 1));
        lemma_trim_pad(Seq::empty(), c, w2);
        assert(split_spec(t, '#')[0] == p);
        assert(split_spec(l, '#')[0] == l.take(i));
    } else {
        assert forall|j: int| 0 <= j < t.len() implies t[j] != '#' by {
            assert(t[j] == l[a + j]);
        }
        lemma_first_at_is(t, '#', t.len() as int);
        assert(w1 + t + w2 =~= l);
        lemma_trim_pad(w1, t, w2);
        assert(split_spec(t, '#')[0] == t);
        assert(split_spec(l, '#')[0] == l);
    }
    if is_idle_line(t) {
        assert(split_spec(t, '#')[0].len() == 0) by {
            if t.len() > 0 {
                lemma_first_at_is(t, '#', 0);
            } else {
                lemma_first_at_is(t, '#', 0);
            }
        }
        assert(line_words(t).len() == 0);
    }
}

/// What an index says depends on its lines only up to white space around them.
proof fn lemma_keys_trimmed(a: Seq<Seq<char>>, b: Seq<Seq<char>>)
    requires
        a.len() == b.len(),
        forall|i: int| 0 <= i < a.len() ==> trim_spec(#[trigger] a[i]) == trim_spec(b[i]),
        keys_spec(a) is Ok,
    ensures
        keys_spec(b) == keys_spec(a),
    decreases a.len(),
{
    if a.len() > 0 {
        assert forall|i: int| 0 <= i < a.drop_last().len() implies trim_spec(
            #[trigger] a.drop_last()[i],
        ) == trim_spec(b.drop_last()[i]) by {
            assert(a[i] == a.drop_last()[i]);
        }
        lemma_keys_trimmed(a.drop_last(), b.drop_last());
        assert(trim_spec(a[a.len() - 1]) == trim_spec(b[a.len() - 1]));
    }
}

proof fn lemma_append_then_load(
    contents: Seq<char>,
    line: Seq<char>,
    m: Map<Seq<u8>, EntryView>,
    key: Seq<u8>,
    entry: EntryView,
)
    requires
        keys_spec(lines_spec(contents)) == Ok::<Map<Seq<u8>, EntryView>, Seq<char>>(m),
        entry_spec(line) == Some((key, entry)),
        !line.contains('\n'),
    ensures
        keys_spec(lines_spec(with_line(contents, line))) == Ok::<Map<Seq<u8>, EntryView>, Seq<char>>(
            m.insert(key, entry),
        ),
{
    reveal_strlit("\n");
    let nl = "\n"@;
    assert(nl =~= seq!['\n']);
    assert(!has_suffix(line, nl)) by {
        if has_suffix(line, nl) {
            assert(line.skip(line.len() - 1)[0] == '\n');
            assert(line[line.len() - 1] == '\n');
        }
    }
    let ls = lines_spec(contents);
    let head = if contents.len() > 0 && !has_suffix(contents, nl) {
        contents + nl
    } else {
        contents
    };
    if contents.len() > 0 && !has_suffix(contents, nl) {
        assert(contents.last() != '\n') by {
            if contents.last() == '\n' {
                assert(contents.skip(contents.len() - 1) =~= nl);
            }
        }
        lemma_lines_terminated(contents);
        assert(contents + nl =~= contents.push('\n'));
        let ended = lines_spec(head);
        assert forall|i: int| 0 <= i < ls.len() implies trim_spec(#[trigger] ls[i]) == trim_spec(
            ended[i],
        ) by {
            if i == ls.len() - 1 {
                lemma_trim_drop_cr(ls[i]);
            }
        }
        lemma_keys_trimmed(ls, ended);
    } else if contents.len() > 0 {
        assert(contents.skip(contents.len() - 1)[0] == '\n');
    }
    if head.len() > 0 {
        assert(head.last() == '\n');
    }
    let l = line.push('\n');
    assert(with_line(contents, line) =~= head + l);
    lemma_lines_append(head, l);
    lemma_lines_single(line);
    let all = lines_spec(head + l);
    assert(all.drop_last() =~= lines_spec(head));
    assert(all.last() == drop_cr(line));
    lemma_trim_drop_cr(line);
    lemma_entry_trim(line);
}

/// A file from which a key was removed says what it said before of every
/// other key, and nothing of that key.
pub proof fn law_remove_then_load(contents: Seq<char>, target: Seq<u8>, m: Map<Seq<u8>, EntryView>)
    requires
        keys_spec(lines_spec(contents)) == Ok::<Map<Seq<u8>, EntryView>, Seq<char>>(m),
    ensures
        keys_spec(lines_spec(without_key(lines_spec(contents), target))) == Ok::<
            Map<Seq<u8>, EntryView>,
            Seq<char>,
        >(m.remove(target)),
{
    lemma_lines_have_no_newline(contents);
    lemma_without_key(lines_spec(contents), target, m);
}

proof fn lemma_without_key(ls: Seq<Seq<char>>, target: Seq<u8>, m: Map<Seq<u8>, EntryView>)
    requires
        forall|i: int| 0 <= i < ls.len() ==> !(#[trigger] ls[i]).contains('\n'),
        keys_spec(ls) == Ok::<Map<Seq<u8>, EntryView>, Seq<char>>(m),
    ensures
        keys_spec(lines_spec(without_key(ls, target))) == Ok::<Map<Seq<u8>, EntryView>, Seq<char>>(
            m.remove(target),
        ),
        without_key(ls, target).len() > 0 ==> without_key(ls, target).last() == '\n',
    decreases ls.len(),
{
    if ls.len() == 0 {
        assert(lines_spec(without_key(ls, target)) =~= Seq::empty());
        assert(m.remove(target) =~= m);
    } else {
        let front = ls.drop_last();
        let last = ls.last();
        let m0 = keys_spec(front)->Ok_0;
        assert forall|i: int| 0 <= i < front.len() implies !(#[trigger] front[i]).contains('\n') by {
            assert(front[i] == ls[i]);
        }
        lemma_without_key(front, target, m0);
        let head = without_key(front, target);
        let t = trim_spec(last);
        if is_entry_for(last, target) {
            assert(m.remove(target) =~= m0.remove(target));
        } else {
            reveal_strlit("\n");
            let l = last.push('\n');
            assert("\n"@ =~= seq!['\n']);
            assert(without_key(ls, target) =~= head + l);
            assert(!ls[ls.len() - 1].contains('\n'));
            lemma_lines_append(head, l);
            lemma_lines_single(last);
            let all = lines_spec(head + l);
            assert(all.drop_last() =~= lines_spec(head));
            lemma_trim_drop_cr(last);
            if is_idle_line(t) {
            } else {
                let (key, entry) = entry_spec(t)->0;
                assert(m0.remove(target).insert(key, entry) =~= m0.insert(key, entry).remove(target));
            }
        }
    }
}

/// A key that a reload finds unchanged, its comment aside, is not revoked; one
/// that is gone is.
pub proof fn law_comment_edit_revokes_nothing(
    old_keys: Map<Seq<u8>, EntryView>,
    new_keys: Map<Seq<u8>, EntryView>,
    key: Seq<u8>,
    comment: Option<Seq<char>>,
)
    requires
        old_keys.contains_key(key),
    ensures
        !new_keys.contains_key(key) ==> is_revoked(old_keys, new_keys, key),
        new_keys.contains_key(key) && new_keys[key] == (EntryView { comment, ..old_keys[key] })
            ==> !is_revoked(old_keys, new_keys, key),
{
}

proof fn lemma_newline_says_nothing(body: Seq<char>)
    ensures
        entry_spec(body + "\n"@) == entry_spec(body),
{
    reveal_strlit("\n");
    let nl = "\n"@;
    let line = body + nl;
    let none = Seq::<char>::empty();
    let i = first_at(body, '#');
    lemma_first_at(body, '#');
    assert(all_space(nl) && all_space(none));
    if i < body.len() {
        lemma_first_at_is(line, '#', i);
        assert(line.take(i) =~= body.take(i));
        let c = body.skip(i + 1);
        assert(line.skip(i + 1) =~= none + c + nl);
        lemma_trim_pad(none, c, nl);
    } else {
        lemma_first_at_is(line, '#', line.len() as int);
        assert(line =~= none + body + nl);
        lemma_trim_pad(none, body, nl);
    }
    assert(line_words(line) == line_words(body));
    assert(comment_spec(line) == comment_spec(body));
}

/// A file that gained a line says what it said before, and what the line says:
/// whoever loads it finds the old entries and the new one. The line may end in
/// a newline.
pub proof fn law_append_then_load(
    contents: Seq<char>,
    line: Seq<char>,
    m: Map<Seq<u8>, EntryView>,
    key: Seq<u8>,
    entry: EntryView,
)
    requires
        keys_spec(lines_spec(contents)) == Ok::<Map<Seq<u8>, EntryView>, Seq<char>>(m),
        entry_spec(line) == Some((key, entry)),
        line.len() > 0 ==> !line.drop_last().contains('\n'),
    ensures
        keys_spec(lines_spec(with_line(contents, line))) == Ok::<Map<Seq<u8>, EntryView>, Seq<char>>(
            m.insert(key, entry),
        ),
{
    reveal_strlit("\n");
    let nl = "\n"@;
    if line.len() > 0 && line.last() == '\n' {
        let body = line.drop_last();
        assert(line =~= body + nl);
        assert(line.skip(line.len() - 1) =~= nl);
        lemma_newline_says_nothing(body);
        lemma_append_then_load(contents, body, m, key, entry);
        assert(!has_suffix(body, nl)) by {
            if has_suffix(body, nl) {
                assert(body.skip(body.len() - 1)[0] == '\n');
                assert(body.contains(body[body.len() - 1]));
            }
        }
        let head = if contents.len() > 0 && !has_suffix(contents, nl) {
            contents + nl
        } else {
            contents
        };
        assert(head + (body + nl) =~= head + body + nl);
        assert(with_line(contents, line) == with_line(contents, body));
    } else {
        assert(!line.contains('\n')) by {
            if line.contains('\n') {
                let k = choose|k: int| 0 <= k < line.len() && line[k] == '\n';
                assert(line.drop_last()[k] == '\n');
            }
        }
        lemma_append_then_load(contents, line, m, key, entry);
    }
}

/// A key whose authorization an appended line changes is reported by the next
/// reload, whatever the file says by then, and by that reload only.
pub proof fn law_appended_change_is_reported(
    pre: KeyRegistry,
    mid: KeyRegistry,
    post: KeyRegistry,
    key: Seq<u8>,
    entry: EntryView,
    m: Map<Seq<u8>, EntryView>,
    reported: Seq<Seq<u8>>,
)
    requires
        pre@.contains_key(key),
        !pre@[key].same_authorization(entry),
        pre.inserted(mid, key, entry),
        mid.reloaded(post, m, reported),
    ensures
        reported.contains(key),
        forall|n: Map<Seq<u8>, EntryView>, again: KeyRegistry, more: Seq<Seq<u8>>| #[trigger]
            post.reloaded(again, n, more) ==> (more.contains(key) <==> is_revoked(m, n, key)),
{
    assert(is_revoked(pre@, mid@, key));
    assert(mid.awaits_report(key));
    assert forall|n: Map<Seq<u8>, EntryView>, again: KeyRegistry, more: Seq<Seq<u8>>| #[trigger]
        post.reloaded(again, n, more) implies (more.contains(key) <==> is_revoked(m, n, key)) by {
        assert(!post.awaits_report(key));
    }
}

} // verus!
