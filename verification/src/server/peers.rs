//! Static list of federated peer relays: one apex domain per line, optionally
//! with a port. Empty lines and lines that start with `#` are skipped.

use crate::server::keys::is_idle_line;
use crate::text::{chars_of, lines, lines_spec, same_str, trim, trim_spec, views};
use vstd::prelude::*;

verus! {

/// The peers that the lines of a file list, in order, each once.
pub open spec fn peers_spec(ls: Seq<Seq<char>>) -> Seq<Seq<char>>
    decreases ls.len(),
{
    if ls.len() == 0 {
        Seq::empty()
    } else {
        let before = peers_spec(ls.drop_last());
        let t = trim_spec(ls.last());
        if is_idle_line(t) || before.contains(t) {
            before
        } else {
            before.push(t)
        }
    }
}

/// The peers that a file lists; none when it is missing.
pub open spec fn peers_in(contents: Option<&str>) -> Seq<Seq<char>> {
    match contents {
        Some(text) => peers_spec(lines_spec(text@)),
        None => Seq::empty(),
    }
}

/// In-memory copy of the peer list.
pub struct PeerRegistry {
    pub peers: Vec<String>,
}

impl View for PeerRegistry {
    type V = Seq<Seq<char>>;

    open spec fn view(&self) -> Seq<Seq<char>> {
        views(self.peers@)
    }
}

fn listed(peers: &Vec<String>, name: &str) -> (r: bool)
    ensures
        r == views(peers@).contains(name@),
{
    for i in 0..peers.len()
        invariant
            forall|j: int| 0 <= j < i ==> (#[trigger] peers@[j])@ != name@,
    {
        if same_str(peers[i].as_str(), name) {
            assert(views(peers@)[i as int] == name@);
            return true;
        }
    }
    assert forall|j: int| 0 <= j < views(peers@).len() implies views(peers@)[j] != name@ by {
        assert(peers@[j]@ != name@);
    }
    false
}

fn parse_peers(text: &str) -> (r: Vec<String>)
    ensures
        views(r@) == peers_spec(lines_spec(text@)),
{
    let ls = lines(text);
    let ghost all = lines_spec(text@);
    let mut out: Vec<String> = Vec::new();
    assert(all.take(0) =~= Seq::empty());
    assert(views(out@) =~= Seq::empty());
    for i in 0..ls.len()
        invariant
            all == views(ls@),
            views(out@) == peers_spec(all.take(i as int)),
    {
        assert(all[i as int] == ls@[i as int]@);
        assert(all.take(i + 1).drop_last() =~= all.take(i as int));
        let t = trim(ls[i].as_str());
        let cs = chars_of(t.as_str());
        if cs.len() > 0 && cs[0] != '#' && !listed(&out, t.as_str()) {
            assert(views(out@.push(t)) =~= views(out@).push(t@));
            out.push(t);
        }
    }
    assert(all.take(all.len() as int) =~= all);
    out
}

impl PeerRegistry {
    /// Load the list from the contents of its file; a missing file is an empty list.
    pub fn open(contents: Option<&str>) -> (r: PeerRegistry)
        ensures
            r@ == peers_in(contents),
    {
        match contents {
            Some(text) => PeerRegistry { peers: parse_peers(text) },
            None => {
                let r = PeerRegistry { peers: Vec::new() };
                assert(r@ =~= Seq::empty());
                r
            },
        }
    }

    /// The peers, in file order.
    pub fn snapshot(&self) -> (r: Vec<String>)
        ensures
            views(r@) == self@,
    {
        let mut out: Vec<String> = Vec::new();
        for i in 0..self.peers.len()
            invariant
                out@.len() == i,
                forall|j: int| 0 <= j < i ==> (#[trigger] out@[j])@ == self.peers@[j]@,
        {
            out.push(self.peers[i].clone());
        }
        assert(views(out@) =~= self@);
        out
    }

    /// The number of peers.
    pub fn len(&self) -> (r: usize)
        ensures
            r == self@.len(),
    {
        self.peers.len()
    }

    /// Whether there is no peer.
    pub fn is_empty(&self) -> (r: bool)
        ensures
            r == (self@.len() == 0),
    {
        self.peers.len() == 0
    }

    /// Replace the list by what the file holds now. Says whether it changed.
    pub fn reload(&mut self, contents: Option<&str>) -> (r: bool)
        ensures
            final(self)@ == peers_in(contents),
            r == (old(self)@ != final(self)@),
    {
        let fresh = PeerRegistry::open(contents);
        let mut changed = fresh.peers.len() != self.peers.len();
        assert(self@.len() == self.peers@.len() && fresh@.len() == fresh.peers@.len());
        if !changed {
            for i in 0..self.peers.len()
                invariant
                    self.peers@.len() == fresh.peers@.len(),
                    changed == exists|j: int|
                        0 <= j < i && (#[trigger] self.peers@[j])@ != fresh.peers@[j]@,
            {
                if !same_str(self.peers[i].as_str(), fresh.peers[i].as_str()) {
                    assert(self.peers@[i as int]@ != fresh.peers@[i as int]@);
                    changed = true;
                }
            }
            proof {
                if changed {
                    let j = choose|j: int|
                        0 <= j < self.peers@.len() && (#[trigger] self.peers@[j])@
                            != fresh.peers@[j]@;
                    assert(self@[j] != fresh@[j]);
                } else {
                    assert(self@ =~= fresh@);
                }
            }
        }
        if changed {
            self.peers = fresh.peers;
        }
        changed
    }
}

/// No peer is listed twice, and none is empty or a comment.
pub proof fn law_peers_distinct(ls: Seq<Seq<char>>)
    ensures
        peers_spec(ls).no_duplicates(),
        forall|i: int| 0 <= i < peers_spec(ls).len() ==> !is_idle_line(#[trigger] peers_spec(ls)[i]),
    decreases ls.len(),
{
    if ls.len() > 0 {
        law_peers_distinct(ls.drop_last());
    }
}

/// Every line that names a peer is listed, and nothing else is.
pub proof fn law_peers_are_the_lines(ls: Seq<Seq<char>>, name: Seq<char>)
    ensures
        peers_spec(ls).contains(name) <==> !is_idle_line(name) && exists|i: int|
            0 <= i < ls.len() && trim_spec(#[trigger] ls[i]) == name,
    decreases ls.len(),
{
    if ls.len() > 0 {
        let front = ls.drop_last();
        law_peers_are_the_lines(front, name);
        let before = peers_spec(front);
        let all = peers_spec(ls);
        let t = trim_spec(ls.last());
        if before.contains(name) {
            let a = choose|a: int| 0 <= a < before.len() && before[a] == name;
            assert(all[a] == name);
            let i = choose|i: int| 0 <= i < front.len() && trim_spec(#[trigger] front[i]) == name;
            assert(trim_spec(ls[i]) == name);
        }
        if t == name && !is_idle_line(name) {
            assert(trim_spec(ls[ls.len() - 1]) == name);
            if !before.contains(t) {
                assert(all[all.len() - 1] == name);
            }
        }
        if all.contains(name) && !before.contains(name) {
            assert(t == name);
        }
        if exists|i: int| 0 <= i < ls.len() && trim_spec(#[trigger] ls[i]) == name {
            let i = choose|i: int| 0 <= i < ls.len() && trim_spec(#[trigger] ls[i]) == name;
            if i < front.len() {
                assert(trim_spec(front[i]) == name);
            }
        }
    }
}

/// The peers of a file stand in the order in which they are first named:
/// more lines only add peers at the end, and a line adds its name unless it
/// is there already or the line is blank or a comment.
pub proof fn law_peers_keep_file_order(ls: Seq<Seq<char>>, more: Seq<Seq<char>>, l: Seq<char>)
    ensures
        peers_spec(ls).len() <= peers_spec(ls + more).len(),
        peers_spec(ls + more).take(peers_spec(ls).len() as int) == peers_spec(ls),
        trim_spec(l).len() > 0 && trim_spec(l)[0] != '#' && !peers_spec(ls).contains(trim_spec(l))
            ==> peers_spec(ls.push(l)) == peers_spec(ls).push(trim_spec(l)),
        trim_spec(l).len() == 0 || trim_spec(l)[0] == '#' || peers_spec(ls).contains(trim_spec(l))
            ==> peers_spec(ls.push(l)) == peers_spec(ls),
    decreases more.len(),
{
    assert(ls.push(l).drop_last() =~= ls);
    let before = peers_spec(ls);
    if more.len() == 0 {
        assert(ls + more =~= ls);
        assert(before.take(before.len() as int) =~= before);
    } else {
        let front = more.drop_last();
        law_peers_keep_file_order(ls, front, l);
        assert((ls + more).drop_last() =~= ls + front);
        let mid = peers_spec(ls + front);
        let all = peers_spec(ls + more);
        assert(all.take(before.len() as int) =~= mid.take(before.len() as int));
    }
}

/// A missing file lists no peer.
pub proof fn law_missing_file_lists_no_peer()
    ensures
        peers_in(None).len() == 0,
{
}

} // verus!
