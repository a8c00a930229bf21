//! Cross-relay collision detection: whether a label is free on every peer
//! that an identity is federated with.

use crate::proto::ids::{same_key, PubKey};
use crate::text::views;
use vstd::prelude::*;

verus! {

/// Outcome of a single-peer lookup.
#[derive(Debug, Clone, Copy, PartialEq, Eq)]
pub enum PeerLookupOutcome {
    /// The peer does not have the label registered.
    NotFound,
    /// The peer has the label, owned by this key.
    Found(PubKey),
    /// The peer could not be asked. Registration goes on, so that local
    /// availability does not hang on the peers'.
    Unavailable,
}

/// How peers are asked for the owner of a label.
pub trait PeerLabelLookup {
    /// Ask peer `peer_apex` whether it has `label` registered.
    fn find_owner(&self, peer_apex: &str, label: &str) -> (r: PeerLookupOutcome);
}

/// Finds no label anywhere: for a relay without peers.
#[derive(Debug, Clone, Copy)]
pub struct NoOpPeerLookup;

impl PeerLabelLookup for NoOpPeerLookup {
    fn find_owner(&self, _peer_apex: &str, _label: &str) -> (r: PeerLookupOutcome)
        ensures
            r == PeerLookupOutcome::NotFound,
    {
        PeerLookupOutcome::NotFound
    }
}

/// What asking every peer comes to.
#[derive(Debug, Clone, PartialEq, Eq)]
pub enum CollisionCheck {
    /// No peer holds the label for another identity. `matched_peers` are those
    /// where the same identity already holds it.
    Clear { matched_peers: Vec<String> },
    /// The first peer that holds the label for another identity.
    Conflict { first_conflict: String },
}

/// What a [`CollisionCheck`] says.
pub enum CollisionView {
    Clear { matched_peers: Seq<Seq<char>> },
    Conflict { first_conflict: Seq<char> },
}

impl View for CollisionCheck {
    type V = CollisionView;

    open spec fn view(&self) -> CollisionView {
        match *self {
            CollisionCheck::Clear { matched_peers } => CollisionView::Clear {
                matched_peers: views(matched_peers@),
            },
            CollisionCheck::Conflict { first_conflict } => CollisionView::Conflict {
                first_conflict: first_conflict@,
            },
        }
    }
}

/// What the outcomes of the peers come to for the identity `me`, when the
/// peers before them gave `matched`: the first foreign owner decides.
pub open spec fn collision(
    peers: Seq<Seq<char>>,
    outcomes: Seq<PeerLookupOutcome>,
    me: PubKey,
    matched: Seq<Seq<char>>,
) -> CollisionView
    decreases outcomes.len(),
{
    if outcomes.len() == 0 {
        CollisionView::Clear { matched_peers: matched }
    } else {
        match outcomes[0] {
            PeerLookupOutcome::Found(owner) => if owner == me {
                collision(peers.skip(1), outcomes.skip(1), me, matched.push(peers[0]))
            } else {
                CollisionView::Conflict { first_conflict: peers[0] }
            },
            _ => collision(peers.skip(1), outcomes.skip(1), me, matched),
        }
    }
}

/// Take in the outcome of one peer: `Some` when it decides, else `matched` is kept up.
pub fn collision_step(
    matched: &mut Vec<String>,
    peer: &String,
    outcome: PeerLookupOutcome,
    self_pubkey: &PubKey,
) -> (r: Option<CollisionCheck>)
    ensures
        match outcome {
            PeerLookupOutcome::Found(owner) => if owner == *self_pubkey {
                r is None && views(final(matched)@) == views(old(matched)@).push(peer@)
            } else {
                &&& r is Some
                &&& (r->0)@ == (CollisionView::Conflict { first_conflict: peer@ })
                &&& final(matched)@ == old(matched)@
            },
            _ => r is None && final(matched)@ == old(matched)@,
        },
{
    match outcome {
        PeerLookupOutcome::Found(owner) => if same_key(&owner, self_pubkey) {
            let name = peer.clone();
            matched.push(name);
            assert(views(matched@) =~= views(old(matched)@).push(peer@));
            None
        } else {
            Some(CollisionCheck::Conflict { first_conflict: peer.clone() })
        },
        _ => None,
    }
}

/// What the outcomes of all peers come to.
pub fn aggregate(
    peers: &Vec<String>,
    outcomes: &Vec<PeerLookupOutcome>,
    self_pubkey: &PubKey,
) -> (r: CollisionCheck)
    requires
        peers@.len() == outcomes@.len(),
    ensures
        r@ == collision(views(peers@), outcomes@, *self_pubkey, Seq::empty()),
{
    let mut matched: Vec<String> = Vec::new();
    let ghost all = views(peers@);
    assert(all.skip(0) =~= all);
    assert(outcomes@.skip(0) =~= outcomes@);
    assert(views(matched@) =~= Seq::empty());
    for i in 0..peers.len()
        invariant
            all == views(peers@),
            peers@.len() == outcomes@.len(),
            collision(
                all.skip(i as int),
                outcomes@.skip(i as int),
                *self_pubkey,
                views(matched@),
            ) == collision(all, outcomes@, *self_pubkey, Seq::empty()),
    {
        assert(all.skip(i as int).skip(1) =~= all.skip(i + 1));
        assert(outcomes@.skip(i as int).skip(1) =~= outcomes@.skip(i + 1));
        assert(all.skip(i as int)[0] == peers@[i as int]@);
        if let Some(done) = collision_step(&mut matched, &peers[i], outcomes[i], self_pubkey) {
            return done;
        }
    }
    CollisionCheck::Clear { matched_peers: matched }
}

/// Ask every peer in turn, up to the first that holds the label for another
/// identity. What comes of it is what the outcomes given by the peers come to.
pub fn check_collision<L: PeerLabelLookup>(
    lookup: &L,
    peers: &Vec<String>,
    label: &str,
    self_pubkey: &PubKey,
) -> (r: CollisionCheck)
    ensures
        exists|outcomes: Seq<PeerLookupOutcome>|
            {
                &&& outcomes.len() <= peers@.len()
                &&& forall|i: int|
                    0 <= i < outcomes.len() ==> answers(
                        lookup,
                        peers@[i]@,
                        label,
                        #[trigger] outcomes[i],
                    )
                &&& r@ == #[trigger] collision(views(peers@), outcomes, *self_pubkey, Seq::empty())
                &&& r is Clear ==> outcomes.len() == peers@.len()
            },
{
    let mut matched: Vec<String> = Vec::new();
    let ghost all = views(peers@);
    let ghost mut outcomes: Seq<PeerLookupOutcome> = Seq::empty();
    assert(views(matched@) =~= Seq::empty());
    for i in 0..peers.len()
        invariant
            all == views(peers@),
            outcomes.len() == i,
            forall|j: int|
                0 <= j < i ==> answers(lookup, peers@[j]@, label, #[trigger] outcomes[j]),
            all_continue(outcomes, *self_pubkey),
            views(matched@) == matched_of(all, outcomes, *self_pubkey),
    {
        let outcome = lookup.find_owner(peers[i].as_str(), label);
        let ghost before = outcomes;
        proof {
            outcomes = outcomes.push(outcome);
            assert(answers(lookup, peers@[i as int]@, label, outcome));
            assert(outcomes.drop_last() =~= before);
            assert(all[i as int] == peers@[i as int]@);
        }
        if let Some(done) = collision_step(&mut matched, &peers[i], outcome, self_pubkey) {
            proof {
                lemma_collision(all, outcomes, *self_pubkey);
            }
            return done;
        }
        proof {
            assert(all_continue(outcomes, *self_pubkey));
        }
    }
    proof {
        lemma_collision(all, outcomes, *self_pubkey);
    }
    CollisionCheck::Clear { matched_peers: matched }
}

/// Whether the lookup may answer `outcome` for this peer and label.
pub open spec fn answers<L: PeerLabelLookup>(
    lookup: &L,
    peer: Seq<char>,
    label: &str,
    outcome: PeerLookupOutcome,
) -> bool {
    exists|p: &str| p@ == peer && #[trigger] call_ensures(L::find_owner, (lookup, p, label), outcome)
}

/// Whether no outcome names a foreign owner.
pub open spec fn all_continue(outcomes: Seq<PeerLookupOutcome>, me: PubKey) -> bool {
    forall|i: int|
        0 <= i < outcomes.len() ==> ((#[trigger] outcomes[i]) matches PeerLookupOutcome::Found(owner)
            ==> owner == me)
}

/// The peers whose outcome names `me`, in order.
pub open spec fn matched_of(
    peers: Seq<Seq<char>>,
    outcomes: Seq<PeerLookupOutcome>,
    me: PubKey,
) -> Seq<Seq<char>>
    decreases outcomes.len(),
{
    if outcomes.len() == 0 {
        Seq::empty()
    } else {
        let before = matched_of(peers, outcomes.drop_last(), me);
        if outcomes.last() == PeerLookupOutcome::Found(me) {
            before.push(peers[outcomes.len() - 1])
        } else {
            before
        }
    }
}

/// One more outcome behind outcomes that decided nothing.
proof fn lemma_collision_last(
    peers: Seq<Seq<char>>,
    outcomes: Seq<PeerLookupOutcome>,
    last: PeerLookupOutcome,
    me: PubKey,
    matched: Seq<Seq<char>>,
)
    requires
        outcomes.len() < peers.len(),
        all_continue(outcomes, me),
        collision(peers, outcomes, me, matched) is Clear,
    ensures
        collision(peers, outcomes.push(last), me, matched) == (match last {
            PeerLookupOutcome::Found(owner) => if owner == me {
                CollisionView::Clear {
                    matched_peers: collision(peers, outcomes, me, matched)->matched_peers.push(
                        peers[outcomes.len() as int],
                    ),
                }
            } else {
                CollisionView::Conflict { first_conflict: peers[outcomes.len() as int] }
            },
            _ => collision(peers, outcomes, me, matched),
        }),
    decreases outcomes.len(),
{
    reveal_with_fuel(collision, 2);
    let o = outcomes.push(last);
    if outcomes.len() == 0 {
        assert(o.skip(1) =~= Seq::empty());
    } else {
        assert(o.skip(1) =~= outcomes.skip(1).push(last));
        assert(outcomes[0] == o[0]);
        assert(all_continue(outcomes.skip(1), me)) by {
            assert forall|i: int| 0 <= i < outcomes.skip(1).len() implies ((#[trigger] outcomes.skip(
                1,
            )[i]) matches PeerLookupOutcome::Found(owner) ==> owner == me) by {
                assert(outcomes.skip(1)[i] == outcomes[i + 1]);
            }
        }
        let next = if outcomes[0] == PeerLookupOutcome::Found(me) {
            matched.push(peers[0])
        } else {
            matched
        };
        lemma_collision_last(peers.skip(1), outcomes.skip(1), last, me, next);
        assert(peers.skip(1)[outcomes.len() - 1] == peers[outcomes.len() as int]);
    }
}

/// What outcomes come to of which at most the last names a foreign owner.
proof fn lemma_collision(peers: Seq<Seq<char>>, outcomes: Seq<PeerLookupOutcome>, me: PubKey)
    requires
        outcomes.len() <= peers.len(),
        outcomes.len() > 0 ==> all_continue(outcomes.drop_last(), me),
    ensures
        all_continue(outcomes, me) ==> collision(peers, outcomes, me, Seq::empty()) == (
        CollisionView::Clear { matched_peers: matched_of(peers, outcomes, me) }),
        !all_continue(outcomes, me) ==> collision(peers, outcomes, me, Seq::empty()) == (
        CollisionView::Conflict { first_conflict: peers[outcomes.len() - 1] }),
    decreases outcomes.len(),
{
    if outcomes.len() > 0 {
        let front = outcomes.drop_last();
        if front.len() > 0 {
            assert forall|i: int| 0 <= i < front.drop_last().len() implies ((
            #[trigger] front.drop_last()[i]) matches PeerLookupOutcome::Found(owner) ==> owner == me) by {
                assert(front.drop_last()[i] == front[i]);
            }
        }
        lemma_collision(peers, front, me);
        lemma_collision_last(peers, front, outcomes.last(), me, Seq::empty());
        assert(front.push(outcomes.last()) =~= outcomes);
        if all_continue(outcomes, me) {
            assert(outcomes[outcomes.len() - 1] == outcomes.last());
        } else {
            let i = choose|i: int|
                0 <= i < outcomes.len() && !((#[trigger] outcomes[i]) matches PeerLookupOutcome::Found(
                    owner,
                ) ==> owner == me);
            if i < front.len() {
                assert(front[i] == outcomes[i]);
            }
        }
    }
}

/// A peer that cannot be asked, or does not know the label, never stands in
/// the way: without a foreign owner the label is free.
pub proof fn law_fail_open(peers: Seq<Seq<char>>, outcomes: Seq<PeerLookupOutcome>, me: PubKey)
    requires
        outcomes.len() <= peers.len(),
        all_continue(outcomes, me),
    ensures
        collision(peers, outcomes, me, Seq::empty()) == (CollisionView::Clear {
            matched_peers: matched_of(peers, outcomes, me),
        }),
{
    if outcomes.len() > 0 {
        assert forall|i: int| 0 <= i < outcomes.drop_last().len() implies ((
        #[trigger] outcomes.drop_last()[i]) matches PeerLookupOutcome::Found(owner) ==> owner == me) by {
            assert(outcomes.drop_last()[i] == outcomes[i]);
        }
    }
    lemma_collision(peers, outcomes, me);
}

/// The first peer that holds the label for another identity decides, whatever
/// the peers behind it say.
pub proof fn law_first_foreign_owner_decides(
    peers: Seq<Seq<char>>,
    outcomes: Seq<PeerLookupOutcome>,
    me: PubKey,
    matched: Seq<Seq<char>>,
    i: int,
    owner: PubKey,
)
    requires
        0 <= i < outcomes.len(),
        outcomes.len() <= peers.len(),
        outcomes[i] == PeerLookupOutcome::Found(owner),
        owner != me,
        forall|j: int|
            0 <= j < i ==> ((#[trigger] outcomes[j]) matches PeerLookupOutcome::Found(o) ==> o == me),
    ensures
        collision(peers, outcomes, me, matched) == (CollisionView::Conflict { first_conflict: peers[i] }),
    decreases i,
{
    if i > 0 {
        let rest = outcomes.skip(1);
        assert(rest[i - 1] == outcomes[i]);
        assert(peers.skip(1)[i - 1] == peers[i]);
        assert forall|j: int| 0 <= j < i - 1 implies ((#[trigger] rest[j]) matches PeerLookupOutcome::Found(
            o,
        ) ==> o == me) by {
            assert(rest[j] == outcomes[j + 1]);
        }
        let next = if outcomes[0] == PeerLookupOutcome::Found(me) {
            matched.push(peers[0])
        } else {
            matched
        };
        assert(outcomes[0] matches PeerLookupOutcome::Found(o) ==> o == me);
        law_first_foreign_owner_decides(peers.skip(1), rest, me, next, i - 1, owner);
    }
}

/// Without a foreign owner the peers that hold the label for the same identity
/// are listed, in the order in which they were asked.
pub proof fn law_matched_peers_in_order(
    peers: Seq<Seq<char>>,
    outcomes: Seq<PeerLookupOutcome>,
    last: PeerLookupOutcome,
    me: PubKey,
)
    requires
        outcomes.len() < peers.len(),
        all_continue(outcomes, me),
        all_continue(outcomes.push(last), me),
    ensures
        collision(peers, outcomes, me, Seq::empty()) is Clear,
        outcomes.len() == 0 ==> collision(peers, outcomes, me, Seq::empty())->matched_peers.len() == 0,
        collision(peers, outcomes.push(last), me, Seq::empty()) is Clear,
        last == PeerLookupOutcome::Found(me) ==> collision(
            peers,
            outcomes.push(last),
            me,
            Seq::empty(),
        )->matched_peers == collision(peers, outcomes, me, Seq::empty())->matched_peers.push(
            peers[outcomes.len() as int],
        ),
        last is NotFound || last is Unavailable ==> collision(
            peers,
            outcomes.push(last),
            me,
            Seq::empty(),
        ) == collision(peers, outcomes, me, Seq::empty()),
{
    law_fail_open(peers, outcomes, me);
    lemma_collision_last(peers, outcomes, last, me, Seq::empty());
    let more = outcomes.push(last);
    assert(more[outcomes.len() as int] == last);
}

} // verus!
