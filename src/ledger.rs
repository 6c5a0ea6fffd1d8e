//! The ledger itself: candidates, tallies and vote flags held in vectors,
//! refining the model of `crate::model`.
use vstd::prelude::*;

use crate::model::{Ballot, no_winner_name, lemma_winner_at};

verus! {

/// The names of a sequence of strings.
pub open spec fn names(s: Seq<String>) -> Seq<Seq<char>> {
    Seq::new(s.len(), |i: int| s[i]@)
}

/// Each name occurs at most once among the tally entries.
pub open spec fn keys_unique(entries: Seq<(String, u128)>) -> bool {
    forall|i: int, j: int|
        0 <= i < entries.len() && 0 <= j < entries.len() && #[trigger] entries[i].0@
            == #[trigger] entries[j].0@ ==> i == j
}

/// `c` names some tally entry.
pub open spec fn has_entry(entries: Seq<(String, u128)>, c: Seq<char>) -> bool {
    exists|i: int| 0 <= i < entries.len() && #[trigger] entries[i].0@ == c
}

/// The tally entries read as a map from name to count.
pub open spec fn tally_map(entries: Seq<(String, u128)>) -> Map<Seq<char>, nat> {
    Map::new(
        |c: Seq<char>| has_entry(entries, c),
        |c: Seq<char>|
            entries[choose|i: int|
                0 <= i < entries.len() && #[trigger] entries[i].0@ == c].1 as nat,
    )
}

/// With unique names, the map holds each entry's own count.
proof fn lemma_tally_at(entries: Seq<(String, u128)>, i: int)
    requires
        keys_unique(entries),
        0 <= i < entries.len(),
    ensures
        tally_map(entries).contains_key(entries[i].0@),
        tally_map(entries)[entries[i].0@] == entries[i].1 as nat,
{
    let c = entries[i].0@;
    assert(has_entry(entries, c));
    let j = choose|j: int| 0 <= j < entries.len() && #[trigger] entries[j].0@ == c;
    assert(entries[j].0@ == entries[i].0@);
}

/// The ballot that a ledger's parts stand for.
pub open spec fn ballot_of(
    has_vote: Seq<String>,
    votes: Seq<(String, u128)>,
    candidates: Seq<String>,
    round: u128,
    winner: Seq<char>,
    score: u128,
) -> Ballot {
    Ballot {
        candidates: names(candidates),
        tally: tally_map(votes),
        voters: Set::new(|v: Seq<char>| names(has_vote).contains(v)),
        round: round as nat,
        last: (winner, score as nat),
    }
}

/// Parts that make a sound ledger: one tally entry per name, and no count
/// above the number of voters.
pub open spec fn parts_ok(has_vote: Seq<String>, votes: Seq<(String, u128)>) -> bool {
    &&& keys_unique(votes)
    &&& forall|i: int| 0 <= i < votes.len() ==> #[trigger] votes[i].1 <= has_vote.len()
}

/// Whether `parts_ok` holds of the given voters and tally entries.
fn parts_valid(has_vote: &Vec<String>, votes: &Vec<(String, u128)>) -> (r: bool)
    ensures
        r == parts_ok(has_vote@, votes@),
{
    let n: usize = has_vote.len();
    let mut i: usize = 0;
    while i < votes.len()
        invariant
            n == has_vote@.len(),
            i <= votes@.len(),
            forall|a: int| 0 <= a < i ==> #[trigger] votes@[a].1 <= n,
            forall|a: int, b: int|
                0 <= a < i && 0 <= b < i && #[trigger] votes@[a].0@ == #[trigger] votes@[b].0@
                    ==> a == b,
        decreases votes@.len() - i,
    {
        if votes[i].1 > n as u128 {
            return false;
        }
        let mut j: usize = 0;
        while j < i
            invariant
                i < votes@.len(),
                j <= i,
                forall|a: int| 0 <= a < j ==> #[trigger] votes@[a].0@ != votes@[i as int].0@,
            decreases i - j,
        {
            if votes[j].0 == votes[i].0 {
                return false;
            }
            j = j + 1;
        }
        i = i + 1;
    }
    true
}

/// Adding a voter to the list adds their name to the set of voters.
proof fn lemma_voters_push(h: Seq<String>, v: String)
    ensures
        Set::new(|w: Seq<char>| names(h.push(v)).contains(w)) =~= Set::new(
            |w: Seq<char>| names(h).contains(w),
        ).insert(v@),
{
    let s0 = names(h);
    let s1 = names(h.push(v));
    assert forall|w: Seq<char>| s1.contains(w) == (s0.contains(w) || w == v@) by {
        if s1.contains(w) {
            let j = choose|j: int| 0 <= j < s1.len() && s1[j] == w;
            if j < s0.len() {
                assert(s0[j] == w);
            }
        }
        if s0.contains(w) {
            let j = choose|j: int| 0 <= j < s0.len() && s0[j] == w;
            assert(s1[j] == w);
        }
        if w == v@ {
            assert(s1[s0.len() as int] == w);
        }
    }
}

/// Replacing the count of an entry, under the same name, changes that
/// name's count alone.
proof fn lemma_tally_update(v0: Seq<(String, u128)>, i: int, e: (String, u128))
    requires
        keys_unique(v0),
        0 <= i < v0.len(),
        e.0@ == v0[i].0@,
    ensures
        keys_unique(v0.update(i, e)),
        tally_map(v0.update(i, e)) =~= tally_map(v0).insert(e.0@, e.1 as nat),
{
    let v1 = v0.update(i, e);
    assert forall|c: Seq<char>| has_entry(v1, c) == (has_entry(v0, c) || c == e.0@) by {
        if has_entry(v1, c) {
            let j = choose|j: int| 0 <= j < v1.len() && #[trigger] v1[j].0@ == c;
            assert(v0[j].0@ == c);
        }
        if has_entry(v0, c) {
            let j = choose|j: int| 0 <= j < v0.len() && #[trigger] v0[j].0@ == c;
            assert(v1[j].0@ == c);
        }
        if c == e.0@ {
            assert(v1[i].0@ == c);
        }
    }
    assert forall|c: Seq<char>| #[trigger] tally_map(v1).contains_key(c) implies tally_map(v1)[c]
        == tally_map(v0).insert(e.0@, e.1 as nat)[c] by {
        let j = choose|j: int| 0 <= j < v1.len() && #[trigger] v1[j].0@ == c;
        lemma_tally_at(v1, j);
        if j != i {
            lemma_tally_at(v0, j);
        }
    }
}

/// Appending an entry under a new name adds that name with its count.
proof fn lemma_tally_push(v0: Seq<(String, u128)>, e: (String, u128))
    requires
        keys_unique(v0),
        !has_entry(v0, e.0@),
    ensures
        keys_unique(v0.push(e)),
        tally_map(v0.push(e)) =~= tally_map(v0).insert(e.0@, e.1 as nat),
{
    let v1 = v0.push(e);
    let k = v0.len() as int;
    assert(v1[k].0@ == e.0@);
    assert forall|a: int, b: int|
        0 <= a < v1.len() && 0 <= b < v1.len() && #[trigger] v1[a].0@ == #[trigger] v1[b].0@
            implies a == b by {
        if a < k && b < k {
            assert(v0[a].0@ == v0[b].0@);
        } else if a < k {
            assert(v0[a].0@ == e.0@);
        } else if b < k {
            assert(v0[b].0@ == e.0@);
        }
    }
    assert forall|c: Seq<char>| has_entry(v1, c) == (has_entry(v0, c) || c == e.0@) by {
        if has_entry(v1, c) {
            let j = choose|j: int| 0 <= j < v1.len() && #[trigger] v1[j].0@ == c;
            if j < k {
                assert(v0[j].0@ == c);
            }
        }
        if has_entry(v0, c) {
            let j = choose|j: int| 0 <= j < v0.len() && #[trigger] v0[j].0@ == c;
            assert(v1[j].0@ == c);
        }
    }
    assert forall|c: Seq<char>| #[trigger] tally_map(v1).contains_key(c) implies tally_map(v1)[c]
        == tally_map(v0).insert(e.0@, e.1 as nat)[c] by {
        let j = choose|j: int| 0 <= j < v1.len() && #[trigger] v1[j].0@ == c;
        lemma_tally_at(v1, j);
        if j < k {
            lemma_tally_at(v0, j);
        }
    }
}

/// The ballot ledger.
pub struct VoteApp {
    /// Voters that have voted this round.
    has_vote: Vec<String>,
    /// Count for each name voted for this round, one entry per name.
    votes: Vec<(String, u128)>,
    /// Registered candidates, in insertion order.
    candidates: Vec<String>,
    round: u128,
    winner: String,
    score: u128,
}

impl View for VoteApp {
    type V = Ballot;

    closed spec fn view(&self) -> Ballot {
        ballot_of(
            self.has_vote@,
            self.votes@,
            self.candidates@,
            self.round,
            self.winner@,
            self.score,
        )
    }
}

impl VoteApp {
    /// The ledger's internal invariant: one tally entry per name, and no
    /// count above the number of voters this round.
    pub closed spec fn wf(&self) -> bool {
        parts_ok(self.has_vote@, self.votes@)
    }

    /// Rebuilds a ledger from stored parts: voters of this round, tally
    /// entries, candidates, round number, archived winner and count. `None`
    /// when the parts do not make a sound ledger.
    pub fn from_parts(
        has_vote: Vec<String>,
        votes: Vec<(String, u128)>,
        candidates: Vec<String>,
        round: u128,
        winner: String,
        score: u128,
    ) -> (r: Option<VoteApp>)
        ensures
            r is Some <==> parts_ok(has_vote@, votes@),
            r matches Some(app) ==> app.wf() && app@ == ballot_of(
                has_vote@,
                votes@,
                candidates@,
                round,
                winner@,
                score,
            ),
    {
        if parts_valid(&has_vote, &votes) {
            Some(VoteApp { has_vote, votes, candidates, round, winner, score })
        } else {
            None
        }
    }

    /// Takes the ledger apart into the parts that `from_parts` accepts.
    pub fn into_parts(self) -> (r: (
        Vec<String>,
        Vec<(String, u128)>,
        Vec<String>,
        u128,
        String,
        u128,
    ))
        requires
            self.wf(),
        ensures
            parts_ok(r.0@, r.1@),
            ballot_of(r.0@, r.1@, r.2@, r.3, r.4@, r.5) == self@,
    {
        (self.has_vote, self.votes, self.candidates, self.round, self.winner, self.score)
    }

    /// The winner and count archived at the latest round transition.
    pub fn last_winner(&self) -> (r: (String, u128))
        ensures
            (r.0@, r.1 as nat) == self@.last,
    {
        (self.winner.clone(), self.score)
    }

    /// The current round number.
    pub fn get_round(&self) -> (r: u128)
        ensures
            r as nat == self@.round,
    {
        self.round
    }

    /// The registered candidates, in insertion order, as fresh copies.
    pub fn get_candidates(&self) -> (r: Vec<String>)
        ensures
            names(r@) == self@.candidates,
    {
        let mut r: Vec<String> = Vec::new();
        let mut i: usize = 0;
        while i < self.candidates.len()
            invariant
                i <= self.candidates@.len(),
                r@.len() == i,
                forall|j: int| 0 <= j < i ==> #[trigger] r@[j]@ == self.candidates@[j]@,
            decreases self.candidates@.len() - i,
        {
            r.push(self.candidates[i].clone());
            i = i + 1;
        }
        assert(names(r@) =~= names(self.candidates@));
        r
    }

    /// Registers `candidate` at the end of the list; no check for duplicates.
    pub fn add_candidate(&mut self, candidate: String)
        requires
            old(self).wf(),
        ensures
            final(self).wf(),
            final(self)@ == old(self)@.add(candidate@),
    {
        self.candidates.push(candidate);
        assert(self@.candidates =~= old(self)@.candidates.push(candidate@));
    }

    /// Position of the tally entry named `c`, if any.
    fn find_entry(&self, c: &String) -> (r: Option<usize>)
        ensures
            match r {
                Some(i) => i < self.votes@.len() && self.votes@[i as int].0@ == c@,
                None => !has_entry(self.votes@, c@),
            },
    {
        let mut i: usize = 0;
        while i < self.votes.len()
            invariant
                i <= self.votes@.len(),
                forall|j: int| 0 <= j < i ==> #[trigger] self.votes@[j].0@ != c@,
            decreases self.votes@.len() - i,
        {
            if self.votes[i].0 == *c {
                return Some(i);
            }
            i = i + 1;
        }
        None
    }

    /// Whether `voter` has voted this round.
    fn has_voted(&self, voter: &String) -> (r: bool)
        ensures
            r == self@.voters.contains(voter@),
    {
        let mut i: usize = 0;
        while i < self.has_vote.len()
            invariant
                i <= self.has_vote@.len(),
                forall|j: int| 0 <= j < i ==> #[trigger] self.has_vote@[j]@ != voter@,
            decreases self.has_vote@.len() - i,
        {
            if self.has_vote[i] == *voter {
                assert(names(self.has_vote@)[i as int] == voter@);
                return true;
            }
            i = i + 1;
        }
        assert(!names(self.has_vote@).contains(voter@));
        false
    }

    /// Votes counted for `candidate` this round; zero when none was cast.
    pub fn get_score(&self, candidate: String) -> (r: u128)
        requires
            self.wf(),
        ensures
            r as nat == self@.score(candidate@),
    {
        match self.find_entry(&candidate) {
            Some(i) => {
                proof {
                    lemma_tally_at(self.votes@, i as int);
                }
                self.votes[i].1
            },
            None => 0,
        }
    }

    /// The current leader: the first registered candidate with the highest
    /// count, and that count; `("none", 0)` when no candidate is registered.
    /// Candidates without votes count zero.
    pub fn winner(&self) -> (r: (String, u128))
        requires
            self.wf(),
        ensures
            (r.0@, r.1 as nat) == self@.winner(),
    {
        if self.candidates.len() == 0 {
            let none = "none".to_string();
            proof {
                reveal_strlit("none");
                assert(none@ =~= no_winner_name());
            }
            return (none, 0);
        }
        let mut best: usize = 0;
        let mut max_score = self.get_score(self.candidates[0].clone());
        let mut i: usize = 1;
        while i < self.candidates.len()
            invariant
                self.wf(),
                1 <= i <= self.candidates@.len(),
                best < i,
                max_score as nat == self@.score(self@.candidates[best as int]),
                forall|j: int|
                    0 <= j < i ==> self@.score(#[trigger] self@.candidates[j]) <= max_score,
                forall|j: int|
                    0 <= j < best ==> self@.score(#[trigger] self@.candidates[j]) < max_score,
            decreases self.candidates@.len() - i,
        {
            let score = self.get_score(self.candidates[i].clone());
            if score > max_score {
                best = i;
                max_score = score;
            }
            i = i + 1;
        }
        proof {
            assert(self@.is_first_max(best as int));
            lemma_winner_at(self@, best as int);
        }
        (self.candidates[best].clone(), max_score)
    }

    /// Voter `voter` votes for `candidate`. Returns false, changing nothing,
    /// when `voter` has already voted this round. Otherwise marks `voter`,
    /// adds one to the count of `candidate` and returns true. `candidate`
    /// need not be registered: a name never added still gets a count.
    pub fn vote(&mut self, candidate: String, voter: String) -> (r: bool)
        requires
            old(self).wf(),
        ensures
            final(self).wf(),
            (final(self)@, r) == old(self)@.cast(candidate@, voter@),
            !r ==> *final(self) == *old(self),
    {
        if self.has_voted(&voter) {
            return false;
        }
        let ghost v0 = self.votes@;
        let ghost h0 = self.has_vote@;
        self.has_vote.push(voter);
        proof {
            lemma_voters_push(h0, self.has_vote@[h0.len() as int]);
            assert(self.has_vote@ =~= h0.push(self.has_vote@[h0.len() as int]));
        }
        match self.find_entry(&candidate) {
            Some(i) => {
                let cnt = self.votes[i].1;
                // no count exceeds the voters before this one, so it fits
                let voters_now: usize = self.has_vote.len();
                assert(cnt < voters_now);
                self.votes.set(i, (candidate, cnt + 1));
                proof {
                    lemma_tally_at(v0, i as int);
                    lemma_tally_update(v0, i as int, self.votes@[i as int]);
                }
            },
            None => {
                self.votes.push((candidate, 1));
                proof {
                    lemma_tally_push(v0, self.votes@[v0.len() as int]);
                }
            },
        }
        true
    }

    /// Moves to the next round: archives the current winner and its count,
    /// adds one to the round number, and clears voters, tallies and
    /// candidates. Returns the archived result.
    pub fn next_round(&mut self) -> (r: (String, u128))
        requires
            old(self).wf(),
            old(self)@.round < u128::MAX,
        ensures
            final(self).wf(),
            (final(self)@, (r.0@, r.1 as nat)) == old(self)@.advance(),
    {
        let result = self.winner();
        self.winner = result.0.clone();
        self.score = result.1;
        self.round = self.round + 1;
        self.has_vote = Vec::new();
        self.votes = Vec::new();
        self.candidates = Vec::new();
        proof {
            assert(self@.candidates =~= Seq::empty());
            assert(self@.tally =~= Map::empty());
            assert(self@.voters =~= Set::empty());
        }
        result
    }
}

impl Default for VoteApp {
    /// A ledger as at deployment: no candidates, votes or voters, round 0,
    /// and an empty archived result.
    fn default() -> (r: VoteApp)
        ensures
            r.wf(),
            r@ == Ballot::initial(),
    {
        let r = VoteApp {
            has_vote: Vec::new(),
            votes: Vec::new(),
            candidates: Vec::new(),
            round: 0,
            winner: String::new(),
            score: 0,
        };
        assert(r@.candidates =~= Seq::empty());
        assert(r@.tally =~= Map::empty());
        assert(r@.voters =~= Set::empty());
        r
    }
}

} // verus!
