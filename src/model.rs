//! The mathematical model of a ballot: what the ledger holds, and how each
//! operation moves it from one state to the next.
use vstd::prelude::*;

verus! {

/// The identifier reported when no candidate is registered.
pub open spec fn no_winner_name() -> Seq<char> {
    seq!['n', 'o', 'n', 'e']
}

/// The result reported when no candidate is registered: `("none", 0)`.
pub open spec fn no_winner() -> (Seq<char>, nat) {
    (no_winner_name(), 0)
}

/// The abstract state of the ledger.
pub struct Ballot {
    /// Registered candidates, in insertion order, duplicates kept.
    pub candidates: Seq<Seq<char>>,
    /// Votes counted this round; a name that is absent has a count of zero.
    pub tally: Map<Seq<char>, nat>,
    /// Voters that have voted this round.
    pub voters: Set<Seq<char>>,
    /// Number of round transitions so far.
    pub round: nat,
    /// Winner and count archived at the latest round transition.
    pub last: (Seq<char>, nat),
}

impl Ballot {
    /// The state at deployment.
    pub open spec fn initial() -> Ballot {
        Ballot {
            candidates: Seq::empty(),
            tally: Map::empty(),
            voters: Set::empty(),
            round: 0,
            last: (Seq::empty(), 0),
        }
    }

    /// Count of votes for `c` this round, zero when none was cast.
    pub open spec fn score(self, c: Seq<char>) -> nat {
        if self.tally.contains_key(c) {
            self.tally[c]
        } else {
            0
        }
    }

    /// `k` is the earliest registered position holding the highest count.
    pub open spec fn is_first_max(self, k: int) -> bool {
        &&& 0 <= k < self.candidates.len()
        &&& forall|j: int|
            0 <= j < self.candidates.len() ==> self.score(#[trigger] self.candidates[j])
                <= self.score(self.candidates[k])
        &&& forall|j: int|
            0 <= j < k ==> self.score(#[trigger] self.candidates[j]) < self.score(
                self.candidates[k],
            )
    }

    /// The current leader and its count; `("none", 0)` with no candidates.
    /// Ties go to the candidate registered first.
    pub open spec fn winner(self) -> (Seq<char>, nat) {
        if self.candidates.len() == 0 {
            no_winner()
        } else {
            let k = choose|k: int| self.is_first_max(k);
            (self.candidates[k], self.score(self.candidates[k]))
        }
    }

    /// Registering candidate `c`.
    pub open spec fn add(self, c: Seq<char>) -> Ballot {
        Ballot { candidates: self.candidates.push(c), ..self }
    }

    /// Voter `v` voting for `c`: accepted only if `v` has not voted this round.
    pub open spec fn cast(self, c: Seq<char>, v: Seq<char>) -> (Ballot, bool) {
        if self.voters.contains(v) {
            (self, false)
        } else {
            (
                Ballot {
                    tally: self.tally.insert(c, self.score(c) + 1),
                    voters: self.voters.insert(v),
                    ..self
                },
                true,
            )
        }
    }

    /// The round transition: archive the winner, count the round, clear
    /// candidates, tally and voters. Also yields the archived result.
    pub open spec fn advance(self) -> (Ballot, (Seq<char>, nat)) {
        let w = self.winner();
        (
            Ballot {
                candidates: Seq::empty(),
                tally: Map::empty(),
                voters: Set::empty(),
                round: self.round + 1,
                last: w,
            },
            w,
        )
    }
}

/// At most one position is the earliest one with the highest count.
pub proof fn lemma_first_max_unique(b: Ballot, k1: int, k2: int)
    requires
        b.is_first_max(k1),
        b.is_first_max(k2),
    ensures
        k1 == k2,
{
    if k1 < k2 {
        assert(b.score(b.candidates[k1]) < b.score(b.candidates[k2]));
        assert(b.score(b.candidates[k2]) <= b.score(b.candidates[k1]));
    } else if k2 < k1 {
        assert(b.score(b.candidates[k2]) < b.score(b.candidates[k1]));
        assert(b.score(b.candidates[k1]) <= b.score(b.candidates[k2]));
    }
}

/// Any earliest highest position determines the winner.
pub proof fn lemma_winner_at(b: Ballot, k: int)
    requires
        b.is_first_max(k),
    ensures
        b.winner() == (b.candidates[k], b.score(b.candidates[k])),
{
    let c = choose|k: int| b.is_first_max(k);
    lemma_first_max_unique(b, c, k);
}

} // verus!
