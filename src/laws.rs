//! Properties of the ballot that hold across several operations, proved over
//! the model that every operation of `VoteApp` is specified against.
use vstd::prelude::*;

use crate::model::{Ballot, no_winner, lemma_winner_at};

verus! {

/// The ballot after registering each name of `cs` in turn.
pub open spec fn after_adds(b: Ballot, cs: Seq<Seq<char>>) -> Ballot
    decreases cs.len(),
{
    if cs.len() == 0 {
        b
    } else {
        after_adds(b, cs.drop_last()).add(cs.last())
    }
}

/// Registering names one after another appends them in exactly that order,
/// keeping duplicates, and changes nothing else.
pub proof fn lemma_adds_keep_order(b: Ballot, cs: Seq<Seq<char>>)
    ensures
        after_adds(b, cs).candidates == b.candidates + cs,
        after_adds(b, cs).tally == b.tally,
        after_adds(b, cs).voters == b.voters,
        after_adds(b, cs).round == b.round,
        after_adds(b, cs).last == b.last,
    decreases cs.len(),
{
    if cs.len() == 0 {
        assert(b.candidates + cs =~= b.candidates);
    } else {
        lemma_adds_keep_order(b, cs.drop_last());
        assert(b.candidates + cs =~= (b.candidates + cs.drop_last()).push(cs.last()));
    }
}

/// A voter's first vote in a round is accepted and adds one to the chosen
/// name alone; any later vote of that voter in the same round is refused
/// and changes nothing.
pub proof fn lemma_one_vote_per_round(b: Ballot, c: Seq<char>, c2: Seq<char>, v: Seq<char>)
    requires
        !b.voters.contains(v),
    ensures
        b.cast(c, v).1,
        b.cast(c, v).0.score(c) == b.score(c) + 1,
        forall|d: Seq<char>| d != c ==> #[trigger] b.cast(c, v).0.score(d) == b.score(d),
        !b.cast(c, v).0.cast(c2, v).1,
        b.cast(c, v).0.cast(c2, v).0 == b.cast(c, v).0,
{
}

/// Within a round, a voter once marked stays marked whatever is registered
/// or voted next, so every later vote of theirs is refused.
pub proof fn lemma_vote_flag_kept(b: Ballot, c: Seq<char>, v: Seq<char>, w: Seq<char>)
    requires
        b.voters.contains(w),
    ensures
        b.add(c).voters.contains(w),
        b.cast(c, v).0.voters.contains(w),
        !b.cast(c, w).1,
        b.cast(c, w).0 == b,
{
}

/// Within a round, no count ever goes down.
pub proof fn lemma_counts_never_drop(b: Ballot, c: Seq<char>, v: Seq<char>, d: Seq<char>)
    ensures
        b.add(c).score(d) == b.score(d),
        b.cast(c, v).0.score(d) >= b.score(d),
{
}

/// Only a round transition moves the round number or the archived result.
pub proof fn lemma_round_moves_only_on_advance(b: Ballot, c: Seq<char>, v: Seq<char>)
    ensures
        b.add(c).round == b.round,
        b.add(c).last == b.last,
        b.cast(c, v).0.round == b.round,
        b.cast(c, v).0.last == b.last,
        b.advance().0.round == b.round + 1,
{
}

/// With no registered candidate the winner is `("none", 0)`: at deployment,
/// and right after any round transition.
pub proof fn lemma_no_candidates_no_winner(b: Ballot)
    ensures
        Ballot::initial().winner() == no_winner(),
        b.advance().0.winner() == no_winner(),
{
}

/// With two candidates of equal count, the one registered first wins.
pub proof fn lemma_tie_goes_to_first(b: Ballot, x: Seq<char>, y: Seq<char>)
    requires
        b.candidates == seq![x, y],
        b.score(x) == b.score(y),
    ensures
        b.winner() == (x, b.score(x)),
{
    assert(b.candidates[0] == x);
    assert(b.candidates[1] == y);
    assert(b.is_first_max(0));
    lemma_winner_at(b, 0);
}

/// Two round transitions in a row count two rounds; the second reports
/// `("none", 0)`, and that is what stays archived.
pub proof fn lemma_advance_twice(b: Ballot)
    ensures
        b.advance().0.round == b.round + 1,
        b.advance().0.advance().0.round == b.round + 2,
        b.advance().0.advance().1 == no_winner(),
        b.advance().0.advance().0.last == no_winner(),
{
}

/// After a round transition every voter may vote again, whatever they did
/// in the round before.
pub proof fn lemma_new_round_new_vote(b: Ballot, c: Seq<char>, v: Seq<char>)
    ensures
        b.advance().0.cast(c, v).1,
        b.advance().0.cast(c, v).0.score(c) == 1,
{
}

} // verus!
