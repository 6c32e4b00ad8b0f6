//! Counting wins.

use crate::table::{lemma_total_bounds, lemma_total_update, lemma_total_zero, total};
use vstd::prelude::*;

verus! {

/// Games among `outcomes` that `player` won.
pub open spec fn wins(outcomes: Seq<Option<usize>>, player: int) -> nat
    decreases outcomes.len(),
{
    if outcomes.len() == 0 {
        0
    } else {
        let earlier = wins(outcomes.drop_last(), player);
        match outcomes.last() {
            Some(winner) if winner == player => earlier + 1,
            _ => earlier,
        }
    }
}

/// Every game among `outcomes` has a winner.
pub open spec fn all_won(outcomes: Seq<Option<usize>>) -> bool {
    forall|i: int| 0 <= i < outcomes.len() ==> (#[trigger] outcomes[i]) is Some
}

/// Every winner among `outcomes` is one of `num_players`.
pub open spec fn winners_below(outcomes: Seq<Option<usize>>, num_players: int) -> bool {
    forall|i: int|
        0 <= i < outcomes.len() ==> match #[trigger] outcomes[i] {
            Some(winner) => winner < num_players,
            None => true,
        }
}

/// The counts of a tally as numbers.
pub open spec fn counts(tally: Seq<usize>) -> Seq<int> {
    tally.map_values(|count: usize| count as int)
}

/// Games counted in a tally.
pub open spec fn games_counted(tally: Seq<usize>) -> int {
    total(counts(tally))
}

/// `tally` holds for each of `num_players` the games among `outcomes` that
/// the player won.
pub open spec fn is_tally_of(tally: Seq<usize>, num_players: int, outcomes: Seq<Option<usize>>) -> bool {
    &&& tally.len() == num_players
    &&& forall|player: int| 0 <= player < num_players ==> tally[player] == wins(outcomes, player)
}

/// No player has won more games than were played.
pub proof fn lemma_wins_within_games(outcomes: Seq<Option<usize>>, player: int)
    ensures
        wins(outcomes, player) <= outcomes.len(),
    decreases outcomes.len(),
{
    if outcomes.len() > 0 {
        lemma_wins_within_games(outcomes.drop_last(), player);
    }
}

/// Splitting the games between workers loses and doubles nothing: what a
/// player won in both parts together is what they won in each, added up.
pub proof fn lemma_wins_concat(
    first: Seq<Option<usize>>,
    second: Seq<Option<usize>>,
    player: int,
)
    ensures
        wins(first + second, player) == wins(first, player) + wins(second, player),
    decreases second.len(),
{
    if second.len() == 0 {
    } else {
        lemma_wins_concat(first, second.drop_last(), player);
        assert((first + second).drop_last() =~= first + second.drop_last());
    }
}

/// The order in which two workers hand in their games does not matter.
pub proof fn lemma_wins_commute(
    first: Seq<Option<usize>>,
    second: Seq<Option<usize>>,
    player: int,
)
    ensures
        wins(first + second, player) == wins(second + first, player),
{
    lemma_wins_concat(first, second, player);
    lemma_wins_concat(second, first, player);
}

/// Where every game has a winner among the players, the tally counts each
/// game once: its counts add up to the number of games.
pub proof fn lemma_tally_counts_every_game(
    tally: Seq<usize>,
    num_players: int,
    outcomes: Seq<Option<usize>>,
)
    requires
        is_tally_of(tally, num_players, outcomes),
        all_won(outcomes),
        winners_below(outcomes, num_players),
    ensures
        games_counted(tally) == outcomes.len(),
    decreases outcomes.len(),
{
    if outcomes.len() == 0 {
        assert forall|i: int| 0 <= i < counts(tally).len() implies counts(tally)[i] == 0 by {
            assert(tally[i] == wins(outcomes, i));
        }
        lemma_total_zero(counts(tally));
    } else {
        let winner = outcomes.last()->Some_0;
        let earlier = outcomes.drop_last();
        let before = tally.update(winner as int, (tally[winner as int] - 1) as usize);
        assert(tally[winner as int] == wins(earlier, winner as int) + 1);
        assert(is_tally_of(before, num_players, earlier));
        lemma_tally_counts_every_game(before, num_players, earlier);
        lemma_total_update(counts(before), winner as int, tally[winner as int] as int);
        assert(counts(before).update(winner as int, tally[winner as int] as int) =~= counts(
            tally,
        ));
    }
}

/// Two tallies added seat by seat count the games of both.
pub proof fn lemma_counts_add(sum: Seq<int>, first: Seq<int>, second: Seq<int>)
    requires
        sum.len() == first.len(),
        sum.len() == second.len(),
        forall|i: int| 0 <= i < sum.len() ==> sum[i] == first[i] + second[i],
    ensures
        total(sum) == total(first) + total(second),
    decreases sum.len(),
{
    if sum.len() > 0 {
        lemma_counts_add(sum.drop_last(), first.drop_last(), second.drop_last());
    }
}

/// Adds the counts of `part` to those of `tally`, player by player.
pub fn add_tally(tally: &mut Vec<usize>, part: &Vec<usize>)
    requires
        old(tally).len() == part.len(),
        games_counted(old(tally)@) + games_counted(part@) <= usize::MAX,
    ensures
        final(tally).len() == old(tally).len(),
        forall|player: int|
            0 <= player < part.len() ==> final(tally)[player] == old(tally)[player] + part[player],
        games_counted(final(tally)@) == games_counted(old(tally)@) + games_counted(part@),
{
    let mut player: usize = 0;
    while player < part.len()
        invariant
            player <= part.len(),
            tally.len() == part.len(),
            tally.len() == old(tally).len(),
            games_counted(old(tally)@) + games_counted(part@) <= usize::MAX,
            forall|i: int| 0 <= i < player ==> tally[i] == old(tally)[i] + part[i],
            forall|i: int| player <= i < part.len() ==> tally[i] == old(tally)[i],
        decreases part.len() - player,
    {
        proof {
            lemma_total_bounds(counts(old(tally)@), player as int);
            lemma_total_bounds(counts(part@), player as int);
        }
        let count: usize = tally[player];
        tally.set(player, count + part[player]);
        player = player + 1;
    }
    proof {
        lemma_counts_add(counts(tally@), counts(old(tally)@), counts(part@));
    }
}

/// The tally of all-zero counts for `num_players`.
pub fn empty_tally(num_players: usize) -> (tally: Vec<usize>)
    ensures
        is_tally_of(tally@, num_players as int, Seq::empty()),
        games_counted(tally@) == 0,
{
    let mut tally: Vec<usize> = Vec::new();
    while tally.len() < num_players
        invariant
            tally.len() <= num_players,
            forall|i: int| 0 <= i < tally.len() ==> tally[i] == 0,
        decreases num_players - tally.len(),
    {
        tally.push(0);
    }
    proof {
        lemma_total_zero(counts(tally@));
    }
    tally
}

/// Counts the games that each of `num_players` won. Gives no tally where a
/// game among `outcomes` has no winner. The counts add up to the number of
/// games, and none exceeds it.
pub fn tally_wins(num_players: usize, outcomes: &Vec<Option<usize>>) -> (tally: Option<Vec<usize>>)
    requires
        winners_below(outcomes@, num_players as int),
    ensures
        tally is Some <==> all_won(outcomes@),
        tally matches Some(tally) ==> is_tally_of(tally@, num_players as int, outcomes@)
            && games_counted(tally@) == outcomes.len(),
        tally matches Some(tally) ==> forall|player: int|
            0 <= player < num_players ==> tally@[player] <= outcomes.len(),
{
    let mut tally = empty_tally(num_players);
    let mut done: usize = 0;
    while done < outcomes.len()
        invariant
            done <= outcomes.len(),
            winners_below(outcomes@, num_players as int),
            all_won(outcomes@.take(done as int)),
            is_tally_of(tally@, num_players as int, outcomes@.take(done as int)),
        decreases outcomes.len() - done,
    {
        let ghost seen = outcomes@.take(done as int);
        let ghost next = outcomes@.take(done + 1);
        assert(next.drop_last() =~= seen);
        match outcomes[done] {
            None => {
                assert(outcomes@[done as int] is None);
                return None;
            },
            Some(winner) => {
                proof {
                    lemma_tally_counts_every_game(tally@, num_players as int, seen);
                    lemma_total_bounds(counts(tally@), winner as int);
                }
                let count: usize = tally[winner];
                tally.set(winner, count + 1);
            },
        }
        done = done + 1;
    }
    proof {
        assert(outcomes@.take(done as int) =~= outcomes@);
        lemma_tally_counts_every_game(tally@, num_players as int, outcomes@);
        assert forall|player: int| 0 <= player < num_players implies tally@[player]
            <= outcomes.len() by {
            lemma_wins_within_games(outcomes@, player);
        }
    }
    Some(tally)
}

} // verus!
