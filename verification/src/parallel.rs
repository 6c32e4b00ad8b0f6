//! Many games at once.

use crate::simulate::{lemma_possible, possible, simulate};
use crate::table::total;
use crate::tally::{
    add_tally, all_won, counts, empty_tally, games_counted, is_tally_of, lemma_wins_concat,
    lemma_wins_within_games, tally_wins, winners_below, wins,
};
use rayon::iter::{IntoParallelIterator, ParallelIterator};
use vstd::prelude::*;

verus! {

/// Games handed to the workers at a time. Their outcomes are held in memory
/// until they are counted.
pub const BATCH: usize = 65536;

/// Each of `outcomes` is how a game of `num_players` with `starting_money`
/// tokens each ends on some `max_rolls` dice.
pub open spec fn all_possible(
    num_players: usize,
    starting_money: u32,
    max_rolls: u64,
    outcomes: Seq<Option<usize>>,
) -> bool {
    forall|i: int|
        0 <= i < outcomes.len() ==> possible(
            num_players,
            starting_money,
            max_rolls,
            #[trigger] outcomes[i],
        )
}

/// `result` is the tally of some `games` games that could have been played,
/// or no tally where one of them has no winner.
pub open spec fn possible_tally(
    num_players: usize,
    games: usize,
    starting_money: u32,
    max_rolls: u64,
    result: Option<Seq<usize>>,
) -> bool {
    exists|outcomes: Seq<Option<usize>>|
        {
            &&& outcomes.len() == games
            &&& #[trigger] all_possible(num_players, starting_money, max_rolls, outcomes)
            &&& result is Some <==> all_won(outcomes)
            &&& result matches Some(tally) ==> is_tally_of(tally, num_players as int, outcomes)
        }
}

/// Plays `games` games on rayon's worker pool: `into_par_iter` over the
/// range of game numbers, `map` with `simulate` on each, and `collect` into a
/// vector. Trusted of rayon: the vector has one entry per game number, and
/// each entry is what one call of `simulate` with these arguments returned,
/// so that what `simulate` ensures holds of it.
#[verifier::external_body]
fn simulate_batch(num_players: usize, games: usize, starting_money: u32, max_rolls: u64) -> (outcomes:
    Vec<Option<usize>>)
    requires
        num_players >= 1,
    ensures
        outcomes.len() == games,
        all_possible(num_players, starting_money, max_rolls, outcomes@),
{
    (0..games).into_par_iter().map(|_| simulate(num_players, starting_money, max_rolls)).collect()
}

/// What is known of a batch without knowing the dice.
proof fn lemma_all_possible(
    num_players: usize,
    starting_money: u32,
    max_rolls: u64,
    outcomes: Seq<Option<usize>>,
)
    requires
        num_players >= 1,
        all_possible(num_players, starting_money, max_rolls, outcomes),
    ensures
        winners_below(outcomes, num_players as int),
        num_players == 1 ==> all_won(outcomes),
        num_players >= 2 && (starting_money == 0 || max_rolls == 0) && outcomes.len() > 0
            ==> !all_won(outcomes),
{
    assert forall|i: int| 0 <= i < outcomes.len() implies {
        &&& (#[trigger] outcomes[i] matches Some(winner) ==> winner < num_players)
        &&& (num_players == 1 ==> outcomes[i] is Some)
        &&& (num_players >= 2 && (starting_money == 0 || max_rolls == 0) ==> outcomes[i] is None)
    } by {
        lemma_possible(num_players, starting_money, max_rolls, outcomes[i]);
    }
    if num_players >= 2 && (starting_money == 0 || max_rolls == 0) && outcomes.len() > 0 {
        assert(outcomes[0] is None);
    }
}

/// Plays `games` games of `num_players` with `starting_money` tokens each,
/// on all processors, each game on random dice of its own and on `max_rolls`
/// of them at most, and counts how often each player won.
///
/// The tally counts every game once: its counts add up to `num_games`, and
/// none exceeds it. A player alone at the table wins every game. There is
/// no tally where a game was left without a winner: no part of the count
/// is given out.
pub fn simulate_multithreaded(
    num_players: usize,
    num_games: usize,
    starting_money: u32,
    max_rolls: u64,
) -> (wins: Option<Vec<usize>>)
    requires
        num_players >= 1,
    ensures
        possible_tally(
            num_players,
            num_games,
            starting_money,
            max_rolls,
            match wins {
                Some(tally) => Some(tally@),
                None => None,
            },
        ),
        wins matches Some(tally) ==> tally.len() == num_players && games_counted(tally@)
            == num_games,
        wins matches Some(tally) ==> forall|player: int|
            0 <= player < num_players ==> tally@[player] <= num_games,
        num_games == 0 ==> wins is Some,
        num_players == 1 ==> wins is Some && wins->Some_0@ == seq![num_games],
        num_players >= 2 && num_games > 0 && (starting_money == 0 || max_rolls == 0)
            ==> wins is None,
{
    let mut tally = empty_tally(num_players);
    let mut done: usize = 0;
    let ghost mut played: Seq<Option<usize>> = Seq::empty();
    while done < num_games
        invariant
            num_players >= 1,
            done <= num_games,
            played.len() == done,
            all_possible(num_players, starting_money, max_rolls, played),
            all_won(played),
            is_tally_of(tally@, num_players as int, played),
            games_counted(tally@) == done,
        decreases num_games - done,
    {
        let size: usize = if num_games - done < BATCH {
            num_games - done
        } else {
            BATCH
        };
        let outcomes = simulate_batch(num_players, size, starting_money, max_rolls);
        proof {
            lemma_all_possible(num_players, starting_money, max_rolls, outcomes@);
        }
        match tally_wins(num_players, &outcomes) {
            None => {
                proof {
                    let lost = choose|i: int|
                        0 <= i < outcomes@.len() && !((#[trigger] outcomes@[i]) is Some);
                    let rest = Seq::new(
                        (num_games - done - size) as nat,
                        |i: int| outcomes@[lost],
                    );
                    let whole = played + outcomes@ + rest;
                    assert(whole[done + lost] == outcomes@[lost]);
                    assert(all_possible(num_players, starting_money, max_rolls, whole));
                    assert(!all_won(whole));
                }
                return None;
            },
            Some(part) => {
                add_tally(&mut tally, &part);
                proof {
                    assert forall|player: int| 0 <= player < num_players implies tally@[player]
                        == wins(played + outcomes@, player) by {
                        lemma_wins_concat(played, outcomes@, player);
                    }
                    played = played + outcomes@;
                }
            },
        }
        done = done + size;
    }
    proof {
        if num_players == 1 {
            assert(total(counts(tally@).drop_last()) == 0);
            assert(tally@ =~= seq![num_games]);
        }
        if num_games > 0 {
            lemma_all_possible(num_players, starting_money, max_rolls, played);
        }
        assert forall|player: int| 0 <= player < num_players implies tally@[player]
            <= num_games by {
            lemma_wins_within_games(played, player);
        }
    }
    Some(tally)
}

} // verus!
