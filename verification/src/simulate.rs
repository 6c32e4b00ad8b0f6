//! One game on random dice.

use crate::dice::{random_below, thread_rng};
use crate::game::GameState;
use crate::invariants::{
    lemma_no_rolls_no_winner, lemma_no_tokens_no_winner, lemma_opening_wf, lemma_run_prefix,
    lemma_run_push, lemma_run_wf, lemma_single_seat_wins,
};
use crate::roll::{Roll, FACES};
use crate::table::{Phase, Table};
use vstd::prelude::*;

verus! {

/// The winner of a game of `num_players` with `starting_money` tokens each
/// in which the dice come up as `rolls`; `None` where the game is not won
/// when the rolls are used up.
pub open spec fn outcome(num_players: usize, starting_money: u32, rolls: Seq<Roll>) -> Option<
    usize,
> {
    Table::opening(num_players as nat, starting_money as int).run(rolls).winner()
}

/// `result` is how such a game ends on some `max_rolls` dice.
pub open spec fn possible(
    num_players: usize,
    starting_money: u32,
    max_rolls: u64,
    result: Option<usize>,
) -> bool {
    exists|rolls: Seq<Roll>|
        rolls.len() == max_rolls && result == #[trigger] outcome(
            num_players,
            starting_money,
            rolls,
        )
}

impl GameState {
    /// Plays the game on from where it stands, on `max_rolls` random dice at
    /// most. Gives the winner, or `None` where the dice are used up before a
    /// player has won, or where several players have no token among them.
    /// The state is left at the die it stopped before, so that a further call
    /// plays on.
    pub fn play(&mut self, max_rolls: u64) -> (winner: Option<usize>)
        requires
            old(self).wf(),
        ensures
            final(self).wf(),
            exists|rolls: Seq<Roll>|
                rolls.len() == max_rolls && final(self)@ == #[trigger] old(self)@.run(rolls),
            winner == final(self)@.winner(),
            final(self)@.seats() == old(self)@.seats(),
            final(self)@.pot + final(self)@.center == old(self)@.pot + old(self)@.center,
            winner matches Some(player) ==> player < old(self)@.seats()
                && final(self)@.stacks[player as int] == final(self)@.pot,
    {
        let mut rng = thread_rng();
        let mut phase = self.advance();
        let mut left: u64 = max_rolls;
        let ghost mut drawn: Seq<Roll> = Seq::empty();
        while left > 0 && phase == Phase::Rolling
            invariant
                self.wf(),
                drawn.len() + left == max_rolls,
                self@ == old(self)@.run(drawn),
                phase == self@.phase(),
            decreases left,
        {
            let roll = Roll::from_face(random_below(&mut rng, FACES));
            proof {
                lemma_run_push(old(self)@, drawn, roll);
                drawn = drawn.push(roll);
            }
            self.apply(roll);
            phase = self.advance();
            left = left - 1;
        }
        proof {
            let unused = Seq::new(left as nat, |i: int| Roll::Dot);
            if left > 0 {
                lemma_run_prefix(old(self)@, drawn, unused);
            } else {
                assert(drawn + unused =~= drawn);
            }
            assert(self@ == old(self)@.run(drawn + unused));
            lemma_run_wf(old(self)@, drawn + unused);
        }
        match phase {
            Phase::Won(player) => Some(player),
            _ => None,
        }
    }
}

/// Plays one game of `num_players` with `starting_money` tokens each on
/// random dice, `max_rolls` of them at most, and gives the winner.
///
/// Alone at the table, the player has won before the first die, with or
/// without tokens. Two players or more without tokens never roll, and with
/// tokens none has won before the first die: then there is no winner.
/// Otherwise the dice decide, and there is no winner where `max_rolls` dice
/// did not bring one.
pub fn simulate(num_players: usize, starting_money: u32, max_rolls: u64) -> (winner: Option<usize>)
    requires
        num_players >= 1,
    ensures
        possible(num_players, starting_money, max_rolls, winner),
        winner matches Some(player) ==> player < num_players,
        num_players == 1 ==> winner == Some(0usize),
        num_players >= 2 && starting_money == 0 ==> winner is None,
        num_players >= 2 && max_rolls == 0 ==> winner is None,
{
    let mut game = GameState::new(num_players, starting_money);
    let winner = game.play(max_rolls);
    proof {
        let rolls = choose|rolls: Seq<Roll>|
            rolls.len() == max_rolls && game@ == #[trigger] Table::opening(
                num_players as nat,
                starting_money as int,
            ).run(rolls);
        assert(winner == outcome(num_players, starting_money, rolls));
        lemma_possible(num_players, starting_money, max_rolls, winner);
    }
    winner
}

/// What is known of a game's end without knowing the dice.
pub proof fn lemma_possible(
    num_players: usize,
    starting_money: u32,
    max_rolls: u64,
    winner: Option<usize>,
)
    requires
        num_players >= 1,
        possible(num_players, starting_money, max_rolls, winner),
    ensures
        winner matches Some(player) ==> player < num_players,
        num_players == 1 ==> winner == Some(0usize),
        num_players >= 2 && starting_money == 0 ==> winner is None,
        num_players >= 2 && max_rolls == 0 ==> winner is None,
{
    let rolls = choose|rolls: Seq<Roll>|
        rolls.len() == max_rolls && winner == #[trigger] outcome(
            num_players,
            starting_money,
            rolls,
        );
    let table = Table::opening(num_players as nat, starting_money as int);
    lemma_opening_wf(num_players as nat, starting_money as int);
    lemma_run_wf(table, rolls);
    if num_players == 1 {
        lemma_single_seat_wins(starting_money as int, rolls);
    }
    if num_players >= 2 && starting_money == 0 {
        lemma_no_tokens_no_winner(num_players as nat, rolls);
    }
    if num_players >= 2 && max_rolls == 0 {
        lemma_no_rolls_no_winner(num_players as nat, starting_money as int);
        assert(rolls =~= Seq::empty());
    }
}

} // verus!
