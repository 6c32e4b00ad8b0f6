//! One game in progress.

use crate::invariants::{
    lemma_after_wf, lemma_opening_wf, lemma_run_prefix, lemma_run_push, lemma_run_wf,
    lemma_settle_empty, lemma_settle_finds_die, lemma_settle_wf,
};
use crate::roll::Roll;
use crate::table::{
    even_stacks, lemma_total_bounds, lemma_total_nonnegative, lemma_total_single,
    lemma_total_update, Phase, Table,
};
use vstd::prelude::*;

verus! {

/// The tokens in front of each player, the pot they add up to, and whose
/// turn it is.
#[derive(Debug)]
pub struct GameState {
    stacks: Vec<u128>,
    pot: u128,
    center: u128,
    stake: u32,
    seat: usize,
    dice: u32,
}

impl View for GameState {
    type V = Table;

    closed spec fn view(&self) -> Table {
        Table {
            stacks: self.stacks@.map_values(|count: u128| count as int),
            pot: self.pot as int,
            center: self.center as int,
            stake: self.stake as int,
            seat: self.seat as int,
            dice: self.dice as int,
        }
    }
}

impl GameState {
    /// The state is one that a game can reach. All the tokens together fit
    /// the counter of the pot, whatever the players and their stake.
    pub open spec fn wf(&self) -> bool {
        &&& self@.wf()
        &&& self@.seats() * self@.stake <= u128::MAX
        &&& self@.seats() <= usize::MAX
    }

    /// Seats the players down, each with `starting_money` tokens. The first
    /// player is in turn.
    pub fn new(num_players: usize, starting_money: u32) -> (game: GameState)
        requires
            num_players >= 1,
        ensures
            game.wf(),
            game@ == Table::opening(num_players as nat, starting_money as int),
    {
        let stake: u128 = starting_money as u128;
        let mut stacks: Vec<u128> = Vec::new();
        while stacks.len() < num_players
            invariant
                stacks.len() <= num_players,
                forall|i: int| 0 <= i < stacks.len() ==> stacks[i] == stake,
            decreases num_players - stacks.len(),
        {
            stacks.push(stake);
        }
        assert(num_players * starting_money <= u128::MAX) by (nonlinear_arith)
            requires
                num_players <= 0xffff_ffff_ffff_ffff,
                starting_money <= 0xffff_ffff,
        ;
        assert(num_players * starting_money == stake * num_players) by (nonlinear_arith)
            requires
                stake == starting_money,
        ;
        let pot: u128 = stake * (num_players as u128);
        let dice: u32 = if starting_money < 3 {
            starting_money
        } else {
            3
        };
        let game = GameState { stacks, pot, center: 0, stake: starting_money, seat: 0, dice };
        proof {
            assert(game@.stacks =~= even_stacks(num_players as nat, starting_money as int));
            lemma_opening_wf(num_players as nat, starting_money as int);
        }
        game
    }

    /// Brings the game to its next die. The turn passes to the right until a
    /// player has a die to roll; before that die the player has won if the
    /// tokens in front of them are all that is left in circulation. Where the
    /// player in turn already has a die to roll, nothing moves. A player
    /// alone at the table has won, with or without tokens.
    pub fn advance(&mut self) -> (phase: Phase)
        requires
            old(self).wf(),
        ensures
            final(self).wf(),
            final(self)@ == old(self)@.settle(),
            phase == final(self)@.phase(),
            final(self)@.stacks == old(self)@.stacks,
            final(self)@.pot == old(self)@.pot,
            final(self)@.center == old(self)@.center,
            phase matches Phase::Won(player) ==> player < old(self)@.seats(),
            phase is Stalled <==> old(self)@.pot == 0 && old(self)@.seats() >= 2,
            old(self)@.seats() == 1 ==> phase == Phase::Won(0),
    {
        proof {
            lemma_settle_wf(old(self)@);
            lemma_total_nonnegative(old(self)@.stacks);
            if old(self)@.seats() == 1 {
                lemma_total_single(old(self)@.stacks);
            }
            if old(self)@.pot > 0 {
                lemma_settle_finds_die(old(self)@);
            } else {
                lemma_settle_empty(old(self)@);
            }
        }
        let count = self.stacks.len();
        let mut passes: usize = 0;
        while self.dice == 0 && passes < count
            invariant
                self.wf(),
                count == self.stacks.len(),
                passes <= count,
                self@.skip((count - passes) as nat) == old(self)@.settle(),
            decreases count - passes,
        {
            let next: usize = if self.seat == count - 1 {
                0
            } else {
                self.seat + 1
            };
            let held: u128 = self.stacks[next];
            self.seat = next;
            self.dice = if held < 3 {
                held as u32
            } else {
                3
            };
            passes = passes + 1;
        }
        if self.stacks[self.seat] == self.pot && (self.dice > 0 || count == 1) {
            Phase::Won(self.seat)
        } else if self.dice > 0 {
            Phase::Rolling
        } else {
            Phase::Stalled
        }
    }

    /// The player in turn rolls `roll`: a dot moves nothing, left and right
    /// hand one token to that neighbour, center takes one token out of the
    /// game. The player has one die less to roll.
    pub fn apply(&mut self, roll: Roll)
        requires
            old(self).wf(),
            old(self)@.dice > 0,
        ensures
            final(self).wf(),
            final(self)@ == old(self)@.after(roll),
            final(self)@.seats() == old(self)@.seats(),
            final(self)@.pot + final(self)@.center == old(self)@.pot + old(self)@.center,
            final(self)@.pot == if roll == Roll::Center {
                old(self)@.pot - 1
            } else {
                old(self)@.pot
            },
    {
        let count = self.stacks.len();
        let seat = self.seat;
        let held: u128 = self.stacks[seat];
        proof {
            lemma_after_wf(self@, roll);
            lemma_total_bounds(self@.stacks, seat as int);
        }
        match roll {
            Roll::Dot => {},
            Roll::Left => {
                let to: usize = if seat == 0 {
                    count - 1
                } else {
                    seat - 1
                };
                self.hand(to);
            },
            Roll::Right => {
                let to: usize = if seat == count - 1 {
                    0
                } else {
                    seat + 1
                };
                self.hand(to);
            },
            Roll::Center => {
                self.stacks.set(seat, held - 1);
                self.pot = self.pot - 1;
                assert(self.center < u128::MAX) by {
                    assert(old(self)@.pot + old(self)@.center <= u128::MAX);
                }
                self.center = self.center + 1;
                assert(self@.stacks =~= old(self)@.after(roll).stacks);
            },
        }
        self.dice = self.dice - 1;
    }

    /// One token goes from the player in turn to player `to`.
    fn hand(&mut self, to: usize)
        requires
            old(self).wf(),
            old(self)@.dice > 0,
            to < old(self)@.seats(),
        ensures
            final(self)@ == (Table { stacks: old(self)@.hand(to as int), ..old(self)@ }),
    {
        let seat = self.seat;
        let held: u128 = self.stacks[seat];
        self.stacks.set(seat, held - 1);
        let there: u128 = self.stacks[to];
        proof {
            let taken = old(self)@.stacks.update(seat as int, held - 1);
            assert(self@.stacks =~= taken);
            lemma_total_update(old(self)@.stacks, seat as int, held - 1);
            lemma_total_bounds(taken, to as int);
        }
        self.stacks.set(to, there + 1);
        assert(self@.stacks =~= old(self)@.hand(to as int));
    }

    /// Plays the game on dice that came up as `rolls`, in that order, from
    /// where it stands: to the die before which a player has won, or until
    /// the rolls are used up, or no player has a die to roll. Gives the
    /// winner, if there is one.
    pub fn play_rolls(&mut self, rolls: &Vec<Roll>) -> (winner: Option<usize>)
        requires
            old(self).wf(),
        ensures
            final(self).wf(),
            final(self)@ == old(self)@.run(rolls@),
            winner == final(self)@.winner(),
            final(self)@.seats() == old(self)@.seats(),
            final(self)@.pot + final(self)@.center == old(self)@.pot + old(self)@.center,
            winner matches Some(player) ==> player < old(self)@.seats()
                && final(self)@.stacks[player as int] == final(self)@.pot,
    {
        proof {
            lemma_run_wf(old(self)@, rolls@);
        }
        let mut phase = self.advance();
        let mut used: usize = 0;
        while used < rolls.len() && phase == Phase::Rolling
            invariant
                self.wf(),
                used <= rolls.len(),
                self@ == old(self)@.run(rolls@.take(used as int)),
                phase == self@.phase(),
            decreases rolls.len() - used,
        {
            let roll = rolls[used];
            proof {
                lemma_run_push(old(self)@, rolls@.take(used as int), roll);
                assert(rolls@.take(used as int).push(roll) =~= rolls@.take(used + 1));
            }
            self.apply(roll);
            phase = self.advance();
            used = used + 1;
        }
        proof {
            let played = rolls@.take(used as int);
            let unused = rolls@.skip(used as int);
            assert(played + unused =~= rolls@);
            if used < rolls.len() {
                lemma_run_prefix(old(self)@, played, unused);
            }
        }
        match phase {
            Phase::Won(player) => Some(player),
            _ => None,
        }
    }

    /// Number of players.
    pub fn players(&self) -> (count: usize)
        ensures
            count == self@.seats(),
    {
        self.stacks.len()
    }

    /// Tokens in front of `player`.
    pub fn tokens(&self, player: usize) -> (count: u128)
        requires
            player < self@.seats(),
        ensures
            count == self@.stacks[player as int],
    {
        self.stacks[player]
    }

    /// Tokens still in circulation.
    pub fn total_remaining_money(&self) -> (count: u128)
        ensures
            count == self@.pot,
    {
        self.pot
    }

    /// Tokens that went to the center.
    pub fn center(&self) -> (count: u128)
        ensures
            count == self@.center,
    {
        self.center
    }

    /// The player in turn.
    pub fn player_turn(&self) -> (player: usize)
        ensures
            player == self@.seat,
    {
        self.seat
    }

    /// Dice the player in turn has yet to roll in this turn.
    pub fn dice_left(&self) -> (count: u32)
        ensures
            count == self@.dice,
    {
        self.dice
    }
}

} // verus!
