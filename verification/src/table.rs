//! The mathematical model of a game in progress.

use crate::roll::Roll;
use vstd::prelude::*;

verus! {

/// Sum of a sequence of token counts.
pub open spec fn total(stacks: Seq<int>) -> int
    decreases stacks.len(),
{
    if stacks.len() == 0 {
        0
    } else {
        total(stacks.drop_last()) + stacks.last()
    }
}

/// All entries are zero or more.
pub open spec fn all_nonnegative(stacks: Seq<int>) -> bool {
    forall|i: int| 0 <= i < stacks.len() ==> stacks[i] >= 0
}

/// Replacing one entry changes the sum by the difference.
pub proof fn lemma_total_update(stacks: Seq<int>, at: int, count: int)
    requires
        0 <= at < stacks.len(),
    ensures
        total(stacks.update(at, count)) == total(stacks) - stacks[at] + count,
    decreases stacks.len(),
{
    let changed = stacks.update(at, count);
    if at == stacks.len() - 1 {
        assert(changed.drop_last() =~= stacks.drop_last());
    } else {
        lemma_total_update(stacks.drop_last(), at, count);
        assert(changed.drop_last() =~= stacks.drop_last().update(at, count));
    }
}

/// No entry of a sequence without negative entries exceeds the sum.
pub proof fn lemma_total_bounds(stacks: Seq<int>, at: int)
    requires
        all_nonnegative(stacks),
        0 <= at < stacks.len(),
    ensures
        0 <= stacks[at] <= total(stacks),
    decreases stacks.len(),
{
    lemma_total_nonnegative(stacks.drop_last());
    if at < stacks.len() - 1 {
        lemma_total_bounds(stacks.drop_last(), at);
    }
}

/// The sum of a sequence without negative entries is not negative.
pub proof fn lemma_total_nonnegative(stacks: Seq<int>)
    requires
        all_nonnegative(stacks),
    ensures
        total(stacks) >= 0,
    decreases stacks.len(),
{
    if stacks.len() > 0 {
        lemma_total_nonnegative(stacks.drop_last());
    }
}

/// A sequence of zeros sums to zero.
pub proof fn lemma_total_zero(stacks: Seq<int>)
    requires
        forall|i: int| 0 <= i < stacks.len() ==> stacks[i] == 0,
    ensures
        total(stacks) == 0,
    decreases stacks.len(),
{
    if stacks.len() > 0 {
        lemma_total_zero(stacks.drop_last());
    }
}

/// A single entry is the whole sum.
pub proof fn lemma_total_single(stacks: Seq<int>)
    requires
        stacks.len() == 1,
    ensures
        total(stacks) == stacks[0],
{
    assert(total(stacks.drop_last()) == 0);
}

/// Every seat holding the same number of tokens.
pub open spec fn even_stacks(seats: nat, stake: int) -> Seq<int> {
    Seq::new(seats, |i: int| stake)
}

/// Equal stacks all round sum to the product.
pub proof fn lemma_total_even(seats: nat, stake: int)
    ensures
        total(even_stacks(seats, stake)) == seats * stake,
    decreases seats,
{
    if seats == 0 {
        assert(even_stacks(seats, stake).len() == 0);
    } else {
        lemma_total_even((seats - 1) as nat, stake);
        assert(even_stacks(seats, stake).drop_last() =~= even_stacks((seats - 1) as nat, stake));
        assert(seats * stake == (seats - 1) * stake + stake) by (nonlinear_arith);
    }
}

/// The seat to the left of `seat` at a table of `seats`.
pub open spec fn left_of(seats: int, seat: int) -> int {
    if seat == 0 {
        seats - 1
    } else {
        seat - 1
    }
}

/// The seat to the right of `seat` at a table of `seats`.
pub open spec fn right_of(seats: int, seat: int) -> int {
    if seat == seats - 1 {
        0
    } else {
        seat + 1
    }
}

/// Dice a player takes up at the start of a turn: one per token, three at most.
pub open spec fn dice_for(tokens: int) -> int {
    if tokens < 3 {
        tokens
    } else {
        3
    }
}

/// Where a game stands at the next die.
#[derive(Clone, Copy, Debug, PartialEq, Eq, Structural)]
pub enum Phase {
    /// The seat in turn holds every token in circulation and has won.
    Won(usize),
    /// The seat in turn rolls a die.
    Rolling,
    /// Several seats and no token among them: no seat has a die to roll,
    /// and the game cannot go on.
    Stalled,
}

/// A game between two dice.
pub struct Table {
    /// Tokens in front of each seat.
    pub stacks: Seq<int>,
    /// Tokens still in circulation.
    pub pot: int,
    /// Tokens that went to the center.
    pub center: int,
    /// Tokens each seat started with.
    pub stake: int,
    /// The seat whose turn it is.
    pub seat: int,
    /// Dice the seat has yet to roll in this turn.
    pub dice: int,
}

impl Table {
    /// The table before the first die.
    pub open spec fn opening(seats: nat, stake: int) -> Table {
        Table {
            stacks: even_stacks(seats, stake),
            pot: seats * stake,
            center: 0,
            stake,
            seat: 0,
            dice: dice_for(stake),
        }
    }

    /// Number of seats.
    pub open spec fn seats(self) -> int {
        self.stacks.len() as int
    }

    /// What holds of every table that a game can reach. No token is made or
    /// lost: the stacks sum to the pot, and pot and center together are what
    /// the seats started with.
    pub open spec fn wf(self) -> bool {
        &&& self.seats() >= 1
        &&& all_nonnegative(self.stacks)
        &&& total(self.stacks) == self.pot
        &&& self.center >= 0
        &&& self.stake >= 0
        &&& self.pot + self.center == self.seats() * self.stake
        &&& 0 <= self.seat < self.seats()
        &&& 0 <= self.dice <= 3
        &&& self.dice <= self.stacks[self.seat]
    }

    /// The seat in turn holds every token in circulation, and is about to
    /// roll or alone at the table. Who sits alone has won before any die,
    /// with or without tokens.
    pub open spec fn won(self) -> bool {
        self.stacks[self.seat] == self.pot && (self.dice > 0 || self.seats() == 1)
    }

    /// The seat in turn is about to roll and has not won.
    pub open spec fn rolling(self) -> bool {
        self.dice > 0 && self.stacks[self.seat] != self.pot
    }

    /// The turn goes to the right, and that seat takes up its dice.
    pub open spec fn pass(self) -> Table {
        let next = right_of(self.seats(), self.seat);
        Table { seat: next, dice: dice_for(self.stacks[next]), ..self }
    }

    /// Passes the turn until a seat has a die to roll, `limit` times at most.
    pub open spec fn skip(self, limit: nat) -> Table
        decreases limit,
    {
        if self.dice > 0 || limit == 0 {
            self
        } else {
            self.pass().skip((limit - 1) as nat)
        }
    }

    /// The table at the next die: the turn has gone round to the first seat
    /// that has a die to roll. Where no seat has one, once round the table.
    pub open spec fn settle(self) -> Table {
        self.skip(self.stacks.len())
    }

    /// One token goes from the seat in turn to seat `to`.
    pub open spec fn hand(self, to: int) -> Seq<int> {
        let taken = self.stacks.update(self.seat, self.stacks[self.seat] - 1);
        taken.update(to, taken[to] + 1)
    }

    /// The table after the seat in turn has rolled `roll`.
    pub open spec fn after(self, roll: Roll) -> Table {
        match roll {
            Roll::Dot => Table { dice: self.dice - 1, ..self },
            Roll::Left => Table {
                stacks: self.hand(left_of(self.seats(), self.seat)),
                dice: self.dice - 1,
                ..self
            },
            Roll::Right => Table {
                stacks: self.hand(right_of(self.seats(), self.seat)),
                dice: self.dice - 1,
                ..self
            },
            Roll::Center => Table {
                stacks: self.stacks.update(self.seat, self.stacks[self.seat] - 1),
                pot: self.pot - 1,
                center: self.center + 1,
                dice: self.dice - 1,
                ..self
            },
        }
    }

    /// The table after the dice came up as `rolls`, in that order. The game
    /// stops where a seat has won, or where no seat has a die to roll: rolls
    /// after that are not looked at.
    pub open spec fn run(self, rolls: Seq<Roll>) -> Table
        decreases rolls.len(),
    {
        if rolls.len() == 0 {
            self.settle()
        } else {
            let before = self.run(rolls.drop_last());
            if before.rolling() {
                before.after(rolls.last()).settle()
            } else {
                before
            }
        }
    }

    /// Where the game stands, for a table at its next die.
    pub open spec fn phase(self) -> Phase {
        if self.won() {
            Phase::Won(self.seat as usize)
        } else if self.dice > 0 {
            Phase::Rolling
        } else {
            Phase::Stalled
        }
    }

    /// The winner, where the game is won.
    pub open spec fn winner(self) -> Option<usize> {
        if self.won() {
            Some(self.seat as usize)
        } else {
            None
        }
    }
}

} // verus!
