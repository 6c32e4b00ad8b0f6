//! What holds of every table a game can reach.

use crate::roll::Roll;
use crate::table::{
    all_nonnegative, left_of, lemma_total_bounds, lemma_total_even, lemma_total_nonnegative, lemma_total_single,
    lemma_total_update, lemma_total_zero,
    right_of,
    total, Table,
};
use vstd::prelude::*;

verus! {

/// Where tokens are in circulation, some seat holds one.
pub proof fn lemma_some_seat_holds(table: Table) -> (seat: int)
    requires
        table.wf(),
        table.pot > 0,
    ensures
        0 <= seat < table.seats(),
        table.stacks[seat] > 0,
{
    if forall|i: int| 0 <= i < table.stacks.len() ==> table.stacks[i] == 0 {
        lemma_total_zero(table.stacks);
    }
    choose|i: int| 0 <= i < table.stacks.len() && table.stacks[i] != 0
}

/// The table is set up as a game can reach it.
pub proof fn lemma_opening_wf(seats: nat, stake: int)
    requires
        seats >= 1,
        stake >= 0,
    ensures
        Table::opening(seats, stake).wf(),
        Table::opening(seats, stake).seats() == seats,
{
    lemma_total_even(seats, stake);
}

/// Passing the turn moves no token.
pub proof fn lemma_skip_wf(table: Table, limit: nat)
    requires
        table.wf(),
    ensures
        table.skip(limit).wf(),
        table.skip(limit).stacks == table.stacks,
        table.skip(limit).pot == table.pot,
        table.skip(limit).center == table.center,
        table.skip(limit).stake == table.stake,
    decreases limit,
{
    if table.dice == 0 && limit > 0 {
        lemma_skip_wf(table.pass(), (limit - 1) as nat);
    }
}

/// Steps to the right that take the turn from `seat` to `to`; a whole round
/// where they are the same seat.
spec fn steps_right(seats: int, seat: int, to: int) -> int {
    if to > seat {
        to - seat
    } else {
        seats - seat + to
    }
}

/// Passing the turn reaches a seat that holds a token.
proof fn lemma_skip_reaches(table: Table, limit: nat, holder: int)
    requires
        table.wf(),
        0 <= holder < table.seats(),
        table.stacks[holder] > 0,
        steps_right(table.seats(), table.seat, holder) <= limit,
    ensures
        table.skip(limit).dice > 0,
    decreases limit,
{
    if table.dice == 0 {
        let next = table.pass();
        if next.seat != holder {
            lemma_skip_reaches(next, (limit - 1) as nat, holder);
        } else {
            assert(next.skip((limit - 1) as nat) == next);
        }
    }
}

/// With tokens in circulation, some seat has a die to roll at the next die.
pub proof fn lemma_settle_finds_die(table: Table)
    requires
        table.wf(),
        table.pot > 0,
    ensures
        table.settle().dice > 0,
{
    let holder = lemma_some_seat_holds(table);
    lemma_skip_reaches(table, table.stacks.len(), holder);
}

/// With no token in circulation, no seat ever has a die to roll.
pub proof fn lemma_settle_empty(table: Table)
    requires
        table.wf(),
        table.pot == 0,
    ensures
        table.settle().dice == 0,
{
    lemma_skip_wf(table, table.stacks.len());
    let settled = table.settle();
    lemma_total_bounds(settled.stacks, settled.seat);
}

/// Settling moves no token.
pub proof fn lemma_settle_wf(table: Table)
    requires
        table.wf(),
    ensures
        table.settle().wf(),
        table.settle().stacks == table.stacks,
        table.settle().pot == table.pot,
        table.settle().center == table.center,
        table.settle().stake == table.stake,
{
    lemma_skip_wf(table, table.stacks.len());
}

/// Handing a token on keeps the sum and leaves no stack negative.
proof fn lemma_hand(table: Table, to: int)
    requires
        table.wf(),
        table.dice > 0,
        0 <= to < table.seats(),
    ensures
        total(table.hand(to)) == table.pot,
        all_nonnegative(table.hand(to)),
        table.hand(to).len() == table.stacks.len(),
        table.hand(to)[table.seat] >= table.stacks[table.seat] - 1,
{
    let taken = table.stacks.update(table.seat, table.stacks[table.seat] - 1);
    lemma_total_update(table.stacks, table.seat, table.stacks[table.seat] - 1);
    lemma_total_update(taken, to, taken[to] + 1);
}

/// A die moves at most one token, and makes or loses none: on left and
/// right the pot stays as it is, on center one token goes from the pot to
/// the center.
pub proof fn lemma_after_wf(table: Table, roll: Roll)
    requires
        table.wf(),
        table.dice > 0,
    ensures
        table.after(roll).wf(),
        table.after(roll).seats() == table.seats(),
        table.after(roll).stake == table.stake,
        table.after(roll).pot + table.after(roll).center == table.pot + table.center,
        total(table.after(roll).stacks) == if roll == Roll::Center {
            total(table.stacks) - 1
        } else {
            total(table.stacks)
        },
        roll == Roll::Dot ==> table.after(roll).stacks == table.stacks,
{
    lemma_total_bounds(table.stacks, table.seat);
    match roll {
        Roll::Dot => {},
        Roll::Left => {
            lemma_hand(table, left_of(table.seats(), table.seat));
        },
        Roll::Right => {
            lemma_hand(table, right_of(table.seats(), table.seat));
        },
        Roll::Center => {
            lemma_total_update(table.stacks, table.seat, table.stacks[table.seat] - 1);
        },
    }
}

/// A seat that rolls without having won leaves tokens in circulation.
pub proof fn lemma_rolling_keeps_pot(table: Table, roll: Roll)
    requires
        table.wf(),
        table.rolling(),
    ensures
        table.after(roll).pot > 0,
{
    lemma_total_bounds(table.stacks, table.seat);
}

/// The seat that has won holds every token in circulation: no other seat
/// holds any.
pub proof fn lemma_winner_holds_all(table: Table, other: int)
    requires
        table.wf(),
        table.won(),
        0 <= other < table.seats(),
        other != table.seat,
    ensures
        table.stacks[table.seat] == table.pot,
        table.stacks[other] == 0,
{
    let rest = table.stacks.update(table.seat, 0);
    lemma_total_update(table.stacks, table.seat, 0);
    lemma_total_bounds(rest, other);
}

/// One more die after `rolls`: it is rolled where a seat is still rolling,
/// and not looked at where the game has stopped.
pub proof fn lemma_run_push(table: Table, rolls: Seq<Roll>, roll: Roll)
    ensures
        table.run(rolls.push(roll)) == if table.run(rolls).rolling() {
            table.run(rolls).after(roll).settle()
        } else {
            table.run(rolls)
        },
{
    assert(rolls.push(roll).drop_last() =~= rolls);
}

/// Through a whole game no token is made or lost: at every die the stacks
/// sum to the pot, and pot and center together are what they were. The pot
/// never grows, and it is never emptied by a game that began with tokens.
/// The game rests only where a seat is about to roll or no token is left.
pub proof fn lemma_run_wf(table: Table, rolls: Seq<Roll>)
    requires
        table.wf(),
    ensures
        table.run(rolls).wf(),
        table.run(rolls).seats() == table.seats(),
        table.run(rolls).stake == table.stake,
        table.run(rolls).pot + table.run(rolls).center == table.pot + table.center,
        table.run(rolls).pot <= table.pot,
        table.pot > 0 ==> table.run(rolls).pot > 0,
        table.run(rolls).dice > 0 || table.run(rolls).pot == 0,
    decreases rolls.len(),
{
    if rolls.len() == 0 {
        lemma_settle_wf(table);
        lemma_total_nonnegative(table.stacks);
        if table.pot > 0 {
            lemma_settle_finds_die(table);
        }
    } else {
        let before = table.run(rolls.drop_last());
        lemma_run_wf(table, rolls.drop_last());
        if before.rolling() {
            let rolled = before.after(rolls.last());
            lemma_after_wf(before, rolls.last());
            lemma_rolling_keeps_pot(before, rolls.last());
            lemma_settle_wf(rolled);
            lemma_settle_finds_die(rolled);
        }
    }
}

/// Once the game has stopped, further rolls change nothing.
pub proof fn lemma_run_prefix(table: Table, played: Seq<Roll>, unused: Seq<Roll>)
    requires
        !table.run(played).rolling(),
    ensures
        table.run(played + unused) == table.run(played),
    decreases unused.len(),
{
    if unused.len() == 0 {
        assert(played + unused =~= played);
    } else {
        lemma_run_prefix(table, played, unused.drop_last());
        assert((played + unused).drop_last() =~= played + unused.drop_last());
    }
}

/// Alone at the table, the only seat has won before the first die, with or
/// without tokens and whatever the dice would have shown.
pub proof fn lemma_single_seat_wins(stake: int, rolls: Seq<Roll>)
    requires
        stake >= 0,
    ensures
        Table::opening(1, stake).run(rolls).winner() == Some(0usize),
        Table::opening(1, stake).run(rolls) == Table::opening(1, stake),
{
    let table = Table::opening(1, stake);
    let none = Seq::<Roll>::empty();
    lemma_opening_wf(1, stake);
    lemma_total_single(table.stacks);
    assert(table.run(none) == table) by {
        assert(table.pass() == table);
        assert(table.skip(1) == if table.dice > 0 {
            table
        } else {
            table.pass().skip(0)
        });
    }
    lemma_run_prefix(table, none, rolls);
    assert(none + rolls =~= rolls);
}

/// With two seats or more and no tokens on the table no seat ever rolls,
/// so nobody wins, whatever the dice would have shown.
pub proof fn lemma_no_tokens_no_winner(seats: nat, rolls: Seq<Roll>)
    requires
        seats >= 2,
    ensures
        Table::opening(seats, 0).run(rolls).winner() is None,
{
    let table = Table::opening(seats, 0);
    lemma_opening_wf(seats, 0);
    assert(table.pot == 0) by (nonlinear_arith)
        requires
            table.pot == seats * 0,
    ;
    lemma_run_wf(table, rolls);
}

/// With two seats or more nobody has won before the first die.
pub proof fn lemma_no_rolls_no_winner(seats: nat, stake: int)
    requires
        seats >= 2,
        stake >= 0,
    ensures
        Table::opening(seats, stake).run(Seq::empty()).winner() is None,
{
    let table = Table::opening(seats, stake);
    if stake == 0 {
        lemma_no_tokens_no_winner(seats, Seq::empty());
    } else {
        assert(table.run(Seq::empty()) == table);
        assert(table.pot > table.stacks[0]) by (nonlinear_arith)
            requires
                table.pot == seats * stake,
                table.stacks[0] == stake,
                seats >= 2,
                stake > 0,
        ;
    }
}

/// At every die of a game the tokens in front of the players and those in
/// the center are together what the players started with.
pub proof fn lemma_game_keeps_tokens(seats: nat, stake: int, rolls: Seq<Roll>)
    requires
        seats >= 1,
        stake >= 0,
    ensures
        total(Table::opening(seats, stake).run(rolls).stacks) + Table::opening(seats, stake).run(
            rolls,
        ).center == seats * stake,
        total(Table::opening(seats, stake).run(rolls).stacks) == Table::opening(seats, stake).run(
            rolls,
        ).pot,
{
    lemma_opening_wf(seats, stake);
    lemma_run_wf(Table::opening(seats, stake), rolls);
}

/// Where a game has a winner, the winner is a player, holds every token
/// still in circulation, and no other player holds any.
pub proof fn lemma_game_winner_holds_all(seats: nat, stake: int, rolls: Seq<Roll>, other: int)
    requires
        seats >= 1,
        stake >= 0,
        seats <= usize::MAX,
        Table::opening(seats, stake).run(rolls).winner() is Some,
        0 <= other < seats,
    ensures
        ({
            let end = Table::opening(seats, stake).run(rolls);
            let winner = end.winner()->Some_0;
            &&& winner < seats
            &&& end.stacks[winner as int] == end.pot
            &&& end.stacks[winner as int] == total(end.stacks)
            &&& seats >= 2 ==> end.pot >= 1
            &&& other != winner ==> end.stacks[other] == 0
        }),
{
    let end = Table::opening(seats, stake).run(rolls);
    lemma_opening_wf(seats, stake);
    lemma_run_wf(Table::opening(seats, stake), rolls);
    if other != end.seat {
        lemma_winner_holds_all(end, other);
    }
}

} // verus!
