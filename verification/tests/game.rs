use lcr_sim::game::GameState;
use lcr_sim::roll::{Roll, FACES};
use lcr_sim::table::Phase;

fn rolls_of(faces: &[u32]) -> Vec<Roll> {
    faces.iter().map(|face| Roll::from_face(*face)).collect()
}

fn stacks_of(game: &GameState) -> Vec<u128> {
    (0..game.players()).map(|player| game.tokens(player)).collect()
}

/// Plays `faces` and holds the end of the game against what is expected.
fn check_game(
    players: usize,
    money: u32,
    faces: &[u32],
    winner: Option<usize>,
    stacks: &[u128],
    pot: u128,
    center: u128,
    turn: usize,
) {
    let mut game = GameState::new(players, money);
    assert_eq!(game.play_rolls(&rolls_of(faces)), winner);
    assert_eq!(stacks_of(&game), stacks);
    assert_eq!(game.total_remaining_money(), pot);
    assert_eq!(game.center(), center);
    assert_eq!(game.player_turn(), turn);
}

#[test]
fn die_has_six_faces() {
    assert_eq!(FACES, 6);
}

#[test]
fn faces_read_as_dots_left_right_center() {
    assert_eq!(Roll::from_face(0), Roll::Dot);
    assert_eq!(Roll::from_face(1), Roll::Dot);
    assert_eq!(Roll::from_face(2), Roll::Dot);
    assert_eq!(Roll::from_face(3), Roll::Left);
    assert_eq!(Roll::from_face(4), Roll::Right);
    assert_eq!(Roll::from_face(5), Roll::Center);
}

#[test]
fn face_off_the_die_reads_as_dot() {
    assert_eq!(Roll::from_face(6), Roll::Dot);
    assert_eq!(Roll::from_face(u32::MAX), Roll::Dot);
}

#[test]
fn new_game_seats_everyone_with_the_stake() {
    let game = GameState::new(4, 5);
    assert_eq!(game.players(), 4);
    assert_eq!(stacks_of(&game), vec![5, 5, 5, 5]);
    assert_eq!(game.total_remaining_money(), 20);
    assert_eq!(game.center(), 0);
    assert_eq!(game.player_turn(), 0);
    assert_eq!(game.dice_left(), 3);
}

#[test]
fn dice_are_capped_by_tokens_held() {
    assert_eq!(GameState::new(2, 0).dice_left(), 0);
    assert_eq!(GameState::new(2, 1).dice_left(), 1);
    assert_eq!(GameState::new(2, 2).dice_left(), 2);
    assert_eq!(GameState::new(2, 3).dice_left(), 3);
    assert_eq!(GameState::new(2, 4).dice_left(), 3);
}

#[test]
fn lone_player_has_won_before_any_die() {
    let mut game = GameState::new(1, 7);
    assert_eq!(game.advance(), Phase::Won(0));
    assert_eq!(game.total_remaining_money(), 7);
    assert_eq!(game.dice_left(), 3);
}

#[test]
fn two_players_are_rolling_at_the_start() {
    let mut game = GameState::new(2, 1);
    assert_eq!(game.advance(), Phase::Rolling);
    assert_eq!(game.player_turn(), 0);
}

#[test]
fn several_players_without_tokens_are_stalled() {
    let mut pair = GameState::new(2, 0);
    assert_eq!(pair.advance(), Phase::Stalled);
    assert_eq!(pair.play_rolls(&rolls_of(&[0, 1])), None);
}

#[test]
fn table_without_tokens_is_stalled() {
    let mut game = GameState::new(3, 0);
    assert_eq!(game.advance(), Phase::Stalled);
    assert_eq!(game.play_rolls(&rolls_of(&[3, 4, 5])), None);
    assert_eq!(stacks_of(&game), vec![0, 0, 0]);
}

#[test]
fn dot_moves_nothing() {
    let mut game = GameState::new(3, 2);
    game.apply(Roll::Dot);
    assert_eq!(stacks_of(&game), vec![2, 2, 2]);
    assert_eq!(game.total_remaining_money(), 6);
    assert_eq!(game.center(), 0);
    assert_eq!(game.dice_left(), 1);
}

#[test]
fn left_from_first_seat_wraps_to_last() {
    let mut game = GameState::new(3, 2);
    game.apply(Roll::Left);
    assert_eq!(stacks_of(&game), vec![1, 2, 3]);
    assert_eq!(game.total_remaining_money(), 6);
    assert_eq!(game.center(), 0);
}

#[test]
fn right_from_first_seat_goes_to_second() {
    let mut game = GameState::new(3, 2);
    game.apply(Roll::Right);
    assert_eq!(stacks_of(&game), vec![1, 3, 2]);
    assert_eq!(game.total_remaining_money(), 6);
}

#[test]
fn right_from_last_seat_wraps_to_first() {
    let mut game = GameState::new(3, 1);
    game.apply(Roll::Dot);
    assert_eq!(game.advance(), Phase::Rolling);
    game.apply(Roll::Dot);
    assert_eq!(game.advance(), Phase::Rolling);
    assert_eq!(game.player_turn(), 2);
    game.apply(Roll::Right);
    assert_eq!(stacks_of(&game), vec![2, 1, 0]);
}

#[test]
fn left_from_middle_seat_goes_down() {
    let mut game = GameState::new(3, 1);
    game.apply(Roll::Dot);
    assert_eq!(game.advance(), Phase::Rolling);
    assert_eq!(game.player_turn(), 1);
    game.apply(Roll::Left);
    assert_eq!(stacks_of(&game), vec![2, 0, 1]);
}

#[test]
fn center_takes_a_token_out_of_the_game() {
    let mut game = GameState::new(3, 2);
    game.apply(Roll::Center);
    assert_eq!(stacks_of(&game), vec![1, 2, 2]);
    assert_eq!(game.total_remaining_money(), 5);
    assert_eq!(game.center(), 1);
}

#[test]
fn dice_of_a_turn_are_fixed_at_its_start() {
    // Three tokens give three dice, and they are all rolled though the
    // first two leave the player with one token.
    let mut game = GameState::new(2, 3);
    game.apply(Roll::Center);
    game.apply(Roll::Center);
    assert_eq!(game.dice_left(), 1);
    assert_eq!(game.advance(), Phase::Rolling);
    assert_eq!(game.player_turn(), 0);
    game.apply(Roll::Center);
    assert_eq!(stacks_of(&game), vec![0, 3]);
    assert_eq!(game.advance(), Phase::Won(1));
}

#[test]
fn turn_skips_players_without_tokens() {
    let mut game = GameState::new(3, 1);
    game.apply(Roll::Right);
    assert_eq!(game.advance(), Phase::Rolling);
    assert_eq!(game.player_turn(), 1);
    assert_eq!(game.dice_left(), 2);
    game.apply(Roll::Right);
    game.apply(Roll::Dot);
    assert_eq!(game.advance(), Phase::Rolling);
    assert_eq!(game.player_turn(), 2);
    game.apply(Roll::Dot);
    game.apply(Roll::Dot);
    assert_eq!(stacks_of(&game), vec![0, 1, 2]);
    assert_eq!(game.advance(), Phase::Rolling);
    assert_eq!(game.player_turn(), 1);
    assert_eq!(game.dice_left(), 1);
}

#[test]
fn advance_is_idle_where_a_die_is_due() {
    let mut game = GameState::new(3, 3);
    assert_eq!(game.advance(), Phase::Rolling);
    assert_eq!(game.advance(), Phase::Rolling);
    assert_eq!(game.player_turn(), 0);
    assert_eq!(game.dice_left(), 3);
}

#[test]
fn holder_of_everything_wins_only_at_their_next_die() {
    // The second player gives the last token away on the last die of the
    // turn: the first player holds everything, and wins when in turn.
    let mut game = GameState::new(2, 1);
    assert_eq!(game.play_rolls(&rolls_of(&[0])), None);
    assert_eq!(game.player_turn(), 1);
    game.apply(Roll::Left);
    assert_eq!(stacks_of(&game), vec![2, 0]);
    assert_eq!(game.player_turn(), 1);
    assert_eq!(game.advance(), Phase::Won(0));
}

#[test]
fn two_players_one_token_center() {
    check_game(2, 1, &[5], Some(1), &[0, 1], 1, 1, 1);
}

#[test]
fn two_players_one_token_right() {
    check_game(2, 1, &[4], Some(1), &[0, 2], 2, 0, 1);
}

#[test]
fn two_players_one_token_left() {
    check_game(2, 1, &[3], Some(1), &[0, 2], 2, 0, 1);
}

#[test]
fn two_players_one_token_dot() {
    check_game(2, 1, &[0], None, &[1, 1], 2, 0, 1);
}

#[test]
fn two_players_one_token_dot_then_pass() {
    check_game(2, 1, &[0, 3], Some(0), &[2, 0], 2, 0, 0);
    check_game(2, 1, &[1, 4], Some(0), &[2, 0], 2, 0, 0);
}

#[test]
fn two_players_two_tokens() {
    check_game(2, 2, &[4, 3, 2, 5, 0, 0], Some(1), &[0, 4], 4, 0, 1);
}

#[test]
fn three_players_undecided_after_twelve_dice() {
    check_game(3, 3, &[5, 0, 0, 4, 0, 2, 4, 0, 4, 1, 0, 0], None, &[4, 2, 2], 8, 1, 1);
}

#[test]
fn three_players_undecided_after_forty_dice() {
    let faces = [
        3, 3, 0, 1, 0, 4, 3, 0, 4, 0, 1, 5, 5, 4, 0, 4, 4, 3, 0, 1, 0, 4, 1, 2, 3, 1, 4, 0, 4, 2,
        4, 5, 1, 0, 4, 4, 5, 1, 2, 0,
    ];
    check_game(3, 3, &faces, None, &[2, 2, 1], 5, 4, 2);
}

#[test]
fn four_players_undecided_after_twenty_five_dice() {
    let faces = [4, 5, 0, 4, 0, 4, 1, 3, 5, 4, 3, 2, 3, 4, 3, 2, 2, 1, 1, 5, 1, 0, 4, 2, 4];
    check_game(4, 5, &faces, None, &[1, 7, 5, 4], 17, 3, 0);
}

#[test]
fn four_players_played_to_the_end() {
    let faces = [
        3, 2, 5, 3, 2, 4, 0, 0, 4, 3, 1, 2, 1, 3, 3, 0, 5, 0, 4, 4, 2, 2, 5, 2, 4, 3, 4, 3, 0, 0,
        2, 3, 5, 5, 0, 0, 5, 5, 2, 5, 4, 5, 3, 2, 5, 3, 5, 2, 0, 3, 2, 1, 4, 0, 3, 0, 1, 2, 1, 5,
        1, 3, 3, 3, 0, 1, 3, 3, 4, 2, 1, 3, 4, 2, 5, 3, 2, 5, 3, 1, 1, 0, 1, 1, 1, 5, 1, 0, 3, 4,
        1, 2, 2, 0, 1, 3, 4, 2, 4, 4, 2, 1, 5, 4, 4, 5, 5, 5, 0, 3, 5, 4, 3, 3, 3, 3, 0, 3, 5, 3,
        0, 1, 0, 1, 3, 1, 0, 2, 4, 0, 0, 0, 4, 1, 4, 0, 2, 4, 0, 0, 1, 4, 3, 1, 5, 2, 2, 4, 2, 3,
        0, 0, 3, 3, 3, 3, 2, 0, 1, 0, 5, 2, 5, 2, 3, 5, 1, 4, 0, 1, 4, 2, 1, 5, 4, 0, 4, 2, 5, 0,
        5, 2, 4, 2, 1, 2, 1, 4, 4, 4, 2, 5, 1, 4, 1, 1, 3, 5, 1, 1,
    ];
    check_game(4, 5, &faces, Some(2), &[0, 0, 4, 0], 4, 16, 2);
}

#[test]
fn five_players_one_token_each() {
    let faces = [
        2, 3, 2, 1, 5, 4, 2, 3, 5, 2, 2, 0, 1, 0, 1, 3, 1, 2, 1, 3, 4, 4, 0, 3, 5, 2, 5, 0, 5, 0,
    ];
    check_game(5, 1, &faces, Some(1), &[0, 1, 0, 0, 0], 1, 4, 1);
}

#[test]
fn rolls_after_the_win_are_not_looked_at() {
    check_game(2, 1, &[5, 3, 4, 5, 5], Some(1), &[0, 1], 1, 1, 1);
}

#[test]
fn game_can_be_played_on_in_parts() {
    let faces = [4, 5, 0, 4, 0, 4, 1, 3, 5, 4, 3, 2, 3, 4, 3, 2, 2, 1, 1, 5, 1, 0, 4, 2, 4];
    let mut game = GameState::new(4, 5);
    assert_eq!(game.play_rolls(&rolls_of(&faces[..9])), None);
    assert_eq!(game.play_rolls(&rolls_of(&faces[9..])), None);
    assert_eq!(stacks_of(&game), vec![1, 7, 5, 4]);
    assert_eq!(game.total_remaining_money(), 17);
    assert_eq!(game.center(), 3);
    assert_eq!(game.player_turn(), 0);
}

#[test]
fn no_token_is_made_or_lost() {
    let faces = [
        3, 2, 5, 3, 2, 4, 0, 0, 4, 3, 1, 2, 1, 3, 3, 0, 5, 0, 4, 4, 2, 2, 5, 2, 4, 3, 4, 3, 0, 0,
        2, 3, 5, 5, 0, 0, 5, 5, 2, 5, 4, 5, 3, 2, 5, 3, 5, 2, 0, 3, 2, 1, 4, 0, 3, 0, 1, 2, 1, 5,
    ];
    let mut game = GameState::new(4, 5);
    for face in faces {
        assert_eq!(game.advance(), Phase::Rolling);
        let pot_before = game.total_remaining_money();
        let roll = Roll::from_face(face);
        game.apply(roll);
        let in_play: u128 = stacks_of(&game).iter().sum();
        assert_eq!(in_play, game.total_remaining_money());
        assert_eq!(in_play + game.center(), 20);
        if roll == Roll::Center {
            assert_eq!(game.total_remaining_money(), pot_before - 1);
        } else {
            assert_eq!(game.total_remaining_money(), pot_before);
        }
    }
}

#[test]
fn winner_holds_every_token_in_circulation() {
    let faces = [
        2, 3, 2, 1, 5, 4, 2, 3, 5, 2, 2, 0, 1, 0, 1, 3, 1, 2, 1, 3, 4, 4, 0, 3, 5, 2, 5, 0, 5, 0,
    ];
    let mut game = GameState::new(5, 1);
    let winner = game.play_rolls(&rolls_of(&faces)).unwrap();
    for player in 0..game.players() {
        if player == winner {
            assert_eq!(game.tokens(player), game.total_remaining_money());
        } else {
            assert_eq!(game.tokens(player), 0);
        }
    }
}

#[test]
fn large_pots_are_seated() {
    let game = GameState::new(1, u32::MAX);
    assert_eq!(game.total_remaining_money(), 4294967295);
    let game = GameState::new(65537, 65535);
    assert_eq!(game.total_remaining_money(), 4294967295);
    let game = GameState::new(65537, 65536);
    assert_eq!(game.total_remaining_money(), 4295032832);
    let game = GameState::new(3, u32::MAX);
    assert_eq!(game.total_remaining_money(), 12884901885);
    assert_eq!(game.tokens(2), 4294967295);
}

#[test]
fn stack_can_grow_past_the_stake_of_the_largest_game() {
    let mut game = GameState::new(2, u32::MAX);
    game.apply(Roll::Right);
    assert_eq!(stacks_of(&game), vec![4294967294, 4294967296]);
    assert_eq!(game.total_remaining_money(), 8589934590);
}

#[test]
fn lone_player_without_tokens_has_won() {
    let mut game = GameState::new(1, 0);
    assert_eq!(game.dice_left(), 0);
    assert_eq!(game.advance(), Phase::Won(0));
    assert_eq!(game.play_rolls(&rolls_of(&[3, 4, 5])), Some(0));
    assert_eq!(stacks_of(&game), vec![0]);
    assert_eq!(game.total_remaining_money(), 0);
    assert_eq!(game.center(), 0);
}

#[test]
fn lone_player_wins_whatever_the_dice_would_show() {
    check_game(1, 4, &[5, 5, 3, 4], Some(0), &[4], 4, 0, 0);
    check_game(1, 0, &[5, 5, 3, 4], Some(0), &[0], 0, 0, 0);
    check_game(1, 1, &[], Some(0), &[1], 1, 0, 0);
}
