//! The parameters of a run.

use crate::parallel::{possible_tally, simulate_multithreaded};
use crate::tally::games_counted;
use vstd::prelude::*;

verus! {

/// Why a run cannot start.
#[derive(Clone, Copy, Debug, PartialEq, Eq, Structural)]
pub enum ConfigError {
    /// A game needs at least one player.
    NoPlayers,
    /// A run needs at least one game.
    NoGames,
}

/// What is wrong with these parameters, if anything: the players are
/// looked at first. Any number of tokens is in order.
pub open spec fn config_fault(players: usize, games: usize) -> Option<ConfigError> {
    if players == 0 {
        Some(ConfigError::NoPlayers)
    } else if games == 0 {
        Some(ConfigError::NoGames)
    } else {
        None
    }
}

/// The parameters of a run as plain values.
pub struct Parameters {
    /// Players in each game.
    pub players: usize,
    /// Games to play.
    pub games: usize,
    /// Tokens each player starts with.
    pub money: u32,
    /// Whether progress is to be shown.
    pub progress: bool,
}

/// Parameters that a run can start with.
#[derive(Clone, Copy, Debug)]
pub struct RunConfig {
    players: usize,
    games: usize,
    money: u32,
    progress: bool,
}

impl View for RunConfig {
    type V = Parameters;

    closed spec fn view(&self) -> Parameters {
        Parameters {
            players: self.players,
            games: self.games,
            money: self.money,
            progress: self.progress,
        }
    }
}

impl RunConfig {
    /// The parameters have no fault.
    pub open spec fn wf(&self) -> bool {
        config_fault(self@.players, self@.games) is None
    }

    /// Checks the parameters of a run, and keeps them where they have no
    /// fault.
    pub fn new(players: usize, games: usize, money: u32, progress: bool) -> (config: Result<
        RunConfig,
        ConfigError,
    >)
        ensures
            match config {
                Ok(config) => config_fault(players, games) is None && config.wf() && config@ == (
                    Parameters { players, games, money, progress }
                ),
                Err(fault) => config_fault(players, games) == Some(fault),
            },
    {
        if players == 0 {
            return Err(ConfigError::NoPlayers);
        }
        if games == 0 {
            return Err(ConfigError::NoGames);
        }
        Ok(RunConfig { players, games, money, progress })
    }

    /// Players in each game.
    pub fn players(&self) -> (players: usize)
        ensures
            players == self@.players,
    {
        self.players
    }

    /// Games to play.
    pub fn games(&self) -> (games: usize)
        ensures
            games == self@.games,
    {
        self.games
    }

    /// Tokens each player starts with.
    pub fn money(&self) -> (money: u32)
        ensures
            money == self@.money,
    {
        self.money
    }

    /// Whether progress is to be shown.
    pub fn progress(&self) -> (progress: bool)
        ensures
            progress == self@.progress,
    {
        self.progress
    }

    /// Plays the games of this run, each on `max_rolls` dice at most, and
    /// counts how often each player won. There is no tally where a game was
    /// left without a winner.
    pub fn run(&self, max_rolls: u64) -> (wins: Option<Vec<usize>>)
        requires
            self.wf(),
        ensures
            possible_tally(
                self@.players,
                self@.games,
                self@.money,
                max_rolls,
                match wins {
                    Some(tally) => Some(tally@),
                    None => None,
                },
            ),
            wins matches Some(tally) ==> tally.len() == self@.players && games_counted(tally@)
                == self@.games,
            wins matches Some(tally) ==> forall|player: int|
                0 <= player < self@.players ==> tally@[player] <= self@.games,
            self@.players == 1 ==> wins is Some && wins->Some_0@ == seq![self@.games],
            self@.players >= 2 && (self@.money == 0 || max_rolls == 0) ==> wins is None,
    {
        simulate_multithreaded(self.players, self.games, self.money, max_rolls)
    }
}

} // verus!
