//! The guessing game: a fixed secret value and a step function that parses
//! one line of input and reports whether the guess is too small, too big, or
//! a win. The game is over exactly when the secret has been guessed.

use vstd::prelude::*;
use crate::parse::parse_u32;
use crate::parse::spec_parse_u32;

verus! {

/// What the game says back after one line of input.
#[derive(Clone, Copy, Debug, PartialEq, Eq, Structural)]
pub enum Reply {
    /// The line did not parse as a number; the player is asked to retry.
    Retry,
    /// The parsed guess is below the secret.
    TooSmall,
    /// The parsed guess is above the secret.
    TooBig,
    /// The parsed guess equals the secret; the game is over.
    Win,
}

/// One running game: a secret that never changes once drawn, and a flag that
/// is set exactly when the secret has been guessed.
pub struct GuessGame {
    /// The value the player is trying to guess.
    pub secret: u32,
    /// Whether the secret has been guessed.
    pub done: bool,
}

/// Relies on rand::random_range: a value sampled uniformly from the
/// inclusive range 1..=100 lies within that range.
#[verifier::external_body]
fn draw_secret() -> (s: u32)
    ensures
        1 <= s <= 100,
{
    rand::random_range(1..=100)
}

impl GuessGame {
    /// Start a game with the given secret.
    pub fn new(secret: u32) -> (g: GuessGame)
        ensures
            g.secret == secret,
            !g.done,
    {
        GuessGame { secret, done: false }
    }

    /// Start a game whose secret is drawn from the inclusive range 1..=100.
    pub fn new_random() -> (g: GuessGame)
        ensures
            1 <= g.secret <= 100,
            !g.done,
    {
        GuessGame { secret: draw_secret(), done: false }
    }

    /// Feed one line of input to the game. The secret never changes. A line
    /// that does not parse earns a retry prompt and leaves the game exactly
    /// as it was; a parsed guess below the secret earns too-small, above the
    /// secret too-big, and the game ends if and only if the guess equals the
    /// secret.
    pub fn step(&mut self, line: &[u8]) -> (r: Reply)
        requires
            !old(self).done,
        ensures
            final(self).secret == old(self).secret,
            final(self).done <==> spec_parse_u32(line@) == Some(old(self).secret),
            spec_parse_u32(line@) is None ==> r == Reply::Retry && *final(self) == *old(self),
            spec_parse_u32(line@) matches Some(g) && g < old(self).secret ==> r
                == Reply::TooSmall,
            spec_parse_u32(line@) matches Some(g) && g > old(self).secret ==> r == Reply::TooBig,
            spec_parse_u32(line@) == Some(old(self).secret) ==> r == Reply::Win,
    {
        match parse_u32(line) {
            None => Reply::Retry,
            Some(g) => {
                if g < self.secret {
                    Reply::TooSmall
                } else if g > self.secret {
                    Reply::TooBig
                } else {
                    self.done = true;
                    Reply::Win
                }
            },
        }
    }
}

/// The exact line printed for each reply.
pub fn message(r: Reply) -> (m: &'static str)
    ensures
        r == Reply::Retry ==> m@ == "Please input number next time!"@,
        r == Reply::TooSmall ==> m@ == "Too small guess!"@,
        r == Reply::TooBig ==> m@ == "Too big guess!"@,
        r == Reply::Win ==> m@ == "You won!"@,
{
    match r {
        Reply::Retry => "Please input number next time!",
        Reply::TooSmall => "Too small guess!",
        Reply::TooBig => "Too big guess!",
        Reply::Win => "You won!",
    }
}

} // verus!
