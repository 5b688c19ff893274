//! The guessing game itself.
//!
//! A game holds a secret drawn from `1..=10` and runs a two-state machine:
//! it awaits guesses until one equals the secret, and is then won. Each raw
//! input line either fails to parse, which changes nothing and produces no
//! reply, or yields a guess that is echoed together with one of three fixed
//! feedback messages: too small, too big, or the win.

use rand::Rng;
use vstd::prelude::*;

use crate::parse::parse_guess;
use crate::parse::parse_guess_spec;

verus! {

/// The feedback given after a valid comparison of a guess with the secret.
#[derive(Clone, Copy, Debug, PartialEq, Eq)]
pub enum Feedback {
    TooSmall,
    TooBig,
    Win,
}

/// The two control states of a game: still awaiting a correct guess, or won.
#[derive(Clone, Copy, Debug, PartialEq, Eq)]
pub enum GameState {
    AwaitingGuess,
    Won,
}

/// The secrets a game may hold: the closed range `1..=10`.
pub open spec fn valid_secret(s: u32) -> bool {
    1 <= s && s <= 10
}

/// What one input line does to a game that awaits a guess: an unparsable
/// line is silently ignored, a guess below or above the secret keeps the
/// game going with the matching feedback, and the secret itself wins.
pub open spec fn spec_step(secret: u32, line: Seq<char>) -> (GameState, Option<(u32, Feedback)>) {
    match parse_guess_spec(line) {
        None => (GameState::AwaitingGuess, None),
        Some(g) => if g < secret {
            (GameState::AwaitingGuess, Some((g, Feedback::TooSmall)))
        } else if g > secret {
            (GameState::AwaitingGuess, Some((g, Feedback::TooBig)))
        } else {
            (GameState::Won, Some((g, Feedback::Win)))
        },
    }
}

/// The state reached by feeding a sequence of input lines to a game;
/// the won state is terminal, further lines do not leave it.
pub open spec fn run_lines(state: GameState, secret: u32, lines: Seq<Seq<char>>) -> GameState
    decreases lines.len(),
{
    if lines.len() == 0 {
        state
    } else if state is Won {
        GameState::Won
    } else {
        run_lines(spec_step(secret, lines[0]).0, secret, lines.subrange(1, lines.len() as int))
    }
}

/// One game: the secret, fixed at creation, and the current control state.
pub struct GuessingGame {
    secret: u32,
    state: GameState,
}

/// Relies on rand::Rng::gen_range: a value uniformly sampled from the given
/// range, here the non-empty range `1..=10`, so the result lies within it.
#[verifier::external_body]
fn draw_secret() -> (s: u32)
    ensures
        valid_secret(s),
{
    rand::thread_rng().gen_range(1..=10u32)
}

impl GuessingGame {
    /// The hidden target of this game.
    pub closed spec fn secret(&self) -> u32 {
        self.secret
    }

    /// The control state of this game.
    pub closed spec fn state(&self) -> GameState {
        self.state
    }

    /// A game is well formed when its secret lies in `1..=10`.
    pub open spec fn wf(&self) -> bool {
        valid_secret(self.secret())
    }

    /// Starts a game with the given secret.
    pub fn new(secret: u32) -> (game: Self)
        requires
            valid_secret(secret),
        ensures
            game.wf(),
            game.secret() == secret,
            game.state() == GameState::AwaitingGuess,
    {
        GuessingGame { secret, state: GameState::AwaitingGuess }
    }

    /// Starts a game whose secret is drawn at random from `1..=10`.
    pub fn with_random_secret() -> (game: Self)
        ensures
            game.wf(),
            game.state() == GameState::AwaitingGuess,
    {
        let secret = draw_secret();
        GuessingGame { secret, state: GameState::AwaitingGuess }
    }

    /// Whether the game has been won.
    pub fn is_won(&self) -> (b: bool)
        ensures
            b == (self.state() is Won),
    {
        match self.state {
            GameState::Won => true,
            GameState::AwaitingGuess => false,
        }
    }

    /// Feeds one raw input line to a game that still awaits a guess. The
    /// secret never changes; the new state and the reply, an echoed guess
    /// with its feedback or nothing for an unparsable line, are exactly
    /// what `spec_step` says.
    pub fn step(&mut self, line: &str) -> (reply: Option<(u32, Feedback)>)
        requires
            old(self).wf(),
            old(self).state() is AwaitingGuess,
        ensures
            final(self).wf(),
            final(self).secret() == old(self).secret(),
            (final(self).state(), reply) == spec_step(old(self).secret(), line@),
    {
        match parse_guess(line) {
            None => None,
            Some(guess) => {
                if guess < self.secret {
                    Some((guess, Feedback::TooSmall))
                } else if guess > self.secret {
                    Some((guess, Feedback::TooBig))
                } else {
                    self.state = GameState::Won;
                    Some((guess, Feedback::Win))
                }
            },
        }
    }
}

/// The fixed text of each feedback message.
pub open spec fn feedback_text_spec(fb: Feedback) -> Seq<char> {
    match fb {
        Feedback::TooSmall => "Too small!"@,
        Feedback::TooBig => "Too Big"@,
        Feedback::Win => "You Win"@,
    }
}

/// The fixed feedback line for each comparison outcome.
pub fn feedback_text(fb: Feedback) -> (s: &'static str)
    ensures
        s@ == feedback_text_spec(fb),
{
    match fb {
        Feedback::TooSmall => "Too small!",
        Feedback::TooBig => "Too Big",
        Feedback::Win => "You Win",
    }
}

/// The fixed text of the one-time introductory message.
pub open spec fn intro_text_spec() -> Seq<char> {
    "Guess the secret number"@
}

/// The one-time introductory line.
pub fn intro_text() -> (s: &'static str)
    ensures
        s@ == intro_text_spec(),
{
    "Guess the secret number"
}

/// The fixed text of the per-iteration prompt.
pub open spec fn prompt_text_spec() -> Seq<char> {
    "Please input your guess."@
}

/// The per-iteration prompt line.
pub fn prompt_text() -> (s: &'static str)
    ensures
        s@ == prompt_text_spec(),
{
    "Please input your guess."
}

/// A line that parses to the secret itself wins at once: the game moves to
/// the won state and the reply echoes the secret with the win feedback.
pub proof fn lemma_correct_guess_wins(secret: u32, line: Seq<char>)
    requires
        valid_secret(secret),
        parse_guess_spec(line) == Some(secret),
    ensures
        spec_step(secret, line) == (GameState::Won, Some((secret, Feedback::Win))),
{
}

/// A line that does not parse as a guess is silently skipped: the game
/// stays awaiting a guess and no feedback of any kind is produced.
pub proof fn lemma_invalid_line_ignored(secret: u32, line: Seq<char>)
    requires
        parse_guess_spec(line) is None,
    ensures
        spec_step(secret, line) == (GameState::AwaitingGuess, Option::<(u32, Feedback)>::None),
{
}

/// A wrong guess never ends the game: one below the secret draws the
/// too-small feedback, one above it the too-big feedback, and the game
/// keeps awaiting a guess either way.
pub proof fn lemma_wrong_guess_continues(secret: u32, line: Seq<char>, g: u32)
    requires
        parse_guess_spec(line) == Some(g),
        g != secret,
    ensures
        spec_step(secret, line).0 == GameState::AwaitingGuess,
        g < secret ==> spec_step(secret, line).1 == Some((g, Feedback::TooSmall)),
        g > secret ==> spec_step(secret, line).1 == Some((g, Feedback::TooBig)),
{
}

/// The won state is terminal: however many further lines are fed to a won
/// game, it stays won.
pub proof fn lemma_won_is_terminal(secret: u32, lines: Seq<Seq<char>>)
    ensures
        run_lines(GameState::Won, secret, lines) == GameState::Won,
{
}

/// Invalid input is idempotent: feeding any number of unparsable lines,
/// the same malformed string again and again included, leaves the game's
/// state exactly as it was.
pub proof fn lemma_invalid_lines_preserve_state(
    state: GameState,
    secret: u32,
    lines: Seq<Seq<char>>,
)
    requires
        forall|k: int| 0 <= k < lines.len() ==> parse_guess_spec(lines[k]) is None,
    ensures
        run_lines(state, secret, lines) == state,
    decreases lines.len(),
{
    if lines.len() > 0 {
        lemma_invalid_lines_preserve_state(state, secret, lines.subrange(1, lines.len() as int));
    }
}

} // verus!
