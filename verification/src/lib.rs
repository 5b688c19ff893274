//! An interactive number-guessing game, split into a verified core and a
//! thin console driver. The core fixes a secret in `1..=10`, parses each
//! raw input line as a guess, and runs a two-state machine that tolerates
//! malformed input and ends only when the secret itself is guessed.

pub mod game;
pub mod pairs;
pub mod parse;

pub use game::Feedback;
pub use game::GameState;
pub use game::GuessingGame;
pub use game::feedback_text;
pub use game::intro_text;
pub use game::prompt_text;
pub use pairs::reverse;
pub use parse::parse_guess;
