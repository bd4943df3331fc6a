//! One game's record and the rules that start it and judge a guess.

use rand::Rng;
use vstd::prelude::*;

verus! {

/// The smallest secret a game can have.
pub const SECRET_MIN: u64 = 1;

/// The largest secret a game can have.
pub const SECRET_MAX: u64 = 100;

/// Where a game stands. A won game stays won.
#[derive(Debug, Clone, Copy, PartialEq, Eq, Structural)]
pub enum Status {
    InProgress,
    Won,
}

/// One game: its identifier, the number to find, the last guess made, the
/// feedback on that guess, and whether the game is won.
#[derive(Debug, PartialEq, Eq)]
pub struct Game {
    pub id: u64,
    pub secret: u64,
    pub last_guess: u64,
    pub hint: String,
    pub status: Status,
}

/// A game as a mathematical value: the hint is the sequence of its characters.
pub struct GameView {
    pub id: u64,
    pub secret: u64,
    pub last_guess: u64,
    pub hint: Seq<char>,
    pub status: Status,
}

impl View for Game {
    type V = GameView;

    open spec fn view(&self) -> GameView {
        GameView {
            id: self.id,
            secret: self.secret,
            last_guess: self.last_guess,
            hint: self.hint@,
            status: self.status,
        }
    }
}

/// The hint of a game on which nobody has guessed yet.
pub open spec fn prompt_text() -> Seq<char> {
    "Guess a number between 1 and 100"@
}

/// The hint after a guess below the secret.
pub open spec fn too_low_text() -> Seq<char> {
    "Too low!"@
}

/// The hint after a guess above the secret.
pub open spec fn too_high_text() -> Seq<char> {
    "Too high!"@
}

/// The hint after a guess that is the secret.
pub open spec fn correct_text() -> Seq<char> {
    "Correct!"@
}

/// The hint that a guess earns against a secret.
pub open spec fn hint_for(guess: u64, secret: u64) -> Seq<char> {
    if guess < secret {
        too_low_text()
    } else if guess > secret {
        too_high_text()
    } else {
        correct_text()
    }
}

/// Whether a number can be a game's secret.
pub open spec fn secret_in_range(secret: u64) -> bool {
    SECRET_MIN <= secret <= SECRET_MAX
}

/// The game that starts under `id` with `secret` as the number to find.
pub open spec fn started(id: u64, secret: u64) -> GameView {
    GameView {
        id,
        secret,
        last_guess: 0,
        hint: prompt_text(),
        status: Status::InProgress,
    }
}

/// The game that `game` becomes when `guess` is made on it.
pub open spec fn guessed(game: GameView, guess: u64) -> GameView {
    GameView {
        id: game.id,
        secret: game.secret,
        last_guess: guess,
        hint: hint_for(guess, game.secret),
        status: if guess == game.secret {
            Status::Won
        } else {
            game.status
        },
    }
}

impl Clone for Game {
    /// A copy with the same fields.
    fn clone(&self) -> (copy: Self)
        ensures
            copy == *self,
    {
        Game {
            id: self.id,
            secret: self.secret,
            last_guess: self.last_guess,
            hint: self.hint.clone(),
            status: self.status,
        }
    }
}

impl Game {
    /// Starts the game `id` with a secret that the caller has drawn.
    pub fn start_with(id: u64, secret: u64) -> (game: Game)
        requires
            secret_in_range(secret),
        ensures
            game@ == started(id, secret),
    {
        Game {
            id,
            secret,
            last_guess: 0,
            hint: "Guess a number between 1 and 100".to_owned(),
            status: Status::InProgress,
        }
    }
}

/// Calls `rand::thread_rng().gen_range(low..high)`. The crate samples from the
/// half-open range and panics on an empty one, so for `low < high` the number
/// that comes back is at least `low` and below `high`. Which one it is
/// depends on chance: nothing more is claimed. Not proved, but taken from the
/// crate. Where the system cannot seed the generator the crate panics, and no
/// argument can rule that out.
#[verifier::external_body]
fn draw_between(low: u64, high: u64) -> (drawn: u64)
    requires
        low < high,
    ensures
        low <= drawn < high,
{
    rand::thread_rng().gen_range(low..high)
}

/// Starts the game `id`: draws its secret from 1 to 100, sets the prompt as
/// its hint, and leaves it in progress with no guess made.
pub fn start_game(id: u64) -> (game: Game)
    ensures
        secret_in_range(game.secret),
        game@ == started(id, game.secret),
{
    let secret: u64 = draw_between(SECRET_MIN, SECRET_MAX + 1);
    Game::start_with(id, secret)
}

/// Judges `guess` against the secret of `game` and returns the game with the
/// guess recorded: a hint that says too low, too high or correct, and the
/// status won once the guess is the secret. Every number is a guess.
pub fn apply_guess(game: Game, guess: u64) -> (after: Game)
    ensures
        after@ == guessed(game@, guess),
{
    let mut after = game;
    after.last_guess = guess;
    if guess < after.secret {
        after.hint = "Too low!".to_owned();
    } else if guess > after.secret {
        after.hint = "Too high!".to_owned();
    } else {
        after.hint = "Correct!".to_owned();
        after.status = Status::Won;
    }
    after
}

/// What a new game shows does not depend on its secret: two games started
/// under one identifier carry the same hint, status and last guess, whatever
/// their secrets are.
pub proof fn lemma_start_hides_secret(id: u64, secret_a: u64, secret_b: u64)
    ensures
        started(id, secret_a).hint == started(id, secret_b).hint,
        started(id, secret_a).status == started(id, secret_b).status,
        started(id, secret_a).last_guess == started(id, secret_b).last_guess,
        started(id, secret_a).status == Status::InProgress,
{
}

/// A guess that is the secret wins the game, with the hint that says so.
pub proof fn lemma_secret_guess_wins(game: GameView)
    ensures
        guessed(game, game.secret).hint == correct_text(),
        guessed(game, game.secret).status == Status::Won,
{
}

/// A guess that is not the secret earns the hint for its side of the secret
/// and leaves the status as it was.
pub proof fn lemma_wrong_guess_keeps_status(game: GameView, guess: u64)
    requires
        guess != game.secret,
    ensures
        guess < game.secret ==> guessed(game, guess).hint == too_low_text(),
        guess > game.secret ==> guessed(game, guess).hint == too_high_text(),
        guessed(game, guess).status == game.status,
{
}

/// Every hint after a guess is one of three fixed texts: which one depends on
/// the side of the secret that the guess lies on, and on nothing else.
pub proof fn lemma_hint_is_one_of_three(guess: u64, secret: u64)
    ensures
        hint_for(guess, secret) == too_low_text() || hint_for(guess, secret) == too_high_text()
            || hint_for(guess, secret) == correct_text(),
        hint_for(guess, secret) == if guess < secret {
            too_low_text()
        } else if guess > secret {
            too_high_text()
        } else {
            correct_text()
        },
{
}

/// A guess changes neither the identifier nor the secret, and records itself
/// as the last guess.
pub proof fn lemma_guess_keeps_identity(game: GameView, guess: u64)
    ensures
        guessed(game, guess).id == game.id,
        guessed(game, guess).secret == game.secret,
        guessed(game, guess).last_guess == guess,
{
}

/// The status only moves from in progress to won: after a guess the game is
/// won exactly if it was won before or the guess is the secret.
pub proof fn lemma_status_only_advances(game: GameView, guess: u64)
    ensures
        guessed(game, guess).status == Status::Won <==> game.status == Status::Won || guess
            == game.secret,
        game.status == Status::Won ==> guessed(game, guess).status == Status::Won,
{
}

} // verus!
