//! The two operations that players reach: creating a game and guessing. Each
//! takes the store for the length of the call, so whoever holds the store
//! exclusively runs them one after the other.

use crate::game::{
    apply_guess, correct_text, guessed, secret_in_range, start_game, started, too_high_text,
    too_low_text, Game, GameView, Status,
};
use crate::store::{keyed_by_id, Database};
use vstd::prelude::*;

verus! {

/// Why an operation gave no game.
#[derive(Debug, Clone, Copy, PartialEq, Eq, Structural)]
pub enum GameError {
    /// No game is filed under the identifier.
    NotFound,
    /// The store was changed, but its snapshot could not be written.
    PersistenceFailure,
}

impl GameError {
    /// The words that tell a player of the error.
    pub fn message(&self) -> (text: String)
        ensures
            text@ == self.message_text(),
    {
        match self {
            GameError::NotFound => "Game not found".to_owned(),
            GameError::PersistenceFailure => "Could not save the game".to_owned(),
        }
    }

    /// The characters of `message`.
    pub open spec fn message_text(&self) -> Seq<char> {
        match self {
            GameError::NotFound => "Game not found"@,
            GameError::PersistenceFailure => "Could not save the game"@,
        }
    }
}

/// The game that is created under `id` by a request that carries
/// `initial_guess`, once `secret` has been drawn for it.
pub open spec fn created(id: u64, initial_guess: u64, secret: u64) -> GameView {
    GameView {
        id,
        secret,
        last_guess: initial_guess,
        hint: started(id, secret).hint,
        status: started(id, secret).status,
    }
}

/// The store after a game was created in it.
pub open spec fn after_create(
    games: Map<u64, GameView>,
    id: u64,
    initial_guess: u64,
    secret: u64,
) -> Map<u64, GameView> {
    games.insert(id, created(id, initial_guess, secret))
}

/// The store after `guess` was made on the game `id`: that game has the guess
/// applied, and a store without such a game is unchanged.
pub open spec fn after_guess(games: Map<u64, GameView>, id: u64, guess: u64) -> Map<
    u64,
    GameView,
> {
    if games.contains_key(id) {
        games.insert(id, guessed(games[id], guess))
    } else {
        games
    }
}

/// Creates the game `id` with a secret that the caller has drawn, files it in
/// the store in place of any game that was under `id`, and returns a copy.
pub fn create_game_with(db: &mut Database, id: u64, initial_guess: u64, secret: u64) -> (game:
    Game)
    requires
        old(db).wf(),
        secret_in_range(secret),
    ensures
        game@ == created(id, initial_guess, secret),
        final(db)@ == after_create(old(db)@, id, initial_guess, secret),
        final(db).wf(),
{
    file_created(db, Game::start_with(id, secret), initial_guess)
}

/// Creates the game `id`: draws its secret from 1 to 100, files the game in
/// the store in place of any game that was under `id`, and returns a copy.
/// Whatever the request said of secret, hint or status plays no part.
pub fn create_game(db: &mut Database, id: u64, initial_guess: u64) -> (game: Game)
    requires
        old(db).wf(),
    ensures
        secret_in_range(game.secret),
        game@ == created(id, initial_guess, game.secret),
        final(db)@ == after_create(old(db)@, id, initial_guess, game.secret),
        final(db).wf(),
{
    file_created(db, start_game(id), initial_guess)
}

/// Records the guess that came with the request on a game just started, files
/// the game under its identifier and returns a copy.
fn file_created(db: &mut Database, fresh: Game, initial_guess: u64) -> (game: Game)
    requires
        old(db).wf(),
    ensures
        game@ == (GameView { last_guess: initial_guess, ..fresh@ }),
        final(db)@ == old(db)@.insert(fresh.id, game@),
        final(db).wf(),
{
    let mut game = fresh;
    game.last_guess = initial_guess;
    let copy = game.clone();
    db.insert(game);
    copy
}

/// Makes `guess` on the game `id`. Where the store holds that game, the game
/// with the guess applied replaces it and a copy is returned; where it does
/// not, the store is left as it is and the error says so.
pub fn guess_number(db: &mut Database, id: u64, guess: u64) -> (outcome: Result<Game, GameError>)
    requires
        old(db).wf(),
    ensures
        final(db)@ == after_guess(old(db)@, id, guess),
        final(db).wf(),
        match outcome {
            Ok(game) => old(db)@.contains_key(id) && game@ == guessed(old(db)@[id], guess),
            Err(error) => error == GameError::NotFound && !old(db)@.contains_key(id),
        },
{
    let current = match db.get(&id) {
        Some(game) => game.clone(),
        None => {
            return Err(GameError::NotFound);
        },
    };
    let after = apply_guess(current, guess);
    let copy = after.clone();
    db.update(after);
    Ok(copy)
}

/// Settles what the caller of a changing operation is told, once the store's
/// snapshot has been written or has failed to be: the game where it was
/// written, the persistence error where it was not. Creating and guessing
/// are treated alike. The store in memory keeps the change either way, and
/// the error is what tells that the snapshot lags behind it.
pub fn confirm_saved(game: Game, saved: bool) -> (outcome: Result<Game, GameError>)
    ensures
        saved ==> outcome == Ok::<Game, GameError>(game),
        !saved ==> outcome == Err::<Game, GameError>(GameError::PersistenceFailure),
{
    if saved {
        Ok(game)
    } else {
        Err(GameError::PersistenceFailure)
    }
}

/// What a created game shows does not depend on its secret: hint, status and
/// last guess are the same whatever number was drawn.
pub proof fn lemma_created_game_hides_secret(
    id: u64,
    initial_guess: u64,
    secret_a: u64,
    secret_b: u64,
)
    ensures
        created(id, initial_guess, secret_a).hint == created(id, initial_guess, secret_b).hint,
        created(id, initial_guess, secret_a).status == created(
            id,
            initial_guess,
            secret_b,
        ).status,
        created(id, initial_guess, secret_a).last_guess == created(
            id,
            initial_guess,
            secret_b,
        ).last_guess,
{
}

/// Creating a game and guessing its secret wins it: the game under `id` then
/// carries the hint for a correct guess and the status won.
pub proof fn lemma_create_then_guess_secret_wins(
    games: Map<u64, GameView>,
    id: u64,
    initial_guess: u64,
    secret: u64,
)
    ensures
        ({
            let played = after_guess(after_create(games, id, initial_guess, secret), id, secret);
            &&& played.contains_key(id)
            &&& played[id].hint == correct_text()
            &&& played[id].status == Status::Won
            &&& played[id].last_guess == secret
        }),
{
}

/// Creating a game and guessing beside its secret leaves it in progress, with
/// the hint too low for a guess below the secret and too high for one above.
pub proof fn lemma_create_then_wrong_guess_goes_on(
    games: Map<u64, GameView>,
    id: u64,
    initial_guess: u64,
    secret: u64,
    guess: u64,
)
    requires
        guess != secret,
    ensures
        ({
            let played = after_guess(after_create(games, id, initial_guess, secret), id, guess);
            &&& played.contains_key(id)
            &&& guess < secret ==> played[id].hint == too_low_text()
            &&& guess > secret ==> played[id].hint == too_high_text()
            &&& played[id].status == Status::InProgress
            &&& played[id].last_guess == guess
        }),
{
}

/// A guess changes no game but its own, and neither adds nor removes one.
pub proof fn lemma_guess_touches_one_game(
    games: Map<u64, GameView>,
    id: u64,
    guess: u64,
    other: u64,
)
    requires
        other != id,
    ensures
        after_guess(games, id, guess).dom() == games.dom(),
        games.contains_key(other) ==> after_guess(games, id, guess)[other] == games[other],
{
    assert(after_guess(games, id, guess).dom() =~= games.dom());
}

/// Guesses on two different games reach the same store in either order.
pub proof fn lemma_guesses_on_distinct_games_commute(
    games: Map<u64, GameView>,
    first: u64,
    first_guess: u64,
    second: u64,
    second_guess: u64,
)
    requires
        first != second,
    ensures
        after_guess(after_guess(games, first, first_guess), second, second_guess) == after_guess(
            after_guess(games, second, second_guess),
            first,
            first_guess,
        ),
{
    assert(after_guess(after_guess(games, first, first_guess), second, second_guess)
        =~= after_guess(after_guess(games, second, second_guess), first, first_guess));
}

/// Creating and guessing keep every game filed under its own identifier.
pub proof fn lemma_operations_keep_games_filed(
    games: Map<u64, GameView>,
    id: u64,
    initial_guess: u64,
    secret: u64,
    guess: u64,
)
    requires
        keyed_by_id(games),
    ensures
        keyed_by_id(after_create(games, id, initial_guess, secret)),
        keyed_by_id(after_guess(games, id, guess)),
{
}

} // verus!
