use guessing_game::game::{apply_guess, start_game, Game, Status, SECRET_MAX, SECRET_MIN};

fn game_with_secret(id: u64, secret: u64) -> Game {
    Game::start_with(id, secret)
}

#[test]
fn started_game_has_prompt_and_is_in_progress() {
    let game = Game::start_with(5, 42);
    assert_eq!(game.id, 5);
    assert_eq!(game.secret, 42);
    assert_eq!(game.last_guess, 0);
    assert_eq!(game.hint, "Guess a number between 1 and 100");
    assert_eq!(game.status, Status::InProgress);
}

#[test]
fn secret_bounds_are_one_and_hundred() {
    assert_eq!(SECRET_MIN, 1);
    assert_eq!(SECRET_MAX, 100);
    assert_eq!(Game::start_with(1, 1).secret, 1);
    assert_eq!(Game::start_with(1, 100).secret, 100);
}

#[test]
fn drawn_secret_is_in_range() {
    for id in 0..500u64 {
        let game = start_game(id);
        assert!(1 <= game.secret && game.secret <= 100);
        assert_eq!(game.id, id);
        assert_eq!(game.last_guess, 0);
        assert_eq!(game.hint, "Guess a number between 1 and 100");
        assert_eq!(game.status, Status::InProgress);
    }
}

#[test]
fn drawn_secrets_vary() {
    let first = start_game(0).secret;
    let mut varied = false;
    for id in 1..500u64 {
        if start_game(id).secret != first {
            varied = true;
        }
    }
    assert!(varied);
}

#[test]
fn started_game_shows_nothing_of_its_secret() {
    let a = Game::start_with(3, 17);
    let b = Game::start_with(3, 88);
    assert_eq!(a.hint, b.hint);
    assert_eq!(a.status, b.status);
    assert_eq!(a.last_guess, b.last_guess);
    assert!(!a.hint.contains("17"));
    assert!(!b.hint.contains("88"));
}

#[test]
fn low_guess_is_too_low() {
    let after = apply_guess(game_with_secret(1, 42), 10);
    assert_eq!(after.hint, "Too low!");
    assert_eq!(after.status, Status::InProgress);
    assert_eq!(after.last_guess, 10);
    assert_eq!(after.secret, 42);
    assert_eq!(after.id, 1);
}

#[test]
fn high_guess_is_too_high() {
    let after = apply_guess(game_with_secret(1, 42), 43);
    assert_eq!(after.hint, "Too high!");
    assert_eq!(after.status, Status::InProgress);
    assert_eq!(after.last_guess, 43);
    assert_eq!(after.secret, 42);
}

#[test]
fn equal_guess_is_correct_and_wins() {
    let after = apply_guess(game_with_secret(1, 42), 42);
    assert_eq!(after.hint, "Correct!");
    assert_eq!(after.status, Status::Won);
    assert_eq!(after.last_guess, 42);
}

#[test]
fn guesses_outside_the_range_are_judged_too() {
    let low = apply_guess(game_with_secret(1, 1), 0);
    assert_eq!(low.hint, "Too low!");
    assert_eq!(low.last_guess, 0);
    let high = apply_guess(game_with_secret(1, 100), u64::MAX);
    assert_eq!(high.hint, "Too high!");
    assert_eq!(high.last_guess, u64::MAX);
    assert_eq!(high.status, Status::InProgress);
}

#[test]
fn won_game_stays_won() {
    let won = apply_guess(game_with_secret(9, 50), 50);
    assert_eq!(won.status, Status::Won);
    let again = apply_guess(won, 10);
    assert_eq!(again.status, Status::Won);
    assert_eq!(again.hint, "Too low!");
    assert_eq!(again.last_guess, 10);
    let above = apply_guess(again, 99);
    assert_eq!(above.status, Status::Won);
    assert_eq!(above.hint, "Too high!");
}

#[test]
fn clone_keeps_every_field() {
    let game = apply_guess(game_with_secret(4, 7), 7);
    let copy = game.clone();
    assert_eq!(copy, game);
    assert_eq!(copy.hint, "Correct!");
}
