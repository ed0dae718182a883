use mastermind::mastermind::hint::Hint;
use mastermind::mastermind::{Error, Mastermind};

#[test]
fn mod_creates_a_new_game() {
    let game = Mastermind::new([1, 2, 3, 4], 1).unwrap();

    assert_eq!([1, 2, 3, 4], game.get_secret())
}

#[test]
fn cannot_create_a_game_with_an_invalid_secret() {
    assert_eq!(Err(Error::InvalidSecret), Mastermind::new([1, 1, 1, 1], 1));
    assert_eq!(Err(Error::InvalidSecret), Mastermind::new([1, 2, 3, 1], 1));
    assert_eq!(Err(Error::InvalidSecret), Mastermind::new([1, 2, 3, 1], 1));
}

#[test]
#[allow(dead_code)]
fn mod_solves_a_game_in_one_guess() {
    let mut game = Mastermind::new([1, 2, 3, 4], 1).unwrap();

    let _ = game.guess([1, 2, 3, 4]);

    assert!(game.is_resolved())
}

#[test]
fn gives_a_hint_of_one_number_in_right_position() {
    let mut game = Mastermind::new([1, 5, 6, 7], 1).unwrap();

    let hint = game.guess([1, 2, 3, 4]);

    assert_eq!(Ok(Hint::new(1, 0)), hint);
}

#[test]
fn gives_a_hint_of_one_number_in_wrong_position() {
    let mut game = Mastermind::new([5, 2, 6, 7], 1).unwrap();

    let hint = game.guess([2, 1, 3, 4]);

    assert_eq!(Ok(Hint::new(0, 1)), hint);
}

#[test]
fn gives_a_hint_with_one_in_right_position_and_one_in_wrong_position() {
    let mut game = Mastermind::new([5, 2, 6, 7], 1).unwrap();

    let hint = game.guess([2, 1, 6, 4]);

    assert_eq!(Ok(Hint::new(1, 1)), hint);
}

#[test]
fn mod_stops_after_maximum_guess() {
    let mut game = Mastermind::new([4, 5, 6, 7], 2).unwrap();

    let _ = game.guess([1, 2, 3, 4]);
    let _ = game.guess([1, 2, 3, 4]);
    let hint = game.guess([1, 2, 3, 4]);

    assert_eq!(Err(Error::MaxGuesses), hint)
}
