use exercises::hangman::{
    pick_word, valid_total_guesses, valid_word_size, Game, Status, Verdict, Word, MAX_WORD_SIZE,
    MIN_GUESSES, MIN_WORD_SIZE,
};

fn word(s: &str) -> Word {
    Word::new(s.to_string())
}

#[test]
fn sizes_and_guesses_on_offer() {
    assert!(!valid_word_size(0));
    assert!(!valid_word_size(4));
    assert!(valid_word_size(5));
    assert!(valid_word_size(7));
    assert!(valid_word_size(10));
    assert!(!valid_word_size(11));
    assert!(!valid_word_size(255));
    assert!(!valid_total_guesses(4));
    assert!(valid_total_guesses(5));
    assert!(valid_total_guesses(255));
    assert_eq!((MIN_WORD_SIZE, MAX_WORD_SIZE, MIN_GUESSES), (5, 10, 5));
}

#[test]
fn a_new_game_is_open() {
    let game = Game::new(word("apple"), 5);
    assert_eq!(game.status(), Status::Open);
    assert_eq!(game.misses(), 0);
    assert_eq!(game.allowed(), 5);
    assert_eq!(game.guess().render(), "_ _ _ _ _");
    assert!(!game.has_tried(&"a".to_string()));
}

#[test]
fn a_game_without_wrong_guesses_is_lost_at_once() {
    let game = Game::new(word("apple"), 0);
    assert_eq!(game.status(), Status::Lost);
}

#[test]
fn a_game_on_the_empty_word_is_won_at_once() {
    let game = Game::new(word(""), 0);
    assert_eq!(game.status(), Status::Won);
}

#[test]
fn winning_a_game() {
    let mut game = Game::new(word("noon"), 5);
    assert_eq!(game.play(Some(2), "n".to_string()), Verdict::Hit);
    assert_eq!(game.guess().render(), "n _ _ n");
    assert_eq!(game.status(), Status::Open);
    assert_eq!(game.play(Some(2), "x".to_string()), Verdict::Miss);
    assert_eq!(game.misses(), 1);
    assert_eq!(game.play(Some(2), "o".to_string()), Verdict::Hit);
    assert_eq!(game.guess().render(), "n o o n");
    assert_eq!(game.status(), Status::Won);
    assert_eq!(game.misses(), 1);
}

#[test]
fn losing_a_game() {
    let mut game = Game::new(word("apple"), 5);
    for (i, letter) in ["q", "w", "r", "t", "y"].iter().enumerate() {
        assert_eq!(game.status(), Status::Open);
        assert_eq!(game.play(Some(2), letter.to_string()), Verdict::Miss);
        assert_eq!(game.misses(), i as u8 + 1);
    }
    assert_eq!(game.status(), Status::Lost);
    assert_eq!(game.guess().render(), "_ _ _ _ _");
}

#[test]
fn a_repeated_guess_counts_as_nothing() {
    let mut game = Game::new(word("apple"), 5);
    assert_eq!(game.play(Some(2), "z".to_string()), Verdict::Miss);
    assert_eq!(game.play(Some(2), "z".to_string()), Verdict::Repeated);
    assert_eq!(game.misses(), 1);
    assert_eq!(game.play(Some(2), "a".to_string()), Verdict::Hit);
    assert_eq!(game.play(Some(2), "a".to_string()), Verdict::Repeated);
    assert_eq!(game.misses(), 1);
    assert!(game.has_tried(&"a".to_string()));
    assert!(game.has_tried(&"z".to_string()));
    assert!(!game.has_tried(&"p".to_string()));
}

#[test]
fn a_line_of_another_length_is_a_wrong_guess_and_is_not_recorded() {
    let mut game = Game::new(word("apple"), 5);
    assert_eq!(game.play(Some(3), "ap".to_string()), Verdict::NotOneLetter);
    assert_eq!(game.misses(), 1);
    assert!(!game.has_tried(&"ap".to_string()));
    assert_eq!(game.play(Some(1), "".to_string()), Verdict::NotOneLetter);
    assert_eq!(game.misses(), 2);
    // The length of the line decides, not what is left of it.
    assert_eq!(game.play(Some(3), "a".to_string()), Verdict::NotOneLetter);
    assert_eq!(game.misses(), 3);
    assert_eq!(game.guess().render(), "_ _ _ _ _");
    assert_eq!(game.play(Some(0), "a".to_string()), Verdict::NotOneLetter);
    assert_eq!(game.misses(), 4);
}

#[test]
fn a_line_that_could_not_be_read_is_played_as_it_stands() {
    let mut game = Game::new(word("apple"), 5);
    assert_eq!(game.play(None, "".to_string()), Verdict::Miss);
    assert_eq!(game.misses(), 1);
    assert_eq!(game.play(None, "".to_string()), Verdict::Repeated);
    assert_eq!(game.play(None, "p".to_string()), Verdict::Hit);
    assert_eq!(game.guess().render(), "_ p p _ _");
}

#[test]
fn two_bytes_that_are_one_letter_without_line_feed() {
    let mut game = Game::new(word("apple"), 5);
    // Two bytes read, and two letters left after trimming: no letter of the word.
    assert_eq!(game.play(Some(2), "pp".to_string()), Verdict::Miss);
    assert_eq!(game.misses(), 1);
}

#[test]
fn picking_a_word_takes_it_out() {
    let names = ["apple", "melon", "grape", "lemon"];
    for _ in 0..50 {
        let mut words: Vec<Word> = names.iter().map(|s| word(s)).collect();
        let picked = pick_word(&mut words).get_data();
        let at = names.iter().position(|n| *n == picked).unwrap();
        let rest: Vec<String> = words.into_iter().map(|w| w.get_data()).collect();
        let mut expected: Vec<String> = names.iter().map(|s| s.to_string()).collect();
        expected.remove(at);
        assert_eq!(rest, expected);
    }
}

#[test]
fn picking_the_only_word() {
    let mut words = vec![word("alone")];
    assert_eq!(pick_word(&mut words).get_data(), "alone");
    assert!(words.is_empty());
}

#[test]
fn picking_reaches_every_word() {
    let mut seen = [false; 3];
    for _ in 0..400 {
        let mut words = vec![word("a"), word("b"), word("c")];
        let picked = pick_word(&mut words).get_data();
        seen[(picked.as_bytes()[0] - b'a') as usize] = true;
    }
    assert_eq!(seen, [true, true, true]);
}
