use twordle::keyboard::KeyStatus;
use twordle::letters::Classification;
use twordle::pick_word::WordList;
use twordle::session::{blank, find_empty_index, find_filled_index, full_row_letters, same_letters};
use twordle::{GameType, Msg, Props, Twordle};

fn word(text: &str) -> Vec<char> {
    text.chars().collect()
}

fn type_word(session: &mut Twordle, text: &str, now: i64) {
    for c in text.chars() {
        session.update_at(Msg::AddLetter(c), now);
    }
}

fn row(session: &Twordle) -> String {
    session.typed_word().iter().map(|slot| slot.unwrap_or('_')).collect()
}

#[test]
fn fresh_session_is_blank() {
    let session = Twordle::with_word(GameType::Daily, word("apple"), 1_000);
    assert_eq!(session.typed_word(), vec![None; 5]);
    assert_eq!(session.attempts(), 0);
    assert!(session.guesses().is_empty());
    assert!(!session.is_solved());
    assert!(!session.has_started());
    assert_eq!(session.wordle(), word("apple"));
    assert_eq!(session.game_type(), GameType::Daily);
    assert_eq!(session.key_status('a'), KeyStatus::Unseen);
    assert_eq!(session.format_time_from_now(), None);
    assert_eq!(session.generate_score(), None);
}

#[test]
fn titles_of_the_two_games() {
    assert_eq!(Twordle::with_word(GameType::Daily, word("apple"), 0).title(), "Twordle");
    assert_eq!(
        Twordle::with_word(GameType::Unlimited, word("apple"), 0).title(),
        "Twordle Unlimited"
    );
}

#[test]
fn letters_fill_from_the_left_in_lower_case() {
    let mut session = Twordle::with_word(GameType::Daily, word("apple"), 0);
    assert!(session.update_at(Msg::AddLetter('A'), 5));
    assert!(session.has_started());
    assert_eq!(row(&session), "a____");
    assert!(session.update_at(Msg::AddLetter('p'), 6));
    assert_eq!(row(&session), "ap___");
}

#[test]
fn full_row_takes_no_letter() {
    let mut session = Twordle::with_word(GameType::Daily, word("apple"), 0);
    type_word(&mut session, "crane", 1);
    assert!(!session.update_at(Msg::AddLetter('x'), 2));
    assert_eq!(row(&session), "crane");
}

#[test]
fn delete_clears_from_the_right() {
    let mut session = Twordle::with_word(GameType::Daily, word("apple"), 0);
    assert!(!session.update_at(Msg::DeleteLetter, 1));
    type_word(&mut session, "cra", 1);
    assert!(session.update_at(Msg::DeleteLetter, 2));
    assert_eq!(row(&session), "cr___");
    assert!(session.update_at(Msg::DeleteLetter, 2));
    assert!(session.update_at(Msg::DeleteLetter, 2));
    assert!(!session.update_at(Msg::DeleteLetter, 2));
    assert_eq!(row(&session), "_____");
}

#[test]
fn submit_of_an_incomplete_row_does_nothing() {
    let mut session = Twordle::with_word(GameType::Daily, word("apple"), 0);
    assert!(!session.update_at(Msg::SubmitWord, 1));
    type_word(&mut session, "appl", 1);
    assert!(!session.update_at(Msg::SubmitWord, 2));
    assert_eq!(session.attempts(), 0);
    assert_eq!(row(&session), "appl_");
    assert_eq!(session.key_status('a'), KeyStatus::Unseen);
    assert!(!session.is_solved());
}

#[test]
fn wrong_guess_is_recorded_and_clears_the_row() {
    let mut session = Twordle::with_word(GameType::Daily, word("apple"), 0);
    type_word(&mut session, "apply", 1);
    assert!(session.update_at(Msg::SubmitWord, 2));
    assert!(!session.is_solved());
    assert_eq!(row(&session), "_____");
    let guesses = session.guesses();
    assert_eq!(guesses.len(), 1);
    assert_eq!(guesses[0].number, 1);
    assert_eq!(guesses[0].letters, word("apply"));
    assert_eq!(
        guesses[0].classes,
        vec![
            Classification::Correct,
            Classification::Correct,
            Classification::Correct,
            Classification::Correct,
            Classification::Absent,
        ]
    );
    assert_eq!(session.key_status('a'), KeyStatus::Correct);
    assert_eq!(session.key_status('y'), KeyStatus::Absent);
    assert_eq!(session.key_status('e'), KeyStatus::Unseen);
    assert_eq!(session.generate_score(), None);
}

#[test]
fn guesses_are_kept_latest_first_with_rising_numbers() {
    let mut session = Twordle::with_word(GameType::Daily, word("apple"), 0);
    for guess in ["crane", "truck", "maple"] {
        type_word(&mut session, guess, 1);
        assert!(session.update_at(Msg::SubmitWord, 2));
    }
    let guesses = session.guesses();
    assert_eq!(session.attempts(), 3);
    assert_eq!(guesses[0].number, 3);
    assert_eq!(guesses[0].letters, word("maple"));
    assert_eq!(guesses[1].number, 2);
    assert_eq!(guesses[1].letters, word("truck"));
    assert_eq!(guesses[2].number, 1);
    assert_eq!(guesses[2].letters, word("crane"));
}

#[test]
fn right_guess_solves_the_game() {
    let mut session = Twordle::with_word(GameType::Daily, word("apple"), 0);
    type_word(&mut session, "apple", 1_000);
    assert!(session.update_at(Msg::SubmitWord, 11_000));
    assert!(session.is_solved());
    assert_eq!(session.guesses()[0].classes, vec![Classification::Correct; 5]);
    assert_eq!(session.format_time_from_now(), Some("10 seconds".to_string()));
    assert_eq!(session.generate_score(), Some(89));
}

#[test]
fn clock_starts_with_the_first_letter() {
    let mut session = Twordle::with_word(GameType::Daily, word("apple"), 0);
    type_word(&mut session, "crane", 50_000);
    session.update_at(Msg::SubmitWord, 60_000);
    type_word(&mut session, "apple", 70_000);
    session.update_at(Msg::SubmitWord, 125_000);
    assert_eq!(session.format_time_from_now(), Some("1 minute and 15 seconds".to_string()));
    assert_eq!(session.generate_score(), Some(23));
}

#[test]
fn solved_session_takes_nothing_in() {
    let mut session = Twordle::with_word(GameType::Daily, word("apple"), 0);
    type_word(&mut session, "apple", 1_000);
    session.update_at(Msg::SubmitWord, 3_000);
    assert!(!session.update_at(Msg::AddLetter('x'), 9_000));
    assert!(!session.update_at(Msg::DeleteLetter, 9_000));
    assert!(!session.update_at(Msg::SubmitWord, 9_000));
    assert!(!session.update(Msg::AddLetter('x')));
    assert_eq!(row(&session), "_____");
    assert_eq!(session.attempts(), 1);
    assert!(session.is_solved());
    assert_eq!(session.key_status('x'), KeyStatus::Unseen);
    assert_eq!(session.format_time_from_now(), Some("2 seconds".to_string()));
    assert_eq!(session.generate_score(), Some(97));
}

#[test]
fn key_stays_correct_through_later_guesses() {
    let mut session = Twordle::with_word(GameType::Daily, word("apple"), 0);
    type_word(&mut session, "angry", 1);
    session.update_at(Msg::SubmitWord, 2);
    assert_eq!(session.key_status('a'), KeyStatus::Correct);
    type_word(&mut session, "koala", 3);
    session.update_at(Msg::SubmitWord, 4);
    assert_eq!(session.key_status('a'), KeyStatus::Correct);
    assert_eq!(session.key_status('l'), KeyStatus::Correct);
    assert_eq!(session.key_status('k'), KeyStatus::Absent);
}

#[test]
fn colours_of_letters_and_keys() {
    let mut session = Twordle::with_word(GameType::Daily, word("apple"), 0);
    assert_eq!(session.letter_colour('a', 0), "bg-green-700");
    assert_eq!(session.letter_colour('a', 3), "bg-yellow-700");
    assert_eq!(session.letter_colour('y', 4), "bg-gray-700");
    assert_eq!(session.letter_colour('a', 40), "bg-yellow-700");
    assert_eq!(session.letter_status('e', 4), Classification::Correct);
    assert_eq!(session.key_colour('a'), "bg-neutral-800");
    type_word(&mut session, "angel", 1);
    session.update_at(Msg::SubmitWord, 2);
    assert_eq!(session.key_colour('a'), "bg-green-700");
    assert_eq!(session.key_colour('l'), "bg-yellow-700");
    assert_eq!(session.key_colour('n'), "bg-gray-700");
    assert_eq!(session.key_colour('z'), "bg-neutral-800");
}

#[test]
fn update_reads_the_clock() {
    let mut session = Twordle::with_word(GameType::Daily, word("apple"), 0);
    for c in "apple".chars() {
        assert!(session.update(Msg::AddLetter(c)));
    }
    assert!(session.update(Msg::SubmitWord));
    assert!(session.is_solved());
    let points = session.generate_score().unwrap();
    assert!(points >= 90 && points <= 99);
}

#[test]
fn create_picks_a_word_of_the_list() {
    let words = match WordList::new(vec![word("apple"), word("crane"), word("truck")]) {
        Ok(words) => words,
        Err(_) => panic!("the list is not empty"),
    };
    for game_type in [GameType::Daily, GameType::Unlimited] {
        let session = Twordle::create(&Props { game_type }, &words);
        let picked = session.wordle();
        assert!(picked == word("apple") || picked == word("crane") || picked == word("truck"));
        assert_eq!(session.typed_word(), vec![None; 5]);
        assert_eq!(session.game_type(), game_type);
        assert!(!session.is_solved());
    }
}

#[test]
fn row_helpers() {
    assert_eq!(blank(3), vec![None, None, None]);
    assert_eq!(find_empty_index(&vec![Some('a'), None, None]), Some(1));
    assert_eq!(find_empty_index(&vec![Some('a'), Some('b')]), None);
    assert_eq!(find_filled_index(&vec![Some('a'), Some('b'), None]), Some(1));
    assert_eq!(find_filled_index(&vec![None, None]), None);
    assert_eq!(full_row_letters(&vec![Some('a'), Some('b')]), Some(vec!['a', 'b']));
    assert_eq!(full_row_letters(&vec![Some('a'), None]), None);
    assert!(same_letters(&word("apple"), &word("apple")));
    assert!(!same_letters(&word("apple"), &word("apply")));
    assert!(!same_letters(&word("apple"), &word("appl")));
}
