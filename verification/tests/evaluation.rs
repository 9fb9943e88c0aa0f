use twordle::keyboard::{KeyStatus, Keyboard};
use twordle::letters::{contains_letter, evaluate, Classification};

fn word(text: &str) -> Vec<char> {
    text.chars().collect()
}

#[test]
fn apply_against_apple() {
    let classes = evaluate(&word("apple"), &word("apply"));
    assert_eq!(
        classes,
        vec![
            Classification::Correct,
            Classification::Correct,
            Classification::Correct,
            Classification::Correct,
            Classification::Absent,
        ]
    );
}

#[test]
fn apple_against_apple_is_all_correct() {
    let classes = evaluate(&word("apple"), &word("apple"));
    assert_eq!(classes, vec![Classification::Correct; 5]);
}

#[test]
fn repeated_letter_is_present_every_time() {
    let classes = evaluate(&word("apple"), &word("eerie"));
    assert_eq!(
        classes,
        vec![
            Classification::Present,
            Classification::Present,
            Classification::Absent,
            Classification::Absent,
            Classification::Correct,
        ]
    );
    let classes = evaluate(&word("apple"), &word("ppppp"));
    assert_eq!(
        classes,
        vec![
            Classification::Present,
            Classification::Correct,
            Classification::Correct,
            Classification::Present,
            Classification::Present,
        ]
    );
}

#[test]
fn nothing_in_common_is_all_absent() {
    let classes = evaluate(&word("apple"), &word("truck"));
    assert_eq!(classes, vec![Classification::Absent; 5]);
}

#[test]
fn evaluation_gives_the_same_twice() {
    let first = evaluate(&word("crane"), &word("nacre"));
    let second = evaluate(&word("crane"), &word("nacre"));
    assert_eq!(first, second);
    assert_eq!(
        first,
        vec![
            Classification::Present,
            Classification::Present,
            Classification::Present,
            Classification::Present,
            Classification::Correct,
        ]
    );
}

#[test]
fn empty_guess_has_no_classes() {
    assert_eq!(evaluate(&word("apple"), &word("")), Vec::<Classification>::new());
}

#[test]
fn contains_letter_finds_and_misses() {
    assert!(contains_letter(&word("apple"), 'l'));
    assert!(!contains_letter(&word("apple"), 'y'));
    assert!(!contains_letter(&word(""), 'a'));
}

#[test]
fn new_keyboard_has_seen_nothing() {
    let keys = Keyboard::new();
    for c in "abcdefghijklmnopqrstuvwxyz".chars() {
        assert_eq!(keys.status(c), KeyStatus::Unseen);
    }
}

#[test]
fn keyboard_takes_the_classes_of_a_guess() {
    let mut keys = Keyboard::new();
    let guess = word("apply");
    let classes = evaluate(&word("maple"), &guess);
    keys.update(&guess, &classes);
    assert_eq!(keys.status('a'), KeyStatus::Present);
    assert_eq!(keys.status('p'), KeyStatus::Correct);
    assert_eq!(keys.status('l'), KeyStatus::Correct);
    assert_eq!(keys.status('y'), KeyStatus::Absent);
    assert_eq!(keys.status('m'), KeyStatus::Unseen);
}

#[test]
fn higher_class_wins_within_one_guess() {
    let mut keys = Keyboard::new();
    let guess = word("ppxxx");
    let classes = evaluate(&word("apple"), &guess);
    assert_eq!(classes[0], Classification::Present);
    assert_eq!(classes[1], Classification::Correct);
    keys.update(&guess, &classes);
    assert_eq!(keys.status('p'), KeyStatus::Correct);
    assert_eq!(keys.status('x'), KeyStatus::Absent);
}

#[test]
fn correct_key_never_falls_back() {
    let target = word("apple");
    let mut keys = Keyboard::new();
    let first = word("axxxx");
    keys.update(&first, &evaluate(&target, &first));
    assert_eq!(keys.status('a'), KeyStatus::Correct);
    let second = word("xaxxx");
    let classes = evaluate(&target, &second);
    assert_eq!(classes[1], Classification::Present);
    keys.update(&second, &classes);
    assert_eq!(keys.status('a'), KeyStatus::Correct);
}

#[test]
fn present_key_rises_to_correct() {
    let target = word("apple");
    let mut keys = Keyboard::new();
    let first = word("xxxxa");
    keys.update(&first, &evaluate(&target, &first));
    assert_eq!(keys.status('a'), KeyStatus::Present);
    let second = word("axxxx");
    keys.update(&second, &evaluate(&target, &second));
    assert_eq!(keys.status('a'), KeyStatus::Correct);
}

#[test]
fn keyboard_update_counts_common_positions_only() {
    let mut keys = Keyboard::new();
    keys.update(&word("ab"), &vec![Classification::Absent]);
    assert_eq!(keys.status('a'), KeyStatus::Absent);
    assert_eq!(keys.status('b'), KeyStatus::Unseen);
}
