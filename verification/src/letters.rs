//! Classification of the letters of one guess against the hidden word.

use vstd::prelude::*;

verus! {

/// What one letter of a guess is known to be, at its position.
#[derive(Clone, Copy, Debug, PartialEq, Eq, Structural)]
pub enum Classification {
    /// The hidden word has this letter at this position.
    Correct,
    /// The hidden word has this letter, at some position.
    Present,
    /// The hidden word does not have this letter.
    Absent,
}

/// The classification of position `i` of `guess`. A letter that sits at its
/// place is `Correct`; any other letter that occurs in `target` is `Present`,
/// however often it was guessed; the rest is `Absent`.
pub open spec fn classify_at(target: Seq<char>, guess: Seq<char>, i: int) -> Classification {
    if i < target.len() && guess[i] == target[i] {
        Classification::Correct
    } else if target.contains(guess[i]) {
        Classification::Present
    } else {
        Classification::Absent
    }
}

/// The classifications of all positions of `guess`.
pub open spec fn classify(target: Seq<char>, guess: Seq<char>) -> Seq<Classification> {
    Seq::new(guess.len(), |i: int| classify_at(target, guess, i))
}

/// Whether `c` occurs in `word`.
pub fn contains_letter(word: &Vec<char>, c: char) -> (found: bool)
    ensures
        found == word@.contains(c),
{
    let mut i: usize = 0;
    while i < word.len()
        invariant
            i <= word.len(),
            forall|j: int| 0 <= j < i ==> word@[j] != c,
        decreases word.len() - i,
    {
        if word[i] == c {
            return true;
        }
        i += 1;
    }
    false
}

/// Classifies every letter of `guess` against `target`.
pub fn evaluate(target: &Vec<char>, guess: &Vec<char>) -> (classes: Vec<Classification>)
    ensures
        classes@ == classify(target@, guess@),
        classes.len() == guess.len(),
        target.len() == guess.len() ==> forall|i: int|
            0 <= i < guess.len() ==> {
                &&& (#[trigger] classes[i] == Classification::Correct <==> guess[i] == target[i])
                &&& (classes[i] == Classification::Present <==> guess[i] != target[i]
                    && target@.contains(guess[i]))
                &&& (classes[i] == Classification::Absent <==> !target@.contains(guess[i]))
            },
{
    let mut classes: Vec<Classification> = Vec::new();
    let mut i: usize = 0;
    while i < guess.len()
        invariant
            i <= guess.len(),
            classes.len() == i,
            forall|j: int| 0 <= j < i ==> classes[j] == classify_at(target@, guess@, j),
        decreases guess.len() - i,
    {
        let letter = guess[i];
        let class = if i < target.len() && letter == target[i] {
            Classification::Correct
        } else if contains_letter(target, letter) {
            Classification::Present
        } else {
            Classification::Absent
        };
        classes.push(class);
        i += 1;
    }
    assert(classes@ =~= classify(target@, guess@));
    classes
}

/// The rule of classification, position by position: `Correct` exactly where
/// the guess has the target's letter; otherwise `Present` exactly where the
/// target holds the guessed letter somewhere; otherwise `Absent`.
pub proof fn classification_rule(target: Seq<char>, guess: Seq<char>, i: int)
    requires
        target.len() == guess.len(),
        0 <= i < guess.len(),
    ensures
        classify(target, guess)[i] == Classification::Correct <==> guess[i] == target[i],
        guess[i] != target[i] ==> (classify(target, guess)[i] == Classification::Present
            <==> target.contains(guess[i])),
        guess[i] != target[i] && !target.contains(guess[i]) ==> classify(target, guess)[i]
            == Classification::Absent,
{
}

/// Classification depends on the two words alone: equal inputs give equal
/// classifications.
pub proof fn classification_is_determined(
    target_a: Seq<char>,
    guess_a: Seq<char>,
    target_b: Seq<char>,
    guess_b: Seq<char>,
)
    requires
        target_a == target_b,
        guess_a == guess_b,
    ensures
        classify(target_a, guess_a) == classify(target_b, guess_b),
{
}

/// A guess that equals the target is classified `Correct` at every position.
pub proof fn exact_guess_is_all_correct(target: Seq<char>, i: int)
    requires
        0 <= i < target.len(),
    ensures
        classify(target, target)[i] == Classification::Correct,
{
}

} // verus!
