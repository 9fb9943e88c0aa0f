//! What is known about each letter after all the guesses so far.

use vstd::prelude::*;
use crate::letters::Classification;

verus! {

/// The best that is known about one letter.
#[derive(Clone, Copy, Debug, PartialEq, Eq, Structural)]
pub enum KeyStatus {
    /// The letter was never guessed.
    Unseen,
    /// The letter was guessed and the hidden word lacks it.
    Absent,
    /// The letter was guessed and the hidden word has it elsewhere.
    Present,
    /// The letter was guessed at a position where the hidden word has it.
    Correct,
}

impl KeyStatus {
    /// The precedence of a status: `Correct` over `Present` over `Absent`
    /// over `Unseen`.
    pub open spec fn rank(self) -> int {
        match self {
            KeyStatus::Unseen => 0,
            KeyStatus::Absent => 1,
            KeyStatus::Present => 2,
            KeyStatus::Correct => 3,
        }
    }
}

/// Whether `letters` holds `c` at a position that `classes` marks as `class`.
pub open spec fn seen_as(
    letters: Seq<char>,
    classes: Seq<Classification>,
    c: char,
    class: Classification,
) -> bool {
    exists|i: int|
        0 <= i < letters.len() && i < classes.len() && letters[i] == c && #[trigger] classes[i]
            == class
}

/// The status of `c` after a classified guess is merged into `prev`, letter
/// by letter: the highest in rank of `prev` and of every classification that
/// the guess gives to `c`.
pub open spec fn merged_status(
    prev: KeyStatus,
    letters: Seq<char>,
    classes: Seq<Classification>,
    c: char,
) -> KeyStatus {
    if prev == KeyStatus::Correct || seen_as(letters, classes, c, Classification::Correct) {
        KeyStatus::Correct
    } else if prev == KeyStatus::Present || seen_as(letters, classes, c, Classification::Present) {
        KeyStatus::Present
    } else if prev == KeyStatus::Absent || seen_as(letters, classes, c, Classification::Absent) {
        KeyStatus::Absent
    } else {
        KeyStatus::Unseen
    }
}

/// The statuses of all letters. It only ever learns: no letter's status
/// falls in rank.
pub struct Keyboard {
    green: Vec<char>,
    yellow: Vec<char>,
    gray: Vec<char>,
}

impl View for Keyboard {
    type V = Map<char, KeyStatus>;

    /// The status of every letter.
    closed spec fn view(&self) -> Map<char, KeyStatus> {
        Map::total(|c: char| Self::status_in(self.green@, self.yellow@, self.gray@, c))
    }
}

impl Keyboard {
    spec fn status_in(green: Seq<char>, yellow: Seq<char>, gray: Seq<char>, c: char) -> KeyStatus {
        if green.contains(c) {
            KeyStatus::Correct
        } else if yellow.contains(c) {
            KeyStatus::Present
        } else if gray.contains(c) {
            KeyStatus::Absent
        } else {
            KeyStatus::Unseen
        }
    }

    /// Every key has a status.
    pub broadcast proof fn every_key_has_a_status(&self, c: char)
        ensures
            #[trigger] self@.dom().contains(c),
    {
    }

    /// A keyboard on which no letter was seen.
    pub fn new() -> (keys: Keyboard)
        ensures
            forall|c: char| #[trigger] keys@[c] == KeyStatus::Unseen,
            keys@ == Map::total(|c: char| KeyStatus::Unseen),
    {
        let keys = Keyboard { green: Vec::new(), yellow: Vec::new(), gray: Vec::new() };
        assert(keys@ =~= Map::total(|c: char| KeyStatus::Unseen));
        keys
    }

    /// The status of the letter `c`.
    pub fn status(&self, c: char) -> (status: KeyStatus)
        ensures
            status == self@[c],
    {
        if crate::letters::contains_letter(&self.green, c) {
            KeyStatus::Correct
        } else if crate::letters::contains_letter(&self.yellow, c) {
            KeyStatus::Present
        } else if crate::letters::contains_letter(&self.gray, c) {
            KeyStatus::Absent
        } else {
            KeyStatus::Unseen
        }
    }

    /// Merges a classified guess into the statuses, letter by letter. Where
    /// the two sequences differ in length, the positions that both have count.
    pub fn update(&mut self, letters: &Vec<char>, classes: &Vec<Classification>)
        ensures
            final(self)@ == Map::total(
                |c: char| merged_status(old(self)@[c], letters@, classes@, c),
            ),
            forall|c: char| #[trigger] final(self)@[c].rank() >= old(self)@[c].rank(),
            forall|c: char|
                old(self)@[c] == KeyStatus::Correct ==> #[trigger] final(self)@[c]
                    == KeyStatus::Correct,
    {
        let mut i: usize = 0;
        while i < letters.len() && i < classes.len()
            invariant
                i <= letters.len(),
                i <= classes.len(),
                forall|c: char|
                    self.green@.contains(c) <==> old(self).green@.contains(c) || seen_as(
                        letters@.take(i as int),
                        classes@,
                        c,
                        Classification::Correct,
                    ),
                forall|c: char|
                    self.yellow@.contains(c) <==> old(self).yellow@.contains(c) || seen_as(
                        letters@.take(i as int),
                        classes@,
                        c,
                        Classification::Present,
                    ),
                forall|c: char|
                    self.gray@.contains(c) <==> old(self).gray@.contains(c) || seen_as(
                        letters@.take(i as int),
                        classes@,
                        c,
                        Classification::Absent,
                    ),
            decreases letters.len() - i,
        {
            let letter = letters[i];
            let ghost before = *self;
            match classes[i] {
                Classification::Correct => self.green.push(letter),
                Classification::Present => self.yellow.push(letter),
                Classification::Absent => self.gray.push(letter),
            }
            proof {
                lemma_seen_step(letters@, classes@, i as int);
                lemma_push_contains(before.green@, letter);
                lemma_push_contains(before.yellow@, letter);
                lemma_push_contains(before.gray@, letter);
            }
            i += 1;
        }
        proof {
            lemma_seen_all(letters@, classes@, i as int);
            assert(self@ =~= Map::total(
                |c: char| merged_status(old(self)@[c], letters@, classes@, c),
            ));
        }
    }
}

proof fn lemma_push_contains(s: Seq<char>, x: char)
    ensures
        forall|c: char| #[trigger] s.push(x).contains(c) <==> s.contains(c) || c == x,
{
    assert forall|c: char| #[trigger] s.push(x).contains(c) <==> s.contains(c) || c == x by {
        if s.contains(c) {
            let j = choose|j: int| 0 <= j < s.len() && s[j] == c;
            assert(s.push(x)[j] == c);
        }
        if c == x {
            assert(s.push(x)[s.len() as int] == c);
        }
    }
}

proof fn lemma_seen_step(letters: Seq<char>, classes: Seq<Classification>, i: int)
    requires
        0 <= i < letters.len(),
        i < classes.len(),
    ensures
        forall|c: char, class: Classification| #[trigger]
            seen_as(letters.take(i + 1), classes, c, class) <==> seen_as(
                letters.take(i),
                classes,
                c,
                class,
            ) || (letters[i] == c && classes[i] == class),
{
    assert forall|c: char, class: Classification| #[trigger]
        seen_as(letters.take(i + 1), classes, c, class) <==> seen_as(
            letters.take(i),
            classes,
            c,
            class,
        ) || (letters[i] == c && classes[i] == class) by {
        if seen_as(letters.take(i + 1), classes, c, class) {
            let j = choose|j: int|
                0 <= j < letters.take(i + 1).len() && j < classes.len() && letters.take(i + 1)[j]
                    == c && #[trigger] classes[j] == class;
            if j < i {
                assert(letters.take(i)[j] == c && classes[j] == class);
            }
        }
        if seen_as(letters.take(i), classes, c, class) {
            let j = choose|j: int|
                0 <= j < letters.take(i).len() && j < classes.len() && letters.take(i)[j] == c
                    && #[trigger] classes[j] == class;
            assert(letters.take(i + 1)[j] == c && classes[j] == class);
        }
        if letters[i] == c && classes[i] == class {
            assert(letters.take(i + 1)[i] == c && classes[i] == class);
        }
    }
}

proof fn lemma_seen_all(letters: Seq<char>, classes: Seq<Classification>, i: int)
    requires
        0 <= i <= letters.len(),
        i <= classes.len(),
        i == letters.len() || i == classes.len(),
    ensures
        forall|c: char, class: Classification| #[trigger]
            seen_as(letters.take(i), classes, c, class) <==> seen_as(letters, classes, c, class),
{
    assert forall|c: char, class: Classification| #[trigger]
        seen_as(letters.take(i), classes, c, class) <==> seen_as(letters, classes, c, class) by {
        if seen_as(letters.take(i), classes, c, class) {
            let j = choose|j: int|
                0 <= j < letters.take(i).len() && j < classes.len() && letters.take(i)[j] == c
                    && #[trigger] classes[j] == class;
            assert(letters[j] == c && classes[j] == class);
        }
        if seen_as(letters, classes, c, class) {
            let j = choose|j: int|
                0 <= j < letters.len() && j < classes.len() && letters[j] == c
                    && #[trigger] classes[j] == class;
            assert(j < i);
            assert(letters.take(i)[j] == c && classes[j] == class);
        }
    }
}

} // verus!
