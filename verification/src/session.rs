//! The session as it is held and driven.

use vstd::prelude::*;
use crate::game::{
    accepts, blank_row, fresh, is_blank, is_full, is_leftmost_empty, is_rightmost_filled,
    letters_of, step, step_keeps_well_formed, GameType, GuessRecord, Msg, Props, SessionState,
    SubmittedGuess,
};
use crate::input::to_lowercase;
use crate::keyboard::{KeyStatus, Keyboard};
use crate::letters::{contains_letter, evaluate, Classification};
use crate::pick_word::{
    civil_day_number, copy_word, daily_word, gen, unlimited, WordList, EPOCH_DAY, EPOCH_MONTH,
    EPOCH_YEAR,
};
use crate::timing::{humanized, now_millis, rating, span_score, span_text};

verus! {

struct Row {
    letters: Vec<char>,
    classes: Vec<Classification>,
}

/// One game: a hidden word, the row being typed, the guesses made so far and
/// what they have shown of each letter.
pub struct Twordle {
    game_type: GameType,
    wordle: Vec<char>,
    solved: bool,
    game_started: bool,
    time_started: i64,
    time_solved: i64,
    typed_word: Vec<Option<char>>,
    typed_words: Vec<Row>,
    keys: Keyboard,
}

impl View for Twordle {
    type V = SessionState;

    closed spec fn view(&self) -> SessionState {
        SessionState {
            game_type: self.game_type,
            wordle: self.wordle@,
            solved: self.solved,
            game_started: self.game_started,
            time_started: self.time_started as int,
            time_solved: self.time_solved as int,
            typed_word: self.typed_word@,
            history: Seq::new(
                self.typed_words.len() as nat,
                |i: int|
                    GuessRecord {
                        number: (self.typed_words.len() - i) as nat,
                        letters: self.typed_words[i].letters@,
                        classes: self.typed_words[i].classes@,
                    },
            ),
            keys: self.keys@,
        }
    }
}

/// The title of a game of the given kind.
pub open spec fn title_of(game_type: GameType) -> Seq<char> {
    match game_type {
        GameType::Daily => "Twordle"@,
        GameType::Unlimited => "Twordle Unlimited"@,
    }
}

/// The colour of a letter with the given classification.
pub open spec fn class_colour(class: Classification) -> Seq<char> {
    match class {
        Classification::Correct => "bg-green-700"@,
        Classification::Present => "bg-yellow-700"@,
        Classification::Absent => "bg-gray-700"@,
    }
}

/// The colour of a key with the given status.
pub open spec fn status_colour(status: KeyStatus) -> Seq<char> {
    match status {
        KeyStatus::Correct => "bg-green-700"@,
        KeyStatus::Present => "bg-yellow-700"@,
        KeyStatus::Absent => "bg-gray-700"@,
        KeyStatus::Unseen => "bg-neutral-800"@,
    }
}

/// The leftmost empty slot of `row`, if it has one.
pub fn find_empty_index(row: &Vec<Option<char>>) -> (found: Option<usize>)
    ensures
        match found {
            Some(i) => is_leftmost_empty(row@, i as int),
            None => is_full(row@),
        },
{
    let mut i: usize = 0;
    while i < row.len()
        invariant
            i <= row.len(),
            forall|j: int| 0 <= j < i ==> row@[j] is Some,
        decreases row.len() - i,
    {
        if row[i].is_none() {
            return Some(i);
        }
        i += 1;
    }
    None
}

/// The rightmost filled slot of `row`, if it has one.
pub fn find_filled_index(row: &Vec<Option<char>>) -> (found: Option<usize>)
    ensures
        match found {
            Some(i) => is_rightmost_filled(row@, i as int),
            None => is_blank(row@),
        },
{
    let mut i: usize = row.len();
    while i > 0
        invariant
            i <= row.len(),
            forall|j: int| i <= j < row.len() ==> row@[j] is None,
        decreases i,
    {
        i -= 1;
        if row[i].is_some() {
            return Some(i);
        }
    }
    None
}

/// The letters of `row`, if every slot holds one.
pub fn full_row_letters(row: &Vec<Option<char>>) -> (letters: Option<Vec<char>>)
    ensures
        letters is Some <==> is_full(row@),
        letters is Some ==> letters.unwrap()@ == letters_of(row@),
{
    let mut letters: Vec<char> = Vec::new();
    let mut i: usize = 0;
    while i < row.len()
        invariant
            i <= row.len(),
            letters.len() == i,
            forall|j: int| 0 <= j < i ==> #[trigger] row@[j] == Some(letters@[j]),
        decreases row.len() - i,
    {
        match row[i] {
            Some(c) => letters.push(c),
            None => {
                return None;
            },
        }
        i += 1;
    }
    assert(letters@ =~= letters_of(row@));
    Some(letters)
}

/// A row of `len` empty slots.
pub fn blank(len: usize) -> (row: Vec<Option<char>>)
    ensures
        row@ == blank_row(len as nat),
{
    let mut row: Vec<Option<char>> = Vec::new();
    let mut i: usize = 0;
    while i < len
        invariant
            i <= len,
            row.len() == i,
            forall|j: int| 0 <= j < i ==> row@[j] is None,
        decreases len - i,
    {
        row.push(None);
        i += 1;
    }
    assert(row@ =~= blank_row(len as nat));
    row
}

/// Whether two words hold the same letters.
pub fn same_letters(a: &Vec<char>, b: &Vec<char>) -> (same: bool)
    ensures
        same == (a@ == b@),
{
    if a.len() != b.len() {
        return false;
    }
    let mut i: usize = 0;
    while i < a.len()
        invariant
            i <= a.len(),
            a.len() == b.len(),
            forall|j: int| 0 <= j < i ==> a@[j] == b@[j],
        decreases a.len() - i,
    {
        if a[i] != b[i] {
            return false;
        }
        i += 1;
    }
    assert(a@ =~= b@);
    true
}

impl Twordle {
    /// Whether the session is one that its own messages can have led to.
    pub open spec fn wf(&self) -> bool {
        self@.well_formed()
    }

    /// A fresh session for the word `wordle`, made at the time `now`, in
    /// milliseconds.
    pub fn with_word(game_type: GameType, wordle: Vec<char>, now: i64) -> (session: Twordle)
        ensures
            session@ == fresh(game_type, wordle@, now as int),
            session.wf(),
    {
        let typed_word = blank(wordle.len());
        let session = Twordle {
            game_type,
            wordle,
            solved: false,
            game_started: false,
            time_started: now,
            time_solved: now,
            typed_word,
            typed_words: Vec::new(),
            keys: Keyboard::new(),
        };
        assert(session@.history =~= Seq::<GuessRecord>::empty());
        session
    }

    /// A fresh session made now: with the word of the day for a daily game,
    /// with a word picked at random for an unlimited one.
    pub fn create(props: &Props, list: &WordList) -> (session: Twordle)
        ensures
            session.wf(),
            exists|now: int, word: Seq<char>|
                list@.contains(word) && session@ == #[trigger] fresh(props.game_type, word, now),
            props.game_type == GameType::Daily ==> exists|today: i32|
                session@.wordle == daily_word(
                    list@,
                    civil_day_number(EPOCH_YEAR as int, EPOCH_MONTH as int, EPOCH_DAY as int),
                    today as int,
                ),
    {
        let wordle = match props.game_type {
            GameType::Daily => gen(list),
            GameType::Unlimited => unlimited(list),
        };
        let now = now_millis();
        let ghost word = wordle@;
        let session = Twordle::with_word(props.game_type, wordle, now);
        assert(session@ == fresh(props.game_type, word, now as int));
        session
    }

    /// Takes `msg` in at the time `now`, in milliseconds, and says whether it
    /// changed the row or the guesses.
    pub fn update_at(&mut self, msg: Msg, now: i64) -> (changed: bool)
        requires
            old(self).wf(),
        ensures
            final(self)@ == step(old(self)@, msg, now as int),
            final(self).wf(),
            changed == accepts(old(self)@, msg),
            old(self)@.solved ==> *final(self) == *old(self),
    {
        proof {
            step_keeps_well_formed(self@, msg, now as int);
        }
        if self.solved {
            return false;
        }
        match msg {
            Msg::AddLetter(character) => {
                if !self.game_started {
                    self.time_started = now;
                    self.game_started = true;
                }
                match find_empty_index(&self.typed_word) {
                    Some(i) => {
                        self.typed_word.set(i, Some(to_lowercase(character)));
                        proof {
                            let row = old(self)@.typed_word;
                            let k = choose|k: int| is_leftmost_empty(row, k);
                            assert(is_leftmost_empty(row, i as int));
                            assert(k == i);
                            assert(self@.history =~= old(self)@.history);
                        }
                        true
                    },
                    None => {
                        assert(self@.history =~= old(self)@.history);
                        false
                    },
                }
            },
            Msg::DeleteLetter => {
                match find_filled_index(&self.typed_word) {
                    Some(i) => {
                        self.typed_word.set(i, None);
                        proof {
                            let row = old(self)@.typed_word;
                            let k = choose|k: int| is_rightmost_filled(row, k);
                            assert(is_rightmost_filled(row, i as int));
                            assert(k == i);
                            assert(self@.history =~= old(self)@.history);
                        }
                        true
                    },
                    None => false,
                }
            },
            Msg::SubmitWord => {
                let letters = match full_row_letters(&self.typed_word) {
                    Some(letters) => letters,
                    None => {
                        return false;
                    },
                };
                let classes = evaluate(&self.wordle, &letters);
                self.keys.update(&letters, &classes);
                if same_letters(&letters, &self.wordle) {
                    self.solved = true;
                    self.time_solved = now;
                }
                self.typed_word = blank(self.wordle.len());
                self.typed_words.insert(0, Row { letters, classes });
                proof {
                    let goal = step(old(self)@, msg, now as int);
                    assert(self@.history =~= goal.history);
                    assert(self@.keys =~= goal.keys);
                }
                true
            },
        }
    }

    /// Takes `msg` in at the current time, and says whether it changed the
    /// row or the guesses.
    pub fn update(&mut self, msg: Msg) -> (changed: bool)
        requires
            old(self).wf(),
        ensures
            exists|now: int| final(self)@ == #[trigger] step(old(self)@, msg, now),
            final(self).wf(),
            changed == accepts(old(self)@, msg),
            old(self)@.solved ==> *final(self) == *old(self),
    {
        let now = now_millis();
        let changed = self.update_at(msg, now);
        assert(self@ == step(old(self)@, msg, now as int));
        changed
    }

    /// The title of the game.
    pub fn title(&self) -> (title: &'static str)
        ensures
            title@ == title_of(self@.game_type),
    {
        match self.game_type {
            GameType::Daily => "Twordle",
            GameType::Unlimited => "Twordle Unlimited",
        }
    }

    /// How the hidden word was picked.
    pub fn game_type(&self) -> (game_type: GameType)
        ensures
            game_type == self@.game_type,
    {
        self.game_type
    }

    /// The hidden word.
    pub fn wordle(&self) -> (word: Vec<char>)
        ensures
            word@ == self@.wordle,
    {
        copy_word(&self.wordle)
    }

    /// Whether the word was guessed.
    pub fn is_solved(&self) -> (solved: bool)
        ensures
            solved == self@.solved,
    {
        self.solved
    }

    /// Whether a letter was typed yet, which starts the clock.
    pub fn has_started(&self) -> (started: bool)
        ensures
            started == self@.game_started,
    {
        self.game_started
    }

    /// The row being typed.
    pub fn typed_word(&self) -> (row: Vec<Option<char>>)
        ensures
            row@ == self@.typed_word,
    {
        let mut row: Vec<Option<char>> = Vec::new();
        let mut i: usize = 0;
        while i < self.typed_word.len()
            invariant
                i <= self.typed_word.len(),
                row.len() == i,
                forall|j: int| 0 <= j < i ==> row@[j] == self.typed_word@[j],
            decreases self.typed_word.len() - i,
        {
            row.push(self.typed_word[i]);
            i += 1;
        }
        assert(row@ =~= self.typed_word@);
        row
    }

    /// The number of guesses made.
    pub fn attempts(&self) -> (n: usize)
        ensures
            n == self@.history.len(),
    {
        self.typed_words.len()
    }

    /// The guesses made, the latest first, each with its number.
    pub fn guesses(&self) -> (guesses: Vec<SubmittedGuess>)
        ensures
            guesses.len() == self@.history.len(),
            forall|i: int|
                0 <= i < guesses.len() ==> {
                    &&& (#[trigger] guesses[i]).number == self@.history[i].number
                    &&& guesses[i].letters@ == self@.history[i].letters
                    &&& guesses[i].classes@ == self@.history[i].classes
                },
    {
        let mut guesses: Vec<SubmittedGuess> = Vec::new();
        let n = self.typed_words.len();
        let mut i: usize = 0;
        while i < n
            invariant
                i <= n,
                n == self.typed_words.len(),
                guesses.len() == i,
                forall|j: int|
                    0 <= j < i ==> {
                        &&& (#[trigger] guesses[j]).number == n - j
                        &&& guesses[j].letters@ == self.typed_words[j].letters@
                        &&& guesses[j].classes@ == self.typed_words[j].classes@
                    },
            decreases n - i,
        {
            let row = &self.typed_words[i];
            let mut kept: Vec<Classification> = Vec::new();
            let mut k: usize = 0;
            while k < row.classes.len()
                invariant
                    k <= row.classes.len(),
                    kept.len() == k,
                    forall|j: int| 0 <= j < k ==> kept@[j] == row.classes@[j],
                decreases row.classes.len() - k,
            {
                kept.push(row.classes[k]);
                k += 1;
            }
            assert(kept@ =~= row.classes@);
            guesses.push(
                SubmittedGuess { number: n - i, letters: copy_word(&row.letters), classes: kept },
            );
            i += 1;
        }
        guesses
    }

    /// What is known of the letter `c`.
    pub fn key_status(&self, c: char) -> (status: KeyStatus)
        ensures
            status == self@.keys[c],
    {
        self.keys.status(c)
    }

    /// The classification that `letter` has at position `i` of a guess.
    pub fn letter_status(&self, letter: char, i: usize) -> (class: Classification)
        ensures
            class == (if i < self@.wordle.len() && self@.wordle[i as int] == letter {
                Classification::Correct
            } else if self@.wordle.contains(letter) {
                Classification::Present
            } else {
                Classification::Absent
            }),
    {
        if i < self.wordle.len() && self.wordle[i] == letter {
            Classification::Correct
        } else if contains_letter(&self.wordle, letter) {
            Classification::Present
        } else {
            Classification::Absent
        }
    }

    /// The colour in which `letter` is shown at position `i` of a guess.
    pub fn letter_colour(&self, letter: char, i: usize) -> (colour: &'static str)
        ensures
            colour@ == class_colour(
                if i < self@.wordle.len() && self@.wordle[i as int] == letter {
                    Classification::Correct
                } else if self@.wordle.contains(letter) {
                    Classification::Present
                } else {
                    Classification::Absent
                },
            ),
    {
        match self.letter_status(letter, i) {
            Classification::Correct => "bg-green-700",
            Classification::Present => "bg-yellow-700",
            Classification::Absent => "bg-gray-700",
        }
    }

    /// The colour in which the key of `letter` is shown.
    pub fn key_colour(&self, letter: char) -> (colour: &'static str)
        ensures
            colour@ == status_colour(self@.keys[letter]),
    {
        match self.keys.status(letter) {
            KeyStatus::Correct => "bg-green-700",
            KeyStatus::Present => "bg-yellow-700",
            KeyStatus::Absent => "bg-gray-700",
            KeyStatus::Unseen => "bg-neutral-800",
        }
    }

    /// The wording of the time that the game took, once it is solved.
    pub fn format_time_from_now(&self) -> (text: Option<String>)
        ensures
            text is Some <==> self@.solved,
            text is Some ==> text.unwrap()@ == humanized(self@.elapsed()),
    {
        if self.solved {
            Some(span_text(self.time_solved as i128 - self.time_started as i128))
        } else {
            None
        }
    }

    /// The score of the game, once it is solved.
    pub fn generate_score(&self) -> (points: Option<u32>)
        ensures
            points is Some <==> self@.solved,
            points is Some ==> points.unwrap() == rating(
                self@.elapsed(),
                self@.history.len() as int,
            ),
    {
        if self.solved {
            Some(
                span_score(
                    self.time_solved as i128 - self.time_started as i128,
                    self.typed_words.len(),
                ),
            )
        } else {
            None
        }
    }
}

} // verus!
