//! The session: the hidden word, the row being typed, the guesses made, the
//! keyboard, and the three messages that move it on.

use vstd::prelude::*;
use crate::keyboard::{merged_status, seen_as, KeyStatus};
use crate::letters::{classify, Classification};

verus! {

/// How the hidden word of a session is picked.
#[derive(Clone, Copy, Debug, PartialEq, Eq, Structural)]
pub enum GameType {
    /// The word of the calendar day.
    Daily,
    /// A word picked at random.
    Unlimited,
}

/// What a session is made with.
#[derive(Clone, Copy, Debug, PartialEq, Eq, Structural)]
pub struct Props {
    pub game_type: GameType,
}

/// What the player can do.
#[derive(Clone, Copy, Debug, PartialEq, Eq)]
pub enum Msg {
    /// Type a letter.
    AddLetter(char),
    /// Take the last typed letter back.
    DeleteLetter,
    /// Hand the typed row in as a guess.
    SubmitWord,
}

/// A guess that was handed in, as the session shows it.
#[derive(Debug, PartialEq, Eq)]
pub struct SubmittedGuess {
    /// The number of the attempt, from 1.
    pub number: usize,
    /// The letters of the guess.
    pub letters: Vec<char>,
    /// The classification of each letter.
    pub classes: Vec<Classification>,
}

/// A guess that was handed in.
pub struct GuessRecord {
    pub number: nat,
    pub letters: Seq<char>,
    pub classes: Seq<Classification>,
}

/// All that a session holds.
pub struct SessionState {
    pub game_type: GameType,
    pub wordle: Seq<char>,
    pub solved: bool,
    pub game_started: bool,
    /// When the clock started, in milliseconds; until the first letter is
    /// typed, when the session was made.
    pub time_started: int,
    /// When the word was guessed, in milliseconds; until then, when the
    /// session was made.
    pub time_solved: int,
    /// The row being typed: one slot for each letter of the hidden word.
    pub typed_word: Seq<Option<char>>,
    /// The guesses made, the latest first.
    pub history: Seq<GuessRecord>,
    pub keys: Map<char, KeyStatus>,
}

/// The lower-case form of a letter of the alphabet; any other character
/// stays as it is.
pub open spec fn lowercase(c: char) -> char {
    if 'A' <= c <= 'Z' {
        ((c as u8) + 32) as char
    } else {
        c
    }
}

/// Whether `c` is one of the 26 letters, in either case.
pub open spec fn is_letter(c: char) -> bool {
    'a' <= c <= 'z' || 'A' <= c <= 'Z'
}

/// Whether slot `i` is the leftmost empty slot of `row`.
pub open spec fn is_leftmost_empty(row: Seq<Option<char>>, i: int) -> bool {
    &&& 0 <= i < row.len()
    &&& row[i] is None
    &&& forall|j: int| 0 <= j < i ==> row[j] is Some
}

/// Whether slot `i` is the rightmost filled slot of `row`.
pub open spec fn is_rightmost_filled(row: Seq<Option<char>>, i: int) -> bool {
    &&& 0 <= i < row.len()
    &&& row[i] is Some
    &&& forall|j: int| i < j < row.len() ==> row[j] is None
}

/// Whether every slot of `row` holds a letter.
pub open spec fn is_full(row: Seq<Option<char>>) -> bool {
    forall|j: int| 0 <= j < row.len() ==> row[j] is Some
}

/// Whether no slot of `row` holds a letter.
pub open spec fn is_blank(row: Seq<Option<char>>) -> bool {
    forall|j: int| 0 <= j < row.len() ==> row[j] is None
}

/// A row of `len` empty slots.
pub open spec fn blank_row(len: nat) -> Seq<Option<char>> {
    Seq::new(len, |i: int| None::<char>)
}

/// The letters of a full row.
pub open spec fn letters_of(row: Seq<Option<char>>) -> Seq<char> {
    Seq::new(row.len(), |i: int| row[i].unwrap())
}

/// The row after `c` is typed: its leftmost empty slot holds the lower-case
/// form of `c`; a full row stays as it is.
pub open spec fn after_insert(row: Seq<Option<char>>, c: char) -> Seq<Option<char>> {
    if is_full(row) {
        row
    } else {
        row.update(choose|i: int| is_leftmost_empty(row, i), Some(lowercase(c)))
    }
}

/// The row after a letter is taken back: its rightmost filled slot is empty;
/// a blank row stays as it is.
pub open spec fn after_delete(row: Seq<Option<char>>) -> Seq<Option<char>> {
    if is_blank(row) {
        row
    } else {
        row.update(choose|i: int| is_rightmost_filled(row, i), None)
    }
}

/// A row with an empty slot has a leftmost empty slot.
pub proof fn leftmost_empty_exists(row: Seq<Option<char>>, n: int)
    requires
        0 <= n < row.len(),
        row[n] is None,
    ensures
        exists|i: int| is_leftmost_empty(row, i),
    decreases n,
{
    if forall|j: int| 0 <= j < n ==> row[j] is Some {
        assert(is_leftmost_empty(row, n));
    } else {
        let j = choose|j: int| 0 <= j < n && !(row[j] is Some);
        leftmost_empty_exists(row, j);
    }
}

/// A row with a filled slot has a rightmost filled slot.
pub proof fn rightmost_filled_exists(row: Seq<Option<char>>, n: int)
    requires
        0 <= n < row.len(),
        row[n] is Some,
    ensures
        exists|i: int| is_rightmost_filled(row, i),
    decreases row.len() - n,
{
    if forall|j: int| n < j < row.len() ==> row[j] is None {
        assert(is_rightmost_filled(row, n));
    } else {
        let j = choose|j: int| n < j < row.len() && !(row[j] is None);
        rightmost_filled_exists(row, j);
    }
}

/// Typing and taking back keep the number of slots.
pub proof fn row_keeps_its_length(row: Seq<Option<char>>, c: char)
    ensures
        after_insert(row, c).len() == row.len(),
        after_delete(row).len() == row.len(),
{
    if !is_full(row) {
        let n = choose|n: int| 0 <= n < row.len() && !(row[n] is Some);
        leftmost_empty_exists(row, n);
    }
    if !is_blank(row) {
        let n = choose|n: int| 0 <= n < row.len() && !(row[n] is None);
        rightmost_filled_exists(row, n);
    }
}

/// Typing and taking back keep a row filled from the left.
pub proof fn row_stays_filled_from_left(row: Seq<Option<char>>, c: char)
    requires
        is_filled_from_left(row),
    ensures
        is_filled_from_left(after_insert(row, c)),
        is_filled_from_left(after_delete(row)),
        is_filled_from_left(blank_row(row.len())),
{
    row_keeps_its_length(row, c);
    if !is_full(row) {
        let n = choose|n: int| 0 <= n < row.len() && !(row[n] is Some);
        leftmost_empty_exists(row, n);
        let i = choose|i: int| is_leftmost_empty(row, i);
        let next = after_insert(row, c);
        assert forall|j: int, k: int| 0 <= j < k < next.len() && next[k] is Some implies next[j]
            is Some by {
            if k != i {
                assert(row[k] is Some);
                if j != i {
                    assert(row[j] is Some);
                }
            }
        }
    }
    if !is_blank(row) {
        let n = choose|n: int| 0 <= n < row.len() && !(row[n] is None);
        rightmost_filled_exists(row, n);
        let i = choose|i: int| is_rightmost_filled(row, i);
        let next = after_delete(row);
        assert forall|j: int, k: int| 0 <= j < k < next.len() && next[k] is Some implies next[j]
            is Some by {
            assert(row[k] is Some);
            assert(k < i);
            assert(row[j] is Some);
        }
    }
}

/// The session after the full row is taken as a guess at the time `now`.
pub open spec fn after_submit(s: SessionState, now: int) -> SessionState {
    let letters = letters_of(s.typed_word);
    let classes = classify(s.wordle, letters);
    let won = letters == s.wordle;
    SessionState {
        solved: won,
        time_solved: if won {
            now
        } else {
            s.time_solved
        },
        typed_word: blank_row(s.typed_word.len()),
        history: s.history.insert(
            0,
            GuessRecord { number: s.history.len() + 1, letters, classes },
        ),
        keys: Map::total(|c: char| merged_status(s.keys[c], letters, classes, c)),
        ..s
    }
}

/// The session after `msg` arrives at the time `now`. A solved session takes
/// nothing in; a guess is taken only from a full row.
pub open spec fn step(s: SessionState, msg: Msg, now: int) -> SessionState {
    if s.solved {
        s
    } else {
        match msg {
            Msg::AddLetter(c) => SessionState {
                game_started: true,
                time_started: if s.game_started {
                    s.time_started
                } else {
                    now
                },
                typed_word: after_insert(s.typed_word, c),
                ..s
            },
            Msg::DeleteLetter => SessionState { typed_word: after_delete(s.typed_word), ..s },
            Msg::SubmitWord => if is_full(s.typed_word) {
                after_submit(s, now)
            } else {
                s
            },
        }
    }
}

/// Whether `msg` is taken in: a letter where a slot is empty, a deletion
/// where a slot is filled, a guess where the row is full; nothing once the
/// word is guessed.
pub open spec fn accepts(s: SessionState, msg: Msg) -> bool {
    !s.solved && match msg {
        Msg::AddLetter(_) => !is_full(s.typed_word),
        Msg::DeleteLetter => !is_blank(s.typed_word),
        Msg::SubmitWord => is_full(s.typed_word),
    }
}

/// Whether some guess of `history` holds `c` at a position that it marks as
/// `class`.
pub open spec fn seen_in_history(
    history: Seq<GuessRecord>,
    c: char,
    class: Classification,
) -> bool {
    exists|i: int|
        0 <= i < history.len() && seen_as(
            (#[trigger] history[i]).letters,
            history[i].classes,
            c,
            class,
        )
}

/// The status of `c` that follows from the guesses made: the highest in
/// rank of the classifications that any of them gives to `c`.
pub open spec fn derived_status(history: Seq<GuessRecord>, c: char) -> KeyStatus {
    if seen_in_history(history, c, Classification::Correct) {
        KeyStatus::Correct
    } else if seen_in_history(history, c, Classification::Present) {
        KeyStatus::Present
    } else if seen_in_history(history, c, Classification::Absent) {
        KeyStatus::Absent
    } else {
        KeyStatus::Unseen
    }
}

/// Whether the filled slots of `row` stand before its empty ones.
pub open spec fn is_filled_from_left(row: Seq<Option<char>>) -> bool {
    forall|j: int, k: int| 0 <= j < k < row.len() && row[k] is Some ==> row[j] is Some
}

/// A fresh session for the word `wordle`, made at the time `now`.
pub open spec fn fresh(game_type: GameType, wordle: Seq<char>, now: int) -> SessionState {
    SessionState {
        game_type,
        wordle,
        solved: false,
        game_started: false,
        time_started: now,
        time_solved: now,
        typed_word: blank_row(wordle.len()),
        history: Seq::empty(),
        keys: Map::total(|c: char| KeyStatus::Unseen),
    }
}

impl SessionState {
    /// What holds of every session: the row has a slot for each letter of the
    /// word, and is filled from the left; the guesses are numbered from 1 in
    /// the order they were made, the latest first; each is as long as the
    /// word and classified against it; the status of every letter is what
    /// follows from the guesses; a solved session's latest guess is the word.
    pub open spec fn well_formed(self) -> bool {
        &&& self.typed_word.len() == self.wordle.len()
        &&& is_filled_from_left(self.typed_word)
        &&& !self.game_started ==> is_blank(self.typed_word)
        &&& forall|c: char| #[trigger] self.keys[c] == derived_status(self.history, c)
        &&& forall|i: int|
            0 <= i < self.history.len() ==> {
                &&& (#[trigger] self.history[i]).number == self.history.len() - i
                &&& self.history[i].letters.len() == self.wordle.len()
                &&& self.history[i].classes == classify(self.wordle, self.history[i].letters)
            }
        &&& self.solved ==> self.history.len() > 0 && self.history[0].letters == self.wordle
    }

    /// The time from the start of the clock to the guess that solved the
    /// game, in milliseconds.
    pub open spec fn elapsed(self) -> int {
        self.time_solved - self.time_started
    }
}

/// The session after the messages of `events` arrive in their order, each
/// with its time.
pub open spec fn run(s: SessionState, events: Seq<(Msg, int)>) -> SessionState
    decreases events.len(),
{
    if events.len() == 0 {
        s
    } else {
        step(run(s, events.drop_last()), events.last().0, events.last().1)
    }
}

/// Once the word is guessed, no message changes anything.
pub proof fn solved_is_final(s: SessionState, msg: Msg, now: int)
    requires
        s.solved,
    ensures
        step(s, msg, now) == s,
        !accepts(s, msg),
{
}

/// Once the word is guessed, no run of messages changes anything.
pub proof fn solved_stays_solved(s: SessionState, events: Seq<(Msg, int)>)
    requires
        s.solved,
    ensures
        run(s, events) == s,
    decreases events.len(),
{
    if events.len() > 0 {
        solved_stays_solved(s, events.drop_last());
    }
}

/// A guess from a row with an empty slot changes nothing: no guess is added
/// and the row stays.
pub proof fn incomplete_submit_is_ignored(s: SessionState, now: int)
    requires
        !is_full(s.typed_word),
    ensures
        step(s, Msg::SubmitWord, now) == s,
        step(s, Msg::SubmitWord, now).history.len() == s.history.len(),
        !accepts(s, Msg::SubmitWord),
{
}

/// No message lowers the rank of a letter's status, and a letter that is
/// `Correct` stays so.
pub proof fn step_never_lowers_a_key(s: SessionState, msg: Msg, now: int, c: char)
    ensures
        step(s, msg, now).keys[c].rank() >= s.keys[c].rank(),
        s.keys[c] == KeyStatus::Correct ==> step(s, msg, now).keys[c] == KeyStatus::Correct,
{
}

/// Through a whole session, whatever the messages, the rank of a letter's
/// status never falls, and a letter that is `Correct` stays so.
pub proof fn keys_never_fall(s: SessionState, events: Seq<(Msg, int)>, c: char)
    ensures
        run(s, events).keys[c].rank() >= s.keys[c].rank(),
        s.keys[c] == KeyStatus::Correct ==> run(s, events).keys[c] == KeyStatus::Correct,
    decreases events.len(),
{
    if events.len() > 0 {
        keys_never_fall(s, events.drop_last(), c);
        step_never_lowers_a_key(
            run(s, events.drop_last()),
            events.last().0,
            events.last().1,
            c,
        );
    }
}

/// The hidden word and the way it was picked never change, and the guesses
/// made are never changed or dropped: a message leaves the history as it is
/// or puts one guess in front of it.
pub proof fn step_keeps_word_and_history(s: SessionState, msg: Msg, now: int)
    ensures
        step(s, msg, now).wordle == s.wordle,
        step(s, msg, now).game_type == s.game_type,
        step(s, msg, now).history == s.history || (step(s, msg, now).history.len()
            == s.history.len() + 1 && step(s, msg, now).history.skip(1) == s.history),
{
    let t = step(s, msg, now);
    if t.history != s.history {
        assert(t.history.skip(1) =~= s.history);
    }
}

/// A guess put in front of the history shows what it shows itself and what
/// the history showed before.
pub proof fn seen_after_insert(
    history: Seq<GuessRecord>,
    guess: GuessRecord,
    c: char,
    class: Classification,
)
    ensures
        seen_in_history(history.insert(0, guess), c, class) <==> seen_as(
            guess.letters,
            guess.classes,
            c,
            class,
        ) || seen_in_history(history, c, class),
{
    let longer = history.insert(0, guess);
    if seen_in_history(longer, c, class) {
        let i = choose|i: int|
            0 <= i < longer.len() && seen_as(
                (#[trigger] longer[i]).letters,
                longer[i].classes,
                c,
                class,
            );
        if i > 0 {
            assert(longer[i] == history[i - 1]);
        }
    }
    if seen_as(guess.letters, guess.classes, c, class) {
        assert(longer[0] == guess);
    }
    if seen_in_history(history, c, class) {
        let i = choose|i: int|
            0 <= i < history.len() && seen_as(
                (#[trigger] history[i]).letters,
                history[i].classes,
                c,
                class,
            );
        assert(longer[i + 1] == history[i]);
    }
}

/// Through a whole session the hidden word stays, and the guesses made are
/// never changed, dropped or put in another order: what was the history is
/// the end of what it has become.
pub proof fn run_keeps_word_and_history(s: SessionState, events: Seq<(Msg, int)>)
    ensures
        run(s, events).wordle == s.wordle,
        run(s, events).game_type == s.game_type,
        run(s, events).history.len() >= s.history.len(),
        run(s, events).history.skip(run(s, events).history.len() - s.history.len())
            == s.history,
    decreases events.len(),
{
    if events.len() == 0 {
        assert(s.history.skip(0) =~= s.history);
    } else {
        let before = run(s, events.drop_last());
        let after = run(s, events);
        run_keeps_word_and_history(s, events.drop_last());
        step_keeps_word_and_history(before, events.last().0, events.last().1);
        let kept = before.history.len() - s.history.len();
        if after.history != before.history {
            assert(after.history.skip(1).skip(kept) =~= after.history.skip(1 + kept));
        }
    }
}

/// The numbers of the guesses run from 1 up, the latest guess has the
/// highest, and no two guesses share one.
pub proof fn attempt_numbers_are_distinct(s: SessionState, i: int, j: int)
    requires
        s.well_formed(),
        0 <= i < j < s.history.len(),
    ensures
        s.history[i].number > s.history[j].number,
        1 <= s.history[j].number,
        s.history[i].number <= s.history.len(),
        s.history[0].number == s.history.len(),
{
}

/// Every message keeps a session well formed.
pub proof fn step_keeps_well_formed(s: SessionState, msg: Msg, now: int)
    requires
        s.well_formed(),
    ensures
        step(s, msg, now).well_formed(),
{
    let t = step(s, msg, now);
    if !s.solved {
        match msg {
            Msg::AddLetter(c) => {
                row_keeps_its_length(s.typed_word, c);
                row_stays_filled_from_left(s.typed_word, c);
            },
            Msg::DeleteLetter => {
                row_keeps_its_length(s.typed_word, 'a');
                row_stays_filled_from_left(s.typed_word, 'a');
            },
            Msg::SubmitWord => {
                if is_full(s.typed_word) {
                    let guess = t.history[0];
                    assert forall|c: char| #[trigger]
                        t.keys[c] == derived_status(t.history, c) by {
                        seen_after_insert(s.history, guess, c, Classification::Correct);
                        seen_after_insert(s.history, guess, c, Classification::Present);
                        seen_after_insert(s.history, guess, c, Classification::Absent);
                    }
                    assert forall|i: int| 0 <= i < t.history.len() implies {
                        &&& (#[trigger] t.history[i]).number == t.history.len() - i
                        &&& t.history[i].letters.len() == t.wordle.len()
                        &&& t.history[i].classes == classify(t.wordle, t.history[i].letters)
                    } by {
                        if i > 0 {
                            assert(t.history[i] == s.history[i - 1]);
                        }
                    }
                }
            },
        }
    }
}

/// A message that is not taken in changes nothing. (With an empty hidden
/// word the row is full before anything is typed, and a letter then still
/// starts the clock.)
pub proof fn ignored_message_changes_nothing(s: SessionState, msg: Msg, now: int)
    requires
        s.well_formed(),
        s.wordle.len() > 0,
        !accepts(s, msg),
    ensures
        step(s, msg, now) == s,
{
    if !s.solved {
        match msg {
            Msg::AddLetter(c) => {
                assert(s.typed_word[0] is Some);
            },
            Msg::DeleteLetter => {},
            Msg::SubmitWord => {},
        }
    }
}

/// A message that is taken in changes the row or adds a guess.
pub proof fn accepted_message_changes_something(s: SessionState, msg: Msg, now: int)
    requires
        accepts(s, msg),
    ensures
        step(s, msg, now).typed_word != s.typed_word || step(s, msg, now).history.len()
            == s.history.len() + 1,
        msg == Msg::SubmitWord <==> step(s, msg, now).history.len() == s.history.len() + 1,
{
    let row = s.typed_word;
    match msg {
        Msg::AddLetter(c) => {
            let n = choose|n: int| 0 <= n < row.len() && !(row[n] is Some);
            leftmost_empty_exists(row, n);
            let i = choose|i: int| is_leftmost_empty(row, i);
            assert(after_insert(row, c)[i] is Some);
        },
        Msg::DeleteLetter => {
            let n = choose|n: int| 0 <= n < row.len() && !(row[n] is None);
            rightmost_filled_exists(row, n);
            let i = choose|i: int| is_rightmost_filled(row, i);
            assert(after_delete(row)[i] is None);
        },
        Msg::SubmitWord => {},
    }
}

/// A fresh session is well formed.
pub proof fn fresh_is_well_formed(game_type: GameType, wordle: Seq<char>, now: int)
    ensures
        fresh(game_type, wordle, now).well_formed(),
{
}

/// Every run of messages keeps a session well formed.
pub proof fn run_keeps_well_formed(s: SessionState, events: Seq<(Msg, int)>)
    requires
        s.well_formed(),
    ensures
        run(s, events).well_formed(),
    decreases events.len(),
{
    if events.len() > 0 {
        run_keeps_well_formed(s, events.drop_last());
        step_keeps_well_formed(run(s, events.drop_last()), events.last().0, events.last().1);
    }
}

/// A guess that is the word solves the game, and every letter of it is
/// `Correct`.
pub proof fn right_guess_solves(s: SessionState, now: int)
    requires
        !s.solved,
        is_full(s.typed_word),
        letters_of(s.typed_word) == s.wordle,
    ensures
        step(s, Msg::SubmitWord, now).solved,
        step(s, Msg::SubmitWord, now).time_solved == now,
        forall|i: int|
            0 <= i < s.wordle.len() ==> #[trigger] step(s, Msg::SubmitWord, now).history[0].classes[i]
                == Classification::Correct,
{
}

} // verus!
