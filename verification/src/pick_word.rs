//! The word list and the two ways of picking the hidden word from it: by the
//! calendar day, or at random.

use vstd::prelude::*;
use vstd::std_specs::iter::IteratorSpec;
use chrono::Datelike;
use rand::Rng;

verus! {

/// The year of the day on which the daily words start.
pub const EPOCH_YEAR: i32 = 2023;

/// The month of the day on which the daily words start.
pub const EPOCH_MONTH: u32 = 1;

/// The day of the month on which the daily words start.
pub const EPOCH_DAY: u32 = 1;

/// Why no word list could be made.
#[derive(Clone, Copy, Debug, PartialEq, Eq, Structural)]
pub enum WordListError {
    /// The list holds no word.
    EmptyWordList,
}

/// The words to pick from, in their order. A list is never empty.
pub struct WordList {
    words: Vec<Vec<char>>,
}

/// The words of `words`, each by its letters.
pub open spec fn word_views(words: Seq<Vec<char>>) -> Seq<Seq<char>> {
    Seq::new(words.len(), |i: int| words[i]@)
}

impl View for WordList {
    type V = Seq<Seq<char>>;

    closed spec fn view(&self) -> Seq<Seq<char>> {
        word_views(self.words@)
    }
}

/// The number that chrono gives to the calendar day `year`-`month`-`day`,
/// counted in days from the first of January of the year 1, or to its default
/// day where the three numbers name no day.
pub uninterp spec fn civil_day_number(year: int, month: int, day: int) -> int;

/// How many days `today` lies after `epoch`; 0 on the day of the epoch and on
/// every day before it.
pub open spec fn day_index(epoch: int, today: int) -> nat {
    if today > epoch {
        (today - epoch) as nat
    } else {
        0
    }
}

/// The word of the day `today`: the list is walked one word a day from the
/// epoch on, and starts over at its end.
pub open spec fn daily_word(list: Seq<Seq<char>>, epoch: int, today: int) -> Seq<char>
    recommends
        list.len() > 0,
{
    list[(day_index(epoch, today) % list.len()) as int]
}

/// `NaiveDate::from_ymd_opt`, with `unwrap_or_default` for a triple that names
/// no day, and then `Datelike::num_days_from_ce`: the day number of a calendar
/// day. The result depends on the three numbers alone and is known by its
/// name only.
#[verifier::external_body]
fn day_number_of(year: i32, month: u32, day: u32) -> (number: i32)
    ensures
        number == civil_day_number(year as int, month as int, day as int),
{
    chrono::NaiveDate::from_ymd_opt(year, month, day).unwrap_or_default().num_days_from_ce()
}

/// `Local::now`, then `date_naive` and `Datelike::num_days_from_ce`: the day
/// number of the current day on the local calendar. Nothing is claimed of it.
/// (chrono stops the program where the system clock stands before 1970.)
#[verifier::external_body]
fn local_day_number() -> (number: i32) {
    chrono::Local::now().date_naive().num_days_from_ce()
}

/// `Rng::gen_range` on `rand::thread_rng()` with the range from 0 up to and
/// without `bound`: some index below `bound`. The call panics on an empty
/// range, so `bound` is positive.
#[verifier::external_body]
fn random_below(bound: usize) -> (index: usize)
    requires
        bound > 0,
    ensures
        index < bound,
{
    rand::thread_rng().gen_range(0..bound)
}

/// A copy of `word`.
pub fn copy_word(word: &Vec<char>) -> (copy: Vec<char>)
    ensures
        copy@ == word@,
{
    let mut copy: Vec<char> = Vec::new();
    let mut i: usize = 0;
    while i < word.len()
        invariant
            i <= word.len(),
            copy@ == word@.take(i as int),
        decreases word.len() - i,
    {
        copy.push(word[i]);
        assert(word@.take(i + 1) == word@.take(i as int).push(word@[i as int]));
        i += 1;
    }
    assert(word@.take(word.len() as int) == word@);
    copy
}

/// A line without the carriage return that may stand at its end.
pub open spec fn without_return(line: Seq<char>) -> Seq<char> {
    if line.len() > 0 && line.last() == '\r' {
        line.drop_last()
    } else {
        line
    }
}

/// What follows the last line feed of `text`: the line that is not ended
/// yet.
pub open spec fn open_line(text: Seq<char>) -> Seq<char>
    decreases text.len(),
{
    if text.len() == 0 || text.last() == '\n' {
        Seq::empty()
    } else {
        open_line(text.drop_last()).push(text.last())
    }
}

/// The lines of `text` that a line feed ends, each without the carriage
/// return that may stand before the line feed.
pub open spec fn ended_lines(text: Seq<char>) -> Seq<Seq<char>>
    decreases text.len(),
{
    if text.len() == 0 {
        Seq::empty()
    } else if text.last() == '\n' {
        ended_lines(text.drop_last()).push(without_return(open_line(text.drop_last())))
    } else {
        ended_lines(text.drop_last())
    }
}

/// The lines of `text`: those that a line feed ends, and what follows the
/// last line feed if anything does.
pub open spec fn lines_of(text: Seq<char>) -> Seq<Seq<char>> {
    if open_line(text).len() == 0 {
        ended_lines(text)
    } else {
        ended_lines(text).push(open_line(text))
    }
}

/// The characters of `text`.
pub fn chars_of(text: &str) -> (chars: Vec<char>)
    ensures
        chars@ == text@,
{
    let mut rest = text.chars();
    let mut chars: Vec<char> = Vec::new();
    loop
        invariant
            rest.obeys_prophetic_iter_laws(),
            rest.decrease() is Some,
            chars@ + rest.remaining() == text@,
        decreases rest.decrease()->0,
    {
        match rest.next() {
            Some(c) => {
                chars.push(c);
                assert(chars@ + rest.remaining() =~= text@);
            },
            None => {
                assert(chars@ =~= text@);
                return chars;
            },
        }
    }
}

/// The lines of `text`, each as a word.
pub fn split_lines(text: &Vec<char>) -> (lines: Vec<Vec<char>>)
    ensures
        word_views(lines@) == lines_of(text@),
{
    let mut lines: Vec<Vec<char>> = Vec::new();
    let mut line: Vec<char> = Vec::new();
    let mut i: usize = 0;
    while i < text.len()
        invariant
            i <= text.len(),
            word_views(lines@) == ended_lines(text@.take(i as int)),
            line@ == open_line(text@.take(i as int)),
        decreases text.len() - i,
    {
        let c = text[i];
        assert(text@.take(i + 1).drop_last() == text@.take(i as int));
        assert(text@.take(i + 1).last() == c);
        if c == '\n' {
            let n = line.len();
            if n > 0 && line[n - 1] == '\r' {
                line.pop();
            }
            let ghost ended = word_views(lines@);
            let ghost added = line@;
            lines.push(line);
            assert(word_views(lines@) =~= ended.push(added));
            line = Vec::new();
        } else {
            line.push(c);
        }
        i += 1;
    }
    assert(text@.take(text.len() as int) == text@);
    if line.len() > 0 {
        let ghost ended = word_views(lines@);
        let ghost added = line@;
        lines.push(line);
        assert(word_views(lines@) =~= ended.push(added));
    }
    lines
}

impl WordList {
    /// Makes the list of `words`, in their order. An empty one is refused.
    pub fn new(words: Vec<Vec<char>>) -> (list: Result<WordList, WordListError>)
        ensures
            words.len() == 0 <==> list == Err::<WordList, WordListError>(
                WordListError::EmptyWordList,
            ),
            words.len() > 0 <==> list is Ok,
            list is Ok ==> list.unwrap()@ == word_views(words@),
    {
        if words.len() == 0 {
            Err(WordListError::EmptyWordList)
        } else {
            Ok(WordList { words })
        }
    }

    #[verifier::type_invariant]
    spec fn holds_a_word(&self) -> bool {
        self.words.len() > 0
    }

    /// Makes the list of the lines of `text`, one word to a line. A text
    /// without a line is refused.
    pub fn parse(text: &str) -> (list: Result<WordList, WordListError>)
        ensures
            lines_of(text@).len() == 0 <==> list == Err::<WordList, WordListError>(
                WordListError::EmptyWordList,
            ),
            lines_of(text@).len() > 0 <==> list is Ok,
            list is Ok ==> list.unwrap()@ == lines_of(text@),
    {
        let chars = chars_of(text);
        WordList::new(split_lines(&chars))
    }

    /// The number of words.
    pub fn len(&self) -> (n: usize)
        ensures
            n == self@.len(),
            n > 0,
    {
        proof {
            use_type_invariant(self);
        }
        self.words.len()
    }

    /// The word at `index`, if there is one.
    pub fn word(&self, index: usize) -> (word: Option<Vec<char>>)
        ensures
            index < self@.len() <==> word is Some,
            word is Some ==> word.unwrap()@ == self@[index as int],
    {
        if index < self.words.len() {
            Some(copy_word(&self.words[index]))
        } else {
            None
        }
    }
}

/// How many days `today` lies after `epoch`, both given by their day
/// numbers.
pub fn days_since(epoch: i32, today: i32) -> (index: u64)
    ensures
        index == day_index(epoch as int, today as int),
{
    if today > epoch {
        (today as i64 - epoch as i64) as u64
    } else {
        0
    }
}

/// The word of the day with the number `today`, where the words start on
/// the day with the number `epoch`.
pub fn word_of_day(list: &WordList, epoch: i32, today: i32) -> (word: Vec<char>)
    ensures
        word@ == daily_word(list@, epoch as int, today as int),
{
    let n = list.len();
    let at = (days_since(epoch, today) % (n as u64)) as usize;
    copy_word(&list.words[at])
}

/// The word at `index`, which lies in the list.
pub fn word_at(list: &WordList, index: usize) -> (word: Vec<char>)
    requires
        index < list@.len(),
    ensures
        word@ == list@[index as int],
{
    copy_word(&list.words[index])
}

/// The number of days from the epoch to the current local day.
pub fn get_index() -> (index: u64)
    ensures
        exists|today: i32|
            index == day_index(
                civil_day_number(EPOCH_YEAR as int, EPOCH_MONTH as int, EPOCH_DAY as int),
                today as int,
            ),
{
    let epoch = day_number_of(EPOCH_YEAR, EPOCH_MONTH, EPOCH_DAY);
    let today = local_day_number();
    days_since(epoch, today)
}

/// The word of the current local day.
pub fn gen(list: &WordList) -> (word: Vec<char>)
    ensures
        exists|today: i32|
            word@ == daily_word(
                list@,
                civil_day_number(EPOCH_YEAR as int, EPOCH_MONTH as int, EPOCH_DAY as int),
                today as int,
            ),
        list@.contains(word@),
{
    let epoch = day_number_of(EPOCH_YEAR, EPOCH_MONTH, EPOCH_DAY);
    let today = local_day_number();
    let word = word_of_day(list, epoch, today);
    let n = list.len();
    proof {
        let at = (day_index(epoch as int, today as int) % list@.len()) as int;
        assert(list@[at] == word@);
    }
    word
}

/// A word of the list, picked at random.
pub fn unlimited(list: &WordList) -> (word: Vec<char>)
    ensures
        list@.contains(word@),
{
    let index = random_below(list.len());
    let word = word_at(list, index);
    assert(list@[index as int] == word@);
    word
}

/// Two sessions made on one calendar day get one word.
pub proof fn same_day_same_word(list: Seq<Seq<char>>, epoch: int, day_a: int, day_b: int)
    requires
        list.len() > 0,
        day_a == day_b,
    ensures
        daily_word(list, epoch, day_a) == daily_word(list, epoch, day_b),
{
}

/// From the epoch on, the next calendar day gets the next word of the list,
/// and the first word follows the last.
pub proof fn next_day_next_word(list: Seq<Seq<char>>, epoch: int, today: int)
    requires
        list.len() > 0,
        today >= epoch,
    ensures
        day_index(epoch, today + 1) == day_index(epoch, today) + 1,
        daily_word(list, epoch, today + 1) == list[((day_index(epoch, today) + 1)
            % list.len()) as int],
{
}

/// On the day of the epoch the first word is picked.
pub proof fn epoch_day_first_word(list: Seq<Seq<char>>, epoch: int)
    requires
        list.len() > 0,
    ensures
        day_index(epoch, epoch) == 0,
        daily_word(list, epoch, epoch) == list[0],
{
    vstd::arithmetic::div_mod::lemma_small_mod(0, list.len());
}

} // verus!
