//! The score of a solved game and the wording of the time it took.

use vstd::prelude::*;
use vstd::string::StringExecFns;

verus! {

/// `a` divided by the positive `b`, rounded towards zero.
pub open spec fn div_towards_zero(a: int, b: int) -> int
    recommends
        b > 0,
{
    if a >= 0 {
        a / b
    } else {
        -((-a) / b)
    }
}

/// The whole seconds in a time given in milliseconds.
pub open spec fn whole_seconds(millis: int) -> int {
    div_towards_zero(millis, 1000)
}

/// The whole minutes in a time given in milliseconds.
pub open spec fn whole_minutes(millis: int) -> int {
    div_towards_zero(whole_seconds(millis), 60)
}

/// The seconds that the whole minutes leave over.
pub open spec fn seconds_left(millis: int) -> int {
    whole_seconds(millis) - 60 * whole_minutes(millis)
}

/// The score of a game solved after `millis` milliseconds with `attempts`
/// guesses: a point is lost for each second and for each guess, and the
/// score stays between 1 and 100.
pub open spec fn rating(millis: int, attempts: int) -> int {
    let raw = 100 - (whole_seconds(millis) + attempts);
    if raw < 1 {
        1
    } else if raw > 100 {
        100
    } else {
        raw
    }
}

/// The score never leaves the range from 1 to 100, and between the two it
/// is 100 less the seconds and the guesses.
pub proof fn rating_is_clamped(millis: int, attempts: int)
    ensures
        1 <= rating(millis, attempts) <= 100,
        1 <= 100 - (whole_seconds(millis) + attempts) <= 100 ==> rating(millis, attempts) == 100
            - (whole_seconds(millis) + attempts),
        100 - (whole_seconds(millis) + attempts) < 1 ==> rating(millis, attempts) == 1,
        100 - (whole_seconds(millis) + attempts) > 100 ==> rating(millis, attempts) == 100,
{
}

/// The character of the digit `d`.
pub open spec fn digit_char(d: nat) -> char
    recommends
        d < 10,
{
    if d == 0 {
        '0'
    } else if d == 1 {
        '1'
    } else if d == 2 {
        '2'
    } else if d == 3 {
        '3'
    } else if d == 4 {
        '4'
    } else if d == 5 {
        '5'
    } else if d == 6 {
        '6'
    } else if d == 7 {
        '7'
    } else if d == 8 {
        '8'
    } else {
        '9'
    }
}

/// The decimal digits of `n`, without leading zeros.
pub open spec fn digits(n: nat) -> Seq<char>
    decreases n,
{
    if n < 10 {
        seq![digit_char(n)]
    } else {
        digits(n / 10).push(digit_char(n % 10))
    }
}

/// `n` in decimal, with a minus sign where it is negative.
pub open spec fn decimal(n: int) -> Seq<char> {
    if n < 0 {
        seq!['-'] + digits((-n) as nat)
    } else {
        digits(n as nat)
    }
}

/// The wording of a time of `millis` milliseconds: under a second in
/// milliseconds, under a minute in seconds, and from there on in minutes and
/// the seconds left over, which are not named where there are none.
pub open spec fn humanized(millis: int) -> Seq<char> {
    let seconds = whole_seconds(millis);
    let minutes = whole_minutes(millis);
    let left = seconds_left(millis);
    if minutes == 0 {
        if seconds == 0 {
            decimal(millis) + " milliseconds!"@
        } else {
            decimal(seconds) + " seconds"@
        }
    } else if minutes == 1 {
        if left == 0 {
            "1 minute"@
        } else {
            "1 minute and "@ + decimal(left) + " seconds"@
        }
    } else {
        if left == 0 {
            decimal(minutes) + " minutes"@
        } else {
            decimal(minutes) + " minutes and "@ + decimal(left) + " seconds"@
        }
    }
}

/// The magnitude of `a` divided by the positive `b`, with the sign of `a`.
fn divide_towards_zero(a: i128, b: u32) -> (q: i128)
    requires
        b > 0,
        a > i128::MIN,
    ensures
        q == div_towards_zero(a as int, b as int),
{
    if a >= 0 {
        ((a as u128) / (b as u128)) as i128
    } else {
        let q = ((-a) as u128) / (b as u128);
        -(q as i128)
    }
}

/// `Utc::now`, then `DateTime::timestamp_millis`: the current time in
/// milliseconds since the start of 1970. Nothing is claimed of it. (chrono
/// stops the program where the system clock stands before 1970.)
#[verifier::external_body]
pub(crate) fn now_millis() -> (now: i64) {
    chrono::Utc::now().timestamp_millis()
}

/// The score of a game solved after `millis` milliseconds with `attempts`
/// guesses.
pub fn score(millis: i64, attempts: usize) -> (points: u32)
    ensures
        points == rating(millis as int, attempts as int),
        1 <= points <= 100,
{
    span_score(millis as i128, attempts)
}

/// The score for a time that is the difference of two times.
pub(crate) fn span_score(millis: i128, attempts: usize) -> (points: u32)
    requires
        i64::MIN - i64::MAX <= millis <= i64::MAX - i64::MIN,
    ensures
        points == rating(millis as int, attempts as int),
        1 <= points <= 100,
{
    let seconds = divide_towards_zero(millis, 1000);
    let raw: i128 = 100 - (seconds + attempts as i128);
    if raw < 1 {
        1
    } else if raw > 100 {
        100
    } else {
        raw as u32
    }
}

fn digit_text(d: u128) -> (text: &'static str)
    requires
        d < 10,
    ensures
        text@ == seq![digit_char(d as nat)],
{
    proof {
        reveal_strlit("0");
        reveal_strlit("1");
        reveal_strlit("2");
        reveal_strlit("3");
        reveal_strlit("4");
        reveal_strlit("5");
        reveal_strlit("6");
        reveal_strlit("7");
        reveal_strlit("8");
        reveal_strlit("9");
    }
    let text = if d == 0 {
        "0"
    } else if d == 1 {
        "1"
    } else if d == 2 {
        "2"
    } else if d == 3 {
        "3"
    } else if d == 4 {
        "4"
    } else if d == 5 {
        "5"
    } else if d == 6 {
        "6"
    } else if d == 7 {
        "7"
    } else if d == 8 {
        "8"
    } else {
        "9"
    };
    assert(text@ =~= seq![digit_char(d as nat)]);
    text
}

fn append_digits(out: &mut String, n: u128)
    ensures
        final(out)@ == old(out)@ + digits(n as nat),
    decreases n,
{
    if n >= 10 {
        append_digits(out, n / 10);
    }
    out.append(digit_text(n % 10));
    assert(final(out)@ =~= old(out)@ + digits(n as nat));
}

/// Appends `n` in decimal to `out`.
pub fn append_decimal(out: &mut String, n: i128)
    requires
        n > i128::MIN,
    ensures
        final(out)@ == old(out)@ + decimal(n as int),
{
    if n < 0 {
        proof {
            reveal_strlit("-");
        }
        out.append("-");
        append_digits(out, (-n) as u128);
        assert(final(out)@ =~= old(out)@ + decimal(n as int));
    } else {
        append_digits(out, n as u128);
    }
}

/// The wording of a time of `millis` milliseconds.
pub fn format_elapsed(millis: i64) -> (text: String)
    ensures
        text@ == humanized(millis as int),
{
    span_text(millis as i128)
}

/// The wording of a time that is the difference of two times.
pub(crate) fn span_text(millis: i128) -> (text: String)
    requires
        i64::MIN - i64::MAX <= millis <= i64::MAX - i64::MIN,
    ensures
        text@ == humanized(millis as int),
{
    let seconds = divide_towards_zero(millis, 1000);
    let minutes = divide_towards_zero(seconds, 60);
    let left = seconds - 60 * minutes;
    let mut text = String::new();
    if minutes == 0 {
        if seconds == 0 {
            append_decimal(&mut text, millis);
            text.append(" milliseconds!");
        } else {
            append_decimal(&mut text, seconds);
            text.append(" seconds");
        }
    } else if minutes == 1 {
        if left == 0 {
            text.append("1 minute");
        } else {
            text.append("1 minute and ");
            append_decimal(&mut text, left);
            text.append(" seconds");
        }
    } else {
        if left == 0 {
            append_decimal(&mut text, minutes);
            text.append(" minutes");
        } else {
            append_decimal(&mut text, minutes);
            text.append(" minutes and ");
            append_decimal(&mut text, left);
            text.append(" seconds");
        }
    }
    assert(text@ =~= humanized(millis as int));
    text
}

} // verus!
