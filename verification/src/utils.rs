//! The date of a document: the one it declares in a `date: ` line, or else
//! the day on which its file was created, written as `YYYY-MM-DD`.

use vstd::prelude::*;
use crate::error::PublishError;
use crate::text::{chars_of, first_index_of, lemma_first_index_of, lemma_first_index_of_is,
    starts_with, string_of_range};

verus! {

/// What a line that declares the date begins with: `date: `.
pub open spec fn date_prefix() -> Seq<char> {
    seq!['d', 'a', 't', 'e', ':', ' ']
}

/// A line without the carriage return that ended it, if one did.
pub open spec fn without_cr(line: Seq<char>) -> Seq<char> {
    if line.len() > 0 && line.last() == '\r' {
        line.drop_last()
    } else {
        line
    }
}

/// The lines of a text.
///
/// A line ends with a newline, or with a carriage return and a newline;
/// neither belongs to the line. What follows the last newline is a line of
/// its own unless it is empty, and keeps a carriage return at its end.
pub open spec fn lines(s: Seq<char>) -> Seq<Seq<char>>
    decreases s.len(),
    via lines_terminates
{
    if s.len() == 0 {
        seq![]
    } else {
        let end = first_index_of(s, '\n', 0);
        if end >= s.len() {
            seq![s]
        } else {
            seq![without_cr(s.take(end))] + lines(s.skip(end + 1))
        }
    }
}

#[via_fn]
proof fn lines_terminates(s: Seq<char>) {
    lemma_first_index_of(s, '\n', 0);
}

/// The line declares a date.
pub open spec fn is_date_line(line: Seq<char>) -> bool {
    starts_with(line, date_prefix())
}

/// What the first date line among `lines` declares: all that follows its
/// prefix, as it stands.
pub open spec fn declared_date_in(lines: Seq<Seq<char>>) -> Option<Seq<char>>
    decreases lines.len(),
{
    if lines.len() == 0 {
        None
    } else if is_date_line(lines[0]) {
        Some(lines[0].skip(6))
    } else {
        declared_date_in(lines.skip(1))
    }
}

/// The date that the document declares, if it declares one.
pub open spec fn declared_date(content: Seq<char>) -> Option<Seq<char>> {
    declared_date_in(lines(content))
}

/// The date of a document: the declared one, else the day of creation of its
/// file, where that is known.
pub open spec fn original_date(content: Seq<char>, created: Option<Seq<char>>) -> Option<
    Seq<char>,
> {
    match declared_date(content) {
        Some(date) => Some(date),
        None => created,
    }
}

/// The characters of an optional string slice.
pub open spec fn opt_chars(s: Option<&str>) -> Option<Seq<char>> {
    match s {
        Some(s) => Some(s@),
        None => None,
    }
}

/// A date line with no date line before it decides the date: the date is
/// what follows `date: ` on that line, whatever it is.
pub proof fn lemma_first_date_line_decides(lines: Seq<Seq<char>>, i: int)
    requires
        0 <= i < lines.len(),
        is_date_line(lines[i]),
        forall|j: int| 0 <= j < i ==> !is_date_line(lines[j]),
    ensures
        declared_date_in(lines) == Some(lines[i].skip(6)),
    decreases i,
{
    if i > 0 {
        let rest = lines.skip(1);
        assert forall|j: int| 0 <= j < i - 1 implies !is_date_line(rest[j]) by {
            assert(rest[j] == lines[j + 1]);
        }
        lemma_first_date_line_decides(rest, i - 1);
    }
}

/// No date is declared exactly where no line is a date line.
pub proof fn lemma_no_date_line(lines: Seq<Seq<char>>)
    ensures
        declared_date_in(lines) is None <==> forall|i: int|
            0 <= i < lines.len() ==> !is_date_line(lines[i]),
    decreases lines.len(),
{
    if lines.len() > 0 {
        let rest = lines.skip(1);
        lemma_no_date_line(rest);
        if !is_date_line(lines[0]) {
            if declared_date_in(lines) is None {
                assert forall|i: int| 0 <= i < lines.len() implies !is_date_line(lines[i]) by {
                    if i > 0 {
                        assert(!is_date_line(rest[i - 1]));
                    }
                }
            } else {
                let k = choose|k: int| 0 <= k < rest.len() && is_date_line(rest[k]);
                assert(is_date_line(lines[k + 1]));
            }
        }
    }
}

/// The date of a document with a date line `date: X` and no date line before
/// it is `X`, as it stands, whatever the creation time of the file.
pub proof fn lemma_declared_date_wins(
    content: Seq<char>,
    created: Option<Seq<char>>,
    i: int,
    x: Seq<char>,
)
    requires
        0 <= i < lines(content).len(),
        lines(content)[i] == date_prefix() + x,
        forall|j: int| 0 <= j < i ==> !is_date_line(lines(content)[j]),
    ensures
        original_date(content, created) == Some(x),
{
    let line = lines(content)[i];
    assert(line.subrange(0, 6) =~= date_prefix());
    lemma_first_date_line_decides(lines(content), i);
}

/// The lines of a text that is made of two parts, the first of which is
/// empty or ends with a newline, are the lines of the first part and then
/// those of the second.
pub proof fn lemma_lines_of_parts(head: Seq<char>, tail: Seq<char>)
    requires
        head.len() == 0 || head.last() == '\n',
    ensures
        lines(head + tail) == lines(head) + lines(tail),
    decreases head.len(),
{
    let whole = head + tail;
    if head.len() > 0 {
        // The first line of the whole is the first line of the head, which
        // ends within the head.
        let end = first_index_of(head, '\n', 0);
        lemma_first_index_of(head, '\n', 0);
        assert(end < head.len());
        assert forall|j: int| 0 <= j < end implies whole[j] != '\n' by {}
        lemma_first_index_of_is(whole, '\n', 0, end);
        let rest = head.skip(end + 1);
        assert(whole.take(end) =~= head.take(end));
        assert(whole.skip(end + 1) =~= rest + tail);
        lemma_lines_of_parts(rest, tail);
    }
}

/// A document that holds the line `date: X`, with no date line before it,
/// has the date `X`, as it stands, whatever `X` is and whatever the creation
/// time of the file.
///
/// The line begins the text or follows a newline, and ends the text or is
/// followed by a newline: `before` is what stands before the line, `after`
/// what stands behind it. A carriage return at the end of `X` just before
/// that newline would belong to the line ending and not to `X`.
pub proof fn lemma_date_line_in_text(
    before: Seq<char>,
    x: Seq<char>,
    after: Seq<char>,
    created: Option<Seq<char>>,
)
    requires
        before.len() == 0 || before.last() == '\n',
        declared_date(before) is None,
        forall|k: int| 0 <= k < x.len() ==> x[k] != '\n',
        after.len() == 0 || after[0] == '\n',
        !(after.len() > 0 && x.len() > 0 && x.last() == '\r'),
    ensures
        original_date(before + date_prefix() + x + after, created) == Some(x),
{
    let line = date_prefix() + x;
    let rest = line + after;
    let content = before + date_prefix() + x + after;
    assert(content =~= before + rest);
    lemma_lines_of_parts(before, rest);
    // The line runs up to the end of `x`, so it is the first line of what
    // follows `before`.
    assert forall|j: int| 0 <= j < line.len() implies rest[j] != '\n' by {}
    lemma_first_index_of_is(rest, '\n', 0, line.len() as int);
    if after.len() > 0 {
        assert(rest.take(line.len() as int) =~= line);
        assert(line.last() != '\r');
    }
    let i = lines(before).len() as int;
    lemma_no_date_line(lines(before));
    assert forall|j: int| 0 <= j < i implies !is_date_line(lines(content)[j]) by {}
    lemma_declared_date_wins(content, created, i, x);
}

/// The date of a document without a date line is the day of creation of its
/// file.
pub proof fn lemma_creation_date_is_fallback(content: Seq<char>, created: Option<Seq<char>>)
    requires
        forall|i: int| 0 <= i < lines(content).len() ==> !is_date_line(lines(content)[i]),
    ensures
        original_date(content, created) == created,
{
    lemma_no_date_line(lines(content));
}

/// Whether the line `v[from..to]` begins with `date: `.
fn is_date_line_at(v: &Vec<char>, from: usize, to: usize) -> (b: bool)
    requires
        from <= to <= v.len(),
    ensures
        b == is_date_line(v@.subrange(from as int, to as int)),
{
    let ghost line = v@.subrange(from as int, to as int);
    if to - from < 6 {
        return false;
    }
    let b = v[from] == 'd' && v[from + 1] == 'a' && v[from + 2] == 't' && v[from + 3] == 'e'
        && v[from + 4] == ':' && v[from + 5] == ' ';
    proof {
        let head = line.subrange(0, 6);
        if b {
            assert(head =~= date_prefix());
        } else {
            assert(date_prefix()[0] == 'd' && date_prefix()[1] == 'a' && date_prefix()[2] == 't'
                && date_prefix()[3] == 'e' && date_prefix()[4] == ':' && date_prefix()[5]
                == ' ');
        }
    }
    b
}

/// The date that `content` declares: what follows `date: ` on the first line
/// that begins with it.
pub fn find_declared_date(content: &str) -> (date: Option<String>)
    ensures
        match date {
            Some(d) => declared_date(content@) == Some(d@),
            None => declared_date(content@) is None,
        },
{
    let v = chars_of(content);
    let n = v.len();
    let mut pos: usize = 0;
    assert(v@.skip(0) == v@);
    while pos < n
        invariant
            n == v.len(),
            v@ == content@,
            pos <= n,
            declared_date(content@) == declared_date(v@.skip(pos as int)),
        decreases n - pos,
    {
        let ghost rest = v@.skip(pos as int);
        let mut end: usize = pos;
        while end < n && v[end] != '\n'
            invariant
                pos <= end <= n,
                n == v.len(),
                forall|j: int| pos <= j < end ==> v@[j] != '\n',
            decreases n - end,
        {
            end += 1;
        }
        proof {
            lemma_first_index_of_is(rest, '\n', 0, end - pos);
        }
        let line_end: usize = if end < n && end > pos && v[end - 1] == '\r' {
            end - 1
        } else {
            end
        };
        proof {
            let first = v@.subrange(pos as int, line_end as int);
            // The first line of what is left is `v[pos..line_end]`; the
            // other lines are those behind the newline, if there is one.
            if end < n {
                assert(without_cr(rest.take(end - pos)) =~= first);
                assert(rest.skip(end - pos + 1) =~= v@.skip(end + 1));
                assert(lines(rest).skip(1) =~= lines(v@.skip(end + 1)));
            } else {
                assert(lines(rest).skip(1) =~= Seq::<Seq<char>>::empty());
            }
        }
        if is_date_line_at(&v, pos, line_end) {
            assert(v@.subrange(pos as int, line_end as int).skip(6) =~= v@.subrange(
                pos + 6,
                line_end as int,
            ));
            return Some(string_of_range(&v, pos + 6, line_end));
        }
        if end >= n {
            pos = n;
        } else {
            pos = end + 1;
        }
    }
    None
}

/// The date of a document: the one that `content` declares, or else
/// `created`, the day on which its file was created.
///
/// The declared date is taken as it stands, valid or not. The creation day is
/// looked at only where no date is declared; where it is then missing, the
/// date cannot be told.
pub fn get_original_date(content: &str, created: Option<&str>) -> (date: Result<
    String,
    PublishError,
>)
    ensures
        match date {
            Ok(d) => original_date(content@, opt_chars(created)) == Some(d@),
            Err(e) => original_date(content@, opt_chars(created)) is None && e
                == PublishError::CreationDateUnavailable,
        },
{
    match find_declared_date(content) {
        Some(date) => Ok(date),
        None => match created {
            Some(day) => Ok(day.to_owned()),
            None => Err(PublishError::CreationDateUnavailable),
        },
    }
}

/// The pattern after which the day of creation is written: the year in four
/// digits, the month and the day in two, with hyphens between.
pub const DATE_FORMAT: &'static str = "%Y-%m-%d";

/// The decimal digit for `n`, which is below ten.
pub open spec fn digit(n: int) -> char {
    if n == 0 {
        '0'
    } else if n == 1 {
        '1'
    } else if n == 2 {
        '2'
    } else if n == 3 {
        '3'
    } else if n == 4 {
        '4'
    } else if n == 5 {
        '5'
    } else if n == 6 {
        '6'
    } else if n == 7 {
        '7'
    } else if n == 8 {
        '8'
    } else {
        '9'
    }
}

/// The two digits of `n`, which is below a hundred.
pub open spec fn two_digits(n: int) -> Seq<char> {
    seq![digit(n / 10), digit(n % 10)]
}

/// A day of the calendar as the site writes it: `YYYY-MM-DD`, for a year
/// from 0 to 9999.
pub open spec fn iso_day(year: int, month: int, day: int) -> Seq<char> {
    two_digits(year / 100) + two_digits(year % 100) + seq!['-'] + two_digits(month) + seq!['-']
        + two_digits(day)
}

/// `c` is a decimal digit.
pub open spec fn is_digit(c: char) -> bool {
    '0' <= c <= '9'
}

/// The text has the form `YYYY-MM-DD`: ten characters, digits but for the
/// two hyphens.
pub open spec fn is_iso_day(text: Seq<char>) -> bool {
    &&& text.len() == 10
    &&& is_digit(text[0])
    &&& is_digit(text[1])
    &&& is_digit(text[2])
    &&& is_digit(text[3])
    &&& text[4] == '-'
    &&& is_digit(text[5])
    &&& is_digit(text[6])
    &&& text[7] == '-'
    &&& is_digit(text[8])
    &&& is_digit(text[9])
}

/// A day with a year from 0 to 9999, and a month and a day of two digits at
/// most, is written in the form `YYYY-MM-DD`.
pub proof fn lemma_iso_day_has_the_form(year: int, month: int, day: int)
    requires
        0 <= year <= 9999,
        0 <= month <= 99,
        0 <= day <= 99,
    ensures
        is_iso_day(iso_day(year, month, day)),
{
}

/// Has `chrono` write a day of the calendar: `NaiveDate::from_ymd_opt` makes
/// the date, where there is such a day, and `NaiveDate::format` with
/// `to_string` writes it after `format`, which is `DATE_FORMAT`.
///
/// Assumed of them, for a year from 0 to 9999: a date is made exactly of a
/// day that the proleptic Gregorian calendar has, and it is written as the
/// four digits of the year, a hyphen, the two digits of the month, a hyphen,
/// and the two digits of the day.
///
/// Nothing is assumed of other years, and the call is not made for them.
#[verifier::external_body]
fn chrono_day_text(year: i32, month: u32, day: u32, format: &str) -> (text: Option<String>)
    requires
        format@ == DATE_FORMAT@,
        0 <= year <= 9999,
    ensures
        text is Some <==> is_calendar_day(year as int, month as int, day as int),
        text matches Some(t) ==> t@ == iso_day(year as int, month as int, day as int),
{
    match chrono::NaiveDate::from_ymd_opt(year, month, day) {
        Some(date) => Some(date.format(format).to_string()),
        None => None,
    }
}

/// The text, if it has the form `YYYY-MM-DD`.
pub fn accept_day_text(text: String) -> (day: Option<String>)
    ensures
        match day {
            Some(d) => is_iso_day(text@) && d@ == text@,
            None => !is_iso_day(text@),
        },
{
    let v = chars_of(text.as_str());
    if v.len() != 10 {
        return None;
    }
    let mut i: usize = 0;
    while i < 10
        invariant
            i <= 10,
            v.len() == 10,
            v@ == text@,
            forall|j: int| 0 <= j < i ==> if j == 4 || j == 7 {
                v@[j] == '-'
            } else {
                is_digit(v@[j])
            },
        decreases 10 - i,
    {
        let c = v[i];
        let fits = if i == 4 || i == 7 {
            c == '-'
        } else {
            '0' <= c && c <= '9'
        };
        if !fits {
            return None;
        }
        i += 1;
    }
    Some(text)
}

/// The day of creation of a file as the date of its document: the day of
/// the calendar with this year, month and day, written as `YYYY-MM-DD`.
///
/// There is none where the calendar has no such day, nor for a year that
/// lies before the year 0 or takes more than four digits.
pub fn creation_day(year: i32, month: u32, day: u32) -> (text: Option<String>)
    ensures
        match text {
            Some(t) => day_text(year as int, month as int, day as int) == Some(t@),
            None => day_text(year as int, month as int, day as int) is None,
        },
        text matches Some(t) ==> is_iso_day(t@),
{
    if year < 0 || year > 9999 {
        return None;
    }
    match chrono_day_text(year, month, day, DATE_FORMAT) {
        Some(written) => {
            proof {
                lemma_iso_day_has_the_form(year as int, month as int, day as int);
            }
            accept_day_text(written)
        },
        None => None,
    }
}

/// The year has an added day at the end of February: every fourth year has,
/// but of the years that end a century only every fourth.
pub open spec fn is_leap_year(year: int) -> bool {
    year % 4 == 0 && (year % 100 != 0 || year % 400 == 0)
}

/// The number of days of a month of the proleptic Gregorian calendar.
pub open spec fn days_in_month(year: int, month: int) -> int {
    if month == 2 {
        if is_leap_year(year) {
            29
        } else {
            28
        }
    } else if month == 4 || month == 6 || month == 9 || month == 11 {
        30
    } else {
        31
    }
}

/// The proleptic Gregorian calendar has this day of this month.
pub open spec fn is_calendar_day(year: int, month: int, day: int) -> bool {
    1 <= month <= 12 && 1 <= day <= days_in_month(year, month)
}

/// The text for the day of creation: the day as `YYYY-MM-DD`, where the
/// calendar has the day and the year takes four digits.
pub open spec fn day_text(year: int, month: int, day: int) -> Option<Seq<char>> {
    if 0 <= year <= 9999 && is_calendar_day(year, month, day) {
        Some(iso_day(year, month, day))
    } else {
        None
    }
}

/// Every text for a day of creation has the form `YYYY-MM-DD`.
pub proof fn lemma_day_text_has_the_form(year: int, month: int, day: int)
    ensures
        day_text(year, month, day) matches Some(t) ==> is_iso_day(t),
{
    if day_text(year, month, day) is Some {
        lemma_iso_day_has_the_form(year, month, day);
    }
}

} // verus!
