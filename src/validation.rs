//! Validation of the progress text: one `year: d1,d2,...,d25` line per year, each day 0, 1 or 2.

use vstd::prelude::*;
use crate::scan::{IntErrorKind, int_error_text, parse_unsigned, trim, index_of, trim_bounds, find_char,
    parse_unsigned_in};
use crate::text::{decimal, push_decimal};

verus! {

/// Number of days a year line must hold.
pub const DAYS_PER_YEAR: usize = 25;

/// Why the text was refused.
#[derive(Debug, Clone)]
pub enum ValidationError {
    EmptyInput,
    InvalidLineFormat { line: usize, content: String },
    InvalidYear { line: usize, year: String },
    InvalidDayCount { year: usize, count: usize },
    InvalidStarValue { year: usize },
    ParseError { year: usize, error: String },
}

/// The mathematical value of a `ValidationError`.
pub enum ErrorView {
    EmptyInput,
    InvalidLineFormat { line: nat, content: Seq<char> },
    InvalidYear { line: nat, year: Seq<char> },
    InvalidDayCount { year: nat, count: nat },
    InvalidStarValue { year: nat },
    ParseError { year: nat, error: Seq<char> },
}

impl View for ValidationError {
    type V = ErrorView;

    open spec fn view(&self) -> ErrorView {
        match self {
            ValidationError::EmptyInput => ErrorView::EmptyInput,
            ValidationError::InvalidLineFormat { line, content } =>
                ErrorView::InvalidLineFormat { line: *line as nat, content: content@ },
            ValidationError::InvalidYear { line, year } => ErrorView::InvalidYear { line: *line as nat, year: year@ },
            ValidationError::InvalidDayCount { year, count } =>
                ErrorView::InvalidDayCount { year: *year as nat, count: *count as nat },
            ValidationError::InvalidStarValue { year } => ErrorView::InvalidStarValue { year: *year as nat },
            ValidationError::ParseError { year, error } => ErrorView::ParseError { year: *year as nat, error: error@ },
        }
    }
}

/// A year with the value of each of its days.
pub type YearView = (nat, Seq<u8>);

pub open spec fn years_view(ys: Seq<(usize, Vec<u8>)>) -> Seq<YearView> {
    ys.map_values(|y: (usize, Vec<u8>)| (y.0 as nat, y.1@))
}

/// The pieces of `s` between occurrences of `sep`; there is always at least one.
pub open spec fn pieces(s: Seq<char>, sep: char) -> Seq<Seq<char>>
    decreases s.len(),
{
    if s.len() == 0 {
        seq![Seq::empty()]
    } else {
        let p = pieces(s.drop_last(), sep);
        if s.last() == sep {
            p.push(Seq::empty())
        } else {
            p.update(p.len() - 1, p.last().push(s.last()))
        }
    }
}

/// A line without the carriage return of a `\r\n` ending.
pub open spec fn strip_cr(p: Seq<char>) -> Seq<char> {
    if p.len() > 0 && p.last() == '\r' { p.drop_last() } else { p }
}

/// The lines of `s`: split at `\n`, a `\r` before it dropped, no line after a final `\n`.
pub open spec fn lines(s: Seq<char>) -> Seq<Seq<char>> {
    let p = pieces(s, '\n');
    let body = p.drop_last().map_values(|x: Seq<char>| strip_cr(x));
    if p.last().len() == 0 { body } else { body.push(p.last()) }
}

/// The day values of comma-separated fields, or the first field's error.
pub open spec fn parse_fields(ps: Seq<Seq<char>>) -> Result<Seq<u8>, IntErrorKind>
    decreases ps.len(),
{
    if ps.len() == 0 {
        Ok(Seq::empty())
    } else {
        match parse_fields(ps.drop_last()) {
            Err(e) => Err(e),
            Ok(ds) => match parse_unsigned(trim(ps.last()), 255) {
                Err(e) => Err(e),
                Ok(n) => Ok(ds.push(n as u8)),
            },
        }
    }
}

/// What one line, numbered from 1, contributes: nothing, a year, or an error.
pub enum LineView {
    Blank,
    Entry(YearView),
    Invalid(ErrorView),
}

pub open spec fn line_outcome(line: Seq<char>, number: nat) -> LineView {
    if trim(line).len() == 0 {
        LineView::Blank
    } else {
        let p = index_of(line, ':');
        if p >= line.len() {
            LineView::Invalid(ErrorView::InvalidLineFormat { line: number, content: line })
        } else {
            let head = line.subrange(0, p as int);
            let tail = line.subrange(p as int + 1, line.len() as int);
            match parse_unsigned(trim(head), usize::MAX as nat) {
                Err(_) => LineView::Invalid(ErrorView::InvalidYear { line: number, year: head }),
                Ok(year) => match parse_fields(pieces(trim(tail), ',')) {
                    Err(k) => LineView::Invalid(ErrorView::ParseError { year, error: int_error_text(k) }),
                    Ok(days) => {
                        if days.len() != DAYS_PER_YEAR {
                            LineView::Invalid(ErrorView::InvalidDayCount { year, count: days.len() })
                        } else if exists|k: int| 0 <= k < days.len() && #[trigger] days[k] > 2 {
                            LineView::Invalid(ErrorView::InvalidStarValue { year })
                        } else {
                            LineView::Entry((year, days))
                        }
                    },
                },
            }
        }
    }
}

/// The years of the lines `ls`, or the error of the first line that fails.
pub open spec fn check_lines(ls: Seq<Seq<char>>) -> Result<Seq<YearView>, ErrorView>
    decreases ls.len(),
{
    if ls.len() == 0 {
        Ok(Seq::empty())
    } else {
        match check_lines(ls.drop_last()) {
            Err(e) => Err(e),
            Ok(ys) => match line_outcome(ls.last(), ls.len()) {
                LineView::Blank => Ok(ys),
                LineView::Entry(y) => Ok(ys.push(y)),
                LineView::Invalid(e) => Err(e),
            },
        }
    }
}

/// The outcome of validating `content`.
pub open spec fn validation(content: Seq<char>) -> Result<Seq<YearView>, ErrorView> {
    match check_lines(lines(content)) {
        Err(e) => Err(e),
        Ok(ys) => if ys.len() == 0 { Err(ErrorView::EmptyInput) } else { Ok(ys) },
    }
}

/// Which structural rule a line breaks, for a line numbered `number`: a non-blank line without
/// `:` has an invalid format; a year part that does not parse is an invalid year; fields that
/// parse but are not 25 give the day count; 25 fields with a value above 2 give an invalid star.
pub proof fn lemma_structural_failures(line: Seq<char>, number: nat)
    requires
        trim(line).len() > 0,
    ensures
        index_of(line, ':') >= line.len() ==> line_outcome(line, number) == LineView::Invalid(
            ErrorView::InvalidLineFormat { line: number, content: line },
        ),
        ({
            let p = index_of(line, ':') as int;
            let head = line.subrange(0, p);
            let tail = line.subrange(p + 1, line.len() as int);
            &&& p < line.len() && parse_unsigned(trim(head), usize::MAX as nat) is Err ==> line_outcome(line, number)
                == LineView::Invalid(ErrorView::InvalidYear { line: number, year: head })
            &&& p < line.len() && parse_unsigned(trim(head), usize::MAX as nat) is Ok
                && parse_fields(pieces(trim(tail), ',')) is Ok
                && parse_fields(pieces(trim(tail), ','))->Ok_0.len() != DAYS_PER_YEAR ==> line_outcome(line, number)
                == LineView::Invalid(ErrorView::InvalidDayCount {
                    year: parse_unsigned(trim(head), usize::MAX as nat)->Ok_0,
                    count: parse_fields(pieces(trim(tail), ','))->Ok_0.len(),
                })
            &&& p < line.len() && parse_unsigned(trim(head), usize::MAX as nat) is Ok
                && parse_fields(pieces(trim(tail), ',')) is Ok
                && parse_fields(pieces(trim(tail), ','))->Ok_0.len() == DAYS_PER_YEAR
                && (exists|k: int| 0 <= k < DAYS_PER_YEAR && #[trigger] parse_fields(pieces(trim(tail), ','))->Ok_0[k] > 2)
                ==> line_outcome(line, number) == LineView::Invalid(
                ErrorView::InvalidStarValue { year: parse_unsigned(trim(head), usize::MAX as nat)->Ok_0 },
            )
        }),
{
}

proof fn lemma_pieces_step(s: Seq<char>, i: int, start: int, done: Seq<Seq<char>>, sep: char)
    requires
        0 <= start <= i < s.len(),
        pieces(s.subrange(0, i), sep) == done.push(s.subrange(start, i)),
    ensures
        s[i] == sep ==> pieces(s.subrange(0, i + 1), sep) == done.push(s.subrange(start, i)).push(
            s.subrange(i + 1, i + 1)),
        s[i] != sep ==> pieces(s.subrange(0, i + 1), sep) == done.push(s.subrange(start, i + 1)),
{
    let t = s.subrange(0, i + 1);
    assert(t.drop_last() =~= s.subrange(0, i));
    assert(t.last() == s[i]);
    assert(s.subrange(i + 1, i + 1) =~= Seq::<char>::empty());
    if s[i] != sep {
        let p = done.push(s.subrange(start, i));
        assert(s.subrange(start, i).push(s[i]) =~= s.subrange(start, i + 1));
        assert(p.update(p.len() - 1, p.last().push(s[i])) =~= done.push(s.subrange(start, i + 1)));
    }
}

pub open spec fn fields_result_view(r: Result<Vec<u8>, IntErrorKind>) -> Result<Seq<u8>, IntErrorKind> {
    match r {
        Ok(ds) => Ok(ds@),
        Err(e) => Err(e),
    }
}

/// Parses one more field onto what was parsed so far, keeping the first error.
fn add_field(acc: Result<Vec<u8>, IntErrorKind>, v: &Vec<char>, start: usize, end: usize) -> (r: Result<
    Vec<u8>,
    IntErrorKind,
>)
    requires
        start <= end <= v@.len(),
    ensures
        forall|done: Seq<Seq<char>>| parse_fields(done) == fields_result_view(acc) ==>
            parse_fields(#[trigger] done.push(v@.subrange(start as int, end as int))) == fields_result_view(r),
{
    match acc {
        Err(e) => {
            proof {
                assert forall|done: Seq<Seq<char>>| parse_fields(done) == fields_result_view(acc) implies
                    parse_fields(#[trigger] done.push(v@.subrange(start as int, end as int))) == fields_result_view(Err::<Vec<u8>, IntErrorKind>(e)) by {
                    assert(done.push(v@.subrange(start as int, end as int)).drop_last() =~= done);
                }
            }
            Err(e)
        },
        Ok(days) => {
            let mut days = days;
            let (a, b) = trim_bounds(v, start, end);
            let parsed = parse_unsigned_in(v, a, b, 255);
            proof {
                assert forall|done: Seq<Seq<char>>| #[trigger] parse_fields(done) == fields_result_view(acc) implies
                    parse_fields(done.push(v@.subrange(start as int, end as int))) == match parsed {
                        Ok(n) => Ok::<Seq<u8>, IntErrorKind>(days@.push(n as u8)),
                        Err(e) => Err(e),
                    } by {
                    assert(done.push(v@.subrange(start as int, end as int)).drop_last() =~= done);
                }
            }
            match parsed {
                Err(e) => Err(e),
                Ok(n) => {
                    days.push(n as u8);
                    Ok(days)
                },
            }
        },
    }
}

fn parse_days(v: &Vec<char>, from: usize, to: usize) -> (r: Result<Vec<u8>, IntErrorKind>)
    requires
        from <= to <= v@.len(),
    ensures
        parse_fields(pieces(v@.subrange(from as int, to as int), ',')) == fields_result_view(r),
{
    let ghost s = v@.subrange(from as int, to as int);
    let mut acc: Result<Vec<u8>, IntErrorKind> = Ok(Vec::new());
    let mut start: usize = from;
    let mut i: usize = from;
    let ghost mut done: Seq<Seq<char>> = Seq::empty();
    proof {
        assert(s.subrange(0, 0) =~= Seq::<char>::empty());
        assert(v@.subrange(from as int, from as int) =~= Seq::<char>::empty());
        assert(done.push(Seq::<char>::empty()) =~= seq![Seq::<char>::empty()]);
        assert(fields_result_view(acc) =~= Ok::<Seq<u8>, IntErrorKind>(Seq::empty()));
    }
    while i < to
        invariant
            from <= start <= i <= to <= v@.len(),
            s == v@.subrange(from as int, to as int),
            pieces(s.subrange(0, i - from), ',') == done.push(v@.subrange(start as int, i as int)),
            parse_fields(done) == fields_result_view(acc),
        decreases to - i,
    {
        proof {
            assert(s.subrange(start - from, i - from) =~= v@.subrange(start as int, i as int));
            assert(s.subrange(start - from, i - from + 1) =~= v@.subrange(start as int, i + 1));
            assert(s[i - from] == v@[i as int]);
            assert(s.subrange(0, i - from).subrange(start - from, i - from) =~= v@.subrange(start as int, i as int));
            lemma_pieces_step(s, i - from, start - from, done, ',');
        }
        if v[i] == ',' {
            acc = add_field(acc, v, start, i);
            proof {
                done = done.push(v@.subrange(start as int, i as int));
            }
            start = i + 1;
            proof {
                assert(v@.subrange(start as int, start as int) =~= s.subrange(i + 1 - from, i + 1 - from));
            }
        }
        i = i + 1;
    }
    proof {
        assert(s.subrange(0, to - from) =~= s);
    }
    let r = add_field(acc, v, start, to);
    proof {
        assert(parse_fields(done.push(v@.subrange(start as int, to as int))) == fields_result_view(r));
    }
    r
}

pub open spec fn line_result_view(r: Result<Option<(usize, Vec<u8>)>, ValidationError>) -> LineView {
    match r {
        Ok(None) => LineView::Blank,
        Ok(Some(y)) => LineView::Entry((y.0 as nat, y.1@)),
        Err(e) => LineView::Invalid(e@),
    }
}

/// The characters of `s`, one by one.
fn to_chars(s: &str) -> (v: Vec<char>)
    ensures
        v@ == s@,
{
    let n = s.unicode_len();
    let mut v: Vec<char> = Vec::new();
    let mut i: usize = 0;
    while i < n
        invariant
            n == s@.len(),
            i <= n,
            v@ == s@.subrange(0, i as int),
        decreases n - i,
    {
        let c = s.get_char(i);
        v.push(c);
        i = i + 1;
        proof {
            assert(v@ =~= s@.subrange(0, i as int));
        }
    }
    proof {
        assert(v@ =~= s@);
    }
    v
}

/// Whether some day value is above 2.
fn has_invalid_star(days: &Vec<u8>) -> (r: bool)
    ensures
        r == exists|k: int| 0 <= k < days@.len() && #[trigger] days@[k] > 2,
{
    let mut i: usize = 0;
    while i < days.len()
        invariant
            i <= days@.len(),
            forall|k: int| 0 <= k < i ==> #[trigger] days@[k] <= 2,
        decreases days@.len() - i,
    {
        if days[i] > 2 {
            return true;
        }
        i = i + 1;
    }
    false
}

/// What the line `start..end` of `content` contributes, as line number `number`.
fn check_line(content: &str, v: &Vec<char>, start: usize, end: usize, number: usize) -> (r: Result<
    Option<(usize, Vec<u8>)>,
    ValidationError,
>)
    requires
        v@ == content@,
        start <= end <= v@.len(),
    ensures
        line_result_view(r) == line_outcome(v@.subrange(start as int, end as int), number as nat),
{
    let ghost line = v@.subrange(start as int, end as int);
    let (a, b) = trim_bounds(v, start, end);
    if a == b {
        return Ok(None);
    }
    let p = find_char(v, start, end, ':');
    if p == end {
        let text = String::from_str(content.substring_char(start, end));
        return Err(ValidationError::InvalidLineFormat { line: number, content: text });
    }
    proof {
        assert(line.subrange(0, p - start) =~= v@.subrange(start as int, p as int));
        assert(line.subrange(p - start + 1, line.len() as int) =~= v@.subrange(p + 1, end as int));
    }
    let (ya, yb) = trim_bounds(v, start, p);
    match parse_unsigned_in(v, ya, yb, usize::MAX as u64) {
        Err(_) => {
            let text = String::from_str(content.substring_char(start, p));
            Err(ValidationError::InvalidYear { line: number, year: text })
        },
        Ok(y) => {
            let year = y as usize;
            let (ta, tb) = trim_bounds(v, p + 1, end);
            match parse_days(v, ta, tb) {
                Err(k) => Err(ValidationError::ParseError { year, error: String::from_str(k.description()) }),
                Ok(days) => {
                    if days.len() != DAYS_PER_YEAR {
                        Err(ValidationError::InvalidDayCount { year, count: days.len() })
                    } else if has_invalid_star(&days) {
                        Err(ValidationError::InvalidStarValue { year })
                    } else {
                        Ok(Some((year, days)))
                    }
                },
            }
        },
    }
}

pub open spec fn years_result_view(r: Result<Vec<(usize, Vec<u8>)>, ValidationError>) -> Result<
    Seq<YearView>,
    ErrorView,
> {
    match r {
        Ok(ys) => Ok(years_view(ys@)),
        Err(e) => Err(e@),
    }
}

/// Checks one more line onto what was checked so far, keeping the first error.
fn add_line(
    acc: Result<Vec<(usize, Vec<u8>)>, ValidationError>,
    content: &str,
    v: &Vec<char>,
    start: usize,
    end: usize,
    number: usize,
) -> (r: Result<Vec<(usize, Vec<u8>)>, ValidationError>)
    requires
        v@ == content@,
        start <= end <= v@.len(),
    ensures
        forall|done: Seq<Seq<char>>|
            check_lines(done) == years_result_view(acc) && done.len() + 1 == number ==> check_lines(
                #[trigger] done.push(v@.subrange(start as int, end as int)),
            ) == years_result_view(r),
{
    match acc {
        Err(e) => {
            proof {
                assert forall|done: Seq<Seq<char>>|
                    check_lines(done) == years_result_view(acc) && done.len() + 1 == number implies check_lines(
                        #[trigger] done.push(v@.subrange(start as int, end as int)),
                    ) == years_result_view(Err::<Vec<(usize, Vec<u8>)>, ValidationError>(e)) by {
                    assert(done.push(v@.subrange(start as int, end as int)).drop_last() =~= done);
                }
            }
            Err(e)
        },
        Ok(years) => {
            let mut years = years;
            let outcome = check_line(content, v, start, end, number);
            let ghost before = years@;
            match outcome {
                Err(e) => {
                    proof {
                        assert forall|done: Seq<Seq<char>>|
                            check_lines(done) == years_result_view(acc) && done.len() + 1 == number implies check_lines(
                                #[trigger] done.push(v@.subrange(start as int, end as int)),
                            ) == years_result_view(Err::<Vec<(usize, Vec<u8>)>, ValidationError>(e)) by {
                            assert(done.push(v@.subrange(start as int, end as int)).drop_last() =~= done);
                        }
                    }
                    Err(e)
                },
                Ok(None) => {
                    proof {
                        assert forall|done: Seq<Seq<char>>|
                            check_lines(done) == years_result_view(acc) && done.len() + 1 == number implies check_lines(
                                #[trigger] done.push(v@.subrange(start as int, end as int)),
                            ) == years_result_view(Ok::<Vec<(usize, Vec<u8>)>, ValidationError>(years)) by {
                            assert(done.push(v@.subrange(start as int, end as int)).drop_last() =~= done);
                        }
                    }
                    Ok(years)
                },
                Ok(Some(y)) => {
                    let ghost yv = (y.0 as nat, y.1@);
                    years.push(y);
                    proof {
                        assert(years_view(years@) =~= years_view(before).push(yv));
                        assert forall|done: Seq<Seq<char>>|
                            check_lines(done) == years_result_view(acc) && done.len() + 1 == number implies check_lines(
                                #[trigger] done.push(v@.subrange(start as int, end as int)),
                            ) == years_result_view(Ok::<Vec<(usize, Vec<u8>)>, ValidationError>(years)) by {
                            assert(done.push(v@.subrange(start as int, end as int)).drop_last() =~= done);
                        }
                    }
                    Ok(years)
                },
            }
        },
    }
}

/// Validates the progress text: every non-blank line must read `year: d1,...,d25` with each day
/// 0, 1 or 2; lines are checked in order and the first failure is returned.
pub fn validate_input(content: &str) -> (r: Result<Vec<(usize, Vec<u8>)>, ValidationError>)
    ensures
        years_result_view(r) == validation(content@),
{
    let v = to_chars(content);
    let n = v.len();
    let ghost s = v@;
    let mut acc: Result<Vec<(usize, Vec<u8>)>, ValidationError> = Ok(Vec::new());
    let mut start: usize = 0;
    let mut i: usize = 0;
    let mut count: usize = 0;
    let ghost mut done: Seq<Seq<char>> = Seq::empty();
    proof {
        assert(s.subrange(0, 0) =~= Seq::<char>::empty());
        assert(done.push(Seq::<char>::empty()) =~= seq![Seq::<char>::empty()]);
        assert(years_view(Seq::<(usize, Vec<u8>)>::empty()) =~= Seq::<YearView>::empty());
        assert(done.map_values(|x: Seq<char>| strip_cr(x)) =~= Seq::<Seq<char>>::empty());
    }
    while i < n
        invariant
            start <= i <= n == v@.len(),
            s == v@,
            v@ == content@,
            count == done.len() <= start,
            pieces(s.subrange(0, i as int), '\n') == done.push(v@.subrange(start as int, i as int)),
            check_lines(done.map_values(|x: Seq<char>| strip_cr(x))) == years_result_view(acc),
        decreases n - i,
    {
        proof {
            lemma_pieces_step(s, i as int, start as int, done, '\n');
        }
        if v[i] == '\n' {
            let end = if i > start && v[i - 1] == '\r' { i - 1 } else { i };
            proof {
                let p = v@.subrange(start as int, i as int);
                if i > start && v@[i - 1] == '\r' {
                    assert(p.drop_last() =~= v@.subrange(start as int, end as int));
                } else {
                    assert(p =~= v@.subrange(start as int, end as int));
                }
                assert(strip_cr(p) == v@.subrange(start as int, end as int));
            }
            acc = add_line(acc, content, &v, start, end, count + 1);
            proof {
                let p = v@.subrange(start as int, i as int);
                let f = |x: Seq<char>| strip_cr(x);
                assert(done.push(p).map_values(f) =~= done.map_values(f).push(strip_cr(p)));
                done = done.push(p);
            }
            count = count + 1;
            start = i + 1;
            proof {
                assert(v@.subrange(start as int, start as int) =~= s.subrange(i + 1, i + 1));
            }
        }
        i = i + 1;
    }
    proof {
        assert(s.subrange(0, n as int) =~= s);
        let f = |x: Seq<char>| strip_cr(x);
        let p = pieces(s, '\n');
        assert(p.drop_last() =~= done);
    }
    if start < n {
        acc = add_line(acc, content, &v, start, n, count + 1);
    }
    match acc {
        Ok(years) => {
            if years.len() == 0 {
                Err(ValidationError::EmptyInput)
            } else {
                Ok(years)
            }
        },
        Err(e) => Err(e),
    }
}

/// The human-readable description of a validation error.
pub open spec fn error_text(e: ErrorView) -> Seq<char> {
    match e {
        ErrorView::EmptyInput => "No valid data found in input"@,
        ErrorView::InvalidLineFormat { line, content } =>
            "Invalid line format on line "@ + decimal(line) + ": "@ + content,
        ErrorView::InvalidYear { line, year } => "Invalid year on line "@ + decimal(line) + ": "@ + year,
        ErrorView::InvalidDayCount { year, count } =>
            "Year "@ + decimal(year) + " has "@ + decimal(count) + " days, expected 25"@,
        ErrorView::InvalidStarValue { year } =>
            "Year "@ + decimal(year) + " has invalid stars (must be 0, 1, or 2)"@,
        ErrorView::ParseError { year, error } => "Error parsing year "@ + decimal(year) + ": "@ + error,
    }
}

impl ValidationError {
    /// The description of the error, naming the rule that failed.
    pub fn message(&self) -> (r: String)
        ensures
            r@ == error_text(self@),
    {
        let mut out = String::new();
        match self {
            ValidationError::EmptyInput => {
                out.append("No valid data found in input");
            },
            ValidationError::InvalidLineFormat { line, content } => {
                out.append("Invalid line format on line ");
                push_decimal(&mut out, *line as u64);
                out.append(": ");
                out.append(content.as_str());
            },
            ValidationError::InvalidYear { line, year } => {
                out.append("Invalid year on line ");
                push_decimal(&mut out, *line as u64);
                out.append(": ");
                out.append(year.as_str());
            },
            ValidationError::InvalidDayCount { year, count } => {
                out.append("Year ");
                push_decimal(&mut out, *year as u64);
                out.append(" has ");
                push_decimal(&mut out, *count as u64);
                out.append(" days, expected 25");
            },
            ValidationError::InvalidStarValue { year } => {
                out.append("Year ");
                push_decimal(&mut out, *year as u64);
                out.append(" has invalid stars (must be 0, 1, or 2)");
            },
            ValidationError::ParseError { year, error } => {
                out.append("Error parsing year ");
                push_decimal(&mut out, *year as u64);
                out.append(": ");
                out.append(error.as_str());
            },
        }
        proof {
            assert(out@ =~= error_text(self@));
        }
        out
    }
}

} // verus!
