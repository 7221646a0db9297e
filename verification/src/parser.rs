use crate::text::{
    blanks_end, flat, reports, run_end_bounds, seen, within, CharClass, Expected, Failure, Outcome,
    ParseError, Source,
};
use vstd::prelude::*;

pub mod cpp;
pub mod generic;
pub mod ue;

verus! {

/// Whether `c` may stand in a name: a letter, a digit, `_` or `-`.
pub fn is_ident_char(c: char) -> (r: bool)
    ensures
        r == CharClass::Name.has(c),
{
    CharClass::Name.test(c)
}

/// Whether `c` may follow a backslash in a name.
pub open spec fn escapable(c: char) -> bool {
    c == '"' || c == 'n' || c == '\\'
}

/// Where the name that started at `start` and has reached `j` ends. A name
/// is made of name characters and of backslashes, each with one character
/// behind it that may follow a backslash. It ends at the first character
/// that is neither, and takes the whole text where there is none.
pub open spec fn name_end(s: Seq<char>, start: int, j: int) -> Result<int, (int, Expected)>
    decreases s.len() - j,
{
    if j < 0 || j >= s.len() {
        Ok(j)
    } else if CharClass::Name.has(s[j]) {
        name_end(s, start, j + 1)
    } else if s[j] == '\\' {
        if j + 1 >= s.len() {
            Err((start, Expected::Name))
        } else if escapable(s[j + 1]) {
            name_end(s, start, j + 2)
        } else {
            Err((j + 1, Expected::Escape))
        }
    } else if j == start {
        Err((start, Expected::Name))
    } else {
        Ok(j)
    }
}

/// The name at `i`. At the end of the text there is a name, the empty one.
pub open spec fn name(s: Seq<char>, i: int) -> Outcome<Seq<char>> {
    match name_end(s, i, i) {
        Ok(e) => Outcome::Match { value: s.subrange(i, e), end: e },
        Err((at, expected)) => Outcome::Fail { at, expected },
    }
}

/// The name at `i` with the blanks on both sides of it.
pub open spec fn spaced_name(s: Seq<char>, i: int) -> Outcome<Seq<char>> {
    match name(s, blanks_end(s, i)) {
        Outcome::Match { value, end } => Outcome::Match { value, end: blanks_end(s, end) },
        Outcome::Fail { at, expected } => Outcome::Fail { at, expected },
    }
}

/// A name ends at or behind the place where it has got to and inside the
/// text.
pub proof fn name_end_bounds(s: Seq<char>, start: int, j: int)
    requires
        0 <= j <= s.len(),
    ensures
        name_end(s, start, j) matches Ok(e) ==> j <= e <= s.len(),
    decreases s.len() - j,
{
    if j < s.len() {
        if CharClass::Name.has(s[j]) {
            name_end_bounds(s, start, j + 1);
        } else if s[j] == '\\' && j + 1 < s.len() && escapable(s[j + 1]) {
            name_end_bounds(s, start, j + 2);
        }
    }
}

/// A name with the blanks around it ends at or behind its start and inside
/// the text.
pub proof fn spaced_name_bounds(s: Seq<char>, i: int)
    requires
        0 <= i <= s.len(),
    ensures
        spaced_name(s, i) matches Outcome::Match { value, end } ==> i <= end <= s.len(),
{
    run_end_bounds(s, i, CharClass::Blank);
    name_end_bounds(s, blanks_end(s, i), blanks_end(s, i));
    match name(s, blanks_end(s, i)) {
        Outcome::Match { value, end } => {
            run_end_bounds(s, end, CharClass::Blank);
        },
        Outcome::Fail { .. } => {},
    }
}

/// The name at `i`.
pub fn name_at<'a>(src: &Source<'a>, i: usize) -> (r: Result<(&'a str, usize), Failure>)
    requires
        i <= src@.len(),
    ensures
        seen(r) == name(src@, i as int),
        within(r, i, src@.len()),
{
    let n = src.len();
    let mut j: usize = i;
    while j < n
        invariant
            i <= j <= n,
            n == src@.len(),
            name_end(src@, i as int, i as int) == name_end(src@, i as int, j as int),
        decreases n - j,
    {
        let c = src.at(j);
        if is_ident_char(c) {
            j = j + 1;
        } else if c == '\\' {
            if j + 1 >= n {
                return Err(Failure { at: i, expected: Expected::Name });
            }
            let d = src.at(j + 1);
            if d == '"' || d == 'n' || d == '\\' {
                j = j + 2;
            } else {
                return Err(Failure { at: j + 1, expected: Expected::Escape });
            }
        } else if j == i {
            return Err(Failure { at: i, expected: Expected::Name });
        } else {
            return Ok((src.slice(i, j), j));
        }
    }
    Ok((src.slice(i, j), j))
}

/// The name at `i` with the blanks on both sides of it.
pub fn spaced_name_at<'a>(src: &Source<'a>, i: usize) -> (r: Result<(&'a str, usize), Failure>)
    requires
        i <= src@.len(),
    ensures
        seen(r) == spaced_name(src@, i as int),
        within(r, i, src@.len()),
{
    let b = src.blanks(i);
    match name_at(src, b) {
        Ok((value, e)) => Ok((value, src.blanks(e))),
        Err(f) => Err(f),
    }
}

/// Reads a name at the start of `input`: name characters and backslash
/// escapes, as far as they go.
pub fn parse_str<'a>(input: &'a str) -> (r: Result<(&'a str, &'a str), ParseError<'a>>)
    ensures
        reports(r, input@, flat(name(input@, 0))),
{
    let src = Source::new(input);
    src.report(name_at(&src, 0))
}

/// Reads a name at the start of `input`, with the blanks on both sides of it.
pub fn parse_ws_str<'a>(input: &'a str) -> (r: Result<(&'a str, &'a str), ParseError<'a>>)
    ensures
        reports(r, input@, flat(spaced_name(input@, 0))),
{
    let src = Source::new(input);
    src.report(spaced_name_at(&src, 0))
}

} // verus!
