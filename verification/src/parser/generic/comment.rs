use crate::parser::cpp::comment::CppComment;
use crate::text::{
    char_at, find_word, find_word_bounds, found, lower, run_end, run_end_bounds, seen, within,
    word_at, CharClass, Expected, Failure, Outcome, ParseError, Source,
};
use vstd::prelude::*;
use vstd::std_specs::convert::FromSpec;
use vstd::string::StringExecFns;

verus! {

/// A line without what is dropped in front of it: white space, `*` and `/`.
pub open spec fn stripped(line: Seq<char>) -> Seq<char> {
    line.subrange(run_end(line, 0, CharClass::Indent), line.len() as int)
}

/// Drops the white space, `*` and `/` in front of a comment line.
pub fn strip_indent<'a>(input: &'a str) -> (r: &'a str)
    ensures
        r@ == stripped(input@),
{
    let src = Source::new(input);
    let k = src.run(0, CharClass::Indent);
    src.rest(k)
}

/// The part of the text between `from` and `to` without what is dropped in
/// front of a comment line.
pub open spec fn stripped_part(s: Seq<char>, from: int, to: int) -> Seq<char> {
    s.subrange(lower(run_end(s, from, CharClass::Indent), to), to)
}

/// The lines of a comment as one text, a line feed between two of them.
pub open spec fn joined(lines: Seq<Seq<char>>) -> Seq<char>
    decreases lines.len(),
{
    if lines.len() == 0 {
        Seq::empty()
    } else if lines.len() == 1 {
        lines[0]
    } else {
        joined(lines.drop_last()) + "\n"@ + lines.last()
    }
}

/// One comment line at `i`: `///` or `//`, then the line up to its end,
/// which is taken too. The value is the line without the mark and without
/// what is dropped in front. A line that ends in a carriage return that no
/// line feed follows is no comment line.
pub open spec fn line_comment(s: Seq<char>, i: int) -> Option<(Seq<char>, int)> {
    let p = if word_at(s, i, "///"@) {
        i + "///"@.len()
    } else {
        i + "//"@.len()
    };
    let k = run_end(s, p, CharClass::NoBreak);
    if !word_at(s, i, "///"@) && !word_at(s, i, "//"@) {
        None
    } else if char_at(s, k, '\r') && !char_at(s, k + 1, '\n') {
        None
    } else {
        Some(
            (
                stripped_part(s, p, k),
                if char_at(s, k, '\r') {
                    k + 2
                } else if char_at(s, k, '\n') {
                    k + 1
                } else {
                    k
                },
            ),
        )
    }
}

/// A comment line starts with its mark, so it ends behind its start, and
/// inside the text.
pub proof fn line_comment_bounds(s: Seq<char>, i: int)
    requires
        0 <= i <= s.len(),
    ensures
        line_comment(s, i) matches Some((_, end)) ==> i < end <= s.len(),
{
    reveal_strlit("///");
    reveal_strlit("//");
    let p = if word_at(s, i, "///"@) {
        i + "///"@.len()
    } else {
        i + "//"@.len()
    };
    if word_at(s, i, "///"@) || word_at(s, i, "//"@) {
        run_end_bounds(s, p, CharClass::NoBreak);
    }
}

/// The comment lines that follow one another from `i` on, added to `done`.
pub open spec fn line_comments(s: Seq<char>, i: int, done: Seq<Seq<char>>) -> (
    Seq<Seq<char>>,
    int,
)
    decreases s.len() - i,
{
    if 0 <= i <= s.len() {
        match line_comment(s, i) {
            Some((value, end)) => {
                proof {
                    line_comment_bounds(s, i);
                }
                line_comments(s, end, done.push(value))
            },
            None => (done, i),
        }
    } else {
        (done, i)
    }
}

/// The lines of the text between `from` and `to`, added to `done`: each
/// ends at a line feed, a carriage return before that line feed is no part
/// of it, what is dropped in front of a comment line is dropped, and a
/// line of which nothing is left is left out.
pub open spec fn kept_lines(s: Seq<char>, from: int, to: int, done: Seq<Seq<char>>) -> Seq<
    Seq<char>,
>
    decreases to - from,
{
    if from < 0 || from >= to || to > s.len() {
        done
    } else {
        let feed = lower(run_end(s, from, CharClass::InLine), to);
        let end = if from < feed < to && s[feed - 1] == '\r' {
            feed - 1
        } else {
            feed
        };
        let start = lower(run_end(s, from, CharClass::Indent), end);
        let now = if start < end {
            done.push(s.subrange(start, end))
        } else {
            done
        };
        if feed < to {
            proof {
                run_end_bounds(s, from, CharClass::InLine);
            }
            kept_lines(s, feed + 1, to, now)
        } else {
            now
        }
    }
}

/// A block comment at `i`: `/*`, then everything up to the first `*/`. The
/// value is its lines.
pub open spec fn block_comment(s: Seq<char>, i: int) -> Outcome<Seq<Seq<char>>> {
    if !word_at(s, i, "/*"@) {
        Outcome::Fail { at: i, expected: Expected::Word }
    } else {
        let from = i + "/*"@.len();
        match find_word(s, from, "*/"@) {
            Some(k) => Outcome::Match {
                value: kept_lines(s, from, k, Seq::empty()),
                end: k + "*/"@.len(),
            },
            None => Outcome::Fail { at: from, expected: Expected::Closing },
        }
    }
}

/// The comment at `i`: comment lines that follow one another, or else one
/// block comment. The value is its text.
#[verifier::opaque]
pub open spec fn comment(s: Seq<char>, i: int) -> Outcome<Seq<char>> {
    match line_comment(s, i) {
        Some(_) => {
            let (lines, end) = line_comments(s, i, Seq::empty());
            Outcome::Match { value: joined(lines), end }
        },
        None => match block_comment(s, i) {
            Outcome::Match { value, end } => Outcome::Match { value: joined(value), end },
            Outcome::Fail { at, expected } => Outcome::Fail { at, expected },
        },
    }
}

/// The comment at `i` if there is one, and where it ends; nothing is taken
/// where there is none.
pub open spec fn optional_comment(s: Seq<char>, i: int) -> (Option<Seq<char>>, int) {
    match comment(s, i) {
        Outcome::Match { value, end } => (Some(value), end),
        Outcome::Fail { .. } => (None, i),
    }
}

/// Comment lines end at or behind their start and inside the text.
pub proof fn line_comments_bounds(s: Seq<char>, i: int, done: Seq<Seq<char>>)
    requires
        0 <= i <= s.len(),
    ensures
        i <= line_comments(s, i, done).1 <= s.len(),
    decreases s.len() - i,
{
    line_comment_bounds(s, i);
    match line_comment(s, i) {
        Some((value, end)) => {
            line_comments_bounds(s, end, done.push(value));
        },
        None => {},
    }
}

/// A comment ends behind its start and inside the text.
pub proof fn comment_bounds(s: Seq<char>, i: int)
    requires
        0 <= i <= s.len(),
    ensures
        comment(s, i) matches Outcome::Match { value, end } ==> i < end <= s.len(),
        i <= optional_comment(s, i).1 <= s.len(),
{
    reveal(comment);
    reveal_strlit("/*");
    reveal_strlit("*/");
    line_comment_bounds(s, i);
    line_comments_bounds(s, i, Seq::empty());
    match line_comment(s, i) {
        Some((value, end)) => {
            line_comments_bounds(s, end, Seq::empty().push(value));
        },
        None => {
            find_word_bounds(s, i + "/*"@.len(), "*/"@);
        },
    }
}

fn stripped_from(src: &Source, from: usize, to: usize) -> (r: usize)
    requires
        from <= to <= src@.len(),
    ensures
        r == lower(run_end(src@, from as int, CharClass::Indent), to as int),
        from <= r <= to,
{
    let k = src.run(from, CharClass::Indent);
    if k <= to {
        k
    } else {
        to
    }
}

fn line_comment_at<'a>(src: &Source<'a>, i: usize) -> (r: Option<(&'a str, usize)>)
    requires
        i <= src@.len(),
    ensures
        found(r) == line_comment(src@, i as int),
        r matches Some((_, e)) ==> i < e <= src@.len(),
{
    proof {
        reveal_strlit("///");
        reveal_strlit("//");
    }
    let p = match src.word(i, "///") {
        Some(p) => p,
        None => match src.word(i, "//") {
            Some(p) => p,
            None => {
                return None;
            },
        },
    };
    let k = src.run(p, CharClass::NoBreak);
    let start = stripped_from(src, p, k);
    match src.after_char(k, '\r') {
        Some(feed) => match src.after_char(feed, '\n') {
            Some(end) => Some((src.slice(start, k), end)),
            None => None,
        },
        None => match src.after_char(k, '\n') {
            Some(end) => Some((src.slice(start, k), end)),
            None => Some((src.slice(start, k), k)),
        },
    }
}

fn kept_lines_at<'a>(src: &Source<'a>, from: usize, to: usize) -> (r: Vec<&'a str>)
    requires
        from <= to <= src@.len(),
    ensures
        r.deep_view() == kept_lines(src@, from as int, to as int, Seq::empty()),
{
    let mut lines: Vec<&'a str> = Vec::new();
    let mut j: usize = from;
    assert(lines.deep_view() =~= Seq::<Seq<char>>::empty());
    while j < to
        invariant
            from <= j,
            to <= src@.len(),
            kept_lines(src@, from as int, to as int, Seq::empty()) == kept_lines(
                src@,
                j as int,
                to as int,
                lines.deep_view(),
            ),
        decreases to + 1 - j,
    {
        let line_end = src.run(j, CharClass::InLine);
        let feed = if line_end <= to {
            line_end
        } else {
            to
        };
        let end = if j < feed && feed < to && src.at(feed - 1) == '\r' {
            feed - 1
        } else {
            feed
        };
        let start = stripped_from(src, j, end);
        if start < end {
            let ghost before = lines.deep_view();
            lines.push(src.slice(start, end));
            assert(lines.deep_view() =~= before.push(src@.subrange(start as int, end as int)));
        }
        if feed < to {
            j = feed + 1;
        } else {
            j = to;
        }
    }
    lines
}

fn join_lines(lines: &Vec<&str>) -> (r: String)
    ensures
        r@ == joined(lines.deep_view()),
{
    let mut text = String::new();
    let mut k: usize = 0;
    while k < lines.len()
        invariant
            k <= lines.len(),
            text@ == joined(lines.deep_view().take(k as int)),
        decreases lines.len() - k,
    {
        let ghost before = lines.deep_view().take(k as int);
        let ghost now = lines.deep_view().take(k + 1);
        assert(now.drop_last() =~= before);
        assert(now.last() == lines@[k as int]@);
        if k > 0 {
            text.append("\n");
        }
        text.append(lines[k]);
        assert(text@ =~= joined(now));
        k = k + 1;
    }
    assert(lines.deep_view().take(k as int) =~= lines.deep_view());
    text
}

/// The comment at `i`.
pub fn comment_at(src: &Source, i: usize) -> (r: Result<(CppComment, usize), Failure>)
    requires
        i <= src@.len(),
    ensures
        seen(r) == comment(src@, i as int),
        within(r, i, src@.len()),
{
    reveal(comment);
    match line_comment_at(src, i) {
        Some((first, e)) => {
            let mut lines: Vec<&str> = Vec::new();
            assert(lines.deep_view() =~= Seq::<Seq<char>>::empty());
            lines.push(first);
            assert(lines.deep_view() =~= Seq::<Seq<char>>::empty().push(first@));
            let mut j: usize = e;
            loop
                invariant
                    i <= j <= src@.len(),
                    line_comments(src@, i as int, Seq::empty()) == line_comments(
                        src@,
                        j as int,
                        lines.deep_view(),
                    ),
                ensures
                    i <= j <= src@.len(),
                    line_comments(src@, i as int, Seq::empty()) == (lines.deep_view(), j as int),
                decreases src@.len() - j,
            {
                match line_comment_at(src, j) {
                    Some((line, next)) => {
                        let ghost before = lines.deep_view();
                        lines.push(line);
                        assert(lines.deep_view() =~= before.push(line@));
                        j = next;
                    },
                    None => {
                        break ;
                    },
                }
            }
            Ok((CppComment { comment: join_lines(&lines) }, j))
        },
        None => {
            proof {
                find_word_bounds(src@, i + "/*"@.len(), "*/"@);
            }
            match src.word(i, "/*") {
                None => Err(Failure { at: i, expected: Expected::Word }),
                Some(from) => match src.find(from, "*/") {
                    None => Err(Failure { at: from, expected: Expected::Closing }),
                    Some((k, end)) => {
                        let lines = kept_lines_at(src, from, k);
                        Ok((CppComment { comment: join_lines(&lines) }, end))
                    },
                },
            }
        },
    }
}

/// The comment at `i` if there is one.
pub fn optional_comment_at(src: &Source, i: usize) -> (r: (Option<CppComment>, usize))
    requires
        i <= src@.len(),
    ensures
        (r.0.deep_view(), r.1 as int) == optional_comment(src@, i as int),
        i <= r.1 <= src@.len(),
{
    match comment_at(src, i) {
        Ok((c, end)) => (Some(c), end),
        Err(_) => (None, i),
    }
}

/// Whether `made` is what `T` makes of a text with the characters `text`,
/// for a `T` whose `from` is what its `from_spec` says.
pub open spec fn made_of<T: From<String>>(made: T, text: Seq<char>) -> bool {
    T::obeys_from_spec() ==> exists|from: String|
        #![trigger T::from_spec(from)]
        from@ == text && made == T::from_spec(from)
}

/// What `CppComment` makes of a text holds that text.
pub proof fn made_comment(made: CppComment, text: Seq<char>)
    requires
        made_of(made, text),
    ensures
        made.deep_view() == text,
{
}

/// `r` tells a caller what `o` says of the comment at the start of `s`, with
/// its text made into a `T`.
pub open spec fn reports_made<'a, T: From<String>>(
    r: Result<(&'a str, T), ParseError<'a>>,
    s: Seq<char>,
    o: Outcome<Seq<char>>,
) -> bool {
    match o {
        Outcome::Match { value, end } => {
            &&& r is Ok
            &&& 0 <= end <= s.len()
            &&& r->Ok_0.0@ == s.subrange(end, s.len() as int)
            &&& made_of(r->Ok_0.1, value)
        },
        Outcome::Fail { at, expected } => {
            &&& r is Err
            &&& 0 <= at <= s.len()
            &&& r->Err_0.rest@ == s.subrange(at, s.len() as int)
            &&& r->Err_0.expected == expected
            &&& r->Err_0.scope.deep_view() == Seq::<Seq<char>>::empty()
        },
    }
}

/// Reads the comment at the start of `input`: comment lines that follow one
/// another without anything between them, or one block comment. Its text is
/// handed to `T`.
pub fn parse_comment<'a, T: From<String>>(input: &'a str) -> (r: Result<
    (&'a str, T),
    ParseError<'a>,
>)
    ensures
        reports_made(r, input@, comment(input@, 0)),
{
    let src = Source::new(input);
    match src.report(comment_at(&src, 0)) {
        Ok((rest, read)) => {
            let text = read.comment;
            let made = T::from(text);
            assert(T::obeys_from_spec() ==> text@ == comment(input@, 0)->value && made
                == T::from_spec(text));
            Ok((rest, made))
        },
        Err(e) => Err(e),
    }
}

} // verus!
