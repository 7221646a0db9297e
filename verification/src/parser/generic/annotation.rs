use crate::text::{
    char_at, run_end, run_end_bounds, seen, within, word_at, CharClass, Expected, Failure,
    Outcome, Source,
};
use vstd::prelude::*;

verus! {

/// What a dialect puts in front of a declaration. A dialect says by `rule`
/// what one annotation is in a text, and `parse` reads it so.
pub trait Annotation<'a>: Sized + DeepView<V = Seq<Seq<char>>> {
    /// One annotation at `i`: the texts that it holds and where it ends.
    spec fn rule(s: Seq<char>, i: int) -> Outcome<Seq<Seq<char>>>;

    /// Reads one annotation at `i`.
    fn parse(src: &Source<'a>, i: usize) -> (r: Result<(Self, usize), Failure>)
        requires
            i <= src@.len(),
        ensures
            seen(r) == Self::rule(src@, i as int),
            within(r, i, src@.len()),
    ;
}

/// The annotation of a dialect that has none.
#[derive(Debug, PartialEq, Default, Clone, Copy)]
pub struct NoAnnotation;

impl DeepView for NoAnnotation {
    type V = Seq<Seq<char>>;

    open spec fn deep_view(&self) -> Seq<Seq<char>> {
        Seq::empty()
    }
}

impl<'a> Annotation<'a> for NoAnnotation {
    /// Always there, holds nothing and takes nothing.
    open spec fn rule(s: Seq<char>, i: int) -> Outcome<Seq<Seq<char>>> {
        Outcome::Match { value: Seq::empty(), end: i }
    }

    fn parse(src: &Source<'a>, i: usize) -> (r: Result<(Self, usize), Failure>) {
        Ok((NoAnnotation, i))
    }
}

/// The annotations that follow one another from `i` on, added to `done`;
/// `None` where one of them takes nothing, so that there would be no end of
/// them.
pub open spec fn annotations_from<'a, A: Annotation<'a>>(
    s: Seq<char>,
    i: int,
    done: Seq<Seq<Seq<char>>>,
) -> Option<(Seq<Seq<Seq<char>>>, int)>
    decreases s.len() - i,
{
    match A::rule(s, i) {
        Outcome::Match { value, end } => {
            if i < end <= s.len() {
                annotations_from::<A>(s, end, done.push(value))
            } else {
                None
            }
        },
        Outcome::Fail { .. } => Some((done, i)),
    }
}

/// The annotations in front of a declaration at `i` and where they end.
/// Where there would be no end of them there is none, and nothing is taken.
pub open spec fn annotations<'a, A: Annotation<'a>>(s: Seq<char>, i: int) -> (
    Option<Seq<Seq<Seq<char>>>>,
    int,
) {
    match annotations_from::<A>(s, i, Seq::empty()) {
        Some((list, end)) => (Some(list), end),
        None => (None, i),
    }
}

/// Annotations end at or behind their start and inside the text.
pub proof fn annotations_from_bounds<'a, A: Annotation<'a>>(
    s: Seq<char>,
    i: int,
    done: Seq<Seq<Seq<char>>>,
)
    requires
        0 <= i <= s.len(),
    ensures
        annotations_from::<A>(s, i, done) matches Some((_, e)) ==> i <= e <= s.len(),
    decreases s.len() - i,
{
    match A::rule(s, i) {
        Outcome::Match { value, end } => {
            if i < end <= s.len() {
                annotations_from_bounds::<A>(s, end, done.push(value));
            }
        },
        Outcome::Fail { .. } => {},
    }
}

/// Annotations end at or behind their start and inside the text.
pub proof fn annotations_bounds<'a, A: Annotation<'a>>(s: Seq<char>, i: int)
    requires
        0 <= i <= s.len(),
    ensures
        i <= annotations::<A>(s, i).1 <= s.len(),
{
    annotations_from_bounds::<A>(s, i, Seq::empty());
}

/// The dialect without annotations finds none in front of a declaration
/// and takes nothing there.
pub proof fn no_annotation_takes_nothing(s: Seq<char>, i: int)
    ensures
        annotations::<NoAnnotation>(s, i) == (None::<Seq<Seq<Seq<char>>>>, i),
        kept(annotations::<NoAnnotation>(s, i).0) == Seq::<Seq<char>>::empty(),
{
}

/// The one annotation that a declaration keeps: the first, or one that
/// holds nothing.
pub open spec fn kept(list: Option<Seq<Seq<Seq<char>>>>) -> Seq<Seq<char>> {
    match list {
        Some(l) => if l.len() > 0 {
            l[0]
        } else {
            Seq::empty()
        },
        None => Seq::empty(),
    }
}

/// Of the annotations of a declaration the one that it keeps: the first,
/// or `none` where there is none.
pub fn keep_first<'a, A: Annotation<'a>>(annotations: Option<Vec<A>>, none: A) -> (r: A)
    requires
        none.deep_view() == Seq::<Seq<char>>::empty(),
    ensures
        r.deep_view() == kept(annotations.deep_view()),
{
    match annotations {
        Some(list) => {
            let mut list = list;
            if list.len() > 0 {
                assert(list.deep_view()[0] == list@[0].deep_view());
                list.swap_remove(0)
            } else {
                none
            }
        },
        None => none,
    }
}

/// Where the arguments in parentheses end that have got to `j` with `open`
/// parentheses open: behind the parenthesis that closes the first of them.
/// `None` where that does not stand before `stop`.
pub open spec fn arguments_end(s: Seq<char>, j: int, open: nat, stop: int) -> Option<int>
    decreases stop - j,
{
    if j < 0 || j >= stop || j >= s.len() {
        None
    } else if s[j] == '(' {
        arguments_end(s, j + 1, open + 1, stop)
    } else if s[j] == ')' {
        if open <= 1 {
            Some(j + 1)
        } else {
            arguments_end(s, j + 1, (open - 1) as nat, stop)
        }
    } else {
        arguments_end(s, j + 1, open, stop)
    }
}

/// Where a macro ends whose name ends at `from`: behind its arguments,
/// where they open right behind the name and close on the same line, and at
/// the end of the line otherwise.
pub open spec fn macro_end(s: Seq<char>, from: int) -> int {
    let line = run_end(s, from, CharClass::InLine);
    if char_at(s, from, '(') && arguments_end(s, from, 0, line) is Some {
        arguments_end(s, from, 0, line).unwrap()
    } else {
        line
    }
}

/// One annotation of the form that the reflection macros have, at `i`: the
/// name of the macro with its arguments. The annotation holds that text as
/// it stands, the name included; nothing in it is read.
pub open spec fn macro_text(s: Seq<char>, i: int, name: Seq<char>) -> Outcome<Seq<Seq<char>>> {
    let e = macro_end(s, i + name.len());
    if word_at(s, i, name) {
        Outcome::Match { value: seq![s.subrange(i, e)], end: e }
    } else {
        Outcome::Fail { at: i, expected: Expected::Word }
    }
}

/// A macro with nothing between its parentheses holds its name and the two
/// parentheses, and ends behind them, whatever follows on the line.
pub proof fn macro_without_arguments(s: Seq<char>, i: int, name: Seq<char>)
    requires
        word_at(s, i, name),
        char_at(s, i + name.len(), '('),
        char_at(s, i + name.len() + 1, ')'),
    ensures
        macro_text(s, i, name) == (Outcome::Match {
            value: seq![s.subrange(i, i + name.len() + 2)],
            end: i + name.len() + 2,
        }),
{
    let from = i + name.len();
    run_end_bounds(s, from + 2, CharClass::InLine);
    assert(run_end(s, from + 1, CharClass::InLine) == run_end(s, from + 2, CharClass::InLine));
    assert(run_end(s, from, CharClass::InLine) == run_end(s, from + 1, CharClass::InLine));
    let line = run_end(s, from, CharClass::InLine);
    assert(arguments_end(s, from + 1, 1, line) == Some(from + 2));
    assert(arguments_end(s, from, 0, line) == Some(from + 2));
}

/// Where the arguments in parentheses that open at `from` end, if they
/// close before `stop`.
pub fn arguments_end_at(src: &Source, from: usize, stop: usize) -> (r: Option<usize>)
    requires
        from <= stop <= src@.len(),
    ensures
        match r {
            Some(e) => arguments_end(src@, from as int, 0, stop as int) == Some(e as int) && from
                < e <= stop,
            None => arguments_end(src@, from as int, 0, stop as int).is_none(),
        },
{
    let mut j: usize = from;
    let mut open: usize = 0;
    while j < stop
        invariant
            from <= j <= stop <= src@.len(),
            open <= j - from,
            arguments_end(src@, from as int, 0, stop as int) == arguments_end(
                src@,
                j as int,
                open as nat,
                stop as int,
            ),
        decreases stop - j,
    {
        let c = src.at(j);
        if c == '(' {
            open = open + 1;
        } else if c == ')' {
            if open <= 1 {
                return Some(j + 1);
            }
            open = open - 1;
        }
        j = j + 1;
    }
    None
}

/// Where a macro ends whose name ends at `from`.
pub fn macro_end_at(src: &Source, from: usize) -> (r: usize)
    requires
        from <= src@.len(),
    ensures
        r == macro_end(src@, from as int),
        from <= r <= src@.len(),
{
    let line = src.run(from, CharClass::InLine);
    if src.is_char(from, '(') {
        if let Some(e) = arguments_end_at(src, from, line) {
            return e;
        }
    }
    line
}

/// Reads the macro of the name `name` at `i`.
pub fn macro_text_at<'a>(src: &Source<'a>, i: usize, name: &str) -> (r: Result<
    (Vec<&'a str>, usize),
    Failure,
>)
    requires
        i <= src@.len(),
    ensures
        seen(r) == macro_text(src@, i as int, name@),
        within(r, i, src@.len()),
{
    match src.word(i, name) {
        Some(from) => {
            let e = macro_end_at(src, from);
            let mut texts: Vec<&'a str> = Vec::new();
            texts.push(src.slice(i, e));
            assert(texts.deep_view() =~= seq![src@.subrange(i as int, e as int)]);
            Ok((texts, e))
        },
        None => Err(Failure { at: i, expected: Expected::Word }),
    }
}

/// The annotations in front of a declaration at `i`.
pub fn annotations_at<'a, A: Annotation<'a>>(src: &Source<'a>, i: usize) -> (r: (
    Option<Vec<A>>,
    usize,
))
    requires
        i <= src@.len(),
    ensures
        (r.0.deep_view(), r.1 as int) == annotations::<A>(src@, i as int),
        i <= r.1 <= src@.len(),
{
    let mut list: Vec<A> = Vec::new();
    let mut j: usize = i;
    assert(list.deep_view() =~= Seq::<Seq<Seq<char>>>::empty());
    loop
        invariant
            i <= j <= src@.len(),
            annotations_from::<A>(src@, i as int, Seq::empty()) == annotations_from::<A>(
                src@,
                j as int,
                list.deep_view(),
            ),
        decreases src@.len() - j,
    {
        match A::parse(src, j) {
            Ok((a, end)) => {
                if end == j {
                    return (None, i);
                }
                let ghost before = list.deep_view();
                let ghost added = a.deep_view();
                list.push(a);
                assert(list.deep_view() =~= before.push(added));
                j = end;
            },
            Err(_) => {
                return (Some(list), j);
            },
        }
    }
}

} // verus!
