use crate::parser::cpp::ctype::{cpp_type, cpp_type_at, cpp_type_bounds, CType, TypeExpr};
use crate::text::{
    blanks_end, char_at, flat, found, reports, run_end_bounds, seen, within, word_at, CharClass,
    Expected, Failure, Outcome, ParseError, Source,
};
use vstd::prelude::*;

verus! {

/// One template parameter at `i`: `typename` or `class`, a type, and
/// a default behind `=` that is passed over. The value is the type.
pub open spec fn template_param(s: Seq<char>, i: int) -> Option<(TypeExpr, int)> {
    let b = blanks_end(s, i);
    if word_at(s, b, "typename"@) || word_at(s, b, "class"@) {
        let k = if word_at(s, b, "typename"@) {
            b + "typename"@.len()
        } else {
            b + "class"@.len()
        };
        let (t, e) = cpp_type(s, blanks_end(s, k));
        let q = blanks_end(s, e);
        if char_at(s, q, '=') {
            Some((t, cpp_type(s, blanks_end(s, q + 1)).1))
        } else {
            Some((t, q))
        }
    } else {
        None
    }
}

/// A template parameter ends behind its start and inside the text.
pub proof fn template_param_bounds(s: Seq<char>, i: int)
    requires
        0 <= i <= s.len(),
    ensures
        template_param(s, i) matches Some((_, e)) ==> i <= e <= s.len(),
{
    let b = blanks_end(s, i);
    run_end_bounds(s, i, CharClass::Blank);
    if word_at(s, b, "typename"@) || word_at(s, b, "class"@) {
        let k = if word_at(s, b, "typename"@) {
            b + "typename"@.len()
        } else {
            b + "class"@.len()
        };
        run_end_bounds(s, k, CharClass::Blank);
        cpp_type_bounds(s, blanks_end(s, k));
        let e = cpp_type(s, blanks_end(s, k)).1;
        run_end_bounds(s, e, CharClass::Blank);
        let q = blanks_end(s, e);
        if char_at(s, q, '=') {
            run_end_bounds(s, q + 1, CharClass::Blank);
            cpp_type_bounds(s, blanks_end(s, q + 1));
        }
    }
}

/// The template parameters behind one that ended at `j`, added to `done`:
/// each follows a `,` that stands at the end of the one before.
pub open spec fn template_params(s: Seq<char>, j: int, done: Seq<TypeExpr>) -> (
    Seq<TypeExpr>,
    int,
)
    decreases s.len() - j,
{
    if char_at(s, j, ',') {
        match template_param(s, j + 1) {
            Some((t, e)) => {
                proof {
                    template_param_bounds(s, j + 1);
                }
                template_params(s, e, done.push(t))
            },
            None => (done, j),
        }
    } else {
        (done, j)
    }
}

/// Template parameters end at or behind their start and inside the text.
pub proof fn template_params_bounds(s: Seq<char>, j: int, done: Seq<TypeExpr>)
    requires
        0 <= j <= s.len(),
    ensures
        j <= template_params(s, j, done).1 <= s.len(),
    decreases s.len() - j,
{
    if char_at(s, j, ',') {
        template_param_bounds(s, j + 1);
        match template_param(s, j + 1) {
            Some((t, e)) => {
                template_params_bounds(s, e, done.push(t));
            },
            None => {},
        }
    }
}

/// A template header ends at or behind its start and inside the text.
pub proof fn template_header_bounds(s: Seq<char>, i: int)
    requires
        0 <= i <= s.len(),
    ensures
        template_header(s, i) matches Outcome::Match { value, end } ==> i <= end <= s.len(),
{
    let b = blanks_end(s, i);
    run_end_bounds(s, i, CharClass::Blank);
    if word_at(s, b, "template"@) {
        run_end_bounds(s, b + "template"@.len(), CharClass::Blank);
        let open = blanks_end(s, b + "template"@.len());
        if char_at(s, open, '<') {
            template_param_bounds(s, open + 1);
            let (list, e) = match template_param(s, open + 1) {
                Some((t, e)) => {
                    template_params_bounds(s, e, seq![t]);
                    template_params(s, e, seq![t])
                },
                None => (Seq::empty(), open + 1),
            };
            run_end_bounds(s, e, CharClass::Blank);
            let close = blanks_end(s, e);
            if char_at(s, close, '>') {
                run_end_bounds(s, close + 1, CharClass::Blank);
            }
        }
    }
}

/// A template header at `i`: `template`, `<`, parameters with `,` between
/// them, `>`; blanks may stand around `template` and around `>`. The value
/// is the types of the parameters.
pub open spec fn template_header(s: Seq<char>, i: int) -> Outcome<Seq<TypeExpr>> {
    let b = blanks_end(s, i);
    let open = blanks_end(s, b + "template"@.len());
    if !word_at(s, b, "template"@) {
        Outcome::Fail { at: b, expected: Expected::Word }
    } else if !char_at(s, open, '<') {
        Outcome::Fail { at: open, expected: Expected::Char('<') }
    } else {
        let (list, e) = match template_param(s, open + 1) {
            Some((t, e)) => template_params(s, e, seq![t]),
            None => (Seq::empty(), open + 1),
        };
        let close = blanks_end(s, e);
        if char_at(s, close, '>') {
            Outcome::Match { value: list, end: blanks_end(s, close + 1) }
        } else {
            Outcome::Fail { at: close, expected: Expected::Char('>') }
        }
    }
}

fn template_param_at<'a>(src: &Source<'a>, i: usize) -> (r: Option<(CType<'a>, usize)>)
    requires
        i <= src@.len(),
    ensures
        found(r) == template_param(src@, i as int),
        r matches Some((_, e)) ==> i <= e <= src@.len(),
{
    let b = src.blanks(i);
    let k = match src.word(b, "typename") {
        Some(k) => k,
        None => match src.word(b, "class") {
            Some(k) => k,
            None => {
                return None;
            },
        },
    };
    let (t, e) = cpp_type_at(src, src.blanks(k));
    let q = src.blanks(e);
    match src.after_char(q, '=') {
        Some(d) => {
            let (_, end) = cpp_type_at(src, src.blanks(d));
            Some((t, end))
        },
        None => Some((t, q)),
    }
}

/// The template header at `i`.
pub fn template_header_at<'a>(src: &Source<'a>, i: usize) -> (r: Result<
    (Vec<CType<'a>>, usize),
    Failure,
>)
    requires
        i <= src@.len(),
    ensures
        seen(r) == template_header(src@, i as int),
        within(r, i, src@.len()),
{
    let b = src.blanks(i);
    let after = match src.word(b, "template") {
        Some(e) => e,
        None => {
            return Err(Failure { at: b, expected: Expected::Word });
        },
    };
    let open = src.blanks(after);
    let first = match src.after_char(open, '<') {
        Some(e) => e,
        None => {
            return Err(Failure { at: open, expected: Expected::Char('<') });
        },
    };
    let mut list: Vec<CType<'a>> = Vec::new();
    let mut j: usize = first;
    assert(list.deep_view() =~= Seq::<TypeExpr>::empty());
    match template_param_at(src, first) {
        None => {},
        Some((t, e)) => {
            list.push(t);
            assert(list.deep_view() =~= seq![t.deep_view()]);
            j = e;
            loop
                invariant
                    first <= j <= src@.len(),
                    template_params(src@, e as int, seq![t.deep_view()]) == template_params(
                        src@,
                        j as int,
                        list.deep_view(),
                    ),
                ensures
                    first <= j <= src@.len(),
                    template_params(src@, e as int, seq![t.deep_view()]) == (
                        list.deep_view(),
                        j as int,
                    ),
                decreases src@.len() - j,
            {
                match src.after_char(j, ',') {
                    None => {
                        break ;
                    },
                    Some(k) => match template_param_at(src, k) {
                        None => {
                            break ;
                        },
                        Some((next, e)) => {
                            let ghost before = list.deep_view();
                            list.push(next);
                            assert(list.deep_view() =~= before.push(next.deep_view()));
                            j = e;
                        },
                    },
                }
            }
        },
    }
    let close = src.blanks(j);
    match src.after_char(close, '>') {
        Some(e) => Ok((list, src.blanks(e))),
        None => Err(Failure { at: close, expected: Expected::Char('>') }),
    }
}

/// Reads a template header at the start of `input` and gives the types of
/// its parameters.
pub fn parse_template<'a>(input: &'a str) -> (r: Result<(&'a str, Vec<CType<'a>>), ParseError<'a>>)
    ensures
        reports(r, input@, flat(template_header(input@, 0))),
{
    let src = Source::new(input);
    src.report(template_header_at(&src, 0))
}

} // verus!
