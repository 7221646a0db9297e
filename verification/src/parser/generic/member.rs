use crate::parser::cpp::comment::CppComment;
use crate::parser::cpp::ctype::{cpp_type, cpp_type_at, CType, TypeExpr};
use crate::parser::cpp::member::CppMemberModifier;
use crate::parser::generic::annotation::{annotations, annotations_at, kept, Annotation};
use crate::parser::generic::comment::{optional_comment, optional_comment_at};
use crate::parser::{spaced_name, spaced_name_at};
use crate::text::{
    blanks_end, char_at, flat, reports, run_end_bounds, seen, within, word_at, CharClass, Failure,
    Outcome, ParseError, Source,
};
use vstd::prelude::*;

verus! {

/// A data member as a mathematical value.
pub struct MemberModel {
    pub name: Seq<char>,
    pub ctype: TypeExpr,
    pub default_value: Option<TypeExpr>,
    pub comment: Option<Seq<char>>,
    pub modifiers: Seq<CppMemberModifier>,
    /// What the one annotation that is kept holds.
    pub annotation: Seq<Seq<char>>,
}

/// The shape in which a dialect keeps a data member.
pub trait Member<'a>: Sized + DeepView<V = MemberModel> {
    type Annotation: Annotation<'a>;

    /// Makes the member of its parts. Of the annotations the first is kept.
    fn member(
        name: &'a str,
        ctype: CType<'a>,
        default_value: Option<CType<'a>>,
        comment: Option<CppComment>,
        modifiers: Vec<CppMemberModifier>,
        annotations: Option<Vec<Self::Annotation>>,
    ) -> (r: Self)
        ensures
            r.deep_view() == (MemberModel {
                name: name@,
                ctype: ctype.deep_view(),
                default_value: default_value.deep_view(),
                comment: comment.deep_view(),
                modifiers: modifiers@,
                annotation: kept(annotations.deep_view()),
            }),
    ;
}

/// The modifier whose word stands at `i`, and where the word ends.
pub open spec fn modifier_word(s: Seq<char>, i: int) -> Option<(CppMemberModifier, int)> {
    if word_at(s, i, "static"@) {
        Some((CppMemberModifier::Static, i + "static"@.len()))
    } else if word_at(s, i, "const"@) {
        Some((CppMemberModifier::Const, i + "const"@.len()))
    } else if word_at(s, i, "inline"@) {
        Some((CppMemberModifier::Inline, i + "inline"@.len()))
    } else {
        None
    }
}

/// The word of a modifier is not empty and ends inside the text.
pub proof fn modifier_word_bounds(s: Seq<char>, i: int)
    ensures
        modifier_word(s, i) matches Some((_, e)) ==> 0 <= i < e <= s.len(),
{
    reveal_strlit("static");
    reveal_strlit("const");
    reveal_strlit("inline");
}

/// The modifiers from `i` on, added to `done`: blanks may stand before
/// each.
pub open spec fn modifiers(s: Seq<char>, i: int, done: Seq<CppMemberModifier>) -> (
    Seq<CppMemberModifier>,
    int,
)
    decreases s.len() - i,
{
    match modifier_word(s, blanks_end(s, i)) {
        Some((m, e)) => {
            proof {
                modifier_word_bounds(s, blanks_end(s, i));
                if 0 <= i <= s.len() {
                    run_end_bounds(s, i, CharClass::Blank);
                }
            }
            modifiers(s, e, done.push(m))
        },
        None => (done, i),
    }
}

/// The default of a member at `p`: a type in braces, or a type behind `=`,
/// blanks around the type allowed.
pub open spec fn default_value(s: Seq<char>, p: int) -> (Option<TypeExpr>, int) {
    let (d, e) = cpp_type(s, blanks_end(s, p + 1));
    let close = blanks_end(s, e);
    if char_at(s, p, '{') && char_at(s, close, '}') {
        (Some(d), close + 1)
    } else if char_at(s, p, '=') {
        (Some(d), close)
    } else {
        (None, p)
    }
}

/// The data member at `i`, in a dialect whose annotations are `A`.
///
/// In order: a comment; annotations; modifiers; the type; the name; a
/// default. The name must be there; a type is there at every place.
#[verifier::opaque]
pub open spec fn member<'a, A: Annotation<'a>>(s: Seq<char>, i: int) -> Outcome<MemberModel> {
    let (comment, pos1) = optional_comment(s, i);
    let (notes, pos2) = annotations::<A>(s, pos1);
    let (mods, pos3) = modifiers(s, blanks_end(s, pos2), Seq::empty());
    let (ctype, pos4) = cpp_type(s, blanks_end(s, pos3));
    match spaced_name(s, pos4) {
        Outcome::Fail { at, expected } => Outcome::Fail { at, expected },
        Outcome::Match { value: name, end: pos5 } => {
            let (default, pos6) = default_value(s, pos5);
            Outcome::Match {
                value: MemberModel {
                    name,
                    ctype,
                    default_value: default,
                    comment,
                    modifiers: mods,
                    annotation: kept(notes),
                },
                end: pos6,
            }
        },
    }
}

fn modifier_word_at(src: &Source, i: usize) -> (r: Option<(CppMemberModifier, usize)>)
    requires
        i <= src@.len(),
    ensures
        match r {
            Some((m, e)) => modifier_word(src@, i as int) == Some((m, e as int)) && i <= e
                <= src@.len(),
            None => modifier_word(src@, i as int).is_none(),
        },
{
    if let Some(e) = src.word(i, "static") {
        Some((CppMemberModifier::Static, e))
    } else if let Some(e) = src.word(i, "const") {
        Some((CppMemberModifier::Const, e))
    } else if let Some(e) = src.word(i, "inline") {
        Some((CppMemberModifier::Inline, e))
    } else {
        None
    }
}

fn modifiers_at(src: &Source, i: usize) -> (r: (Vec<CppMemberModifier>, usize))
    requires
        i <= src@.len(),
    ensures
        (r.0@, r.1 as int) == modifiers(src@, i as int, Seq::empty()),
        i <= r.1 <= src@.len(),
{
    let mut list: Vec<CppMemberModifier> = Vec::new();
    let mut j: usize = i;
    loop
        invariant
            i <= j <= src@.len(),
            modifiers(src@, i as int, Seq::empty()) == modifiers(src@, j as int, list@),
        ensures
            i <= j <= src@.len(),
            modifiers(src@, i as int, Seq::empty()) == (list@, j as int),
        decreases src@.len() - j,
    {
        match modifier_word_at(src, src.blanks(j)) {
            Some((m, e)) => {
                proof {
                    modifier_word_bounds(src@, blanks_end(src@, j as int));
                }
                list.push(m);
                j = e;
            },
            None => {
                break ;
            },
        }
    }
    (list, j)
}

fn default_value_at<'a>(src: &Source<'a>, p: usize) -> (r: (Option<CType<'a>>, usize))
    requires
        p <= src@.len(),
    ensures
        (r.0.deep_view(), r.1 as int) == default_value(src@, p as int),
        p <= r.1 <= src@.len(),
{
    if let Some(from) = src.after_char(p, '{') {
        let (d, e) = cpp_type_at(src, src.blanks(from));
        let close = src.blanks(e);
        match src.after_char(close, '}') {
            Some(end) => (Some(d), end),
            None => (None, p),
        }
    } else if let Some(from) = src.after_char(p, '=') {
        let (d, e) = cpp_type_at(src, src.blanks(from));
        (Some(d), src.blanks(e))
    } else {
        (None, p)
    }
}

/// The data member at `i`.
pub fn member_at<'a, M: Member<'a>>(src: &Source<'a>, i: usize) -> (r: Result<(M, usize), Failure>)
    requires
        i <= src@.len(),
    ensures
        seen(r) == member::<M::Annotation>(src@, i as int),
        within(r, i, src@.len()),
{
    reveal(member);
    let (comment, pos1) = optional_comment_at(src, i);
    let (notes, pos2) = annotations_at::<M::Annotation>(src, pos1);
    let (mods, pos3) = modifiers_at(src, src.blanks(pos2));
    let (ctype, pos4) = cpp_type_at(src, src.blanks(pos3));
    match spaced_name_at(src, pos4) {
        Err(f) => Err(f),
        Ok((name, pos5)) => {
            let (default, pos6) = default_value_at(src, pos5);
            Ok((M::member(name, ctype, default, comment, mods, notes), pos6))
        },
    }
}

/// Reads a data member at the start of `input`, in the dialect of `M`.
pub fn parse_member<'a, M: Member<'a>>(input: &'a str) -> (r: Result<(&'a str, M), ParseError<'a>>)
    ensures
        reports(r, input@, flat(member::<M::Annotation>(input@, 0))),
{
    let src = Source::new(input);
    src.report(member_at::<M>(&src, 0))
}

} // verus!
