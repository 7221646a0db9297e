use crate::parser::cpp::ctype::{cpp_type, cpp_type_at, CType, TypeExpr};
use crate::text::{
    blanks_end, char_at, flat, reports, run_end, run_end_bounds, seen, within, word_at, CharClass,
    Expected, Failure, Nested, Outcome, ParseError, Source,
};
use vstd::prelude::*;
use vstd::string::StringExecFns;

verus! {

/// A variant of an enum as a mathematical value.
pub struct VariantModel {
    pub name: Seq<char>,
    pub value: Option<i64>,
}

/// An enum as a mathematical value.
pub struct EnumModel {
    pub name: Option<Seq<char>>,
    pub variants: Seq<VariantModel>,
    pub ctype: Option<TypeExpr>,
}

/// A variant of an enum: its name, and its value where one is given.
#[derive(Debug, PartialEq, Clone)]
pub struct EnumVariant {
    pub name: String,
    pub value: Option<i64>,
}

impl DeepView for EnumVariant {
    type V = VariantModel;

    open spec fn deep_view(&self) -> VariantModel {
        VariantModel { name: self.name@, value: self.value }
    }
}

/// An enum: its name where it has one, its variants, and the type that it
/// is based on where one is given.
#[derive(Debug, PartialEq, Clone)]
pub struct CppEnum<'a> {
    pub name: Option<String>,
    pub variants: Vec<EnumVariant>,
    pub ctype: Option<CType<'a>>,
}

impl<'a> DeepView for CppEnum<'a> {
    type V = EnumModel;

    open spec fn deep_view(&self) -> EnumModel {
        EnumModel {
            name: self.name.deep_view(),
            variants: self.variants.deep_view(),
            ctype: self.ctype.deep_view(),
        }
    }
}

/// The identifier at `i`: an ASCII letter or `_`, then ASCII letters,
/// digits and `_` as far as they go.
pub open spec fn ascii_identifier(s: Seq<char>, i: int) -> Outcome<Seq<char>> {
    let head = run_end(s, i, CharClass::AsciiHead);
    let e = run_end(s, head, CharClass::AsciiIdent);
    if i < head {
        Outcome::Match { value: s.subrange(i, e), end: e }
    } else {
        Outcome::Fail { at: i, expected: Expected::Identifier }
    }
}

/// What a decimal digit counts.
pub open spec fn digit_value(c: char) -> int {
    c as int - '0' as int
}

/// The number that decimal digits write.
pub open spec fn decimal(digits: Seq<char>) -> int
    decreases digits.len(),
{
    if digits.len() == 0 {
        0
    } else {
        decimal(digits.drop_last()) * 10 + digit_value(digits.last())
    }
}

/// The number that a sign and decimal digits write.
pub open spec fn signed(negative: bool, digits: Seq<char>) -> int {
    if negative {
        -decimal(digits)
    } else {
        decimal(digits)
    }
}

/// The whole number at `i`: `-` if it is negative, and decimal digits. A
/// number that does not fit in 64 bits is a failure at `i`.
pub open spec fn int_number(s: Seq<char>, i: int) -> Outcome<i64> {
    let negative = char_at(s, i, '-');
    let p = if negative {
        i + 1
    } else {
        i
    };
    let e = run_end(s, p, CharClass::Digit);
    let v = signed(negative, s.subrange(p, e));
    if e <= p {
        Outcome::Fail { at: p, expected: Expected::Digit }
    } else if i64::MIN <= v <= i64::MAX {
        Outcome::Match { value: v as i64, end: e }
    } else {
        Outcome::Fail { at: i, expected: Expected::Number }
    }
}

/// The variant at `i`: an identifier, and a whole number behind `=` with
/// blanks around it where one follows.
pub open spec fn variant(s: Seq<char>, i: int) -> Outcome<VariantModel> {
    match ascii_identifier(s, i) {
        Outcome::Fail { at, expected } => Outcome::Fail { at, expected },
        Outcome::Match { value: name, end: e } => {
            let q = blanks_end(s, e);
            let number = int_number(s, blanks_end(s, q + 1));
            if char_at(s, q, '=') && number is Match {
                Outcome::Match {
                    value: VariantModel { name, value: Some(number->value) },
                    end: number->end,
                }
            } else {
                Outcome::Match { value: VariantModel { name, value: None }, end: e }
            }
        },
    }
}

/// A variant ends behind its start and inside the text.
pub proof fn variant_bounds(s: Seq<char>, i: int)
    requires
        0 <= i <= s.len(),
    ensures
        variant(s, i) matches Outcome::Match { value, end } ==> i < end <= s.len(),
{
    run_end_bounds(s, i, CharClass::AsciiHead);
    let head = run_end(s, i, CharClass::AsciiHead);
    run_end_bounds(s, head, CharClass::AsciiIdent);
    let e = run_end(s, head, CharClass::AsciiIdent);
    run_end_bounds(s, e, CharClass::Blank);
    let q = blanks_end(s, e);
    if char_at(s, q, '=') {
        run_end_bounds(s, q + 1, CharClass::Blank);
        let from = blanks_end(s, q + 1);
        let p = if char_at(s, from, '-') {
            from + 1
        } else {
            from
        };
        if p <= s.len() {
            run_end_bounds(s, p, CharClass::Digit);
        }
    }
}

/// The variants behind one that ended at `e`, added to `done`: each stands
/// behind a `,` with blanks around it.
pub open spec fn more_variants(s: Seq<char>, e: int, done: Seq<VariantModel>) -> (
    Seq<VariantModel>,
    int,
)
    decreases s.len() - e,
{
    let q = blanks_end(s, e);
    if 0 <= e <= s.len() && char_at(s, q, ',') {
        match variant(s, blanks_end(s, q + 1)) {
            Outcome::Match { value, end } => {
                proof {
                    run_end_bounds(s, e, CharClass::Blank);
                    run_end_bounds(s, q + 1, CharClass::Blank);
                    variant_bounds(s, blanks_end(s, q + 1));
                }
                more_variants(s, end, done.push(value))
            },
            Outcome::Fail { .. } => (done, e),
        }
    } else {
        (done, e)
    }
}

/// The variants from `i` on, with `,` between them, and a `,` right behind
/// the last of them if there is one. There may be none.
pub open spec fn variants(s: Seq<char>, i: int) -> (Seq<VariantModel>, int) {
    let (list, e) = match variant(s, i) {
        Outcome::Match { value, end } => more_variants(s, end, seq![value]),
        Outcome::Fail { .. } => (Seq::empty(), i),
    };
    if char_at(s, e, ',') {
        (list, e + 1)
    } else {
        (list, e)
    }
}

/// The enum at `i`: `enum` and at least one blank; `struct` or `class`; a
/// name; a type behind `:`; the variants in braces; `;`. Only `enum`, the
/// braces and the `;` must be there. Blanks may stand between the parts
/// and behind the `;`.
pub open spec fn enumeration(s: Seq<char>, i: int) -> Outcome<EnumModel> {
    let pos1 = i + "enum"@.len();
    let pos2 = blanks_end(s, pos1);
    let pos3 = if word_at(s, pos2, "struct"@) {
        blanks_end(s, pos2 + "struct"@.len())
    } else if word_at(s, pos2, "class"@) {
        blanks_end(s, pos2 + "class"@.len())
    } else {
        pos2
    };
    let (name, pos4) = match ascii_identifier(s, pos3) {
        Outcome::Match { value, end } => (Some(value), blanks_end(s, end)),
        Outcome::Fail { .. } => (None, pos3),
    };
    let (ctype, pos5) = if char_at(s, pos4, ':') {
        (
            Some(cpp_type(s, blanks_end(s, pos4 + 1)).0),
            blanks_end(s, cpp_type(s, blanks_end(s, pos4 + 1)).1),
        )
    } else {
        (None, pos4)
    };
    let (list, e) = variants(s, blanks_end(s, pos5 + 1));
    let close = blanks_end(s, e);
    let semi = blanks_end(s, close + 1);
    if !word_at(s, i, "enum"@) {
        Outcome::Fail { at: i, expected: Expected::Word }
    } else if pos2 <= pos1 {
        Outcome::Fail { at: pos1, expected: Expected::Space }
    } else if !char_at(s, pos5, '{') {
        Outcome::Fail { at: pos5, expected: Expected::Char('{') }
    } else if !char_at(s, close, '}') {
        Outcome::Fail { at: close, expected: Expected::Char('}') }
    } else if !char_at(s, semi, ';') {
        Outcome::Fail { at: semi, expected: Expected::Char(';') }
    } else {
        Outcome::Match {
            value: EnumModel { name, variants: list, ctype },
            end: blanks_end(s, semi + 1),
        }
    }
}

/// Decimal digits write no negative number, and more of them no smaller
/// one.
pub proof fn decimal_grows(s: Seq<char>, p: int, k: int, e: int)
    requires
        0 <= p <= k <= e <= s.len(),
        forall|j: int| p <= j < e ==> CharClass::Digit.has(#[trigger] s[j]),
    ensures
        0 <= decimal(s.subrange(p, k)) <= decimal(s.subrange(p, e)),
    decreases e - p,
{
    if p < e {
        assert(s.subrange(p, e).drop_last() =~= s.subrange(p, e - 1));
        if k < e {
            decimal_grows(s, p, k, e - 1);
        } else {
            decimal_grows(s, p, e - 1, e - 1);
        }
        assert(0 <= digit_value(s[e - 1]));
    }
}

/// The identifier at `i`.
pub fn ascii_identifier_at<'a>(src: &Source<'a>, i: usize) -> (r: Result<(&'a str, usize), Failure>)
    requires
        i <= src@.len(),
    ensures
        seen(r) == ascii_identifier(src@, i as int),
        within(r, i, src@.len()),
{
    let head = src.run(i, CharClass::AsciiHead);
    if i < head {
        let e = src.run(head, CharClass::AsciiIdent);
        Ok((src.slice(i, e), e))
    } else {
        Err(Failure { at: i, expected: Expected::Identifier })
    }
}

/// What a decimal digit counts.
pub(crate) fn digit_of(c: char) -> (d: i128)
    requires
        CharClass::Digit.has(c),
    ensures
        d == digit_value(c),
        0 <= d <= 9,
{
    (c as u32 - '0' as u32) as i128
}

/// The whole number at `i`.
#[verifier::loop_isolation(false)]
pub fn int_number_at(src: &Source, i: usize) -> (r: Result<(i64, usize), Failure>)
    requires
        i <= src@.len(),
    ensures
        seen(r) == int_number(src@, i as int),
        within(r, i, src@.len()),
{
    let (negative, p) = match src.after_char(i, '-') {
        Some(p) => (true, p),
        None => (false, i),
    };
    let e = src.run(p, CharClass::Digit);
    if e <= p {
        return Err(Failure { at: p, expected: Expected::Digit });
    }
    proof {
        run_end_bounds(src@, p as int, CharClass::Digit);
    }
    let mut below: i64 = 0;
    let mut k: usize = p;
    assert(src@.subrange(p as int, p as int) =~= Seq::<char>::empty());
    while k < e
        invariant
            p <= k <= e <= src@.len(),
            forall|j: int| p <= j < e ==> CharClass::Digit.has(#[trigger] src@[j]),
            below == -decimal(src@.subrange(p as int, k as int)),
        decreases e - k,
    {
        let d = digit_of(src.at(k));
        let next: i128 = below as i128 * 10 - d;
        proof {
            assert(src@.subrange(p as int, k + 1).drop_last() =~= src@.subrange(
                p as int,
                k as int,
            ));
            decimal_grows(src@, p as int, k + 1, e as int);
        }
        if next < i64::MIN as i128 {
            return Err(Failure { at: i, expected: Expected::Number });
        }
        below = next as i64;
        k = k + 1;
    }
    if negative {
        Ok((below, e))
    } else if below == i64::MIN {
        Err(Failure { at: i, expected: Expected::Number })
    } else {
        Ok((-below, e))
    }
}

/// The variant at `i`.
pub fn variant_at(src: &Source, i: usize) -> (r: Result<(EnumVariant, usize), Failure>)
    requires
        i <= src@.len(),
    ensures
        seen(r) == variant(src@, i as int),
        within(r, i, src@.len()),
{
    match ascii_identifier_at(src, i) {
        Err(f) => Err(f),
        Ok((name, e)) => {
            let q = src.blanks(e);
            if let Some(from) = src.after_char(q, '=') {
                if let Ok((v, end)) = int_number_at(src, src.blanks(from)) {
                    return Ok((EnumVariant { name: String::from_str(name), value: Some(v) }, end));
                }
            }
            Ok((EnumVariant { name: String::from_str(name), value: None }, e))
        },
    }
}

/// The variants from `i` on.
pub fn variants_at(src: &Source, i: usize) -> (r: (Vec<EnumVariant>, usize))
    requires
        i <= src@.len(),
    ensures
        (r.0.deep_view(), r.1 as int) == variants(src@, i as int),
        i <= r.1 <= src@.len(),
{
    let mut list: Vec<EnumVariant> = Vec::new();
    let mut e: usize = i;
    assert(list.deep_view() =~= Seq::<VariantModel>::empty());
    if let Ok((first, end)) = variant_at(src, i) {
        let ghost start = first.deep_view();
        list.push(first);
        assert(list.deep_view() =~= seq![start]);
        e = end;
        loop
            invariant
                i <= e <= src@.len(),
                more_variants(src@, end as int, seq![start]) == more_variants(
                    src@,
                    e as int,
                    list.deep_view(),
                ),
            ensures
                i <= e <= src@.len(),
                more_variants(src@, end as int, seq![start]) == (list.deep_view(), e as int),
            decreases src@.len() - e,
        {
            let q = src.blanks(e);
            match src.after_char(q, ',') {
                None => {
                    break ;
                },
                Some(from) => match variant_at(src, src.blanks(from)) {
                    Err(_) => {
                        break ;
                    },
                    Ok((next, stop)) => {
                        let ghost before = list.deep_view();
                        let ghost added = next.deep_view();
                        list.push(next);
                        assert(list.deep_view() =~= before.push(added));
                        e = stop;
                    },
                },
            }
        }
    }
    match src.after_char(e, ',') {
        Some(end) => (list, end),
        None => (list, e),
    }
}

/// The enum at `i`.
pub fn enumeration_at<'a>(src: &Source<'a>, i: usize) -> (r: Result<(CppEnum<'a>, usize), Failure>)
    requires
        i <= src@.len(),
    ensures
        seen(r) == enumeration(src@, i as int),
        within(r, i, src@.len()),
{
    let pos1 = match src.word(i, "enum") {
        Some(e) => e,
        None => {
            return Err(Failure { at: i, expected: Expected::Word });
        },
    };
    let pos2 = src.blanks(pos1);
    if pos2 <= pos1 {
        return Err(Failure { at: pos1, expected: Expected::Space });
    }
    let pos3 = match src.word(pos2, "struct") {
        Some(e) => src.blanks(e),
        None => match src.word(pos2, "class") {
            Some(e) => src.blanks(e),
            None => pos2,
        },
    };
    let (name, pos4) = match ascii_identifier_at(src, pos3) {
        Ok((value, end)) => (Some(String::from_str(value)), src.blanks(end)),
        Err(_) => (None, pos3),
    };
    let (ctype, pos5) = match src.after_char(pos4, ':') {
        Some(from) => {
            let (t, e) = cpp_type_at(src, src.blanks(from));
            (Some(t), src.blanks(e))
        },
        None => (None, pos4),
    };
    let open = match src.after_char(pos5, '{') {
        Some(k) => k,
        None => {
            return Err(Failure { at: pos5, expected: Expected::Char('{') });
        },
    };
    let (list, e) = variants_at(src, src.blanks(open));
    let close = src.blanks(e);
    let behind = match src.after_char(close, '}') {
        Some(k) => k,
        None => {
            return Err(Failure { at: close, expected: Expected::Char('}') });
        },
    };
    let semi = src.blanks(behind);
    match src.after_char(semi, ';') {
        Some(k) => Ok((CppEnum { name, variants: list, ctype }, src.blanks(k))),
        None => Err(Failure { at: semi, expected: Expected::Char(';') }),
    }
}

/// Reads an identifier at the start of `input`.
pub fn identifier<'a>(input: &'a str) -> (r: Result<(&'a str, &'a str), ParseError<'a>>)
    ensures
        reports(r, input@, flat(ascii_identifier(input@, 0))),
{
    let src = Source::new(input);
    src.report(ascii_identifier_at(&src, 0))
}

/// Reads a whole number at the start of `input`.
pub fn int_literal<'a>(input: &'a str) -> (r: Result<(&'a str, i64), ParseError<'a>>)
    ensures
        reports(r, input@, flat(int_number(input@, 0))),
{
    let src = Source::new(input);
    src.report(int_number_at(&src, 0))
}

/// Reads a variant of an enum at the start of `input`.
pub fn enum_variant<'a>(input: &'a str) -> (r: Result<(&'a str, EnumVariant), ParseError<'a>>)
    ensures
        reports(r, input@, flat(variant(input@, 0))),
{
    let src = Source::new(input);
    src.report(variant_at(&src, 0))
}

/// Reads the variants of an enum at the start of `input`. It never fails:
/// there may be none.
pub fn enum_variants<'a>(input: &'a str) -> (r: Result<
    (&'a str, Vec<EnumVariant>),
    ParseError<'a>,
>)
    ensures
        reports(
            r,
            input@,
            Nested::Match { value: variants(input@, 0).0, end: variants(input@, 0).1 },
        ),
{
    let src = Source::new(input);
    let (list, end) = variants_at(&src, 0);
    Ok((src.rest(end), list))
}

/// Reads an enum at the start of `input`.
pub fn cpp_enum<'a>(input: &'a str) -> (r: Result<(&'a str, CppEnum<'a>), ParseError<'a>>)
    ensures
        reports(r, input@, flat(enumeration(input@, 0))),
{
    let src = Source::new(input);
    src.report(enumeration_at(&src, 0))
}

} // verus!
