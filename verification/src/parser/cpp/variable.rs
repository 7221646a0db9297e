use crate::parser::cpp::cenum::{decimal, decimal_grows, digit_of};
use crate::parser::cpp::ctype::{cpp_type, cpp_type_at, CType, TypeExpr};
use crate::parser::{name, name_at};
use crate::text::{
    blanks_end, char_at, flat, found, reports, run_end, run_end_bounds, same_text, seen, within,
    word_at, CharClass, Expected, Failure, Outcome, ParseError, Source,
};
use nom::Parser;
use vstd::prelude::*;
use vstd::string::StringExecFns;

verus! {

/// What may stand in front of the type of a variable.
#[derive(Debug, PartialEq, Eq, Clone, Copy)]
pub enum VariableSpecifier {
    Const,
    Static,
    Constexpr,
    Inline,
}

impl VariableSpecifier {
    /// The word of a specifier.
    pub open spec fn word(self) -> Seq<char> {
        match self {
            VariableSpecifier::Const => "const"@,
            VariableSpecifier::Static => "static"@,
            VariableSpecifier::Constexpr => "constexpr"@,
            VariableSpecifier::Inline => "inline"@,
        }
    }

    /// The specifier that a word stands for, if it is the word of one.
    pub fn from_word(specifier: &str) -> (r: Option<VariableSpecifier>)
        ensures
            match r {
                Some(v) => specifier@ == v.word(),
                None => forall|v: VariableSpecifier| specifier@ != v.word(),
            },
    {
        if same_text(specifier, "const") {
            Some(VariableSpecifier::Const)
        } else if same_text(specifier, "static") {
            Some(VariableSpecifier::Static)
        } else if same_text(specifier, "constexpr") {
            Some(VariableSpecifier::Constexpr)
        } else if same_text(specifier, "inline") {
            Some(VariableSpecifier::Inline)
        } else {
            None
        }
    }
}

impl std::str::FromStr for VariableSpecifier {
    type Err = ();

    /// The specifier that a word stands for; every other text is refused.
    fn from_str(specifier: &str) -> (r: Result<Self, ()>)
        ensures
            match r {
                Ok(v) => specifier@ == v.word(),
                Err(_) => forall|v: VariableSpecifier| specifier@ != v.word(),
            },
    {
        match VariableSpecifier::from_word(specifier) {
            Some(v) => Ok(v),
            None => Err(()),
        }
    }
}

/// The value of a variable as a mathematical value.
pub enum LiteralModel {
    Int(i128),
    /// A floating point number, as it stands in the text.
    Flt(Seq<char>),
    Str(Seq<char>),
}

/// The value of a variable: a whole number, a floating point number as it
/// stands in the text, or a text.
#[derive(Debug, PartialEq, Clone)]
pub enum Literal<'a> {
    Int(i128),
    Flt(&'a str),
    Str(String),
}

impl<'a> DeepView for Literal<'a> {
    type V = LiteralModel;

    open spec fn deep_view(&self) -> LiteralModel {
        match self {
            Literal::Int(v) => LiteralModel::Int(*v),
            Literal::Flt(t) => LiteralModel::Flt(t@),
            Literal::Str(t) => LiteralModel::Str(t@),
        }
    }
}

/// A variable as a mathematical value.
pub struct VariableModel {
    pub name: Seq<char>,
    pub ctype: TypeExpr,
    pub value: Option<LiteralModel>,
    pub specifiers: Seq<VariableSpecifier>,
}

/// The declaration of a variable with a literal value.
#[derive(Debug, Default, PartialEq, Clone)]
pub struct CppVariableDecl<'a> {
    pub name: &'a str,
    pub ctype: CType<'a>,
    pub value: Option<Literal<'a>>,
    pub specifiers: Vec<VariableSpecifier>,
}

impl<'a> DeepView for CppVariableDecl<'a> {
    type V = VariableModel;

    open spec fn deep_view(&self) -> VariableModel {
        VariableModel {
            name: self.name@,
            ctype: self.ctype.deep_view(),
            value: self.value.deep_view(),
            specifiers: self.specifiers@,
        }
    }
}

/// The part at the start of `text` that nom's `float` reads as a floating
/// point number, if it reads one there.
pub uninterp spec fn float_text(text: Seq<char>) -> Option<Seq<char>>;

/// Calls nom's `float` under `recognize`. The result is the part of
/// `rest` that `float` read as a number, `None` where it read none. Two
/// things are claimed of it: that it is what the name `float_text` gives,
/// and that it stands at the start of `rest`, which is what `recognize`
/// hands out. How long it is the name alone says.
#[verifier::external_body]
fn float_literal<'a>(rest: &'a str) -> (r: Option<&'a str>)
    ensures
        r.deep_view() == float_text(rest@),
        r matches Some(text) ==> text@.len() <= rest@.len() && text@ == rest@.subrange(
            0,
            text@.len() as int,
        ),
{
    let read = nom::combinator::recognize(
        nom::number::complete::float::<&'a str, nom::error::Error<&'a str>>,
    ).parse(rest);
    match read {
        Ok((_, text)) => Some(text),
        Err(_) => None,
    }
}

/// The specifier whose word stands at `i`, and where the blanks behind the
/// word end. `const` goes before `constexpr`.
pub open spec fn specifier_word(s: Seq<char>, i: int) -> Option<(VariableSpecifier, int)> {
    if word_at(s, i, "const"@) {
        Some((VariableSpecifier::Const, blanks_end(s, i + "const"@.len())))
    } else if word_at(s, i, "static"@) {
        Some((VariableSpecifier::Static, blanks_end(s, i + "static"@.len())))
    } else if word_at(s, i, "constexpr"@) {
        Some((VariableSpecifier::Constexpr, blanks_end(s, i + "constexpr"@.len())))
    } else if word_at(s, i, "inline"@) {
        Some((VariableSpecifier::Inline, blanks_end(s, i + "inline"@.len())))
    } else {
        None
    }
}

/// The word of a specifier is not empty, and the blanks behind it end inside
/// the text.
pub proof fn specifier_word_bounds(s: Seq<char>, i: int)
    ensures
        specifier_word(s, i) matches Some((_, e)) ==> 0 <= i < e <= s.len(),
{
    reveal_strlit("const");
    reveal_strlit("static");
    reveal_strlit("constexpr");
    reveal_strlit("inline");
    if word_at(s, i, "const"@) {
        run_end_bounds(s, i + "const"@.len(), CharClass::Blank);
    } else if word_at(s, i, "static"@) {
        run_end_bounds(s, i + "static"@.len(), CharClass::Blank);
    } else if word_at(s, i, "constexpr"@) {
        run_end_bounds(s, i + "constexpr"@.len(), CharClass::Blank);
    } else if word_at(s, i, "inline"@) {
        run_end_bounds(s, i + "inline"@.len(), CharClass::Blank);
    }
}

/// The specifiers from `i` on, added to `done`.
pub open spec fn specifiers(s: Seq<char>, i: int, done: Seq<VariableSpecifier>) -> (
    Seq<VariableSpecifier>,
    int,
)
    decreases s.len() - i,
{
    match specifier_word(s, i) {
        Some((v, e)) => {
            proof {
                specifier_word_bounds(s, i);
            }
            specifiers(s, e, done.push(v))
        },
        None => (done, i),
    }
}

/// The whole number at `i`: a sign if there is one, and decimal digits.
/// There is none where the number does not fit in 128 bits.
pub open spec fn integer(s: Seq<char>, i: int) -> Option<(i128, int)> {
    let negative = char_at(s, i, '-');
    let p = if negative || char_at(s, i, '+') {
        i + 1
    } else {
        i
    };
    let e = run_end(s, p, CharClass::Digit);
    let v = if negative {
        -decimal(s.subrange(p, e))
    } else {
        decimal(s.subrange(p, e))
    };
    if p < e && i128::MIN <= v <= i128::MAX {
        Some((v as i128, e))
    } else {
        None
    }
}

/// What the character behind a backslash stands for in a text in quotes.
pub open spec fn unescaped(c: char) -> Option<char> {
    if c == '\\' {
        Some('\\')
    } else if c == '"' {
        Some('"')
    } else if c == 'n' {
        Some('\n')
    } else if c == 'r' {
        Some('\r')
    } else if c == 't' {
        Some('\t')
    } else {
        None
    }
}

/// What stands in quotes, from `j` on, added to `done`, and where it ends:
/// at the first `"` that no backslash precedes, or at the end of the text.
/// A backslash stands with the character behind it for one character;
/// `None` where it stands for none.
pub open spec fn quoted(s: Seq<char>, j: int, done: Seq<char>) -> Option<(Seq<char>, int)>
    decreases s.len() - j,
{
    if j < 0 || j >= s.len() || s[j] == '"' {
        Some((done, j))
    } else if s[j] == '\\' {
        if j + 1 < s.len() && unescaped(s[j + 1]) is Some {
            quoted(s, j + 2, done.push(unescaped(s[j + 1]).unwrap()))
        } else {
            None
        }
    } else {
        quoted(s, j + 1, done.push(s[j]))
    }
}

/// The text in quotes at `i`: `"`, at least one character, `"`.
pub open spec fn string_literal(s: Seq<char>, i: int) -> Option<(Seq<char>, int)> {
    if char_at(s, i, '"') {
        match quoted(s, i + 1, Seq::empty()) {
            Some((text, e)) => if i + 1 < e && char_at(s, e, '"') {
                Some((text, e + 1))
            } else {
                None
            },
            None => None,
        }
    } else {
        None
    }
}

/// The floating point number at `i` of a text of `len` characters, of what
/// was read as one in the text from `i` on: that, where something was read
/// and the text has room for it.
pub open spec fn float_at(read: Option<Seq<char>>, i: int, len: int) -> Option<
    (LiteralModel, int),
> {
    match read {
        Some(text) => if i + text.len() <= len {
            Some((LiteralModel::Flt(text), i + text.len()))
        } else {
            None
        },
        None => None,
    }
}

/// The literal at `i`: a whole number, or else a floating point number, or
/// else a text in quotes.
pub open spec fn literal(s: Seq<char>, i: int) -> Option<(LiteralModel, int)> {
    let float = float_at(float_text(s.subrange(i, s.len() as int)), i, s.len() as int);
    if integer(s, i) is Some {
        Some((LiteralModel::Int(integer(s, i).unwrap().0), integer(s, i).unwrap().1))
    } else if float is Some {
        float
    } else {
        match string_literal(s, i) {
            Some((text, e)) => Some((LiteralModel::Str(text), e)),
            None => None,
        }
    }
}

/// The literal between `open` and `close` at `p`, blanks around it allowed.
pub open spec fn enclosed(s: Seq<char>, p: int, open: char, close: char) -> Option<
    (LiteralModel, int),
> {
    match literal(s, blanks_end(s, p + 1)) {
        Some((v, e)) => if char_at(s, p, open) && char_at(s, blanks_end(s, e), close) {
            Some((v, blanks_end(s, e) + 1))
        } else {
            None
        },
        None => None,
    }
}

/// The value of a variable at `p`: `=` with blanks around it, if it is
/// there, and a literal in parentheses, in braces, or with blanks around
/// it. Where there is none nothing is taken.
pub open spec fn initial_value(s: Seq<char>, p: int) -> (Option<LiteralModel>, int) {
    let b = blanks_end(s, p);
    let from = if char_at(s, b, '=') {
        blanks_end(s, b + 1)
    } else {
        p
    };
    if enclosed(s, from, '(', ')') is Some {
        (Some(enclosed(s, from, '(', ')').unwrap().0), enclosed(s, from, '(', ')').unwrap().1)
    } else if enclosed(s, from, '{', '}') is Some {
        (Some(enclosed(s, from, '{', '}').unwrap().0), enclosed(s, from, '{', '}').unwrap().1)
    } else {
        match literal(s, blanks_end(s, from)) {
            Some((v, e)) => (Some(v), blanks_end(s, e)),
            None => (None, p),
        }
    }
}

/// The declaration of a variable at `i`: specifiers; the type; the name; a
/// value; `;`. Blanks may stand between them.
pub open spec fn variable(s: Seq<char>, i: int) -> Outcome<VariableModel> {
    let (specs, pos1) = specifiers(s, i, Seq::empty());
    let (ctype, pos2) = cpp_type(s, pos1);
    match name(s, blanks_end(s, pos2)) {
        Outcome::Fail { at, expected } => Outcome::Fail { at, expected },
        Outcome::Match { value: n, end: pos3 } => {
            let (value, pos4) = initial_value(s, blanks_end(s, pos3));
            let semi = blanks_end(s, pos4);
            if char_at(s, semi, ';') {
                Outcome::Match {
                    value: VariableModel { name: n, ctype, value, specifiers: specs },
                    end: semi + 1,
                }
            } else {
                Outcome::Fail { at: semi, expected: Expected::Char(';') }
            }
        },
    }
}

fn specifier_word_at(src: &Source, i: usize) -> (r: Option<(VariableSpecifier, usize)>)
    requires
        i <= src@.len(),
    ensures
        match r {
            Some((v, e)) => specifier_word(src@, i as int) == Some((v, e as int)) && i <= e
                <= src@.len(),
            None => specifier_word(src@, i as int).is_none(),
        },
{
    if let Some(e) = src.word(i, "const") {
        Some((VariableSpecifier::Const, src.blanks(e)))
    } else if let Some(e) = src.word(i, "static") {
        Some((VariableSpecifier::Static, src.blanks(e)))
    } else if let Some(e) = src.word(i, "constexpr") {
        Some((VariableSpecifier::Constexpr, src.blanks(e)))
    } else if let Some(e) = src.word(i, "inline") {
        Some((VariableSpecifier::Inline, src.blanks(e)))
    } else {
        None
    }
}

fn specifiers_at(src: &Source, i: usize) -> (r: (Vec<VariableSpecifier>, usize))
    requires
        i <= src@.len(),
    ensures
        (r.0@, r.1 as int) == specifiers(src@, i as int, Seq::empty()),
        i <= r.1 <= src@.len(),
{
    let mut list: Vec<VariableSpecifier> = Vec::new();
    let mut j: usize = i;
    loop
        invariant
            i <= j <= src@.len(),
            specifiers(src@, i as int, Seq::empty()) == specifiers(src@, j as int, list@),
        ensures
            i <= j <= src@.len(),
            specifiers(src@, i as int, Seq::empty()) == (list@, j as int),
        decreases src@.len() - j,
    {
        match specifier_word_at(src, j) {
            Some((v, e)) => {
                proof {
                    specifier_word_bounds(src@, j as int);
                }
                list.push(v);
                j = e;
            },
            None => {
                break ;
            },
        }
    }
    (list, j)
}

/// The whole number at `i`.
#[verifier::loop_isolation(false)]
pub fn integer_at(src: &Source, i: usize) -> (r: Option<(i128, usize)>)
    requires
        i <= src@.len(),
    ensures
        match r {
            Some((v, e)) => integer(src@, i as int) == Some((v, e as int)) && i < e
                <= src@.len(),
            None => integer(src@, i as int).is_none(),
        },
{
    let (negative, p) = match src.after_char(i, '-') {
        Some(p) => (true, p),
        None => match src.after_char(i, '+') {
            Some(p) => (false, p),
            None => (false, i),
        },
    };
    let e = src.run(p, CharClass::Digit);
    if e <= p {
        return None;
    }
    proof {
        run_end_bounds(src@, p as int, CharClass::Digit);
    }
    let mut below: i128 = 0;
    let mut k: usize = p;
    assert(src@.subrange(p as int, p as int) =~= Seq::<char>::empty());
    while k < e
        invariant
            p <= k <= e <= src@.len(),
            below == -decimal(src@.subrange(p as int, k as int)),
        decreases e - k,
    {
        let d = digit_of(src.at(k));
        proof {
            assert(src@.subrange(p as int, k + 1).drop_last() =~= src@.subrange(
                p as int,
                k as int,
            ));
            decimal_grows(src@, p as int, k + 1, e as int);
            decimal_grows(src@, p as int, k as int, e as int);
        }
        if below < (i128::MIN + d) / 10 {
            return None;
        }
        below = below * 10 - d;
        k = k + 1;
    }
    if negative {
        Some((below, e))
    } else if below == i128::MIN {
        None
    } else {
        Some((-below, e))
    }
}

fn unescaped_at(c: char) -> (r: Option<&'static str>)
    ensures
        match r {
            Some(t) => unescaped(c) is Some && t@ == seq![unescaped(c).unwrap()],
            None => unescaped(c).is_none(),
        },
{
    proof {
        reveal_strlit("\\");
        reveal_strlit("\"");
        reveal_strlit("\n");
        reveal_strlit("\r");
        reveal_strlit("\t");
    }
    if c == '\\' {
        assert("\\"@ =~= seq!['\\']);
        Some("\\")
    } else if c == '"' {
        assert("\""@ =~= seq!['"']);
        Some("\"")
    } else if c == 'n' {
        assert("\n"@ =~= seq!['\n']);
        Some("\n")
    } else if c == 'r' {
        assert("\r"@ =~= seq!['\r']);
        Some("\r")
    } else if c == 't' {
        assert("\t"@ =~= seq!['\t']);
        Some("\t")
    } else {
        None
    }
}

/// The text in quotes at `i`.
#[verifier::loop_isolation(false)]
pub fn string_literal_at(src: &Source, i: usize) -> (r: Option<(String, usize)>)
    requires
        i <= src@.len(),
    ensures
        found(r) == string_literal(src@, i as int),
        r matches Some((_, e)) ==> i < e <= src@.len(),
{
    let n = src.len();
    let first = match src.after_char(i, '"') {
        Some(k) => k,
        None => {
            return None;
        },
    };
    let mut text = String::new();
    let mut j: usize = first;
    while j < n && src.at(j) != '"'
        invariant
            first <= j <= n,
            quoted(src@, first as int, Seq::empty()) == quoted(src@, j as int, text@),
        decreases n - j,
    {
        let ghost before = text@;
        if src.at(j) == '\\' {
            if j + 1 >= n {
                return None;
            }
            match unescaped_at(src.at(j + 1)) {
                Some(t) => {
                    text.append(t);
                    assert(text@ =~= before.push(unescaped(src@[j + 1]).unwrap()));
                    j = j + 2;
                },
                None => {
                    return None;
                },
            }
        } else {
            text.append(src.slice(j, j + 1));
            assert(text@ =~= before.push(src@[j as int]));
            j = j + 1;
        }
    }
    if first < j {
        match src.after_char(j, '"') {
            Some(end) => Some((text, end)),
            None => None,
        }
    } else {
        None
    }
}

/// The floating point number at `i` of a text of `len` characters, of what
/// was read as one in the text from `i` on.
pub fn float_value<'a>(read: Option<&'a str>, i: usize, len: usize) -> (r: Option<
    (Literal<'a>, usize),
>)
    requires
        i <= len,
    ensures
        found(r) == float_at(read.deep_view(), i as int, len as int),
        r matches Some((_, e)) ==> i <= e <= len,
        r matches Some((value, e)) ==> read matches Some(text) && value == Literal::Flt(text) && e
            == i + text@.len(),
{
    match read {
        Some(text) => {
            let m = text.unicode_len();
            if m <= len - i {
                Some((Literal::Flt(text), i + m))
            } else {
                None
            }
        },
        None => None,
    }
}

/// The literal at `i`.
pub fn literal_at<'a>(src: &Source<'a>, i: usize) -> (r: Option<(Literal<'a>, usize)>)
    requires
        i <= src@.len(),
    ensures
        found(r) == literal(src@, i as int),
        r matches Some((_, e)) ==> i <= e <= src@.len(),
        r matches Some((Literal::Flt(text), e)) ==> text@ == src@.subrange(i as int, e as int),
{
    if let Some((v, e)) = integer_at(src, i) {
        return Some((Literal::Int(v), e));
    }
    let read = float_literal(src.rest(i));
    proof {
        if let Some(text) = read {
            assert(src@.subrange(i as int, src@.len() as int).subrange(0, text@.len() as int)
                =~= src@.subrange(i as int, i + text@.len()));
        }
    }
    if let Some(found) = float_value(read, i, src.len()) {
        return Some(found);
    }
    match string_literal_at(src, i) {
        Some((text, e)) => Some((Literal::Str(text), e)),
        None => None,
    }
}

fn enclosed_at<'a>(src: &Source<'a>, p: usize, open: char, close: char) -> (r: Option<
    (Literal<'a>, usize),
>)
    requires
        p <= src@.len(),
    ensures
        found(r) == enclosed(src@, p as int, open, close),
        r matches Some((_, e)) ==> p <= e <= src@.len(),
{
    match src.after_char(p, open) {
        None => None,
        Some(from) => match literal_at(src, src.blanks(from)) {
            None => None,
            Some((v, e)) => match src.after_char(src.blanks(e), close) {
                Some(end) => Some((v, end)),
                None => None,
            },
        },
    }
}

fn initial_value_at<'a>(src: &Source<'a>, p: usize) -> (r: (Option<Literal<'a>>, usize))
    requires
        p <= src@.len(),
    ensures
        (r.0.deep_view(), r.1 as int) == initial_value(src@, p as int),
        p <= r.1 <= src@.len(),
{
    let b = src.blanks(p);
    let from = match src.after_char(b, '=') {
        Some(k) => src.blanks(k),
        None => p,
    };
    if let Some((v, e)) = enclosed_at(src, from, '(', ')') {
        return (Some(v), e);
    }
    if let Some((v, e)) = enclosed_at(src, from, '{', '}') {
        return (Some(v), e);
    }
    match literal_at(src, src.blanks(from)) {
        Some((v, e)) => (Some(v), src.blanks(e)),
        None => (None, p),
    }
}

/// The declaration of a variable at `i`.
pub fn variable_at<'a>(src: &Source<'a>, i: usize) -> (r: Result<
    (CppVariableDecl<'a>, usize),
    Failure,
>)
    requires
        i <= src@.len(),
    ensures
        seen(r) == variable(src@, i as int),
        within(r, i, src@.len()),
{
    let (specs, pos1) = specifiers_at(src, i);
    let (ctype, pos2) = cpp_type_at(src, pos1);
    match name_at(src, src.blanks(pos2)) {
        Err(f) => Err(f),
        Ok((n, pos3)) => {
            let (value, pos4) = initial_value_at(src, src.blanks(pos3));
            let semi = src.blanks(pos4);
            match src.after_char(semi, ';') {
                Some(end) => Ok(
                    (CppVariableDecl { name: n, ctype, value, specifiers: specs }, end),
                ),
                None => Err(Failure { at: semi, expected: Expected::Char(';') }),
            }
        },
    }
}

/// Reads the declaration of a variable with a literal value at the start
/// of `input`.
pub fn variable_decl<'a>(input: &'a str) -> (r: Result<
    (&'a str, CppVariableDecl<'a>),
    ParseError<'a>,
>)
    ensures
        reports(r, input@, flat(variable(input@, 0))),
{
    let src = Source::new(input);
    src.report(variable_at(&src, 0))
}

} // verus!
