use crate::parser::cpp::alias::{alias, alias_at, AliasModel, CppAlias};
use crate::parser::cpp::class::CppClass;
use crate::parser::cpp::comment::CppComment;
use crate::parser::cpp::member::CppMember;
use crate::parser::cpp::method::CppFunction;
use crate::parser::cpp::namespace::CppNamespace;
use crate::parser::generic::annotation::NoAnnotation;
use crate::parser::generic::class::{class_at, class_rule, ClassModel, Ignored, IgnoredModel};
use crate::parser::generic::comment::{comment, comment_at};
use crate::parser::generic::member::{member, member_at, MemberModel};
use crate::parser::generic::method::{method, method_at, MethodModel};
use crate::parser::generic::namespace::{namespace_at, namespace_rule, NamespaceModel};
use crate::text::{
    blanks_end, char_at, find_word, flat, found, reports, run_end, run_end_bounds, seen,
    seen_nested, within, within_nested, word_at, CharClass, Expected, Failure, Nested,
    NestedFailure, Outcome, ParseError, Source,
};
use crate::types::Parsable;
use vstd::prelude::*;

verus! {

/// A header as a mathematical value.
pub struct HeaderModel {
    pub comments: Seq<Seq<char>>,
    pub includes: Seq<Seq<char>>,
    pub aliases: Seq<AliasModel>,
    pub functions: Seq<MethodModel>,
    pub declarations: Seq<MemberModel>,
    pub classes: Seq<ClassModel>,
    pub namespaces: Seq<NamespaceModel>,
}

/// What a header of the plain dialect holds, each kind in the order of the
/// text.
#[derive(Debug, Default, PartialEq)]
pub struct CppHeader<'a> {
    pub comments: Vec<CppComment>,
    pub includes: Vec<&'a str>,
    pub aliases: Vec<CppAlias<'a>>,
    pub functions: Vec<CppFunction<'a>>,
    pub declarations: Vec<CppMember<'a>>,
    pub classes: Vec<CppClass<'a>>,
    pub namespaces: Vec<CppNamespace<'a>>,
}

impl<'a> DeepView for CppHeader<'a> {
    type V = HeaderModel;

    open spec fn deep_view(&self) -> HeaderModel {
        HeaderModel {
            comments: self.comments.deep_view(),
            includes: self.includes.deep_view(),
            aliases: self.aliases.deep_view(),
            functions: self.functions.deep_view(),
            declarations: self.declarations.deep_view(),
            classes: self.classes.deep_view(),
            namespaces: self.namespaces.deep_view(),
        }
    }
}

/// A preprocessor directive at `i`: `#` and the rest of the line, which is
/// the value.
pub open spec fn directive(s: Seq<char>, i: int) -> Outcome<Seq<char>> {
    let e = run_end(s, i + 1, CharClass::InLine);
    if char_at(s, i, '#') {
        Outcome::Match { value: s.subrange(i + 1, e), end: e }
    } else {
        Outcome::Fail { at: i, expected: Expected::Word }
    }
}

/// A definition at `i`: `#define`, at least one blank, and the text up to
/// the next line feed, which is the value. The line feed must be there and
/// is not taken.
pub open spec fn define(s: Seq<char>, i: int) -> Outcome<Seq<char>> {
    let p = i + "#define"@.len();
    let q = blanks_end(s, p);
    if !word_at(s, i, "#define"@) {
        Outcome::Fail { at: i, expected: Expected::Word }
    } else if q <= p {
        Outcome::Fail { at: p, expected: Expected::Space }
    } else {
        match find_word(s, q, "\n"@) {
            Some(k) => Outcome::Match { value: s.subrange(q, k), end: k },
            None => Outcome::Fail { at: q, expected: Expected::Closing },
        }
    }
}

/// An inclusion at `i`: `#include`, which blanks may precede and follow,
/// and a path between quotes or between `<` and `>`. The value is the
/// path.
pub open spec fn inclusion(s: Seq<char>, i: int) -> Outcome<Seq<char>> {
    let b = blanks_end(s, i);
    let q = blanks_end(s, b + "#include"@.len());
    if !word_at(s, b, "#include"@) {
        Outcome::Fail { at: b, expected: Expected::Word }
    } else if char_at(s, q, '"') && find_word(s, q + 1, "\""@) is Some {
        let k = find_word(s, q + 1, "\""@).unwrap();
        Outcome::Match { value: s.subrange(q + 1, k), end: k + "\""@.len() }
    } else if char_at(s, q, '<') {
        match find_word(s, q + 1, ">"@) {
            Some(k) => Outcome::Match { value: s.subrange(q + 1, k), end: k + ">"@.len() },
            None => Outcome::Fail { at: q + 1, expected: Expected::Closing },
        }
    } else {
        Outcome::Fail { at: q, expected: Expected::Char('<') }
    }
}

/// What may stand in a header, as a mathematical value.
pub enum HeaderItemModel {
    /// A byte order mark, which is passed over.
    Ignore,
    /// A directive with what follows its `#` on the line. It is read and
    /// no part of the header.
    Preprocessor(Seq<char>),
    /// A definition with what follows `#define` on the line. It is read
    /// and no part of the header.
    Define(Seq<char>),
    Include(Seq<char>),
    Comment(Seq<char>),
    Declaration(MemberModel),
    Alias(AliasModel),
    Function(MethodModel),
    Class(ClassModel),
    Namespace(NamespaceModel),
}

/// What may stand in a header.
#[derive(Debug, PartialEq)]
pub enum CppHeaderItem<'a> {
    Preprocessor(&'a str),
    Include(&'a str),
    Define(&'a str),
    Comment(CppComment),
    Declaration(CppMember<'a>),
    Alias(CppAlias<'a>),
    Function(CppFunction<'a>),
    Class(CppClass<'a>),
    Namespace(CppNamespace<'a>),
    Ignore,
}

impl<'a> DeepView for CppHeaderItem<'a> {
    type V = HeaderItemModel;

    open spec fn deep_view(&self) -> HeaderItemModel {
        match self {
            CppHeaderItem::Preprocessor(text) => HeaderItemModel::Preprocessor(text@),
            CppHeaderItem::Include(path) => HeaderItemModel::Include(path@),
            CppHeaderItem::Define(text) => HeaderItemModel::Define(text@),
            CppHeaderItem::Comment(c) => HeaderItemModel::Comment(c.deep_view()),
            CppHeaderItem::Declaration(d) => HeaderItemModel::Declaration(d.deep_view()),
            CppHeaderItem::Alias(a) => HeaderItemModel::Alias(a.deep_view()),
            CppHeaderItem::Function(f) => HeaderItemModel::Function(f.deep_view()),
            CppHeaderItem::Class(c) => HeaderItemModel::Class(c.deep_view()),
            CppHeaderItem::Namespace(n) => HeaderItemModel::Namespace(n.deep_view()),
            CppHeaderItem::Ignore => HeaderItemModel::Ignore,
        }
    }
}

/// A variable at `i` with the `;` right behind it.
pub open spec fn declaration(s: Seq<char>, i: int) -> Outcome<MemberModel> {
    match member::<NoAnnotation>(s, i) {
        Outcome::Match { value, end } => if char_at(s, end, ';') {
            Outcome::Match { value, end: end + 1 }
        } else {
            Outcome::Fail { at: end, expected: Expected::Char(';') }
        },
        Outcome::Fail { at, expected } => Outcome::Fail { at, expected },
    }
}

/// What stands at `b` in a header before a class may: a byte order mark,
/// or else a comment, an inclusion, a definition, another directive, an
/// alias; `None` where none of them does.
pub open spec fn leading_header_item(s: Seq<char>, b: int) -> Option<(HeaderItemModel, int)> {
    if char_at(s, b, '\u{feff}') {
        Some((HeaderItemModel::Ignore, b + 1))
    } else if comment(s, b) is Match {
        Some((HeaderItemModel::Comment(comment(s, b)->value), comment(s, b)->end))
    } else if inclusion(s, b) is Match {
        Some((HeaderItemModel::Include(inclusion(s, b)->value), inclusion(s, b)->end))
    } else if define(s, b) is Match {
        Some((HeaderItemModel::Define(define(s, b)->value), define(s, b)->end))
    } else if directive(s, b) is Match {
        Some((HeaderItemModel::Preprocessor(directive(s, b)->value), directive(s, b)->end))
    } else if alias(s, b) is Match {
        Some((HeaderItemModel::Alias(alias(s, b)->value), alias(s, b)->end))
    } else {
        None
    }
}

/// The item of a header at `i`, behind the blanks there. The first of
/// these that is met: a byte order mark; a comment; an inclusion; a
/// definition; another directive; an alias; a class; a variable with its
/// `;`; a namespace; a function. Where a class or a namespace has failed in
/// its body, that is the failure of the item.
pub open spec fn header_item(s: Seq<char>, i: int) -> Nested<HeaderItemModel> {
    let b = blanks_end(s, i);
    let class = class_rule::<CppClass>(s, b, Seq::empty());
    let space = namespace_rule::<CppClass>(s, b);
    if leading_header_item(s, b) is Some {
        Nested::Match {
            value: leading_header_item(s, b).unwrap().0,
            end: leading_header_item(s, b).unwrap().1,
        }
    } else if class is Match {
        Nested::Match { value: HeaderItemModel::Class(class->value), end: class->end }
    } else if class.is_final() {
        class.failed()
    } else if declaration(s, b) is Match {
        Nested::Match {
            value: HeaderItemModel::Declaration(declaration(s, b)->value),
            end: declaration(s, b)->end,
        }
    } else if space is Match {
        Nested::Match { value: HeaderItemModel::Namespace(space->value), end: space->end }
    } else if space.is_final() {
        space.failed()
    } else {
        match method::<NoAnnotation>(s, b) {
            Outcome::Match { value, end } => Nested::Match {
                value: HeaderItemModel::Function(value),
                end,
            },
            Outcome::Fail { at, expected } => Nested::Fail { at, expected, scope: Seq::empty() },
        }
    }
}

/// The header `before` with one more item in it: each kind of item goes to
/// the end of its list; a byte order mark, a directive and a definition go
/// to none.
pub open spec fn with_header_item(before: HeaderModel, item: HeaderItemModel) -> HeaderModel {
    match item {
        HeaderItemModel::Ignore => before,
        HeaderItemModel::Preprocessor(_) => before,
        HeaderItemModel::Define(_) => before,
        HeaderItemModel::Include(path) => HeaderModel {
            includes: before.includes.push(path),
            ..before
        },
        HeaderItemModel::Comment(c) => HeaderModel { comments: before.comments.push(c), ..before },
        HeaderItemModel::Declaration(d) => HeaderModel {
            declarations: before.declarations.push(d),
            ..before
        },
        HeaderItemModel::Alias(a) => HeaderModel { aliases: before.aliases.push(a), ..before },
        HeaderItemModel::Function(f) => HeaderModel {
            functions: before.functions.push(f),
            ..before
        },
        HeaderItemModel::Class(c) => HeaderModel { classes: before.classes.push(c), ..before },
        HeaderItemModel::Namespace(n) => HeaderModel {
            namespaces: before.namespaces.push(n),
            ..before
        },
    }
}

/// The header in which nothing stands.
pub open spec fn empty_header() -> HeaderModel {
    HeaderModel {
        comments: Seq::empty(),
        includes: Seq::empty(),
        aliases: Seq::empty(),
        functions: Seq::empty(),
        declarations: Seq::empty(),
        classes: Seq::empty(),
        namespaces: Seq::empty(),
    }
}

/// The header `done` with the items from `i` on in it, up to the end of the
/// text: a header ends where nothing but blanks is left. An item that is
/// not met is a failure, and so is one that takes nothing.
pub open spec fn header(s: Seq<char>, i: int, done: HeaderModel) -> Nested<HeaderModel>
    decreases s.len() - i,
{
    if i < 0 || blanks_end(s, i) >= s.len() {
        Nested::Match { value: done, end: blanks_end(s, i) }
    } else {
        match header_item(s, i) {
            Nested::Fail { at, expected, scope } => Nested::Fail { at, expected, scope },
            Nested::Match { value, end } => if i < end <= s.len() {
                header(s, end, with_header_item(done, value))
            } else {
                Nested::Fail { at: i, expected: Expected::Progress, scope: Seq::empty() }
            },
        }
    }
}

/// A header that is read is read to the end of the text.
pub proof fn header_takes_everything(s: Seq<char>, i: int, done: HeaderModel)
    requires
        0 <= i <= s.len(),
    ensures
        header(s, i, done) matches Nested::Match { value, end } ==> end == s.len(),
    decreases s.len() - i,
{
    run_end_bounds(s, i, CharClass::Blank);
    if blanks_end(s, i) < s.len() {
        match header_item(s, i) {
            Nested::Match { value, end } => {
                if i < end <= s.len() {
                    header_takes_everything(s, end, with_header_item(done, value));
                }
            },
            Nested::Fail { .. } => {},
        }
    }
}

/// The directive at `i`.
pub fn directive_at<'a>(src: &Source<'a>, i: usize) -> (r: Result<(&'a str, usize), Failure>)
    requires
        i <= src@.len(),
    ensures
        seen(r) == directive(src@, i as int),
        within(r, i, src@.len()),
{
    match src.after_char(i, '#') {
        Some(from) => {
            let e = src.run(from, CharClass::InLine);
            Ok((src.slice(from, e), e))
        },
        None => Err(Failure { at: i, expected: Expected::Word }),
    }
}

/// The definition at `i`.
pub fn define_at<'a>(src: &Source<'a>, i: usize) -> (r: Result<(&'a str, usize), Failure>)
    requires
        i <= src@.len(),
    ensures
        seen(r) == define(src@, i as int),
        within(r, i, src@.len()),
{
    let p = match src.word(i, "#define") {
        Some(e) => e,
        None => {
            return Err(Failure { at: i, expected: Expected::Word });
        },
    };
    let q = src.blanks(p);
    if q <= p {
        return Err(Failure { at: p, expected: Expected::Space });
    }
    match src.find(q, "\n") {
        Some((k, _)) => Ok((src.slice(q, k), k)),
        None => Err(Failure { at: q, expected: Expected::Closing }),
    }
}

/// The inclusion at `i`.
pub fn include_at<'a>(src: &Source<'a>, i: usize) -> (r: Result<(&'a str, usize), Failure>)
    requires
        i <= src@.len(),
    ensures
        seen(r) == inclusion(src@, i as int),
        within(r, i, src@.len()),
{
    let b = src.blanks(i);
    let after = match src.word(b, "#include") {
        Some(e) => e,
        None => {
            return Err(Failure { at: b, expected: Expected::Word });
        },
    };
    let q = src.blanks(after);
    if let Some(from) = src.after_char(q, '"') {
        if let Some((k, e)) = src.find(from, "\"") {
            return Ok((src.slice(from, k), e));
        }
    }
    match src.after_char(q, '<') {
        Some(from) => match src.find(from, ">") {
            Some((k, e)) => Ok((src.slice(from, k), e)),
            None => Err(Failure { at: from, expected: Expected::Closing }),
        },
        None => Err(Failure { at: q, expected: Expected::Char('<') }),
    }
}

/// Reads a preprocessor directive at the start of `input`: the value is
/// what follows the `#` on its line.
pub fn preprocessor_directive<'a>(input: &'a str) -> (r: Result<(&'a str, &'a str), ParseError<'a>>)
    ensures
        reports(r, input@, flat(directive(input@, 0))),
{
    let src = Source::new(input);
    src.report(directive_at(&src, 0))
}

/// Reads a definition at the start of `input`: the value is what follows
/// `#define` and blanks on its line.
pub fn parse_define<'a>(input: &'a str) -> (r: Result<(&'a str, &'a str), ParseError<'a>>)
    ensures
        reports(r, input@, flat(define(input@, 0))),
{
    let src = Source::new(input);
    src.report(define_at(&src, 0))
}

/// Reads an inclusion at the start of `input`: the value is the path.
pub fn parse_include<'a>(input: &'a str) -> (r: Result<(&'a str, &'a str), ParseError<'a>>)
    ensures
        reports(r, input@, flat(inclusion(input@, 0))),
{
    let src = Source::new(input);
    src.report(include_at(&src, 0))
}

fn declaration_at<'a>(src: &Source<'a>, i: usize) -> (r: Result<(CppMember<'a>, usize), Failure>)
    requires
        i <= src@.len(),
    ensures
        seen(r) == declaration(src@, i as int),
        within(r, i, src@.len()),
{
    match member_at::<CppMember<'a>>(src, i) {
        Ok((value, end)) => match src.after_char(end, ';') {
            Some(e) => Ok((value, e)),
            None => Err(Failure { at: end, expected: Expected::Char(';') }),
        },
        Err(f) => Err(f),
    }
}

fn leading_header_item_at<'a>(src: &Source<'a>, b: usize) -> (r: Option<
    (CppHeaderItem<'a>, usize),
>)
    requires
        b <= src@.len(),
    ensures
        found(r) == leading_header_item(src@, b as int),
        r matches Some((_, e)) ==> b <= e <= src@.len(),
{
    if let Some(e) = src.after_char(b, '\u{feff}') {
        return Some((CppHeaderItem::Ignore, e));
    }
    if let Ok((c, e)) = comment_at(src, b) {
        return Some((CppHeaderItem::Comment(c), e));
    }
    if let Ok((path, e)) = include_at(src, b) {
        return Some((CppHeaderItem::Include(path), e));
    }
    if let Ok((text, e)) = define_at(src, b) {
        return Some((CppHeaderItem::Define(text), e));
    }
    if let Ok((text, e)) = directive_at(src, b) {
        return Some((CppHeaderItem::Preprocessor(text), e));
    }
    if let Ok((a, e)) = alias_at(src, b) {
        return Some((CppHeaderItem::Alias(a), e));
    }
    None
}

/// The item of a header at `i`.
pub fn header_item_at<'a>(src: &Source<'a>, i: usize) -> (r: Result<
    (CppHeaderItem<'a>, usize),
    NestedFailure<'a>,
>)
    requires
        i <= src@.len(),
    ensures
        seen_nested(r) == header_item(src@, i as int),
        within_nested(r, i, src@.len()),
{
    let b = src.blanks(i);
    if let Some(found) = leading_header_item_at(src, b) {
        return Ok(found);
    }
    let none: Vec<Ignored> = Vec::new();
    assert(none.deep_view() =~= Seq::<IgnoredModel>::empty());
    match class_at::<CppClass<'a>>(src, b, &none) {
        Ok((c, e)) => {
            return Ok((CppHeaderItem::Class(c), e));
        },
        Err(f) => {
            if f.scope.len() > 0 {
                return Err(f);
            }
        },
    }
    if let Ok((d, e)) = declaration_at(src, b) {
        return Ok((CppHeaderItem::Declaration(d), e));
    }
    match namespace_at::<CppNamespace<'a>, CppClass<'a>>(src, b) {
        Ok((n, e)) => {
            return Ok((CppHeaderItem::Namespace(n), e));
        },
        Err(f) => {
            if f.scope.len() > 0 {
                return Err(f);
            }
        },
    }
    match method_at::<CppFunction<'a>>(src, b) {
        Ok((f, e)) => Ok((CppHeaderItem::Function(f), e)),
        Err(f) => Err(NestedFailure::plain(f)),
    }
}

impl<'a> CppHeader<'a> {
    /// Takes one more item into the header.
    pub fn take(&mut self, item: CppHeaderItem<'a>)
        ensures
            final(self).deep_view() == with_header_item(old(self).deep_view(), item.deep_view()),
    {
        let ghost before = self.deep_view();
        match item {
            CppHeaderItem::Ignore => {},
            CppHeaderItem::Preprocessor(_) => {},
            CppHeaderItem::Define(_) => {},
            CppHeaderItem::Include(path) => {
                self.includes.push(path);
                assert(self.includes.deep_view() =~= before.includes.push(path@));
            },
            CppHeaderItem::Comment(c) => {
                self.comments.push(c);
                assert(self.comments.deep_view() =~= before.comments.push(c.deep_view()));
            },
            CppHeaderItem::Alias(a) => {
                self.aliases.push(a);
                assert(self.aliases.deep_view() =~= before.aliases.push(a.deep_view()));
            },
            CppHeaderItem::Function(f) => {
                self.functions.push(f);
                assert(self.functions.deep_view() =~= before.functions.push(f.deep_view()));
            },
            CppHeaderItem::Class(c) => {
                self.classes.push(c);
                assert(self.classes.deep_view() =~= before.classes.push(c.deep_view()));
            },
            CppHeaderItem::Namespace(n) => {
                self.namespaces.push(n);
                assert(self.namespaces.deep_view() =~= before.namespaces.push(n.deep_view()));
            },
            CppHeaderItem::Declaration(d) => {
                self.declarations.push(d);
                assert(self.declarations.deep_view() =~= before.declarations.push(d.deep_view()));
            },
        }
    }

    /// The header in which nothing stands.
    pub fn new() -> (r: Self)
        ensures
            r.deep_view() == empty_header(),
    {
        let r = CppHeader {
            comments: Vec::new(),
            includes: Vec::new(),
            aliases: Vec::new(),
            functions: Vec::new(),
            declarations: Vec::new(),
            classes: Vec::new(),
            namespaces: Vec::new(),
        };
        assert(r.comments.deep_view() =~= Seq::<Seq<char>>::empty());
        assert(r.includes.deep_view() =~= Seq::<Seq<char>>::empty());
        assert(r.aliases.deep_view() =~= Seq::<AliasModel>::empty());
        assert(r.functions.deep_view() =~= Seq::<MethodModel>::empty());
        assert(r.declarations.deep_view() =~= Seq::<MemberModel>::empty());
        assert(r.classes.deep_view() =~= Seq::<ClassModel>::empty());
        assert(r.namespaces.deep_view() =~= Seq::<NamespaceModel>::empty());
        r
    }
}

/// The header that starts at `i`.
pub fn header_at<'a>(src: &Source<'a>, i: usize) -> (r: Result<
    (CppHeader<'a>, usize),
    NestedFailure<'a>,
>)
    requires
        i <= src@.len(),
    ensures
        seen_nested(r) == header(src@, i as int, empty_header()),
        within_nested(r, i, src@.len()),
{
    let n = src.len();
    let mut done = CppHeader::new();
    let mut j: usize = i;
    loop
        invariant
            i <= j <= src@.len(),
            n == src@.len(),
            header(src@, i as int, empty_header()) == header(src@, j as int, done.deep_view()),
        decreases src@.len() - j,
    {
        let b = src.blanks(j);
        if b >= n {
            return Ok((done, b));
        }
        match header_item_at(src, j) {
            Err(f) => {
                return Err(f);
            },
            Ok((item, end)) => {
                if end <= j {
                    return Err(
                        NestedFailure::plain(Failure { at: j, expected: Expected::Progress }),
                    );
                }
                done.take(item);
                j = end;
            },
        }
    }
}

impl<'a> Parsable<'a> for CppHeader<'a> {
    /// The header that is the whole text.
    open spec fn rule(s: Seq<char>) -> Nested<HeaderModel> {
        header(s, 0, empty_header())
    }

    fn parse(input: &'a str) -> (r: Result<(&'a str, Self), ParseError<'a>>)
        ensures
            r matches Ok((rest, _)) ==> rest@.len() == 0,
    {
        proof {
            header_takes_everything(input@, 0, empty_header());
        }
        let src = Source::new(input);
        src.report_nested(header_at(&src, 0))
    }
}

} // verus!
