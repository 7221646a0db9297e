use crate::parser::cpp::comment::CppComment;
use crate::parser::cpp::ctype::{cpp_type, cpp_type_at, CType, TypeExpr};
use crate::parser::cpp::method::{
    brace_block, brace_block_at, params, params_at, CppMethodParam, ParamModel,
};
use crate::parser::cpp::template::{template_header, template_header_at};
use crate::parser::generic::annotation::{annotations, annotations_at, kept, Annotation};
use crate::parser::generic::comment::{optional_comment, optional_comment_at};
use crate::text::{
    blanks_end, char_at, flat, reports, run_end, run_end_bounds, same_text, seen, within, word_at,
    word_end, CharClass, Expected, Failure, Outcome, ParseError, Source,
};
use vstd::prelude::*;

verus! {

/// What may stand in front of a signature.
#[derive(Debug, Eq, PartialEq, Clone, Copy)]
pub enum CppStorageQualifier {
    Inline,
    Constexpr,
    Explicit,
    Friend,
    Static,
    Virtual,
}

/// What may stand behind the parameters of a signature.
#[derive(Debug, Eq, PartialEq, Clone, Copy)]
pub enum PostParamQualifier {
    Const,
    Noexcept,
    Override,
    Final,
}

/// What a method may be marked as in place of a body.
#[derive(Debug, Eq, PartialEq, Clone, Copy)]
pub enum SpecialMember {
    PureVirtual,
    Defaulted,
    Deleted,
}

impl CppStorageQualifier {
    /// The word of a qualifier.
    pub open spec fn word(self) -> Seq<char> {
        match self {
            CppStorageQualifier::Inline => "inline"@,
            CppStorageQualifier::Constexpr => "constexpr"@,
            CppStorageQualifier::Explicit => "explicit"@,
            CppStorageQualifier::Friend => "friend"@,
            CppStorageQualifier::Static => "static"@,
            CppStorageQualifier::Virtual => "virtual"@,
        }
    }

    /// The qualifier that a word stands for, if it is the word of one.
    pub fn from_word(value: &str) -> (r: Option<CppStorageQualifier>)
        ensures
            match r {
                Some(q) => value@ == q.word(),
                None => forall|q: CppStorageQualifier| value@ != q.word(),
            },
    {
        if same_text(value, "inline") {
            Some(CppStorageQualifier::Inline)
        } else if same_text(value, "constexpr") {
            Some(CppStorageQualifier::Constexpr)
        } else if same_text(value, "explicit") {
            Some(CppStorageQualifier::Explicit)
        } else if same_text(value, "friend") {
            Some(CppStorageQualifier::Friend)
        } else if same_text(value, "static") {
            Some(CppStorageQualifier::Static)
        } else if same_text(value, "virtual") {
            Some(CppStorageQualifier::Virtual)
        } else {
            None
        }
    }
}

impl PostParamQualifier {
    /// The word of a qualifier.
    pub open spec fn word(self) -> Seq<char> {
        match self {
            PostParamQualifier::Const => "const"@,
            PostParamQualifier::Noexcept => "noexcept"@,
            PostParamQualifier::Override => "override"@,
            PostParamQualifier::Final => "final"@,
        }
    }

    /// The qualifier that a word stands for, if it is the word of one.
    pub fn from_word(value: &str) -> (r: Option<PostParamQualifier>)
        ensures
            match r {
                Some(q) => value@ == q.word(),
                None => forall|q: PostParamQualifier| value@ != q.word(),
            },
    {
        if same_text(value, "const") {
            Some(PostParamQualifier::Const)
        } else if same_text(value, "noexcept") {
            Some(PostParamQualifier::Noexcept)
        } else if same_text(value, "override") {
            Some(PostParamQualifier::Override)
        } else if same_text(value, "final") {
            Some(PostParamQualifier::Final)
        } else {
            None
        }
    }
}

/// A function or method as a mathematical value.
pub struct MethodModel {
    pub name: Seq<char>,
    pub return_type: Option<TypeExpr>,
    pub template_params: Seq<TypeExpr>,
    pub params: Seq<ParamModel>,
    pub storage_qualifiers: Seq<CppStorageQualifier>,
    pub post_param_qualifiers: Seq<PostParamQualifier>,
    pub special: Option<SpecialMember>,
    pub comment: Option<Seq<char>>,
    /// What the one annotation that is kept holds.
    pub annotation: Seq<Seq<char>>,
}

/// The shape in which a dialect keeps a function or method.
pub trait Method<'a>: Sized + DeepView<V = MethodModel> {
    type MethodAnnotation: Annotation<'a>;

    /// Makes the method of its parts. Of the annotations the first is kept.
    fn method(
        name: &'a str,
        return_type: Option<CType<'a>>,
        template_params: Vec<CType<'a>>,
        params: Vec<CppMethodParam<'a>>,
        storage_qualifiers: Vec<CppStorageQualifier>,
        post_param_qualifiers: Vec<PostParamQualifier>,
        special: Option<SpecialMember>,
        comment: Option<CppComment>,
        annotations: Option<Vec<Self::MethodAnnotation>>,
    ) -> (r: Self)
        ensures
            r.deep_view() == (MethodModel {
                name: name@,
                return_type: return_type.deep_view(),
                template_params: template_params.deep_view(),
                params: params.deep_view(),
                storage_qualifiers: storage_qualifiers@,
                post_param_qualifiers: post_param_qualifiers@,
                special,
                comment: comment.deep_view(),
                annotation: kept(annotations.deep_view()),
            }),
    ;
}

/// The storage qualifier whose word stands at `i`, and where the word ends.
pub open spec fn storage_word(s: Seq<char>, i: int) -> Option<(CppStorageQualifier, int)> {
    if word_at(s, i, "inline"@) {
        Some((CppStorageQualifier::Inline, i + "inline"@.len()))
    } else if word_at(s, i, "constexpr"@) {
        Some((CppStorageQualifier::Constexpr, i + "constexpr"@.len()))
    } else if word_at(s, i, "explicit"@) {
        Some((CppStorageQualifier::Explicit, i + "explicit"@.len()))
    } else if word_at(s, i, "friend"@) {
        Some((CppStorageQualifier::Friend, i + "friend"@.len()))
    } else if word_at(s, i, "static"@) {
        Some((CppStorageQualifier::Static, i + "static"@.len()))
    } else if word_at(s, i, "virtual"@) {
        Some((CppStorageQualifier::Virtual, i + "virtual"@.len()))
    } else {
        None
    }
}

/// The word of a storage qualifier is not empty and ends inside the text.
pub proof fn storage_word_bounds(s: Seq<char>, i: int)
    ensures
        storage_word(s, i) matches Some((_, e)) ==> 0 <= i < e <= s.len(),
{
    reveal_strlit("inline");
    reveal_strlit("constexpr");
    reveal_strlit("explicit");
    reveal_strlit("friend");
    reveal_strlit("static");
    reveal_strlit("virtual");
}

/// The storage qualifiers from `i` on, added to `done`: each with blanks
/// on both sides of it.
pub open spec fn storage_qualifiers(s: Seq<char>, i: int, done: Seq<CppStorageQualifier>) -> (
    Seq<CppStorageQualifier>,
    int,
)
    decreases s.len() - i,
{
    let b = blanks_end(s, i);
    match storage_word(s, b) {
        Some((q, e)) => {
            proof {
                storage_word_bounds(s, b);
                if 0 <= i <= s.len() {
                    run_end_bounds(s, i, CharClass::Blank);
                }
                run_end_bounds(s, e, CharClass::Blank);
            }
            storage_qualifiers(s, blanks_end(s, e), done.push(q))
        },
        None => (done, i),
    }
}

/// The qualifier behind the parameters whose word stands at `i`, and where
/// the word ends.
pub open spec fn post_word(s: Seq<char>, i: int) -> Option<(PostParamQualifier, int)> {
    if word_at(s, i, "const"@) {
        Some((PostParamQualifier::Const, i + "const"@.len()))
    } else if word_at(s, i, "noexcept"@) {
        Some((PostParamQualifier::Noexcept, i + "noexcept"@.len()))
    } else if word_at(s, i, "override"@) {
        Some((PostParamQualifier::Override, i + "override"@.len()))
    } else if word_at(s, i, "final"@) {
        Some((PostParamQualifier::Final, i + "final"@.len()))
    } else {
        None
    }
}

/// The word of a qualifier behind the parameters is not empty and ends
/// inside the text.
pub proof fn post_word_bounds(s: Seq<char>, i: int)
    ensures
        post_word(s, i) matches Some((_, e)) ==> 0 <= i < e <= s.len(),
{
    reveal_strlit("const");
    reveal_strlit("noexcept");
    reveal_strlit("override");
    reveal_strlit("final");
}

/// The qualifiers behind the parameters from `i` on, added to `done`: each
/// with blanks on both sides of it, in any order and number.
pub open spec fn post_qualifiers(s: Seq<char>, i: int, done: Seq<PostParamQualifier>) -> (
    Seq<PostParamQualifier>,
    int,
)
    decreases s.len() - i,
{
    let b = blanks_end(s, i);
    match post_word(s, b) {
        Some((q, e)) => {
            proof {
                post_word_bounds(s, b);
                if 0 <= i <= s.len() {
                    run_end_bounds(s, i, CharClass::Blank);
                }
                run_end_bounds(s, e, CharClass::Blank);
            }
            post_qualifiers(s, blanks_end(s, e), done.push(q))
        },
        None => (done, i),
    }
}

/// The tokens that may follow `operator` in a name, a longer one before
/// every shorter one that it starts with.
pub open spec fn operator_tokens() -> Seq<Seq<char>> {
    seq![
        "<=>"@,
        "()"@,
        "[]"@,
        "->"@,
        "++"@,
        "--"@,
        "<<"@,
        ">>"@,
        "=="@,
        "!="@,
        "<="@,
        ">="@,
        "+="@,
        "-="@,
        "*="@,
        "/="@,
        "%="@,
        "^="@,
        "&="@,
        "|="@,
        "new"@,
        "delete"@,
        "~"@,
        "+"@,
        "-"@,
        "*"@,
        "/"@,
        "%"@,
        "^"@,
        "&"@,
        "|"@,
        "!"@,
        "="@,
        "<"@,
        ">"@,
        ","@,
    ]
}

/// Where the first of `words`, from the `k`th on, that stands at `i` ends.
pub open spec fn first_word_end(s: Seq<char>, i: int, words: Seq<Seq<char>>, k: int) -> Option<
    int,
>
    decreases words.len() - k,
{
    if k < 0 || k >= words.len() {
        None
    } else if word_at(s, i, words[k]) {
        Some(i + words[k].len())
    } else {
        first_word_end(s, i, words, k + 1)
    }
}

/// The name of a function at `i`: `operator` with one of its tokens right
/// behind it, or else a run of letters, digits, `_` and `~`.
pub open spec fn method_name(s: Seq<char>, i: int) -> Outcome<Seq<char>> {
    let operator = match word_end(s, i, "operator"@) {
        Some(k) => first_word_end(s, k, operator_tokens(), 0),
        None => None,
    };
    let e = run_end(s, i, CharClass::MethodIdent);
    match operator {
        Some(end) => Outcome::Match { value: s.subrange(i, end), end },
        None => if i < e {
            Outcome::Match { value: s.subrange(i, e), end: e }
        } else {
            Outcome::Fail { at: i, expected: Expected::Identifier }
        },
    }
}

/// The return type, if one stands in front, and the name of a function at
/// `i`. A type with blanks and a name behind it is a return type and the
/// name; where that is not met, what stands behind the blanks at `i` is the
/// name alone.
pub open spec fn declarator(s: Seq<char>, i: int) -> Outcome<(Option<TypeExpr>, Seq<char>)> {
    let (t, e) = cpp_type(s, i);
    let b = blanks_end(s, e);
    let classic = if e < b {
        method_name(s, b)
    } else {
        Outcome::Fail { at: e, expected: Expected::Space }
    };
    match classic {
        Outcome::Match { value, end } => Outcome::Match { value: (Some(t), value), end },
        Outcome::Fail { .. } => match method_name(s, blanks_end(s, i)) {
            Outcome::Match { value, end } => Outcome::Match { value: (None, value), end },
            Outcome::Fail { at, expected } => Outcome::Fail { at, expected },
        },
    }
}

/// Where the member initializers that follow one that ended at `e` end:
/// each stands behind a `,` with blanks around it.
pub open spec fn more_initializers(s: Seq<char>, e: int) -> int
    decreases s.len() - e,
{
    let b = blanks_end(s, e);
    let start = blanks_end(s, b + 1);
    let next = run_end(s, start, CharClass::Initializer);
    if 0 <= e <= s.len() && char_at(s, b, ',') && start < next {
        proof {
            run_end_bounds(s, e, CharClass::Blank);
            run_end_bounds(s, b + 1, CharClass::Blank);
            run_end_bounds(s, start, CharClass::Initializer);
        }
        more_initializers(s, next)
    } else {
        e
    }
}

/// Where the member initializers behind the parameters end: `:` and
/// initializers with `,` between them. They are passed over, and where
/// no `:` stands nothing is.
pub open spec fn initializers_end(s: Seq<char>, p: int) -> int {
    let q = blanks_end(s, p);
    let first = run_end(s, q + 1, CharClass::Initializer);
    if char_at(s, q, ':') {
        if q + 1 < first {
            more_initializers(s, first)
        } else {
            q + 1
        }
    } else {
        p
    }
}

/// The return type behind `->` at `p`, blanks around the arrow allowed.
pub open spec fn trailing_return(s: Seq<char>, p: int) -> (Option<TypeExpr>, int) {
    match word_end(s, blanks_end(s, p), "->"@) {
        Some(k) => {
            let (t, e) = cpp_type(s, blanks_end(s, k));
            (Some(t), e)
        },
        None => (None, p),
    }
}

/// What a method is marked as at `p`: `=` with blanks around it, then `0`,
/// `default` or `delete`.
pub open spec fn special_member(s: Seq<char>, p: int) -> (Option<SpecialMember>, int) {
    let b = blanks_end(s, p);
    let k = blanks_end(s, b + 1);
    if !char_at(s, b, '=') {
        (None, p)
    } else if word_at(s, k, "0"@) {
        (Some(SpecialMember::PureVirtual), k + "0"@.len())
    } else if word_at(s, k, "default"@) {
        (Some(SpecialMember::Defaulted), k + "default"@.len())
    } else if word_at(s, k, "delete"@) {
        (Some(SpecialMember::Deleted), k + "delete"@.len())
    } else {
        (None, p)
    }
}

/// Where the body at `p` ends: a block that blanks may precede. Where there
/// is none nothing is taken.
pub open spec fn body_end(s: Seq<char>, p: int) -> int {
    match brace_block(s, blanks_end(s, p)) {
        Outcome::Match { value, end } => end,
        Outcome::Fail { .. } => p,
    }
}

/// Whether a type is the plain `void`.
pub open spec fn is_void(t: TypeExpr) -> bool {
    t == TypeExpr::Path(seq!["void"@])
}

/// The return type of a function, of the one in front of its name and the
/// one behind `->`: the trailing one where there is one, else the one in
/// front; `void` counts as none.
pub open spec fn resolved(classic: Option<TypeExpr>, trailing: Option<TypeExpr>) -> Option<
    TypeExpr,
> {
    let chosen = if trailing.is_some() {
        trailing
    } else {
        classic
    };
    match chosen {
        Some(t) => if is_void(t) {
            None
        } else {
            Some(t)
        },
        None => None,
    }
}

/// A function whose return type is `void` has none, as one that names no
/// return type has none; a return type behind `->` goes before the one in
/// front of the name; every other return type is kept as it is.
pub proof fn void_is_no_return_type(classic: Option<TypeExpr>, trailing: Option<TypeExpr>)
    ensures
        resolved(Some(TypeExpr::Path(seq!["void"@])), None).is_none(),
        resolved(classic, Some(TypeExpr::Path(seq!["void"@]))).is_none(),
        resolved(None, None).is_none(),
        trailing matches Some(t) ==> resolved(classic, trailing) == if is_void(t) {
            None
        } else {
            Some(t)
        },
        trailing.is_none() ==> (classic matches Some(t) ==> resolved(classic, trailing) == if is_void(
            t,
        ) {
            None
        } else {
            Some(t)
        }),
        resolved(classic, trailing) matches Some(t) ==> !is_void(t),
{
}

/// The function or method at `i`, in a dialect whose annotations are `A`.
///
/// In order: a comment; annotations; storage qualifiers; a template header;
/// the return type and the name; the parameters; member initializers; a
/// trailing return type; qualifiers; a mark in place of a body; a body.
/// All but the name and the parameters may be missing.
#[verifier::opaque]
pub open spec fn method<'a, A: Annotation<'a>>(s: Seq<char>, i: int) -> Outcome<MethodModel> {
    let (comment, pos1) = optional_comment(s, i);
    let (notes, pos2) = annotations::<A>(s, pos1);
    let (storage, pos3) = storage_qualifiers(s, pos2, Seq::empty());
    let (template_params, pos4) = match template_header(s, pos3) {
        Outcome::Match { value, end } => (value, end),
        Outcome::Fail { .. } => (Seq::empty(), pos3),
    };
    match declarator(s, pos4) {
        Outcome::Fail { at, expected } => Outcome::Fail { at, expected },
        Outcome::Match { value: (classic, name), end: pos5 } => match params(s, pos5) {
            Outcome::Fail { at, expected } => Outcome::Fail { at, expected },
            Outcome::Match { value: list, end: pos6 } => {
                let pos7 = initializers_end(s, pos6);
                let (trailing, pos8) = trailing_return(s, pos7);
                let (post, pos9) = post_qualifiers(s, pos8, Seq::empty());
                let (special, pos10) = special_member(s, pos9);
                Outcome::Match {
                    value: MethodModel {
                        name,
                        return_type: resolved(classic, trailing),
                        template_params,
                        params: list,
                        storage_qualifiers: storage,
                        post_param_qualifiers: post,
                        special,
                        comment,
                        annotation: kept(notes),
                    },
                    end: body_end(s, pos10),
                }
            },
        },
    }
}

fn storage_word_at(src: &Source, i: usize) -> (r: Option<(CppStorageQualifier, usize)>)
    requires
        i <= src@.len(),
    ensures
        match r {
            Some((q, e)) => storage_word(src@, i as int) == Some((q, e as int)) && i <= e
                <= src@.len(),
            None => storage_word(src@, i as int).is_none(),
        },
{
    if let Some(e) = src.word(i, "inline") {
        Some((CppStorageQualifier::Inline, e))
    } else if let Some(e) = src.word(i, "constexpr") {
        Some((CppStorageQualifier::Constexpr, e))
    } else if let Some(e) = src.word(i, "explicit") {
        Some((CppStorageQualifier::Explicit, e))
    } else if let Some(e) = src.word(i, "friend") {
        Some((CppStorageQualifier::Friend, e))
    } else if let Some(e) = src.word(i, "static") {
        Some((CppStorageQualifier::Static, e))
    } else if let Some(e) = src.word(i, "virtual") {
        Some((CppStorageQualifier::Virtual, e))
    } else {
        None
    }
}

fn storage_qualifiers_at(src: &Source, i: usize) -> (r: (Vec<CppStorageQualifier>, usize))
    requires
        i <= src@.len(),
    ensures
        (r.0@, r.1 as int) == storage_qualifiers(src@, i as int, Seq::empty()),
        i <= r.1 <= src@.len(),
{
    let mut list: Vec<CppStorageQualifier> = Vec::new();
    let mut j: usize = i;
    loop
        invariant
            i <= j <= src@.len(),
            storage_qualifiers(src@, i as int, Seq::empty()) == storage_qualifiers(
                src@,
                j as int,
                list@,
            ),
        ensures
            i <= j <= src@.len(),
            storage_qualifiers(src@, i as int, Seq::empty()) == (list@, j as int),
        decreases src@.len() - j,
    {
        let b = src.blanks(j);
        match storage_word_at(src, b) {
            Some((q, e)) => {
                proof {
                    storage_word_bounds(src@, b as int);
                }
                list.push(q);
                j = src.blanks(e);
            },
            None => {
                break ;
            },
        }
    }
    (list, j)
}

fn post_word_at(src: &Source, i: usize) -> (r: Option<(PostParamQualifier, usize)>)
    requires
        i <= src@.len(),
    ensures
        match r {
            Some((q, e)) => post_word(src@, i as int) == Some((q, e as int)) && i <= e
                <= src@.len(),
            None => post_word(src@, i as int).is_none(),
        },
{
    if let Some(e) = src.word(i, "const") {
        Some((PostParamQualifier::Const, e))
    } else if let Some(e) = src.word(i, "noexcept") {
        Some((PostParamQualifier::Noexcept, e))
    } else if let Some(e) = src.word(i, "override") {
        Some((PostParamQualifier::Override, e))
    } else if let Some(e) = src.word(i, "final") {
        Some((PostParamQualifier::Final, e))
    } else {
        None
    }
}

fn post_qualifiers_at(src: &Source, i: usize) -> (r: (Vec<PostParamQualifier>, usize))
    requires
        i <= src@.len(),
    ensures
        (r.0@, r.1 as int) == post_qualifiers(src@, i as int, Seq::empty()),
        i <= r.1 <= src@.len(),
{
    let mut list: Vec<PostParamQualifier> = Vec::new();
    let mut j: usize = i;
    loop
        invariant
            i <= j <= src@.len(),
            post_qualifiers(src@, i as int, Seq::empty()) == post_qualifiers(
                src@,
                j as int,
                list@,
            ),
        ensures
            i <= j <= src@.len(),
            post_qualifiers(src@, i as int, Seq::empty()) == (list@, j as int),
        decreases src@.len() - j,
    {
        let b = src.blanks(j);
        match post_word_at(src, b) {
            Some((q, e)) => {
                proof {
                    post_word_bounds(src@, b as int);
                }
                list.push(q);
                j = src.blanks(e);
            },
            None => {
                break ;
            },
        }
    }
    (list, j)
}

fn operator_token_list() -> (r: Vec<&'static str>)
    ensures
        r.deep_view() == operator_tokens(),
{
    let mut v: Vec<&'static str> = Vec::new();
    v.push("<=>");
    v.push("()");
    v.push("[]");
    v.push("->");
    v.push("++");
    v.push("--");
    v.push("<<");
    v.push(">>");
    v.push("==");
    v.push("!=");
    v.push("<=");
    v.push(">=");
    v.push("+=");
    v.push("-=");
    v.push("*=");
    v.push("/=");
    v.push("%=");
    v.push("^=");
    v.push("&=");
    v.push("|=");
    v.push("new");
    v.push("delete");
    v.push("~");
    v.push("+");
    v.push("-");
    v.push("*");
    v.push("/");
    v.push("%");
    v.push("^");
    v.push("&");
    v.push("|");
    v.push("!");
    v.push("=");
    v.push("<");
    v.push(">");
    v.push(",");
    assert(v.deep_view() =~= operator_tokens());
    v
}

/// Where the first of `words` that stands at `i` ends.
pub fn first_word_at(src: &Source, i: usize, words: &Vec<&str>) -> (r: Option<usize>)
    requires
        i <= src@.len(),
    ensures
        match r {
            Some(e) => first_word_end(src@, i as int, words.deep_view(), 0) == Some(e as int) && i
                <= e <= src@.len(),
            None => first_word_end(src@, i as int, words.deep_view(), 0).is_none(),
        },
{
    let mut k: usize = 0;
    while k < words.len()
        invariant
            k <= words.len(),
            i <= src@.len(),
            first_word_end(src@, i as int, words.deep_view(), 0) == first_word_end(
                src@,
                i as int,
                words.deep_view(),
                k as int,
            ),
        decreases words.len() - k,
    {
        assert(words.deep_view()[k as int] == words@[k as int]@);
        if let Some(e) = src.word(i, words[k]) {
            return Some(e);
        }
        k = k + 1;
    }
    None
}

fn method_name_at<'a>(src: &Source<'a>, i: usize) -> (r: Result<(&'a str, usize), Failure>)
    requires
        i <= src@.len(),
    ensures
        seen(r) == method_name(src@, i as int),
        within(r, i, src@.len()),
{
    let operator = match src.word(i, "operator") {
        Some(k) => {
            let tokens = operator_token_list();
            first_word_at(src, k, &tokens)
        },
        None => None,
    };
    match operator {
        Some(end) => Ok((src.slice(i, end), end)),
        None => {
            let e = src.run(i, CharClass::MethodIdent);
            if i < e {
                Ok((src.slice(i, e), e))
            } else {
                Err(Failure { at: i, expected: Expected::Identifier })
            }
        },
    }
}

fn declarator_at<'a>(src: &Source<'a>, i: usize) -> (r: Result<
    ((Option<CType<'a>>, &'a str), usize),
    Failure,
>)
    requires
        i <= src@.len(),
    ensures
        seen(r) == declarator(src@, i as int),
        within(r, i, src@.len()),
{
    let (t, e) = cpp_type_at(src, i);
    let b = src.blanks(e);
    if e < b {
        if let Ok((name, end)) = method_name_at(src, b) {
            return Ok(((Some(t), name), end));
        }
    }
    match method_name_at(src, src.blanks(i)) {
        Ok((name, end)) => Ok(((None, name), end)),
        Err(f) => Err(f),
    }
}

fn initializers_end_at(src: &Source, p: usize) -> (r: usize)
    requires
        p <= src@.len(),
    ensures
        r == initializers_end(src@, p as int),
        p <= r <= src@.len(),
{
    let q = src.blanks(p);
    match src.after_char(q, ':') {
        None => p,
        Some(from) => {
            let first = src.run(from, CharClass::Initializer);
            if from < first {
                let mut e: usize = first;
                loop
                    invariant
                        p <= e <= src@.len(),
                        more_initializers(src@, first as int) == more_initializers(src@, e as int),
                    ensures
                        p <= e <= src@.len(),
                        more_initializers(src@, first as int) == e,
                    decreases src@.len() - e,
                {
                    let b = src.blanks(e);
                    match src.after_char(b, ',') {
                        None => {
                            break ;
                        },
                        Some(k) => {
                            let start = src.blanks(k);
                            let next = src.run(start, CharClass::Initializer);
                            if start < next {
                                e = next;
                            } else {
                                break ;
                            }
                        },
                    }
                }
                e
            } else {
                from
            }
        },
    }
}

fn trailing_return_at<'a>(src: &Source<'a>, p: usize) -> (r: (Option<CType<'a>>, usize))
    requires
        p <= src@.len(),
    ensures
        (r.0.deep_view(), r.1 as int) == trailing_return(src@, p as int),
        p <= r.1 <= src@.len(),
{
    match src.word(src.blanks(p), "->") {
        Some(k) => {
            let (t, e) = cpp_type_at(src, src.blanks(k));
            (Some(t), e)
        },
        None => (None, p),
    }
}

fn special_member_at(src: &Source, p: usize) -> (r: (Option<SpecialMember>, usize))
    requires
        p <= src@.len(),
    ensures
        (r.0, r.1 as int) == special_member(src@, p as int),
        p <= r.1 <= src@.len(),
{
    let b = src.blanks(p);
    match src.after_char(b, '=') {
        None => (None, p),
        Some(from) => {
            let k = src.blanks(from);
            if let Some(e) = src.word(k, "0") {
                (Some(SpecialMember::PureVirtual), e)
            } else if let Some(e) = src.word(k, "default") {
                (Some(SpecialMember::Defaulted), e)
            } else if let Some(e) = src.word(k, "delete") {
                (Some(SpecialMember::Deleted), e)
            } else {
                (None, p)
            }
        },
    }
}

fn body_end_at(src: &Source, p: usize) -> (r: usize)
    requires
        p <= src@.len(),
    ensures
        r == body_end(src@, p as int),
        p <= r <= src@.len(),
{
    match brace_block_at(src, src.blanks(p)) {
        Ok((_, end)) => end,
        Err(_) => p,
    }
}

/// Whether a type is the plain `void`.
pub fn is_void_type(t: &CType) -> (r: bool)
    ensures
        r == is_void(t.deep_view()),
{
    match t {
        CType::Path(segments) => {
            if segments.len() == 1 {
                assert(segments.deep_view()[0] == segments@[0]@);
                let same = same_text(segments[0], "void");
                proof {
                    if same {
                        assert(segments.deep_view() =~= seq!["void"@]);
                    } else {
                        assert(seq!["void"@][0] == "void"@);
                    }
                }
                same
            } else {
                assert(seq!["void"@].len() == 1);
                false
            }
        },
        _ => false,
    }
}

/// The return type of a function, of the one in front of its name and the
/// one behind `->`.
pub fn resolve_return_type<'a>(classic: Option<CType<'a>>, trailing: Option<CType<'a>>) -> (r:
    Option<CType<'a>>)
    ensures
        r.deep_view() == resolved(classic.deep_view(), trailing.deep_view()),
{
    let chosen = if trailing.is_some() {
        trailing
    } else {
        classic
    };
    match chosen {
        Some(t) => if is_void_type(&t) {
            None
        } else {
            Some(t)
        },
        None => None,
    }
}

/// The function or method at `i`.
pub fn method_at<'a, M: Method<'a>>(src: &Source<'a>, i: usize) -> (r: Result<(M, usize), Failure>)
    requires
        i <= src@.len(),
    ensures
        seen(r) == method::<M::MethodAnnotation>(src@, i as int),
        within(r, i, src@.len()),
{
    reveal(method);
    let (comment, pos1) = optional_comment_at(src, i);
    let (notes, pos2) = annotations_at::<M::MethodAnnotation>(src, pos1);
    let (storage, pos3) = storage_qualifiers_at(src, pos2);
    let (template_params, pos4) = match template_header_at(src, pos3) {
        Ok((value, end)) => (value, end),
        Err(_) => {
            let none: Vec<CType<'a>> = Vec::new();
            assert(none.deep_view() =~= Seq::<TypeExpr>::empty());
            (none, pos3)
        },
    };
    let ((classic, name), pos5) = match declarator_at(src, pos4) {
        Ok(d) => d,
        Err(f) => {
            return Err(f);
        },
    };
    let (list, pos6) = match params_at(src, pos5) {
        Ok(l) => l,
        Err(f) => {
            return Err(f);
        },
    };
    let pos7 = initializers_end_at(src, pos6);
    let (trailing, pos8) = trailing_return_at(src, pos7);
    let (post, pos9) = post_qualifiers_at(src, pos8);
    let (special, pos10) = special_member_at(src, pos9);
    let end = body_end_at(src, pos10);
    let return_type = resolve_return_type(classic, trailing);
    Ok(
        (
            M::method(
                name,
                return_type,
                template_params,
                list,
                storage,
                post,
                special,
                comment,
                notes,
            ),
            end,
        ),
    )
}

/// Reads a function or method at the start of `input`, in the dialect of
/// `M`.
pub fn parse_method<'a, M: Method<'a>>(input: &'a str) -> (r: Result<(&'a str, M), ParseError<'a>>)
    ensures
        reports(r, input@, flat(method::<M::MethodAnnotation>(input@, 0))),
{
    let src = Source::new(input);
    src.report(method_at::<M>(&src, 0))
}

} // verus!
