use crate::parser::cpp::comment::CppComment;
use crate::parser::cpp::ctype::{
    bracketed, bracketed_at, bracketed_bounds, cpp_type, cpp_type_at, cpp_type_bounds,
    type_exprs_deep_view, CType, TypeExpr,
};
use crate::parser::generic::annotation::NoAnnotation;
use crate::parser::generic::method::{
    CppStorageQualifier, Method, MethodModel, PostParamQualifier, SpecialMember,
};
use crate::parser::{
    name, name_at, name_end_bounds, spaced_name, spaced_name_at, spaced_name_bounds,
};
use crate::text::{
    blanks_end, char_at, flat, found, reports, run_end_bounds, seen, within, CharClass, Expected,
    Failure, Nested, Outcome, ParseError, Source, NESTING,
};
use vstd::prelude::*;

verus! {

/// A parameter as a mathematical value.
pub struct ParamModel {
    pub name: Option<Seq<char>>,
    pub ctype: TypeExpr,
    pub default_value: Option<TypeExpr>,
}

/// A parameter of a function: a type, a name if it has one, a default if it
/// has one.
#[derive(Debug, Eq, PartialEq, Clone)]
pub struct CppMethodParam<'a> {
    pub name: Option<&'a str>,
    pub ctype: CType<'a>,
    pub default_value: Option<CType<'a>>,
}

impl<'a> DeepView for CppMethodParam<'a> {
    type V = ParamModel;

    open spec fn deep_view(&self) -> ParamModel {
        ParamModel {
            name: self.name.deep_view(),
            ctype: self.ctype.deep_view(),
            default_value: self.default_value.deep_view(),
        }
    }
}

/// A function or method of the plain dialect.
#[derive(Debug, Eq, PartialEq, Clone)]
pub struct CppFunction<'a> {
    pub name: &'a str,
    pub return_type: Option<CType<'a>>,
    pub template_params: Vec<CType<'a>>,
    pub params: Vec<CppMethodParam<'a>>,
    pub storage_qualifiers: Vec<CppStorageQualifier>,
    pub post_param_qualifiers: Vec<PostParamQualifier>,
    pub special: Option<SpecialMember>,
    pub comment: Option<CppComment>,
}

impl<'a> DeepView for CppFunction<'a> {
    type V = MethodModel;

    open spec fn deep_view(&self) -> MethodModel {
        MethodModel {
            name: self.name@,
            return_type: self.return_type.deep_view(),
            template_params: self.template_params.deep_view(),
            params: self.params.deep_view(),
            storage_qualifiers: self.storage_qualifiers@,
            post_param_qualifiers: self.post_param_qualifiers@,
            special: self.special,
            comment: self.comment.deep_view(),
            annotation: Seq::empty(),
        }
    }
}

impl<'a> Method<'a> for CppFunction<'a> {
    type MethodAnnotation = NoAnnotation;

    fn method(
        name: &'a str,
        return_type: Option<CType<'a>>,
        template_params: Vec<CType<'a>>,
        params: Vec<CppMethodParam<'a>>,
        storage_qualifiers: Vec<CppStorageQualifier>,
        post_param_qualifiers: Vec<PostParamQualifier>,
        special: Option<SpecialMember>,
        comment: Option<CppComment>,
        annotations: Option<Vec<NoAnnotation>>,
    ) -> (r: Self) {
        proof {
            match annotations {
                Some(list) => {
                    if list@.len() > 0 {
                        assert(list.deep_view()[0] == list@[0].deep_view());
                    }
                },
                None => {},
            }
        }
        CppFunction {
            name,
            return_type,
            template_params,
            params,
            storage_qualifiers,
            post_param_qualifiers,
            special,
            comment,
        }
    }
}

impl<'a> Default for CppFunction<'a> {
    fn default() -> (r: Self)
        ensures
            r.name@ == Seq::<char>::empty(),
            r.return_type.is_none(),
            r.template_params@.len() == 0,
            r.params@.len() == 0,
            r.storage_qualifiers@.len() == 0,
            r.post_param_qualifiers@.len() == 0,
            r.special.is_none(),
            r.comment.is_none(),
    {
        proof {
            reveal_strlit("");
        }
        assert(""@ =~= Seq::<char>::empty());
        Self {
            name: "",
            return_type: None,
            template_params: Vec::new(),
            params: Vec::new(),
            storage_qualifiers: Vec::new(),
            post_param_qualifiers: Vec::new(),
            special: None,
            comment: None,
        }
    }
}

/// A parameter in its plain form at `i`: a type, a name if one follows,
/// and a default behind `=` if one follows. There is one at every place.
pub open spec fn simple_param(s: Seq<char>, i: int) -> (ParamModel, int) {
    let (ctype, e) = cpp_type(s, blanks_end(s, i));
    let (name, e1) = match spaced_name(s, e) {
        Outcome::Match { value, end } => (Some(value), end),
        Outcome::Fail { .. } => (None, e),
    };
    let q = blanks_end(s, e1);
    if char_at(s, q, '=') {
        let (d, e2) = cpp_type(s, blanks_end(s, q + 1));
        (ParamModel { name, ctype, default_value: Some(d) }, e2)
    } else {
        (ParamModel { name, ctype, default_value: None }, e1)
    }
}

/// A parameter that is a pointer to a function, at `i`: the return type,
/// then `(`, `*`, a name and `)`, then the parameter types in parentheses
/// right behind. Its type is the function type; the name is not kept.
pub open spec fn function_pointer_param(s: Seq<char>, i: int) -> Option<(ParamModel, int)> {
    let (ret, e) = cpp_type(s, blanks_end(s, i));
    let open = blanks_end(s, e);
    let star = blanks_end(s, open + 1);
    let slot = blanks_end(s, star + 1);
    if char_at(s, open, '(') && char_at(s, star, '*') {
        match name(s, slot) {
            Outcome::Match { value, end } => {
                let close = blanks_end(s, end);
                if char_at(s, close, ')') && char_at(s, close + 1, '(') {
                    match bracketed(s, close + 1, '(', ')', false, NESTING as nat) {
                        Some((types, e2)) => Some(
                            (
                                ParamModel {
                                    name: None,
                                    ctype: TypeExpr::Function(Box::new(ret), types),
                                    default_value: None,
                                },
                                e2,
                            ),
                        ),
                        None => None,
                    }
                } else {
                    None
                }
            },
            Outcome::Fail { .. } => None,
        }
    } else {
        None
    }
}

/// The parameter at `i`: a pointer to a function where that form is met,
/// the plain form otherwise.
pub open spec fn param(s: Seq<char>, i: int) -> (ParamModel, int) {
    match function_pointer_param(s, i) {
        Some(p) => p,
        None => simple_param(s, i),
    }
}

/// A parameter ends at or behind its start and inside the text.
pub proof fn param_bounds(s: Seq<char>, i: int)
    requires
        0 <= i <= s.len(),
    ensures
        i <= param(s, i).1 <= s.len(),
{
    run_end_bounds(s, i, CharClass::Blank);
    cpp_type_bounds(s, blanks_end(s, i));
    let e = cpp_type(s, blanks_end(s, i)).1;
    match function_pointer_param(s, i) {
        Some(p) => {
            run_end_bounds(s, e, CharClass::Blank);
            let open = blanks_end(s, e);
            run_end_bounds(s, open + 1, CharClass::Blank);
            let star = blanks_end(s, open + 1);
            run_end_bounds(s, star + 1, CharClass::Blank);
            let slot = blanks_end(s, star + 1);
            name_end_bounds(s, slot, slot);
            let end = name(s, slot)->end;
            run_end_bounds(s, end, CharClass::Blank);
            bracketed_bounds(s, blanks_end(s, end) + 1, '(', ')', false, NESTING as nat);
        },
        None => {
            spaced_name_bounds(s, e);
            let e1 = match spaced_name(s, e) {
                Outcome::Match { value, end } => end,
                Outcome::Fail { .. } => e,
            };
            run_end_bounds(s, e1, CharClass::Blank);
            let q = blanks_end(s, e1);
            if char_at(s, q, '=') {
                run_end_bounds(s, q + 1, CharClass::Blank);
                cpp_type_bounds(s, blanks_end(s, q + 1));
            }
        },
    }
}

/// The parameters from `i` on, added to `done`, and where the last of them
/// ends: `,` with blanks around it leads to the next.
pub open spec fn param_list(s: Seq<char>, i: int, done: Seq<ParamModel>) -> (
    Seq<ParamModel>,
    int,
)
    decreases s.len() - i,
{
    let (p, e) = param(s, i);
    let q = blanks_end(s, e);
    if 0 <= i <= s.len() && char_at(s, q, ',') {
        proof {
            param_bounds(s, i);
            run_end_bounds(s, e, CharClass::Blank);
            run_end_bounds(s, q + 1, CharClass::Blank);
        }
        param_list(s, blanks_end(s, q + 1), done.push(p))
    } else {
        (done.push(p), e)
    }
}

/// A parameter list at `i`: `(`, the parameters, `)`, and the blanks that
/// follow. Between `(` and `)` there may be nothing but blanks.
pub open spec fn params(s: Seq<char>, i: int) -> Outcome<Seq<ParamModel>> {
    let b = blanks_end(s, i + 1);
    if !char_at(s, i, '(') {
        Outcome::Fail { at: i, expected: Expected::Char('(') }
    } else {
        let (list, e) = if char_at(s, b, ')') {
            (Seq::empty(), b)
        } else {
            param_list(s, b, Seq::empty())
        };
        let close = blanks_end(s, e);
        if char_at(s, close, ')') {
            Outcome::Match { value: list, end: blanks_end(s, close + 1) }
        } else {
            Outcome::Fail { at: close, expected: Expected::Char(')') }
        }
    }
}

/// Where what stands between the braces of a block ends, from `j` on: it
/// goes over whole blocks, as long as blocks may still be opened, and over
/// everything that is no brace.
pub open spec fn brace_inner(s: Seq<char>, j: int, depth: nat) -> int
    decreases s.len() - j, 2int,
{
    if !(0 <= j < s.len()) || s[j] == '}' {
        j
    } else if s[j] == '{' {
        if depth == 0 {
            j
        } else {
            match nested_block(s, j, (depth - 1) as nat) {
                Outcome::Match { value, end } if j < end <= s.len() => brace_inner(
                    s,
                    end,
                    depth,
                ),
                _ => j,
            }
        }
    } else {
        brace_inner(s, j + 1, depth)
    }
}

/// A block at `i` in which blocks may still be opened `depth` deep.
pub open spec fn nested_block(s: Seq<char>, i: int, depth: nat) -> Outcome<()>
    decreases s.len() - i, 1int,
{
    if !char_at(s, i, '{') {
        Outcome::Fail { at: i, expected: Expected::Char('{') }
    } else {
        let e = brace_inner(s, i + 1, depth);
        if char_at(s, e, '}') {
            Outcome::Match { value: (), end: e + 1 }
        } else {
            Outcome::Fail { at: e, expected: Expected::Char('}') }
        }
    }
}

/// A block at `i`: `{`, what stands between, `}`. Braces inside it come in
/// pairs; nothing in it is looked at otherwise.
pub open spec fn brace_block(s: Seq<char>, i: int) -> Outcome<()> {
    nested_block(s, i, NESTING as nat)
}

fn simple_param_at<'a>(src: &Source<'a>, i: usize) -> (r: (CppMethodParam<'a>, usize))
    requires
        i <= src@.len(),
    ensures
        (r.0.deep_view(), r.1 as int) == simple_param(src@, i as int),
        i <= r.1 <= src@.len(),
{
    let (ctype, e) = cpp_type_at(src, src.blanks(i));
    let (name, e1) = match spaced_name_at(src, e) {
        Ok((value, end)) => (Some(value), end),
        Err(_) => (None, e),
    };
    let q = src.blanks(e1);
    match src.after_char(q, '=') {
        Some(d) => {
            let (default, e2) = cpp_type_at(src, src.blanks(d));
            (CppMethodParam { name, ctype, default_value: Some(default) }, e2)
        },
        None => (CppMethodParam { name, ctype, default_value: None }, e1),
    }
}

fn function_pointer_param_at<'a>(src: &Source<'a>, i: usize) -> (r: Option<
    (CppMethodParam<'a>, usize),
>)
    requires
        i <= src@.len(),
    ensures
        found(r) == function_pointer_param(src@, i as int),
        r matches Some((_, e)) ==> i <= e <= src@.len(),
{
    let (ret, e) = cpp_type_at(src, src.blanks(i));
    let open = src.blanks(e);
    let inner = match src.after_char(open, '(') {
        Some(k) => k,
        None => {
            return None;
        },
    };
    let star = src.blanks(inner);
    let behind = match src.after_char(star, '*') {
        Some(k) => k,
        None => {
            return None;
        },
    };
    let slot = src.blanks(behind);
    match name_at(src, slot) {
        Err(_) => None,
        Ok((_, end)) => {
            let close = src.blanks(end);
            match src.after_char(close, ')') {
                None => None,
                Some(list) => {
                    if src.is_char(list, '(') {
                        match bracketed_at(src, list, '(', ')', false, NESTING) {
                            Some((types, e2)) => {
                                proof {
                                    type_exprs_deep_view(types);
                                }
                                Some(
                                    (
                                        CppMethodParam {
                                            name: None,
                                            ctype: CType::Function(Box::new(ret), types),
                                            default_value: None,
                                        },
                                        e2,
                                    ),
                                )
                            },
                            None => None,
                        }
                    } else {
                        None
                    }
                },
            }
        },
    }
}

fn param_at<'a>(src: &Source<'a>, i: usize) -> (r: (CppMethodParam<'a>, usize))
    requires
        i <= src@.len(),
    ensures
        (r.0.deep_view(), r.1 as int) == param(src@, i as int),
        i <= r.1 <= src@.len(),
{
    match function_pointer_param_at(src, i) {
        Some(p) => p,
        None => simple_param_at(src, i),
    }
}

/// The parameter list at `i`.
pub fn params_at<'a>(src: &Source<'a>, i: usize) -> (r: Result<
    (Vec<CppMethodParam<'a>>, usize),
    Failure,
>)
    requires
        i <= src@.len(),
    ensures
        seen(r) == params(src@, i as int),
        within(r, i, src@.len()),
{
    let first = match src.after_char(i, '(') {
        Some(k) => k,
        None => {
            return Err(Failure { at: i, expected: Expected::Char('(') });
        },
    };
    let b = src.blanks(first);
    let mut list: Vec<CppMethodParam<'a>> = Vec::new();
    let mut end: usize = b;
    assert(list.deep_view() =~= Seq::<ParamModel>::empty());
    if !src.is_char(b, ')') {
        let mut j: usize = b;
        loop
            invariant_except_break
                b <= j <= src@.len(),
                param_list(src@, b as int, Seq::empty()) == param_list(
                    src@,
                    j as int,
                    list.deep_view(),
                ),
            ensures
                b <= end <= src@.len(),
                param_list(src@, b as int, Seq::empty()) == (list.deep_view(), end as int),
            decreases src@.len() - j,
        {
            let (p, e) = param_at(src, j);
            let q = src.blanks(e);
            let ghost before = list.deep_view();
            let ghost added = p.deep_view();
            list.push(p);
            assert(list.deep_view() =~= before.push(added));
            match src.after_char(q, ',') {
                Some(next) => {
                    j = src.blanks(next);
                },
                None => {
                    end = e;
                    break ;
                },
            }
        }
    }
    let close = src.blanks(end);
    match src.after_char(close, ')') {
        Some(e) => Ok((list, src.blanks(e))),
        None => Err(Failure { at: close, expected: Expected::Char(')') }),
    }
}

/// Reads a parameter list at the start of `input`.
pub fn parse_method_params<'a>(input: &'a str) -> (r: Result<
    (&'a str, Vec<CppMethodParam<'a>>),
    ParseError<'a>,
>)
    ensures
        reports(r, input@, flat(params(input@, 0))),
{
    let src = Source::new(input);
    src.report(params_at(&src, 0))
}

fn brace_inner_at(src: &Source, j: usize, depth: usize) -> (r: usize)
    requires
        j <= src@.len(),
    ensures
        r == brace_inner(src@, j as int, depth as nat),
        j <= r <= src@.len(),
    decreases src@.len() - j, 2int,
{
    let n = src.len();
    let mut k: usize = j;
    while k < n
        invariant
            j <= k <= n,
            n == src@.len(),
            brace_inner(src@, j as int, depth as nat) == brace_inner(
                src@,
                k as int,
                depth as nat,
            ),
        decreases n - k,
    {
        let c = src.at(k);
        if c == '}' {
            return k;
        } else if c == '{' {
            if depth == 0 {
                return k;
            }
            match nested_block_at(src, k, depth - 1) {
                Ok((_, end)) => {
                    k = end;
                },
                Err(_) => {
                    return k;
                },
            }
        } else {
            k = k + 1;
        }
    }
    k
}

/// The block at `i`.
pub fn brace_block_at(src: &Source, i: usize) -> (r: Result<((), usize), Failure>)
    requires
        i <= src@.len(),
    ensures
        seen(r) == brace_block(src@, i as int),
        within(r, i, src@.len()),
        r matches Ok((_, e)) ==> i < e,
{
    nested_block_at(src, i, NESTING)
}

/// The block at `i` in which blocks may still be opened `depth` deep.
pub fn nested_block_at(src: &Source, i: usize, depth: usize) -> (r: Result<((), usize), Failure>)
    requires
        i <= src@.len(),
    ensures
        seen(r) == nested_block(src@, i as int, depth as nat),
        within(r, i, src@.len()),
        r matches Ok((_, e)) ==> i < e,
    decreases src@.len() - i, 1int,
{
    match src.after_char(i, '{') {
        None => Err(Failure { at: i, expected: Expected::Char('{') }),
        Some(inner) => {
            let e = brace_inner_at(src, inner, depth);
            match src.after_char(e, '}') {
                Some(end) => Ok(((), end)),
                None => Err(Failure { at: e, expected: Expected::Char('}') }),
            }
        },
    }
}

/// Reads a block in braces at the start of `input`. What it holds is not
/// kept: the value is the empty text.
pub fn parse_brace_block<'a>(input: &'a str) -> (r: Result<(&'a str, &'a str), ParseError<'a>>)
    ensures
        match brace_block(input@, 0) {
            Outcome::Match { value, end } => reports(
                r,
                input@,
                Nested::Match { value: Seq::<char>::empty(), end },
            ),
            Outcome::Fail { at, expected } => reports(
                r,
                input@,
                Nested::Fail { at, expected, scope: Seq::empty() },
            ),
        },
{
    let src = Source::new(input);
    match brace_block_at(&src, 0) {
        Ok((_, end)) => {
            proof {
                reveal_strlit("");
            }
            assert(""@ =~= Seq::<char>::empty());
            Ok((src.rest(end), ""))
        },
        Err(f) => {
            let scope: Vec<&'a str> = Vec::new();
            assert(scope.deep_view() =~= Seq::<Seq<char>>::empty());
            Err(ParseError { rest: src.rest(f.at), expected: f.expected, scope })
        },
    }
}

} // verus!
