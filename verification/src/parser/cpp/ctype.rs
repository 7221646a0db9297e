use crate::text::{
    blanks_end, char_at, reports, run_end, run_end_bounds, word_at,
    word_end, CharClass, Nested, ParseError, Source, NESTING,
};
use vstd::prelude::*;

verus! {

/// A type expression as a mathematical value.
pub enum TypeExpr {
    /// `auto`.
    Auto,
    /// A scoped name, segment by segment; it may have no segment at all.
    Path(Seq<Seq<char>>),
    /// A base with its arguments in angle brackets.
    Generic(Box<TypeExpr>, Seq<TypeExpr>),
    /// A return type with its parameter types.
    Function(Box<TypeExpr>, Seq<TypeExpr>),
    Pointer(Box<TypeExpr>),
    Reference(Box<TypeExpr>),
    /// A base and the identifier behind a `::` that follows it.
    MemberAccess(Box<TypeExpr>, Seq<char>),
    Const(Box<TypeExpr>),
}

/// A type expression over the text it was read from.
#[derive(Debug, Eq, PartialEq)]
pub enum CType<'a> {
    Auto,
    Path(Vec<&'a str>),
    Generic(Box<CType<'a>>, Vec<CType<'a>>),
    Function(Box<CType<'a>>, Vec<CType<'a>>),
    Pointer(Box<CType<'a>>),
    Reference(Box<CType<'a>>),
    MemberAccess(Box<CType<'a>>, &'a str),
    Const(Box<CType<'a>>),
}

/// The value that a `CType` stands for.
pub open spec fn type_expr(t: CType) -> TypeExpr
    decreases t, 0int,
{
    match t {
        CType::Auto => TypeExpr::Auto,
        CType::Path(segments) => TypeExpr::Path(segments.deep_view()),
        CType::Generic(base, args) => TypeExpr::Generic(
            Box::new(type_expr(*base)),
            type_exprs(args@),
        ),
        CType::Function(base, params) => TypeExpr::Function(
            Box::new(type_expr(*base)),
            type_exprs(params@),
        ),
        CType::Pointer(inner) => TypeExpr::Pointer(Box::new(type_expr(*inner))),
        CType::Reference(inner) => TypeExpr::Reference(Box::new(type_expr(*inner))),
        CType::MemberAccess(base, member) => TypeExpr::MemberAccess(
            Box::new(type_expr(*base)),
            member@,
        ),
        CType::Const(inner) => TypeExpr::Const(Box::new(type_expr(*inner))),
    }
}

/// The values that a list of `CType`s stands for.
pub open spec fn type_exprs(list: Seq<CType>) -> Seq<TypeExpr>
    decreases list, 1int,
{
    Seq::new(
        list.len(),
        |k: int|
            if 0 <= k < list.len() {
                type_expr(list[k])
            } else {
                TypeExpr::Auto
            },
    )
}

impl<'a> DeepView for CType<'a> {
    type V = TypeExpr;

    open spec fn deep_view(&self) -> TypeExpr {
        type_expr(*self)
    }
}

impl<'a> CType<'a> {
    /// A copy of the type.
    pub fn duplicate(&self) -> (r: CType<'a>)
        ensures
            r.deep_view() == self.deep_view(),
        decreases self,
    {
        match self {
            CType::Auto => CType::Auto,
            CType::Path(segments) => {
                let mut copy: Vec<&'a str> = Vec::new();
                let mut k: usize = 0;
                while k < segments.len()
                    invariant
                        k <= segments.len(),
                        copy@ == segments@.take(k as int),
                    decreases segments.len() - k,
                {
                    copy.push(segments[k]);
                    assert(copy@ =~= segments@.take(k + 1));
                    k = k + 1;
                }
                assert(copy@ =~= segments@);
                assert(copy.deep_view() =~= segments.deep_view());
                CType::Path(copy)
            },
            CType::Generic(base, args) => CType::Generic(
                Box::new(base.duplicate()),
                CType::duplicates(args),
            ),
            CType::Function(base, params) => CType::Function(
                Box::new(base.duplicate()),
                CType::duplicates(params),
            ),
            CType::Pointer(inner) => CType::Pointer(Box::new(inner.duplicate())),
            CType::Reference(inner) => CType::Reference(Box::new(inner.duplicate())),
            CType::MemberAccess(base, member) => CType::MemberAccess(
                Box::new(base.duplicate()),
                *member,
            ),
            CType::Const(inner) => CType::Const(Box::new(inner.duplicate())),
        }
    }

    /// A copy of a list of types.
    pub fn duplicates(list: &Vec<CType<'a>>) -> (r: Vec<CType<'a>>)
        ensures
            type_exprs(r@) == type_exprs(list@),
        decreases list,
    {
        let mut copy: Vec<CType<'a>> = Vec::new();
        let mut k: usize = 0;
        while k < list.len()
            invariant
                k <= list.len(),
                type_exprs(copy@) == type_exprs(list@.take(k as int)),
            decreases list.len() - k,
        {
            let item = list[k].duplicate();
            let ghost before = type_exprs(copy@);
            copy.push(item);
            assert(type_exprs(copy@) =~= before.push(type_expr(item)));
            assert(type_exprs(list@.take(k + 1)) =~= type_exprs(list@.take(k as int)).push(
                type_expr(list@[k as int]),
            ));
            k = k + 1;
        }
        assert(list@.take(k as int) =~= list@);
        copy
    }
}

impl<'a> Clone for CType<'a> {
    fn clone(&self) -> (r: Self)
        ensures
            r.deep_view() == self.deep_view(),
    {
        self.duplicate()
    }
}

impl<'a> Default for CType<'a> {
    fn default() -> (r: Self)
        ensures
            r.deep_view() == TypeExpr::Path(Seq::empty()),
    {
        let v: Vec<&'a str> = Vec::new();
        assert(v.deep_view() =~= Seq::<Seq<char>>::empty());
        CType::Path(v)
    }
}

/// Whether `c` may stand in an identifier: a letter, a digit or `_`.
pub fn is_ident_char(c: char) -> (r: bool)
    ensures
        r == CharClass::Ident.has(c),
{
    CharClass::Ident.test(c)
}

/// An identifier with what may stand in front of it: blanks, one of the
/// words `class` and `typename`, blanks again. The result is where the
/// identifier starts and ends.
pub open spec fn cpp_ident(s: Seq<char>, i: int) -> Option<(int, int)> {
    let q = blanks_end(s, i);
    let k = if word_at(s, q, "class"@) {
        q + "class"@.len()
    } else if word_at(s, q, "typename"@) {
        q + "typename"@.len()
    } else {
        i
    };
    let b = blanks_end(s, k);
    let e = run_end(s, b, CharClass::Ident);
    if b < e {
        Some((b, e))
    } else {
        None
    }
}

/// An identifier starts at or behind the place where it was looked for, is
/// not empty and ends inside the text.
pub proof fn cpp_ident_bounds(s: Seq<char>, i: int)
    requires
        0 <= i <= s.len(),
    ensures
        cpp_ident(s, i) matches Some((b, e)) ==> i <= b < e <= s.len(),
{
    let q = blanks_end(s, i);
    run_end_bounds(s, i, CharClass::Blank);
    let k = if word_at(s, q, "class"@) {
        q + "class"@.len()
    } else if word_at(s, q, "typename"@) {
        q + "typename"@.len()
    } else {
        i
    };
    run_end_bounds(s, k, CharClass::Blank);
    run_end_bounds(s, blanks_end(s, k), CharClass::Ident);
}

/// The segments of a scoped name that follow a segment that ended at `j`,
/// added to `done`: each is an identifier behind `::`.
pub open spec fn path_rest(s: Seq<char>, j: int, done: Seq<Seq<char>>) -> (Seq<Seq<char>>, int)
    decreases s.len() - j,
{
    if 0 <= j && word_at(s, j, "::"@) {
        match cpp_ident(s, j + "::"@.len()) {
            Some((b, e)) => {
                proof {
                    cpp_ident_bounds(s, j + "::"@.len());
                }
                path_rest(s, e, done.push(s.subrange(b, e)))
            },
            None => (done, j),
        }
    } else {
        (done, j)
    }
}

/// A scoped name: identifiers with `::` between them, as many as there
/// are, none included. The result is the segments and where the name ends.
pub open spec fn path(s: Seq<char>, i: int) -> (Seq<Seq<char>>, int) {
    match cpp_ident(s, i) {
        Some((b, e)) => path_rest(s, e, seq![s.subrange(b, e)]),
        None => (Seq::empty(), i),
    }
}

/// A scoped name ends at or behind its start and inside the text.
pub proof fn path_rest_bounds(s: Seq<char>, j: int, done: Seq<Seq<char>>)
    requires
        0 <= j <= s.len(),
    ensures
        j <= path_rest(s, j, done).1 <= s.len(),
    decreases s.len() - j,
{
    if word_at(s, j, "::"@) {
        cpp_ident_bounds(s, j + "::"@.len());
        match cpp_ident(s, j + "::"@.len()) {
            Some((b, e)) => {
                path_rest_bounds(s, e, done.push(s.subrange(b, e)));
            },
            None => {},
        }
    }
}

/// A scoped name ends at or behind its start and inside the text.
pub proof fn path_bounds(s: Seq<char>, i: int)
    requires
        0 <= i <= s.len(),
    ensures
        i <= path(s, i).1 <= s.len(),
{
    cpp_ident_bounds(s, i);
    match cpp_ident(s, i) {
        Some((b, e)) => {
            path_rest_bounds(s, e, seq![s.subrange(b, e)]);
        },
        None => {},
    }
}

/// What a scoped name stands for: `auto` alone is the placeholder.
pub open spec fn named_type(segments: Seq<Seq<char>>) -> TypeExpr {
    if segments.len() == 1 && segments[0] == "auto"@ {
        TypeExpr::Auto
    } else {
        TypeExpr::Path(segments)
    }
}

/// The identifiers behind `::` that follow a type at `p`, each wrapped
/// around what stands before it.
pub open spec fn member_access(s: Seq<char>, p: int, base: TypeExpr) -> (TypeExpr, int)
    decreases s.len() - p,
{
    if 0 <= p && word_at(s, p, "::"@) {
        let b = p + "::"@.len();
        let e = run_end(s, b, CharClass::Ident);
        if b < e <= s.len() {
            member_access(s, e, TypeExpr::MemberAccess(Box::new(base), s.subrange(b, e)))
        } else {
            (base, p)
        }
    } else {
        (base, p)
    }
}

/// The `*` and `&` that follow a type at `p`, blanks before each allowed,
/// each wrapped around what stands before it: the leftmost is innermost.
pub open spec fn pointers(s: Seq<char>, p: int, base: TypeExpr) -> (TypeExpr, int)
    decreases s.len() - blanks_end(s, p),
{
    let q = blanks_end(s, p);
    if char_at(s, q, '*') {
        proof {
            pointers_step(s, q);
        }
        pointers(s, q + 1, TypeExpr::Pointer(Box::new(base)))
    } else if char_at(s, q, '&') {
        proof {
            pointers_step(s, q);
        }
        pointers(s, q + 1, TypeExpr::Reference(Box::new(base)))
    } else {
        (base, p)
    }
}

/// A type with `*` and `&` wrapped around it as they come: the first of
/// them is the innermost.
pub open spec fn wrapped(base: TypeExpr, marks: Seq<char>) -> TypeExpr
    decreases marks.len(),
{
    if marks.len() == 0 {
        base
    } else if marks[0] == '*' {
        wrapped(TypeExpr::Pointer(Box::new(base)), marks.skip(1))
    } else {
        wrapped(TypeExpr::Reference(Box::new(base)), marks.skip(1))
    }
}

/// Where `*` and `&` stand one behind the other at `p`, and neither of them
/// follows, they wrap the type from left to right: the leftmost of them is
/// innermost and the rightmost outermost.
pub proof fn marks_wrap_left_to_right(s: Seq<char>, p: int, base: TypeExpr, marks: Seq<char>)
    requires
        0 <= p,
        p + marks.len() <= s.len(),
        s.subrange(p, p + marks.len()) == marks,
        forall|k: int| 0 <= k < marks.len() ==> marks[k] == '*' || marks[k] == '&',
        !char_at(s, blanks_end(s, p + marks.len()), '*'),
        !char_at(s, blanks_end(s, p + marks.len()), '&'),
    ensures
        pointers(s, p, base) == (wrapped(base, marks), p + marks.len()),
    decreases marks.len(),
{
    if marks.len() > 0 {
        assert(s[p] == s.subrange(p, p + marks.len())[0]);
        assert(blanks_end(s, p) == p);
        let rest = marks.skip(1);
        assert(s.subrange(p + 1, p + 1 + rest.len()) =~= rest);
        assert forall|k: int| 0 <= k < rest.len() implies rest[k] == '*' || rest[k] == '&' by {
            assert(rest[k] == marks[k + 1]);
        }
        if marks[0] == '*' {
            marks_wrap_left_to_right(s, p + 1, TypeExpr::Pointer(Box::new(base)), rest);
        } else {
            marks_wrap_left_to_right(s, p + 1, TypeExpr::Reference(Box::new(base)), rest);
        }
    }
}

/// Behind a character that is no blank the blanks end further on.
pub proof fn pointers_step(s: Seq<char>, q: int)
    requires
        0 <= q < s.len(),
    ensures
        q < blanks_end(s, q + 1) <= s.len(),
{
    run_end_bounds(s, q + 1, CharClass::Blank);
}

/// Whether something that was read from `from` on ended at `end`, at or
/// behind `from` and inside the text. Every type ends so, as
/// `cpp_type_bounds` shows; the rules that read a type inside a type say
/// it of what they have read before they go on, which is what lets them
/// go on.
pub open spec fn ends_inside(s: Seq<char>, from: int, end: int) -> bool {
    from <= end <= s.len()
}

/// Where an optional word that blanks may precede ends, and whether it
/// stood there.
pub open spec fn optional_word(s: Seq<char>, i: int, w: Seq<char>) -> (bool, int) {
    match word_end(s, blanks_end(s, i), w) {
        Some(e) => (true, e),
        None => (false, i),
    }
}

/// The type expression that starts at `i` and where it ends. There is one at
/// every place: where no name starts it is the path without segments and
/// takes nothing.
///
/// In order: `const`; a scoped name; arguments in angle brackets; `::` and
/// an identifier, any number of times; parameter types in parentheses;
/// `const`; `*` and `&`, any number of them. A `const` on either side wraps
/// what stands before the `*` and `&` once.
pub open spec fn cpp_type(s: Seq<char>, i: int) -> (TypeExpr, int) {
    nested_type(s, i, NESTING as nat)
}

/// The type expression that starts at `i` where brackets may still be
/// opened `depth` deep inside it. Deeper ones are not read: they are no part
/// of the type.
pub open spec fn nested_type(s: Seq<char>, i: int, depth: nat) -> (TypeExpr, int)
    decreases s.len() - i, 3int,
{
    if !(0 <= i <= s.len()) {
        (TypeExpr::Path(Seq::empty()), i)
    } else {
        let (leading, pos0) = optional_word(s, i, "const"@);
        let (segments, pos1) = path(s, pos0);
        let named = named_type(segments);
        proof {
            run_end_bounds(s, i, CharClass::Blank);
            path_bounds(s, pos0);
        }
        let (generic, pos2) = match bracketed(s, pos1, '<', '>', false, depth) {
            Some((args, e)) if ends_inside(s, pos1, e) => (
                TypeExpr::Generic(Box::new(named), args),
                e,
            ),
            _ => (named, pos1),
        };
        let (member, pos3) = member_access(s, pos2, generic);
        proof {
            member_access_bounds(s, pos2, generic);
        }
        let (function, pos4) = match call_suffix(s, pos3, depth) {
            Some((params, e)) if ends_inside(s, pos3, e) => (
                TypeExpr::Function(Box::new(member), params),
                e,
            ),
            _ => (member, pos3),
        };
        let (trailing, pos5) = optional_word(s, pos4, "const"@);
        let qualified = if leading || trailing {
            TypeExpr::Const(Box::new(function))
        } else {
            function
        };
        pointers(s, pos5, qualified)
    }
}

/// The types between an opening and a closing character, with `,` between
/// them and blanks allowed before each of these; `None` where the opening
/// or the closing character is missing. With `named`, an identifier may
/// follow each type; it is passed over.
pub open spec fn bracketed(
    s: Seq<char>,
    p: int,
    open: char,
    close: char,
    named: bool,
    depth: nat,
) -> Option<(Seq<TypeExpr>, int)>
    decreases s.len() - p, 1int,
{
    let q = blanks_end(s, p);
    if depth > 0 && 0 <= p <= s.len() && char_at(s, q, open) {
        proof {
            run_end_bounds(s, p, CharClass::Blank);
        }
        let (list, e) = type_list(s, q + 1, named, Seq::empty(), (depth - 1) as nat);
        let c = blanks_end(s, e);
        if char_at(s, c, close) {
            Some((list, c + 1))
        } else {
            None
        }
    } else {
        None
    }
}

/// The parameter types in parentheses behind a type. A parenthesis that
/// opens with `*` is a declarator: it belongs to the type only where it holds
/// no name, and the parameter types are then those in the parentheses that
/// follow it.
pub open spec fn call_suffix(s: Seq<char>, p: int, depth: nat) -> Option<(Seq<TypeExpr>, int)>
    decreases s.len() - p, 2int,
{
    let q = blanks_end(s, p);
    if 0 <= p <= s.len() && char_at(s, q, '(') {
        let r = blanks_end(s, q + 1);
        if char_at(s, r, '*') {
            let c = blanks_end(s, r + 1);
            if char_at(s, c, ')') {
                proof {
                    run_end_bounds(s, p, CharClass::Blank);
                    run_end_bounds(s, q + 1, CharClass::Blank);
                    run_end_bounds(s, r + 1, CharClass::Blank);
                }
                bracketed(s, c + 1, '(', ')', true, depth)
            } else {
                None
            }
        } else {
            bracketed(s, p, '(', ')', true, depth)
        }
    } else {
        None
    }
}

/// The types of a list from `i` on, added to `done`, and where the last of
/// them ends. Each is looked for behind blanks; `,` with blanks before it
/// leads to the next.
pub open spec fn type_list(
    s: Seq<char>,
    i: int,
    named: bool,
    done: Seq<TypeExpr>,
    depth: nat,
) -> (Seq<TypeExpr>, int)
    decreases s.len() - i, 4int,
{
    if !(0 <= i <= s.len()) {
        (done, i)
    } else {
        let b = blanks_end(s, i);
        proof {
            run_end_bounds(s, i, CharClass::Blank);
        }
        let (t, e0) = nested_type(s, b, depth);
        let e = if named {
            passed_name(s, e0)
        } else {
            e0
        };
        let q = blanks_end(s, e);
        if ends_inside(s, b, e0) && char_at(s, q, ',') {
            proof {
                passed_name_bounds(s, e0);
                run_end_bounds(s, e, CharClass::Blank);
            }
            type_list(s, q + 1, named, done.push(t), depth)
        } else {
            (done.push(t), e)
        }
    }
}

/// Where an identifier that blanks may precede ends, or `p` where there is
/// none.
pub open spec fn passed_name(s: Seq<char>, p: int) -> int {
    let b = blanks_end(s, p);
    let e = run_end(s, b, CharClass::Ident);
    if b < e {
        e
    } else {
        p
    }
}

/// A name that is passed over ends at or behind its start and inside the
/// text.
pub proof fn passed_name_bounds(s: Seq<char>, p: int)
    requires
        0 <= p <= s.len(),
    ensures
        p <= passed_name(s, p) <= s.len(),
{
    run_end_bounds(s, p, CharClass::Blank);
    run_end_bounds(s, blanks_end(s, p), CharClass::Ident);
}

/// Identifiers behind `::` end at or behind their start and inside the
/// text.
pub proof fn member_access_bounds(s: Seq<char>, p: int, base: TypeExpr)
    requires
        0 <= p <= s.len(),
    ensures
        p <= member_access(s, p, base).1 <= s.len(),
    decreases s.len() - p,
{
    if word_at(s, p, "::"@) {
        let b = p + "::"@.len();
        let e = run_end(s, b, CharClass::Ident);
        if b < e <= s.len() {
            member_access_bounds(
                s,
                e,
                TypeExpr::MemberAccess(Box::new(base), s.subrange(b, e)),
            );
        }
    }
}

/// `*` and `&` end at or behind their start and inside the text.
pub proof fn pointers_bounds(s: Seq<char>, p: int, base: TypeExpr)
    requires
        0 <= p <= s.len(),
    ensures
        p <= pointers(s, p, base).1 <= s.len(),
    decreases s.len() - blanks_end(s, p),
{
    let q = blanks_end(s, p);
    run_end_bounds(s, p, CharClass::Blank);
    if char_at(s, q, '*') {
        pointers_step(s, q);
        pointers_bounds(s, q + 1, TypeExpr::Pointer(Box::new(base)));
    } else if char_at(s, q, '&') {
        pointers_step(s, q);
        pointers_bounds(s, q + 1, TypeExpr::Reference(Box::new(base)));
    }
}

/// A type ends at or behind its start and inside the text: what the rules
/// for types say of the types inside a type holds of every type.
pub proof fn cpp_type_bounds(s: Seq<char>, i: int)
    requires
        0 <= i <= s.len(),
    ensures
        ends_inside(s, i, cpp_type(s, i).1),
{
    nested_type_bounds(s, i, NESTING as nat);
}

/// A type ends at or behind its start and inside the text, however deep
/// brackets may be opened inside it.
pub proof fn nested_type_bounds(s: Seq<char>, i: int, depth: nat)
    requires
        0 <= i <= s.len(),
    ensures
        ends_inside(s, i, nested_type(s, i, depth).1),
    decreases s.len() - i, 3int,
{
    let (leading, pos0) = optional_word(s, i, "const"@);
    run_end_bounds(s, i, CharClass::Blank);
    path_bounds(s, pos0);
    let (segments, pos1) = path(s, pos0);
    let named = named_type(segments);
    bracketed_bounds(s, pos1, '<', '>', false, depth);
    let (generic, pos2) = match bracketed(s, pos1, '<', '>', false, depth) {
        Some((args, e)) if ends_inside(s, pos1, e) => (TypeExpr::Generic(Box::new(named), args), e),
        _ => (named, pos1),
    };
    member_access_bounds(s, pos2, generic);
    let (member, pos3) = member_access(s, pos2, generic);
    call_suffix_bounds(s, pos3, depth);
    let (function, pos4) = match call_suffix(s, pos3, depth) {
        Some((params, e)) if ends_inside(s, pos3, e) => (
            TypeExpr::Function(Box::new(member), params),
            e,
        ),
        _ => (member, pos3),
    };
    run_end_bounds(s, pos4, CharClass::Blank);
    let (trailing, pos5) = optional_word(s, pos4, "const"@);
    let qualified = if leading || trailing {
        TypeExpr::Const(Box::new(function))
    } else {
        function
    };
    pointers_bounds(s, pos5, qualified);
}

/// A list in brackets ends behind its start and inside the text.
pub proof fn bracketed_bounds(
    s: Seq<char>,
    p: int,
    open: char,
    close: char,
    named: bool,
    depth: nat,
)
    requires
        0 <= p <= s.len(),
    ensures
        bracketed(s, p, open, close, named, depth) matches Some((_, e)) ==> p < e <= s.len(),
    decreases s.len() - p, 1int,
{
    let q = blanks_end(s, p);
    run_end_bounds(s, p, CharClass::Blank);
    if depth > 0 && char_at(s, q, open) {
        let inner = (depth - 1) as nat;
        type_list_bounds(s, q + 1, named, Seq::empty(), inner);
        run_end_bounds(s, type_list(s, q + 1, named, Seq::empty(), inner).1, CharClass::Blank);
    }
}

/// Parameter types in parentheses end behind their start and inside the
/// text.
pub proof fn call_suffix_bounds(s: Seq<char>, p: int, depth: nat)
    requires
        0 <= p <= s.len(),
    ensures
        call_suffix(s, p, depth) matches Some((_, e)) ==> p < e <= s.len(),
    decreases s.len() - p, 2int,
{
    let q = blanks_end(s, p);
    run_end_bounds(s, p, CharClass::Blank);
    if char_at(s, q, '(') {
        let r = blanks_end(s, q + 1);
        run_end_bounds(s, q + 1, CharClass::Blank);
        if char_at(s, r, '*') {
            let c = blanks_end(s, r + 1);
            run_end_bounds(s, r + 1, CharClass::Blank);
            if char_at(s, c, ')') {
                bracketed_bounds(s, c + 1, '(', ')', true, depth);
            }
        } else {
            bracketed_bounds(s, p, '(', ')', true, depth);
        }
    }
}

/// A list of types ends at or behind its start and inside the text.
pub proof fn type_list_bounds(
    s: Seq<char>,
    i: int,
    named: bool,
    done: Seq<TypeExpr>,
    depth: nat,
)
    requires
        0 <= i <= s.len(),
    ensures
        ends_inside(s, i, type_list(s, i, named, done, depth).1),
    decreases s.len() - i, 4int,
{
    let b = blanks_end(s, i);
    run_end_bounds(s, i, CharClass::Blank);
    nested_type_bounds(s, b, depth);
    let (t, e0) = nested_type(s, b, depth);
    passed_name_bounds(s, e0);
    let e = if named {
        passed_name(s, e0)
    } else {
        e0
    };
    let q = blanks_end(s, e);
    run_end_bounds(s, e, CharClass::Blank);
    if char_at(s, q, ',') {
        type_list_bounds(s, q + 1, named, done.push(t), depth);
    }
}

/// The model of a list of types, item by item.
pub proof fn type_exprs_deep_view(list: Vec<CType>)
    ensures
        list.deep_view() == type_exprs(list@),
{
    assert(list.deep_view() =~= type_exprs(list@));
}

fn cpp_ident_at(src: &Source, i: usize) -> (r: Option<(usize, usize)>)
    requires
        i <= src@.len(),
    ensures
        match r {
            Some((b, e)) => cpp_ident(src@, i as int) == Some((b as int, e as int)) && i <= b < e
                <= src@.len(),
            None => cpp_ident(src@, i as int).is_none(),
        },
{
    let q = src.blanks(i);
    let k = match src.word(q, "class") {
        Some(e) => e,
        None => match src.word(q, "typename") {
            Some(e) => e,
            None => i,
        },
    };
    let b = src.blanks(k);
    let e = src.run(b, CharClass::Ident);
    if b < e {
        Some((b, e))
    } else {
        None
    }
}

fn named_type_at<'a>(src: &Source<'a>, i: usize) -> (r: (CType<'a>, usize))
    requires
        i <= src@.len(),
    ensures
        type_expr(r.0) == named_type(path(src@, i as int).0),
        r.1 == path(src@, i as int).1,
        i <= r.1 <= src@.len(),
{
    let mut segments: Vec<&'a str> = Vec::new();
    assert(segments.deep_view() =~= Seq::<Seq<char>>::empty());
    match cpp_ident_at(src, i) {
        None => (CType::Path(segments), i),
        Some((b0, e0)) => {
            segments.push(src.slice(b0, e0));
            assert(segments.deep_view() =~= seq![src@.subrange(b0 as int, e0 as int)]);
            let mut j: usize = e0;
            loop
                invariant
                    i <= j <= src@.len(),
                    b0 <= e0 <= src@.len(),
                    segments@.len() >= 1,
                    segments@[0]@ == src@.subrange(b0 as int, e0 as int),
                    path(src@, i as int) == path_rest(src@, j as int, segments.deep_view()),
                ensures
                    i <= j <= src@.len(),
                    b0 <= e0 <= src@.len(),
                    segments@.len() >= 1,
                    segments@[0]@ == src@.subrange(b0 as int, e0 as int),
                    path(src@, i as int) == (segments.deep_view(), j as int),
                decreases src@.len() - j,
            {
                match src.word(j, "::") {
                    None => {
                        break ;
                    },
                    Some(k) => match cpp_ident_at(src, k) {
                        None => {
                            break ;
                        },
                        Some((b, e)) => {
                            let ghost before = segments.deep_view();
                            segments.push(src.slice(b, e));
                            assert(segments.deep_view() =~= before.push(
                                src@.subrange(b as int, e as int),
                            ));
                            j = e;
                        },
                    },
                }
            }
            if segments.len() == 1 && src.is_text(b0, e0, "auto") {
                (CType::Auto, j)
            } else {
                (CType::Path(segments), j)
            }
        },
    }
}

fn member_access_at<'a>(src: &Source<'a>, p: usize, base: CType<'a>) -> (r: (CType<'a>, usize))
    requires
        p <= src@.len(),
    ensures
        (type_expr(r.0), r.1 as int) == member_access(src@, p as int, type_expr(base)),
        p <= r.1 <= src@.len(),
{
    let mut t = base;
    let mut j: usize = p;
    loop
        invariant
            p <= j <= src@.len(),
            member_access(src@, p as int, type_expr(base)) == member_access(
                src@,
                j as int,
                type_expr(t),
            ),
        ensures
            p <= j <= src@.len(),
            member_access(src@, p as int, type_expr(base)) == (type_expr(t), j as int),
        decreases src@.len() - j,
    {
        match src.word(j, "::") {
            None => {
                break ;
            },
            Some(b) => {
                let e = src.run(b, CharClass::Ident);
                if b < e {
                    t = CType::MemberAccess(Box::new(t), src.slice(b, e));
                    j = e;
                } else {
                    break ;
                }
            },
        }
    }
    (t, j)
}

fn pointers_at<'a>(src: &Source<'a>, p: usize, base: CType<'a>) -> (r: (CType<'a>, usize))
    requires
        p <= src@.len(),
    ensures
        (type_expr(r.0), r.1 as int) == pointers(src@, p as int, type_expr(base)),
        p <= r.1 <= src@.len(),
{
    let mut t = base;
    let mut j: usize = p;
    loop
        invariant
            p <= j <= src@.len(),
            pointers(src@, p as int, type_expr(base)) == pointers(src@, j as int, type_expr(t)),
        ensures
            p <= j <= src@.len(),
            pointers(src@, p as int, type_expr(base)) == (type_expr(t), j as int),
        decreases src@.len() - j,
    {
        let q = src.blanks(j);
        if let Some(e) = src.after_char(q, '*') {
            t = CType::Pointer(Box::new(t));
            j = e;
        } else if let Some(e) = src.after_char(q, '&') {
            t = CType::Reference(Box::new(t));
            j = e;
        } else {
            break ;
        }
    }
    (t, j)
}

fn optional_word_at(src: &Source, i: usize, w: &str) -> (r: (bool, usize))
    requires
        i <= src@.len(),
    ensures
        (r.0, r.1 as int) == optional_word(src@, i as int, w@),
        i <= r.1 <= src@.len(),
{
    let q = src.blanks(i);
    match src.word(q, w) {
        Some(e) => (true, e),
        None => (false, i),
    }
}

fn passed_name_at(src: &Source, p: usize) -> (r: usize)
    requires
        p <= src@.len(),
    ensures
        r == passed_name(src@, p as int),
        p <= r <= src@.len(),
{
    let b = src.blanks(p);
    let e = src.run(b, CharClass::Ident);
    if b < e {
        e
    } else {
        p
    }
}

/// The type expression at `i` and where it ends.
pub fn cpp_type_at<'a>(src: &Source<'a>, i: usize) -> (r: (CType<'a>, usize))
    requires
        i <= src@.len(),
    ensures
        (type_expr(r.0), r.1 as int) == cpp_type(src@, i as int),
        i <= r.1 <= src@.len(),
{
    nested_type_at(src, i, NESTING)
}

/// The type expression at `i` where brackets may still be opened `depth`
/// deep inside it.
pub fn nested_type_at<'a>(src: &Source<'a>, i: usize, depth: usize) -> (r: (CType<'a>, usize))
    requires
        i <= src@.len(),
    ensures
        (type_expr(r.0), r.1 as int) == nested_type(src@, i as int, depth as nat),
        i <= r.1 <= src@.len(),
    decreases src@.len() - i, 3int,
{
    let (leading, pos0) = optional_word_at(src, i, "const");
    let (named, pos1) = named_type_at(src, pos0);
    let ghost s = src@;
    let ghost named_e = type_expr(named);
    let (generic, pos2) = match bracketed_at(src, pos1, '<', '>', false, depth) {
        Some((args, e)) => (CType::Generic(Box::new(named), args), e),
        None => (named, pos1),
    };
    assert((type_expr(generic), pos2 as int) == match bracketed(
        s,
        pos1 as int,
        '<',
        '>',
        false,
        depth as nat,
    ) {
        Some((args, e)) if ends_inside(s, pos1 as int, e) => (
            TypeExpr::Generic(Box::new(named_e), args),
            e,
        ),
        _ => (named_e, pos1 as int),
    });
    let (member, pos3) = member_access_at(src, pos2, generic);
    let ghost member_e = type_expr(member);
    let (function, pos4) = match call_suffix_at(src, pos3, depth) {
        Some((params, e)) => (CType::Function(Box::new(member), params), e),
        None => (member, pos3),
    };
    assert((type_expr(function), pos4 as int) == match call_suffix(s, pos3 as int, depth as nat) {
        Some((params, e)) if ends_inside(s, pos3 as int, e) => (
            TypeExpr::Function(Box::new(member_e), params),
            e,
        ),
        _ => (member_e, pos3 as int),
    });
    let (trailing, pos5) = optional_word_at(src, pos4, "const");
    let qualified = if leading || trailing {
        CType::Const(Box::new(function))
    } else {
        function
    };
    pointers_at(src, pos5, qualified)
}

/// The types between an opening and a closing character at `p`.
pub fn bracketed_at<'a>(
    src: &Source<'a>,
    p: usize,
    open: char,
    close: char,
    named: bool,
    depth: usize,
) -> (r: Option<(Vec<CType<'a>>, usize)>)
    requires
        p <= src@.len(),
    ensures
        match r {
            Some((list, e)) => bracketed(src@, p as int, open, close, named, depth as nat)
                == Some((type_exprs(list@), e as int)) && p < e <= src@.len(),
            None => bracketed(src@, p as int, open, close, named, depth as nat).is_none(),
        },
    decreases src@.len() - p, 1int,
{
    if depth == 0 {
        return None;
    }
    let q = src.blanks(p);
    match src.after_char(q, open) {
        Some(first) => {
            let (list, e) = type_list_at(src, first, named, depth - 1);
            let c = src.blanks(e);
            match src.after_char(c, close) {
                Some(end) => Some((list, end)),
                None => None,
            }
        },
        None => None,
    }
}

fn call_suffix_at<'a>(src: &Source<'a>, p: usize, depth: usize) -> (r: Option<
    (Vec<CType<'a>>, usize),
>)
    requires
        p <= src@.len(),
    ensures
        match r {
            Some((list, e)) => call_suffix(src@, p as int, depth as nat) == Some(
                (type_exprs(list@), e as int),
            ) && p < e <= src@.len(),
            None => call_suffix(src@, p as int, depth as nat).is_none(),
        },
    decreases src@.len() - p, 2int,
{
    let q = src.blanks(p);
    match src.after_char(q, '(') {
        Some(inner) => {
            let r = src.blanks(inner);
            match src.after_char(r, '*') {
                Some(slot) => {
                    let c = src.blanks(slot);
                    match src.after_char(c, ')') {
                        Some(behind) => bracketed_at(src, behind, '(', ')', true, depth),
                        None => None,
                    }
                },
                None => bracketed_at(src, p, '(', ')', true, depth),
            }
        },
        None => None,
    }
}

fn type_list_at<'a>(src: &Source<'a>, i: usize, named: bool, depth: usize) -> (r: (
    Vec<CType<'a>>,
    usize,
))
    requires
        i <= src@.len(),
    ensures
        (type_exprs(r.0@), r.1 as int) == type_list(
            src@,
            i as int,
            named,
            Seq::empty(),
            depth as nat,
        ),
        i <= r.1 <= src@.len(),
    decreases src@.len() - i, 4int,
{
    let mut list: Vec<CType<'a>> = Vec::new();
    let mut j: usize = i;
    let mut end: usize = i;
    assert(type_exprs(list@) =~= Seq::<TypeExpr>::empty());
    loop
        invariant_except_break
            i <= j <= src@.len(),
            type_list(src@, i as int, named, Seq::empty(), depth as nat) == type_list(
                src@,
                j as int,
                named,
                type_exprs(list@),
                depth as nat,
            ),
        ensures
            i <= end <= src@.len(),
            type_list(src@, i as int, named, Seq::empty(), depth as nat) == (
                type_exprs(list@),
                end as int,
            ),
        decreases src@.len() - j,
    {
        let b = src.blanks(j);
        let (t, e0) = nested_type_at(src, b, depth);
        let e = if named {
            passed_name_at(src, e0)
        } else {
            e0
        };
        let q = src.blanks(e);
        let ghost before = type_exprs(list@);
        let ghost added = type_expr(t);
        list.push(t);
        assert(type_exprs(list@) =~= before.push(added));
        match src.after_char(q, ',') {
            Some(next) => {
                j = next;
            },
            None => {
                end = e;
                break ;
            },
        }
    }
    (list, end)
}

/// Reads the type expression at the start of `input`. It never fails: where
/// no name starts, the type is the path without segments and `input` is
/// handed back whole.
pub fn parse_cpp_type<'a>(input: &'a str) -> (r: Result<(&'a str, CType<'a>), ParseError<'a>>)
    ensures
        reports(
            r,
            input@,
            Nested::Match { value: cpp_type(input@, 0).0, end: cpp_type(input@, 0).1 },
        ),
{
    let src = Source::new(input);
    let (t, end) = cpp_type_at(&src, 0);
    Ok((src.rest(end), t))
}

} // verus!
