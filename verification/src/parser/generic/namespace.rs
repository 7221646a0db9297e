use crate::parser::cpp::comment::CppComment;
use crate::parser::generic::class::{
    nested_class, nested_class_at, Class, ClassModel, Ignored, IgnoredModel,
};
use crate::parser::generic::comment::{comment, comment_at};
use crate::parser::generic::member::{member, member_at, Member, MemberModel};
use crate::parser::generic::method::{method, method_at, Method, MethodModel};
use crate::parser::{spaced_name, spaced_name_at, spaced_name_bounds};
use crate::text::{
    blanks_end, char_at, flat, reports, run_end_bounds, seen, seen_nested, within,
    within_nested, word_at, CharClass, Expected, Failure, Nested, NestedFailure, Outcome,
    ParseError, Source, NESTING,
};
use vstd::prelude::*;

verus! {

/// A namespace as a mathematical value.
pub struct NamespaceModel {
    pub name: Seq<char>,
    pub namespaces: Seq<NamespaceModel>,
    pub classes: Seq<ClassModel>,
    pub functions: Seq<MethodModel>,
    pub variables: Seq<MemberModel>,
    pub comments: Seq<Seq<char>>,
}

/// The shape in which a dialect keeps a namespace, over its shape of a
/// class.
pub trait Namespace<'a, ClassType: Class<'a>>: Sized + DeepView<V = NamespaceModel> {
    /// Makes the namespace of its parts.
    fn namespace(
        name: &'a str,
        namespaces: Vec<Self>,
        functions: Vec<ClassType::Method>,
        variables: Vec<ClassType::Member>,
        classes: Vec<ClassType>,
        comments: Vec<CppComment>,
    ) -> (r: Self)
        ensures
            r.deep_view() == (NamespaceModel {
                name: name@,
                namespaces: namespaces.deep_view(),
                classes: classes.deep_view(),
                functions: functions.deep_view(),
                variables: variables.deep_view(),
                comments: comments.deep_view(),
            }),
    ;
}

/// What may stand in a namespace, as a mathematical value.
pub enum SpaceItemModel {
    /// A `;`, which is passed over.
    Ignore,
    Namespace(NamespaceModel),
    Class(ClassModel),
    Method(MethodModel),
    Variable(MemberModel),
    Comment(Seq<char>),
}

/// What may stand in a namespace.
pub enum NamespaceItem<N, C, M, F> {
    Ignore,
    Namespace(N),
    Class(C),
    Method(M),
    Variable(F),
    Comment(CppComment),
}

impl<N: DeepView<V = NamespaceModel>, C: DeepView<V = ClassModel>, M: DeepView<
    V = MethodModel,
>, F: DeepView<V = MemberModel>> DeepView for NamespaceItem<N, C, M, F> {
    type V = SpaceItemModel;

    open spec fn deep_view(&self) -> SpaceItemModel {
        match self {
            NamespaceItem::Ignore => SpaceItemModel::Ignore,
            NamespaceItem::Namespace(n) => SpaceItemModel::Namespace(n.deep_view()),
            NamespaceItem::Class(c) => SpaceItemModel::Class(c.deep_view()),
            NamespaceItem::Method(m) => SpaceItemModel::Method(m.deep_view()),
            NamespaceItem::Variable(f) => SpaceItemModel::Variable(f.deep_view()),
            NamespaceItem::Comment(c) => SpaceItemModel::Comment(c.deep_view()),
        }
    }
}

/// The namespace `before` with one more item in it: each kind of item goes
/// to the end of its list.
pub open spec fn with_space_item(before: NamespaceModel, item: SpaceItemModel) -> NamespaceModel {
    match item {
        SpaceItemModel::Ignore => before,
        SpaceItemModel::Namespace(n) => NamespaceModel {
            namespaces: before.namespaces.push(n),
            ..before
        },
        SpaceItemModel::Class(c) => NamespaceModel { classes: before.classes.push(c), ..before },
        SpaceItemModel::Method(m) => NamespaceModel {
            functions: before.functions.push(m),
            ..before
        },
        SpaceItemModel::Variable(f) => NamespaceModel {
            variables: before.variables.push(f),
            ..before
        },
        SpaceItemModel::Comment(c) => NamespaceModel { comments: before.comments.push(c), ..before },
    }
}

/// The namespace of a name in which nothing stands.
pub open spec fn empty_namespace(name: Seq<char>) -> NamespaceModel {
    NamespaceModel {
        name,
        namespaces: Seq::empty(),
        classes: Seq::empty(),
        functions: Seq::empty(),
        variables: Seq::empty(),
        comments: Seq::empty(),
    }
}

/// The namespace at `i`, in the dialect of the class shape `C`:
/// `namespace`, a name with blanks around it, `{`, the items, `}`. A failure
/// in the body is a failure of the namespace, and names the namespace
/// before the bodies that it names already.
pub open spec fn namespace_rule<'a, C: Class<'a>>(s: Seq<char>, i: int) -> Nested<NamespaceModel> {
    nested_namespace::<C>(s, i, NESTING as nat)
}

/// The namespace at `i` in which namespaces and classes may still stand
/// `depth` deep.
pub open spec fn nested_namespace<'a, C: Class<'a>>(s: Seq<char>, i: int, depth: nat) -> Nested<
    NamespaceModel,
>
    decreases s.len() - i, 1int,
{
    if !word_at(s, i, "namespace"@) {
        Nested::Fail { at: i, expected: Expected::Word, scope: Seq::empty() }
    } else {
        match spaced_name(s, i + "namespace"@.len()) {
            Outcome::Fail { at, expected } => Nested::Fail { at, expected, scope: Seq::empty() },
            Outcome::Match { value: name, end: p } => if char_at(s, p, '{') {
                proof {
                    spaced_name_bounds(s, i + "namespace"@.len());
                }
                match namespace_items::<C>(s, p + 1, empty_namespace(name), depth) {
                    Nested::Fail { at, expected, scope } => Nested::Fail {
                        at,
                        expected,
                        scope: seq![name] + scope,
                    },
                    Nested::Match { value, end } => Nested::Match { value, end },
                }
            } else {
                Nested::Fail { at: p, expected: Expected::Char('{'), scope: Seq::empty() }
            },
        }
    }
}

/// What stands at `b` in a namespace where neither a namespace nor a class
/// does: a function, or else a variable, or else a comment.
pub open spec fn plain_namespace_item<'a, C: Class<'a>>(s: Seq<char>, b: int) -> Outcome<
    SpaceItemModel,
> {
    match method::<<C::Method as Method<'a>>::MethodAnnotation>(s, b) {
        Outcome::Match { value, end } => Outcome::Match {
            value: SpaceItemModel::Method(value),
            end,
        },
        Outcome::Fail { .. } => match member::<<C::Member as Member<'a>>::Annotation>(s, b) {
            Outcome::Match { value, end } => Outcome::Match {
                value: SpaceItemModel::Variable(value),
                end,
            },
            Outcome::Fail { .. } => match comment(s, b) {
                Outcome::Match { value, end } => Outcome::Match {
                    value: SpaceItemModel::Comment(value),
                    end,
                },
                Outcome::Fail { .. } => Outcome::Fail { at: b, expected: Expected::Char('}') },
            },
        },
    }
}

/// The item of a namespace at `i`, behind the blanks there. The first of
/// these that is met: `;`; a namespace and a class, where they may still
/// stand in the namespace; a function; a variable; a comment. Where a
/// namespace or a class has failed in its body, that is the failure of the
/// item.
pub open spec fn namespace_item<'a, C: Class<'a>>(s: Seq<char>, i: int, depth: nat) -> Nested<
    SpaceItemModel,
>
    decreases s.len() - i, 2int,
{
    let b = blanks_end(s, i);
    if !(0 <= i <= s.len()) {
        Nested::Fail { at: i, expected: Expected::Char('}'), scope: Seq::empty() }
    } else if char_at(s, b, ';') {
        Nested::Match { value: SpaceItemModel::Ignore, end: b + 1 }
    } else {
        proof {
            run_end_bounds(s, i, CharClass::Blank);
        }
        if depth == 0 {
            flat(plain_namespace_item::<C>(s, b))
        } else {
            let space = nested_namespace::<C>(s, b, (depth - 1) as nat);
            let class = nested_class::<C>(s, b, Seq::empty(), (depth - 1) as nat);
            match space {
                Nested::Match { value, end } => Nested::Match {
                    value: SpaceItemModel::Namespace(value),
                    end,
                },
                Nested::Fail { .. } => if space.is_final() {
                    space.failed()
                } else {
                    match class {
                        Nested::Match { value, end } => Nested::Match {
                            value: SpaceItemModel::Class(value),
                            end,
                        },
                        Nested::Fail { .. } => if class.is_final() {
                            class.failed()
                        } else {
                            flat(plain_namespace_item::<C>(s, b))
                        },
                    }
                },
            }
        }
    }
}

/// The namespace `done` with the items from `i` on in it, up to the closing
/// brace, which blanks may precede and which is taken. An item that is not
/// met is a failure, and so is one that takes nothing.
pub open spec fn namespace_items<'a, C: Class<'a>>(
    s: Seq<char>,
    i: int,
    done: NamespaceModel,
    depth: nat,
) -> Nested<NamespaceModel>
    decreases s.len() - i, 3int,
{
    let b = blanks_end(s, i);
    if char_at(s, b, '}') {
        Nested::Match { value: done, end: b + 1 }
    } else {
        match namespace_item::<C>(s, i, depth) {
            Nested::Fail { at, expected, scope } => Nested::Fail { at, expected, scope },
            Nested::Match { value, end } => if i < end <= s.len() {
                namespace_items::<C>(s, end, with_space_item(done, value), depth)
            } else {
                Nested::Fail { at: i, expected: Expected::Progress, scope: Seq::empty() }
            },
        }
    }
}

fn plain_namespace_item_at<'a, N: Namespace<'a, C>, C: Class<'a>>(src: &Source<'a>, b: usize) -> (r:
    Result<(NamespaceItem<N, C, C::Method, C::Member>, usize), Failure>)
    requires
        b <= src@.len(),
    ensures
        seen(r) == plain_namespace_item::<C>(src@, b as int),
        within(r, b, src@.len()),
{
    if let Ok((m, e)) = method_at::<C::Method>(src, b) {
        return Ok((NamespaceItem::Method(m), e));
    }
    if let Ok((f, e)) = member_at::<C::Member>(src, b) {
        return Ok((NamespaceItem::Variable(f), e));
    }
    if let Ok((c, e)) = comment_at(src, b) {
        return Ok((NamespaceItem::Comment(c), e));
    }
    Err(Failure { at: b, expected: Expected::Char('}') })
}

/// The item of a namespace at `i`.
pub fn namespace_item_at<'a, N: Namespace<'a, C>, C: Class<'a>>(
    src: &Source<'a>,
    i: usize,
    depth: usize,
) -> (r: Result<(NamespaceItem<N, C, C::Method, C::Member>, usize), NestedFailure<'a>>)
    requires
        i <= src@.len(),
    ensures
        seen_nested(r) == namespace_item::<C>(src@, i as int, depth as nat),
        within_nested(r, i, src@.len()),
    decreases src@.len() - i, 2int,
{
    let b = src.blanks(i);
    if let Some(e) = src.after_char(b, ';') {
        return Ok((NamespaceItem::Ignore, e));
    }
    if depth > 0 {
        match nested_namespace_at::<N, C>(src, b, depth - 1) {
            Ok((n, e)) => {
                return Ok((NamespaceItem::Namespace(n), e));
            },
            Err(f) => {
                if f.scope.len() > 0 {
                    return Err(f);
                }
            },
        }
        let none: Vec<Ignored> = Vec::new();
        assert(none.deep_view() =~= Seq::<IgnoredModel>::empty());
        match nested_class_at::<C>(src, b, &none, depth - 1) {
            Ok((c, e)) => {
                return Ok((NamespaceItem::Class(c), e));
            },
            Err(f) => {
                if f.scope.len() > 0 {
                    return Err(f);
                }
            },
        }
    }
    match plain_namespace_item_at::<N, C>(src, b) {
        Ok(found) => Ok(found),
        Err(f) => Err(NestedFailure::plain(f)),
    }
}

/// The namespace at `i`.
pub fn namespace_at<'a, N: Namespace<'a, C>, C: Class<'a>>(src: &Source<'a>, i: usize) -> (r: Result<
    (N, usize),
    NestedFailure<'a>,
>)
    requires
        i <= src@.len(),
    ensures
        seen_nested(r) == namespace_rule::<C>(src@, i as int),
        within_nested(r, i, src@.len()),
{
    nested_namespace_at::<N, C>(src, i, NESTING)
}

/// The namespace at `i` in which namespaces and classes may still stand
/// `depth` deep.
#[verifier::loop_isolation(false)]
pub fn nested_namespace_at<'a, N: Namespace<'a, C>, C: Class<'a>>(
    src: &Source<'a>,
    i: usize,
    depth: usize,
) -> (r: Result<(N, usize), NestedFailure<'a>>)
    requires
        i <= src@.len(),
    ensures
        seen_nested(r) == nested_namespace::<C>(src@, i as int, depth as nat),
        within_nested(r, i, src@.len()),
    decreases src@.len() - i, 1int,
{
    let after = match src.word(i, "namespace") {
        Some(e) => e,
        None => {
            return Err(NestedFailure::plain(Failure { at: i, expected: Expected::Word }));
        },
    };
    let (name, p) = match spaced_name_at(src, after) {
        Ok(n) => n,
        Err(f) => {
            return Err(NestedFailure::plain(f));
        },
    };
    let first = match src.after_char(p, '{') {
        Some(k) => k,
        None => {
            return Err(NestedFailure::plain(Failure { at: p, expected: Expected::Char('{') }));
        },
    };
    let mut namespaces: Vec<N> = Vec::new();
    let mut classes: Vec<C> = Vec::new();
    let mut functions: Vec<C::Method> = Vec::new();
    let mut variables: Vec<C::Member> = Vec::new();
    let mut comments: Vec<CppComment> = Vec::new();
    let mut j: usize = first;
    let ghost mut done: NamespaceModel = empty_namespace(name@);
    assert(namespaces.deep_view() =~= done.namespaces);
    assert(classes.deep_view() =~= done.classes);
    assert(functions.deep_view() =~= done.functions);
    assert(variables.deep_view() =~= done.variables);
    assert(comments.deep_view() =~= done.comments);
    loop
        invariant
            first <= j <= src@.len(),
            i < first,
            namespace_items::<C>(src@, first as int, empty_namespace(name@), depth as nat)
                == namespace_items::<C>(src@, j as int, done, depth as nat),
            done == (NamespaceModel {
                name: name@,
                namespaces: namespaces.deep_view(),
                classes: classes.deep_view(),
                functions: functions.deep_view(),
                variables: variables.deep_view(),
                comments: comments.deep_view(),
            }),
        decreases src@.len() - j,
    {
        let b = src.blanks(j);
        if let Some(end) = src.after_char(b, '}') {
            return Ok(
                (N::namespace(name, namespaces, functions, variables, classes, comments), end),
            );
        }
        match namespace_item_at::<N, C>(src, j, depth) {
            Err(f) => {
                return Err(f.inside(name));
            },
            Ok((item, end)) => {
                if end <= j {
                    let f = NestedFailure::plain(
                        Failure { at: j, expected: Expected::Progress },
                    );
                    return Err(f.inside(name));
                }
                let ghost before = done;
                proof {
                    done = with_space_item(done, item.deep_view());
                }
                match item {
                    NamespaceItem::Ignore => {},
                    NamespaceItem::Namespace(n) => {
                        namespaces.push(n);
                        assert(namespaces.deep_view() =~= before.namespaces.push(n.deep_view()));
                    },
                    NamespaceItem::Class(c) => {
                        classes.push(c);
                        assert(classes.deep_view() =~= before.classes.push(c.deep_view()));
                    },
                    NamespaceItem::Method(m) => {
                        functions.push(m);
                        assert(functions.deep_view() =~= before.functions.push(m.deep_view()));
                    },
                    NamespaceItem::Variable(f) => {
                        variables.push(f);
                        assert(variables.deep_view() =~= before.variables.push(f.deep_view()));
                    },
                    NamespaceItem::Comment(c) => {
                        comments.push(c);
                        assert(comments.deep_view() =~= before.comments.push(c.deep_view()));
                    },
                }
                j = end;
            },
        }
    }
}

/// Reads a namespace at the start of `input`, in the shapes `NamespaceType`
/// and `ClassType` of a dialect.
pub fn parse_namespace<'a, NamespaceType: Namespace<'a, ClassType>, ClassType: Class<'a>>(
    input: &'a str,
) -> (r: Result<(&'a str, NamespaceType), ParseError<'a>>)
    ensures
        reports(r, input@, namespace_rule::<ClassType>(input@, 0)),
{
    let src = Source::new(input);
    src.report_nested(namespace_at::<NamespaceType, ClassType>(&src, 0))
}

} // verus!
