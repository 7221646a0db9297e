use crate::parser::cpp::comment::CppComment;
use crate::parser::cpp::ctype::{cpp_type, cpp_type_at, cpp_type_bounds, CType, TypeExpr};
use crate::parser::cpp::template::{template_header, template_header_at, template_header_bounds};
use crate::parser::generic::annotation::{
    annotations, annotations_at, annotations_bounds, kept, macro_end, macro_end_at, Annotation,
};
use crate::parser::generic::comment::{
    comment, comment_at, comment_bounds, optional_comment, optional_comment_at,
};
use crate::parser::generic::member::{member, member_at, Member, MemberModel};
use crate::parser::generic::method::{
    method, method_at, Method, MethodModel,
};
use crate::parser::{spaced_name, spaced_name_at, spaced_name_bounds};
use crate::text::{
    blanks_end, char_at, find_word, find_word_bounds, flat, reports, run_end, run_end_bounds,
    same_text, seen, seen_nested, within, within_nested, word_at, word_end, CharClass, Expected,
    Failure, NESTING, Nested, NestedFailure, Outcome, ParseError, Source,
};
use vstd::prelude::*;

verus! {

/// The access levels: of a base class, and of what stands in a class body.
#[derive(Debug, Eq, PartialEq, Clone, Copy, Hash)]
pub enum InheritanceVisibility {
    Private,
    Protected,
    Public,
    Virtual,
    Empty,
}

impl<'a> From<&'a str> for InheritanceVisibility {
    /// The level that a word names; every other text names none.
    fn from(value: &'a str) -> (r: InheritanceVisibility) {
        if same_text(value, "private") {
            InheritanceVisibility::Private
        } else if same_text(value, "protected") {
            InheritanceVisibility::Protected
        } else if same_text(value, "public") {
            InheritanceVisibility::Public
        } else if same_text(value, "virtual") {
            InheritanceVisibility::Virtual
        } else {
            InheritanceVisibility::Empty
        }
    }
}

impl<'a> vstd::std_specs::convert::FromSpecImpl<&'a str> for InheritanceVisibility {
    open spec fn obeys_from_spec() -> bool {
        true
    }

    open spec fn from_spec(value: &'a str) -> InheritanceVisibility {
        if value@ == "private"@ {
            InheritanceVisibility::Private
        } else if value@ == "protected"@ {
            InheritanceVisibility::Protected
        } else if value@ == "public"@ {
            InheritanceVisibility::Public
        } else if value@ == "virtual"@ {
            InheritanceVisibility::Virtual
        } else {
            InheritanceVisibility::Empty
        }
    }
}

/// A base class as a mathematical value.
pub struct ParentModel {
    pub name: TypeExpr,
    pub visibility: InheritanceVisibility,
}

/// A base class: its type, and the level at which it is inherited.
#[derive(Debug, Eq, PartialEq, Clone)]
pub struct CppParentClass<'a> {
    pub name: CType<'a>,
    pub visibility: InheritanceVisibility,
}

impl<'a> DeepView for CppParentClass<'a> {
    type V = ParentModel;

    open spec fn deep_view(&self) -> ParentModel {
        ParentModel { name: self.name.deep_view(), visibility: self.visibility }
    }
}

/// A base class: its type, and the level at which it is inherited.
#[derive(Debug, Eq, PartialEq, Clone)]
pub struct ParentClass<'a> {
    pub name: CType<'a>,
    pub visibility: InheritanceVisibility,
}

impl<'a> DeepView for ParentClass<'a> {
    type V = ParentModel;

    open spec fn deep_view(&self) -> ParentModel {
        ParentModel { name: self.name.deep_view(), visibility: self.visibility }
    }
}

impl DeepView for InheritanceVisibility {
    type V = InheritanceVisibility;

    open spec fn deep_view(&self) -> InheritanceVisibility {
        *self
    }
}

/// What stands in a class body at the access levels, as a mathematical
/// value: each item with its level, in the order of the text.
pub type AccessLists<T> = Seq<(InheritanceVisibility, T)>;

/// What stands in a class body at the access levels: each item with its
/// level, in the order of the text. It is a list and no keyed map, so that
/// what it holds is known item by item: `items_at` gives what stands at one
/// level, and `at_level` says what that is.
pub type AccessMap<T> = Vec<(InheritanceVisibility, T)>;

/// The items that stand at `level`, in their order.
pub open spec fn at_level<T>(lists: AccessLists<T>, level: InheritanceVisibility) -> Seq<T>
    decreases lists.len(),
{
    if lists.len() == 0 {
        Seq::empty()
    } else if lists.last().0 == level {
        at_level(lists.drop_last(), level).push(lists.last().1)
    } else {
        at_level(lists.drop_last(), level)
    }
}

/// The items that stand at `level`, in their order.
pub fn items_at<T>(map: &AccessMap<T>, level: InheritanceVisibility) -> (r: Vec<&T>)
    ensures
        r@.len() == at_level(map@, level).len(),
        forall|k: int| 0 <= k < r@.len() ==> *(#[trigger] r@[k]) == at_level(map@, level)[k],
{
    let mut out: Vec<&T> = Vec::new();
    let mut k: usize = 0;
    while k < map.len()
        invariant
            k <= map.len(),
            out@.len() == at_level(map@.take(k as int), level).len(),
            forall|j: int|
                0 <= j < out@.len() ==> *(#[trigger] out@[j]) == at_level(
                    map@.take(k as int),
                    level,
                )[j],
        decreases map.len() - k,
    {
        assert(map@.take(k + 1).drop_last() =~= map@.take(k as int));
        assert(map@.take(k + 1).last() == map@[k as int]);
        if same_level(map[k].0, level) {
            out.push(&map[k].1);
        }
        k = k + 1;
    }
    assert(map@.take(k as int) =~= map@);
    out
}

/// Whether two levels are the same.
pub fn same_level(a: InheritanceVisibility, b: InheritanceVisibility) -> (r: bool)
    ensures
        r == (a == b),
{
    match (a, b) {
        (InheritanceVisibility::Private, InheritanceVisibility::Private) => true,
        (InheritanceVisibility::Protected, InheritanceVisibility::Protected) => true,
        (InheritanceVisibility::Public, InheritanceVisibility::Public) => true,
        (InheritanceVisibility::Virtual, InheritanceVisibility::Virtual) => true,
        (InheritanceVisibility::Empty, InheritanceVisibility::Empty) => true,
        _ => false,
    }
}

/// A class or struct as a mathematical value.
pub struct ClassModel {
    pub name: Seq<char>,
    pub api: Option<Seq<char>>,
    pub parents: Seq<ParentModel>,
    pub methods: AccessLists<MethodModel>,
    pub members: AccessLists<MemberModel>,
    pub inner_classes: AccessLists<ClassModel>,
    /// What the one annotation that is kept holds.
    pub annotation: Seq<Seq<char>>,
}

/// The shape in which a dialect keeps a class or struct.
pub trait Class<'a>: Sized + DeepView<V = ClassModel> {
    type ClassAnnotation: Annotation<'a>;

    type Method: Method<'a>;

    type Member: Member<'a>;

    /// Makes the class of its parts. Of the annotations the first is kept.
    fn class(
        name: &'a str,
        api: Option<&'a str>,
        parents: Vec<CppParentClass<'a>>,
        methods: AccessMap<Self::Method>,
        members: AccessMap<Self::Member>,
        inner_classes: AccessMap<Self>,
        annotations: Option<Vec<Self::ClassAnnotation>>,
    ) -> (r: Self)
        ensures
            r.deep_view() == (ClassModel {
                name: name@,
                api: api.deep_view(),
                parents: parents.deep_view(),
                methods: methods.deep_view(),
                members: members.deep_view(),
                inner_classes: inner_classes.deep_view(),
                annotation: kept(annotations.deep_view()),
            }),
    ;
}

/// What may stand in a class body, as a mathematical value.
pub enum ItemModel {
    /// What is passed over: a `;`, a line that the dialect ignores.
    Ignore,
    /// An access specifier: what follows stands at this level.
    Access(InheritanceVisibility),
    Method(MethodModel),
    Member(MemberModel),
    Class(ClassModel),
    Comment(Seq<char>),
    /// The closing brace.
    End,
}

/// What may stand in a class body.
pub enum ClassItem<M, F, C> {
    Ignore,
    Access(InheritanceVisibility),
    Method(M),
    Member(F),
    Class(C),
    Comment(CppComment),
    End,
}

impl<M: DeepView<V = MethodModel>, F: DeepView<V = MemberModel>, C: DeepView<
    V = ClassModel,
>> DeepView for ClassItem<M, F, C> {
    type V = ItemModel;

    open spec fn deep_view(&self) -> ItemModel {
        match self {
            ClassItem::Ignore => ItemModel::Ignore,
            ClassItem::Access(level) => ItemModel::Access(*level),
            ClassItem::Method(m) => ItemModel::Method(m.deep_view()),
            ClassItem::Member(f) => ItemModel::Member(f.deep_view()),
            ClassItem::Class(c) => ItemModel::Class(c.deep_view()),
            ClassItem::Comment(c) => ItemModel::Comment(c.deep_view()),
            ClassItem::End => ItemModel::End,
        }
    }
}

/// The body of a class while it is read: for each access level what stands
/// at it, and the level that holds.
pub struct Body<M, F, C> {
    pub methods: AccessMap<M>,
    pub members: AccessMap<F>,
    pub inner_classes: AccessMap<C>,
    pub level: InheritanceVisibility,
}

impl<M: DeepView<V = MethodModel>, F: DeepView<V = MemberModel>, C: DeepView<
    V = ClassModel,
>> DeepView for Body<M, F, C> {
    type V = Sorted;

    open spec fn deep_view(&self) -> Sorted {
        Sorted {
            methods: self.methods.deep_view(),
            members: self.members.deep_view(),
            inner_classes: self.inner_classes.deep_view(),
            level: self.level,
        }
    }
}

impl<M: DeepView<V = MethodModel>, F: DeepView<V = MemberModel>, C: DeepView<
    V = ClassModel,
>> Body<M, F, C> {
    /// The body in which nothing stands yet: the level is private.
    pub fn new() -> (r: Self)
        ensures
            r.deep_view() == sorted(Seq::empty()),
    {
        let r = Body {
            methods: Vec::new(),
            members: Vec::new(),
            inner_classes: Vec::new(),
            level: InheritanceVisibility::Private,
        };
        assert(r.methods.deep_view() =~= Seq::<(InheritanceVisibility, MethodModel)>::empty());
        assert(r.members.deep_view() =~= Seq::<(InheritanceVisibility, MemberModel)>::empty());
        assert(r.inner_classes.deep_view() =~= Seq::<(InheritanceVisibility, ClassModel)>::empty());
        r
    }

    /// Takes one more item into the body.
    pub fn take(&mut self, item: ClassItem<M, F, C>)
        ensures
            final(self).deep_view() == sorted_step(old(self).deep_view(), item.deep_view()),
    {
        let ghost before = self.deep_view();
        match item {
            ClassItem::Access(a) => {
                self.level = a;
            },
            ClassItem::Method(m) => {
                let ghost added = m.deep_view();
                self.methods.push((self.level, m));
                assert(self.methods.deep_view() =~= before.methods.push((before.level, added)));
            },
            ClassItem::Member(f) => {
                let ghost added = f.deep_view();
                self.members.push((self.level, f));
                assert(self.members.deep_view() =~= before.members.push((before.level, added)));
            },
            ClassItem::Class(c) => {
                let ghost added = c.deep_view();
                self.inner_classes.push((self.level, c));
                assert(self.inner_classes.deep_view() =~= before.inner_classes.push(
                    (before.level, added),
                ));
            },
            _ => {},
        }
    }
}

/// The body of a class, sorted: for each access level what stands at it,
/// in the order of the text, and the level that holds at the end.
pub struct Sorted {
    pub methods: AccessLists<MethodModel>,
    pub members: AccessLists<MemberModel>,
    pub inner_classes: AccessLists<ClassModel>,
    pub level: InheritanceVisibility,
}

/// The body after one more item. An access specifier changes the level and
/// nothing else; a method, a member and a class are added with the level
/// that holds; everything else changes nothing.
pub open spec fn sorted_step(before: Sorted, item: ItemModel) -> Sorted {
    match item {
        ItemModel::Access(level) => Sorted { level, ..before },
        ItemModel::Method(m) => Sorted { methods: before.methods.push((before.level, m)), ..before },
        ItemModel::Member(f) => Sorted { members: before.members.push((before.level, f)), ..before },
        ItemModel::Class(c) => Sorted {
            inner_classes: before.inner_classes.push((before.level, c)),
            ..before
        },
        _ => before,
    }
}

/// The items of a class body, sorted: the level is private at the start.
pub open spec fn sorted(items: Seq<ItemModel>) -> Sorted
    decreases items.len(),
{
    if items.len() == 0 {
        Sorted {
            methods: Seq::empty(),
            members: Seq::empty(),
            inner_classes: Seq::empty(),
            level: InheritanceVisibility::Private,
        }
    } else {
        sorted_step(sorted(items.drop_last()), items.last())
    }
}

/// What a dialect passes over in a class body, as a mathematical value.
pub enum IgnoredModel {
    Word(Seq<char>),
    Macro(Seq<char>),
    Line(Seq<char>),
}

/// What a dialect passes over in a class body: a pattern for a line that
/// declares nothing.
#[derive(Debug, Clone, Copy, PartialEq, Eq)]
pub enum Ignored<'b> {
    /// This text, as it is.
    Word(&'b str),
    /// A macro of this name: the name with its arguments in parentheses, or
    /// with the rest of its line where no arguments close on it.
    Macro(&'b str),
    /// This text and the rest of its line.
    Line(&'b str),
}

impl<'b> DeepView for Ignored<'b> {
    type V = IgnoredModel;

    open spec fn deep_view(&self) -> IgnoredModel {
        match self {
            Ignored::Word(text) => IgnoredModel::Word(text@),
            Ignored::Macro(name) => IgnoredModel::Macro(name@),
            Ignored::Line(text) => IgnoredModel::Line(text@),
        }
    }
}

/// Where what a pattern passes over ends, if the pattern is met at `i`.
pub open spec fn ignored_end(s: Seq<char>, i: int, pattern: IgnoredModel) -> Option<int> {
    match pattern {
        IgnoredModel::Word(text) => word_end(s, i, text),
        IgnoredModel::Macro(name) => if word_at(s, i, name) {
            Some(macro_end(s, i + name.len()))
        } else {
            None
        },
        IgnoredModel::Line(text) => if word_at(s, i, text) {
            Some(run_end(s, i + text.len(), CharClass::InLine))
        } else {
            None
        },
    }
}

/// Where what the first of `patterns`, from the `k`th on, that is met at
/// `i` passes over ends.
pub open spec fn first_ignored_end(
    s: Seq<char>,
    i: int,
    patterns: Seq<IgnoredModel>,
    k: int,
) -> Option<int>
    decreases patterns.len() - k,
{
    if k < 0 || k >= patterns.len() {
        None
    } else if ignored_end(s, i, patterns[k]) is Some {
        ignored_end(s, i, patterns[k])
    } else {
        first_ignored_end(s, i, patterns, k + 1)
    }
}

/// Where what a pattern passes over ends, if the pattern is met at `i`.
pub fn ignored_end_at(src: &Source, i: usize, pattern: &Ignored) -> (r: Option<usize>)
    requires
        i <= src@.len(),
    ensures
        match r {
            Some(e) => ignored_end(src@, i as int, pattern.deep_view()) == Some(e as int) && i
                <= e <= src@.len(),
            None => ignored_end(src@, i as int, pattern.deep_view()).is_none(),
        },
{
    match pattern {
        Ignored::Word(text) => src.word(i, text),
        Ignored::Macro(name) => match src.word(i, name) {
            Some(from) => Some(macro_end_at(src, from)),
            None => None,
        },
        Ignored::Line(text) => match src.word(i, text) {
            Some(from) => Some(src.run(from, CharClass::InLine)),
            None => None,
        },
    }
}

/// Where what the first of `patterns` that is met at `i` passes over ends.
pub fn first_ignored_at(src: &Source, i: usize, patterns: &Vec<Ignored>) -> (r: Option<usize>)
    requires
        i <= src@.len(),
    ensures
        match r {
            Some(e) => first_ignored_end(src@, i as int, patterns.deep_view(), 0) == Some(
                e as int,
            ) && i <= e <= src@.len(),
            None => first_ignored_end(src@, i as int, patterns.deep_view(), 0).is_none(),
        },
{
    let mut k: usize = 0;
    while k < patterns.len()
        invariant
            k <= patterns.len(),
            i <= src@.len(),
            first_ignored_end(src@, i as int, patterns.deep_view(), 0) == first_ignored_end(
                src@,
                i as int,
                patterns.deep_view(),
                k as int,
            ),
        decreases patterns.len() - k,
    {
        assert(patterns.deep_view()[k as int] == patterns@[k as int].deep_view());
        if let Some(e) = ignored_end_at(src, i, &patterns[k]) {
            return Some(e);
        }
        k = k + 1;
    }
    None
}

/// The methods among the items of a body, in their order.
pub open spec fn methods_in(items: Seq<ItemModel>) -> Seq<MethodModel>
    decreases items.len(),
{
    if items.len() == 0 {
        Seq::empty()
    } else if items.last() is Method {
        methods_in(items.drop_last()).push(items.last()->Method_0)
    } else {
        methods_in(items.drop_last())
    }
}

/// The members among the items of a body, in their order.
pub open spec fn members_in(items: Seq<ItemModel>) -> Seq<MemberModel>
    decreases items.len(),
{
    if items.len() == 0 {
        Seq::empty()
    } else if items.last() is Member {
        members_in(items.drop_last()).push(items.last()->Member_0)
    } else {
        members_in(items.drop_last())
    }
}

/// The classes among the items of a body, in their order.
pub open spec fn classes_in(items: Seq<ItemModel>) -> Seq<ClassModel>
    decreases items.len(),
{
    if items.len() == 0 {
        Seq::empty()
    } else if items.last() is Class {
        classes_in(items.drop_last()).push(items.last()->Class_0)
    } else {
        classes_in(items.drop_last())
    }
}

/// The items of a list, all at one level.
pub open spec fn all_at<T>(level: InheritanceVisibility, list: Seq<T>) -> AccessLists<T> {
    Seq::new(list.len(), |k: int| (level, list[k]))
}

/// Whether no access specifier is among the items.
pub open spec fn no_specifier(items: Seq<ItemModel>) -> bool {
    forall|k: int| 0 <= k < items.len() ==> !(#[trigger] items[k] is Access)
}

/// One more item in a body changes it by one step.
pub proof fn sorted_push(items: Seq<ItemModel>, item: ItemModel)
    ensures
        sorted(items.push(item)) == sorted_step(sorted(items), item),
{
    assert(items.push(item).drop_last() =~= items);
}

/// Items that follow one another without an access specifier among them
/// stand at the level that held before them, behind what stood there
/// already, in their order; the level still holds behind them, and
/// nothing that stood before them has changed.
pub proof fn items_keep_the_level(before: Seq<ItemModel>, after: Seq<ItemModel>)
    requires
        no_specifier(after),
    ensures
        sorted(before + after).level == sorted(before).level,
        sorted(before + after).methods == sorted(before).methods + all_at(
            sorted(before).level,
            methods_in(after),
        ),
        sorted(before + after).members == sorted(before).members + all_at(
            sorted(before).level,
            members_in(after),
        ),
        sorted(before + after).inner_classes == sorted(before).inner_classes + all_at(
            sorted(before).level,
            classes_in(after),
        ),
    decreases after.len(),
{
    let level = sorted(before).level;
    if after.len() == 0 {
        assert(before + after =~= before);
        assert(sorted(before).methods + all_at(level, methods_in(after)) =~= sorted(
            before,
        ).methods);
        assert(sorted(before).members + all_at(level, members_in(after)) =~= sorted(
            before,
        ).members);
        assert(sorted(before).inner_classes + all_at(level, classes_in(after)) =~= sorted(
            before,
        ).inner_classes);
    } else {
        let front = after.drop_last();
        let item = after.last();
        assert(no_specifier(front)) by {
            assert forall|k: int| 0 <= k < front.len() implies !(#[trigger] front[k] is Access) by {
                assert(front[k] == after[k]);
            }
        }
        items_keep_the_level(before, front);
        assert(before + after =~= (before + front).push(item));
        sorted_push(before + front, item);
        assert(!(after[after.len() - 1] is Access));
        let was = sorted(before + front);
        assert(all_at(level, methods_in(front)).push((level, item->Method_0)) =~= all_at(
            level,
            methods_in(front).push(item->Method_0),
        ));
        assert(all_at(level, members_in(front)).push((level, item->Member_0)) =~= all_at(
            level,
            members_in(front).push(item->Member_0),
        ));
        assert(all_at(level, classes_in(front)).push((level, item->Class_0)) =~= all_at(
            level,
            classes_in(front).push(item->Class_0),
        ));
        assert((sorted(before).methods + all_at(level, methods_in(front))).push(
            (level, item->Method_0),
        ) =~= sorted(before).methods + all_at(level, methods_in(front)).push(
            (level, item->Method_0),
        ));
        assert((sorted(before).members + all_at(level, members_in(front))).push(
            (level, item->Member_0),
        ) =~= sorted(before).members + all_at(level, members_in(front)).push(
            (level, item->Member_0),
        ));
        assert((sorted(before).inner_classes + all_at(level, classes_in(front))).push(
            (level, item->Class_0),
        ) =~= sorted(before).inner_classes + all_at(level, classes_in(front)).push(
            (level, item->Class_0),
        ));
    }
}

/// What stands in a body before any access specifier stands at the private
/// level.
pub proof fn private_before_any_specifier(items: Seq<ItemModel>)
    requires
        no_specifier(items),
    ensures
        sorted(items).level == InheritanceVisibility::Private,
        sorted(items).methods == all_at(InheritanceVisibility::Private, methods_in(items)),
        sorted(items).members == all_at(InheritanceVisibility::Private, members_in(items)),
        sorted(items).inner_classes == all_at(InheritanceVisibility::Private, classes_in(items)),
{
    let nothing = Seq::<ItemModel>::empty();
    items_keep_the_level(nothing, items);
    assert(nothing + items =~= items);
    assert(sorted(nothing).methods + all_at(InheritanceVisibility::Private, methods_in(items))
        =~= all_at(InheritanceVisibility::Private, methods_in(items)));
    assert(sorted(nothing).members + all_at(InheritanceVisibility::Private, members_in(items))
        =~= all_at(InheritanceVisibility::Private, members_in(items)));
    assert(sorted(nothing).inner_classes + all_at(
        InheritanceVisibility::Private,
        classes_in(items),
    ) =~= all_at(InheritanceVisibility::Private, classes_in(items)));
}

/// What follows an access specifier, up to the next one, stands at its
/// level, behind what stood in the body before the specifier, which stays
/// as it was.
pub proof fn specifier_sets_the_level(
    before: Seq<ItemModel>,
    level: InheritanceVisibility,
    after: Seq<ItemModel>,
)
    requires
        no_specifier(after),
    ensures
        sorted(before.push(ItemModel::Access(level)) + after).level == level,
        sorted(before.push(ItemModel::Access(level)) + after).methods == sorted(before).methods
            + all_at(level, methods_in(after)),
        sorted(before.push(ItemModel::Access(level)) + after).members == sorted(before).members
            + all_at(level, members_in(after)),
        sorted(before.push(ItemModel::Access(level)) + after).inner_classes == sorted(
            before,
        ).inner_classes + all_at(level, classes_in(after)),
{
    sorted_push(before, ItemModel::Access(level));
    items_keep_the_level(before.push(ItemModel::Access(level)), after);
}

/// The items at one level of what stands at one level are all of them, and
/// at every other level there are none.
pub proof fn all_at_one_level<T>(level: InheritanceVisibility, list: Seq<T>)
    ensures
        at_level(all_at(level, list), level) == list,
        forall|other: InheritanceVisibility|
            other != level ==> (#[trigger] at_level(all_at(level, list), other)).len() == 0,
    decreases list.len(),
{
    if list.len() > 0 {
        all_at_one_level(level, list.drop_last());
        assert(all_at(level, list).drop_last() =~= all_at(level, list.drop_last()));
        assert(list.drop_last().push(list.last()) =~= list);
        assert forall|other: InheritanceVisibility| other != level implies (#[trigger] at_level(
            all_at(level, list),
            other,
        )).len() == 0 by {
            assert(at_level(all_at(level, list.drop_last()), other).len() == 0);
        }
    } else {
        assert(at_level(all_at(level, list), level) =~= list);
    }
}

/// The items at a level of two lists one behind the other are those of the
/// first and behind them those of the second.
pub proof fn at_level_of_both<T>(
    first: AccessLists<T>,
    second: AccessLists<T>,
    level: InheritanceVisibility,
)
    ensures
        at_level(first + second, level) == at_level(first, level) + at_level(second, level),
    decreases second.len(),
{
    if second.len() == 0 {
        assert(first + second =~= first);
        assert(at_level(first, level) + at_level(second, level) =~= at_level(first, level));
    } else {
        at_level_of_both(first, second.drop_last(), level);
        assert((first + second).drop_last() =~= first + second.drop_last());
        assert((first + second).last() == second.last());
        if second.last().0 == level {
            assert((at_level(first, level) + at_level(second.drop_last(), level)).push(
                second.last().1,
            ) =~= at_level(first, level) + at_level(second.drop_last(), level).push(
                second.last().1,
            ));
        }
    }
}

/// Access partitioning, level by level. What stands in a body before any
/// access specifier is found at the private level and at no other. Behind
/// an access specifier and up to the next one, the methods, members and
/// classes are found at its level behind those that were there, in their
/// order, and at every other level there is what was there before.
pub proof fn access_partitioning(
    before: Seq<ItemModel>,
    level: InheritanceVisibility,
    after: Seq<ItemModel>,
    other: InheritanceVisibility,
)
    requires
        no_specifier(after),
        other != level,
    ensures
        no_specifier(before) ==> at_level(sorted(before).methods, InheritanceVisibility::Private)
            == methods_in(before) && at_level(
            sorted(before).members,
            InheritanceVisibility::Private,
        ) == members_in(before) && at_level(
            sorted(before).inner_classes,
            InheritanceVisibility::Private,
        ) == classes_in(before),
        no_specifier(before) && other != InheritanceVisibility::Private ==> at_level(
            sorted(before).methods,
            other,
        ).len() == 0 && at_level(sorted(before).members, other).len() == 0 && at_level(
            sorted(before).inner_classes,
            other,
        ).len() == 0,
        at_level(sorted(before.push(ItemModel::Access(level)) + after).methods, level)
            == at_level(sorted(before).methods, level) + methods_in(after),
        at_level(sorted(before.push(ItemModel::Access(level)) + after).members, level)
            == at_level(sorted(before).members, level) + members_in(after),
        at_level(sorted(before.push(ItemModel::Access(level)) + after).inner_classes, level)
            == at_level(sorted(before).inner_classes, level) + classes_in(after),
        at_level(sorted(before.push(ItemModel::Access(level)) + after).methods, other)
            == at_level(sorted(before).methods, other),
        at_level(sorted(before.push(ItemModel::Access(level)) + after).members, other)
            == at_level(sorted(before).members, other),
        at_level(sorted(before.push(ItemModel::Access(level)) + after).inner_classes, other)
            == at_level(sorted(before).inner_classes, other),
{
    if no_specifier(before) {
        private_before_any_specifier(before);
        all_at_one_level(InheritanceVisibility::Private, methods_in(before));
        all_at_one_level(InheritanceVisibility::Private, members_in(before));
        all_at_one_level(InheritanceVisibility::Private, classes_in(before));
    }
    specifier_sets_the_level(before, level, after);
    let was = sorted(before);
    all_at_one_level(level, methods_in(after));
    all_at_one_level(level, members_in(after));
    all_at_one_level(level, classes_in(after));
    at_level_of_both(was.methods, all_at(level, methods_in(after)), level);
    at_level_of_both(was.members, all_at(level, members_in(after)), level);
    at_level_of_both(was.inner_classes, all_at(level, classes_in(after)), level);
    at_level_of_both(was.methods, all_at(level, methods_in(after)), other);
    at_level_of_both(was.members, all_at(level, members_in(after)), other);
    at_level_of_both(was.inner_classes, all_at(level, classes_in(after)), other);
    assert(at_level(was.methods, other) + at_level(all_at(level, methods_in(after)), other)
        =~= at_level(was.methods, other));
    assert(at_level(was.members, other) + at_level(all_at(level, members_in(after)), other)
        =~= at_level(was.members, other));
    assert(at_level(was.inner_classes, other) + at_level(
        all_at(level, classes_in(after)),
        other,
    ) =~= at_level(was.inner_classes, other));
}

/// A declaration that ends in `;` behind its head is a class of that name
/// in which nothing stands, without export token and without base classes.
pub proof fn declaration_without_body<'a, C: Class<'a>>(
    s: Seq<char>,
    i: int,
    ignored: Seq<IgnoredModel>,
)
    requires
        class_head::<C::ClassAnnotation>(s, i) is Match,
        char_at(s, class_head::<C::ClassAnnotation>(s, i)->end, ';'),
    ensures
        class_rule::<C>(s, i, ignored) == (Nested::Match {
            value: ClassModel {
                name: class_head::<C::ClassAnnotation>(s, i)->value.name,
                api: None,
                parents: Seq::empty(),
                methods: Seq::empty(),
                members: Seq::empty(),
                inner_classes: Seq::empty(),
                annotation: class_head::<C::ClassAnnotation>(s, i)->value.annotation,
            },
            end: class_head::<C::ClassAnnotation>(s, i)->end + 1,
        }),
{
}

/// The level whose word stands at `i`, and where the word ends; no level,
/// and nothing taken, where none does.
pub open spec fn visibility(s: Seq<char>, i: int) -> (InheritanceVisibility, int) {
    if word_at(s, i, "private"@) {
        (InheritanceVisibility::Private, i + "private"@.len())
    } else if word_at(s, i, "protected"@) {
        (InheritanceVisibility::Protected, i + "protected"@.len())
    } else if word_at(s, i, "public"@) {
        (InheritanceVisibility::Public, i + "public"@.len())
    } else if word_at(s, i, "virtual"@) {
        (InheritanceVisibility::Virtual, i + "virtual"@.len())
    } else {
        (InheritanceVisibility::Empty, i)
    }
}

/// The base classes from `j` on, added to `done`: each a level, if one is
/// named, and a type, with blanks around both; `,` leads to the next.
pub open spec fn parents(s: Seq<char>, j: int, done: Seq<ParentModel>) -> (Seq<ParentModel>, int)
    decreases s.len() - j,
{
    let (level, k) = visibility(s, blanks_end(s, j));
    let (t, e) = cpp_type(s, blanks_end(s, k));
    let end = blanks_end(s, e);
    let now = done.push(ParentModel { name: t, visibility: level });
    if 0 <= j <= s.len() && char_at(s, end, ',') {
        proof {
            parent_bounds(s, j);
        }
        parents(s, end + 1, now)
    } else {
        (now, end)
    }
}

/// A base class ends at or behind its start and inside the text.
pub proof fn parent_bounds(s: Seq<char>, j: int)
    requires
        0 <= j <= s.len(),
    ensures
        j <= blanks_end(
            s,
            cpp_type(s, blanks_end(s, visibility(s, blanks_end(s, j)).1)).1,
        ) <= s.len(),
{
    run_end_bounds(s, j, CharClass::Blank);
    let k = visibility(s, blanks_end(s, j)).1;
    run_end_bounds(s, k, CharClass::Blank);
    cpp_type_bounds(s, blanks_end(s, k));
    run_end_bounds(s, cpp_type(s, blanks_end(s, k)).1, CharClass::Blank);
}

/// Base classes end at or behind their start and inside the text.
pub proof fn parents_bounds(s: Seq<char>, j: int, done: Seq<ParentModel>)
    requires
        0 <= j <= s.len(),
    ensures
        j <= parents(s, j, done).1 <= s.len(),
    decreases s.len() - j,
{
    parent_bounds(s, j);
    let (level, k) = visibility(s, blanks_end(s, j));
    let (t, e) = cpp_type(s, blanks_end(s, k));
    let end = blanks_end(s, e);
    if char_at(s, end, ',') {
        parents_bounds(s, end + 1, done.push(ParentModel { name: t, visibility: level }));
    }
}

/// The base classes at `p`: `:` and at least one base class. Where no `:`
/// stands there are none and nothing is taken.
pub open spec fn inheritance(s: Seq<char>, p: int) -> (Seq<ParentModel>, int) {
    let q = blanks_end(s, p);
    if char_at(s, q, ':') {
        parents(s, q + 1, Seq::empty())
    } else {
        (Seq::empty(), p)
    }
}

/// The head of a class: its name, its export token, the one annotation
/// that is kept.
pub struct HeadModel {
    pub name: Seq<char>,
    pub api: Option<Seq<char>>,
    pub annotation: Seq<Seq<char>>,
}

/// Where the arguments of a specialization at `p` end: `<`, everything up
/// to the first `>`, and that. They are passed over.
pub open spec fn specialization_end(s: Seq<char>, p: int) -> int {
    if char_at(s, p, '<') {
        match find_word(s, p + 1, ">"@) {
            Some(k) => k + ">"@.len(),
            None => p,
        }
    } else {
        p
    }
}

/// The head of a class at `i`, in a dialect whose annotations are `A`, up
/// to the blanks behind it.
///
/// In order: a comment, which is not kept; annotations; a template header,
/// which is not kept; `class` or `struct`; one name, or two, of which the
/// first is then the export token; the arguments of a specialization.
#[verifier::opaque]
pub open spec fn class_head<'a, A: Annotation<'a>>(s: Seq<char>, i: int) -> Outcome<HeadModel> {
    let (c, pos1) = optional_comment(s, i);
    let (notes, pos2) = annotations::<A>(s, pos1);
    let pos3 = match template_header(s, pos2) {
        Outcome::Match { value, end } => end,
        Outcome::Fail { .. } => pos2,
    };
    let pos4 = if word_at(s, pos3, "class"@) {
        pos3 + "class"@.len()
    } else {
        pos3 + "struct"@.len()
    };
    if !word_at(s, pos3, "class"@) && !word_at(s, pos3, "struct"@) {
        Outcome::Fail { at: pos3, expected: Expected::Word }
    } else {
        match spaced_name(s, pos4) {
            Outcome::Fail { at, expected } => Outcome::Fail { at, expected },
            Outcome::Match { value: first, end: pos5 } => {
                let (api, name, pos6) = match spaced_name(s, pos5) {
                    Outcome::Match { value: second, end } => (Some(first), second, end),
                    Outcome::Fail { .. } => (None, first, pos5),
                };
                Outcome::Match {
                    value: HeadModel { name, api, annotation: kept(notes) },
                    end: blanks_end(s, specialization_end(s, pos6)),
                }
            },
        }
    }
}

/// The head of a class ends at or behind its start and inside the text.
pub proof fn class_head_bounds<'a, A: Annotation<'a>>(s: Seq<char>, i: int)
    requires
        0 <= i <= s.len(),
    ensures
        class_head::<A>(s, i) matches Outcome::Match { value, end } ==> i <= end <= s.len(),
{
    reveal(class_head);
    comment_bounds(s, i);
    let (c, pos1) = optional_comment(s, i);
    annotations_bounds::<A>(s, pos1);
    let (notes, pos2) = annotations::<A>(s, pos1);
    template_header_bounds(s, pos2);
    let pos3 = match template_header(s, pos2) {
        Outcome::Match { value, end } => end,
        Outcome::Fail { .. } => pos2,
    };
    if word_at(s, pos3, "class"@) || word_at(s, pos3, "struct"@) {
        let pos4 = if word_at(s, pos3, "class"@) {
            pos3 + "class"@.len()
        } else {
            pos3 + "struct"@.len()
        };
        spaced_name_bounds(s, pos4);
        match spaced_name(s, pos4) {
            Outcome::Fail { .. } => {},
            Outcome::Match { value: first, end: pos5 } => {
                spaced_name_bounds(s, pos5);
                let pos6 = match spaced_name(s, pos5) {
                    Outcome::Match { value: second, end } => end,
                    Outcome::Fail { .. } => pos5,
                };
                find_word_bounds(s, pos6 + 1, ">"@);
                run_end_bounds(s, specialization_end(s, pos6), CharClass::Blank);
            },
        }
    }
}

/// Base classes behind a head end at or behind their start and inside the
/// text.
pub proof fn inheritance_bounds(s: Seq<char>, p: int)
    requires
        0 <= p <= s.len(),
    ensures
        p <= inheritance(s, p).1 <= s.len(),
{
    run_end_bounds(s, p, CharClass::Blank);
    let q = blanks_end(s, p);
    if char_at(s, q, ':') {
        parents_bounds(s, q + 1, Seq::empty());
    }
}

/// The access specifier at `i`: the word of a level with `:` right behind
/// it, and the blanks that follow.
pub open spec fn access_specifier(s: Seq<char>, i: int) -> Option<(InheritanceVisibility, int)> {
    let (level, e) = if word_at(s, i, "public"@) {
        (InheritanceVisibility::Public, i + "public"@.len())
    } else if word_at(s, i, "private"@) {
        (InheritanceVisibility::Private, i + "private"@.len())
    } else {
        (InheritanceVisibility::Protected, i + "protected"@.len())
    };
    if (word_at(s, i, "public"@) || word_at(s, i, "private"@) || word_at(s, i, "protected"@))
        && char_at(s, e, ':') {
        Some((level, blanks_end(s, e + 1)))
    } else {
        None
    }
}

/// The class or struct at `i`, in the dialect of `C`; `ignored` holds the
/// patterns of the lines in a body that the dialect passes over.
///
/// After the head: `;` ends a declaration without a body, which has no
/// export token and nothing in it. Otherwise the base classes, `{`, and the
/// items of the body up to the closing brace, sorted by access level. A
/// failure in the body is a failure of the class, and names the class
/// before the bodies that it names already.
pub open spec fn class_rule<'a, C: Class<'a>>(
    s: Seq<char>,
    i: int,
    ignored: Seq<IgnoredModel>,
) -> Nested<ClassModel> {
    nested_class::<C>(s, i, ignored, NESTING as nat)
}

/// The class or struct at `i` in whose body classes may still stand `depth`
/// deep.
pub open spec fn nested_class<'a, C: Class<'a>>(
    s: Seq<char>,
    i: int,
    ignored: Seq<IgnoredModel>,
    depth: nat,
) -> Nested<ClassModel>
    decreases s.len() - i, 1int,
{
    match class_head::<C::ClassAnnotation>(s, i) {
        Outcome::Fail { at, expected } => Nested::Fail { at, expected, scope: Seq::empty() },
        Outcome::Match { value: head, end: p } => {
            let (bases, open) = inheritance(s, p);
            proof {
                if 0 <= i <= s.len() {
                    class_head_bounds::<C::ClassAnnotation>(s, i);
                    inheritance_bounds(s, p);
                }
            }
            if char_at(s, p, ';') {
                Nested::Match {
                    value: ClassModel {
                        name: head.name,
                        api: None,
                        parents: Seq::empty(),
                        methods: Seq::empty(),
                        members: Seq::empty(),
                        inner_classes: Seq::empty(),
                        annotation: head.annotation,
                    },
                    end: p + 1,
                }
            } else if 0 <= i <= s.len() && char_at(s, open, '{') {
                match class_items::<C>(s, open + 1, ignored, Seq::empty(), depth) {
                    Nested::Fail { at, expected, scope } => Nested::Fail {
                        at,
                        expected,
                        scope: seq![head.name] + scope,
                    },
                    Nested::Match { value: items, end } => Nested::Match {
                        value: ClassModel {
                            name: head.name,
                            api: head.api,
                            parents: bases,
                            methods: sorted(items).methods,
                            members: sorted(items).members,
                            inner_classes: sorted(items).inner_classes,
                            annotation: head.annotation,
                        },
                        end,
                    },
                }
            } else {
                Nested::Fail { at: open, expected: Expected::Char('{'), scope: Seq::empty() }
            }
        },
    }
}

/// What stands at `b` in a class body where no class does: a method, or
/// else a member, or else a comment, or else the closing brace, with a `;`
/// right behind it if there is one.
pub open spec fn plain_class_item<'a, C: Class<'a>>(s: Seq<char>, b: int) -> Outcome<ItemModel> {
    match method::<<C::Method as Method<'a>>::MethodAnnotation>(s, b) {
        Outcome::Match { value, end } => Outcome::Match { value: ItemModel::Method(value), end },
        Outcome::Fail { .. } => match member::<<C::Member as Member<'a>>::Annotation>(s, b) {
            Outcome::Match { value, end } => Outcome::Match {
                value: ItemModel::Member(value),
                end,
            },
            Outcome::Fail { .. } => match comment(s, b) {
                Outcome::Match { value, end } => Outcome::Match {
                    value: ItemModel::Comment(value),
                    end,
                },
                Outcome::Fail { .. } => if char_at(s, b, '}') {
                    Outcome::Match {
                        value: ItemModel::End,
                        end: if char_at(s, b + 1, ';') {
                            b + 2
                        } else {
                            b + 1
                        },
                    }
                } else {
                    Outcome::Fail { at: b, expected: Expected::Char('}') }
                },
            },
        },
    }
}

/// The item of a class body at `i`, behind the blanks there. The first of
/// these that is met: a line that the dialect ignores; `;`; an access
/// specifier; a class, where classes may still stand in the body; a
/// method; a member; a comment; the closing brace. Where a class has
/// failed in its body, that is the failure of the item.
pub open spec fn class_item<'a, C: Class<'a>>(
    s: Seq<char>,
    i: int,
    ignored: Seq<IgnoredModel>,
    depth: nat,
) -> Nested<ItemModel>
    decreases s.len() - i, 2int,
{
    let b = blanks_end(s, i);
    if !(0 <= i <= s.len()) {
        Nested::Fail { at: i, expected: Expected::Char('}'), scope: Seq::empty() }
    } else if first_ignored_end(s, b, ignored, 0) is Some {
        Nested::Match {
            value: ItemModel::Ignore,
            end: blanks_end(s, first_ignored_end(s, b, ignored, 0).unwrap()),
        }
    } else if char_at(s, b, ';') {
        Nested::Match { value: ItemModel::Ignore, end: b + 1 }
    } else if access_specifier(s, b) is Some {
        Nested::Match {
            value: ItemModel::Access(access_specifier(s, b).unwrap().0),
            end: access_specifier(s, b).unwrap().1,
        }
    } else {
        proof {
            run_end_bounds(s, i, CharClass::Blank);
        }
        if depth == 0 {
            flat(plain_class_item::<C>(s, b))
        } else {
            let inner = nested_class::<C>(s, b, ignored, (depth - 1) as nat);
            match inner {
                Nested::Match { value, end } => Nested::Match {
                    value: ItemModel::Class(value),
                    end,
                },
                Nested::Fail { .. } => if inner.is_final() {
                    inner.failed()
                } else {
                    flat(plain_class_item::<C>(s, b))
                },
            }
        }
    }
}

/// The items of a class body from `i` on, added to `done`, up to the
/// closing brace, which is taken and is none of them. An item that is not
/// met is a failure, and so is one that takes nothing.
pub open spec fn class_items<'a, C: Class<'a>>(
    s: Seq<char>,
    i: int,
    ignored: Seq<IgnoredModel>,
    done: Seq<ItemModel>,
    depth: nat,
) -> Nested<Seq<ItemModel>>
    decreases s.len() - i, 3int,
{
    match class_item::<C>(s, i, ignored, depth) {
        Nested::Fail { at, expected, scope } => Nested::Fail { at, expected, scope },
        Nested::Match { value, end } => if value is End {
            Nested::Match { value: done, end }
        } else if i < end <= s.len() {
            class_items::<C>(s, end, ignored, done.push(value), depth)
        } else {
            Nested::Fail { at: i, expected: Expected::Progress, scope: Seq::empty() }
        },
    }
}

fn visibility_at(src: &Source, i: usize) -> (r: (InheritanceVisibility, usize))
    requires
        i <= src@.len(),
    ensures
        (r.0, r.1 as int) == visibility(src@, i as int),
        i <= r.1 <= src@.len(),
{
    if let Some(e) = src.word(i, "private") {
        (InheritanceVisibility::Private, e)
    } else if let Some(e) = src.word(i, "protected") {
        (InheritanceVisibility::Protected, e)
    } else if let Some(e) = src.word(i, "public") {
        (InheritanceVisibility::Public, e)
    } else if let Some(e) = src.word(i, "virtual") {
        (InheritanceVisibility::Virtual, e)
    } else {
        (InheritanceVisibility::Empty, i)
    }
}

fn inheritance_at<'a>(src: &Source<'a>, p: usize) -> (r: (Vec<CppParentClass<'a>>, usize))
    requires
        p <= src@.len(),
    ensures
        (r.0.deep_view(), r.1 as int) == inheritance(src@, p as int),
        p <= r.1 <= src@.len(),
{
    let mut list: Vec<CppParentClass<'a>> = Vec::new();
    assert(list.deep_view() =~= Seq::<ParentModel>::empty());
    let q = src.blanks(p);
    match src.after_char(q, ':') {
        None => (list, p),
        Some(first) => {
            let mut j: usize = first;
            let mut end: usize = first;
            loop
                invariant_except_break
                    first <= j <= src@.len(),
                    parents(src@, first as int, Seq::empty()) == parents(
                        src@,
                        j as int,
                        list.deep_view(),
                    ),
                ensures
                    first <= end <= src@.len(),
                    parents(src@, first as int, Seq::empty()) == (list.deep_view(), end as int),
                decreases src@.len() - j,
            {
                let (level, k) = visibility_at(src, src.blanks(j));
                let (t, e) = cpp_type_at(src, src.blanks(k));
                let stop = src.blanks(e);
                let ghost before = list.deep_view();
                let parent = CppParentClass { name: t, visibility: level };
                let ghost added = parent.deep_view();
                list.push(parent);
                assert(list.deep_view() =~= before.push(added));
                match src.after_char(stop, ',') {
                    Some(next) => {
                        j = next;
                    },
                    None => {
                        end = stop;
                        break ;
                    },
                }
            }
            (list, end)
        },
    }
}

fn specialization_end_at(src: &Source, p: usize) -> (r: usize)
    requires
        p <= src@.len(),
    ensures
        r == specialization_end(src@, p as int),
        p <= r <= src@.len(),
{
    match src.after_char(p, '<') {
        None => p,
        Some(from) => match src.find(from, ">") {
            Some((_, e)) => e,
            None => p,
        },
    }
}

/// What the head of a class holds: its name, its export token, its
/// annotations.
struct Head<'a, A> {
    name: &'a str,
    api: Option<&'a str>,
    notes: Option<Vec<A>>,
}

fn class_head_at<'a, A: Annotation<'a>>(src: &Source<'a>, i: usize) -> (r: Result<
    (Head<'a, A>, usize),
    Failure,
>)
    requires
        i <= src@.len(),
    ensures
        within(r, i, src@.len()),
        match r {
            Ok((head, end)) => class_head::<A>(src@, i as int) == (Outcome::Match {
                value: HeadModel {
                    name: head.name@,
                    api: head.api.deep_view(),
                    annotation: kept(head.notes.deep_view()),
                },
                end: end as int,
            }),
            Err(f) => class_head::<A>(src@, i as int) == (Outcome::<HeadModel>::Fail {
                at: f.at as int,
                expected: f.expected,
            }),
        },
{
    reveal(class_head);
    let (_, pos1) = optional_comment_at(src, i);
    let (notes, pos2) = annotations_at::<A>(src, pos1);
    let pos3 = match template_header_at(src, pos2) {
        Ok((_, end)) => end,
        Err(_) => pos2,
    };
    let pos4 = match src.word(pos3, "class") {
        Some(e) => e,
        None => match src.word(pos3, "struct") {
            Some(e) => e,
            None => {
                return Err(Failure { at: pos3, expected: Expected::Word });
            },
        },
    };
    match spaced_name_at(src, pos4) {
        Err(f) => Err(f),
        Ok((first, pos5)) => {
            let (api, name, pos6) = match spaced_name_at(src, pos5) {
                Ok((second, end)) => (Some(first), second, end),
                Err(_) => (None, first, pos5),
            };
            let end = src.blanks(specialization_end_at(src, pos6));
            Ok((Head { name, api, notes }, end))
        },
    }
}

fn access_specifier_at(src: &Source, i: usize) -> (r: Option<(InheritanceVisibility, usize)>)
    requires
        i <= src@.len(),
    ensures
        match r {
            Some((level, e)) => access_specifier(src@, i as int) == Some((level, e as int)) && i
                < e <= src@.len(),
            None => access_specifier(src@, i as int).is_none(),
        },
{
    let (level, e) = if let Some(e) = src.word(i, "public") {
        (InheritanceVisibility::Public, e)
    } else if let Some(e) = src.word(i, "private") {
        (InheritanceVisibility::Private, e)
    } else if let Some(e) = src.word(i, "protected") {
        (InheritanceVisibility::Protected, e)
    } else {
        return None;
    };
    match src.after_char(e, ':') {
        Some(k) => Some((level, src.blanks(k))),
        None => None,
    }
}

/// What stands at `b` in a class body where no class does.
fn plain_class_item_at<'a, C: Class<'a>>(src: &Source<'a>, b: usize) -> (r: Result<
    (ClassItem<C::Method, C::Member, C>, usize),
    Failure,
>)
    requires
        b <= src@.len(),
    ensures
        seen(r) == plain_class_item::<C>(src@, b as int),
        within(r, b, src@.len()),
{
    if let Ok((m, e)) = method_at::<C::Method>(src, b) {
        return Ok((ClassItem::Method(m), e));
    }
    if let Ok((f, e)) = member_at::<C::Member>(src, b) {
        return Ok((ClassItem::Member(f), e));
    }
    if let Ok((c, e)) = comment_at(src, b) {
        return Ok((ClassItem::Comment(c), e));
    }
    match src.after_char(b, '}') {
        Some(e) => match src.after_char(e, ';') {
            Some(end) => Ok((ClassItem::End, end)),
            None => Ok((ClassItem::End, e)),
        },
        None => Err(Failure { at: b, expected: Expected::Char('}') }),
    }
}

/// The item of a class body at `i`.
pub fn class_item_at<'a, C: Class<'a>>(
    src: &Source<'a>,
    i: usize,
    ignored: &Vec<Ignored>,
    depth: usize,
) -> (r: Result<(ClassItem<C::Method, C::Member, C>, usize), NestedFailure<'a>>)
    requires
        i <= src@.len(),
    ensures
        seen_nested(r) == class_item::<C>(src@, i as int, ignored.deep_view(), depth as nat),
        within_nested(r, i, src@.len()),
    decreases src@.len() - i, 2int,
{
    let b = src.blanks(i);
    if let Some(e) = first_ignored_at(src, b, ignored) {
        return Ok((ClassItem::Ignore, src.blanks(e)));
    }
    if let Some(e) = src.after_char(b, ';') {
        return Ok((ClassItem::Ignore, e));
    }
    if let Some((level, e)) = access_specifier_at(src, b) {
        return Ok((ClassItem::Access(level), e));
    }
    if depth > 0 {
        match nested_class_at::<C>(src, b, ignored, depth - 1) {
            Ok((c, e)) => {
                return Ok((ClassItem::Class(c), e));
            },
            Err(f) => {
                if f.scope.len() > 0 {
                    return Err(f);
                }
            },
        }
    }
    match plain_class_item_at::<C>(src, b) {
        Ok(found) => Ok(found),
        Err(f) => Err(NestedFailure::plain(f)),
    }
}

/// The class or struct at `i`.
pub fn class_at<'a, C: Class<'a>>(src: &Source<'a>, i: usize, ignored: &Vec<Ignored>) -> (r: Result<
    (C, usize),
    NestedFailure<'a>,
>)
    requires
        i <= src@.len(),
    ensures
        seen_nested(r) == class_rule::<C>(src@, i as int, ignored.deep_view()),
        within_nested(r, i, src@.len()),
{
    nested_class_at::<C>(src, i, ignored, NESTING)
}

/// The class or struct at `i` in whose body classes may still stand `depth`
/// deep.
#[verifier::loop_isolation(false)]
pub fn nested_class_at<'a, C: Class<'a>>(
    src: &Source<'a>,
    i: usize,
    ignored: &Vec<Ignored>,
    depth: usize,
) -> (r: Result<(C, usize), NestedFailure<'a>>)
    requires
        i <= src@.len(),
    ensures
        seen_nested(r) == nested_class::<C>(src@, i as int, ignored.deep_view(), depth as nat),
        within_nested(r, i, src@.len()),
    decreases src@.len() - i, 1int,
{
    let (head, p) = match class_head_at::<C::ClassAnnotation>(src, i) {
        Ok(h) => h,
        Err(f) => {
            return Err(NestedFailure::plain(f));
        },
    };
    let mut body: Body<C::Method, C::Member, C> = Body::new();
    if let Some(end) = src.after_char(p, ';') {
        let none: Vec<CppParentClass<'a>> = Vec::new();
        assert(none.deep_view() =~= Seq::<ParentModel>::empty());
        return Ok(
            (
                C::class(
                    head.name,
                    None,
                    none,
                    body.methods,
                    body.members,
                    body.inner_classes,
                    head.notes,
                ),
                end,
            ),
        );
    }
    let (bases, open) = inheritance_at(src, p);
    let first = match src.after_char(open, '{') {
        Some(k) => k,
        None => {
            return Err(
                NestedFailure::plain(Failure { at: open, expected: Expected::Char('{') }),
            );
        },
    };
    let mut j: usize = first;
    let ghost mut done: Seq<ItemModel> = Seq::empty();
    loop
        invariant
            first <= j <= src@.len(),
            i < first,
            class_items::<C>(src@, first as int, ignored.deep_view(), Seq::empty(), depth as nat)
                == class_items::<C>(src@, j as int, ignored.deep_view(), done, depth as nat),
            body.deep_view() == sorted(done),
        decreases src@.len() - j,
    {
        match class_item_at::<C>(src, j, ignored, depth) {
            Err(f) => {
                return Err(f.inside(head.name));
            },
            Ok((item, end)) => {
                if let ClassItem::End = item {
                    return Ok(
                        (
                            C::class(
                                head.name,
                                head.api,
                                bases,
                                body.methods,
                                body.members,
                                body.inner_classes,
                                head.notes,
                            ),
                            end,
                        ),
                    );
                }
                if end <= j {
                    let f = NestedFailure::plain(
                        Failure { at: j, expected: Expected::Progress },
                    );
                    return Err(f.inside(head.name));
                }
                proof {
                    assert(done.push(item.deep_view()).drop_last() =~= done);
                    done = done.push(item.deep_view());
                }
                body.take(item);
                j = end;
            },
        }
    }
}

/// Reads a class or struct at the start of `input`, in the dialect of
/// `Ctx`. `ignore_statements` holds the patterns of the lines in a body
/// that the dialect passes over.
pub fn parse_class<'a, Ctx: Class<'a>>(input: &'a str, ignore_statements: &Vec<Ignored>) -> (r: Result<
    (&'a str, Ctx),
    ParseError<'a>,
>)
    ensures
        reports(r, input@, class_rule::<Ctx>(input@, 0, ignore_statements.deep_view())),
{
    let src = Source::new(input);
    src.report_nested(class_at::<Ctx>(&src, 0, ignore_statements))
}

} // verus!
