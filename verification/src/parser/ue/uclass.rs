use crate::parser::generic::annotation::{keep_first, macro_text, macro_text_at, Annotation};
use crate::parser::generic::class::{
    AccessLists, AccessMap, Class, ClassModel, CppParentClass, InheritanceVisibility,
};
use crate::parser::ue::ufunction::UFunction;
use crate::parser::ue::uproperty::UProperty;
use crate::text::{blanks_end, Failure, Outcome, Source};
use vstd::prelude::*;

verus! {

/// What a `UCLASS` macro holds: the macro as it stands in the text, its name
/// and its arguments.
#[derive(Debug, PartialEq, Default, Clone)]
pub struct UClassAnnotation<'a>(pub Vec<&'a str>);

impl<'a> DeepView for UClassAnnotation<'a> {
    type V = Seq<Seq<char>>;

    open spec fn deep_view(&self) -> Seq<Seq<char>> {
        self.0.deep_view()
    }
}

impl<'a> Annotation<'a> for UClassAnnotation<'a> {
    /// `UCLASS` with its arguments, and the blanks that follow.
    open spec fn rule(s: Seq<char>, i: int) -> Outcome<Seq<Seq<char>>> {
        match macro_text(s, i, "UCLASS"@) {
            Outcome::Match { value, end } => Outcome::Match { value, end: blanks_end(s, end) },
            Outcome::Fail { at, expected } => Outcome::Fail { at, expected },
        }
    }

    fn parse(src: &Source<'a>, i: usize) -> (r: Result<(Self, usize), Failure>) {
        match macro_text_at(src, i, "UCLASS") {
            Ok((texts, end)) => Ok((UClassAnnotation(texts), src.blanks(end))),
            Err(f) => Err(f),
        }
    }
}

/// A class or struct of the reflection dialect.
#[derive(Debug, PartialEq, Default)]
pub struct UClass<'a> {
    pub name: &'a str,
    pub api: Option<&'a str>,
    pub parents: Vec<CppParentClass<'a>>,
    pub methods: AccessMap<UFunction<'a>>,
    pub members: AccessMap<UProperty<'a>>,
    pub inner_classes: AccessMap<UClass<'a>>,
    pub annotation: UClassAnnotation<'a>,
}

/// The value that a `UClass` stands for.
pub open spec fn uclass_model(c: UClass) -> ClassModel
    decreases c, 0int,
{
    ClassModel {
        name: c.name@,
        api: c.api.deep_view(),
        parents: c.parents.deep_view(),
        methods: c.methods.deep_view(),
        members: c.members.deep_view(),
        inner_classes: uclass_models(c.inner_classes@),
        annotation: c.annotation.deep_view(),
    }
}

/// The values that the classes inside a class stand for.
pub open spec fn uclass_models(list: Seq<(InheritanceVisibility, UClass)>) -> AccessLists<
    ClassModel,
>
    decreases list, 1int,
{
    Seq::new(
        list.len(),
        |k: int|
            if 0 <= k < list.len() {
                (list[k].0, uclass_model(list[k].1))
            } else {
                arbitrary()
            },
    )
}

impl<'a> DeepView for UClass<'a> {
    type V = ClassModel;

    open spec fn deep_view(&self) -> ClassModel {
        uclass_model(*self)
    }
}

impl<'a> Class<'a> for UClass<'a> {
    type ClassAnnotation = UClassAnnotation<'a>;

    type Method = UFunction<'a>;

    type Member = UProperty<'a>;

    fn class(
        name: &'a str,
        api: Option<&'a str>,
        parents: Vec<CppParentClass<'a>>,
        methods: AccessMap<UFunction<'a>>,
        members: AccessMap<UProperty<'a>>,
        inner_classes: AccessMap<UClass<'a>>,
        annotations: Option<Vec<UClassAnnotation<'a>>>,
    ) -> (r: Self) {
        let texts: Vec<&'a str> = Vec::new();
        assert(texts.deep_view() =~= Seq::<Seq<char>>::empty());
        let annotation = keep_first(annotations, UClassAnnotation(texts));
        assert(inner_classes.deep_view() =~= uclass_models(inner_classes@));
        Self { name, api, parents, methods, members, inner_classes, annotation }
    }
}

} // verus!
