use crate::parser::cpp::member::CppMember;
use crate::parser::cpp::method::CppFunction;
use crate::parser::generic::annotation::NoAnnotation;
use crate::parser::generic::class::{
    AccessLists, AccessMap, Class, ClassModel, CppParentClass, InheritanceVisibility,
};
use vstd::prelude::*;

verus! {

/// A class or struct of the plain dialect.
#[derive(Debug, PartialEq, Default)]
pub struct CppClass<'a> {
    pub name: &'a str,
    pub api: Option<&'a str>,
    pub parents: Vec<CppParentClass<'a>>,
    pub methods: AccessMap<CppFunction<'a>>,
    pub members: AccessMap<CppMember<'a>>,
    pub inner_classes: AccessMap<CppClass<'a>>,
}

/// The value that a `CppClass` stands for.
pub open spec fn cpp_class_model(c: CppClass) -> ClassModel
    decreases c, 0int,
{
    ClassModel {
        name: c.name@,
        api: c.api.deep_view(),
        parents: c.parents.deep_view(),
        methods: c.methods.deep_view(),
        members: c.members.deep_view(),
        inner_classes: cpp_class_models(c.inner_classes@),
        annotation: Seq::empty(),
    }
}

/// The values that the classes inside a class stand for.
pub open spec fn cpp_class_models(list: Seq<(InheritanceVisibility, CppClass)>) -> AccessLists<
    ClassModel,
>
    decreases list, 1int,
{
    Seq::new(
        list.len(),
        |k: int|
            if 0 <= k < list.len() {
                (list[k].0, cpp_class_model(list[k].1))
            } else {
                arbitrary()
            },
    )
}

impl<'a> DeepView for CppClass<'a> {
    type V = ClassModel;

    open spec fn deep_view(&self) -> ClassModel {
        cpp_class_model(*self)
    }
}

impl<'a> Class<'a> for CppClass<'a> {
    type ClassAnnotation = NoAnnotation;

    type Method = CppFunction<'a>;

    type Member = CppMember<'a>;

    fn class(
        name: &'a str,
        api: Option<&'a str>,
        parents: Vec<CppParentClass<'a>>,
        methods: AccessMap<CppFunction<'a>>,
        members: AccessMap<CppMember<'a>>,
        inner_classes: AccessMap<CppClass<'a>>,
        annotations: Option<Vec<NoAnnotation>>,
    ) -> (r: Self) {
        proof {
            match annotations {
                Some(list) => {
                    if list@.len() > 0 {
                        assert(list.deep_view()[0] == list@[0].deep_view());
                    }
                },
                None => {},
            }
            assert(inner_classes.deep_view() =~= cpp_class_models(inner_classes@));
        }
        Self { name, api, parents, methods, members, inner_classes }
    }
}

} // verus!
