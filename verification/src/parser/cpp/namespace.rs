use crate::parser::cpp::class::CppClass;
use crate::parser::cpp::comment::CppComment;
use crate::parser::cpp::member::CppMember;
use crate::parser::cpp::method::CppFunction;
use crate::parser::generic::namespace::{Namespace, NamespaceModel};
use vstd::prelude::*;

verus! {

/// A namespace of the plain dialect.
#[derive(Debug, PartialEq, Default)]
pub struct CppNamespace<'a> {
    pub name: &'a str,
    pub namespaces: Vec<CppNamespace<'a>>,
    pub classes: Vec<CppClass<'a>>,
    pub functions: Vec<CppFunction<'a>>,
    pub variables: Vec<CppMember<'a>>,
    pub comments: Vec<CppComment>,
}

/// The value that a `CppNamespace` stands for.
pub open spec fn cpp_namespace_model(n: CppNamespace) -> NamespaceModel
    decreases n, 0int,
{
    NamespaceModel {
        name: n.name@,
        namespaces: cpp_namespace_models(n.namespaces@),
        classes: n.classes.deep_view(),
        functions: n.functions.deep_view(),
        variables: n.variables.deep_view(),
        comments: n.comments.deep_view(),
    }
}

/// The values that a list of `CppNamespace`s stands for.
pub open spec fn cpp_namespace_models(list: Seq<CppNamespace>) -> Seq<NamespaceModel>
    decreases list, 1int,
{
    Seq::new(
        list.len(),
        |k: int|
            if 0 <= k < list.len() {
                cpp_namespace_model(list[k])
            } else {
                arbitrary()
            },
    )
}

impl<'a> DeepView for CppNamespace<'a> {
    type V = NamespaceModel;

    open spec fn deep_view(&self) -> NamespaceModel {
        cpp_namespace_model(*self)
    }
}

impl<'a> Namespace<'a, CppClass<'a>> for CppNamespace<'a> {
    fn namespace(
        name: &'a str,
        namespaces: Vec<Self>,
        functions: Vec<CppFunction<'a>>,
        variables: Vec<CppMember<'a>>,
        classes: Vec<CppClass<'a>>,
        comments: Vec<CppComment>,
    ) -> (r: Self) {
        assert(namespaces.deep_view() =~= cpp_namespace_models(namespaces@));
        CppNamespace { name, namespaces, classes, functions, variables, comments }
    }
}

} // verus!
