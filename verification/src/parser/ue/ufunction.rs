use crate::parser::cpp::comment::CppComment;
use crate::parser::cpp::ctype::CType;
use crate::parser::cpp::method::{CppFunction, CppMethodParam};
use crate::parser::generic::annotation::{keep_first, macro_text, macro_text_at, Annotation};
use crate::parser::generic::method::{
    CppStorageQualifier, Method, MethodModel, PostParamQualifier, SpecialMember,
};
use crate::text::{Failure, Outcome, Source};
use vstd::prelude::*;

verus! {

/// What a `UFUNCTION` macro holds: the macro as it stands in the text, its name
/// and its arguments.
#[derive(Debug, PartialEq, Default, Clone)]
pub struct UFunctionAnnotation<'a>(pub Vec<&'a str>);

impl<'a> DeepView for UFunctionAnnotation<'a> {
    type V = Seq<Seq<char>>;

    open spec fn deep_view(&self) -> Seq<Seq<char>> {
        self.0.deep_view()
    }
}

impl<'a> Annotation<'a> for UFunctionAnnotation<'a> {
    /// `UFUNCTION` with its arguments.
    open spec fn rule(s: Seq<char>, i: int) -> Outcome<Seq<Seq<char>>> {
        macro_text(s, i, "UFUNCTION"@)
    }

    fn parse(src: &Source<'a>, i: usize) -> (r: Result<(Self, usize), Failure>) {
        match macro_text_at(src, i, "UFUNCTION") {
            Ok((texts, end)) => Ok((UFunctionAnnotation(texts), end)),
            Err(f) => Err(f),
        }
    }
}

/// A function or method of the reflection dialect: the function and its
/// annotation.
#[derive(Debug, PartialEq, Clone)]
pub struct UFunction<'a> {
    pub function: CppFunction<'a>,
    pub annotation: UFunctionAnnotation<'a>,
}

impl<'a> DeepView for UFunction<'a> {
    type V = MethodModel;

    open spec fn deep_view(&self) -> MethodModel {
        MethodModel { annotation: self.annotation.deep_view(), ..self.function.deep_view() }
    }
}

impl<'a> Method<'a> for UFunction<'a> {
    type MethodAnnotation = UFunctionAnnotation<'a>;

    fn method(
        name: &'a str,
        return_type: Option<CType<'a>>,
        template_params: Vec<CType<'a>>,
        params: Vec<CppMethodParam<'a>>,
        storage_qualifiers: Vec<CppStorageQualifier>,
        post_param_qualifiers: Vec<PostParamQualifier>,
        special: Option<SpecialMember>,
        comment: Option<CppComment>,
        annotations: Option<Vec<UFunctionAnnotation<'a>>>,
    ) -> (r: Self) {
        let texts: Vec<&'a str> = Vec::new();
        assert(texts.deep_view() =~= Seq::<Seq<char>>::empty());
        let annotation = keep_first(annotations, UFunctionAnnotation(texts));
        UFunction {
            function: CppFunction::method(
                name,
                return_type,
                template_params,
                params,
                storage_qualifiers,
                post_param_qualifiers,
                special,
                comment,
                None,
            ),
            annotation,
        }
    }
}

} // verus!
