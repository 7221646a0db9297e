use crate::parser::cpp::comment::CppComment;
use crate::parser::cpp::ctype::CType;
use crate::parser::cpp::member::{CppMember, CppMemberModifier};
use crate::parser::generic::annotation::{keep_first, macro_text, macro_text_at, Annotation};
use crate::parser::generic::member::{Member, MemberModel};
use crate::text::{Failure, Outcome, Source};
use vstd::prelude::*;

verus! {

/// What a `UPROPERTY` macro holds: the macro as it stands in the text, its name
/// and its arguments.
#[derive(Debug, PartialEq, Default, Clone)]
pub struct UPropertyAnnotation<'a>(pub Vec<&'a str>);

impl<'a> DeepView for UPropertyAnnotation<'a> {
    type V = Seq<Seq<char>>;

    open spec fn deep_view(&self) -> Seq<Seq<char>> {
        self.0.deep_view()
    }
}

impl<'a> Annotation<'a> for UPropertyAnnotation<'a> {
    /// `UPROPERTY` with its arguments.
    open spec fn rule(s: Seq<char>, i: int) -> Outcome<Seq<Seq<char>>> {
        macro_text(s, i, "UPROPERTY"@)
    }

    fn parse(src: &Source<'a>, i: usize) -> (r: Result<(Self, usize), Failure>) {
        match macro_text_at(src, i, "UPROPERTY") {
            Ok((texts, end)) => Ok((UPropertyAnnotation(texts), end)),
            Err(f) => Err(f),
        }
    }
}

/// A data member of the reflection dialect: the member and its annotation.
#[derive(Debug, PartialEq, Clone)]
pub struct UProperty<'a> {
    pub member: CppMember<'a>,
    pub annotation: UPropertyAnnotation<'a>,
}

impl<'a> DeepView for UProperty<'a> {
    type V = MemberModel;

    open spec fn deep_view(&self) -> MemberModel {
        MemberModel { annotation: self.annotation.deep_view(), ..self.member.deep_view() }
    }
}

impl<'a> Member<'a> for UProperty<'a> {
    type Annotation = UPropertyAnnotation<'a>;

    fn member(
        name: &'a str,
        ctype: CType<'a>,
        default_value: Option<CType<'a>>,
        comment: Option<CppComment>,
        modifiers: Vec<CppMemberModifier>,
        annotations: Option<Vec<UPropertyAnnotation<'a>>>,
    ) -> (r: Self) {
        let texts: Vec<&'a str> = Vec::new();
        assert(texts.deep_view() =~= Seq::<Seq<char>>::empty());
        let annotation = keep_first(annotations, UPropertyAnnotation(texts));
        UProperty {
            member: CppMember::member(name, ctype, default_value, comment, modifiers, None),
            annotation,
        }
    }
}

} // verus!
