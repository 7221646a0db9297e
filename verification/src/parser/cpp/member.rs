use crate::parser::cpp::comment::CppComment;
use crate::parser::cpp::ctype::CType;
use crate::parser::generic::annotation::NoAnnotation;
use crate::parser::generic::member::{Member, MemberModel};
use crate::text::same_text;
use vstd::prelude::*;

verus! {

/// What may stand in front of the type of a data member.
#[derive(Debug, Eq, PartialEq, Clone, Copy)]
pub enum CppMemberModifier {
    Static,
    Const,
    Inline,
}

impl CppMemberModifier {
    /// The word of a modifier.
    pub open spec fn word(self) -> Seq<char> {
        match self {
            CppMemberModifier::Static => "static"@,
            CppMemberModifier::Const => "const"@,
            CppMemberModifier::Inline => "inline"@,
        }
    }

    /// The word of a modifier.
    pub fn as_str(&self) -> (r: &'static str)
        ensures
            r@ == self.word(),
    {
        match self {
            CppMemberModifier::Static => "static",
            CppMemberModifier::Const => "const",
            CppMemberModifier::Inline => "inline",
        }
    }

    /// The modifier that a word stands for, if it is the word of one.
    pub fn from_word(value: &str) -> (r: Option<CppMemberModifier>)
        ensures
            match r {
                Some(m) => value@ == m.word(),
                None => forall|m: CppMemberModifier| value@ != m.word(),
            },
    {
        if same_text(value, "static") {
            Some(CppMemberModifier::Static)
        } else if same_text(value, "const") {
            Some(CppMemberModifier::Const)
        } else if same_text(value, "inline") {
            Some(CppMemberModifier::Inline)
        } else {
            None
        }
    }
}

/// A data member or variable of the plain dialect.
#[derive(Debug, Eq, PartialEq, Clone, Default)]
pub struct CppMember<'a> {
    pub name: &'a str,
    pub ctype: CType<'a>,
    pub default_value: Option<CType<'a>>,
    pub comment: Option<CppComment>,
    pub modifiers: Vec<CppMemberModifier>,
}

impl<'a> DeepView for CppMember<'a> {
    type V = MemberModel;

    open spec fn deep_view(&self) -> MemberModel {
        MemberModel {
            name: self.name@,
            ctype: self.ctype.deep_view(),
            default_value: self.default_value.deep_view(),
            comment: self.comment.deep_view(),
            modifiers: self.modifiers@,
            annotation: Seq::empty(),
        }
    }
}

impl<'a> Member<'a> for CppMember<'a> {
    type Annotation = NoAnnotation;

    fn member(
        name: &'a str,
        ctype: CType<'a>,
        default_value: Option<CType<'a>>,
        comment: Option<CppComment>,
        modifiers: Vec<CppMemberModifier>,
        annotations: Option<Vec<NoAnnotation>>,
    ) -> (r: Self) {
        proof {
            match annotations {
                Some(list) => {
                    if list@.len() > 0 {
                        assert(list.deep_view()[0] == list@[0].deep_view());
                    }
                },
                None => {},
            }
        }
        Self { name, ctype, default_value, comment, modifiers }
    }
}

} // verus!
