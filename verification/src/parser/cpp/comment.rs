use vstd::prelude::*;

verus! {

/// The text of a comment, its lines joined by line feeds.
#[derive(Debug, Eq, PartialEq, Clone, Default)]
pub struct CppComment {
    pub comment: String,
}

impl DeepView for CppComment {
    type V = Seq<char>;

    open spec fn deep_view(&self) -> Seq<char> {
        self.comment@
    }
}

impl From<String> for CppComment {
    fn from(s: String) -> (r: CppComment) {
        CppComment { comment: s }
    }
}

impl vstd::std_specs::convert::FromSpecImpl<String> for CppComment {
    open spec fn obeys_from_spec() -> bool {
        true
    }

    open spec fn from_spec(s: String) -> CppComment {
        CppComment { comment: s }
    }
}

} // verus!
