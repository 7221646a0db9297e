use crate::text::{reports, Nested, ParseError};
use vstd::prelude::*;

verus! {

/// A structure of the source text that can be read from the start of a
/// text: a file, a class, a namespace, an alias.
pub trait Parsable<'a>: Sized + DeepView {
    /// What the structure at the start of `s` is and where it ends.
    spec fn rule(s: Seq<char>) -> Nested<<Self as DeepView>::V>;

    /// Reads the structure at the start of `input`.
    fn parse(input: &'a str) -> (r: Result<(&'a str, Self), ParseError<'a>>)
        ensures
            reports(r, input@, Self::rule(input@)),
    ;
}

} // verus!
