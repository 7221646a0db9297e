use crate::parser::cpp::ctype::{cpp_type, cpp_type_at, CType, TypeExpr};
use crate::parser::cpp::template::{template_header, template_header_at};
use crate::parser::{name, name_at};
use crate::text::{
    blanks_end, char_at, flat, seen, within, word_at, Expected, Failure, Nested, Outcome,
    ParseError, Source,
};
use crate::types::Parsable;
use vstd::prelude::*;

verus! {

/// A type alias as a mathematical value.
pub struct AliasModel {
    pub name: Seq<char>,
    pub ctype: TypeExpr,
}

/// A type alias: `using`, a name, `=`, a type, `;`.
#[derive(Debug, PartialEq, Clone)]
pub struct CppAlias<'a> {
    pub name: &'a str,
    pub ctype: CType<'a>,
}

impl<'a> DeepView for CppAlias<'a> {
    type V = AliasModel;

    open spec fn deep_view(&self) -> AliasModel {
        AliasModel { name: self.name@, ctype: self.ctype.deep_view() }
    }
}

/// The alias at `i`: a template header, which is not kept and may be
/// missing; `using`; at least one blank; the name; `=` with blanks around
/// it; the type; `;`, which blanks may precede.
pub open spec fn alias(s: Seq<char>, i: int) -> Outcome<AliasModel> {
    let pos0 = match template_header(s, i) {
        Outcome::Match { value, end } => end,
        Outcome::Fail { .. } => i,
    };
    let pos1 = pos0 + "using"@.len();
    let pos2 = blanks_end(s, pos1);
    if !word_at(s, pos0, "using"@) {
        Outcome::Fail { at: pos0, expected: Expected::Word }
    } else if pos2 <= pos1 {
        Outcome::Fail { at: pos1, expected: Expected::Space }
    } else {
        match name(s, pos2) {
            Outcome::Fail { at, expected } => Outcome::Fail { at, expected },
            Outcome::Match { value: n, end: pos3 } => {
                let eq = blanks_end(s, pos3);
                let (t, pos4) = cpp_type(s, blanks_end(s, eq + 1));
                let semi = blanks_end(s, pos4);
                if !char_at(s, eq, '=') {
                    Outcome::Fail { at: eq, expected: Expected::Char('=') }
                } else if !char_at(s, semi, ';') {
                    Outcome::Fail { at: semi, expected: Expected::Char(';') }
                } else {
                    Outcome::Match { value: AliasModel { name: n, ctype: t }, end: semi + 1 }
                }
            },
        }
    }
}

/// The alias at `i`.
pub fn alias_at<'a>(src: &Source<'a>, i: usize) -> (r: Result<(CppAlias<'a>, usize), Failure>)
    requires
        i <= src@.len(),
    ensures
        seen(r) == alias(src@, i as int),
        within(r, i, src@.len()),
{
    let pos0 = match template_header_at(src, i) {
        Ok((_, end)) => end,
        Err(_) => i,
    };
    let pos1 = match src.word(pos0, "using") {
        Some(e) => e,
        None => {
            return Err(Failure { at: pos0, expected: Expected::Word });
        },
    };
    let pos2 = src.blanks(pos1);
    if pos2 <= pos1 {
        return Err(Failure { at: pos1, expected: Expected::Space });
    }
    let (n, pos3) = match name_at(src, pos2) {
        Ok(v) => v,
        Err(f) => {
            return Err(f);
        },
    };
    let eq = src.blanks(pos3);
    let from = match src.after_char(eq, '=') {
        Some(k) => k,
        None => {
            return Err(Failure { at: eq, expected: Expected::Char('=') });
        },
    };
    let (t, pos4) = cpp_type_at(src, src.blanks(from));
    let semi = src.blanks(pos4);
    match src.after_char(semi, ';') {
        Some(end) => Ok((CppAlias { name: n, ctype: t }, end)),
        None => Err(Failure { at: semi, expected: Expected::Char(';') }),
    }
}

impl<'a> Parsable<'a> for CppAlias<'a> {
    /// The alias at the start of the text.
    open spec fn rule(s: Seq<char>) -> Nested<AliasModel> {
        flat(alias(s, 0))
    }

    fn parse(input: &'a str) -> (r: Result<(&'a str, Self), ParseError<'a>>) {
        let src = Source::new(input);
        src.report(alias_at(&src, 0))
    }
}

} // verus!
