//! Names and sources: the texts a file declares and imports from, checked
//! the way Rust's own parser reads them.
//!
//! A name is `Self` or a Rust identifier; a source is a path of identifiers
//! with no leading `::` and no generic arguments on any segment.

use vstd::prelude::*;
use crate::concept::{Fault, Problem, ProblemModel};
use crate::text::same_text;

verus! {

/// Whether `syn` parses the text as a Rust identifier.
pub uninterp spec fn parses_as_ident(s: Seq<char>) -> bool;

/// How `syn` parses the text as a path: whether it has a leading `::`, and
/// for each segment whether it carries no arguments; none when it is no path.
pub uninterp spec fn path_shape(s: Seq<char>) -> Option<(bool, Seq<bool>)>;

/// Calls `syn::parse_str::<syn::Ident>` and answers whether it parsed: the
/// answer is named [`parses_as_ident`]. Nothing more of the parser is claimed.
#[verifier::external_body]
fn ident_parses(s: &str) -> (r: bool)
    ensures
        r == parses_as_ident(s@),
{
    syn::parse_str::<syn::Ident>(s).is_ok()
}

/// Calls `syn::parse_str::<syn::Path>` and, where it parses, gives whether
/// the path has a leading `::` and, segment by segment, whether the
/// segment's arguments are none: the result is named [`path_shape`].
#[verifier::external_body]
fn parse_path_shape(s: &str) -> (r: Option<(bool, Vec<bool>)>)
    ensures
        match r {
            Some((leading, arguments_none)) => path_shape(s@) == Some((leading, arguments_none@)),
            None => path_shape(s@) is None,
        },
{
    match syn::parse_str::<syn::Path>(s) {
        Ok(path) => Some((
            path.leading_colon.is_some(),
            path.segments.iter().map(|segment| segment.arguments.is_none()).collect(),
        )),
        Err(_) => None,
    }
}

/// A name: `Self`, or what parses as an identifier.
pub open spec fn name_ok(s: Seq<char>) -> bool {
    s == "Self"@ || parses_as_ident(s)
}

/// A source: a path without a leading `::` whose segments carry no arguments.
pub open spec fn source_ok(s: Seq<char>) -> bool {
    match path_shape(s) {
        Some((leading, arguments_none)) => !leading && forall|i: int|
            0 <= i < arguments_none.len() ==> #[trigger] arguments_none[i],
        None => false,
    }
}

/// Whether a text is a name (see [`name_ok`]).
pub fn is_name(s: &String) -> (r: bool)
    ensures
        r == name_ok(s@),
{
    same_text(s, "Self") || ident_parses(s.as_str())
}

/// Whether a text is a source (see [`source_ok`]).
pub fn is_source(s: &String) -> (r: bool)
    ensures
        r == source_ok(s@),
{
    let text = s.as_str();
    let shape = parse_path_shape(text);
    assert(text@ == s@);
    match shape {
        None => false,
        Some((leading, arguments_none)) => {
            assert(path_shape(s@) == Some((leading, arguments_none@)));
            if leading {
                return false;
            }
            let mut i: usize = 0;
            while i < arguments_none.len()
                invariant
                    i <= arguments_none@.len(),
                    !leading,
                    path_shape(s@) == Some((leading, arguments_none@)),
                    forall|j: int| 0 <= j < i ==> #[trigger] arguments_none@[j],
                decreases arguments_none@.len() - i,
            {
                if !arguments_none[i] {
                    proof {
                        let shape = path_shape(s@)->Some_0;
                        assert(shape.1 == arguments_none@);
                        assert(!shape.1[i as int]);
                        assert(!source_ok(s@));
                    }
                    return false;
                }
                i += 1;
            }
            true
        },
    }
}

/// Conceive a name from text: the text itself, or a `Name` fault here.
pub fn conceive_name(s: &str) -> (r: Result<String, Fault>)
    ensures
        name_ok(s@) ==> (r matches Ok(n) && n@ == s@),
        !name_ok(s@) ==> (r matches Err(f) && f.path@.len() == 0 && f.problem@
            == ProblemModel::Name(s@)),
{
    let text = String::from_str(s);
    if is_name(&text) {
        Ok(text)
    } else {
        Err(Fault { path: Vec::new(), problem: Problem::Name(text) })
    }
}

/// Conceive a source from text: the text itself, or a `Name` fault here.
pub fn conceive_source(s: &str) -> (r: Result<String, Fault>)
    ensures
        source_ok(s@) ==> (r matches Ok(n) && n@ == s@),
        !source_ok(s@) ==> (r matches Err(f) && f.path@.len() == 0 && f.problem@
            == ProblemModel::Name(s@)),
{
    let text = String::from_str(s);
    if is_source(&text) {
        Ok(text)
    } else {
        Err(Fault { path: Vec::new(), problem: Problem::Name(text) })
    }
}

} // verus!
