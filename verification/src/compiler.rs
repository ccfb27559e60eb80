//! The compiler driver's core decision: parse each named source in
//! order, refusing outright to work on more than one translation unit.

use vstd::prelude::*;

use crate::error::Error;
use crate::parser::{code_fits, parse, parse_error_ok, parse_tree_ok, pinned_cases_ok};
use crate::translation_unit::TranslationUnit;

verus! {

/// Compiles the given sources, each a pair of a source identifier and
/// its text. Two or more sources are always rejected with a fatal
/// internal error before any of them is parsed: the result then does not
/// depend on their texts at all. With at most one source, each text is
/// parsed in order and paired with its identifier, and the first syntax
/// error is returned unchanged.
pub fn compile(sources: &Vec<(String, String)>) -> (r: Result<Vec<TranslationUnit>, Error>)
    requires
        forall|i: int| 0 <= i < sources@.len() ==> code_fits(#[trigger] sources@[i].1@),
    ensures
        match r {
            Result::Ok(units) => {
                &&& sources@.len() <= 1
                &&& units@.len() == sources@.len()
                &&& forall|i: int|
                    0 <= i < units@.len() ==> (#[trigger] units@[i]).file@ == sources@[i].0@
                        && parse_tree_ok(
                        vstd::utf8::encode_utf8(sources@[i].1@),
                        *units@[i].ast,
                    )
            },
            Result::Err(e) => match e {
                Error::OnFatal(m) => sources@.len() > 1 && m@
                    == "Currently only single file can be compiled"@,
                Error::OnParse(pe) => sources@.len() == 1 && parse_error_ok(
                    vstd::utf8::encode_utf8(sources@[0].1@),
                    pe,
                ),
                Error::OnFileOpen(_) => false,
            },
        },
        sources@.len() == 1 ==> pinned_cases_ok(
            vstd::utf8::encode_utf8(sources@[0].1@),
            match r {
                Result::Ok(units) => Option::Some(*units@[0].ast),
                Result::Err(_) => Option::None,
            },
        ),
{
    if sources.len() > 1 {
        return Result::Err(Error::OnFatal("Currently only single file can be compiled".to_owned()));
    }
    let mut units: Vec<TranslationUnit> = Vec::new();
    if sources.len() == 1 {
        let src = &sources[0];
        match parse(&src.0, src.1.as_str()) {
            Result::Ok(tu) => {
                units.push(tu);
            },
            Result::Err(e) => {
                return Result::Err(e);
            },
        }
    }
    Result::Ok(units)
}

} // verus!
