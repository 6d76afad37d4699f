//! The expander driver: parses the header once, detects a local repeat
//! region once, then instantiates and concatenates.
//!
//! When a marker was found anywhere in the body, the scan's rewriting is the
//! result: material outside the marked regions appears exactly once, with
//! the repeats spliced in where each marker group stood.  Otherwise the
//! whole body is the template and the result is its instantiations alone —
//! an empty range then yields an empty output.

use vstd::prelude::*;

use crate::header::parse_header;
use crate::header::parse_header_spec;
use crate::header::Diagnostic;
use crate::header::HeaderV;
use crate::header::RangeSpecV;
use crate::scope::expand_marked;
use crate::scope::scan_from;
use crate::subst::effective_end;
use crate::subst::expand_range;
use crate::subst::repeat_range;
use crate::token::tokens_view;
use crate::token::Token;
use crate::token::TokenV;

verus! {

/// What the driver makes of a parsed body: the scan's rewriting when some
/// marker was found, the instantiations of the whole body otherwise.
pub open spec fn spec_expand_body(body: Seq<TokenV>, rspec: RangeSpecV) -> Seq<TokenV> {
    let hi = effective_end(rspec.end, rspec.inclusive);
    let s = scan_from(body, 0, false, rspec.var_name, rspec.start as int, hi);
    if s.0 {
        s.1
    } else {
        repeat_range(body, rspec.var_name, rspec.start as int, hi)
    }
}

/// Expands one whole invocation: header, scope detection, instantiation.
/// A header failure yields its diagnostic and no partial output.
pub fn expand(input: &Vec<Token>) -> (r: Result<Vec<Token>, Diagnostic>)
    ensures
        match parse_header_spec(tokens_view(input@)) {
            HeaderV::Parsed { rspec, body } => r matches Ok(out) && tokens_view(out@)
                == spec_expand_body(body, rspec),
            HeaderV::Failed { kind, pos } => r matches Err(d) && d == (Diagnostic { kind, pos }),
        },
{
    match parse_header(input) {
        Err(d) => Err(d),
        Ok((rspec, body)) => {
            let (found, rewritten) = expand_marked(
                &body,
                &rspec.var_name,
                rspec.start,
                rspec.end,
                rspec.inclusive,
            );
            if found {
                Ok(rewritten)
            } else {
                Ok(expand_range(&body, &rspec.var_name, rspec.start, rspec.end, rspec.inclusive))
            }
        },
    }
}

} // verus!
