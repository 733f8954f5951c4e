//! What the command line decides between reading its input and writing
//! its output.

use vstd::prelude::*;
use crate::http::HTTP;
use crate::parser::{do_parse, parse_outcome, ClippingView, ParseFailure, ParseFailureView,
    TClippingItem, outcome_view, NOTHING};
use crate::pattern::{regex_compiles, regex_replace_all, replace_all, Pattern};
use crate::text::{chars_of, matches_at, starts_with, string_of, trim, trimmed};

verus! {

/// The byte-order mark, as the expression engine is asked for it.
pub const BYTE_ORDER_MARK_PATTERN: &'static str = r"\u{feff}";

/// Where the parsed records go.
#[derive(Debug, Clone, Copy, PartialEq, Eq, Structural)]
pub enum OutputTarget {
    /// To the standard output, as JSON.
    Stdout,
    /// To the service.
    Service,
    /// To the file the argument names, as JSON.
    File,
}

/// Where records go for an output argument: nowhere named means the
/// standard output, an argument that begins with `http` means the service,
/// anything else names a file.
pub open spec fn target_of(output: Seq<char>) -> OutputTarget {
    if output.len() == 0 {
        OutputTarget::Stdout
    } else if starts_with(output, HTTP@) {
        OutputTarget::Service
    } else {
        OutputTarget::File
    }
}

/// Where records go for an output argument.
pub fn output_target(output: &str) -> (target: OutputTarget)
    ensures
        target == target_of(output@),
{
    let chars = chars_of(output);
    let http = chars_of(HTTP);
    if chars.len() == 0 {
        OutputTarget::Stdout
    } else if matches_at(chars.as_slice(), http.as_slice(), 0) {
        OutputTarget::Service
    } else {
        OutputTarget::File
    }
}

/// Raw input as the parser takes it: every byte-order mark removed, then
/// trimmed.
pub open spec fn prepared(raw: Seq<char>) -> Seq<char> {
    trimmed(regex_replace_all(BYTE_ORDER_MARK_PATTERN@, raw, NOTHING@))
}

/// What parsing raw input yields.
pub open spec fn export_outcome(raw: Seq<char>) -> Result<Seq<ClippingView>, ParseFailureView> {
    if !regex_compiles(BYTE_ORDER_MARK_PATTERN@) {
        Err(ParseFailureView::PatternRejected { pattern: BYTE_ORDER_MARK_PATTERN@ })
    } else {
        parse_outcome(prepared(raw))
    }
}

/// Raw input as the parser takes it.
pub fn prepare_input(raw: &str) -> (r: Result<String, ParseFailure>)
    ensures
        r is Ok <==> regex_compiles(BYTE_ORDER_MARK_PATTERN@),
        r matches Ok(text) ==> text@ == prepared(raw@),
        r matches Err(e) ==> e@ == (ParseFailureView::PatternRejected {
            pattern: BYTE_ORDER_MARK_PATTERN@,
        }),
{
    let marks = match Pattern::new(BYTE_ORDER_MARK_PATTERN) {
        Ok(marks) => marks,
        Err(rejected) => {
            return Err(ParseFailure::PatternRejected { pattern: rejected.source });
        },
    };
    let unmarked = replace_all(&marks, raw, NOTHING);
    let chars = chars_of(unmarked.as_str());
    let text = trim(chars.as_slice());
    Ok(string_of(text.as_slice()))
}

/// Parses raw input: prepares it, then parses what is left.
pub fn parse_export(raw: &str) -> (r: Result<Vec<TClippingItem>, ParseFailure>)
    ensures
        outcome_view(r) == export_outcome(raw@),
        r matches Ok(items) ==> forall|i: int|
            0 <= i < items.len() ==> (#[trigger] items[i]).is_well_formed(),
{
    match prepare_input(raw) {
        Ok(text) => do_parse(text.as_str()),
        Err(e) => Err(e),
    }
}

} // verus!
