//! Conversion of Markdown documents to the Norg markup format.
//!
//! The Markdown is read into a stream of events by `pulldown_cmark`; every
//! decision about what Norg text an event produces is made by verified code
//! in `convert`, against the specification there.
pub mod cli;
pub mod convert;
pub mod events;
pub mod meta;
pub mod text;

use vstd::prelude::*;

verus! {

/// Converts the Markdown document `input` to Norg text. It never fails.
pub fn convert(input: &str) -> (r: Result<String, std::convert::Infallible>)
    ensures
        r matches Ok(s) && s@ == convert::convert_spec(input@),
{
    Ok(convert::convert_markdown(input))
}

} // verus!
