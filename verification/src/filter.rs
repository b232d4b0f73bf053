//! The log filter.

#[allow(unused_imports)]
use crate::text::text_of;
use vstd::prelude::*;

verus! {

/// `tracing_filter::legacy::Filter`.
#[verifier::external_type_specification]
#[verifier::external_body]
pub struct ExFilter(tracing_filter::legacy::Filter);

/// The rules of a `tracing_filter::legacy::Filter`, as its `Display` text lists them.
pub uninterp spec fn rules_of(filter: tracing_filter::legacy::Filter) -> Seq<char>;

/// What `tracing_filter::legacy::Filter::parse` makes of filter directives: the rules of the filter,
/// and the text of what it has to say about the directives, if it has something to say.
pub uninterp spec fn parsed_filter(directives: Seq<char>) -> (Seq<char>, Option<Seq<char>>);

/// `tracing_filter::legacy::Filter::parse`, with its diagnostics as their `Display` text. The rules
/// of the filter and that text depend on the directives alone. Which rules and which text come out
/// is not said.
#[verifier::external_body]
pub(crate) fn parse_filter(directives: &str) -> (parsed: (
    tracing_filter::legacy::Filter,
    Option<String>,
))
    ensures
        rules_of(parsed.0) == parsed_filter(directives@).0,
        text_of(parsed.1) == parsed_filter(directives@).1,
{
    let (filter, diagnostics) = tracing_filter::legacy::Filter::parse(directives);
    (filter, diagnostics.map(|diagnostics| diagnostics.to_string()))
}

/// The directives that a reset goes back to: those of the environment, if it has any.
pub open spec fn directives_after_reset(environment: Option<Seq<char>>) -> Seq<char> {
    match environment {
        Some(directives) => directives,
        None => "info"@,
    }
}

/// Gives the directives that a reset goes back to.
pub fn reset_directives(environment: Option<String>) -> (directives: String)
    ensures
        directives@ == directives_after_reset(text_of(environment)),
{
    match environment {
        Some(directives) => directives,
        None => "info".to_owned(),
    }
}

/// A reset goes back to the directives of the environment as they are, and to `info` where it has
/// none.
pub proof fn law_reset_goes_back(environment: Option<Seq<char>>)
    ensures
        environment matches Some(directives) ==> directives_after_reset(environment) == directives,
        environment is None ==> directives_after_reset(environment) == "info"@,
{
}

} // verus!
