//! Items of the `httparse` crate.

use httparse::Error as ParserFailure;
use httparse::ParserConfig;
use vstd::prelude::*;

verus! {

/// `httparse::Error`.
#[verifier::external_type_specification]
#[verifier::external_body]
pub struct ExHttparseError(ParserFailure);

/// The variants of `httparse::Error`.
#[derive(Debug, Clone, Copy, PartialEq, Eq, Structural)]
pub enum ParserFault {
    Name,
    Value,
    NewLine,
    Status,
    Token,
    TooManyHeaders,
    Version,
}

/// Which variant an `httparse::Error` is.
pub uninterp spec fn parser_fault_of(e: ParserFailure) -> ParserFault;

/// Tells the variants of `httparse::Error` apart.
#[verifier::external_body]
pub(crate) fn parser_fault(e: ParserFailure) -> (fault: ParserFault)
    ensures
        fault == parser_fault_of(e),
{
    match e {
        ParserFailure::HeaderName => ParserFault::Name,
        ParserFailure::HeaderValue => ParserFault::Value,
        ParserFailure::NewLine => ParserFault::NewLine,
        ParserFailure::Status => ParserFault::Status,
        ParserFailure::Token => ParserFault::Token,
        ParserFailure::TooManyHeaders => ParserFault::TooManyHeaders,
        ParserFailure::Version => ParserFault::Version,
    }
}

/// `httparse::ParserConfig`.
#[verifier::external_type_specification]
#[verifier::external_body]
pub struct ExParserConfig(ParserConfig);

/// What a parser lets pass in responses.
#[derive(Debug, Clone, Copy, PartialEq, Eq, Structural)]
pub struct ParserLeniency {
    /// Spaces between a header name and its colon.
    pub spaces_after_header_name: bool,
    /// Header values that go on in the next line.
    pub obsolete_multiline_headers: bool,
    /// Header lines that are invalid, which are left out.
    pub invalid_headers: bool,
}

/// What a parser of this configuration lets pass in responses.
pub uninterp spec fn leniency_of(c: ParserConfig) -> ParserLeniency;

/// `Default for ParserConfig`: nothing is let pass.
#[verifier::external_body]
pub(crate) fn parser_config_new() -> (c: ParserConfig)
    ensures
        leniency_of(c) == (ParserLeniency {
            spaces_after_header_name: false,
            obsolete_multiline_headers: false,
            invalid_headers: false,
        }),
{
    ParserConfig::default()
}

/// `Clone for ParserConfig`: the same configuration.
#[verifier::external_body]
pub(crate) fn parser_config_clone(c: &ParserConfig) -> (r: ParserConfig)
    ensures
        leniency_of(r) == leniency_of(*c),
{
    c.clone()
}

/// `ParserConfig::allow_spaces_after_header_name_in_responses`.
#[verifier::external_body]
pub(crate) fn parser_allow_spaces(c: &mut ParserConfig, value: bool)
    ensures
        leniency_of(*final(c)) == (ParserLeniency {
            spaces_after_header_name: value,
            ..leniency_of(*old(c))
        }),
{
    c.allow_spaces_after_header_name_in_responses(value);
}

/// `ParserConfig::allow_obsolete_multiline_headers_in_responses`.
#[verifier::external_body]
pub(crate) fn parser_allow_multiline(c: &mut ParserConfig, value: bool)
    ensures
        leniency_of(*final(c)) == (ParserLeniency {
            obsolete_multiline_headers: value,
            ..leniency_of(*old(c))
        }),
{
    c.allow_obsolete_multiline_headers_in_responses(value);
}

/// `ParserConfig::ignore_invalid_headers_in_responses`.
#[verifier::external_body]
pub(crate) fn parser_ignore_invalid(c: &mut ParserConfig, value: bool)
    ensures
        leniency_of(*final(c)) == (ParserLeniency {
            invalid_headers: value,
            ..leniency_of(*old(c))
        }),
{
    c.ignore_invalid_headers_in_responses(value);
}

} // verus!
