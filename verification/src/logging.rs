//! Log filters for the command-line front end.
use vstd::prelude::*;
use tracing_subscriber::EnvFilter;

verus! {

#[verifier::external_type_specification]
#[verifier::external_body]
pub struct ExEnvFilter(tracing_subscriber::EnvFilter);

/// The format of the diagnostic log.
#[derive(Debug, Clone, Copy, PartialEq, Eq, Structural)]
pub enum LogOutput {
    Text,
    Json,
}

/// The message of the error `tracing_subscriber::EnvFilter::try_new` returns
/// for `directives`; `None` when they parse.
pub uninterp spec fn env_filter_parse_error(directives: Seq<char>) -> Option<Seq<char>>;

/// Parses `directives` with `tracing_subscriber::EnvFilter::try_new`; on
/// failure returns the parse error's message (its `Display` text).
/// Claimed: the outcome is [`env_filter_parse_error`] of the directives.
#[verifier::external_body]
fn env_filter_try_new(directives: &str) -> (r: Result<EnvFilter, String>)
    ensures
        match r {
            Ok(_) => env_filter_parse_error(directives@) is None,
            Err(m) => env_filter_parse_error(directives@) == Some(m@),
        },
{
    EnvFilter::try_new(directives).map_err(|e| e.to_string())
}

/// Builds a log filter from a verbosity string in `tracing` directive
/// syntax (`"warn"`, `"debug"`, `"sanctifier=trace,warn"`, ...) without
/// touching global state; an invalid string gives
/// `invalid log filter '<verbosity>': <reason>`.
pub fn make_filter(verbosity: &str) -> (r: Result<EnvFilter, String>)
    ensures
        match env_filter_parse_error(verbosity@) {
            None => r is Ok,
            Some(e) => r matches Err(m) && m@ == "invalid log filter '"@ + verbosity@ + "': "@ + e,
        },
{
    match env_filter_try_new(verbosity) {
        Ok(f) => Ok(f),
        Err(e) => {
            let m1 = crate::text::concat("invalid log filter '", verbosity);
            let m2 = crate::text::concat(m1.as_str(), "': ");
            Err(crate::text::concat(m2.as_str(), e.as_str()))
        },
    }
}

} // verus!
