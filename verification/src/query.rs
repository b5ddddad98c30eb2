//! Asking the store which versions of a component it holds.

use vstd::prelude::*;
use vstd::string::*;
use crate::errors::CliError;
use crate::names::same_text;

verus! {

/// The lower-case form of a text.
pub uninterp spec fn lowercase_text(s: Seq<char>) -> Seq<char>;

/// Lowers a text with `str::to_lowercase`. Trusted: the result is the lower-case
/// form of the text by the Unicode rules and depends on nothing else.
#[verifier::external_body]
fn to_lower(s: &str) -> (r: String)
    ensures
        r@ == lowercase_text(s@),
{
    s.to_lowercase()
}

/// What a query asks the store for.
#[derive(Debug, PartialEq, Eq)]
pub struct QueryPlan {
    /// The environment to look in.
    pub env: String,
    /// Whether only the newest version is wanted, rather than all of them.
    pub last: bool,
}

/// Checks a query, given the lower-case form of the component's name. A name
/// that differs from its lower-case form is refused, then a missing environment.
pub fn check_query(env: Option<&str>, component: &str, lowered: &str, last: bool) -> (r: Result<QueryPlan, CliError>)
    ensures
        match r {
            Ok(plan) => lowered@ == component@ && (env matches Some(e) && plan.env@ == e@) && plan.last == last,
            Err(CliError::InvalidComponentName(n)) => lowered@ != component@ && n@ == component@,
            Err(CliError::EnvironmentUnspecified) => lowered@ == component@ && env is None,
            Err(_) => false,
        },
{
    if !same_text(lowered, component) {
        return Err(CliError::InvalidComponentName(String::from_str(component)));
    }
    match env {
        None => Err(CliError::EnvironmentUnspecified),
        Some(e) => Ok(QueryPlan { env: String::from_str(e), last }),
    }
}

/// Checks a query for the versions of `component`: the name must be in lower
/// case and the environment must be given.
pub fn query(env: Option<&str>, component: &str, last: bool) -> (r: Result<QueryPlan, CliError>)
    ensures
        match r {
            Ok(plan) => lowercase_text(component@) == component@ && (env matches Some(e) && plan.env@ == e@)
                && plan.last == last,
            Err(CliError::InvalidComponentName(n)) => lowercase_text(component@) != component@ && n@ == component@,
            Err(CliError::EnvironmentUnspecified) => lowercase_text(component@) == component@ && env is None,
            Err(_) => false,
        },
{
    let lowered = to_lower(component);
    check_query(env, component, lowered.as_str(), last)
}

} // verus!
