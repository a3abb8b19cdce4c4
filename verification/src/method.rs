//! The extrapolation methods and their names.

use vstd::prelude::*;
use vstd::string::StringExecFns;
use crate::error::CounterError;

verus! {

/// How a delta or a rate is projected onto the bounds of a summary.
#[derive(Clone, Copy, Debug, PartialEq, Eq, Hash, Structural)]
pub enum Method {
    /// As Prometheus extrapolates the increase of a counter over a range.
    Prometheus,
}

/// What `str::trim` gives for a string: the string without its leading and
/// trailing Unicode white space.
pub uninterp spec fn str_trimmed(s: Seq<char>) -> Seq<char>;

/// What `str::to_lowercase` gives for a string: its Unicode lower case.
pub uninterp spec fn str_lowercased(s: Seq<char>) -> Seq<char>;

/// `str::trim` of the standard library. The result is a function of the
/// string; the contract gives it its name.
#[verifier::external_body]
fn trim(s: &str) -> (r: &str)
    ensures
        r@ == str_trimmed(s@),
{
    s.trim()
}

/// `str::to_lowercase` of the standard library. The result is a function of
/// the string; the contract gives it its name.
#[verifier::external_body]
fn to_lowercase(s: &str) -> (r: String)
    ensures
        r@ == str_lowercased(s@),
{
    s.to_lowercase()
}

/// The method that a normalized name stands for.
pub open spec fn method_named(name: Seq<char>) -> Option<Method> {
    if name == "prometheus"@ {
        Some(Method::Prometheus)
    } else {
        None
    }
}

/// The method that a name stands for once it is trimmed and in lower case.
pub open spec fn spec_as_method(method: Seq<char>) -> Option<Method> {
    method_named(str_lowercased(str_trimmed(method)))
}

/// Looks up a name that is trimmed and in lower case already.
pub fn method_from_normalized(name: &str) -> (r: Option<Method>)
    ensures
        r == method_named(name@),
{
    let known = String::from_str("prometheus");
    let given = String::from_str(name);
    if given == known {
        Some(Method::Prometheus)
    } else {
        None
    }
}

/// Looks up a method by name, whatever its case and the white space round it.
pub fn as_method(method: &str) -> (r: Option<Method>)
    ensures
        r == spec_as_method(method@),
{
    let lowered = to_lowercase(trim(method));
    method_from_normalized(lowered.as_str())
}

/// Looks up a method by name; an unknown name is invalid input.
pub fn method_kind(method: &str) -> (r: Result<Method, CounterError>)
    ensures
        r == match spec_as_method(method@) {
            Some(m) => Ok::<Method, CounterError>(m),
            None => Err::<Method, CounterError>(CounterError::InvalidInput),
        },
{
    match as_method(method) {
        Some(m) => Ok(m),
        None => Err(CounterError::InvalidInput),
    }
}

/// What the user is told of an unknown method name.
pub fn unknown_method_message() -> (s: String)
    ensures
        s@ == "unknown analysis method. Valid methods are 'prometheus'"@,
{
    String::from_str("unknown analysis method. Valid methods are 'prometheus'")
}

} // verus!
