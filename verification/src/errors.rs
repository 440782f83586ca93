//! Errors of the Surrealism runtime, and how context is prefixed to them.

use vstd::prelude::*;
use vstd::string::*;
use crate::text::owned;

verus! {

/// An error of the Surrealism runtime.
pub enum SurrealismError {
    /// A call into the module failed.
    FunctionCallError(String),
    /// The module ran out of time; the durations are in milliseconds.
    Timeout { effective: Option<u64>, context_timeout: Option<u64>, module_limit: Option<u64> },
    /// The module targets another ABI version.
    UnsupportedAbi { expected: u32, got: u32 },
    /// An integer did not fit its target type.
    IntConversion,
    /// Any other error, with its message.
    Other(String),
}

/// The message of an error prefixed with context: `{prefix}: {error}`.
pub open spec fn prefixed(prefix: Seq<char>, error: Seq<char>) -> Seq<char> {
    prefix + ": "@ + error
}

/// Turns a failed result into a runtime error whose message is the context
/// `prefix` followed by the original error's message; a success passes
/// through.
pub fn prefix_err<T>(r: Result<T, String>, prefix: &str) -> (out: Result<T, SurrealismError>)
    ensures
        match r {
            Ok(v) => out matches Ok(w) && w == v,
            Err(e) => out matches Err(SurrealismError::Other(m)) && m@ == prefixed(prefix@, e@),
        },
{
    match r {
        Ok(v) => Ok(v),
        Err(e) => {
            let mut m = owned(prefix);
            m.append(": ");
            m.append(e.as_str());
            Err(SurrealismError::Other(m))
        },
    }
}

} // verus!
