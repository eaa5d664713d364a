//! The texts of failures.

use vstd::prelude::*;

verus! {

/// What failed and why.
pub open spec fn with_cause(context: Seq<char>, cause: Seq<char>) -> Seq<char> {
    context + ": "@ + cause
}

/// What failed and why.
pub fn describe_failure(context: &str, cause: &str) -> (r: String)
    ensures
        r@ == with_cause(context@, cause@),
{
    let mut out: String = context.to_string();
    out.append(": ");
    out.append(cause);
    out
}

/// The text of a failure is what failed, a colon and a space, and the whole cause.
pub proof fn law_failure_keeps_context_and_cause(context: Seq<char>, cause: Seq<char>)
    ensures
        with_cause(context, cause) == context + ": "@ + cause,
        context.is_prefix_of(with_cause(context, cause)),
        cause.is_suffix_of(with_cause(context, cause)),
        with_cause(context, cause).len() == context.len() + 2 + cause.len(),
{
    reveal_strlit(": ");
}

} // verus!
