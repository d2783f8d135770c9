use vstd::prelude::*;

verus! {

/// Why the provider's payload did not match the expected schema.
#[derive(Clone, Copy, Debug, PartialEq, Eq, Structural)]
pub enum ShapeIssue {
    /// The response body is not JSON shaped as an object whose `choices`
    /// array holds objects with a `message.content` string.
    MalformedBody,
    /// The `choices` array holds no entry.
    NoChoices,
    /// The first choice's `content` string is itself not parseable JSON.
    ContentNotJson,
    /// The `translations` field is absent or not an array.
    TranslationsMissing,
}

/// How a translation run can fail.  Every variant is fatal: nothing is
/// retried and no partial result is applied.
#[derive(Clone, Copy, Debug, PartialEq, Eq, Structural)]
pub enum TranslateError {
    /// The provider credential is missing: a precondition checked before
    /// any network call.
    Authorization,
    /// The network exchange with the provider failed.
    Transport,
    /// The provider answered, but its payload does not match the schema.
    ResponseShape(ShapeIssue),
}

} // verus!
