use vstd::prelude::*;

verus! {

/// Why generating or recovering the keys stopped.
#[derive(Clone, Copy, Debug, PartialEq, Eq, Structural)]
pub enum KeyError {
    /// `t` or `n` is missing, or they do not satisfy 1 <= t <= n.
    Config,
    /// The target path exists when generating, or is missing when recovering.
    PathState,
    /// A participant finished the key generation with another group key than the others.
    GroupKeyMismatch,
    /// A cryptographic check inside a round of key generation failed.
    CryptoFailure,
    /// A participant reported work out of the order of the protocol's rounds.
    OutOfOrder,
    /// Fewer distinct participants than the threshold asks for.
    InsufficientShares,
    /// The records disagree on the threshold or on the number of participants.
    MismatchedParams,
    /// A record could not be decoded, or carries parameters that are not valid.
    MalformedRecord,
    /// Keys read back after writing differ from the keys that were written.
    RoundTrip,
}

} // verus!
