use vstd::prelude::*;

verus! {

/// How a filesystem operation failed: a missing file is often recoverable
/// (a candidate rule that does not exist, a target that is yet to be built),
/// while any other failure is fatal.
#[derive(Debug, PartialEq, Eq, Structural)]
pub enum IoKind {
    NotFound,
    Other,
}

/// Everything that can go wrong while building one target.
#[derive(Debug)]
pub enum BuildError {
    /// No rule file was found for the target anywhere up the ancestor chain.
    RuleNotFound { target: String },
    /// A path could not be decomposed as the rule machinery needs
    /// (no filename component, or text the matcher cannot compare).
    PathEncoding { detail: String },
    /// The rule script exited with a non-zero status.
    ScriptFailed { dofile: String, code: Option<i32> },
    /// The rule script wrote both to standard output and to its named
    /// output file; the two result channels are mutually exclusive.
    DualOutput { dofile: String },
    /// A filesystem operation failed.
    Io { kind: IoKind, detail: String },
    /// A persisted build record could not be decoded.
    StateDecode { path: String },
}

impl BuildError {
    /// True exactly for the `Io` variant whose kind is `NotFound`.
    pub open spec fn is_not_found(&self) -> bool {
        match self {
            BuildError::Io { kind, .. } => kind is NotFound,
            _ => false,
        }
    }
}

/// Turns "the file was absent" into a recoverable `None`, and keeps every
/// other outcome as it was: a present value stays `Ok(Some(..))`, and any
/// failure other than not-found stays fatal.
pub fn optionally_exists<T>(r: Result<T, BuildError>) -> (res: Result<Option<T>, BuildError>)
    ensures
        match r {
            Ok(v) => res == Ok::<Option<T>, BuildError>(Some(v)),
            Err(e) => {
                if e.is_not_found() {
                    res == Ok::<Option<T>, BuildError>(None::<T>)
                } else {
                    res == Err::<Option<T>, BuildError>(e)
                }
            },
        },
{
    match r {
        Ok(v) => Ok(Some(v)),
        Err(e) => {
            let not_found = match &e {
                BuildError::Io { kind: IoKind::NotFound, .. } => true,
                _ => false,
            };
            if not_found {
                Ok(None)
            } else {
                Err(e)
            }
        },
    }
}

} // verus!
