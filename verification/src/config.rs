//! The configuration collaborator: supplies the raw exclusion-list value.

use vstd::prelude::*;

verus! {

/// The error returned when the configuration store cannot supply the raw
/// exclusion-list value.
#[derive(Clone, Copy, PartialEq, Eq, Debug)]
pub enum ConfigError {
    Unreadable,
}

/// The source of the exclusion-list configuration value. An unset entry is
/// signaled as an empty string; a backing store that cannot be read is
/// signaled as `Unreadable`.
pub enum ConfigSource {
    Available { exclusions: String },
    Unreadable,
}

} // verus!
