//! The location value the acquisition paths produce.

use vstd::prelude::*;

verus! {

/// A fix: position in 1e-10 degrees, accuracy as a radius in 1e-6 meters,
/// and the time of the fix in milliseconds since the Unix epoch.
#[derive(Debug, Clone, Copy, PartialEq, Eq, Structural)]
pub struct Location {
    pub latitude: i64,
    pub longitude: i64,
    pub accuracy: i64,
    pub unix_timestamp_millis: i64,
}

} // verus!
