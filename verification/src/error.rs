//! The ways in which the serializer gives up.

use vstd::prelude::*;

verus! {

/// A failure that ends the serializer.
#[derive(Debug, Clone, Copy, PartialEq, Eq, Structural)]
pub enum Error {
    /// The collector channel has no sender left.
    Collector,
    /// The MQTT client failed in a way that no mode recovers from.
    Client,
    /// A spool operation was asked for, and no spool is configured.
    MissingPersistence,
    /// The configuration names no stream for the metrics.
    MissingMetrics,
}

} // verus!
