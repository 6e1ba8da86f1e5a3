use vstd::prelude::*;

verus! {

/// Which byte of a transfer the target declined to acknowledge.
#[derive(Debug, PartialEq, Eq, Clone, Copy, Structural)]
pub enum NoAcknowledgeSource {
    /// The address byte was not acknowledged.
    Address,
    /// A data byte was not acknowledged.
    Data,
    /// Not known which byte was not acknowledged.
    Unknown,
}

/// The kinds of bus error a controller can observe.
#[derive(Debug, PartialEq, Eq, Clone, Copy, Structural)]
pub enum ErrorKind {
    /// A protocol violation on the bus.
    Bus,
    /// Arbitration towards another controller was lost.
    ArbitrationLoss,
    /// The target did not acknowledge a byte.
    NoAcknowledge(NoAcknowledgeSource),
    /// A data overrun or underrun.
    Overrun,
    /// Any other failure: the peer went away or the transfer was abandoned.
    Other,
}

} // verus!
