use crate::address::AnyAddress;
use vstd::prelude::*;
use vstd::std_specs::convert::FromSpecImpl;

verus! {

/// What a target observes when it listens on the bus.
///
/// A `Read` or `Write` carries a handler; the address byte is acknowledged
/// by the first call on the handler, and not acknowledged when the handler is
/// released unused.
pub enum Transaction<R, W> {
    /// A stop, or a restart towards another target, happened since the last
    /// reported transaction.
    Deselect,
    /// The controller addressed this target for reading.
    Read { address: AnyAddress, handler: R },
    /// The controller addressed this target for writing.
    Write { address: AnyAddress, handler: W },
}

/// What a target observes when it listens expecting a read.
pub enum TransactionExpectRead<R, W> {
    /// The expected read was served entirely from the bytes provided.
    ExpectedCompleteRead { size: usize },
    /// The expected read took all bytes provided and the controller wants more.
    ExpectedPartialRead { handler: R },
    /// A stop, or a restart towards another target, happened.
    Deselect,
    /// A read that was not the expected one.
    Read { address: AnyAddress, handler: R },
    /// A write.
    Write { address: AnyAddress, handler: W },
}

/// What a target observes when it listens expecting a write.
pub enum TransactionExpectWrite<R, W> {
    /// The expected write ended within the buffer; every byte was acknowledged.
    ExpectedCompleteWrite { size: usize },
    /// The expected write filled the buffer; its last byte awaits a decision.
    ExpectedPartialWrite { handler: W },
    /// A stop, or a restart towards another target, happened.
    Deselect,
    /// A read.
    Read { address: AnyAddress, handler: R },
    /// A write that was not the expected one.
    Write { address: AnyAddress, handler: W },
}

/// The union of the expecting yields, for targets that expect either direction.
pub enum TransactionExpectEither<R, W> {
    ExpectedCompleteRead { size: usize },
    ExpectedPartialRead { handler: R },
    ExpectedCompleteWrite { size: usize },
    ExpectedPartialWrite { handler: W },
    Deselect,
    Read { address: AnyAddress, handler: R },
    Write { address: AnyAddress, handler: W },
}

/// Outcome of handing a part of a read to the controller.
pub enum ReadResult<R> {
    /// All bytes were taken and the controller wants more.
    Partial(R),
    /// The controller ended the read after taking this many of the bytes.
    Complete(usize),
}

/// Outcome of receiving a part of a write from the controller.
pub enum WriteResult<W> {
    /// The buffer was filled; all but its last byte are acknowledged.
    Partial(W),
    /// The controller ended the write after this many bytes, all acknowledged.
    Complete(usize),
}

/// A listen result seen as an expecting-read result: each variant keeps its fields.
pub open spec fn expect_read_of<R, W>(v: Transaction<R, W>) -> TransactionExpectRead<R, W> {
    match v {
        Transaction::Deselect => TransactionExpectRead::Deselect,
        Transaction::Read { address, handler } => TransactionExpectRead::Read { address, handler },
        Transaction::Write { address, handler } => TransactionExpectRead::Write { address, handler },
    }
}

impl<R, W> From<Transaction<R, W>> for TransactionExpectRead<R, W> {
    fn from(v: Transaction<R, W>) -> (r: Self)
        ensures
            r == expect_read_of(v),
    {
        match v {
            Transaction::Deselect => TransactionExpectRead::Deselect,
            Transaction::Read { address, handler } => TransactionExpectRead::Read { address, handler },
            Transaction::Write { address, handler } => TransactionExpectRead::Write { address, handler },
        }
    }
}

impl<R, W> FromSpecImpl<Transaction<R, W>> for TransactionExpectRead<R, W> {
    open spec fn obeys_from_spec() -> bool {
        true
    }

    open spec fn from_spec(v: Transaction<R, W>) -> Self {
        expect_read_of(v)
    }
}

/// A listen result seen as an expecting-write result: each variant keeps its fields.
pub open spec fn expect_write_of<R, W>(v: Transaction<R, W>) -> TransactionExpectWrite<R, W> {
    match v {
        Transaction::Deselect => TransactionExpectWrite::Deselect,
        Transaction::Read { address, handler } => TransactionExpectWrite::Read { address, handler },
        Transaction::Write { address, handler } => TransactionExpectWrite::Write { address, handler },
    }
}

impl<R, W> From<Transaction<R, W>> for TransactionExpectWrite<R, W> {
    fn from(v: Transaction<R, W>) -> (r: Self)
        ensures
            r == expect_write_of(v),
    {
        match v {
            Transaction::Deselect => TransactionExpectWrite::Deselect,
            Transaction::Read { address, handler } => TransactionExpectWrite::Read { address, handler },
            Transaction::Write { address, handler } => TransactionExpectWrite::Write { address, handler },
        }
    }
}

impl<R, W> FromSpecImpl<Transaction<R, W>> for TransactionExpectWrite<R, W> {
    open spec fn obeys_from_spec() -> bool {
        true
    }

    open spec fn from_spec(v: Transaction<R, W>) -> Self {
        expect_write_of(v)
    }
}

/// A listen result seen as an expecting-either result: each variant keeps its fields.
pub open spec fn either_of<R, W>(v: Transaction<R, W>) -> TransactionExpectEither<R, W> {
    match v {
        Transaction::Deselect => TransactionExpectEither::Deselect,
        Transaction::Read { address, handler } => TransactionExpectEither::Read { address, handler },
        Transaction::Write { address, handler } => TransactionExpectEither::Write { address, handler },
    }
}

impl<R, W> From<Transaction<R, W>> for TransactionExpectEither<R, W> {
    fn from(v: Transaction<R, W>) -> (r: Self)
        ensures
            r == either_of(v),
    {
        match v {
            Transaction::Deselect => TransactionExpectEither::Deselect,
            Transaction::Read { address, handler } => TransactionExpectEither::Read { address, handler },
            Transaction::Write { address, handler } => TransactionExpectEither::Write { address, handler },
        }
    }
}

impl<R, W> FromSpecImpl<Transaction<R, W>> for TransactionExpectEither<R, W> {
    open spec fn obeys_from_spec() -> bool {
        true
    }

    open spec fn from_spec(v: Transaction<R, W>) -> Self {
        either_of(v)
    }
}

/// An expecting-read result seen as an expecting-either result: each variant keeps its fields.
pub open spec fn either_of_read<R, W>(v: TransactionExpectRead<R, W>) -> TransactionExpectEither<R, W> {
    match v {
        TransactionExpectRead::ExpectedCompleteRead { size } => TransactionExpectEither::ExpectedCompleteRead { size },
        TransactionExpectRead::ExpectedPartialRead { handler } => TransactionExpectEither::ExpectedPartialRead { handler },
        TransactionExpectRead::Deselect => TransactionExpectEither::Deselect,
        TransactionExpectRead::Read { address, handler } => TransactionExpectEither::Read { address, handler },
        TransactionExpectRead::Write { address, handler } => TransactionExpectEither::Write { address, handler },
    }
}

impl<R, W> From<TransactionExpectRead<R, W>> for TransactionExpectEither<R, W> {
    fn from(v: TransactionExpectRead<R, W>) -> (r: Self)
        ensures
            r == either_of_read(v),
    {
        match v {
            TransactionExpectRead::ExpectedCompleteRead { size } => TransactionExpectEither::ExpectedCompleteRead { size },
            TransactionExpectRead::ExpectedPartialRead { handler } => TransactionExpectEither::ExpectedPartialRead { handler },
            TransactionExpectRead::Deselect => TransactionExpectEither::Deselect,
            TransactionExpectRead::Read { address, handler } => TransactionExpectEither::Read { address, handler },
            TransactionExpectRead::Write { address, handler } => TransactionExpectEither::Write { address, handler },
        }
    }
}

impl<R, W> FromSpecImpl<TransactionExpectRead<R, W>> for TransactionExpectEither<R, W> {
    open spec fn obeys_from_spec() -> bool {
        true
    }

    open spec fn from_spec(v: TransactionExpectRead<R, W>) -> Self {
        either_of_read(v)
    }
}

/// An expecting-write result seen as an expecting-either result: each variant keeps its fields.
pub open spec fn either_of_write<R, W>(v: TransactionExpectWrite<R, W>) -> TransactionExpectEither<R, W> {
    match v {
        TransactionExpectWrite::ExpectedCompleteWrite { size } => TransactionExpectEither::ExpectedCompleteWrite { size },
        TransactionExpectWrite::ExpectedPartialWrite { handler } => TransactionExpectEither::ExpectedPartialWrite { handler },
        TransactionExpectWrite::Deselect => TransactionExpectEither::Deselect,
        TransactionExpectWrite::Read { address, handler } => TransactionExpectEither::Read { address, handler },
        TransactionExpectWrite::Write { address, handler } => TransactionExpectEither::Write { address, handler },
    }
}

impl<R, W> From<TransactionExpectWrite<R, W>> for TransactionExpectEither<R, W> {
    fn from(v: TransactionExpectWrite<R, W>) -> (r: Self)
        ensures
            r == either_of_write(v),
    {
        match v {
            TransactionExpectWrite::ExpectedCompleteWrite { size } => TransactionExpectEither::ExpectedCompleteWrite { size },
            TransactionExpectWrite::ExpectedPartialWrite { handler } => TransactionExpectEither::ExpectedPartialWrite { handler },
            TransactionExpectWrite::Deselect => TransactionExpectEither::Deselect,
            TransactionExpectWrite::Read { address, handler } => TransactionExpectEither::Read { address, handler },
            TransactionExpectWrite::Write { address, handler } => TransactionExpectEither::Write { address, handler },
        }
    }
}

impl<R, W> FromSpecImpl<TransactionExpectWrite<R, W>> for TransactionExpectEither<R, W> {
    open spec fn obeys_from_spec() -> bool {
        true
    }

    open spec fn from_spec(v: TransactionExpectWrite<R, W>) -> Self {
        either_of_write(v)
    }
}

} // verus!
