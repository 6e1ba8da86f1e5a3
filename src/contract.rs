//! The target side of the bus as a contract that any target device meets:
//! the simulator's `SimTarget` implements it, with stronger contracts of its
//! own.
use crate::address::AnyAddress;
use crate::error::ErrorKind;
use crate::model::{heard, overlay, Heard};
use crate::transaction::{
    ReadResult, Transaction, TransactionExpectEither, TransactionExpectRead, TransactionExpectWrite,
    WriteResult,
};
use vstd::prelude::*;

verus! {

/// The event an expecting-read result reports as `listen` would, or `None`
/// for the expected read itself.
pub open spec fn reported_by_expect_read<R, W>(t: TransactionExpectRead<R, W>) -> Option<Heard> {
    match t {
        TransactionExpectRead::Deselect => Some(Heard::Deselect),
        TransactionExpectRead::Read { address, .. } => Some(Heard::Read(address)),
        TransactionExpectRead::Write { address, .. } => Some(Heard::Write(address)),
        _ => None,
    }
}

/// The event an expecting-write result reports as `listen` would, or `None`
/// for the expected write itself.
pub open spec fn reported_by_expect_write<R, W>(t: TransactionExpectWrite<R, W>) -> Option<Heard> {
    match t {
        TransactionExpectWrite::Deselect => Some(Heard::Deselect),
        TransactionExpectWrite::Read { address, .. } => Some(Heard::Read(address)),
        TransactionExpectWrite::Write { address, .. } => Some(Heard::Write(address)),
        _ => None,
    }
}

/// The event an expecting-either result reports as `listen` would, or `None`
/// for an expected read or write.
pub open spec fn reported_by_expect_either<R, W>(t: TransactionExpectEither<R, W>) -> Option<
    Heard,
> {
    match t {
        TransactionExpectEither::Deselect => Some(Heard::Deselect),
        TransactionExpectEither::Read { address, .. } => Some(Heard::Read(address)),
        TransactionExpectEither::Write { address, .. } => Some(Heard::Write(address)),
        _ => None,
    }
}

/// Handler of a read the controller addressed to a target.
///
/// Its first call acknowledges the address; released unused, the address is
/// not acknowledged. Released after use, the rest of the read gets an
/// overrun byte the device chooses.
pub trait ReadTransaction: Sized {
    /// The handler may still be used.
    spec fn live(&self) -> bool;

    /// The number of bytes the controller still reads.
    spec fn wanted(&self) -> nat;

    /// Hands `buffer` to the controller: `Complete(n)` when the read ended
    /// after `n` of its bytes, `Partial` when all were taken and the
    /// controller wants more. An empty `buffer` changes nothing.
    fn handle_part(self, buffer: &[u8]) -> (r: Result<ReadResult<Self>, ErrorKind>)
        requires
            self.live(),
        ensures
            r matches Ok(ReadResult::Partial(h)) ==> {
                &&& h.live()
                &&& buffer@.len() == 0 || buffer@.len() < self.wanted()
                &&& h.wanted() == self.wanted() - buffer@.len()
            },
            r matches Ok(ReadResult::Complete(n)) ==> {
                &&& buffer@.len() > 0
                &&& self.wanted() <= buffer@.len()
                &&& n == self.wanted()
            },
    ;

    /// Hands `buffer` to the controller and then `ovc`, a byte at a time,
    /// until it stops reading; returns the number of bytes it took.
    fn handle_complete(self, buffer: &[u8], ovc: u8) -> (r: Result<usize, ErrorKind>)
        requires
            self.live(),
            self.wanted() <= usize::MAX,
        ensures
            r matches Ok(n) ==> n == self.wanted(),
    {
        match self.handle_part(buffer) {
            Ok(ReadResult::Complete(size)) => Ok(size),
            Ok(ReadResult::Partial(first)) => {
                let mut this = first;
                let mut total: usize = buffer.len();
                let one: [u8; 1] = [ovc];
                loop
                    invariant
                        this.live(),
                        total + this.wanted() == self.wanted(),
                        self.wanted() <= usize::MAX,
                        one@.len() == 1,
                    decreases this.wanted(),
                {
                    match this.handle_part(&one) {
                        Ok(ReadResult::Complete(extra)) => {
                            return Ok(total + extra);
                        },
                        Ok(ReadResult::Partial(h)) => {
                            this = h;
                            total = total + 1;
                        },
                        Err(e) => {
                            return Err(e);
                        },
                    }
                }
            },
            Err(e) => Err(e),
        }
    }

    /// Lets the handler go.
    fn release(self)
        requires
            self.live(),
    ;
}

/// Handler of a write the controller addressed to a target.
///
/// Its first call acknowledges the address; released unused, the address is
/// not acknowledged, and released while holding a byte, that byte is not.
pub trait WriteTransaction: Sized {
    /// The handler may still be used.
    spec fn live(&self) -> bool;

    /// The bytes the controller still writes.
    spec fn pending(&self) -> Seq<u8>;

    /// Receives into `buffer`: `Complete(n)` when the write ended after `n`
    /// bytes, all acknowledged; `Partial` when `buffer` is full and its last
    /// byte waits for the next call. An empty `buffer` changes nothing.
    fn handle_part(self, buffer: &mut [u8]) -> (r: Result<WriteResult<Self>, ErrorKind>)
        requires
            self.live(),
        ensures
            final(buffer)@.len() == old(buffer)@.len(),
            r matches Ok(WriteResult::Partial(h)) ==> {
                &&& h.live()
                &&& old(buffer)@.len() <= self.pending().len()
                &&& final(buffer)@ == self.pending().take(old(buffer)@.len() as int)
                &&& h.pending() == self.pending().skip(old(buffer)@.len() as int)
            },
            r matches Ok(WriteResult::Complete(n)) ==> {
                &&& n == self.pending().len()
                &&& n < old(buffer)@.len()
                &&& final(buffer)@ == overlay(self.pending(), old(buffer)@)
            },
    ;

    /// Receives the rest of the write into `buffer`, acknowledging every
    /// byte that fits and not a byte beyond; returns the number received.
    fn handle_complete(self, buffer: &mut [u8]) -> (r: Result<usize, ErrorKind>)
        requires
            self.live(),
        ensures
            final(buffer)@.len() == old(buffer)@.len(),
            r matches Ok(n) ==> {
                &&& n == if self.pending().len() < old(buffer)@.len() {
                    self.pending().len()
                } else {
                    old(buffer)@.len()
                }
                &&& final(buffer)@ == overlay(self.pending().take(n as int), old(buffer)@)
            },
    {
        match self.handle_part(buffer) {
            Ok(WriteResult::Complete(size)) => Ok(size),
            Ok(WriteResult::Partial(handler)) => {
                // The last byte of `buffer` is held: receiving one more
                // acknowledges it.
                let mut probe: [u8; 1] = [0u8];
                match handler.handle_part(&mut probe) {
                    Ok(WriteResult::Partial(h)) => {
                        h.release();
                    },
                    Ok(WriteResult::Complete(_)) => {},
                    Err(e) => {
                        return Err(e);
                    },
                }
                assert(buffer@ =~= overlay(
                    self.pending().take(buffer@.len() as int),
                    old(buffer)@,
                ));
                Ok(buffer.len())
            },
            Err(e) => Err(e),
        }
    }

    /// Lets the handler go.
    fn release(self)
        requires
            self.live(),
    ;
}

/// A device serving as an I2C target.
pub trait I2cTarget {
    type Read<'a>: ReadTransaction where Self: 'a;

    type Write<'a>: WriteTransaction where Self: 'a;

    /// The device may be listened on.
    spec fn ready(&self) -> bool;

    /// What the next `listen` reports.
    spec fn next_event(&self) -> Heard;

    /// The number of bytes the controller reads, when the next event is a
    /// read.
    spec fn next_read_len(&self) -> nat;

    /// The bytes the controller writes, when the next event is a write.
    spec fn next_write(&self) -> Seq<u8>;

    /// Waits for the next event on the bus: a deselect, or a read or write
    /// addressed to the device, whose address is not yet acknowledged.
    fn listen(&mut self) -> (r: Result<Transaction<Self::Read<'_>, Self::Write<'_>>, ErrorKind>)
        requires
            old(self).ready(),
        ensures
            r matches Ok(t) ==> heard(t) == old(self).next_event(),
            r matches Ok(Transaction::Read { handler, .. }) ==> handler.live() && handler.wanted()
                == old(self).next_read_len(),
            r matches Ok(Transaction::Write { handler, .. }) ==> handler.live() && handler.pending()
                == old(self).next_write(),
            r matches Ok(Transaction::Deselect) ==> final(self).ready(),
    ;

    /// Listens expecting a write to `expected_address`, received into
    /// `write_buffer` at once; anything else is reported as `listen`
    /// reports it, and `write_buffer` is left as it was. Devices may serve
    /// the expected write faster.
    fn listen_expect_write<'a>(
        &'a mut self,
        expected_address: AnyAddress,
        write_buffer: &mut [u8],
    ) -> (r: Result<TransactionExpectWrite<Self::Read<'a>, Self::Write<'a>>, ErrorKind>)
        requires
            old(self).ready(),
        ensures
            final(write_buffer)@.len() == old(write_buffer)@.len(),
            old(self).next_event() != Heard::Write(expected_address) ==> {
                &&& final(write_buffer)@ == old(write_buffer)@
                &&& r matches Ok(t) ==> reported_by_expect_write(t) == Some(old(self).next_event())
            },
            old(self).next_event() == Heard::Write(expected_address) ==> (r matches Ok(t)
                ==> reported_by_expect_write(t) is None),
            r matches Ok(TransactionExpectWrite::ExpectedCompleteWrite { size }) ==> {
                &&& size == old(self).next_write().len()
                &&& size < old(write_buffer)@.len()
                &&& final(write_buffer)@ == overlay(old(self).next_write(), old(write_buffer)@)
            },
            r matches Ok(TransactionExpectWrite::ExpectedPartialWrite { handler }) ==> {
                &&& handler.live()
                &&& old(write_buffer)@.len() <= old(self).next_write().len()
                &&& final(write_buffer)@ == old(self).next_write().take(
                    old(write_buffer)@.len() as int,
                )
                &&& handler.pending() == old(self).next_write().skip(
                    old(write_buffer)@.len() as int,
                )
            },
            r matches Ok(TransactionExpectWrite::Read { handler, .. }) ==> handler.live()
                && handler.wanted() == old(self).next_read_len(),
            r matches Ok(TransactionExpectWrite::Write { handler, .. }) ==> handler.live()
                && handler.pending() == old(self).next_write(),
    {
        match self.listen() {
            Ok(Transaction::Write { address, handler }) => {
                if address == expected_address {
                    match handler.handle_part(write_buffer) {
                        Ok(WriteResult::Complete(size)) => Ok(
                            TransactionExpectWrite::ExpectedCompleteWrite { size },
                        ),
                        Ok(WriteResult::Partial(handler)) => Ok(
                            TransactionExpectWrite::ExpectedPartialWrite { handler },
                        ),
                        Err(e) => Err(e),
                    }
                } else {
                    Ok(TransactionExpectWrite::Write { address, handler })
                }
            },
            Ok(Transaction::Read { address, handler }) => Ok(
                TransactionExpectWrite::Read { address, handler },
            ),
            Ok(Transaction::Deselect) => Ok(TransactionExpectWrite::Deselect),
            Err(e) => Err(e),
        }
    }

    /// Listens expecting a read from `expected_address`, served from
    /// `read_buffer` at once; anything else is reported as `listen` reports
    /// it. Devices may serve the expected read faster.
    fn listen_expect_read<'a>(&'a mut self, expected_address: AnyAddress, read_buffer: &[u8]) -> (r:
        Result<TransactionExpectRead<Self::Read<'a>, Self::Write<'a>>, ErrorKind>)
        requires
            old(self).ready(),
        ensures
            old(self).next_event() != Heard::Read(expected_address) ==> (r matches Ok(t)
                ==> reported_by_expect_read(t) == Some(old(self).next_event())),
            old(self).next_event() == Heard::Read(expected_address) ==> (r matches Ok(t)
                ==> reported_by_expect_read(t) is None),
            r matches Ok(TransactionExpectRead::ExpectedCompleteRead { size }) ==> {
                &&& read_buffer@.len() > 0
                &&& size == old(self).next_read_len()
                &&& size <= read_buffer@.len()
            },
            r matches Ok(TransactionExpectRead::ExpectedPartialRead { handler }) ==> {
                &&& handler.live()
                &&& read_buffer@.len() == 0 || read_buffer@.len() < old(self).next_read_len()
                &&& handler.wanted() == old(self).next_read_len() - read_buffer@.len()
            },
            r matches Ok(TransactionExpectRead::Read { handler, .. }) ==> handler.live()
                && handler.wanted() == old(self).next_read_len(),
            r matches Ok(TransactionExpectRead::Write { handler, .. }) ==> handler.live()
                && handler.pending() == old(self).next_write(),
    {
        match self.listen() {
            Ok(Transaction::Read { address, handler }) => {
                if address == expected_address {
                    match handler.handle_part(read_buffer) {
                        Ok(ReadResult::Complete(size)) => Ok(
                            TransactionExpectRead::ExpectedCompleteRead { size },
                        ),
                        Ok(ReadResult::Partial(handler)) => Ok(
                            TransactionExpectRead::ExpectedPartialRead { handler },
                        ),
                        Err(e) => Err(e),
                    }
                } else {
                    Ok(TransactionExpectRead::Read { address, handler })
                }
            },
            Ok(Transaction::Write { address, handler }) => Ok(
                TransactionExpectRead::Write { address, handler },
            ),
            Ok(Transaction::Deselect) => Ok(TransactionExpectRead::Deselect),
            Err(e) => Err(e),
        }
    }

    /// Listens expecting either direction at `expected_address`: the
    /// direction the controller chose decides which buffer serves it;
    /// anything else is reported as `listen` reports it.
    fn listen_expect_either<'a>(
        &'a mut self,
        expected_address: AnyAddress,
        read_buffer: &[u8],
        write_buffer: &mut [u8],
    ) -> (r: Result<TransactionExpectEither<Self::Read<'a>, Self::Write<'a>>, ErrorKind>)
        requires
            old(self).ready(),
        ensures
            final(write_buffer)@.len() == old(write_buffer)@.len(),
            old(self).next_event() != Heard::Write(expected_address) ==> final(write_buffer)@ == old(
                write_buffer,
            )@,
            old(self).next_event() != Heard::Write(expected_address) && old(self).next_event()
                != Heard::Read(expected_address) ==> (r matches Ok(t) ==> reported_by_expect_either(
                t,
            ) == Some(old(self).next_event())),
            old(self).next_event() == Heard::Write(expected_address) || old(self).next_event()
                == Heard::Read(expected_address) ==> (r matches Ok(t) ==> reported_by_expect_either(
                t,
            ) is None),
            r matches Ok(TransactionExpectEither::ExpectedCompleteRead { size }) ==> {
                &&& old(self).next_event() == Heard::Read(expected_address)
                &&& read_buffer@.len() > 0
                &&& size == old(self).next_read_len()
                &&& size <= read_buffer@.len()
            },
            r matches Ok(TransactionExpectEither::ExpectedPartialRead { handler }) ==> {
                &&& old(self).next_event() == Heard::Read(expected_address)
                &&& handler.live()
                &&& read_buffer@.len() == 0 || read_buffer@.len() < old(self).next_read_len()
                &&& handler.wanted() == old(self).next_read_len() - read_buffer@.len()
            },
            r matches Ok(TransactionExpectEither::ExpectedCompleteWrite { size }) ==> {
                &&& old(self).next_event() == Heard::Write(expected_address)
                &&& size == old(self).next_write().len()
                &&& size < old(write_buffer)@.len()
                &&& final(write_buffer)@ == overlay(old(self).next_write(), old(write_buffer)@)
            },
            r matches Ok(TransactionExpectEither::ExpectedPartialWrite { handler }) ==> {
                &&& old(self).next_event() == Heard::Write(expected_address)
                &&& handler.live()
                &&& old(write_buffer)@.len() <= old(self).next_write().len()
                &&& final(write_buffer)@ == old(self).next_write().take(
                    old(write_buffer)@.len() as int,
                )
                &&& handler.pending() == old(self).next_write().skip(
                    old(write_buffer)@.len() as int,
                )
            },
            r matches Ok(TransactionExpectEither::Read { handler, .. }) ==> handler.live()
                && handler.wanted() == old(self).next_read_len(),
            r matches Ok(TransactionExpectEither::Write { handler, .. }) ==> handler.live()
                && handler.pending() == old(self).next_write(),
    {
        match self.listen() {
            Ok(Transaction::Read { address, handler }) => {
                if address == expected_address {
                    match handler.handle_part(read_buffer) {
                        Ok(ReadResult::Complete(size)) => Ok(
                            TransactionExpectEither::ExpectedCompleteRead { size },
                        ),
                        Ok(ReadResult::Partial(handler)) => Ok(
                            TransactionExpectEither::ExpectedPartialRead { handler },
                        ),
                        Err(e) => Err(e),
                    }
                } else {
                    Ok(TransactionExpectEither::Read { address, handler })
                }
            },
            Ok(Transaction::Write { address, handler }) => {
                if address == expected_address {
                    match handler.handle_part(write_buffer) {
                        Ok(WriteResult::Complete(size)) => Ok(
                            TransactionExpectEither::ExpectedCompleteWrite { size },
                        ),
                        Ok(WriteResult::Partial(handler)) => Ok(
                            TransactionExpectEither::ExpectedPartialWrite { handler },
                        ),
                        Err(e) => Err(e),
                    }
                } else {
                    Ok(TransactionExpectEither::Write { address, handler })
                }
            },
            Ok(Transaction::Deselect) => Ok(TransactionExpectEither::Deselect),
            Err(e) => Err(e),
        }
    }
}

} // verus!
