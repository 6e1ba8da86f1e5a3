//! A register-file I/O expander behind an I2C target at address `0x2a`.
//!
//! A controller writes a register number and then the register's new
//! contents, or writes just the register number and then reads its contents.
use crate::address::AnyAddress;
use crate::error::{ErrorKind, NoAcknowledgeSource};
use crate::model::{
    expect_read, expect_write, read_released, write_part, ExpectedRead, ExpectedWrite, Heard, TargetModel,
};
use crate::target::SimTarget;
use crate::transaction::{TransactionExpectRead, TransactionExpectWrite};
use vstd::prelude::*;

verus! {

/// The seven-bit address the expander answers to.
pub const EXPANDER_ADDR: u8 = 0x2a;

/// The largest write the expander takes in one transaction.
pub const EXPANDER_BUFLEN: usize = 64;

/// The registers behind the expander.
pub trait Interface {
    type Error;

    /// Places the contents of register `addr` at the start of `buf` and
    /// returns their length.
    fn read_reg(&mut self, addr: u8, buf: &mut [u8]) -> Result<usize, Self::Error>;

    /// Sets register `addr` to `data`.
    fn write_reg(&mut self, addr: u8, data: &[u8]) -> Result<(), Self::Error>;
}

fn prefix(buf: &[u8], n: usize) -> (r: Vec<u8>)
    requires
        n <= buf@.len(),
    ensures
        r@ == buf@.subrange(0, n as int),
{
    let mut v: Vec<u8> = Vec::new();
    let mut i: usize = 0;
    while i < n
        invariant
            i <= n,
            n <= buf@.len(),
            v@ == buf@.subrange(0, i as int),
        decreases n - i,
    {
        v.push(buf[i]);
        i = i + 1;
        assert(v@ =~= buf@.subrange(0, i as int));
    }
    v
}

/// What a write to the expander asks for.
pub enum Request {
    /// An empty write: nothing.
    Nothing,
    /// A register number alone: serve the next read with its contents.
    ReadRegister(u8),
    /// A register number and the register's new contents.
    WriteRegister(u8, Vec<u8>),
}

/// A request as the specifications see it.
pub enum RequestModel {
    Nothing,
    ReadRegister(u8),
    WriteRegister(u8, Seq<u8>),
}

impl View for Request {
    type V = RequestModel;

    open spec fn view(&self) -> RequestModel {
        match self {
            Request::Nothing => RequestModel::Nothing,
            Request::ReadRegister(reg) => RequestModel::ReadRegister(*reg),
            Request::WriteRegister(reg, data) => RequestModel::WriteRegister(*reg, data@),
        }
    }
}

/// The request carried by the bytes of a write: its first byte is the
/// register number, the rest the register's new contents.
pub open spec fn request_of(received: Seq<u8>) -> RequestModel {
    if received.len() == 0 {
        RequestModel::Nothing
    } else if received.len() == 1 {
        RequestModel::ReadRegister(received[0])
    } else {
        RequestModel::WriteRegister(received[0], received.subrange(1, received.len() as int))
    }
}

/// Reads the request from the bytes of a write.
pub fn parse_request(received: &[u8]) -> (r: Request)
    ensures
        r@ == request_of(received@),
{
    if received.len() == 0 {
        Request::Nothing
    } else if received.len() == 1 {
        Request::ReadRegister(received[0])
    } else {
        let mut data: Vec<u8> = Vec::new();
        let mut i: usize = 1;
        while i < received.len()
            invariant
                1 <= i <= received@.len(),
                data@ == received@.subrange(1, i as int),
            decreases received@.len() - i,
        {
            data.push(received[i]);
            i = i + 1;
            assert(data@ =~= received@.subrange(1, i as int));
        }
        Request::WriteRegister(received[0], data)
    }
}

/// What serving a register's contents `data` to the next read does to the
/// bus: a read from the expander gets `data`, then the overrun byte; any
/// other transaction has its address not acknowledged. `None` when the
/// controller has sent nothing.
pub open spec fn register_read(m: TargetModel, data: Seq<u8>) -> Option<TargetModel> {
    match expect_read(m, AnyAddress::Seven(EXPANDER_ADDR), data) {
        ExpectedRead::Fallback(Heard::Idle, _) => None,
        ExpectedRead::Fallback(Heard::Deselect, m1) => Some(m1),
        ExpectedRead::Fallback(_, m1) => Some(m1.nacked(NoAcknowledgeSource::Address)),
        ExpectedRead::Handled(s) => Some(
            match s.complete {
                Some(_) => s.model,
                None => read_released(s.model, s.filled, data.len() > 0),
            },
        ),
    }
}

/// Serves a register's contents `data` to the next read from the expander;
/// releases whatever else comes.
pub fn serve_register_read(i2c: &mut SimTarget, data: &[u8]) -> (r: Result<(), ErrorKind>)
    requires
        old(i2c)@.wf(),
    ensures
        final(i2c)@.wf(),
        match register_read(old(i2c)@, data@) {
            None => r is Err && final(i2c)@ == old(i2c)@,
            Some(m) => r is Ok && final(i2c)@ == m,
        },
{
    match i2c.listen_expect_read(AnyAddress::Seven(EXPANDER_ADDR), data) {
        Err(e) => Err(e),
        Ok(TransactionExpectRead::ExpectedCompleteRead { .. }) => Ok(()),
        Ok(TransactionExpectRead::Deselect) => Ok(()),
        Ok(TransactionExpectRead::ExpectedPartialRead { handler }) => {
            handler.release();
            Ok(())
        },
        Ok(TransactionExpectRead::Read { handler, .. }) => {
            handler.release();
            Ok(())
        },
        Ok(TransactionExpectRead::Write { handler, .. }) => {
            handler.release();
            Ok(())
        },
    }
}

/// Serves one request: a write to the expander of a register number and
/// contents sets that register; a write of a register number alone is
/// answered by serving the next read with that register's contents. A write
/// longer than the expander takes has its excess byte not acknowledged, and a
/// transaction not meant for the expander has its address not acknowledged.
/// Fails, changing nothing, when the controller has sent nothing.
///
/// The bytes received go to the registers as `parse_request` reads them; the
/// contents `read_reg` gives, at most as many bytes as the expander's
/// buffer, are served by `serve_register_read`.
pub fn serve_once<I: Interface>(i2c: &mut SimTarget, interface: &mut I) -> (r: Result<(), ErrorKind>)
    requires
        old(i2c)@.wf(),
    ensures
        final(i2c)@.wf(),
        match expect_write(
            old(i2c)@,
            AnyAddress::Seven(EXPANDER_ADDR),
            EXPANDER_BUFLEN as nat,
        ) {
            ExpectedWrite::Fallback(Heard::Idle, _) => r is Err && final(i2c)@ == old(i2c)@,
            ExpectedWrite::Fallback(Heard::Deselect, m1) => r is Ok && final(i2c)@ == m1,
            ExpectedWrite::Fallback(_, m1) => r is Ok && final(i2c)@ == m1.nacked(
                NoAcknowledgeSource::Address,
            ),
            ExpectedWrite::Handled(s) => r is Ok && match s.complete {
                None => final(i2c)@ == s.model.nacked(NoAcknowledgeSource::Data),
                Some(n) => if request_of(s.received) is ReadRegister {
                    final(i2c)@ == s.model || exists|d: Seq<u8>|
                        d.len() <= EXPANDER_BUFLEN && #[trigger] register_read(s.model, d) == Some(
                            final(i2c)@,
                        )
                } else {
                    final(i2c)@ == s.model
                },
            },
        },
{
    let mut buf: [u8; EXPANDER_BUFLEN] = [0u8; EXPANDER_BUFLEN];
    let ghost m0 = i2c@;
    let size = match i2c.listen_expect_write(AnyAddress::Seven(EXPANDER_ADDR), &mut buf) {
        Err(e) => {
            return Err(e);
        },
        Ok(TransactionExpectWrite::ExpectedCompleteWrite { size }) => size,
        Ok(TransactionExpectWrite::ExpectedPartialWrite { handler }) => {
            handler.release();
            return Ok(());
        },
        Ok(TransactionExpectWrite::Read { handler, .. }) => {
            handler.release();
            return Ok(());
        },
        Ok(TransactionExpectWrite::Write { handler, .. }) => {
            handler.release();
            return Ok(());
        },
        Ok(TransactionExpectWrite::Deselect) => {
            return Ok(());
        },
    };
    let ghost s = write_part(m0.listened().1, 0, EXPANDER_BUFLEN as nat);
    let received = prefix(&buf, size);
    assert(received@ =~= s.received);
    match parse_request(received.as_slice()) {
        Request::Nothing => {},
        Request::ReadRegister(reg) => {
            match interface.read_reg(reg, &mut buf) {
                Ok(n) => {
                    if n <= buf.len() {
                        let data = prefix(&buf, n);
                        let _ = serve_register_read(i2c, data.as_slice());
                        assert(i2c@ == s.model || register_read(s.model, data@) == Some(i2c@));
                    }
                },
                Err(_) => {},
            }
        },
        Request::WriteRegister(reg, data) => {
            let _ = interface.write_reg(reg, data.as_slice());
        },
    }
    Ok(())
}

} // verus!
