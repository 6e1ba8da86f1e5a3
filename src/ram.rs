//! An addressable RAM of 512 bytes behind an I2C target, and the controller
//! side driver that reads and writes it.
//!
//! A controller writes two bytes of start address, little endian, then the
//! bytes to store; a read that follows is served from that address on, and
//! with `0xFF` past the end of the RAM.
use crate::address::AnyAddress;
use crate::descriptor::zeros;
use crate::error::ErrorKind;
use crate::error::NoAcknowledgeSource;
use crate::model::{
    lemma_part_then_complete, min_nat, read_completed, read_released, write_completed,
    write_part, Heard, TargetModel,
};
use crate::target::{OnRead, OnWrite, SimTarget};
use crate::transaction::{
    TransactionExpectRead, TransactionExpectWrite, WriteResult,
};
use vstd::prelude::*;
use vstd::std_specs::convert::FromSpecImpl;

verus! {

/// Size of the RAM in bytes.
pub const BUFLEN: usize = 512;

/// The seven-bit address the RAM answers to.
pub const TARGET_ADDR: u8 = 0x20;

/// What a read past the end of the RAM receives.
pub const RAM_OVERRUN: u8 = 0xFF;

/// Bytes of data a driver sends per write transaction.
pub const CHUNK_SIZE: usize = 16;

/// The address the RAM answers to.
pub fn target_addr() -> (r: AnyAddress)
    ensures
        r == AnyAddress::Seven(TARGET_ADDR),
{
    AnyAddress::Seven(TARGET_ADDR)
}

/// A little-endian 16-bit value.
pub open spec fn le16(lo: u8, hi: u8) -> nat {
    lo as nat + 256 * (hi as nat)
}

/// The two bytes of `a`, little endian.
pub open spec fn le_bytes(a: nat) -> Seq<u8> {
    seq![(a % 256) as u8, ((a / 256) % 256) as u8]
}

fn tail(mem: &Vec<u8>, from: usize) -> (r: Vec<u8>)
    requires
        from <= mem@.len(),
    ensures
        r@ == mem@.subrange(from as int, mem@.len() as int),
{
    let mut v: Vec<u8> = Vec::new();
    let mut i: usize = from;
    while i < mem.len()
        invariant
            from <= i <= mem@.len(),
            v@ == mem@.subrange(from as int, i as int),
        decreases mem@.len() - i,
    {
        v.push(mem[i]);
        i = i + 1;
        assert(v@ =~= mem@.subrange(from as int, i as int));
    }
    v
}

fn place(mem: &mut Vec<u8>, at: usize, src: &[u8], n: usize)
    requires
        at + n <= old(mem)@.len(),
        n <= src@.len(),
    ensures
        final(mem)@ == old(mem)@.subrange(0, at as int) + src@.subrange(0, n as int) + old(
            mem,
        )@.subrange(at + n, old(mem)@.len() as int),
{
    let ghost orig = mem@;
    let mlen = mem.len();
    let mut k: usize = 0;
    while k < n
        invariant
            k <= n,
            at + n <= orig.len(),
            mlen == orig.len(),
            n <= src@.len(),
            mem@ == orig.subrange(0, at as int) + src@.subrange(0, k as int) + orig.subrange(
                at + k,
                orig.len() as int,
            ),
        decreases n - k,
    {
        mem.set(at + k, src[k]);
        k = k + 1;
        assert(mem@ =~= orig.subrange(0, at as int) + src@.subrange(0, k as int) + orig.subrange(
            at + k,
            orig.len() as int,
        ));
    }
}

/// The RAM as the specifications see it.
pub struct RamModel {
    pub memory: Seq<u8>,
    /// The address the next access starts at.
    pub cursor: nat,
    /// A start address was written, so a read is expected next.
    pub expecting_read: bool,
}

/// A read from the RAM: from the cursor on, and the overrun byte past the
/// end; with the cursor past the end, the address is not acknowledged.
pub open spec fn ram_read(r: RamModel, m: TargetModel) -> (RamModel, TargetModel) {
    if r.cursor >= BUFLEN {
        (r, read_released(m, 0, false))
    } else {
        let (mc, k) = read_completed(
            m,
            0,
            r.memory.subrange(r.cursor as int, BUFLEN as int),
            RAM_OVERRUN,
        );
        (RamModel { cursor: min_nat(r.cursor + k, BUFLEN as nat), ..r }, mc)
    }
}

/// A write to the RAM: two bytes of start address, then data stored from
/// there on as far as the RAM reaches, a byte beyond it not acknowledged.
/// A shorter write is ignored; a start address past the end is not
/// acknowledged.
pub open spec fn ram_write(r: RamModel, m: TargetModel) -> (RamModel, TargetModel) {
    let w = m.op_data();
    if w.len() < 2 {
        (r, write_part(m, 0, 2).model)
    } else {
        let a = le16(w[0], w[1]);
        if a < BUFLEN {
            let s = write_completed(m, 2, (BUFLEN - a) as nat);
            (
                RamModel {
                    memory: r.memory.subrange(0, a as int) + s.received + r.memory.subrange(
                        (a + s.received.len()) as int,
                        BUFLEN as int,
                    ),
                    cursor: a + s.received.len(),
                    expecting_read: true,
                },
                s.model,
            )
        } else {
            (r, m.nacked(NoAcknowledgeSource::Data))
        }
    }
}

/// One event on the bus, served: `None` when nothing was sent.
pub open spec fn ram_served(r: RamModel, t: TargetModel) -> Option<(RamModel, TargetModel)> {
    let (h, m1) = t.listened();
    match h {
        Heard::Idle => None,
        Heard::Deselect => Some((RamModel { expecting_read: false, ..r }, m1)),
        Heard::Read(_) => Some(ram_read(r, m1)),
        Heard::Write(_) => Some(ram_write(r, m1)),
    }
}

/// The RAM behind the target: its bytes, the address the next access
/// starts at, and whether a read is expected next.
pub struct RamTarget {
    mem: Vec<u8>,
    cur_addr: usize,
    expect_read: bool,
}

impl View for RamTarget {
    type V = RamModel;

    closed spec fn view(&self) -> RamModel {
        RamModel {
            memory: self.mem@,
            cursor: self.cur_addr as nat,
            expecting_read: self.expect_read,
        }
    }
}

impl RamTarget {
    pub open spec fn memory(self) -> Seq<u8> {
        self@.memory
    }

    pub open spec fn cursor(self) -> nat {
        self@.cursor
    }

    pub open spec fn expecting_read(self) -> bool {
        self@.expecting_read
    }

    pub open spec fn wf(self) -> bool {
        self@.memory.len() == BUFLEN && self@.cursor <= BUFLEN
    }

    /// A RAM of zeros, at address zero.
    pub fn new() -> (r: RamTarget)
        ensures
            r.wf(),
            r@ == (RamModel { memory: zeros(BUFLEN as nat), cursor: 0, expecting_read: false }),
    {
        let mut mem: Vec<u8> = Vec::new();
        let mut i: usize = 0;
        while i < BUFLEN
            invariant
                i <= BUFLEN,
                mem@ == zeros(i as nat),
            decreases BUFLEN - i,
        {
            mem.push(0u8);
            i = i + 1;
            assert(mem@ =~= zeros(i as nat));
        }
        RamTarget { mem, cur_addr: 0, expect_read: false }
    }

    /// Serves a read from the current address: the controller gets the RAM
    /// from there on and then the overrun byte; with the address past the end
    /// the read is not acknowledged.
    fn serve_read(&mut self, handler: OnRead)
        requires
            old(self).wf(),
            handler.fresh(handler.model()),
        ensures
            final(self).wf(),
            (final(self)@, (*final(handler.target()))@) == ram_read(old(self)@, handler.model()),
            (*final(handler.target()))@.wf(),
    {
        if self.cur_addr >= BUFLEN {
            handler.release();
        } else {
            let data = tail(&self.mem, self.cur_addr);
            match handler.handle_complete(data.as_slice(), RAM_OVERRUN) {
                Ok(size) => {
                    self.cur_addr = if size < BUFLEN - self.cur_addr {
                        self.cur_addr + size
                    } else {
                        BUFLEN
                    };
                },
                Err(_) => {},
            }
        }
    }

    /// Takes the start address a write carried in `addr`, then stores the
    /// rest of the write from there on; a start address past the end is not
    /// acknowledged.
    fn store_at(&mut self, addr: [u8; 2], handler: OnWrite)
        requires
            old(self).wf(),
            handler.wf(),
            handler.filled() == 2,
            handler.started(),
            addr@ == handler.model().op_data().subrange(0, 2),
        ensures
            final(self).wf(),
            (final(self)@, (*final(handler.target()))@) == ram_write(old(self)@, handler.model()),
            (*final(handler.target()))@.wf(),
    {
        let new_addr: usize = addr[0] as usize + 256 * (addr[1] as usize);
        if new_addr < BUFLEN {
            self.cur_addr = new_addr;
            self.expect_read = true;
            let mut room: Vec<u8> = Vec::new();
            let mut i: usize = 0;
            while i < BUFLEN - new_addr
                invariant
                    i <= BUFLEN - new_addr,
                    room@.len() == i,
                decreases BUFLEN - new_addr - i,
            {
                room.push(0u8);
                i = i + 1;
            }
            let ghost m0 = handler.model();
            match handler.handle_complete(room.as_mut_slice()) {
                Ok(size) => {
                    let ghost s = write_completed(m0, 2, (BUFLEN - new_addr) as nat);
                    assert(room@.subrange(0, size as int) =~= s.received);
                    place(&mut self.mem, new_addr, room.as_slice(), size);
                    self.cur_addr = new_addr + size;
                    assert(self.mem@ =~= old(self)@.memory.subrange(0, new_addr as int) + s.received
                        + old(self)@.memory.subrange(new_addr + s.received.len(), BUFLEN as int));
                },
                Err(_) => {},
            }
        } else {
            handler.release();
        }
    }

    /// Serves a write: its first two bytes are the start address.
    fn serve_write(&mut self, handler: OnWrite)
        requires
            old(self).wf(),
            handler.fresh(handler.model()),
        ensures
            final(self).wf(),
            (final(self)@, (*final(handler.target()))@) == ram_write(old(self)@, handler.model()),
            (*final(handler.target()))@.wf(),
    {
        let mut addr: [u8; 2] = [0u8; 2];
        let ghost m0 = handler.model();
        match handler.handle_part(&mut addr) {
            Ok(WriteResult::Partial(h)) => {
                assert(addr@ =~= m0.op_data().subrange(0, 2));
                self.store_at(addr, h);
            },
            Ok(WriteResult::Complete(_)) => {},
            Err(_) => {},
        }
    }

    /// Serves one event on the bus: a deselect, a read or a write. Fails,
    /// changing nothing, when the controller has sent nothing.
    pub fn serve_once(&mut self, i2c: &mut SimTarget) -> (r: Result<(), ErrorKind>)
        requires
            old(self).wf(),
            old(i2c)@.wf(),
        ensures
            final(self).wf(),
            final(i2c)@.wf(),
            match ram_served(old(self)@, old(i2c)@) {
                None => r is Err && final(self)@ == old(self)@ && final(i2c)@ == old(i2c)@,
                Some((ram, bus)) => r is Ok && final(self)@ == ram && final(i2c)@ == bus,
            },
    {
        if self.expect_read && self.cur_addr < BUFLEN {
            let data = tail(&self.mem, self.cur_addr);
            let ghost m = i2c@.listened().1;
            match i2c.listen_expect_read(target_addr(), data.as_slice()) {
                Err(e) => {
                    return Err(e);
                },
                Ok(TransactionExpectRead::Deselect) => {
                    self.expect_read = false;
                },
                Ok(TransactionExpectRead::Read { handler, .. }) => {
                    self.serve_read(handler);
                },
                Ok(TransactionExpectRead::Write { handler, .. }) => {
                    self.serve_write(handler);
                },
                Ok(TransactionExpectRead::ExpectedCompleteRead { size }) => {
                    proof {
                        lemma_part_then_complete(m, 0, false, data@, RAM_OVERRUN);
                    }
                    self.cur_addr = if size < BUFLEN - self.cur_addr {
                        self.cur_addr + size
                    } else {
                        BUFLEN
                    };
                },
                Ok(TransactionExpectRead::ExpectedPartialRead { handler }) => {
                    proof {
                        lemma_part_then_complete(m, 0, false, data@, RAM_OVERRUN);
                    }
                    let none: [u8; 0] = [];
                    match handler.handle_complete(&none, RAM_OVERRUN) {
                        Ok(extra) => {
                            assert(none@ =~= Seq::<u8>::empty());
                            let room = BUFLEN - self.cur_addr;
                            self.cur_addr = if extra < room - data.len() {
                                self.cur_addr + data.len() + extra
                            } else {
                                BUFLEN
                            };
                        },
                        Err(_) => {},
                    }
                },
            }
        } else {
            let mut addr: [u8; 2] = [0u8; 2];
            let ghost m = i2c@.listened().1;
            match i2c.listen_expect_write(target_addr(), &mut addr) {
                Err(e) => {
                    return Err(e);
                },
                Ok(TransactionExpectWrite::Deselect) => {
                    self.expect_read = false;
                },
                Ok(TransactionExpectWrite::Read { handler, .. }) => {
                    self.serve_read(handler);
                },
                Ok(TransactionExpectWrite::Write { handler, .. }) => {
                    self.serve_write(handler);
                },
                Ok(TransactionExpectWrite::ExpectedCompleteWrite { .. }) => {},
                Ok(TransactionExpectWrite::ExpectedPartialWrite { handler }) => {
                    assert(addr@ =~= m.op_data().subrange(0, 2));
                    self.store_at(addr, handler);
                },
            }
        }
        Ok(())
    }
}

/// Driver for the RAM, on the controller side of a bus.
pub struct I2cRam<I, A> {
    i2c: I,
    address: A,
}

impl<I, A: Copy> I2cRam<I, A> {
    pub closed spec fn bus_spec(self) -> I {
        self.i2c
    }

    pub closed spec fn address_spec(self) -> A {
        self.address
    }

    /// A driver for the RAM at `address` on the bus `i2c`.
    pub fn new(i2c: I, address: A) -> (r: I2cRam<I, A>)
        ensures
            r.bus_spec() == i2c,
            r.address_spec() == address,
    {
        I2cRam { i2c, address }
    }

    /// The bus the driver talks through.
    pub fn bus(&mut self) -> (r: &mut I)
        ensures
            *r == old(self).bus_spec(),
            final(self).address_spec() == old(self).address_spec(),
            final(self).bus_spec() == *final(r),
    {
        &mut self.i2c
    }

    /// The address of the RAM on the bus.
    pub fn address(&self) -> (r: A)
        ensures
            r == self.address_spec(),
    {
        self.address
    }
}

/// Why an access to the RAM failed.
#[derive(Debug, PartialEq, Eq)]
pub enum Error<E> {
    /// The bus failed.
    I2c(E),
    /// The RAM declined the access: it reaches past the end.
    OutOfBounds,
}

impl<E> From<E> for Error<E> {
    fn from(value: E) -> (r: Self)
        ensures
            r == Error::I2c(value),
    {
        Error::I2c(value)
    }
}

impl<E> FromSpecImpl<E> for Error<E> {
    open spec fn obeys_from_spec() -> bool {
        true
    }

    open spec fn from_spec(v: E) -> Self {
        Error::I2c(v)
    }
}

/// The driver's error for a failed transaction: a byte the RAM did not
/// acknowledge means the access went out of bounds; any other failure is the
/// bus's.
pub fn classify<E>(kind: ErrorKind, err: E) -> (r: Error<E>)
    ensures
        kind is NoAcknowledge ==> r is OutOfBounds,
        !(kind is NoAcknowledge) ==> r == Error::I2c(err),
{
    match kind {
        ErrorKind::NoAcknowledge(_) => Error::OutOfBounds,
        _ => Error::I2c(err),
    }
}

/// The two bytes a controller writes to set the RAM's address.
pub fn address_bytes(address: u16) -> (r: [u8; 2])
    ensures
        r@ == le_bytes(address as nat),
{
    let r: [u8; 2] = [(address % 256) as u8, (address / 256) as u8];
    assert(r@ =~= le_bytes(address as nat));
    r
}

/// The number of chunks a write of `len` bytes is sent in.
pub open spec fn chunk_count(len: nat) -> nat {
    (len + 15) / 16
}

/// The transaction that writes chunk `i` of `buf` to the RAM at `address`:
/// the chunk's address, then its bytes.
pub open spec fn frame(address: nat, buf: Seq<u8>, i: nat) -> Seq<u8> {
    le_bytes(address + 16 * i) + buf.subrange((16 * i) as int, min_nat(16 * i + 16, buf.len()) as int)
}

/// How many of the chunks have an address that fits in 16 bits.
pub open spec fn addressable_chunks(address: nat, len: nat) -> nat {
    min_nat(chunk_count(len), ((65535 - address) / 16 + 1) as nat)
}

/// The transactions that write `buf` to the RAM from `address` on, one per
/// chunk of sixteen bytes, as far as the chunks' addresses fit in 16 bits;
/// and whether they all do. A driver sends them in order and, if not all
/// fit, then reports the access out of bounds.
pub fn write_frames(address: u16, buf: &[u8]) -> (r: (Vec<Vec<u8>>, bool))
    ensures
        r.0@.len() == addressable_chunks(address as nat, buf@.len()),
        r.1 == (r.0@.len() == chunk_count(buf@.len())),
        forall|i: int| 0 <= i < r.0@.len() ==> #[trigger] r.0@[i]@ == frame(address as nat, buf@, i as nat),
{
    let mut frames: Vec<Vec<u8>> = Vec::new();
    let len = buf.len();
    let mut start: usize = 0;
    while start < len
        invariant
            len == buf@.len(),
            start <= len,
            start < len ==> frames@.len() * 16 == start,
            start == len ==> frames@.len() == chunk_count(len as nat),
            frames@.len() > 0 ==> 16 * (frames@.len() - 1) + (address as nat) <= 65535,
            forall|k: int|
                0 <= k < frames@.len() ==> #[trigger] frames@[k]@ == frame(
                    address as nat,
                    buf@,
                    k as nat,
                ),
        decreases len - start,
    {
        let ghost q = frames@.len();
        if start > 65535 - address as usize {
            proof {
                assert(q > 0);
                assert((65535 - address) / 16 + 1 == q) by (nonlinear_arith)
                    requires
                        16 * (q - 1) + address <= 65535,
                        q * 16 > 65535 - address,
                ;
                assert(q < chunk_count(len as nat)) by (nonlinear_arith)
                    requires
                        q * 16 < len,
                ;
            }
            return (frames, false);
        }
        let chunk_address: u16 = (address as usize + start) as u16;
        let end: usize = if len - start < 16 {
            len
        } else {
            start + 16
        };
        let bytes = address_bytes(chunk_address);
        let mut f: Vec<u8> = Vec::new();
        f.push(bytes[0]);
        f.push(bytes[1]);
        let mut k: usize = start;
        while k < end
            invariant
                start <= k <= end,
                end <= len,
                len == buf@.len(),
                f@ == bytes@ + buf@.subrange(start as int, k as int),
            decreases end - k,
        {
            f.push(buf[k]);
            k = k + 1;
            assert(f@ =~= bytes@ + buf@.subrange(start as int, k as int));
        }
        assert(f@ =~= bytes@ + buf@.subrange(start as int, end as int));
        assert(end == min_nat(16 * q + 16, len as nat));
        assert(f@ == frame(address as nat, buf@, q as nat));
        frames.push(f);
        proof {
            if end == len {
                assert(frames@.len() == chunk_count(len as nat)) by (nonlinear_arith)
                    requires
                        q * 16 == start,
                        start < len,
                        len <= start + 16,
                        frames@.len() == q + 1,
                ;
            }
        }
        start = end;
    }
    proof {
        let c = frames@.len();
        if c > 0 {
            assert(c <= (65535 - address) / 16 + 1) by (nonlinear_arith)
                requires
                    16 * (c - 1) + address <= 65535,
            ;
        }
    }
    (frames, true)
}

} // verus!
