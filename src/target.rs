use crate::address::AnyAddress;
use crate::contract::{I2cTarget, ReadTransaction, WriteTransaction};
use crate::descriptor::{OpModel, SimOp, SimTransaction, TransactionModel};
use crate::error::{ErrorKind, NoAcknowledgeSource};
use crate::model::{
    expect_either, expect_read, expect_write, heard, ExpectedEither, ExpectedRead,
    ExpectedWrite, Heard, lemma_with_op_twice, overlay, read_completed, read_live, read_part,
    read_released, supplied, write_completed, write_live, write_part, write_released, ActiveModel,
    TargetModel, OVERRUN_FILL,
};
use crate::transaction::{
    ReadResult, Transaction, TransactionExpectEither, TransactionExpectRead, TransactionExpectWrite,
    WriteResult,
};
use vstd::prelude::*;

verus! {

struct PartialTransaction {
    transaction: SimTransaction,
    current_op: usize,
}

/// The target half of the simulated bus.
///
/// The controller half hands it a transaction with `deliver` and collects
/// the answer with `take_reply`; in between, the target's user works
/// through the transaction with `listen` and the handlers it yields.
pub struct SimTarget {
    current_transaction: Option<PartialTransaction>,
    from_controller: Option<SimTransaction>,
    reply: Option<Result<SimTransaction, ErrorKind>>,
    need_to_report_deselect: bool,
}

pub open spec fn reply_view(r: Option<Result<SimTransaction, ErrorKind>>) -> Option<
    Result<TransactionModel, ErrorKind>,
> {
    match r {
        Some(Ok(t)) => Some(Ok(t@)),
        Some(Err(e)) => Some(Err(e)),
        None => None,
    }
}

impl View for SimTarget {
    type V = TargetModel;

    closed spec fn view(&self) -> TargetModel {
        TargetModel {
            active: match self.current_transaction {
                Some(p) => Some(ActiveModel { transaction: p.transaction@, op: p.current_op as nat }),
                None => None,
            },
            queued: match self.from_controller {
                Some(t) => Some(t@),
                None => None,
            },
            reply: reply_view(self.reply),
            deselect_pending: self.need_to_report_deselect,
        }
    }
}

impl SimTarget {
    /// A target with nothing sent to it.
    pub fn new() -> (r: SimTarget)
        ensures
            r@ == TargetModel::empty(),
    {
        SimTarget {
            current_transaction: None,
            from_controller: None,
            reply: None,
            need_to_report_deselect: false,
        }
    }

    /// The controller sends `t`. It is taken only when the bus is idle:
    /// nothing sent, in progress or unanswered; else it is handed back.
    pub fn deliver(&mut self, t: SimTransaction) -> (r: Result<(), SimTransaction>)
        requires
            old(self)@.wf(),
        ensures
            final(self)@.wf(),
            r is Ok <==> old(self)@.idle(),
            r is Ok ==> final(self)@ == old(self)@.delivered(t@),
            r matches Err(back) ==> back == t && final(self)@ == old(self)@,
    {
        if self.current_transaction.is_none() && self.from_controller.is_none()
            && self.reply.is_none() {
            self.from_controller = Some(t);
            Ok(())
        } else {
            Err(t)
        }
    }

    /// The controller collects the answer to its transaction, if there is one.
    pub fn take_reply(&mut self) -> (r: Option<Result<SimTransaction, ErrorKind>>)
        requires
            old(self)@.wf(),
        ensures
            final(self)@.wf(),
            reply_view(r) == old(self)@.reply,
            final(self)@ == old(self)@.collected(),
    {
        self.reply.take()
    }

    /// Whether `listen` has something to report without a new transaction.
    pub fn has_event(&self) -> (r: bool)
        ensures
            r == !(self@.listened().0 is Idle),
    {
        self.need_to_report_deselect || self.current_transaction.is_some()
            || self.from_controller.is_some()
    }

    fn current_len(&self) -> (r: usize)
        requires
            self@.active is Some,
            self@.wf(),
        ensures
            r == self@.op_data().len(),
    {
        match &self.current_transaction {
            Some(p) => match &p.transaction.actions[p.current_op] {
                SimOp::Read(b) => b.len(),
                SimOp::Write(b) => b.len(),
            },
            None => 0,
        }
    }

    /// Puts `src[0..n]` into the read at hand, from byte `at` on.
    fn store_read(&mut self, at: usize, src: &[u8], n: usize)
        requires
            old(self)@.wf(),
            old(self)@.reading(),
            at + n <= old(self)@.op_data().len(),
            n <= src@.len(),
        ensures
            final(self)@ == old(self)@.with_op(
                OpModel::Read(
                    old(self)@.op_data().subrange(0, at as int) + src@.subrange(0, n as int)
                        + old(self)@.op_data().subrange(at + n, old(self)@.op_data().len() as int),
                ),
            ),
    {
        let ghost m = self@;
        let mut pt = self.current_transaction.take().unwrap();
        let i = pt.current_op;
        let mut op = SimOp::Write(Vec::new());
        pt.transaction.actions.set_and_swap(i, &mut op);
        let ghost before = pt.transaction.actions@;
        match op {
            SimOp::Read(mut buf) => {
                let ghost orig = buf@;
                let blen = buf.len();
                let mut k: usize = 0;
                while k < n
                    invariant
                        k <= n,
                        blen == orig.len(),
                        at + n <= orig.len(),
                        buf@.len() == orig.len(),
                        n <= src@.len(),
                        buf@ == orig.subrange(0, at as int) + src@.subrange(0, k as int)
                            + orig.subrange(at + k, orig.len() as int),
                    decreases n - k,
                {
                    buf.set(at + k, src[k]);
                    k = k + 1;
                    assert(buf@ =~= orig.subrange(0, at as int) + src@.subrange(0, k as int)
                        + orig.subrange(at + k, orig.len() as int));
                }
                op = SimOp::Read(buf);
            },
            SimOp::Write(b) => {
                op = SimOp::Write(b);
            },
        }
        pt.transaction.actions.set_and_swap(i, &mut op);
        assert(pt.transaction@.ops =~= m.active->Some_0.transaction.ops.update(
            i as int,
            pt.transaction.actions@[i as int]@,
        ));
        self.current_transaction = Some(pt);
    }

    /// Fills the read at hand with `byte` from byte `at` to its end.
    fn fill_read(&mut self, at: usize, byte: u8)
        requires
            old(self)@.wf(),
            old(self)@.reading(),
            at <= old(self)@.op_data().len(),
        ensures
            final(self)@ == old(self)@.with_op(
                OpModel::Read(
                    old(self)@.op_data().subrange(0, at as int) + Seq::new(
                        (old(self)@.op_data().len() - at) as nat,
                        |i: int| byte,
                    ),
                ),
            ),
    {
        let ghost m = self@;
        let mut pt = self.current_transaction.take().unwrap();
        let i = pt.current_op;
        let mut op = SimOp::Write(Vec::new());
        pt.transaction.actions.set_and_swap(i, &mut op);
        match op {
            SimOp::Read(mut buf) => {
                let ghost orig = buf@;
                let mut k: usize = at;
                while k < buf.len()
                    invariant
                        at <= k <= orig.len(),
                        buf@.len() == orig.len(),
                        buf@ == orig.subrange(0, at as int) + Seq::new(
                            (k - at) as nat,
                            |j: int| byte,
                        ) + orig.subrange(k as int, orig.len() as int),
                    decreases orig.len() - k,
                {
                    buf.set(k, byte);
                    k = k + 1;
                    assert(buf@ =~= orig.subrange(0, at as int) + Seq::new(
                        (k - at) as nat,
                        |j: int| byte,
                    ) + orig.subrange(k as int, orig.len() as int));
                }
                assert(buf@ =~= orig.subrange(0, at as int) + Seq::new(
                    (orig.len() - at) as nat,
                    |j: int| byte,
                ));
                op = SimOp::Read(buf);
            },
            SimOp::Write(b) => {
                op = SimOp::Write(b);
            },
        }
        pt.transaction.actions.set_and_swap(i, &mut op);
        assert(pt.transaction@.ops =~= m.active->Some_0.transaction.ops.update(
            i as int,
            pt.transaction.actions@[i as int]@,
        ));
        self.current_transaction = Some(pt);
    }

    /// Copies `n` bytes of the write at hand, from byte `at` on, into `dst`.
    fn load_write(&self, at: usize, dst: &mut [u8], n: usize)
        requires
            self@.wf(),
            self@.writing(),
            at + n <= self@.op_data().len(),
            n <= old(dst)@.len(),
        ensures
            final(dst)@ == overlay(
                self@.op_data().subrange(at as int, (at + n) as int),
                old(dst)@,
            ),
    {
        match &self.current_transaction {
            Some(p) => match &p.transaction.actions[p.current_op] {
                SimOp::Write(b) => {
                    let ghost orig = dst@;
                    let blen = b.len();
                    let mut k: usize = 0;
                    while k < n
                        invariant
                            k <= n,
                            n <= orig.len(),
                            at + n <= b@.len(),
                            blen == b@.len(),
                            b@ == self@.op_data(),
                            dst@ == overlay(b@.subrange(at as int, (at + k) as int), orig),
                        decreases n - k,
                    {
                        assert(at + k < b@.len());
                        dst[k] = b[at + k];
                        k = k + 1;
                        assert(dst@ =~= overlay(b@.subrange(at as int, (at + k) as int), orig));
                    }
                },
                SimOp::Read(_) => {},
            },
            None => {},
        }
    }

    /// The operation at hand is over.
    fn advance(&mut self)
        requires
            old(self)@.wf(),
            old(self)@.active is Some,
        ensures
            final(self)@ == old(self)@.advanced(),
            final(self)@.wf(),
    {
        let mut pt = self.current_transaction.take().unwrap();
        if pt.current_op < pt.transaction.actions.len() - 1 {
            pt.current_op = pt.current_op + 1;
            self.current_transaction = Some(pt);
        } else {
            self.reply = Some(Ok(pt.transaction));
            self.need_to_report_deselect = true;
        }
    }

    /// The transaction at hand ends on a byte not acknowledged.
    fn nak(&mut self, src: NoAcknowledgeSource)
        requires
            old(self)@.wf(),
            old(self)@.active is Some,
        ensures
            final(self)@ == old(self)@.nacked(src),
            final(self)@.wf(),
    {
        self.current_transaction = None;
        self.reply = Some(Err(ErrorKind::NoAcknowledge(src)));
        self.need_to_report_deselect = true;
    }

    fn current_kind(&self) -> (r: (AnyAddress, bool))
        requires
            self@.wf(),
            self@.active is Some,
        ensures
            r.0 == self@.active->Some_0.transaction.address,
            r.1 == self@.reading(),
    {
        match &self.current_transaction {
            Some(p) => (
                p.transaction.address,
                match &p.transaction.actions[p.current_op] {
                    SimOp::Read(_) => true,
                    SimOp::Write(_) => false,
                },
            ),
            None => (AnyAddress::Seven(0), false),
        }
    }

    /// Waits for the next event on the bus. It reports an owed `Deselect`
    /// first; otherwise it takes up the operation at hand, or the transaction
    /// sent, and yields a handler for it. With nothing sent it fails with
    /// `Other`, the controller being gone.
    pub fn listen(&mut self) -> (r: Result<Transaction<OnRead<'_>, OnWrite<'_>>, ErrorKind>)
        requires
            old(self)@.wf(),
        ensures
            r is Err <==> old(self)@.listened().0 is Idle,
            r matches Err(e) ==> e == ErrorKind::Other && final(self)@ == old(self)@,
            r matches Ok(t) ==> heard(t) == old(self)@.listened().0,
            r matches Ok(Transaction::Deselect) ==> final(self)@ == old(self)@.listened().1
                && final(self)@.wf(),
            r matches Ok(Transaction::Read { handler, .. }) ==> {
                &&& handler.model() == old(self)@.listened().1
                &&& handler.filled() == 0
                &&& !handler.started()
                &&& handler.wf()
                &&& *final(self) == *final(handler.target())
            },
            r matches Ok(Transaction::Write { handler, .. }) ==> {
                &&& handler.model() == old(self)@.listened().1
                &&& handler.filled() == 0
                &&& !handler.started()
                &&& handler.wf()
                &&& *final(self) == *final(handler.target())
            },
    {
        if self.need_to_report_deselect {
            self.need_to_report_deselect = false;
            return Ok(Transaction::Deselect);
        }
        if self.current_transaction.is_none() {
            match self.from_controller.take() {
                None => {
                    return Err(ErrorKind::Other);
                },
                Some(t) => {
                    if t.actions.len() == 0 {
                        self.reply = Some(Ok(t));
                        return Ok(Transaction::Deselect);
                    }
                    self.current_transaction = Some(PartialTransaction { transaction: t, current_op: 0 });
                },
            }
        }
        let (address, is_read) = self.current_kind();
        if is_read {
            Ok(Transaction::Read { address, handler: OnRead { inner: self, bytes_filled: 0, did_start: false } })
        } else {
            Ok(Transaction::Write { address, handler: OnWrite { inner: self, bytes_read: 0, did_start: false } })
        }
    }

    /// Listens expecting a write to `expected_address`. Such a write is
    /// received into `write_buffer` at once; anything else is reported as
    /// `listen` reports it, and `write_buffer` is left as it was.
    pub fn listen_expect_write<'b>(
        &'b mut self,
        expected_address: AnyAddress,
        write_buffer: &mut [u8],
    ) -> (r: Result<TransactionExpectWrite<OnRead<'b>, OnWrite<'b>>, ErrorKind>)
        requires
            old(self)@.wf(),
        ensures
            match expect_write(old(self)@, expected_address, old(write_buffer)@.len()) {
                ExpectedWrite::Handled(s) => {
                    &&& final(write_buffer)@ == overlay(s.received, old(write_buffer)@)
                    &&& match r {
                        Ok(TransactionExpectWrite::ExpectedCompleteWrite { size }) => {
                            &&& s.complete == Some(size as nat)
                            &&& final(self)@ == s.model
                            &&& s.model.wf()
                        },
                        Ok(TransactionExpectWrite::ExpectedPartialWrite { handler }) => {
                            &&& s.complete is None
                            &&& handler.wf()
                            &&& handler.model() == s.model
                            &&& handler.filled() == s.progress
                            &&& handler.started() == (old(write_buffer)@.len() > 0)
                            &&& *final(self) == *final(handler.target())
                        },
                        _ => false,
                    }
                },
                ExpectedWrite::Fallback(h, m1) => {
                    &&& final(write_buffer)@ == old(write_buffer)@
                    &&& match r {
                        Err(e) => h is Idle && e == ErrorKind::Other && final(self)@ == old(self)@,
                        Ok(TransactionExpectWrite::Deselect) => h is Deselect && final(self)@ == m1 && m1.wf(),
                        Ok(TransactionExpectWrite::Read { address, handler }) => {
                            &&& h == Heard::Read(address)
                            &&& handler.fresh(m1)
                            &&& *final(self) == *final(handler.target())
                        },
                        Ok(TransactionExpectWrite::Write { address, handler }) => {
                            &&& h == Heard::Write(address)
                            &&& handler.fresh(m1)
                            &&& *final(self) == *final(handler.target())
                        },
                        _ => false,
                    }
                },
            },
    {
        match self.listen() {
            Ok(Transaction::Write { address, handler }) => {
                if address == expected_address {
                    match handler.handle_part(write_buffer) {
                        Ok(WriteResult::Complete(size)) => Ok(
                            TransactionExpectWrite::ExpectedCompleteWrite { size },
                        ),
                        Ok(WriteResult::Partial(handler)) => Ok(
                            TransactionExpectWrite::ExpectedPartialWrite { handler },
                        ),
                        Err(e) => Err(e),
                    }
                } else {
                    Ok(TransactionExpectWrite::Write { address, handler })
                }
            },
            Ok(other) => Ok(TransactionExpectWrite::from(other)),
            Err(e) => Err(e),
        }
    }

    /// Listens expecting a read from `expected_address`. Such a read is
    /// served from `read_buffer` at once; anything else is reported as
    /// `listen` reports it.
    pub fn listen_expect_read<'b>(&'b mut self, expected_address: AnyAddress, read_buffer: &[u8]) -> (r:
        Result<TransactionExpectRead<OnRead<'b>, OnWrite<'b>>, ErrorKind>)
        requires
            old(self)@.wf(),
        ensures
            match expect_read(old(self)@, expected_address, read_buffer@) {
                ExpectedRead::Handled(s) => match r {
                    Ok(TransactionExpectRead::ExpectedCompleteRead { size }) => {
                        &&& s.complete == Some(size as nat)
                        &&& final(self)@ == s.model
                        &&& s.model.wf()
                    },
                    Ok(TransactionExpectRead::ExpectedPartialRead { handler }) => {
                        &&& s.complete is None
                        &&& handler.wf()
                        &&& handler.model() == s.model
                        &&& handler.filled() == s.filled
                        &&& handler.started() == (read_buffer@.len() > 0)
                        &&& *final(self) == *final(handler.target())
                    },
                    _ => false,
                },
                ExpectedRead::Fallback(h, m1) => match r {
                    Err(e) => h is Idle && e == ErrorKind::Other && final(self)@ == old(self)@,
                    Ok(TransactionExpectRead::Deselect) => h is Deselect && final(self)@ == m1 && m1.wf(),
                    Ok(TransactionExpectRead::Read { address, handler }) => {
                        &&& h == Heard::Read(address)
                        &&& handler.fresh(m1)
                        &&& *final(self) == *final(handler.target())
                    },
                    Ok(TransactionExpectRead::Write { address, handler }) => {
                        &&& h == Heard::Write(address)
                        &&& handler.fresh(m1)
                        &&& *final(self) == *final(handler.target())
                    },
                    _ => false,
                },
            },
    {
        match self.listen() {
            Ok(Transaction::Read { address, handler }) => {
                if address == expected_address {
                    match handler.handle_part(read_buffer) {
                        Ok(ReadResult::Complete(size)) => Ok(
                            TransactionExpectRead::ExpectedCompleteRead { size },
                        ),
                        Ok(ReadResult::Partial(handler)) => Ok(
                            TransactionExpectRead::ExpectedPartialRead { handler },
                        ),
                        Err(e) => Err(e),
                    }
                } else {
                    Ok(TransactionExpectRead::Read { address, handler })
                }
            },
            Ok(other) => Ok(TransactionExpectRead::from(other)),
            Err(e) => Err(e),
        }
    }

    /// Listens expecting either direction at `expected_address`: a read from
    /// it is served from `read_buffer`, a write to it received into
    /// `write_buffer`; anything else is reported as `listen` reports it.
    pub fn listen_expect_either<'b>(
        &'b mut self,
        expected_address: AnyAddress,
        read_buffer: &[u8],
        write_buffer: &mut [u8],
    ) -> (r: Result<TransactionExpectEither<OnRead<'b>, OnWrite<'b>>, ErrorKind>)
        requires
            old(self)@.wf(),
        ensures
            match expect_either(
                old(self)@,
                expected_address,
                read_buffer@,
                old(write_buffer)@.len(),
            ) {
                ExpectedEither::Read(s) => {
                    &&& final(write_buffer)@ == old(write_buffer)@
                    &&& match r {
                        Ok(TransactionExpectEither::ExpectedCompleteRead { size }) => {
                            &&& s.complete == Some(size as nat)
                            &&& final(self)@ == s.model
                            &&& s.model.wf()
                        },
                        Ok(TransactionExpectEither::ExpectedPartialRead { handler }) => {
                            &&& s.complete is None
                            &&& handler.wf()
                            &&& handler.model() == s.model
                            &&& handler.filled() == s.filled
                            &&& handler.started() == (read_buffer@.len() > 0)
                            &&& *final(self) == *final(handler.target())
                        },
                        _ => false,
                    }
                },
                ExpectedEither::Write(s) => {
                    &&& final(write_buffer)@ == overlay(s.received, old(write_buffer)@)
                    &&& match r {
                        Ok(TransactionExpectEither::ExpectedCompleteWrite { size }) => {
                            &&& s.complete == Some(size as nat)
                            &&& final(self)@ == s.model
                            &&& s.model.wf()
                        },
                        Ok(TransactionExpectEither::ExpectedPartialWrite { handler }) => {
                            &&& s.complete is None
                            &&& handler.wf()
                            &&& handler.model() == s.model
                            &&& handler.filled() == s.progress
                            &&& handler.started() == (old(write_buffer)@.len() > 0)
                            &&& *final(self) == *final(handler.target())
                        },
                        _ => false,
                    }
                },
                ExpectedEither::Fallback(h, m1) => {
                    &&& final(write_buffer)@ == old(write_buffer)@
                    &&& match r {
                        Err(e) => h is Idle && e == ErrorKind::Other && final(self)@ == old(self)@,
                        Ok(TransactionExpectEither::Deselect) => h is Deselect && final(self)@ == m1 && m1.wf(),
                        Ok(TransactionExpectEither::Read { address, handler }) => {
                            &&& h == Heard::Read(address)
                            &&& handler.fresh(m1)
                            &&& *final(self) == *final(handler.target())
                        },
                        Ok(TransactionExpectEither::Write { address, handler }) => {
                            &&& h == Heard::Write(address)
                            &&& handler.fresh(m1)
                            &&& *final(self) == *final(handler.target())
                        },
                        _ => false,
                    }
                },
            },
    {
        match self.listen() {
            Ok(Transaction::Read { address, handler }) => {
                if address == expected_address {
                    match handler.handle_part(read_buffer) {
                        Ok(ReadResult::Complete(size)) => Ok(
                            TransactionExpectEither::ExpectedCompleteRead { size },
                        ),
                        Ok(ReadResult::Partial(handler)) => Ok(
                            TransactionExpectEither::ExpectedPartialRead { handler },
                        ),
                        Err(e) => Err(e),
                    }
                } else {
                    Ok(TransactionExpectEither::Read { address, handler })
                }
            },
            Ok(Transaction::Write { address, handler }) => {
                if address == expected_address {
                    match handler.handle_part(write_buffer) {
                        Ok(WriteResult::Complete(size)) => Ok(
                            TransactionExpectEither::ExpectedCompleteWrite { size },
                        ),
                        Ok(WriteResult::Partial(handler)) => Ok(
                            TransactionExpectEither::ExpectedPartialWrite { handler },
                        ),
                        Err(e) => Err(e),
                    }
                } else {
                    Ok(TransactionExpectEither::Write { address, handler })
                }
            },
            Ok(other) => Ok(TransactionExpectEither::from(other)),
            Err(e) => Err(e),
        }
    }
}

/// Handler of a read the controller addressed to the target.
///
/// Its first call acknowledges the address. It must end with a `Complete`
/// result, a `handle_complete` or a `release`.
pub struct OnRead<'a> {
    inner: &'a mut SimTarget,
    bytes_filled: usize,
    did_start: bool,
}

impl<'a> OnRead<'a> {
    pub closed spec fn model(self) -> TargetModel {
        (*self.inner)@
    }

    pub closed spec fn filled(self) -> nat {
        self.bytes_filled as nat
    }

    pub closed spec fn started(self) -> bool {
        self.did_start
    }

    pub closed spec fn target(self) -> &'a mut SimTarget {
        self.inner
    }

    pub open spec fn wf(self) -> bool {
        read_live(self.model(), self.filled(), self.started())
    }

    /// Just yielded for a target in state `m`: nothing supplied yet.
    pub open spec fn fresh(self, m: TargetModel) -> bool {
        self.wf() && self.model() == m && self.filled() == 0 && !self.started()
    }

    /// Hands `buffer` to the controller. `Complete(n)` when the read ended
    /// after `n` of its bytes, `Partial` when all were taken and the
    /// controller wants more. An empty `buffer` changes nothing.
    pub fn handle_part(self, buffer: &[u8]) -> (r: Result<ReadResult<OnRead<'a>>, ErrorKind>)
        requires
            self.wf(),
        ensures
            ({
                let s = read_part(self.model(), self.filled(), buffer@);
                match r {
                    Ok(ReadResult::Partial(h)) => {
                        &&& s.complete is None
                        &&& h.wf()
                        &&& h.model() == s.model
                        &&& h.filled() == s.filled
                        &&& h.started() == (self.started() || buffer@.len() > 0)
                        &&& *final(h.target()) == *final(self.target())
                    },
                    Ok(ReadResult::Complete(n)) => {
                        &&& s.complete == Some(n as nat)
                        &&& (*final(self.target()))@ == s.model
                        &&& s.model.wf()
                    },
                    Err(_) => false,
                }
            }),
    {
        let OnRead { inner, bytes_filled, did_start } = self;
        if buffer.len() == 0 {
            return Ok(ReadResult::Partial(OnRead { inner, bytes_filled, did_start }));
        }
        let len = inner.current_len();
        let remaining = len - bytes_filled;
        let n = if remaining < buffer.len() {
            remaining
        } else {
            buffer.len()
        };
        inner.store_read(bytes_filled, buffer, n);
        let filled = bytes_filled + n;
        if filled == len {
            inner.advance();
            Ok(ReadResult::Complete(n))
        } else {
            Ok(ReadResult::Partial(OnRead { inner, bytes_filled: filled, did_start: true }))
        }
    }

    /// Hands `buffer` to the controller and then `ovc` for as long as it
    /// reads, ending the read. Returns the number of bytes it took.
    pub fn handle_complete(self, buffer: &[u8], ovc: u8) -> (r: Result<usize, ErrorKind>)
        requires
            self.wf(),
        ensures
            ({
                let (m, k) = read_completed(self.model(), self.filled(), buffer@, ovc);
                &&& k <= usize::MAX
                &&& r == Ok::<usize, ErrorKind>(k as usize)
                &&& (*final(self.target()))@ == m
                &&& m.wf()
            }),
    {
        let ghost m0 = self.model();
        let ghost f0 = self.filled();
        let ghost data0 = m0.op_data();
        let ghost k = (data0.len() - f0) as nat;
        let op_len = self.inner.current_len();
        match self.handle_part(buffer) {
            Ok(ReadResult::Complete(size)) => {
                assert(data0.subrange(0, f0 as int) + buffer@.subrange(0, size as int)
                    + data0.subrange(f0 + size, data0.len() as int) =~= supplied(
                    data0,
                    f0,
                    buffer@,
                    ovc,
                    k,
                ));
                Ok(size)
            },
            Ok(ReadResult::Partial(first)) => {
                let mut this = first;
                let mut total: usize = buffer.len();
                let one: [u8; 1] = [ovc];
                proof {
                    let start = supplied(data0, f0, buffer@, ovc, total as nat);
                    if buffer@.len() > 0 {
                        lemma_with_op_twice(m0, m0.current(), OpModel::Read(start));
                        assert(data0.subrange(0, f0 as int) + buffer@.subrange(0, total as int)
                            + data0.subrange(f0 + total, data0.len() as int) =~= start);
                    } else {
                        let a = m0.active->Some_0;
                        assert(a.transaction.ops.update(a.op as int, m0.current())
                            =~= a.transaction.ops);
                        assert(start =~= data0);
                    }
                }
                // Each round supplies one more overrun byte, until the
                // controller stops reading.
                loop
                    invariant
                        this.wf(),
                        *final(this.target()) == *final(self.target()),
                        buffer@.len() <= total <= k,
                        this.filled() == f0 + total,
                        this.started() == (self.started() || total > 0),
                        m0 == self.model(),
                        f0 == self.filled(),
                        m0.wf(),
                        m0.reading(),
                        data0 == m0.op_data(),
                        k == data0.len() - f0,
                        op_len == data0.len(),
                        one@ == seq![ovc],
                        this.model() == m0.with_op(
                            OpModel::Read(supplied(data0, f0, buffer@, ovc, total as nat)),
                        ),
                    decreases k - total,
                {
                    let ghost cur_data = supplied(data0, f0, buffer@, ovc, total as nat);
                    let ghost at = f0 + total;
                    proof {
                        assert(this.model().op_data() == cur_data);
                        if total < k {
                            let next = supplied(data0, f0, buffer@, ovc, (total + 1) as nat);
                            lemma_with_op_twice(m0, OpModel::Read(cur_data), OpModel::Read(next));
                            assert(cur_data.subrange(0, at as int) + seq![ovc].subrange(0, 1)
                                + cur_data.subrange(at + 1, data0.len() as int) =~= next);
                        }
                    }
                    match this.handle_part(&one) {
                        Ok(ReadResult::Complete(extra)) => {
                            proof {
                                let done = supplied(data0, f0, buffer@, ovc, k);
                                assert(cur_data.subrange(0, at as int) + seq![ovc].subrange(
                                    0,
                                    extra as int,
                                ) + cur_data.subrange(at + extra, data0.len() as int) =~= done);
                                lemma_with_op_twice(m0, OpModel::Read(cur_data), OpModel::Read(done));
                            }
                            return Ok(total + extra);
                        },
                        Ok(ReadResult::Partial(h)) => {
                            this = h;
                            total = total + 1;
                        },
                        Err(e) => {
                            return Err(e);
                        },
                    }
                }
            },
            Err(e) => Err(e),
        }
    }

    /// Lets the handler go: unused, the address is not acknowledged; used,
    /// the rest of the read gets the overrun byte.
    pub fn release(self)
        requires
            self.wf(),
        ensures
            (*final(self.target()))@ == read_released(self.model(), self.filled(), self.started()),
            (*final(self.target()))@.wf(),
    {
        let OnRead { inner, bytes_filled, did_start } = self;
        if !did_start {
            inner.nak(NoAcknowledgeSource::Address);
        } else {
            inner.fill_read(bytes_filled, OVERRUN_FILL);
            inner.advance();
        }
    }
}

/// Handler of a write the controller addressed to the target.
///
/// Its first call acknowledges the address. It must end with a `Complete`
/// result, a `handle_complete` or a `release`.
pub struct OnWrite<'a> {
    inner: &'a mut SimTarget,
    bytes_read: usize,
    did_start: bool,
}

impl<'a> OnWrite<'a> {
    pub closed spec fn model(self) -> TargetModel {
        (*self.inner)@
    }

    pub closed spec fn filled(self) -> nat {
        self.bytes_read as nat
    }

    pub closed spec fn started(self) -> bool {
        self.did_start
    }

    pub closed spec fn target(self) -> &'a mut SimTarget {
        self.inner
    }

    pub open spec fn wf(self) -> bool {
        write_live(self.model(), self.filled(), self.started())
    }

    /// Just yielded for a target in state `m`: nothing received yet.
    pub open spec fn fresh(self, m: TargetModel) -> bool {
        self.wf() && self.model() == m && self.filled() == 0 && !self.started()
    }

    /// Receives into `buffer`. `Complete(n)` when the write ended after `n`
    /// bytes, all acknowledged; `Partial` when `buffer` is full, its last
    /// byte not yet acknowledged. An empty `buffer` changes nothing.
    pub fn handle_part(self, buffer: &mut [u8]) -> (r: Result<WriteResult<OnWrite<'a>>, ErrorKind>)
        requires
            self.wf(),
        ensures
            ({
                let s = write_part(self.model(), self.filled(), old(buffer)@.len());
                &&& final(buffer)@ == overlay(s.received, old(buffer)@)
                &&& match r {
                    Ok(WriteResult::Partial(h)) => {
                        &&& s.complete is None
                        &&& h.wf()
                        &&& h.model() == s.model
                        &&& h.filled() == s.progress
                        &&& h.started() == (self.started() || old(buffer)@.len() > 0)
                        &&& *final(h.target()) == *final(self.target())
                    },
                    Ok(WriteResult::Complete(n)) => {
                        &&& s.complete == Some(n as nat)
                        &&& (*final(self.target()))@ == s.model
                        &&& s.model.wf()
                    },
                    Err(_) => false,
                }
            }),
    {
        let OnWrite { inner, bytes_read, did_start } = self;
        if buffer.len() == 0 {
            assert(buffer@ =~= overlay(Seq::empty(), buffer@));
            return Ok(WriteResult::Partial(OnWrite { inner, bytes_read, did_start }));
        }
        let len = inner.current_len();
        let remaining = len - bytes_read;
        let n = if remaining < buffer.len() {
            remaining
        } else {
            buffer.len()
        };
        inner.load_write(bytes_read, buffer, n);
        let read = bytes_read + n;
        if read == len && n < buffer.len() {
            inner.advance();
            Ok(WriteResult::Complete(n))
        } else {
            Ok(WriteResult::Partial(OnWrite { inner, bytes_read: read, did_start: true }))
        }
    }

    /// Lets the handler go: unused, the address is not acknowledged; used,
    /// the byte it holds is not.
    pub fn release(self)
        requires
            self.wf(),
        ensures
            (*final(self.target()))@ == write_released(self.model(), self.started()),
            (*final(self.target()))@.wf(),
    {
        let OnWrite { inner, bytes_read, did_start } = self;
        if !did_start {
            inner.nak(NoAcknowledgeSource::Address);
        } else {
            inner.nak(NoAcknowledgeSource::Data);
        }
    }

    /// Receives the rest of the write into `buffer` and ends it: every byte
    /// that fits is acknowledged, a byte beyond `buffer` is not. Returns the
    /// number of bytes received.
    pub fn handle_complete(self, buffer: &mut [u8]) -> (r: Result<usize, ErrorKind>)
        requires
            self.wf(),
        ensures
            ({
                let s = write_completed(self.model(), self.filled(), old(buffer)@.len());
                &&& r == Ok::<usize, ErrorKind>(s.complete->Some_0 as usize)
                &&& final(buffer)@ == overlay(s.received, old(buffer)@)
                &&& (*final(self.target()))@ == s.model
                &&& s.model.wf()
            }),
    {
        let ghost m = self.model();
        let ghost p = self.filled();
        let ghost orig = buffer@;
        match self.handle_part(buffer) {
            Ok(WriteResult::Complete(size)) => Ok(size),
            Ok(WriteResult::Partial(handler)) => {
                let mut probe: [u8; 1] = [0u8];
                match handler.handle_part(&mut probe) {
                    Ok(WriteResult::Partial(h)) => {
                        h.release();
                    },
                    Ok(WriteResult::Complete(_)) => {},
                    Err(e) => {
                        return Err(e);
                    },
                }
                assert(buffer@ =~= overlay(
                    write_completed(m, p, orig.len()).received,
                    orig,
                ));
                Ok(buffer.len())
            },
            Err(e) => Err(e),
        }
    }
}

impl I2cTarget for SimTarget {
    type Read<'a> = OnRead<'a>;

    type Write<'a> = OnWrite<'a>;

    open spec fn ready(&self) -> bool {
        self@.wf()
    }

    open spec fn next_event(&self) -> Heard {
        self@.listened().0
    }

    open spec fn next_read_len(&self) -> nat {
        self@.listened().1.op_data().len()
    }

    open spec fn next_write(&self) -> Seq<u8> {
        self@.listened().1.op_data()
    }

    fn listen(&mut self) -> (r: Result<Transaction<OnRead<'_>, OnWrite<'_>>, ErrorKind>) {
        let r = SimTarget::listen(self);
        proof {
            assert(r matches Ok(Transaction::Write { handler, .. }) ==> handler.pending()
                =~= handler.model().op_data());
            assert(r matches Ok(Transaction::Read { handler, .. }) ==> handler.wanted()
                == handler.model().op_data().len());
        }
        r
    }
}

impl<'a> ReadTransaction for OnRead<'a> {
    open spec fn live(&self) -> bool {
        self.wf()
    }

    open spec fn wanted(&self) -> nat {
        (self.model().op_data().len() - self.filled()) as nat
    }

    fn handle_part(self, buffer: &[u8]) -> (r: Result<ReadResult<OnRead<'a>>, ErrorKind>) {
        OnRead::handle_part(self, buffer)
    }

    fn release(self) {
        OnRead::release(self)
    }
}

impl<'a> WriteTransaction for OnWrite<'a> {
    open spec fn live(&self) -> bool {
        self.wf()
    }

    open spec fn pending(&self) -> Seq<u8> {
        self.model().op_data().subrange(self.filled() as int, self.model().op_data().len() as int)
    }

    fn handle_part(self, buffer: &mut [u8]) -> (r: Result<WriteResult<OnWrite<'a>>, ErrorKind>) {
        let ghost data = self.model().op_data();
        let ghost p = self.filled();
        let r = OnWrite::handle_part(self, buffer);
        proof {
            assert(r matches Ok(WriteResult::Partial(h)) ==> h.pending() =~= self.pending().skip(
                old(buffer)@.len() as int,
            ));
            assert(r matches Ok(WriteResult::Partial(h)) ==> buffer@ =~= self.pending().take(
                old(buffer)@.len() as int,
            ));
        }
        r
    }

    fn release(self) {
        OnWrite::release(self)
    }
}

} // verus!
