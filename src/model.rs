use crate::address::AnyAddress;
use crate::descriptor::{OpModel, TransactionModel};
use crate::error::{ErrorKind, NoAcknowledgeSource};
use crate::transaction::Transaction;
use vstd::prelude::*;

verus! {

/// The byte a controller reads for the part of a read that the target's
/// handler left unsupplied when it was released.
pub const OVERRUN_FILL: u8 = 0x2a;

/// A transaction the target is working through: `op` is the index of the
/// operation at hand.
pub struct ActiveModel {
    pub transaction: TransactionModel,
    pub op: nat,
}

/// The simulated target as the specifications see it.
pub struct TargetModel {
    /// The transaction in progress.
    pub active: Option<ActiveModel>,
    /// A transaction the controller sent that the target has not taken up.
    pub queued: Option<TransactionModel>,
    /// The answer to the controller's last transaction, not yet collected:
    /// the descriptor with its reads filled in, or the byte not acknowledged.
    pub reply: Option<Result<TransactionModel, ErrorKind>>,
    /// A `Deselect` is owed to the next `listen`.
    pub deselect_pending: bool,
}

/// What one `listen` reports, without the handler.
pub enum Heard {
    /// Nothing was sent: the controller is gone or has nothing to say.
    Idle,
    Deselect,
    Read(AnyAddress),
    Write(AnyAddress),
}

pub open spec fn heard<R, W>(t: Transaction<R, W>) -> Heard {
    match t {
        Transaction::Deselect => Heard::Deselect,
        Transaction::Read { address, .. } => Heard::Read(address),
        Transaction::Write { address, .. } => Heard::Write(address),
    }
}

pub open spec fn min_nat(a: nat, b: nat) -> nat {
    if a < b {
        a
    } else {
        b
    }
}

/// The first `k` bytes of `buf` followed by `ovc` up to length `k`.
pub open spec fn fill_from(buf: Seq<u8>, ovc: u8, k: nat) -> Seq<u8> {
    Seq::new(k, |i: int| if i < buf.len() { buf[i] } else { ovc })
}

/// The bytes of a read once `count` more are supplied from byte `from` on:
/// those of `buf`, then `ovc`.
pub open spec fn supplied(data: Seq<u8>, from: nat, buf: Seq<u8>, ovc: u8, count: nat) -> Seq<u8> {
    data.subrange(0, from as int) + fill_from(buf, ovc, count) + data.subrange(
        (from + count) as int,
        data.len() as int,
    )
}

/// `buf` with its first bytes replaced by `received`.
pub open spec fn overlay(received: Seq<u8>, buf: Seq<u8>) -> Seq<u8> {
    received + buf.subrange(received.len() as int, buf.len() as int)
}

impl TargetModel {
    pub open spec fn empty() -> TargetModel {
        TargetModel { active: None, queued: None, reply: None, deselect_pending: false }
    }

    pub open spec fn wf(self) -> bool {
        &&& self.active matches Some(a) ==> {
            &&& a.op < a.transaction.ops.len()
            &&& self.queued is None
            &&& self.reply is None
            &&& !self.deselect_pending
        }
        &&& self.reply is Some ==> self.queued is None
    }

    /// Nothing is sent, in progress or unanswered: the controller may send.
    pub open spec fn idle(self) -> bool {
        self.active is None && self.queued is None && self.reply is None
    }

    pub open spec fn delivered(self, t: TransactionModel) -> TargetModel {
        TargetModel { queued: Some(t), ..self }
    }

    pub open spec fn collected(self) -> TargetModel {
        TargetModel { reply: None, ..self }
    }

    pub open spec fn current(self) -> OpModel {
        self.active->Some_0.transaction.ops[self.active->Some_0.op as int]
    }

    pub open spec fn op_data(self) -> Seq<u8> {
        self.current().data()
    }

    pub open spec fn reading(self) -> bool {
        self.active is Some && self.current() is Read
    }

    pub open spec fn writing(self) -> bool {
        self.active is Some && self.current() is Write
    }

    /// The operation at hand replaced by `o`.
    pub open spec fn with_op(self, o: OpModel) -> TargetModel {
        let a = self.active->Some_0;
        TargetModel {
            active: Some(
                ActiveModel {
                    transaction: TransactionModel {
                        ops: a.transaction.ops.update(a.op as int, o),
                        ..a.transaction
                    },
                    ..a
                },
            ),
            ..self
        }
    }

    /// The operation at hand is over: the next one follows, or after the last
    /// the controller gets the descriptor back and a `Deselect` is owed.
    pub open spec fn advanced(self) -> TargetModel {
        let a = self.active->Some_0;
        if a.op + 1 < a.transaction.ops.len() {
            TargetModel { active: Some(ActiveModel { op: a.op + 1, ..a }), ..self }
        } else {
            TargetModel {
                active: None,
                reply: Some(Ok(a.transaction)),
                deselect_pending: true,
                ..self
            }
        }
    }

    /// The transaction ends on a byte not acknowledged.
    pub open spec fn nacked(self, src: NoAcknowledgeSource) -> TargetModel {
        TargetModel {
            active: None,
            reply: Some(Err(ErrorKind::NoAcknowledge(src))),
            deselect_pending: true,
            ..self
        }
    }

    /// The operation at hand, reported.
    pub open spec fn presented(self) -> (Heard, TargetModel) {
        let a = self.active->Some_0;
        match a.transaction.ops[a.op as int] {
            OpModel::Read(_) => (Heard::Read(a.transaction.address), self),
            OpModel::Write(_) => (Heard::Write(a.transaction.address), self),
        }
    }

    /// What `listen` reports and the state it leaves.
    pub open spec fn listened(self) -> (Heard, TargetModel) {
        if self.deselect_pending {
            (Heard::Deselect, TargetModel { deselect_pending: false, ..self })
        } else if self.active is Some {
            self.presented()
        } else if self.queued is Some {
            let t = self.queued->Some_0;
            if t.ops.len() == 0 {
                (Heard::Deselect, TargetModel { queued: None, reply: Some(Ok(t)), ..self })
            } else {
                TargetModel {
                    active: Some(ActiveModel { transaction: t, op: 0 }),
                    queued: None,
                    ..self
                }.presented()
            }
        } else {
            (Heard::Idle, self)
        }
    }
}

/// The state of a live read handler: the operation at hand is a read,
/// `filled` of its bytes are supplied, and once the address is acknowledged
/// at least one is still to come.
pub open spec fn read_live(m: TargetModel, filled: nat, started: bool) -> bool {
    &&& m.wf()
    &&& m.reading()
    &&& filled <= m.op_data().len()
    &&& !started ==> filled == 0
    &&& started ==> filled < m.op_data().len()
}

/// The state of a live write handler: the operation at hand is a write and
/// `progress` of its bytes are received.
pub open spec fn write_live(m: TargetModel, progress: nat, started: bool) -> bool {
    &&& m.wf()
    &&& m.writing()
    &&& progress <= m.op_data().len()
    &&& !started ==> progress == 0
}

/// The outcome of one step of a read handler.
pub struct ReadStep {
    pub model: TargetModel,
    pub filled: nat,
    /// `Some(n)`: the read ended after the controller took `n` of the bytes.
    pub complete: Option<nat>,
}

/// Supplying `buf` to a read that has `filled` bytes: the controller takes
/// as many as it still wants; an empty `buf` changes nothing.
pub open spec fn read_part(m: TargetModel, filled: nat, buf: Seq<u8>) -> ReadStep {
    if buf.len() == 0 {
        ReadStep { model: m, filled, complete: None }
    } else {
        let data = m.op_data();
        let n = min_nat((data.len() - filled) as nat, buf.len());
        let m1 = m.with_op(
            OpModel::Read(
                data.subrange(0, filled as int) + buf.subrange(0, n as int) + data.subrange(
                    (filled + n) as int,
                    data.len() as int,
                ),
            ),
        );
        if filled + n == data.len() {
            ReadStep { model: m1.advanced(), filled: 0, complete: Some(n) }
        } else {
            ReadStep { model: m1, filled: filled + n, complete: None }
        }
    }
}

/// Supplying `buf` and then `ovc` for as long as the controller reads: the
/// controller takes all it asked for.
pub open spec fn read_completed(m: TargetModel, filled: nat, buf: Seq<u8>, ovc: u8) -> (
    TargetModel,
    nat,
) {
    let data = m.op_data();
    let k = (data.len() - filled) as nat;
    (m.with_op(OpModel::Read(data.subrange(0, filled as int) + fill_from(buf, ovc, k))).advanced(), k)
}

/// Releasing a read handler: unused, the address is not acknowledged; used,
/// the rest of the read is filled with the overrun byte.
pub open spec fn read_released(m: TargetModel, filled: nat, started: bool) -> TargetModel {
    if !started {
        m.nacked(NoAcknowledgeSource::Address)
    } else {
        let data = m.op_data();
        m.with_op(
            OpModel::Read(
                data.subrange(0, filled as int) + Seq::new(
                    (data.len() - filled) as nat,
                    |i: int| OVERRUN_FILL,
                ),
            ),
        ).advanced()
    }
}

/// The outcome of one step of a write handler.
pub struct WriteStep {
    pub model: TargetModel,
    pub progress: nat,
    /// The bytes placed at the start of the caller's buffer.
    pub received: Seq<u8>,
    /// `Some(n)`: the write ended after `n` more bytes, all acknowledged.
    pub complete: Option<nat>,
}

/// Receiving into a buffer of `len` bytes from a write with `progress` bytes
/// received: the write ends within the buffer, or fills it and its last byte
/// waits; an empty buffer changes nothing.
pub open spec fn write_part(m: TargetModel, progress: nat, len: nat) -> WriteStep {
    if len == 0 {
        WriteStep { model: m, progress, received: Seq::empty(), complete: None }
    } else {
        let data = m.op_data();
        let n = min_nat((data.len() - progress) as nat, len);
        let received = data.subrange(progress as int, (progress + n) as int);
        if progress + n == data.len() && n < len {
            WriteStep { model: m.advanced(), progress: 0, received, complete: Some(n) }
        } else {
            WriteStep { model: m, progress: progress + n, received, complete: None }
        }
    }
}

/// Receiving the rest of a write into a buffer of `len` bytes: every byte
/// that fits is acknowledged, and a byte beyond the buffer is not.
pub open spec fn write_completed(m: TargetModel, progress: nat, len: nat) -> WriteStep {
    let data = m.op_data();
    let avail = (data.len() - progress) as nat;
    if avail <= len {
        WriteStep {
            model: m.advanced(),
            progress: 0,
            received: data.subrange(progress as int, data.len() as int),
            complete: Some(avail),
        }
    } else {
        WriteStep {
            model: m.nacked(NoAcknowledgeSource::Data),
            progress: 0,
            received: data.subrange(progress as int, (progress + len) as int),
            complete: Some(len),
        }
    }
}

/// Releasing a write handler: unused, the address is not acknowledged; used,
/// the byte it holds is not.
pub open spec fn write_released(m: TargetModel, started: bool) -> TargetModel {
    if started {
        m.nacked(NoAcknowledgeSource::Data)
    } else {
        m.nacked(NoAcknowledgeSource::Address)
    }
}

/// What `listen_expect_write` does: the same as `listen`, unless the
/// transaction is a write to the expected address, which it then receives
/// into the buffer of `len` bytes.
pub enum ExpectedWrite {
    Fallback(Heard, TargetModel),
    Handled(WriteStep),
}

pub open spec fn expect_write(m: TargetModel, expected: AnyAddress, len: nat) -> ExpectedWrite {
    let (h, m1) = m.listened();
    if h == Heard::Write(expected) {
        ExpectedWrite::Handled(write_part(m1, 0, len))
    } else {
        ExpectedWrite::Fallback(h, m1)
    }
}

/// What `listen_expect_read` does: the same as `listen`, unless the
/// transaction is a read from the expected address, which it then serves
/// with `buf`.
pub enum ExpectedRead {
    Fallback(Heard, TargetModel),
    Handled(ReadStep),
}

pub open spec fn expect_read(m: TargetModel, expected: AnyAddress, buf: Seq<u8>) -> ExpectedRead {
    let (h, m1) = m.listened();
    if h == Heard::Read(expected) {
        ExpectedRead::Handled(read_part(m1, 0, buf))
    } else {
        ExpectedRead::Fallback(h, m1)
    }
}

/// What `listen_expect_either` does: the direction the controller chose
/// decides which of the two buffers serves a transaction to the expected
/// address; any other event is reported as `listen` reports it.
pub enum ExpectedEither {
    Fallback(Heard, TargetModel),
    Read(ReadStep),
    Write(WriteStep),
}

pub open spec fn expect_either(
    m: TargetModel,
    expected: AnyAddress,
    read_buf: Seq<u8>,
    write_len: nat,
) -> ExpectedEither {
    let (h, m1) = m.listened();
    if h == Heard::Read(expected) {
        ExpectedEither::Read(read_part(m1, 0, read_buf))
    } else if h == Heard::Write(expected) {
        ExpectedEither::Write(write_part(m1, 0, write_len))
    } else {
        ExpectedEither::Fallback(h, m1)
    }
}

/// Supplying `buf` and then completing with nothing more comes to the same
/// as completing with `buf`.
pub proof fn lemma_part_then_complete(
    m: TargetModel,
    filled: nat,
    started: bool,
    buf: Seq<u8>,
    ovc: u8,
)
    requires
        read_live(m, filled, started),
        buf.len() > 0,
    ensures
        ({
            let s = read_part(m, filled, buf);
            let (mc, k) = read_completed(m, filled, buf, ovc);
            &&& s.complete matches Some(n) ==> s.model == mc && n == k
            &&& s.complete is None ==> {
                &&& read_live(s.model, s.filled, true)
                &&& s.filled == filled + buf.len()
                &&& read_completed(s.model, s.filled, Seq::empty(), ovc).0 == mc
                &&& buf.len() + read_completed(s.model, s.filled, Seq::empty(), ovc).1 == k
            }
        }),
{
    let data = m.op_data();
    let s = read_part(m, filled, buf);
    let k = (data.len() - filled) as nat;
    if s.complete is Some {
        let n = s.complete->Some_0;
        assert(data.subrange(0, filled as int) + buf.subrange(0, n as int) + data.subrange(
            (filled + n) as int,
            data.len() as int,
        ) =~= data.subrange(0, filled as int) + fill_from(buf, ovc, k));
    } else {
        let d1 = data.subrange(0, filled as int) + buf.subrange(0, buf.len() as int)
            + data.subrange((filled + buf.len()) as int, data.len() as int);
        let f1 = filled + buf.len();
        lemma_with_op_twice(
            m,
            OpModel::Read(d1),
            OpModel::Read(d1.subrange(0, f1 as int) + fill_from(Seq::empty(), ovc, (data.len() - f1) as nat)),
        );
        assert(d1.subrange(0, f1 as int) + fill_from(Seq::empty(), ovc, (data.len() - f1) as nat)
            =~= data.subrange(0, filled as int) + fill_from(buf, ovc, k));
    }
}

pub proof fn lemma_with_op_twice(m: TargetModel, x: OpModel, y: OpModel)
    requires
        m.wf(),
        m.active is Some,
    ensures
        m.with_op(x).with_op(y) == m.with_op(y),
{
    let a = m.active->Some_0;
    assert(a.transaction.ops.update(a.op as int, x).update(a.op as int, y) =~= a.transaction.ops.update(
        a.op as int,
        y,
    ));
}

} // verus!
