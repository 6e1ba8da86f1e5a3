//! Properties of the simulated target that hold across calls.
use crate::address::AnyAddress;
use crate::descriptor::{OpModel, TransactionModel};
use crate::error::{ErrorKind, NoAcknowledgeSource};
use crate::model::{
    expect_read, expect_write, lemma_with_op_twice, read_completed, read_live, read_part,
    read_released, write_live,
    write_part, write_released, ExpectedRead, ExpectedWrite, Heard, ReadStep, TargetModel,
    WriteStep, OVERRUN_FILL,
};
use vstd::prelude::*;

verus! {

/// The next transaction, sent once the bus is free again, is reported as
/// that transaction's first operation, with no `Deselect` before it.
pub open spec fn reports_next(m: TargetModel, next: TransactionModel) -> bool {
    let m2 = m.collected();
    &&& m2.idle()
    &&& !m2.deselect_pending
    &&& m2.delivered(next).listened().0 == (if next.ops[0] is Read {
        Heard::Read(next.address)
    } else {
        Heard::Write(next.address)
    })
}

/// A transaction that ends on a byte not acknowledged is followed by exactly
/// one `Deselect`: the next `listen` reports it, and the `listen` after that
/// reports the controller's next transaction.
pub proof fn law_one_deselect_after_nack(
    m: TargetModel,
    src: NoAcknowledgeSource,
    next: TransactionModel,
)
    requires
        m.wf(),
        m.active is Some,
        next.ops.len() > 0,
    ensures
        m.nacked(src).listened().0 is Deselect,
        reports_next(m.nacked(src).listened().1, next),
{
}

/// A transaction whose last operation completes is followed by exactly one
/// `Deselect`, and then by the controller's next transaction.
pub proof fn law_one_deselect_after_last_op(m: TargetModel, next: TransactionModel)
    requires
        m.wf(),
        m.active is Some,
        m.active->Some_0.op + 1 == m.active->Some_0.transaction.ops.len(),
        next.ops.len() > 0,
    ensures
        m.advanced().listened().0 is Deselect,
        reports_next(m.advanced().listened().1, next),
{
}

/// No `Deselect` is reported inside a transaction: while one is in progress,
/// `listen` reports its operation at hand, and finishing an operation that is
/// not the last keeps the transaction going.
pub proof fn law_no_deselect_within_transaction(m: TargetModel)
    requires
        m.wf(),
        m.active is Some,
    ensures
        m.listened().0 is Read || m.listened().0 is Write,
        m.active->Some_0.op + 1 < m.active->Some_0.transaction.ops.len() ==> {
            &&& m.advanced().active is Some
            &&& m.advanced().wf()
            &&& !(m.advanced().listened().0 is Deselect)
        },
{
}

/// Releasing a handler nobody used makes the controller see its address not
/// acknowledged; releasing a write handler that holds a byte makes it see
/// that data byte not acknowledged.
pub proof fn law_release_decides_acknowledge(m: TargetModel, filled: nat)
    requires
        m.wf(),
        m.active is Some,
    ensures
        read_live(m, 0, false) ==> read_released(m, 0, false).reply == Some(
            Err::<TransactionModel, ErrorKind>(ErrorKind::NoAcknowledge(NoAcknowledgeSource::Address)),
        ),
        write_live(m, 0, false) ==> write_released(m, false).reply == Some(
            Err::<TransactionModel, ErrorKind>(ErrorKind::NoAcknowledge(NoAcknowledgeSource::Address)),
        ),
        write_live(m, filled, true) ==> write_released(m, true).reply == Some(
            Err::<TransactionModel, ErrorKind>(ErrorKind::NoAcknowledge(NoAcknowledgeSource::Data)),
        ),
{
}

/// Supplying the parts `parts` in turn to a read handler with `filled`
/// bytes supplied, until the read completes: the step reached, and the number
/// of bytes reported, by each `Partial` for its whole part and by the final
/// `Complete(n)` for its `n`.
pub open spec fn read_chain(m: TargetModel, filled: nat, parts: Seq<Seq<u8>>) -> (ReadStep, nat)
    decreases parts.len(),
{
    if parts.len() == 0 {
        (ReadStep { model: m, filled, complete: None }, 0)
    } else {
        let s = read_part(m, filled, parts[0]);
        if s.complete is Some {
            (s, s.complete->Some_0)
        } else {
            let (t, k) = read_chain(s.model, s.filled, parts.drop_first());
            (t, parts[0].len() + k)
        }
    }
}

/// Receiving into buffers of the lengths `lens` in turn from a write handler
/// with `progress` bytes received, until the write completes: the step
/// reached, and the number of bytes reported.
pub open spec fn write_chain(m: TargetModel, progress: nat, lens: Seq<nat>) -> (WriteStep, nat)
    decreases lens.len(),
{
    if lens.len() == 0 {
        (WriteStep { model: m, progress, received: Seq::empty(), complete: None }, 0)
    } else {
        let s = write_part(m, progress, lens[0]);
        if s.complete is Some {
            (s, s.complete->Some_0)
        } else {
            let (t, k) = write_chain(s.model, s.progress, lens.drop_first());
            (t, lens[0] + k)
        }
    }
}

/// The bytes a read handler reports, over any sequence of parts that ends
/// the read, add up to the bytes the controller reads; while it has not
/// ended, they add up to the bytes supplied so far.
pub proof fn law_read_bytes_conserved(
    m: TargetModel,
    filled: nat,
    started: bool,
    parts: Seq<Seq<u8>>,
)
    requires
        read_live(m, filled, started),
    ensures
        ({
            let (s, k) = read_chain(m, filled, parts);
            &&& s.complete is Some ==> filled + k == m.op_data().len()
            &&& s.complete is None ==> s.filled == filled + k && read_live(
                s.model,
                s.filled,
                started || k > 0 || s.filled > 0,
            ) && s.model.op_data().len() == m.op_data().len()
        }),
    decreases parts.len(),
{
    if parts.len() > 0 {
        let s = read_part(m, filled, parts[0]);
        if s.complete is None {
            let m1 = s.model;
            if parts[0].len() > 0 {
                assert(m1.active == m.with_op(m1.current()).active);
            }
            law_read_bytes_conserved(
                s.model,
                s.filled,
                started || parts[0].len() > 0,
                parts.drop_first(),
            );
        }
    }
}

/// The bytes a write handler reports, over any sequence of buffers that ends
/// the write, add up to the bytes the controller wrote; while it has not
/// ended, they add up to the bytes received so far.
pub proof fn law_write_bytes_conserved(
    m: TargetModel,
    progress: nat,
    started: bool,
    lens: Seq<nat>,
)
    requires
        write_live(m, progress, started),
    ensures
        ({
            let (s, k) = write_chain(m, progress, lens);
            &&& s.complete is Some ==> progress + k == m.op_data().len()
            &&& s.complete is None ==> s.progress == progress + k && write_live(
                s.model,
                s.progress,
                started || k > 0 || s.progress > 0,
            ) && s.model == m
        }),
    decreases lens.len(),
{
    if lens.len() > 0 {
        let s = write_part(m, progress, lens[0]);
        if s.complete is None {
            law_write_bytes_conserved(s.model, s.progress, started || lens[0] > 0, lens.drop_first());
        }
    }
}

/// The parts joined in order.
pub open spec fn joined(parts: Seq<Seq<u8>>) -> Seq<u8>
    decreases parts.len(),
{
    if parts.len() == 0 {
        Seq::empty()
    } else {
        parts[0] + joined(parts.drop_first())
    }
}

/// The transaction a step left: still in progress, or handed back to the
/// controller.
pub open spec fn transaction_after(done: TargetModel) -> TransactionModel {
    if done.active is Some {
        done.active->Some_0.transaction
    } else {
        done.reply->Some_0->Ok_0
    }
}

/// When a sequence of parts ends a read, the controller's read holds the
/// bytes supplied before, then the parts joined, as many as were reported.
pub proof fn law_read_bytes_delivered(
    m: TargetModel,
    filled: nat,
    started: bool,
    parts: Seq<Seq<u8>>,
)
    requires
        read_live(m, filled, started),
        read_chain(m, filled, parts).0.complete is Some,
    ensures
        ({
            let (s, k) = read_chain(m, filled, parts);
            &&& k <= joined(parts).len()
            &&& transaction_after(s.model).ops[m.active->Some_0.op as int].data() == m.op_data().subrange(
                0,
                filled as int,
            ) + joined(parts).take(k as int)
        }),
    decreases parts.len(),
{
    let data = m.op_data();
    let p0 = parts[0];
    let rest = parts.drop_first();
    let s = read_part(m, filled, p0);
    assert(joined(parts) == p0 + joined(rest));
    if s.complete is Some {
        let n = s.complete->Some_0;
        assert(data.subrange(0, filled as int) + p0.subrange(0, n as int) + data.subrange(
            (filled + n) as int,
            data.len() as int,
        ) =~= data.subrange(0, filled as int) + joined(parts).take(n as int));
    } else {
        law_read_bytes_conserved(m, filled, started, seq![p0]);
        law_read_bytes_delivered(s.model, s.filled, started || p0.len() > 0, rest);
        let (t, k1) = read_chain(s.model, s.filled, rest);
        if p0.len() > 0 {
            lemma_with_op_twice(
                m,
                OpModel::Read(s.model.op_data()),
                OpModel::Read(s.model.op_data()),
            );
            assert(s.model.op_data().subrange(0, s.filled as int) =~= data.subrange(0, filled as int)
                + p0);
        }
        assert(joined(parts).take((p0.len() + k1) as int) =~= p0 + joined(rest).take(k1 as int));
        assert(s.model.op_data().subrange(0, s.filled as int) + joined(rest).take(k1 as int)
            =~= data.subrange(0, filled as int) + joined(parts).take((p0.len() + k1) as int));
    }
}

/// Handing an empty part to a handler changes nothing, however often.
pub proof fn law_empty_part_changes_nothing(m: TargetModel, filled: nat, count: nat)
    ensures
        read_part(m, filled, Seq::empty()) == (ReadStep { model: m, filled, complete: None }),
        write_part(m, filled, 0) == (WriteStep {
            model: m,
            progress: filled,
            received: Seq::empty(),
            complete: None,
        }),
        read_chain(m, filled, Seq::new(count, |i: int| Seq::<u8>::empty())) == (
        ReadStep { model: m, filled, complete: None },
        0nat,
        ),
    decreases count,
{
    if count > 0 {
        law_empty_part_changes_nothing(m, filled, (count - 1) as nat);
        assert(Seq::new(count, |i: int| Seq::<u8>::empty()).drop_first() =~= Seq::new(
            (count - 1) as nat,
            |i: int| Seq::<u8>::empty(),
        ));
    }
}

/// Listening for an expected write or read reports what `listen` reports
/// whenever the transaction is not the one expected: another address, or the
/// other direction, or a `Deselect`.
pub proof fn law_expect_falls_back(m: TargetModel, expected: AnyAddress, buf: Seq<u8>, len: nat)
    ensures
        m.listened().0 != Heard::Write(expected) ==> expect_write(m, expected, len)
            == ExpectedWrite::Fallback(m.listened().0, m.listened().1),
        m.listened().0 != Heard::Read(expected) ==> expect_read(m, expected, buf)
            == ExpectedRead::Fallback(m.listened().0, m.listened().1),
{
}

/// A read the handler leaves short gets the overrun byte for the rest: the
/// one passed to `handle_complete`, or the fixed one on release.
pub proof fn law_overrun_fill(m: TargetModel, filled: nat, started: bool, buf: Seq<u8>, ovc: u8)
    requires
        read_live(m, filled, started),
    ensures
        ({
            let data = m.op_data();
            let done = read_completed(m, filled, buf, ovc).0;
            let a = m.active->Some_0;
            let t = if done.active is Some {
                done.active->Some_0.transaction
            } else {
                done.reply->Some_0->Ok_0
            };
            &&& forall|i: int|
                filled + buf.len() <= i < data.len() ==> #[trigger] t.ops[a.op as int].data()[i]
                    == ovc
            &&& forall|i: int|
                filled <= i < data.len() && i < filled + buf.len() ==> #[trigger] t.ops[a.op as int].data()[i]
                    == buf[i - filled]
        }),
        started ==> ({
            let data = m.op_data();
            let done = read_released(m, filled, started);
            let a = m.active->Some_0;
            let t = if done.active is Some {
                done.active->Some_0.transaction
            } else {
                done.reply->Some_0->Ok_0
            };
            forall|i: int| filled <= i < data.len() ==> #[trigger] t.ops[a.op as int].data()[i] == OVERRUN_FILL
        }),
{
}

} // verus!
