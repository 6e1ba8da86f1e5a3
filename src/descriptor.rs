use crate::address::AnyAddress;
use vstd::prelude::*;

verus! {

/// The bytes of one operation as the specifications see them.
pub enum OpModel {
    Read(Seq<u8>),
    Write(Seq<u8>),
}

impl OpModel {
    pub open spec fn data(self) -> Seq<u8> {
        match self {
            OpModel::Read(d) => d,
            OpModel::Write(d) => d,
        }
    }

    /// Both are reads of one length, or both are writes.
    pub open spec fn same_shape(self, other: OpModel) -> bool {
        match (self, other) {
            (OpModel::Read(a), OpModel::Read(b)) => a.len() == b.len(),
            (OpModel::Write(_), OpModel::Write(_)) => true,
            _ => false,
        }
    }
}

/// A transaction as the specifications see it.
pub struct TransactionModel {
    pub address: AnyAddress,
    pub ops: Seq<OpModel>,
}

/// One operation of a transaction on its way between controller and target:
/// the buffer a read fills, or the bytes a write carries.
pub enum SimOp {
    Read(Vec<u8>),
    Write(Vec<u8>),
}

impl View for SimOp {
    type V = OpModel;

    open spec fn view(&self) -> OpModel {
        match self {
            SimOp::Read(b) => OpModel::Read(b@),
            SimOp::Write(b) => OpModel::Write(b@),
        }
    }
}

/// A transaction descriptor: the target address and the operations, in order.
pub struct SimTransaction {
    pub address: AnyAddress,
    pub actions: Vec<SimOp>,
}

impl View for SimTransaction {
    type V = TransactionModel;

    open spec fn view(&self) -> TransactionModel {
        TransactionModel { address: self.address, ops: self.actions@.map_values(|o: SimOp| o@) }
    }
}

/// An operation as a controller's caller states it: a buffer to read into,
/// or bytes to write.
pub enum Operation {
    Read(Vec<u8>),
    Write(Vec<u8>),
}

impl View for Operation {
    type V = OpModel;

    open spec fn view(&self) -> OpModel {
        match self {
            Operation::Read(b) => OpModel::Read(b@),
            Operation::Write(b) => OpModel::Write(b@),
        }
    }
}

pub open spec fn zeros(n: nat) -> Seq<u8> {
    Seq::new(n, |i: int| 0u8)
}

/// What the controller sends for one operation: a read becomes a zero-filled
/// buffer of its length, a write carries its bytes.
pub open spec fn requested(o: OpModel) -> OpModel {
    match o {
        OpModel::Read(d) => OpModel::Read(zeros(d.len())),
        OpModel::Write(d) => OpModel::Write(d),
    }
}

/// What the caller's operation holds once the reply `r` is copied into it:
/// a read takes the reply's bytes, a write is left as it was.
pub open spec fn replied(o: OpModel, r: OpModel) -> OpModel {
    match r {
        OpModel::Read(d) => OpModel::Read(d),
        OpModel::Write(_) => o,
    }
}

fn zeroed(n: usize) -> (r: Vec<u8>)
    ensures
        r@ == zeros(n as nat),
{
    let mut v: Vec<u8> = Vec::new();
    let mut i: usize = 0;
    while i < n
        invariant
            i <= n,
            v@ == zeros(i as nat),
        decreases n - i,
    {
        v.push(0u8);
        i = i + 1;
        assert(v@ =~= zeros(i as nat));
    }
    v
}

fn copied(b: &Vec<u8>) -> (r: Vec<u8>)
    ensures
        r@ == b@,
{
    let mut v: Vec<u8> = Vec::new();
    let mut i: usize = 0;
    while i < b.len()
        invariant
            i <= b.len(),
            v@ == b@.subrange(0, i as int),
        decreases b.len() - i,
    {
        v.push(b[i]);
        i = i + 1;
        assert(v@ =~= b@.subrange(0, i as int));
    }
    v
}

impl SimTransaction {
    /// The descriptor a controller sends for `operations` addressed to
    /// `address`: reads become zero-filled buffers of their length, writes
    /// carry their bytes.
    pub fn from_operations(address: AnyAddress, operations: &[Operation]) -> (r: SimTransaction)
        ensures
            r@.address == address,
            r@.ops == operations@.map_values(|o: Operation| requested(o@)),
    {
        let mut actions: Vec<SimOp> = Vec::new();
        let mut i: usize = 0;
        while i < operations.len()
            invariant
                i <= operations@.len(),
                actions@.len() == i,
                forall|k: int| 0 <= k < i ==> #[trigger] actions@[k]@ == requested(operations@[k]@),
            decreases operations@.len() - i,
        {
            let op = match &operations[i] {
                Operation::Read(b) => SimOp::Read(zeroed(b.len())),
                Operation::Write(b) => SimOp::Write(copied(b)),
            };
            actions.push(op);
            i = i + 1;
        }
        let r = SimTransaction { address, actions };
        assert(r@.ops =~= operations@.map_values(|o: Operation| requested(o@)));
        r
    }

    /// Copies what each read of this reply received into the caller's
    /// matching operation; writes are left as they are.
    pub fn copy_to_ops(self, operations: &mut [Operation])
        requires
            forall|i: int|
                0 <= i < self.actions@.len() && i < old(operations)@.len() ==> (
                #[trigger] self.actions@[i])@.same_shape(old(operations)@[i]@),
        ensures
            final(operations)@.len() == old(operations)@.len(),
            forall|i: int|
                0 <= i < old(operations)@.len() ==> #[trigger] final(operations)@[i]@ == (if i
                    < self.actions@.len() {
                    replied(old(operations)@[i]@, self.actions@[i]@)
                } else {
                    old(operations)@[i]@
                }),
    {
        let mut actions = self.actions;
        let ghost replies = actions@;
        let n: usize = if actions.len() < operations.len() {
            actions.len()
        } else {
            operations.len()
        };
        let mut i: usize = 0;
        while i < n
            invariant
                i <= n,
                n <= replies.len(),
                n <= old(operations)@.len(),
                n == replies.len() || n == old(operations)@.len(),
                actions@.len() == replies.len(),
                forall|k: int| i <= k < replies.len() ==> #[trigger] actions@[k] == replies[k],
                operations@.len() == old(operations)@.len(),
                forall|k: int|
                    0 <= k < old(operations)@.len() ==> #[trigger] operations@[k]@ == (if k < i {
                        replied(old(operations)@[k]@, replies[k]@)
                    } else {
                        old(operations)@[k]@
                    }),
            decreases n - i,
        {
            let mut reply = SimOp::Write(Vec::new());
            actions.set_and_swap(i, &mut reply);
            match reply {
                SimOp::Read(bytes) => {
                    operations[i] = Operation::Read(bytes);
                },
                SimOp::Write(_) => {},
            }
            i = i + 1;
        }
    }
}

} // verus!
