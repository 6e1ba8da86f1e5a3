use i2c_target::descriptor::{Operation, SimTransaction};
use i2c_target::target::SimTarget;
use i2c_target::{
    AnyAddress, ErrorKind, NoAcknowledgeSource, ReadResult, Transaction, TransactionExpectRead,
    TransactionExpectWrite, WriteResult,
};

const NACK_ADDRESS: ErrorKind = ErrorKind::NoAcknowledge(NoAcknowledgeSource::Address);
const NACK_DATA: ErrorKind = ErrorKind::NoAcknowledge(NoAcknowledgeSource::Data);

/// The controller sends `ops` to address 0x20.
fn send(t: &mut SimTarget, ops: &[Operation]) {
    let tr = SimTransaction::from_operations(AnyAddress::Seven(0x20), ops);
    assert!(t.deliver(tr).is_ok());
}

/// The controller collects its reply and copies what it read into `ops`.
fn reply(t: &mut SimTarget, ops: &mut [Operation]) -> Result<(), ErrorKind> {
    match t.take_reply().expect("the controller is owed a reply") {
        Ok(tr) => {
            tr.copy_to_ops(ops);
            Ok(())
        }
        Err(e) => Err(e),
    }
}

fn read_bytes(ops: &[Operation], i: usize) -> Vec<u8> {
    match &ops[i] {
        Operation::Read(b) => b.clone(),
        Operation::Write(_) => panic!("not a read"),
    }
}

#[test]
fn test_deselect_generation() {
    let mut t = SimTarget::new();

    let mut ops = vec![Operation::Write(vec![1, 2, 3, 4])];
    send(&mut t, &ops);
    let Ok(Transaction::Write { address: AnyAddress::Seven(0x20), handler }) = t.listen() else {
        panic!("Unexpected transaction type");
    };
    let mut data = [0u8; 4];
    assert_eq!(handler.handle_complete(&mut data).unwrap(), 4);
    assert_eq!(data, [1, 2, 3, 4]);
    assert!(reply(&mut t, &mut ops).is_ok());
    let Ok(Transaction::Deselect) = t.listen() else {
        panic!("Unexpected transaction type");
    };

    let mut ops = vec![Operation::Read(vec![0u8; 4])];
    send(&mut t, &ops);
    let Ok(Transaction::Read { address: AnyAddress::Seven(0x20), handler }) = t.listen() else {
        panic!("Unexpected transaction type");
    };
    assert_eq!(handler.handle_complete(&[5, 6, 7, 8], 0xff).unwrap(), 4);
    assert!(reply(&mut t, &mut ops).is_ok());
    assert_eq!(read_bytes(&ops, 0), [5, 6, 7, 8]);
    let Ok(Transaction::Deselect) = t.listen() else {
        panic!("Unexpected transaction type");
    };

    let mut ops = vec![Operation::Write(vec![9, 10, 11, 12]), Operation::Read(vec![0u8; 4])];
    send(&mut t, &ops);
    let Ok(Transaction::Write { address: AnyAddress::Seven(0x20), handler }) = t.listen() else {
        panic!("Unexpected transaction type");
    };
    let mut data = [0u8; 4];
    assert_eq!(handler.handle_complete(&mut data).unwrap(), 4);
    assert_eq!(data, [9, 10, 11, 12]);
    let Ok(Transaction::Read { address: AnyAddress::Seven(0x20), handler }) = t.listen() else {
        panic!("Unexpected transaction type");
    };
    assert_eq!(handler.handle_complete(&[13, 14, 15, 16], 0xff).unwrap(), 4);
    assert!(reply(&mut t, &mut ops).is_ok());
    assert_eq!(read_bytes(&ops, 1), [13, 14, 15, 16]);
    let Ok(Transaction::Deselect) = t.listen() else {
        panic!("Unexpected transaction type");
    };
}

#[test]
fn test_handle_complete() {
    let mut t = SimTarget::new();

    let mut ops = vec![Operation::Write(vec![1, 2, 3, 4])];
    send(&mut t, &ops);
    let Ok(Transaction::Write { address: AnyAddress::Seven(0x20), handler }) = t.listen() else {
        panic!("Unexpected transaction type");
    };
    let mut data = [0u8; 4];
    assert_eq!(handler.handle_complete(&mut data).unwrap(), 4);
    assert_eq!(data, [1, 2, 3, 4]);
    assert!(reply(&mut t, &mut ops).is_ok());
    let Ok(Transaction::Deselect) = t.listen() else {
        panic!("Unexpected transaction type");
    };

    let mut ops = vec![Operation::Write(vec![1, 2, 3, 4, 5])];
    send(&mut t, &ops);
    let Ok(Transaction::Write { address: AnyAddress::Seven(0x20), handler }) = t.listen() else {
        panic!("Unexpected transaction type");
    };
    let mut data = [0u8; 4];
    assert_eq!(handler.handle_complete(&mut data).unwrap(), 4);
    assert_eq!(data, [1, 2, 3, 4]);
    assert_eq!(reply(&mut t, &mut ops), Err(NACK_DATA));
    let Ok(Transaction::Deselect) = t.listen() else {
        panic!("Unexpected transaction type");
    };

    let mut ops = vec![Operation::Read(vec![0u8; 4])];
    send(&mut t, &ops);
    let Ok(Transaction::Read { address: AnyAddress::Seven(0x20), handler }) = t.listen() else {
        panic!("Unexpected transaction type");
    };
    assert_eq!(handler.handle_complete(&[1, 2, 3, 4], 0xff).unwrap(), 4);
    assert!(reply(&mut t, &mut ops).is_ok());
    assert_eq!(read_bytes(&ops, 0), [1, 2, 3, 4]);
    let Ok(Transaction::Deselect) = t.listen() else {
        panic!("Unexpected transaction type");
    };

    let mut ops = vec![Operation::Read(vec![0u8; 5])];
    send(&mut t, &ops);
    let Ok(Transaction::Read { address: AnyAddress::Seven(0x20), handler }) = t.listen() else {
        panic!("Unexpected transaction type");
    };
    assert_eq!(handler.handle_complete(&[1, 2, 3, 4], 0xff).unwrap(), 5);
    assert!(reply(&mut t, &mut ops).is_ok());
    assert_eq!(read_bytes(&ops, 0), [1, 2, 3, 4, 0xff]);
    let Ok(Transaction::Deselect) = t.listen() else {
        panic!("Unexpected transaction type");
    };
}

#[test]
fn test_handle_part() {
    let mut t = SimTarget::new();

    let mut ops = vec![Operation::Write(vec![1, 2, 3])];
    send(&mut t, &ops);
    let Ok(Transaction::Write { address: AnyAddress::Seven(0x20), handler }) = t.listen() else {
        panic!("Unexpected transaction type");
    };
    let mut data = [0u8; 4];
    let Ok(WriteResult::Complete(3)) = handler.handle_part(&mut data) else {
        panic!("Unexpected write result");
    };
    assert_eq!(data, [1, 2, 3, 0]);
    assert!(reply(&mut t, &mut ops).is_ok());
    let Ok(Transaction::Deselect) = t.listen() else {
        panic!("Unexpected transaction type");
    };

    let mut ops = vec![Operation::Write(vec![1, 2, 3, 4])];
    send(&mut t, &ops);
    let Ok(Transaction::Write { address: AnyAddress::Seven(0x20), handler }) = t.listen() else {
        panic!("Unexpected transaction type");
    };
    let mut data = [0u8; 4];
    let Ok(WriteResult::Partial(handler)) = handler.handle_part(&mut data) else {
        panic!("Unexpected write result");
    };
    assert_eq!(data, [1, 2, 3, 4]);
    handler.release();
    assert_eq!(reply(&mut t, &mut ops), Err(NACK_DATA));
    let Ok(Transaction::Deselect) = t.listen() else {
        panic!("Unexpected transaction type");
    };

    let mut ops = vec![Operation::Read(vec![0u8; 4])];
    send(&mut t, &ops);
    let Ok(Transaction::Read { address: AnyAddress::Seven(0x20), handler }) = t.listen() else {
        panic!("Unexpected transaction type");
    };
    let Ok(ReadResult::Complete(4)) = handler.handle_part(&[1, 2, 3, 4]) else {
        panic!("Unexpected read result");
    };
    assert!(reply(&mut t, &mut ops).is_ok());
    assert_eq!(read_bytes(&ops, 0), [1, 2, 3, 4]);
    let Ok(Transaction::Deselect) = t.listen() else {
        panic!("Unexpected transaction type");
    };

    let mut ops = vec![Operation::Read(vec![0u8; 5])];
    send(&mut t, &ops);
    let Ok(Transaction::Read { address: AnyAddress::Seven(0x20), handler }) = t.listen() else {
        panic!("Unexpected transaction type");
    };
    let Ok(ReadResult::Partial(handler)) = handler.handle_part(&[1, 2, 3, 4]) else {
        panic!("Unexpected read result");
    };
    handler.release();
    assert!(reply(&mut t, &mut ops).is_ok());
    assert_eq!(read_bytes(&ops, 0), [1, 2, 3, 4, 42]);
    let Ok(Transaction::Deselect) = t.listen() else {
        panic!("Unexpected transaction type");
    };
}

#[test]
fn test_address_nack() {
    let mut t = SimTarget::new();

    let mut ops = vec![Operation::Write(vec![1, 2, 3, 4])];
    send(&mut t, &ops);
    let Ok(Transaction::Write { address: AnyAddress::Seven(0x20), handler }) = t.listen() else {
        panic!("Unexpected transaction type");
    };
    handler.release();
    assert_eq!(reply(&mut t, &mut ops), Err(NACK_ADDRESS));
    let Ok(Transaction::Deselect) = t.listen() else {
        panic!("Unexpected transaction type");
    };

    let mut ops = vec![Operation::Read(vec![0, 0, 0, 0])];
    send(&mut t, &ops);
    let Ok(Transaction::Read { address: AnyAddress::Seven(0x20), handler }) = t.listen() else {
        panic!("Unexpected transaction type");
    };
    handler.release();
    assert_eq!(reply(&mut t, &mut ops), Err(NACK_ADDRESS));
    let Ok(Transaction::Deselect) = t.listen() else {
        panic!("Unexpected transaction type");
    };

    let mut ops = vec![Operation::Write(vec![1, 2, 3, 4]), Operation::Write(vec![1, 2, 3, 4])];
    send(&mut t, &ops);
    let Ok(Transaction::Write { address: AnyAddress::Seven(0x20), handler }) = t.listen() else {
        panic!("Unexpected transaction type");
    };
    let mut data = [0u8; 4];
    assert_eq!(handler.handle_complete(&mut data).unwrap(), 4);
    assert_eq!(data, [1, 2, 3, 4]);
    let Ok(Transaction::Write { address: AnyAddress::Seven(0x20), handler }) = t.listen() else {
        panic!("Unexpected transaction type");
    };
    handler.release();
    assert_eq!(reply(&mut t, &mut ops), Err(NACK_ADDRESS));
    let Ok(Transaction::Deselect) = t.listen() else {
        panic!("Unexpected transaction type");
    };
}

#[test]
fn handle_part_edgecases() {
    let mut t = SimTarget::new();

    let mut ops = vec![Operation::Write(vec![1, 2, 3, 4])];
    send(&mut t, &ops);
    let Ok(Transaction::Write { address: AnyAddress::Seven(0x20u8), handler }) = t.listen() else {
        panic!("Unexpected transaction type");
    };
    let Ok(WriteResult::Partial(handler)) = handler.handle_part(&mut []) else {
        panic!("Unexpected write result");
    };
    handler.release();
    assert_eq!(reply(&mut t, &mut ops), Err(NACK_ADDRESS));
    let Ok(Transaction::Deselect) = t.listen() else {
        panic!("Unexpected transaction type");
    };

    let mut ops = vec![Operation::Write(vec![1, 2, 3, 4])];
    send(&mut t, &ops);
    let Ok(Transaction::Write { address: AnyAddress::Seven(0x20u8), handler }) = t.listen() else {
        panic!("Unexpected transaction type");
    };
    let mut data = [0u8; 4];
    let Ok(WriteResult::Partial(handler)) = handler.handle_part(&mut data) else {
        panic!("Unexpected write result");
    };
    assert_eq!(data, [1, 2, 3, 4]);
    let Ok(WriteResult::Partial(handler)) = handler.handle_part(&mut []) else {
        panic!("Unexpected write result");
    };
    handler.release();
    assert_eq!(reply(&mut t, &mut ops), Err(NACK_DATA));
    let Ok(Transaction::Deselect) = t.listen() else {
        panic!("Unexpected transaction type");
    };

    let mut ops = vec![Operation::Read(vec![0u8; 4])];
    send(&mut t, &ops);
    let Ok(Transaction::Read { address: AnyAddress::Seven(0x20), handler }) = t.listen() else {
        panic!("Unexpected transaction type");
    };
    let Ok(ReadResult::Partial(handler)) = handler.handle_part(&[]) else {
        panic!("Unexpected read result");
    };
    handler.release();
    assert_eq!(reply(&mut t, &mut ops), Err(NACK_ADDRESS));
    assert_eq!(read_bytes(&ops, 0), [0; 4]);
    let Ok(Transaction::Deselect) = t.listen() else {
        panic!("Unexpected transaction type");
    };

    let mut ops = vec![Operation::Read(vec![0u8; 4])];
    send(&mut t, &ops);
    let Ok(Transaction::Read { address: AnyAddress::Seven(0x20), handler }) = t.listen() else {
        panic!("Unexpected transaction type");
    };
    let Ok(ReadResult::Partial(handler)) = handler.handle_part(&[1, 2, 3]) else {
        panic!("Unexpected read result");
    };
    let Ok(ReadResult::Partial(handler)) = handler.handle_part(&[]) else {
        panic!("Unexpected read result");
    };
    handler.release();
    assert!(reply(&mut t, &mut ops).is_ok());
    assert_eq!(read_bytes(&ops, 0), [1, 2, 3, 42]);
    let Ok(Transaction::Deselect) = t.listen() else {
        panic!("Unexpected transaction type");
    };
}

#[test]
fn handle_complete_edgecases() {
    let mut t = SimTarget::new();

    let mut ops = vec![Operation::Write(vec![1, 2, 3, 4])];
    send(&mut t, &ops);
    let Ok(Transaction::Write { address: AnyAddress::Seven(0x20u8), handler }) = t.listen() else {
        panic!("Unexpected transaction type");
    };
    assert_eq!(handler.handle_complete(&mut []).unwrap(), 0);
    assert_eq!(reply(&mut t, &mut ops), Err(NACK_DATA));
    let Ok(Transaction::Deselect) = t.listen() else {
        panic!("Unexpected transaction type");
    };

    let mut ops = vec![Operation::Write(vec![1, 2, 3, 4])];
    send(&mut t, &ops);
    let Ok(Transaction::Write { address: AnyAddress::Seven(0x20u8), handler }) = t.listen() else {
        panic!("Unexpected transaction type");
    };
    let mut data = [0u8; 4];
    let Ok(WriteResult::Partial(handler)) = handler.handle_part(&mut data) else {
        panic!("Unexpected write result");
    };
    assert_eq!(data, [1, 2, 3, 4]);
    assert_eq!(handler.handle_complete(&mut []).unwrap(), 0);
    assert!(reply(&mut t, &mut ops).is_ok());
    let Ok(Transaction::Deselect) = t.listen() else {
        panic!("Unexpected transaction type");
    };

    let mut ops = vec![Operation::Read(vec![0u8; 4])];
    send(&mut t, &ops);
    let Ok(Transaction::Read { address: AnyAddress::Seven(0x20), handler }) = t.listen() else {
        panic!("Unexpected transaction type");
    };
    assert_eq!(handler.handle_complete(&[], 0xff).unwrap(), 4);
    assert!(reply(&mut t, &mut ops).is_ok());
    assert_eq!(read_bytes(&ops, 0), [0xff; 4]);
    let Ok(Transaction::Deselect) = t.listen() else {
        panic!("Unexpected transaction type");
    };

    let mut ops = vec![Operation::Read(vec![0u8; 4])];
    send(&mut t, &ops);
    let Ok(Transaction::Read { address: AnyAddress::Seven(0x20), handler }) = t.listen() else {
        panic!("Unexpected transaction type");
    };
    let Ok(ReadResult::Partial(handler)) = handler.handle_part(&[1, 2, 3]) else {
        panic!("Unexpected read result");
    };
    assert_eq!(handler.handle_complete(&[], 0xff).unwrap(), 1);
    assert!(reply(&mut t, &mut ops).is_ok());
    assert_eq!(read_bytes(&ops, 0), [1, 2, 3, 0xff]);
    let Ok(Transaction::Deselect) = t.listen() else {
        panic!("Unexpected transaction type");
    };
}

#[test]
fn listen_expect_matches() {
    let mut t = SimTarget::new();

    let mut ops = vec![Operation::Write(vec![1, 2, 3, 4])];
    send(&mut t, &ops);
    let mut data = [0u8; 4];
    let Ok(TransactionExpectWrite::ExpectedPartialWrite { handler }) =
        t.listen_expect_write(0x20u8.into(), &mut data)
    else {
        panic!("Unexpected transaction type");
    };
    assert_eq!(handler.handle_complete(&mut []).unwrap(), 0);
    assert_eq!(data, [1, 2, 3, 4]);
    assert!(reply(&mut t, &mut ops).is_ok());
    let Ok(Transaction::Deselect) = t.listen() else {
        panic!("Unexpected transaction type");
    };

    let mut ops = vec![Operation::Write(vec![5, 6, 7])];
    send(&mut t, &ops);
    let mut data = [0u8; 4];
    let Ok(TransactionExpectWrite::ExpectedCompleteWrite { size: 3 }) =
        t.listen_expect_write(0x20u8.into(), &mut data)
    else {
        panic!("Unexpected transaction type");
    };
    assert_eq!(data, [5, 6, 7, 0]);
    assert!(reply(&mut t, &mut ops).is_ok());
    let Ok(Transaction::Deselect) = t.listen() else {
        panic!("Unexpected transaction type");
    };

    let mut ops = vec![Operation::Read(vec![0u8; 4])];
    send(&mut t, &ops);
    let Ok(TransactionExpectRead::ExpectedCompleteRead { size: 4 }) =
        t.listen_expect_read(0x20u8.into(), &[8, 9, 10, 11])
    else {
        panic!("Unexpected transaction type");
    };
    assert!(reply(&mut t, &mut ops).is_ok());
    assert_eq!(read_bytes(&ops, 0), [8, 9, 10, 11]);
    let Ok(Transaction::Deselect) = t.listen() else {
        panic!("Unexpected transaction type");
    };

    let mut ops = vec![Operation::Read(vec![0u8; 5])];
    send(&mut t, &ops);
    let Ok(TransactionExpectRead::ExpectedPartialRead { handler }) =
        t.listen_expect_read(0x20u8.into(), &[12, 13, 14, 15])
    else {
        panic!("Unexpected transaction type");
    };
    assert_eq!(handler.handle_complete(&[16], 0xff).unwrap(), 1);
    assert!(reply(&mut t, &mut ops).is_ok());
    assert_eq!(read_bytes(&ops, 0), [12, 13, 14, 15, 16]);
    let Ok(Transaction::Deselect) = t.listen() else {
        panic!("Unexpected transaction type");
    };
}

#[test]
fn listen_expect_mismatch() {
    let mut t = SimTarget::new();

    let mut ops = vec![Operation::Write(vec![1, 2, 3, 4])];
    send(&mut t, &ops);
    let Ok(TransactionExpectRead::Write { address: AnyAddress::Seven(0x20), handler }) =
        t.listen_expect_read(0x20u8.into(), &[9, 10, 11, 12])
    else {
        panic!("Unexpected transaction type");
    };
    let mut data = [0u8; 4];
    assert_eq!(handler.handle_complete(&mut data).unwrap(), 4);
    assert_eq!(data, [1, 2, 3, 4]);
    assert!(reply(&mut t, &mut ops).is_ok());
    let Ok(TransactionExpectRead::Deselect) = t.listen_expect_read(0x20u8.into(), &[13, 14, 15, 16])
    else {
        panic!("Unexpected transaction type");
    };

    let mut ops = vec![Operation::Read(vec![0u8; 4])];
    send(&mut t, &ops);
    let mut data = [0u8; 4];
    let Ok(TransactionExpectWrite::Read { address: AnyAddress::Seven(0x20), handler }) =
        t.listen_expect_write(0x20u8.into(), &mut data)
    else {
        panic!("Unexpected transaction type");
    };
    assert_eq!(handler.handle_complete(&[5, 6, 7, 8], 0xff).unwrap(), 4);
    assert_eq!(data, [0; 4]);
    assert!(reply(&mut t, &mut ops).is_ok());
    assert_eq!(read_bytes(&ops, 0), [5, 6, 7, 8]);
    let Ok(TransactionExpectWrite::Deselect) = t.listen_expect_write(0x20u8.into(), &mut data) else {
        panic!("Unexpected transaction type");
    };
    assert_eq!(data, [0; 4]);
}

#[test]
fn listen_expect_edgecases() {
    let mut t = SimTarget::new();

    let mut ops = vec![Operation::Write(vec![1, 2, 3, 4])];
    send(&mut t, &ops);
    let Ok(TransactionExpectWrite::ExpectedPartialWrite { handler }) =
        t.listen_expect_write(0x20u8.into(), &mut [])
    else {
        panic!("Unexpected transaction type");
    };
    handler.release();
    assert_eq!(reply(&mut t, &mut ops), Err(NACK_ADDRESS));
    let Ok(Transaction::Deselect) = t.listen() else {
        panic!("Unexpected transaction type");
    };

    let mut ops = vec![Operation::Read(vec![0u8; 4])];
    send(&mut t, &ops);
    let Ok(TransactionExpectRead::ExpectedPartialRead { handler }) =
        t.listen_expect_read(0x20u8.into(), &[])
    else {
        panic!("Unexpected transaction type");
    };
    handler.release();
    assert_eq!(reply(&mut t, &mut ops), Err(NACK_ADDRESS));
    assert_eq!(read_bytes(&ops, 0), [0; 4]);
    let Ok(Transaction::Deselect) = t.listen() else {
        panic!("Unexpected transaction type");
    };
}
