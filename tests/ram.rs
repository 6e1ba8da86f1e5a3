use i2c_target::descriptor::{Operation, SimTransaction};
use i2c_target::ram::{
    address_bytes, classify, target_addr, write_frames, Error, RamTarget, BUFLEN, TARGET_ADDR,
};
use i2c_target::target::SimTarget;
use i2c_target::{AnyAddress, ErrorKind, NoAcknowledgeSource};

/// Runs one controller transaction against the RAM, serving bus events until
/// the controller has its answer; what the reads received is copied into `ops`.
fn transact(
    t: &mut SimTarget,
    ram: &mut RamTarget,
    ops: &mut Vec<Operation>,
) -> Result<(), Error<ErrorKind>> {
    let tr = SimTransaction::from_operations(AnyAddress::Seven(TARGET_ADDR), ops);
    assert!(t.deliver(tr).is_ok());
    loop {
        let served = ram.serve_once(t);
        if let Some(answer) = t.take_reply() {
            return match answer {
                Ok(tr) => {
                    tr.copy_to_ops(ops);
                    Ok(())
                }
                Err(kind) => Err(classify(kind, kind)),
            };
        }
        assert!(served.is_ok(), "the RAM stopped before the controller had its answer");
    }
}

fn ram_read(t: &mut SimTarget, ram: &mut RamTarget, address: u16, len: usize) -> Result<Vec<u8>, Error<ErrorKind>> {
    let mut ops = vec![
        Operation::Write(address_bytes(address).to_vec()),
        Operation::Read(vec![0; len]),
    ];
    transact(t, ram, &mut ops)?;
    match &ops[1] {
        Operation::Read(b) => Ok(b.clone()),
        Operation::Write(_) => panic!("not a read"),
    }
}

fn ram_write(t: &mut SimTarget, ram: &mut RamTarget, address: u16, data: &[u8]) -> Result<(), Error<ErrorKind>> {
    let (frames, all) = write_frames(address, data);
    for f in frames {
        let mut ops = vec![Operation::Write(f)];
        transact(t, ram, &mut ops)?;
    }
    if all {
        Ok(())
    } else {
        Err(Error::OutOfBounds)
    }
}

#[test]
fn basic_rw() {
    assert_eq!(target_addr(), AnyAddress::Seven(0x20));
    let mut t = SimTarget::new();
    let mut ram = RamTarget::new();

    let buf = ram_read(&mut t, &mut ram, 0, 513).unwrap();
    assert_eq!(&buf[..512], &[0; 512]);
    assert_eq!(&buf[512..], &[0xFF]);

    let err = ram_read(&mut t, &mut ram, 513, 513).unwrap_err();
    assert_eq!(err, Error::OutOfBounds);

    let data: [u8; 8] = std::array::from_fn(|n| n as u8);
    ram_write(&mut t, &mut ram, 0, &data[..]).unwrap();

    let buf = ram_read(&mut t, &mut ram, 0, 16).unwrap();
    assert_eq!(&buf[..8], &data[..]);
    assert_eq!(&buf[8..], &[0; 16][8..]);
}

#[test]
fn ram_write_past_the_end_stores_what_fits() {
    let mut t = SimTarget::new();
    let mut ram = RamTarget::new();
    let data: Vec<u8> = (0..40).map(|n| n as u8 + 100).collect();
    assert_eq!(ram_write(&mut t, &mut ram, 500, &data), Err(Error::OutOfBounds));
    let buf = ram_read(&mut t, &mut ram, 500, 14).unwrap();
    assert_eq!(buf, data[..12].iter().copied().chain([0xFF, 0xFF]).collect::<Vec<u8>>());
    assert_eq!(BUFLEN, 512);
}

#[test]
fn ram_read_continues_from_cursor() {
    let mut t = SimTarget::new();
    let mut ram = RamTarget::new();
    ram_write(&mut t, &mut ram, 10, &[1, 2, 3, 4]).unwrap();
    let first = ram_read(&mut t, &mut ram, 10, 2).unwrap();
    assert_eq!(first, [1, 2]);
    let mut ops = vec![Operation::Read(vec![0; 2])];
    transact(&mut t, &mut ram, &mut ops).unwrap();
    match &ops[0] {
        Operation::Read(b) => assert_eq!(b, &vec![3, 4]),
        Operation::Write(_) => panic!("not a read"),
    }
}

#[test]
fn ram_short_address_write_is_ignored() {
    let mut t = SimTarget::new();
    let mut ram = RamTarget::new();
    let mut ops = vec![Operation::Write(vec![7])];
    transact(&mut t, &mut ram, &mut ops).unwrap();
    let buf = ram_read(&mut t, &mut ram, 0, 2).unwrap();
    assert_eq!(buf, [0, 0]);
}

#[test]
fn address_bytes_are_little_endian() {
    assert_eq!(address_bytes(0x1234), [0x34, 0x12]);
    assert_eq!(address_bytes(513), [1, 2]);
}

#[test]
fn write_frames_split_in_chunks() {
    let data: Vec<u8> = (0..20).collect();
    let (frames, all) = write_frames(0x100, &data);
    assert!(all);
    assert_eq!(frames.len(), 2);
    let mut first = vec![0x00, 0x01];
    first.extend(0..16u8);
    assert_eq!(frames[0], first);
    assert_eq!(frames[1], vec![0x10, 0x01, 16, 17, 18, 19]);
    let (none, all) = write_frames(5, &[]);
    assert!(all);
    assert!(none.is_empty());
}

#[test]
fn write_frames_stop_where_the_address_overflows() {
    let data = [9u8; 40];
    let (frames, all) = write_frames(65520, &data);
    assert!(!all);
    assert_eq!(frames.len(), 1);
    assert_eq!(&frames[0][..2], &[0xF0, 0xFF]);
}

#[test]
fn classify_maps_nack_to_out_of_bounds() {
    let nack = ErrorKind::NoAcknowledge(NoAcknowledgeSource::Data);
    assert_eq!(classify(nack, 1u8), Error::OutOfBounds);
    assert_eq!(classify(ErrorKind::Other, 2u8), Error::I2c(2u8));
    assert_eq!(Error::from(3u8), Error::I2c(3u8));
}
