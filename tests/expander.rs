use i2c_target::descriptor::{Operation, SimTransaction};
use i2c_target::expander::{
    parse_request, serve_once, serve_register_read, Interface, Request, EXPANDER_ADDR,
};
use i2c_target::target::SimTarget;
use i2c_target::{AnyAddress, ErrorKind};

struct TestInterface {
    data: [u32; 32],
}

impl Interface for TestInterface {
    type Error = ();

    fn read_reg(&mut self, addr: u8, buf: &mut [u8]) -> Result<usize, Self::Error> {
        if buf.len() < 4 {
            return Err(());
        }
        let data = self.data[usize::from(addr)];
        buf[..4].copy_from_slice(&data.to_le_bytes());
        Ok(4)
    }

    fn write_reg(&mut self, addr: u8, data: &[u8]) -> Result<(), Self::Error> {
        let Ok(data) = data.try_into() else {
            return Err(());
        };
        let word = u32::from_le_bytes(data);
        self.data[usize::from(addr)] = word;
        Ok(())
    }
}

fn transact(t: &mut SimTarget, iface: &mut TestInterface, ops: &mut Vec<Operation>) -> Result<(), ErrorKind> {
    let tr = SimTransaction::from_operations(AnyAddress::Seven(EXPANDER_ADDR), ops);
    assert!(t.deliver(tr).is_ok());
    loop {
        let served = serve_once(t, iface);
        if let Some(answer) = t.take_reply() {
            return match answer {
                Ok(tr) => {
                    tr.copy_to_ops(ops);
                    Ok(())
                }
                Err(e) => Err(e),
            };
        }
        assert!(served.is_ok(), "the expander stopped before the controller had its answer");
    }
}

fn write_read(t: &mut SimTarget, iface: &mut TestInterface, reg: u8, len: usize) -> Vec<u8> {
    let mut ops = vec![Operation::Write(vec![reg]), Operation::Read(vec![0xFF; len])];
    transact(t, iface, &mut ops).unwrap();
    match &ops[1] {
        Operation::Read(b) => b.clone(),
        Operation::Write(_) => panic!("not a read"),
    }
}

#[test]
fn works_locally() {
    let mut t = SimTarget::new();
    let mut iface = TestInterface { data: [0; 32] };

    for i in 0..32 {
        assert_eq!(write_read(&mut t, &mut iface, i, 4), [0; 4]);
    }
    for i in 0..32 {
        let mut ops = vec![Operation::Write(vec![i, i, 0, 0, 0])];
        transact(&mut t, &mut iface, &mut ops).unwrap();
    }
    for i in 0..32 {
        assert_eq!(write_read(&mut t, &mut iface, i, 4), [i, 0, 0, 0]);
    }
}

#[test]
fn too_short_is_ignored() {
    let mut t = SimTarget::new();
    let mut iface = TestInterface { data: [0; 32] };

    let mut ops = vec![Operation::Write(vec![0, 1, 2, 3])];
    transact(&mut t, &mut iface, &mut ops).unwrap();
    for i in 0..32 {
        assert_eq!(write_read(&mut t, &mut iface, i, 4), [0, 0, 0, 0]);
    }
}

#[test]
fn overreading_is_filled() {
    let mut t = SimTarget::new();
    let mut iface = TestInterface { data: [0; 32] };
    assert_eq!(write_read(&mut t, &mut iface, 0, 5), [0, 0, 0, 0, 42]);
}

#[test]
fn expander_nacks_other_addresses() {
    let mut t = SimTarget::new();
    let mut iface = TestInterface { data: [0; 32] };
    let ops = vec![Operation::Write(vec![1, 2, 3, 4, 5])];
    assert!(t.deliver(SimTransaction::from_operations(AnyAddress::Seven(0x11), &ops)).is_ok());
    assert!(serve_once(&mut t, &mut iface).is_ok());
    assert_eq!(
        t.take_reply().unwrap().err(),
        Some(ErrorKind::NoAcknowledge(i2c_target::NoAcknowledgeSource::Address))
    );
    assert_eq!(iface.data, [0; 32]);
}

#[test]
fn requests_are_read_from_the_written_bytes() {
    assert!(matches!(parse_request(&[]), Request::Nothing));
    assert!(matches!(parse_request(&[7]), Request::ReadRegister(7)));
    match parse_request(&[3, 1, 2, 3, 4]) {
        Request::WriteRegister(reg, data) => {
            assert_eq!(reg, 3);
            assert_eq!(data, vec![1, 2, 3, 4]);
        }
        _ => panic!("a register write"),
    }
}

#[test]
fn register_contents_are_served_to_the_next_read() {
    let mut t = SimTarget::new();
    let ops = vec![Operation::Read(vec![0; 3])];
    assert!(t.deliver(SimTransaction::from_operations(AnyAddress::Seven(EXPANDER_ADDR), &ops)).is_ok());
    assert!(serve_register_read(&mut t, &[9, 8]).is_ok());
    let Some(Ok(tr)) = t.take_reply() else { panic!() };
    let mut ops = ops;
    tr.copy_to_ops(&mut ops);
    assert!(matches!(&ops[0], Operation::Read(b) if b == &vec![9, 8, 42]));
    assert!(serve_register_read(&mut t, &[1]).is_ok());
    assert!(serve_register_read(&mut t, &[1]).is_err());
}
