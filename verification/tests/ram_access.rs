use ethercat_master::command::{Command, SlaveAddress};
use ethercat_master::error::EcError;
use ethercat_master::frame::CommandType;
use ethercat_master::socket::{CommandData, Cyclic, EtherCatSystemTime};
use ethercat_master::tasks::ram_access_unit::RamAccessUnit;

fn reply<'a>(command: Command, data: &'a [u8], wkc: u16) -> CommandData<'a> {
    let mut d = CommandData::new(command, data);
    d.wkc = wkc;
    d
}

#[test]
fn ram_access_reads_from_one_slave() {
    let mut unit = RamAccessUnit::new();
    assert!(unit.wait().is_none());
    unit.start_to_read(Some(SlaveAddress::StationAddress(0x1002)), 0x0910, 4, 3);
    let mut buf = vec![0xffu8; 16];
    let (c, n) = unit.next_command(&mut buf).unwrap();
    assert_eq!(c, Command::new(CommandType::FPRD, 0x1002, 0x0910));
    assert_eq!(n, 4);
    assert_eq!(&buf[..4], &[0u8, 0, 0, 0]);
    unit.recieve_and_process(Some(&reply(c, &[1, 2, 3, 4], 1)), EtherCatSystemTime(0));
    assert!(unit.is_finished());
    match unit.wait() {
        Some(Ok(d)) => assert_eq!(d, &[1u8, 2, 3, 4]),
        other => panic!("unexpected {:?}", other),
    }
}

#[test]
fn ram_access_writes_to_every_slave() {
    let mut unit = RamAccessUnit::new();
    unit.start_to_write(None, 0x0120, &[0x02, 0x00], 3);
    let mut buf = vec![0u8; 16];
    let (c, n) = unit.next_command(&mut buf).unwrap();
    assert_eq!(c, Command::new(CommandType::BWR, 0, 0x0120));
    assert_eq!(n, 2);
    assert_eq!(&buf[..2], &[0x02u8, 0x00]);
    // broadcast: every slave counts
    unit.recieve_and_process(Some(&reply(c, &buf[..2], 3)), EtherCatSystemTime(0));
    match unit.wait() {
        Some(Ok(d)) => assert!(d.is_empty()),
        other => panic!("unexpected {:?}", other),
    }
}

#[test]
fn ram_access_checks_the_working_counter() {
    let mut unit = RamAccessUnit::new();
    unit.start_to_read(None, 0x0130, 2, 3);
    let mut buf = vec![0u8; 16];
    let (c, _) = unit.next_command(&mut buf).unwrap();
    assert_eq!(c, Command::new(CommandType::BRD, 0, 0x0130));
    unit.recieve_and_process(Some(&reply(c, &[8, 0], 2)), EtherCatSystemTime(0));
    assert!(matches!(unit.wait(), Some(Err(EcError::UnexpectedWkc(2)))));
    assert!(unit.next_command(&mut buf).is_none());
}

#[test]
fn ram_access_fails_without_a_reply() {
    let mut unit = RamAccessUnit::new();
    unit.start_to_read(Some(SlaveAddress::SlavePosition(1)), 0x0130, 2, 2);
    let mut buf = vec![0u8; 16];
    let (c, _) = unit.next_command(&mut buf).unwrap();
    assert_eq!(c.c_type, CommandType::APRD);
    unit.recieve_and_process(None, EtherCatSystemTime(0));
    assert!(matches!(unit.wait(), Some(Err(EcError::LostPacket))));
}
