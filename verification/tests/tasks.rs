use ethercat_master::al_state::AlState;
use ethercat_master::command::{Command, SlaveAddress, TargetSlave};
use ethercat_master::error::EcError;
use ethercat_master::frame::CommandType;
use ethercat_master::socket::{CommandData, Cyclic, EtherCatSystemTime};
use ethercat_master::tasks::al_state_reader::AlStateReader;
use ethercat_master::tasks::al_state_transfer::{self, max_timeout_ms, AlStateTransfer};
use ethercat_master::tasks::dc_drift_comp::DcDriftCompensator;
use ethercat_master::tasks::logical_process_data::LogicalProcessData;
use ethercat_master::tasks::rx_error_checker::RxErrorChecker;
use ethercat_master::tasks::sii_reader::{SiiReader, SiiTaskError};

fn reply<'a>(command: Command, data: &'a [u8], wkc: u16) -> CommandData<'a> {
    CommandData { command, data, wkc }
}

#[test]
fn sii_reader_reads_a_word() {
    let mut r = SiiReader::new();
    assert_eq!(SiiReader::required_buffer_size(), 8);
    assert!(r.wait().is_none());
    r.start(SlaveAddress::SlavePosition(1), 0x0010);
    let mut buf = vec![0xFFu8; 8];
    let t = |n: u64| EtherCatSystemTime(n);

    // read the control register
    let (c, n) = r.next_command(&mut buf).unwrap();
    assert_eq!((c.c_type, c.adp, c.ado, n), (CommandType::APRD, 0xFFFF, 0x0502, 2));
    assert_eq!(&buf[..2], &[0, 0]);
    r.recieve_and_process(Some(&reply(c, &[0x40, 0x00], 1)), t(0));

    // take the EEPROM over
    let (c, n) = r.next_command(&mut buf).unwrap();
    assert_eq!((c.c_type, c.ado, n), (CommandType::APWR, 0x0500, 2));
    assert_eq!(buf[0], 2);
    r.recieve_and_process(Some(&reply(c, &buf[..2].to_vec(), 1)), t(0));

    // check the access register
    let (c, n) = r.next_command(&mut buf).unwrap();
    assert_eq!((c.c_type, c.ado, n), (CommandType::APRD, 0x0500, 2));
    r.recieve_and_process(Some(&reply(c, &[0, 0], 1)), t(0));

    // the word address
    let (c, n) = r.next_command(&mut buf).unwrap();
    assert_eq!((c.c_type, c.ado, n), (CommandType::APWR, 0x0504, 4));
    assert_eq!(&buf[..4], &[0x10, 0, 0, 0]);
    r.recieve_and_process(Some(&reply(c, &[0x10, 0, 0, 0], 1)), t(0));

    // start the read
    let (c, n) = r.next_command(&mut buf).unwrap();
    assert_eq!((c.c_type, c.ado, n), (CommandType::APWR, 0x0502, 2));
    assert_eq!(&buf[..2], &[0, 1]);
    r.recieve_and_process(Some(&reply(c, &[0, 1], 1)), t(1000));

    // still busy, then done
    let (c, _) = r.next_command(&mut buf).unwrap();
    assert_eq!((c.c_type, c.ado), (CommandType::APRD, 0x0502));
    r.recieve_and_process(Some(&reply(c, &[0x00, 0x81], 1)), t(2000));
    assert!(!r.is_finished());
    let (c, _) = r.next_command(&mut buf).unwrap();
    r.recieve_and_process(Some(&reply(c, &[0x00, 0x00], 1)), t(3000));

    // fetch the data
    let (c, n) = r.next_command(&mut buf).unwrap();
    assert_eq!((c.c_type, c.ado, n), (CommandType::APRD, 0x0508, 8));
    r.recieve_and_process(Some(&reply(c, &[1, 2, 3, 4, 5, 6, 7, 8], 1)), t(4000));
    assert!(r.is_finished());
    assert_eq!(r.next_command(&mut buf), None);
    assert_eq!(r.wait(), Some(Ok(([1, 2, 3, 4, 5, 6, 7, 8], 8))));
}

#[test]
fn sii_reader_times_out() {
    let mut r = SiiReader::new();
    r.start(SlaveAddress::StationAddress(0x1001), 0);
    let mut buf = vec![0u8; 8];
    for _ in 0..5 {
        let (c, _) = r.next_command(&mut buf).unwrap();
        r.recieve_and_process(Some(&reply(c, &[0, 0, 0, 0], 1)), EtherCatSystemTime(10));
    }
    // waiting, busy for longer than allowed
    let (c, _) = r.next_command(&mut buf).unwrap();
    assert_eq!(c.c_type, CommandType::FPRD);
    // a hundred microseconds is well within the hundred milliseconds
    r.recieve_and_process(Some(&reply(c, &[0, 0x80], 1)), EtherCatSystemTime(10 + 100_001));
    assert_eq!(r.wait(), None);
    let (c, _) = r.next_command(&mut buf).unwrap();
    r.recieve_and_process(Some(&reply(c, &[0, 0x80], 1)), EtherCatSystemTime(10 + 100_000_001));
    assert_eq!(
        r.wait(),
        Some(Err(EcError::TaskSpecific(SiiTaskError::TimeoutMs(100))))
    );
}

#[test]
fn sii_reader_errors() {
    let mut r = SiiReader::new();
    r.start(SlaveAddress::SlavePosition(0), 0);
    let mut buf = vec![0u8; 8];
    let (c, _) = r.next_command(&mut buf).unwrap();
    r.recieve_and_process(Some(&reply(c, &[0, 0], 2)), EtherCatSystemTime(0));
    assert_eq!(r.wait(), Some(Err(EcError::UnexpectedWkc(2))));
    assert_eq!(r.next_command(&mut buf), None);

    r.start(SlaveAddress::SlavePosition(0), 0);
    r.recieve_and_process(None, EtherCatSystemTime(0));
    assert_eq!(r.wait(), Some(Err(EcError::LostPacket)));

    // a checksum error reported in the first step does not stop the read
    r.start(SlaveAddress::SlavePosition(0), 0);
    let (c, _) = r.next_command(&mut buf).unwrap();
    r.recieve_and_process(Some(&reply(c, &[0x00, 0x08], 1)), EtherCatSystemTime(0));
    assert!(r.wait().is_none());

    // a command error while waiting does
    for _ in 0..4 {
        let (c, _) = r.next_command(&mut buf).unwrap();
        r.recieve_and_process(Some(&reply(c, &[0, 0, 0, 0], 1)), EtherCatSystemTime(0));
    }
    let (c, _) = r.next_command(&mut buf).unwrap();
    r.recieve_and_process(Some(&reply(c, &[0x00, 0x20], 1)), EtherCatSystemTime(0));
    assert_eq!(r.wait(), Some(Err(EcError::TaskSpecific(SiiTaskError::CommandError))));

    // another register than asked for
    r.start(SlaveAddress::SlavePosition(0), 0);
    let (c, _) = r.next_command(&mut buf).unwrap();
    let other = Command::new(c.c_type, c.adp, 0x0130);
    r.recieve_and_process(Some(&reply(other, &[0, 0], 1)), EtherCatSystemTime(0));
    assert_eq!(r.wait(), Some(Err(EcError::UnexpectedCommand)));
}

#[test]
fn al_state_transfer_reaches_operational() {
    let mut t = AlStateTransfer::new();
    t.start(Some(SlaveAddress::StationAddress(0x1001)), 1, AlState::Operational);
    let mut buf = vec![0u8; 8];
    let (c, n) = t.next_command(&mut buf).unwrap();
    assert_eq!((c.c_type, c.adp, c.ado, n), (CommandType::FPRD, 0x1001, 0x0130, 6));
    t.recieve_and_process(Some(&reply(c, &[0x02, 0, 0, 0, 0, 0], 1)), EtherCatSystemTime(0));
    let (c, n) = t.next_command(&mut buf).unwrap();
    assert_eq!((c.c_type, c.ado, n), (CommandType::FPWR, 0x0120, 2));
    assert_eq!(buf[0], 8);
    t.recieve_and_process(Some(&reply(c, &[8, 0], 1)), EtherCatSystemTime(100));
    let (c, _) = t.next_command(&mut buf).unwrap();
    t.recieve_and_process(Some(&reply(c, &[0x04, 0, 0, 0, 0, 0], 1)), EtherCatSystemTime(200));
    assert!(t.wait().is_none());
    let (c, _) = t.next_command(&mut buf).unwrap();
    t.recieve_and_process(Some(&reply(c, &[0x08, 0, 0, 0, 0, 0], 1)), EtherCatSystemTime(300));
    assert!(t.is_finished());
    assert_eq!(t.wait(), Some(Ok(AlState::Operational)));
}

#[test]
fn al_state_transfer_acknowledges_and_reports() {
    let mut t = AlStateTransfer::new();
    t.start(None, 3, AlState::SafeOperational);
    let mut buf = vec![0u8; 8];
    let (c, _) = t.next_command(&mut buf).unwrap();
    assert_eq!((c.c_type, c.adp, c.ado), (CommandType::BRD, 0, 0x0130));
    // an error is pending: acknowledge it in the state read
    t.recieve_and_process(Some(&reply(c, &[0x12, 0, 0, 0, 0, 0], 3)), EtherCatSystemTime(0));
    let (c, n) = t.next_command(&mut buf).unwrap();
    assert_eq!((c.c_type, c.ado, n), (CommandType::BWR, 0x0120, 2));
    assert_eq!(buf[0], 0x12);
    t.recieve_and_process(Some(&reply(c, &[0x12, 0], 3)), EtherCatSystemTime(0));
    let (c, _) = t.next_command(&mut buf).unwrap();
    t.recieve_and_process(Some(&reply(c, &[0x02, 0, 0, 0, 0, 0], 3)), EtherCatSystemTime(0));
    let (c, _) = t.next_command(&mut buf).unwrap();
    assert_eq!(buf[0], 4);
    t.recieve_and_process(Some(&reply(c, &[4, 0], 3)), EtherCatSystemTime(10));
    let (c, _) = t.next_command(&mut buf).unwrap();
    t.recieve_and_process(Some(&reply(c, &[0x12, 0, 0, 0, 0x1E, 0x00], 3)), EtherCatSystemTime(20));
    assert_eq!(
        t.wait(),
        Some(Err(EcError::TaskSpecific(al_state_transfer::Error::AlStatusCode(AlState::PreOperational, 0x001E))))
    );
}

#[test]
fn al_state_transfer_times_out() {
    let mut t = AlStateTransfer::new();
    t.start(Some(SlaveAddress::SlavePosition(0)), 1, AlState::Init);
    let mut buf = vec![0u8; 8];
    let (c, _) = t.next_command(&mut buf).unwrap();
    t.recieve_and_process(Some(&reply(c, &[0x02, 0, 0, 0, 0, 0], 1)), EtherCatSystemTime(0));
    let (c, _) = t.next_command(&mut buf).unwrap();
    t.recieve_and_process(Some(&reply(c, &[1, 0], 1)), EtherCatSystemTime(1_000));
    let (c, _) = t.next_command(&mut buf).unwrap();
    // five milliseconds is well within the five seconds back to Init
    t.recieve_and_process(Some(&reply(c, &[0x02, 0, 0, 0, 0, 0], 1)), EtherCatSystemTime(1_000 + 5_000_001));
    assert_eq!(t.wait(), None);
    let (c, _) = t.next_command(&mut buf).unwrap();
    t.recieve_and_process(Some(&reply(c, &[0x02, 0, 0, 0, 0, 0], 1)), EtherCatSystemTime(1_000 + 5_000_000_001));
    assert_eq!(
        t.wait(),
        Some(Err(EcError::TaskSpecific(al_state_transfer::Error::TimeoutMs(5000))))
    );
}

#[test]
fn al_state_transfer_back_from_safeop_to_preop_gets_the_back_to_init_time() {
    let mut t = AlStateTransfer::new();
    t.start(Some(SlaveAddress::SlavePosition(0)), 1, AlState::PreOperational);
    let mut buf = vec![0u8; 8];
    let (c, _) = t.next_command(&mut buf).unwrap();
    // the slave is in SafeOp
    t.recieve_and_process(Some(&reply(c, &[0x04, 0, 0, 0, 0, 0], 1)), EtherCatSystemTime(0));
    let (c, _) = t.next_command(&mut buf).unwrap();
    t.recieve_and_process(Some(&reply(c, &[2, 0], 1)), EtherCatSystemTime(0));
    let (c, _) = t.next_command(&mut buf).unwrap();
    // past the three seconds to PreOp, within the five back to Init
    t.recieve_and_process(Some(&reply(c, &[0x04, 0, 0, 0, 0, 0], 1)), EtherCatSystemTime(3_000_000_001));
    assert_eq!(t.wait(), None);
    let (c, _) = t.next_command(&mut buf).unwrap();
    t.recieve_and_process(Some(&reply(c, &[0x04, 0, 0, 0, 0, 0], 1)), EtherCatSystemTime(5_000_000_001));
    assert_eq!(t.wait(), Some(Err(EcError::TaskSpecific(al_state_transfer::Error::TimeoutMs(5000)))));
}

#[test]
fn al_state_transfer_from_init_to_preop_gets_three_seconds() {
    let mut t = AlStateTransfer::new();
    t.start(Some(SlaveAddress::SlavePosition(0)), 1, AlState::PreOperational);
    let mut buf = vec![0u8; 8];
    let (c, _) = t.next_command(&mut buf).unwrap();
    t.recieve_and_process(Some(&reply(c, &[0x01, 0, 0, 0, 0, 0], 1)), EtherCatSystemTime(0));
    let (c, _) = t.next_command(&mut buf).unwrap();
    t.recieve_and_process(Some(&reply(c, &[2, 0], 1)), EtherCatSystemTime(0));
    let (c, _) = t.next_command(&mut buf).unwrap();
    t.recieve_and_process(Some(&reply(c, &[0x01, 0, 0, 0, 0, 0], 1)), EtherCatSystemTime(3_000_000_001));
    assert_eq!(t.wait(), Some(Err(EcError::TaskSpecific(al_state_transfer::Error::TimeoutMs(3000)))));
}

#[test]
fn transfer_timeouts() {
    assert_eq!(max_timeout_ms(), 10000);
    assert_eq!(al_state_transfer::PREOP_TIMEOUT_DEFAULT_MS, 3000);
    assert_eq!(al_state_transfer::BACK_TO_SAFEOP_TIMEOUT_DEFAULT_MS, 200);
}

#[test]
fn al_state_reader_keeps_the_last_state() {
    let mut r = AlStateReader::new();
    r.set_target(TargetSlave::Single(SlaveAddress::StationAddress(0x1000)));
    assert_eq!(AlStateReader::required_buffer_size(), 6);
    let mut buf = vec![1u8; 8];
    let (c, n) = r.next_command(&mut buf).unwrap();
    assert_eq!((c.c_type, c.adp, c.ado, n), (CommandType::FPRD, 0x1000, 0x0130, 6));
    assert_eq!(&buf[..6], &[0u8; 6]);
    r.recieve_and_process(Some(&reply(c, &[0x18, 0, 0, 0, 0x11, 0x00], 1)), EtherCatSystemTime(0));
    assert_eq!(r.last_al_state(), (Some(AlState::Operational), Some(0x11)));
    assert_eq!(r.invalid_wkc_count, 0);
    r.recieve_and_process(Some(&reply(c, &[0x04, 0, 0, 0, 0, 0], 2)), EtherCatSystemTime(0));
    assert_eq!(r.last_al_state(), (Some(AlState::SafeOperational), None));
    assert_eq!(r.invalid_wkc_count, 1);
    r.recieve_and_process(None, EtherCatSystemTime(0));
    assert_eq!(r.lost_pdu_count, 1);
    assert_eq!(r.last_al_state(), (Some(AlState::SafeOperational), None));
}

#[test]
fn rx_error_checker_copies_counters() {
    let mut r = RxErrorChecker::new();
    r.set_target(TargetSlave::All(2));
    let mut buf = vec![0u8; 8];
    let (c, n) = r.next_command(&mut buf).unwrap();
    assert_eq!((c.c_type, c.ado, n), (CommandType::BRD, 0x0300, 8));
    r.recieve_and_process(Some(&reply(c, &[1, 2, 3, 4, 5, 6, 7, 8], 2)), EtherCatSystemTime(0));
    assert_eq!(r.rx_error_count(), &[1, 2, 3, 4, 5, 6, 7, 8]);
    assert_eq!(r.invalid_wkc_count, 0);
    r.recieve_and_process(Some(&reply(c, &[0; 8], 1)), EtherCatSystemTime(0));
    assert_eq!(r.invalid_wkc_count, 1);
    assert_eq!(r.rx_error_count(), &[0u8; 8]);
}

#[test]
fn dc_drift_compensator_measures_offset() {
    let mut d = DcDriftCompensator::new(2, 3);
    let mut buf = vec![9u8; 8];
    let (c, n) = d.next_command(&mut buf).unwrap();
    assert_eq!((c.c_type, c.adp, c.ado, n), (CommandType::ARMW, 2, 0x0910, 8));
    assert_eq!(&buf[..], &[0u8; 8]);
    let time = 1_000_150u64.to_le_bytes();
    // the kept command is the default read, so the reply counts as lost
    d.recieve_and_process(Some(&reply(c, &time, 3)), EtherCatSystemTime(1_000_000));
    assert_eq!(d.lost_pdu_count, 1);
    assert_eq!(d.last_dc_time().0, 1_000_150);
    assert_eq!(d.systemtime_offset_ns(), 150);
    let earlier = 999_900u64.to_le_bytes();
    d.recieve_and_process(Some(&reply(Command::default(), &earlier, 2)), EtherCatSystemTime(1_000_000));
    assert_eq!(d.invalid_wkc_count, 1);
    assert_eq!(d.systemtime_offset_ns(), 100);
    d.recieve_and_process(None, EtherCatSystemTime(0));
    assert_eq!(d.lost_pdu_count, 2);
}

#[test]
fn logical_process_data_counts() {
    let mut p = LogicalProcessData::new(0x0001_0000, 3, 16);
    assert_eq!(p.image_size(), 16);
    assert_eq!(p.start_logical_address(), 0x0001_0000);
    let mut buf = vec![5u8; 16];
    let (c, n) = p.next_command(&mut buf).unwrap();
    assert_eq!((c.c_type, c.adp, c.ado, n), (CommandType::LRW, 0, 1, 16));
    assert_eq!(buf, vec![5u8; 16]);
    p.recieve_and_process(Some(&reply(c, &buf, 3)), EtherCatSystemTime(0));
    assert_eq!((p.invalid_wkc_count, p.lost_pdu_count), (0, 0));
    p.recieve_and_process(Some(&reply(c, &buf, 2)), EtherCatSystemTime(0));
    assert_eq!((p.invalid_wkc_count, p.lost_pdu_count), (1, 0));
    p.recieve_and_process(Some(&reply(Command::default(), &buf, 3)), EtherCatSystemTime(0));
    assert_eq!((p.invalid_wkc_count, p.lost_pdu_count), (1, 1));
    assert!(p.is_finished());
}
