use ethercat_master::error::EcError;
use ethercat_master::frame::CommandType;
use ethercat_master::dc_init::{DcInitState, DcInitializer, DcSlave};
use ethercat_master::dc::{
    dc_delay_average, dc_delays_fit, dc_offset_and_delay_writes, dc_offset_average, dc_offset_sample,
    dc_port_interval, DcSampler, DC_SAMPLES,
};
use ethercat_master::al_state::{
    al_state_from_reply, al_state_read_frame, al_state_request_frame, AlState, AlStateWaiter,
    AlWaitAction, Error,
};
use ethercat_master::cycletime::CycleTime;
use ethercat_master::dc::{dc_delays, dc_esc_time_from_reply, dc_port_times_from_reply, dc_system_time_offset};
use ethercat_master::ethercat_frame::{self, EtherCATFrame};
use std::time::Duration;

#[test]
fn al_state_codes() {
    assert_eq!(AlState::from(1u16), AlState::Init);
    assert_eq!(AlState::from(2u16), AlState::PreOperational);
    assert_eq!(AlState::from(3u16), AlState::Bootstrap);
    assert_eq!(AlState::from(4u16), AlState::SafeOperational);
    assert_eq!(AlState::from(8u16), AlState::Operational);
    assert_eq!(AlState::from(5u16), AlState::Invalid);
    assert_eq!(AlState::from(0u16), AlState::Invalid);
    for s in [AlState::Init, AlState::PreOperational, AlState::Bootstrap, AlState::SafeOperational, AlState::Operational, AlState::Invalid] {
        assert_eq!(AlState::from(s.code() as u16), s);
    }
}

#[test]
fn request_frame_writes_the_state_code() {
    let mut f = EtherCATFrame::new_unchecked(vec![0u8; 64]);
    assert_eq!(al_state_request_frame(&mut f, 1, AlState::SafeOperational), Ok(()));
    let p = f.packet();
    assert_eq!(p.len(), 16 + 10 + 1 + 2);
    assert_eq!(p[16], 2);
    assert_eq!(&p[18..20], &[0xFF, 0xFF]);
    assert_eq!(&p[20..22], &[0x20, 0x01]);
    assert_eq!(p[26], 4);
}

#[test]
fn request_frame_needs_room() {
    let mut f = EtherCATFrame::new_unchecked(vec![0u8; 20]);
    assert_eq!(al_state_request_frame(&mut f, 0, AlState::Init), Err(Error::SmallBuffer));
}

fn status_reply(first: u8, code: u16) -> Vec<u8> {
    let mut f = EtherCATFrame::new_unchecked(vec![0u8; 40]);
    assert_eq!(al_state_read_frame(&mut f, 0), Ok(()));
    let mut b = f.drop();
    b[26] = first;
    b[30..32].copy_from_slice(&code.to_le_bytes());
    b
}

#[test]
fn reply_gives_the_state() {
    let b = status_reply(0x08, 0);
    assert_eq!(al_state_from_reply(&b, true), Ok(AlState::Operational));
    let e = status_reply(0x14, 0x001B);
    assert_eq!(al_state_from_reply(&e, false), Ok(AlState::SafeOperational));
    assert_eq!(al_state_from_reply(&e, true), Err(Error::ALStateTransfer(0x001B, AlState::SafeOperational)));
}

#[test]
fn reply_without_datagram() {
    let mut f = EtherCATFrame::new_unchecked(vec![0u8; 40]);
    f.init();
    let b = f.drop();
    assert_eq!(al_state_from_reply(&b, false), Err(Error::SmallBuffer));
    assert_eq!(al_state_from_reply(&[0u8; 8], false), Err(Error::SmallBuffer));
}

#[test]
fn waiter_reaches_target() {
    let mut w = AlStateWaiter::new(AlState::Operational, 100, 1000);
    assert_eq!(w.first_action(), AlWaitAction::Read { check_error_code: false });
    assert_eq!(w.on_read(AlState::SafeOperational, 500), AlWaitAction::Read { check_error_code: false });
    assert_eq!(w.on_read(AlState::Operational, 600), AlWaitAction::Reached);
}

#[test]
fn waiter_gives_one_last_read() {
    let mut w = AlStateWaiter::new(AlState::Operational, 100, 1000);
    assert_eq!(w.on_read(AlState::SafeOperational, 1100), AlWaitAction::Read { check_error_code: true });
    assert_eq!(w.on_read(AlState::Operational, 1200), AlWaitAction::Reached);
    let mut v = AlStateWaiter::new(AlState::Init, 0, 10);
    assert_eq!(v.on_read(AlState::PreOperational, 10), AlWaitAction::Read { check_error_code: true });
    assert_eq!(v.on_read(AlState::PreOperational, 20), AlWaitAction::Failed(Error::ALStateTimeout(10, AlState::Init)));
}

#[test]
fn cycle_times() {
    assert_eq!(CycleTime::T500Micros.as_nanos(), 500_000);
    assert_eq!(CycleTime::T1Millis.as_nanos(), 1_000_000);
    assert_eq!(CycleTime::T16Millis.as_nanos(), 16_000_000);
    assert_eq!(CycleTime::T2Millis.as_duration(), Duration::from_millis(2));
    assert!(CycleTime::T500Micros < CycleTime::T1Millis);
}

#[test]
fn dc_delays_along_a_line() {
    let p0 = [0u64, 0, 0];
    let p1 = [16 * 100u64, 16 * 60, 0];
    assert_eq!(dc_delays(&p0, &p1, 3), vec![0, 40, 70]);
    assert_eq!(dc_delays(&p0, &p1, 1), vec![0]);
    assert_eq!(dc_delays(&p0, &p1, 0), Vec::<u64>::new());
    // a slave whose loop is longer than its parent's
    let q0 = [0u64, 0, 0, 0];
    let q1 = [16 * 50u64, 16 * 80, 16 * 20, 0];
    assert_eq!(dc_delays(&q0, &q1, 4), vec![0, 35, 35 + 50, 35 + 50 + 10]);
}

#[test]
fn dc_offset_is_master_time_less_average() {
    assert_eq!(dc_system_time_offset(1000, 16 * 300), 700);
    assert_eq!(dc_system_time_offset(1000, 16 * 300 + 15), 700);
}

#[test]
fn dc_times_from_replies() {
    let mut f = EtherCATFrame::new_unchecked(vec![0u8; 64]);
    f.init();
    assert_eq!(f.add_aprd(0, 0x0900, &[0u8; 8]), Ok(()));
    let mut b = f.drop();
    b[26..30].copy_from_slice(&0x1122_3344u32.to_le_bytes());
    b[30..34].copy_from_slice(&0x5566_7788u32.to_le_bytes());
    assert_eq!(dc_port_times_from_reply(&b), Ok((0x1122_3344, 0x5566_7788)));
    assert_eq!(dc_esc_time_from_reply(&b), Ok(0x5566_7788_1122_3344));
    let mut empty = EtherCATFrame::new_unchecked(vec![0u8; 64]);
    empty.init();
    assert_eq!(dc_port_times_from_reply(&empty.drop()), Err(ethercat_frame::Error::SmallBuffer));
}

#[test]
fn dc_sampler_reads_every_slave_in_every_round() {
    let mut s = DcSampler::new(2);
    let mut reads = 0;
    while let Some((adp, register, size)) = s.next_read() {
        let slave = reads / 2 % 2;
        assert_eq!(adp, (0u16).wrapping_sub(slave as u16));
        if reads % 2 == 0 {
            assert_eq!((register, size), (0x0900, 32));
            s.on_port_times(100 + slave as u32, 200 + slave as u32);
        } else {
            assert_eq!((register, size), (0x0918, 8));
            s.on_esc_time(1_000 + slave as u64);
        }
        reads += 1;
    }
    assert!(s.is_done());
    assert_eq!(reads, 4 * DC_SAMPLES as usize);
    assert_eq!(s.port0_sums, vec![100 * DC_SAMPLES, 101 * DC_SAMPLES]);
    assert_eq!(s.port1_sums, vec![200 * DC_SAMPLES, 201 * DC_SAMPLES]);
    assert_eq!(s.esc_sums, vec![1_000 * DC_SAMPLES as u128, 1_001 * DC_SAMPLES as u128]);
}

#[test]
fn dc_sampler_without_slaves_reads_nothing() {
    let s = DcSampler::new(0);
    assert!(s.is_done());
    assert_eq!(s.next_read(), None);
}

#[test]
fn dc_offset_readings_are_averaged() {
    assert_eq!(dc_offset_sample(1_000, 400), 600);
    assert_eq!(dc_offset_sample(400, 1_000), 0);
    assert_eq!(dc_offset_average(0, 600), 600);
    assert_eq!(dc_offset_average(600, 801), 300 + 400);
}

#[test]
fn dc_port_interval_crosses_the_clock_wrap() {
    assert_eq!(dc_port_interval(100, 350), 250);
    assert_eq!(dc_port_interval(0xFFFF_FF00, 0x0000_0100), 0x200);
    assert_eq!(dc_port_interval(7, 7), 0);
}

#[test]
fn dc_delay_readings_are_averaged() {
    assert_eq!(dc_delay_average(0, 100, 500, 100), 300);
    assert_eq!(dc_delay_average(300, 100, 700, 100), 150 + 200);
}

fn dc_slave(support_dc: bool, linked: (bool, bool, bool, bool)) -> DcSlave {
    DcSlave {
        support_dc,
        linked_ports: linked,
        parent_port: None,
        offset: 0,
        delay: 0,
        received_port_time: (0, 0, 0, 0),
    }
}

fn kept_command() -> ethercat_master::command::Command {
    ethercat_master::command::Command::new(CommandType::APRD, 0, 0)
}

#[test]
fn dc_initializer_start_sets_the_topology() {
    let mut d = DcInitializer::new();
    assert!(d.wait().is_none());
    let line = (true, true, false, false);
    d.start(vec![dc_slave(false, line), dc_slave(true, line), dc_slave(true, line)], &[(0, 0), (1, 0), (2, 0)]);
    assert_eq!(d.slaves[0].parent_port, None);
    assert_eq!(d.slaves[1].parent_port, Some((0, 0)));
    assert_eq!(d.slaves[2].parent_port, Some((1, 0)));
    assert_eq!(d.first_dc_slave, Some(1));
    assert_eq!(d.dc_slave_count, 2);
    assert!(matches!(d.state, DcInitState::RequestToLatch(0)));
    let (c, data) = d.next_command(0).unwrap();
    assert_eq!((c.c_type, c.adp, c.ado), (CommandType::BWR, 0, 0x0900));
    assert_eq!(data, vec![0u8; 16]);
}

#[test]
fn dc_initializer_refuses_replies_to_other_commands() {
    let mut d = DcInitializer::new();
    d.start(vec![dc_slave(true, (true, false, false, false))], &[(0, 0)]);
    let (c, _) = d.next_command(0).unwrap();
    // the command kept for comparison is the default read, not the one sent
    d.recieve_and_process(Some((c, &[0u8; 16][..], 1)));
    assert!(matches!(d.wait(), Some(Err(EcError::UnexpectedCommand))));

    let mut d = DcInitializer::new();
    d.start(vec![dc_slave(true, (true, false, false, false))], &[(0, 0)]);
    d.recieve_and_process(None);
    assert!(matches!(d.wait(), Some(Err(EcError::LostPacket))));
}

#[test]
fn dc_initializer_reads_offsets_and_receive_times() {
    let line = (true, true, false, false);
    let mut d = DcInitializer::new();
    d.start(vec![dc_slave(true, line), dc_slave(true, line), dc_slave(true, line)], &[(0, 0), (1, 0), (2, 0)]);
    d.recieve_and_process(Some((kept_command(), &[0u8; 16][..], 2)));
    assert!(matches!(d.wait(), Some(Err(EcError::UnexpectedWkc(2)))));

    let mut d = DcInitializer::new();
    d.start(vec![dc_slave(true, line), dc_slave(true, line), dc_slave(true, line)], &[(0, 0), (1, 0), (2, 0)]);
    d.recieve_and_process(Some((kept_command(), &[0u8; 16][..], 3)));
    assert!(matches!(d.state, DcInitState::CalculateOffset(0, 0)));
    let (c, data) = d.next_command(0).unwrap();
    assert_eq!((c.c_type, c.adp, c.ado, data.len()), (CommandType::APRD, 0, 0x0910, 8));
    d.sys_time = 1_000;
    d.recieve_and_process(Some((kept_command(), &400u64.to_le_bytes()[..], 1)));
    assert_eq!(d.slaves[0].offset, 600);
    assert!(matches!(d.state, DcInitState::CalculateDelay(0, 0)));
    let (c, _) = d.next_command(5_000).unwrap();
    assert_eq!((c.c_type, c.ado), (CommandType::APRD, 0x0900));
    assert_eq!(d.sys_time, 5_000);
    let mut times = vec![];
    for t in [10u32, 20, 30, 40] {
        times.extend_from_slice(&t.to_le_bytes());
    }
    d.recieve_and_process(Some((kept_command(), &times[..], 1)));
    assert_eq!(d.slaves[0].received_port_time, (10, 20, 30, 40));
    assert!(matches!(d.state, DcInitState::RequestToLatch(0)));
}

#[test]
fn dc_initializer_computes_a_delay_from_the_loops() {
    let mut d = DcInitializer::new();
    let mut parent = dc_slave(true, (true, true, false, false));
    parent.delay = 10;
    parent.received_port_time = (100, 300, 0, 0);
    let mut child = dc_slave(true, (true, false, false, false));
    child.parent_port = Some((0, 0));
    d.slaves = vec![parent, child];
    d.first_dc_slave = Some(0);
    d.dc_slave_count = 2;
    d.state = DcInitState::CalculateDelay(16, 1);
    let mut times = vec![];
    for t in [500u32, 0, 0, 0] {
        times.extend_from_slice(&t.to_le_bytes());
    }
    d.recieve_and_process(Some((kept_command(), &times[..], 1)));
    assert_eq!(d.slaves[1].delay, 110);
    assert_eq!(d.slaves[1].received_port_time, (500, 0, 0, 0));
    assert!(matches!(d.state, DcInitState::CalculateDelay(16, 2)));
}

#[test]
fn dc_initializer_writes_offsets_and_delays_then_compensates() {
    let mut d = DcInitializer::new();
    let mut a = dc_slave(true, (true, true, false, false));
    a.offset = 0x0102;
    let b = dc_slave(false, (true, true, false, false));
    let mut c = dc_slave(true, (true, false, false, false));
    c.delay = 7;
    d.slaves = vec![a, b, c];
    d.first_dc_slave = Some(0);
    d.dc_slave_count = 2;
    d.state = DcInitState::SetOffset(0);
    let (cmd, data) = d.next_command(0).unwrap();
    assert_eq!((cmd.c_type, cmd.adp, cmd.ado), (CommandType::APWR, 0, 0x0920));
    assert_eq!(data, vec![0x02, 0x01, 0, 0, 0, 0, 0, 0]);
    d.recieve_and_process(Some((kept_command(), &[][..], 1)));
    assert!(matches!(d.state, DcInitState::SetOffset(2)));
    d.recieve_and_process(Some((kept_command(), &[][..], 1)));
    assert!(matches!(d.state, DcInitState::SetDelay(0)));
    d.recieve_and_process(Some((kept_command(), &[][..], 1)));
    assert!(matches!(d.state, DcInitState::SetDelay(2)));
    let (cmd, data) = d.next_command(0).unwrap();
    assert_eq!((cmd.c_type, cmd.adp, cmd.ado), (CommandType::APWR, 0xFFFE, 0x0928));
    assert_eq!(data, vec![7, 0, 0, 0]);
    d.recieve_and_process(Some((kept_command(), &[][..], 1)));
    assert!(matches!(d.state, DcInitState::CompensateDrift(0)));
    let (cmd, _) = d.next_command(0).unwrap();
    assert_eq!((cmd.c_type, cmd.adp, cmd.ado), (CommandType::ARMW, 0, 0x0910));
    d.recieve_and_process(Some((kept_command(), &[0u8; 8][..], 2)));
    assert!(matches!(d.state, DcInitState::CompensateDrift(1)));
}

#[test]
fn dc_writes_offsets_to_every_slave_then_delays_from_the_second() {
    let esc: Vec<u128> = vec![16 * 1000, 16 * 2000, 16 * 3000];
    let p0: Vec<u64> = vec![16 * 100, 16 * 200, 16 * 300];
    let p1: Vec<u64> = vec![16 * 500, 16 * 400, 16 * 300];
    assert!(dc_delays_fit(&p0, &p1, 3));
    let writes = dc_offset_and_delay_writes(1_000_000, &esc, &p0, &p1, 3);
    let plain: Vec<(u16, u16, Vec<u8>)> = writes.iter().map(|w| (w.adp, w.register, w.data.clone())).collect();
    assert_eq!(
        plain,
        vec![
            (0x0000, 0x0920, 999_000u64.to_le_bytes().to_vec()),
            (0xFFFF, 0x0920, 998_000u64.to_le_bytes().to_vec()),
            (0xFFFE, 0x0920, 997_000u64.to_le_bytes().to_vec()),
            (0xFFFF, 0x0928, 120u32.to_le_bytes().to_vec()),
            (0xFFFE, 0x0928, 220u32.to_le_bytes().to_vec()),
        ]
    );
    assert!(dc_offset_and_delay_writes(0, &[], &[], &[], 0).is_empty());
}
