use ethercat_master::al_state::AlState;
use ethercat_master::command::{Command, CommandInterfaceError, SlaveAddress, TargetSlave};
use ethercat_master::frame::CommandType;
use ethercat_master::interface::CommandInterface;
use ethercat_master::socket::{
    CommandData, CommandSocket, Cyclic, EtherCatSystemTime, Poll, SocketHandle, SocketOption,
    SocketsInterface,
};
use ethercat_master::tasks::al_state_reader::AlStateReader;
use ethercat_master::tasks::logical_process_data::LogicalProcessData;

fn interface(slots: usize) -> SocketsInterface {
    let iface = CommandInterface::new(vec![0u8; 1600]);
    let mut sockets = Vec::new();
    for _ in 0..slots {
        sockets.push(SocketOption::default());
    }
    SocketsInterface::new(iface, sockets)
}

#[test]
fn socket_starts_waiting_for_a_command() {
    let s = CommandSocket::new(vec![0u8; 8]);
    assert!(s.is_ready_to_set());
    assert_eq!(s.capacity(), 8);
    assert!(matches!(s.get_recieved_command(), Poll::Pending));
}

#[test]
fn socket_set_and_clear() {
    let mut s = CommandSocket::new(vec![7u8; 4]);
    s.set_command(Some((Command::default(), 2)));
    assert!(!s.is_ready_to_set());
    assert!(matches!(s.get_recieved_command(), Poll::Pending));
    s.clear();
    assert!(s.is_ready_to_set());
    assert_eq!(s.data_buf(), &[0u8, 0, 0, 0]);
    s.set_command(None);
    assert!(s.is_ready_to_set());
}

#[test]
fn slots_are_handed_out_and_reused() {
    let mut si = interface(2);
    let a = si.add_socket(CommandSocket::new(vec![0u8; 4])).ok().unwrap();
    let b = si.add_socket(CommandSocket::new(vec![0u8; 4])).ok().unwrap();
    assert_eq!(usize::from(a.clone()), 0);
    assert_eq!(usize::from(b.clone()), 1);
    assert!(si.add_socket(CommandSocket::new(vec![0u8; 4])).is_err());
    let removed = si.remove_socket(a.clone());
    assert!(removed.is_some());
    assert!(si.remove_socket(a.clone()).is_none());
    assert!(si.get_socket_mut(&a).is_none());
    assert!(si.get_socket_mut(&b).is_some());
    let c = si.add_socket(removed.unwrap()).ok().unwrap();
    assert_eq!(usize::from(c), 0);
}

#[test]
fn out_of_range_handle_finds_nothing() {
    let mut si = interface(1);
    assert!(si.get_socket_mut(&SocketHandle::from(5)).is_none());
    assert!(si.remove_socket(SocketHandle::from(5)).is_none());
}

#[test]
fn reply_travels_back_to_its_socket() {
    let mut si = interface(3);
    let mut reader = AlStateReader::new();
    reader.set_target(TargetSlave::Single(SlaveAddress::StationAddress(0x1001)));
    let mut socket = CommandSocket::new(vec![0u8; 8]);
    reader.process_one_step(&mut socket, EtherCatSystemTime(0));
    let h = si.add_socket(socket).ok().unwrap();

    assert_eq!(si.enqueue_commands(), Ok(true));
    assert_eq!(si.iface().pdus_total_size(), 10 + 6 + 2);

    let len = si.iface().tx_frame_len();
    let mut frame = si.iface_mut().fill_tx_frame(vec![0u8; len]);
    assert_eq!(frame.len(), 16 + 18);
    assert_eq!(frame[16], CommandType::FPRD.to_u8());
    assert_eq!(frame[17], 0);
    assert_eq!(si.iface().tx_count(), 1);

    // the slave answers: operational, one working counter, and the
    // source address changed on the way
    frame[6] |= 0x02;
    frame[26] = 0x08;
    frame[32] = 1;
    assert!(si.iface().reply_fits_exec(&frame, 0));
    let size = si.iface_mut().receive_frame(&frame, 0);
    assert_eq!(size, 18);
    assert!(si.iface().consumable_exec());
    si.process();
    assert_eq!(si.iface().pdus_total_size(), 0);

    let socket = si.get_socket_mut(&h).unwrap();
    match socket.get_recieved_command() {
        Poll::Ready(Some(d)) => {
            assert_eq!(d.wkc, 1);
            assert_eq!(d.data, &[8u8, 0, 0, 0, 0, 0]);
            assert_eq!(d.command.adp, 0x1001);
        }
        other => panic!("unexpected {:?}", other),
    }
    reader.process_one_step(socket, EtherCatSystemTime(1));
    assert_eq!(reader.last_al_state(), (Some(AlState::Operational), None));
}

#[test]
fn command_that_does_not_fit_is_lost() {
    let mut si = interface(1);
    let mut task = LogicalProcessData::new(0, 1, 1490);
    let mut socket = CommandSocket::new(vec![0u8; 1600]);
    task.process_one_step(&mut socket, EtherCatSystemTime(0));
    let h = si.add_socket(socket).ok().unwrap();
    assert_eq!(si.enqueue_commands(), Ok(false));
    assert_eq!(si.iface().pdus_total_size(), 0);
    assert!(si.iface().consumable_exec());
    si.process();
    let socket = si.get_socket_mut(&h).unwrap();
    assert!(matches!(socket.get_recieved_command(), Poll::Ready(None)));
    task.process_one_step(socket, EtherCatSystemTime(1));
    assert_eq!(task.lost_pdu_count, 1);
}

#[test]
fn sockets_without_a_reply_get_none() {
    let mut si = interface(2);
    let mut first = AlStateReader::new();
    let mut second = AlStateReader::new();
    let mut s0 = CommandSocket::new(vec![0u8; 8]);
    let mut s1 = CommandSocket::new(vec![0u8; 8]);
    first.process_one_step(&mut s0, EtherCatSystemTime(0));
    second.process_one_step(&mut s1, EtherCatSystemTime(0));
    let h0 = si.add_socket(s0).ok().unwrap();
    let h1 = si.add_socket(s1).ok().unwrap();
    assert_eq!(si.enqueue_commands(), Ok(true));
    assert_eq!(si.iface().pdus_total_size(), 36);
    let len = si.iface().tx_frame_len();
    let mut frame = si.iface_mut().fill_tx_frame(vec![0u8; len]);
    frame[6] |= 0x02;
    // only the second datagram comes back
    let second_only: Vec<u8> = frame[..16].iter().chain(frame[34..52].iter()).cloned().collect();
    let mut reply = second_only.clone();
    reply[26] = 0x02;
    reply[32] = 1;
    let size = si.iface_mut().receive_frame(&reply, 0);
    assert_eq!(size, 18);
    // the queue still counts both datagrams; after the reply it still holds
    // the second datagram as it was sent
    assert!(si.iface().consumable_exec());
    si.process();
    let s0 = si.get_socket_mut(&h0).unwrap();
    assert!(matches!(s0.get_recieved_command(), Poll::Ready(None)));
    let s1 = si.get_socket_mut(&h1).unwrap();
    match s1.get_recieved_command() {
        Poll::Ready(Some(d)) => assert_eq!(d.data[0], 0x02),
        other => panic!("unexpected {:?}", other),
    }
}

#[test]
fn command_data_starts_with_zero_wkc() {
    let d = CommandData::new(Command::default(), &[1, 2]);
    assert_eq!(d.wkc, 0);
    assert_eq!(d.data, &[1u8, 2]);
}

#[test]
fn interface_error_variants() {
    let all = [
        CommandInterfaceError::TxError,
        CommandInterfaceError::RxError,
        CommandInterfaceError::Busy,
        CommandInterfaceError::TooLargeData,
        CommandInterfaceError::NotEnoughCapacityLeft,
        CommandInterfaceError::TxTimeout,
        CommandInterfaceError::RxTimeout,
    ];
    assert_eq!(all.len(), 7);
    assert_ne!(all[0], all[1]);
}

#[test]
fn queue_handed_out_as_built_returns_each_socket_its_data() {
    let mut si = interface(3);
    let mut a = CommandSocket::new(vec![1u8, 2, 3, 4]);
    a.set_command(Some((Command::new(CommandType::FPRD, 0x1001, 0x0130), 3)));
    let mut b = CommandSocket::new(vec![9u8, 8]);
    b.set_command(Some((Command::new(CommandType::BWR, 0, 0x0120), 2)));
    let ha = si.add_socket(a).ok().unwrap();
    let hb = si.add_socket(b).ok().unwrap();
    assert_eq!(si.enqueue_commands(), Ok(true));
    assert_eq!(si.iface().pdus_total_size(), 12 + 3 + 12 + 2);
    assert!(si.iface().consumable_exec());
    si.process();
    match si.get_socket_mut(&ha).unwrap().get_recieved_command() {
        Poll::Ready(Some(d)) => {
            assert_eq!(d.data, &[1u8, 2, 3]);
            assert_eq!(d.command, Command::new(CommandType::FPRD, 0x1001, 0x0130));
        }
        other => panic!("unexpected {:?}", other),
    }
    match si.get_socket_mut(&hb).unwrap().get_recieved_command() {
        Poll::Ready(Some(d)) => {
            assert_eq!(d.data, &[9u8, 8]);
            assert_eq!(d.command, Command::new(CommandType::BWR, 0, 0x0120));
        }
        other => panic!("unexpected {:?}", other),
    }
}

#[test]
fn socket_passed_over_by_a_greater_index_gets_none() {
    let mut si = interface(2);
    let mut a = CommandSocket::new(vec![1u8, 2]);
    a.set_command(Some((Command::new(CommandType::APRD, 0, 0x0130), 2)));
    let mut b = CommandSocket::new(vec![3u8, 4]);
    b.set_command(Some((Command::new(CommandType::APRD, 0xffff, 0x0130), 2)));
    let ha = si.add_socket(a).ok().unwrap();
    let hb = si.add_socket(b).ok().unwrap();
    assert_eq!(si.enqueue_commands(), Ok(true));
    let len = si.iface().tx_frame_len();
    let mut frame = si.iface_mut().fill_tx_frame(vec![0u8; len]);
    frame[6] |= 0x02;
    // the datagrams come back in the other order: slot 1 first, then slot 0
    let mut reply: Vec<u8> = frame[..16].to_vec();
    reply.extend_from_slice(&frame[30..44]);
    reply.extend_from_slice(&frame[16..30]);
    reply[16 + 7] |= 0x80;
    reply[30 + 7] &= 0x7f;
    assert!(si.iface().reply_fits_exec(&reply, 0));
    let _ = si.iface_mut().receive_frame(&reply, 0);
    assert!(si.iface().consumable_exec());
    assert!(si.replies_match_exec());
    si.process();
    assert!(matches!(si.get_socket_mut(&ha).unwrap().get_recieved_command(), Poll::Ready(None)));
    match si.get_socket_mut(&hb).unwrap().get_recieved_command() {
        Poll::Ready(Some(d)) => assert_eq!(d.data, &[3u8, 4]),
        other => panic!("unexpected {:?}", other),
    }
}

#[test]
fn socket_buffer_written_in_place_goes_out() {
    let mut si = interface(1);
    let mut s = CommandSocket::new(vec![0u8; 4]);
    {
        let b = s.data_buf_mut();
        b[0] = 0x12;
        b[1] = 0x34;
    }
    assert_eq!(s.data_buf(), &[0x12u8, 0x34, 0, 0]);
    s.set_command(Some((Command::new(CommandType::BWR, 0, 0x0a00), 2)));
    let h = si.add_socket(s).ok().unwrap();
    assert_eq!(si.enqueue_commands(), Ok(true));
    assert_eq!(&si.iface().buffer()[10..12], &[0x12u8, 0x34]);
    si.process();
    match si.get_socket_mut(&h).unwrap().get_recieved_command() {
        Poll::Ready(Some(d)) => assert_eq!(d.data, &[0x12u8, 0x34]),
        other => panic!("unexpected {:?}", other),
    }
}
