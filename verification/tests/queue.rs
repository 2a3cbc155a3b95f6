use ethercat_master::command::Command;
use ethercat_master::device::DeviceError;
use ethercat_master::ec_frame::EtherCatFrame;
use ethercat_master::frame::CommandType;
use ethercat_master::interface::{pdus_fit_exec, CommandInterface};
use ethercat_master::master::{MailboxSessionId, SdoManager};
use ethercat_master::frame::MailboxFrame;
use ethercat_master::command::SlaveAddress;

#[test]
fn frame_adds_datagrams_with_their_index() {
    let mut f = EtherCatFrame::new(vec![0u8; 60]).unwrap();
    f.init();
    assert!(f.add_command(CommandType::FPRD, 0x1001, 0x0130, &[0, 0], Some(7)));
    assert!(f.add_command(CommandType::BWR, 0, 0x0120, &[2], None));
    let p = f.packet();
    assert_eq!(p.len(), 16 + 14 + 13);
    assert_eq!(p[17], 7);
    assert_eq!(p[16 + 14 + 1], 0);
    assert_eq!(p[23] & 0x80, 0x80);
    let mut offsets = f.iter_dlpdu_offsets();
    assert_eq!(offsets.next(), Some(16));
    assert_eq!(offsets.next(), Some(30));
    assert_eq!(offsets.next(), None);
    let mut pdus = f.iter_dlpdu();
    assert_eq!(pdus.next().map(|d| d.len()), Some(14));
    assert_eq!(pdus.next().map(|d| d[10]), Some(2));
    assert!(pdus.next().is_none());
}

#[test]
fn frame_refuses_what_does_not_fit() {
    assert!(EtherCatFrame::new(vec![0u8; 15]).is_none());
    let mut f = EtherCatFrame::new(vec![0u8; 30]).unwrap();
    f.init();
    assert!(!f.add_command(CommandType::FPRD, 0, 0, &[0u8; 8], None));
    assert!(f.add_command(CommandType::FPRD, 0, 0, &[0u8; 2], None));
}

#[test]
fn queue_sends_its_datagrams_in_one_frame() {
    let mut q = CommandInterface::new(vec![0u8; 100]);
    assert_eq!(q.capacity(), 100);
    assert_eq!(q.remainig_pdu_data_capacity(), 88);
    let read = Command::new(CommandType::FPRD, 0x1001, 0x0130);
    let write = Command::new(CommandType::FPWR, 0x1002, 0x0120);
    assert!(q.nothing_to_transmit());
    assert!(q.add_command(3, read, &[0u8; 6]).is_ok());
    assert_eq!(q.pdu_count(), 1);
    assert!(!q.nothing_to_transmit());
    assert!(q.add_command(4, write, &[8, 0]).is_ok());
    assert_eq!(q.pdus_total_size(), 18 + 14);
    assert_eq!(q.pdu_count(), 2);
    assert_eq!(q.add_command(5, read, &[0u8; 80]), Err(read));
    assert_eq!(q.pdu_count(), 2);
    assert!(!q.all_transmitted());
    let len = q.tx_frame_len();
    assert_eq!(len, 16 + 32);
    let frame = q.fill_tx_frame(vec![0u8; len]);
    assert_eq!(q.tx_count(), 2);
    assert!(q.all_transmitted());
    assert_eq!(frame[17], 3);
    assert_eq!(frame[16 + 18 + 1], 4);
    assert_eq!(&frame[16 + 18 + 10..16 + 18 + 12], &[8, 0]);
    // the EtherCAT header counts both datagrams
    assert_eq!(frame[14], 32);
    assert!(q.consumable_exec());
    let mut pdus = q.consume_commands();
    assert_eq!(pdus.next().map(|d| d[1]), Some(3));
    assert_eq!(pdus.next().map(|d| d[1]), Some(4));
    assert!(pdus.next().is_none());
    assert_eq!(q.pdus_total_size(), 0);
    assert_eq!(q.pdu_count(), 0);
}

#[test]
fn own_frames_are_not_replies() {
    let mut q = CommandInterface::new(vec![0u8; 100]);
    assert!(q.add_command(0, Command::default(), &[0u8; 2]).is_ok());
    let len = q.tx_frame_len();
    let frame = q.fill_tx_frame(vec![0u8; len]);
    assert_eq!(q.receive_frame(&frame, 0), 0);
}

#[test]
fn walking_datagrams_checks_bounds() {
    let mut b = vec![0u8; 20];
    b[6] = 4;
    assert!(pdus_fit_exec(&b, 0, 20));
    b[6] = 9;
    assert!(!pdus_fit_exec(&b, 0, 20));
}

#[test]
fn unit_handles_and_sessions() {
    let manager = SdoManager::new();
    assert!(manager.session_id().is_none());
    assert!(!manager.is_same_session_id(&MailboxSessionId::default()));
    assert_eq!(MailboxSessionId::default(), MailboxSessionId::default());
    assert_ne!(DeviceError::Device, DeviceError::Function);
}

#[test]
fn sdo_manager_keeps_the_session_of_the_request_it_wrote() {
    let mut manager = SdoManager::new();
    let mut mb = MailboxFrame(vec![0u8; 16]);
    let id = manager.write_request(SlaveAddress::SlavePosition(2), 5, 0x1C12, 0, &[1, 2], &mut mb);
    assert_eq!(manager.session_id(), Some(&id));
    assert!(manager.is_same_session_id(&id));
    assert!(!manager.is_same_session_id(&MailboxSessionId::default()));
    assert_eq!(mb.count(), 5);
    assert_eq!(mb.0, vec![12, 0, 0, 0, 0, 0x53, 0, 0x20, 0x21, 0x12, 0x1C, 0, 2, 0, 0, 0]);
}

#[test]
fn echoed_frame_leaves_the_queue_reading_as_sent() {
    let mut q = CommandInterface::new(vec![0u8; 100]);
    let read = Command::new(CommandType::FPRD, 0x1001, 0x0130);
    let write = Command::new(CommandType::BWR, 0, 0x0120);
    assert!(q.add_command(1, read, &[5u8, 6, 7]).is_ok());
    assert!(q.add_command(2, write, &[8, 9]).is_ok());
    let total = q.pdus_total_size();
    let before = q.buffer()[..total].to_vec();
    let len = q.tx_frame_len();
    let mut frame = q.fill_tx_frame(vec![0u8; len]);
    // the reply: the same datagrams, another source address
    frame[6] |= 0x02;
    assert!(q.reply_fits_exec(&frame, 0));
    assert_eq!(q.receive_frame(&frame, 0), total);
    let after = &q.buffer()[..total];
    // each datagram: same command, index, addresses, length and data
    for (o, n) in [(0usize, 3usize), (15, 2)] {
        assert_eq!(&after[o..o + 7], &before[o..o + 7]);
        assert_eq!(after[o + 7] & 0x07, before[o + 7] & 0x07);
        assert_eq!(&after[o + 10..o + 10 + n], &before[o + 10..o + 10 + n]);
    }
    assert!(q.consumable_exec());
    let mut pdus = q.consume_commands();
    assert_eq!(pdus.next().map(|d| d[10..13].to_vec()), Some(vec![5u8, 6, 7]));
    assert_eq!(pdus.next().map(|d| d[10..12].to_vec()), Some(vec![8u8, 9]));
    assert!(pdus.next().is_none());
}

#[test]
fn frame_walk_after_adds_finds_each_datagram_with_its_fields() {
    let mut f = EtherCatFrame::new(vec![0xAAu8; 80]).unwrap();
    f.init();
    assert!(f.add_command(CommandType::APRD, 0xFFFF, 0x0130, &[0, 0], Some(3)));
    assert!(f.add_command(CommandType::FPWR, 0x1001, 0x0120, &[1, 2, 3, 4], None));
    assert!(f.add_command(CommandType::BRD, 0, 0x0910, &[0; 8], Some(9)));
    let mut offsets = f.iter_dlpdu_offsets();
    let mut seen = vec![];
    while let Some(o) = offsets.next() {
        seen.push(o);
    }
    assert_eq!(seen, vec![16, 30, 46]);
    let mut pdus = f.iter_dlpdu();
    let mut fields = vec![];
    while let Some(d) = pdus.next() {
        let adp = u16::from_le_bytes([d[2], d[3]]);
        let ado = u16::from_le_bytes([d[4], d[5]]);
        let len = u16::from_le_bytes([d[6], d[7]]) & 0x07FF;
        fields.push((d.len(), d[1], adp, ado, len, d[10..10 + len as usize].to_vec()));
    }
    assert_eq!(
        fields,
        vec![
            (14, 3, 0xFFFF, 0x0130, 2, vec![0, 0]),
            (16, 0, 0x1001, 0x0120, 4, vec![1, 2, 3, 4]),
            (20, 9, 0x0000, 0x0910, 8, vec![0; 8]),
        ]
    );
}
