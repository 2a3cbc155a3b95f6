use ethercat_master::command::{get_ap_adp, Command, SlaveAddress, TargetSlave};
use ethercat_master::ethercat_frame::{EtherCATFrame, Error, FIRST_PDU_OFFSET};
use ethercat_master::frame::{
    CommandType, EtherCatPdu, EthernetFrame, MailboxFrame, MailboxType, DST_MAC, ETHERCAT_TYPE,
    SRC_MAC,
};

#[test]
fn ethernet_header_defaults() {
    let mut e = EthernetFrame::new();
    e.set_ethercat_default();
    assert_eq!(e.destination(), DST_MAC);
    assert_eq!(e.source(), SRC_MAC);
    assert_eq!(e.ether_type(), ETHERCAT_TYPE);
    assert_eq!(e.0[12], 0x88);
    assert_eq!(e.0[13], 0xA4);
}

#[test]
fn pdu_header_fields_read_back() {
    let mut p = EtherCatPdu(vec![0u8; 14]);
    p.set_command_type(4);
    p.set_index(7);
    p.set_adp(0x1234);
    p.set_ado(0x0130);
    p.set_length(2);
    p.set_has_next(true);
    p.set_irq(0xBEEF);
    assert_eq!(p.command_type(), 4);
    assert_eq!(p.index(), 7);
    assert_eq!(p.adp(), 0x1234);
    assert_eq!(p.0[2], 0x34);
    assert_eq!(p.0[3], 0x12);
    assert_eq!(p.ado(), 0x0130);
    assert_eq!(p.length(), 2);
    assert!(p.has_next());
    assert!(!p.is_circulated());
    assert_eq!(p.irq(), 0xBEEF);
    // header, two payload bytes and the working counter
    assert_eq!(p.wkc(), Some(0));
    p.set_has_next(false);
    assert_eq!(p.length(), 2);
    assert!(!p.has_next());
}

#[test]
fn pdu_length_keeps_eleven_bits() {
    let mut p = EtherCatPdu::new();
    p.set_length(0xFFFF);
    assert_eq!(p.length(), 0x07FF);
    assert!(!p.has_next());
}

#[test]
fn pdu_wkc_missing_when_short() {
    let mut p = EtherCatPdu(vec![0u8; 12]);
    p.set_length(2);
    assert_eq!(p.wkc(), None);
}

#[test]
fn mailbox_header_fields() {
    let mut m = MailboxFrame::new();
    m.set_length(10);
    m.set_address(0x1001);
    m.set_mb_type(MailboxType::CoE);
    m.set_count(5);
    assert_eq!(m.length(), 10);
    assert_eq!(m.address(), 0x1001);
    assert_eq!(m.mb_type(), MailboxType::CoE);
    assert_eq!(m.mailbox_type(), 3);
    assert_eq!(m.count(), 5);
}

#[test]
fn mailbox_type_codes() {
    assert_eq!(MailboxType::from_u8(3), MailboxType::CoE);
    assert_eq!(MailboxType::CoE.to_u8(), 3);
    assert_eq!(MailboxType::from_u8(0), MailboxType::Error);
}

#[test]
fn command_type_codes() {
    assert_eq!(CommandType::new(1), CommandType::APRD);
    assert_eq!(CommandType::new(12), CommandType::LRW);
    assert_eq!(CommandType::LRW.to_u8(), 12);
    assert_eq!(CommandType::ARMW.to_u8(), 13);
}

#[test]
fn auto_increment_address_is_negated_position() {
    assert_eq!(get_ap_adp(0), 0);
    assert_eq!(get_ap_adp(1), 0xFFFF);
    assert_eq!(get_ap_adp(3), 0xFFFD);
}

#[test]
fn commands_for_targets() {
    let pos = Command::new_read(TargetSlave::Single(SlaveAddress::SlavePosition(2)), 0x0130);
    assert_eq!(pos.c_type, CommandType::APRD);
    assert_eq!(pos.adp, 0xFFFE);
    assert_eq!(pos.ado, 0x0130);
    let station = Command::new_write(TargetSlave::Single(SlaveAddress::StationAddress(0x1001)), 0x0120);
    assert_eq!(station.c_type, CommandType::FPWR);
    assert_eq!(station.adp, 0x1001);
    let all = Command::new_read(TargetSlave::All(5), 0x0130);
    assert_eq!(all.c_type, CommandType::BRD);
    assert_eq!(all.adp, 0);
    let logical = Command::new_logical_read_write(0x0002_1000);
    assert_eq!(logical.c_type, CommandType::LRW);
    assert_eq!(logical.adp, 0x1000);
    assert_eq!(logical.ado, 0x0002);
    assert_eq!(TargetSlave::All(5).num_targets(), 5);
    assert_eq!(TargetSlave::Single(SlaveAddress::StationAddress(9)).num_targets(), 1);
    assert_eq!(SlaveAddress::StationAddress(9).get_ado(), 9);
    assert_eq!(Command::default().c_type, CommandType::APRD);
}

#[test]
fn frame_with_one_datagram() {
    let mut f = EtherCATFrame::new_unchecked(vec![0u8; 64]);
    f.init();
    assert_eq!(f.free_offset, FIRST_PDU_OFFSET);
    assert_eq!(f.add_aprd(get_ap_adp(1), 0x0130, &[0u8; 6]), Ok(()));
    assert_eq!(f.free_offset, 16 + 10 + 6 + 2);
    let p = f.packet();
    assert_eq!(p.len(), 34);
    assert_eq!(&p[12..14], &[0x88, 0xA4]);
    // EtherCAT header: length 18, type 1
    assert_eq!(p[14], 18);
    assert_eq!(p[15], 0x10);
    assert_eq!(p[16], 1);
    assert_eq!(p[17], 0);
    assert_eq!(&p[18..20], &[0xFF, 0xFF]);
    assert_eq!(&p[20..22], &[0x30, 0x01]);
    assert_eq!(&p[22..24], &[6, 0]);
    assert_eq!(&p[32..34], &[0, 0]);
}

#[test]
fn second_datagram_marks_the_first() {
    let mut f = EtherCATFrame::new_unchecked(vec![0u8; 80]);
    f.init();
    assert_eq!(f.add_fprd(0x1001, 0x0130, &[0u8; 2]), Ok(()));
    assert_eq!(f.add_fpwr(0x1001, 0x0120, &[8, 0]), Ok(()));
    let p = f.packet();
    // the first datagram's "more follows" bit
    assert_eq!(p[23] & 0x80, 0x80);
    let second = 16 + 10 + 2 + 2;
    assert_eq!(p[second], 5);
    assert_eq!(p[second + 7] & 0x80, 0);
    assert_eq!(&p[second + 10..second + 12], &[8, 0]);
    let mut offsets = f.dlpdu_payload_offsets();
    assert_eq!(offsets.next(), Some(26));
    assert_eq!(offsets.next(), Some(second + 10));
    assert_eq!(offsets.next(), None);
}

#[test]
fn frame_errors() {
    let mut small = EtherCATFrame::new_unchecked(vec![0u8; 24]);
    small.init();
    assert_eq!(small.add_aprd(0, 0x0130, &[0u8; 6]), Err(Error::SmallBuffer));
    let mut big = EtherCATFrame::new_unchecked(vec![0u8; 1600]);
    big.init();
    assert_eq!(big.add_brd(0, 0, &vec![0u8; 1487]), Err(Error::LargeData));
    assert_eq!(EtherCATFrame::new(vec![0u8; 10]).err(), Some(Error::SmallBuffer));
}

#[test]
fn frame_address_of_all_slaves() {
    let mut f = EtherCATFrame::new_unchecked(vec![0u8; 128]);
    f.init();
    assert_eq!(f.add_aprd_all_slave(0x0130, &[0u8; 2], 3), Ok(()));
    let mut offsets = f.dlpdu_header_offsets();
    let mut adps = Vec::new();
    while let Some(o) = offsets.next() {
        adps.push(u16::from_le_bytes([f.buffer[o + 2], f.buffer[o + 3]]));
    }
    assert_eq!(adps, vec![0, 0xFFFF, 0xFFFE]);
}

#[test]
fn logical_datagram_splits_address() {
    let mut f = EtherCATFrame::new_unchecked(vec![0u8; 64]);
    f.init();
    assert_eq!(f.add_lrw(0x0001_0002, &[1, 2, 3]), Ok(()));
    let p = f.packet();
    assert_eq!(p[16], 12);
    assert_eq!(&p[18..22], &[0x02, 0x00, 0x01, 0x00]);
    assert_eq!(&p[26..29], &[1, 2, 3]);
}
