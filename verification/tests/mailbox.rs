use ethercat_master::coe::{classify_emmergency_error_code, AbortCode, EmmergencyErrorCode, EmmergencyFrame};
use ethercat_master::frame::{MailboxErrorDetail, MailboxFrame, MailboxType};
use ethercat_master::mailbox::{parse_mailbox, CoE, CoeIndex, LengthError, Mailbox, SdoReq, SdoRes};

#[test]
fn upload_request_encodes_and_decodes() {
    let mut frame = MailboxFrame(vec![0u8; 32]);
    let request = Mailbox::new_sdo_upload_request(0x1018, 1);
    assert_eq!(frame.set_mailbox(&request), Ok(()));
    assert_eq!(frame.length(), 10);
    assert_eq!(frame.mb_type(), MailboxType::CoE);
    // CoE service: SDO request
    assert_eq!(frame.0[7] >> 4, 2);
    // command specifier upload
    assert_eq!(frame.0[8] >> 5, 2);
    assert_eq!(&frame.0[9..12], &[0x18, 0x10, 1]);
    match frame.mailbox() {
        Ok(Mailbox::CoE((idx, CoE::SdoReq(SdoReq::Upload)))) => {
            assert_eq!(idx, CoeIndex { index: 0x1018, sub_index: 1 });
        }
        other => panic!("unexpected {:?}", other),
    }
}

#[test]
fn download_request_header_and_size() {
    let mut frame = MailboxFrame(vec![0u8; 32]);
    let data = [1u8, 2, 3, 4];
    let request = Mailbox::new_sdo_download_request(0x6040, 0, &data);
    assert_eq!(frame.set_mailbox(&request), Ok(()));
    assert_eq!(frame.length(), 14);
    assert_eq!(frame.0[8] >> 5, 1);
    assert_eq!(&frame.0[12..16], &[4, 0, 0, 0]);
    // the data bytes themselves are not written
    match frame.mailbox() {
        Ok(Mailbox::CoE((idx, CoE::SdoReq(SdoReq::DownLoad(d))))) => {
            assert_eq!(idx.index, 0x6040);
            assert_eq!(d, &[0u8, 0, 0, 0]);
        }
        other => panic!("unexpected {:?}", other),
    }
}

#[test]
fn expedited_upload_response() {
    // header: length, address, type CoE; CoE: SDO response; SDO: upload,
    // expedited, two bytes
    let mut b = vec![0u8; 16];
    b[0] = 10;
    b[5] = 3;
    b[7] = 3 << 4;
    b[8] = (2 << 5) | (2 << 2) | 0b10 | 0b1;
    b[9] = 0x00;
    b[10] = 0x10;
    b[11] = 0;
    b[12] = 0xAB;
    b[13] = 0xCD;
    let m = parse_mailbox(&b).unwrap();
    assert_eq!(m.sdo_upload_response(), Some(&[0xABu8, 0xCD][..]));
    assert!(!m.is_sdo_download_response());
}

#[test]
fn download_response_and_abort() {
    let mut b = vec![0u8; 16];
    b[5] = 3;
    b[7] = 3 << 4;
    b[8] = 3 << 5;
    let m = parse_mailbox(&b).unwrap();
    assert!(m.is_sdo_download_response());
    assert_eq!(m.sdo_upload_response(), None);

    let mut a = vec![0u8; 16];
    a[5] = 3;
    a[7] = 2 << 4;
    a[8] = 4 << 5;
    a[12..16].copy_from_slice(&0x0601_0002u32.to_le_bytes());
    match parse_mailbox(&a) {
        Ok(Mailbox::CoE((_, CoE::SdoReq(SdoReq::Abort(code))))) => assert_eq!(code, AbortCode::ReadOnly),
        other => panic!("unexpected {:?}", other),
    }
}

#[test]
fn short_mailboxes_are_refused() {
    assert_eq!(parse_mailbox(&[0u8; 5]).err(), Some(LengthError));
    let mut b = vec![0u8; 10];
    b[5] = 3;
    assert_eq!(parse_mailbox(&b).err(), Some(LengthError));
    // a normal upload response that claims more data than it carries
    let mut c = vec![0u8; 18];
    c[5] = 3;
    c[7] = 3 << 4;
    c[8] = 2 << 5;
    c[12] = 8;
    assert_eq!(parse_mailbox(&c).err(), Some(LengthError));
}

#[test]
fn error_and_other_protocols() {
    let mut e = vec![0u8; 10];
    e[5] = 0;
    e[8] = 0x02;
    match parse_mailbox(&e) {
        Ok(Mailbox::Error(d)) => assert_eq!(d, MailboxErrorDetail::from_u16(2)),
        other => panic!("unexpected {:?}", other),
    }
    let mut f = vec![0u8; 6];
    f[5] = 4;
    match parse_mailbox(&f) {
        Ok(Mailbox::UnsupportedProtocol(t)) => assert_eq!(t, MailboxType::from_u8(4)),
        other => panic!("unexpected {:?}", other),
    }
}

#[test]
fn emergency_message() {
    let mut b = vec![0u8; 20];
    b[5] = 3;
    b[7] = 1 << 4;
    b[12] = 0x10;
    b[13] = 0x81;
    b[14] = 0x01;
    match parse_mailbox(&b) {
        Ok(Mailbox::CoE((_, CoE::Emmergency(frame)))) => {
            assert_eq!(frame.error_code(), 0x8110);
            assert_eq!(frame.error_register(), 1);
            assert_eq!(frame.emmergency_error_code(), EmmergencyErrorCode::GenericError(0x8110));
        }
        other => panic!("unexpected {:?}", other),
    }
}

#[test]
fn abort_codes_round_trip() {
    assert_eq!(AbortCode::from_u32(0x0504_0000), AbortCode::Timeout);
    assert_eq!(AbortCode::Timeout.to_u32(), 0x0504_0000);
    assert_eq!(AbortCode::from_u32(0x0800_0000), AbortCode::GeneralError);
    assert_eq!(AbortCode::from_u32(0x1234_5678), AbortCode::UnknownAbortCode);
    for code in [0x0503_0000u32, 0x0601_0001, 0x0602_0000, 0x0800_0022] {
        assert_eq!(AbortCode::from_u32(code).to_u32(), code);
    }
}

#[test]
fn emergency_codes_by_class() {
    assert_eq!(classify_emmergency_error_code(0x0000), EmmergencyErrorCode::ErrorResetOrNoError(0));
    assert_eq!(classify_emmergency_error_code(0x0030), EmmergencyErrorCode::Voltage(0x0030));
    let f = EmmergencyFrame::new();
    assert_eq!(f.data(), 0);
}

#[test]
fn unused_response_types() {
    let mut b = vec![0u8; 16];
    b[5] = 3;
    b[7] = 3 << 4;
    b[8] = 5 << 5;
    match parse_mailbox(&b) {
        Ok(Mailbox::CoE((_, CoE::SdoRes(SdoRes::Other(cs))))) => assert_eq!(cs.0, 5),
        other => panic!("unexpected {:?}", other),
    }
}
