//! Mailbox messages: decoding a received mailbox into a message, and
//! encoding SDO requests into a mailbox buffer.
use crate::bytes::{le16, le32, put_le16, put_le32, read_le16, read_le32, write_le16, write_le32};
use crate::coe::{
    abort_code_spec, coe_number, coe_service_code, coe_service_code_at, coe_service_type_spec,
    put_coe_number, put_coe_service_code, sdo_command_specifier, sdo_data_set_size, sdo_flags_at,
    sdo_flags_byte, sdo_transfer_type, set_coe_number_at, set_coe_service_code_at,
    set_sdo_flags_at, AbortCode, CoeServiceType, EmmergencyFrame,
};
use crate::frame::{
    mailbox_error_detail_spec, mailbox_type_spec, mb_type_code, put_mb_type_code,
    set_mailbox_type_at, MailboxErrorDetail, MailboxFrame, MailboxType,
};
use vstd::prelude::*;
use vstd::slice::{slice_subrange, slice_to_vec};

verus! {

/// Offsets inside a mailbox buffer.
pub const COE_OFFSET: usize = 6;

pub const SDO_OFFSET: usize = 8;

pub const SDO_PAYLOAD_OFFSET: usize = 12;

pub const SDO_NORMAL_DATA_OFFSET: usize = 16;

/// The mailbox was shorter than its content needs.
#[derive(Debug, Clone, Copy, PartialEq, Eq, Structural)]
pub struct LengthError;

/// A command specifier that the library does not interpret.
#[derive(Debug, Clone, Copy, PartialEq, Eq, Structural)]
pub struct CommandSpecifier(pub u8);

/// Object dictionary address of an SDO.
#[derive(Debug, Clone, Copy, PartialEq, Eq, Structural)]
pub struct CoeIndex {
    pub index: u16,
    pub sub_index: u8,
}

#[derive(Debug)]
pub enum SdoRes<'a> {
    DownLoad,
    Upload(&'a [u8]),
    Other(CommandSpecifier),
}

#[derive(Debug)]
pub enum SdoReq<'a> {
    DownLoad(&'a [u8]),
    Upload,
    Abort(AbortCode),
    Other(CommandSpecifier),
}

#[derive(Debug)]
pub enum CoE<'a> {
    Emmergency(EmmergencyFrame),
    SdoReq(SdoReq<'a>),
    SdoRes(SdoRes<'a>),
    UnsupportedType(CoeServiceType),
}

/// A decoded mailbox message.
#[derive(Debug)]
pub enum Mailbox<'a> {
    Error(MailboxErrorDetail),
    CoE((CoeIndex, CoE<'a>)),
    UnsupportedProtocol(MailboxType),
}

// ---------------------------------------------------------------------------
// Mathematical model of a message: payloads as sequences of bytes.
// ---------------------------------------------------------------------------
pub enum SdoResModel {
    DownLoad,
    Upload(Seq<u8>),
    Other(u8),
}

pub enum SdoReqModel {
    DownLoad(Seq<u8>),
    Upload,
    Abort(AbortCode),
    Other(u8),
}

pub enum CoEModel {
    Emmergency(Seq<u8>),
    SdoReq(SdoReqModel),
    SdoRes(SdoResModel),
    UnsupportedType(CoeServiceType),
}

pub enum MailboxModel {
    Error(MailboxErrorDetail),
    CoE(CoeIndex, CoEModel),
    UnsupportedProtocol(MailboxType),
}

impl<'a> View for SdoRes<'a> {
    type V = SdoResModel;

    open spec fn view(&self) -> SdoResModel {
        match self {
            SdoRes::DownLoad => SdoResModel::DownLoad,
            SdoRes::Upload(d) => SdoResModel::Upload(d@),
            SdoRes::Other(c) => SdoResModel::Other(c.0),
        }
    }
}

impl<'a> View for SdoReq<'a> {
    type V = SdoReqModel;

    open spec fn view(&self) -> SdoReqModel {
        match self {
            SdoReq::DownLoad(d) => SdoReqModel::DownLoad(d@),
            SdoReq::Upload => SdoReqModel::Upload,
            SdoReq::Abort(a) => SdoReqModel::Abort(*a),
            SdoReq::Other(c) => SdoReqModel::Other(c.0),
        }
    }
}

impl<'a> View for CoE<'a> {
    type V = CoEModel;

    open spec fn view(&self) -> CoEModel {
        match self {
            CoE::Emmergency(f) => CoEModel::Emmergency(f.0@),
            CoE::SdoReq(r) => CoEModel::SdoReq(r@),
            CoE::SdoRes(r) => CoEModel::SdoRes(r@),
            CoE::UnsupportedType(t) => CoEModel::UnsupportedType(*t),
        }
    }
}

impl<'a> View for Mailbox<'a> {
    type V = MailboxModel;

    open spec fn view(&self) -> MailboxModel {
        match self {
            Mailbox::Error(d) => MailboxModel::Error(*d),
            Mailbox::CoE((i, c)) => MailboxModel::CoE(*i, c@),
            Mailbox::UnsupportedProtocol(t) => MailboxModel::UnsupportedProtocol(*t),
        }
    }
}

/// Payload size of an expedited transfer, by its data set size field.
pub open spec fn expedited_size(data_set_size: int) -> int {
    4 - data_set_size
}

/// The data of an SDO download request or upload response that starts at
/// byte 8 of the mailbox `s`: expedited (in the header's four data bytes) or
/// normal (a four-byte size, then the data).
pub open spec fn sdo_transfer_data(s: Seq<u8>) -> Result<Seq<u8>, LengthError> {
    let p = s.subrange(SDO_PAYLOAD_OFFSET as int, s.len() as int);
    if sdo_transfer_type(s, SDO_OFFSET as int) {
        let size = expedited_size(sdo_data_set_size(s, SDO_OFFSET as int));
        if p.len() < size {
            Err(LengthError)
        } else {
            Ok(p.subrange(0, size))
        }
    } else if p.len() < 4 {
        Err(LengthError)
    } else {
        let size = le32(s, SDO_PAYLOAD_OFFSET as int);
        if p.len() < size + 4 {
            Err(LengthError)
        } else {
            Ok(p.subrange(4, size + 4))
        }
    }
}

/// The message that the mailbox bytes `s` encode.
pub open spec fn mailbox_spec(s: Seq<u8>) -> Result<MailboxModel, LengthError> {
    if s.len() < MailboxFrame::HEADER_SIZE {
        Err(LengthError)
    } else {
        let t = mailbox_type_spec(mb_type_code(s));
        if t == MailboxType::Error {
            if s.len() < MailboxFrame::HEADER_SIZE + 4 {
                Err(LengthError)
            } else {
                Ok(MailboxModel::Error(mailbox_error_detail_spec(le16(s, 8))))
            }
        } else if t == MailboxType::CoE {
            if s.len() < SDO_PAYLOAD_OFFSET {
                Err(LengthError)
            } else {
                let idx = CoeIndex { index: le16(s, 9) as u16, sub_index: s[11] };
                let p = s.subrange(SDO_PAYLOAD_OFFSET as int, s.len() as int);
                let cs = sdo_command_specifier(s, SDO_OFFSET as int);
                let st = coe_service_type_spec(coe_service_code(s, COE_OFFSET as int));
                if st == CoeServiceType::Emmergency {
                    if p.len() < 8 {
                        Err(LengthError)
                    } else {
                        Ok(MailboxModel::CoE(idx, CoEModel::Emmergency(p)))
                    }
                } else if st == CoeServiceType::SdoReq {
                    if cs == 1 {
                        match sdo_transfer_data(s) {
                            Ok(d) => Ok(MailboxModel::CoE(idx, CoEModel::SdoReq(SdoReqModel::DownLoad(d)))),
                            Err(e) => Err(e),
                        }
                    } else if cs == 2 {
                        Ok(MailboxModel::CoE(idx, CoEModel::SdoReq(SdoReqModel::Upload)))
                    } else if cs == 4 {
                        if s.len() < SDO_NORMAL_DATA_OFFSET {
                            Err(LengthError)
                        } else {
                            Ok(
                                MailboxModel::CoE(
                                    idx,
                                    CoEModel::SdoReq(
                                        SdoReqModel::Abort(
                                            abort_code_spec(le32(s, SDO_PAYLOAD_OFFSET as int)),
                                        ),
                                    ),
                                ),
                            )
                        }
                    } else {
                        Ok(MailboxModel::CoE(idx, CoEModel::SdoReq(SdoReqModel::Other(cs as u8))))
                    }
                } else if st == CoeServiceType::SdoRes {
                    if cs == 2 {
                        match sdo_transfer_data(s) {
                            Ok(d) => Ok(MailboxModel::CoE(idx, CoEModel::SdoRes(SdoResModel::Upload(d)))),
                            Err(e) => Err(e),
                        }
                    } else if cs == 3 {
                        Ok(MailboxModel::CoE(idx, CoEModel::SdoRes(SdoResModel::DownLoad)))
                    } else {
                        Ok(MailboxModel::CoE(idx, CoEModel::SdoRes(SdoResModel::Other(cs as u8))))
                    }
                } else {
                    Ok(MailboxModel::CoE(idx, CoEModel::UnsupportedType(st)))
                }
            }
        } else {
            Ok(MailboxModel::UnsupportedProtocol(t))
        }
    }
}

/// Reads the data of an SDO download request or upload response.
fn sdo_transfer_data_exec<'a>(s: &'a [u8]) -> (r: Result<&'a [u8], LengthError>)
    requires
        SDO_PAYLOAD_OFFSET <= s@.len(),
    ensures
        match r {
            Ok(d) => sdo_transfer_data(s@) == Ok::<Seq<u8>, LengthError>(d@),
            Err(e) => sdo_transfer_data(s@) == Err::<Seq<u8>, LengthError>(e),
        },
{
    let len = s.len();
    let p = slice_subrange(s, SDO_PAYLOAD_OFFSET, len);
    let flags = sdo_flags_at(s, SDO_OFFSET);
    if flags.1 {
        let size: usize = match flags.2 {
            0 => 4,
            1 => 3,
            2 => 2,
            3 => 1,
            _ => 0,
        };
        if p.len() < size {
            Err(LengthError)
        } else {
            let d = slice_subrange(p, 0, size);
            Ok(d)
        }
    } else if p.len() < 4 {
        Err(LengthError)
    } else {
        let size = read_le32(s, SDO_PAYLOAD_OFFSET) as usize;
        if p.len() - 4 < size {
            Err(LengthError)
        } else {
            let d = slice_subrange(p, 4, size + 4);
            Ok(d)
        }
    }
}

/// Decodes the mailbox bytes `s` into a message whose payloads borrow from `s`.
pub fn parse_mailbox<'a>(s: &'a [u8]) -> (r: Result<Mailbox<'a>, LengthError>)
    ensures
        match r {
            Ok(m) => mailbox_spec(s@) == Ok::<MailboxModel, LengthError>(m@),
            Err(e) => mailbox_spec(s@) == Err::<MailboxModel, LengthError>(e),
        },
{
    let len = s.len();
    if len < MailboxFrame::HEADER_SIZE {
        return Err(LengthError);
    }
    let b5 = s[5];
    assert(b5 & 0x0f == b5 % 16) by (bit_vector);
    let t = MailboxType::from_u8(b5 & 0x0f);
    match t {
        MailboxType::Error => {
            if len < MailboxFrame::HEADER_SIZE + 4 {
                Err(LengthError)
            } else {
                Ok(Mailbox::Error(MailboxErrorDetail::from_u16(read_le16(s, 8))))
            }
        },
        MailboxType::CoE => {
            if len < SDO_PAYLOAD_OFFSET {
                return Err(LengthError);
            }
            let index = read_le16(s, 9);
            let sub_index = s[11];
            let idx = CoeIndex { index, sub_index };
            let p = slice_subrange(s, SDO_PAYLOAD_OFFSET, len);
            let cs = sdo_flags_at(s, SDO_OFFSET).4;
            let st = CoeServiceType::from_u8(coe_service_code_at(s, COE_OFFSET));
            let coe = match st {
                CoeServiceType::Emmergency => {
                    if p.len() < EmmergencyFrame::SIZE {
                        return Err(LengthError);
                    }
                    CoE::Emmergency(EmmergencyFrame(slice_to_vec(p)))
                },
                CoeServiceType::SdoReq => {
                    if cs == 1 {
                        match sdo_transfer_data_exec(s) {
                            Ok(d) => CoE::SdoReq(SdoReq::DownLoad(d)),
                            Err(e) => return Err(e),
                        }
                    } else if cs == 2 {
                        CoE::SdoReq(SdoReq::Upload)
                    } else if cs == 4 {
                        if len < SDO_NORMAL_DATA_OFFSET {
                            return Err(LengthError);
                        }
                        CoE::SdoReq(SdoReq::Abort(AbortCode::from_u32(read_le32(s, SDO_PAYLOAD_OFFSET))))
                    } else {
                        CoE::SdoReq(SdoReq::Other(CommandSpecifier(cs)))
                    }
                },
                CoeServiceType::SdoRes => {
                    if cs == 2 {
                        match sdo_transfer_data_exec(s) {
                            Ok(d) => CoE::SdoRes(SdoRes::Upload(d)),
                            Err(e) => return Err(e),
                        }
                    } else if cs == 3 {
                        CoE::SdoRes(SdoRes::DownLoad)
                    } else {
                        CoE::SdoRes(SdoRes::Other(CommandSpecifier(cs)))
                    }
                },
                other => CoE::UnsupportedType(other),
            };
            Ok(Mailbox::CoE((idx, coe)))
        },
        other => Ok(Mailbox::UnsupportedProtocol(other)),
    }
}

/// Whether `set_mailbox` can encode `m`: an SDO download or upload request.
pub open spec fn is_encodable_request(m: MailboxModel) -> bool {
    match m {
        MailboxModel::CoE(_, CoEModel::SdoReq(SdoReqModel::DownLoad(_))) => true,
        MailboxModel::CoE(_, CoEModel::SdoReq(SdoReqModel::Upload)) => true,
        _ => false,
    }
}

/// Buffer size that encoding `m` needs.
pub open spec fn encoded_request_min_len(m: MailboxModel) -> int {
    match m {
        MailboxModel::CoE(_, CoEModel::SdoReq(SdoReqModel::DownLoad(_))) => SDO_NORMAL_DATA_OFFSET as int,
        _ => SDO_PAYLOAD_OFFSET as int,
    }
}

/// The mailbox buffer `s` after `m` is encoded into it. A download request
/// records the data's size; the data itself is left for the caller to place
/// after the size field.
pub open spec fn encode_request_spec(s: Seq<u8>, m: MailboxModel) -> Seq<u8> {
    match m {
        MailboxModel::CoE(idx, CoEModel::SdoReq(req)) => {
            let s1 = put_mb_type_code(s, 3);
            let s2 = put_coe_number(s1, COE_OFFSET as int, 0);
            let s3 = put_coe_service_code(s2, COE_OFFSET as int, 2);
            match req {
                SdoReqModel::DownLoad(data) => {
                    let s4 = s3.update(SDO_OFFSET as int, sdo_flags_byte(true, false, 0, false, 1));
                    let s5 = put_le16(s4, 9, idx.index as int);
                    let s6 = s5.update(11, idx.sub_index);
                    let s7 = put_le32(s6, SDO_PAYLOAD_OFFSET as int, data.len() as int);
                    put_le16(s7, 0, 10 + data.len() as int)
                },
                _ => {
                    let s4 = s3.update(SDO_OFFSET as int, sdo_flags_byte(false, false, 0, false, 2));
                    let s5 = put_le16(s4, 9, idx.index as int);
                    let s6 = s5.update(11, idx.sub_index);
                    put_le16(s6, 0, 10)
                },
            }
        },
        _ => s,
    }
}

impl MailboxFrame {
    /// Decodes the message in this mailbox.
    pub fn mailbox<'a>(&'a self) -> (r: Result<Mailbox<'a>, LengthError>)
        ensures
            match r {
                Ok(m) => mailbox_spec(self.0@) == Ok::<MailboxModel, LengthError>(m@),
                Err(e) => mailbox_spec(self.0@) == Err::<MailboxModel, LengthError>(e),
            },
    {
        parse_mailbox(self.0.as_slice())
    }

    /// Encodes an SDO download or upload request into this mailbox: the
    /// type, the CoE and SDO headers, the data size of a download, and the
    /// mailbox length.
    pub fn set_mailbox(&mut self, mailbox: &Mailbox) -> (r: Result<(), LengthError>)
        requires
            is_encodable_request(mailbox@),
            encoded_request_min_len(mailbox@) <= old(self).0@.len(),
            mailbox@ matches MailboxModel::CoE(_, CoEModel::SdoReq(SdoReqModel::DownLoad(d)))
                ==> d.len() + 10 <= u16::MAX,
        ensures
            r is Ok,
            final(self).0@ == encode_request_spec(old(self).0@, mailbox@),
    {
        encode_request(&mut self.0, mailbox);
        Ok(())
    }
}

fn encode_request(buf: &mut Vec<u8>, mailbox: &Mailbox)
    requires
        is_encodable_request(mailbox@),
        encoded_request_min_len(mailbox@) <= old(buf)@.len(),
        mailbox@ matches MailboxModel::CoE(_, CoEModel::SdoReq(SdoReqModel::DownLoad(d)))
            ==> d.len() + 10 <= u16::MAX,
    ensures
        final(buf)@ == encode_request_spec(old(buf)@, mailbox@),
{
    match mailbox {
        Mailbox::CoE((coe_index, CoE::SdoReq(sdo_req))) => {
            set_mailbox_type_at(buf, 3);
            set_coe_number_at(buf, COE_OFFSET, 0);
            set_coe_service_code_at(buf, COE_OFFSET, 2);
            match sdo_req {
                SdoReq::DownLoad(data) => {
                    set_sdo_flags_at(buf, SDO_OFFSET, true, false, 0, false, 1);
                    write_le16(buf, 9, coe_index.index);
                    buf[11] = coe_index.sub_index;
                    write_le32(buf, SDO_PAYLOAD_OFFSET, data.len() as u32);
                    write_le16(buf, 0, (10 + data.len()) as u16);
                },
                _ => {
                    set_sdo_flags_at(buf, SDO_OFFSET, false, false, 0, false, 2);
                    write_le16(buf, 9, coe_index.index);
                    buf[11] = coe_index.sub_index;
                    write_le16(buf, 0, 10);
                },
            }
        },
        _ => {},
    }
}

impl<'a> Mailbox<'a> {
    pub fn new_sdo_download_request(index: u16, sub_index: u8, data: &'a [u8]) -> (r: Self)
        ensures
            r@ == MailboxModel::CoE(
                CoeIndex { index, sub_index },
                CoEModel::SdoReq(SdoReqModel::DownLoad(data@)),
            ),
    {
        Mailbox::CoE((CoeIndex { index, sub_index }, CoE::SdoReq(SdoReq::DownLoad(data))))
    }

    pub fn new_sdo_upload_request(index: u16, sub_index: u8) -> (r: Self)
        ensures
            r@ == MailboxModel::CoE(CoeIndex { index, sub_index }, CoEModel::SdoReq(SdoReqModel::Upload)),
    {
        Mailbox::CoE((CoeIndex { index, sub_index }, CoE::SdoReq(SdoReq::Upload)))
    }

    /// The data of an SDO upload response.
    pub fn sdo_upload_response(&self) -> (r: Option<&[u8]>)
        ensures
            match self@ {
                MailboxModel::CoE(_, CoEModel::SdoRes(SdoResModel::Upload(d))) => r matches Some(x) && x@ == d,
                _ => r is None,
            },
    {
        match self {
            Mailbox::CoE((_, CoE::SdoRes(SdoRes::Upload(data)))) => Some(data),
            _ => None,
        }
    }

    /// Whether this is an SDO download response.
    pub fn is_sdo_download_response(&self) -> (r: bool)
        ensures
            r == (self@ matches MailboxModel::CoE(_, CoEModel::SdoRes(SdoResModel::DownLoad))),
    {
        match self {
            Mailbox::CoE((_, CoE::SdoRes(SdoRes::DownLoad))) => true,
            _ => false,
        }
    }
}


/// An SDO upload response in normal transfer decodes to exactly the bytes
/// that its size field announces: the `n` bytes after the size, where `n`
/// is the little-endian size at bytes 12 to 15, with the object's index and
/// subindex from bytes 9 to 11. The rest of the mailbox is not part of it.
pub proof fn lemma_normal_upload_response_is_its_announced_data(s: Seq<u8>)
    requires
        s.len() >= 16,
        s[5] % 16 == 3,
        s[7] / 16 == 3,
        s[8] / 32 == 2,
        (s[8] / 2) % 2 == 0,
        16 + s[12] + 256 * s[13] + 65536 * s[14] + 16777216 * s[15] <= s.len(),
    ensures
        ({
            let n = s[12] + 256 * s[13] + 65536 * s[14] + 16777216 * s[15];
            mailbox_spec(s) matches Ok(MailboxModel::CoE(idx, CoEModel::SdoRes(SdoResModel::Upload(d))))
                && idx.index == s[9] + 256 * s[10] && idx.sub_index == s[11] && d.len() == n
                && forall|i: int| 0 <= i < n ==> #[trigger] d[i] == s[16 + i]
        }),
{
}

/// An SDO upload response in expedited transfer decodes to the first
/// `4 - k` of the four data bytes 12 to 15, where `k` is the data set size
/// in bits 2 and 3 of byte 8.
pub proof fn lemma_expedited_upload_response_is_its_header_data(s: Seq<u8>)
    requires
        s.len() >= 16,
        s[5] % 16 == 3,
        s[7] / 16 == 3,
        s[8] / 32 == 2,
        (s[8] / 2) % 2 == 1,
    ensures
        ({
            let n = 4 - (s[8] / 4) % 4;
            mailbox_spec(s) matches Ok(MailboxModel::CoE(idx, CoEModel::SdoRes(SdoResModel::Upload(d))))
                && idx.index == s[9] + 256 * s[10] && idx.sub_index == s[11] && d.len() == n
                && forall|i: int| 0 <= i < n ==> #[trigger] d[i] == s[12 + i]
        }),
{
}

/// An SDO download request in normal transfer carries exactly the bytes
/// that its size field announces, after the size.
pub proof fn lemma_normal_download_request_is_its_announced_data(s: Seq<u8>)
    requires
        s.len() >= 16,
        s[5] % 16 == 3,
        s[7] / 16 == 2,
        s[8] / 32 == 1,
        (s[8] / 2) % 2 == 0,
        16 + s[12] + 256 * s[13] + 65536 * s[14] + 16777216 * s[15] <= s.len(),
    ensures
        ({
            let n = s[12] + 256 * s[13] + 65536 * s[14] + 16777216 * s[15];
            mailbox_spec(s) matches Ok(MailboxModel::CoE(idx, CoEModel::SdoReq(SdoReqModel::DownLoad(d))))
                && idx.index == s[9] + 256 * s[10] && idx.sub_index == s[11] && d.len() == n
                && forall|i: int| 0 <= i < n ==> #[trigger] d[i] == s[16 + i]
        }),
{
}

/// An SDO download request in expedited transfer carries the first
/// `4 - k` of the four data bytes 12 to 15, where `k` is the data set size
/// in bits 2 and 3 of byte 8.
pub proof fn lemma_expedited_download_request_is_its_header_data(s: Seq<u8>)
    requires
        s.len() >= 16,
        s[5] % 16 == 3,
        s[7] / 16 == 2,
        s[8] / 32 == 1,
        (s[8] / 2) % 2 == 1,
    ensures
        ({
            let n = 4 - (s[8] / 4) % 4;
            mailbox_spec(s) matches Ok(MailboxModel::CoE(idx, CoEModel::SdoReq(SdoReqModel::DownLoad(d))))
                && idx.index == s[9] + 256 * s[10] && idx.sub_index == s[11] && d.len() == n
                && forall|i: int| 0 <= i < n ==> #[trigger] d[i] == s[12 + i]
        }),
{
}

proof fn lemma_header_codes(s: Seq<u8>)
    requires
        SDO_PAYLOAD_OFFSET <= s.len(),
    ensures
        mb_type_code(put_mb_type_code(s, 3)) == 3,
        ({
            let s1 = put_coe_service_code(put_coe_number(put_mb_type_code(s, 3), 6, 0), 6, 2);
            &&& coe_service_code(s1, 6) == 2
            &&& mb_type_code(s1) == 3
        }),
        sdo_command_specifier(seq![sdo_flags_byte(true, false, 0, false, 1)], 0) == 1,
        !sdo_transfer_type(seq![sdo_flags_byte(true, false, 0, false, 1)], 0),
        sdo_command_specifier(seq![sdo_flags_byte(false, false, 0, false, 2)], 0) == 2,
{
    let x = s[5];
    assert((((x / 16) * 16 + 3) as u8) % 16 == 3) by (bit_vector);
    let s1 = put_coe_number(put_mb_type_code(s, 3), 6, 0);
    let y = s1[7];
    assert(((y % 16 + 2 * 16) as u8) / 16 == 2) by (bit_vector);
}

proof fn lemma_le_fields(s: Seq<u8>, index: u16, sub_index: u8, n: int)
    requires
        SDO_NORMAL_DATA_OFFSET <= s.len(),
        0 <= n < 0x1_0000_0000,
    ensures
        le16(put_le16(s, 9, index as int), 9) == index,
        le32(put_le32(s, 12, n), 12) == n,
{
    let a = (index as int % 256) as u8;
    let b = ((index as int / 256) % 256) as u8;
    assert(a + 256 * b == index);
    let lo = n % 65536;
    let hi = (n / 65536) % 65536;
    assert(((lo % 256) as u8) + 256 * (((lo / 256) % 256) as u8) == lo);
    assert(((hi % 256) as u8) + 256 * (((hi / 256) % 256) as u8) == hi);
}

/// Encoding an SDO download request into a mailbox and decoding the mailbox
/// gives the request back, once the caller has placed the data after the
/// size field.
pub proof fn lemma_sdo_download_request_roundtrip(s: Seq<u8>, idx: CoeIndex, data: Seq<u8>)
    requires
        SDO_NORMAL_DATA_OFFSET + data.len() <= s.len(),
        data.len() + 10 <= u16::MAX,
        s.subrange(SDO_NORMAL_DATA_OFFSET as int, SDO_NORMAL_DATA_OFFSET + data.len()) == data,
    ensures
        mailbox_spec(
            encode_request_spec(s, MailboxModel::CoE(idx, CoEModel::SdoReq(SdoReqModel::DownLoad(data)))),
        ) == Ok::<MailboxModel, LengthError>(
            MailboxModel::CoE(idx, CoEModel::SdoReq(SdoReqModel::DownLoad(data))),
        ),
{
    let m = MailboxModel::CoE(idx, CoEModel::SdoReq(SdoReqModel::DownLoad(data)));
    let e = encode_request_spec(s, m);
    lemma_header_codes(s);
    let s3 = put_coe_service_code(put_coe_number(put_mb_type_code(s, 3), 6, 0), 6, 2);
    let s4 = s3.update(8, sdo_flags_byte(true, false, 0, false, 1));
    let s5 = put_le16(s4, 9, idx.index as int);
    let s6 = s5.update(11, idx.sub_index);
    lemma_le_fields(s6, idx.index, idx.sub_index, data.len() as int);
    lemma_le_fields(s4, idx.index, idx.sub_index, data.len() as int);
    assert(mb_type_code(e) == 3);
    assert(coe_service_code(e, 6) == 2);
    assert(e[8] == seq![sdo_flags_byte(true, false, 0, false, 1)][0]);
    assert(sdo_command_specifier(e, 8) == 1);
    assert(!sdo_transfer_type(e, 8));
    assert(le16(e, 9) == idx.index);
    assert(e[11] == idx.sub_index);
    assert(le32(e, 12) == data.len());
    let p = e.subrange(12, e.len() as int);
    assert(p.subrange(4, data.len() + 4int) =~= data);
}

/// Encoding an SDO upload request into a mailbox and decoding the mailbox
/// gives the request back.
pub proof fn lemma_sdo_upload_request_roundtrip(s: Seq<u8>, idx: CoeIndex)
    requires
        SDO_PAYLOAD_OFFSET <= s.len(),
    ensures
        mailbox_spec(encode_request_spec(s, MailboxModel::CoE(idx, CoEModel::SdoReq(SdoReqModel::Upload))))
            == Ok::<MailboxModel, LengthError>(
            MailboxModel::CoE(idx, CoEModel::SdoReq(SdoReqModel::Upload)),
        ),
{
    let m = MailboxModel::CoE(idx, CoEModel::SdoReq(SdoReqModel::Upload));
    let e = encode_request_spec(s, m);
    lemma_header_codes(s);
    let s3 = put_coe_service_code(put_coe_number(put_mb_type_code(s, 3), 6, 0), 6, 2);
    let s4 = s3.update(8, sdo_flags_byte(false, false, 0, false, 2));
    assert(s4.len() >= 16 || s4.len() >= 12);
    let a = (idx.index as int % 256) as u8;
    let b = ((idx.index as int / 256) % 256) as u8;
    assert(a + 256 * b == idx.index);
    assert(mb_type_code(e) == 3);
    assert(coe_service_code(e, 6) == 2);
    assert(e[8] == seq![sdo_flags_byte(false, false, 0, false, 2)][0]);
    assert(sdo_command_specifier(e, 8) == 2);
    assert(le16(e, 9) == idx.index);
    assert(e[11] == idx.sub_index);
}

} // verus!
