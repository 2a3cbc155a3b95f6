//! Mailbox sessions of the master's SDO accesses.
use crate::command::SlaveAddress;
use crate::frame::{put_mb_count, MailboxFrame};
use crate::mailbox::{
    encode_request_spec, CoEModel, CoeIndex, Mailbox, MailboxModel, SdoReqModel, SDO_NORMAL_DATA_OFFSET,
};
use vstd::prelude::*;

verus! {

/// A mailbox exchange: the slave and the mailbox counter the request
/// carried.
#[derive(Debug, Clone, Copy, PartialEq, Eq, Structural)]
pub struct MailboxSessionId {
    slave_address: SlaveAddress,
    mailbox_count: u8,
}

impl View for MailboxSessionId {
    type V = (SlaveAddress, u8);

    closed spec fn view(&self) -> (SlaveAddress, u8) {
        (self.slave_address, self.mailbox_count)
    }
}

impl Default for MailboxSessionId {
    fn default() -> (r: Self)
        ensures
            r@ == (SlaveAddress::SlavePosition(0), 0u8),
    {
        MailboxSessionId { slave_address: SlaveAddress::SlavePosition(0), mailbox_count: 0 }
    }
}

/// The mailbox `buf` after an SDO download request for `index`:`sub_index`
/// with `data` is written into it and stamped with `mailbox_count`.
pub open spec fn download_request_frame(buf: Seq<u8>, index: u16, sub_index: u8, data: Seq<u8>, mailbox_count: u8) -> Seq<u8> {
    put_mb_count(
        encode_request_spec(buf, MailboxModel::CoE(CoeIndex { index, sub_index }, CoEModel::SdoReq(SdoReqModel::DownLoad(data)))),
        mailbox_count as int,
    )
}

/// Keeps the session of the SDO request in flight.
#[derive(Debug)]
pub struct SdoManager {
    session_id: Option<MailboxSessionId>,
}

impl SdoManager {
    pub closed spec fn session_view(&self) -> Option<MailboxSessionId> {
        self.session_id
    }

    /// A manager with no request in flight.
    pub fn new() -> (r: Self)
        ensures
            r.session_view() is None,
    {
        SdoManager { session_id: None }
    }

    pub fn session_id(&self) -> (r: Option<&MailboxSessionId>)
        ensures
            match self.session_view() {
                Some(id) => r matches Some(i) && *i == id,
                None => r is None,
            },
    {
        match &self.session_id {
            Some(id) => Some(id),
            None => None,
        }
    }

    /// Writes an SDO download request for object `index`:`sub_index` into
    /// `mb_frame`, stamped with `mailbox_count`, the slave's next mailbox
    /// counter, and keeps its session, the slave and that counter, as the
    /// one in flight.
    pub fn write_request(
        &mut self,
        slave_address: SlaveAddress,
        mailbox_count: u8,
        index: u16,
        sub_index: u8,
        data: &[u8],
        mb_frame: &mut MailboxFrame,
    ) -> (r: MailboxSessionId)
        requires
            SDO_NORMAL_DATA_OFFSET <= old(mb_frame).0@.len(),
            data@.len() + 10 <= u16::MAX,
        ensures
            r@ == (slave_address, mailbox_count),
            final(self).session_view() == Some(r),
            final(mb_frame).0@ == download_request_frame(old(mb_frame).0@, index, sub_index, data@, mailbox_count),
    {
        let mailbox = Mailbox::new_sdo_download_request(index, sub_index, data);
        let _ = mb_frame.set_mailbox(&mailbox);
        let session_id = MailboxSessionId { slave_address, mailbox_count };
        mb_frame.set_count(session_id.mailbox_count);
        self.session_id = Some(session_id);
        session_id
    }

    /// Whether `session_id` is the session in flight.
    pub fn is_same_session_id(&self, session_id: &MailboxSessionId) -> (r: bool)
        ensures
            r == (self.session_view() == Some(*session_id)),
    {
        match &self.session_id {
            Some(id) => *id == *session_id,
            None => false,
        }
    }
}

} // verus!
