//! The process data exchange: one logical read-write of the whole image
//! every cycle, counting lost replies and unexpected working counters.
use crate::command::Command;
use crate::frame::CommandType;
use crate::socket::{CommandData, Cyclic, EtherCatSystemTime};
use crate::tasks::{inc_sat, saturating_inc};
use vstd::prelude::*;

verus! {

#[derive(Debug)]
pub struct LogicalProcessData {
    command: Command,
    start_logical_address: u32,
    expected_wkc: u16,
    image_size: usize,
    pub invalid_wkc_count: usize,
    pub lost_pdu_count: usize,
    last_wkc: u16,
}

impl LogicalProcessData {
    pub closed spec fn command_view(&self) -> Command {
        self.command
    }

    pub closed spec fn expected_wkc_view(&self) -> u16 {
        self.expected_wkc
    }

    pub closed spec fn image_size_view(&self) -> usize {
        self.image_size
    }

    pub closed spec fn start_view(&self) -> u32 {
        self.start_logical_address
    }

    pub closed spec fn last_wkc_view(&self) -> u16 {
        self.last_wkc
    }

    pub closed spec fn invalid_view(&self) -> usize {
        self.invalid_wkc_count
    }

    pub closed spec fn lost_view(&self) -> usize {
        self.lost_pdu_count
    }

    pub fn new(start_logical_address: u32, expected_wkc: u16, image_size: usize) -> (r: Self)
        ensures
            r.command_view().c_type == CommandType::LRW,
            r.command_view().adp == start_logical_address % 65536,
            r.command_view().ado == start_logical_address / 65536,
            r.start_view() == start_logical_address,
            r.expected_wkc_view() == expected_wkc,
            r.image_size_view() == image_size,
            r.invalid_view() == 0,
            r.lost_view() == 0,
            r.last_wkc_view() == 0,
    {
        LogicalProcessData {
            command: Command::new_logical_read_write(start_logical_address),
            start_logical_address,
            expected_wkc,
            image_size,
            invalid_wkc_count: 0,
            lost_pdu_count: 0,
            last_wkc: 0,
        }
    }

    pub fn last_wkc(&self) -> (r: u16)
        ensures
            r == self.last_wkc_view(),
    {
        self.last_wkc
    }

    pub fn start_logical_address(&self) -> (r: u32)
        ensures
            r == self.start_view(),
    {
        self.start_logical_address
    }

    pub fn image_size(&self) -> (r: usize)
        ensures
            r == self.image_size_view(),
    {
        self.image_size
    }
}

impl Cyclic for LogicalProcessData {
    open spec fn required_len(&self) -> nat {
        self.image_size_view() as nat
    }

    open spec fn reply_len(&self) -> nat {
        0
    }

    fn is_finished(&self) -> (r: bool)
        ensures
            r,
    {
        true
    }

    /// The logical read-write of the image; the buffer holds the outputs.
    fn next_command(&mut self, buf: &mut Vec<u8>) -> (r: Option<(Command, usize)>)
        ensures
            *final(self) == *old(self),
            final(buf)@ == old(buf)@,
            r == Some((old(self).command_view(), old(self).image_size_view())),
    {
        Some((self.command, self.image_size))
    }

    /// A reply of another command type, or none, counts as lost; one with
    /// another working counter than expected counts as invalid.
    fn recieve_and_process(&mut self, recv_data: Option<&CommandData>, _systime: EtherCatSystemTime)
        ensures
            final(self).command_view() == old(self).command_view(),
            final(self).expected_wkc_view() == old(self).expected_wkc_view(),
            final(self).image_size_view() == old(self).image_size_view(),
            final(self).start_view() == old(self).start_view(),
            final(self).last_wkc_view() == old(self).last_wkc_view(),
            ({
                let lost = match recv_data {
                    Some(d) => d.command.c_type != old(self).command_view().c_type,
                    None => true,
                };
                let invalid = match recv_data {
                    Some(d) => d.command.c_type == old(self).command_view().c_type && d.wkc
                        != old(self).expected_wkc_view(),
                    None => false,
                };
                &&& final(self).lost_view() == if lost {
                    inc_sat(old(self).lost_view())
                } else {
                    old(self).lost_view()
                }
                &&& final(self).invalid_view() == if invalid {
                    inc_sat(old(self).invalid_view())
                } else {
                    old(self).invalid_view()
                }
            }),
    {
        match recv_data {
            Some(recv_data) => {
                let wkc = recv_data.wkc;
                if !(recv_data.command.c_type == self.command.c_type) {
                    self.lost_pdu_count = saturating_inc(self.lost_pdu_count);
                } else if wkc != self.expected_wkc {
                    self.invalid_wkc_count = saturating_inc(self.invalid_wkc_count);
                }
            },
            None => {
                self.lost_pdu_count = saturating_inc(self.lost_pdu_count);
            },
        }
    }
}

} // verus!
