//! Distributed-clock drift compensation: every cycle the first DC slave's
//! system time is read and written to the others (ARMW), and its distance
//! from the master's time is kept.
use crate::bytes::{clear_range, zero_range};
use crate::command::{Command, SlaveAddress};
use crate::frame::CommandType;
use crate::register::DcSystemTime;
use crate::socket::{CommandData, Cyclic, EtherCatSystemTime};
use crate::tasks::{inc_sat, saturating_inc};
use vstd::prelude::*;

verus! {

#[derive(Debug)]
pub struct DcDriftCompensator {
    sys_time_offset: i64,
    last_dc_time: EtherCatSystemTime,
    command: Command,
    first_dc_slave: u16,
    dc_slave_count: u16,
    pub invalid_wkc_count: usize,
    pub lost_pdu_count: usize,
    last_wkc: u16,
}

/// The distance between two times, capped at the largest `i64`.
pub open spec fn capped_distance(a: u64, b: u64) -> i64 {
    let d = if a < b {
        b - a
    } else {
        a - b
    };
    if d > i64::MAX {
        i64::MAX
    } else {
        d as i64
    }
}

impl DcDriftCompensator {
    pub closed spec fn offset_view(&self) -> i64 {
        self.sys_time_offset
    }

    pub closed spec fn last_dc_time_view(&self) -> u64 {
        self.last_dc_time.0
    }

    pub closed spec fn command_view(&self) -> Command {
        self.command
    }

    pub closed spec fn first_dc_slave_view(&self) -> u16 {
        self.first_dc_slave
    }

    pub closed spec fn dc_slave_count_view(&self) -> u16 {
        self.dc_slave_count
    }

    pub closed spec fn invalid_view(&self) -> usize {
        self.invalid_wkc_count
    }

    pub closed spec fn lost_view(&self) -> usize {
        self.lost_pdu_count
    }

    pub closed spec fn last_wkc_view(&self) -> u16 {
        self.last_wkc
    }

    pub fn required_buffer_size() -> (r: usize)
        ensures
            r == DcSystemTime::SIZE,
    {
        DcSystemTime::SIZE
    }

    pub fn new(first_dc_slave_pos: u16, num_dc_slaves: u16) -> (r: Self)
        ensures
            r.offset_view() == 0,
            r.last_dc_time_view() == 0,
            r.command_view() == (Command { c_type: CommandType::APRD, adp: 0, ado: 0 }),
            r.first_dc_slave_view() == first_dc_slave_pos,
            r.dc_slave_count_view() == num_dc_slaves,
            r.invalid_view() == 0,
            r.lost_view() == 0,
            r.last_wkc_view() == 0,
    {
        DcDriftCompensator {
            sys_time_offset: 0,
            last_dc_time: EtherCatSystemTime(0),
            command: Command::default(),
            first_dc_slave: first_dc_slave_pos,
            dc_slave_count: num_dc_slaves,
            invalid_wkc_count: 0,
            lost_pdu_count: 0,
            last_wkc: 0,
        }
    }

    pub fn last_wkc(&self) -> (r: u16)
        ensures
            r == self.last_wkc_view(),
    {
        self.last_wkc
    }

    /// The distance between the DC system time and the local system time,
    /// in nanoseconds.
    pub fn systemtime_offset_ns(&self) -> (r: i64)
        ensures
            r == self.offset_view(),
    {
        self.sys_time_offset
    }

    pub fn last_dc_time(&self) -> (r: EtherCatSystemTime)
        ensures
            r.0 == self.last_dc_time_view(),
    {
        self.last_dc_time
    }
}

impl Cyclic for DcDriftCompensator {
    open spec fn required_len(&self) -> nat {
        DcSystemTime::SIZE as nat
    }

    open spec fn reply_len(&self) -> nat {
        DcSystemTime::SIZE as nat
    }

    fn is_finished(&self) -> (r: bool)
        ensures
            r,
    {
        true
    }

    /// Reads the system time of the first DC slave and writes it to the
    /// slaves after it; the slave position goes in the address field
    /// unchanged.
    fn next_command(&mut self, buf: &mut Vec<u8>) -> (r: Option<(Command, usize)>)
        ensures
            *final(self) == *old(self),
            final(buf)@ == zero_range(old(buf)@, 0, DcSystemTime::SIZE as int),
            r == Some(
                (
                    Command {
                        c_type: CommandType::ARMW,
                        adp: old(self).first_dc_slave_view(),
                        ado: DcSystemTime::ADDRESS,
                    },
                    DcSystemTime::SIZE,
                ),
            ),
    {
        let command = Command::new(
            CommandType::ARMW,
            SlaveAddress::SlavePosition(self.first_dc_slave).get_ado(),
            DcSystemTime::ADDRESS,
        );
        clear_range(buf, 0, DcSystemTime::SIZE);
        Some((command, DcSystemTime::SIZE))
    }

    /// A reply whose command type or register differs from the kept
    /// command counts as lost, one with another working counter than the
    /// number of DC slaves as invalid; either way the slave's time and its
    /// distance from `systime` are kept. Without a reply the loss is
    /// counted.
    fn recieve_and_process(&mut self, recv_data: Option<&CommandData>, systime: EtherCatSystemTime)
        ensures
            final(self).command_view() == old(self).command_view(),
            final(self).first_dc_slave_view() == old(self).first_dc_slave_view(),
            final(self).dc_slave_count_view() == old(self).dc_slave_count_view(),
            final(self).last_wkc_view() == old(self).last_wkc_view(),
            recv_data is None ==> final(self).offset_view() == old(self).offset_view()
                && final(self).last_dc_time_view() == old(self).last_dc_time_view() && final(self).invalid_view()
                == old(self).invalid_view() && final(self).lost_view() == inc_sat(old(self).lost_view()),
            recv_data matches Some(d) ==> {
                let lost = !(d.command.c_type == old(self).command_view().c_type && d.command.ado
                    == old(self).command_view().ado);
                let invalid = !lost && d.wkc != old(self).dc_slave_count_view();
                let slave_time = DcSystemTime::local_system_time_spec(d.data@);
                &&& final(self).last_dc_time_view() == slave_time
                &&& final(self).offset_view() == capped_distance(systime.0, slave_time)
                &&& final(self).lost_view() == if lost {
                    inc_sat(old(self).lost_view())
                } else {
                    old(self).lost_view()
                }
                &&& final(self).invalid_view() == if invalid {
                    inc_sat(old(self).invalid_view())
                } else {
                    old(self).invalid_view()
                }
            },
    {
        let data = match recv_data {
            Some(recv_data) => {
                let wkc = recv_data.wkc;
                if !(recv_data.command.c_type == self.command.c_type && recv_data.command.ado
                    == self.command.ado) {
                    self.lost_pdu_count = saturating_inc(self.lost_pdu_count);
                } else if wkc != self.dc_slave_count {
                    self.invalid_wkc_count = saturating_inc(self.invalid_wkc_count);
                }
                recv_data.data
            },
            None => {
                self.lost_pdu_count = saturating_inc(self.lost_pdu_count);
                return ;
            },
        };
        let slave_systime = DcSystemTime::local_system_time(data);
        self.last_dc_time = EtherCatSystemTime(slave_systime);
        let max: u64 = 0x7fff_ffff_ffff_ffff;
        if systime.0 < slave_systime {
            let d = slave_systime - systime.0;
            let offset_abs = if d < max {
                d
            } else {
                max
            };
            self.sys_time_offset = offset_abs as i64;
        } else {
            let d = systime.0 - slave_systime;
            let offset_abs = if d < max {
                d
            } else {
                max
            };
            self.sys_time_offset = offset_abs as i64;
        }
    }
}

} // verus!
