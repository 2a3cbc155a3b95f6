//! Reads the AL status of a target every cycle and keeps the last state
//! and status code.
use crate::al_state::{al_state_from_spec, al_state_from_u16, AlState};
use crate::bytes::{clear_range, zero_range};
use crate::command::{read_command_spec, Command, SlaveAddress, TargetSlave};
use crate::frame::CommandType;
use crate::register::AlStatus;
use crate::socket::{CommandData, Cyclic, EtherCatSystemTime};
use crate::tasks::{inc_sat, saturating_inc};
use vstd::prelude::*;

verus! {

#[derive(Debug)]
pub struct AlStateReader {
    target: TargetSlave,
    command: Command,
    last_al_state: Option<AlState>,
    last_al_status_code: Option<u16>,
    pub invalid_wkc_count: usize,
    pub lost_pdu_count: usize,
    last_wkc: u16,
}

/// What an AL status reply `data` says: the state, and the status code
/// where the error indicator is set.
pub open spec fn al_status_reading(data: Seq<u8>) -> (AlState, Option<u16>) {
    (
        al_state_from_spec(AlStatus::state_spec(data) as int),
        if AlStatus::change_err_spec(data) {
            Some(AlStatus::al_status_code_spec(data))
        } else {
            None
        },
    )
}

impl AlStateReader {
    pub closed spec fn target_view(&self) -> TargetSlave {
        self.target
    }

    pub closed spec fn command_view(&self) -> Command {
        self.command
    }

    pub closed spec fn state_view(&self) -> (Option<AlState>, Option<u16>) {
        (self.last_al_state, self.last_al_status_code)
    }

    pub closed spec fn invalid_view(&self) -> usize {
        self.invalid_wkc_count
    }

    pub closed spec fn lost_view(&self) -> usize {
        self.lost_pdu_count
    }

    pub closed spec fn last_wkc_view(&self) -> u16 {
        self.last_wkc
    }

    pub fn required_buffer_size() -> (r: usize)
        ensures
            r == AlStatus::SIZE,
    {
        AlStatus::SIZE
    }

    pub fn new() -> (r: Self)
        ensures
            r.target_view() == TargetSlave::Single(SlaveAddress::SlavePosition(0)),
            r.command_view() == (Command { c_type: CommandType::APRD, adp: 0, ado: 0 }),
            r.state_view() == (None::<AlState>, None::<u16>),
            r.invalid_view() == 0,
            r.lost_view() == 0,
            r.last_wkc_view() == 0,
    {
        AlStateReader {
            target: TargetSlave::default(),
            command: Command::default(),
            last_al_state: None,
            last_al_status_code: None,
            invalid_wkc_count: 0,
            lost_pdu_count: 0,
            last_wkc: 0,
        }
    }

    pub fn set_target(&mut self, target_slave: TargetSlave)
        ensures
            final(self).target_view() == target_slave,
            final(self).command_view() == old(self).command_view(),
            final(self).state_view() == old(self).state_view(),
            final(self).invalid_view() == old(self).invalid_view(),
            final(self).lost_view() == old(self).lost_view(),
            final(self).last_wkc_view() == old(self).last_wkc_view(),
    {
        self.target = target_slave;
    }

    /// The state and status code of the last reply.
    pub fn last_al_state(&self) -> (r: (Option<AlState>, Option<u16>))
        ensures
            r == self.state_view(),
    {
        (self.last_al_state, self.last_al_status_code)
    }

    pub fn last_wkc(&self) -> (r: u16)
        ensures
            r == self.last_wkc_view(),
    {
        self.last_wkc
    }
}

impl Cyclic for AlStateReader {
    open spec fn required_len(&self) -> nat {
        AlStatus::SIZE as nat
    }

    open spec fn reply_len(&self) -> nat {
        AlStatus::SIZE as nat
    }

    fn is_finished(&self) -> (r: bool)
        ensures
            r,
    {
        true
    }

    /// Reads the AL status of the target.
    fn next_command(&mut self, buf: &mut Vec<u8>) -> (r: Option<(Command, usize)>)
        ensures
            final(buf)@ == zero_range(old(buf)@, 0, AlStatus::SIZE as int),
            final(self).command_view() == read_command_spec(old(self).target_view(), AlStatus::ADDRESS),
            final(self).target_view() == old(self).target_view(),
            final(self).state_view() == old(self).state_view(),
            final(self).invalid_view() == old(self).invalid_view(),
            final(self).lost_view() == old(self).lost_view(),
            final(self).last_wkc_view() == old(self).last_wkc_view(),
            r == Some((final(self).command_view(), AlStatus::SIZE)),
    {
        self.command = Command::new_read(self.target, AlStatus::ADDRESS);
        clear_range(buf, 0, AlStatus::SIZE);
        Some((self.command, AlStatus::SIZE))
    }

    /// A reply of another command type counts as lost, one with another
    /// working counter than the number of targets as invalid; either way
    /// the state it carries is kept. Without a reply the loss is counted
    /// and nothing else changes.
    fn recieve_and_process(&mut self, recv_data: Option<&CommandData>, _systime: EtherCatSystemTime)
        ensures
            final(self).command_view() == old(self).command_view(),
            final(self).target_view() == old(self).target_view(),
            final(self).last_wkc_view() == old(self).last_wkc_view(),
            recv_data is None ==> final(self).state_view() == old(self).state_view() && final(self).invalid_view()
                == old(self).invalid_view() && final(self).lost_view() == inc_sat(old(self).lost_view()),
            recv_data matches Some(d) ==> {
                let lost = d.command.c_type != old(self).command_view().c_type;
                let invalid = !lost && d.wkc != old(self).target_view().num_targets_spec();
                let (state, code) = al_status_reading(d.data@);
                &&& final(self).state_view() == (Some(state), code)
                &&& final(self).lost_view() == if lost {
                    inc_sat(old(self).lost_view())
                } else {
                    old(self).lost_view()
                }
                &&& final(self).invalid_view() == if invalid {
                    inc_sat(old(self).invalid_view())
                } else {
                    old(self).invalid_view()
                }
            },
    {
        let data = match recv_data {
            Some(recv_data) => {
                let wkc = recv_data.wkc;
                if !(recv_data.command.c_type == self.command.c_type) {
                    self.lost_pdu_count = saturating_inc(self.lost_pdu_count);
                } else if wkc != self.target.num_targets() {
                    self.invalid_wkc_count = saturating_inc(self.invalid_wkc_count);
                }
                recv_data.data
            },
            None => {
                self.lost_pdu_count = saturating_inc(self.lost_pdu_count);
                return ;
            },
        };
        let al_state = al_state_from_u16(AlStatus::state(data) as u16);
        self.last_al_state = Some(al_state);
        if AlStatus::change_err(data) {
            self.last_al_status_code = Some(AlStatus::al_status_code(data));
        } else {
            self.last_al_status_code = None;
        }
    }
}

} // verus!
