//! Reads the receive error counters of a target every cycle.
use crate::bytes::{clear_range, zero_range};
use crate::command::{read_command_spec, Command, TargetSlave};
use crate::register::RxErrorCounter;
use crate::socket::{copy_prefix, CommandData, Cyclic, EtherCatSystemTime};
use crate::tasks::{inc_sat, saturating_inc};
use vstd::prelude::*;

verus! {

#[derive(Debug)]
pub struct RxErrorChecker {
    command: Command,
    target: TargetSlave,
    rx_error_count: [u8; 8],
    pub invalid_wkc_count: usize,
    last_wkc: u16,
}

impl RxErrorChecker {
    pub closed spec fn command_view(&self) -> Command {
        self.command
    }

    pub closed spec fn target_view(&self) -> TargetSlave {
        self.target
    }

    pub closed spec fn counters_view(&self) -> Seq<u8> {
        self.rx_error_count@
    }

    pub closed spec fn invalid_view(&self) -> usize {
        self.invalid_wkc_count
    }

    pub closed spec fn last_wkc_view(&self) -> u16 {
        self.last_wkc
    }

    pub fn required_buffer_size() -> (r: usize)
        ensures
            r == RxErrorCounter::SIZE,
    {
        RxErrorCounter::SIZE
    }

    pub fn new() -> (r: Self)
        ensures
            r.command_view() == (Command { c_type: crate::frame::CommandType::APRD, adp: 0, ado: 0 }),
            r.target_view() == TargetSlave::Single(crate::command::SlaveAddress::SlavePosition(0)),
            r.counters_view() == Seq::new(8, |i: int| 0u8),
            r.invalid_view() == 0,
            r.last_wkc_view() == 0,
    {
        let r = RxErrorChecker {
            command: Command::default(),
            target: TargetSlave::default(),
            rx_error_count: [0u8; 8],
            invalid_wkc_count: 0,
            last_wkc: 0,
        };
        proof {
            assert(r.rx_error_count@ =~= Seq::new(8, |i: int| 0u8));
        }
        r
    }

    pub fn set_target(&mut self, target_slave: TargetSlave)
        ensures
            final(self).target_view() == target_slave,
            final(self).command_view() == old(self).command_view(),
            final(self).counters_view() == old(self).counters_view(),
            final(self).invalid_view() == old(self).invalid_view(),
            final(self).last_wkc_view() == old(self).last_wkc_view(),
    {
        self.target = target_slave;
    }

    pub fn last_wkc(&self) -> (r: u16)
        ensures
            r == self.last_wkc_view(),
    {
        self.last_wkc
    }

    /// The counters as last read.
    pub fn rx_error_count(&self) -> (r: &[u8])
        ensures
            r@ == self.counters_view(),
    {
        self.rx_error_count.as_slice()
    }
}

impl Cyclic for RxErrorChecker {
    open spec fn required_len(&self) -> nat {
        RxErrorCounter::SIZE as nat
    }

    open spec fn reply_len(&self) -> nat {
        RxErrorCounter::SIZE as nat
    }

    fn is_finished(&self) -> (r: bool)
        ensures
            r,
    {
        true
    }

    /// Reads the counters of the target.
    fn next_command(&mut self, buf: &mut Vec<u8>) -> (r: Option<(Command, usize)>)
        ensures
            final(buf)@ == zero_range(old(buf)@, 0, RxErrorCounter::SIZE as int),
            final(self).command_view() == read_command_spec(old(self).target_view(), RxErrorCounter::ADDRESS),
            final(self).target_view() == old(self).target_view(),
            final(self).counters_view() == old(self).counters_view(),
            final(self).invalid_view() == old(self).invalid_view(),
            final(self).last_wkc_view() == old(self).last_wkc_view(),
            r == Some((final(self).command_view(), RxErrorCounter::SIZE)),
    {
        clear_range(buf, 0, RxErrorCounter::SIZE);
        self.command = Command::new_read(self.target, RxErrorCounter::ADDRESS);
        Some((self.command, RxErrorCounter::SIZE))
    }

    /// Keeps the counters of a reply; a working counter other than the
    /// number of targets counts as invalid. Without a reply nothing changes.
    fn recieve_and_process(&mut self, recv_data: Option<&CommandData>, _systime: EtherCatSystemTime)
        ensures
            final(self).command_view() == old(self).command_view(),
            final(self).target_view() == old(self).target_view(),
            final(self).last_wkc_view() == old(self).last_wkc_view(),
            recv_data is None ==> final(self).counters_view() == old(self).counters_view()
                && final(self).invalid_view() == old(self).invalid_view(),
            recv_data matches Some(d) ==> final(self).counters_view() == copy_prefix(
                old(self).counters_view(),
                d.data@.subrange(0, RxErrorCounter::SIZE as int),
            ) && final(self).invalid_view() == if d.wkc != old(self).target_view().num_targets_spec() {
                inc_sat(old(self).invalid_view())
            } else {
                old(self).invalid_view()
            },
    {
        if let Some(recv_data) = recv_data {
            if recv_data.wkc != self.target.num_targets() {
                self.invalid_wkc_count = saturating_inc(self.invalid_wkc_count);
            }
            let ghost before = self.rx_error_count@;
            let ghost invalid = self.invalid_wkc_count;
            let mut i: usize = 0;
            while i < RxErrorCounter::SIZE
                invariant
                    i <= RxErrorCounter::SIZE,
                    recv_data.data@.len() >= RxErrorCounter::SIZE,
                    self.rx_error_count@.len() == 8,
                    forall|k: int| 0 <= k < i ==> self.rx_error_count@[k] == recv_data.data@[k],
                    forall|k: int| i <= k < 8 ==> self.rx_error_count@[k] == before[k],
                    self.command == old(self).command,
                    self.target == old(self).target,
                    self.last_wkc == old(self).last_wkc,
                    self.invalid_wkc_count == invalid,
                decreases RxErrorCounter::SIZE - i,
            {
                self.rx_error_count[i] = recv_data.data[i];
                i = i + 1;
            }
            proof {
                assert(self.rx_error_count@ =~= copy_prefix(
                    before,
                    recv_data.data@.subrange(0, RxErrorCounter::SIZE as int),
                ));
            }
        }
    }
}

} // verus!
