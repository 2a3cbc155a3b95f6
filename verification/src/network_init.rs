//! Initializing the network: count the slaves with a broadcast write of
//! the data link control, then initialize them one by one, collecting what
//! was learned of each. The accesses go out elsewhere; this decides what
//! each outcome means.
use crate::command::Command;
use crate::error::EcError;
use crate::frame::CommandType;
use crate::register::{DlControl, SyncManagerStatus};
use crate::slave_init::{SlaveInfo, SlaveInitError, SyncManager};
use vstd::prelude::*;

verus! {

/// Why initializing the network failed.
#[derive(Debug, Clone, Copy, PartialEq, Eq, Structural)]
pub enum NetworkInitializerError {
    Init(EcError<SlaveInitError>),
    TooManySlaves,
}

/// Where the initialization is.
#[derive(Debug, Clone, Copy, PartialEq, Eq, Structural)]
pub enum NetworkInitState {
    Idle,
    Error(EcError<NetworkInitializerError>),
    CountSlaves,
    /// Initializing the slave at this position.
    InitSlave(u16),
    Complete,
}

/// A slave found: what was learned of it, and the status register of its
/// send mailbox, which its third FMMU maps where it has at least two FMMUs
/// and a send mailbox.
#[derive(Debug, Clone, Copy)]
pub struct NetworkSlave {
    pub info: SlaveInfo,
    pub mailbox_status_address: Option<u16>,
}

/// The initializer: its state, the slaves counted, the replies lost so
/// far, and the slaves found, at most `capacity` of them.
#[derive(Debug)]
pub struct NetworkInitializer {
    pub state: NetworkInitState,
    pub num_slaves: u16,
    pub lost_count: u8,
    pub slaves: Vec<NetworkSlave>,
    pub capacity: usize,
}

/// The command that counts the slaves: a broadcast write of the data link
/// control.
pub open spec fn count_command_spec() -> Command {
    Command { c_type: CommandType::BWR, adp: 0, ado: DlControl::ADDRESS }
}

/// The data link control written while counting: forwarding of non-EtherCAT
/// frames (bit 0) and the largest receive FIFO size (bits 16 to 18).
pub open spec fn count_data_spec() -> Seq<u8> {
    seq![1u8, 0u8, 7u8, 0u8]
}

/// The number of the first sync manager used as the send mailbox.
pub open spec fn mailbox_tx_sm_number(info: SlaveInfo) -> Option<u8> {
    if info.sm0 matches Some(SyncManager::MailboxTx { .. }) {
        Some(0u8)
    } else if info.sm1 matches Some(SyncManager::MailboxTx { .. }) {
        Some(1u8)
    } else if info.sm2 matches Some(SyncManager::MailboxTx { .. }) {
        Some(2u8)
    } else if info.sm3 matches Some(SyncManager::MailboxTx { .. }) {
        Some(3u8)
    } else {
        None
    }
}

/// The slave found for `info`.
pub open spec fn network_slave_spec(info: SlaveInfo) -> NetworkSlave {
    NetworkSlave {
        info,
        mailbox_status_address: match mailbox_tx_sm_number(info) {
            Some(n) => if 2 <= info.number_of_fmmu {
                Some((SyncManagerStatus::ADDRESS + 8 * n) as u16)
            } else {
                None
            },
            None => None,
        },
    }
}

impl NetworkInitializer {
    /// An initializer that has not started, with room for `capacity` slaves.
    pub fn new(capacity: usize) -> (r: Self)
        ensures
            r.state == NetworkInitState::Idle,
            r.num_slaves == 0,
            r.lost_count == 0,
            r.slaves@.len() == 0,
            r.capacity == capacity,
    {
        NetworkInitializer { state: NetworkInitState::Idle, num_slaves: 0, lost_count: 0, slaves: Vec::new(), capacity }
    }

    /// Starts over: counting the slaves, with no reply lost yet.
    pub fn start(&mut self)
        ensures
            final(self).state == NetworkInitState::CountSlaves,
            final(self).lost_count == 0,
            final(self).num_slaves == old(self).num_slaves,
            final(self).slaves@ == old(self).slaves@,
            final(self).capacity == old(self).capacity,
    {
        self.state = NetworkInitState::CountSlaves;
        self.lost_count = 0;
    }

    /// The command that counts the slaves and its data.
    pub fn count_command(&self) -> (r: (Command, Vec<u8>))
        ensures
            r.0 == count_command_spec(),
            r.1@ == count_data_spec(),
    {
        let data: Vec<u8> = vec![1u8, 0u8, 7u8, 0u8];
        assert(data@ =~= count_data_spec());
        (Command::new(CommandType::BWR, 0, DlControl::ADDRESS), data)
    }

    /// Takes the reply to the count, its command and working counter, or
    /// `None` where it was lost. The first lost reply is sent again, the
    /// second ends the initialization; a reply to another command ends it
    /// too. Otherwise the working counter is the number of slaves: none
    /// completes the initialization, else the first slave is next. The
    /// slaves found before are forgotten.
    pub fn on_count_reply(&mut self, reply: Option<(Command, u16)>)
        requires
            old(self).state == NetworkInitState::CountSlaves,
        ensures
            final(self).capacity == old(self).capacity,
            old(self).slaves@.len() <= old(self).capacity ==> final(self).slaves@.len() <= final(self).capacity,
            match reply {
                None => {
                    &&& final(self).num_slaves == old(self).num_slaves
                    &&& final(self).slaves@ == old(self).slaves@
                    &&& if old(self).lost_count > 0 {
                        final(self).state == NetworkInitState::Error(EcError::LostPacket)
                            && final(self).lost_count == old(self).lost_count
                    } else {
                        final(self).state == NetworkInitState::CountSlaves && final(self).lost_count == 1
                    }
                },
                Some((cmd, wkc)) => if cmd.c_type != CommandType::BWR || cmd.ado != DlControl::ADDRESS {
                    final(self).state == NetworkInitState::Error(EcError::UnexpectedCommand)
                        && final(self).num_slaves == old(self).num_slaves && final(self).slaves@
                        == old(self).slaves@ && final(self).lost_count == old(self).lost_count
                } else {
                    &&& final(self).num_slaves == wkc
                    &&& final(self).slaves@.len() == 0
                    &&& final(self).lost_count == old(self).lost_count
                    &&& final(self).state == if wkc == 0 {
                        NetworkInitState::Complete
                    } else {
                        NetworkInitState::InitSlave(0)
                    }
                },
            },
    {
        match reply {
            None => {
                if self.lost_count > 0 {
                    self.state = NetworkInitState::Error(EcError::LostPacket);
                } else {
                    self.lost_count = 1;
                }
            },
            Some((cmd, wkc)) => {
                if !(cmd.c_type == CommandType::BWR && cmd.ado == DlControl::ADDRESS) {
                    self.state = NetworkInitState::Error(EcError::UnexpectedCommand);
                } else {
                    self.num_slaves = wkc;
                    self.slaves = Vec::new();
                    self.state = if wkc == 0 {
                        NetworkInitState::Complete
                    } else {
                        NetworkInitState::InitSlave(0)
                    };
                }
            },
        }
    }

    /// Takes the outcome of initializing the slave at position `pos`: what
    /// was learned of it, kept while there is room (else the initialization
    /// ends with too many slaves), after which the next slave follows or,
    /// after the last one counted, the initialization completes; or the
    /// error that ended the slave's initialization, which ends this one.
    pub fn on_slave_result(&mut self, result: Result<SlaveInfo, EcError<SlaveInitError>>)
        requires
            old(self).state matches NetworkInitState::InitSlave(_),
        ensures
            final(self).capacity == old(self).capacity,
            old(self).slaves@.len() <= old(self).capacity ==> final(self).slaves@.len() <= final(self).capacity,
            final(self).num_slaves == old(self).num_slaves,
            final(self).lost_count == old(self).lost_count,
            old(self).state matches NetworkInitState::InitSlave(pos) && match result {
                Err(e) => final(self).state == NetworkInitState::Error(
                    EcError::TaskSpecific(NetworkInitializerError::Init(e)),
                ) && final(self).slaves@ == old(self).slaves@,
                Ok(info) => if old(self).slaves@.len() >= old(self).capacity {
                    final(self).state == NetworkInitState::Error(
                        EcError::TaskSpecific(NetworkInitializerError::TooManySlaves),
                    ) && final(self).slaves@ == old(self).slaves@
                } else {
                    &&& final(self).slaves@ == old(self).slaves@.push(network_slave_spec(info))
                    &&& final(self).state == if pos + 1 < old(self).num_slaves {
                        NetworkInitState::InitSlave((pos + 1) as u16)
                    } else {
                        NetworkInitState::Complete
                    }
                },
            },
    {
        let pos = match self.state {
            NetworkInitState::InitSlave(p) => p,
            _ => 0,
        };
        match result {
            Err(e) => {
                self.state = NetworkInitState::Error(EcError::TaskSpecific(NetworkInitializerError::Init(e)));
            },
            Ok(info) => {
                if self.slaves.len() >= self.capacity {
                    self.state = NetworkInitState::Error(EcError::TaskSpecific(NetworkInitializerError::TooManySlaves));
                } else {
                    let tx = if let Some(SyncManager::MailboxTx { .. }) = info.sm0 {
                        Some(0u8)
                    } else if let Some(SyncManager::MailboxTx { .. }) = info.sm1 {
                        Some(1u8)
                    } else if let Some(SyncManager::MailboxTx { .. }) = info.sm2 {
                        Some(2u8)
                    } else if let Some(SyncManager::MailboxTx { .. }) = info.sm3 {
                        Some(3u8)
                    } else {
                        None
                    };
                    let mailbox_status_address = match tx {
                        Some(n) => if 2 <= info.number_of_fmmu {
                            Some(SyncManagerStatus::ADDRESS + 8 * n as u16)
                        } else {
                            None
                        },
                        None => None,
                    };
                    self.slaves.push(NetworkSlave { info, mailbox_status_address });
                    self.state = if (pos as u32) + 1 < self.num_slaves as u32 {
                        NetworkInitState::InitSlave(pos + 1)
                    } else {
                        NetworkInitState::Complete
                    };
                }
            },
        }
    }

    /// Done once complete or failed.
    pub fn is_finished(&self) -> (r: bool)
        ensures
            r == (self.state is Complete || self.state is Error),
    {
        match self.state {
            NetworkInitState::Complete | NetworkInitState::Error(_) => true,
            _ => false,
        }
    }

    /// Done, or failed with the error; `None` while in progress.
    pub fn wait(&self) -> (r: Option<Result<(), EcError<NetworkInitializerError>>>)
        ensures
            self.state is Complete ==> r == Some(Ok::<(), EcError<NetworkInitializerError>>(())),
            self.state matches NetworkInitState::Error(e) ==> r == Some(
                Err::<(), EcError<NetworkInitializerError>>(e),
            ),
            !(self.state is Complete || self.state is Error) ==> r is None,
    {
        match self.state {
            NetworkInitState::Complete => Some(Ok(())),
            NetworkInitState::Error(e) => Some(Err(e)),
            _ => None,
        }
    }
}

} // verus!
