//! An EtherCAT master: frame layouts, frame building, mailbox messages and
//! the cyclic state machines that drive slaves, with their contracts.
pub mod bytes;
pub mod frame;
pub mod coe;
pub mod mailbox;
pub mod command;
pub mod ethercat_frame;
pub mod ec_frame;
pub mod interface;
pub mod al_state;
pub mod cycletime;
pub mod socket;
pub mod round_trip;
pub mod frame_echo;
pub mod register;
pub mod error;
pub mod tasks;
pub mod cyclic;
pub mod config;
pub mod device;
pub mod master;
pub mod dc;
pub mod process_data;
pub mod sync_mode;
pub mod slave_init;
pub mod ec_frame_build;
pub mod dc_init;
pub mod pdo_image;
pub mod network_init;
