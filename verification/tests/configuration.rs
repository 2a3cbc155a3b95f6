use ethercat_master::al_state::AlState;
use ethercat_master::error::EcError;
use ethercat_master::frame::CommandType;
use ethercat_master::tasks::al_state_transfer;
use ethercat_master::tasks::sii_reader::SiiTaskError;
use ethercat_master::command::SlaveAddress;
use ethercat_master::ethercat_frame::EtherCATFrame;
use ethercat_master::process_data::{
    pdo_sm_size, set_pdo_mappings_to_sm_utility, set_pdo_to_sm_utility, set_process_data_sm_size_offset,
    ConfigWrite, FmmuAssignment, PdoEntryConfig, PdoMappingConfig, PdoSmReader, WriteRole, WriteTarget,
};
use ethercat_master::pdo_image::{
    fmmu_register_write, fmmu_setting, fmmu_write_error, set_logical_address_to_fmmu_config,
    set_logical_address_to_pdo_entry_config, FmmuSetting, ImagePlacement,
};
use ethercat_master::network_init::{NetworkInitState, NetworkInitializer, NetworkInitializerError};
use ethercat_master::slave_init::{InitAccess, SlaveInfo, SlaveInitError, SlaveInitializer, SyncManager};
use ethercat_master::sync_mode::{
    ConfigError, ConfigErrorKind, CycleTimeSetting, RegisterError, SdoError, SyncAccess, SyncMode,
    SyncModeConfigurator,
};

fn sdo(index: u16, sub_index: u8, data: &[u8]) -> (WriteTarget, Vec<u8>) {
    (WriteTarget::Sdo { index, sub_index }, data.to_vec())
}

fn reg(address: u16, data: &[u8]) -> (WriteTarget, Vec<u8>) {
    (WriteTarget::Register { address }, data.to_vec())
}

fn plain(writes: &[ConfigWrite]) -> Vec<(WriteTarget, Vec<u8>)> {
    writes.iter().map(|w| (w.target, w.data.clone())).collect()
}

/// An access as (kind, index or address, subindex or size, data).
fn access(a: SyncAccess) -> (&'static str, u16, usize, Vec<u8>) {
    match a {
        SyncAccess::ReadSdo { index, sub_index } => ("read sdo", index, sub_index as usize, vec![]),
        SyncAccess::WriteSdo { index, sub_index, data } => ("write sdo", index, sub_index as usize, data),
        SyncAccess::ReadRegister { address, size } => ("read reg", address, size, vec![]),
        SyncAccess::WriteRegister { address, data } => ("write reg", address, 0, data),
        SyncAccess::Done => ("done", 0, 0, vec![]),
    }
}

#[test]
fn process_data_ram_after_the_mailboxes() {
    let r = set_process_data_sm_size_offset(Some((0x1000, 128)), Some((0x1080, 128)), 8);
    assert_eq!(r, Some((0x1100, 0x0F00)));
}

#[test]
fn process_data_ram_before_the_mailboxes() {
    let r = set_process_data_sm_size_offset(Some((0x1800, 64)), Some((0x1C00, 64)), 8);
    assert_eq!(r, Some((0x1000, 0x0800)));
}

#[test]
fn process_data_ram_needs_both_mailboxes() {
    assert_eq!(set_process_data_sm_size_offset(None, Some((0x1000, 128)), 8), None);
    assert_eq!(set_process_data_sm_size_offset(Some((0x1000, 128)), None, 8), None);
}

#[test]
fn pdo_sm_size_rounds_up_to_bytes() {
    assert_eq!(pdo_sm_size(0), 0);
    assert_eq!(pdo_sm_size(1), 1);
    assert_eq!(pdo_sm_size(8), 1);
    assert_eq!(pdo_sm_size(9), 2);
    assert_eq!(pdo_sm_size(24), 3);
}

#[test]
fn pdo_mappings_are_written_with_padding_and_counts() {
    let maps = vec![
        PdoMappingConfig {
            is_fixed: false,
            index: 0x1A00,
            entries: vec![
                PdoEntryConfig { index: 0x6000, sub_index: 1, bit_length: 1 },
                PdoEntryConfig { index: 0x6010, sub_index: 2, bit_length: 16 },
            ],
        },
        PdoMappingConfig { is_fixed: false, index: 0x1A02, entries: vec![] },
        PdoMappingConfig {
            is_fixed: true,
            index: 0x1A01,
            entries: vec![PdoEntryConfig { index: 0x6020, sub_index: 1, bit_length: 8 }],
        },
    ];
    let plan = set_pdo_mappings_to_sm_utility(Some(3), Some(&maps), false, 0x1100);
    assert_eq!(
        plain(&plan.writes),
        vec![
            sdo(0x1C13, 0, &[0]),
            sdo(0x1C13, 1, &[0x00, 0x1A]),
            sdo(0x1A00, 0, &[0]),
            sdo(0x1A00, 1, &[1, 1, 0x00, 0x60]),
            sdo(0x1A00, 2, &[7, 0, 0, 0]),
            sdo(0x1A00, 3, &[16, 2, 0x10, 0x60]),
            sdo(0x1A00, 0, &[3]),
            sdo(0x1C13, 2, &[0x01, 0x1A]),
            sdo(0x1C13, 0, &[2]),
            reg(0x0818, &[0x00, 0x11, 3, 0, 0x20]),
            reg(0x081E, &[1]),
        ]
    );
    assert_eq!(plan.fmmu, Some(FmmuAssignment { start_address: 0x1100, bit_length: 24, is_output: false }));
    assert_eq!(plan.next_ram_address, 0x1100 + 9);
}

#[test]
fn pdo_mapping_writes_name_the_error_of_their_failure() {
    let maps = vec![PdoMappingConfig {
        is_fixed: false,
        index: 0x1A00,
        entries: vec![PdoEntryConfig { index: 0x6000, sub_index: 1, bit_length: 1 }],
    }];
    let plan = set_pdo_mappings_to_sm_utility(Some(3), Some(&maps), false, 0x1100);
    let roles: Vec<WriteRole> = plan.writes.iter().map(|w| w.role).collect();
    assert_eq!(
        roles,
        vec![
            WriteRole::ClearPdoMappings,
            WriteRole::AssignPdoMapToSyncManager,
            WriteRole::ClearPdoEntries,
            WriteRole::AssignPdoEntryToPdoMap,
            WriteRole::AssignPdoEntryToPdoMap,
            WriteRole::SetNumberOfPdoEntries,
            WriteRole::SetNumberOfPdoMappings,
            WriteRole::SyncManagerSetting,
            WriteRole::SyncManagerSetting,
        ]
    );
    let failures: Vec<Option<ConfigErrorKind>> = plan.writes.iter().map(|w| w.failure()).collect();
    assert_eq!(
        failures,
        vec![
            Some(ConfigErrorKind::ClearPdoMappings(SdoError { index: 0x1C13, sub_index: 0 })),
            Some(ConfigErrorKind::AssignPdoMapToSyncManager(SdoError { index: 0x1C13, sub_index: 1 })),
            Some(ConfigErrorKind::ClearPdoEntries(SdoError { index: 0x1A00, sub_index: 0 })),
            Some(ConfigErrorKind::AssignPdoEntryToPdoMap(SdoError { index: 0x1A00, sub_index: 1 })),
            Some(ConfigErrorKind::AssignPdoEntryToPdoMap(SdoError { index: 0x1A00, sub_index: 2 })),
            Some(ConfigErrorKind::SetNumberOfPdoEntries(SdoError { index: 0x1A00, sub_index: 0 })),
            Some(ConfigErrorKind::SetNumberOfPdoMappings(SdoError { index: 0x1C13, sub_index: 0 })),
            None,
            None,
        ]
    );
}

#[test]
fn pdo_mappings_without_sync_manager_write_nothing() {
    let maps = vec![PdoMappingConfig { is_fixed: true, index: 0x1600, entries: vec![] }];
    let plan = set_pdo_mappings_to_sm_utility(None, Some(&maps), true, 0x1000);
    assert!(plan.writes.is_empty());
    assert_eq!(plan.fmmu, None);
    assert_eq!(plan.next_ram_address, 0x1000);
    let plan = set_pdo_mappings_to_sm_utility(Some(2), None, true, 0x1000);
    assert!(plan.writes.is_empty());
    assert_eq!(plan.next_ram_address, 0x1000);
}

#[test]
fn pdo_sm_reader_sums_the_entries_of_the_assigned_maps() {
    let mut r = PdoSmReader::new(true, Some(2), 0x1000);
    let replies: Vec<(Option<(u16, u8)>, Vec<u8>)> = vec![
        (Some((0x1C00, 0)), vec![4]),
        (Some((0x1C00, 3)), vec![3]),
        (Some((0x1C12, 0)), vec![1]),
        (Some((0x1C12, 1)), vec![0x00, 0x16]),
        (Some((0x1600, 0)), vec![2]),
        (Some((0x1600, 1)), vec![8, 1, 0x00, 0x70]),
        (Some((0x1600, 2)), vec![16, 2, 0x00, 0x70]),
    ];
    for (read, reply) in replies {
        assert!(!r.is_ready());
        assert_eq!(r.next_read(), read);
        assert_eq!(r.on_reply(Some(reply.as_slice())), Ok(()));
    }
    assert!(r.is_ready());
    assert_eq!(r.next_read(), None);
    assert_eq!(r.bit_length, 24);
    let plan = set_pdo_to_sm_utility(&r);
    assert_eq!(plain(&plan.writes), vec![reg(0x0810, &[0x00, 0x10, 3, 0, 0x24]), reg(0x0816, &[1])]);
    assert_eq!(plan.fmmu, Some(FmmuAssignment { start_address: 0x1000, bit_length: 24, is_output: true }));
    assert_eq!(plan.next_ram_address, 0x1009);
}

#[test]
fn pdo_sm_reader_without_maps_disables_the_sync_manager() {
    let mut r = PdoSmReader::new(false, Some(3), 0x1200);
    r.on_reply(Some(&[4u8][..])).unwrap();
    assert_eq!(r.next_read(), Some((0x1C00, 4)));
    r.on_reply(Some(&[0u8][..])).unwrap();
    assert!(r.is_ready());
    let plan = set_pdo_to_sm_utility(&r);
    assert_eq!(plain(&plan.writes), vec![reg(0x0818, &[0x00, 0x12, 0, 0, 0x20]), reg(0x081E, &[0])]);
    assert_eq!(plan.next_ram_address, 0x1200);

    let mut none = PdoSmReader::new(false, None, 0x1200);
    none.on_reply(Some(&[4u8][..])).unwrap();
    assert!(none.is_ready());
    let plan = set_pdo_to_sm_utility(&none);
    assert!(plan.writes.is_empty());
    assert_eq!(plan.fmmu, None);
}

#[test]
fn sync_mode_sync0_with_default_cycle_time() {
    let addr = SlaveAddress::StationAddress(0x1001);
    let mut c = SyncModeConfigurator::new(addr, 2, 3, SyncMode::Sync0Event, CycleTimeSetting::DefaultValue);
    let le64 = |v: u64| v.to_le_bytes().to_vec();
    let steps: Vec<((&str, u16, usize, Vec<u8>), Vec<u8>)> = vec![
        (("read sdo", 0x1C00, 3, vec![]), vec![3]),
        (("read sdo", 0x1C32, 2, vec![]), vec![0x40, 0x42, 0x0F, 0xAA, 0x00]),
        (("read sdo", 0x1C32, 4, vec![]), vec![0x07]),
        (("read sdo", 0x1C32, 5, vec![]), 500_000u32.to_le_bytes().to_vec()),
        (("write sdo", 0x1C32, 1, vec![2, 0]), vec![]),
        (("write sdo", 0x1C32, 8, vec![1, 0]), vec![]),
        (("read sdo", 0x1C00, 4, vec![]), vec![0]),
        (("write sdo", 0x10F1, 2, vec![9, 0]), vec![]),
        (("write reg", 0x09A0, 0, vec![0x40, 0x42, 0x0F, 0x00]), vec![]),
        (("write reg", 0x09A4, 0, vec![0x20, 0xA1, 0x07, 0x00]), vec![]),
        (("read reg", 0x0910, 8, vec![]), le64(1_000)),
        (("write reg", 0x0990, 0, le64(10_001_000)), vec![]),
        (("write reg", 0x0981, 0, vec![0x07]), vec![]),
        (("read reg", 0x0990, 8, vec![]), le64(10_001_000)),
        (("read reg", 0x0910, 8, vec![]), le64(5_000_000)),
        (("read reg", 0x0910, 8, vec![]), le64(10_001_001)),
    ];
    for (expected, reply) in steps {
        assert!(!c.is_done());
        assert_eq!(access(c.next_access()), expected);
        assert_eq!(c.on_reply(Some(reply.as_slice())), Ok(()));
    }
    assert!(c.is_done());
    assert_eq!(c.rx_cycle_ns, 1_000_000);
    assert_eq!(c.tx_cycle_ns, 0);
    assert_eq!(access(c.next_access()), ("done", 0, 0, vec![]));
}

#[test]
fn sync_mode_free_run_with_given_cycle_time() {
    let addr = SlaveAddress::SlavePosition(0);
    let mut c = SyncModeConfigurator::new(
        addr,
        2,
        3,
        SyncMode::FreeRun,
        CycleTimeSetting::SpecifiedValue(2_000_000),
    );
    let steps: Vec<((&str, u16, usize, Vec<u8>), Vec<u8>)> = vec![
        (("read sdo", 0x1C00, 3, vec![]), vec![0]),
        (("read sdo", 0x1C00, 4, vec![]), vec![4]),
        (("read sdo", 0x1C33, 4, vec![]), vec![0x01]),
        (("read sdo", 0x1C33, 5, vec![]), 1_000_000u32.to_le_bytes().to_vec()),
        (("write sdo", 0x1C33, 1, vec![0, 0]), vec![]),
        (("write sdo", 0x1C33, 2, 2_000_000u32.to_le_bytes().to_vec()), vec![]),
        (("write reg", 0x09A0, 0, 2_000_000u32.to_le_bytes().to_vec()), vec![]),
        (("write reg", 0x09A4, 0, 1_000_000u32.to_le_bytes().to_vec()), vec![]),
    ];
    for (expected, reply) in steps {
        assert_eq!(access(c.next_access()), expected);
        assert_eq!(c.on_reply(Some(reply.as_slice())), Ok(()));
    }
    assert_eq!(c.tx_cycle_ns, 2_000_000);
    assert_eq!(access(c.next_access()), ("read reg", 0x0910, 8, vec![]));
    c.on_reply(Some(&[0u8; 8][..])).unwrap();
    c.on_reply(Some(&[][..])).unwrap();
    assert_eq!(access(c.next_access()), ("write reg", 0x0981, 0, vec![0x00]));
}

#[test]
fn sync_mode_refuses_an_unsupported_mode() {
    let addr = SlaveAddress::StationAddress(7);
    let mut c = SyncModeConfigurator::new(
        addr,
        2,
        3,
        SyncMode::Sync0Event,
        CycleTimeSetting::SpecifiedValue(1_000_000),
    );
    c.on_reply(Some(&[3u8][..])).unwrap();
    assert_eq!(access(c.next_access()), ("read sdo", 0x1C32, 4, vec![]));
    let err = c.on_reply(Some(&[0x03u8][..]));
    assert_eq!(
        err,
        Err(ConfigError { slave_address: addr, kind: ConfigErrorKind::SyncModeNotSupported(SyncMode::Sync0Event) })
    );
}

#[test]
fn sync_mode_refuses_a_cycle_time_below_the_minimum() {
    let addr = SlaveAddress::StationAddress(7);
    let mut c = SyncModeConfigurator::new(
        addr,
        2,
        3,
        SyncMode::SyncManagerEvent,
        CycleTimeSetting::SpecifiedValue(100_000),
    );
    c.on_reply(Some(&[3u8][..])).unwrap();
    c.on_reply(Some(&[0x02u8][..])).unwrap();
    let err = c.on_reply(Some(&250_000u32.to_le_bytes()[..]));
    assert_eq!(err, Err(ConfigError { slave_address: addr, kind: ConfigErrorKind::CycleTimeTooSmall(250_000) }));
}

#[test]
fn sync_mode_reports_a_failed_access() {
    let addr = SlaveAddress::StationAddress(7);
    let mut c = SyncModeConfigurator::new(addr, 2, 3, SyncMode::FreeRun, CycleTimeSetting::DefaultValue);
    let err = c.on_reply(None);
    assert_eq!(
        err,
        Err(ConfigError {
            slave_address: addr,
            kind: ConfigErrorKind::GetSyncManagerCommunicationType(SdoError { index: 0x1C00, sub_index: 3 }),
        })
    );
    assert_eq!(access(c.next_access()), ("read sdo", 0x1C00, 3, vec![]));
}

#[test]
fn init_then_adds_lay_datagrams_one_after_another() {
    let mut f = EtherCATFrame::new_unchecked(vec![0u8; 128]);
    f.init();
    assert!(f.add_aprd(0, 0x0130, &[0, 0]).is_ok());
    assert!(f.add_fpwr(0x1001, 0x0120, &[1, 2, 3, 4]).is_ok());
    assert!(f.add_aprd(0xFFFF, 0x0910, &[0; 8]).is_ok());
    let mut offsets = f.dlpdu_header_offsets();
    let mut seen = vec![];
    while let Some(o) = offsets.next() {
        seen.push(o);
    }
    assert_eq!(seen, vec![16, 16 + 10 + 2 + 2, 30 + 10 + 4 + 2]);
    assert_eq!(f.free_offset, 46 + 10 + 8 + 2);
}

fn init_access(a: InitAccess) -> (&'static str, u16, usize, Vec<u8>) {
    match a {
        InitAccess::WriteRegister { address, data } => ("write reg", address, 0, data),
        InitAccess::ReadRegister { address, size } => ("read reg", address, size, vec![]),
        InitAccess::TransferToInit => ("to init", 0, 0, vec![]),
        InitAccess::ReadSii { address } => ("read sii", address, 0, vec![]),
        InitAccess::Done => ("done", 0, 0, vec![]),
    }
}

fn run_init_steps(
    init: &mut SlaveInitializer,
    steps: Vec<((&str, u16, usize, Vec<u8>), Vec<u8>)>,
) {
    for (expected, reply) in steps {
        assert!(init.wait().is_none());
        let access = init_access(init.next_access());
        assert_eq!(access, expected);
        let r = match access.0 {
            "to init" => init.on_transfer_result(Ok(AlState::Init)),
            "read sii" => init.on_sii_result(Ok(reply.as_slice())),
            _ => {
                let c = init.register_command().unwrap();
                init.on_reply(Some((c, reply.as_slice(), 1)))
            }
        };
        assert_eq!(r, Ok(()));
    }
}

fn init_prefix() -> Vec<((&'static str, u16, usize, Vec<u8>), Vec<u8>)> {
    vec![
        (("write reg", 0x0100, 0, vec![0x01, 0x00, 0x07, 0x00]), vec![]),
        (("to init", 0, 0, vec![]), vec![]),
        (("write reg", 0x0300, 0, vec![0; 8]), vec![]),
        (("write reg", 0x0400, 0, vec![0xC2, 0x09]), vec![]),
        (("write reg", 0x0410, 0, vec![0, 0]), vec![]),
        (("write reg", 0x0420, 0, vec![0, 0]), vec![]),
    ]
}

#[test]
fn slave_initializer_learns_a_slave_with_mailboxes_and_clocks() {
    let mut init = SlaveInitializer::new();
    assert!(init.wait().is_none());
    init.start(0);
    let mut steps = init_prefix();
    steps.extend(vec![
        (("read reg", 0x0110, 2, vec![]), vec![0x01, 0x02]),
        (("read reg", 0x0000, 10, vec![]), vec![0x11, 0, 0, 0, 8, 8, 8, 0x0F, 0x0C, 0x00]),
        (("write reg", 0x0600, 0, vec![0; 16]), vec![]),
        (("write reg", 0x0610, 0, vec![0; 16]), vec![]),
        (("write reg", 0x0800, 0, vec![0; 7]), vec![]),
        (("write reg", 0x0808, 0, vec![0; 7]), vec![]),
        (("write reg", 0x0810, 0, vec![0; 7]), vec![]),
        (("write reg", 0x0818, 0, vec![0; 7]), vec![]),
        (("write reg", 0x0820, 0, vec![0; 7]), vec![]),
        (("read sii", 0x0008, 0, vec![]), vec![0x02, 0x00, 0, 0, 0, 0, 0, 0]),
        (("read sii", 0x000A, 0, vec![]), vec![0x34, 0x12, 0, 0, 0, 0, 0, 0]),
        (("read sii", 0x000C, 0, vec![]), vec![0x01, 0x00, 0, 0, 0, 0, 0, 0]),
        (("read sii", 0x001C, 0, vec![]), vec![0x04, 0x00, 0, 0, 0, 0, 0, 0]),
        (("read sii", 0x0019, 0, vec![]), vec![0x80, 0x00, 0, 0, 0, 0, 0, 0]),
        (("read sii", 0x0018, 0, vec![]), vec![0x00, 0x10, 0, 0, 0, 0, 0, 0]),
        (("read sii", 0x001B, 0, vec![]), vec![0x80, 0x00, 0, 0, 0, 0, 0, 0]),
        (("read sii", 0x001A, 0, vec![]), vec![0x80, 0x10, 0, 0, 0, 0, 0, 0]),
        (("write reg", 0x0800, 0, vec![0x00, 0x10, 0x80, 0x00, 0x26]), vec![]),
        (("write reg", 0x0806, 0, vec![1]), vec![]),
        (("write reg", 0x0808, 0, vec![0x80, 0x10, 0x80, 0x00, 0x22]), vec![]),
        (("write reg", 0x080E, 0, vec![1]), vec![]),
        (("write reg", 0x0010, 0, vec![0x01, 0x00]), vec![]),
        (("read reg", 0x0140, 2, vec![]), vec![0x05, 0x01]),
        (("write reg", 0x0981, 0, vec![0]), vec![]),
        (("write reg", 0x0990, 0, vec![0; 8]), vec![]),
        (("write reg", 0x09A0, 0, vec![0; 4]), vec![]),
        (("write reg", 0x09A4, 0, vec![0; 4]), vec![]),
    ]);
    run_init_steps(&mut init, steps);
    assert_eq!(init_access(init.next_access()), ("done", 0, 0, vec![]));
    let info = init.wait().unwrap().unwrap();
    assert_eq!(info.al_state, AlState::Init);
    assert_eq!(info.linked_ports, (true, false, false, false));
    assert_eq!(info.port_types, (3, 3, 0, 0));
    assert!(info.support_dc && info.is_dc_range_64bits);
    assert!(info.support_fmmu_bit_operation && info.support_lrw && info.support_rw);
    assert_eq!((info.ram_size_kb, info.number_of_fmmu, info.number_of_sm), (8, 8, 8));
    assert_eq!((info.vender_id, info.product_code, info.revision_number), (2, 0x1234, 1));
    assert!(info.support_coe);
    assert_eq!(info.sm0, Some(SyncManager::MailboxRx { start_address: 0x1000, size: 128 }));
    assert_eq!(info.sm1, Some(SyncManager::MailboxTx { start_address: 0x1080, size: 128 }));
    assert_eq!(info.sm2, Some(SyncManager::ProcessDataRx));
    assert_eq!(info.sm3, None);
    assert_eq!((info.pdo_start_address, info.pdo_ram_size), (Some(0x1100), 0x0F00));
    assert!(info.strict_al_control);
    assert_eq!(info.configured_address, 1);
}

#[test]
fn slave_initializer_without_mailboxes_or_clocks() {
    let mut init = SlaveInitializer::new();
    init.start(4);
    let mut steps = init_prefix();
    steps.extend(vec![
        (("read reg", 0x0110, 2, vec![]), vec![0x01, 0x0A]),
        (("read reg", 0x0000, 10, vec![]), vec![0x11, 0, 0, 0, 2, 2, 1, 0x05, 0x00, 0x06]),
        (("write reg", 0x0600, 0, vec![0; 16]), vec![]),
        (("write reg", 0x0610, 0, vec![0; 16]), vec![]),
        (("write reg", 0x0800, 0, vec![0; 7]), vec![]),
        (("write reg", 0x0808, 0, vec![0; 7]), vec![]),
        (("write reg", 0x0810, 0, vec![0; 7]), vec![]),
        (("write reg", 0x0818, 0, vec![0; 7]), vec![]),
        (("write reg", 0x0820, 0, vec![0; 7]), vec![]),
        (("read sii", 0x0008, 0, vec![]), vec![0; 8]),
        (("read sii", 0x000A, 0, vec![]), vec![0; 8]),
        (("read sii", 0x000C, 0, vec![]), vec![0; 8]),
        (("read sii", 0x001C, 0, vec![]), vec![0; 8]),
        (("read sii", 0x0019, 0, vec![]), vec![0; 8]),
        (("read sii", 0x0018, 0, vec![]), vec![0; 8]),
        (("read sii", 0x001B, 0, vec![]), vec![0; 8]),
        (("read sii", 0x001A, 0, vec![]), vec![0; 8]),
        (("write reg", 0x0800, 0, vec![0; 5]), vec![]),
        (("write reg", 0x0806, 0, vec![0]), vec![]),
        (("write reg", 0x0808, 0, vec![0; 5]), vec![]),
        (("write reg", 0x080E, 0, vec![0]), vec![]),
        (("write reg", 0x0010, 0, vec![0x05, 0x00]), vec![]),
        (("read reg", 0x0140, 2, vec![]), vec![0x05, 0x00]),
    ]);
    run_init_steps(&mut init, steps);
    let info = init.wait().unwrap().unwrap();
    assert_eq!(info.linked_ports, (true, true, false, false));
    assert_eq!(info.port_types, (1, 1, 0, 0));
    assert!(!info.support_dc && !info.support_lrw && !info.support_rw);
    assert!(!info.support_coe);
    assert_eq!(info.sm0, Some(SyncManager::ProcessDataRx));
    assert_eq!(info.sm1, None);
    assert_eq!(info.pdo_start_address, None);
    assert!(!info.strict_al_control);
    assert_eq!(info.configured_address, 5);
}

#[test]
fn slave_initializer_refuses_a_slave_whose_eeprom_was_not_loaded() {
    let mut init = SlaveInitializer::new();
    init.start(0);
    run_init_steps(&mut init, init_prefix());
    assert_eq!(init_access(init.next_access()), ("read reg", 0x0110, 2, vec![]));
    let c = init.register_command().unwrap();
    assert_eq!((c.c_type, c.adp, c.ado), (CommandType::APRD, 0, 0x0110));
    let eeprom = EcError::TaskSpecific(SlaveInitError::FailedToLoadEEPROM);
    assert_eq!(init.on_reply(Some((c, &[0x00, 0x02][..], 1))), Err(eeprom));
    assert!(matches!(init.wait(), Some(Err(e)) if e == eeprom));
    assert_eq!(init_access(init.next_access()), ("done", 0, 0, vec![]));
}

#[test]
fn pdo_sm_reader_reports_the_read_that_failed() {
    let mut r = PdoSmReader::new(true, Some(2), 0x1000);
    assert_eq!(
        r.on_reply(None),
        Err(ConfigErrorKind::GetNumberOfSyncManagerChannel(SdoError { index: 0x1C00, sub_index: 0 }))
    );
    r.on_reply(Some(&[4u8][..])).unwrap();
    r.on_reply(Some(&[3u8][..])).unwrap();
    r.on_reply(Some(&[1u8][..])).unwrap();
    assert_eq!(
        r.on_reply(None),
        Err(ConfigErrorKind::GetPdoMappingAddress(SdoError { index: 0x1C12, sub_index: 1 }))
    );
    r.on_reply(Some(&[0x00u8, 0x16][..])).unwrap();
    r.on_reply(Some(&[1u8][..])).unwrap();
    assert_eq!(
        r.on_reply(None),
        Err(ConfigErrorKind::GetPdoEntrtyAddress(SdoError { index: 0x1600, sub_index: 1 }))
    );
}

#[test]
fn slave_initializer_reports_lost_and_unexpected_replies() {
    let mut init = SlaveInitializer::new();
    init.start(2);
    let c = init.register_command().unwrap();
    assert_eq!((c.c_type, c.adp, c.ado), (CommandType::APWR, 0xFFFE, 0x0100));
    assert_eq!(init.on_reply(None), Err(EcError::LostPacket));
    assert!(matches!(init.wait(), Some(Err(EcError::LostPacket))));

    let mut init = SlaveInitializer::new();
    init.start(2);
    let c = init.register_command().unwrap();
    assert_eq!(init.on_reply(Some((c, &[][..], 0))), Err(EcError::UnexpectedWkc(0)));

    let mut init = SlaveInitializer::new();
    init.start(2);
    let other = ethercat_master::command::Command::new(CommandType::APWR, 0xFFFE, 0x0120);
    assert_eq!(init.on_reply(Some((other, &[][..], 1))), Err(EcError::UnexpectedCommand));
    assert_eq!(init_access(init.next_access()), ("done", 0, 0, vec![]));
}

#[test]
fn slave_initializer_reports_the_errors_of_its_transfer_and_eeprom_reads() {
    let mut init = SlaveInitializer::new();
    init.start(0);
    let c = init.register_command().unwrap();
    init.on_reply(Some((c, &[][..], 1))).unwrap();
    let timeout = al_state_transfer::Error::TimeoutMs(5000);
    assert_eq!(
        init.on_transfer_result(Err(EcError::TaskSpecific(timeout))),
        Err(EcError::TaskSpecific(SlaveInitError::AlStateTransition(timeout)))
    );

    let mut init = SlaveInitializer::new();
    init.start(0);
    run_init_steps(&mut init, init_prefix());
    let c = init.register_command().unwrap();
    init.on_reply(Some((c, &[0x01, 0x00][..], 1))).unwrap();
    let c = init.register_command().unwrap();
    init.on_reply(Some((c, &[0u8; 10][..], 1))).unwrap();
    for _ in 0..7 {
        let c = init.register_command().unwrap();
        init.on_reply(Some((c, &[][..], 1))).unwrap();
    }
    assert_eq!(init_access(init.next_access()), ("read sii", 0x0008, 0, vec![]));
    assert_eq!(init.register_command(), None);
    assert_eq!(
        init.on_sii_result(Err(EcError::TaskSpecific(SiiTaskError::Busy))),
        Err(EcError::TaskSpecific(SlaveInitError::SiiRead(SiiTaskError::Busy)))
    );
}

#[test]
fn fmmus_are_placed_bit_by_bit_after_one_another() {
    let fmmu = |bit_length: u16, is_output: bool| FmmuAssignment { start_address: 0x1100, bit_length, is_output };
    let slaves = vec![
        vec![fmmu(12, true), fmmu(4, false)],
        vec![fmmu(0, true), fmmu(8, false)],
        vec![],
        vec![fmmu(3, false)],
    ];
    let layout = set_logical_address_to_fmmu_config(&slaves);
    let at = |logical_address: u32, start_bit: u8| Some(ImagePlacement { logical_address, start_bit });
    assert_eq!(
        layout.placements,
        vec![vec![at(0x1000, 0), at(0x1001, 4)], vec![None, at(0x1002, 0)], vec![], vec![at(0x1003, 0)]]
    );
    assert_eq!(layout.size, 4);
    assert_eq!(layout.expected_wkc, 3 + 1 + 1);
    // Each FMMU with data ends within the image, and the next starts after it.
    let mut end = 0u32;
    for (row, fmmus) in layout.placements.iter().zip(&slaves) {
        for (p, f) in row.iter().zip(fmmus) {
            if let Some(p) = p {
                let start = 8 * (p.logical_address - 0x1000) + p.start_bit as u32;
                assert!(end <= start);
                end = start + f.bit_length as u32;
                assert!(end <= 8 * layout.size as u32);
            }
        }
    }
}

#[test]
fn pdo_entries_follow_the_start_of_their_fmmu() {
    let entry = |bit_length: u8| PdoEntryConfig { index: 0x7000, sub_index: 1, bit_length };
    let maps = vec![
        PdoMappingConfig { is_fixed: false, index: 0x1600, entries: vec![entry(4), entry(8)] },
        PdoMappingConfig { is_fixed: false, index: 0x1601, entries: vec![entry(1)] },
    ];
    let start = ImagePlacement { logical_address: 0x1000, start_bit: 4 };
    let at = |logical_address: u32, start_bit: u8| ImagePlacement { logical_address, start_bit };
    assert_eq!(
        set_logical_address_to_pdo_entry_config(start, 13, &maps),
        vec![vec![at(0x1001, 4), at(0x1001, 0)], vec![at(0x1002, 0)]]
    );
    assert!(set_logical_address_to_pdo_entry_config(start, 7, &vec![]).is_empty());
}

#[test]
fn fmmu_registers_span_the_bytes_of_their_data() {
    let p = ImagePlacement { logical_address: 0x1001, start_bit: 4 };
    let out = FmmuAssignment { start_address: 0x1100, bit_length: 12, is_output: true };
    let f = fmmu_setting(p, out);
    assert_eq!(
        f,
        FmmuSetting { logical_address: 0x1001, byte_length: 2, end_bit: 7, physical_address: 0x1100, is_output: true }
    );
    assert_eq!(
        fmmu_register_write(1, f),
        (0x0610, vec![0x01, 0x10, 0, 0, 2, 0, 0, 7, 0x00, 0x11, 0, 2, 1, 0, 0, 0])
    );
    let input = FmmuAssignment { start_address: 0x1180, bit_length: 3, is_output: false };
    let g = fmmu_setting(ImagePlacement { logical_address: 0x12345678, start_bit: 0 }, input);
    assert_eq!(
        fmmu_register_write(0, g),
        (0x0600, vec![0x78, 0x56, 0x34, 0x12, 1, 0, 0, 2, 0x80, 0x11, 0, 1, 1, 0, 0, 0])
    );
    assert_eq!(
        fmmu_write_error(SlaveAddress::SlavePosition(3), 2),
        ConfigError {
            slave_address: SlaveAddress::SlavePosition(3),
            kind: ConfigErrorKind::SetFmmuRegister(RegisterError { address: 0x0620 }),
        }
    );
}

#[test]
fn network_initializer_counts_then_collects_the_slaves() {
    let mut net = NetworkInitializer::new(2);
    net.start();
    let (c, data) = net.count_command();
    assert_eq!((c.c_type, c.adp, c.ado), (CommandType::BWR, 0, 0x0100));
    assert_eq!(data, vec![1, 0, 7, 0]);
    net.on_count_reply(None);
    assert_eq!(net.state, NetworkInitState::CountSlaves);
    net.on_count_reply(Some((c, 2)));
    assert_eq!(net.state, NetworkInitState::InitSlave(0));
    assert_eq!(net.num_slaves, 2);

    let mut info = SlaveInfo::default();
    info.number_of_fmmu = 3;
    info.sm1 = Some(SyncManager::MailboxTx { start_address: 0x1080, size: 128 });
    net.on_slave_result(Ok(info));
    assert_eq!(net.state, NetworkInitState::InitSlave(1));
    assert_eq!(net.slaves[0].mailbox_status_address, Some(0x080D));
    net.on_slave_result(Ok(SlaveInfo::default()));
    assert_eq!(net.state, NetworkInitState::Complete);
    assert_eq!(net.slaves[1].mailbox_status_address, None);
    assert_eq!(net.wait(), Some(Ok(())));
}

#[test]
fn network_initializer_reports_its_failures() {
    let mut net = NetworkInitializer::new(1);
    net.start();
    net.on_count_reply(None);
    net.on_count_reply(None);
    assert_eq!(net.wait(), Some(Err(EcError::LostPacket)));

    let mut net = NetworkInitializer::new(1);
    net.start();
    let other = ethercat_master::command::Command::new(CommandType::BRD, 0, 0x0130);
    net.on_count_reply(Some((other, 1)));
    assert_eq!(net.wait(), Some(Err(EcError::UnexpectedCommand)));

    let mut net = NetworkInitializer::new(1);
    net.start();
    let (c, _) = net.count_command();
    net.on_count_reply(Some((c, 0)));
    assert_eq!(net.wait(), Some(Ok(())));

    let mut net = NetworkInitializer::new(1);
    net.start();
    net.on_count_reply(Some((c, 3)));
    net.on_slave_result(Ok(SlaveInfo::default()));
    net.on_slave_result(Ok(SlaveInfo::default()));
    assert_eq!(net.wait(), Some(Err(EcError::TaskSpecific(NetworkInitializerError::TooManySlaves))));
    assert_eq!(net.slaves.len(), 1);

    let mut net = NetworkInitializer::new(4);
    net.start();
    net.on_count_reply(Some((c, 3)));
    net.on_slave_result(Err(EcError::TaskSpecific(SlaveInitError::FailedToLoadEEPROM)));
    assert_eq!(
        net.wait(),
        Some(Err(EcError::TaskSpecific(NetworkInitializerError::Init(EcError::TaskSpecific(
            SlaveInitError::FailedToLoadEEPROM
        )))))
    );
}
