//! Where a slave's process data goes: the free RAM around its mailbox sync
//! managers, the byte size of its PDO maps, and the object dictionary writes
//! that assign PDO maps and entries to a sync manager.
use crate::register::{SyncManagerActivation, SyncManagerControl};
use crate::sync_mode::{ConfigErrorKind, SdoError};
use vstd::prelude::*;

verus! {

/// Start of a slave's process data RAM.
pub const PROCESS_DATA_RAM_START: u16 = 0x1000;

/// The larger of two values.
pub open spec fn max_int(a: int, b: int) -> int {
    if a < b {
        b
    } else {
        a
    }
}

/// The smaller of two values.
pub open spec fn min_int(a: int, b: int) -> int {
    if a < b {
        a
    } else {
        b
    }
}

/// The free RAM before the mailboxes, which start at `start`.
pub open spec fn ram_before(start: int) -> int {
    if start > 0x1000 {
        start - 0x1000
    } else {
        0
    }
}

/// The last byte of the mailboxes, at `(a0, s0)` and `(a1, s1)`.
pub open spec fn mailbox_end(a0: int, s0: int, a1: int, s1: int) -> int {
    max_int(a0 + s0 - 1, a1 + s1 - 1)
}

/// The free RAM after the mailboxes up to the last byte of `kb` kilobytes.
pub open spec fn ram_after(a0: int, s0: int, a1: int, s1: int, kb: int) -> int {
    let end = kb * 0x0400 - 1;
    let sm_end = mailbox_end(a0, s0, a1, s1);
    if end > sm_end {
        end - sm_end
    } else {
        0
    }
}

/// The process data RAM of a slave with mailbox sync managers at `(a0, s0)`
/// and `(a1, s1)` and `kb` kilobytes of RAM: the larger free block, before
/// the mailboxes (from 0x1000) or after them; its start and size.
pub open spec fn process_data_ram(a0: int, s0: int, a1: int, s1: int, kb: int) -> (int, int) {
    let before = ram_before(min_int(a0, a1));
    let after = ram_after(a0, s0, a1, s1, kb);
    if before > after {
        (0x1000, before)
    } else {
        (mailbox_end(a0, s0, a1, s1) + 1, after)
    }
}

/// The inputs on which the 16-bit address arithmetic stays in range: each
/// mailbox has a last byte below the top of the address space, and the RAM
/// has a last byte below 64 kB.
pub open spec fn process_data_ram_ok(a0: u16, s0: u16, a1: u16, s1: u16, kb: u8) -> bool {
    &&& 1 <= a0 + s0 <= 0xFFFF
    &&& 1 <= a1 + s1 <= 0xFFFF
    &&& 1 <= kb < 64
}

/// The first of a pair that is there (a start address).
pub open spec fn first_of(p: Option<(u16, u16)>) -> u16 {
    match p {
        Some((a, _)) => a,
        None => 0,
    }
}

/// The second of a pair that is there (a size).
pub open spec fn second_of(p: Option<(u16, u16)>) -> u16 {
    match p {
        Some((_, b)) => b,
        None => 0,
    }
}

/// Places the process data of a slave whose mailbox sync managers are
/// `sm0` (receive) and `sm1` (send), each a start address and a size, in a
/// RAM of `ram_size_kb` kilobytes: the start address and size of the block,
/// or `None` where the slave lacks either mailbox.
pub fn set_process_data_sm_size_offset(sm0: Option<(u16, u16)>, sm1: Option<(u16, u16)>, ram_size_kb: u8) -> (r:
    Option<(u16, u16)>)
    requires
        sm0 is Some && sm1 is Some ==> process_data_ram_ok(
            first_of(sm0),
            second_of(sm0),
            first_of(sm1),
            second_of(sm1),
            ram_size_kb,
        ),
    ensures
        (sm0 is None || sm1 is None) ==> r is None,
        sm0 is Some && sm1 is Some ==> r is Some && (first_of(r) as int, second_of(r) as int) == process_data_ram(
            first_of(sm0) as int,
            second_of(sm0) as int,
            first_of(sm1) as int,
            second_of(sm1) as int,
            ram_size_kb as int,
        ),
{
    match (sm0, sm1) {
        (Some((sm_address0, sm_size0)), Some((sm_address1, sm_size1))) => {
            let sm_start_address = if sm_address0 < sm_address1 {
                sm_address0
            } else {
                sm_address1
            };
            let size1 = if sm_start_address > PROCESS_DATA_RAM_START {
                sm_start_address - PROCESS_DATA_RAM_START
            } else {
                0
            };
            let end0 = sm_address0 + sm_size0 - 1;
            let end1 = sm_address1 + sm_size1 - 1;
            let sm_end_address = if end0 < end1 {
                end1
            } else {
                end0
            };
            let end_address = ram_size_kb as u16 * 0x0400 - 1;
            let size2 = if end_address > sm_end_address {
                end_address - sm_end_address
            } else {
                0
            };
            if size1 > size2 {
                Some((PROCESS_DATA_RAM_START, size1))
            } else {
                Some((sm_end_address + 1, size2))
            }
        },
        _ => None,
    }
}

/// A process data object of a PDO map: its object index and subindex, and
/// its length in bits.
#[derive(Debug, Clone, Copy)]
pub struct PdoEntryConfig {
    pub index: u16,
    pub sub_index: u8,
    pub bit_length: u8,
}

impl PdoEntryConfig {
    /// Whole bytes the entry takes.
    pub open spec fn byte_length_spec(self) -> int {
        (self.bit_length as int + 7) / 8
    }

    pub fn byte_length(&self) -> (r: u16)
        ensures
            r == self.byte_length_spec(),
    {
        (self.bit_length as u16 + 7) / 8
    }
}

/// A PDO map: whether its entries are fixed, its object index, and its
/// entries.
#[derive(Debug, Clone)]
pub struct PdoMappingConfig {
    pub is_fixed: bool,
    pub index: u16,
    pub entries: Vec<PdoEntryConfig>,
}

/// Where a configuration write goes: an object of the object dictionary,
/// or a register.
#[derive(Debug, Clone, Copy, PartialEq, Eq, Structural)]
pub enum WriteTarget {
    Sdo { index: u16, sub_index: u8 },
    Register { address: u16 },
}

/// One configuration write: where, and the bytes.
#[derive(Debug, Clone)]
pub struct ConfigWrite {
    pub target: WriteTarget,
    pub role: WriteRole,
    pub data: Vec<u8>,
}

/// What a configuration write does, which names the error of its failure.
#[derive(Debug, Clone, Copy, PartialEq, Eq, Structural)]
pub enum WriteRole {
    ClearPdoMappings,
    AssignPdoMapToSyncManager,
    ClearPdoEntries,
    AssignPdoEntryToPdoMap,
    SetNumberOfPdoEntries,
    SetNumberOfPdoMappings,
    /// A sync manager register, whose failure the configuration does not
    /// name.
    SyncManagerSetting,
}

/// A write as a target, a role and bytes.
pub struct WriteModel {
    pub target: WriteTarget,
    pub role: WriteRole,
    pub data: Seq<u8>,
}

impl View for ConfigWrite {
    type V = WriteModel;

    open spec fn view(&self) -> WriteModel {
        WriteModel { target: self.target, role: self.role, data: self.data@ }
    }
}

/// The writes as models.
pub open spec fn writes_view(w: Seq<ConfigWrite>) -> Seq<WriteModel> {
    w.map_values(|x: ConfigWrite| x@)
}

pub open spec fn sdo(role: WriteRole, index: u16, sub_index: u8, data: Seq<u8>) -> WriteModel {
    WriteModel { target: WriteTarget::Sdo { index, sub_index }, role, data }
}

/// The error that the failure of a write with `role` to `target` is
/// reported as; none for a sync manager register.
pub open spec fn write_failure_spec(target: WriteTarget, role: WriteRole) -> Option<ConfigErrorKind> {
    match target {
        WriteTarget::Sdo { index, sub_index } => {
            let e = SdoError { index, sub_index };
            match role {
                WriteRole::ClearPdoMappings => Some(ConfigErrorKind::ClearPdoMappings(e)),
                WriteRole::AssignPdoMapToSyncManager => Some(ConfigErrorKind::AssignPdoMapToSyncManager(e)),
                WriteRole::ClearPdoEntries => Some(ConfigErrorKind::ClearPdoEntries(e)),
                WriteRole::AssignPdoEntryToPdoMap => Some(ConfigErrorKind::AssignPdoEntryToPdoMap(e)),
                WriteRole::SetNumberOfPdoEntries => Some(ConfigErrorKind::SetNumberOfPdoEntries(e)),
                WriteRole::SetNumberOfPdoMappings => Some(ConfigErrorKind::SetNumberOfPdoMappings(e)),
                WriteRole::SyncManagerSetting => None,
            }
        },
        WriteTarget::Register { .. } => None,
    }
}

impl ConfigWrite {
    /// The error that the failure of this write is reported as.
    pub fn failure(&self) -> (r: Option<ConfigErrorKind>)
        ensures
            r == write_failure_spec(self.target, self.role),
    {
        match self.target {
            WriteTarget::Sdo { index, sub_index } => {
                let e = SdoError { index, sub_index };
                match self.role {
                    WriteRole::ClearPdoMappings => Some(ConfigErrorKind::ClearPdoMappings(e)),
                    WriteRole::AssignPdoMapToSyncManager => Some(ConfigErrorKind::AssignPdoMapToSyncManager(e)),
                    WriteRole::ClearPdoEntries => Some(ConfigErrorKind::ClearPdoEntries(e)),
                    WriteRole::AssignPdoEntryToPdoMap => Some(ConfigErrorKind::AssignPdoEntryToPdoMap(e)),
                    WriteRole::SetNumberOfPdoEntries => Some(ConfigErrorKind::SetNumberOfPdoEntries(e)),
                    WriteRole::SetNumberOfPdoMappings => Some(ConfigErrorKind::SetNumberOfPdoMappings(e)),
                    WriteRole::SyncManagerSetting => None,
                }
            },
            WriteTarget::Register { .. } => None,
        }
    }
}

/// The mapping word of an entry, as its four little-endian bytes: bit
/// length, subindex, index.
pub open spec fn entry_word(e: PdoEntryConfig) -> Seq<u8> {
    seq![e.bit_length, e.sub_index, (e.index % 256) as u8, (e.index / 256) as u8]
}

/// The bits that pad an entry to whole bytes.
pub open spec fn padding_bits(e: PdoEntryConfig) -> int {
    e.byte_length_spec() * 8 - e.bit_length
}

/// The writes that assign the entries `es[k..]` of the PDO map `map`, the
/// first at entry number `ei + 1`: each entry's word, then a padding entry
/// where it does not fill whole bytes. Also the last entry number and the
/// bytes the entries take.
pub open spec fn entry_writes(map: u16, es: Seq<PdoEntryConfig>, k: int, ei: int) -> (Seq<WriteModel>, int, int)
    decreases es.len() - k,
{
    if k >= es.len() || k < 0 {
        (Seq::empty(), ei, 0)
    } else {
        let e = es[k];
        let w1 = seq![sdo(WriteRole::AssignPdoEntryToPdoMap, map, (ei + 1) as u8, entry_word(e))];
        let (w, ei1) = if padding_bits(e) != 0 {
            (w1.push(sdo(WriteRole::AssignPdoEntryToPdoMap, map, (ei + 2) as u8, seq![padding_bits(e) as u8, 0u8, 0u8, 0u8])), ei + 2)
        } else {
            (w1, ei + 1)
        };
        let rest = entry_writes(map, es, k + 1, ei1);
        (w + rest.0, rest.1, e.byte_length_spec() + rest.2)
    }
}

/// The writes of the PDO maps `ms[k..]` for the assignment object `assign`,
/// the first non-empty map at number `mi + 1`: the map's index; for a map
/// that is not fixed, clearing it, its entries and its entry count. Maps
/// without entries are passed over. Also the last map number and the bytes
/// of the entries written.
pub open spec fn mapping_writes(assign: u16, ms: Seq<PdoMappingConfig>, k: int, mi: int) -> (Seq<WriteModel>, int, int)
    decreases ms.len() - k,
{
    if k >= ms.len() || k < 0 {
        (Seq::empty(), mi, 0)
    } else {
        let m = ms[k];
        if m.entries@.len() == 0 {
            mapping_writes(assign, ms, k + 1, mi)
        } else {
            let head = seq![sdo(WriteRole::AssignPdoMapToSyncManager, assign, (mi + 1) as u8, seq![(m.index % 256) as u8, (m.index / 256) as u8])];
            let rest = mapping_writes(assign, ms, k + 1, mi + 1);
            if m.is_fixed {
                (head + rest.0, rest.1, rest.2)
            } else {
                let ew = entry_writes(m.index, m.entries@, 0, 0);
                let own = head + seq![sdo(WriteRole::ClearPdoEntries, m.index, 0, seq![0u8])] + ew.0 + seq![sdo(WriteRole::SetNumberOfPdoEntries, m.index, 0, seq![ew.1 as u8])];
                (own + rest.0, rest.1, ew.2 + rest.2)
            }
        }
    }
}

/// Entry numbers of every map and the number of maps fit a byte, the bits
/// of the maps fit 16 bits, and their bytes, three times over, fit after
/// `start`.
pub open spec fn mappings_fit(assign: u16, ms: Seq<PdoMappingConfig>, start: int) -> bool {
    let r = mapping_writes(assign, ms, 0, 0);
    &&& r.1 <= 255
    &&& forall|k: int| 0 <= k < ms.len() ==> entry_writes(#[trigger] ms[k].index, ms[k].entries@, 0, 0).1 <= 255
    &&& start + 3 * r.2 <= 0xFFFF
    &&& 8 * r.2 <= 0xFFFF
}

/// The entry writes never lower the entry number nor take negative bytes.
proof fn lemma_entry_writes_grow(map: u16, es: Seq<PdoEntryConfig>, k: int, ei: int)
    requires
        0 <= k,
    ensures
        entry_writes(map, es, k, ei).1 >= ei,
        entry_writes(map, es, k, ei).2 >= 0,
    decreases es.len() - k,
{
    if k < es.len() {
        let e = es[k];
        let ei1 = if padding_bits(e) != 0 {
            ei + 2
        } else {
            ei + 1
        };
        lemma_entry_writes_grow(map, es, k + 1, ei1);
    }
}

/// The map writes never lower the map number nor take negative bytes.
proof fn lemma_mapping_writes_grow(assign: u16, ms: Seq<PdoMappingConfig>, k: int, mi: int)
    requires
        0 <= k,
    ensures
        mapping_writes(assign, ms, k, mi).1 >= mi,
        mapping_writes(assign, ms, k, mi).2 >= 0,
    decreases ms.len() - k,
{
    if k < ms.len() {
        let m = ms[k];
        if m.entries@.len() == 0 {
            lemma_mapping_writes_grow(assign, ms, k + 1, mi);
        } else {
            lemma_mapping_writes_grow(assign, ms, k + 1, mi + 1);
            lemma_entry_writes_grow(m.index, m.entries@, 0, 0);
        }
    }
}

fn sdo_write(role: WriteRole, index: u16, sub_index: u8, data: Vec<u8>) -> (r: ConfigWrite)
    ensures
        r@ == sdo(role, index, sub_index, data@),
{
    ConfigWrite { target: WriteTarget::Sdo { index, sub_index }, role, data }
}

/// Appends the writes that assign the entries `es` to the PDO map `map`;
/// gives the number of the last entry and the bytes of the entries.
fn push_entry_writes(map: u16, es: &Vec<PdoEntryConfig>, out: &mut Vec<ConfigWrite>) -> (r: (u8, u16))
    requires
        entry_writes(map, es@, 0, 0).1 <= 255,
        entry_writes(map, es@, 0, 0).2 <= 0xFFFF,
    ensures
        writes_view(final(out)@) == writes_view(old(out)@) + entry_writes(map, es@, 0, 0).0,
        r.0 == entry_writes(map, es@, 0, 0).1,
        r.1 == entry_writes(map, es@, 0, 0).2,
{
    let ghost total = entry_writes(map, es@, 0, 0);
    let mut ei: u8 = 0;
    let mut size: u16 = 0;
    let mut k: usize = 0;
    while k < es.len()
        invariant
            k <= es.len(),
            total == entry_writes(map, es@, 0, 0),
            total.1 <= 255,
            total.2 <= 0xFFFF,
            writes_view(out@) + entry_writes(map, es@, k as int, ei as int).0 == writes_view(old(out)@) + total.0,
            entry_writes(map, es@, k as int, ei as int).1 == total.1,
            size + entry_writes(map, es@, k as int, ei as int).2 == total.2,
        decreases es.len() - k,
    {
        let e = es[k];
        let ghost before = out@;
        let ghost ei0 = ei as int;
        let bits = e.byte_length() * 8 - e.bit_length as u16;
        let ghost ei1: int = if padding_bits(e) != 0 {
            ei0 + 2
        } else {
            ei0 + 1
        };
        proof {
            lemma_entry_writes_grow(map, es@, k as int + 1, ei1);
        }
        let word = vec![e.bit_length, e.sub_index, (e.index % 256) as u8, (e.index / 256) as u8];
        assert(word@ =~= entry_word(e));
        out.push(sdo_write(WriteRole::AssignPdoEntryToPdoMap, map, ei + 1, word));
        if bits != 0 {
            let pad = vec![bits as u8, 0u8, 0u8, 0u8];
            out.push(sdo_write(WriteRole::AssignPdoEntryToPdoMap, map, ei + 2, pad));
            ei = ei + 2;
        } else {
            ei = ei + 1;
        }
        size = size + e.byte_length();
        proof {
            let rest = entry_writes(map, es@, k as int + 1, ei1);
            let w1 = seq![sdo(WriteRole::AssignPdoEntryToPdoMap, map, (ei0 + 1) as u8, entry_word(e))];
            let w = if padding_bits(e) != 0 {
                w1.push(sdo(WriteRole::AssignPdoEntryToPdoMap, map, (ei0 + 2) as u8, seq![padding_bits(e) as u8, 0u8, 0u8, 0u8]))
            } else {
                w1
            };
            assert(entry_writes(map, es@, k as int, ei0).0 == w + rest.0);
            assert(writes_view(out@) =~= writes_view(before) + w);
            assert(writes_view(before) + w + rest.0 =~= writes_view(before) + (w + rest.0));
        }
        k = k + 1;
    }
    (ei, size)
}

/// Appends the writes of the PDO maps `ms` for the assignment object
/// `assign`; gives the number of the last map and the bytes of the maps.
fn push_mapping_writes(assign: u16, ms: &Vec<PdoMappingConfig>, out: &mut Vec<ConfigWrite>) -> (r: (u8, u16))
    requires
        mappings_fit(assign, ms@, 0),
    ensures
        writes_view(final(out)@) == writes_view(old(out)@) + mapping_writes(assign, ms@, 0, 0).0,
        r.0 == mapping_writes(assign, ms@, 0, 0).1,
        r.1 == mapping_writes(assign, ms@, 0, 0).2,
{
    let ghost total = mapping_writes(assign, ms@, 0, 0);
    let mut mi: u8 = 0;
    let mut size: u16 = 0;
    let mut k: usize = 0;
    while k < ms.len()
        invariant
            k <= ms.len(),
            total == mapping_writes(assign, ms@, 0, 0),
            mappings_fit(assign, ms@, 0),
            writes_view(out@) + mapping_writes(assign, ms@, k as int, mi as int).0 == writes_view(old(out)@)
                + total.0,
            mapping_writes(assign, ms@, k as int, mi as int).1 == total.1,
            size + mapping_writes(assign, ms@, k as int, mi as int).2 == total.2,
        decreases ms.len() - k,
    {
        let m = &ms[k];
        let ghost before = out@;
        let ghost mi0 = mi as int;
        if m.entries.len() == 0 {
            k = k + 1;
            continue;
        }
        proof {
            lemma_mapping_writes_grow(assign, ms@, k as int + 1, mi0 + 1);
            lemma_entry_writes_grow(m.index, m.entries@, 0, 0);
        }
        let idx = vec![(m.index % 256) as u8, (m.index / 256) as u8];
        assert(idx@ =~= seq![(m.index % 256) as u8, (m.index / 256) as u8]);
        out.push(sdo_write(WriteRole::AssignPdoMapToSyncManager, assign, mi + 1, idx));
        mi = mi + 1;
        let ghost after_head = out@;
        if !m.is_fixed {
            let clear = vec![0u8];
            assert(clear@ =~= seq![0u8]);
            out.push(sdo_write(WriteRole::ClearPdoEntries, m.index, 0, clear));
            let ghost after_clear = out@;
            let (ei, esize) = push_entry_writes(m.index, &m.entries, out);
            let ghost after_entries = out@;
            let count = vec![ei];
            out.push(sdo_write(WriteRole::SetNumberOfPdoEntries, m.index, 0, count));
            size = size + esize;
            proof {
                let ew = entry_writes(m.index, m.entries@, 0, 0);
                assert(count@ =~= seq![ew.1 as u8]);
                assert(writes_view(after_clear) =~= writes_view(after_head) + seq![sdo(WriteRole::ClearPdoEntries, m.index, 0, seq![0u8])]);
                assert(writes_view(out@) =~= writes_view(after_entries) + seq![sdo(WriteRole::SetNumberOfPdoEntries, m.index, 0, seq![ew.1 as u8])]);
            }
        }
        proof {
            let rest = mapping_writes(assign, ms@, k as int + 1, mi0 + 1);
            let head = seq![sdo(WriteRole::AssignPdoMapToSyncManager, assign, (mi0 + 1) as u8, seq![(m.index % 256) as u8, (m.index / 256) as u8])];
            if m.is_fixed {
                assert(writes_view(out@) =~= writes_view(before) + head);
                assert(writes_view(before) + head + rest.0 =~= writes_view(before) + (head + rest.0));
            } else {
                let ew = entry_writes(m.index, m.entries@, 0, 0);
                let own = head + seq![sdo(WriteRole::ClearPdoEntries, m.index, 0, seq![0u8])] + ew.0 + seq![sdo(WriteRole::SetNumberOfPdoEntries, m.index, 0, seq![ew.1 as u8])];
                assert(writes_view(out@) =~= writes_view(before) + own);
                assert(writes_view(before) + own + rest.0 =~= writes_view(before) + (own + rest.0));
            }
        }
        k = k + 1;
    }
    (mi, size)
}

/// An FMMU to set up for a sync manager: the physical start address, the
/// length in bits, and whether it carries outputs.
#[derive(Debug, Clone, Copy, PartialEq, Eq, Structural)]
pub struct FmmuAssignment {
    pub start_address: u16,
    pub bit_length: u16,
    pub is_output: bool,
}

/// The configuration of a process data sync manager: the writes to make in
/// order (the first that fails ends the configuration), the FMMU to set up,
/// and the RAM address after the sync manager's three buffers.
#[derive(Debug)]
pub struct SmPdoPlan {
    pub writes: Vec<ConfigWrite>,
    pub fmmu: Option<FmmuAssignment>,
    pub next_ram_address: u16,
}

pub open spec fn reg(address: int, data: Seq<u8>) -> WriteModel {
    WriteModel { target: WriteTarget::Register { address: address as u16 }, role: WriteRole::SyncManagerSetting, data }
}

/// The writes that assign the PDO maps `ms` to sync manager `sm`, whose
/// buffer starts at `start`: clear the assignment, write the maps, count
/// them, then set the sync manager's channel (buffered, with the maps'
/// length) and enable it where the maps have data.
pub open spec fn sm_pdo_writes(sm: u8, ms: Seq<PdoMappingConfig>, is_output: bool, start: u16) -> Seq<WriteModel> {
    let assign = (0x1C10 + sm) as u16;
    let r = mapping_writes(assign, ms, 0, 0);
    seq![sdo(WriteRole::ClearPdoMappings, assign, 0, seq![0u8])] + r.0 + seq![
        sdo(WriteRole::SetNumberOfPdoMappings, assign, 0, seq![r.1 as u8]),
        reg(
            SyncManagerControl::ADDRESS + 8 * sm,
            SyncManagerControl::buffered_spec(start, r.2 as u16, is_output),
        ),
        reg(
            SyncManagerActivation::ADDRESS + 8 * sm,
            seq![
                if r.2 != 0 {
                    1u8
                } else {
                    0u8
                },
            ],
        ),
    ]
}

/// Plans the assignment of the PDO maps `pdo_mappings` to the process data
/// sync manager `sm_number` (outputs where `is_output`), whose buffers start
/// at `start_ram_address`. Where the slave has no such sync manager or no
/// maps are given, nothing is written and the RAM address stays.
pub fn set_pdo_mappings_to_sm_utility(
    sm_number: Option<u8>,
    pdo_mappings: Option<&Vec<PdoMappingConfig>>,
    is_output: bool,
    start_ram_address: u16,
) -> (r: SmPdoPlan)
    requires
        sm_number is Some && pdo_mappings is Some ==> mappings_fit(
            (0x1C10 + sm_number->0) as u16,
            pdo_mappings->0@,
            start_ram_address as int,
        ),
    ensures
        sm_number is Some && pdo_mappings is Some ==> {
            let sm = sm_number->0;
            let ms = pdo_mappings->0;
            let size = mapping_writes((0x1C10 + sm) as u16, ms@, 0, 0).2;
            &&& writes_view(r.writes@) == sm_pdo_writes(sm, ms@, is_output, start_ram_address)
            &&& r.fmmu == Some(
                FmmuAssignment { start_address: start_ram_address, bit_length: (8 * size) as u16, is_output },
            )
            &&& r.next_ram_address == start_ram_address + 3 * size
        },
        !(sm_number is Some && pdo_mappings is Some) ==> r.writes@.len() == 0 && r.fmmu is None
            && r.next_ram_address == start_ram_address,
{
    let mut writes: Vec<ConfigWrite> = Vec::new();
    match (sm_number, pdo_mappings) {
        (Some(sm), Some(ms)) => {
            let assign = 0x1C10 + sm as u16;
            proof {
                lemma_mapping_writes_grow(assign, ms@, 0, 0);
            }
            let clear = vec![0u8];
            assert(clear@ =~= seq![0u8]);
            writes.push(sdo_write(WriteRole::ClearPdoMappings, assign, 0, clear));
            let ghost w0 = writes@;
            let (count, size) = push_mapping_writes(assign, ms, &mut writes);
            let ghost w1 = writes@;
            let n = vec![count];
            writes.push(sdo_write(WriteRole::SetNumberOfPdoMappings, assign, 0, n));
            let control = SyncManagerControl::buffered(start_ram_address, size, is_output);
            writes.push(
                ConfigWrite {
                    role: WriteRole::SyncManagerSetting,
                    target: WriteTarget::Register { address: SyncManagerControl::ADDRESS + 8 * sm as u16 },
                    data: control,
                },
            );
            let enable: u8 = if size != 0 {
                1
            } else {
                0
            };
            let en = vec![enable];
            writes.push(
                ConfigWrite {
                    role: WriteRole::SyncManagerSetting,
                    target: WriteTarget::Register { address: SyncManagerActivation::ADDRESS + 8 * sm as u16 },
                    data: en,
                },
            );
            proof {
                let r = mapping_writes(assign, ms@, 0, 0);
                assert(writes_view(w0) =~= seq![sdo(WriteRole::ClearPdoMappings, assign, 0, seq![0u8])]);
                assert(n@ =~= seq![r.1 as u8]);
                assert(en@ =~= seq![if r.2 != 0 { 1u8 } else { 0u8 }]);
                let tail = seq![
                    sdo(WriteRole::SetNumberOfPdoMappings, assign, 0, seq![r.1 as u8]),
                    reg(
                        SyncManagerControl::ADDRESS + 8 * sm,
                        SyncManagerControl::buffered_spec(start_ram_address, r.2 as u16, is_output),
                    ),
                    reg(SyncManagerActivation::ADDRESS + 8 * sm, seq![if r.2 != 0 { 1u8 } else { 0u8 }]),
                ];
                assert(writes_view(writes@) =~= writes_view(w1) + tail);
                assert(writes_view(w1) == writes_view(w0) + r.0);
                assert(writes_view(writes@) =~= sm_pdo_writes(sm, ms@, is_output, start_ram_address));
            }
            SmPdoPlan {
                writes,
                fmmu: Some(FmmuAssignment { start_address: start_ram_address, bit_length: size * 8, is_output }),
                next_ram_address: start_ram_address + size * 3,
            }
        },
        _ => SmPdoPlan { writes, fmmu: None, next_ram_address: start_ram_address },
    }
}

/// Whole bytes of `bits` bits, cut to 16 bits.
pub open spec fn pdo_sm_size_spec(bits: u32) -> u16 {
    let q = bits as int / 8;
    (if bits as int % 8 == 0 {
        q
    } else {
        q + 1
    }) as u16
}

/// The byte size of PDO maps of `bit_length` bits in all, cut to 16 bits.
pub fn pdo_sm_size(bit_length: u32) -> (r: u16)
    ensures
        r == pdo_sm_size_spec(bit_length),
{
    assert(bit_length >> 3 == bit_length / 8) by (bit_vector);
    let size = if bit_length % 8 == 0 {
        bit_length >> 3
    } else {
        (bit_length >> 3) + 1
    };
    size as u16
}

/// Where the reading of a sync manager's PDO maps from the object
/// dictionary stands: the number of sync manager channels, the sync
/// manager's type, the number of maps, a map's address, its number of
/// entries, one entry; or done.
#[derive(Debug, Clone, Copy, PartialEq, Eq, Structural)]
pub enum PdoReadStep {
    SmCount,
    SmType,
    MapCount,
    MapAddress { map: u8, maps: u8 },
    EntryCount { map: u8, maps: u8, address: u16 },
    Entry { map: u8, maps: u8, address: u16, entry: u8, entries: u8 },
    Ready,
}

/// Reads the PDO maps assigned to the process data sync manager of one
/// direction from the object dictionary, one object per reply, and sums
/// their entries' bit lengths.
#[derive(Debug, Clone, Copy, PartialEq, Eq, Structural)]
pub struct PdoSmReader {
    pub is_output: bool,
    pub sm_number: Option<u8>,
    pub start_ram_address: u16,
    pub step: PdoReadStep,
    pub bit_length: u32,
}

/// The object that the reader reads next: index and subindex.
pub open spec fn pdo_read_target(r: PdoSmReader) -> Option<(u16, u8)> {
    let (assign, sm_type) = match r.sm_number {
        Some(sm) => ((0x1C10 + sm) as u16, (sm + 1) as u8),
        None => (0x1C10u16, 1u8),
    };
    match r.step {
        PdoReadStep::SmCount => Some((0x1C00u16, 0u8)),
        PdoReadStep::SmType => Some((0x1C00u16, sm_type)),
        PdoReadStep::MapCount => Some((assign, 0u8)),
        PdoReadStep::MapAddress { map, .. } => Some((assign, map)),
        PdoReadStep::EntryCount { address, .. } => Some((address, 0u8)),
        PdoReadStep::Entry { address, entry, .. } => Some((address, entry)),
        PdoReadStep::Ready => None,
    }
}

/// What a failed read of the current step is reported as: the read's
/// object and subindex, under the kind of that read.
pub open spec fn pdo_read_error(r: PdoSmReader) -> ConfigErrorKind {
    let (index, sub_index) = pdo_read_target(r)->0;
    let e = SdoError { index, sub_index };
    match r.step {
        PdoReadStep::SmCount => ConfigErrorKind::GetNumberOfSyncManagerChannel(e),
        PdoReadStep::SmType => ConfigErrorKind::GetSyncManagerCommunicationType(e),
        PdoReadStep::MapCount => ConfigErrorKind::GetNumberOfPdoMappings(e),
        PdoReadStep::MapAddress { .. } => ConfigErrorKind::GetPdoMappingAddress(e),
        PdoReadStep::EntryCount { .. } => ConfigErrorKind::GetNumberOfPdoEntries(e),
        _ => ConfigErrorKind::GetPdoEntrtyAddress(e),
    }
}

/// The step after map `map` of `maps`: the next map's address, or done.
pub open spec fn next_map(map: u8, maps: u8) -> PdoReadStep {
    if map < maps {
        PdoReadStep::MapAddress { map: (map + 1) as u8, maps }
    } else {
        PdoReadStep::Ready
    }
}

/// What a reply to the current read must hold: enough bytes, at least four
/// sync manager channels, and a sync manager type that the direction has
/// (none, or outputs or inputs).
pub open spec fn pdo_reply_ok(r: PdoSmReader, reply: Seq<u8>) -> bool {
    match r.step {
        PdoReadStep::SmCount => reply.len() >= 1 && reply[0] >= 4,
        PdoReadStep::SmType => reply.len() >= 1 && (reply[0] == 0 || reply[0] == if r.is_output {
            3u8
        } else {
            4u8
        }),
        PdoReadStep::MapAddress { .. } => reply.len() >= 2,
        PdoReadStep::Ready => true,
        _ => reply.len() >= 1,
    }
}

/// The reader after the reply to its current read.
pub open spec fn pdo_read_step(r: PdoSmReader, reply: Seq<u8>) -> PdoSmReader {
    match r.step {
        PdoReadStep::SmCount => PdoSmReader {
            step: if r.sm_number is Some {
                PdoReadStep::SmType
            } else {
                PdoReadStep::Ready
            },
            ..r
        },
        PdoReadStep::SmType => PdoSmReader {
            step: if reply[0] == 0 {
                PdoReadStep::Ready
            } else {
                PdoReadStep::MapCount
            },
            ..r
        },
        PdoReadStep::MapCount => PdoSmReader {
            step: if reply[0] == 0 {
                PdoReadStep::Ready
            } else {
                PdoReadStep::MapAddress { map: 1, maps: reply[0] }
            },
            ..r
        },
        PdoReadStep::MapAddress { map, maps } => PdoSmReader {
            step: PdoReadStep::EntryCount { map, maps, address: (reply[0] + 256 * reply[1]) as u16 },
            ..r
        },
        PdoReadStep::EntryCount { map, maps, address } => PdoSmReader {
            step: if reply[0] == 0 {
                next_map(map, maps)
            } else {
                PdoReadStep::Entry { map, maps, address, entry: 1, entries: reply[0] }
            },
            ..r
        },
        PdoReadStep::Entry { map, maps, address, entry, entries } => PdoSmReader {
            bit_length: (r.bit_length + reply[0]) as u32,
            step: if entry < entries {
                PdoReadStep::Entry { map, maps, address, entry: (entry + 1) as u8, entries }
            } else {
                next_map(map, maps)
            },
            ..r
        },
        PdoReadStep::Ready => r,
    }
}

/// The entries counted so far leave room for every entry still to come.
pub open spec fn pdo_bits_room(r: PdoSmReader) -> bool {
    r.bit_length as int + 255 * 255 * 255 <= u32::MAX
}

impl PdoSmReader {
    /// Starts reading the maps of sync manager `sm_number` (none where the
    /// slave has no process data sync manager in this direction), whose
    /// buffers are to start at `start_ram_address`.
    pub fn new(is_output: bool, sm_number: Option<u8>, start_ram_address: u16) -> (r: Self)
        ensures
            r == (PdoSmReader { is_output, sm_number, start_ram_address, step: PdoReadStep::SmCount, bit_length: 0 }),
    {
        PdoSmReader { is_output, sm_number, start_ram_address, step: PdoReadStep::SmCount, bit_length: 0 }
    }

    /// The object to read next: index and subindex; `None` once done.
    pub fn next_read(&self) -> (r: Option<(u16, u8)>)
        requires
            self.sm_number matches Some(sm) ==> sm < 255,
        ensures
            r == pdo_read_target(*self),
    {
        let assign = match self.sm_number {
            Some(sm) => 0x1C10 + sm as u16,
            None => 0x1C10,
        };
        match self.step {
            PdoReadStep::SmCount => Some((0x1C00, 0)),
            PdoReadStep::SmType => Some(
                (
                    0x1C00,
                    match self.sm_number {
                        Some(sm) => sm + 1,
                        None => 1,
                    },
                ),
            ),
            PdoReadStep::MapCount => Some((assign, 0)),
            PdoReadStep::MapAddress { map, .. } => Some((assign, map)),
            PdoReadStep::EntryCount { address, .. } => Some((address, 0)),
            PdoReadStep::Entry { address, entry, .. } => Some((address, entry)),
            PdoReadStep::Ready => None,
        }
    }

    /// Whether `reply` can be handed to `on_reply`: long enough for what
    /// the read takes, a slave with the sync managers it counts, and a sync
    /// manager of the expected kind.
    pub fn accepts(&self, reply: &[u8]) -> (r: bool)
        ensures
            r == pdo_reply_ok(*self, reply@),
    {
        match self.step {
            PdoReadStep::SmCount => reply.len() >= 1 && reply[0] >= 4,
            PdoReadStep::SmType => reply.len() >= 1 && (reply[0] == 0 || reply[0] == if self.is_output {
                3u8
            } else {
                4u8
            }),
            PdoReadStep::MapAddress { .. } => reply.len() >= 2,
            PdoReadStep::Ready => true,
            _ => reply.len() >= 1,
        }
    }

    /// Whether the bits summed so far leave room for the entries of a
    /// whole further map.
    pub fn has_bits_room(&self) -> (r: bool)
        ensures
            r == pdo_bits_room(*self),
    {
        self.bit_length <= u32::MAX - 255 * 255 * 255
    }

    /// Takes the outcome of the current read: the data read, or `None`
    /// where the read failed, which ends the reading with the error of that
    /// read and leaves the reader as it was.
    pub fn on_reply(&mut self, reply: Option<&[u8]>) -> (r: Result<(), ConfigErrorKind>)
        requires
            old(self).sm_number matches Some(sm) ==> sm < 255,
            reply matches Some(data) ==> pdo_reply_ok(*old(self), data@),
            pdo_bits_room(*old(self)),
        ensures
            reply matches Some(data) ==> r is Ok && *final(self) == pdo_read_step(*old(self), data@),
            reply is None ==> *final(self) == *old(self) && (old(self).step == PdoReadStep::Ready ==> r is Ok)
                && (old(self).step != PdoReadStep::Ready ==> r == Err::<(), ConfigErrorKind>(
                pdo_read_error(*old(self)),
            )),
    {
        match reply {
            Some(data) => {
                self.take_reply(data);
                Ok(())
            },
            None => match self.next_read() {
                None => Ok(()),
                Some((index, sub_index)) => {
                    let e = SdoError { index, sub_index };
                    Err(
                        match self.step {
                            PdoReadStep::SmCount => ConfigErrorKind::GetNumberOfSyncManagerChannel(e),
                            PdoReadStep::SmType => ConfigErrorKind::GetSyncManagerCommunicationType(e),
                            PdoReadStep::MapCount => ConfigErrorKind::GetNumberOfPdoMappings(e),
                            PdoReadStep::MapAddress { .. } => ConfigErrorKind::GetPdoMappingAddress(e),
                            PdoReadStep::EntryCount { .. } => ConfigErrorKind::GetNumberOfPdoEntries(e),
                            _ => ConfigErrorKind::GetPdoEntrtyAddress(e),
                        },
                    )
                },
            },
        }
    }

    fn take_reply(&mut self, reply: &[u8])
        requires
            pdo_reply_ok(*old(self), reply@),
            pdo_bits_room(*old(self)),
        ensures
            *final(self) == pdo_read_step(*old(self), reply@),
    {
        match self.step {
            PdoReadStep::SmCount => {
                self.step = if self.sm_number.is_some() {
                    PdoReadStep::SmType
                } else {
                    PdoReadStep::Ready
                };
            },
            PdoReadStep::SmType => {
                self.step = if reply[0] == 0 {
                    PdoReadStep::Ready
                } else {
                    PdoReadStep::MapCount
                };
            },
            PdoReadStep::MapCount => {
                self.step = if reply[0] == 0 {
                    PdoReadStep::Ready
                } else {
                    PdoReadStep::MapAddress { map: 1, maps: reply[0] }
                };
            },
            PdoReadStep::MapAddress { map, maps } => {
                self.step = PdoReadStep::EntryCount {
                    map,
                    maps,
                    address: reply[0] as u16 + 256 * reply[1] as u16,
                };
            },
            PdoReadStep::EntryCount { map, maps, address } => {
                self.step = if reply[0] == 0 {
                    next_map_exec(map, maps)
                } else {
                    PdoReadStep::Entry { map, maps, address, entry: 1, entries: reply[0] }
                };
            },
            PdoReadStep::Entry { map, maps, address, entry, entries } => {
                self.bit_length = self.bit_length + reply[0] as u32;
                self.step = if entry < entries {
                    PdoReadStep::Entry { map, maps, address, entry: entry + 1, entries }
                } else {
                    next_map_exec(map, maps)
                };
            },
            PdoReadStep::Ready => {},
        }
    }

    pub fn is_ready(&self) -> (r: bool)
        ensures
            r == (self.step == PdoReadStep::Ready),
    {
        match self.step {
            PdoReadStep::Ready => true,
            _ => false,
        }
    }
}

fn next_map_exec(map: u8, maps: u8) -> (r: PdoReadStep)
    ensures
        r == next_map(map, maps),
{
    if map < maps {
        PdoReadStep::MapAddress { map: map + 1, maps }
    } else {
        PdoReadStep::Ready
    }
}

/// The sync manager's byte size, and its bit length and next RAM address
/// fit 16 bits.
pub open spec fn pdo_sm_fits(r: PdoSmReader) -> bool {
    let size = pdo_sm_size_spec(r.bit_length) as int;
    r.sm_number is Some ==> 8 * size <= 0xFFFF && r.start_ram_address + 3 * size <= 0xFFFF
}

/// Configures the sync manager once its PDO maps are read: its channel
/// (buffered, as long as the maps' bytes, at the start address) and its
/// activation (enabled where the maps have data), the FMMU over it, and the
/// RAM address after its three buffers. Without a sync manager nothing is
/// written and the RAM address stays.
pub fn set_pdo_to_sm_utility(reader: &PdoSmReader) -> (r: SmPdoPlan)
    requires
        pdo_sm_fits(*reader),
    ensures
        reader.sm_number matches Some(sm) ==> {
            let size = pdo_sm_size_spec(reader.bit_length);
            &&& writes_view(r.writes@) == seq![
                reg(
                    SyncManagerControl::ADDRESS + 8 * sm,
                    SyncManagerControl::buffered_spec(reader.start_ram_address, size, reader.is_output),
                ),
                reg(
                    SyncManagerActivation::ADDRESS + 8 * sm,
                    seq![
                        if size != 0 {
                            1u8
                        } else {
                            0u8
                        },
                    ],
                ),
            ]
            &&& r.fmmu == Some(
                FmmuAssignment {
                    start_address: reader.start_ram_address,
                    bit_length: (8 * size) as u16,
                    is_output: reader.is_output,
                },
            )
            &&& r.next_ram_address == reader.start_ram_address + 3 * size
        },
        reader.sm_number is None ==> r.writes@.len() == 0 && r.fmmu is None && r.next_ram_address
            == reader.start_ram_address,
{
    let mut writes: Vec<ConfigWrite> = Vec::new();
    match reader.sm_number {
        Some(sm) => {
            let size = pdo_sm_size(reader.bit_length);
            let control = SyncManagerControl::buffered(reader.start_ram_address, size, reader.is_output);
            writes.push(
                ConfigWrite {
                    role: WriteRole::SyncManagerSetting,
                    target: WriteTarget::Register { address: SyncManagerControl::ADDRESS + 8 * sm as u16 },
                    data: control,
                },
            );
            let enable: u8 = if size != 0 {
                1
            } else {
                0
            };
            let en = vec![enable];
            writes.push(
                ConfigWrite {
                    role: WriteRole::SyncManagerSetting,
                    target: WriteTarget::Register { address: SyncManagerActivation::ADDRESS + 8 * sm as u16 },
                    data: en,
                },
            );
            proof {
                assert(en@ =~= seq![if size != 0 { 1u8 } else { 0u8 }]);
                assert(writes_view(writes@) =~= seq![
                    reg(
                        SyncManagerControl::ADDRESS + 8 * sm,
                        SyncManagerControl::buffered_spec(reader.start_ram_address, size, reader.is_output),
                    ),
                    reg(SyncManagerActivation::ADDRESS + 8 * sm, seq![if size != 0 { 1u8 } else { 0u8 }]),
                ]);
            }
            SmPdoPlan {
                writes,
                fmmu: Some(
                    FmmuAssignment {
                        start_address: reader.start_ram_address,
                        bit_length: size * 8,
                        is_output: reader.is_output,
                    },
                ),
                next_ram_address: reader.start_ram_address + size * 3,
            }
        },
        None => SmPdoPlan { writes, fmmu: None, next_ram_address: reader.start_ram_address },
    }
}

} // verus!
