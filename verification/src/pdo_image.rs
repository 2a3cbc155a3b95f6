//! The logical process data image: the FMMUs of the slaves placed one after
//! the other, bit by bit, and the working counter that a full exchange of
//! the image gives.
use crate::frame::MAX_PDU_DATAGRAM;
use crate::command::SlaveAddress;
use crate::process_data::{FmmuAssignment, PdoMappingConfig, PdoEntryConfig};
use crate::register::FmmuRegister;
use crate::sync_mode::{ConfigError, ConfigErrorKind, RegisterError};
use vstd::prelude::*;

verus! {

/// The logical address at which the image starts.
pub const LOGICAL_START_ADDRESS: u32 = 0x1000;

/// Where data starts in the image: its byte and bit.
#[derive(Debug, Clone, Copy, PartialEq, Eq, Structural)]
pub struct ImagePlacement {
    pub logical_address: u32,
    pub start_bit: u8,
}

/// The image: the placement of each slave's FMMUs (none for an FMMU without
/// data), its size in bytes and the working counter it is answered with.
#[derive(Debug, Clone)]
pub struct ImageLayout {
    pub placements: Vec<Vec<Option<ImagePlacement>>>,
    pub size: usize,
    pub expected_wkc: u16,
}

/// The FMMUs of each slave as sequences.
pub open spec fn fmmus_view(s: Seq<Vec<FmmuAssignment>>) -> Seq<Seq<FmmuAssignment>> {
    s.map_values(|v: Vec<FmmuAssignment>| v@)
}

/// The bits of the first `j` FMMUs of a slave.
pub open spec fn bits_of(fs: Seq<FmmuAssignment>, j: int) -> nat
    decreases j,
{
    if j <= 0 {
        0
    } else {
        bits_of(fs, j - 1) + fs[j - 1].bit_length as nat
    }
}

/// The bits of all FMMUs of the first `i` slaves.
pub open spec fn image_bits(slaves: Seq<Seq<FmmuAssignment>>, i: int) -> nat
    decreases i,
{
    if i <= 0 {
        0
    } else {
        image_bits(slaves, i - 1) + bits_of(slaves[i - 1], slaves[i - 1].len() as int)
    }
}

/// Whether one of the first `j` FMMUs of a slave carries data in the
/// direction `output`.
pub open spec fn has_data(fs: Seq<FmmuAssignment>, output: bool, j: int) -> bool
    decreases j,
{
    if j <= 0 {
        false
    } else {
        has_data(fs, output, j - 1) || (fs[j - 1].is_output == output && fs[j - 1].bit_length != 0)
    }
}

/// What one slave adds to the working counter: one for reading its inputs,
/// two for writing its outputs.
pub open spec fn slave_wkc(fs: Seq<FmmuAssignment>) -> nat {
    (if has_data(fs, false, fs.len() as int) { 1nat } else { 0nat }) + (if has_data(fs, true, fs.len() as int) {
        2nat
    } else {
        0nat
    })
}

/// The working counter of the first `i` slaves.
pub open spec fn image_wkc(slaves: Seq<Seq<FmmuAssignment>>, i: int) -> nat
    decreases i,
{
    if i <= 0 {
        0
    } else {
        image_wkc(slaves, i - 1) + slave_wkc(slaves[i - 1])
    }
}

/// The image's size in bytes: its bits rounded up to whole bytes.
pub open spec fn image_size_spec(slaves: Seq<Seq<FmmuAssignment>>) -> nat {
    (image_bits(slaves, slaves.len() as int) + 7) / 8
}

/// The placement of FMMU `j` of slave `i`: after all FMMUs before it, from
/// the image's start; none where it has no data.
pub open spec fn placement_spec(slaves: Seq<Seq<FmmuAssignment>>, i: int, j: int) -> Option<ImagePlacement> {
    if slaves[i][j].bit_length == 0 {
        None
    } else {
        let b = 8 * LOGICAL_START_ADDRESS + fmmu_offset(slaves, i, j);
        Some(ImagePlacement { logical_address: (b / 8) as u32, start_bit: (b % 8) as u8 })
    }
}

proof fn lemma_bits_of_monotone(fs: Seq<FmmuAssignment>, j: int, k: int)
    requires
        0 <= j <= k <= fs.len(),
    ensures
        bits_of(fs, j) <= bits_of(fs, k),
    decreases k - j,
{
    if j < k {
        lemma_bits_of_monotone(fs, j, k - 1);
    }
}

proof fn lemma_image_bits_monotone(slaves: Seq<Seq<FmmuAssignment>>, i: int, k: int)
    requires
        0 <= i <= k <= slaves.len(),
    ensures
        image_bits(slaves, i) <= image_bits(slaves, k),
    decreases k - i,
{
    if i < k {
        lemma_image_bits_monotone(slaves, i, k - 1);
    }
}

proof fn lemma_image_wkc_bound(slaves: Seq<Seq<FmmuAssignment>>, i: int)
    requires
        0 <= i,
    ensures
        image_wkc(slaves, i) <= 3 * i,
    decreases i,
{
    if i > 0 {
        lemma_image_wkc_bound(slaves, i - 1);
    }
}

/// The bit at which FMMU `j` of slave `i` starts, counted from the image's
/// start.
pub open spec fn fmmu_offset(slaves: Seq<Seq<FmmuAssignment>>, i: int, j: int) -> nat {
    image_bits(slaves, i) + bits_of(slaves[i], j)
}

proof fn lemma_bits_of_step(fs: Seq<FmmuAssignment>, j: int)
    requires
        0 <= j < fs.len(),
    ensures
        bits_of(fs, j) + fs[j].bit_length == bits_of(fs, j + 1),
{
}

/// Every FMMU with data lies within the image: from its placement on, its
/// bits end before the image's size in bytes runs out.
pub proof fn lemma_image_holds_each_fmmu(slaves: Seq<Seq<FmmuAssignment>>, i: int, j: int)
    requires
        0 <= i < slaves.len(),
        0 <= j < slaves[i].len(),
        slaves[i][j].bit_length != 0,
        image_size_spec(slaves) <= MAX_PDU_DATAGRAM,
    ensures
        placement_spec(slaves, i, j) matches Some(p) && 8 * (p.logical_address - LOGICAL_START_ADDRESS)
            + p.start_bit + slaves[i][j].bit_length <= 8 * image_size_spec(slaves),
{
    lemma_bits_of_step(slaves[i], j);
    lemma_bits_of_monotone(slaves[i], j + 1, slaves[i].len() as int);
    lemma_image_bits_monotone(slaves, i + 1, slaves.len() as int);
    let b = 8 * LOGICAL_START_ADDRESS + fmmu_offset(slaves, i, j);
    let total = image_bits(slaves, slaves.len() as int);
    assert(fmmu_offset(slaves, i, j) + slaves[i][j].bit_length <= total);
    assert(b / 8 <= u32::MAX);
    assert(8 * (b / 8) + b % 8 == b);
    assert(total <= 8 * ((total + 7) / 8));
}

/// FMMUs with data do not overlap: one placed before another, by slave
/// and then by FMMU, ends where the other starts or before.
pub proof fn lemma_fmmus_do_not_overlap(slaves: Seq<Seq<FmmuAssignment>>, i: int, j: int, k: int, l: int)
    requires
        0 <= i < slaves.len(),
        0 <= j < slaves[i].len(),
        0 <= k < slaves.len(),
        0 <= l < slaves[k].len(),
        i < k || (i == k && j < l),
    ensures
        fmmu_offset(slaves, i, j) + slaves[i][j].bit_length <= fmmu_offset(slaves, k, l),
{
    lemma_bits_of_step(slaves[i], j);
    if i == k {
        lemma_bits_of_monotone(slaves[i], j + 1, l);
    } else {
        lemma_bits_of_monotone(slaves[i], j + 1, slaves[i].len() as int);
        lemma_image_bits_monotone(slaves, i + 1, k);
    }
}

/// Some FMMU of the slave carries data in the direction `output`.
proof fn lemma_has_data_is_some_fmmu(fs: Seq<FmmuAssignment>, output: bool, j: int)
    requires
        0 <= j <= fs.len(),
    ensures
        has_data(fs, output, j) <==> exists|k: int|
            0 <= k < j && (#[trigger] fs[k]).is_output == output && fs[k].bit_length != 0,
    decreases j,
{
    if j > 0 {
        lemma_has_data_is_some_fmmu(fs, output, j - 1);
        if has_data(fs, output, j - 1) {
            let k = choose|k: int| 0 <= k < j - 1 && (#[trigger] fs[k]).is_output == output && fs[k].bit_length != 0;
            assert(0 <= k < j && fs[k].is_output == output && fs[k].bit_length != 0);
        }
        if fs[j - 1].is_output == output && fs[j - 1].bit_length != 0 {
            assert(0 <= j - 1 < j && fs[j - 1].is_output == output && fs[j - 1].bit_length != 0);
        }
    }
}

/// The working counter of the image starts at zero and each slave adds one
/// where some FMMU of it reads inputs with data, and two where some FMMU of
/// it writes outputs with data; FMMUs without data add nothing.
pub proof fn lemma_image_wkc_counts_each_direction(slaves: Seq<Seq<FmmuAssignment>>, i: int)
    requires
        0 <= i < slaves.len(),
    ensures
        image_wkc(slaves, 0) == 0,
        image_wkc(slaves, i + 1) == image_wkc(slaves, i) + (if exists|k: int|
            0 <= k < slaves[i].len() && !(#[trigger] slaves[i][k]).is_output && slaves[i][k].bit_length != 0 {
            1int
        } else {
            0int
        }) + (if exists|k: int|
            0 <= k < slaves[i].len() && (#[trigger] slaves[i][k]).is_output && slaves[i][k].bit_length != 0 {
            2int
        } else {
            0int
        }),
{
    let fs = slaves[i];
    lemma_has_data_is_some_fmmu(fs, false, fs.len() as int);
    lemma_has_data_is_some_fmmu(fs, true, fs.len() as int);
}

/// Places the FMMUs of `slaves`, given in position order, one after the
/// other in the image from `LOGICAL_START_ADDRESS`, skipping those without
/// data, and returns the placements, the image's size and the working
/// counter that the slaves answer it with.
pub fn set_logical_address_to_fmmu_config(slaves: &Vec<Vec<FmmuAssignment>>) -> (r: ImageLayout)
    requires
        3 * slaves@.len() <= u16::MAX,
        image_size_spec(fmmus_view(slaves@)) <= MAX_PDU_DATAGRAM,
    ensures
        r.size == image_size_spec(fmmus_view(slaves@)),
        r.expected_wkc == image_wkc(fmmus_view(slaves@), slaves@.len() as int),
        r.placements@.len() == slaves@.len(),
        forall|i: int|
            0 <= i < slaves@.len() ==> (#[trigger] r.placements@[i])@.len() == slaves@[i]@.len(),
        forall|i: int, j: int|
            0 <= i < slaves@.len() && 0 <= j < slaves@[i]@.len() ==> (#[trigger] r.placements@[i]@[j])
                == placement_spec(fmmus_view(slaves@), i, j),
{
    let ghost sv = fmmus_view(slaves@);
    let ghost n = slaves@.len() as int;
    let ghost total = image_bits(sv, n);
    let mut placements: Vec<Vec<Option<ImagePlacement>>> = Vec::new();
    let mut bit_address: u64 = 8 * LOGICAL_START_ADDRESS as u64;
    let mut expected_wkc: u16 = 0;
    let mut i: usize = 0;
    while i < slaves.len()
        invariant
            sv == fmmus_view(slaves@),
            n == slaves@.len(),
            total == image_bits(sv, n),
            (total + 7) / 8 <= MAX_PDU_DATAGRAM,
            3 * n <= u16::MAX,
            0 <= i <= n,
            bit_address == 8 * LOGICAL_START_ADDRESS + image_bits(sv, i as int),
            expected_wkc == image_wkc(sv, i as int),
            placements@.len() == i,
            forall|k: int| 0 <= k < i ==> (#[trigger] placements@[k])@.len() == sv[k].len(),
            forall|k: int, j: int|
                0 <= k < i && 0 <= j < sv[k].len() ==> (#[trigger] placements@[k]@[j]) == placement_spec(sv, k, j),
        decreases n - i,
    {
        let fs = &slaves[i];
        let ghost f = sv[i as int];
        assert(f == fs@);
        proof {
            lemma_image_bits_monotone(sv, i as int + 1, n);
            lemma_image_wkc_bound(sv, i as int + 1);
        }
        let ghost base = bit_address as int;
        let mut row: Vec<Option<ImagePlacement>> = Vec::new();
        let mut has_tx_data = false;
        let mut has_rx_data = false;
        let mut j: usize = 0;
        while j < fs.len()
            invariant
                f == fs@,
                sv == fmmus_view(slaves@),
                i < n == slaves@.len(),
                f == sv[i as int],
                base == 8 * LOGICAL_START_ADDRESS + image_bits(sv, i as int),
                image_bits(sv, i as int + 1) <= total,
                (total + 7) / 8 <= MAX_PDU_DATAGRAM,
                0 <= j <= f.len(),
                bit_address == base + bits_of(f, j as int),
                has_tx_data == has_data(f, false, j as int),
                has_rx_data == has_data(f, true, j as int),
                row@.len() == j,
                forall|m: int| 0 <= m < j ==> (#[trigger] row@[m]) == placement_spec(sv, i as int, m),
            decreases f.len() - j,
        {
            proof {
                lemma_bits_of_monotone(f, j as int + 1, f.len() as int);
            }
            let fmmu = fs[j];
            if fmmu.bit_length != 0 {
                proof {
                    assert((bit_address >> 3) == bit_address / 8) by (bit_vector);
                }
                row.push(Some(ImagePlacement { logical_address: (bit_address >> 3) as u32, start_bit: (bit_address % 8) as u8 }));
                bit_address = bit_address + fmmu.bit_length as u64;
                if fmmu.is_output {
                    has_rx_data = true;
                } else {
                    has_tx_data = true;
                }
            } else {
                row.push(None);
            }
            j = j + 1;
        }
        if has_tx_data {
            expected_wkc = expected_wkc + 1;
        }
        if has_rx_data {
            expected_wkc = expected_wkc + 2;
        }
        placements.push(row);
        i = i + 1;
    }
    proof {
        assert((bit_address >> 3) == bit_address / 8) by (bit_vector);
    }
    let size: u64 = if bit_address % 8 == 0 {
        (bit_address >> 3) - LOGICAL_START_ADDRESS as u64
    } else {
        (bit_address >> 3) + 1 - LOGICAL_START_ADDRESS as u64
    };
    ImageLayout { placements, size: size as usize, expected_wkc }
}

/// The entries of each map as sequences.
pub open spec fn map_entries(maps: Seq<PdoMappingConfig>) -> Seq<Seq<PdoEntryConfig>> {
    maps.map_values(|m: PdoMappingConfig| m.entries@)
}

/// The bits of the first `k` entries of a map.
pub open spec fn entries_bits(es: Seq<PdoEntryConfig>, k: int) -> nat
    decreases k,
{
    if k <= 0 {
        0
    } else {
        entries_bits(es, k - 1) + es[k - 1].bit_length as nat
    }
}

/// The bits of all entries of the first `m` maps.
pub open spec fn maps_bits(ms: Seq<Seq<PdoEntryConfig>>, m: int) -> nat
    decreases m,
{
    if m <= 0 {
        0
    } else {
        maps_bits(ms, m - 1) + entries_bits(ms[m - 1], ms[m - 1].len() as int)
    }
}

/// Where entry `k` of map `m` is placed, the maps' data starting at
/// `start`: the bit after all entries before it, or, where that bit is not
/// the first of its byte, that bit number in the byte after it.
pub open spec fn entry_placement(start: ImagePlacement, ms: Seq<Seq<PdoEntryConfig>>, m: int, k: int) -> ImagePlacement {
    let t = 8 * start.logical_address + start.start_bit + maps_bits(ms, m) + entries_bits(ms[m], k);
    if t % 8 == 0 {
        ImagePlacement { logical_address: (t / 8) as u32, start_bit: 0 }
    } else {
        ImagePlacement { logical_address: (t / 8 + 1) as u32, start_bit: (t % 8) as u8 }
    }
}

proof fn lemma_entries_bits_monotone(es: Seq<PdoEntryConfig>, j: int, k: int)
    requires
        0 <= j <= k <= es.len(),
    ensures
        entries_bits(es, j) <= entries_bits(es, k),
    decreases k - j,
{
    if j < k {
        lemma_entries_bits_monotone(es, j, k - 1);
    }
}

proof fn lemma_maps_bits_monotone(ms: Seq<Seq<PdoEntryConfig>>, i: int, k: int)
    requires
        0 <= i <= k <= ms.len(),
    ensures
        maps_bits(ms, i) <= maps_bits(ms, k),
    decreases k - i,
{
    if i < k {
        lemma_maps_bits_monotone(ms, i, k - 1);
    }
}

/// Places the entries of the PDO maps of one FMMU, whose data starts at
/// `start` and is `fmmu_bit_length` bits long, one after the other. The
/// maps' entries take exactly the FMMU's bits.
pub fn set_logical_address_to_pdo_entry_config(
    start: ImagePlacement,
    fmmu_bit_length: u16,
    maps: &Vec<PdoMappingConfig>,
) -> (r: Vec<Vec<ImagePlacement>>)
    requires
        maps@.len() > 0 ==> maps_bits(map_entries(maps@), maps@.len() as int) == fmmu_bit_length,
    ensures
        r@.len() == maps@.len(),
        forall|m: int| 0 <= m < maps@.len() ==> (#[trigger] r@[m])@.len() == maps@[m].entries@.len(),
        forall|m: int, k: int|
            0 <= m < maps@.len() && 0 <= k < maps@[m].entries@.len() ==> (#[trigger] r@[m]@[k])
                == entry_placement(start, map_entries(maps@), m, k),
{
    let ghost ms = map_entries(maps@);
    let ghost n = maps@.len() as int;
    let mut out: Vec<Vec<ImagePlacement>> = Vec::new();
    let mut total_bits: u64 = start.logical_address as u64 * 8 + start.start_bit as u64;
    let ghost base = total_bits as int;
    let mut m: usize = 0;
    while m < maps.len()
        invariant
            ms == map_entries(maps@),
            n == maps@.len(),
            n > 0 ==> maps_bits(ms, n) == fmmu_bit_length,
            base == 8 * start.logical_address + start.start_bit,
            0 <= m <= n,
            total_bits == base + maps_bits(ms, m as int),
            out@.len() == m,
            forall|i: int| 0 <= i < m ==> (#[trigger] out@[i])@.len() == ms[i].len(),
            forall|i: int, k: int|
                0 <= i < m && 0 <= k < ms[i].len() ==> (#[trigger] out@[i]@[k]) == entry_placement(start, ms, i, k),
        decreases n - m,
    {
        let es = &maps[m].entries;
        let ghost e = ms[m as int];
        assert(e == es@);
        proof {
            lemma_maps_bits_monotone(ms, m as int + 1, n);
        }
        let ghost row_base = total_bits as int;
        let mut row: Vec<ImagePlacement> = Vec::new();
        let mut k: usize = 0;
        while k < es.len()
            invariant
                e == es@,
                ms == map_entries(maps@),
                m < n == maps@.len(),
                e == ms[m as int],
                maps_bits(ms, m as int + 1) <= fmmu_bit_length,
                base == 8 * start.logical_address + start.start_bit,
                row_base == base + maps_bits(ms, m as int),
                0 <= k <= e.len(),
                total_bits == row_base + entries_bits(e, k as int),
                row@.len() == k,
                forall|j: int| 0 <= j < k ==> (#[trigger] row@[j]) == entry_placement(start, ms, m as int, j),
            decreases e.len() - k,
        {
            proof {
                lemma_entries_bits_monotone(e, k as int + 1, e.len() as int);
            }
            proof {
                assert((total_bits >> 3) == total_bits / 8) by (bit_vector);
            }
            let mod8 = total_bits % 8;
            let p = if mod8 == 0 {
                ImagePlacement { logical_address: (total_bits >> 3) as u32, start_bit: 0 }
            } else {
                ImagePlacement { logical_address: ((total_bits >> 3) + 1) as u32, start_bit: mod8 as u8 }
            };
            row.push(p);
            total_bits = total_bits + es[k].bit_length as u64;
            k = k + 1;
        }
        out.push(row);
        m = m + 1;
    }
    out
}

/// An FMMU to program: the logical bytes it spans from its first one, the
/// last bit it uses in the last of them, where its sync manager's buffer
/// lies in the slave, and whether it carries outputs.
#[derive(Debug, Clone, Copy, PartialEq, Eq, Structural)]
pub struct FmmuSetting {
    pub logical_address: u32,
    pub byte_length: u16,
    pub end_bit: u8,
    pub physical_address: u16,
    pub is_output: bool,
}

/// The setting of an FMMU whose data of `bit_length` bits starts at
/// placement `p`: the bytes from the one holding its first bit to the one
/// holding its last, and the number of that last bit in its byte.
pub open spec fn fmmu_setting_spec(p: ImagePlacement, a: FmmuAssignment) -> FmmuSetting {
    let last = p.start_bit + a.bit_length - 1;
    FmmuSetting {
        logical_address: p.logical_address,
        byte_length: (last / 8 + 1) as u16,
        end_bit: (last % 8) as u8,
        physical_address: a.start_address,
        is_output: a.is_output,
    }
}

/// The setting of the FMMU over `a`, placed at `p`.
pub fn fmmu_setting(p: ImagePlacement, a: FmmuAssignment) -> (r: FmmuSetting)
    requires
        p.start_bit < 8,
        a.bit_length != 0,
    ensures
        r == fmmu_setting_spec(p, a),
{
    let last: u32 = p.start_bit as u32 + a.bit_length as u32 - 1;
    FmmuSetting {
        logical_address: p.logical_address,
        byte_length: (last / 8 + 1) as u16,
        end_bit: (last % 8) as u8,
        physical_address: a.start_address,
        is_output: a.is_output,
    }
}

/// The register of FMMU `index`.
pub open spec fn fmmu_register_address_spec(index: u8) -> u16 {
    (FmmuRegister::ADDRESS + FmmuRegister::SIZE * index) as u16
}

/// The register of FMMU `index`.
pub fn fmmu_register_address(index: u8) -> (r: u16)
    ensures
        r == fmmu_register_address_spec(index),
{
    assert(FmmuRegister::SIZE == 16);
    FmmuRegister::ADDRESS + 16 * index as u16
}

/// The sixteen bytes of an FMMU's register: logical start address and
/// length (little-endian), logical start bit left at zero, logical end bit,
/// physical start address, physical start bit zero, read access for inputs
/// or write access for outputs, and enabled.
pub open spec fn fmmu_register_spec(f: FmmuSetting) -> Seq<u8> {
    let la = f.logical_address;
    seq![
        (la % 256) as u8,
        (la / 256 % 256) as u8,
        (la / 0x1_0000 % 256) as u8,
        (la / 0x100_0000) as u8,
        (f.byte_length % 256) as u8,
        (f.byte_length / 256) as u8,
        0u8,
        f.end_bit,
        (f.physical_address % 256) as u8,
        (f.physical_address / 256) as u8,
        0u8,
        if f.is_output { 2u8 } else { 1u8 },
        1u8,
        0u8,
        0u8,
        0u8,
    ]
}

/// The address and bytes of the write that programs FMMU `index` with `f`.
pub fn fmmu_register_write(index: u8, f: FmmuSetting) -> (r: (u16, Vec<u8>))
    requires
        f.end_bit < 8,
    ensures
        r.0 == fmmu_register_address_spec(index),
        r.1@ == fmmu_register_spec(f),
{
    let la = f.logical_address;
    let address = fmmu_register_address(index);
    let data: Vec<u8> = vec![
        (la % 256) as u8,
        (la / 256 % 256) as u8,
        (la / 0x1_0000 % 256) as u8,
        (la / 0x100_0000) as u8,
        (f.byte_length % 256) as u8,
        (f.byte_length / 256) as u8,
        0u8,
        f.end_bit,
        (f.physical_address % 256) as u8,
        (f.physical_address / 256) as u8,
        0u8,
        if f.is_output { 2u8 } else { 1u8 },
        1u8,
        0u8,
        0u8,
        0u8,
    ];
    assert(data@ =~= fmmu_register_spec(f));
    (address, data)
}

/// The error that a failed write of FMMU `index`'s register at the slave
/// `slave_address` is reported as.
pub fn fmmu_write_error(slave_address: SlaveAddress, index: u8) -> (r: ConfigError)
    ensures
        r == (ConfigError {
            slave_address,
            kind: ConfigErrorKind::SetFmmuRegister(RegisterError { address: fmmu_register_address_spec(index) }),
        }),
{
    let address = fmmu_register_address(index);
    ConfigError { slave_address, kind: ConfigErrorKind::SetFmmuRegister(RegisterError { address }) }
}

/// An FMMU's bytes are exactly those that hold its bits: the byte of its
/// last bit, counted from its first byte, is its last byte, and the end bit
/// is that bit's number in it. Its addresses and direction are those given.
pub proof fn lemma_fmmu_setting_spans_its_bits(p: ImagePlacement, a: FmmuAssignment)
    requires
        p.start_bit < 8,
        a.bit_length != 0,
    ensures
        ({
            let f = fmmu_setting_spec(p, a);
            let last = p.start_bit + a.bit_length - 1;
            &&& f.byte_length >= 1
            &&& 8 * (f.byte_length - 1) <= last < 8 * f.byte_length
            &&& f.end_bit == last - 8 * (f.byte_length - 1)
            &&& f.logical_address == p.logical_address
            &&& f.physical_address == a.start_address
            &&& f.is_output == a.is_output
        }),
{
}

/// The FMMUs are placed one right after the other from the image's start:
/// the first at bit 0, each next FMMU of a slave where the one before it
/// ends, and the first FMMU of each next slave where the slave before it
/// ends. The image's size is the fewest whole bytes that hold all their
/// bits.
pub proof fn lemma_fmmus_are_packed(slaves: Seq<Seq<FmmuAssignment>>, i: int, j: int)
    requires
        0 <= i < slaves.len(),
        0 <= j < slaves[i].len(),
    ensures
        fmmu_offset(slaves, 0, 0) == 0,
        fmmu_offset(slaves, i, 0) == image_bits(slaves, i),
        fmmu_offset(slaves, i, j + 1) == fmmu_offset(slaves, i, j) + slaves[i][j].bit_length,
        image_bits(slaves, i + 1) == fmmu_offset(slaves, i, slaves[i].len() as int),
        image_bits(slaves, 0) == 0,
        image_bits(slaves, slaves.len() as int) <= 8 * image_size_spec(slaves),
        8 * image_size_spec(slaves) < image_bits(slaves, slaves.len() as int) + 8,
{
}

/// The register bytes read back as the setting: the logical address and
/// length little-endian at bytes 0 and 4, the end bit at byte 7, the
/// physical address at byte 8, read access (bit 0 of byte 11) exactly for
/// inputs and write access (bit 1) exactly for outputs, and the enable bit
/// (bit 0 of byte 12) set.
pub proof fn lemma_fmmu_register_reads_back(f: FmmuSetting)
    requires
        f.end_bit < 8,
    ensures
        ({
            let r = fmmu_register_spec(f);
            &&& r.len() == 16
            &&& r[0] + 256 * r[1] + 65536 * r[2] + 16777216 * r[3] == f.logical_address
            &&& r[4] + 256 * r[5] == f.byte_length
            &&& r[6] == 0
            &&& r[7] == f.end_bit
            &&& r[8] + 256 * r[9] == f.physical_address
            &&& r[10] == 0
            &&& (r[11] % 2 == 1) == !f.is_output
            &&& ((r[11] / 2) % 2 == 1) == f.is_output
            &&& r[11] < 4
            &&& r[12] == 1
            &&& r[13] == 0 && r[14] == 0 && r[15] == 0
        }),
{
    let la = f.logical_address;
    assert(la == la % 256 + 256 * (la / 256 % 256) + 65536 * (la / 0x1_0000 % 256) + 16777216 * (la / 0x100_0000))
        by (nonlinear_arith);
}

/// The PDO entries of an FMMU follow one another bit by bit across its
/// maps: the first at the FMMU's start, each next entry of a map where the
/// one before it ends, and the first entry of each next map where the map
/// before it ends. An entry whose bit starts a byte is placed at that byte
/// and bit 0; one whose bit falls inside a byte is placed at the same bit
/// number of the byte after it.
pub proof fn lemma_entries_are_packed(start: ImagePlacement, ms: Seq<Seq<PdoEntryConfig>>, m: int, k: int)
    requires
        0 <= m < ms.len(),
        0 <= k < ms[m].len(),
        8 * start.logical_address + start.start_bit + maps_bits(ms, m) + entries_bits(ms[m], k) + 8 <= 8
            * 0x1_0000_0000,
    ensures
        maps_bits(ms, 0) == 0,
        entries_bits(ms[m], 0) == 0,
        entries_bits(ms[m], k + 1) == entries_bits(ms[m], k) + ms[m][k].bit_length,
        maps_bits(ms, m + 1) == maps_bits(ms, m) + entries_bits(ms[m], ms[m].len() as int),
        ({
            let t = 8 * start.logical_address + start.start_bit + maps_bits(ms, m) + entries_bits(ms[m], k);
            let p = entry_placement(start, ms, m, k);
            &&& p.start_bit == t % 8
            &&& t % 8 == 0 ==> 8 * p.logical_address == t
            &&& t % 8 != 0 ==> 8 * p.logical_address + p.start_bit == t + 8
        }),
{
}

} // verus!
