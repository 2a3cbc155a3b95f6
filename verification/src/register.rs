//! The slave registers that the cyclic tasks read and write: where each
//! lies, how many bytes it has, and where its fields sit in those bytes
//! (little-endian, bit 0 first).
use crate::bytes::{le16, put_bytes, read_le16};
use vstd::prelude::*;

verus! {

/// Bit `k` of byte `i` of `s`.
pub open spec fn bit_of(s: Seq<u8>, i: int, k: int) -> bool {
    ((s[i] as int) / pow2_u8(k)) % 2 == 1
}

/// `2^k` for the bit positions of a byte.
pub open spec fn pow2_u8(k: int) -> int {
    if k == 0 {
        1
    } else if k == 1 {
        2
    } else if k == 2 {
        4
    } else if k == 3 {
        8
    } else if k == 4 {
        16
    } else if k == 5 {
        32
    } else if k == 6 {
        64
    } else {
        128
    }
}

/// Reads bit `k` (below 8) of byte `i`.
pub fn read_bit(data: &[u8], i: usize, k: u8) -> (r: bool)
    requires
        i < data@.len(),
        k < 8,
    ensures
        r == bit_of(data@, i as int, k as int),
{
    let b = data[i];
    let d: u8 = if k == 0 {
        1
    } else if k == 1 {
        2
    } else if k == 2 {
        4
    } else if k == 3 {
        8
    } else if k == 4 {
        16
    } else if k == 5 {
        32
    } else if k == 6 {
        64
    } else {
        128
    };
    (b / d) % 2 == 1
}

/// AL status: the state in bits 0 to 3 of the first byte, the error
/// indicator in bit 4, and the status code in bytes 4 and 5.
pub struct AlStatus;

impl AlStatus {
    pub const ADDRESS: u16 = 0x0130;

    pub const SIZE: usize = 6;

    pub open spec fn state_spec(s: Seq<u8>) -> u8 {
        (s[0] % 16) as u8
    }

    pub open spec fn change_err_spec(s: Seq<u8>) -> bool {
        bit_of(s, 0, 4)
    }

    pub open spec fn al_status_code_spec(s: Seq<u8>) -> u16 {
        le16(s, 4) as u16
    }

    pub fn state(data: &[u8]) -> (r: u8)
        requires
            1 <= data@.len(),
        ensures
            r == Self::state_spec(data@),
    {
        data[0] % 16
    }

    pub fn change_err(data: &[u8]) -> (r: bool)
        requires
            1 <= data@.len(),
        ensures
            r == Self::change_err_spec(data@),
    {
        read_bit(data, 0, 4)
    }

    pub fn al_status_code(data: &[u8]) -> (r: u16)
        requires
            Self::SIZE <= data@.len(),
        ensures
            r == Self::al_status_code_spec(data@),
    {
        read_le16(data, 4)
    }
}

/// AL control: the requested state in bits 0 to 3 and the acknowledgement
/// of an error in bit 4.
pub struct AlControl;

impl AlControl {
    pub const ADDRESS: u16 = 0x0120;

    pub const SIZE: usize = 2;

    /// The first byte for the requested state and acknowledgement.
    pub open spec fn control_byte(state: u8, acknowledge: bool) -> u8 {
        ((state % 16) + if acknowledge {
            16int
        } else {
            0
        }) as u8
    }

    /// Writes the state and acknowledgement into a zeroed control register.
    pub fn write_control(buf: &mut Vec<u8>, state: u8, acknowledge: bool)
        requires
            Self::SIZE <= old(buf)@.len(),
        ensures
            final(buf)@ == old(buf)@.update(0, Self::control_byte(state, acknowledge)),
    {
        let mut b: u8 = state % 16;
        if acknowledge {
            b = b + 16;
        }
        buf.set(0, b);
    }
}

/// Receive error counters of the four ports: for each, an invalid-frame
/// counter and a receive-error counter.
pub struct RxErrorCounter;

impl RxErrorCounter {
    pub const ADDRESS: u16 = 0x0300;

    pub const SIZE: usize = 8;
}

/// The local copy of the distributed-clock system time, little-endian.
pub struct DcSystemTime;

impl DcSystemTime {
    pub const ADDRESS: u16 = 0x0910;

    pub const SIZE: usize = 8;

    pub open spec fn local_system_time_spec(s: Seq<u8>) -> u64 {
        (le16(s, 0) + 0x1_0000 * le16(s, 2) + 0x1_0000_0000 * le16(s, 4) + 0x1_0000_0000_0000 * le16(s, 6)) as u64
    }

    pub fn local_system_time(data: &[u8]) -> (r: u64)
        requires
            Self::SIZE <= data@.len(),
        ensures
            r == Self::local_system_time_spec(data@),
    {
        let a = read_le16(data, 0) as u64;
        let b = read_le16(data, 2) as u64;
        let c = read_le16(data, 4) as u64;
        let d = read_le16(data, 6) as u64;
        a + 0x1_0000 * b + 0x1_0000_0000 * c + 0x1_0000_0000_0000 * d
    }
}

/// EEPROM access: bit 0 offers the EEPROM to the application side (the
/// owner), bit 1 forces the master's access back (reset), and bit 8 says
/// that the application side is using it.
pub struct SiiAccess;

impl SiiAccess {
    pub const ADDRESS: u16 = 0x0500;

    pub const SIZE: usize = 2;

    pub open spec fn owner_spec(s: Seq<u8>) -> bool {
        bit_of(s, 0, 0)
    }

    pub open spec fn reset_access_spec(s: Seq<u8>) -> bool {
        bit_of(s, 0, 1)
    }

    pub open spec fn pdi_accessed_spec(s: Seq<u8>) -> bool {
        bit_of(s, 1, 0)
    }

    pub fn owner(data: &[u8]) -> (r: bool)
        requires
            Self::SIZE <= data@.len(),
        ensures
            r == Self::owner_spec(data@),
    {
        read_bit(data, 0, 0)
    }

    pub fn pdi_accessed(data: &[u8]) -> (r: bool)
        requires
            Self::SIZE <= data@.len(),
        ensures
            r == Self::pdi_accessed_spec(data@),
    {
        read_bit(data, 1, 0)
    }

    /// The first byte with the owner bit and the reset bit as given and
    /// the other bits clear.
    pub open spec fn access_byte(owner: bool, reset_access: bool) -> u8 {
        ((if owner {
            1int
        } else {
            0
        }) + (if reset_access {
            2int
        } else {
            0
        })) as u8
    }

    /// Writes the owner and reset bits into a zeroed access register.
    pub fn write_access(buf: &mut Vec<u8>, owner: bool, reset_access: bool)
        requires
            Self::SIZE <= old(buf)@.len(),
        ensures
            final(buf)@ == old(buf)@.update(0, Self::access_byte(owner, reset_access)),
            Self::owner_spec(final(buf)@) == owner,
            Self::reset_access_spec(final(buf)@) == reset_access,
    {
        let mut b: u8 = 0;
        if owner {
            b = b + 1;
        }
        if reset_access {
            b = b + 2;
        }
        buf.set(0, b);
    }
}

/// EEPROM control and status: bit 6 gives the read size (8 bytes when set,
/// else 4), bit 7 the address algorithm (two address bytes when set),
/// bits 8, 9 and 10 the read, write and reload operations, bit 11 a
/// checksum error, bit 12 a device-information error, bit 13 a command
/// error, and bit 15 busy.
pub struct SiiControl;

impl SiiControl {
    pub const ADDRESS: u16 = 0x0502;

    pub const SIZE: usize = 2;

    pub open spec fn read_size_spec(s: Seq<u8>) -> bool {
        bit_of(s, 0, 6)
    }

    pub open spec fn address_algorithm_spec(s: Seq<u8>) -> bool {
        bit_of(s, 0, 7)
    }

    pub open spec fn read_operation_spec(s: Seq<u8>) -> bool {
        bit_of(s, 1, 0)
    }

    pub open spec fn write_operation_spec(s: Seq<u8>) -> bool {
        bit_of(s, 1, 1)
    }

    pub open spec fn reload_operation_spec(s: Seq<u8>) -> bool {
        bit_of(s, 1, 2)
    }

    pub open spec fn check_sum_error_spec(s: Seq<u8>) -> bool {
        bit_of(s, 1, 3)
    }

    pub open spec fn device_info_error_spec(s: Seq<u8>) -> bool {
        bit_of(s, 1, 4)
    }

    pub open spec fn command_error_spec(s: Seq<u8>) -> bool {
        bit_of(s, 1, 5)
    }

    pub open spec fn busy_spec(s: Seq<u8>) -> bool {
        bit_of(s, 1, 7)
    }

    pub fn read_size(data: &[u8]) -> (r: bool)
        requires
            Self::SIZE <= data@.len(),
        ensures
            r == Self::read_size_spec(data@),
    {
        read_bit(data, 0, 6)
    }

    pub fn address_algorithm(data: &[u8]) -> (r: bool)
        requires
            Self::SIZE <= data@.len(),
        ensures
            r == Self::address_algorithm_spec(data@),
    {
        read_bit(data, 0, 7)
    }

    pub fn read_operation(data: &[u8]) -> (r: bool)
        requires
            Self::SIZE <= data@.len(),
        ensures
            r == Self::read_operation_spec(data@),
    {
        read_bit(data, 1, 0)
    }

    pub fn write_operation(data: &[u8]) -> (r: bool)
        requires
            Self::SIZE <= data@.len(),
        ensures
            r == Self::write_operation_spec(data@),
    {
        read_bit(data, 1, 1)
    }

    pub fn reload_operation(data: &[u8]) -> (r: bool)
        requires
            Self::SIZE <= data@.len(),
        ensures
            r == Self::reload_operation_spec(data@),
    {
        read_bit(data, 1, 2)
    }

    pub fn check_sum_error(data: &[u8]) -> (r: bool)
        requires
            Self::SIZE <= data@.len(),
        ensures
            r == Self::check_sum_error_spec(data@),
    {
        read_bit(data, 1, 3)
    }

    pub fn device_info_error(data: &[u8]) -> (r: bool)
        requires
            Self::SIZE <= data@.len(),
        ensures
            r == Self::device_info_error_spec(data@),
    {
        read_bit(data, 1, 4)
    }

    pub fn command_error(data: &[u8]) -> (r: bool)
        requires
            Self::SIZE <= data@.len(),
        ensures
            r == Self::command_error_spec(data@),
    {
        read_bit(data, 1, 5)
    }

    pub fn busy(data: &[u8]) -> (r: bool)
        requires
            Self::SIZE <= data@.len(),
        ensures
            r == Self::busy_spec(data@),
    {
        read_bit(data, 1, 7)
    }

    /// Sets the read-operation bit of a zeroed control register.
    pub fn write_read_operation(buf: &mut Vec<u8>)
        requires
            Self::SIZE <= old(buf)@.len(),
        ensures
            final(buf)@ == old(buf)@.update(1, 1u8),
    {
        buf.set(1, 1);
    }
}

/// The EEPROM word address to read, little-endian over four bytes.
pub struct SiiAddress;

impl SiiAddress {
    pub const ADDRESS: u16 = 0x0504;

    pub const SIZE: usize = 4;

    /// Writes a 16-bit word address; the upper two bytes are left as they
    /// are.
    pub fn write_sii_address(buf: &mut Vec<u8>, address: u16)
        requires
            Self::SIZE <= old(buf)@.len(),
        ensures
            final(buf)@ == put_bytes(old(buf)@, 0, seq![(address % 256) as u8, (address / 256) as u8]),
    {
        crate::bytes::write_le16(buf, 0, address);
    }
}

/// The data the EEPROM gives back: four or eight bytes.
pub struct SiiData;

impl SiiData {
    pub const ADDRESS: u16 = 0x0508;

    pub const SIZE: usize = 8;
}

/// Sync manager status, in the block of eight bytes of each sync manager
/// from 0x0800: bit 3 is set while the mailbox is full.
pub struct SyncManagerStatus;

impl SyncManagerStatus {
    pub const ADDRESS: u16 = 0x0805;

    pub const SIZE: usize = 1;

    pub open spec fn is_mailbox_full_spec(s: Seq<u8>) -> bool {
        bit_of(s, 0, 3)
    }

    pub fn is_mailbox_full(data: &[u8]) -> (r: bool)
        requires
            1 <= data@.len(),
        ensures
            r == Self::is_mailbox_full_spec(data@),
    {
        read_bit(data, 0, 3)
    }
}

/// Sync manager activation: bit 0 enables the channel, bit 1 requests a
/// repeat of the last mailbox.
pub struct SyncManagerActivation;

impl SyncManagerActivation {
    pub const ADDRESS: u16 = 0x0806;

    pub const SIZE: usize = 1;

    pub open spec fn repeat_spec(b: u8) -> bool {
        bit_of(seq![b], 0, 1)
    }

    /// The activation byte `b` with its repeat request turned over.
    pub open spec fn toggle_repeat_spec(b: u8) -> u8 {
        if Self::repeat_spec(b) {
            (b - 2) as u8
        } else {
            (b + 2) as u8
        }
    }

    pub fn repeat(b: u8) -> (r: bool)
        ensures
            r == Self::repeat_spec(b),
    {
        (b / 2) % 2 == 1
    }

    pub fn toggle_repeat(b: u8) -> (r: u8)
        ensures
            r == Self::toggle_repeat_spec(b),
            Self::repeat_spec(r) != Self::repeat_spec(b),
    {
        if (b / 2) % 2 == 1 {
            b - 2
        } else {
            b + 2
        }
    }
}

/// Sync manager PDI control: bit 1 acknowledges a repeat request.
pub struct SyncManagerPdiControl;

impl SyncManagerPdiControl {
    pub const ADDRESS: u16 = 0x0807;

    pub const SIZE: usize = 1;

    pub open spec fn repeat_ack_spec(s: Seq<u8>) -> bool {
        bit_of(s, 0, 1)
    }

    pub fn repeat_ack(data: &[u8]) -> (r: bool)
        requires
            1 <= data@.len(),
        ensures
            r == Self::repeat_ack_spec(data@),
    {
        read_bit(data, 0, 1)
    }
}

/// Sync manager channel settings, from 0x0800 in the block of eight bytes
/// of each sync manager: the physical start address, the length, and the
/// control byte (operation mode in bits 0 and 1, direction in bits 2 and 3,
/// the DLS-user event in bit 5).
pub struct SyncManagerControl;

impl SyncManagerControl {
    pub const ADDRESS: u16 = 0x0800;

    pub const SIZE: usize = 5;

    /// A buffered channel at `start` of `length` bytes that the master
    /// writes (`output`) or reads, with the DLS-user event on.
    pub open spec fn buffered_spec(start: u16, length: u16, output: bool) -> Seq<u8> {
        seq![
            (start % 256) as u8,
            (start / 256) as u8,
            (length % 256) as u8,
            (length / 256) as u8,
            if output {
                0x24u8
            } else {
                0x20u8
            },
        ]
    }

    pub fn buffered(start: u16, length: u16, output: bool) -> (r: Vec<u8>)
        ensures
            r@ == Self::buffered_spec(start, length, output),
    {
        let control: u8 = if output {
            0x24
        } else {
            0x20
        };
        let r = vec![(start % 256) as u8, (start / 256) as u8, (length % 256) as u8, (length / 256) as u8, control];
        assert(r@ =~= Self::buffered_spec(start, length, output));
        r
    }
}

/// The interval of the SYNC0 signal in nanoseconds, 32 bits little-endian.
pub struct Sync0CycleTime;

impl Sync0CycleTime {
    pub const ADDRESS: u16 = 0x09A0;

    pub const SIZE: usize = 4;
}

/// The interval of the SYNC1 signal in nanoseconds, 32 bits little-endian.
pub struct Sync1CycleTime;

impl Sync1CycleTime {
    pub const ADDRESS: u16 = 0x09A4;

    pub const SIZE: usize = 4;
}

/// The system time at which the cyclic SYNC signals start, 64 bits
/// little-endian.
pub struct CyclicOperationStartTime;

impl CyclicOperationStartTime {
    pub const ADDRESS: u16 = 0x0990;

    pub const SIZE: usize = 8;
}

/// Distributed-clock activation: bit 0 enables the cyclic operation, bits 1
/// and 2 the SYNC0 and SYNC1 signals.
pub struct DcActivation;

impl DcActivation {
    pub const ADDRESS: u16 = 0x0981;

    pub const SIZE: usize = 1;
}

/// The ESC's description of itself: the numbers of FMMUs and sync managers
/// (bytes 4 and 5), the RAM in kilobytes (byte 6), the port types (byte 7,
/// two bits per port) and the features (bytes 8 and 9: bit 0 no FMMU bit
/// operation, bit 2 distributed clocks, bit 3 64-bit system time, bit 9 no
/// LRW, bit 10 no BRW, APRW or FPRW).
pub struct DlInformation;

impl DlInformation {
    pub const ADDRESS: u16 = 0x0000;

    pub const SIZE: usize = 10;
}

/// The configured station address, 16 bits little-endian.
pub struct FixedStationAddress;

impl FixedStationAddress {
    pub const ADDRESS: u16 = 0x0010;

    pub const SIZE: usize = 2;
}

/// Data link control: bit 0 the forwarding rule, bits 16 to 18 the transmit
/// buffer size, bit 24 the station alias.
pub struct DlControl;

impl DlControl {
    pub const ADDRESS: u16 = 0x0100;

    pub const SIZE: usize = 4;
}

/// Data link status: bit 0 says that the PDI is operational (the EEPROM
/// was loaded); bits 9, 11, 13 and 15 say that ports 0 to 3 communicate.
pub struct DlStatus;

impl DlStatus {
    pub const ADDRESS: u16 = 0x0110;

    pub const SIZE: usize = 2;
}

/// PDI control: bit 8 makes the AL status follow the AL control (strict
/// AL control).
pub struct PdiControl;

impl PdiControl {
    pub const ADDRESS: u16 = 0x0140;

    pub const SIZE: usize = 2;
}

/// The watchdog divider, 16 bits little-endian.
pub struct WatchDogDivider;

impl WatchDogDivider {
    pub const ADDRESS: u16 = 0x0400;

    pub const SIZE: usize = 2;
}

/// The PDI watchdog time; zero turns it off.
pub struct DlUserWatchDog;

impl DlUserWatchDog {
    pub const ADDRESS: u16 = 0x0410;

    pub const SIZE: usize = 2;
}

/// The sync manager watchdog time; zero turns it off.
pub struct SyncManagerChannelWatchDog;

impl SyncManagerChannelWatchDog {
    pub const ADDRESS: u16 = 0x0420;

    pub const SIZE: usize = 2;
}

/// The first FMMU's settings, each FMMU 16 bytes after the one before.
pub struct FmmuRegister;

impl FmmuRegister {
    pub const ADDRESS: u16 = 0x0600;

    pub const SIZE: usize = 16;
}

} // verus!
