//! IDE (ATA and ATAPI) disks: commands, the register writes that issue
//! them, the identify data, and how transfers are split. The port I/O is
//! done by the caller.

use vstd::prelude::*;
use crate::bytes::{le_at, read_array16, read_u16, read_u32, read_u64};

verus! {

/// Status register: error.
pub const STATUS_ERR: u8 = 0x01;
/// Status register: data request.
pub const STATUS_DATA_REQUEST: u8 = 0x08;
/// Status register: busy.
pub const STATUS_BUSY: u8 = 0x80;
/// Command register offsets.
pub const REG_DATA: u16 = 0;
pub const REG_FEATURES: u16 = 1;
pub const REG_SECTOR_COUNT: u16 = 2;
pub const REG_LBA_LO: u16 = 3;
pub const REG_LBA_MID: u16 = 4;
pub const REG_LBA_HI: u16 = 5;
pub const REG_DRIVE: u16 = 6;
pub const REG_COMMAND: u16 = 7;
/// The packet command.
pub const COMMAND_PACKET: u8 = 0xa0;
/// The sector size when the identify data gives none.
pub const DEFAULT_SECTOR_SIZE: u32 = 512;

#[derive(Debug, Clone, Copy, PartialEq, Eq, Structural)]
pub enum IdeDeviceType {
    Ata,
    Atapi,
}

#[derive(Debug, Clone, Copy)]
pub struct IdeDeviceIndex {
    pub ty: IdeDeviceType,
    pub index: usize,
}

#[derive(Debug, Clone, Copy, PartialEq, Eq, Structural)]
pub enum IdeError {
    DeviceError(u8),
    UnalignedSize,
    BoundsExceeded,
}

/// A write of a byte to an I/O port.
#[derive(Debug, Clone, Copy, PartialEq, Eq, Structural)]
pub struct ByteWrite {
    pub port: u16,
    pub value: u8,
}

/// What to do after reading the status while waiting to send a command.
#[derive(Debug, Clone, Copy, PartialEq, Eq, Structural)]
pub enum WaitStep {
    /// Read the status again.
    Wait,
    /// The device is ready for a command.
    Ready,
    /// The device reports an error; read the error register.
    Error,
}

/// The I/O ports of a channel.
#[derive(Debug, Clone, Copy)]
pub struct IdeIo {
    pub command_block: u16,
    pub control_block: u16,
}

impl IdeIo {
    /// Whether the device is free, by its status: not busy.
    pub fn wait_until_free(&self, status: u8) -> (r: bool)
        ensures
            r == (status & 0x80 == 0),
    {
        status & STATUS_BUSY == 0
    }

    /// The next step while waiting until a command can be sent: done when
    /// neither busy nor requesting data; an error when the error bit is set
    /// meanwhile.
    pub fn wait_until_can_command(&self, status: u8) -> (r: WaitStep)
        ensures
            status & 0x88 == 0 ==> r == WaitStep::Ready,
            status & 0x88 != 0 && status & 0x01 != 0 ==> r == WaitStep::Error,
            status & 0x88 != 0 && status & 0x01 == 0 ==> r == WaitStep::Wait,
    {
        proof {
            crate::bits::lemma_constants();
        }
        if status & (STATUS_BUSY | STATUS_DATA_REQUEST) == 0 {
            WaitStep::Ready
        } else if status & STATUS_ERR != 0 {
            WaitStep::Error
        } else {
            WaitStep::Wait
        }
    }

    /// The port of a register of the command block.
    pub fn command_port(&self, offset: u16) -> (r: u16)
        requires
            self.command_block + offset <= u16::MAX,
        ensures
            r == self.command_block + offset,
    {
        self.command_block + offset
    }

    /// The port of the status register.
    pub fn read_status(&self) -> (r: u16)
        requires
            self.command_block + 7 <= u16::MAX,
        ensures
            r == self.command_block + 7,
    {
        self.command_port(REG_COMMAND)
    }

    /// The port of the error register.
    pub fn read_error(&self) -> (r: u16)
        requires
            self.command_block + 1 <= u16::MAX,
        ensures
            r == self.command_block + 1,
    {
        self.command_port(REG_FEATURES)
    }

    /// The sense key of an ATAPI device: the high four bits of the error
    /// register.
    pub fn read_sense_key(&self, error: u8) -> (r: u8)
        ensures
            r == error / 16,
    {
        proof {
            crate::bits::lemma_u8(error);
        }
        error >> 4
    }

    /// Fills `data` from the 16-bit words read from the data port, low byte
    /// first.
    pub fn read_data_block(&self, words: &[u16], data: &mut Vec<u8>)
        requires
            old(data)@.len() == 2 * words@.len(),
        ensures
            final(data)@.len() == old(data)@.len(),
            forall|i: int| 0 <= i < words@.len() ==> #[trigger] final(data)@[2 * i] == words@[i] % 256
                && final(data)@[2 * i + 1] == words@[i] / 256,
    {
        let n = words.len();
        let len = data.len();
        let mut i: usize = 0;
        while i < n
            invariant
                n == words@.len(),
                len == data@.len(),
                data@.len() == 2 * n,
                i <= n,
                forall|j: int| 0 <= j < i ==> #[trigger] data@[2 * j] == words@[j] % 256 && data@[2 * j + 1]
                    == words@[j] / 256,
            decreases n - i,
        {
            let word = words[i];
            proof {
                crate::bits::lemma_u16(word);
            }
            data.set(2 * i, (word & 0xff) as u8);
            data.set(2 * i + 1, ((word >> 8u16) & 0xff) as u8);
            i = i + 1;
        }
    }

    /// The 16-bit words to write to the data port for `data`, low byte
    /// first; an odd last byte is not sent.
    pub fn write_data_block(&self, data: &[u8]) -> (r: Vec<u16>)
        ensures
            r@.len() == data@.len() / 2,
            forall|i: int| 0 <= i < r@.len() ==> #[trigger] r@[i] == data@[2 * i] + 256 * data@[2 * i + 1],
    {
        let len = data.len();
        let n = len / 2;
        let mut r: Vec<u16> = Vec::new();
        let mut i: usize = 0;
        while i < n
            invariant
                len == data@.len(),
                n == data@.len() / 2,
                i <= n,
                r@.len() == i,
                forall|j: int| 0 <= j < i ==> #[trigger] r@[j] == data@[2 * j] + 256 * data@[2 * j + 1],
            decreases n - i,
        {
            let lo = data[2 * i];
            let hi = data[2 * i + 1];
            proof {
                crate::bits::lemma_join_u8(lo, hi);
            }
            r.push((lo as u16) | ((hi as u16) << 8u16));
            i = i + 1;
        }
        r
    }
}

/// The drive register with the second-drive bit (bit 4) set or cleared.
pub open spec fn drive_select(drive: u8, is_second: bool) -> u8 {
    if is_second {
        drive | 0x10
    } else {
        drive & 0xef
    }
}

/// An ATA command and its registers.
#[derive(Debug, Clone, Copy)]
pub struct AtaCommand {
    pub command: u8,
    pub drive: u8,
    pub lba: u64,
    pub sector_count: u8,
    pub features: u8,
}

/// The register writes that issue a command: features, sector count, the
/// three low bytes of the address, drive, and the command last.
pub open spec fn command_writes(io: IdeIo, features: u8, count: u8, lba: u64, drive: u8, command: u8) -> Seq<ByteWrite> {
    seq![
        ByteWrite { port: (io.command_block + 1) as u16, value: features },
        ByteWrite { port: (io.command_block + 2) as u16, value: count },
        ByteWrite { port: (io.command_block + 3) as u16, value: (lba % 0x100) as u8 },
        ByteWrite { port: (io.command_block + 4) as u16, value: ((lba / 0x100) % 0x100) as u8 },
        ByteWrite { port: (io.command_block + 5) as u16, value: ((lba / 0x1_0000) % 0x100) as u8 },
        ByteWrite { port: (io.command_block + 6) as u16, value: drive },
        ByteWrite { port: (io.command_block + 7) as u16, value: command },
    ]
}

fn issue_writes(io: &IdeIo, features: u8, count: u8, lba: u64, drive: u8, command: u8) -> (r: Vec<ByteWrite>)
    requires
        io.command_block + 7 <= u16::MAX,
    ensures
        r@ == command_writes(*io, features, count, lba, drive, command),
{
    let b = io.command_block;
    proof {
        crate::bits::lemma_u64(lba);
    }
    let mut r: Vec<ByteWrite> = Vec::new();
    r.push(ByteWrite { port: b + REG_FEATURES, value: features });
    r.push(ByteWrite { port: b + REG_SECTOR_COUNT, value: count });
    r.push(ByteWrite { port: b + REG_LBA_LO, value: (lba & 0xff) as u8 });
    r.push(ByteWrite { port: b + REG_LBA_MID, value: ((lba >> 8u64) & 0xff) as u8 });
    r.push(ByteWrite { port: b + REG_LBA_HI, value: ((lba >> 16u64) & 0xff) as u8 });
    r.push(ByteWrite { port: b + REG_DRIVE, value: drive });
    r.push(ByteWrite { port: b + REG_COMMAND, value: command });
    assert(r@ =~= command_writes(*io, features, count, lba, drive, command));
    r
}

impl AtaCommand {
    /// A command in LBA mode (drive register bit 6 set), with the other
    /// registers zero.
    pub fn new(command: u8) -> (r: Self)
        ensures
            r.command == command,
            r.drive == 0x40,
            r.lba == 0,
            r.sector_count == 0,
            r.features == 0,
    {
        AtaCommand { command, drive: 0x40, lba: 0, sector_count: 0, features: 0 }
    }

    pub fn with_features(self, features: u8) -> (r: Self)
        ensures
            r == (AtaCommand { features, ..self }),
    {
        AtaCommand { features, ..self }
    }

    pub fn with_second_drive(self, is_second: bool) -> (r: Self)
        ensures
            r == (AtaCommand { drive: drive_select(self.drive, is_second), ..self }),
    {
        let drive = if is_second {
            self.drive | 0x10
        } else {
            self.drive & 0xef
        };
        AtaCommand { drive, ..self }
    }

    pub fn with_lba(self, lba: u64) -> (r: Self)
        ensures
            r == (AtaCommand { lba, ..self }),
    {
        AtaCommand { lba, ..self }
    }

    pub fn with_sector_count(self, sector_count: u8) -> (r: Self)
        ensures
            r == (AtaCommand { sector_count, ..self }),
    {
        AtaCommand { sector_count, ..self }
    }

    /// The register writes that issue the command.
    pub fn write(&self, io_port: &IdeIo) -> (r: Vec<ByteWrite>)
        requires
            io_port.command_block + 7 <= u16::MAX,
        ensures
            r@ == command_writes(*io_port, self.features, self.sector_count, self.lba, self.drive, self.command),
    {
        issue_writes(io_port, self.features, self.sector_count, self.lba, self.drive, self.command)
    }
}

/// The direction of a packet command's DMA transfer.
#[derive(Debug, Clone, Copy, PartialEq, Eq, Structural)]
pub enum AtapiDmaDirection {
    FromDevice,
    ToDevice,
    NoDma,
}

/// An ATAPI packet command: the drive register, the DMA direction, the
/// address registers (which hold the byte count limit) and the packet.
#[derive(Debug, Clone, Copy)]
pub struct AtapiPacketCommand {
    pub drive: u8,
    pub dma: AtapiDmaDirection,
    pub lba: u64,
    pub params: [u8; 32],
    pub params_index: usize,
}

impl AtapiPacketCommand {
    pub open spec fn wf(self) -> bool {
        1 <= self.params_index <= 32
    }

    /// A packet starting with the command byte, in LBA mode, without DMA,
    /// with a byte count limit of `0xFFFF`.
    pub fn new(command: u8) -> (r: Self)
        ensures
            r.wf(),
            r.params@ == seq![command] + seq![0u8; 31],
            r.params_index == 1,
            r.drive == 0x40,
            r.dma == AtapiDmaDirection::NoDma,
            r.lba == 0xff_ff00,
    {
        let mut params: [u8; 32] = [0; 32];
        params.set(0, command);
        assert(params@ =~= seq![command] + seq![0u8; 31]);
        AtapiPacketCommand { drive: 0x40, dma: AtapiDmaDirection::NoDma, lba: 0xff_ff00, params, params_index: 1 }
    }

    pub fn with_dma(self, dma: AtapiDmaDirection) -> (r: Self)
        ensures
            r == (AtapiPacketCommand { dma, ..self }),
    {
        AtapiPacketCommand { dma, ..self }
    }

    pub fn with_second_drive(self, is_second: bool) -> (r: Self)
        ensures
            r == (AtapiPacketCommand { drive: drive_select(self.drive, is_second), ..self }),
    {
        let drive = if is_second {
            self.drive | 0x10
        } else {
            self.drive & 0xef
        };
        AtapiPacketCommand { drive, ..self }
    }

    /// Sets the byte count limit, which goes in the middle and high
    /// address registers.
    pub fn with_byte_count_limit(self, byte_count_limit: u16) -> (r: Self)
        ensures
            r == (AtapiPacketCommand { lba: (byte_count_limit as u64 * 256) as u64, ..self }),
    {
        proof {
            crate::bits::lemma_u16(byte_count_limit);
        }
        AtapiPacketCommand { lba: (byte_count_limit as u64) << 8u64, ..self }
    }

    /// Appends a byte to the packet.
    pub fn push_param(self, param: u8) -> (r: Self)
        requires
            self.wf(),
            self.params_index < 32,
        ensures
            r.wf(),
            r.params@ == self.params@.update(self.params_index as int, param),
            r.params_index == self.params_index + 1,
            r.drive == self.drive,
            r.dma == self.dma,
            r.lba == self.lba,
    {
        let mut s = self;
        s.params.set(s.params_index, param);
        s.params_index = s.params_index + 1;
        s
    }

    /// Appends a 16-bit value, most significant byte first.
    pub fn push_param_u16(self, param: u16) -> (r: Self)
        requires
            self.wf(),
            self.params_index + 2 <= 32,
        ensures
            r.wf(),
            r.params@ == self.params@.update(self.params_index as int, (param / 256) as u8).update(
                self.params_index + 1,
                (param % 256) as u8,
            ),
            r.params_index == self.params_index + 2,
            r.drive == self.drive,
            r.dma == self.dma,
            r.lba == self.lba,
    {
        proof {
            crate::bits::lemma_u16(param);
        }
        self.push_param((param >> 8u16) as u8).push_param((param & 0xff) as u8)
    }

    /// Appends a 32-bit value, most significant byte first.
    pub fn push_param_u32(self, param: u32) -> (r: Self)
        requires
            self.wf(),
            self.params_index + 4 <= 32,
        ensures
            r.wf(),
            r.params@ == self.params@.update(self.params_index as int, (param / 0x100_0000) as u8).update(
                self.params_index + 1,
                ((param / 0x1_0000) % 256) as u8,
            ).update(self.params_index + 2, ((param / 256) % 256) as u8).update(
                self.params_index + 3,
                (param % 256) as u8,
            ),
            r.params_index == self.params_index + 4,
            r.drive == self.drive,
            r.dma == self.dma,
            r.lba == self.lba,
    {
        proof {
            crate::bits::lemma_u32(param);
        }
        self.push_param((param >> 24u32) as u8).push_param((param >> 16u32) as u8).push_param(
            (param >> 8u32) as u8,
        ).push_param((param & 0xff) as u8)
    }

    /// The features register for the DMA direction.
    pub open spec fn spec_features(self) -> u8 {
        match self.dma {
            AtapiDmaDirection::FromDevice => 5,
            AtapiDmaDirection::ToDevice => 1,
            AtapiDmaDirection::NoDma => 0,
        }
    }

    /// The register writes that announce a packet command.
    pub fn write_packet_command(&self, io_port: &IdeIo) -> (r: Vec<ByteWrite>)
        requires
            io_port.command_block + 7 <= u16::MAX,
        ensures
            r@ == command_writes(*io_port, self.spec_features(), 0, self.lba, self.drive, 0xa0),
    {
        let features: u8 = match self.dma {
            AtapiDmaDirection::FromDevice => 5,
            AtapiDmaDirection::ToDevice => 1,
            AtapiDmaDirection::NoDma => 0,
        };
        issue_writes(io_port, features, 0, self.lba, self.drive, COMMAND_PACKET)
    }

    /// The packet as the 16-bit words written to the data port, low byte
    /// first, padded to an even number of bytes.
    pub fn packet_words(&self) -> (r: Vec<u16>)
        requires
            self.wf(),
        ensures
            r@.len() == (self.params_index + 1) / 2,
            forall|i: int| 0 <= i < r@.len() ==> #[trigger] r@[i] == self.params@[2 * i] + 256 * self.params@[2 * i + 1],
    {
        let count = (self.params_index + 1) / 2;
        let mut r: Vec<u16> = Vec::new();
        let mut i: usize = 0;
        while i < count
            invariant
                self.wf(),
                count == (self.params_index + 1) / 2,
                i <= count,
                r@.len() == i,
                forall|j: int| 0 <= j < i ==> #[trigger] r@[j] == self.params@[2 * j] + 256 * self.params@[2 * j + 1],
            decreases count - i,
        {
            let lo = self.params[2 * i];
            let hi = self.params[2 * i + 1];
            proof {
                crate::bits::lemma_join_u8(lo, hi);
            }
            r.push((lo as u16) | ((hi as u16) << 8u16));
            i = i + 1;
        }
        r
    }
}

/// The fields of the identify data that are used.
#[derive(Debug, Clone, Copy)]
pub struct CommandIdentifyData {
    pub general_config: u16,
    pub serial_number: [u8; 20],
    pub capabilities: u16,
    pub user_addressable_sectors_28_mode: u32,
    pub additional_supported: u16,
    pub command_set_supported: u16,
    pub user_addressable_sectors: u64,
    pub physical_logical_sector_size: u16,
    pub logical_sector_size: u32,
    pub extended_user_addressable_sectors: u64,
}

impl CommandIdentifyData {
    /// Decodes the 512 bytes of the identify data.
    pub fn from_bytes(b: &[u8]) -> (r: Self)
        requires
            b@.len() == 512,
        ensures
            r.general_config == le_at(b@, 0, 2),
            r.serial_number@ == b@.subrange(20, 40),
            r.capabilities == le_at(b@, 98, 2),
            r.user_addressable_sectors_28_mode == le_at(b@, 120, 4),
            r.additional_supported == le_at(b@, 138, 2),
            r.command_set_supported == le_at(b@, 166, 2),
            r.user_addressable_sectors == le_at(b@, 200, 8),
            r.physical_logical_sector_size == le_at(b@, 212, 2),
            r.logical_sector_size == le_at(b@, 234, 4),
            r.extended_user_addressable_sectors == le_at(b@, 460, 8),
    {
        let a = read_array16(b, 20);
        let s0 = read_u32(b, 36);
        let serial = [
            a[0], a[1], a[2], a[3], a[4], a[5], a[6], a[7], a[8], a[9], a[10], a[11], a[12], a[13], a[14], a[15],
            b[36], b[37], b[38], b[39],
        ];
        assert(serial@ =~= b@.subrange(20, 40));
        CommandIdentifyData {
            general_config: read_u16(b, 0),
            serial_number: serial,
            capabilities: read_u16(b, 98),
            user_addressable_sectors_28_mode: read_u32(b, 120),
            additional_supported: read_u16(b, 138),
            command_set_supported: read_u16(b, 166),
            user_addressable_sectors: read_u64(b, 200),
            physical_logical_sector_size: read_u16(b, 212),
            logical_sector_size: read_u32(b, 234),
            extended_user_addressable_sectors: read_u64(b, 460),
        }
    }

    /// A device answered: the configuration word is not all ones in its
    /// high byte (nor `0x7F`), and the serial number is neither all zeros
    /// nor all ones.
    pub fn is_valid(&self) -> (r: bool)
        ensures
            r == (self.general_config / 256 != 0xff && self.general_config / 256 != 0x7f && (exists|i: int|
                0 <= i < 20 && self.serial_number@[i] != 0) && (exists|i: int| 0 <= i < 20 && self.serial_number@[i]
                != 0xff)),
    {
        let g = self.general_config;
        let high = g >> 8u16;
        proof {
            crate::bits::lemma_u16(g);
        }
        if high == 0xff || high == 0x7f {
            return false;
        }
        let mut any_nonzero = false;
        let mut any_not_ff = false;
        let mut i: usize = 0;
        while i < 20
            invariant
                i <= 20,
                any_nonzero == exists|j: int| 0 <= j < i && self.serial_number@[j] != 0,
                any_not_ff == exists|j: int| 0 <= j < i && self.serial_number@[j] != 0xff,
            decreases 20 - i,
        {
            let x = self.serial_number[i];
            if x != 0 {
                any_nonzero = true;
            }
            if x != 0xff {
                any_not_ff = true;
            }
            i = i + 1;
        }
        any_nonzero && any_not_ff
    }

    pub fn is_dma_supported(&self) -> (r: bool)
        ensures
            r == (self.capabilities & 0x100 != 0),
    {
        self.capabilities & 0x100 != 0
    }

    pub fn is_lba_supported(&self) -> (r: bool)
        ensures
            r == (self.capabilities & 0x200 != 0),
    {
        self.capabilities & 0x200 != 0
    }

    pub fn is_lba48_supported(&self) -> (r: bool)
        ensures
            r == (self.command_set_supported & 0x400 != 0),
    {
        self.command_set_supported & 0x400 != 0
    }

    /// The number of sectors: the 48-bit count (or the extended count when
    /// it is marked as supported) with 48-bit addressing, else the 28-bit
    /// count.
    pub fn user_addressable_sectors(&self) -> (r: u64)
        ensures
            r == if self.command_set_supported & 0x400 != 0 {
                if self.additional_supported & 0x8 != 0 {
                    self.extended_user_addressable_sectors
                } else {
                    self.user_addressable_sectors
                }
            } else {
                self.user_addressable_sectors_28_mode as u64
            },
    {
        if self.is_lba48_supported() {
            if self.additional_supported & 0x8 != 0 {
                self.extended_user_addressable_sectors
            } else {
                self.user_addressable_sectors
            }
        } else {
            self.user_addressable_sectors_28_mode as u64
        }
    }

    /// The sector size: twice the logical sector size (given in words)
    /// when large logical sectors are supported and it is given, else 512.
    pub fn sector_size(&self) -> (r: u32)
        requires
            self.physical_logical_sector_size & 0x1000 != 0 && self.logical_sector_size != 0
                ==> 256 <= self.logical_sector_size <= u32::MAX / 2,
        ensures
            r == if self.physical_logical_sector_size & 0x1000 != 0 && self.logical_sector_size != 0 {
                self.logical_sector_size * 2
            } else {
                512
            },
    {
        if self.physical_logical_sector_size & 0x1000 != 0 && self.logical_sector_size != 0 {
            self.logical_sector_size * 2
        } else {
            DEFAULT_SECTOR_SIZE
        }
    }
}

/// The number of sectors and the sector size from the answer to the
/// ATAPI read capacity command: the last sector and the block size, both
/// big-endian.
pub fn atapi_capacity(data: &[u8]) -> (r: (u64, u32))
    requires
        data@.len() == 8,
    ensures
        r.0 == data@[0] * 0x100_0000 + data@[1] * 0x1_0000 + data@[2] * 0x100 + data@[3] + 1,
        r.1 == data@[4] * 0x100_0000 + data@[5] * 0x1_0000 + data@[6] * 0x100 + data@[7],
{
    let last = crate::bytes::u32_from_le(data[3], data[2], data[1], data[0]);
    let size = crate::bytes::u32_from_le(data[7], data[6], data[5], data[4]);
    (last as u64 + 1, size)
}

/// The packet that reads `len_sectors` sectors from `start_sector`.
pub fn atapi_read_10(start_sector: u32, len_sectors: u16, is_second: bool) -> (r: AtapiPacketCommand)
    ensures
        r.wf(),
        r.params_index == 10,
        r.params@.subrange(0, 10) == seq![
            0x28u8,
            0,
            (start_sector / 0x100_0000) as u8,
            ((start_sector / 0x1_0000) % 256) as u8,
            ((start_sector / 256) % 256) as u8,
            (start_sector % 256) as u8,
            0,
            (len_sectors / 256) as u8,
            (len_sectors % 256) as u8,
            0,
        ],
        r.drive == drive_select(0x40, is_second),
{
    let c = AtapiPacketCommand::new(0x28).with_second_drive(is_second).push_param(0).push_param_u32(
        start_sector,
    ).push_param(0).push_param_u16(len_sectors).push_param(0);
    assert(c.params@.subrange(0, 10) =~= seq![
        0x28u8,
        0,
        (start_sector / 0x100_0000) as u8,
        ((start_sector / 0x1_0000) % 256) as u8,
        ((start_sector / 256) % 256) as u8,
        (start_sector % 256) as u8,
        0,
        (len_sectors / 256) as u8,
        (len_sectors % 256) as u8,
        0,
    ]);
    c
}

/// A disk: its kind, size, and which drive of the channel it is.
#[derive(Debug, Clone, Copy)]
pub struct IdeDevice {
    pub device_type: IdeDeviceType,
    pub number_of_sectors: u64,
    pub sector_size: u32,
    pub second_device_select: bool,
}

/// The ATA transfers of `n` sectors from `start`: runs of at most 255
/// sectors, in order.
pub open spec fn ata_chunks(start: int, n: int) -> Seq<(u64, u64)>
    decreases n,
{
    if n <= 0 {
        Seq::empty()
    } else if n <= 255 {
        seq![(start as u64, n as u64)]
    } else {
        seq![(start as u64, 255u64)] + ata_chunks(start + 255, n - 255)
    }
}

impl IdeDevice {
    pub fn is_primary(&self) -> (r: bool)
        ensures
            r == !self.second_device_select,
    {
        !self.second_device_select
    }

    pub fn is_secondary(&self) -> (r: bool)
        ensures
            r == self.second_device_select,
    {
        self.second_device_select
    }

    pub fn number_of_sectors(&self) -> (r: u64)
        ensures
            r == self.number_of_sectors,
    {
        self.number_of_sectors
    }

    pub fn sector_size(&self) -> (r: u32)
        ensures
            r == self.sector_size,
    {
        self.sector_size
    }

    /// The sector count of a transfer of `buffer_len` bytes from
    /// `start_sector`: the buffer must be whole sectors and the transfer
    /// must end before the last sector.
    fn transfer_sectors(&self, start_sector: u64, buffer_len: u64) -> (r: Result<u64, IdeError>)
        requires
            self.sector_size > 0,
        ensures
            (buffer_len as int) % (self.sector_size as int) != 0 ==> r == Err::<u64, IdeError>(IdeError::UnalignedSize),
            (buffer_len as int) % (self.sector_size as int) == 0 && start_sector + (buffer_len as int) / (self.sector_size as int)
                >= self.number_of_sectors ==> r == Err::<u64, IdeError>(IdeError::BoundsExceeded),
            (buffer_len as int) % (self.sector_size as int) == 0 && start_sector + (buffer_len as int) / (self.sector_size as int)
                < self.number_of_sectors ==> r == Ok::<u64, IdeError>(buffer_len / (self.sector_size as u64)),
    {
        let sector_size = self.sector_size as u64;
        if buffer_len % sector_size != 0 {
            return Err(IdeError::UnalignedSize);
        }
        let n = buffer_len / sector_size;
        match start_sector.checked_add(n) {
            None => Err(IdeError::BoundsExceeded),
            Some(end) => {
                if end >= self.number_of_sectors {
                    Err(IdeError::BoundsExceeded)
                } else {
                    Ok(n)
                }
            },
        }
    }

    /// The transfers that read `buffer_len` bytes from `start_sector`: ATA
    /// disks read at most 255 sectors at a time, ATAPI disks all at once.
    pub fn read_sync(&self, start_sector: u64, buffer_len: u64) -> (r: Result<Vec<(u64, u64)>, IdeError>)
        requires
            self.sector_size > 0,
        ensures
            (buffer_len as int) % (self.sector_size as int) != 0 ==> r matches Err(IdeError::UnalignedSize),
            (buffer_len as int) % (self.sector_size as int) == 0 && start_sector + (buffer_len as int) / (self.sector_size as int)
                >= self.number_of_sectors ==> r matches Err(IdeError::BoundsExceeded),
            (buffer_len as int) % (self.sector_size as int) == 0 && start_sector + (buffer_len as int) / (self.sector_size as int)
                < self.number_of_sectors ==> (r matches Ok(v) && v@ == (if self.device_type == IdeDeviceType::Ata {
                ata_chunks(start_sector as int, (buffer_len as int) / (self.sector_size as int))
            } else {
                seq![(start_sector, ((buffer_len as int) / (self.sector_size as int)) as u64)]
            })),
    {
        let n = self.transfer_sectors(start_sector, buffer_len)?;
        if self.device_type == IdeDeviceType::Ata {
            Ok(split_ata(start_sector, n))
        } else {
            let mut v: Vec<(u64, u64)> = Vec::new();
            v.push((start_sector, n));
            assert(v@ =~= seq![(start_sector, n)]);
            Ok(v)
        }
    }

    /// The transfers that write `buffer_len` bytes from `start_sector`, at
    /// most 255 sectors at a time; only ATA disks are written.
    pub fn write_sync(&self, start_sector: u64, buffer_len: u64) -> (r: Result<Vec<(u64, u64)>, IdeError>)
        requires
            self.sector_size > 0,
            self.device_type == IdeDeviceType::Ata,
        ensures
            (buffer_len as int) % (self.sector_size as int) != 0 ==> r matches Err(IdeError::UnalignedSize),
            (buffer_len as int) % (self.sector_size as int) == 0 && start_sector + (buffer_len as int) / (self.sector_size as int)
                >= self.number_of_sectors ==> r matches Err(IdeError::BoundsExceeded),
            (buffer_len as int) % (self.sector_size as int) == 0 && start_sector + (buffer_len as int) / (self.sector_size as int)
                < self.number_of_sectors ==> (r matches Ok(v) && v@ == ata_chunks(
                start_sector as int,
                (buffer_len as int) / (self.sector_size as int),
            )),
    {
        let n = self.transfer_sectors(start_sector, buffer_len)?;
        Ok(split_ata(start_sector, n))
    }
}

/// Runs of at most 255 sectors covering `n` sectors from `start`.
fn split_ata(start: u64, n: u64) -> (r: Vec<(u64, u64)>)
    requires
        start + n <= u64::MAX,
    ensures
        r@ == ata_chunks(start as int, n as int),
{
    let mut r: Vec<(u64, u64)> = Vec::new();
    let mut s = start;
    let mut left = n;
    while left != 0
        invariant
            s + left == start + n,
            start + n <= u64::MAX,
            r@ + ata_chunks(s as int, left as int) == ata_chunks(start as int, n as int),
        decreases left,
    {
        let now = if left < 255 {
            left
        } else {
            255
        };
        let ghost before = r@;
        r.push((s, now));
        proof {
            if left <= 255 {
                assert(ata_chunks(s as int, left as int) == seq![(s, left)]);
                assert(ata_chunks((s + now) as int, (left - now) as int) =~= Seq::<(u64, u64)>::empty());
            } else {
                assert(ata_chunks(s as int, left as int) == seq![(s, 255u64)] + ata_chunks(s + 255, left - 255));
            }
            assert(before + ata_chunks(s as int, left as int) =~= r@ + ata_chunks((s + now) as int, (left - now) as int));
        }
        s = s + now;
        left = left - now;
    }
    assert(ata_chunks(s as int, 0) =~= Seq::<(u64, u64)>::empty());
    assert(r@ + Seq::<(u64, u64)>::empty() =~= r@);
    r
}

} // verus!
