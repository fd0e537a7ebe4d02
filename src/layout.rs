//! Byte-exact decoding of the boot sector and its BIOS Parameter Block.
//!
//! Every field is read at its fixed offset, little-endian, from a full
//! sector; nothing relies on the host's struct layout.
use vstd::prelude::*;

use crate::error::Error;

verus! {

/// Size of every sector this core handles.
pub const SECTOR_SIZE: usize = 512;

/// The boot signature `55 AA`, read as a little-endian 16-bit value.
pub const BOOT_SIGNATURE: u16 = 0xAA55;

/// The little-endian 16-bit value stored at `off`.
pub open spec fn le16(b: Seq<u8>, off: int) -> int {
    b[off] as int + 256 * (b[off + 1] as int)
}

/// The little-endian 32-bit value stored at `off`.
pub open spec fn le32(b: Seq<u8>, off: int) -> int {
    le16(b, off) + 65536 * le16(b, off + 2)
}

pub(crate) fn read_u16(raw: &[u8; 512], off: usize) -> (r: u16)
    requires
        off + 2 <= 512,
    ensures
        r as int == le16(raw@, off as int),
{
    raw[off] as u16 + (raw[off + 1] as u16) * 256
}

pub(crate) fn read_u32(raw: &[u8; 512], off: usize) -> (r: u32)
    requires
        off + 4 <= 512,
    ensures
        r as int == le32(raw@, off as int),
{
    let lo = read_u16(raw, off);
    let hi = read_u16(raw, off + 2);
    lo as u32 + (hi as u32) * 65536
}

fn read_bytes<const N: usize>(raw: &[u8; 512], off: usize) -> (r: [u8; N])
    requires
        off + N <= 512,
    ensures
        r@ == raw@.subrange(off as int, off + N),
{
    let mut r = [0u8; N];
    let mut i: usize = 0;
    while i < N
        invariant
            i <= N,
            off + N <= 512,
            r@.len() == N,
            forall|k: int| 0 <= k < i ==> r@[k] == raw@[off + k],
        decreases N - i,
    {
        r[i] = raw[off + i];
        i += 1;
    }
    assert(r@ =~= raw@.subrange(off as int, off + N));
    r
}

/// The BIOS Parameter Block of a FAT32 volume, bytes 11 to 89 of the boot
/// sector.
pub struct BiosParameterBlock {
    pub bytes_per_sector: u16,
    pub sectors_per_cluster: u8,
    pub reserved_sector_count: u16,
    pub num_fats: u8,
    pub root_entry_count: u16,
    pub total_sectors_16: u16,
    pub media_descriptor: u8,
    pub fat_size_16: u16,
    pub sectors_per_track: u16,
    pub num_heads: u16,
    pub hidden_sectors: u32,
    pub total_sectors_32: u32,
    pub fat_size_32: u32,
    pub ext_flags: u16,
    pub fs_version: u16,
    pub root_cluster: u32,
    pub fs_info_sector: u16,
    pub backup_boot_sector: u16,
    pub reserved: [u8; 12],
    pub drive_num: u8,
    pub reserved_1: u8,
    pub boot_signature: u8,
    pub volume_id: u32,
    pub volume_label: [u8; 11],
    pub fs_type: [u8; 8],
}

/// The whole boot sector: jump, OEM name, BPB, boot code and signature.
pub struct BootSector {
    pub jmp_boot: [u8; 3],
    pub oem_name: [u8; 8],
    pub bpb: BiosParameterBlock,
    pub boot_code: [u8; 420],
    pub boot_signature: u16,
}

impl BiosParameterBlock {
    /// Each field holds the bytes at its fixed offset in the sector `raw`.
    pub open spec fn read_from(&self, raw: Seq<u8>) -> bool {
        &&& self.bytes_per_sector as int == le16(raw, 11)
        &&& self.sectors_per_cluster == raw[13]
        &&& self.reserved_sector_count as int == le16(raw, 14)
        &&& self.num_fats == raw[16]
        &&& self.root_entry_count as int == le16(raw, 17)
        &&& self.total_sectors_16 as int == le16(raw, 19)
        &&& self.media_descriptor == raw[21]
        &&& self.fat_size_16 as int == le16(raw, 22)
        &&& self.sectors_per_track as int == le16(raw, 24)
        &&& self.num_heads as int == le16(raw, 26)
        &&& self.hidden_sectors as int == le32(raw, 28)
        &&& self.total_sectors_32 as int == le32(raw, 32)
        &&& self.fat_size_32 as int == le32(raw, 36)
        &&& self.ext_flags as int == le16(raw, 40)
        &&& self.fs_version as int == le16(raw, 42)
        &&& self.root_cluster as int == le32(raw, 44)
        &&& self.fs_info_sector as int == le16(raw, 48)
        &&& self.backup_boot_sector as int == le16(raw, 50)
        &&& self.reserved@ == raw.subrange(52, 64)
        &&& self.drive_num == raw[64]
        &&& self.reserved_1 == raw[65]
        &&& self.boot_signature == raw[66]
        &&& self.volume_id as int == le32(raw, 67)
        &&& self.volume_label@ == raw.subrange(71, 82)
        &&& self.fs_type@ == raw.subrange(82, 90)
    }

    /// Reads every field of the BPB at its fixed offset in the sector.
    pub fn parse(raw: &[u8; 512]) -> (r: BiosParameterBlock)
        ensures
            r.read_from(raw@),
    {
        BiosParameterBlock {
            bytes_per_sector: read_u16(raw, 11),
            sectors_per_cluster: raw[13],
            reserved_sector_count: read_u16(raw, 14),
            num_fats: raw[16],
            root_entry_count: read_u16(raw, 17),
            total_sectors_16: read_u16(raw, 19),
            media_descriptor: raw[21],
            fat_size_16: read_u16(raw, 22),
            sectors_per_track: read_u16(raw, 24),
            num_heads: read_u16(raw, 26),
            hidden_sectors: read_u32(raw, 28),
            total_sectors_32: read_u32(raw, 32),
            fat_size_32: read_u32(raw, 36),
            ext_flags: read_u16(raw, 40),
            fs_version: read_u16(raw, 42),
            root_cluster: read_u32(raw, 44),
            fs_info_sector: read_u16(raw, 48),
            backup_boot_sector: read_u16(raw, 50),
            reserved: read_bytes(raw, 52),
            drive_num: raw[64],
            reserved_1: raw[65],
            boot_signature: raw[66],
            volume_id: read_u32(raw, 67),
            volume_label: read_bytes(raw, 71),
            fs_type: read_bytes(raw, 82),
        }
    }
}

impl BootSector {
    /// Each field holds the bytes at its fixed offset in the sector `raw`.
    pub open spec fn read_from(&self, raw: Seq<u8>) -> bool {
        &&& self.jmp_boot@ == raw.subrange(0, 3)
        &&& self.oem_name@ == raw.subrange(3, 11)
        &&& self.bpb.read_from(raw)
        &&& self.boot_code@ == raw.subrange(90, 510)
        &&& self.boot_signature as int == le16(raw, 510)
    }

    /// Reads every field of the boot sector at its fixed offset, with no
    /// validation.
    pub fn parse(raw: &[u8; 512]) -> (r: BootSector)
        ensures
            r.read_from(raw@),
    {
        BootSector {
            jmp_boot: read_bytes(raw, 0),
            oem_name: read_bytes(raw, 3),
            bpb: BiosParameterBlock::parse(raw),
            boot_code: read_bytes(raw, 90),
            boot_signature: read_u16(raw, 510),
        }
    }
}

/// A sector is accepted as a FAT32 boot sector when it ends with the boot
/// signature and declares 512-byte sectors.
pub open spec fn is_supported_boot_sector(raw: Seq<u8>) -> bool {
    le16(raw, 510) == BOOT_SIGNATURE as int && le16(raw, 11) == 512
}

/// Decodes sector 0 of a volume, rejecting a wrong boot signature or any
/// sector size but 512 bytes.
pub fn decode_boot_sector(raw: &[u8; 512]) -> (r: Result<BootSector, Error>)
    ensures
        r is Ok <==> is_supported_boot_sector(raw@),
        r matches Ok(bs) ==> bs.read_from(raw@),
        r matches Err(e) ==> e == Error::InvalidFat32Structure,
{
    let bs = BootSector::parse(raw);
    if bs.boot_signature != BOOT_SIGNATURE {
        return Err(Error::InvalidFat32Structure);
    }
    if bs.bpb.bytes_per_sector != 512 {
        return Err(Error::InvalidFat32Structure);
    }
    Ok(bs)
}

} // verus!
