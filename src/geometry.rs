//! Volume geometry: the numbers derived once from the BPB at mount time.
use vstd::prelude::*;

use crate::error::Error;
use crate::layout::{
    decode_boot_sector, is_supported_boot_sector, BOOT_SIGNATURE, le16, le32, BiosParameterBlock,
};

verus! {

/// Derived, immutable geometry of a mounted volume.
#[derive(Debug, Clone, Copy, PartialEq, Eq, Structural)]
pub struct FsInfo {
    pub bytes_per_sector: u32,
    pub sectors_per_cluster: u32,
    pub reserved_sector_count: u32,
    pub num_fats: u32,
    pub fat_size: u32,
    pub root_cluster: u32,
    pub first_fat_sector: u32,
    pub first_data_sector: u32,
    pub cluster_count: u32,
}

/// First sector of the data region: the reserved sectors, then every FAT.
pub open spec fn first_data_sector_of(reserved: int, num_fats: int, fat_size: int) -> int {
    reserved + num_fats * fat_size
}

/// The geometry given by BPB field values; a sector size other than 512, a
/// zero cluster size, or fewer total sectors than the data region's start
/// make the volume invalid.
pub open spec fn geometry_of(
    bytes_per_sector: int,
    sectors_per_cluster: int,
    reserved: int,
    num_fats: int,
    fat_size: int,
    total_sectors: int,
    root_cluster: int,
) -> Result<FsInfo, Error> {
    let first_data = first_data_sector_of(reserved, num_fats, fat_size);
    if bytes_per_sector != 512 || sectors_per_cluster == 0 || total_sectors < first_data {
        Err(Error::InvalidFat32Structure)
    } else {
        Ok(
            FsInfo {
                bytes_per_sector: 512,
                sectors_per_cluster: sectors_per_cluster as u32,
                reserved_sector_count: reserved as u32,
                num_fats: num_fats as u32,
                fat_size: fat_size as u32,
                root_cluster: root_cluster as u32,
                first_fat_sector: reserved as u32,
                first_data_sector: first_data as u32,
                cluster_count: ((total_sectors - first_data) / sectors_per_cluster) as u32,
            },
        )
    }
}

/// The geometry of a BPB.
pub open spec fn bpb_geometry(bpb: BiosParameterBlock) -> Result<FsInfo, Error> {
    geometry_of(
        bpb.bytes_per_sector as int,
        bpb.sectors_per_cluster as int,
        bpb.reserved_sector_count as int,
        bpb.num_fats as int,
        bpb.fat_size_32 as int,
        bpb.total_sectors_32 as int,
        bpb.root_cluster as int,
    )
}

/// The geometry of a volume whose sector 0 holds `raw`.
pub open spec fn boot_geometry(raw: Seq<u8>) -> Result<FsInfo, Error> {
    if !is_supported_boot_sector(raw) {
        Err(Error::InvalidFat32Structure)
    } else {
        geometry_of(
            le16(raw, 11),
            raw[13] as int,
            le16(raw, 14),
            raw[16] as int,
            le32(raw, 36),
            le32(raw, 32),
            le32(raw, 44),
        )
    }
}

impl FsInfo {
    /// What every mounted volume's geometry satisfies.
    pub open spec fn wf(&self) -> bool {
        &&& self.bytes_per_sector == 512
        &&& 0 < self.sectors_per_cluster <= 255
        &&& self.reserved_sector_count <= 0xFFFF
        &&& self.num_fats <= 255
        &&& self.first_fat_sector == self.reserved_sector_count
        &&& self.first_data_sector as int == first_data_sector_of(
            self.reserved_sector_count as int,
            self.num_fats as int,
            self.fat_size as int,
        )
        &&& self.first_data_sector as int + self.cluster_count as int
            * self.sectors_per_cluster as int <= u32::MAX
    }

    /// Computes the geometry from a BPB, rejecting impossible volumes.
    pub fn from_bpb(bpb: &BiosParameterBlock) -> (r: Result<FsInfo, Error>)
        ensures
            r == bpb_geometry(*bpb),
            r matches Ok(info) ==> info.wf(),
    {
        if bpb.bytes_per_sector != 512 || bpb.sectors_per_cluster == 0 {
            return Err(Error::InvalidFat32Structure);
        }
        let reserved = bpb.reserved_sector_count as u32;
        let num_fats = bpb.num_fats as u32;
        let fat_size = bpb.fat_size_32;
        let spc = bpb.sectors_per_cluster as u32;
        assert(num_fats as int * fat_size as int <= 255 * 0xFFFF_FFFF) by (nonlinear_arith)
            requires
                num_fats <= 255,
        ;
        let first_data: u64 = reserved as u64 + num_fats as u64 * fat_size as u64;
        let total = bpb.total_sectors_32;
        if (total as u64) < first_data {
            return Err(Error::InvalidFat32Structure);
        }
        let first_data = first_data as u32;
        let cluster_count = (total - first_data) / spc;
        assert(cluster_count as int * spc as int <= (total - first_data) as int) by (nonlinear_arith)
            requires
                cluster_count == (total - first_data) as int / spc as int,
                spc > 0,
        ;
        Ok(
            FsInfo {
                bytes_per_sector: 512,
                sectors_per_cluster: spc,
                reserved_sector_count: reserved,
                num_fats,
                fat_size,
                root_cluster: bpb.root_cluster,
                first_fat_sector: reserved,
                first_data_sector: first_data,
                cluster_count,
            },
        )
    }
}

/// Decodes sector 0 and derives the volume's geometry from it.
pub fn geometry_from_sector(raw: &[u8; 512]) -> (r: Result<FsInfo, Error>)
    ensures
        r == boot_geometry(raw@),
        r matches Ok(info) ==> info.wf(),
{
    match decode_boot_sector(raw) {
        Ok(bs) => FsInfo::from_bpb(&bs.bpb),
        Err(e) => Err(e),
    }
}

/// A boot sector with the boot signature, 512-byte sectors, a nonzero
/// cluster size and enough sectors for its reserved and FAT regions
/// mounts, with the FAT right after the reserved sectors, the data region
/// right after the FATs, and as many clusters as fit whole in the rest.
pub proof fn lemma_valid_boot_sector_mounts(raw: Seq<u8>)
    requires
        raw.len() == 512,
        le16(raw, 510) == BOOT_SIGNATURE as int,
        le16(raw, 11) == 512,
        raw[13] != 0,
        le32(raw, 32) >= first_data_sector_of(le16(raw, 14), raw[16] as int, le32(raw, 36)),
    ensures
        boot_geometry(raw) is Ok,
        boot_geometry(raw)->Ok_0.first_fat_sector as int == le16(raw, 14),
        boot_geometry(raw)->Ok_0.first_data_sector as int == first_data_sector_of(
            le16(raw, 14),
            raw[16] as int,
            le32(raw, 36),
        ),
        boot_geometry(raw)->Ok_0.cluster_count as int == (le32(raw, 32) - first_data_sector_of(
            le16(raw, 14),
            raw[16] as int,
            le32(raw, 36),
        )) / raw[13] as int,
{
    let first_data = first_data_sector_of(le16(raw, 14), raw[16] as int, le32(raw, 36));
    let spc = raw[13] as int;
    let total = le32(raw, 32);
    assert(0 <= (total - first_data) / spc <= total - first_data) by (nonlinear_arith)
        requires
            spc >= 1,
            total >= first_data,
    ;
    assert(le32(raw, 32) <= u32::MAX) by {
        assert(le16(raw, 32) <= 0xFFFF && le16(raw, 34) <= 0xFFFF);
    }
    assert(first_data >= 0) by (nonlinear_arith)
        requires
            first_data == le16(raw, 14) + raw[16] as int * le32(raw, 36),
            le16(raw, 14) >= 0,
            raw[16] as int >= 0,
            le32(raw, 36) >= 0,
    ;
}

/// A boot sector without the boot signature, or declaring a sector size
/// other than 512, does not mount.
pub proof fn lemma_unsupported_boot_sector_rejected(raw: Seq<u8>)
    requires
        le16(raw, 510) != BOOT_SIGNATURE as int || le16(raw, 11) != 512,
    ensures
        boot_geometry(raw) == Err::<FsInfo, Error>(Error::InvalidFat32Structure),
{
}

/// A boot sector declaring fewer sectors than its reserved and FAT regions
/// take does not mount.
pub proof fn lemma_short_volume_rejected(raw: Seq<u8>)
    requires
        le32(raw, 32) < first_data_sector_of(le16(raw, 14), raw[16] as int, le32(raw, 36)),
    ensures
        boot_geometry(raw) == Err::<FsInfo, Error>(Error::InvalidFat32Structure),
{
}

} // verus!
