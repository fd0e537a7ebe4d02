//! A mounted FAT32 volume over a block device.
use vstd::prelude::*;

use crate::chain::{
    chain_in_table, entry_in_sector, is_data_cluster, masked_entry, table_lookup, walk_table,
    ChainWalk, WalkStatus, ENTRY_MASK,
};
use crate::error::Error;
use crate::geometry::{boot_geometry, geometry_from_sector, FsInfo};
use crate::layout::{le32, SECTOR_SIZE};

verus! {

/// A block device of fixed-size sectors, implemented by the medium.
///
/// Its contents are modelled by `sector`, the bytes stored at each sector
/// number, and its size by `num_sectors`. A verified implementation defines
/// both for its medium; the defaults describe an empty device. Code generic
/// over `Disk` sees neither default and relies only on the method contracts.
pub trait Disk {
    /// The bytes stored in sector `lba`.
    closed spec fn sector(&self, lba: u32) -> Seq<u8> {
        Seq::empty()
    }

    /// The number of sectors on the device.
    closed spec fn num_sectors(&self) -> u32 {
        0
    }

    /// Reads sector `sector_lba` into `buffer`; a successful read hands
    /// back the stored bytes.
    fn read_sector(&self, sector_lba: u32, buffer: &mut [u8]) -> (r: Result<(), Error>)
        ensures
            r is Ok ==> final(buffer)@ == self.sector(sector_lba),
    ;

    /// Writes `buffer` to sector `sector_lba`; after a successful write the
    /// sector holds those bytes.
    fn write_sector(&mut self, sector_lba: u32, buffer: &[u8]) -> (r: Result<(), Error>)
        ensures
            r is Ok ==> final(self).sector(sector_lba) == buffer@,
    ;

    /// Number of sectors on the device.
    fn sector_count(&self) -> (r: u32)
        ensures
            r == self.num_sectors(),
    ;
}

/// The first sector of a data cluster.
pub open spec fn lba_of(info: FsInfo, cluster: u32) -> int {
    info.first_data_sector as int + (cluster as int - 2) * info.sectors_per_cluster as int
}

/// The FAT sector that holds the entry of `cluster`.
pub open spec fn fat_entry_sector(info: FsInfo, cluster: u32) -> int {
    info.first_fat_sector as int + (cluster as int * 4) / info.bytes_per_sector as int
}

/// The byte offset of the entry of `cluster` inside its FAT sector.
pub open spec fn fat_entry_offset(info: FsInfo, cluster: u32) -> int {
    (cluster as int * 4) % info.bytes_per_sector as int
}

/// The 32-bit value that the device stores as the FAT entry of `cluster`.
pub open spec fn stored_entry<D: Disk>(disk: D, info: FsInfo, cluster: u32) -> u32 {
    le32(disk.sector(fat_entry_sector(info, cluster) as u32), fat_entry_offset(info, cluster)) as u32
}

/// The first FAT of the device, as stored 32-bit values by cluster.
pub open spec fn stored_fat<D: Disk>(disk: D, info: FsInfo) -> spec_fn(u32) -> u32 {
    |cluster: u32| stored_entry(disk, info, cluster)
}

/// Where the entry of a data cluster lies: its FAT sector and its byte
/// offset in that sector.
pub fn fat_entry_position(info: &FsInfo, cluster: u32) -> (r: (u32, u32))
    requires
        info.wf(),
        is_data_cluster(cluster, info.cluster_count),
    ensures
        r.0 as int == fat_entry_sector(*info, cluster),
        r.1 as int == fat_entry_offset(*info, cluster),
        r.1 + 4 <= 512,
{
    let offset: u64 = cluster as u64 * 4;
    let sector = info.first_fat_sector as u64 + offset / 512;
    let in_sector = (offset % 512) as u32;
    assert(in_sector + 4 <= 512) by {
        assert(offset % 4 == 0);
    }
    (sector as u32, in_sector)
}

/// A mounted volume: it owns its device and the geometry read at mount.
pub struct Fat32<D: Disk> {
    disk: D,
    info: FsInfo,
}

impl<D: Disk> View for Fat32<D> {
    type V = FsInfo;

    closed spec fn view(&self) -> FsInfo {
        self.info
    }
}

impl<D: Disk> Fat32<D> {
    #[verifier::type_invariant]
    spec fn inv(&self) -> bool {
        self.info.wf()
    }

    /// The device the volume owns.
    pub closed spec fn device(&self) -> D {
        self.disk
    }

    /// Reads sector 0, decodes it and derives the geometry. A device with
    /// no sector, or one that fails the read, gives `IoError`; a boot
    /// sector that is not a supported FAT32 one gives
    /// `InvalidFat32Structure`.
    pub fn mount(disk: D) -> (r: Result<Self, Error>)
        ensures
            disk.num_sectors() == 0 ==> r == Err::<Self, Error>(Error::IoError),
            r matches Ok(v) ==> v@.wf() && v.device() == disk && Ok::<FsInfo, Error>(v@)
                == boot_geometry(disk.sector(0)),
            r matches Err(e) ==> e == Error::IoError || (e == Error::InvalidFat32Structure
                && boot_geometry(disk.sector(0)) == Err::<FsInfo, Error>(e)),
    {
        if disk.sector_count() == 0 {
            return Err(Error::IoError);
        }
        let mut buffer = [0u8; SECTOR_SIZE];
        if disk.read_sector(0, &mut buffer).is_err() {
            return Err(Error::IoError);
        }
        match geometry_from_sector(&buffer) {
            Ok(info) => Ok(Fat32 { disk, info }),
            Err(e) => Err(e),
        }
    }

    /// The volume's geometry.
    pub fn info(&self) -> (r: &FsInfo)
        ensures
            *r == self@,
            r.wf(),
    {
        proof {
            use_type_invariant(self);
        }
        &self.info
    }

    /// The cluster where the root directory starts.
    pub fn root_cluster(&self) -> (r: u32)
        ensures
            r == self@.root_cluster,
    {
        self.info.root_cluster
    }

    /// Bytes in a sector.
    pub fn bytes_per_sector(&self) -> (r: u32)
        ensures
            r == self@.bytes_per_sector,
    {
        self.info.bytes_per_sector
    }

    /// Sectors in a cluster.
    pub fn sectors_per_cluster(&self) -> (r: u32)
        ensures
            r == self@.sectors_per_cluster,
    {
        self.info.sectors_per_cluster
    }

    /// The first sector of data cluster `cluster`.
    pub fn cluster_to_lba(&self, cluster: u32) -> (r: u32)
        requires
            cluster >= 2,
            lba_of(self@, cluster) <= u32::MAX,
        ensures
            r as int == lba_of(self@, cluster),
    {
        proof {
            use_type_invariant(self);
            assert((cluster - 2) as int * self.info.sectors_per_cluster as int <= u32::MAX)
                by (nonlinear_arith)
                requires
                    self.info.first_data_sector as int + (cluster - 2) as int
                        * self.info.sectors_per_cluster as int <= u32::MAX,
            ;
        }
        let cluster_offset = cluster - 2;
        self.info.first_data_sector + cluster_offset * self.info.sectors_per_cluster
    }

    /// The FAT entry of `cluster`, with its top 4 bits cleared. A cluster
    /// outside `2 ..= cluster_count + 1` gives `InvalidFat32Structure`
    /// without touching the device; otherwise the entry's FAT sector is
    /// read, and a failed read gives `IoError`.
    pub fn get_fat_entry(&self, cluster: u32) -> (r: Result<u32, Error>)
        ensures
            !is_data_cluster(cluster, self@.cluster_count) <==> r == Err::<u32, Error>(
                Error::InvalidFat32Structure,
            ),
            r matches Ok(v) ==> v == masked_entry(stored_entry(self.device(), self@, cluster)),
            r matches Ok(v) ==> v <= ENTRY_MASK,
            r matches Err(e) ==> e == Error::IoError || e == Error::InvalidFat32Structure,
    {
        proof {
            use_type_invariant(self);
        }
        if cluster < 2 || cluster as u64 >= self.info.cluster_count as u64 + 2 {
            return Err(Error::InvalidFat32Structure);
        }
        let (fat_sector_num, fat_entry_in_sector) = fat_entry_position(&self.info, cluster);
        let mut buffer = [0u8; SECTOR_SIZE];
        if self.disk.read_sector(fat_sector_num, &mut buffer).is_err() {
            return Err(Error::IoError);
        }
        Ok(entry_in_sector(&buffer, fat_entry_in_sector))
    }

    /// Walks the chain that starts at `start`, reading each entry from the
    /// device. The walk ends at an end-of-chain entry (`Finished`), or fails
    /// on a read error, a bad, free, reserved or out-of-range link, or a
    /// chain longer than the volume's cluster count. Unless a read fails, it
    /// is exactly the walk over the FAT that the device stores.
    pub fn walk_chain(&self, start: u32) -> (r: ChainWalk)
        ensures
            !(r.status is Pending),
            r.status != WalkStatus::Failed(Error::IoError) ==> r@ == chain_in_table(
                stored_fat(self.device(), self@),
                self@.cluster_count,
                start,
            ),
            r.clusters@.len() <= self@.cluster_count,
            r.clusters@.len() > 0 ==> r.clusters@[0] == start,
            r.status is Finished ==> r.clusters@.len() > 0,
            forall|i: int|
                0 <= i < r.clusters@.len() ==> is_data_cluster(
                    #[trigger] r.clusters@[i],
                    self@.cluster_count,
                ),
            r.status matches WalkStatus::Failed(e) ==> e == Error::IoError || e
                == Error::InvalidFat32Structure,
            !is_data_cluster(start, self@.cluster_count) <==> r@ == (
                Seq::<u32>::empty(),
                WalkStatus::Failed(Error::InvalidFat32Structure),
            ),
            is_data_cluster(start, self@.cluster_count) && r.clusters@.len() == 0 ==> r.status
                == WalkStatus::Failed(Error::IoError),
    {
        let cluster_count = self.info.cluster_count;
        let ghost fat = stored_fat(self.device(), self@);
        let ghost fuel: nat = cluster_count as nat + 1;
        let mut walk = ChainWalk::new(start);
        while walk.is_pending()
            invariant
                walk.clusters@.len() <= cluster_count,
                cluster_count == self@.cluster_count,
                fat == stored_fat(self.device(), self@),
                walk.status is Pending ==> walk.clusters@.len() + fuel > cluster_count,
                walk.status != WalkStatus::Failed(Error::IoError) ==> walk_table(
                    fat,
                    cluster_count,
                    walk@,
                    fuel,
                ) == chain_in_table(fat, cluster_count, start),
                walk.clusters@.len() > 0 ==> walk.clusters@[0] == start,
                walk.status is Finished ==> walk.clusters@.len() > 0,
                walk.clusters@.len() == 0 && walk.status is Pending ==> walk.status
                    == WalkStatus::Pending(start),
                walk.status matches WalkStatus::Pending(c) ==> is_data_cluster(c, cluster_count)
                    || walk.clusters@.len() == 0,
                forall|i: int|
                    0 <= i < walk.clusters@.len() ==> is_data_cluster(
                        #[trigger] walk.clusters@[i],
                        cluster_count,
                    ),
                walk.status matches WalkStatus::Failed(e) ==> e == Error::IoError || e
                    == Error::InvalidFat32Structure,
                !is_data_cluster(start, cluster_count) ==> walk@ == (
                    Seq::<u32>::empty(),
                    WalkStatus::Pending(start),
                ) || walk@ == (
                    Seq::<u32>::empty(),
                    WalkStatus::Failed(Error::InvalidFat32Structure),
                ),
                is_data_cluster(start, cluster_count) && walk.clusters@.len() == 0
                    ==> walk.status == WalkStatus::Pending(start) || walk.status
                    == WalkStatus::Failed(Error::IoError),
            decreases 2 * (cluster_count - walk.clusters@.len()) + if walk.status is Pending {
                1int
            } else {
                0
            },
        {
            let current = match walk.status {
                WalkStatus::Pending(c) => c,
                _ => start,
            };
            let entry = self.get_fat_entry(current);
            proof {
                if entry != Err::<u32, Error>(Error::IoError) {
                    assert(entry == table_lookup(fat, cluster_count, current));
                }
            }
            let ghost before = walk@;
            walk.step(cluster_count, entry);
            proof {
                if walk.status != WalkStatus::Failed(Error::IoError) {
                    assert(walk_table(fat, cluster_count, before, fuel) == walk_table(
                        fat,
                        cluster_count,
                        walk@,
                        (fuel - 1) as nat,
                    ));
                }
                fuel = (fuel - 1) as nat;
            }
        }
        proof {
            if walk.status != WalkStatus::Failed(Error::IoError) {
                assert(walk_table(fat, cluster_count, walk@, fuel) == walk@);
            }
        }
        walk
    }
}

/// Cluster 2, the first data cluster, starts the data region.
pub proof fn lemma_first_cluster_starts_data(info: FsInfo)
    ensures
        lba_of(info, 2) == info.first_data_sector as int,
{
}

} // verus!
