use std::cell::Cell;
use std::rc::Rc;

use fat32::{
    classify_entry, decode_boot_sector, entry_in_sector, fat_entry_position, geometry_from_sector,
    BootSector,
    ChainLink, ChainWalk, Disk, Error, Fat32, FsInfo, WalkStatus, BOOT_SIGNATURE, SECTOR_SIZE,
};

/// An in-memory device that counts its reads and can be told to fail them.
struct MemDisk {
    sectors: Vec<[u8; SECTOR_SIZE]>,
    reads: Rc<Cell<usize>>,
    fail_from: Rc<Cell<usize>>,
}

impl Disk for MemDisk {
    fn read_sector(&self, sector_lba: u32, buffer: &mut [u8]) -> Result<(), Error> {
        let n = self.reads.get();
        self.reads.set(n + 1);
        if n >= self.fail_from.get() {
            return Err(Error::IoError);
        }
        match self.sectors.get(sector_lba as usize) {
            Some(s) => {
                buffer.copy_from_slice(s);
                Ok(())
            }
            None => Err(Error::IoError),
        }
    }

    fn write_sector(&mut self, sector_lba: u32, buffer: &[u8]) -> Result<(), Error> {
        match self.sectors.get_mut(sector_lba as usize) {
            Some(s) => {
                s.copy_from_slice(buffer);
                Ok(())
            }
            None => Err(Error::IoError),
        }
    }

    fn sector_count(&self) -> u32 {
        self.sectors.len() as u32
    }
}

struct Params {
    bytes_per_sector: u16,
    sectors_per_cluster: u8,
    reserved: u16,
    num_fats: u8,
    fat_size: u32,
    total: u32,
    root: u32,
    signature: u16,
}

fn standard() -> Params {
    Params {
        bytes_per_sector: 512,
        sectors_per_cluster: 4,
        reserved: 32,
        num_fats: 2,
        fat_size: 100,
        total: 10000,
        root: 2,
        signature: BOOT_SIGNATURE,
    }
}

fn boot_sector(p: &Params) -> [u8; SECTOR_SIZE] {
    let mut b = [0u8; SECTOR_SIZE];
    b[0..3].copy_from_slice(&[0xEB, 0x58, 0x90]);
    b[3..11].copy_from_slice(b"MSWIN4.1");
    b[11..13].copy_from_slice(&p.bytes_per_sector.to_le_bytes());
    b[13] = p.sectors_per_cluster;
    b[14..16].copy_from_slice(&p.reserved.to_le_bytes());
    b[16] = p.num_fats;
    b[21] = 0xF8;
    b[32..36].copy_from_slice(&p.total.to_le_bytes());
    b[36..40].copy_from_slice(&p.fat_size.to_le_bytes());
    b[44..48].copy_from_slice(&p.root.to_le_bytes());
    b[48..50].copy_from_slice(&1u16.to_le_bytes());
    b[64] = 0x80;
    b[66] = 0x29;
    b[67..71].copy_from_slice(&0x1234_5678u32.to_le_bytes());
    b[71..82].copy_from_slice(b"NO NAME    ");
    b[82..90].copy_from_slice(b"FAT32   ");
    b[510..512].copy_from_slice(&p.signature.to_le_bytes());
    b
}

/// A disk with the given boot sector and `fat` as the raw 32-bit values of
/// the first FAT, starting at sector `reserved`.
fn disk_with(p: &Params, fat: &[(u32, u32)]) -> (MemDisk, Rc<Cell<usize>>, Rc<Cell<usize>>) {
    let mut sectors = vec![[0u8; SECTOR_SIZE]; p.reserved as usize + 128];
    sectors[0] = boot_sector(p);
    for &(cluster, stored) in fat {
        let offset = cluster as usize * 4;
        let sector = p.reserved as usize + offset / SECTOR_SIZE;
        let at = offset % SECTOR_SIZE;
        sectors[sector][at..at + 4].copy_from_slice(&stored.to_le_bytes());
    }
    let reads = Rc::new(Cell::new(0));
    let fail_from = Rc::new(Cell::new(usize::MAX));
    let disk = MemDisk { sectors, reads: reads.clone(), fail_from: fail_from.clone() };
    (disk, reads, fail_from)
}

fn mount_with(fat: &[(u32, u32)]) -> Fat32<MemDisk> {
    let (disk, _, _) = disk_with(&standard(), fat);
    match Fat32::mount(disk) {
        Ok(v) => v,
        Err(e) => panic!("mount failed: {:?}", e),
    }
}

fn expected_geometry() -> FsInfo {
    FsInfo {
        bytes_per_sector: 512,
        sectors_per_cluster: 4,
        reserved_sector_count: 32,
        num_fats: 2,
        fat_size: 100,
        root_cluster: 2,
        first_fat_sector: 32,
        first_data_sector: 232,
        cluster_count: 2442,
    }
}

#[test]
fn synthetic_boot_sector_round_trip() {
    let v = mount_with(&[]);
    let info = v.info();
    assert_eq!(info.first_fat_sector, 32);
    assert_eq!(info.first_data_sector, 232);
    assert_eq!(info.cluster_count, (10000 - 232) / 4);
    assert_eq!(info.cluster_count, 2442);
    assert_eq!(*info, expected_geometry());
    assert_eq!(v.root_cluster(), 2);
    assert_eq!(v.bytes_per_sector(), 512);
    assert_eq!(v.sectors_per_cluster(), 4);
}

#[test]
fn geometry_from_sector_matches_mount() {
    let raw = boot_sector(&standard());
    assert_eq!(geometry_from_sector(&raw), Ok(expected_geometry()));
}

#[test]
fn decode_reads_fields_at_fixed_offsets() {
    let raw = boot_sector(&standard());
    let bs: BootSector = match decode_boot_sector(&raw) {
        Ok(bs) => bs,
        Err(e) => panic!("decode failed: {:?}", e),
    };
    assert_eq!(bs.jmp_boot, [0xEB, 0x58, 0x90]);
    assert_eq!(&bs.oem_name, b"MSWIN4.1");
    assert_eq!(bs.bpb.bytes_per_sector, 512);
    assert_eq!(bs.bpb.sectors_per_cluster, 4);
    assert_eq!(bs.bpb.reserved_sector_count, 32);
    assert_eq!(bs.bpb.num_fats, 2);
    assert_eq!(bs.bpb.media_descriptor, 0xF8);
    assert_eq!(bs.bpb.total_sectors_32, 10000);
    assert_eq!(bs.bpb.fat_size_32, 100);
    assert_eq!(bs.bpb.root_cluster, 2);
    assert_eq!(bs.bpb.fs_info_sector, 1);
    assert_eq!(bs.bpb.drive_num, 0x80);
    assert_eq!(bs.bpb.boot_signature, 0x29);
    assert_eq!(bs.bpb.volume_id, 0x1234_5678);
    assert_eq!(&bs.bpb.volume_label, b"NO NAME    ");
    assert_eq!(&bs.bpb.fs_type, b"FAT32   ");
    assert_eq!(bs.boot_signature, 0xAA55);
    assert_eq!(raw[510], 0x55);
    assert_eq!(raw[511], 0xAA);
}

#[test]
fn wrong_signature_is_rejected_after_one_read() {
    let mut p = standard();
    p.signature = 0x55AA;
    let (disk, reads, _) = disk_with(&p, &[]);
    assert!(matches!(Fat32::mount(disk), Err(Error::InvalidFat32Structure)));
    assert_eq!(reads.get(), 1);
    assert!(matches!(decode_boot_sector(&boot_sector(&p)), Err(Error::InvalidFat32Structure)));
}

#[test]
fn other_sector_size_is_rejected_after_one_read() {
    let mut p = standard();
    p.bytes_per_sector = 4096;
    let (disk, reads, _) = disk_with(&p, &[]);
    assert!(matches!(Fat32::mount(disk), Err(Error::InvalidFat32Structure)));
    assert_eq!(reads.get(), 1);
}

#[test]
fn too_few_sectors_is_rejected() {
    let mut p = standard();
    p.total = 231;
    let (disk, _, _) = disk_with(&p, &[]);
    assert!(matches!(Fat32::mount(disk), Err(Error::InvalidFat32Structure)));
    p.total = 232;
    assert_eq!(geometry_from_sector(&boot_sector(&p)).map(|i| i.cluster_count), Ok(0));
}

#[test]
fn fat_region_past_u32_is_rejected() {
    let mut p = standard();
    p.num_fats = 255;
    p.fat_size = u32::MAX;
    p.total = u32::MAX;
    assert_eq!(geometry_from_sector(&boot_sector(&p)), Err(Error::InvalidFat32Structure));
}

#[test]
fn zero_cluster_size_is_rejected() {
    let mut p = standard();
    p.sectors_per_cluster = 0;
    assert_eq!(geometry_from_sector(&boot_sector(&p)), Err(Error::InvalidFat32Structure));
}

#[test]
fn empty_device_gives_io_error() {
    let disk = MemDisk {
        sectors: Vec::new(),
        reads: Rc::new(Cell::new(0)),
        fail_from: Rc::new(Cell::new(usize::MAX)),
    };
    assert!(matches!(Fat32::mount(disk), Err(Error::IoError)));
}

#[test]
fn failed_boot_read_gives_io_error() {
    let (disk, _, fail_from) = disk_with(&standard(), &[]);
    fail_from.set(0);
    assert!(matches!(Fat32::mount(disk), Err(Error::IoError)));
}

#[test]
fn cluster_two_starts_the_data_region() {
    let v = mount_with(&[]);
    assert_eq!(v.cluster_to_lba(2), 232);
    assert_eq!(v.cluster_to_lba(3), 236);
    assert_eq!(v.cluster_to_lba(2443), 232 + 2441 * 4);
}

#[test]
fn out_of_range_clusters_are_rejected_without_reads() {
    let (disk, reads, _) = disk_with(&standard(), &[(5, 6)]);
    let v = Fat32::mount(disk).ok().unwrap();
    let before = reads.get();
    assert_eq!(v.get_fat_entry(0), Err(Error::InvalidFat32Structure));
    assert_eq!(v.get_fat_entry(1), Err(Error::InvalidFat32Structure));
    assert_eq!(v.get_fat_entry(2444), Err(Error::InvalidFat32Structure));
    assert_eq!(v.get_fat_entry(u32::MAX), Err(Error::InvalidFat32Structure));
    assert_eq!(reads.get(), before);
    assert_eq!(v.get_fat_entry(2443), Ok(0));
    assert_eq!(v.get_fat_entry(5), Ok(6));
}

#[test]
fn entry_top_bits_are_masked() {
    let v = mount_with(&[(7, 0xF000_0005), (200, 0x1234_5678)]);
    assert_eq!(v.get_fat_entry(7), Ok(0x0000_0005));
    assert_eq!(v.get_fat_entry(200), Ok(0x0234_5678));
    let mut sector = [0u8; SECTOR_SIZE];
    sector[8..12].copy_from_slice(&[0x05, 0x00, 0x00, 0xF0]);
    assert_eq!(entry_in_sector(&sector, 8), 5);
}

#[test]
fn read_failure_on_entry_gives_io_error() {
    let (disk, reads, fail_from) = disk_with(&standard(), &[(5, 6)]);
    let v = Fat32::mount(disk).ok().unwrap();
    fail_from.set(reads.get());
    assert_eq!(v.get_fat_entry(5), Err(Error::IoError));
}

#[test]
fn chain_of_two_clusters() {
    let (mut disk, _, _) = disk_with(&standard(), &[]);
    disk.sectors[32][20..24].copy_from_slice(&[0x06, 0x00, 0x00, 0x00]);
    disk.sectors[32][24..28].copy_from_slice(&[0xF8, 0xFF, 0xFF, 0x0F]);
    let v = Fat32::mount(disk).ok().unwrap();
    let w = v.walk_chain(5);
    assert_eq!(w.clusters, vec![5, 6]);
    assert_eq!(w.status, WalkStatus::Finished);
}

#[test]
fn end_marker_at_start_yields_one_cluster() {
    let v = mount_with(&[(9, 0x0FFF_FFFF)]);
    let w = v.walk_chain(9);
    assert_eq!(w.clusters, vec![9]);
    assert_eq!(w.status, WalkStatus::Finished);
}

#[test]
fn cyclic_chain_fails() {
    let v = mount_with(&[(5, 6), (6, 7), (7, 5)]);
    let w = v.walk_chain(5);
    assert_eq!(w.status, WalkStatus::Failed(Error::InvalidFat32Structure));
    assert_eq!(w.clusters.len(), 2442);
    assert_eq!(&w.clusters[0..4], &[5, 6, 7, 5]);
}

#[test]
fn self_loop_fails() {
    let v = mount_with(&[(3, 3)]);
    let w = v.walk_chain(3);
    assert_eq!(w.status, WalkStatus::Failed(Error::InvalidFat32Structure));
}

#[test]
fn bad_free_and_reserved_links_fail() {
    for stored in [0x0FFF_FFF7u32, 0, 1, 2444, 0x0FFF_FFF0] {
        let v = mount_with(&[(5, 6), (6, stored)]);
        let w = v.walk_chain(5);
        assert_eq!(w.clusters, vec![5, 6]);
        assert_eq!(w.status, WalkStatus::Failed(Error::InvalidFat32Structure));
    }
}

#[test]
fn walk_from_invalid_start_fails_empty() {
    let v = mount_with(&[]);
    for start in [0u32, 1, 2444] {
        let w = v.walk_chain(start);
        assert!(w.clusters.is_empty());
        assert_eq!(w.status, WalkStatus::Failed(Error::InvalidFat32Structure));
    }
}

#[test]
fn read_failure_mid_chain_keeps_partial_chain() {
    let (disk, reads, fail_from) = disk_with(&standard(), &[(5, 6), (6, 7), (7, 0x0FFF_FFF8)]);
    let v = Fat32::mount(disk).ok().unwrap();
    fail_from.set(reads.get() + 2);
    let w = v.walk_chain(5);
    assert_eq!(w.clusters, vec![5, 6]);
    assert_eq!(w.status, WalkStatus::Failed(Error::IoError));
}

#[test]
fn walks_are_restartable() {
    let v = mount_with(&[(10, 11), (11, 0x0FFF_FFFA)]);
    let a = v.walk_chain(10);
    let b = v.walk_chain(10);
    assert_eq!(a.clusters, vec![10, 11]);
    assert_eq!(a.clusters, b.clusters);
    assert_eq!(a.status, b.status);
}

#[test]
fn entries_are_classified() {
    assert_eq!(classify_entry(0x0FFF_FFF8, 100), ChainLink::End);
    assert_eq!(classify_entry(0x0FFF_FFFF, 100), ChainLink::End);
    assert_eq!(classify_entry(0x0FFF_FFF7, 100), ChainLink::Corrupt);
    assert_eq!(classify_entry(0, 100), ChainLink::Corrupt);
    assert_eq!(classify_entry(1, 100), ChainLink::Corrupt);
    assert_eq!(classify_entry(2, 100), ChainLink::Next(2));
    assert_eq!(classify_entry(101, 100), ChainLink::Next(101));
    assert_eq!(classify_entry(102, 100), ChainLink::Corrupt);
    assert_eq!(classify_entry(0x0FFF_FFF7, u32::MAX), ChainLink::Corrupt);
}

#[test]
fn walk_steps_by_hand() {
    let mut w = ChainWalk::new(4);
    assert!(w.is_pending());
    w.step(10, Ok(8));
    assert_eq!(w.status, WalkStatus::Pending(8));
    w.step(10, Ok(0x0FFF_FFF8));
    assert_eq!(w.clusters, vec![4, 8]);
    assert_eq!(w.status, WalkStatus::Finished);
    assert!(!w.is_pending());
    w.step(10, Ok(3));
    assert_eq!(w.clusters, vec![4, 8]);
    let mut short = ChainWalk::new(2);
    short.step(1, Ok(2));
    assert_eq!(short.clusters, vec![2]);
    assert_eq!(short.status, WalkStatus::Pending(2));
    short.step(1, Ok(0x0FFF_FFFF));
    assert_eq!(short.clusters, vec![2]);
    assert_eq!(short.status, WalkStatus::Failed(Error::InvalidFat32Structure));
    let mut failed = ChainWalk::new(7);
    failed.step(10, Err(Error::IoError));
    assert!(failed.clusters.is_empty());
    assert_eq!(failed.status, WalkStatus::Failed(Error::IoError));
}

#[test]
fn error_names() {
    assert_eq!(Error::IoError.as_str(), "IoError");
    assert_eq!(Error::InvalidFat32Structure.as_str(), "InvalidFat32Structure");
    assert_eq!(Error::FileNotFound.as_str(), "FileNotFound");
    assert_eq!(Error::InvalidPath.as_str(), "InvalidPath");
}

#[test]
fn entry_positions_follow_cluster_number() {
    let info = expected_geometry();
    assert_eq!(fat_entry_position(&info, 2), (32, 8));
    assert_eq!(fat_entry_position(&info, 5), (32, 20));
    assert_eq!(fat_entry_position(&info, 127), (32, 508));
    assert_eq!(fat_entry_position(&info, 128), (33, 0));
    assert_eq!(fat_entry_position(&info, 200), (33, 288));
    assert_eq!(fat_entry_position(&info, 2443), (51, 44));
}
