//! Metadata layer of a FAT32 volume driver: boot sector decoding, volume
//! geometry, cluster addressing and FAT chain walking.

mod chain;
mod error;
mod geometry;
mod layout;
mod volume;

pub use error::Error;
pub use layout::{
    decode_boot_sector, is_supported_boot_sector, le16, le32, BiosParameterBlock, BootSector,
    BOOT_SIGNATURE, SECTOR_SIZE,
};
pub use geometry::{
    boot_geometry, bpb_geometry, first_data_sector_of, geometry_from_sector, geometry_of,
    lemma_short_volume_rejected, lemma_unsupported_boot_sector_rejected,
    lemma_valid_boot_sector_mounts, FsInfo,
};
pub use chain::{
    chain_in_table, classify_entry, entry_in_sector, is_data_cluster, is_link_path,
    lemma_chain_walk_ends, lemma_end_marker_at_start, lemma_mask_clears_top_bits,
    lemma_revisiting_chain_fails, link_of, links_to, masked_entry, step_spec, table_lookup,
    walk_table, ChainLink, ChainWalk, WalkStatus, BAD_CLUSTER, END_OF_CHAIN, ENTRY_MASK,
};
pub use volume::{
    fat_entry_offset, fat_entry_position, fat_entry_sector, lba_of, stored_entry, stored_fat, lemma_first_cluster_starts_data, Disk,
    Fat32,
};
