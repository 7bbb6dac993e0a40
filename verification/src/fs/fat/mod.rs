//! FAT boot records and telling the FAT variants apart.
use vstd::prelude::*;
use crate::le::{read_u16, read_u32, le16, le32};

pub mod fat1216;

verus! {

#[derive(Debug, Clone, Copy, PartialEq, Eq, Structural)]
pub enum FatFsType {
    Fat12,
    Fat16,
    Fat32,
    ExFat,
}

/// The BIOS parameter block at the start of a FAT volume.
#[derive(Clone, Copy, Debug)]
pub struct BootRecord {
    pub jump: [u8; 3],
    pub oem_ident: [u8; 8],
    pub bytes_per_sector: u16,
    pub sectors_per_cluster: u8,
    pub reserved_sectors: u16,
    pub number_of_fats: u8,
    pub root_directory_entries: u16,
    pub sectors_in_volume: u16,
    pub media_descriptor_type: u8,
    pub sectors_per_fat: u16,
    pub sectors_per_track: u16,
    pub number_of_heads: u16,
    pub hidden_sectors: u32,
    pub large_sector_count: u32,
}

/// Size in bytes of the on-disk boot record.
pub const BOOT_RECORD_SIZE: usize = 36;

/// The boot record stored at the start of `b`.
pub open spec fn boot_record_of(b: Seq<u8>) -> BootRecord {
    BootRecord {
        jump: [b[0], b[1], b[2]],
        oem_ident: [b[3], b[4], b[5], b[6], b[7], b[8], b[9], b[10]],
        bytes_per_sector: le16(b, 11) as u16,
        sectors_per_cluster: b[13],
        reserved_sectors: le16(b, 14) as u16,
        number_of_fats: b[16],
        root_directory_entries: le16(b, 17) as u16,
        sectors_in_volume: le16(b, 19) as u16,
        media_descriptor_type: b[21],
        sectors_per_fat: le16(b, 22) as u16,
        sectors_per_track: le16(b, 24) as u16,
        number_of_heads: le16(b, 26) as u16,
        hidden_sectors: le32(b, 28) as u32,
        large_sector_count: le32(b, 32) as u32,
    }
}

/// Read the boot record at the start of a sector.
pub fn parse_boot_record(b: &[u8]) -> (r: BootRecord)
    requires
        b@.len() >= BOOT_RECORD_SIZE,
    ensures
        r == boot_record_of(b@),
{
    BootRecord {
        jump: [b[0], b[1], b[2]],
        oem_ident: [b[3], b[4], b[5], b[6], b[7], b[8], b[9], b[10]],
        bytes_per_sector: read_u16(b, 11),
        sectors_per_cluster: b[13],
        reserved_sectors: read_u16(b, 14),
        number_of_fats: b[16],
        root_directory_entries: read_u16(b, 17),
        sectors_in_volume: read_u16(b, 19),
        media_descriptor_type: b[21],
        sectors_per_fat: read_u16(b, 22),
        sectors_per_track: read_u16(b, 24),
        number_of_heads: read_u16(b, 26),
        hidden_sectors: read_u32(b, 28),
        large_sector_count: read_u32(b, 32),
    }
}

/// Sectors of the volume: the 16-bit count, or the 32-bit one when that is 0.
pub open spec fn total_sectors(br: BootRecord) -> int {
    if br.sectors_in_volume == 0 {
        br.large_sector_count as int
    } else {
        br.sectors_in_volume as int
    }
}

/// Sectors the root directory takes, rounded up.
pub open spec fn root_dir_sectors(br: BootRecord) -> int {
    (br.root_directory_entries * 32 + br.bytes_per_sector - 1) / (br.bytes_per_sector as int)
}

/// Sectors before the data area: reserved sectors, the FATs, the root directory.
pub open spec fn overhead_sectors(br: BootRecord) -> int {
    br.reserved_sectors + br.number_of_fats * br.sectors_per_fat + root_dir_sectors(br)
}

/// Clusters in the data area.
pub open spec fn total_clusters(br: BootRecord) -> int {
    (total_sectors(br) - overhead_sectors(br)) / (br.sectors_per_cluster as int)
}

/// What `detect_fat_fs` computes in 16-bit and 32-bit arithmetic fits there
/// and divides by non-zero values.
pub open spec fn detect_arith_ok(br: BootRecord) -> bool {
    br.bytes_per_sector != 0 && br.sectors_per_fat != 0 ==> {
        &&& br.root_directory_entries * 32 <= u16::MAX
        &&& br.number_of_fats * br.sectors_per_fat <= u16::MAX
        &&& overhead_sectors(br) <= u16::MAX
        &&& overhead_sectors(br) <= total_sectors(br)
        &&& br.sectors_per_cluster != 0
    }
}

/// The FAT variant a boot record describes: exFAT has no sector size, FAT32 no
/// 16-bit FAT size; otherwise the cluster count decides.
pub open spec fn fat_type_of(br: BootRecord) -> FatFsType {
    if br.bytes_per_sector == 0 {
        FatFsType::ExFat
    } else if br.sectors_per_fat == 0 {
        FatFsType::Fat32
    } else if total_clusters(br) < 4085 {
        FatFsType::Fat12
    } else if total_clusters(br) < 65525 {
        FatFsType::Fat16
    } else {
        FatFsType::Fat32
    }
}

/// Rounding a division up adds one exactly when the division leaves a
/// remainder.
pub(crate) proof fn lemma_div_ceil(a: int, b: int)
    requires
        0 <= a,
        0 < b,
    ensures
        (a + b - 1) / b == a / b + if a % b != 0 { 1int } else { 0int },
        a % b != 0 ==> a / b < a,
        a / b <= a,
{
    assert(a == b * (a / b) + a % b) by (nonlinear_arith) requires 0 < b;
    assert(0 <= a % b < b) by (nonlinear_arith) requires 0 < b;
    let q = a / b;
    let r = a % b;
    if r != 0 {
        assert((a + b - 1) / b == q + 1) by (nonlinear_arith)
            requires a == b * q + r, 0 < r < b, 0 < b;
        assert(q < a) by (nonlinear_arith) requires a == b * q + r, 0 < r < b, 0 < b, q >= 0;
    } else {
        assert((a + b - 1) / b == q) by (nonlinear_arith)
            requires a == b * q, 0 < b;
    }
    assert(q <= a) by (nonlinear_arith) requires a == b * q + r, 0 <= r, 0 < b, 0 <= a;
}

/// `a / b` rounded up.
pub fn div_ceil_u16(a: u16, b: u16) -> (r: u16)
    requires
        b != 0,
    ensures
        r == (a + b - 1) / (b as int),
{
    let q = a / b;
    proof {
        lemma_div_ceil(a as int, b as int);
    }
    if a % b != 0 {
        q + 1
    } else {
        q
    }
}

/// Tell which FAT variant a boot record describes.
pub fn detect_fat_fs(boot_record: BootRecord) -> (r: FatFsType)
    requires
        detect_arith_ok(boot_record),
    ensures
        r == fat_type_of(boot_record),
{
    if boot_record.bytes_per_sector == 0 {
        return FatFsType::ExFat;
    }
    if boot_record.sectors_per_fat == 0 {
        return FatFsType::Fat32;
    }
    let total_sectors = if boot_record.sectors_in_volume == 0 {
        boot_record.large_sector_count
    } else {
        boot_record.sectors_in_volume as u32
    };
    let fat_size = boot_record.sectors_per_fat;
    let root_dir_sectors = div_ceil_u16(boot_record.root_directory_entries * 32, boot_record.bytes_per_sector);
    let data_sectors = total_sectors - (boot_record.reserved_sectors + (boot_record.number_of_fats as u16
        * fat_size) + root_dir_sectors) as u32;
    let total_clusters = data_sectors / boot_record.sectors_per_cluster as u32;
    if total_clusters < 4085 {
        FatFsType::Fat12
    } else if total_clusters < 65525 {
        FatFsType::Fat16
    } else {
        FatFsType::Fat32
    }
}

} // verus!
