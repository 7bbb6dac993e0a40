//! FAT16 volumes: geometry, the allocation table, cluster chains, directory
//! entries with long file names, name lookup and reading files.
use vstd::prelude::*;
use crate::fs::fat::{BootRecord, lemma_div_ceil};
use crate::le::{read_u16, read_u32, le16, le32};
use crate::sys::syscall::CanonicalError;
use crate::text::{decode_utf16, trim_chars, utf16_decode, trim_spec};

verus! {

/// The FAT12/FAT16 extended boot record, which follows the boot record.
#[derive(Clone, Copy, Debug)]
pub struct ExtendedBootRecord1216 {
    pub drive_number: u8,
    pub reserved: u8,
    pub signature: u8,
    pub volume_id: u32,
    pub volume_label: [u8; 11],
    pub system_identifier: [u8; 8],
    pub boot_signature: u16,
}

/// Offset of the extended boot record in the first sector.
pub const EXTENDED_BOOT_RECORD_OFFSET: usize = 0x24;

pub open spec fn extended_boot_record_of(b: Seq<u8>) -> ExtendedBootRecord1216 {
    ExtendedBootRecord1216 {
        drive_number: b[36],
        reserved: b[37],
        signature: b[38],
        volume_id: le32(b, 39) as u32,
        volume_label: [b[43], b[44], b[45], b[46], b[47], b[48], b[49], b[50], b[51], b[52], b[53]],
        system_identifier: [b[54], b[55], b[56], b[57], b[58], b[59], b[60], b[61]],
        boot_signature: le16(b, 510) as u16,
    }
}

/// Read the extended boot record from the first sector of a volume.
pub fn parse_extended_boot_record(b: &[u8]) -> (r: ExtendedBootRecord1216)
    requires
        b@.len() >= 512,
    ensures
        r == extended_boot_record_of(b@),
{
    ExtendedBootRecord1216 {
        drive_number: b[36],
        reserved: b[37],
        signature: b[38],
        volume_id: read_u32(b, 39),
        volume_label: [b[43], b[44], b[45], b[46], b[47], b[48], b[49], b[50], b[51], b[52], b[53]],
        system_identifier: [b[54], b[55], b[56], b[57], b[58], b[59], b[60], b[61]],
        boot_signature: read_u16(b, 510),
    }
}

// ---------------------------------------------------------------------------
// Geometry.

pub open spec fn ceil_div(a: int, b: int) -> int {
    (a + b - 1) / b
}

/// Data-area clusters, counted in 32-bit arithmetic.
pub open spec fn clusters32(br: BootRecord) -> int {
    let rds = ceil_div(br.root_directory_entries * 32, br.bytes_per_sector as int);
    let total = if br.sectors_in_volume != 0 { br.sectors_in_volume as int } else { br.large_sector_count as int };
    (total - (br.reserved_sectors + br.number_of_fats * br.sectors_per_fat + rds)) / (br.sectors_per_cluster as int)
}

/// Whether the FAT16 check can run without fault: it only runs past the
/// signature check; there the root-directory size must fit 16 bits, the
/// sector size and cluster size must not be 0, and the overhead must not
/// exceed the volume.
pub open spec fn fat16_check_ok(br: BootRecord, ebr: ExtendedBootRecord1216) -> bool {
    (ebr.signature == 0x28 || ebr.signature == 0x29) ==> {
        let rds = ceil_div(br.root_directory_entries * 32, br.bytes_per_sector as int);
        let total = if br.sectors_in_volume != 0 { br.sectors_in_volume as int } else { br.large_sector_count as int };
        &&& br.root_directory_entries * 32 <= u16::MAX
        &&& br.bytes_per_sector != 0
        &&& br.reserved_sectors + br.number_of_fats * br.sectors_per_fat + rds <= total
        &&& br.sectors_per_cluster != 0
    }
}

/// A FAT16 volume: the right signature, a 16-bit FAT size, and a cluster count
/// in the FAT16 range.
pub open spec fn is_fat16(br: BootRecord, ebr: ExtendedBootRecord1216) -> bool {
    &&& ebr.signature == 0x28 || ebr.signature == 0x29
    &&& br.sectors_per_fat != 0
    &&& 4085 <= clusters32(br) <= 65525
}

/// A volume is taken for FAT16 only when its data area holds a FAT16 number
/// of clusters: after the reserved sectors, the FATs and the root directory
/// (rounded up to whole sectors), at least 4085 and at most 65525 whole
/// clusters fit in the rest of the volume. A volume with fewer clusters
/// (FAT12, such as a floppy) is never FAT16.
pub proof fn lemma_fat16_cluster_range(br: BootRecord, ebr: ExtendedBootRecord1216)
    requires
        br.bytes_per_sector != 0,
        br.sectors_per_cluster != 0,
    ensures
        ({
            let total = if br.sectors_in_volume != 0 { br.sectors_in_volume as int } else { br.large_sector_count as int };
            let root = (br.root_directory_entries * 32 + br.bytes_per_sector - 1) / (br.bytes_per_sector as int);
            let data = total - br.reserved_sectors - br.number_of_fats * br.sectors_per_fat - root;
            let spc = br.sectors_per_cluster as int;
            &&& is_fat16(br, ebr) ==> 4085 * spc <= data < 65526 * spc
            &&& data < 4085 * spc ==> !is_fat16(br, ebr)
            &&& is_fat16(br, ebr) ==> br.sectors_per_fat != 0 && (ebr.signature == 0x28 || ebr.signature == 0x29)
        }),
{
    let total = if br.sectors_in_volume != 0 { br.sectors_in_volume as int } else { br.large_sector_count as int };
    let root = (br.root_directory_entries * 32 + br.bytes_per_sector - 1) / (br.bytes_per_sector as int);
    let data = total - br.reserved_sectors - br.number_of_fats * br.sectors_per_fat - root;
    let spc = br.sectors_per_cluster as int;
    let q = clusters32(br);
    assert(q == data / spc);
    vstd::arithmetic::div_mod::lemma_fundamental_div_mod(data, spc);
    assert(data == spc * q + data % spc);
    assert(0 <= data % spc < spc);
    assert(q >= 4085 ==> spc * q >= 4085 * spc) by (nonlinear_arith)
        requires spc > 0;
    assert(q <= 65525 ==> spc * q <= 65525 * spc) by (nonlinear_arith)
        requires spc > 0;
    assert(q < 4085 ==> spc * q <= 4084 * spc) by (nonlinear_arith)
        requires spc > 0;
}

/// Whether a volume with these boot records is FAT16.
pub fn is_fat16_volume(boot_record: &BootRecord, extended_boot_record: &ExtendedBootRecord1216) -> (r: bool)
    requires
        fat16_check_ok(*boot_record, *extended_boot_record),
    ensures
        r == is_fat16(*boot_record, *extended_boot_record),
        r ==> ({
            let br = *boot_record;
            let total = if br.sectors_in_volume != 0 { br.sectors_in_volume as int } else { br.large_sector_count as int };
            let root = (br.root_directory_entries * 32 + br.bytes_per_sector - 1) / (br.bytes_per_sector as int);
            let data = total - br.reserved_sectors - br.number_of_fats * br.sectors_per_fat - root;
            4085 * (br.sectors_per_cluster as int) <= data < 65526 * (br.sectors_per_cluster as int)
        }),
{
    proof {
        if is_fat16(*boot_record, *extended_boot_record) {
            lemma_fat16_cluster_range(*boot_record, *extended_boot_record);
        }
    }
    if extended_boot_record.signature != 0x28 && extended_boot_record.signature != 0x29 {
        return false;
    }
    let root_directory_size_sectors = crate::fs::fat::div_ceil_u16(
        boot_record.root_directory_entries * 32,
        boot_record.bytes_per_sector,
    );
    let total_sectors = if boot_record.sectors_in_volume != 0 {
        boot_record.sectors_in_volume as u32
    } else {
        boot_record.large_sector_count
    };
    let data_sectors = total_sectors - (boot_record.reserved_sectors as u32 + (boot_record.number_of_fats as u32
        * boot_record.sectors_per_fat as u32) + root_directory_size_sectors as u32);
    let total_clusters = data_sectors / boot_record.sectors_per_cluster as u32;
    boot_record.sectors_per_fat != 0 && 4085 <= total_clusters && total_clusters <= 65525
}

/// Where the first FAT lies, in 512-byte blocks of the partition: its first
/// block and its length.
pub open spec fn fat_location(br: BootRecord) -> (int, int) {
    let spl = (br.bytes_per_sector / 512) as int;
    (spl * br.reserved_sectors, (br.sectors_per_fat as int) / spl)
}

/// Where the first FAT lies (sectors of at least 512 bytes).
pub fn allocation_table_location(boot_record: &BootRecord) -> (r: (u64, u64))
    requires
        boot_record.bytes_per_sector >= 512,
        (boot_record.bytes_per_sector / 512) * boot_record.reserved_sectors <= u16::MAX,
    ensures
        r.0 == fat_location(*boot_record).0,
        r.1 == fat_location(*boot_record).1,
{
    let sectors_per_lba = boot_record.bytes_per_sector / 512;
    let fat_lba = sectors_per_lba * boot_record.reserved_sectors;
    let fat_size_lba = boot_record.sectors_per_fat / sectors_per_lba;
    (fat_lba as u64, fat_size_lba as u64)
}

/// Number of 16-bit entries in one FAT.
pub open spec fn fat_entries(br: BootRecord) -> int {
    br.sectors_per_fat * br.bytes_per_sector / 2
}

/// Read the FAT16 allocation table: little-endian 16-bit entries.
pub fn parse_allocation_table(boot_record: &BootRecord, bytes: &[u8]) -> (r: Vec<u16>)
    requires
        2 * fat_entries(*boot_record) <= bytes@.len(),
    ensures
        r@.len() == fat_entries(*boot_record),
        forall|k: int| 0 <= k < r@.len() ==> r@[k] == le16(bytes@, 2 * k),
{
    proof {
        assert((boot_record.sectors_per_fat as u32) * (boot_record.bytes_per_sector as u32) <= 0xFFFE_0001) by (nonlinear_arith)
            requires boot_record.sectors_per_fat <= 0xFFFF, boot_record.bytes_per_sector <= 0xFFFF;
    }
    let n = (boot_record.sectors_per_fat as u32) * (boot_record.bytes_per_sector as u32) / 2;
    let blen = bytes.len();
    let mut table: Vec<u16> = Vec::new();
    let mut entry: u32 = 0;
    while entry < n
        invariant
            entry <= n,
            n == fat_entries(*boot_record),
            2 * n <= bytes@.len(),
            blen == bytes@.len(),
            table@.len() == entry,
            forall|k: int| 0 <= k < entry ==> table@[k] == le16(bytes@, 2 * k),
        decreases n - entry,
    {
        table.push(read_u16(bytes, (entry as usize) * 2));
        entry = entry + 1;
    }
    table
}

/// A FAT16 file system on one partition.
pub struct Fat16Fs {
    pub boot_record: BootRecord,
    pub extended_boot_record: ExtendedBootRecord1216,
    pub fat: Vec<u16>,
    pub partition: u32,
}

impl Fat16Fs {
    /// A FAT16 file system from its boot records and its allocation table;
    /// `None` when the volume is not FAT16.
    pub fn new(partition: u32, boot_record: BootRecord, extended_boot_record: ExtendedBootRecord1216, fat: Vec<u16>) -> (r: Option<Fat16Fs>)
        requires
            fat16_check_ok(boot_record, extended_boot_record),
        ensures
            is_fat16(boot_record, extended_boot_record) <==> r is Some,
            r matches Some(fs) ==> fs.boot_record == boot_record && fs.extended_boot_record
                == extended_boot_record && fs.fat@ == fat@ && fs.partition == partition,
    {
        if !is_fat16_volume(&boot_record, &extended_boot_record) {
            return None;
        }
        Some(Fat16Fs { boot_record, extended_boot_record, fat, partition })
    }

    /// The root directory: its first 512-byte block and its length in blocks.
    pub fn root_location(&self) -> (r: (u64, u64))
        requires
            self.boot_record.bytes_per_sector >= 512,
            self.boot_record.reserved_sectors + self.boot_record.number_of_fats * self.boot_record.sectors_per_fat
                <= u16::MAX,
            self.boot_record.number_of_fats * self.boot_record.sectors_per_fat <= u16::MAX,
            (self.boot_record.reserved_sectors + self.boot_record.number_of_fats * self.boot_record.sectors_per_fat)
                * (self.boot_record.bytes_per_sector / 512) <= u16::MAX,
            self.boot_record.root_directory_entries * 32 <= u16::MAX,
        ensures
            ({
                let br = self.boot_record;
                let spl = (br.bytes_per_sector / 512) as int;
                &&& r.0 == (br.reserved_sectors + br.number_of_fats * br.sectors_per_fat) * spl
                &&& r.1 == ceil_div(br.root_directory_entries * 32, br.bytes_per_sector as int) / spl
            }),
    {
        let br = &self.boot_record;
        let sectors_per_lba = br.bytes_per_sector / 512;
        let root_directory_sect = br.reserved_sectors + (br.number_of_fats as u16 * br.sectors_per_fat);
        let root_directory_lba = root_directory_sect * sectors_per_lba;
        let root_directory_size_sectors = crate::fs::fat::div_ceil_u16(br.root_directory_entries * 32, br.bytes_per_sector);
        let root_directory_size_lba = root_directory_size_sectors / sectors_per_lba;
        (root_directory_lba as u64, root_directory_size_lba as u64)
    }
}

/// The blocks of the root directory, in order.
pub fn root_block_list(block: u64, size: u64) -> (r: Vec<u64>)
    requires
        block + size <= u64::MAX,
    ensures
        r@.len() == size,
        forall|k: int| 0 <= k < size ==> r@[k] == block + k,
{
    let mut v: Vec<u64> = Vec::new();
    let mut b = block;
    let end = block + size;
    while b < end
        invariant
            end == block + size,
            block <= b <= block + size,
            v@.len() == b - block,
            forall|k: int| 0 <= k < v@.len() ==> v@[k] == block + k,
        decreases block + size - b,
    {
        v.push(b);
        b = b + 1;
    }
    v
}

// ---------------------------------------------------------------------------
// Cluster chains.

/// The clusters of a chain starting at `c`, if the chain ends (an entry of
/// 0xFFF8 or more) within `n` links without leaving the table.
pub open spec fn chain_from(fat: Seq<u16>, c: int, n: nat) -> Option<Seq<u32>>
    decreases n,
{
    if n == 0 || c < 0 || c >= fat.len() {
        None
    } else if fat[c] >= 0xFFF8 {
        Some(seq![c as u32])
    } else {
        match chain_from(fat, fat[c] as int, (n - 1) as nat) {
            Some(t) => Some(seq![c as u32] + t),
            None => None,
        }
    }
}

/// Whether the chain from `c` ends inside the table.
pub open spec fn chain_ends(fat: Seq<u16>, c: int) -> bool {
    exists|n: nat| chain_from(fat, c, n) is Some
}

/// The clusters of the chain from `c`.
pub open spec fn fat_chain(fat: Seq<u16>, c: int) -> Seq<u32> {
    chain_from(fat, c, choose|n: nat| chain_from(fat, c, n) is Some)->Some_0
}

proof fn lemma_chain_unique(fat: Seq<u16>, c: int, n: nat, m: nat)
    requires
        chain_from(fat, c, n) is Some,
        chain_from(fat, c, m) is Some,
    ensures
        chain_from(fat, c, n) == chain_from(fat, c, m),
    decreases n,
{
    if fat[c] < 0xFFF8 {
        lemma_chain_unique(fat, fat[c] as int, (n - 1) as nat, (m - 1) as nat);
    }
}

/// Follow a cluster chain through the allocation table.
pub fn cluster_chain(fat: &Vec<u16>, start: u32) -> (r: Vec<u32>)
    requires
        chain_ends(fat@, start as int),
    ensures
        r@ == fat_chain(fat@, start as int),
{
    let ghost n0: nat = choose|n: nat| chain_from(fat@, start as int, n) is Some;
    let ghost mut fuel: nat = n0;
    let ghost mut done: Seq<u32> = Seq::empty();
    let mut clusters: Vec<u32> = Vec::new();
    let mut cluster = start;
    loop
        invariant_except_break
            chain_from(fat@, cluster as int, fuel) is Some,
            chain_from(fat@, start as int, n0)->Some_0 == clusters@ + chain_from(fat@, cluster as int, fuel)->Some_0,
        invariant
            chain_from(fat@, start as int, n0) is Some,
        ensures
            clusters@ == chain_from(fat@, start as int, n0)->Some_0,
        decreases fuel,
    {
        clusters.push(cluster);
        let next = fat[cluster as usize];
        if next >= 0xFFF8 {
            proof {
                assert(clusters@ =~= chain_from(fat@, start as int, n0)->Some_0);
            }
            break;
        }
        proof {
            fuel = (fuel - 1) as nat;
        }
        cluster = next as u32;
    }
    proof {
        let m = choose|n: nat| chain_from(fat@, start as int, n) is Some;
        lemma_chain_unique(fat@, start as int, n0, m);
    }
    clusters
}

/// The 512-byte blocks of a cluster, in order.
pub open spec fn cluster_blocks(br: BootRecord, c: int) -> Seq<u64> {
    let spl = (br.bytes_per_sector / 512) as int;
    let rds = ceil_div(br.root_directory_entries * 32, br.bytes_per_sector as int);
    let first_data_sector = br.reserved_sectors + br.number_of_fats * br.sectors_per_fat + rds;
    let lba = ((c - 2) * br.sectors_per_cluster + first_data_sector) * spl;
    Seq::new((br.sectors_per_cluster * spl) as nat, |i: int| (lba + i) as u64)
}

/// The blocks of a list of clusters, cluster after cluster.
pub open spec fn clusters_blocks(br: BootRecord, cs: Seq<u32>) -> Seq<u64>
    decreases cs.len(),
{
    if cs.len() == 0 {
        Seq::empty()
    } else {
        clusters_blocks(br, cs.drop_last()) + cluster_blocks(br, cs.last() as int)
    }
}

/// The blocks of a file or directory stored from cluster `start`: its chain
/// followed through the table, each cluster turned into its blocks.
pub fn file_block_list(fs: &Fat16Fs, start: u32) -> (r: Vec<u64>)
    requires
        chain_ends(fs.fat@, start as int),
        fs.boot_record.bytes_per_sector != 0,
        forall|k: int| 0 <= k < fat_chain(fs.fat@, start as int).len() ==> #[trigger] fat_chain(fs.fat@, start as int)[k] >= 2,
    ensures
        r@ == clusters_blocks(fs.boot_record, fat_chain(fs.fat@, start as int)),
{
    let clusters = cluster_chain(&fs.fat, start);
    let br = &fs.boot_record;
    let mut blocks: Vec<u64> = Vec::new();
    let mut k: usize = 0;
    assert(clusters@.subrange(0, 0) =~= Seq::<u32>::empty());
    while k < clusters.len()
        invariant
            k <= clusters@.len(),
            clusters@ == fat_chain(fs.fat@, start as int),
            br == &fs.boot_record,
            br.bytes_per_sector != 0,
            forall|j: int| 0 <= j < clusters@.len() ==> #[trigger] clusters@[j] >= 2,
            blocks@ == clusters_blocks(*br, clusters@.subrange(0, k as int)),
        decreases clusters@.len() - k,
    {
        let cluster = clusters[k];
        let sectors_per_lba = br.bytes_per_sector as u64 / 512;
        let rde32 = br.root_directory_entries as u64 * 32;
        let bps = br.bytes_per_sector as u64;
        proof {
            lemma_div_ceil(rde32 as int, bps as int);
        }
        let root_directory_size_sectors: u64 = if rde32 % bps != 0 { rde32 / bps + 1 } else { rde32 / bps };
        proof {
            assert(br.number_of_fats * br.sectors_per_fat <= 255 * 65535) by (nonlinear_arith)
                requires br.number_of_fats <= 255, br.sectors_per_fat <= 65535;
            assert((cluster - 2) * br.sectors_per_cluster <= 0xFFFF_FFFFu64 * 255) by (nonlinear_arith)
                requires 2 <= cluster <= 0xFFFF_FFFFu64, br.sectors_per_cluster <= 255;
        }
        let first_data_sector: u64 = br.reserved_sectors as u64 + (br.number_of_fats as u64
            * br.sectors_per_fat as u64) + root_directory_size_sectors;
        let cluster_sector: u64 = ((cluster as u64 - 2) * br.sectors_per_cluster as u64) + first_data_sector;
        proof {
            assert(sectors_per_lba <= 128);
            assert(cluster_sector <= 0x100_0000_0000);
            assert(cluster_sector * sectors_per_lba <= 0x100_0000_0000 * 128) by (nonlinear_arith)
                requires cluster_sector <= 0x100_0000_0000, sectors_per_lba <= 128;
            assert(br.sectors_per_cluster * sectors_per_lba <= 255 * 128) by (nonlinear_arith)
                requires br.sectors_per_cluster <= 255, sectors_per_lba <= 128;
        }
        let cluster_lba = cluster_sector * sectors_per_lba;
        let size_lba = br.sectors_per_cluster as u64 * sectors_per_lba;
        let ghost before = blocks@;
        let mut i: u64 = 0;
        while i < size_lba
            invariant
                i <= size_lba,
                blocks@ == before + cluster_blocks(*br, cluster as int).subrange(0, i as int),
                size_lba == br.sectors_per_cluster * (br.bytes_per_sector / 512),
                cluster_lba == ((cluster - 2) * br.sectors_per_cluster + br.reserved_sectors
                    + br.number_of_fats * br.sectors_per_fat + ceil_div(br.root_directory_entries * 32, br.bytes_per_sector as int))
                    * (br.bytes_per_sector / 512),
                cluster_lba + size_lba <= u64::MAX,
            decreases size_lba - i,
        {
            blocks.push(cluster_lba + i);
            proof {
                assert(blocks@ =~= before + cluster_blocks(*br, cluster as int).subrange(0, i + 1));
            }
            i = i + 1;
        }
        proof {
            assert(cluster_blocks(*br, cluster as int).subrange(0, i as int) =~= cluster_blocks(*br, cluster as int));
            assert(clusters@.subrange(0, k + 1).drop_last() =~= clusters@.subrange(0, k as int));
        }
        k = k + 1;
    }
    assert(clusters@.subrange(0, clusters@.len() as int) =~= clusters@);
    blocks
}

} // verus!

verus! {

// ---------------------------------------------------------------------------
// Directory entries.

/// A 32-byte short directory entry.
#[derive(Clone, Copy, Debug)]
pub struct DirectoryEntry {
    pub file_name: [u8; 11],
    pub attributes: u8,
    pub reserved: u8,
    pub creation_time_hundredths: u8,
    pub creation_time: u16,
    pub creation_date: u16,
    pub last_accessed_date: u16,
    pub cluster_high: u16,
    pub modification_time: u16,
    pub modification_date: u16,
    pub cluster_low: u16,
    pub file_size: u32,
}

pub const DIRENT_SIZE: usize = 32;

/// The entry stored at byte `o` of `b`.
pub open spec fn dirent_at(b: Seq<u8>, o: int) -> DirectoryEntry {
    DirectoryEntry {
        file_name: [b[o], b[o + 1], b[o + 2], b[o + 3], b[o + 4], b[o + 5], b[o + 6], b[o + 7], b[o + 8], b[o + 9], b[o + 10]],
        attributes: b[o + 11],
        reserved: b[o + 12],
        creation_time_hundredths: b[o + 13],
        creation_time: le16(b, o + 14) as u16,
        creation_date: le16(b, o + 16) as u16,
        last_accessed_date: le16(b, o + 18) as u16,
        cluster_high: le16(b, o + 20) as u16,
        modification_time: le16(b, o + 22) as u16,
        modification_date: le16(b, o + 24) as u16,
        cluster_low: le16(b, o + 26) as u16,
        file_size: le32(b, o + 28) as u32,
    }
}

fn parse_dirent(b: &[u8], o: usize) -> (r: DirectoryEntry)
    requires
        o + 32 <= b@.len(),
    ensures
        r == dirent_at(b@, o as int),
{
    DirectoryEntry {
        file_name: [b[o], b[o + 1], b[o + 2], b[o + 3], b[o + 4], b[o + 5], b[o + 6], b[o + 7], b[o + 8], b[o + 9], b[o + 10]],
        attributes: b[o + 11],
        reserved: b[o + 12],
        creation_time_hundredths: b[o + 13],
        creation_time: read_u16(b, o + 14),
        creation_date: read_u16(b, o + 16),
        last_accessed_date: read_u16(b, o + 18),
        cluster_high: read_u16(b, o + 20),
        modification_time: read_u16(b, o + 22),
        modification_date: read_u16(b, o + 24),
        cluster_low: read_u16(b, o + 26),
        file_size: read_u32(b, o + 28),
    }
}

/// The directory entry with index `index` of a directory's contents;
/// `Inval` when the contents end before it.
pub fn read_dirent(buf: &[u8], index: usize) -> (r: Result<DirectoryEntry, CanonicalError>)
    requires
        index * 32 + 32 <= usize::MAX,
    ensures
        index * 32 + 32 > buf@.len() ==> r == Err::<DirectoryEntry, CanonicalError>(CanonicalError::Inval),
        index * 32 + 32 <= buf@.len() ==> r == Ok::<DirectoryEntry, CanonicalError>(dirent_at(buf@, index * 32)),
{
    let offset = index * 32;
    let end = offset + 32;
    if end > buf.len() {
        return Err(CanonicalError::Inval);
    }
    Ok(parse_dirent(buf, offset))
}

/// The code units of the three name pieces of a long-file-name entry at byte
/// `o`, with 0x0000 and 0xFFFF padding dropped.
pub open spec fn lfn_units(b: Seq<u8>, o: int, first: int, count: int) -> Seq<u16>
    decreases count,
{
    if count <= 0 {
        Seq::empty()
    } else {
        let prev = lfn_units(b, o, first, count - 1);
        let u = le16(b, o + first + 2 * (count - 1)) as u16;
        if u != 0 && u != 0xFFFF {
            prev.push(u)
        } else {
            prev
        }
    }
}

/// The name a long-file-name entry at byte `o` carries, if each piece decodes.
pub open spec fn lfn_name(b: Seq<u8>, o: int) -> Option<Seq<char>> {
    match (
        utf16_decode(lfn_units(b, o, 1, 5)),
        utf16_decode(lfn_units(b, o, 14, 6)),
        utf16_decode(lfn_units(b, o, 28, 2)),
    ) {
        (Some(a), Some(b2), Some(c)) => Some(a + b2 + c),
        _ => None,
    }
}

/// The bytes of `b[o..o+n]` that are not NUL, as characters.
pub open spec fn nonnul_chars(b: Seq<u8>, o: int, n: int) -> Seq<char>
    decreases n,
{
    if n <= 0 {
        Seq::empty()
    } else {
        let prev = nonnul_chars(b, o, n - 1);
        if b[o + n - 1] != 0 {
            prev.push(b[o + n - 1] as char)
        } else {
            prev
        }
    }
}

/// The 8.3 name of a short entry at byte `o`: the trimmed name, then a dot and
/// the trimmed extension when there is one.
pub open spec fn short_name(b: Seq<u8>, o: int) -> Seq<char> {
    let base = trim_spec(nonnul_chars(b, o, 8));
    let ext = trim_spec(nonnul_chars(b, o + 8, 3));
    if ext.len() == 0 {
        base
    } else {
        base.push('.') + ext
    }
}

/// Scan the directory from entry `i` for the next file name, collecting long
/// file name pieces in `acc` and counting long-name entries in `cnt`. `None`
/// means a long name piece that is not valid UTF-16, which is fatal.
pub open spec fn fname_scan(b: Seq<u8>, rde: int, i: int, acc: Seq<char>, cnt: int) -> Option<(Option<Seq<char>>, int)>
    decreases rde - i,
{
    if i >= rde {
        Some((None, cnt))
    } else {
        let o = i * 32;
        if b[o] == 0 || b[o] == 0xE5 {
            Some((None, cnt))
        } else if b[o + 11] == 0x0F {
            match lfn_name(b, o) {
                Some(n) => fname_scan(b, rde, i + 1, acc + n, cnt + 1),
                None => None,
            }
        } else if b[o + 11] & 0x08 != 0 {
            Some((None, cnt))
        } else if acc.len() == 0 {
            Some((Some(short_name(b, o)), cnt))
        } else {
            Some((Some(acc), cnt))
        }
    }
}

fn lfn_piece(b: &[u8], o: usize, first: usize, count: usize) -> (r: Vec<u16>)
    requires
        o + first + 2 * count <= b@.len(),
    ensures
        r@ == lfn_units(b@, o as int, first as int, count as int),
{
    let mut v: Vec<u16> = Vec::new();
    let mut k: usize = 0;
    let blen = b.len();
    while k < count
        invariant
            k <= count,
            blen == b@.len(),
            o + first + 2 * count <= b@.len(),
            v@ == lfn_units(b@, o as int, first as int, k as int),
        decreases count - k,
    {
        let u = read_u16(b, o + first + 2 * k);
        if u != 0 && u != 0xFFFF {
            v.push(u);
        }
        k = k + 1;
    }
    v
}

fn nonnul(b: &[u8], o: usize, n: usize) -> (r: Vec<char>)
    requires
        o + n <= b@.len(),
    ensures
        r@ == nonnul_chars(b@, o as int, n as int),
{
    let mut v: Vec<char> = Vec::new();
    let mut k: usize = 0;
    let blen = b.len();
    while k < n
        invariant
            k <= n,
            blen == b@.len(),
            o + n <= b@.len(),
            v@ == nonnul_chars(b@, o as int, k as int),
        decreases n - k,
    {
        if b[o + k] != 0 {
            v.push(b[o + k] as char);
        }
        k = k + 1;
    }
    v
}

fn append_chars(dst: &mut Vec<char>, src: &Vec<char>)
    ensures
        final(dst)@ == old(dst)@ + src@,
{
    let mut k: usize = 0;
    let ghost d0 = dst@;
    while k < src.len()
        invariant
            k <= src@.len(),
            dst@ == d0 + src@.subrange(0, k as int),
        decreases src@.len() - k,
    {
        dst.push(src[k]);
        proof {
            assert(src@.subrange(0, k + 1) =~= src@.subrange(0, k as int).push(src@[k as int]));
        }
        k = k + 1;
    }
    assert(src@.subrange(0, src@.len() as int) =~= src@);
}

/// Whether scanning the root directory from `index` stays inside the
/// directory's contents and never meets a long name that does not decode.
pub open spec fn get_filename_ok(dir: Seq<u8>, rde: int, index: int) -> bool {
    &&& 32 * rde <= dir.len()
    &&& fname_scan(dir, rde, index, Seq::empty(), 0) is Some
}

impl Fat16Fs {
    /// The scan `get_filename` makes, which gives `None` where a long-name
    /// piece is not valid UTF-16 (the kernel stops there).
    pub fn scan_filename(&self, dir: &[u8], index: usize) -> (r: Option<(Option<Vec<char>>, usize)>)
        requires
            32 * self.boot_record.root_directory_entries <= dir@.len(),
        ensures
            fname_scan(dir@, self.boot_record.root_directory_entries as int, index as int, Seq::empty(), 0) is None
                <==> r is None,
            r matches Some((n, c)) ==> ({
                let s = fname_scan(dir@, self.boot_record.root_directory_entries as int, index as int, Seq::empty(), 0)->Some_0;
                &&& index + c <= (if index <= self.boot_record.root_directory_entries { self.boot_record.root_directory_entries as int } else { index as int })
                &&& c == s.1
                &&& match (n, s.0) {
                    (Some(a), Some(b)) => a@ == b,
                    (None, None) => true,
                    _ => false,
                }
            }),
    {
        let rde = self.boot_record.root_directory_entries as usize;
        let mut file_name: Vec<char> = Vec::new();
        let mut cnt: usize = 0;
        let mut entry = index;
        let ghost target = fname_scan(dir@, rde as int, index as int, Seq::empty(), 0);
        while entry < rde
            invariant
                32 * rde <= dir@.len(),
                rde == self.boot_record.root_directory_entries,
                index <= entry || entry >= rde,
                cnt <= entry - index || entry >= rde,
                fname_scan(dir@, rde as int, entry as int, file_name@, cnt as int) == target,
                target == fname_scan(dir@, rde as int, index as int, Seq::empty(), 0),
                cnt + index <= entry,
                entry == index || entry <= rde,
            decreases rde - entry,
        {
            let offset = entry * 32;
            let first = dir[offset];
            let attributes = dir[offset + 11];
            if first == 0x00 || first == 0xE5 {
                return Some((None, cnt));
            }
            if attributes == 0x0F {
                let p1 = lfn_piece(dir, offset, 1, 5);
                let p2 = lfn_piece(dir, offset, 14, 6);
                let p3 = lfn_piece(dir, offset, 28, 2);
                let d1 = decode_utf16(&p1);
                let d2 = decode_utf16(&p2);
                let d3 = decode_utf16(&p3);
                match (d1, d2, d3) {
                    (Some(a), Some(b), Some(c)) => {
                        let ghost f0 = file_name@;
                        append_chars(&mut file_name, &a);
                        append_chars(&mut file_name, &b);
                        append_chars(&mut file_name, &c);
                        proof {
                            assert(file_name@ =~= f0 + (a@ + b@ + c@));
                        }
                    },
                    _ => {
                        return None;
                    },
                }
                cnt = cnt + 1;
                entry = entry + 1;
                continue;
            }
            if attributes & 0x08 != 0 {
                return Some((None, cnt));
            }
            if file_name.len() == 0 {
                let base = trim_chars(&nonnul(dir, offset, 8));
                let extn = trim_chars(&nonnul(dir, offset + 8, 3));
                let mut name = base;
                if extn.len() != 0 {
                    name.push('.');
                    append_chars(&mut name, &extn);
                }
                return Some((Some(name), cnt));
            }
            return Some((Some(file_name), cnt));
        }
        Some((None, cnt))
    }

    /// The name of the file whose entries start at entry `index` of the root
    /// directory contents `dir`, with the number of long-name entries that
    /// precede its short entry. `None` when the scan meets the end of the
    /// directory, a deleted entry or a volume label.
    pub fn get_filename(&self, dir: &[u8], index: usize) -> (r: (Option<Vec<char>>, usize))
        requires
            get_filename_ok(dir@, self.boot_record.root_directory_entries as int, index as int),
        ensures
            ({
                let s = fname_scan(dir@, self.boot_record.root_directory_entries as int, index as int, Seq::empty(), 0)->Some_0;
                &&& r.1 == s.1
                &&& match (r.0, s.0) {
                    (Some(a), Some(b)) => a@ == b,
                    (None, None) => true,
                    _ => false,
                }
            }),
    {
        match self.scan_filename(dir, index) {
            Some(x) => x,
            None => (None, 0),
        }
    }
}

} // verus!

verus! {

// ---------------------------------------------------------------------------
// Name lookup.

/// One step of looking a name up in the root directory.
#[derive(Clone, Copy, Debug)]
pub enum LookupStep {
    /// The name is at this entry.
    Found(DirectoryEntry),
    /// The directory ends: no such name.
    Missing,
    /// The directory contents ended before an entry that had to be read.
    Invalid,
    /// Go on from this entry.
    Continue(u16),
}

/// What one lookup step does from entry `entry`: find the next name; when it
/// is neither `name` nor `upper` (its upper-case form) go on past it; when it
/// matches, read its entry; when there is no name, stop at the end marker,
/// skip a deleted entry or a volume label, and otherwise stay.
pub open spec fn lookup_spec(dir: Seq<u8>, rde: int, name: Seq<char>, upper: Seq<char>, entry: int) -> LookupStep {
    let s = fname_scan(dir, rde, entry, Seq::empty(), 0)->Some_0;
    let e2 = entry + s.1;
    match s.0 {
        Some(f) => if f != name && f != upper {
            LookupStep::Continue((e2 + 1) as u16)
        } else if e2 * 32 + 32 > dir.len() {
            LookupStep::Invalid
        } else {
            LookupStep::Found(dirent_at(dir, e2 * 32))
        },
        None => if e2 * 32 + 32 > dir.len() {
            LookupStep::Invalid
        } else if dir[e2 * 32] == 0 {
            LookupStep::Missing
        } else if dir[e2 * 32] == 0xE5 || dir[e2 * 32 + 11] & 0x08 != 0 {
            LookupStep::Continue((e2 + 1) as u16)
        } else {
            LookupStep::Continue(e2 as u16)
        },
    }
}

/// The step runs within 16-bit entry numbers.
pub open spec fn lookup_step_ok(dir: Seq<u8>, rde: int, entry: int) -> bool {
    &&& get_filename_ok(dir, rde, entry)
    &&& entry + fname_scan(dir, rde, entry, Seq::empty(), 0)->Some_0.1 + 1 <= u16::MAX
}

impl Fat16Fs {
    /// One step of looking `name` up in the root directory contents `dir`,
    /// from entry `entry`. A found name is matched exactly or against
    /// `upper`, the upper-case form of `name`.
    pub fn lookup_step(&self, dir: &[u8], name: &Vec<char>, upper: &Vec<char>, entry: u16) -> (r: LookupStep)
        requires
            lookup_step_ok(dir@, self.boot_record.root_directory_entries as int, entry as int),
        ensures
            r == lookup_spec(dir@, self.boot_record.root_directory_entries as int, name@, upper@, entry as int),
    {
        let (maybe_fn, offset) = self.get_filename(dir, entry as usize);
        let e2 = entry + offset as u16;
        match maybe_fn {
            Some(file_name) => {
                if !crate::text::chars_eq(&file_name, name) && !crate::text::chars_eq(&file_name, upper) {
                    return LookupStep::Continue(e2 + 1);
                }
                match read_dirent(dir, e2 as usize) {
                    Ok(d) => LookupStep::Found(d),
                    Err(_) => LookupStep::Invalid,
                }
            },
            None => {
                match read_dirent(dir, e2 as usize) {
                    Err(_) => LookupStep::Invalid,
                    Ok(d) => {
                        if d.file_name[0] == 0x00 {
                            LookupStep::Missing
                        } else if d.file_name[0] == 0xE5 || d.attributes & 0x08 != 0 {
                            LookupStep::Continue(e2 + 1)
                        } else {
                            LookupStep::Continue(e2)
                        }
                    },
                }
            },
        }
    }
}

impl Fat16Fs {
    /// One lookup step as `lookup_step` takes it, which gives `None` where a
    /// long-name piece is not valid UTF-16 (the kernel stops there).
    pub fn try_lookup_step(&self, dir: &[u8], name: &Vec<char>, upper: &Vec<char>, entry: u16) -> (r: Option<LookupStep>)
        requires
            32 * self.boot_record.root_directory_entries <= dir@.len(),
            self.boot_record.root_directory_entries < u16::MAX,
            entry < u16::MAX,
        ensures
            fname_scan(dir@, self.boot_record.root_directory_entries as int, entry as int, Seq::empty(), 0) is None
                <==> r is None,
            r matches Some(step) ==> step == lookup_spec(dir@, self.boot_record.root_directory_entries as int,
                name@, upper@, entry as int),
    {
        match self.scan_filename(dir, entry as usize) {
            None => None,
            Some(_) => Some(self.lookup_step(dir, name, upper, entry)),
        }
    }
}

proof fn lemma_fname_scan_facts(b: Seq<u8>, rde: int, i: int, acc: Seq<char>, cnt: int)
    requires
        0 <= i,
    ensures
        fname_scan(b, rde, i, acc, cnt) matches Some((n, c)) ==> {
            &&& c >= cnt
            &&& (i < rde ==> i + (c - cnt) <= rde)
            &&& (i >= rde ==> c == cnt)
            &&& (n is None ==> {
                let e = i + (c - cnt);
                ||| e >= rde
                ||| b[e * 32] == 0
                ||| b[e * 32] == 0xE5
                ||| (b[e * 32 + 11] != 0x0F && b[e * 32 + 11] & 0x08 != 0)
            })
        },
    decreases rde - i,
{
    if i < rde {
        let o = i * 32;
        if !(b[o] == 0 || b[o] == 0xE5) && b[o + 11] == 0x0F {
            match lfn_name(b, o) {
                Some(n) => lemma_fname_scan_facts(b, rde, i + 1, acc + n, cnt + 1),
                None => {},
            }
        }
    }
}

/// Where looking `name` up from entry `entry` of the root directory ends:
/// the entry found, `NoEnt` at the end of the directory, `Inval` when the
/// contents end before an entry that has to be read; `None` when a long
/// name on the way is not valid UTF-16.
pub open spec fn lookup_from(dir: Seq<u8>, rde: int, name: Seq<char>, upper: Seq<char>, entry: int)
    -> Option<Result<DirectoryEntry, CanonicalError>>
    decreases rde + 2 - entry,
{
    if entry < 0 || entry > rde + 1 || fname_scan(dir, rde, entry, Seq::empty(), 0) is None {
        None
    } else {
        match lookup_spec(dir, rde, name, upper, entry) {
            LookupStep::Found(d) => Some(Ok(d)),
            LookupStep::Missing => Some(Err(CanonicalError::NoEnt)),
            LookupStep::Invalid => Some(Err(CanonicalError::Inval)),
            LookupStep::Continue(n) => if entry < n <= rde + 1 {
                lookup_from(dir, rde, name, upper, n as int)
            } else {
                None
            },
        }
    }
}

impl Fat16Fs {
    /// Look `name` up in the root directory, whose contents `dir` are its
    /// entries: the entry of the file (a long name matched exactly, or
    /// against `upper`, its upper-case form), `NoEnt` when there is none, or
    /// `Inval`. `None` when a long name on the way is not valid UTF-16 (the
    /// kernel stops there).
    pub fn lookup(&self, dir: &[u8], name: &Vec<char>, upper: &Vec<char>)
        -> (r: Option<Result<DirectoryEntry, CanonicalError>>)
        requires
            dir@.len() == 32 * self.boot_record.root_directory_entries,
            self.boot_record.root_directory_entries < u16::MAX - 1,
        ensures
            r == lookup_from(dir@, self.boot_record.root_directory_entries as int, name@, upper@, 0),
    {
        let ghost rde = self.boot_record.root_directory_entries as int;
        let mut entry: u16 = 0;
        loop
            invariant
                dir@.len() == 32 * rde,
                rde == self.boot_record.root_directory_entries,
                rde < u16::MAX - 1,
                entry <= rde + 1,
                lookup_from(dir@, rde, name@, upper@, 0) == lookup_from(dir@, rde, name@, upper@, entry as int),
            decreases rde + 2 - entry,
        {
            proof {
                lemma_fname_scan_facts(dir@, rde, entry as int, Seq::empty(), 0);
            }
            let step = match self.try_lookup_step(dir, name, upper, entry) {
                None => return None,
                Some(step) => step,
            };
            match step {
                LookupStep::Found(d) => return Some(Ok(d)),
                LookupStep::Missing => return Some(Err(CanonicalError::NoEnt)),
                LookupStep::Invalid => return Some(Err(CanonicalError::Inval)),
                LookupStep::Continue(n) => {
                    assert(entry < n <= rde + 1);
                    entry = n;
                },
            }
        }
    }
}

/// Kind of a node of the file-system tree.
#[derive(Clone, Copy, Debug, PartialEq, Eq, Structural)]
pub enum VNodeKind {
    Regular,
    Directory,
}

/// A directory entry names a directory when its attribute 0x10 is set.
pub fn dirent_kind(d: &DirectoryEntry) -> (r: VNodeKind)
    ensures
        r == (if d.attributes & 0x10 != 0 { VNodeKind::Directory } else { VNodeKind::Regular }),
{
    if d.attributes & 0x10 != 0 {
        VNodeKind::Directory
    } else {
        VNodeKind::Regular
    }
}

// ---------------------------------------------------------------------------
// Open files.

/// Where to seek to.
#[derive(Clone, Copy, Debug, PartialEq, Eq, Structural)]
pub enum SeekFrom {
    Start(i64),
    Current(i64),
    End(i64),
}

/// An open file of a FAT volume: the blocks it is made of and the offset of
/// the next read.
pub struct FatFileHandle {
    pub file_size: u64,
    pub block_list: Vec<u64>,
    pub partition: u32,
    pub current_offset: u64,
    pub block_size: u64,
}

/// The blocks a read has to fetch, and where in them the data starts.
pub struct ReadPlan {
    pub blocks: Vec<u64>,
    pub offset_in_first: u64,
    pub wanted: u64,
}

pub open spec fn min_int(a: int, b: int) -> int {
    if a <= b { a } else { b }
}

impl FatFileHandle {
    /// A handle on a file of `file_size` bytes made of `block_list`, at offset 0.
    pub fn new(file_size: u64, block_list: Vec<u64>, partition: u32, block_size: u64) -> (r: Self)
        ensures
            r.file_size == file_size,
            r.block_list@ == block_list@,
            r.partition == partition,
            r.current_offset == 0,
            r.block_size == block_size,
    {
        FatFileHandle { file_size, block_list, partition, current_offset: 0, block_size }
    }

    /// Bytes a read of `len` returns from the current offset.
    pub open spec fn to_read(&self, len: int) -> int {
        if self.current_offset >= self.file_size {
            0
        } else {
            min_int(len, self.file_size - self.current_offset)
        }
    }

    /// Plan a read of `len` bytes: `None` when there is nothing to read.
    /// Otherwise the blocks from the one holding the current offset to the
    /// one holding the end of the read (cut short where the block list ends),
    /// the offset of the data in the first block, and how much is wanted.
    pub fn plan_read(&self, len: u64) -> (r: Option<ReadPlan>)
        requires
            self.block_size != 0,
            (self.current_offset + self.to_read(len as int)) / (self.block_size as int) < u64::MAX,
        ensures
            self.to_read(len as int) == 0 <==> r is None,
            r matches Some(p) ==> ({
                let start = self.current_offset as int;
                let end = start + self.to_read(len as int);
                let sb = start / (self.block_size as int);
                let eb = end / (self.block_size as int);
                let stop = min_int(eb + 1, self.block_list@.len() as int);
                &&& p.offset_in_first == start % (self.block_size as int)
                &&& p.wanted == self.to_read(len as int)
                &&& p.blocks@ == if sb < stop { self.block_list@.subrange(sb, stop) } else { Seq::empty() }
            }),
    {
        let size = self.file_size;
        let start = self.current_offset;
        if start >= size {
            return None;
        }
        let to_read = if len <= size - start { len } else { size - start };
        if to_read == 0 {
            return None;
        }
        let end = start + to_read;
        let start_block = start / self.block_size;
        let end_block = end / self.block_size;
        proof {
            assert(start_block <= end_block) by (nonlinear_arith)
                requires start <= end, self.block_size > 0, start_block == start / self.block_size, end_block == end / self.block_size;
        }
        let mut blocks: Vec<u64> = Vec::new();
        let mut block_index = start_block;
        let n = self.block_list.len() as u64;
        while block_index <= end_block && block_index < n
            invariant
                start_block <= block_index,
                block_index <= end_block + 1,
                block_index == start_block || block_index <= n,
                n == self.block_list@.len(),
                n <= usize::MAX,
                end_block < u64::MAX,
                blocks@.len() == block_index - start_block,
                forall|j: int| 0 <= j < blocks@.len() ==> blocks@[j] == self.block_list@[start_block + j],
            decreases end_block + 1 - block_index,
        {
            let bi = block_index as usize;
            assert(bi as int == block_index as int);
            blocks.push(self.block_list[bi]);
            block_index = block_index + 1;
        }
        proof {
            if !(start_block < min_int(end_block + 1, n as int)) {
                assert(blocks@ =~= Seq::<u64>::empty());
            } else {
                assert(blocks@ =~= self.block_list@.subrange(start_block as int, min_int(end_block + 1, n as int)));
            }
        }
        Some(ReadPlan { blocks, offset_in_first: start % self.block_size, wanted: to_read })
    }

    /// Finish a planned read of `len` bytes given the contents of the planned
    /// blocks, one after another: the wanted bytes from the offset on (fewer
    /// when the data runs out), and the offset moves past them.
    pub fn finish_read(&mut self, data: &Vec<u8>, plan: &ReadPlan) -> (r: Vec<u8>)
        requires
            plan.offset_in_first <= data@.len(),
            plan.wanted <= old(self).file_size - old(self).current_offset,
            old(self).current_offset <= old(self).file_size,
        ensures
            r@ == data@.subrange(
                plan.offset_in_first as int,
                plan.offset_in_first + min_int(data@.len() - plan.offset_in_first, plan.wanted as int),
            ),
            final(self).current_offset == old(self).current_offset + r@.len(),
            final(self).file_size == old(self).file_size,
            final(self).block_list@ == old(self).block_list@,
            final(self).block_size == old(self).block_size,
            final(self).partition == old(self).partition,
    {
        let off = plan.offset_in_first as usize;
        let avail = data.len() - off;
        let take: usize = if (avail as u64) <= plan.wanted { avail } else { plan.wanted as usize };
        let mut out: Vec<u8> = Vec::new();
        let mut k: usize = 0;
        let dlen = data.len();
        while k < take
            invariant
                k <= take,
                dlen == data@.len(),
                off + take <= data@.len(),
                out@ == data@.subrange(off as int, off + k),
            decreases take - k,
        {
            out.push(data[off + k]);
            proof {
                assert(out@ =~= data@.subrange(off as int, off + k + 1));
            }
            k = k + 1;
        }
        self.current_offset = self.current_offset + take as u64;
        out
    }

    /// Move the offset. `Start` goes to a non-negative position, `Current` moves by
    /// a signed amount, `End` goes to a position counted from the end; the new
    /// offset is returned.
    pub fn seek(&mut self, offset: SeekFrom) -> (r: Result<u64, CanonicalError>)
        requires
            match offset {
                SeekFrom::Start(n) => n >= 0,
                SeekFrom::Current(n) => if n < 0 {
                    n != i64::MIN && old(self).current_offset >= -n
                } else {
                    old(self).current_offset + n <= u64::MAX
                },
                SeekFrom::End(n) => old(self).file_size + n <= i64::MAX && old(self).file_size + n >= i64::MIN
                    && old(self).file_size <= i64::MAX,
            },
        ensures
            final(self).file_size == old(self).file_size,
            final(self).block_list@ == old(self).block_list@,
            final(self).block_size == old(self).block_size,
            final(self).partition == old(self).partition,
            match offset {
                SeekFrom::Start(n) => r == Ok::<u64, CanonicalError>(n as u64) && final(self).current_offset == n,
                SeekFrom::Current(n) => r == Ok::<u64, CanonicalError>((old(self).current_offset + n) as u64)
                    && final(self).current_offset == old(self).current_offset + n,
                SeekFrom::End(n) => r == Ok::<u64, CanonicalError>((old(self).file_size + n) as i64 as u64)
                    && final(self).current_offset == (old(self).file_size + n) as i64 as u64,
            },
    {
        match offset {
            SeekFrom::Start(n) => {
                self.current_offset = n as u64;
                Ok(n as u64)
            },
            SeekFrom::Current(n) => {
                if n < 0 {
                    let back = (-n) as u64;
                    let old_offset = self.current_offset;
                    self.current_offset = old_offset - back;
                    Ok(old_offset - back)
                } else {
                    let old_offset = self.current_offset;
                    self.current_offset = old_offset + n as u64;
                    Ok(old_offset + n as u64)
                }
            },
            SeekFrom::End(n) => {
                let new_offset = self.file_size as i64 + n;
                self.current_offset = new_offset as u64;
                Ok(new_offset as u64)
            },
        }
    }

    /// Files are always readable and writable: the events asked for, cut to
    /// input (0x01) and output (0x02).
    pub fn poll(&self, events: u16) -> (r: u16)
        ensures
            r == events & 0x03,
    {
        events & 0x03
    }

    /// Writing is not supported.
    pub fn write(&self, _buf: &Vec<u8>) -> (r: Result<u64, CanonicalError>)
        ensures
            r == Err::<u64, CanonicalError>(CanonicalError::Badf),
    {
        Err(CanonicalError::Badf)
    }

    /// No control requests are supported.
    pub fn ioctl(&self, _ioctl: u64, _arg: u64) -> (r: Result<u64, CanonicalError>)
        ensures
            r == Err::<u64, CanonicalError>(CanonicalError::Inval),
    {
        Err(CanonicalError::Inval)
    }
}

} // verus!
