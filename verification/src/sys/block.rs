//! Block devices with a GUID partition table: recognising the protective
//! MBR and the partition table header, reading the partition entries, and
//! checking that a read stays inside its partition.
use vstd::prelude::*;
use crate::le::{le32, le64, read_u32, read_u64};

verus! {

/// A partition: its first and last block on the device.
#[derive(Debug, Clone, Copy, PartialEq, Eq, Structural)]
pub struct PartitionEntry {
    pub starting_lba: u64,
    pub ending_lba: u64,
}

/// A device with a GUID partition table: the device (by number) and its
/// partitions.
pub struct GptDevice {
    pub dev: u64,
    pub pt: Vec<PartitionEntry>,
}

/// Whether the first sector is a protective MBR: the first partition's
/// system id (byte 0x1C2) is 0xEE.
pub fn is_protective_mbr(mbr: &[u8]) -> (r: bool)
    requires
        mbr@.len() >= 512,
    ensures
        r == (mbr@[0x1C2] == 0xEE),
{
    mbr[0x1C2] == 0xEE
}

/// The signature of a partition table header.
pub open spec fn efi_signature() -> Seq<u8> {
    seq![0x45u8, 0x46, 0x49, 0x20, 0x50, 0x41, 0x52, 0x54]
}

/// The partition-table layout a header gives: how many sectors to read for
/// the entry array, and how many 128-byte entries to take from them.
#[derive(Debug, Clone, Copy, PartialEq, Eq, Structural)]
pub struct PartitionArrayLayout {
    pub sectors: u32,
    pub entries: u32,
}

/// Read the partition table header in the second sector: `None` without the
/// `EFI PART` signature. The entry-array size field (offset 84) is taken as
/// the array's size in bytes: the sectors holding it, rounded up past a
/// whole sector, and one entry per 128 bytes.
pub fn parse_partition_table_header(pth: &[u8]) -> (r: Option<PartitionArrayLayout>)
    requires
        pth@.len() >= 512,
        le32(pth@, 84) + 512 <= u32::MAX,
    ensures
        pth@.subrange(0, 8) != efi_signature() <==> r is None,
        r matches Some(l) ==> {
            let s = le32(pth@, 84);
            &&& l.sectors == (s + (512 - s % 512)) / 512
            &&& l.entries == s / 128
        },
{
    let mut i: usize = 0;
    while i < 8
        invariant
            pth@.len() >= 512,
            i <= 8,
            pth@.subrange(0, i as int) == efi_signature().subrange(0, i as int),
        decreases 8 - i,
    {
        let expected: u8 = if i == 0 { 0x45 } else if i == 1 { 0x46 } else if i == 2 { 0x49 } else if i == 3 { 0x20 }
            else if i == 4 { 0x50 } else if i == 5 { 0x41 } else if i == 6 { 0x52 } else { 0x54 };
        assert(expected == efi_signature()[i as int]);
        if pth[i] != expected {
            assert(pth@.subrange(0, 8)[i as int] != efi_signature()[i as int]);
            return None;
        }
        assert(pth@.subrange(0, i + 1) =~= pth@.subrange(0, i as int).push(pth@[i as int]));
        assert(efi_signature().subrange(0, i + 1) =~= efi_signature().subrange(0, i as int).push(efi_signature()[i as int]));
        i = i + 1;
    }
    assert(efi_signature().subrange(0, 8) =~= efi_signature());
    let s = read_u32(pth, 84);
    let sectors = (s + (512 - s % 512)) / 512;
    Some(PartitionArrayLayout { sectors, entries: s / 128 })
}

/// The partition entry at `off` of the entry array.
pub open spec fn entry_at(pt: Seq<u8>, off: int) -> PartitionEntry {
    PartitionEntry { starting_lba: le64(pt, off + 32) as u64, ending_lba: le64(pt, off + 40) as u64 }
}

impl GptDevice {
    /// The device `dev` whose entry array `pt` holds `entries` entries of 128
    /// bytes each.
    pub fn new(dev: u64, pt: &[u8], entries: u32) -> (r: GptDevice)
        requires
            128 * entries <= pt@.len(),
        ensures
            r.dev == dev,
            r.pt@ == Seq::new(entries as nat, |p: int| entry_at(pt@, 128 * p)),
    {
        let mut v: Vec<PartitionEntry> = Vec::new();
        let mut p: u32 = 0;
        while p < entries
            invariant
                128 * entries <= pt@.len(),
                p <= entries,
                v@ == Seq::new(p as nat, |q: int| entry_at(pt@, 128 * q)),
            decreases entries - p,
        {
            let n = pt.len();
            assert(128 * (p as int) + 128 <= n) by (nonlinear_arith)
                requires p < entries, 128 * entries <= n;
            let off = (p as usize) * 128;
            v.push(PartitionEntry { starting_lba: read_u64(pt, off + 32), ending_lba: read_u64(pt, off + 40) });
            assert(v@ =~= Seq::new((p + 1) as nat, |q: int| entry_at(pt@, 128 * q)));
            p = p + 1;
        }
        GptDevice { dev, pt: v }
    }

    /// Where a read of `size` blocks from block `starting_block` of a
    /// partition falls on the device: its first block. Refused for a
    /// partition that does not exist, a start at or past the partition's
    /// length, or a read reaching its last block.
    pub fn read(&self, partition: u32, starting_block: u64, size: u64) -> (r: Result<u64, ()>)
        requires
            (partition as int) < self.pt@.len() ==> ({
                let e = self.pt@[partition as int];
                &&& e.starting_lba <= e.ending_lba
                &&& starting_block + e.starting_lba + size <= u64::MAX
            }),
        ensures
            (partition as int) >= self.pt@.len() ==> r is Err,
            (partition as int) < self.pt@.len() ==> ({
                let e = self.pt@[partition as int];
                if starting_block >= e.ending_lba - e.starting_lba || starting_block + e.starting_lba + size >= e.ending_lba {
                    r is Err
                } else {
                    r == Ok::<u64, ()>((starting_block + e.starting_lba) as u64)
                }
            }),
            r matches Ok(lba) ==> (partition as int) < self.pt@.len()
                && self.pt@[partition as int].starting_lba <= lba
                && lba + size < self.pt@[partition as int].ending_lba,
    {
        if partition as usize >= self.pt.len() {
            return Err(());
        }
        let pt = self.pt[partition as usize];
        if starting_block >= pt.ending_lba - pt.starting_lba {
            return Err(());
        }
        let adjusted_start = starting_block + pt.starting_lba;
        if adjusted_start + size >= pt.ending_lba {
            return Err(());
        }
        Ok(adjusted_start)
    }
}

/// Whether a device with first sector `mbr` and second sector `pth` has a
/// GUID partition table: a protective MBR and the `EFI PART` signature.
pub open spec fn has_gpt(mbr: Seq<u8>, pth: Seq<u8>) -> bool {
    mbr[0x1C2] == 0xEE && pth.subrange(0, 8) == efi_signature()
}

/// Entries a partition table header announces.
pub open spec fn announced_entries(pth: Seq<u8>) -> int {
    le32(pth, 84) / 128
}

/// Offer device `dev` to the block devices, given its first sector `mbr`,
/// its second sector `pth` and, from the third sector on, the sectors the
/// header asks for (`pt`): it is added, with the partitions of its entry
/// array, exactly when it has a GUID partition table, and `true` says so.
pub fn register_block_device(table: &mut Vec<GptDevice>, dev: u64, mbr: &[u8], pth: &[u8], pt: &[u8]) -> (r: bool)
    requires
        mbr@.len() >= 512,
        pth@.len() >= 512,
        le32(pth@, 84) + 512 <= u32::MAX,
        has_gpt(mbr@, pth@) ==> 128 * announced_entries(pth@) <= pt@.len(),
    ensures
        r == has_gpt(mbr@, pth@),
        r ==> final(table)@.len() == old(table)@.len() + 1
            && final(table)@.drop_last() == old(table)@
            && final(table)@.last().dev == dev
            && final(table)@.last().pt@ == Seq::new(announced_entries(pth@) as nat, |p: int| entry_at(pt@, 128 * p)),
        !r ==> final(table)@ == old(table)@,
{
    if !is_protective_mbr(mbr) {
        return false;
    }
    let layout = match parse_partition_table_header(pth) {
        None => return false,
        Some(l) => l,
    };
    let g = GptDevice::new(dev, pt, layout.entries);
    table.push(g);
    proof {
        assert(table@.drop_last() =~= old(table)@);
    }
    true
}

} // verus!
