//! IDE drives: what the IDENTIFY data says, how a drive announces its kind,
//! the task-file writes that address a transfer, and the physical region
//! descriptor table of a DMA read.
use vstd::prelude::*;
use crate::le::{le16, le32, le64, read_u16, read_u32, read_u64};
use crate::memory::MemoryRegion;
use crate::text::{string_from_chars, trim_chars, trim_spec};

verus! {

/// Register offsets from the I/O base.
pub const IDE_REG_SECCOUNT: u16 = 2;
pub const IDE_REG_LBA0: u16 = 3;
pub const IDE_REG_LBA1: u16 = 4;
pub const IDE_REG_LBA2: u16 = 5;

/// Status register bits.
pub const IDE_STATUS_ERR: u8 = 0x01;
pub const IDE_STATUS_DRQ: u8 = 0x08;
pub const IDE_STATUS_DF: u8 = 0x20;
pub const IDE_STATUS_RDY: u8 = 0x40;
pub const IDE_STATUS_BSY: u8 = 0x80;

/// The transfer modes a drive may support, fastest multiword DMA first.
#[derive(Debug, Clone, Copy, PartialEq, Eq, Structural)]
pub enum Mode {
    MWDMA2,
    MWDMA1,
    MWDMA0,
    UDMA6,
    UDMA5,
    UDMA4,
    UDMA3,
    UDMA2,
    UDMA1,
    UDMA0,
    PIO,
}

/// The kinds of drive on an IDE bus.
#[derive(Debug, Clone, Copy, PartialEq, Eq, Structural)]
pub enum DriveType {
    ATA,
    ATAPI,
    SATA,
    SATAPI,
}

/// The part of the 512-byte IDENTIFY data the driver uses: the model number
/// (words 27-46), the 28-bit sector count (words 60-61), the multiword DMA
/// modes (word 63), the supported command sets (words 82-87), the Ultra DMA
/// modes (word 88) and the 48-bit sector count (words 100-103).
#[derive(Debug, Clone)]
pub struct IdentifyStruct {
    pub model_number: Vec<u8>,
    pub sectors_28: u32,
    pub dma_modes: u16,
    pub supported_commands_1: u16,
    pub udma_modes: u16,
    pub addressable_logical_sectors: u64,
}

/// Bit `i` of `w`.
pub open spec fn bit(w: u16, i: u16) -> bool {
    (w >> i) & 1 == 1
}

fn get_bit(w: u16, i: u16) -> (r: bool)
    requires
        i < 16,
    ensures
        r == bit(w, i),
{
    (w >> i) & 1 == 1
}

pub open spec fn mode_of(dma: u16, udma: u16) -> Mode {
    if bit(dma, 10) { Mode::MWDMA2 }
    else if bit(dma, 9) { Mode::MWDMA1 }
    else if bit(dma, 8) { Mode::MWDMA0 }
    else if bit(udma, 14) { Mode::UDMA6 }
    else if bit(udma, 13) { Mode::UDMA5 }
    else if bit(udma, 12) { Mode::UDMA4 }
    else if bit(udma, 11) { Mode::UDMA3 }
    else if bit(udma, 10) { Mode::UDMA2 }
    else if bit(udma, 9) { Mode::UDMA1 }
    else if bit(udma, 8) { Mode::UDMA0 }
    else { Mode::PIO }
}

/// The model number's characters: the bytes of each word swapped back into
/// reading order.
pub open spec fn model_chars(m: Seq<u8>) -> Seq<char> {
    Seq::new(40, |i: int| (if i % 2 == 0 { m[i + 1] } else { m[i - 1] }) as char)
}

/// Read the fields the driver uses from the IDENTIFY data.
pub fn parse_identify(data: &[u8]) -> (r: IdentifyStruct)
    requires
        data@.len() == 512,
    ensures
        r.model_number@ == data@.subrange(54, 94),
        r.sectors_28 == le32(data@, 120),
        r.dma_modes == le16(data@, 126),
        r.supported_commands_1 == le16(data@, 166),
        r.udma_modes == le16(data@, 176),
        r.addressable_logical_sectors == le64(data@, 200),
{
    let mut model: Vec<u8> = Vec::new();
    let mut i: usize = 0;
    while i < 40
        invariant
            data@.len() == 512,
            i <= 40,
            model@.len() == i,
            forall|k: int| 0 <= k < i ==> model@[k] == data@[54 + k],
        decreases 40 - i,
    {
        model.push(data[54 + i]);
        i = i + 1;
    }
    assert(model@ =~= data@.subrange(54, 94));
    IdentifyStruct {
        model_number: model,
        sectors_28: read_u32(data, 120),
        dma_modes: read_u16(data, 126),
        supported_commands_1: read_u16(data, 166),
        udma_modes: read_u16(data, 176),
        addressable_logical_sectors: read_u64(data, 200),
    }
}

impl IdentifyStruct {
    /// Whether the drive takes 48-bit addresses: bit 10 of word 83.
    pub fn is_lba48(&self) -> (r: bool)
        ensures
            r == bit(self.supported_commands_1, 10),
    {
        get_bit(self.supported_commands_1, 10)
    }

    /// The drive's size in sectors: the 48-bit count when it takes 48-bit
    /// addresses, else the 28-bit count.
    pub fn get_size_in_sectors(&self) -> (r: u64)
        ensures
            r == if bit(self.supported_commands_1, 10) { self.addressable_logical_sectors } else { self.sectors_28 as u64 },
    {
        if self.is_lba48() { self.addressable_logical_sectors } else { self.sectors_28 as u64 }
    }

    /// The mode to transfer in: the fastest multiword DMA mode supported,
    /// else the fastest Ultra DMA mode, else PIO.
    pub fn get_mode(&self) -> (r: Mode)
        ensures
            r == mode_of(self.dma_modes, self.udma_modes),
    {
        let dma = self.dma_modes;
        let udma = self.udma_modes;
        if get_bit(dma, 10) { Mode::MWDMA2 }
        else if get_bit(dma, 9) { Mode::MWDMA1 }
        else if get_bit(dma, 8) { Mode::MWDMA0 }
        else if get_bit(udma, 14) { Mode::UDMA6 }
        else if get_bit(udma, 13) { Mode::UDMA5 }
        else if get_bit(udma, 12) { Mode::UDMA4 }
        else if get_bit(udma, 11) { Mode::UDMA3 }
        else if get_bit(udma, 10) { Mode::UDMA2 }
        else if get_bit(udma, 9) { Mode::UDMA1 }
        else if get_bit(udma, 8) { Mode::UDMA0 }
        else { Mode::PIO }
    }

    /// The model name when the model number is 40 ASCII bytes, as
    /// `get_model` gives it; `None` otherwise.
    pub fn model_name(&self) -> (r: Option<String>)
        ensures
            (self.model_number@.len() == 40 && forall|i: int| 0 <= i < 40 ==> self.model_number@[i] < 128)
                ==> (r matches Some(m) && m@ == trim_spec(model_chars(self.model_number@))),
            !(self.model_number@.len() == 40 && forall|i: int| 0 <= i < 40 ==> self.model_number@[i] < 128)
                ==> r is None,
    {
        if self.model_number.len() != 40 {
            return None;
        }
        let mut i: usize = 0;
        while i < 40
            invariant
                i <= 40,
                self.model_number@.len() == 40,
                forall|j: int| 0 <= j < i ==> self.model_number@[j] < 128,
            decreases 40 - i,
        {
            if self.model_number[i] >= 128 {
                return None;
            }
            i = i + 1;
        }
        Some(self.get_model())
    }

    /// The model name: the model number with each word's bytes swapped back,
    /// white space trimmed. Its bytes must be ASCII.
    pub fn get_model(&self) -> (r: String)
        requires
            self.model_number@.len() == 40,
            forall|i: int| 0 <= i < 40 ==> self.model_number@[i] < 128,
        ensures
            r@ == trim_spec(model_chars(self.model_number@)),
    {
        let mut v: Vec<char> = Vec::new();
        let mut i: usize = 0;
        while i < 40
            invariant
                i <= 40,
                i % 2 == 0,
                self.model_number@.len() == 40,
                v@ == model_chars(self.model_number@).take(i as int),
            decreases 40 - i,
        {
            let a = self.model_number[i];
            let b = self.model_number[i + 1];
            v.push(b as char);
            v.push(a as char);
            assert(model_chars(self.model_number@).take(i + 2)
                =~= model_chars(self.model_number@).take(i as int).push(b as char).push(a as char));
            i = i + 2;
        }
        assert(model_chars(self.model_number@).take(40) =~= model_chars(self.model_number@));
        let t = trim_chars(&v);
        string_from_chars(&t)
    }
}

/// The kind a drive announces in the cylinder registers after IDENTIFY
/// fails; `None` for a signature the driver does not know.
pub fn drive_type_from_signature(cl: u8, ch: u8) -> (r: Option<DriveType>)
    ensures
        r == if cl == 0x14 && ch == 0xEB { Some(DriveType::ATAPI) }
            else if cl == 0x69 && ch == 0x96 { Some(DriveType::SATAPI) }
            else if cl == 0 && ch == 0 { Some(DriveType::ATA) }
            else if cl == 0x3C && ch == 0xC3 { Some(DriveType::SATA) }
            else { None },
{
    if cl == 0x14 && ch == 0xEB { Some(DriveType::ATAPI) }
    else if cl == 0x69 && ch == 0x96 { Some(DriveType::SATAPI) }
    else if cl == 0 && ch == 0 { Some(DriveType::ATA) }
    else if cl == 0x3C && ch == 0xC3 { Some(DriveType::SATA) }
    else { None }
}

/// What a status read while probing a drive after IDENTIFY means.
#[derive(Debug, Clone, Copy, PartialEq, Eq, Structural)]
pub enum ProbeStep {
    /// The error bit is set: the drive type is in the cylinder registers.
    ReadSignature,
    /// Not busy and ready: an ATA drive.
    Ata,
    /// Read the status again.
    Again,
}

pub fn probe_step(status: u8) -> (r: ProbeStep)
    ensures
        r == if status & 1 == 1 { ProbeStep::ReadSignature }
            else if status & 0x80 == 0 && status & 0x40 != 0 { ProbeStep::Ata }
            else { ProbeStep::Again },
{
    if status & IDE_STATUS_ERR == 1 {
        ProbeStep::ReadSignature
    } else if status & IDE_STATUS_BSY == 0 && status & IDE_STATUS_RDY != 0 {
        ProbeStep::Ata
    } else {
        ProbeStep::Again
    }
}

/// The IDENTIFY command for a drive type: the packet form for ATAPI drives.
pub fn identify_command(t: DriveType) -> (r: u8)
    ensures
        r == if t == DriveType::ATAPI || t == DriveType::SATAPI { 0xA1u8 } else { 0xECu8 },
{
    match t {
        DriveType::ATAPI => 0xA1,
        DriveType::SATAPI => 0xA1,
        DriveType::ATA => 0xEC,
        DriveType::SATA => 0xEC,
    }
}

/// A byte to write to an I/O port at an offset from the I/O base.
#[derive(Debug, Clone, Copy, PartialEq, Eq, Structural)]
pub struct PortWrite {
    pub register: u16,
    pub value: u8,
}

pub open spec fn byte_of(v: u64, shift: u64) -> u8 {
    (v >> shift) as u8
}

/// The task-file writes that address `size` sectors from sector `offset`:
/// with 48-bit addressing first the high bytes of the address and count,
/// then the low bytes.
pub fn xfer_params(lba48: bool, offset: u64, size: u64) -> (r: Vec<PortWrite>)
    ensures
        r@ == (if lba48 {
            seq![
                PortWrite { register: IDE_REG_LBA0, value: byte_of(offset, 24) },
                PortWrite { register: IDE_REG_LBA1, value: byte_of(offset, 32) },
                PortWrite { register: IDE_REG_LBA2, value: byte_of(offset, 40) },
                PortWrite { register: IDE_REG_SECCOUNT, value: byte_of(size, 8) },
            ]
        } else {
            Seq::empty()
        }) + seq![
            PortWrite { register: IDE_REG_LBA0, value: byte_of(offset, 0) },
            PortWrite { register: IDE_REG_LBA1, value: byte_of(offset, 8) },
            PortWrite { register: IDE_REG_LBA2, value: byte_of(offset, 16) },
            PortWrite { register: IDE_REG_SECCOUNT, value: byte_of(size, 0) },
        ],
{
    let mut v: Vec<PortWrite> = Vec::new();
    if lba48 {
        v.push(PortWrite { register: IDE_REG_LBA0, value: (offset >> 24u64) as u8 });
        v.push(PortWrite { register: IDE_REG_LBA1, value: (offset >> 32u64) as u8 });
        v.push(PortWrite { register: IDE_REG_LBA2, value: (offset >> 40u64) as u8 });
        v.push(PortWrite { register: IDE_REG_SECCOUNT, value: (size >> 8u64) as u8 });
    }
    v.push(PortWrite { register: IDE_REG_LBA0, value: (offset >> 0u64) as u8 });
    v.push(PortWrite { register: IDE_REG_LBA1, value: (offset >> 8u64) as u8 });
    v.push(PortWrite { register: IDE_REG_LBA2, value: (offset >> 16u64) as u8 });
    v.push(PortWrite { register: IDE_REG_SECCOUNT, value: (size >> 0u64) as u8 });
    assert(v@ =~= (if lba48 {
            seq![
                PortWrite { register: IDE_REG_LBA0, value: byte_of(offset, 24) },
                PortWrite { register: IDE_REG_LBA1, value: byte_of(offset, 32) },
                PortWrite { register: IDE_REG_LBA2, value: byte_of(offset, 40) },
                PortWrite { register: IDE_REG_SECCOUNT, value: byte_of(size, 8) },
            ]
        } else {
            Seq::empty()
        }) + seq![
            PortWrite { register: IDE_REG_LBA0, value: byte_of(offset, 0) },
            PortWrite { register: IDE_REG_LBA1, value: byte_of(offset, 8) },
            PortWrite { register: IDE_REG_LBA2, value: byte_of(offset, 16) },
            PortWrite { register: IDE_REG_SECCOUNT, value: byte_of(size, 0) },
        ]);
    v
}

/// The runs of physically contiguous 4 KiB pages among `pages`, in order.
pub open spec fn page_runs(pages: Seq<u64>) -> Seq<MemoryRegion>
    decreases pages.len(),
{
    if pages.len() == 0 {
        Seq::empty()
    } else {
        let rest = page_runs(pages.drop_last());
        let p = pages.last();
        if pages.len() >= 2 && p == pages[pages.len() - 2] + 4096 {
            rest.update(rest.len() - 1, MemoryRegion { start: rest.last().start, end: (p + 4096) as u64 })
        } else {
            rest.push(MemoryRegion { start: p, end: (p + 4096) as u64 })
        }
    }
}

proof fn lemma_page_runs_shape(pages: Seq<u64>)
    requires
        pages.len() > 0,
        forall|i: int| 0 <= i < pages.len() ==> pages[i] + 4096 <= u64::MAX,
    ensures
        page_runs(pages).len() > 0,
        page_runs(pages).last().end == pages.last() + 4096,
        forall|i: int| 0 <= i < page_runs(pages).len() ==> #[trigger] page_runs(pages)[i].start < page_runs(pages)[i].end,
        forall|i: int| 0 <= i < page_runs(pages).len() ==> exists|j: int| 0 <= j < pages.len()
            && #[trigger] page_runs(pages)[i].end == pages[j] + 4096,
    decreases pages.len(),
{
    let pr = page_runs(pages);
    let p = pages.last();
    if pages.len() >= 2 {
        let d = pages.drop_last();
        lemma_page_runs_shape(d);
        let rest = page_runs(d);
        assert(rest.last().end == d.last() + 4096);
        assert(d.last() == pages[pages.len() - 2]);
        if p == pages[pages.len() - 2] + 4096 {
            assert(pr == rest.update(rest.len() - 1, MemoryRegion { start: rest.last().start, end: (p + 4096) as u64 }));
            assert forall|i: int| 0 <= i < pr.len() implies #[trigger] pr[i].start < pr[i].end by {
                if i < rest.len() - 1 { assert(pr[i] == rest[i]); }
            }
            assert forall|i: int| 0 <= i < pr.len() implies exists|j: int| 0 <= j < pages.len()
                && #[trigger] pr[i].end == pages[j] + 4096 by {
                if i < rest.len() - 1 {
                    assert(pr[i] == rest[i]);
                    let j = choose|j: int| 0 <= j < d.len() && rest[i].end == d[j] + 4096;
                    assert(pages[j] == d[j]);
                } else {
                    assert(pr[i].end == pages[pages.len() - 1] + 4096);
                }
            }
        } else {
            assert(pr == rest.push(MemoryRegion { start: p, end: (p + 4096) as u64 }));
            assert forall|i: int| 0 <= i < pr.len() implies #[trigger] pr[i].start < pr[i].end by {
                if i < rest.len() { assert(pr[i] == rest[i]); }
            }
            assert forall|i: int| 0 <= i < pr.len() implies exists|j: int| 0 <= j < pages.len()
                && #[trigger] pr[i].end == pages[j] + 4096 by {
                if i < rest.len() {
                    assert(pr[i] == rest[i]);
                    let j = choose|j: int| 0 <= j < d.len() && rest[i].end == d[j] + 4096;
                    assert(pages[j] == d[j]);
                } else {
                    assert(pr[i].end == pages[pages.len() - 1] + 4096);
                }
            }
        }
    } else {
        assert(pages.drop_last() =~= Seq::<u64>::empty());
        assert(page_runs(pages.drop_last()) =~= Seq::<MemoryRegion>::empty());
        assert(pr == Seq::<MemoryRegion>::empty().push(MemoryRegion { start: p, end: (p + 4096) as u64 }));
        assert forall|i: int| 0 <= i < pr.len() implies exists|j: int| 0 <= j < pages.len()
            && #[trigger] pr[i].end == pages[j] + 4096 by {
            assert(pr[i].end == pages[0] + 4096);
        }
    }
}

/// Merge runs of physically contiguous pages into regions.
pub fn compact_pages(pages: &Vec<u64>) -> (r: Vec<MemoryRegion>)
    requires
        forall|i: int| 0 <= i < pages@.len() ==> pages@[i] + 4096 <= u64::MAX,
    ensures
        r@ == page_runs(pages@),
{
    let mut out: Vec<MemoryRegion> = Vec::new();
    let n = pages.len();
    let mut i: usize = 0;
    while i < n
        invariant
            n == pages@.len(),
            i <= n,
            forall|k: int| 0 <= k < pages@.len() ==> pages@[k] + 4096 <= u64::MAX,
            out@ == page_runs(pages@.take(i as int)),
        decreases n - i,
    {
        let p = pages[i];
        let ghost before = pages@.take(i as int);
        assert(pages@.take(i + 1).drop_last() =~= before);
        if i > 0 && p == pages[i - 1] + 4096 {
            proof {
                lemma_page_runs_shape(before);
            }
            let last = out.len() - 1;
            let start = out[last].start;
            out.set(last, MemoryRegion { start, end: p + 4096 });
        } else {
            out.push(MemoryRegion { start: p, end: p + 4096 });
        }
        i = i + 1;
    }
    assert(pages@.take(n as int) =~= pages@);
    out
}

/// The total size of some regions.
pub open spec fn regions_size(rs: Seq<MemoryRegion>) -> int
    decreases rs.len(),
{
    if rs.len() == 0 { 0 } else { regions_size(rs.drop_last()) + rs.last().end - rs.last().start }
}

/// The region-descriptor entries (address, byte count) covering one region
/// in pieces of at most 64 KiB, from `from` on; a count of 0 means 64 KiB.
pub open spec fn region_entries(r: MemoryRegion, from: int) -> Seq<(u32, u32)>
    decreases r.end - from,
{
    if from >= r.end || from < r.start {
        Seq::empty()
    } else if from + 0x10000 >= r.end {
        let size = r.end - from;
        seq![(from as u32, if size >= 0x10000 { 0u32 } else { (size % 0x10000) as u32 })]
    } else {
        seq![(from as u32, 0u32)] + region_entries(r, from + 0x10000)
    }
}

pub open spec fn prdt_entries(rs: Seq<MemoryRegion>) -> Seq<(u32, u32)>
    decreases rs.len(),
{
    if rs.len() == 0 { Seq::empty() } else { prdt_entries(rs.drop_last()) + region_entries(rs.last(), rs.last().start as int) }
}

/// The physical region descriptor table as 32-bit words: each entry's
/// address and count, and the end-of-table bit on the last count.
pub open spec fn prdt_words(entries: Seq<(u32, u32)>) -> Seq<u32> {
    Seq::new(2 * entries.len(), |k: int|
        if k % 2 == 0 { entries[k / 2].0 }
        else if k == 2 * entries.len() - 1 { entries[k / 2].1 | 0x8000_0000u32 }
        else { entries[k / 2].1 })
}

fn region_entries_exec(r: MemoryRegion, out: &mut Vec<(u32, u32)>)
    requires
        r.start <= r.end < 0x1_0000_0000,
    ensures
        final(out)@ == old(out)@ + region_entries(r, r.start as int),
{
    let ghost o = out@;
    let mut i: u64 = r.start;
    while i < r.end
        invariant
            r.start <= i,
            r.end < 0x1_0000_0000,
            i < r.end + 0x10000,
            out@ + region_entries(r, i as int) == o + region_entries(r, r.start as int),
        decreases r.end + 0x10000 - i,
    {
        let size = r.end - i;
        let count: u32 = if size >= 0x10000 { 0 } else { (size as u32) & 0xFFFF };
        proof {
            let s32 = size as u32;
            if size < 0x10000 {
                assert(s32 & 0xFFFF == s32 % 0x10000) by (bit_vector);
            }
        }
        let ghost before = out@;
        out.push((i as u32, count));
        assert(out@ + region_entries(r, i + 0x10000) =~= before + region_entries(r, i as int));
        i = i + 0x10000;
    }
    assert(region_entries(r, i as int) =~= Seq::<(u32, u32)>::empty());
    assert(out@ =~= out@ + Seq::<(u32, u32)>::empty());
}

/// A DMA read of `size` sectors into the pages `pages`: the pages merged into
/// contiguous regions, the last cut so they hold exactly `size` * 512 bytes,
/// and the descriptor table covering them. At most 65536 sectors, the
/// regions below 4 GiB, and the table fits in one page.
pub struct DmaReadPlan {
    pub regions: Vec<MemoryRegion>,
    pub prdt: Vec<u32>,
}

pub open spec fn trimmed_regions(pages: Seq<u64>, size: u64) -> Seq<MemoryRegion> {
    let rs = page_runs(pages);
    let total = regions_size(rs);
    if total != size * 512 {
        rs.update(rs.len() - 1, MemoryRegion { start: rs.last().start, end: (rs.last().end - (total - size * 512)) as u64 })
    } else {
        rs
    }
}

proof fn lemma_regions_size_bounds(rs: Seq<MemoryRegion>)
    requires
        forall|i: int| 0 <= i < rs.len() ==> rs[i].start <= rs[i].end,
    ensures
        regions_size(rs) >= 0,
        rs.len() > 0 ==> regions_size(rs) >= rs.last().end - rs.last().start,
    decreases rs.len(),
{
    if rs.len() > 0 {
        lemma_regions_size_bounds(rs.drop_last());
    }
}

/// The regions of a DMA read hold exactly the sectors asked for: the runs
/// of pages, cut short at the end, add up to `size` sectors of 512 bytes.
pub proof fn lemma_trimmed_regions_size(pages: Seq<u64>, size: u64)
    requires
        pages.len() > 0,
        forall|i: int| 0 <= i < pages.len() ==> pages[i] + 4096 <= u64::MAX,
        regions_size(page_runs(pages)) >= size * 512,
        regions_size(page_runs(pages)) - size * 512 <= page_runs(pages).last().end - page_runs(pages).last().start,
    ensures
        regions_size(trimmed_regions(pages, size)) == size * 512,
{
    let rs = page_runs(pages);
    lemma_page_runs_shape(pages);
    let total = regions_size(rs);
    if total != size * 512 {
        let t = trimmed_regions(pages, size);
        assert(t.drop_last() =~= rs.drop_last());
        assert(t.last().end == rs.last().end - (total - size * 512));
    }
}

/// Plan a DMA read of `size` sectors into the physical pages `pages`.
pub fn plan_dma_read(pages: &Vec<u64>, size: u64) -> (r: DmaReadPlan)
    requires
        size <= 65536,
        pages@.len() > 0,
        forall|i: int| 0 <= i < pages@.len() ==> pages@[i] + 4096 < 0x1_0000_0000,
        regions_size(page_runs(pages@)) < u64::MAX,
        regions_size(page_runs(pages@)) >= size * 512,
        regions_size(page_runs(pages@)) - size * 512 <= page_runs(pages@).last().end - page_runs(pages@).last().start,
        1 <= prdt_entries(trimmed_regions(pages@, size)).len() <= 512,
    ensures
        r.regions@ == trimmed_regions(pages@, size),
        regions_size(r.regions@) == size * 512,
        r.prdt@ == prdt_words(prdt_entries(trimmed_regions(pages@, size))),
{
    proof {
        lemma_trimmed_regions_size(pages@, size);
    }
    let mut regions = compact_pages(pages);
    let ghost rs = regions@;
    proof {
        lemma_page_runs_shape(pages@);
        lemma_regions_size_bounds(rs);
    }
    let n = regions.len();
    let mut total: u64 = 0;
    let mut i: usize = 0;
    while i < n
        invariant
            n == rs.len(),
            regions@ == rs,
            i <= n,
            forall|k: int| 0 <= k < rs.len() ==> #[trigger] rs[k].start < rs[k].end,
            regions_size(rs) < u64::MAX,
            total == regions_size(rs.take(i as int)),
        decreases n - i,
    {
        assert(rs.take(i + 1).drop_last() =~= rs.take(i as int));
        proof {
            lemma_regions_size_bounds(rs.skip(i + 1));
            lemma_regions_split(rs, i + 1);
        }
        total = total + (regions[i].end - regions[i].start);
        i = i + 1;
    }
    assert(rs.take(n as int) =~= rs);
    let want = size * 512;
    if total != want {
        let last = n - 1;
        let r0 = regions[last];
        regions.set(last, MemoryRegion { start: r0.start, end: r0.end - (total - want) });
    }
    assert(regions@ =~= trimmed_regions(pages@, size));
    let ghost ts = regions@;
    proof {
        assert forall|k: int| 0 <= k < ts.len() implies #[trigger] ts[k].start <= ts[k].end && ts[k].end < 0x1_0000_0000 by {
            let j = choose|j: int| 0 <= j < pages@.len() && rs[k].end == pages@[j] + 4096;
            assert(rs[k].start < rs[k].end);
        }
    }
    let mut entries: Vec<(u32, u32)> = Vec::new();
    let mut j: usize = 0;
    while j < regions.len()
        invariant
            ts == regions@,
            j <= ts.len(),
            forall|k: int| 0 <= k < ts.len() ==> #[trigger] ts[k].start <= ts[k].end && ts[k].end < 0x1_0000_0000,
            entries@ == prdt_entries(ts.take(j as int)),
        decreases ts.len() - j,
    {
        assert(ts.take(j + 1).drop_last() =~= ts.take(j as int));
        region_entries_exec(regions[j], &mut entries);
        j = j + 1;
    }
    assert(ts.take(ts.len() as int) =~= ts);
    let ne = entries.len();
    let mut prdt: Vec<u32> = Vec::new();
    let mut k: usize = 0;
    while k < ne
        invariant
            ne == entries@.len(),
            1 <= ne <= 512,
            k <= ne,
            prdt@ == prdt_words(entries@).take(2 * k as int),
        decreases ne - k,
    {
        let (a, c) = entries[k];
        prdt.push(a);
        if k == ne - 1 {
            prdt.push(c | 0x8000_0000u32);
        } else {
            prdt.push(c);
        }
        assert(prdt@ =~= prdt_words(entries@).take(2 * (k + 1) as int));
        k = k + 1;
    }
    assert(prdt_words(entries@).take(2 * ne as int) =~= prdt_words(entries@));
    DmaReadPlan { regions, prdt }
}

proof fn lemma_regions_split(rs: Seq<MemoryRegion>, i: int)
    requires
        0 <= i <= rs.len(),
        forall|k: int| 0 <= k < rs.len() ==> #[trigger] rs[k].start < rs[k].end,
    ensures
        regions_size(rs) >= regions_size(rs.take(i)),
    decreases rs.len() - i,
{
    if i < rs.len() {
        lemma_regions_split(rs, i + 1);
        assert(rs.take(i + 1).drop_last() =~= rs.take(i));
    } else {
        assert(rs.take(i) =~= rs);
    }
}

} // verus!
