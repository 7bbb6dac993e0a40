//! Loading a program: where its segments go, how much memory they need, and
//! where it sits once loaded. The ELF file is read with `xmas_elf`.
use vstd::prelude::*;
use crate::le::{le16, le32, le64};

verus! {

/// A program loaded into an address space.
#[derive(Debug, Clone, Copy, PartialEq, Eq, Structural)]
pub struct Elf {
    pub entry: u64,
    pub base: u64,
    pub program_header: u64,
    pub program_header_entry_size: u64,
    pub program_header_entry_count: u64,
}

/// The ELF header fields the loader uses: whether the file is of the 64-bit
/// class, entry point, file type (2 for an executable, 3 for a shared
/// object), and the program-header table's offset, entry size and entry
/// count.
#[derive(Debug, Clone, Copy, PartialEq, Eq, Structural)]
pub struct ElfHeaderInfo {
    pub is_64: bool,
    pub entry: u64,
    pub file_type: u16,
    pub ph_offset: u64,
    pub ph_entry_size: u16,
    pub ph_count: u16,
}

/// A program header: whether it is a loadable segment (`None` when its type
/// is not one `xmas_elf` knows), where it goes, its sizes in memory and in
/// the file, and its offset in the file.
#[derive(Debug, Clone, Copy, PartialEq, Eq, Structural)]
pub struct ProgramHeaderInfo {
    pub is_load: Option<bool>,
    pub virtual_addr: u64,
    pub mem_size: u64,
    pub file_size: u64,
    pub offset: u64,
}

/// What `xmas_elf::ElfFile::new` reads from a file's header (fields in the
/// machine's little-endian order): `None` when the file is not ELF, that is
/// shorter than the 16-byte identification, without the magic number, of a
/// class other than 32-bit (1) or 64-bit (2), or shorter than the header of
/// its class (52 or 64 bytes).
pub open spec fn elf_header_of(file: Seq<u8>) -> Option<ElfHeaderInfo> {
    if file.len() < 16 || file.subrange(0, 4) != seq![0x7Fu8, 0x45, 0x4C, 0x46] {
        None
    } else if file[4] == 1 {
        if file.len() < 52 {
            None
        } else {
            Some(ElfHeaderInfo {
                is_64: false,
                entry: le32(file, 24) as u64,
                file_type: le16(file, 16) as u16,
                ph_offset: le32(file, 28) as u64,
                ph_entry_size: le16(file, 42) as u16,
                ph_count: le16(file, 44) as u16,
            })
        }
    } else if file[4] == 2 {
        if file.len() < 64 {
            None
        } else {
            Some(ElfHeaderInfo {
                is_64: true,
                entry: le64(file, 24) as u64,
                file_type: le16(file, 16) as u16,
                ph_offset: le64(file, 32) as u64,
                ph_entry_size: le16(file, 54) as u16,
                ph_count: le16(file, 56) as u16,
            })
        }
    } else {
        None
    }
}

/// The program headers `xmas_elf` lists for a file.
pub uninterp spec fn elf_program_headers_of(file: Seq<u8>) -> Seq<ProgramHeaderInfo>;

/// The ELF header of `file`, read by `xmas_elf::ElfFile::new`; `None` when
/// it refuses the file (`elf_header_of` says when).
/// `xmas_elf` reads its structures in place and panics when they are not
/// aligned in memory, so the bytes are first copied to an 8-aligned place.
#[verifier::external_body]
fn read_elf_header(file: &[u8]) -> (r: Option<ElfHeaderInfo>)
    ensures
        r == elf_header_of(file@),
{
    let mut copy = vec![0u8; file.len() + 8];
    let at = (8 - copy.as_ptr() as usize % 8) % 8;
    copy[at..at + file.len()].copy_from_slice(file);
    let elf = xmas_elf::ElfFile::new(&copy[at..at + file.len()]).ok()?;
    let pt2 = &elf.header.pt2;
    Some(ElfHeaderInfo {
        is_64: matches!(elf.header.pt1.class(), xmas_elf::header::Class::SixtyFour),
        entry: pt2.entry_point(),
        file_type: pt2.type_().0,
        ph_offset: pt2.ph_offset(),
        ph_entry_size: pt2.ph_entry_size(),
        ph_count: pt2.ph_count(),
    })
}

/// Alignment in memory of a program header of the file's class.
pub open spec fn ph_align(h: ElfHeaderInfo) -> int {
    if h.is_64 { 8 } else { 4 }
}

/// Whether the program-header table a header announces can be read from a
/// file of `len` bytes: when there is a table at all (entries, an offset and
/// an entry size), it lies inside the file, each entry is at least as long
/// as a program header of the file's class, and the offset and entry size
/// keep every entry aligned for that structure.
pub open spec fn ph_table_fits(h: ElfHeaderInfo, len: int) -> bool {
    h.ph_count > 0 && h.ph_offset > 0 && h.ph_entry_size > 0 ==> {
        &&& h.ph_offset + h.ph_count * h.ph_entry_size <= len
        &&& h.ph_entry_size >= (if h.is_64 { 56int } else { 32int })
        &&& (h.ph_offset as int) % ph_align(h) == 0
        &&& (h.ph_entry_size as int) % ph_align(h) == 0
    }
}

/// The program headers of an ELF file, read by `xmas_elf`'s
/// `ElfFile::program_iter`. The result is named (`elf_program_headers_of`).
/// `xmas_elf` panics on a table that does not fit or whose entries are not
/// aligned in memory; the contract leaves such a table out, and the bytes
/// are copied to an 8-aligned place first.
#[verifier::external_body]
fn read_program_headers(file: &[u8]) -> (r: Vec<ProgramHeaderInfo>)
    requires
        elf_header_of(file@) matches Some(h) && ph_table_fits(h, file@.len() as int),
    ensures
        r@ == elf_program_headers_of(file@),
{
    let mut copy = vec![0u8; file.len() + 8];
    let at = (8 - copy.as_ptr() as usize % 8) % 8;
    copy[at..at + file.len()].copy_from_slice(file);
    let elf = xmas_elf::ElfFile::new(&copy[at..at + file.len()]).unwrap();
    elf.program_iter().map(|ph| ProgramHeaderInfo {
        is_load: ph.get_type().ok().map(|t| t == xmas_elf::program::Type::Load),
        virtual_addr: ph.virtual_addr(),
        mem_size: ph.mem_size(),
        file_size: ph.file_size(),
        offset: ph.offset(),
    }).collect()
}

/// Whether a program header is one of the empty ones that are skipped.
pub open spec fn skipped(ph: ProgramHeaderInfo) -> bool {
    ph.virtual_addr == 0 && ph.mem_size == 0
}

/// The lowest start and highest end of the segments that are not skipped,
/// over the first `k` headers.
pub open spec fn bounds_upto(phs: Seq<ProgramHeaderInfo>, k: int) -> Option<(int, int)>
    decreases k,
{
    if k <= 0 {
        None
    } else {
        let rest = bounds_upto(phs, k - 1);
        let ph = phs[k - 1];
        if skipped(ph) {
            rest
        } else {
            let lo = ph.virtual_addr as int;
            let hi = ph.virtual_addr + ph.mem_size;
            match rest {
                None => Some((lo, hi)),
                Some((l, h)) => Some((if lo < l { lo } else { l }, if hi > h { hi } else { h })),
            }
        }
    }
}

/// The range the first `k` headers cover is the smallest holding every
/// segment that is not skipped: it starts at the lowest start and ends at
/// the highest end among them, and there is none when all are skipped.
pub proof fn lemma_bounds_cover_segments(phs: Seq<ProgramHeaderInfo>, k: int)
    requires
        0 <= k <= phs.len(),
    ensures
        match bounds_upto(phs, k) {
            None => forall|j: int| 0 <= j < k ==> skipped(#[trigger] phs[j]),
            Some((l, h)) => {
                &&& forall|j: int| 0 <= j < k && !skipped(#[trigger] phs[j])
                    ==> l <= phs[j].virtual_addr && phs[j].virtual_addr + phs[j].mem_size <= h
                &&& exists|j: int| 0 <= j < k && !skipped(#[trigger] phs[j]) && phs[j].virtual_addr == l
                &&& exists|j: int| 0 <= j < k && !skipped(#[trigger] phs[j])
                    && phs[j].virtual_addr + phs[j].mem_size == h
            },
        },
    decreases k,
{
    if k > 0 {
        lemma_bounds_cover_segments(phs, k - 1);
        let ph = phs[k - 1];
        if !skipped(ph) {
            match bounds_upto(phs, k - 1) {
                None => {
                    assert(!skipped(phs[k - 1]));
                },
                Some((l, h)) => {
                    let lo = ph.virtual_addr as int;
                    let hi = ph.virtual_addr + ph.mem_size;
                    let jl = choose|j: int| 0 <= j < k - 1 && !skipped(#[trigger] phs[j]) && phs[j].virtual_addr == l;
                    let jh = choose|j: int| 0 <= j < k - 1 && !skipped(#[trigger] phs[j])
                        && phs[j].virtual_addr + phs[j].mem_size == h;
                    if lo < l {
                        assert(!skipped(phs[k - 1]));
                    } else {
                        assert(!skipped(phs[jl]));
                    }
                    if hi > h {
                        assert(!skipped(phs[k - 1]));
                    } else {
                        assert(!skipped(phs[jh]));
                    }
                },
            }
        }
    }
}

/// The range of addresses a program's segments cover; `None` when none is
/// loadable.
pub fn elf_bounds(phs: &Vec<ProgramHeaderInfo>) -> (r: Option<(u64, u64)>)
    requires
        forall|k: int| 0 <= k < phs@.len() ==> (#[trigger] phs@[k]).virtual_addr + phs@[k].mem_size <= u64::MAX,
    ensures
        match bounds_upto(phs@, phs@.len() as int) {
            None => r is None,
            Some((l, h)) => r == Some((l as u64, h as u64)),
        },
        match r {
            None => forall|j: int| 0 <= j < phs@.len() ==> skipped(#[trigger] phs@[j]),
            Some((l, h)) => {
                &&& forall|j: int| 0 <= j < phs@.len() && !skipped(#[trigger] phs@[j])
                    ==> l <= phs@[j].virtual_addr && phs@[j].virtual_addr + phs@[j].mem_size <= h
                &&& exists|j: int| 0 <= j < phs@.len() && !skipped(#[trigger] phs@[j]) && phs@[j].virtual_addr == l
                &&& exists|j: int| 0 <= j < phs@.len() && !skipped(#[trigger] phs@[j])
                    && phs@[j].virtual_addr + phs@[j].mem_size == h
            },
        },
{
    proof {
        lemma_bounds_cover_segments(phs@, phs@.len() as int);
    }
    let mut lowest: Option<u64> = None;
    let mut highest: Option<u64> = None;
    let mut i: usize = 0;
    while i < phs.len()
        invariant
            i <= phs@.len(),
            forall|k: int| 0 <= k < phs@.len() ==> (#[trigger] phs@[k]).virtual_addr + phs@[k].mem_size <= u64::MAX,
            lowest is Some <==> highest is Some,
            match bounds_upto(phs@, i as int) {
                None => lowest is None,
                Some((l, h)) => lowest == Some(l as u64) && highest == Some(h as u64) && 0 <= l <= u64::MAX && 0 <= h <= u64::MAX,
            },
        decreases phs@.len() - i,
    {
        let ph = phs[i];
        if !(ph.virtual_addr == 0 && ph.mem_size == 0) {
            let lo = ph.virtual_addr;
            let hi = ph.virtual_addr + ph.mem_size;
            lowest = match lowest {
                None => Some(lo),
                Some(l) => Some(if lo < l { lo } else { l }),
            };
            highest = match highest {
                None => Some(hi),
                Some(h) => Some(if hi > h { hi } else { h }),
            };
        }
        i = i + 1;
    }
    match (lowest, highest) {
        (Some(l), Some(h)) => Some((l, h)),
        _ => None,
    }
}

/// Why a program could not be loaded.
#[derive(Debug, Clone, Copy, PartialEq, Eq, Structural)]
pub enum LoadError {
    /// The file is not ELF.
    NotElf,
    /// A program header's type is not one the loader knows.
    BadProgramHeader,
    /// The file is ELF but has no entry point (it is 0).
    NoEntryPoint,
}

/// A segment to copy: where it goes and which bytes of the file it holds.
#[derive(Debug, Clone, Copy, PartialEq, Eq, Structural)]
pub struct SegmentCopy {
    pub dest: u64,
    pub offset: u64,
    pub size: u64,
}

/// Where a segment starting at `vaddr` goes: there for an executable, that
/// far above the load base for a shared object.
pub open spec fn placed(file_type: u16, base: u64, vaddr: u64) -> int {
    if file_type == 2 { vaddr as int } else { base + vaddr }
}

/// The copies of the loadable segments among the first `k` headers, in
/// order; `None` when one of them has a type `xmas_elf` does not know.
pub open spec fn copies_upto(phs: Seq<ProgramHeaderInfo>, k: int, file_type: u16, base: u64) -> Option<Seq<SegmentCopy>>
    decreases k,
{
    if k <= 0 {
        Some(Seq::empty())
    } else {
        match copies_upto(phs, k - 1, file_type, base) {
            None => None,
            Some(rest) => {
                let ph = phs[k - 1];
                match ph.is_load {
                    None => None,
                    Some(false) => Some(rest),
                    Some(true) => if skipped(ph) || ph.file_size == 0 {
                        Some(rest)
                    } else {
                        Some(rest.push(SegmentCopy {
                            dest: placed(file_type, base, ph.virtual_addr) as u64,
                            offset: ph.offset,
                            size: ph.file_size,
                        }))
                    },
                }
            },
        }
    }
}

/// The copies that load a program of type `file_type` (an executable or a
/// shared object) at `base`.
pub fn segment_copies(phs: &Vec<ProgramHeaderInfo>, file_type: u16, base: u64) -> (r: Result<Vec<SegmentCopy>, LoadError>)
    requires
        file_type == 2 || file_type == 3,
        file_type == 3 ==> forall|k: int| 0 <= k < phs@.len() ==> base + (#[trigger] phs@[k]).virtual_addr <= u64::MAX,
    ensures
        match copies_upto(phs@, phs@.len() as int, file_type, base) {
            None => r == Err::<Vec<SegmentCopy>, LoadError>(LoadError::BadProgramHeader),
            Some(cs) => r matches Ok(v) && v@ == cs,
        },
{
    let mut out: Vec<SegmentCopy> = Vec::new();
    let mut i: usize = 0;
    while i < phs.len()
        invariant
            i <= phs@.len(),
            file_type == 2 || file_type == 3,
            file_type == 3 ==> forall|k: int| 0 <= k < phs@.len() ==> base + (#[trigger] phs@[k]).virtual_addr <= u64::MAX,
            copies_upto(phs@, i as int, file_type, base) == Some(out@),
        decreases phs@.len() - i,
    {
        let ph = phs[i];
        match ph.is_load {
            None => {
                proof {
                    assert(copies_upto(phs@, i + 1, file_type, base) is None);
                    lemma_copies_stay_none(phs@, i + 1, phs@.len() as int, file_type, base);
                }
                return Err(LoadError::BadProgramHeader);
            },
            Some(false) => {},
            Some(true) => {
                if !(ph.virtual_addr == 0 && ph.mem_size == 0) && ph.file_size != 0 {
                    let dest = if file_type == 2 { ph.virtual_addr } else { base + ph.virtual_addr };
                    out.push(SegmentCopy { dest, offset: ph.offset, size: ph.file_size });
                }
            },
        }
        i = i + 1;
    }
    Ok(out)
}

proof fn lemma_copies_stay_none(phs: Seq<ProgramHeaderInfo>, i: int, k: int, file_type: u16, base: u64)
    requires
        0 < i <= k,
        copies_upto(phs, i, file_type, base) is None,
    ensures
        copies_upto(phs, k, file_type, base) is None,
    decreases k - i,
{
    if i < k {
        lemma_copies_stay_none(phs, i, k - 1, file_type, base);
    }
}

/// The loaded program: entry point (moved by the load base for a shared
/// object), base, where its program headers are, and their size and count.
pub fn loaded_elf(h: &ElfHeaderInfo, base: u64) -> (r: Elf)
    requires
        h.file_type == 2 || h.file_type == 3,
        h.file_type == 3 ==> base + h.entry <= u64::MAX,
        base + h.ph_offset <= u64::MAX,
    ensures
        r.entry == (if h.file_type == 2 { h.entry as int } else { base + h.entry }),
        r.base == base,
        r.program_header == base + h.ph_offset,
        r.program_header_entry_size == h.ph_entry_size,
        r.program_header_entry_count == h.ph_count,
{
    Elf {
        entry: if h.file_type == 2 { h.entry } else { base + h.entry },
        base,
        program_header: base + h.ph_offset,
        program_header_entry_size: h.ph_entry_size as u64,
        program_header_entry_count: h.ph_count as u64,
    }
}

/// What loading a program file needs: its header, and the range its
/// segments cover (where an executable must be placed, and how much memory a
/// shared object needs).
pub struct LoadRequest {
    pub header: ElfHeaderInfo,
    pub program_headers: Vec<ProgramHeaderInfo>,
    pub bounds: Option<(u64, u64)>,
}

/// Whether no segment's end overflows.
pub open spec fn segments_fit(phs: Seq<ProgramHeaderInfo>) -> bool {
    forall|k: int| 0 <= k < phs.len() ==> (#[trigger] phs[k]).virtual_addr + phs[k].mem_size <= u64::MAX
}

/// The range the segments cover, when no segment's end overflows.
pub open spec fn expected_bounds(phs: Seq<ProgramHeaderInfo>) -> Option<(u64, u64)> {
    if !segments_fit(phs) {
        None
    } else {
        match bounds_upto(phs, phs.len() as int) {
            None => None,
            Some((l, h)) => Some((l as u64, h as u64)),
        }
    }
}

/// Read a program file: `NotElf` when `xmas_elf` refuses it,
/// `NoEntryPoint` when its entry point is 0; else its header, program
/// headers and the range its segments cover. The header's program-header
/// table must fit in the file.
pub fn read_program(file: &[u8]) -> (r: Result<LoadRequest, LoadError>)
    requires
        elf_header_of(file@) matches Some(h) ==> ph_table_fits(h, file@.len() as int),
    ensures
        match elf_header_of(file@) {
            None => r == Err::<LoadRequest, LoadError>(LoadError::NotElf),
            Some(h) => if h.entry == 0 {
                r == Err::<LoadRequest, LoadError>(LoadError::NoEntryPoint)
            } else {
                r matches Ok(q) && q.header == h
                && q.program_headers@ == elf_program_headers_of(file@)
                && q.bounds == expected_bounds(q.program_headers@)
            },
        },
{
    let h = match read_elf_header(file) {
        Some(h) => h,
        None => return Err(LoadError::NotElf),
    };
    if h.entry == 0 {
        return Err(LoadError::NoEntryPoint);
    }
    let phs = read_program_headers(file);
    let mut fits = true;
    let mut i: usize = 0;
    while i < phs.len()
        invariant
            i <= phs@.len(),
            fits == forall|k: int| 0 <= k < i ==> (#[trigger] phs@[k]).virtual_addr + phs@[k].mem_size <= u64::MAX,
        decreases phs@.len() - i,
    {
        if phs[i].virtual_addr > u64::MAX - phs[i].mem_size {
            fits = false;
        }
        i = i + 1;
    }
    let bounds = if fits { elf_bounds(&phs) } else { None };
    Ok(LoadRequest { header: h, program_headers: phs, bounds })
}

/// Read a program file as `read_program` does, after checking that the
/// header's program-header table fits in the file with its entries aligned:
/// `None` when it does not (a file without an entry point is refused
/// before that check).
pub fn try_read_program(file: &[u8]) -> (r: Option<Result<LoadRequest, LoadError>>)
    ensures
        match elf_header_of(file@) {
            None => r == Some(Err::<LoadRequest, LoadError>(LoadError::NotElf)),
            Some(h) => if h.entry == 0 {
                r == Some(Err::<LoadRequest, LoadError>(LoadError::NoEntryPoint))
            } else if ph_table_fits(h, file@.len() as int) {
                r matches Some(Ok(q)) && q.header == h
                    && q.program_headers@ == elf_program_headers_of(file@)
                    && q.bounds == expected_bounds(q.program_headers@)
            } else {
                r is None
            },
        },
{
    let h = match read_elf_header(file) {
        Some(h) => h,
        None => return Some(Err(LoadError::NotElf)),
    };
    if h.entry == 0 {
        return Some(Err(LoadError::NoEntryPoint));
    }
    if h.ph_count > 0 && h.ph_offset > 0 && h.ph_entry_size > 0 {
        let len = file.len() as u64;
        let count = h.ph_count as u64;
        let size = h.ph_entry_size as u64;
        assert(count * size <= 0xFFFF * 0xFFFF) by (nonlinear_arith)
            requires count <= 0xFFFF, size <= 0xFFFF;
        let table = count * size;
        let entry_min: u16 = if h.is_64 { 56 } else { 32 };
        let align: u16 = if h.is_64 { 8 } else { 4 };
        if h.ph_offset > len || table > len - h.ph_offset || h.ph_entry_size < entry_min
            || h.ph_offset % (align as u64) != 0 || h.ph_entry_size % align != 0 {
            return None;
        }
    }
    Some(read_program(file))
}

} // verus!
