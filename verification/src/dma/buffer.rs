//! A buffer a device reads or writes, by its address and length.
use vstd::prelude::*;

verus! {

/// Bytes in a cache line.
pub const CACHE_LINE: u64 = 64;

/// A DMA buffer: its first byte's address and its length.
#[derive(Debug, Clone, Copy, PartialEq, Eq, Structural)]
pub struct DmaBuffer {
    pub addr: u64,
    pub len: usize,
}

impl DmaBuffer {
    pub fn new(addr: u64, len: usize) -> (r: DmaBuffer)
        ensures
            r.addr == addr,
            r.len == len,
    {
        DmaBuffer { addr, len }
    }

    /// The addresses to flush so that no cache line of the buffer stays
    /// stale: the start of every cache line that holds a byte of the buffer,
    /// lowest first.
    pub fn cache_lines(&self) -> (r: Vec<u64>)
        requires
            self.addr + self.len + CACHE_LINE <= u64::MAX,
        ensures
            r@ == buffer_lines(self.addr as int, self.len as int),
    {
        let first = self.addr - self.addr % CACHE_LINE;
        let end = self.addr + self.len as u64;
        let ghost n = line_count(self.addr as int, self.len as int);
        let mut p = first;
        let mut v: Vec<u64> = Vec::new();
        while p < end
            invariant
                first == self.addr - self.addr % 64,
                first <= p,
                p <= end + 63,
                end == self.addr + self.len,
                end + CACHE_LINE <= u64::MAX,
                n == line_count(self.addr as int, self.len as int),
                p == first + 64 * v@.len(),
                v@ == buffer_lines(self.addr as int, self.len as int).take(v@.len() as int),
                v@.len() <= n,
                p < end ==> v@.len() < n,
            decreases end + CACHE_LINE - p,
        {
            proof {
                assert(buffer_lines(self.addr as int, self.len as int).take(v@.len() as int + 1)
                    =~= v@.push(p));
            }
            v.push(p);
            p = p + CACHE_LINE;
        }
        assert(v@.len() == n);
        assert(buffer_lines(self.addr as int, self.len as int).take(n) =~= buffer_lines(self.addr as int, self.len as int));
        v
    }
}

/// Number of cache lines that hold a byte of `len` bytes from `addr`.
pub open spec fn line_count(addr: int, len: int) -> int {
    (addr + len - (addr / 64) * 64 + 63) / 64
}

/// The starts of the cache lines that hold a byte of `len` bytes from `addr`.
pub open spec fn buffer_lines(addr: int, len: int) -> Seq<u64> {
    Seq::new(line_count(addr, len) as nat, |i: int| ((addr / 64) * 64 + 64 * i) as u64)
}

/// Index, among the buffer's lines from `addr` on, of the line holding byte `b`.
pub open spec fn line_index(addr: int, b: int) -> int {
    b / 64 - addr / 64
}

/// Every byte of the buffer lies on one of its listed cache lines, and every
/// listed line holds a byte of the buffer.
pub proof fn lemma_cache_lines_cover(addr: int, len: int)
    requires
        0 <= addr,
        0 <= len,
        addr + len + 64 <= u64::MAX,
    ensures
        forall|b: int| addr <= b < addr + len ==> {
            let i = #[trigger] line_index(addr, b);
            &&& 0 <= i < buffer_lines(addr, len).len()
            &&& buffer_lines(addr, len)[i] <= b < buffer_lines(addr, len)[i] + 64
        },
        forall|i: int| 0 <= i < buffer_lines(addr, len).len() ==> {
            let line = #[trigger] buffer_lines(addr, len)[i];
            line < addr + len && addr < line + 64
        },
{
    assert forall|b: int| addr <= b < addr + len implies {
        let i = #[trigger] line_index(addr, b);
        &&& 0 <= i < buffer_lines(addr, len).len()
        &&& buffer_lines(addr, len)[i] <= b < buffer_lines(addr, len)[i] + 64
    } by {
        let i = b / 64 - addr / 64;
        assert(b / 64 >= addr / 64) by (nonlinear_arith) requires addr <= b;
        assert((b / 64) * 64 <= b < (b / 64) * 64 + 64) by (nonlinear_arith) requires 0 <= b;
        assert((addr / 64) * 64 <= addr) by (nonlinear_arith) requires 0 <= addr;
        assert((addr / 64) * 64 + 64 * i == (b / 64) * 64) by (nonlinear_arith)
            requires i == b / 64 - addr / 64;
        assert(i < line_count(addr, len)) by (nonlinear_arith)
            requires (addr / 64) * 64 + 64 * i <= b, b < addr + len, 0 <= i,
                line_count(addr, len) == (addr + len - (addr / 64) * 64 + 63) / 64;
        assert((addr / 64) * 64 + 64 * i == (b / 64) * 64);
    }
    assert forall|i: int| 0 <= i < buffer_lines(addr, len).len() implies {
        let line = #[trigger] buffer_lines(addr, len)[i];
        line < addr + len && addr < line + 64
    } by {
        assert((addr / 64) * 64 <= addr < (addr / 64) * 64 + 64) by (nonlinear_arith) requires 0 <= addr;
        assert(64 * i < addr + len - (addr / 64) * 64) by (nonlinear_arith)
            requires 0 <= i < (addr + len - (addr / 64) * 64 + 63) / 64;
    }
}

} // verus!
