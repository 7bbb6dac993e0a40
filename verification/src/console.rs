//! The console's line discipline: keys typed wait in a buffer until a read
//! takes them, a whole line at a time in canonical mode; carriage returns
//! and newlines may be swapped on the way; terminal settings arrive by
//! `ioctl`.
use vstd::prelude::*;
use bytes::BytesMut;
use crate::sys::vfs::{bytes_mut_contents, bytes_mut_new, bytes_mut_len, bytes_mut_split_to,
    bytes_mut_put_u8, bytes_mut_to_vec};
use crate::sys::syscall::{CanonicalError, PollEvents, POLL_IN, POLL_OUT};
use crate::le::{le32, read_u32};
use crate::text::{decode_utf8, utf8_decode};

verus! {

/// Carriage return and newline.
pub const CR: u8 = 13;
pub const NL: u8 = 10;

/// Bytes of a `struct termios` as user memory lays it out.
pub const TERMIOS_SIZE: usize = 68;

/// Terminal settings as user space gives them.
pub struct Termios {
    pub iflag: u32,
    pub oflag: u32,
    pub cflag: u32,
    pub lflag: u32,
    pub cc: Vec<u32>,
    pub ibaud: u32,
    pub obaud: u32,
}

impl Termios {
    /// The settings held by the first bytes of `b`: four flag words, eleven
    /// control characters, two speeds, each a 32-bit word lowest byte first.
    pub fn from_bytes(b: &[u8]) -> (r: Termios)
        requires
            b@.len() >= TERMIOS_SIZE,
        ensures
            r.iflag == le32(b@, 0),
            r.oflag == le32(b@, 4),
            r.cflag == le32(b@, 8),
            r.lflag == le32(b@, 12),
            r.cc@.len() == 11,
            forall|i: int| 0 <= i < 11 ==> #[trigger] r.cc@[i] == le32(b@, 16 + 4 * i),
            r.ibaud == le32(b@, 60),
            r.obaud == le32(b@, 64),
    {
        let mut cc: Vec<u32> = Vec::new();
        let mut i: usize = 0;
        while i < 11
            invariant
                i <= 11,
                b@.len() >= TERMIOS_SIZE,
                cc@.len() == i,
                forall|j: int| 0 <= j < i ==> #[trigger] cc@[j] == le32(b@, 16 + 4 * j),
            decreases 11 - i,
        {
            cc.push(read_u32(b, 16 + 4 * i));
            i = i + 1;
        }
        Termios {
            iflag: read_u32(b, 0),
            oflag: read_u32(b, 4),
            cflag: read_u32(b, 8),
            lflag: read_u32(b, 12),
            cc,
            ibaud: read_u32(b, 60),
            obaud: read_u32(b, 64),
        }
    }
}

/// The console: keys typed and not yet read, the foreground process group,
/// and the settings in force (input: carriage return to newline, newline to
/// carriage return; local: canonical mode, echo).
pub struct ConsoleDevice {
    pub key_buffer: BytesMut,
    pub pgrp: u64,
    pub crnl: bool,
    pub nlcr: bool,
    pub canonical: bool,
    pub local_loopback: bool,
}

/// The first index from `i` on where `b` stands in `s`, or -1.
pub open spec fn index_of_from(s: Seq<u8>, b: u8, i: int) -> int
    decreases s.len() - i,
{
    if i < 0 || i >= s.len() {
        -1
    } else if s[i] == b {
        i
    } else {
        index_of_from(s, b, i + 1)
    }
}

/// A byte as a read hands it out.
pub open spec fn translate(c: u8, crnl: bool, nlcr: bool) -> u8 {
    if c == CR && crnl {
        NL
    } else if c == NL && nlcr {
        CR
    } else {
        c
    }
}

/// How many buffered bytes a read of `len` takes, if any: in canonical mode
/// the line up to and with its carriage return, at most `len`, and nothing
/// while no line is complete; otherwise all that is there, and nothing
/// while the buffer is empty.
pub open spec fn read_length(buf: Seq<u8>, canonical: bool, len: u64) -> Option<int> {
    if canonical {
        let pos = index_of_from(buf, CR, 0);
        if pos < 0 {
            None
        } else {
            Some(if pos + 1 <= len { pos + 1 } else { len as int })
        }
    } else if buf.len() > 0 {
        Some(buf.len() as int)
    } else {
        None
    }
}

proof fn lemma_index_of_from_bounds(s: Seq<u8>, b: u8, i: int)
    requires
        0 <= i,
    ensures
        index_of_from(s, b, i) == -1 || (i <= index_of_from(s, b, i) < s.len()
            && s[index_of_from(s, b, i)] == b),
    decreases s.len() - i,
{
    if i < s.len() && s[i] != b {
        lemma_index_of_from_bounds(s, b, i + 1);
    }
}

proof fn lemma_index_of_from_absent(s: Seq<u8>, b: u8, i: int)
    requires
        0 <= i,
        forall|j: int| i <= j < s.len() ==> s[j] != b,
    ensures
        index_of_from(s, b, i) == -1,
    decreases s.len() - i,
{
    if i < s.len() {
        lemma_index_of_from_absent(s, b, i + 1);
    }
}

proof fn lemma_index_of_from_prefix(s: Seq<u8>, t: Seq<u8>, b: u8, i: int)
    requires
        0 <= i <= s.len(),
        forall|j: int| i <= j < s.len() ==> s[j] != b,
    ensures
        index_of_from(s + t, b, i) == if index_of_from(t, b, 0) < 0 { -1 } else { s.len() + index_of_from(t, b, 0) },
    decreases s.len() + t.len() - i,
{
    if i < s.len() {
        lemma_index_of_from_prefix(s, t, b, i + 1);
    } else {
        lemma_index_of_from_shift(s, t, b, 0);
    }
}

proof fn lemma_index_of_from_shift(s: Seq<u8>, t: Seq<u8>, b: u8, k: int)
    requires
        0 <= k,
    ensures
        index_of_from(s + t, b, s.len() + k) == if index_of_from(t, b, k) < 0 { -1 } else { s.len() + index_of_from(t, b, k) },
    decreases t.len() - k,
{
    if k < t.len() {
        lemma_index_of_from_shift(s, t, b, k + 1);
    }
}

/// A read hands out whole lines in canonical mode: while no carriage
/// return has been typed a reader waits, and once one ends the line a read
/// of `len` bytes takes the line with its carriage return, or its first
/// `len` bytes. Outside canonical mode a read takes whatever was typed.
pub proof fn lemma_read_whole_lines(line: Seq<u8>, len: u64)
    requires
        forall|j: int| 0 <= j < line.len() ==> line[j] != CR,
    ensures
        read_length(line, true, len) is None,
        read_length(line.push(CR), true, len)
            == Some(if line.len() + 1 <= len { line.len() + 1int } else { len as int }),
        line.len() > 0 ==> read_length(line, false, len) == Some(line.len() as int),
{
    lemma_index_of_from_absent(line, CR, 0);
    lemma_index_of_from_prefix(line, seq![CR], CR, 0);
    assert(line.push(CR) =~= line + seq![CR]);
}

impl ConsoleDevice {
    /// The console as it starts: nothing typed, group 0, canonical mode
    /// with echo, no translation.
    pub fn new() -> (r: ConsoleDevice)
        ensures
            bytes_mut_contents(r.key_buffer) == Seq::<u8>::empty(),
            r.pgrp == 0,
            !r.crnl,
            !r.nlcr,
            r.canonical,
            r.local_loopback,
    {
        ConsoleDevice {
            key_buffer: bytes_mut_new(),
            pgrp: 0,
            crnl: false,
            nlcr: false,
            canonical: true,
            local_loopback: true,
        }
    }

    /// A key was typed: keep its low byte for the next read, and say
    /// whether to echo it.
    pub fn register_key(&mut self, k: char) -> (echo: bool)
        ensures
            bytes_mut_contents(final(self).key_buffer) == bytes_mut_contents(old(self).key_buffer).push(k as u8),
            echo == old(self).local_loopback,
            final(self).pgrp == old(self).pgrp,
            final(self).crnl == old(self).crnl,
            final(self).nlcr == old(self).nlcr,
            final(self).canonical == old(self).canonical,
            final(self).local_loopback == old(self).local_loopback,
    {
        bytes_mut_put_u8(&mut self.key_buffer, k as u8);
        self.local_loopback
    }

    /// A read of at most `len` bytes: `None` while there is nothing to hand
    /// out yet (the reader waits), otherwise the bytes taken from the front
    /// of the buffer, translated.
    pub fn read(&mut self, len: u64) -> (r: Option<Vec<u8>>)
        ensures
            final(self).pgrp == old(self).pgrp,
            final(self).crnl == old(self).crnl,
            final(self).nlcr == old(self).nlcr,
            final(self).canonical == old(self).canonical,
            final(self).local_loopback == old(self).local_loopback,
            match read_length(bytes_mut_contents(old(self).key_buffer), old(self).canonical, len) {
                None => r is None && bytes_mut_contents(final(self).key_buffer)
                    == bytes_mut_contents(old(self).key_buffer),
                Some(n) => {
                    let buf = bytes_mut_contents(old(self).key_buffer);
                    &&& r is Some
                    &&& r->0@.len() == n
                    &&& forall|i: int| 0 <= i < n ==> #[trigger] r->0@[i]
                            == translate(buf[i], old(self).crnl, old(self).nlcr)
                    &&& bytes_mut_contents(final(self).key_buffer) == buf.subrange(n, buf.len() as int)
                },
            },
    {
        let contents = bytes_mut_to_vec(&self.key_buffer);
        let ghost buf = contents@;
        let take: usize;
        if self.canonical {
            let mut i: usize = 0;
            while i < contents.len() && contents[i] != CR
                invariant
                    i <= contents@.len(),
                    contents@ == buf,
                    index_of_from(buf, CR, 0) == index_of_from(buf, CR, i as int),
                decreases contents@.len() - i,
            {
                i = i + 1;
            }
            if i == contents.len() {
                return None;
            }
            proof {
                lemma_index_of_from_bounds(buf, CR, 0);
            }
            let line: u64 = (i + 1) as u64;
            take = if line <= len { (i + 1) as usize } else { len as usize };
        } else {
            if contents.len() == 0 {
                return None;
            }
            take = contents.len();
        }
        let mut out = bytes_mut_split_to(&mut self.key_buffer, take);
        let mut j: usize = 0;
        while j < out.len()
            invariant
                j <= out@.len(),
                out@.len() == take,
                take <= buf.len(),
                forall|i: int| 0 <= i < j ==> #[trigger] out@[i] == translate(buf[i], self.crnl, self.nlcr),
                forall|i: int| j <= i < take ==> #[trigger] out@[i] == buf[i],
            decreases out@.len() - j,
        {
            let c = out[j];
            if c == CR && self.crnl {
                out.set(j, NL);
            } else if c == NL && self.nlcr {
                out.set(j, CR);
            }
            j = j + 1;
        }
        Some(out)
    }

    /// What `poll` reports for the events asked: the console can always be
    /// written; it can be read when a read would not wait. `None` while
    /// reading was asked for and would wait.
    pub fn poll(&self, events: PollEvents) -> (r: Option<PollEvents>)
        ensures
            ({
                let out = if events.bits & POLL_OUT == POLL_OUT { POLL_OUT } else { 0u16 };
                let readable = read_length(bytes_mut_contents(self.key_buffer), self.canonical, u64::MAX) is Some;
                if events.bits & POLL_IN == POLL_IN {
                    if readable { r == Some(PollEvents { bits: out | POLL_IN }) } else { r is None }
                } else {
                    r == Some(PollEvents { bits: out })
                }
            }),
    {
        let mut revents: u16 = 0;
        if events.contains(PollEvents { bits: POLL_OUT }) {
            revents = POLL_OUT;
        }
        if events.contains(PollEvents { bits: POLL_IN }) {
            let contents = bytes_mut_to_vec(&self.key_buffer);
            let ghost buf = contents@;
            let readable: bool;
            if self.canonical {
                let mut i: usize = 0;
                while i < contents.len() && contents[i] != CR
                    invariant
                        i <= contents@.len(),
                        contents@ == buf,
                        index_of_from(buf, CR, 0) == index_of_from(buf, CR, i as int),
                    decreases contents@.len() - i,
                {
                    i = i + 1;
                }
                proof {
                    lemma_index_of_from_bounds(buf, CR, 0);
                }
                readable = i < contents.len();
            } else {
                readable = contents.len() > 0;
            }
            if !readable {
                return None;
            }
            revents = revents | POLL_IN;
        }
        Some(PollEvents { bits: revents })
    }

    /// Take new settings (`TCSETS`): input bit 1 turns carriage returns
    /// into newlines, input bit 5 newlines into carriage returns; local
    /// bit 4 is canonical mode, local bit 0 echo.
    pub fn set_termios(&mut self, termios: &Termios)
        ensures
            final(self).crnl == (termios.iflag & 2 != 0),
            final(self).nlcr == (termios.iflag & 0x20 != 0),
            final(self).canonical == (termios.lflag & 0x10 != 0),
            final(self).local_loopback == (termios.lflag & 0x01 != 0),
            final(self).pgrp == old(self).pgrp,
            bytes_mut_contents(final(self).key_buffer) == bytes_mut_contents(old(self).key_buffer),
    {
        self.crnl = termios.iflag & 2 != 0;
        self.nlcr = termios.iflag & 0x20 != 0;
        self.canonical = termios.lflag & 0x10 != 0;
        self.local_loopback = termios.lflag & 0x01 != 0;
    }

    /// The foreground process group (`TIOCGPGRP`).
    pub fn get_pgrp(&self) -> (r: u64)
        ensures
            r == self.pgrp,
    {
        self.pgrp
    }

    /// Set the foreground process group (`TIOCSPGRP`) from the C `int` user
    /// space gave, widened with its sign.
    pub fn set_pgrp(&mut self, pgrp: i32)
        ensures
            final(self).pgrp == pgrp as u64,
            bytes_mut_contents(final(self).key_buffer) == bytes_mut_contents(old(self).key_buffer),
            final(self).crnl == old(self).crnl,
            final(self).nlcr == old(self).nlcr,
            final(self).canonical == old(self).canonical,
            final(self).local_loopback == old(self).local_loopback,
    {
        self.pgrp = pgrp as u64;
    }
}

/// The window size `TIOCGWINSZ` hands back: rows, columns, and two zeros.
pub fn winsize_bytes(rows: u8, cols: u8) -> (r: Vec<u8>)
    ensures
        r@ == seq![rows, cols, 0u8, 0u8],
{
    let mut v: Vec<u8> = Vec::new();
    v.push(rows);
    v.push(cols);
    v.push(0);
    v.push(0);
    v
}

/// What a write to the console prints: the bytes as text, or `EINVAL` when
/// they are not UTF-8; with the count written.
pub fn console_write(buf: Vec<u8>) -> (r: Result<(String, u64), CanonicalError>)
    ensures
        match r {
            Ok((s, n)) => utf8_decode(buf@) == Some(s@) && n == buf@.len(),
            Err(e) => utf8_decode(buf@) is None && e == CanonicalError::Inval,
        },
{
    let n = buf.len() as u64;
    match decode_utf8(buf) {
        Some(s) => Ok((s, n)),
        None => Err(CanonicalError::Inval),
    }
}

/// A key typed at the console: it joins the buffer, and is echoed when
/// local loopback is on. Waking a waiting reader is left to the caller.
pub fn register_keypress(console: &mut ConsoleDevice, k: char) -> (echo: bool)
    ensures
        bytes_mut_contents(final(console).key_buffer) == bytes_mut_contents(old(console).key_buffer).push(k as u8),
        echo == old(console).local_loopback,
        final(console).pgrp == old(console).pgrp,
        final(console).crnl == old(console).crnl,
        final(console).nlcr == old(console).nlcr,
        final(console).canonical == old(console).canonical,
        final(console).local_loopback == old(console).local_loopback,
{
    console.register_key(k)
}

} // verus!
