//! The virtual file system: the mount table, open files and pipes, and
//! seeking.
use vstd::prelude::*;
use bytes::BytesMut;
use bytes::BufMut;
use crate::sys::syscall::CanonicalError;
use crate::text::{chars_of, string_from_chars};

verus! {

/// Seek origins as user space numbers them.
pub const SEEK_SET: u64 = 3;
pub const SEEK_CUR: u64 = 1;
pub const SEEK_END: u64 = 2;

/// What is known of a file: its name and, when it has one, its size.
pub struct Stat {
    pub file_name: String,
    pub size: Option<u64>,
}

/// `bytes::BytesMut`, the growable byte buffer behind pipes and the console's
/// typed keys, declared so that it can stand in fields and signatures.
#[verifier::external_type_specification]
#[verifier::external_body]
pub struct ExBytesMut(BytesMut);

/// The bytes a `BytesMut` holds.
pub uninterp spec fn bytes_mut_contents(b: BytesMut) -> Seq<u8>;

/// An empty buffer (`BytesMut::new`).
#[verifier::external_body]
pub(crate) fn bytes_mut_new() -> (b: BytesMut)
    ensures
        bytes_mut_contents(b) == Seq::<u8>::empty(),
{
    BytesMut::new()
}

/// The number of bytes held (`BytesMut::len`).
#[verifier::external_body]
pub(crate) fn bytes_mut_len(b: &BytesMut) -> (r: usize)
    ensures
        r == bytes_mut_contents(*b).len(),
{
    b.len()
}

/// Take the first `at` bytes out (`BytesMut::split_to`, which panics past
/// the end), as a vector.
#[verifier::external_body]
pub(crate) fn bytes_mut_split_to(b: &mut BytesMut, at: usize) -> (r: Vec<u8>)
    requires
        at <= bytes_mut_contents(*old(b)).len(),
    ensures
        r@ == bytes_mut_contents(*old(b)).subrange(0, at as int),
        bytes_mut_contents(*final(b)) == bytes_mut_contents(*old(b)).subrange(at as int, bytes_mut_contents(*old(b)).len() as int),
{
    b.split_to(at).freeze().to_vec()
}

/// Append bytes (`BytesMut::extend_from_slice`).
#[verifier::external_body]
pub(crate) fn bytes_mut_extend(b: &mut BytesMut, data: &[u8])
    ensures
        bytes_mut_contents(*final(b)) == bytes_mut_contents(*old(b)) + data@,
{
    b.extend_from_slice(data)
}

/// Append one byte (`BufMut::put_u8`).
#[verifier::external_body]
pub(crate) fn bytes_mut_put_u8(b: &mut BytesMut, byte: u8)
    ensures
        bytes_mut_contents(*final(b)) == bytes_mut_contents(*old(b)).push(byte),
{
    b.put_u8(byte)
}

/// A copy of the bytes held (the buffer seen as a slice, `to_vec`).
#[verifier::external_body]
pub(crate) fn bytes_mut_to_vec(b: &BytesMut) -> (r: Vec<u8>)
    ensures
        r@ == bytes_mut_contents(*b),
{
    b.to_vec()
}

/// An open file: a file on a mounted file system with the name it was opened
/// by, the offset reached, the file system and the name on it; or a pipe
/// with the bytes written to it and not yet read.
pub enum FileDescriptor {
    File {
        file_name: String,
        current_offset: u64,
        file_system: u64,
        local_name: String,
    },
    Pipe {
        buffer: BytesMut,
    },
}

/// What a read needs: a read of the file system at an offset, or the bytes
/// taken from a pipe.
pub enum ReadAction {
    File { file_system: u64, local_name: String, offset: u64, len: u64 },
    Pipe(Vec<u8>),
}

/// What a write needs: a write to the file system, or nothing more (the
/// bytes went into the pipe).
pub enum WriteAction {
    File { file_system: u64, local_name: String },
    Done(u64),
}

/// Why a seek was refused.
#[derive(Debug, Clone, Copy, PartialEq, Eq, Structural)]
pub enum SeekError {
    InvalidSize,
    NotSeekable,
}

/// Where a seek from `current` in a file of `size` bytes leads: from the
/// start, the offset itself; from the current offset or the end, the
/// offset taken as signed; it must land inside the file. An unknown origin
/// leaves the offset where it was.
pub open spec fn seek_spec(current: u64, size: u64, offset: u64, whence: u64) -> Result<u64, SeekError> {
    let signed = offset as i64;
    if whence == SEEK_SET {
        if offset >= size || signed < 0 { Err(SeekError::InvalidSize) } else { Ok(offset) }
    } else if whence == SEEK_CUR {
        let t = current + signed;
        if t < 0 || t >= size || t > u64::MAX { Err(SeekError::InvalidSize) } else { Ok(t as u64) }
    } else if whence == SEEK_END {
        let t = size + signed;
        if t < 0 || t >= size || t > u64::MAX { Err(SeekError::InvalidSize) } else { Ok(t as u64) }
    } else {
        Ok(current)
    }
}

/// How many bytes a read of `len` takes from a pipe holding `data`.
pub open spec fn pipe_take(data: Seq<u8>, len: int) -> int {
    if len < data.len() { len } else { data.len() as int }
}

/// What a read of `len` gives from a pipe holding `data`: the oldest bytes.
pub open spec fn pipe_read_out(data: Seq<u8>, len: int) -> Seq<u8> {
    data.subrange(0, pipe_take(data, len))
}

/// What a pipe holding `data` keeps after a read of `len`.
pub open spec fn pipe_read_rest(data: Seq<u8>, len: int) -> Seq<u8> {
    data.subrange(pipe_take(data, len), data.len() as int)
}

/// What a pipe holding `data` holds after the first `len` bytes of `buf`
/// are written.
pub open spec fn pipe_after_write(data: Seq<u8>, buf: Seq<u8>, len: int) -> Seq<u8> {
    data + buf.subrange(0, len)
}

/// A pipe gives its bytes back in the order they were written: after a
/// write, a read of everything it holds gives what it held before followed
/// by the bytes written, and leaves it empty; reading an empty pipe after a
/// write gives exactly the bytes written.
pub proof fn lemma_pipe_write_then_read(data: Seq<u8>, buf: Seq<u8>, len: int)
    requires
        0 <= len <= buf.len(),
    ensures
        pipe_read_out(pipe_after_write(data, buf, len), data.len() + len) == data + buf.subrange(0, len),
        pipe_read_rest(pipe_after_write(data, buf, len), data.len() + len) == Seq::<u8>::empty(),
        data.len() == 0 ==> pipe_read_out(pipe_after_write(data, buf, len), len) == buf.subrange(0, len),
{
    let after = pipe_after_write(data, buf, len);
    assert(after.len() == data.len() + len);
    assert(after.subrange(0, after.len() as int) =~= after);
    assert(after.subrange(after.len() as int, after.len() as int) =~= Seq::<u8>::empty());
    if data.len() == 0 {
        assert(after =~= buf.subrange(0, len));
    }
}

impl FileDescriptor {
    /// An empty pipe.
    pub fn new_pipe() -> (r: FileDescriptor)
        ensures
            r matches FileDescriptor::Pipe { buffer } && bytes_mut_contents(buffer) == Seq::<u8>::empty(),
    {
        FileDescriptor::Pipe { buffer: bytes_mut_new() }
    }

    /// Read `len` bytes: from a pipe, up to `len` of its bytes come out at
    /// once; from a file, the file system is asked for `len` bytes at the
    /// offset, which moves on by `len`.
    pub fn read(&mut self, len: u64) -> (r: ReadAction)
        requires
            *old(self) matches FileDescriptor::File { current_offset, .. } ==> current_offset + len <= u64::MAX,
        ensures
            match *old(self) {
                FileDescriptor::File { file_name, current_offset, file_system, local_name } => {
                    &&& r matches ReadAction::File { file_system: fs, local_name: ln, offset, len: l }
                        && fs == file_system && ln@ == local_name@ && offset == current_offset && l == len
                    &&& *final(self) matches FileDescriptor::File { file_name: f2, current_offset: c2, file_system: fs2, local_name: l2 }
                        && f2 == file_name && c2 == current_offset + len && fs2 == file_system && l2 == local_name
                },
                FileDescriptor::Pipe { buffer } => {
                    let data = bytes_mut_contents(buffer);
                    &&& r matches ReadAction::Pipe(v) && v@ == pipe_read_out(data, len as int)
                    &&& *final(self) matches FileDescriptor::Pipe { buffer: b2 }
                        && bytes_mut_contents(b2) == pipe_read_rest(data, len as int)
                },
            },
    {
        match self {
            FileDescriptor::File { file_name: _, current_offset, file_system, local_name } => {
                let offset = *current_offset;
                *current_offset = offset + len;
                ReadAction::File { file_system: *file_system, local_name: local_name.clone(), offset, len }
            },
            FileDescriptor::Pipe { buffer } => {
                let have = bytes_mut_len(buffer);
                let n: usize = if (len as u128) < (have as u128) { len as usize } else { have };
                ReadAction::Pipe(bytes_mut_split_to(buffer, n))
            },
        }
    }

    /// Write the first `len` bytes of `buf`: into a pipe, they are appended
    /// and `len` is the count written; to a file, the file system is asked.
    pub fn write(&mut self, buf: &Vec<u8>, len: u64) -> (r: WriteAction)
        requires
            *old(self) is Pipe ==> len <= buf@.len(),
        ensures
            match *old(self) {
                FileDescriptor::File { file_name, current_offset, file_system, local_name } => {
                    &&& r matches WriteAction::File { file_system: fs, local_name: ln } && fs == file_system && ln@ == local_name@
                    &&& *final(self) == *old(self)
                },
                FileDescriptor::Pipe { buffer } => {
                    &&& r == WriteAction::Done(len)
                    &&& *final(self) matches FileDescriptor::Pipe { buffer: b2 }
                        && bytes_mut_contents(b2) == pipe_after_write(bytes_mut_contents(buffer), buf@, len as int)
                },
            },
    {
        match self {
            FileDescriptor::File { file_name: _, current_offset: _, file_system, local_name } => {
                WriteAction::File { file_system: *file_system, local_name: local_name.clone() }
            },
            FileDescriptor::Pipe { buffer } => {
                let bl = buf.len();
                assert(len <= bl);
                let n = len as usize;
                let mut part: Vec<u8> = Vec::new();
                let mut i: usize = 0;
                while i < n
                    invariant
                        n == len,
                        n <= buf@.len(),
                        i <= n,
                        part@ == buf@.subrange(0, i as int),
                    decreases n - i,
                {
                    part.push(buf[i]);
                    assert(buf@.subrange(0, i + 1) =~= buf@.subrange(0, i as int).push(buf@[i as int]));
                    i = i + 1;
                }
                bytes_mut_extend(buffer, part.as_slice());
                WriteAction::Done(len)
            },
        }
    }

    /// Move a file's offset, given its size as the file system reports it. A
    /// file without a size is not moved and `0` is given back. A pipe cannot
    /// seek.
    pub fn seek(&mut self, offset: u64, whence: u64, size: Option<u64>) -> (r: Result<u64, SeekError>)
        ensures
            match *old(self) {
                FileDescriptor::Pipe { .. } => r == Err::<u64, SeekError>(SeekError::NotSeekable) && *final(self) == *old(self),
                FileDescriptor::File { file_name, current_offset, file_system, local_name } => match size {
                    None => r == Ok::<u64, SeekError>(0) && *final(self) == *old(self),
                    Some(s) => match seek_spec(current_offset, s, offset, whence) {
                        Err(e) => r == Err::<u64, SeekError>(e) && *final(self) == *old(self),
                        Ok(n) => r == Ok::<u64, SeekError>(n) && *final(self) == (FileDescriptor::File {
                            file_name, current_offset: n, file_system, local_name,
                        }),
                    },
                },
            },
    {
        match self {
            FileDescriptor::Pipe { .. } => Err(SeekError::NotSeekable),
            FileDescriptor::File { file_name: _, current_offset, file_system: _, local_name: _ } => {
                let size = match size {
                    Some(s) => s,
                    None => return Ok(0),
                };
                let signed = offset as i64;
                if whence == SEEK_SET {
                    if offset >= size || signed < 0 {
                        return Err(SeekError::InvalidSize);
                    }
                    *current_offset = offset;
                } else if whence == SEEK_CUR {
                    let t: i128 = (*current_offset as i128) + (signed as i128);
                    if t < 0 || t >= size as i128 {
                        return Err(SeekError::InvalidSize);
                    }
                    *current_offset = t as u64;
                } else if whence == SEEK_END {
                    let t: i128 = (size as i128) + (signed as i128);
                    if t < 0 || t >= size as i128 {
                        return Err(SeekError::InvalidSize);
                    }
                    *current_offset = t as u64;
                }
                Ok(*current_offset)
            },
        }
    }
}

/// Whether `prefix` starts `path`.
pub open spec fn starts_with(path: Seq<char>, prefix: Seq<char>) -> bool {
    prefix.len() <= path.len() && path.subrange(0, prefix.len() as int) == prefix
}

/// The mount point a path falls under among the first `k` entries: the
/// longest one that starts the path (the first of that length); a mount
/// point must be longer than nothing.
pub open spec fn best_mount(t: Seq<(String, u64)>, path: Seq<char>, k: int) -> Option<int>
    decreases k,
{
    if k <= 0 {
        None
    } else {
        let b = best_mount(t, path, k - 1);
        let m = t[k - 1].0@;
        let best_len: int = match b { Some(i) => t[i].0@.len() as int, None => 0 };
        if starts_with(path, m) && m.len() > best_len { Some(k - 1) } else { b }
    }
}

proof fn lemma_best_mount_range(t: Seq<(String, u64)>, path: Seq<char>, k: int)
    requires
        k <= t.len(),
    ensures
        best_mount(t, path, k) matches Some(i) ==> 0 <= i < k && starts_with(path, t[i].0@),
    decreases k,
{
    if k > 0 {
        lemma_best_mount_range(t, path, k - 1);
    }
}

fn starts_with_exec(path: &Vec<char>, prefix: &Vec<char>) -> (r: bool)
    ensures
        r == starts_with(path@, prefix@),
{
    if prefix.len() > path.len() {
        return false;
    }
    let mut i: usize = 0;
    while i < prefix.len()
        invariant
            prefix@.len() <= path@.len(),
            i <= prefix@.len(),
            forall|j: int| 0 <= j < i ==> path@[j] == prefix@[j],
        decreases prefix@.len() - i,
    {
        if path[i] != prefix[i] {
            return false;
        }
        i = i + 1;
    }
    assert(path@.subrange(0, prefix@.len() as int) =~= prefix@);
    true
}

/// The file system a path lives on and the path's name on it: the longest
/// mount point that starts the path, with that point cut off. `NoEnt` when
/// no mount point does.
pub fn get_mount_point(table: &Vec<(String, u64)>, path: &String) -> (r: Result<(u64, String), CanonicalError>)
    ensures
        match best_mount(table@, path@, table@.len() as int) {
            None => r == Err::<(u64, String), CanonicalError>(CanonicalError::NoEnt),
            Some(i) => r matches Ok((fs, rest)) && fs == table@[i].1
                && rest@ == path@.subrange(table@[i].0@.len() as int, path@.len() as int),
        },
{
    let p = chars_of(path.as_str());
    let mut best: Option<usize> = None;
    let mut best_len: usize = 0;
    let mut k: usize = 0;
    while k < table.len()
        invariant
            p@ == path@,
            k <= table@.len(),
            best matches Some(i) ==> i < k && best_len == table@[i as int].0@.len(),
            best is None ==> best_len == 0,
            best_mount(table@, path@, k as int) == match best { Some(i) => Some(i as int), None => None::<int> },
        decreases table@.len() - k,
    {
        let m = chars_of(table[k].0.as_str());
        if starts_with_exec(&p, &m) && m.len() > best_len {
            best = Some(k);
            best_len = m.len();
        }
        k = k + 1;
    }
    proof { lemma_best_mount_range(table@, path@, table@.len() as int); }
    match best {
        None => Err(CanonicalError::NoEnt),
        Some(i) => {
            let n = p.len();
            let mut rest: Vec<char> = Vec::new();
            let mut j: usize = best_len;
            while j < n
                invariant
                    n == p@.len(),
                    best_len <= j <= n,
                    rest@ == p@.subrange(best_len as int, j as int),
                decreases n - j,
            {
                rest.push(p[j]);
                assert(p@.subrange(best_len as int, j + 1) =~= p@.subrange(best_len as int, j as int).push(p@[j as int]));
                j = j + 1;
            }
            Ok((table[i].1, string_from_chars(&rest)))
        },
    }
}

/// The first entry of a mount table mounted at `mount_point`, if any.
pub open spec fn mount_index(t: Seq<(String, u64)>, mount_point: Seq<char>, k: int) -> Option<int>
    decreases k,
{
    if k <= 0 {
        None
    } else {
        match mount_index(t, mount_point, k - 1) {
            Some(i) => Some(i),
            None => if t[k - 1].0@ == mount_point { Some(k - 1) } else { None },
        }
    }
}

/// Mount the file system `fs` at `mount_point`, replacing what was mounted
/// there.
pub fn mount(table: &mut Vec<(String, u64)>, mount_point: String, fs: u64)
    ensures
        match mount_index(old(table)@, mount_point@, old(table)@.len() as int) {
            Some(i) => final(table)@ == old(table)@.update(i, (mount_point, fs)),
            None => final(table)@ == old(table)@.push((mount_point, fs)),
        },
{
    let n = table.len();
    let mut i: usize = 0;
    while i < n
        invariant
            n == table@.len(),
            table@ == old(table)@,
            i <= n,
            mount_index(old(table)@, mount_point@, i as int) is None,
        decreases n - i,
    {
        if table[i].0 == mount_point {
            assert(mount_index(old(table)@, mount_point@, i + 1) == Some(i as int));
            proof {
                lemma_mount_index_stays(old(table)@, mount_point@, i + 1, n as int);
            }
            table.set(i, (mount_point, fs));
            return;
        }
        i = i + 1;
    }
    table.push((mount_point, fs));
}

proof fn lemma_mount_index_stays(t: Seq<(String, u64)>, mount_point: Seq<char>, k: int, n: int)
    requires
        0 < k <= n,
        mount_index(t, mount_point, k) is Some,
    ensures
        mount_index(t, mount_point, n) == mount_index(t, mount_point, k),
    decreases n - k,
{
    if n > k {
        lemma_mount_index_stays(t, mount_point, k, n - 1);
    }
}

} // verus!
