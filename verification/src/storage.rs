//! Block storage backend abstraction.
//!
//! A [`BlockBackend`] is a flat, byte-addressed medium. [`MemBackend`]
//! keeps the bytes in memory; [`BlockMedia`] adds sector semantics and
//! [`FlashMedia`] adds NOR-flash program / erase semantics on top of
//! any backend.
use vstd::prelude::*;

verus! {

/// Typed storage error returned by all backend operations.
#[derive(Debug, Clone, PartialEq, Eq)]
pub enum StorageError {
    /// The backend is read-only and a write / program / erase was
    /// attempted.
    ReadOnly,
    /// Offset + length overflowed u64.
    Overflow,
    /// Offset or the span [offset, offset+len) is out of range.
    OutOfRange,
    /// Fewer bytes were transferred than requested.
    ShortIO {
        /// Number of bytes requested.
        expected: usize,
        /// Number of bytes actually transferred.
        actual: usize,
    },
    /// A backend-specific failure.
    Backend(String),
}

impl StorageError {
    /// The text of the description.
    pub open spec fn message_text(&self) -> Seq<char> {
        match self {
            StorageError::ReadOnly => "backend is read-only"@,
            StorageError::Overflow => "offset + length overflow"@,
            StorageError::OutOfRange => "access out of range"@,
            StorageError::ShortIO { expected, actual } => "short I/O: expected "@ + dec_chars(
                *expected as nat,
            ) + " bytes, got "@ + dec_chars(*actual as nat),
            StorageError::Backend(msg) => msg@,
        }
    }

    /// Human-readable description of the error.
    pub fn message(&self) -> (r: String)
        ensures
            r@ == self.message_text(),
    {
        match self {
            StorageError::ReadOnly => String::from_str("backend is read-only"),
            StorageError::Overflow => String::from_str("offset + length overflow"),
            StorageError::OutOfRange => String::from_str("access out of range"),
            StorageError::ShortIO { expected, actual } => {
                let mut m = String::from_str("short I/O: expected ");
                append_dec(&mut m, *expected);
                m.append(" bytes, got ");
                append_dec(&mut m, *actual);
                m
            },
            StorageError::Backend(msg) => msg.clone(),
        }
    }
}

/// The decimal digit `d` (below ten) as a character.
pub open spec fn digit_char(d: nat) -> char {
    if d == 0 {
        '0'
    } else if d == 1 {
        '1'
    } else if d == 2 {
        '2'
    } else if d == 3 {
        '3'
    } else if d == 4 {
        '4'
    } else if d == 5 {
        '5'
    } else if d == 6 {
        '6'
    } else if d == 7 {
        '7'
    } else if d == 8 {
        '8'
    } else {
        '9'
    }
}

/// `v` written in decimal, without leading zeros.
pub open spec fn dec_chars(v: nat) -> Seq<char>
    decreases v,
{
    if v < 10 {
        seq![digit_char(v)]
    } else {
        dec_chars(v / 10) + seq![digit_char(v % 10)]
    }
}

fn digit_str(d: usize) -> (r: &'static str)
    requires
        d < 10,
    ensures
        r@ == seq![digit_char(d as nat)],
{
    proof {
        reveal_strlit("0");
        reveal_strlit("1");
        reveal_strlit("2");
        reveal_strlit("3");
        reveal_strlit("4");
        reveal_strlit("5");
        reveal_strlit("6");
        reveal_strlit("7");
        reveal_strlit("8");
        reveal_strlit("9");
    }
    if d == 0 {
        "0"
    } else if d == 1 {
        "1"
    } else if d == 2 {
        "2"
    } else if d == 3 {
        "3"
    } else if d == 4 {
        "4"
    } else if d == 5 {
        "5"
    } else if d == 6 {
        "6"
    } else if d == 7 {
        "7"
    } else if d == 8 {
        "8"
    } else {
        "9"
    }
}

fn append_dec(s: &mut String, v: usize)
    ensures
        final(s)@ == old(s)@ + dec_chars(v as nat),
    decreases v,
{
    if v >= 10 {
        append_dec(s, v / 10);
    }
    let d = digit_str(v % 10);
    s.append(d);
    proof {
        assert(s@ =~= old(s)@ + dec_chars(v as nat));
    }
}

/// Number of bytes a read of `want` bytes at `offset` transfers from a
/// medium of `size` bytes: everything up to the end of the medium.
pub open spec fn read_count(size: int, offset: int, want: int) -> int {
    if offset >= size {
        0
    } else if want <= size - offset {
        want
    } else {
        size - offset
    }
}

/// `after` is `before` with its first `n` bytes replaced by the medium's
/// bytes starting at `offset`, where `n` is what [`read_count`] allows.
pub open spec fn read_fills(
    contents: Seq<u8>,
    offset: int,
    before: Seq<u8>,
    after: Seq<u8>,
    n: int,
) -> bool {
    &&& n == read_count(contents.len() as int, offset, before.len() as int)
    &&& after.len() == before.len()
    &&& forall|i: int| 0 <= i < n ==> after[i] == contents[offset + i]
    &&& forall|i: int| n <= i < before.len() ==> after[i] == before[i]
}

/// The medium after writing `data` at `offset`: the medium grows (with
/// zero bytes) when the write ends past its current end.
pub open spec fn spliced(old: Seq<u8>, offset: int, data: Seq<u8>) -> Seq<u8> {
    let end = offset + data.len();
    let len = if end > old.len() {
        end
    } else {
        old.len() as int
    };
    Seq::new(
        len as nat,
        |i: int|
            if offset <= i < end {
                data[i - offset]
            } else if i < old.len() {
                old[i]
            } else {
                0u8
            },
    )
}

/// A block storage backend providing raw byte-level read/write access.
pub trait BlockBackend {
    /// The bytes currently stored on the medium.
    spec fn contents(&self) -> Seq<u8>;

    /// Whether the medium refuses writes.
    spec fn is_readonly(&self) -> bool;

    /// Whether the medium never fails on its own: every read and every
    /// permitted write that lies within the medium succeeds in full, and
    /// a failed write changes nothing. Memory holds this; a file or
    /// device may not.
    spec fn reliable(&self) -> bool;

    /// Read up to `buf.len()` bytes at `offset` into `buf`.
    ///
    /// Returns the number of bytes actually read. Fewer than `buf.len()`
    /// bytes indicates end-of-medium was reached.
    fn read(&self, offset: u64, buf: &mut [u8]) -> (r: Result<usize, StorageError>)
        ensures
            final(buf)@.len() == old(buf)@.len(),
            r matches Ok(n) ==> read_fills(
                self.contents(),
                offset as int,
                old(buf)@,
                final(buf)@,
                n as int,
            ),
            self.reliable() && offset + old(buf)@.len() <= self.contents().len() ==> (r matches Ok(
                n,
            ) && n == old(buf)@.len()),
    ;

    /// Write `buf` at `offset`; returns the number of bytes written.
    fn write(&mut self, offset: u64, buf: &[u8]) -> (r: Result<usize, StorageError>)
        ensures
            final(self).is_readonly() == old(self).is_readonly(),
            final(self).reliable() == old(self).reliable(),
            old(self).reliable() && !old(self).is_readonly() && offset + buf@.len() <= old(
                self,
            ).contents().len() ==> (r matches Ok(n) && n == buf@.len()),
            old(self).reliable() && r is Err ==> final(self).contents() == old(self).contents(),
            old(self).is_readonly() ==> r == Err::<usize, StorageError>(StorageError::ReadOnly)
                && final(self).contents() == old(self).contents(),
            r matches Ok(n) ==> n <= buf@.len() && final(self).contents() == spliced(
                old(self).contents(),
                offset as int,
                buf@.take(n as int),
            ),
    ;

    /// Flush any pending writes to the backing medium.
    fn flush(&self) -> (r: Result<(), StorageError>);

    /// Total size of the backend in bytes.
    fn size(&self) -> (r: u64)
        ensures
            r as int == self.contents().len(),
    ;

    /// Return true if the backend is read-only.
    fn readonly(&self) -> (r: bool)
        ensures
            r == self.is_readonly(),
    ;

    /// Read exactly `buf.len()` bytes at `offset`.
    ///
    /// Fails with `Overflow` when the span wraps around u64 and with
    /// `OutOfRange` when it passes the end of the medium.
    fn read_exact(&self, offset: u64, buf: &mut [u8]) -> (r: Result<(), StorageError>)
        ensures
            final(buf)@.len() == old(buf)@.len(),
            offset + old(buf)@.len() > u64::MAX ==> r == Err::<(), StorageError>(
                StorageError::Overflow,
            ) && final(buf)@ == old(buf)@,
            offset + old(buf)@.len() <= u64::MAX && offset + old(buf)@.len()
                > self.contents().len() ==> r == Err::<(), StorageError>(
                StorageError::OutOfRange,
            ) && final(buf)@ == old(buf)@,
            r is Ok ==> offset + old(buf)@.len() <= self.contents().len() && final(buf)@
                == self.contents().subrange(offset as int, offset + old(buf)@.len()),
            self.reliable() && offset + old(buf)@.len() <= u64::MAX && offset + old(buf)@.len()
                <= self.contents().len() ==> r is Ok,
    {
        let len = buf.len();
        if len as u64 > u64::MAX - offset {
            return Err(StorageError::Overflow);
        }
        let end = offset + len as u64;
        let size = self.size();
        if offset > size || end > size {
            return Err(StorageError::OutOfRange);
        }
        let n = self.read(offset, buf)?;
        if n != len {
            return Err(StorageError::ShortIO { expected: len, actual: n });
        }
        assert(final(buf)@ =~= self.contents().subrange(offset as int, offset + len));
        Ok(())
    }

    /// Write exactly `buf.len()` bytes at `offset`.
    ///
    /// Fails with `ReadOnly` on read-only backends and with `Overflow`
    /// when the span wraps around u64. The write may extend the medium.
    fn write_exact(&mut self, offset: u64, buf: &[u8]) -> (r: Result<(), StorageError>)
        ensures
            final(self).is_readonly() == old(self).is_readonly(),
            final(self).reliable() == old(self).reliable(),
            old(self).reliable() && !old(self).is_readonly() && offset + buf@.len() <= u64::MAX
                && offset + buf@.len() <= old(self).contents().len() ==> r is Ok,
            old(self).reliable() && r is Err && offset + buf@.len() <= old(self).contents().len()
                ==> final(self).contents() == old(self).contents(),
            old(self).is_readonly() ==> r == Err::<(), StorageError>(StorageError::ReadOnly)
                && final(self).contents() == old(self).contents(),
            !old(self).is_readonly() && offset + buf@.len() > u64::MAX ==> r == Err::<
                (),
                StorageError,
            >(StorageError::Overflow) && final(self).contents() == old(self).contents(),
            r is Ok ==> final(self).contents() == spliced(
                old(self).contents(),
                offset as int,
                buf@,
            ),
    {
        if self.readonly() {
            return Err(StorageError::ReadOnly);
        }
        let len = buf.len();
        if len as u64 > u64::MAX - offset {
            return Err(StorageError::Overflow);
        }
        let n = self.write(offset, buf)?;
        if n != len {
            return Err(StorageError::ShortIO { expected: len, actual: n });
        }
        assert(buf@.take(n as int) =~= buf@);
        Ok(())
    }
}

/// In-memory block storage (for testing and small firmware images).
pub struct MemBackend {
    data: Vec<u8>,
    readonly: bool,
}

impl MemBackend {
    /// Create a new in-memory backend pre-filled with `data`.
    pub fn new(data: Vec<u8>, readonly: bool) -> (r: Self)
        ensures
            r.contents() == data@,
            r.is_readonly() == readonly,
    {
        MemBackend { data, readonly }
    }

    /// Return a copy of the stored data.
    pub fn to_vec(&self) -> (r: Vec<u8>)
        ensures
            r@ == self.contents(),
    {
        let mut out: Vec<u8> = Vec::new();
        let mut i: usize = 0;
        while i < self.data.len()
            invariant
                i <= self.data.len(),
                out@ == self.data@.take(i as int),
            decreases self.data.len() - i,
        {
            out.push(self.data[i]);
            i = i + 1;
            assert(out@ =~= self.data@.take(i as int));
        }
        assert(self.data@.take(i as int) =~= self.data@);
        out
    }
}

impl BlockBackend for MemBackend {
    closed spec fn contents(&self) -> Seq<u8> {
        self.data@
    }

    closed spec fn is_readonly(&self) -> bool {
        self.readonly
    }

    open spec fn reliable(&self) -> bool {
        true
    }

    fn read(&self, offset: u64, buf: &mut [u8]) -> (r: Result<usize, StorageError>)
        ensures
            r is Ok <==> (offset <= usize::MAX && (offset >= self.contents().len() || offset
                + old(buf)@.len() <= usize::MAX)),
            r matches Err(e) ==> e == StorageError::Overflow,
    {
        let len = self.data.len();
        if offset > usize::MAX as u64 {
            return Err(StorageError::Overflow);
        }
        let start = offset as usize;
        if start >= self.data.len() {
            return Ok(0);
        }
        let want = buf.len();
        if want > usize::MAX - start {
            return Err(StorageError::Overflow);
        }
        let avail = self.data.len() - start;
        let n = if want <= avail {
            want
        } else {
            avail
        };
        assert(start + n <= self.data.len());
        let mut i: usize = 0;
        while i < n
            invariant
                i <= n,
                self.data.len() <= usize::MAX,
                n <= buf@.len(),
                start + n <= self.data@.len(),
                buf@.len() == old(buf)@.len(),
                forall|j: int| 0 <= j < i ==> buf@[j] == self.data@[start + j],
                forall|j: int| i <= j < buf@.len() ==> buf@[j] == old(buf)@[j],
            decreases n - i,
        {
            buf[i] = self.data[start + i];
            i = i + 1;
        }
        Ok(n)
    }

    fn write(&mut self, offset: u64, buf: &[u8]) -> (r: Result<usize, StorageError>)
        ensures
            !old(self).is_readonly() ==> (r is Ok <==> offset + buf@.len() <= usize::MAX),
            !old(self).is_readonly() && offset + buf@.len() > usize::MAX ==> r == Err::<usize, StorageError>(
                StorageError::Overflow,
            ),
            r matches Ok(n) ==> n == buf@.len(),
    {
        let len = self.data.len();
        if self.readonly {
            return Err(StorageError::ReadOnly);
        }
        if offset > usize::MAX as u64 {
            return Err(StorageError::Overflow);
        }
        let start = offset as usize;
        if buf.len() > usize::MAX - start {
            return Err(StorageError::Overflow);
        }
        let end = start + buf.len();
        let ghost old_data = self.data@;
        while self.data.len() < end
            invariant
                self.data@.len() <= end || self.data@.len() == old_data.len(),
                old_data.len() <= self.data@.len(),
                forall|j: int| 0 <= j < old_data.len() ==> self.data@[j] == old_data[j],
                forall|j: int| old_data.len() <= j < self.data@.len() ==> self.data@[j] == 0u8,
                self.readonly == old(self).readonly,
            decreases end - self.data.len(),
        {
            self.data.push(0u8);
        }
        let ghost grown = self.data@;
        let mut i: usize = 0;
        while i < buf.len()
            invariant
                end == start + buf@.len(),
                end <= self.data@.len(),
                self.data@.len() == grown.len(),
                i <= buf@.len(),
                forall|j: int| 0 <= j < i ==> self.data@[start + j] == buf@[j],
                forall|j: int|
                    0 <= j < self.data@.len() && !(start <= j < start + i) ==> self.data@[j]
                        == grown[j],
                self.readonly == old(self).readonly,
            decreases buf.len() - i,
        {
            self.data.set(start + i, buf[i]);
            i = i + 1;
        }
        proof {
            let expect = spliced(old_data, offset as int, buf@.take(buf@.len() as int));
            assert(grown.len() == expect.len());
            assert forall|j: int| 0 <= j < expect.len() implies self.data@[j] == expect[j] by {
                if start <= j < end {
                    assert(self.data@[start + (j - start)] == buf@[j - start]);
                    assert(buf@.take(buf@.len() as int)[j - start] == buf@[j - start]);
                } else {
                    assert(self.data@[j] == grown[j]);
                    if j < old_data.len() {
                        assert(grown[j] == old_data[j]);
                    } else {
                        assert(grown[j] == 0u8);
                    }
                }
            }
            assert(self.data@ =~= expect);
            assert(self.reliable());
        }
        Ok(buf.len())
    }

    fn flush(&self) -> (r: Result<(), StorageError>)
        ensures
            r is Ok,
    {
        Ok(())
    }

    fn size(&self) -> (r: u64) {
        self.data.len() as u64
    }

    fn readonly(&self) -> (r: bool) {
        self.readonly
    }
}

/// `value` is a multiple of `m` (only 0 is a multiple of 0).
pub open spec fn multiple_of(value: int, m: int) -> bool {
    if m == 0 {
        value == 0
    } else {
        value % m == 0
    }
}

fn is_multiple_of_u64(value: u64, m: u64) -> (r: bool)
    ensures
        r == multiple_of(value as int, m as int),
{
    if m == 0 {
        value == 0
    } else {
        value % m == 0
    }
}

fn is_multiple_of_usize(value: usize, m: usize) -> (r: bool)
    ensures
        r == multiple_of(value as int, m as int),
{
    if m == 0 {
        value == 0
    } else {
        value % m == 0
    }
}

/// A sector-aware wrapper around a [`BlockBackend`].
///
/// Enforces sector-size alignment and translates sector-number
/// addresses to byte offsets.
pub struct BlockMedia<B: BlockBackend> {
    backend: B,
    block_size: u32,
}

impl<B: BlockBackend> BlockMedia<B> {
    /// Well-formed: the sector size is non-zero.
    pub closed spec fn wf(&self) -> bool {
        self.block_size > 0
    }

    /// The wrapped backend.
    pub closed spec fn inner(&self) -> B {
        self.backend
    }

    /// The sector size in bytes.
    pub closed spec fn sector_size(&self) -> u32 {
        self.block_size
    }

    /// Wrap `backend` as a block device with the given sector size.
    ///
    /// `block_size` must be a power of two and at least 512.
    pub fn new(backend: B, block_size: u32) -> (r: Self)
        requires
            block_size > 0,
        ensures
            r.wf(),
            r.inner() == backend,
            r.sector_size() == block_size,
    {
        BlockMedia { backend, block_size }
    }

    /// Return the sector size in bytes.
    pub fn block_size(&self) -> (r: u32)
        requires
            self.wf(),
        ensures
            r == self.sector_size(),
            r > 0,
    {
        self.block_size
    }

    /// Return the total number of sectors.
    pub fn sector_count(&self) -> (r: u64)
        requires
            self.wf(),
        ensures
            r as int == (self.inner().contents().len() as int) / (self.sector_size() as int),
    {
        self.backend.size() / (self.block_size as u64)
    }

    /// Read one sector into `buf`, which must be exactly one sector long.
    pub fn read_block(&self, sector: u64, buf: &mut [u8]) -> (r: Result<(), StorageError>)
        requires
            self.wf(),
        ensures
            ({
                let bs = self.sector_size() as int;
                let len = old(buf)@.len() as int;
                let off = sector * bs;
                &&& final(buf)@.len() == old(buf)@.len()
                &&& len != bs ==> r == Err::<(), StorageError>(
                    StorageError::ShortIO { expected: bs as usize, actual: len as usize },
                ) && final(buf)@ == old(buf)@
                &&& len == bs && off > u64::MAX ==> r == Err::<(), StorageError>(
                    StorageError::Overflow,
                ) && final(buf)@ == old(buf)@
                &&& len == bs && off <= u64::MAX && off + bs > u64::MAX ==> r == Err::<
                    (),
                    StorageError,
                >(StorageError::Overflow) && final(buf)@ == old(buf)@
                &&& len == bs && off + bs <= u64::MAX && off + bs > self.inner().contents().len()
                    ==> r == Err::<(), StorageError>(StorageError::OutOfRange) && final(buf)@
                    == old(buf)@
                &&& r is Ok ==> len == bs && off + bs <= self.inner().contents().len() && final(buf)@ == self.inner().contents().subrange(off, off + bs)
                &&& self.inner().reliable() && len == bs && off + bs <= u64::MAX && off + bs <= self.inner().contents().len()
                    ==> r is Ok
            }),
    {
        if buf.len() != self.block_size as usize {
            return Err(StorageError::ShortIO {
                expected: self.block_size as usize,
                actual: buf.len(),
            });
        }
        let offset = match sector.checked_mul(self.block_size as u64) {
            Some(o) => o,
            None => {
                return Err(StorageError::Overflow);
            },
        };
        self.backend.read_exact(offset, buf)
    }

    /// Write one sector from `buf`, which must be exactly one sector
    /// long. Rejects writes past the last sector.
    pub fn write_block(&mut self, sector: u64, buf: &[u8]) -> (r: Result<(), StorageError>)
        requires
            old(self).wf(),
        ensures
            final(self).wf(),
            ({
                let bs = old(self).sector_size() as int;
                let len = buf@.len() as int;
                let off = sector * bs;
                let before = old(self).inner().contents();
                &&& final(self).sector_size() == old(self).sector_size()
                &&& final(self).inner().is_readonly() == old(self).inner().is_readonly()
                &&& len != bs ==> r == Err::<(), StorageError>(
                    StorageError::ShortIO { expected: bs as usize, actual: len as usize },
                ) && final(self).inner().contents() == before
                &&& len == bs && off + bs > u64::MAX ==> r == Err::<(), StorageError>(
                    StorageError::Overflow,
                ) && final(self).inner().contents() == before
                &&& len == bs && off + bs <= u64::MAX && off + bs > before.len() ==> r == Err::<
                    (),
                    StorageError,
                >(StorageError::OutOfRange) && final(self).inner().contents() == before
                &&& len == bs && off + bs <= u64::MAX && off + bs <= before.len() && old(self).inner().is_readonly()
                    ==> r == Err::<(), StorageError>(StorageError::ReadOnly) && final(self).inner().contents() == before
                &&& r is Ok ==> len == bs && off + bs <= before.len() && final(self).inner().contents() == spliced(before, off, buf@)
                &&& final(self).inner().reliable() == old(self).inner().reliable()
                &&& old(self).inner().reliable() && len == bs && off + bs <= u64::MAX && off + bs <= before.len()
                    && !old(self).inner().is_readonly() ==> r is Ok
                &&& old(self).inner().reliable() && r is Err ==> final(self).inner().contents() == before
            }),
    {
        if buf.len() != self.block_size as usize {
            return Err(StorageError::ShortIO {
                expected: self.block_size as usize,
                actual: buf.len(),
            });
        }
        let offset = match sector.checked_mul(self.block_size as u64) {
            Some(o) => o,
            None => {
                proof {
                    assert(sector * (self.block_size as int) + (self.block_size as int) > u64::MAX);
                }
                return Err(StorageError::Overflow);
            },
        };
        if buf.len() as u64 > u64::MAX - offset {
            return Err(StorageError::Overflow);
        }
        let end = offset + buf.len() as u64;
        if end > self.backend.size() {
            return Err(StorageError::OutOfRange);
        }
        self.backend.write_exact(offset, buf)
    }

    /// Read whole sectors starting at `sector` into `buf`, whose length
    /// must be a multiple of the sector size.
    pub fn read_blocks(&self, sector: u64, buf: &mut [u8]) -> (r: Result<(), StorageError>)
        requires
            self.wf(),
            old(buf)@.len() + self.sector_size() <= usize::MAX,
        ensures
            ({
                let bs = self.sector_size() as int;
                let len = old(buf)@.len() as int;
                let off = sector * bs;
                &&& final(buf)@.len() == old(buf)@.len()
                &&& len % bs != 0 ==> r == Err::<(), StorageError>(
                    StorageError::ShortIO {
                        expected: ((len / bs + 1) * bs) as usize,
                        actual: len as usize,
                    },
                ) && final(buf)@ == old(buf)@
                &&& len % bs == 0 && off > u64::MAX ==> r == Err::<(), StorageError>(
                    StorageError::Overflow,
                ) && final(buf)@ == old(buf)@
                &&& len % bs == 0 && off <= u64::MAX && off + len > u64::MAX ==> r == Err::<
                    (),
                    StorageError,
                >(StorageError::Overflow) && final(buf)@ == old(buf)@
                &&& len % bs == 0 && off + len <= u64::MAX && off + len > self.inner().contents().len()
                    ==> r == Err::<(), StorageError>(StorageError::OutOfRange) && final(buf)@
                    == old(buf)@
                &&& r is Ok ==> len % bs == 0 && off + len <= self.inner().contents().len()
                    && final(buf)@ == self.inner().contents().subrange(off, off + len)
                &&& self.inner().reliable() && len % bs == 0 && off + len <= u64::MAX && off + len
                    <= self.inner().contents().len() ==> r is Ok
            }),
    {
        let bs = self.block_size as usize;
        if !is_multiple_of_usize(buf.len(), bs) {
            proof {
                assert((buf.len() / bs + 1) * bs <= buf.len() + bs) by (nonlinear_arith)
                    requires
                        bs > 0,
                ;
            }
            return Err(StorageError::ShortIO {
                expected: (buf.len() / bs + 1) * bs,
                actual: buf.len(),
            });
        }
        let offset = match sector.checked_mul(self.block_size as u64) {
            Some(o) => o,
            None => {
                return Err(StorageError::Overflow);
            },
        };
        self.backend.read_exact(offset, buf)
    }

    /// Write whole sectors starting at `sector` from `buf`, whose length
    /// must be a multiple of the sector size. Rejects writes past the
    /// last sector.
    pub fn write_blocks(&mut self, sector: u64, buf: &[u8]) -> (r: Result<(), StorageError>)
        requires
            old(self).wf(),
            buf@.len() + old(self).sector_size() <= usize::MAX,
        ensures
            final(self).wf(),
            ({
                let bs = old(self).sector_size() as int;
                let len = buf@.len() as int;
                let off = sector * bs;
                let before = old(self).inner().contents();
                &&& final(self).sector_size() == old(self).sector_size()
                &&& final(self).inner().is_readonly() == old(self).inner().is_readonly()
                &&& len % bs != 0 ==> r == Err::<(), StorageError>(
                    StorageError::ShortIO {
                        expected: ((len / bs + 1) * bs) as usize,
                        actual: len as usize,
                    },
                ) && final(self).inner().contents() == before
                &&& len % bs == 0 && off + len > u64::MAX ==> r == Err::<(), StorageError>(
                    StorageError::Overflow,
                ) && final(self).inner().contents() == before
                &&& len % bs == 0 && off + len <= u64::MAX && off + len > before.len() ==> r
                    == Err::<(), StorageError>(StorageError::OutOfRange) && final(self).inner().contents() == before
                &&& len % bs == 0 && off + len <= u64::MAX && off + len <= before.len() && old(self).inner().is_readonly()
                    ==> r == Err::<(), StorageError>(StorageError::ReadOnly) && final(self).inner().contents() == before
                &&& r is Ok ==> len % bs == 0 && off + len <= before.len() && final(self).inner().contents() == spliced(before, off, buf@)
                &&& final(self).inner().reliable() == old(self).inner().reliable()
                &&& old(self).inner().reliable() && len % bs == 0 && off + len <= u64::MAX && off + len <= before.len()
                    && !old(self).inner().is_readonly() ==> r is Ok
                &&& old(self).inner().reliable() && r is Err ==> final(self).inner().contents() == before
            }),
    {
        let bs = self.block_size as usize;
        if !is_multiple_of_usize(buf.len(), bs) {
            proof {
                assert((buf.len() / bs + 1) * bs <= buf.len() + bs) by (nonlinear_arith)
                    requires
                        bs > 0,
                ;
            }
            return Err(StorageError::ShortIO {
                expected: (buf.len() / bs + 1) * bs,
                actual: buf.len(),
            });
        }
        let offset = match sector.checked_mul(self.block_size as u64) {
            Some(o) => o,
            None => {
                proof {
                    let b = self.block_size as int;
                    assert(sector * b > u64::MAX);
                    assert(sector * b + buf@.len() > u64::MAX) by (nonlinear_arith)
                        requires
                            sector * b > u64::MAX,
                            buf@.len() >= 0,
                    ;
                }
                return Err(StorageError::Overflow);
            },
        };
        if buf.len() as u64 > u64::MAX - offset {
            return Err(StorageError::Overflow);
        }
        let end = offset + buf.len() as u64;
        if end > self.backend.size() {
            return Err(StorageError::OutOfRange);
        }
        self.backend.write_exact(offset, buf)
    }

    /// Access the inner backend.
    pub fn backend(&self) -> (r: &B)
        ensures
            *r == self.inner(),
    {
        &self.backend
    }
}

/// The medium after NOR-programming `data` at `offset`: each byte in the
/// span becomes `existing & data`; every other byte is unchanged.
pub open spec fn programmed(old: Seq<u8>, offset: int, data: Seq<u8>) -> Seq<u8> {
    Seq::new(
        old.len(),
        |i: int|
            if offset <= i < offset + data.len() {
                old[i] & data[i - offset]
            } else {
                old[i]
            },
    )
}

/// The medium after erasing `len` bytes at `offset` to `value`.
pub open spec fn erased(old: Seq<u8>, offset: int, len: int, value: u8) -> Seq<u8> {
    Seq::new(old.len(), |i: int| if offset <= i < offset + len { value } else { old[i] })
}

/// A NOR-flash wrapper around a [`BlockBackend`].
///
/// Erased bytes hold the erase value (default `0xFF`); programming can
/// only turn 1 bits into 0 bits; erasing works on erase-block-aligned
/// regions.
pub struct FlashMedia<B: BlockBackend> {
    backend: B,
    erase_block_size: u32,
    erase_value: u8,
    readonly: bool,
}

impl<B: BlockBackend> FlashMedia<B> {
    /// The wrapped backend.
    pub closed spec fn inner(&self) -> B {
        self.backend
    }

    /// The minimum erase unit in bytes.
    pub closed spec fn block(&self) -> u32 {
        self.erase_block_size
    }

    /// The byte value of erased flash.
    pub closed spec fn fill(&self) -> u8 {
        self.erase_value
    }

    /// Whether the flash refuses program and erase.
    pub closed spec fn locked(&self) -> bool {
        self.readonly
    }

    /// Wrap `backend` as NOR flash with erase value `0xFF`.
    pub fn new(backend: B, erase_block_size: u32) -> (r: Self)
        ensures
            r.inner() == backend,
            r.block() == erase_block_size,
            r.fill() == 0xFFu8,
            !r.locked(),
    {
        FlashMedia { backend, erase_block_size, erase_value: 0xFF, readonly: false }
    }

    /// Set the erase value.
    pub fn with_erase_value(self, value: u8) -> (r: Self)
        ensures
            r.inner() == self.inner(),
            r.block() == self.block(),
            r.fill() == value,
            r.locked() == self.locked(),
    {
        let mut s = self;
        s.erase_value = value;
        s
    }

    /// Mark the flash as read-only (or writable).
    pub fn with_readonly(self, readonly: bool) -> (r: Self)
        ensures
            r.inner() == self.inner(),
            r.block() == self.block(),
            r.fill() == self.fill(),
            r.locked() == readonly,
    {
        let mut s = self;
        s.readonly = readonly;
        s
    }

    /// Return the erase block size.
    pub fn erase_block_size(&self) -> (r: u32)
        ensures
            r == self.block(),
    {
        self.erase_block_size
    }

    /// Return the erase value.
    pub fn erase_value(&self) -> (r: u8)
        ensures
            r == self.fill(),
    {
        self.erase_value
    }

    /// Read `buf.len()` bytes at `offset`.
    pub fn read(&self, offset: u64, buf: &mut [u8]) -> (r: Result<(), StorageError>)
        ensures
            final(buf)@.len() == old(buf)@.len(),
            offset + old(buf)@.len() > u64::MAX ==> r == Err::<(), StorageError>(
                StorageError::Overflow,
            ) && final(buf)@ == old(buf)@,
            offset + old(buf)@.len() <= u64::MAX && offset + old(buf)@.len()
                > self.inner().contents().len() ==> r == Err::<(), StorageError>(
                StorageError::OutOfRange,
            ) && final(buf)@ == old(buf)@,
            r is Ok ==> offset + old(buf)@.len() <= self.inner().contents().len() && final(buf)@
                == self.inner().contents().subrange(offset as int, offset + old(buf)@.len()),
            self.inner().reliable() && offset + old(buf)@.len() <= u64::MAX && offset + old(buf)@.len()
                <= self.inner().contents().len() ==> r is Ok,
    {
        self.backend.read_exact(offset, buf)
    }

    /// Program (write) data at `offset`: each byte becomes
    /// `existing & data_byte`.
    pub fn program(&mut self, offset: u64, buf: &[u8]) -> (r: Result<(), StorageError>)
        ensures
            ({
                let before = old(self).inner().contents();
                let end = offset + buf@.len();
                &&& final(self).block() == old(self).block()
                &&& final(self).fill() == old(self).fill()
                &&& final(self).locked() == old(self).locked()
                &&& final(self).inner().is_readonly() == old(self).inner().is_readonly()
                &&& old(self).locked() ==> r == Err::<(), StorageError>(StorageError::ReadOnly)
                    && final(self).inner().contents() == before
                &&& !old(self).locked() && buf@.len() == 0 ==> r == Ok::<(), StorageError>(())
                    && final(self).inner().contents() == before
                &&& !old(self).locked() && buf@.len() > 0 && end > u64::MAX ==> r == Err::<
                    (),
                    StorageError,
                >(StorageError::Overflow) && final(self).inner().contents() == before
                &&& !old(self).locked() && buf@.len() > 0 && end <= u64::MAX && end > before.len()
                    ==> r == Err::<(), StorageError>(StorageError::OutOfRange) && final(self).inner().contents() == before
                &&& r is Ok ==> (buf@.len() > 0 ==> end <= before.len()) && final(self).inner().contents() == programmed(before, offset as int, buf@)
                &&& final(self).inner().reliable() == old(self).inner().reliable()
                &&& old(self).inner().reliable() && !old(self).locked() && !old(self).inner().is_readonly()
                    && (buf@.len() > 0 ==> end <= u64::MAX && end <= before.len()) ==> r is Ok
                &&& old(self).inner().reliable() && r is Err ==> final(self).inner().contents() == before
                &&& old(self).inner().is_readonly() && buf@.len() > 0 ==> r is Err && final(self).inner().contents() == before
            }),
    {
        if self.readonly {
            return Err(StorageError::ReadOnly);
        }
        if buf.len() == 0 {
            proof {
                let c = self.backend.contents();
                assert(c =~= programmed(c, offset as int, buf@));
            }
            return Ok(());
        }
        if buf.len() as u64 > u64::MAX - offset {
            return Err(StorageError::Overflow);
        }
        let end = offset + buf.len() as u64;
        let size = self.backend.size();
        if offset > size || end > size {
            return Err(StorageError::OutOfRange);
        }
        let ghost before = self.backend.contents();
        let mut existing: Vec<u8> = vec![0u8; buf.len()];
        self.backend.read_exact(offset, existing.as_mut_slice())?;
        let mut i: usize = 0;
        while i < existing.len()
            invariant
                existing@.len() == buf@.len(),
                i <= existing@.len(),
                offset + buf@.len() <= before.len(),
                forall|j: int| 0 <= j < i ==> existing@[j] == before[offset + j] & buf@[j],
                forall|j: int| i <= j < existing@.len() ==> existing@[j] == before[offset + j],
            decreases existing.len() - i,
        {
            let e = existing[i] & buf[i];
            existing.set(i, e);
            i = i + 1;
        }
        let res = self.backend.write_exact(offset, existing.as_slice());
        proof {
            if res is Ok {
                let after = self.backend.contents();
                let expect = programmed(before, offset as int, buf@);
                assert(after =~= expect);
            }
        }
        res
    }

    /// Erase `len` bytes starting at `offset`; both must be multiples of
    /// the erase block size.
    pub fn erase(&mut self, offset: u64, len: u64) -> (r: Result<(), StorageError>)
        requires
            len <= usize::MAX,
        ensures
            ({
                let before = old(self).inner().contents();
                let ebs = old(self).block() as int;
                let aligned = multiple_of(offset as int, ebs) && multiple_of(len as int, ebs);
                &&& final(self).block() == old(self).block()
                &&& final(self).fill() == old(self).fill()
                &&& final(self).locked() == old(self).locked()
                &&& final(self).inner().is_readonly() == old(self).inner().is_readonly()
                &&& old(self).locked() ==> r == Err::<(), StorageError>(StorageError::ReadOnly)
                    && final(self).inner().contents() == before
                &&& !old(self).locked() && !aligned ==> (r matches Err(StorageError::Backend(m)) && m@
                    == "erase region not erase-block aligned"@) && final(self).inner().contents() == before
                &&& !old(self).locked() && aligned && offset + len > u64::MAX ==> r == Err::<
                    (),
                    StorageError,
                >(StorageError::Overflow) && final(self).inner().contents() == before
                &&& !old(self).locked() && aligned && offset + len <= u64::MAX && offset + len
                    > before.len() ==> r == Err::<(), StorageError>(StorageError::OutOfRange)
                    && final(self).inner().contents() == before
                &&& r is Ok ==> !old(self).locked() && aligned && offset + len <= before.len()
                    && final(self).inner().contents() == erased(
                    before,
                    offset as int,
                    len as int,
                    old(self).fill(),
                )
                &&& final(self).inner().reliable() == old(self).inner().reliable()
                &&& old(self).inner().reliable() && !old(self).locked() && !old(self).inner().is_readonly()
                    && aligned && offset + len <= u64::MAX && offset + len <= before.len() ==> r is Ok
                &&& old(self).inner().reliable() && r is Err ==> final(self).inner().contents() == before
                &&& old(self).inner().is_readonly() ==> r is Err && final(self).inner().contents() == before
            }),
    {
        if self.readonly {
            return Err(StorageError::ReadOnly);
        }
        let ebs = self.erase_block_size as u64;
        if !is_multiple_of_u64(offset, ebs) || !is_multiple_of_u64(len, ebs) {
            return Err(StorageError::Backend(String::from_str("erase region not erase-block aligned")));
        }
        if len > u64::MAX - offset {
            return Err(StorageError::Overflow);
        }
        let end = offset + len;
        let size = self.backend.size();
        if offset > size || end > size {
            return Err(StorageError::OutOfRange);
        }
        let ghost before = self.backend.contents();
        let fill: Vec<u8> = vec![self.erase_value; len as usize];
        let res = self.backend.write_exact(offset, fill.as_slice());
        proof {
            if res is Ok {
                assert(self.backend.contents() =~= erased(
                    before,
                    offset as int,
                    len as int,
                    self.erase_value,
                ));
            }
        }
        res
    }

    /// Erase the entire backend to the erase value.
    pub fn erase_all(&mut self) -> (r: Result<(), StorageError>)
        requires
            old(self).inner().contents().len() <= usize::MAX,
        ensures
            ({
                let before = old(self).inner().contents();
                &&& final(self).block() == old(self).block()
                &&& final(self).fill() == old(self).fill()
                &&& final(self).locked() == old(self).locked()
                &&& final(self).inner().is_readonly() == old(self).inner().is_readonly()
                &&& old(self).locked() ==> r == Err::<(), StorageError>(StorageError::ReadOnly)
                    && final(self).inner().contents() == before
                &&& !old(self).locked() && before.len() == 0 ==> r == Ok::<(), StorageError>(())
                    && final(self).inner().contents() == before
                &&& r is Ok ==> final(self).inner().contents() == erased(
                    before,
                    0,
                    before.len() as int,
                    old(self).fill(),
                )
                &&& final(self).inner().reliable() == old(self).inner().reliable()
                &&& old(self).inner().reliable() && !old(self).locked() && !old(self).inner().is_readonly()
                    ==> r is Ok
                &&& old(self).inner().reliable() && r is Err ==> final(self).inner().contents() == before
                &&& old(self).inner().is_readonly() && before.len() > 0 ==> r is Err && final(self).inner().contents() == before
            }),
    {
        if self.readonly {
            return Err(StorageError::ReadOnly);
        }
        let size = self.backend.size();
        if size == 0 {
            proof {
                assert(self.backend.contents() =~= erased(
                    self.backend.contents(),
                    0,
                    0,
                    self.erase_value,
                ));
            }
            return Ok(());
        }
        let ghost before = self.backend.contents();
        let fill: Vec<u8> = vec![self.erase_value; size as usize];
        let res = self.backend.write_exact(0, fill.as_slice());
        proof {
            if res is Ok {
                assert(self.backend.contents() =~= erased(
                    before,
                    0,
                    before.len() as int,
                    self.erase_value,
                ));
            }
        }
        res
    }

    /// Access the inner backend.
    pub fn backend(&self) -> (r: &B)
        ensures
            *r == self.inner(),
    {
        &self.backend
    }
}

/// Reading back the span just written gives the written bytes, and
/// every byte of the old medium outside that span is unchanged.
pub proof fn lemma_read_back_written(old: Seq<u8>, offset: int, data: Seq<u8>)
    requires
        0 <= offset,
    ensures
        spliced(old, offset, data).subrange(offset, offset + data.len()) == data,
        forall|i: int|
            0 <= i < old.len() && !(offset <= i < offset + data.len()) ==> spliced(
                old,
                offset,
                data,
            )[i] == old[i],
        spliced(old, offset, data).len() >= old.len(),
{
    assert(spliced(old, offset, data).subrange(offset, offset + data.len()) =~= data);
}

/// Writing a span that lies inside the medium keeps its size.
pub proof fn lemma_write_in_range_keeps_size(old: Seq<u8>, offset: int, data: Seq<u8>)
    requires
        0 <= offset,
        offset + data.len() <= old.len(),
    ensures
        spliced(old, offset, data).len() == old.len(),
{
}

/// NOR programming never turns a 0 bit into a 1 bit: every byte after
/// programming has only bits that were already set before.
pub proof fn lemma_program_only_clears_bits(old: Seq<u8>, offset: int, data: Seq<u8>)
    ensures
        programmed(old, offset, data).len() == old.len(),
        forall|i: int|
            0 <= i < old.len() ==> #[trigger] programmed(old, offset, data)[i] & old[i]
                == programmed(old, offset, data)[i],
{
    assert forall|i: int| 0 <= i < old.len() implies #[trigger] programmed(old, offset, data)[i]
        & old[i] == programmed(old, offset, data)[i] by {
        let o = old[i];
        if offset <= i < offset + data.len() {
            let d = data[i - offset];
            assert((o & d) & o == o & d) by (bit_vector);
        } else {
            assert(o & o == o) by (bit_vector);
        }
    }
}

/// Programming `a` and then `b` over the same span is the same as
/// programming `a & b` once.
pub proof fn lemma_program_twice(old: Seq<u8>, offset: int, a: Seq<u8>, b: Seq<u8>)
    requires
        a.len() == b.len(),
    ensures
        programmed(programmed(old, offset, a), offset, b) == programmed(
            old,
            offset,
            Seq::new(a.len(), |i: int| a[i] & b[i]),
        ),
{
    let ab = Seq::new(a.len(), |i: int| a[i] & b[i]);
    let lhs = programmed(programmed(old, offset, a), offset, b);
    let rhs = programmed(old, offset, ab);
    assert forall|i: int| 0 <= i < old.len() implies lhs[i] == rhs[i] by {
        if offset <= i < offset + a.len() {
            let o = old[i];
            let x = a[i - offset];
            let y = b[i - offset];
            assert((o & x) & y == o & (x & y)) by (bit_vector);
        }
    }
    assert(lhs =~= rhs);
}

/// Every byte of an erased span reads back as the erase value; bytes
/// outside it are unchanged.
pub proof fn lemma_erase_reads_fill(old: Seq<u8>, offset: int, len: int, value: u8)
    requires
        0 <= offset,
        0 <= len,
        offset + len <= old.len(),
    ensures
        erased(old, offset, len, value).subrange(offset, offset + len) == Seq::new(
            len as nat,
            |i: int| value,
        ),
        forall|i: int|
            0 <= i < old.len() && !(offset <= i < offset + len) ==> erased(old, offset, len, value)[i]
                == old[i],
{
    assert(erased(old, offset, len, value).subrange(offset, offset + len) =~= Seq::new(
        len as nat,
        |i: int| value,
    ));
}

/// Programming a span that was erased to `0xFF` stores exactly the
/// programmed bytes.
pub proof fn lemma_program_after_erase(old: Seq<u8>, offset: int, data: Seq<u8>)
    requires
        0 <= offset,
        offset + data.len() <= old.len(),
    ensures
        programmed(erased(old, offset, data.len() as int, 0xFFu8), offset, data).subrange(
            offset,
            offset + data.len(),
        ) == data,
{
    let e = erased(old, offset, data.len() as int, 0xFFu8);
    let p = programmed(e, offset, data);
    assert forall|i: int| 0 <= i < data.len() implies p.subrange(offset, offset + data.len())[i]
        == data[i] by {
        let d = data[i];
        assert(0xFFu8 & d == d) by (bit_vector);
    }
    assert(p.subrange(offset, offset + data.len()) =~= data);
}

} // verus!
