//! The one file of the store, as bytes with a cursor.
//!
//! A `FileBuf` behaves as an open file does: one cursor serves reading and
//! writing, a write overwrites what lies under the cursor and lengthens the
//! file where it goes past the end, and cutting the file short leaves the
//! cursor where it was.
use vstd::prelude::*;

verus! {

/// The bytes of a file and the place of its cursor.
pub struct FileBuf {
    bytes: Vec<u8>,
    pos: usize,
}

/// What a file holds and where its cursor stands.
pub struct FileView {
    pub bytes: Seq<u8>,
    pub pos: nat,
}

/// The bytes with zeros added up to `pos`, where `pos` lies past the end.
pub open spec fn padded(bytes: Seq<u8>, pos: nat) -> Seq<u8> {
    if pos > bytes.len() {
        bytes + Seq::new((pos - bytes.len()) as nat, |i: int| 0u8)
    } else {
        bytes
    }
}

/// The bytes after `data` has been written at `pos`.
pub open spec fn overwritten(bytes: Seq<u8>, pos: nat, data: Seq<u8>) -> Seq<u8> {
    let base = padded(bytes, pos);
    let end = pos + data.len();
    base.subrange(0, pos as int) + data + if end < base.len() {
        base.subrange(end as int, base.len() as int)
    } else {
        Seq::empty()
    }
}

/// The bytes from `pos` to the end; none where `pos` lies past the end.
pub open spec fn rest_from(bytes: Seq<u8>, pos: nat) -> Seq<u8> {
    if pos < bytes.len() {
        bytes.subrange(pos as int, bytes.len() as int)
    } else {
        Seq::empty()
    }
}

/// A write at the end of the file appends.
pub proof fn lemma_write_at_end(bytes: Seq<u8>, data: Seq<u8>)
    ensures
        overwritten(bytes, bytes.len(), data) == bytes + data,
{
    assert(bytes.subrange(0, bytes.len() as int) == bytes);
    assert(overwritten(bytes, bytes.len(), data) =~= bytes + data);
}

impl View for FileBuf {
    type V = FileView;

    closed spec fn view(&self) -> FileView {
        FileView { bytes: self.bytes@, pos: self.pos as nat }
    }
}

impl FileBuf {
    /// An empty file.
    pub fn new() -> (r: FileBuf)
        ensures
            r@.bytes.len() == 0,
            r@.pos == 0,
    {
        FileBuf { bytes: Vec::new(), pos: 0 }
    }

    /// A file that holds `bytes`, with the cursor at the start.
    pub fn from_bytes(bytes: Vec<u8>) -> (r: FileBuf)
        ensures
            r@.bytes == bytes@,
            r@.pos == 0,
    {
        FileBuf { bytes, pos: 0 }
    }

    /// The bytes of the file.
    pub fn into_bytes(self) -> (r: Vec<u8>)
        ensures
            r@ == self@.bytes,
    {
        self.bytes
    }

    /// The bytes of the file.
    pub fn as_bytes(&self) -> (r: &[u8])
        ensures
            r@ == self@.bytes,
    {
        self.bytes.as_slice()
    }

    /// The number of bytes in the file.
    pub fn len(&self) -> (r: usize)
        ensures
            r == self@.bytes.len(),
    {
        self.bytes.len()
    }

    /// Where the cursor stands.
    pub fn position(&self) -> (r: usize)
        ensures
            r == self@.pos,
    {
        self.pos
    }

    /// Moves the cursor to the first byte.
    pub fn seek_start(&mut self)
        ensures
            final(self)@.bytes == old(self)@.bytes,
            final(self)@.pos == 0,
    {
        self.pos = 0;
    }

    /// Moves the cursor behind the last byte.
    pub fn seek_end(&mut self)
        ensures
            final(self)@.bytes == old(self)@.bytes,
            final(self)@.pos == old(self)@.bytes.len(),
    {
        self.pos = self.bytes.len();
    }

    /// Cuts the file to no bytes. The cursor stays where it is.
    pub fn truncate(&mut self)
        ensures
            final(self)@.bytes.len() == 0,
            final(self)@.pos == old(self)@.pos,
    {
        self.bytes.clear();
    }

    /// Writes `data` at the cursor and leaves the cursor behind it.
    pub fn write_all(&mut self, data: &[u8])
        ensures
            final(self)@.bytes == overwritten(old(self)@.bytes, old(self)@.pos, data@),
            final(self)@.pos == old(self)@.pos + data@.len(),
    {
        while self.bytes.len() < self.pos
            invariant
                self.pos == old(self).pos,
                self.bytes@.len() <= self.pos ==> self.bytes@ =~= old(self).bytes@ + Seq::new(
                    (self.bytes@.len() - old(self).bytes@.len()) as nat,
                    |i: int| 0u8,
                ),
                self.bytes@.len() >= old(self).bytes@.len(),
                self.bytes@.len() > self.pos ==> self.bytes@ == old(self).bytes@,
            decreases self.pos - self.bytes@.len(),
        {
            self.bytes.push(0u8);
        }
        let ghost base = self.bytes@;
        let ghost start = self.pos as int;
        assert(base == padded(old(self).bytes@, old(self).pos as nat));
        let mut k: usize = 0;
        while k < data.len()
            invariant
                k <= data@.len(),
                start <= base.len(),
                self.pos == start + k,
                self.bytes@.len() == if start + k > base.len() {
                    start + k
                } else {
                    base.len() as int
                },
                forall|j: int|
                    0 <= j < self.bytes@.len() ==> #[trigger] self.bytes@[j] == if start <= j
                        < start + k {
                        data@[j - start]
                    } else {
                        base[j]
                    },
            decreases data@.len() - k,
        {
            let byte = data[k];
            if self.pos < self.bytes.len() {
                self.bytes[self.pos] = byte;
            } else {
                self.bytes.push(byte);
            }
            assert(self.pos < self.bytes.len());
            self.pos = self.pos + 1;
            k = k + 1;
        }
        assert(self.bytes@ =~= overwritten(old(self).bytes@, old(self).pos as nat, data@));
    }

    /// Hands out the bytes from the cursor to the end and leaves the cursor
    /// at the end, or where it was if that lies further.
    pub fn read_to_end(&mut self) -> (r: Vec<u8>)
        ensures
            r@ == rest_from(old(self)@.bytes, old(self)@.pos),
            final(self)@.bytes == old(self)@.bytes,
            final(self)@.pos == if old(self)@.pos < old(self)@.bytes.len() {
                old(self)@.bytes.len()
            } else {
                old(self)@.pos
            },
    {
        let mut out: Vec<u8> = Vec::new();
        let ghost start = self.pos as int;
        while self.pos < self.bytes.len()
            invariant
                self.bytes == old(self).bytes,
                start == old(self).pos,
                start <= self.pos,
                start < self.bytes@.len() ==> self.pos <= self.bytes@.len(),
                start >= self.bytes@.len() ==> self.pos == start,
                out@.len() == self.pos - start,
                forall|j: int| 0 <= j < out@.len() ==> out@[j] == self.bytes@[start + j],
            decreases self.bytes@.len() - self.pos,
        {
            out.push(self.bytes[self.pos]);
            self.pos = self.pos + 1;
        }
        assert(out@ =~= rest_from(old(self).bytes@, old(self).pos as nat));
        out
    }
}

} // verus!
