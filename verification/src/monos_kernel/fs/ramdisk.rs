use vstd::prelude::*;

verus! {

/// The bytes a read of `n` bytes at `pos` gives.
pub open spec fn bytes_at(data: Seq<u8>, pos: int, n: int) -> Seq<u8> {
    data.subrange(pos, pos + n)
}

/// The disk's bytes after writing `bytes` at `pos`.
pub open spec fn written(data: Seq<u8>, pos: int, bytes: Seq<u8>) -> Seq<u8> {
    data.subrange(0, pos) + bytes + data.subrange(pos + bytes.len(), data.len() as int)
}

/// A disk in memory: its bytes and the position the next read or write starts at.
pub struct RamDisk {
    pub data: Vec<u8>,
    pub pos: usize,
}

impl RamDisk {
    pub fn new(data: Vec<u8>) -> (r: RamDisk)
        ensures
            r.data@ == data@,
            r.pos == 0,
    {
        RamDisk { data, pos: 0 }
    }

    /// Another disk with the same bytes, positioned at the start.
    pub fn clone(&self) -> (r: RamDisk)
        ensures
            r.data@ == self.data@,
            r.pos == 0,
    {
        RamDisk { data: self.data.clone(), pos: 0 }
    }

    /// Fills `buf` from the current position, which moves past what was read.
    pub fn read(&mut self, buf: &mut [u8]) -> (r: usize)
        requires
            old(self).pos + old(buf)@.len() <= old(self).data@.len(),
        ensures
            r == old(buf)@.len(),
            final(buf)@ == bytes_at(old(self).data@, old(self).pos as int, r as int),
            final(self).data@ == old(self).data@,
            final(self).pos == old(self).pos + r,
    {
        let pos = self.pos;
        let len = buf.len();
        let dlen = self.data.len();
        let mut i: usize = 0;
        while i < len
            invariant
                dlen == self.data@.len(),
                len == buf@.len(),
                len == old(buf)@.len(),
                pos == self.pos,
                pos + len <= self.data@.len(),
                i <= len,
                forall|j: int| 0 <= j < i ==> buf@[j] == self.data@[pos + j],
            decreases len - i,
        {
            buf[i] = self.data[pos + i];
            i = i + 1;
        }
        self.pos = pos + len;
        assert(buf@ =~= bytes_at(self.data@, pos as int, len as int));
        len
    }

    /// Writes `buf` at the current position, which moves past what was written.
    pub fn write(&mut self, buf: &[u8]) -> (r: usize)
        requires
            old(self).pos + buf@.len() <= old(self).data@.len(),
        ensures
            r == buf@.len(),
            final(self).data@ == written(old(self).data@, old(self).pos as int, buf@),
            final(self).pos == old(self).pos + r,
    {
        let pos = self.pos;
        let len = buf.len();
        let dlen = self.data.len();
        let mut i: usize = 0;
        while i < len
            invariant
                dlen == self.data@.len(),
                len == buf@.len(),
                pos == self.pos,
                pos + len <= self.data@.len(),
                self.data@.len() == old(self).data@.len(),
                i <= len,
                forall|j: int| 0 <= j < i ==> self.data@[pos + j] == buf@[j],
                forall|j: int|
                    0 <= j < self.data@.len() && !(pos <= j < pos + i) ==> self.data@[j] == old(
                        self,
                    ).data@[j],
            decreases len - i,
        {
            self.data.set(pos + i, buf[i]);
            i = i + 1;
        }
        self.pos = pos + len;
        assert(self.data@ =~= written(old(self).data@, pos as int, buf@));
        len
    }

    pub fn set_pos(&mut self, pos: usize)
        ensures
            final(self).pos == pos,
            final(self).data@ == old(self).data@,
    {
        self.pos = pos;
    }

    pub fn get_pos(&self) -> (r: usize)
        ensures
            r == self.pos,
    {
        self.pos
    }

    /// The size of the disk.
    pub fn max_pos(&self) -> (r: usize)
        ensures
            r == self.data@.len(),
    {
        self.data.len()
    }
}

/// Reading back where bytes were written gives those bytes, and leaves the disk's size.
pub proof fn lemma_read_after_write(data: Seq<u8>, pos: int, bytes: Seq<u8>)
    requires
        0 <= pos,
        pos + bytes.len() <= data.len(),
    ensures
        bytes_at(written(data, pos, bytes), pos, bytes.len() as int) == bytes,
        written(data, pos, bytes).len() == data.len(),
{
    assert(bytes_at(written(data, pos, bytes), pos, bytes.len() as int) =~= bytes);
}

/// Writing does not change the bytes outside what was written.
pub proof fn lemma_write_keeps_rest(data: Seq<u8>, pos: int, bytes: Seq<u8>, i: int)
    requires
        0 <= pos,
        pos + bytes.len() <= data.len(),
        0 <= i < data.len(),
        !(pos <= i < pos + bytes.len()),
    ensures
        written(data, pos, bytes)[i] == data[i],
{
}

} // verus!
