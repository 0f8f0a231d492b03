use super::file::Fat16File;
use crate::monos_kernel::fs::vfs::{File, VFSNodeType};
use super::Fat16Fs;
use crate::monos_kernel::fs::bytes::{le16, le32, read_le16, read_le32};
use vstd::prelude::*;
use crate::monos_kernel::strings::{push_char, trim_end_char, trim_trailing, utf8_str};
use vstd::utf8::{decode_utf8, encode_utf8_decode_utf8, valid_utf8};

verus! {

/// A text up to its first NUL.
pub open spec fn until_nul(s: Seq<char>) -> Seq<char>
    decreases s.len(),
{
    if s.len() == 0 || s[0] == '\0' {
        Seq::empty()
    } else {
        seq![s[0]] + until_nul(s.drop_first())
    }
}

/// The characters of a long file name field: one per two bytes, from the low byte.
pub open spec fn lfn_chars(b: Seq<u8>) -> Seq<char> {
    Seq::new(b.len() / 2, |k: int| b[2 * k] as char)
}

/// The 32 bytes of the directory entry at `offset` in `sector`.
pub open spec fn entry_base(fs: &Fat16Fs, sector: u32, offset: int) -> int {
    sector * fs.bytes_per_sector + offset
}

pub open spec fn raw_entry(fs: &Fat16Fs, base: int) -> Seq<u8> {
    fs.ramdisk.data@.subrange(base, base + 32)
}

/// The low four attribute bits all set mark a long file name entry.
pub open spec fn is_lfn(raw: Seq<u8>) -> bool {
    raw[11] & 0x0F == 0x0F
}

/// Bit 6 of the sequence number marks the last long file name entry.
pub open spec fn is_last_lfn(raw: Seq<u8>) -> bool {
    raw[0] & 0x40 != 0
}

/// The entry at `offset` can be read: it lies on the disk with the entry after it where
/// it is a long file name, a long file name fits one entry, and a short name is UTF-8.
pub open spec fn entry_ok(fs: &Fat16Fs, sector: u32, offset: int) -> bool {
    let base = entry_base(fs, sector, offset);
    &&& 0 <= offset
    &&& offset + 64 <= u32::MAX
    &&& sector * fs.bytes_per_sector <= u32::MAX
    &&& base + 32 <= u32::MAX
    &&& base + 32 <= fs.ramdisk.data@.len()
    &&& if is_lfn(raw_entry(fs, base)) {
        is_last_lfn(raw_entry(fs, base)) && base + 64 <= fs.ramdisk.data@.len()
    } else {
        valid_utf8(raw_entry(fs, base).subrange(0, 8))
    }
}

/// What the entry at `offset` holds: its name, attributes, first cluster and size, and the
/// bytes it takes; or why there is none.
pub open spec fn entry_result(fs: &Fat16Fs, sector: u32, offset: int) -> Result<
    (Seq<char>, u8, u16, u32, int),
    DirEntryError,
> {
    let base = entry_base(fs, sector, offset);
    let raw = raw_entry(fs, base);
    let (name, last, used) = if is_lfn(raw) {
        let next = raw_entry(fs, base + 32);
        (
            until_nul(
                lfn_chars(raw.subrange(1, 11)) + lfn_chars(raw.subrange(14, 26)) + lfn_chars(
                    raw.subrange(28, 32),
                ) + lfn_chars(next.subrange(0, 8)),
            ),
            next,
            64int,
        )
    } else {
        (trim_trailing(decode_utf8(raw.subrange(0, 8)), '\0'), raw, 32int)
    };
    if last[0] == 0x00 {
        Err(DirEntryError::NoMoreEntries)
    } else if last[0] == 0xE5 {
        Err(DirEntryError::FreeEntry)
    } else {
        Ok((name, last[11], le16(last, 26) as u16, le32(last, 28) as u32, used))
    }
}

/// Why a directory entry gives no file.
#[derive(Debug, Clone, Copy, PartialEq, Eq, Structural)]
pub enum DirEntryError {
    NoMoreEntries,
    FreeEntry,
}

/// A file or directory found in a directory.
pub struct Fat16DirEntry<'fs> {
    pub name: String,
    pub attributes: u8,
    pub first_cluster: u16,
    pub size: u32,
    pub fs: &'fs Fat16Fs,
}

/// Appends the characters of a long file name field of `len` bytes at `start`.
fn push_lfn_chars(name: &mut Vec<char>, d: &[u8], start: usize, len: usize)
    requires
        start + len <= d@.len(),
    ensures
        final(name)@ == old(name)@ + lfn_chars(d@.subrange(start as int, start + len)),
{
    let ghost b = d@.subrange(start as int, start + len);
    let dl = d.len();
    let mut k: usize = 0;
    while k < len / 2
        invariant
            dl == d@.len(),
            start + len <= d@.len(),
            b == d@.subrange(start as int, start + len),
            k <= len / 2,
            name@ == old(name)@ + lfn_chars(b).take(k as int),
        decreases len / 2 - k,
    {
        let c = d[start + 2 * k] as char;
        name.push(c);
        proof {
            assert(lfn_chars(b).take(k + 1) =~= lfn_chars(b).take(k as int).push(c));
        }
        k = k + 1;
    }
    proof {
        assert(lfn_chars(b).take(k as int) =~= lfn_chars(b));
    }
}

proof fn lemma_until_nul_prefix(s: Seq<char>, k: int)
    requires
        0 <= k <= s.len(),
        forall|j: int| 0 <= j < k ==> s[j] != '\0',
    ensures
        until_nul(s) == s.take(k) + until_nul(s.skip(k)),
    decreases k,
{
    if k > 0 {
        lemma_until_nul_prefix(s.drop_first(), k - 1);
        assert(s.drop_first().take(k - 1) =~= s.take(k).drop_first());
        assert(s.drop_first().skip(k - 1) =~= s.skip(k));
        assert(s.take(k) =~= seq![s[0]] + s.take(k).drop_first());
    } else {
        assert(s.skip(0) =~= s);
        assert(s.take(0) + until_nul(s) =~= until_nul(s));
    }
}

/// The characters up to the first NUL, as a string.
fn string_until_nul(chars: &Vec<char>) -> (r: String)
    ensures
        r@ == until_nul(chars@),
{
    let mut s = String::new();
    let mut i: usize = 0;
    while i < chars.len()
        invariant
            i <= chars@.len(),
            forall|j: int| 0 <= j < i ==> chars@[j] != '\0',
            s@ == chars@.take(i as int),
        decreases chars@.len() - i,
    {
        if chars[i] == '\0' {
            proof {
                lemma_until_nul_prefix(chars@, i as int);
                assert(until_nul(chars@.skip(i as int)) =~= Seq::<char>::empty());
                assert(chars@.take(i as int) + Seq::<char>::empty() =~= chars@.take(i as int));
            }
            return s;
        }
        push_char(&mut s, chars[i]);
        proof {
            assert(chars@.take(i + 1) =~= chars@.take(i as int).push(chars@[i as int]));
        }
        i = i + 1;
    }
    proof {
        lemma_until_nul_prefix(chars@, i as int);
        assert(chars@.skip(i as int) =~= Seq::<char>::empty());
        assert(chars@.take(i as int) + Seq::<char>::empty() =~= chars@.take(i as int));
    }
    s
}

impl<'fs> Fat16DirEntry<'fs> {
    /// The first sector of the entry's data.
    pub fn first_sector(&self) -> (r: u32)
        requires
            self.first_cluster >= 2,
            self.fs.first_data_sector + (self.first_cluster - 2) * self.fs.sectors_per_cluster
                <= u32::MAX,
        ensures
            r == self.fs.first_data_sector + (self.first_cluster - 2)
                * self.fs.sectors_per_cluster,
    {
        self.fs.first_data_sector + (self.first_cluster as u32 - 2)
            * self.fs.sectors_per_cluster as u32
    }

    /// Reads the directory entry at `offset` in `sector`, with the long file name entry
    /// before it if it has one; gives the entry and the bytes it took.
    pub fn new(fs: &'fs Fat16Fs, sector: u32, offset: u32) -> (r: Result<
        (Fat16DirEntry<'fs>, usize),
        DirEntryError,
    >)
        requires
            entry_ok(fs, sector, offset as int),
        ensures
            match entry_result(fs, sector, offset as int) {
                Ok((name, attributes, first_cluster, size, used)) => r matches Ok((e, n)) && e.name@
                    == name && e.attributes == attributes && e.first_cluster == first_cluster
                    && e.size == size && e.fs == fs && n == used,
                Err(err) => r == Err::<(Fat16DirEntry<'fs>, usize), DirEntryError>(err),
            },
    {
        let d = fs.ramdisk.data.as_slice();
        let base = (fs.sector_offset(sector) + offset) as usize;
        let ghost raw = raw_entry(fs, base as int);
        let attributes = d[base + 11];
        assert(raw[11] == attributes);
        if attributes & 0x0F == 0x0F {
            let mut name: Vec<char> = Vec::new();
            push_lfn_chars(&mut name, d, base + 1, 10);
            push_lfn_chars(&mut name, d, base + 14, 12);
            push_lfn_chars(&mut name, d, base + 28, 4);
            let last = base + 32;
            push_lfn_chars(&mut name, d, last, 8);
            proof {
                assert(d@.subrange(base + 1, base + 11) =~= raw.subrange(1, 11));
                assert(d@.subrange(base + 14, base + 26) =~= raw.subrange(14, 26));
                assert(d@.subrange(base + 28, base + 32) =~= raw.subrange(28, 32));
                assert(d@.subrange(last as int, last + 8) =~= raw_entry(fs, last as int).subrange(
                    0,
                    8,
                ));
            }
            let name = string_until_nul(&name);
            proof {
                let next = raw_entry(fs, last as int);
                assert(next[0] == d@[last as int]);
                assert(next[11] == d@[last + 11]);
                assert(le16(next, 26) == le16(d@, last + 26));
                assert(le32(next, 28) == le32(d@, last + 28));
            }
            match Self::finalize(fs, name, d, last) {
                Ok(entry) => Ok((entry, 64)),
                Err(e) => Err(e),
            }
        } else {
            let bytes = &d[base..base + 8];
            proof {
                assert(bytes@ =~= raw.subrange(0, 8));
            }
            let text = utf8_str(bytes).unwrap();
            proof {
                encode_utf8_decode_utf8(text@);
            }
            let trimmed = trim_end_char(text, '\0');
            let name = String::from_str(trimmed);
            proof {
                assert(raw[0] == d@[base as int]);
                assert(raw[11] == d@[base + 11]);
                assert(le16(raw, 26) == le16(d@, base + 26));
                assert(le32(raw, 28) == le32(d@, base + 28));
            }
            match Self::finalize(fs, name, d, base) {
                Ok(entry) => Ok((entry, 32)),
                Err(e) => Err(e),
            }
        }
    }

    /// The entry whose last raw entry starts at `pos`, under `name`; none if the raw entry
    /// marks the end of the directory or a free slot.
    fn finalize(fs: &'fs Fat16Fs, name: String, d: &[u8], pos: usize) -> (r: Result<
        Fat16DirEntry<'fs>,
        DirEntryError,
    >)
        requires
            pos + 32 <= d@.len(),
        ensures
            d@[pos as int] == 0x00 ==> r == Err::<Fat16DirEntry<'fs>, DirEntryError>(
                DirEntryError::NoMoreEntries,
            ),
            d@[pos as int] == 0xE5 ==> r == Err::<Fat16DirEntry<'fs>, DirEntryError>(
                DirEntryError::FreeEntry,
            ),
            d@[pos as int] != 0x00 && d@[pos as int] != 0xE5 ==> (r matches Ok(e) && e.name@
                == name@ && e.attributes == d@[pos + 11] && e.first_cluster == le16(
                d@,
                pos + 26,
            ) && e.size == le32(d@, pos + 28) && e.fs == fs),
    {
        if d[pos] == 0x00 {
            return Err(DirEntryError::NoMoreEntries);
        }
        if d[pos] == 0xE5 {
            return Err(DirEntryError::FreeEntry);
        }
        let first_cluster = read_le16(d, pos + 26);
        let size = read_le32(d, pos + 28);
        let attributes = d[pos + 11];
        Ok(Fat16DirEntry { name, attributes, first_cluster, size, fs })
    }

    /// Bit 4 of the attributes marks a directory.
    pub fn is_dir(&self) -> (r: bool)
        ensures
            r == (self.attributes & 0x10 != 0),
    {
        self.attributes & 0x10 != 0
    }

    /// The node a listing makes of the entry: a directory, or a file of its size.
    pub fn node_type(&self) -> (r: VFSNodeType)
        ensures
            self.attributes & 0x10 != 0 ==> r == VFSNodeType::Directory,
            self.attributes & 0x10 == 0 ==> r == (VFSNodeType::File { size: self.size as usize }),
    {
        if self.is_dir() {
            VFSNodeType::Directory
        } else {
            VFSNodeType::File { size: self.size as usize }
        }
    }

    /// The entries of a directory.
    pub fn iter(&self) -> (r: Option<Fat16DirIter<'fs>>)
        requires
            self.attributes & 0x10 != 0 ==> self.first_cluster >= 2
                && self.fs.first_data_sector + (self.first_cluster - 2)
                * self.fs.sectors_per_cluster <= u32::MAX,
        ensures
            self.attributes & 0x10 == 0 ==> r is None,
            self.attributes & 0x10 != 0 ==> (r matches Some(it) && it.fs == self.fs && it.sector
                == self.fs.first_data_sector + (self.first_cluster - 2)
                * self.fs.sectors_per_cluster && it.offset == 0),
    {
        if !self.is_dir() {
            return None;
        }
        Some(Fat16DirIter { fs: self.fs, sector: self.first_sector(), offset: 0 })
    }

    /// The file an entry that is not a directory stands for, opened.
    pub fn as_file(&self) -> (r: Option<File>)
        ensures
            self.attributes & 0x10 != 0 ==> r is None,
            self.attributes & 0x10 == 0 ==> (r matches Some(f) && f.name@ == self.name@ && f.size
                == self.size && f.pos == 0 && f.data.first_cluster == self.first_cluster
                && f.data.current_cluster.spec_load() is None),
    {
        if self.is_dir() {
            return None;
        }
        Some(Fat16File::new(self.name.clone(), self.size, self.first_cluster))
    }
}

/// A walk through a directory's entries, from `offset` in `sector`.
pub struct Fat16DirIter<'fs> {
    pub fs: &'fs Fat16Fs,
    pub sector: u32,
    pub offset: u32,
}

/// The walk from `offset` reads only readable entries: free ones are skipped until an
/// entry or the end of the directory.
pub open spec fn dir_walk_ok(fs: &Fat16Fs, sector: u32, offset: int) -> bool
    decreases fs.ramdisk.data@.len() - entry_base(fs, sector, offset),
{
    if entry_ok(fs, sector, offset) {
        match entry_result(fs, sector, offset) {
            Err(DirEntryError::FreeEntry) => dir_walk_ok(fs, sector, offset + 32),
            _ => true,
        }
    } else {
        false
    }
}

/// Where the walk from `offset` stops: the offset of the entry it gives (or of the end).
pub open spec fn dir_walk_stop(fs: &Fat16Fs, sector: u32, offset: int) -> int
    decreases fs.ramdisk.data@.len() - entry_base(fs, sector, offset),
{
    if entry_ok(fs, sector, offset) {
        match entry_result(fs, sector, offset) {
            Err(DirEntryError::FreeEntry) => dir_walk_stop(fs, sector, offset + 32),
            _ => offset,
        }
    } else {
        offset
    }
}

impl<'fs> Fat16DirIter<'fs> {
    pub fn new(fs: &'fs Fat16Fs, sector: u32) -> (r: Fat16DirIter<'fs>)
        ensures
            r.fs == fs,
            r.sector == sector,
            r.offset == 0,
    {
        Fat16DirIter { fs, sector, offset: 0 }
    }

    /// The next entry of the directory, skipping free slots; none at its end.
    pub fn next(&mut self) -> (r: Option<Fat16DirEntry<'fs>>)
        requires
            dir_walk_ok(old(self).fs, old(self).sector, old(self).offset as int),
        ensures
            final(self).fs == old(self).fs,
            final(self).sector == old(self).sector,
            ({
                let stop = dir_walk_stop(old(self).fs, old(self).sector, old(self).offset as int);
                match entry_result(old(self).fs, old(self).sector, stop) {
                    Ok((name, attributes, first_cluster, size, used)) => r matches Some(e)
                        && e.name@ == name && e.attributes == attributes && e.first_cluster
                        == first_cluster && e.size == size && e.fs == old(self).fs
                        && final(self).offset == stop + used,
                    _ => r is None && final(self).offset == stop,
                }
            }),
        decreases old(self).fs.ramdisk.data@.len() - entry_base(
            old(self).fs,
            old(self).sector,
            old(self).offset as int,
        ),
    {
        let entry = Fat16DirEntry::new(self.fs, self.sector, self.offset);
        match entry {
            Ok((entry, bytes_read)) => {
                self.offset = self.offset + bytes_read as u32;
                Some(entry)
            },
            Err(DirEntryError::NoMoreEntries) => None,
            Err(DirEntryError::FreeEntry) => {
                self.offset = self.offset + 32;
                self.next()
            },
        }
    }
}

impl Fat16Fs {
    /// The entries of the root directory.
    pub fn iter_root_dir(&self) -> (r: Fat16DirIter<'_>)
        ensures
            r.fs == self,
            r.sector == self.first_root_sector,
            r.offset == 0,
    {
        Fat16DirIter::new(self, self.first_root_sector)
    }
}


/// A read gives a free entry.
pub open spec fn is_free(r: Result<(Seq<char>, u8, u16, u32, int), DirEntryError>) -> bool {
    r matches Err(DirEntryError::FreeEntry)
}

/// A walk that can be made stops at or after where it starts, at a readable entry that is
/// not free.
pub proof fn lemma_walk_stop(fs: &Fat16Fs, sector: u32, offset: int)
    requires
        dir_walk_ok(fs, sector, offset),
    ensures
        offset <= dir_walk_stop(fs, sector, offset),
        entry_ok(fs, sector, dir_walk_stop(fs, sector, offset)),
        !is_free(entry_result(fs, sector, dir_walk_stop(fs, sector, offset))),
    decreases fs.ramdisk.data@.len() - entry_base(fs, sector, offset),
{
    if entry_ok(fs, sector, offset) {
        if is_free(entry_result(fs, sector, offset)) {
            lemma_walk_stop(fs, sector, offset + 32);
        }
    }
}

/// What an entry that was read takes on the disk ends inside the disk.
pub proof fn lemma_entry_used(fs: &Fat16Fs, sector: u32, offset: int)
    requires
        entry_ok(fs, sector, offset),
        entry_result(fs, sector, offset) is Ok,
    ensures
        entry_base(fs, sector, offset) + entry_result(fs, sector, offset)->Ok_0.4 <= fs.ramdisk.data@.len(),
        entry_result(fs, sector, offset)->Ok_0.4 >= 32,
        offset + entry_result(fs, sector, offset)->Ok_0.4 <= u32::MAX,
{
}

/// The entries a walk through a directory from `offset` gives, in order: the name,
/// attributes, first cluster and size of each.
pub open spec fn dir_listing(fs: &Fat16Fs, sector: u32, offset: int) -> Seq<(Seq<char>, u8, u16, u32)>
    decreases fs.ramdisk.data@.len() - entry_base(fs, sector, offset),
{
    if dir_walk_ok(fs, sector, offset) {
        let stop = dir_walk_stop(fs, sector, offset);
        proof {
            lemma_walk_stop(fs, sector, offset);
        }
        match entry_result(fs, sector, stop) {
            Ok((name, attributes, first_cluster, size, used)) => {
                proof {
                    lemma_entry_used(fs, sector, stop);
                }
                seq![(name, attributes, first_cluster, size)] + dir_listing(fs, sector, stop + used)
            },
            _ => seq![],
        }
    } else {
        seq![]
    }
}

/// The whole walk through a directory from `offset` can be made.
pub open spec fn dir_list_ok(fs: &Fat16Fs, sector: u32, offset: int) -> bool
    decreases fs.ramdisk.data@.len() - entry_base(fs, sector, offset),
{
    if dir_walk_ok(fs, sector, offset) {
        let stop = dir_walk_stop(fs, sector, offset);
        proof {
            lemma_walk_stop(fs, sector, offset);
        }
        match entry_result(fs, sector, stop) {
            Ok((_, _, _, _, used)) => {
                proof {
                    lemma_entry_used(fs, sector, stop);
                }
                dir_list_ok(fs, sector, stop + used)
            },
            _ => true,
        }
    } else {
        false
    }
}

/// An entry as the values it holds.
pub open spec fn entry_view<'fs>(e: Fat16DirEntry<'fs>) -> (Seq<char>, u8, u16, u32) {
    (e.name@, e.attributes, e.first_cluster, e.size)
}

impl<'fs> Fat16DirIter<'fs> {
    /// The entries left in the directory, in order.
    pub fn collect_entries(&mut self) -> (r: Vec<Fat16DirEntry<'fs>>)
        requires
            dir_list_ok(old(self).fs, old(self).sector, old(self).offset as int),
        ensures
            r@.map_values(|e: Fat16DirEntry<'fs>| entry_view(e)) == dir_listing(
                old(self).fs,
                old(self).sector,
                old(self).offset as int,
            ),
            forall|i: int| 0 <= i < r@.len() ==> (#[trigger] r@[i]).fs == old(self).fs,
    {
        let ghost fs = self.fs;
        let ghost sector = self.sector;
        let ghost start = self.offset as int;
        let mut out: Vec<Fat16DirEntry<'fs>> = Vec::new();
        loop
            invariant
                self.fs == fs,
                self.sector == sector,
                dir_list_ok(fs, sector, self.offset as int),
                out@.map_values(|e: Fat16DirEntry<'fs>| entry_view(e)) + dir_listing(
                    fs,
                    sector,
                    self.offset as int,
                ) == dir_listing(fs, sector, start),
                forall|i: int| 0 <= i < out@.len() ==> (#[trigger] out@[i]).fs == fs,
            ensures
                out@.map_values(|e: Fat16DirEntry<'fs>| entry_view(e)) == dir_listing(fs, sector, start),
                forall|i: int| 0 <= i < out@.len() ==> (#[trigger] out@[i]).fs == fs,
            decreases fs.ramdisk.data@.len() - entry_base(fs, sector, self.offset as int),
        {
            let ghost off = self.offset as int;
            proof {
                lemma_walk_stop(fs, sector, off);
                assert(dir_walk_ok(fs, sector, off));
            }
            match self.next() {
                Some(e) => {
                    proof {
                        let stop = dir_walk_stop(fs, sector, off);
                        lemma_entry_used(fs, sector, stop);
                        let before = out@.map_values(|x: Fat16DirEntry<'fs>| entry_view(x));
                        assert(dir_listing(fs, sector, off) == seq![entry_view(e)] + dir_listing(
                            fs,
                            sector,
                            self.offset as int,
                        ));
                        assert(out@.push(e).map_values(|x: Fat16DirEntry<'fs>| entry_view(x)) =~= before.push(
                            entry_view(e),
                        ));
                        assert(before.push(entry_view(e)) + dir_listing(fs, sector, self.offset as int)
                            =~= before + (seq![entry_view(e)] + dir_listing(fs, sector, self.offset as int)));
                    }
                    out.push(e);
                },
                None => {
                    proof {
                        let before = out@.map_values(|x: Fat16DirEntry<'fs>| entry_view(x));
                        assert(dir_listing(fs, sector, off) =~= Seq::<(Seq<char>, u8, u16, u32)>::empty());
                        assert(before + dir_listing(fs, sector, off) =~= before);
                    }
                    break;
                },
            }
        }
        out
    }
}

/// Where the low byte of character `i` of a long file name entry's name fields stands:
/// five characters from byte 1, six from byte 14, two from byte 28, two bytes each.
pub open spec fn lfn_name_offset(i: int) -> int {
    if i < 5 {
        1 + 2 * i
    } else if i < 11 {
        14 + 2 * (i - 5)
    } else {
        28 + 2 * (i - 11)
    }
}

/// A long file name written into a long file name entry reads back: if its characters
/// stand in the entry's name fields in order, followed by a NUL when it is shorter than
/// the thirteen the fields hold, the entry's name is exactly those characters (a name of
/// thirteen goes on into the entry after it, so it is only the start of the name).
pub proof fn lemma_lfn_name(fs: &Fat16Fs, sector: u32, offset: int, w: Seq<char>)
    requires
        entry_ok(fs, sector, offset),
        is_lfn(raw_entry(fs, entry_base(fs, sector, offset))),
        w.len() <= 13,
        forall|i: int| 0 <= i < w.len() ==> w[i] != '\0' && #[trigger] w[i] == raw_entry(
            fs,
            entry_base(fs, sector, offset),
        )[lfn_name_offset(i)] as char,
        w.len() < 13 ==> raw_entry(fs, entry_base(fs, sector, offset))[lfn_name_offset(
            w.len() as int,
        )] == 0,
    ensures
        entry_result(fs, sector, offset) matches Ok((name, _, _, _, _)) ==> {
            &&& name.len() >= w.len()
            &&& name.take(w.len() as int) == w
            &&& (w.len() < 13 ==> name == w)
        },
{
    let base = entry_base(fs, sector, offset);
    let raw = raw_entry(fs, base);
    let next = raw_entry(fs, base + 32);
    let a = lfn_chars(raw.subrange(1, 11));
    let b = lfn_chars(raw.subrange(14, 26));
    let c = lfn_chars(raw.subrange(28, 32));
    let d = lfn_chars(next.subrange(0, 8));
    let all = a + b + c + d;
    assert forall|i: int| 0 <= i < 13 implies #[trigger] all[i] == raw[lfn_name_offset(i)] as char by {
        if i < 5 {
            assert(all[i] == a[i]);
        } else if i < 11 {
            assert(all[i] == b[i - 5]);
        } else {
            assert(all[i] == c[i - 11]);
        }
    }
    let n = w.len() as int;
    assert(all.take(n) =~= w);
    assert forall|j: int| 0 <= j < n implies all[j] != '\0' by {
        assert(all[j] == w[j]);
    }
    lemma_until_nul_prefix(all, n);
    if n < 13 {
        assert(all.skip(n)[0] == all[n]);
        assert(until_nul(all.skip(n)) =~= Seq::<char>::empty());
        assert(all.take(n) + Seq::<char>::empty() =~= all.take(n));
    }
    assert((all.take(n) + until_nul(all.skip(n))).take(n) =~= all.take(n));
}

/// The fields of an entry come from the entry that ends it (the one after a long file
/// name entry, else the entry itself): its first byte tells a free slot (0xE5) and the
/// end of the directory (0), its byte 11 holds the attributes, bytes 26..28 the first
/// cluster and bytes 28..32 the size, both little-endian; a long name takes two entries.
pub proof fn lemma_entry_fields(fs: &Fat16Fs, sector: u32, offset: int)
    requires
        entry_ok(fs, sector, offset),
    ensures
        ({
            let base = entry_base(fs, sector, offset);
            let lfn = is_lfn(raw_entry(fs, base));
            let d = fs.ramdisk.data@;
            let last = if lfn { base + 32 } else { base };
            &&& d[last] == 0 ==> entry_result(fs, sector, offset) == Err::<(Seq<char>, u8, u16, u32, int), DirEntryError>(DirEntryError::NoMoreEntries)
            &&& d[last] == 0xE5 ==> entry_result(fs, sector, offset) == Err::<(Seq<char>, u8, u16, u32, int), DirEntryError>(DirEntryError::FreeEntry)
            &&& d[last] != 0 && d[last] != 0xE5 ==> (entry_result(fs, sector, offset) matches Ok(
                (_, attributes, first_cluster, size, used),
            ) && attributes == d[last + 11] && first_cluster == d[last + 26] + 256 * d[last + 27]
                && size == d[last + 28] + 256 * d[last + 29] + 65536 * d[last + 30] + 16777216 * d[
                last + 31] && used == if lfn { 64int } else { 32int })
        }),
{
    let base = entry_base(fs, sector, offset);
    let lfn = is_lfn(raw_entry(fs, base));
    let last = if lfn { base + 32 } else { base };
    let raw = raw_entry(fs, last);
    let d = fs.ramdisk.data@;
    assert(raw[0] == d[last]);
    assert(raw[11] == d[last + 11]);
    assert(raw[26] == d[last + 26] && raw[27] == d[last + 27]);
    assert(raw[28] == d[last + 28] && raw[29] == d[last + 29]);
    assert(raw[30] == d[last + 30] && raw[31] == d[last + 31]);
}

/// A short name written in ASCII and padded with NULs reads back: if the entry's first
/// `k` name bytes are ASCII characters other than NUL and the rest of its eight are NUL,
/// the entry's name is those `k` characters.
pub proof fn lemma_short_name(fs: &Fat16Fs, sector: u32, offset: int, k: int)
    requires
        entry_ok(fs, sector, offset),
        !is_lfn(raw_entry(fs, entry_base(fs, sector, offset))),
        0 <= k <= 8,
        forall|i: int| 0 <= i < k ==> 0 < #[trigger] raw_entry(fs, entry_base(fs, sector, offset))[i] < 0x80,
        forall|i: int| k <= i < 8 ==> #[trigger] raw_entry(fs, entry_base(fs, sector, offset))[i] == 0,
    ensures
        entry_result(fs, sector, offset) matches Ok((name, _, _, _, _)) ==> name == Seq::new(
            k as nat,
            |i: int| raw_entry(fs, entry_base(fs, sector, offset))[i] as char,
        ),
{
    let raw = raw_entry(fs, entry_base(fs, sector, offset));
    let bytes = raw.subrange(0, 8);
    let chars = Seq::new(8, |i: int| raw[i] as char);
    assert(vstd::utf8::is_ascii_chars(chars)) by {
        assert forall|i: int| 0 <= i < chars.len() implies '\0' <= #[trigger] chars[i] <= '\u{7f}' by {
            assert(raw[i] < 0x80);
        }
    }
    vstd::utf8::is_ascii_chars_encode_utf8(chars);
    assert forall|i: int| 0 <= i < 8 implies #[trigger] vstd::utf8::encode_utf8(chars)[i] == bytes[i] by {
        assert(chars[i] as u8 == vstd::utf8::encode_utf8(chars)[i]);
        assert(raw[i] < 0x80 || raw[i] == 0);
    }
    assert(vstd::utf8::encode_utf8(chars) =~= bytes);
    encode_utf8_decode_utf8(chars);
    lemma_trim_nul_padding(chars, k);
}

proof fn lemma_trim_nul_padding(s: Seq<char>, k: int)
    requires
        0 <= k <= s.len(),
        forall|i: int| 0 <= i < k ==> s[i] != '\0',
        forall|i: int| k <= i < s.len() ==> s[i] == '\0',
    ensures
        trim_trailing(s, '\0') == s.take(k),
    decreases s.len(),
{
    if s.len() > k {
        assert forall|i: int| k <= i < s.drop_last().len() implies s.drop_last()[i] == '\0' by {
            assert(s.drop_last()[i] == s[i]);
        }
        lemma_trim_nul_padding(s.drop_last(), k);
        assert(s.drop_last().take(k) =~= s.take(k));
    } else {
        assert(s.take(k) =~= s);
        if k > 0 {
            assert(s.last() == s[k - 1]);
        }
    }
}

/// Listing a directory skips free slots, ends at the end mark and lists every other
/// entry in order: at a readable short entry, a first byte of 0xE5 gives what the entries
/// after it give, a first byte of 0 gives nothing, and any other first byte gives the
/// entry followed by what the entries after it give.
pub proof fn lemma_listing_steps(fs: &Fat16Fs, sector: u32, offset: int)
    requires
        entry_ok(fs, sector, offset),
        !is_lfn(raw_entry(fs, entry_base(fs, sector, offset))),
    ensures
        ({
            let first = fs.ramdisk.data@[entry_base(fs, sector, offset)];
            &&& first == 0 ==> dir_listing(fs, sector, offset) == Seq::<(Seq<char>, u8, u16, u32)>::empty()
            &&& first == 0xE5 ==> dir_listing(fs, sector, offset) == dir_listing(fs, sector, offset + 32)
            &&& (first != 0 && first != 0xE5) ==> (entry_result(fs, sector, offset) matches Ok(
                (name, attributes, first_cluster, size, _),
            ) && dir_listing(fs, sector, offset) == seq![(name, attributes, first_cluster, size)]
                + dir_listing(fs, sector, offset + 32))
        }),
{
    let base = entry_base(fs, sector, offset);
    assert(raw_entry(fs, base)[0] == fs.ramdisk.data@[base]);
    if fs.ramdisk.data@[base] == 0xE5 {
        if dir_walk_ok(fs, sector, offset + 32) {
            assert(dir_walk_stop(fs, sector, offset) == dir_walk_stop(fs, sector, offset + 32));
        }
    }
}

} // verus!
