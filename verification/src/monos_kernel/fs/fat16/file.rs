use super::allocation_table::{classify, lookup_allocation, AllocationType};
use super::Fat16Fs;
use crate::monos_kernel::fs::ramdisk::bytes_at;
use crate::monos_kernel::fs::vfs::File;
use vstd::prelude::*;

verus! {

/// The cluster a file was last read from, kept as an `i32` where -1 stands for none.
#[derive(Debug, Clone, Copy, PartialEq, Eq, Structural)]
pub struct AtomicCurrentCluster(pub i32);

impl AtomicCurrentCluster {
    /// The cluster the value stands for.
    pub open spec fn spec_load(self) -> Option<u16> {
        if self.0 < 0 {
            None
        } else {
            Some(self.0 as u16)
        }
    }

    pub fn new(val: Option<i16>) -> (r: AtomicCurrentCluster)
        ensures
            r.0 == match val {
                Some(v) => v as i32,
                None => -1i32,
            },
    {
        match val {
            Some(v) => AtomicCurrentCluster(v as i32),
            None => AtomicCurrentCluster(-1),
        }
    }

    pub fn load(&self) -> (r: Option<u16>)
        ensures
            r == self.spec_load(),
    {
        if self.0 < 0 {
            None
        } else {
            Some(self.0 as u16)
        }
    }

    pub fn store(&mut self, val: Option<u16>)
        ensures
            final(self).0 == match val {
                Some(v) => v as i32,
                None => -1i32,
            },
    {
        self.0 = match val {
            Some(v) => v as i32,
            None => -1,
        };
    }
}

/// Loading gives back what was stored.
pub proof fn lemma_store_load(val: Option<u16>)
    ensures
        AtomicCurrentCluster(
            match val {
                Some(v) => v as i32,
                None => -1i32,
            },
        ).spec_load() == val,
{
}

/// Where a FAT16 file's data starts and the cluster it was last read from.
#[derive(Debug, Clone, Copy)]
pub struct Fat16File {
    pub first_cluster: u16,
    pub current_cluster: AtomicCurrentCluster,
}

impl Fat16Fs {
    /// The size of a cluster in bytes.
    pub open spec fn spec_cluster_size(&self) -> int {
        self.bytes_per_sector * self.sectors_per_cluster
    }

    /// The clusters that `bytes` bytes reach into, rounding up.
    pub open spec fn spec_clusters_from_bytes(&self, bytes: int) -> int {
        bytes / self.spec_cluster_size() + if bytes % self.spec_cluster_size() != 0 {
            1int
        } else {
            0int
        }
    }

    pub fn clusters_from_bytes(&self, bytes: u32) -> (r: u32)
        requires
            0 < self.spec_cluster_size() <= u32::MAX,
        ensures
            r == self.spec_clusters_from_bytes(bytes as int),
    {
        let cs = self.cluster_size();
        let whole = bytes / cs;
        assert(whole <= bytes) by (nonlinear_arith)
            requires
                whole == bytes / cs,
                cs >= 1,
        ;
        if bytes % cs != 0 {
            assert(whole < u32::MAX) by (nonlinear_arith)
                requires
                    whole == bytes / cs,
                    cs >= 1,
                    bytes % cs != 0,
                    bytes <= u32::MAX,
            ;
            whole + 1
        } else {
            whole
        }
    }

    pub fn bytes_from_clusters(&self, clusters: u32) -> (r: u32)
        requires
            0 < self.spec_cluster_size() <= u32::MAX,
            clusters * self.spec_cluster_size() <= u32::MAX,
        ensures
            r == clusters * self.spec_cluster_size(),
    {
        clusters * self.cluster_size()
    }
}

/// The cluster a read at the file's position reads from: the first cluster before any
/// read, the next one in the chain once the last read ended on a cluster boundary, else
/// the current one. `None` where the chain ends.
pub open spec fn read_cluster(fs: &Fat16Fs, file: &File) -> Option<u16> {
    match file.data.current_cluster.spec_load() {
        None => Some(file.data.first_cluster),
        Some(c) => if (file.pos as int) % fs.spec_cluster_size() == 0 {
            match classify(fs.fat_entry(c)) {
                AllocationType::Next(n) => Some(n),
                _ => None,
            }
        } else {
            Some(c)
        },
    }
}

/// Where a read of `buf_len` bytes leaves the file: past the bytes read and remembering
/// the cluster it read from, or where it was if it read nothing.
pub open spec fn read_state(fs: &Fat16Fs, file: &File, buf_len: int) -> (int, Option<u16>) {
    match read_cluster(fs, file) {
        Some(c) => if read_len(fs, file, buf_len) > 0 {
            (file.pos + read_len(fs, file, buf_len), Some(c))
        } else {
            (file.pos as int, file.data.current_cluster.spec_load())
        },
        None => (file.pos as int, file.data.current_cluster.spec_load()),
    }
}

/// Where on the disk a read from cluster `c` starts: the cluster's start plus the
/// position's offset inside its cluster.
pub open spec fn read_start(fs: &Fat16Fs, c: u16, file: &File) -> int {
    fs.spec_cluster_offset(c as int) + (file.pos as int) % fs.spec_cluster_size()
}

/// How many bytes a read of `buf_len` bytes gets: no more than what is left of the
/// cluster and of the file.
pub open spec fn read_len(fs: &Fat16Fs, file: &File, buf_len: int) -> int {
    let cs = fs.spec_cluster_size();
    let in_cluster = cs - (file.pos as int) % cs;
    let in_file = file.size - file.pos;
    let a = if buf_len < in_cluster {
        buf_len
    } else {
        in_cluster
    };
    if a < in_file {
        a
    } else {
        in_file
    }
}

/// A read can be done without running off the disk or overflowing.
pub open spec fn read_ok(fs: &Fat16Fs, file: &File, buf_len: int) -> bool {
    &&& 0 < fs.spec_cluster_size() <= u32::MAX
    &&& file.pos <= file.size
    &&& match file.data.current_cluster.spec_load() {
        Some(c) => (file.pos as int) % fs.spec_cluster_size() == 0 ==> fs.fat_entry_ok(c),
        None => true,
    }
    &&& match read_cluster(fs, file) {
        Some(c) => read_len(fs, file, buf_len) > 0 ==> {
            &&& fs.first_data_sector + c * fs.sectors_per_cluster <= u32::MAX
            &&& fs.spec_cluster_offset(c as int) <= u32::MAX
            &&& fs.spec_cluster_offset(c as int) + (file.pos as int) % fs.spec_cluster_size() + read_len(
                fs,
                file,
                buf_len,
            ) <= fs.ramdisk.data@.len()
        },
        None => true,
    }
}

/// The steps of a seek through the cluster chain: from `cluster`, at step `c` of those up
/// to `end`, it follows the chain; at the end of the file it stops and the position
/// becomes the bytes of `c + 1` clusters. The cluster reached and the position.
pub open spec fn seek_walk(fs: &Fat16Fs, cluster: u16, c: int, end: int, pos: int) -> (u16, int)
    decreases end - c,
{
    if c >= end {
        (cluster, pos)
    } else {
        match classify(fs.fat_entry(cluster)) {
            AllocationType::Next(n) => seek_walk(fs, n, c + 1, end, pos),
            _ => (cluster, (c + 1) * fs.spec_cluster_size()),
        }
    }
}

/// The chain can be followed: each entry read is readable and is a next cluster or the
/// end of the file (anything else means the file system is corrupt).
pub open spec fn seek_walk_ok(fs: &Fat16Fs, cluster: u16, c: int, end: int) -> bool
    decreases end - c,
{
    c >= end || {
        &&& fs.fat_entry_ok(cluster)
        &&& match classify(fs.fat_entry(cluster)) {
            AllocationType::Next(n) => seek_walk_ok(fs, n, c + 1, end),
            AllocationType::EndOfFile => (c + 1) * fs.spec_cluster_size() <= u32::MAX,
            _ => false,
        }
    }
}

/// The position a seek to `pos` asks for, kept inside the file.
pub open spec fn seek_target(file: &File, pos: int) -> int {
    if pos > file.size {
        file.size as int
    } else {
        pos
    }
}

/// A seek needs a walk through the chain: the target is neither the current position,
/// nor the start, nor in the cluster of the current position.
pub open spec fn seek_walks(fs: &Fat16Fs, file: &File, pos: int) -> bool {
    let target = seek_target(file, pos);
    target != file.pos && target != 0 && fs.spec_clusters_from_bytes(target)
        != fs.spec_clusters_from_bytes(file.pos as int)
}

/// Where a seek leaves the file: its position and the cluster it remembers. Nothing
/// changes for the current position; the start forgets the cluster; a target in the
/// cluster of the current position keeps it; otherwise the chain is walked to the
/// target's cluster (stopping at the chain's end).
pub open spec fn seek_outcome(fs: &Fat16Fs, file: &File, pos: int) -> (int, Option<u16>) {
    let target = seek_target(file, pos);
    if target == file.pos {
        (file.pos as int, file.data.current_cluster.spec_load())
    } else if target == 0 {
        (0, None)
    } else if !seek_walks(fs, file, pos) {
        (target, file.data.current_cluster.spec_load())
    } else {
        let w = seek_walk(
            fs,
            file.data.first_cluster,
            file.data.first_cluster as int,
            seek_end(fs, file, pos),
            target,
        );
        (w.1, Some(w.0))
    }
}

/// The number of the last step of the walk.
pub open spec fn seek_end(fs: &Fat16Fs, file: &File, pos: int) -> int {
    fs.spec_clusters_from_bytes(seek_target(file, pos)) - 1 + file.data.first_cluster
}

impl Fat16File {
    /// Opens a file with the given name, size and first cluster, before any read.
    pub fn new(name: String, size: u32, first_cluster: u16) -> (r: File)
        ensures
            r.name@ == name@,
            r.size == size,
            r.pos == 0,
            r.data.first_cluster == first_cluster,
            r.data.current_cluster.spec_load() is None,
    {
        let data = Fat16File { first_cluster, current_cluster: AtomicCurrentCluster::new(None) };
        File { name, size: size as usize, pos: 0, data }
    }

    /// Reads from the file's position into `buf`, within the cluster of the position and
    /// within the file; gives the bytes read (none where the cluster chain ends).
    pub fn read(file: &mut File, fs: &Fat16Fs, buf: &mut [u8]) -> (r: usize)
        requires
            read_ok(fs, old(file), old(buf)@.len() as int),
        ensures
            final(file).name@ == old(file).name@,
            final(file).size == old(file).size,
            final(file).data.first_cluster == old(file).data.first_cluster,
            (final(file).pos as int, final(file).data.current_cluster.spec_load()) == read_state(
                fs,
                old(file),
                old(buf)@.len() as int,
            ),
            match read_cluster(fs, old(file)) {
                Some(c) if read_len(fs, old(file), old(buf)@.len() as int) > 0 => {
                    let n = read_len(fs, old(file), old(buf)@.len() as int);
                    &&& r == n
                    &&& final(buf)@ == bytes_at(
                        fs.ramdisk.data@,
                        read_start(fs, c, old(file)),
                        n,
                    ) + old(buf)@.skip(n)
                    &&& final(file).pos == old(file).pos + n
                    &&& final(file).data.current_cluster.spec_load() == Some(c)
                },
                _ => r == 0 && final(buf)@ == old(buf)@ && final(file).pos == old(file).pos
                    && final(file).data.current_cluster == old(file).data.current_cluster,
            },
    {
        let cluster_size = fs.cluster_size() as usize;
        let current_cluster = file.data.current_cluster.load();
        let current_pos = file.pos;
        let cluster = match current_cluster {
            None => file.data.first_cluster,
            Some(c) => {
                if current_pos % cluster_size == 0 {
                    match lookup_allocation(fs, c) {
                        AllocationType::Next(next_cluster) => next_cluster,
                        _ => {
                            return 0;
                        },
                    }
                } else {
                    c
                }
            },
        };
        let cluster_pos = current_pos % cluster_size;
        let cluster_remaining = cluster_size - cluster_pos;
        let file_remaining = file.size - current_pos;
        let a = if buf.len() < cluster_remaining {
            buf.len()
        } else {
            cluster_remaining
        };
        let read_size = if a < file_remaining {
            a
        } else {
            file_remaining
        };
        if read_size == 0 {
            return 0;
        }
        let len = fs.ramdisk.data.len();
        let pos = fs.cluster_offset(cluster as u32) as usize + cluster_pos;
        let mut i: usize = 0;
        while i < read_size
            invariant
                len == fs.ramdisk.data@.len(),
                pos + read_size <= len,
                read_size <= buf@.len(),
                buf@.len() == old(buf)@.len(),
                i <= read_size,
                forall|j: int| 0 <= j < i ==> buf@[j] == fs.ramdisk.data@[pos + j],
                forall|j: int| read_size <= j < buf@.len() ==> buf@[j] == old(buf)@[j],
            decreases read_size - i,
        {
            buf[i] = fs.ramdisk.data[pos + i];
            i = i + 1;
        }
        proof {
            assert(buf@ =~= bytes_at(fs.ramdisk.data@, pos as int, read_size as int) + old(
                buf,
            )@.skip(read_size as int));
        }
        file.pos = current_pos + read_size;
        file.data.current_cluster.store(Some(cluster));
        read_size
    }

    /// Moves the file's position to `pos` (at most the file's size), following the
    /// cluster chain from the first cluster when the position moves into another cluster.
    /// Where the chain ends early, the position becomes the end of the last cluster
    /// walked.
    pub fn seek(file: &mut File, fs: &Fat16Fs, pos: usize)
        requires
            0 < fs.spec_cluster_size() <= u32::MAX,
            old(file).size <= u32::MAX,
            old(file).pos <= u32::MAX,
            seek_walks(fs, old(file), pos as int) ==> seek_end(fs, old(file), pos as int)
                <= u32::MAX && seek_walk_ok(
                fs,
                old(file).data.first_cluster,
                old(file).data.first_cluster as int,
                seek_end(fs, old(file), pos as int),
            ),
        ensures
            final(file).name@ == old(file).name@,
            final(file).size == old(file).size,
            final(file).data.first_cluster == old(file).data.first_cluster,
            (final(file).pos as int, final(file).data.current_cluster.spec_load()) == seek_outcome(
                fs,
                old(file),
                pos as int,
            ),
            seek_target(old(file), pos as int) == old(file).pos ==> final(file).data.current_cluster
                == old(file).data.current_cluster,
    {
        let current_pos = file.pos;
        let mut pos = if pos > file.size {
            file.size
        } else {
            pos
        };
        if pos == current_pos {
            return ;
        }
        let current_cluster = file.data.current_cluster.load();
        let new_offset_in_clusters = fs.clusters_from_bytes(pos as u32);
        let old_offset_in_clusters = fs.clusters_from_bytes(current_pos as u32);
        let new_cluster = if pos == 0 {
            None
        } else if new_offset_in_clusters == old_offset_in_clusters {
            current_cluster
        } else {
            let first = file.data.first_cluster;
            let mut cluster = first;
            proof {
                assert(new_offset_in_clusters >= 1) by (nonlinear_arith)
                    requires
                        new_offset_in_clusters == (pos as int) / fs.spec_cluster_size() + if (pos
                            as int) % fs.spec_cluster_size() != 0 {
                            1int
                        } else {
                            0int
                        },
                        pos > 0,
                        fs.spec_cluster_size() > 0,
                ;
            }
            let clusters_to_seek = new_offset_in_clusters - 1 + first as u32;
            let ghost end = clusters_to_seek as int;
            let ghost target = pos as int;
            let mut c: u32 = first as u32;
            let mut stopped = false;
            while c < clusters_to_seek && !stopped
                invariant
                    0 < fs.spec_cluster_size() <= u32::MAX,
                    end == clusters_to_seek,
                    first as int <= c <= clusters_to_seek,
                    !stopped ==> seek_walk_ok(fs, cluster, c as int, end),
                    !stopped ==> pos == target,
                    !stopped ==> seek_walk(fs, first, first as int, end, target) == seek_walk(
                        fs,
                        cluster,
                        c as int,
                        end,
                        target,
                    ),
                    stopped ==> seek_walk(fs, first, first as int, end, target) == (
                    cluster,
                    pos as int,
                    ),
                decreases (clusters_to_seek - c) * 2 + if stopped {
                    0int
                } else {
                    1int
                },
            {
                match lookup_allocation(fs, cluster) {
                    AllocationType::Next(next_cluster) => {
                        cluster = next_cluster;
                        c = c + 1;
                    },
                    _ => {
                        pos = fs.bytes_from_clusters(c + 1) as usize;
                        stopped = true;
                    },
                }
            }
            assert(seek_walk(fs, first, first as int, end, target) == (cluster, pos as int));
            Some(cluster)
        };
        file.data.current_cluster.store(new_cluster);
        file.pos = pos;
    }
}

/// Cluster `i` of a file's chain: the first cluster, then for each step the cluster that
/// the allocation table entry of the one before names as next; nothing once the chain
/// has ended.
pub open spec fn chain_cluster(fs: &Fat16Fs, first: u16, i: nat) -> Option<u16>
    decreases i,
{
    if i == 0 {
        Some(first)
    } else {
        match chain_cluster(fs, first, (i - 1) as nat) {
            Some(c) => match classify(fs.fat_entry(c)) {
                AllocationType::Next(n) => Some(n),
                _ => None,
            },
            None => None,
        }
    }
}

/// The file's cursor agrees with its chain: before any read it is at the start; after
/// one, the remembered cluster is the chain's cluster that holds the byte just before
/// the position.
pub open spec fn cursor_in_chain(fs: &Fat16Fs, file: &File) -> bool {
    let cs = fs.spec_cluster_size();
    match file.data.current_cluster.spec_load() {
        None => file.pos == 0,
        Some(c) => file.pos > 0 && chain_cluster(fs, file.data.first_cluster, ((file.pos - 1) as int / cs) as nat)
            == Some(c),
    }
}

/// Reads walk the file's cluster chain: while the cursor agrees with the chain, a read at
/// position `p` reads from cluster `p / cluster_size` of the chain (so the `i`-th cluster
/// holds the file's bytes from `i * cluster_size` on, and a read that starts at a cluster
/// boundary after an earlier read moves on to the next cluster); and after a read of
/// `n > 0` bytes that stays in that cluster, the cursor agrees with the chain again, so
/// the next read goes on from there.
pub proof fn lemma_read_walks_chain(fs: &Fat16Fs, file: &File, n: int, after: &File)
    requires
        fs.spec_cluster_size() > 0,
        cursor_in_chain(fs, file),
    ensures
        read_cluster(fs, file) == chain_cluster(fs, file.data.first_cluster, ((file.pos as int) / fs.spec_cluster_size()) as nat),
        ({
            let cs = fs.spec_cluster_size();
            (read_cluster(fs, file) matches Some(c) && 0 < n <= cs - (file.pos as int) % cs
                && after.pos == file.pos + n && after.data.first_cluster == file.data.first_cluster
                && after.data.current_cluster.spec_load() == Some(c)) ==> cursor_in_chain(fs, after)
        }),
{
    let cs = fs.spec_cluster_size();
    let p = file.pos as int;
    let q = p / cs;
    let r = p % cs;
    vstd::arithmetic::div_mod::lemma_fundamental_div_mod(p, cs);
    if p > 0 {
        if r == 0 {
            assert(q >= 1) by (nonlinear_arith)
                requires
                    p == cs * q,
                    p > 0,
                    cs > 0,
            ;
            assert(p - 1 == (q - 1) * cs + (cs - 1)) by (nonlinear_arith)
                requires
                    p == cs * q,
            ;
            vstd::arithmetic::div_mod::lemma_fundamental_div_mod_converse(p - 1, cs, q - 1, cs - 1);
        } else {
            assert(p - 1 == q * cs + (r - 1)) by (nonlinear_arith)
                requires
                    p == cs * q + r,
            ;
            vstd::arithmetic::div_mod::lemma_fundamental_div_mod_converse(p - 1, cs, q, r - 1);
        }
    }
    if 0 < n <= cs - r {
        assert(p + n - 1 == q * cs + (r + n - 1)) by (nonlinear_arith)
            requires
                p == cs * q + r,
        ;
        vstd::arithmetic::div_mod::lemma_fundamental_div_mod_converse(p + n - 1, cs, q, r + n - 1);
    }
}

/// A read takes as much as it can but never runs past the buffer, the file's end or the
/// end of the cluster it reads from: it stops exactly at the first of the three.
pub proof fn lemma_read_len_bounds(fs: &Fat16Fs, file: &File, buf_len: int)
    requires
        fs.spec_cluster_size() > 0,
        file.pos <= file.size,
        buf_len >= 0,
    ensures
        ({
            let n = read_len(fs, file, buf_len);
            let cs = fs.spec_cluster_size();
            &&& 0 <= n <= buf_len
            &&& file.pos + n <= file.size
            &&& (file.pos as int) % cs + n <= cs
            &&& n == buf_len || file.pos + n == file.size || (file.pos as int) % cs + n == cs
        }),
{
    let cs = fs.spec_cluster_size();
    vstd::arithmetic::div_mod::lemma_mod_bound(file.pos as int, cs);
}

/// Clusters lie side by side from the first data sector on: cluster `c + 1` starts a
/// cluster's size after cluster `c`, and cluster 0 at the first data sector.
pub proof fn lemma_cluster_layout(fs: &Fat16Fs, c: int)
    ensures
        fs.spec_cluster_offset(c + 1) == fs.spec_cluster_offset(c) + fs.spec_cluster_size(),
        fs.spec_cluster_offset(0) == fs.first_data_sector * fs.bytes_per_sector,
{
    let spc = fs.sectors_per_cluster as int;
    let bps = fs.bytes_per_sector as int;
    let f = fs.first_data_sector as int;
    assert((f + (c + 1) * spc) * bps == (f + c * spc) * bps + bps * spc) by (nonlinear_arith);
}

proof fn lemma_ceil_minus_one(t: int, cs: int)
    requires
        t >= 1,
        cs > 0,
    ensures
        t / cs + (if t % cs != 0 { 1int } else { 0int }) - 1 == (t - 1) / cs,
{
    let q = t / cs;
    let r = t % cs;
    vstd::arithmetic::div_mod::lemma_fundamental_div_mod(t, cs);
    if r == 0 {
        assert(q >= 1) by (nonlinear_arith)
            requires
                t == cs * q,
                t >= 1,
                cs > 0,
        ;
        assert(t - 1 == (q - 1) * cs + (cs - 1)) by (nonlinear_arith)
            requires
                t == cs * q,
        ;
        vstd::arithmetic::div_mod::lemma_fundamental_div_mod_converse(t - 1, cs, q - 1, cs - 1);
    } else {
        assert(t - 1 == q * cs + (r - 1)) by (nonlinear_arith)
            requires
                t == cs * q + r,
        ;
        vstd::arithmetic::div_mod::lemma_fundamental_div_mod_converse(t - 1, cs, q, r - 1);
    }
}

proof fn lemma_chain_prefix(fs: &Fat16Fs, first: u16, i: nat, j: nat)
    requires
        i <= j,
        chain_cluster(fs, first, j) is Some,
    ensures
        chain_cluster(fs, first, i) is Some,
    decreases j - i,
{
    if i < j {
        lemma_chain_prefix(fs, first, (i + 1) as nat, j);
    }
}

proof fn lemma_walk_follows_chain(fs: &Fat16Fs, first: u16, j: nat, c: int, end: int, pos: int)
    requires
        c <= end,
        chain_cluster(fs, first, (j + (end - c)) as nat) is Some,
    ensures
        chain_cluster(fs, first, j) is Some,
        seek_walk(fs, chain_cluster(fs, first, j).unwrap(), c, end, pos) == (
            chain_cluster(fs, first, (j + (end - c)) as nat).unwrap(),
            pos,
        ),
    decreases end - c,
{
    lemma_chain_prefix(fs, first, j, (j + (end - c)) as nat);
    if c < end {
        lemma_walk_follows_chain(fs, first, j + 1, c + 1, end, pos);
        assert(((j + 1) + (end - (c + 1))) as nat == (j + (end - c)) as nat);
    }
}

/// Seeking keeps the cursor on the chain: where the chain reaches the target, a seek
/// ends at the target (kept inside the file) with the cursor agreeing with the file's
/// cluster chain, so the next read reads the target's cluster.
pub proof fn lemma_seek_lands_in_chain(fs: &Fat16Fs, file: &File, pos: int, after: &File)
    requires
        fs.spec_cluster_size() > 0,
        cursor_in_chain(fs, file),
        0 <= pos,
        seek_target(file, pos) > 0 ==> chain_cluster(
            fs,
            file.data.first_cluster,
            ((seek_target(file, pos) - 1) / fs.spec_cluster_size()) as nat,
        ) is Some,
        after.data.first_cluster == file.data.first_cluster,
        after.pos == seek_outcome(fs, file, pos).0,
        after.data.current_cluster.spec_load() == seek_outcome(fs, file, pos).1,
    ensures
        after.pos == seek_target(file, pos),
        cursor_in_chain(fs, after),
{
    let cs = fs.spec_cluster_size();
    let target = seek_target(file, pos);
    if target != file.pos && target != 0 {
        lemma_ceil_minus_one(target, cs);
        if file.pos > 0 {
            lemma_ceil_minus_one(file.pos as int, cs);
        } else {
            vstd::arithmetic::div_mod::lemma_fundamental_div_mod_converse(0, cs, 0, 0);
            assert(fs.spec_clusters_from_bytes(0) == 0);
        }
        if seek_walks(fs, file, pos) {
            let first = file.data.first_cluster;
            let end = seek_end(fs, file, pos);
            assert(end - first == (target - 1) / cs);
            lemma_walk_follows_chain(fs, first, 0, first as int, end, target);
            assert((0 + (end - first)) as nat == ((target - 1) / cs) as nat);
        }
    }
}

/// Where byte `p` of a file lies on the disk: in cluster `p / cluster_size` of its chain,
/// at offset `p % cluster_size`; nowhere if the chain ends before.
pub open spec fn file_byte_offset(fs: &Fat16Fs, first: u16, p: int) -> Option<int> {
    let cs = fs.spec_cluster_size();
    match chain_cluster(fs, first, (p / cs) as nat) {
        Some(c) => Some(fs.spec_cluster_offset(c as int) + p % cs),
        None => None,
    }
}

/// A read gives the file's own bytes: while the cursor agrees with the chain, byte `j`
/// of what a read returns is the disk byte where the file's byte `pos + j` lies.
pub proof fn lemma_read_gives_file_bytes(fs: &Fat16Fs, file: &File, buf_len: int, j: int)
    requires
        fs.spec_cluster_size() > 0,
        cursor_in_chain(fs, file),
        file.pos <= file.size,
        buf_len >= 0,
        0 <= j < read_len(fs, file, buf_len),
    ensures
        read_cluster(fs, file) matches Some(c) ==> file_byte_offset(
            fs,
            file.data.first_cluster,
            file.pos + j,
        ) == Some(read_start(fs, c, file) + j),
{
    let cs = fs.spec_cluster_size();
    let p = file.pos as int;
    lemma_read_walks_chain(fs, file, 1, file);
    lemma_read_len_bounds(fs, file, buf_len);
    let q = p / cs;
    let r = p % cs;
    vstd::arithmetic::div_mod::lemma_fundamental_div_mod(p, cs);
    assert(p + j == q * cs + (r + j)) by (nonlinear_arith)
        requires
            p == cs * q + r,
    ;
    vstd::arithmetic::div_mod::lemma_fundamental_div_mod_converse(p + j, cs, q, r + j);
}

/// Reading keeps the cursor on the chain: after any read from a cursor that agrees with
/// the file's cluster chain, the cursor still agrees with it, so reads one after another
/// walk the file's clusters in order.
pub proof fn lemma_read_keeps_cursor(fs: &Fat16Fs, file: &File, buf_len: int, after: &File)
    requires
        fs.spec_cluster_size() > 0,
        cursor_in_chain(fs, file),
        file.pos <= file.size,
        buf_len >= 0,
        after.data.first_cluster == file.data.first_cluster,
        after.pos == read_state(fs, file, buf_len).0,
        after.data.current_cluster.spec_load() == read_state(fs, file, buf_len).1,
    ensures
        cursor_in_chain(fs, after),
{
    lemma_read_len_bounds(fs, file, buf_len);
    lemma_read_walks_chain(fs, file, read_len(fs, file, buf_len), after);
}

} // verus!
