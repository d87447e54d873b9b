use vstd::prelude::*;
use crate::filesystem::disk::Disk;
use crate::filesystem::File;
use crate::filesystem::descriptor::FilePointer;
use crate::filesystem::fat32::directory::{
    Directory, FatDirectory, FoundEntry, entry_is_folder, found_view, parse_directory_entries,
    prefix_found,
    scan_entries,
};
use crate::filesystem::fat32::table::{
    Cluster, ClusterChain, Ebpb, EBPB_SIZE, FatEntry, MAX_CHAIN_LENGTH, ebpb_of, le16, le32,
    table_entry,
};
use crate::text::{split_spec, split_str, str_uppercase, strings_view, to_uppercase};
use crate::filesystem::fat32::directory::entry_cluster;
use vstd::string::{StrSliceExecFns, StringExecFns};

pub mod directory;
pub mod table;

verus! {

/// Why reading the filesystem failed.
#[derive(PartialEq, Eq, Structural, Clone, Copy, Debug)]
pub enum FsError {
    /// The disk reported an error.
    DiskRead,
    /// The boot sector's sizes cannot be used (a sector size that is not a
    /// positive multiple of 4, no sectors in a cluster, or tables too large).
    BadGeometry,
    /// A cluster number that no data sector belongs to.
    BadCluster,
    /// A short name that is not valid UTF-8.
    InvalidName,
}

/// The sizes in the boot sector can be computed with: sectors are a positive
/// multiple of 4 bytes, clusters have sectors, and the tables' sector count
/// fits in 32 bits.
pub open spec fn geometry_ok(e: Ebpb) -> bool {
    &&& e.bpb.bytes_per_sector >= 4
    &&& e.bpb.bytes_per_sector % 4 == 0
    &&& e.bpb.sectors_per_cluster >= 1
    &&& e.bpb.table_count * e.sectors_per_fat <= u32::MAX
}

/// A FAT32 volume, described by its boot sector.
pub struct Fat32 {
    ebpb: Ebpb,
}

impl Fat32 {
    /// The boot sector's parameters.
    pub closed spec fn ebpb_view(&self) -> Ebpb {
        self.ebpb
    }

    /// The sector where the data area starts, after the reserved sectors and the tables.
    pub open spec fn first_data_sector(&self) -> int {
        self.ebpb_view().bpb.reserved_sectors_count + self.ebpb_view().bpb.table_count
            * self.ebpb_view().sectors_per_fat
    }

    /// Bytes in a cluster.
    pub open spec fn cluster_bytes(&self) -> int {
        self.ebpb_view().bpb.sectors_per_cluster * self.ebpb_view().bpb.bytes_per_sector
    }

    /// The first sector of `cluster` (the data area starts with cluster 2).
    pub open spec fn cluster_sector(&self, cluster: int) -> int {
        (cluster - 2) * self.ebpb_view().bpb.sectors_per_cluster + self.first_data_sector()
    }

    /// `cluster` belongs to the data area and its sector number fits in 64 bits.
    pub open spec fn cluster_ok(&self, cluster: int) -> bool {
        &&& cluster >= 2
        &&& (cluster - 2) * self.ebpb_view().bpb.sectors_per_cluster <= usize::MAX
        &&& self.cluster_sector(cluster) <= u64::MAX
    }

    /// The volume described by the boot sector `sector`.
    pub fn from_boot_sector(sector: &[u8]) -> (r: Self)
        requires
            sector@.len() >= EBPB_SIZE,
        ensures
            ebpb_of(r.ebpb_view(), sector@),
    {
        Fat32 { ebpb: Ebpb::parse(sector) }
    }

    /// Reads the boot sector, sector 0 of `disk`; `None` when the disk fails.
    pub fn new<D: Disk>(disk: &D) -> (r: Option<Self>)
        ensures
            r matches Some(f) ==> ebpb_of(f.ebpb_view(), disk.read_view(0, 512)),
    {
        let mut x = vec![0u8; 512];
        match disk.read(0, x.as_mut_slice()) {
            Ok(_) => Some(Fat32::from_boot_sector(x.as_slice())),
            Err(_) => None,
        }
    }

    /// Whether the boot sector's sizes can be used (see `geometry_ok`).
    pub fn has_usable_geometry(&self) -> (r: bool)
        ensures
            r == geometry_ok(self.ebpb_view()),
    {
        let bps = self.ebpb.bpb.bytes_per_sector;
        assert(self.ebpb.bpb.table_count * self.ebpb.sectors_per_fat <= 255 * u32::MAX)
            by (nonlinear_arith)
            requires
                self.ebpb.bpb.table_count <= 255,
                self.ebpb.sectors_per_fat <= u32::MAX,
        ;
        bps >= 4 && bps % 4 == 0 && self.ebpb.bpb.sectors_per_cluster >= 1 && (
        self.ebpb.bpb.table_count as u64) * (self.ebpb.sectors_per_fat as u64) <= u32::MAX as u64
    }

    pub fn get_first_data_sector(&self) -> (r: u64)
        requires
            self.ebpb_view().bpb.table_count * self.ebpb_view().sectors_per_fat <= u32::MAX,
        ensures
            r == self.first_data_sector(),
    {
        self.ebpb.bpb.reserved_sectors_count as u64 + (self.ebpb.bpb.table_count as u32
            * self.ebpb.sectors_per_fat) as u64
    }

    pub fn get_bytes_in_cluster(&self) -> (r: usize)
        ensures
            r == self.cluster_bytes(),
    {
        assert(self.ebpb.bpb.sectors_per_cluster * self.ebpb.bpb.bytes_per_sector <= 255 * 65535)
            by (nonlinear_arith)
            requires
                self.ebpb.bpb.sectors_per_cluster <= 255,
                self.ebpb.bpb.bytes_per_sector <= 65535,
        ;
        self.ebpb.bpb.sectors_per_cluster as usize * self.ebpb.bpb.bytes_per_sector as usize
    }

    pub fn first_sector_of_cluster(&self, cluster: usize) -> (r: u64)
        requires
            self.ebpb_view().bpb.table_count * self.ebpb_view().sectors_per_fat <= u32::MAX,
            self.cluster_ok(cluster as int),
        ensures
            r == self.cluster_sector(cluster as int),
    {
        ((cluster - 2) * (self.ebpb.bpb.sectors_per_cluster as usize)) as u64
            + self.get_first_data_sector()
    }

    /// Whether `cluster` belongs to the data area (see `cluster_ok`).
    pub fn cluster_in_range(&self, cluster: usize) -> (r: bool)
        requires
            self.ebpb_view().bpb.table_count * self.ebpb_view().sectors_per_fat <= u32::MAX,
        ensures
            r == self.cluster_ok(cluster as int),
    {
        if cluster < 2 {
            return false;
        }
        let spc = self.ebpb.bpb.sectors_per_cluster as usize;
        if spc != 0 && cluster - 2 > usize::MAX / spc {
            proof {
                vstd::arithmetic::div_mod::lemma_fundamental_div_mod(usize::MAX as int, spc as int);
                assert((cluster - 2) * spc > usize::MAX) by (nonlinear_arith)
                    requires
                        cluster - 2 > usize::MAX / spc,
                        usize::MAX == spc * (usize::MAX / spc) + usize::MAX % spc,
                        usize::MAX % spc < spc,
                        spc > 0,
                ;
            }
            return false;
        }
        proof {
            if spc != 0 {
                assert((cluster - 2) * spc <= usize::MAX) by (nonlinear_arith)
                    requires
                        cluster - 2 <= usize::MAX / spc,
                        spc > 0,
                ;
            }
        }
        let offset = (cluster - 2) * spc;
        offset as u64 <= u64::MAX - self.get_first_data_sector()
    }
}


// ---------------------------------------------------------------------------
// Laws of the volume's layout.

/// The data area begins after every copy of the allocation table: on a volume
/// read from the boot sector `b`, the first data sector is the reserved
/// sectors (bytes 14-15) plus the number of tables (byte 16) times the sectors
/// of one table (bytes 36-39); every sector of every copy of the table lies
/// before it, and the last sector of the last copy is the one just before it.
pub proof fn lemma_data_area_follows_all_tables(fs: Fat32, b: Seq<u8>, t: int, k: int)
    requires
        b.len() >= EBPB_SIZE,
        ebpb_of(fs.ebpb_view(), b),
    ensures
        fs.first_data_sector() == le16(b, 14) + b[16] * le32(b, 36),
        0 <= t < b[16] && 0 <= k < le32(b, 36) ==> le16(b, 14) + t * le32(b, 36) + k
            < fs.first_data_sector(),
        b[16] >= 1 && le32(b, 36) >= 1 ==> le16(b, 14) + (b[16] - 1) * le32(b, 36) + (le32(b, 36)
            - 1) == fs.first_data_sector() - 1,
{
    let r = le16(b, 14) as int;
    let n = b[16] as int;
    let f = le32(b, 36) as int;
    assert(fs.first_data_sector() == r + n * f);
    if 0 <= t < n && 0 <= k < f {
        assert(t * f + k < n * f) by (nonlinear_arith)
            requires
                0 <= t < n,
                0 <= k < f,
        ;
    }
    assert((n - 1) * f + (f - 1) == n * f - 1) by (nonlinear_arith);
}

/// Clusters lie `sectors_per_cluster` sectors apart (boot-sector byte 13),
/// cluster 2 at the start of the data area: cluster `c + 1` starts
/// `sectors_per_cluster` sectors after cluster `c`, and no sector belongs to
/// two different clusters.
pub proof fn lemma_clusters_are_disjoint(fs: Fat32, b: Seq<u8>, c1: int, c2: int, i: int, j: int)
    requires
        b.len() >= EBPB_SIZE,
        ebpb_of(fs.ebpb_view(), b),
    ensures
        fs.cluster_sector(2) == fs.first_data_sector(),
        fs.cluster_sector(c1 + 1) == fs.cluster_sector(c1) + b[13],
        2 <= c1 && 2 <= c2 && c1 != c2 && 0 <= i < b[13] && 0 <= j < b[13] ==> fs.cluster_sector(
            c1,
        ) + i != fs.cluster_sector(c2) + j,
{
    let spc = b[13] as int;
    assert(fs.ebpb_view().bpb.sectors_per_cluster == spc);
    assert((c1 + 1 - 2) * spc == (c1 - 2) * spc + spc) by (nonlinear_arith);
    if 2 <= c1 && 2 <= c2 && c1 != c2 && 0 <= i < spc && 0 <= j < spc {
        if c1 < c2 {
            assert((c1 - 2) * spc + i < (c2 - 2) * spc + j) by (nonlinear_arith)
                requires
                    c1 < c2,
                    0 <= i < spc,
                    0 <= j,
            ;
        } else {
            assert((c2 - 2) * spc + j < (c1 - 2) * spc + i) by (nonlinear_arith)
                requires
                    c2 < c1,
                    0 <= j < spc,
                    0 <= i,
            ;
        }
    }
}

// ---------------------------------------------------------------------------
// Paths.

/// The parts of a path between its slashes.
pub open spec fn path_components(path: Seq<char>) -> Seq<Seq<char>> {
    split_spec(path, '/')
}

/// Splits a path at its slashes.
pub fn split_path(path: &str) -> (r: Vec<String>)
    ensures
        strings_view(r@) == path_components(path@),
{
    split_str(path, '/')
}

/// The names of the directories.
pub open spec fn names_view(dirs: Seq<Directory>) -> Seq<Seq<char>> {
    dirs.map_values(|d: Directory| d.name_view())
}

/// The first position of `name` among `names`, if it occurs.
pub open spec fn first_named(names: Seq<Seq<char>>, name: Seq<char>, i: int) -> Option<int>
    decreases names.len() - i,
{
    if i >= names.len() {
        None
    } else if names[i] == name {
        Some(i)
    } else {
        first_named(names, name, i + 1)
    }
}

/// The entry that a path component names: the first with exactly that name,
/// else the first whose name is the component in upper case.
pub open spec fn match_component(names: Seq<Seq<char>>, component: Seq<char>) -> Option<int> {
    match first_named(names, component, 0) {
        Some(i) => Some(i),
        None => first_named(names, str_uppercase(component), 0),
    }
}

proof fn lemma_first_named_bounds(names: Seq<Seq<char>>, name: Seq<char>, i: int)
    requires
        0 <= i,
    ensures
        first_named(names, name, i) matches Some(k) ==> i <= k < names.len(),
    decreases names.len() - i,
{
    if i < names.len() && names[i] != name {
        lemma_first_named_bounds(names, name, i + 1);
    }
}

/// Position of the first directory called `name`.
fn position_named(dirs: &Vec<Directory>, name: &String) -> (r: Option<usize>)
    ensures
        r matches Some(i) ==> i < dirs@.len() && i as int == first_named(names_view(dirs@), name@, 0)->0,
        r is Some <==> first_named(names_view(dirs@), name@, 0) is Some,
{
    let mut index: usize = 0;
    while index < dirs.len()
        invariant
            index <= dirs@.len(),
            first_named(names_view(dirs@), name@, index as int) == first_named(
                names_view(dirs@),
                name@,
                0,
            ),
        decreases dirs@.len() - index,
    {
        if dirs[index].get_name() == *name {
            return Some(index);
        }
        index = index + 1;
    }
    None
}

/// Position of the entry that `component` names (see `match_component`).
pub fn find_by_name(dirs: &Vec<Directory>, component: &String) -> (r: Option<usize>)
    ensures
        r matches Some(i) ==> i < dirs@.len() && Some(i as int) == match_component(
            names_view(dirs@),
            component@,
        ),
        r is None ==> match_component(names_view(dirs@), component@) is None,
{
    proof {
        lemma_first_named_bounds(names_view(dirs@), component@, 0);
    }
    match position_named(dirs, component) {
        Some(index) => Some(index),
        None => {
            let upper = to_uppercase(component.as_str());
            proof {
                lemma_first_named_bounds(names_view(dirs@), upper@, 0);
            }
            position_named(dirs, &upper)
        },
    }
}

// ---------------------------------------------------------------------------
// Reading folders and files.

/// What one cluster of a folder holds on `disk`: the entries that
/// `scan_entries` finds in the bytes that a read of the cluster gives, as far
/// as the sectors that the read reports reach. `None` when the cluster lies
/// outside the data area or a short name is not valid UTF-8.
pub open spec fn cluster_scan<D: Disk>(fs: Fat32, disk: &D, cluster: int) -> Option<Seq<FoundEntry>> {
    if !fs.cluster_ok(cluster) {
        None
    } else {
        let block = fs.cluster_sector(cluster) as u64;
        let len = fs.cluster_bytes() as nat;
        let reported = disk.read_count(block, len) * fs.ebpb_view().bpb.bytes_per_sector / 32;
        let count: int = if reported < len / 32 {
            reported
        } else {
            (len / 32) as int
        };
        scan_entries(disk.read_view(block, len), 0, count, None)
    }
}

/// What the clusters of a chain hold, from `entry` on, following the table on
/// `disk` for at most `fuel` clusters. `None` when a cluster cannot be read
/// (see `cluster_scan`) or its number is too large to find in the table.
pub open spec fn chain_scan<D: Disk>(fs: Fat32, disk: &D, entry: FatEntry, fuel: nat) -> Option<
    Seq<FoundEntry>,
>
    decreases fuel,
{
    match entry {
        FatEntry::Node(c) => if fuel == 0 {
            Some(Seq::empty())
        } else if c.0 > usize::MAX / 4 {
            None
        } else {
            match cluster_scan(fs, disk, c.0 as int) {
                Some(found) => prefix_found(
                    found,
                    chain_scan(fs, disk, table_entry(fs, disk, c.0 as int), (fuel - 1) as nat),
                ),
                None => None,
            }
        },
        _ => Some(Seq::empty()),
    }
}

/// The files and folders of the folder that starts at `cluster` on `disk`.
pub open spec fn folder_scan<D: Disk>(fs: Fat32, disk: &D, cluster: usize) -> Option<
    Seq<FoundEntry>,
> {
    chain_scan(fs, disk, FatEntry::Node(Cluster(cluster)), MAX_CHAIN_LENGTH as nat)
}

/// The names of what a scan found.
pub open spec fn found_names(entries: Seq<FoundEntry>) -> Seq<Seq<char>> {
    entries.map_values(|e: FoundEntry| e.0)
}

/// The name and entry bytes of a directory, if there is one.
pub open spec fn found_opt(d: Option<Directory>) -> Option<FoundEntry> {
    match d {
        Some(d) => Some((d.name_view(), d.fat_view().entry_bytes())),
        None => None,
    }
}

/// What following `path` from the folder at `cluster` on `disk` comes to
/// when the first file met is wanted: `Some(Some(e))` for the file's entry,
/// `Some(None)` when a component names nothing or the path ends at a folder,
/// `None` when a folder on the way cannot be read (see `folder_scan`).
pub open spec fn find_file_spec<D: Disk>(
    fs: Fat32,
    disk: &D,
    cluster: usize,
    path: Seq<Seq<char>>,
) -> Option<Option<FoundEntry>>
    decreases path.len(),
{
    if path.len() == 0 {
        Some(None)
    } else {
        match folder_scan(fs, disk, cluster) {
            None => None,
            Some(entries) => match match_component(found_names(entries), path[0]) {
                None => Some(None),
                Some(i) => if entry_is_folder(entries[i].1) {
                    find_file_spec(fs, disk, entry_cluster(entries[i].1) as usize, path.drop_first())
                } else {
                    Some(Some(entries[i]))
                },
            },
        }
    }
}

/// Like `find_file_spec`, but the entry that the last component names is
/// wanted, a folder as well as a file; a file before the last component
/// gives `Some(None)`.
pub open spec fn find_entry_spec<D: Disk>(
    fs: Fat32,
    disk: &D,
    cluster: usize,
    path: Seq<Seq<char>>,
) -> Option<Option<FoundEntry>>
    decreases path.len(),
{
    if path.len() == 0 {
        Some(None)
    } else {
        match folder_scan(fs, disk, cluster) {
            None => None,
            Some(entries) => match match_component(found_names(entries), path[0]) {
                None => Some(None),
                Some(i) => if path.len() == 1 {
                    Some(Some(entries[i]))
                } else if entry_is_folder(entries[i].1) {
                    find_entry_spec(fs, disk, entry_cluster(entries[i].1) as usize, path.drop_first())
                } else {
                    Some(None)
                },
            },
        }
    }
}

proof fn lemma_prefix_found_twice(a: Seq<FoundEntry>, b: Seq<FoundEntry>, rest: Option<Seq<FoundEntry>>)
    ensures
        prefix_found(a, prefix_found(b, rest)) == prefix_found(a + b, rest),
{
    if let Some(r) = rest {
        assert(a + (b + r) =~= (a + b) + r);
    }
}

impl Fat32 {
    /// Reads the entries of one cluster of a folder and appends what they
    /// describe to `directories`. The appended entries are what
    /// `scan_entries` finds in the bytes that the disk gave for the cluster.
    pub fn read_directories_from_cluster<D: Disk>(
        &self,
        drive: &D,
        cluster: Cluster,
        directories: &mut Vec<Directory>,
    ) -> (r: Result<(), FsError>)
        requires
            geometry_ok(self.ebpb_view()),
        ensures
            (r == Err::<(), FsError>(FsError::BadCluster)) == !self.cluster_ok(cluster.0 as int),
            r is Ok ==> cluster_scan(*self, drive, cluster.0 as int) == Some(
                found_view(final(directories)@).skip(old(directories)@.len() as int),
            ),
            cluster_scan(*self, drive, cluster.0 as int) is None ==> r is Err,
            r matches Err(e) ==> e == FsError::DiskRead || cluster_scan(
                *self,
                drive,
                cluster.0 as int,
            ) is None,
            r matches Err(e) ==> e != FsError::BadGeometry,
            final(directories)@.len() >= old(directories)@.len(),
            found_view(final(directories)@).take(old(directories)@.len() as int) == found_view(
                old(directories)@,
            ),
    {
        if !self.cluster_in_range(cluster.0) {
            assert(found_view(directories@).take(directories@.len() as int) =~= found_view(
                directories@,
            ));
            return Err(FsError::BadCluster);
        }
        let bytes_per_sector = self.ebpb.bpb.bytes_per_sector as usize;
        let mut buffer = vec![0u8; self.get_bytes_in_cluster()];
        let sectors_read = match drive.read(
            self.first_sector_of_cluster(cluster.0),
            buffer.as_mut_slice(),
        ) {
            Ok(n) => n as usize,
            Err(_) => {
                assert(found_view(directories@).take(directories@.len() as int) =~= found_view(
                    directories@,
                ));
                return Err(FsError::DiskRead);
            },
        };
        // entries that the disk reports read, as far as the buffer holds them
        assert(sectors_read * bytes_per_sector <= 255 * 65535) by (nonlinear_arith)
            requires
                sectors_read <= 255,
                bytes_per_sector <= 65535,
        ;
        let reported = sectors_read * bytes_per_sector / 32;
        let count = if reported < buffer.len() / 32 {
            reported
        } else {
            buffer.len() / 32
        };
        let ghost old_dirs = directories@;
        let result = parse_directory_entries(buffer.as_slice(), count, directories);
        proof {
            let b = buffer@;
            if let Some(found) = scan_entries(b, 0, count as int, None) {
                assert(found_view(directories@) == found_view(old_dirs) + found);
                assert(found_view(directories@).skip(old_dirs.len() as int) =~= found);
                assert(found_view(directories@).take(old_dirs.len() as int) =~= found_view(
                    old_dirs,
                ));
            }
            assert(found_view(directories@).take(old_dirs.len() as int) =~= found_view(
                directories@,
            ).subrange(0, old_dirs.len() as int));
        }
        match result {
            Ok(()) => Ok(()),
            Err(_) => Err(FsError::InvalidName),
        }
    }
}


/// Copies `len` bytes of `src` from `from` into `dst` at `at`.
pub fn copy_bytes(dst: &mut [u8], at: usize, src: &[u8], from: usize, len: usize)
    requires
        at + len <= old(dst).len(),
        from + len <= src.len(),
    ensures
        final(dst)@ == old(dst)@.subrange(0, at as int) + src@.subrange(from as int, from + len)
            + old(dst)@.subrange(at + len, old(dst)@.len() as int),
{
    let mut k: usize = 0;
    while k < len
        invariant
            at + len <= old(dst).len(),
            from + len <= src.len(),
            k <= len,
            dst@.len() == old(dst)@.len(),
            dst@ == old(dst)@.subrange(0, at as int) + src@.subrange(from as int, from + k)
                + old(dst)@.subrange(at + k, old(dst)@.len() as int),
        decreases len - k,
    {
        dst[at + k] = src[from + k];
        k = k + 1;
        assert(dst@ =~= old(dst)@.subrange(0, at as int) + src@.subrange(from as int, from + k)
            + old(dst)@.subrange(at + k, old(dst)@.len() as int));
    }
}

impl Fat32 {
    /// Appends the entries of every cluster of the folder that starts at
    /// `first_cluster`, following its chain (see `read_directories_from_cluster`).
    pub fn read_cluster_chain<D: Disk>(
        &self,
        drive: &D,
        first_cluster: usize,
        directories: &mut Vec<Directory>,
    ) -> (r: Result<(), FsError>)
        requires
            geometry_ok(self.ebpb_view()),
        ensures
            final(directories)@.len() >= old(directories)@.len(),
            found_view(final(directories)@).take(old(directories)@.len() as int) == found_view(
                old(directories)@,
            ),
            r is Ok ==> folder_scan(*self, drive, first_cluster) == Some(
                found_view(final(directories)@).skip(old(directories)@.len() as int),
            ),
            folder_scan(*self, drive, first_cluster) is None ==> r is Err,
            r matches Err(e) ==> e == FsError::DiskRead || folder_scan(*self, drive, first_cluster)
                is None,
            r matches Err(e) ==> e != FsError::BadGeometry,
    {
        let ghost start = found_view(directories@);
        let ghost l0 = directories@.len() as int;
        let mut cluster_chain = ClusterChain::new(Cluster(first_cluster), self, drive);
        assert(found_view(directories@).skip(l0) =~= Seq::<FoundEntry>::empty());
        loop
            invariant
                geometry_ok(self.ebpb_view()),
                cluster_chain.fat_view() == *self,
                cluster_chain.drive_view() == drive,
                l0 == old(directories)@.len(),
                folder_scan(*self, drive, first_cluster) == prefix_found(
                    found_view(directories@).skip(l0),
                    chain_scan(*self, drive, cluster_chain.entry(), cluster_chain.fuel() as nat),
                ),
                start == found_view(old(directories)@),
                directories@.len() >= old(directories)@.len(),
                found_view(directories@).take(old(directories)@.len() as int) == start,
            decreases cluster_chain.fuel(),
        {
            let ghost before = directories@;
            let ghost entry0 = cluster_chain.entry();
            let ghost fuel0 = cluster_chain.fuel();
            match cluster_chain.next() {
                Ok(Some(cluster)) => {
                    match self.read_directories_from_cluster(drive, cluster, directories) {
                        Ok(()) => {},
                        Err(e) => {
                            proof {
                                assert(found_view(directories@).take(start.len() as int) =~= found_view(
                                    directories@,
                                ).take(before.len() as int).take(start.len() as int));
                                if e != FsError::DiskRead {
                                    assert(entry0 == FatEntry::Node(cluster));
                                    assert(chain_scan(*self, drive, entry0, fuel0 as nat) is None);
                                }
                            }
                            return Err(e);
                        },
                    }
                    proof {
                        assert(found_view(directories@).take(start.len() as int) =~= found_view(
                            directories@,
                        ).take(before.len() as int).take(start.len() as int));
                        let found_c = found_view(directories@).skip(before.len() as int);
                        assert(found_view(directories@).skip(l0) =~= found_view(before).skip(l0)
                            + found_c) by {
                            assert(found_view(directories@).take(before.len() as int)
                                == found_view(before));
                        }
                        lemma_prefix_found_twice(
                            found_view(before).skip(l0),
                            found_c,
                            chain_scan(
                                *self,
                                drive,
                                cluster_chain.entry(),
                                cluster_chain.fuel() as nat,
                            ),
                        );
                        assert(entry0 == FatEntry::Node(cluster));
                        assert(chain_scan(*self, drive, entry0, fuel0 as nat) == prefix_found(
                            found_c,
                            chain_scan(
                                *self,
                                drive,
                                cluster_chain.entry(),
                                cluster_chain.fuel() as nat,
                            ),
                        ));
                    }
                },
                Ok(None) => {
                    proof {
                        assert(chain_scan(*self, drive, entry0, fuel0 as nat) == Some(
                            Seq::<FoundEntry>::empty(),
                        ));
                        assert(found_view(directories@).skip(l0) + Seq::<FoundEntry>::empty()
                            =~= found_view(directories@).skip(l0));
                    }
                    return Ok(());
                },
                Err(e) => {
                    proof {
                        if e != FsError::DiskRead {
                            assert(chain_scan(*self, drive, entry0, fuel0 as nat) is None);
                        }
                    }
                    return Err(e);
                },
            }
        }
    }

    /// The files and folders of the folder that starts at `cluster`.
    pub fn read_folder<D: Disk>(&self, drive: &D, cluster: usize) -> (r: Result<
        Vec<Directory>,
        FsError,
    >)
        requires
            geometry_ok(self.ebpb_view()),
        ensures
            r matches Ok(dirs) ==> folder_scan(*self, drive, cluster) == Some(found_view(dirs@)),
            folder_scan(*self, drive, cluster) is None ==> r is Err,
            r matches Err(e) ==> e == FsError::DiskRead || folder_scan(*self, drive, cluster) is None,
            r matches Err(e) ==> e != FsError::BadGeometry,
    {
        let mut directories: Vec<Directory> = Vec::new();
        match self.read_cluster_chain(drive, cluster, &mut directories) {
            Ok(()) => {},
            Err(e) => {
                return Err(e);
            },
        }
        assert(found_view(directories@).skip(0) =~= found_view(directories@));
        Ok(directories)
    }

    /// Follows `path` from the folder at `cluster`: each component names an
    /// entry of the current folder (see `match_component`); a folder is entered
    /// and the walk goes on with the rest of the path, and the first file met
    /// is the result. `None` when a component names nothing or the path ends
    /// at a folder.
    pub fn find_file<D: Disk>(&self, drive: &D, cluster: usize, path: &[String]) -> (r: Result<
        Option<Directory>,
        FsError,
    >)
        requires
            geometry_ok(self.ebpb_view()),
        ensures
            path@.len() == 0 ==> r == Ok::<Option<Directory>, FsError>(None),
            r matches Ok(Some(d)) ==> !entry_is_folder(d.fat_view().entry_bytes()),
            r matches Ok(x) ==> find_file_spec(*self, drive, cluster, strings_view(path@)) == Some(
                found_opt(x),
            ),
            find_file_spec(*self, drive, cluster, strings_view(path@)) is None ==> r is Err,
            r matches Err(e) ==> e != FsError::BadGeometry && (e == FsError::DiskRead
                || find_file_spec(*self, drive, cluster, strings_view(path@)) is None),
        decreases path@.len(),
    {
        if path.len() == 0 {
            // the path ends at a folder
            return Ok(None);
        }
        let component = &path[0];
        let current_dirs = match self.read_folder(drive, cluster) {
            Ok(dirs) => dirs,
            Err(e) => {
                return Err(e);
            },
        };
        proof {
            assert(names_view(current_dirs@) =~= found_names(found_view(current_dirs@)));
        }
        match find_by_name(&current_dirs, component) {
            Some(index) => {
                let dir = &current_dirs[index];
                if dir.get_fat_dir().is_folder() {
                    let rest = &path[1..path.len()];
                    proof {
                        assert(strings_view(rest@) =~= strings_view(path@).drop_first());
                    }
                    self.find_file(drive, dir.get_fat_dir().get_cluster() as usize, rest)
                } else {
                    Ok(Some(dir.clone()))
                }
            },
            None => Ok(None),
        }
    }

    /// Follows `path` from the folder at `cluster` like `find_file`, but gives
    /// the entry that the last component names, a folder as well as a file.
    pub fn find_entry<D: Disk>(&self, drive: &D, cluster: usize, path: &[String]) -> (r: Result<
        Option<Directory>,
        FsError,
    >)
        requires
            geometry_ok(self.ebpb_view()),
        ensures
            path@.len() == 0 ==> r == Ok::<Option<Directory>, FsError>(None),
            r matches Ok(x) ==> find_entry_spec(*self, drive, cluster, strings_view(path@)) == Some(
                found_opt(x),
            ),
            find_entry_spec(*self, drive, cluster, strings_view(path@)) is None ==> r is Err,
            r matches Err(e) ==> e != FsError::BadGeometry && (e == FsError::DiskRead
                || find_entry_spec(*self, drive, cluster, strings_view(path@)) is None),
        decreases path@.len(),
    {
        if path.len() == 0 {
            return Ok(None);
        }
        let component = &path[0];
        let current_dirs = match self.read_folder(drive, cluster) {
            Ok(dirs) => dirs,
            Err(e) => {
                return Err(e);
            },
        };
        proof {
            assert(names_view(current_dirs@) =~= found_names(found_view(current_dirs@)));
        }
        match find_by_name(&current_dirs, component) {
            Some(index) => {
                let dir = &current_dirs[index];
                if path.len() == 1 {
                    Ok(Some(dir.clone()))
                } else if dir.get_fat_dir().is_folder() {
                    let rest = &path[1..path.len()];
                    proof {
                        assert(strings_view(rest@) =~= strings_view(path@).drop_first());
                    }
                    self.find_entry(drive, dir.get_fat_dir().get_cluster() as usize, rest)
                } else {
                    Ok(None)
                }
            },
            None => Ok(None),
        }
    }

    /// Opens the file at `file_name`, a path from the root folder with `/`
    /// between components, at position 0.
    pub fn open_file<D: Disk>(&self, drive: &D, file_name: &str) -> (r: Result<
        Option<FilePointer<Directory>>,
        FsError,
    >)
        ensures
            (r == Err::<Option<FilePointer<Directory>>, FsError>(FsError::BadGeometry)) == !geometry_ok(
                self.ebpb_view(),
            ),
            r matches Ok(Some(p)) ==> p.position() == 0 && !entry_is_folder(
                p.file_view().fat_view().entry_bytes(),
            ),
            r matches Ok(x) ==> find_file_spec(
                *self,
                drive,
                self.ebpb_view().root_dir_cluster as usize,
                path_components(file_name@),
            ) == Some(
                match x {
                    Some(p) => found_opt(Some(p.file_view())),
                    None => None,
                },
            ),
            find_file_spec(
                *self,
                drive,
                self.ebpb_view().root_dir_cluster as usize,
                path_components(file_name@),
            ) is None ==> r is Err,
            r matches Err(e) ==> e == FsError::BadGeometry || e == FsError::DiskRead || find_file_spec(
                *self,
                drive,
                self.ebpb_view().root_dir_cluster as usize,
                path_components(file_name@),
            ) is None,
    {
        if !self.has_usable_geometry() {
            return Err(FsError::BadGeometry);
        }
        let path_components = split_path(file_name);
        match self.find_file(drive, self.ebpb.root_dir_cluster as usize, path_components.as_slice()) {
            Ok(Some(file)) => Ok(Some(FilePointer::new(0, file))),
            Ok(None) => Ok(None),
            Err(e) => Err(e),
        }
    }
}


/// The cluster that the `n`-th step along a chain (counted from 0) reaches,
/// from `entry` on and following the table on `disk` for at most `fuel`
/// clusters; `None` when the chain ends (or is cut off) before.
pub open spec fn nth_cluster<D: Disk>(fs: Fat32, disk: &D, entry: FatEntry, fuel: nat, n: int) -> Option<
    Cluster,
>
    decreases n,
{
    match entry {
        FatEntry::Node(c) => if fuel == 0 {
            None
        } else if n <= 0 {
            Some(c)
        } else {
            nth_cluster(fs, disk, table_entry(fs, disk, c.0 as int), (fuel - 1) as nat, n - 1)
        },
        _ => None,
    }
}

/// Byte `x` of the file whose chain starts at `first`: byte `x % size` of
/// its cluster number `x / size` (clusters of `size` bytes), as a read of that
/// cluster gives it.
pub open spec fn file_byte<D: Disk>(fs: Fat32, disk: &D, first: usize, x: int) -> u8 {
    let cs = fs.cluster_bytes();
    match nth_cluster(fs, disk, FatEntry::Node(Cluster(first)), MAX_CHAIN_LENGTH as nat, x / cs) {
        Some(c) => disk.read_view(fs.cluster_sector(c.0 as int) as u64, cs as nat)[x % cs],
        None => 0,
    }
}

/// `after` is `before` with its first `w` bytes replaced by the bytes of the
/// file whose chain starts at `first`, from position `pos` on; the copy
/// stopped with at most one byte left or where the chain ends.
pub open spec fn file_read_by<D: Disk>(
    fs: Fat32,
    disk: &D,
    first: usize,
    pos: int,
    before: Seq<u8>,
    after: Seq<u8>,
    w: int,
) -> bool {
    let len = before.len() as int;
    &&& after.len() == len
    &&& 0 <= w <= len
    &&& forall|k: int| 0 <= k < w ==> #[trigger] after[k] == file_byte(fs, disk, first, pos + k)
    &&& after.subrange(w, len) == before.subrange(w, len)
    &&& (w >= len - 1 || nth_cluster(
        fs,
        disk,
        FatEntry::Node(Cluster(first)),
        MAX_CHAIN_LENGTH as nat,
        (pos + w) / fs.cluster_bytes(),
    ) is None)
}

/// The cluster cannot be read: its number lies outside the data area, or is
/// too large to find its entry in the table.
pub open spec fn cluster_unreadable(fs: Fat32, c: Option<Cluster>) -> bool {
    match c {
        Some(c) => c.0 > usize::MAX / 4 || !fs.cluster_ok(c.0 as int),
        None => false,
    }
}

/// Some cluster along the chain that starts at `first` cannot be read.
pub open spec fn chain_has_bad_cluster<D: Disk>(fs: Fat32, disk: &D, first: usize) -> bool {
    exists|k: int|
        0 <= k && cluster_unreadable(
            fs,
            #[trigger] nth_cluster(fs, disk, FatEntry::Node(Cluster(first)), MAX_CHAIN_LENGTH as nat, k),
        )
}

impl Fat32 {
    /// Reads the file from the pointer's position into `buffer`: skips the
    /// clusters before the position, then copies cluster after cluster until
    /// the chain ends or at most one byte of `buffer` is left unfilled.
    /// Returns the length of `buffer`. The bytes copied are the file's bytes
    /// from the position on (see `file_byte`); the bytes after them keep
    /// their value. It fails with `BadCluster` only where a cluster along the
    /// file's chain cannot be read, and otherwise only where the disk fails.
    pub fn read_file_contents<D: Disk>(
        &self,
        drive: &D,
        file_pointer: &FilePointer<Directory>,
        buffer: &mut [u8],
    ) -> (r: Result<Option<usize>, FsError>)
        requires
            geometry_ok(self.ebpb_view()),
        ensures
            final(buffer)@.len() == old(buffer)@.len(),
            r is Ok ==> (r matches Ok(Some(n)) && n == old(buffer)@.len()),
            r is Ok ==> exists|w: int|
                #[trigger] file_read_by(
                    *self,
                    drive,
                    entry_cluster(file_pointer.file_view().fat_view().entry_bytes()) as usize,
                    file_pointer.position() as int,
                    old(buffer)@,
                    final(buffer)@,
                    w,
                ),
            r matches Err(e) ==> e == FsError::DiskRead || (e == FsError::BadCluster
                && chain_has_bad_cluster(
                *self,
                drive,
                entry_cluster(file_pointer.file_view().fat_view().entry_bytes()) as usize,
            )),
    {
        let cluster_size = self.get_bytes_in_cluster();
        proof {
            assert(cluster_size >= 1) by (nonlinear_arith)
                requires
                    cluster_size == self.ebpb_view().bpb.sectors_per_cluster
                        * self.ebpb_view().bpb.bytes_per_sector,
                    self.ebpb_view().bpb.sectors_per_cluster >= 1,
                    self.ebpb_view().bpb.bytes_per_sector >= 4,
            ;
        }
        let pos = file_pointer.get_current();
        let first_read_cluster = pos / cluster_size;
        let first_cluster = file_pointer.get_file().get_fat_dir().get_cluster() as usize;
        let ghost start = FatEntry::Node(Cluster(first_cluster));
        let ghost max = MAX_CHAIN_LENGTH as nat;
        let mut cluster_chain = ClusterChain::new(Cluster(first_cluster), self, drive);

        // skip the clusters before the one that holds the position
        let mut skipped: usize = 0;
        while skipped < first_read_cluster
            invariant
                geometry_ok(self.ebpb_view()),
                cluster_chain.fat_view() == *self,
                cluster_chain.drive_view() == drive,
                buffer@.len() == old(buffer)@.len(),
                buffer@ == old(buffer)@,
                skipped <= first_read_cluster,
                first_cluster == entry_cluster(file_pointer.file_view().fat_view().entry_bytes()),
                start == FatEntry::Node(Cluster(first_cluster)),
                max == MAX_CHAIN_LENGTH as nat,
                forall|m: int| 0 <= m ==>
                    #[trigger] nth_cluster(
                        *self,
                        drive,
                        cluster_chain.entry(),
                        cluster_chain.fuel() as nat,
                        m,
                    ) == nth_cluster(*self, drive, start, max, m + skipped),
            decreases first_read_cluster - skipped,
        {
            let ghost e0 = cluster_chain.entry();
            let ghost f0 = cluster_chain.fuel() as nat;
            let step = match cluster_chain.next() {
                Ok(step) => step,
                Err(e) => {
                    proof {
                        if e != FsError::DiskRead {
                            assert(nth_cluster(*self, drive, e0, f0, 0) == nth_cluster(
                                *self,
                                drive,
                                start,
                                max,
                                skipped as int,
                            ));
                        }
                    }
                    return Err(e);
                },
            };
            proof {
                assert forall|m: int| 0 <= m implies
                    #[trigger] nth_cluster(
                        *self,
                        drive,
                        cluster_chain.entry(),
                        cluster_chain.fuel() as nat,
                        m,
                    ) == nth_cluster(*self, drive, start, max, m + skipped + 1) by {
                    assert(nth_cluster(*self, drive, e0, f0, m + 1) == nth_cluster(
                        *self,
                        drive,
                        start,
                        max,
                        m + 1 + skipped,
                    ));
                    if step is None {
                        // the chain had ended: every step is past its end
                        assert(nth_cluster(*self, drive, e0, f0, m) is None);
                        assert(nth_cluster(*self, drive, e0, f0, m + 1) is None);
                    } else {
                        assert(nth_cluster(*self, drive, e0, f0, m + 1) == nth_cluster(
                            *self,
                            drive,
                            cluster_chain.entry(),
                            cluster_chain.fuel() as nat,
                            m,
                        ));
                    }
                }
            }
            skipped = skipped + 1;
        }

        let mut write_current: usize = 0;
        // the position within the cluster being read
        let mut read_current = pos % cluster_size;
        let ghost e1 = cluster_chain.entry();
        let ghost f1 = cluster_chain.fuel() as nat;
        let mut current_cluster = match cluster_chain.next() {
            Ok(step) => step,
            Err(e) => {
                proof {
                    if e != FsError::DiskRead {
                        assert(nth_cluster(*self, drive, e1, f1, 0) == nth_cluster(
                            *self,
                            drive,
                            start,
                            max,
                            first_read_cluster as int,
                        ));
                    }
                }
                return Err(e);
            },
        };
        let ghost mut read: nat = 0;
        proof {
            assert(current_cluster == nth_cluster(*self, drive, e1, f1, 0));
            assert forall|m: int| 0 <= m implies
                #[trigger] nth_cluster(
                    *self,
                    drive,
                    cluster_chain.entry(),
                    cluster_chain.fuel() as nat,
                    m,
                ) == nth_cluster(*self, drive, start, max, m + first_read_cluster + 1) by {
                assert(nth_cluster(*self, drive, e1, f1, m + 1) == nth_cluster(
                    *self,
                    drive,
                    start,
                    max,
                    m + 1 + first_read_cluster,
                ));
                if current_cluster is None {
                    assert(nth_cluster(*self, drive, e1, f1, m + 1) is None);
                } else {
                    assert(nth_cluster(*self, drive, e1, f1, m + 1) == nth_cluster(
                        *self,
                        drive,
                        cluster_chain.entry(),
                        cluster_chain.fuel() as nat,
                        m,
                    ));
                }
            }
            assert(buffer@.subrange(0, buffer@.len() as int) =~= old(buffer)@.subrange(
                0,
                buffer@.len() as int,
            ));
        }
        let mut temp_buff = vec![0u8; cluster_size];
        while current_cluster.is_some() && buffer.len() > 0 && write_current < buffer.len() - 1
            invariant
                geometry_ok(self.ebpb_view()),
                cluster_chain.fat_view() == *self,
                cluster_chain.drive_view() == drive,
                cluster_size == self.cluster_bytes(),
                cluster_size >= 1,
                temp_buff@.len() == cluster_size,
                buffer@.len() == old(buffer)@.len(),
                write_current <= buffer@.len(),
                read_current < cluster_size,
                first_read_cluster == pos / cluster_size,
                pos == file_pointer.position(),
                first_cluster == entry_cluster(file_pointer.file_view().fat_view().entry_bytes()),
                start == FatEntry::Node(Cluster(first_cluster)),
                max == MAX_CHAIN_LENGTH as nat,
                current_cluster == nth_cluster(*self, drive, start, max, first_read_cluster + read),
                forall|m: int| 0 <= m ==>
                    #[trigger] nth_cluster(
                        *self,
                        drive,
                        cluster_chain.entry(),
                        cluster_chain.fuel() as nat,
                        m,
                    ) == nth_cluster(*self, drive, start, max, m + first_read_cluster + read + 1),
                read == 0 ==> write_current == 0 && read_current == pos % cluster_size,
                read > 0 && write_current < buffer@.len() - 1 ==> pos + write_current == (
                first_read_cluster + read) * cluster_size && read_current == 0,
                forall|k: int|
                    0 <= k < write_current ==> #[trigger] buffer@[k] == file_byte(
                        *self,
                        drive,
                        first_cluster,
                        pos + k,
                    ),
                buffer@.subrange(write_current as int, buffer@.len() as int) == old(
                    buffer,
                )@.subrange(write_current as int, buffer@.len() as int),
            decreases cluster_chain.fuel(), if current_cluster.is_some() {
                1int
            } else {
                0int
            },
        {
            let cluster = match current_cluster {
                Some(c) => c,
                None => Cluster(0),
            };
            if !self.cluster_in_range(cluster.0) {
                proof {
                    assert(cluster_unreadable(
                        *self,
                        nth_cluster(*self, drive, start, max, first_read_cluster + read),
                    ));
                }
                return Err(FsError::BadCluster);
            }
            let sector_to_read = self.first_sector_of_cluster(cluster.0);
            match drive.read(sector_to_read, temp_buff.as_mut_slice()) {
                Ok(_) => {},
                Err(_) => {
                    return Err(FsError::DiskRead);
                },
            }

            let read_index = read_current % cluster_size;
            let in_cluster = cluster_size - read_index;
            let in_buffer = buffer.len() - write_current;
            let read_len = if in_cluster < in_buffer {
                in_cluster
            } else {
                in_buffer
            };
            let ghost before = buffer@;
            copy_bytes(buffer, write_current, temp_buff.as_slice(), read_index, read_len);
            proof {
                let cs = cluster_size as int;
                let q = (first_read_cluster + read) as int;
                // the position of the first byte copied
                vstd::arithmetic::div_mod::lemma_small_mod(read_current as nat, cs as nat);
                assert(read_index == read_current);
                assert(pos + write_current == q * cs + read_index) by {
                    if read == 0 {
                        vstd::arithmetic::div_mod::lemma_fundamental_div_mod(pos as int, cs);
                        assert(q * cs + read_index == cs * (pos as int / cs) + pos as int % cs)
                            by (nonlinear_arith)
                            requires
                                q == pos as int / cs,
                                read_index == pos as int % cs,
                        ;
                    }
                }
                assert forall|k: int|
                    0 <= k < write_current + read_len implies #[trigger] buffer@[k] == file_byte(
                    *self,
                    drive,
                    first_cluster,
                    pos + k,
                ) by {
                    if k >= write_current {
                        let j = k - write_current;
                        assert(buffer@[k] == temp_buff@[read_index + j]);
                        let x = pos + k;
                        assert(x == q * cs + (read_index + j));
                        assert(x / cs == q && x % cs == read_index + j) by {
                            vstd::arithmetic::div_mod::lemma_fundamental_div_mod_converse(
                                x,
                                cs,
                                q,
                                read_index + j,
                            );
                        }
                    } else {
                        assert(buffer@[k] == before[k]);
                    }
                }
                assert(buffer@.subrange(write_current + read_len, buffer@.len() as int) =~= old(
                    buffer,
                )@.subrange(write_current + read_len, buffer@.len() as int)) by {
                    assert(before.subrange(write_current as int, before.len() as int) == old(
                        buffer,
                    )@.subrange(write_current as int, before.len() as int));
                    assert forall|t: int|
                        write_current + read_len <= t < buffer@.len() implies buffer@[t] == old(
                        buffer,
                    )@[t] by {
                        assert(buffer@[t] == before[t]);
                        assert(before[t] == before.subrange(
                            write_current as int,
                            before.len() as int,
                        )[t - write_current]);
                    }
                }
                if read_len == in_cluster {
                    assert((q + 1) * cs == q * cs + cs) by (nonlinear_arith);
                    assert(pos + write_current + read_len == (q + 1) * cs);
                    assert((read_index + read_len) as int % cs == 0) by {
                        vstd::arithmetic::div_mod::lemma_mod_self_0(cs);
                    }
                } else {
                    assert(write_current + read_len == buffer@.len());
                }
            }

            write_current = write_current + read_len;
            read_current = (read_index + read_len) % cluster_size;
            let ghost e2 = cluster_chain.entry();
            let ghost f2 = cluster_chain.fuel() as nat;
            current_cluster = match cluster_chain.next() {
                Ok(step) => step,
                Err(e) => {
                    proof {
                        if e != FsError::DiskRead {
                            assert(nth_cluster(*self, drive, e2, f2, 0) == nth_cluster(
                                *self,
                                drive,
                                start,
                                max,
                                first_read_cluster + read + 1,
                            ));
                        }
                    }
                    return Err(e);
                },
            };
            proof {
                assert(current_cluster == nth_cluster(*self, drive, e2, f2, 0));
                assert forall|m: int| 0 <= m implies
                    #[trigger] nth_cluster(
                        *self,
                        drive,
                        cluster_chain.entry(),
                        cluster_chain.fuel() as nat,
                        m,
                    ) == nth_cluster(*self, drive, start, max, m + first_read_cluster + read + 2) by {
                    assert(nth_cluster(*self, drive, e2, f2, m + 1) == nth_cluster(
                        *self,
                        drive,
                        start,
                        max,
                        m + 1 + first_read_cluster + read + 1,
                    ));
                    if current_cluster is None {
                        assert(nth_cluster(*self, drive, e2, f2, m + 1) is None);
                    } else {
                        assert(nth_cluster(*self, drive, e2, f2, m + 1) == nth_cluster(
                            *self,
                            drive,
                            cluster_chain.entry(),
                            cluster_chain.fuel() as nat,
                            m,
                        ));
                    }
                }
                read = read + 1;
            }
        }
        proof {
            let len = buffer@.len() as int;
            let w = write_current as int;
            if !(w >= len - 1) {
                assert(current_cluster is None);
                let cs = cluster_size as int;
                if read == 0 {
                    assert((pos + w) / cs == first_read_cluster);
                } else {
                    assert((pos + w) / cs == first_read_cluster + read) by {
                        vstd::arithmetic::div_mod::lemma_fundamental_div_mod_converse(
                            pos + w,
                            cs,
                            (first_read_cluster + read) as int,
                            0,
                        );
                    }
                }
            }
            assert(file_read_by(
                *self,
                drive,
                first_cluster,
                pos as int,
                old(buffer)@,
                buffer@,
                write_current as int,
            ));
        }
        Ok(Some(buffer.len()))
    }
}

impl crate::filesystem::Filesystem for Fat32 {
    type EntryType = Directory;

    open spec fn is_root(&self, entry: Directory) -> bool {
        &&& entry.name_view() == seq!['.']
        &&& entry_is_folder(entry.fat_view().entry_bytes())
        &&& entry_cluster(entry.fat_view().entry_bytes()) == self.ebpb_view().root_dir_cluster
    }

    /// The root folder, as its entry `.`.
    fn get_root_directory(&self) -> (r: Directory)
        ensures
            r.name_view() == seq!['.'],
            entry_is_folder(r.fat_view().entry_bytes()),
            crate::filesystem::fat32::directory::entry_cluster(r.fat_view().entry_bytes())
                == self.ebpb_view().root_dir_cluster,
    {
        let name = String::from_str(".");
        proof {
            reveal_strlit(".");
        }
        let dir = FatDirectory::with_cluster(self.ebpb.root_dir_cluster);
        assert(0x10u8 & 0x10u8 == 0x10u8) by (bit_vector);
        let r = Directory::new(name, dir);
        assert(r.name_view() == seq!['.']);
        assert(entry_is_folder(r.fat_view().entry_bytes()));
        assert(self.is_root(r));
        r
    }
}

impl<D: Disk> crate::filesystem::FilesystemOn<D> for Fat32 {
    open spec fn usable(&self) -> bool {
        geometry_ok(self.ebpb_view())
    }

    open spec fn unreadable_folder(&self, drive: &D, folder: Directory) -> bool {
        folder_scan(*self, drive, entry_cluster(folder.fat_view().entry_bytes()) as usize) is None
    }

    open spec fn unreadable_path(&self, drive: &D, path: Seq<char>) -> bool {
        find_entry_spec(
            *self,
            drive,
            self.ebpb_view().root_dir_cluster as usize,
            path_components(path),
        ) is None
    }

    open spec fn lists(&self, drive: &D, folder: Directory, children: Seq<Directory>) -> bool {
        folder_scan(*self, drive, entry_cluster(folder.fat_view().entry_bytes()) as usize) == Some(
            found_view(children),
        )
    }

    open spec fn names(&self, drive: &D, path: Seq<char>, entry: Option<Directory>) -> bool {
        find_entry_spec(
            *self,
            drive,
            self.ebpb_view().root_dir_cluster as usize,
            path_components(path),
        ) == Some(found_opt(entry))
    }

    open spec fn leads_to(&self, drive: &D, path: Seq<char>, file: Option<Directory>) -> bool {
        find_file_spec(
            *self,
            drive,
            self.ebpb_view().root_dir_cluster as usize,
            path_components(path),
        ) == Some(found_opt(file))
    }

    open spec fn reads(
        &self,
        drive: &D,
        file_pointer: FilePointer<Directory>,
        before: Seq<u8>,
        after: Seq<u8>,
    ) -> bool {
        exists|w: int|
            #[trigger] file_read_by(
                *self,
                drive,
                entry_cluster(file_pointer.file_view().fat_view().entry_bytes()) as usize,
                file_pointer.position() as int,
                before,
                after,
                w,
            )
    }

    /// The files and folders in `directory`, or why they could not be read:
    /// `BadGeometry` when the volume's sizes cannot be used, else `DiskRead`
    /// or an error of the folder's own (see `read_folder`).
    fn get_child_directories(&self, drive: &D, directory: &Directory) -> (r: Result<
        Vec<Directory>,
        FsError,
    >)
        ensures
            (r == Err::<Vec<Directory>, FsError>(FsError::BadGeometry)) == !geometry_ok(
                self.ebpb_view(),
            ),
            r matches Ok(v) ==> folder_scan(
                *self,
                drive,
                entry_cluster(directory.fat_view().entry_bytes()) as usize,
            ) == Some(found_view(v@)),
            r matches Err(e) ==> e == FsError::BadGeometry || e == FsError::DiskRead || folder_scan(
                *self,
                drive,
                entry_cluster(directory.fat_view().entry_bytes()) as usize,
            ) is None,
    {
        if !self.has_usable_geometry() {
            return Err(FsError::BadGeometry);
        }
        self.read_folder(drive, directory.get_fat_dir().get_cluster() as usize)
    }

    /// The file or folder at `directory_path` (see `find_entry`), or why the
    /// folders on the way could not be read.
    fn get_directory(&self, drive: &D, directory_path: &str) -> (r: Result<
        Option<Directory>,
        FsError,
    >)
        ensures
            (r == Err::<Option<Directory>, FsError>(FsError::BadGeometry)) == !geometry_ok(
                self.ebpb_view(),
            ),
            r matches Ok(x) ==> find_entry_spec(
                *self,
                drive,
                self.ebpb_view().root_dir_cluster as usize,
                path_components(directory_path@),
            ) == Some(found_opt(x)),
            r matches Err(e) ==> e == FsError::BadGeometry || e == FsError::DiskRead
                || find_entry_spec(
                *self,
                drive,
                self.ebpb_view().root_dir_cluster as usize,
                path_components(directory_path@),
            ) is None,
    {
        if !self.has_usable_geometry() {
            return Err(FsError::BadGeometry);
        }
        let path_components = split_path(directory_path);
        self.find_entry(drive, self.ebpb.root_dir_cluster as usize, path_components.as_slice())
    }

    /// The file at `file_path` (see `open_file`).
    fn get_file(&self, drive: &D, file_path: &str) -> (r: Result<Directory, crate::filesystem::OpenError>)
        ensures
            r matches Ok(d) ==> !entry_is_folder(d.fat_view().entry_bytes()),
            r matches Ok(d) ==> geometry_ok(self.ebpb_view()) && find_file_spec(
                *self,
                drive,
                self.ebpb_view().root_dir_cluster as usize,
                path_components(file_path@),
            ) == Some(found_opt(Some(d))),
            r == Err::<Directory, crate::filesystem::OpenError>(
                crate::filesystem::OpenError::FileNotFound,
            ) ==> geometry_ok(self.ebpb_view()) && find_file_spec(
                *self,
                drive,
                self.ebpb_view().root_dir_cluster as usize,
                path_components(file_path@),
            ) == Some(None::<FoundEntry>),
            !geometry_ok(self.ebpb_view()) ==> r == Err::<Directory, crate::filesystem::OpenError>(
                crate::filesystem::OpenError::DiskError,
            ),
            geometry_ok(self.ebpb_view()) && find_file_spec(
                *self,
                drive,
                self.ebpb_view().root_dir_cluster as usize,
                path_components(file_path@),
            ) is None ==> r == Err::<Directory, crate::filesystem::OpenError>(
                crate::filesystem::OpenError::DiskError,
            ),
            r matches Err(e) ==> e == crate::filesystem::OpenError::FileNotFound || e
                == crate::filesystem::OpenError::DiskError,
    {
        match self.open_file(drive, file_path) {
            Ok(Some(pointer)) => Ok(pointer.get_file().clone()),
            Ok(None) => Err(crate::filesystem::OpenError::FileNotFound),
            Err(_) => Err(crate::filesystem::OpenError::DiskError),
        }
    }

    /// Reads the file into `buffer` (see `read_file_contents`); `None` when
    /// reading fails.
    fn read_file(
        &self,
        drive: &D,
        file_pointer: &FilePointer<Directory>,
        buffer: &mut [u8],
    ) -> (r: Option<usize>)
        ensures
            r matches Some(n) ==> n == old(buffer)@.len(),
            !geometry_ok(self.ebpb_view()) ==> r is None && final(buffer)@ == old(buffer)@,
            r is Some ==> exists|w: int|
                #[trigger] file_read_by(
                    *self,
                    drive,
                    entry_cluster(file_pointer.file_view().fat_view().entry_bytes()) as usize,
                    file_pointer.position() as int,
                    old(buffer)@,
                    final(buffer)@,
                    w,
                ),
    {
        if !self.has_usable_geometry() {
            return None;
        }
        match self.read_file_contents(drive, file_pointer, buffer) {
            Ok(result) => result,
            Err(_) => None,
        }
    }
}

} // verus!
