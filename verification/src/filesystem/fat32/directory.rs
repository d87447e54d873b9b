use vstd::prelude::*;
use vstd::utf8::{decode_utf8, valid_utf8};
use vstd::string::StringExecFns;
use crate::filesystem::descriptor::File;
use crate::filesystem::fat32::table::{
    le16, le32, u16_bytes, u32_bytes, read_u16, read_u32, lemma_bytes_of_le16, lemma_bytes_of_le32,
};
use crate::text::{string_from_utf8, trim, trim_spec, utf16_lossy, utf16_decode_lossy};

verus! {

/// Bits of a directory entry's attribute byte.
#[derive(PartialEq, Eq, Structural, Clone, Copy, Debug)]
pub enum FileAttributes {
    ReadOnly,
    Hidden,
    System,
    VolumeId,
    Directory,
    Archive,
    LongName,
}

impl FileAttributes {
    pub open spec fn bits_spec(self) -> u8 {
        match self {
            FileAttributes::ReadOnly => 0x01,
            FileAttributes::Hidden => 0x02,
            FileAttributes::System => 0x04,
            FileAttributes::VolumeId => 0x08,
            FileAttributes::Directory => 0x10,
            FileAttributes::Archive => 0x20,
            FileAttributes::LongName => 0x0F,
        }
    }

    /// The attribute's bit pattern; a long-name entry has the four lowest bits set.
    pub fn bits(&self) -> (r: u8)
        ensures
            r == self.bits_spec(),
    {
        match self {
            FileAttributes::ReadOnly => 0x01,
            FileAttributes::Hidden => 0x02,
            FileAttributes::System => 0x04,
            FileAttributes::VolumeId => 0x08,
            FileAttributes::Directory => 0x10,
            FileAttributes::Archive => 0x20,
            FileAttributes::LongName => 0x0F,
        }
    }
}

/// A 32-byte directory entry as it lies on disk.
#[derive(Debug, Copy, Clone)]
pub struct FatDirectory {
    pub name: [u8; 11],
    attributes: u8,
    flags_nt: u8,
    creation_time_precise: u8,
    creation_time: u16,
    creation_date: u16,
    last_accessed: u16,
    first_cluster_high: u16,
    last_modified_time: u16,
    last_modified_date: u16,
    first_cluster_low: u16,
    file_size: u32,
}

// ---------------------------------------------------------------------------
// The fields of a 32-byte entry.

/// The entry's first cluster: high half at byte 20, low half at byte 26.
pub open spec fn entry_cluster(e: Seq<u8>) -> u32 {
    (le16(e, 20) * 65536 + le16(e, 26)) as u32
}

/// The entry's size in bytes, at byte 28.
pub open spec fn entry_file_size(e: Seq<u8>) -> u32 {
    le32(e, 28)
}

/// The attribute byte marks a long-name entry.
pub open spec fn entry_is_lfn(e: Seq<u8>) -> bool {
    e[11] == 0x0F
}

/// The attribute byte has the directory bit.
pub open spec fn entry_is_folder(e: Seq<u8>) -> bool {
    e[11] & 0x10 == 0x10
}

/// The thirteen UTF-16 code units of a long-name entry, from bytes 1-10, 14-25 and 28-31.
pub open spec fn lfn_units(e: Seq<u8>) -> Seq<u16> {
    seq![
        le16(e, 1),
        le16(e, 3),
        le16(e, 5),
        le16(e, 7),
        le16(e, 9),
        le16(e, 14),
        le16(e, 16),
        le16(e, 18),
        le16(e, 20),
        le16(e, 22),
        le16(e, 24),
        le16(e, 28),
        le16(e, 30),
    ]
}

/// Number of code units before the first 0x0000 or 0xFFFF (all of them when there is none).
pub open spec fn lfn_length(units: Seq<u16>, i: int) -> int
    decreases units.len() - i,
{
    if i >= units.len() {
        units.len() as int
    } else if units[i] == 0xFFFF || units[i] == 0 {
        i
    } else {
        lfn_length(units, i + 1)
    }
}

/// The part of a long name that a long-name entry holds.
pub open spec fn long_name_spec(e: Seq<u8>) -> Seq<char> {
    utf16_decode_lossy(lfn_units(e).take(lfn_length(lfn_units(e), 0)))
}

/// The entry's 8.3 name, decoded and without surrounding white space.
pub open spec fn short_name_spec(e: Seq<u8>) -> Seq<char> {
    trim_spec(decode_utf8(e.take(11)))
}

impl FatDirectory {
    /// The 32 bytes that the entry stands for.
    pub closed spec fn entry_bytes(&self) -> Seq<u8> {
        self.name@ + seq![self.attributes, self.flags_nt, self.creation_time_precise] + u16_bytes(
            self.creation_time,
        ) + u16_bytes(self.creation_date) + u16_bytes(self.last_accessed) + u16_bytes(
            self.first_cluster_high,
        ) + u16_bytes(self.last_modified_time) + u16_bytes(self.last_modified_date) + u16_bytes(
            self.first_cluster_low,
        ) + u32_bytes(self.file_size)
    }

    proof fn lemma_entry_bytes(&self)
        ensures
            self.entry_bytes().len() == 32,
            self.entry_bytes().take(11) == self.name@,
            self.entry_bytes()[11] == self.attributes,
            le16(self.entry_bytes(), 14) == self.creation_time,
            le16(self.entry_bytes(), 16) == self.creation_date,
            le16(self.entry_bytes(), 18) == self.last_accessed,
            le16(self.entry_bytes(), 20) == self.first_cluster_high,
            le16(self.entry_bytes(), 22) == self.last_modified_time,
            le16(self.entry_bytes(), 24) == self.last_modified_date,
            le16(self.entry_bytes(), 26) == self.first_cluster_low,
            le32(self.entry_bytes(), 28) == self.file_size,
            le16(self.entry_bytes(), 28) == self.file_size % 65536,
            le16(self.entry_bytes(), 30) == self.file_size / 65536,
            forall|k: int| 0 <= k < 11 ==> #[trigger] self.entry_bytes()[k] == self.name@[k],
    {
        let e = self.entry_bytes();
        assert(e.take(11) =~= self.name@);
        assert(e[14] == self.creation_time % 256);
        assert(e[15] == self.creation_time / 256);
        assert(e[16] == self.creation_date % 256);
        assert(e[17] == self.creation_date / 256);
        assert(e[18] == self.last_accessed % 256);
        assert(e[19] == self.last_accessed / 256);
        assert(e[20] == self.first_cluster_high % 256);
        assert(e[21] == self.first_cluster_high / 256);
        assert(e[22] == self.last_modified_time % 256);
        assert(e[23] == self.last_modified_time / 256);
        assert(e[24] == self.last_modified_date % 256);
        assert(e[25] == self.last_modified_date / 256);
        assert(e[26] == self.first_cluster_low % 256);
        assert(e[27] == self.first_cluster_low / 256);
        assert(e[28] == self.file_size % 256);
        assert(e[29] == (self.file_size / 256) % 256);
        assert(e[30] == (self.file_size / 65536) % 256);
        assert(e[31] == self.file_size / 16777216);
    }

    /// Reads the entry at byte `at`.
    pub fn parse(b: &[u8], at: usize) -> (r: FatDirectory)
        requires
            at + 32 <= b@.len(),
        ensures
            r.entry_bytes() == b@.subrange(at as int, at + 32),
    {
        let r = FatDirectory {
            name: [
                b[at],
                b[at + 1],
                b[at + 2],
                b[at + 3],
                b[at + 4],
                b[at + 5],
                b[at + 6],
                b[at + 7],
                b[at + 8],
                b[at + 9],
                b[at + 10],
            ],
            attributes: b[at + 11],
            flags_nt: b[at + 12],
            creation_time_precise: b[at + 13],
            creation_time: read_u16(b, at + 14),
            creation_date: read_u16(b, at + 16),
            last_accessed: read_u16(b, at + 18),
            first_cluster_high: read_u16(b, at + 20),
            last_modified_time: read_u16(b, at + 22),
            last_modified_date: read_u16(b, at + 24),
            first_cluster_low: read_u16(b, at + 26),
            file_size: read_u32(b, at + 28),
        };
        proof {
            let a = at as int;
            let bs = b@;
            lemma_bytes_of_le16(bs, a + 14);
            lemma_bytes_of_le16(bs, a + 16);
            lemma_bytes_of_le16(bs, a + 18);
            lemma_bytes_of_le16(bs, a + 20);
            lemma_bytes_of_le16(bs, a + 22);
            lemma_bytes_of_le16(bs, a + 24);
            lemma_bytes_of_le16(bs, a + 26);
            lemma_bytes_of_le32(bs, a + 28);
            assert(r.name@ =~= bs.subrange(a, a + 11));
            let head = r.name@ + seq![r.attributes, r.flags_nt, r.creation_time_precise];
            assert(head =~= bs.subrange(a, a + 14));
            assert(r.entry_bytes() =~= bs.subrange(a, a + 32));
        }
        r
    }

    /// The entry `.` of a folder whose first cluster is `cluster`.
    pub fn with_cluster(cluster: u32) -> (r: Self)
        ensures
            r.entry_bytes()[0] == 0x2E,
            forall|k: int| 1 <= k < 11 ==> #[trigger] r.entry_bytes()[k] == 0,
            r.entry_bytes()[11] == 0x10,
            entry_cluster(r.entry_bytes()) == cluster,
            entry_file_size(r.entry_bytes()) == 0,
            forall|k: int| 12 <= k < 20 ==> #[trigger] r.entry_bytes()[k] == 0,
            forall|k: int| 22 <= k < 26 ==> #[trigger] r.entry_bytes()[k] == 0,
    {
        let high = (cluster >> 16) as u16;
        let low = (cluster & 0xFFFF) as u16;
        assert(high * 65536 + low == cluster) by (bit_vector)
            requires
                high == (cluster >> 16u32) as u16,
                low == (cluster & 0xFFFF) as u16,
        ;
        let r = FatDirectory {
            name: [0x2E, 0, 0, 0, 0, 0, 0, 0, 0, 0, 0],
            attributes: FileAttributes::Directory.bits(),
            flags_nt: 0,
            creation_time_precise: 0,
            creation_time: 0,
            creation_date: 0,
            last_accessed: 0,
            first_cluster_high: high,
            last_modified_time: 0,
            last_modified_date: 0,
            first_cluster_low: low,
            file_size: 0,
        };
        proof {
            r.lemma_entry_bytes();
        }
        r
    }

    /// The 8.3 name, decoded from UTF-8 and trimmed.
    pub fn get_short_name(&self) -> (r: String)
        requires
            valid_utf8(self.entry_bytes().take(11)),
        ensures
            r@ == short_name_spec(self.entry_bytes()),
    {
        proof {
            self.lemma_entry_bytes();
        }
        match self.try_short_name() {
            Some(name) => name,
            None => String::new(),
        }
    }

    /// The 8.3 name, decoded from UTF-8 and trimmed, or `None` when the name
    /// is not valid UTF-8.
    pub fn try_short_name(&self) -> (r: Option<String>)
        ensures
            r is Some <==> valid_utf8(self.entry_bytes().take(11)),
            r matches Some(s) ==> s@ == short_name_spec(self.entry_bytes()),
    {
        proof {
            self.lemma_entry_bytes();
        }
        let mut bytes: Vec<u8> = Vec::new();
        let mut index: usize = 0;
        while index < 11
            invariant
                index <= 11,
                bytes@ == self.name@.take(index as int),
            decreases 11 - index,
        {
            bytes.push(self.name[index]);
            index = index + 1;
            assert(bytes@ =~= self.name@.take(index as int));
        }
        assert(bytes@ =~= self.name@);
        match string_from_utf8(bytes) {
            Some(decoded) => Some(trim(decoded.as_str()).to_owned()),
            None => None,
        }
    }

    /// The first cluster of the file or folder.
    pub fn get_cluster(&self) -> (r: u32)
        ensures
            r == entry_cluster(self.entry_bytes()),
    {
        proof {
            self.lemma_entry_bytes();
        }
        let high = self.first_cluster_high;
        let low = self.first_cluster_low;
        let r = ((high as u32) << 16) | (low as u32);
        assert(r == high * 65536 + low) by (bit_vector)
            requires
                r == ((high as u32) << 16u32) | (low as u32),
        ;
        r
    }

    /// The entry holds part of a long name.
    pub fn is_lfn(&self) -> (r: bool)
        ensures
            r == entry_is_lfn(self.entry_bytes()),
    {
        proof {
            self.lemma_entry_bytes();
        }
        self.attributes == FileAttributes::LongName.bits()
    }

    /// The entry is a folder.
    pub fn is_folder(&self) -> (r: bool)
        ensures
            r == entry_is_folder(self.entry_bytes()),
    {
        proof {
            self.lemma_entry_bytes();
        }
        self.attributes & FileAttributes::Directory.bits() == FileAttributes::Directory.bits()
    }

    /// The part of a long name that this long-name entry holds: its thirteen
    /// UTF-16 code units up to the first 0x0000 or 0xFFFF.
    pub fn get_long_name(&self) -> (r: String)
        ensures
            r@ == long_name_spec(self.entry_bytes()),
    {
        proof {
            self.lemma_entry_bytes();
        }
        let n = &self.name;
        let buff: [u16; 13] = [
            n[1] as u16 + (n[2] as u16) * 256,
            n[3] as u16 + (n[4] as u16) * 256,
            n[5] as u16 + (n[6] as u16) * 256,
            n[7] as u16 + (n[8] as u16) * 256,
            n[9] as u16 + (n[10] as u16) * 256,
            self.creation_time,
            self.creation_date,
            self.last_accessed,
            self.first_cluster_high,
            self.last_modified_time,
            self.last_modified_date,
            (self.file_size % 65536) as u16,
            (self.file_size / 65536) as u16,
        ];
        let ghost units = lfn_units(self.entry_bytes());
        assert(buff@ =~= units);
        let mut last_index: usize = 13;
        let mut index: usize = 0;
        while index < 13
            invariant_except_break
                last_index == 13,
            invariant
                buff@ == units,
                units.len() == 13,
                index <= 13,
                lfn_length(units, index as int) == lfn_length(units, 0),
            ensures
                last_index == lfn_length(units, 0),
            decreases 13 - index,
        {
            if buff[index] == 0xffff || buff[index] == 0 {
                last_index = index;
                break;
            }
            index = index + 1;
        }
        proof {
            lemma_lfn_length_bounds(units, 0);
        }
        let name_units = &buff.as_slice()[0..last_index];
        assert(name_units@ =~= units.take(last_index as int));
        utf16_lossy(name_units)
    }
}

proof fn lemma_lfn_length_bounds(units: Seq<u16>, i: int)
    requires
        0 <= i <= units.len(),
    ensures
        i <= lfn_length(units, i) <= units.len(),
    decreases units.len() - i,
{
    if i < units.len() && !(units[i] == 0xFFFF || units[i] == 0) {
        lemma_lfn_length_bounds(units, i + 1);
    }
}

/// A file or folder: its (long or short) name and its directory entry.
#[derive(Debug)]
pub struct Directory {
    name: String,
    fat_directory: FatDirectory,
}

impl Directory {
    /// The directory entry.
    pub closed spec fn fat_view(&self) -> FatDirectory {
        self.fat_directory
    }

    pub fn new(name: String, directory: FatDirectory) -> (r: Self)
        ensures
            r.name_view() == name@,
            r.fat_view() == directory,
    {
        Directory { name, fat_directory: directory }
    }

    pub fn get_fat_dir(&self) -> (r: &FatDirectory)
        ensures
            *r == self.fat_view(),
    {
        &self.fat_directory
    }
}

impl Clone for Directory {
    fn clone(&self) -> (r: Self)
        ensures
            r == *self,
    {
        Directory { name: self.name.clone(), fat_directory: self.fat_directory }
    }
}

impl File for Directory {
    closed spec fn name_view(&self) -> Seq<char> {
        self.name@
    }

    open spec fn size_view(&self) -> nat {
        entry_file_size(self.fat_view().entry_bytes()) as nat
    }

    fn get_name(&self) -> (r: String) {
        self.name.clone()
    }

    fn get_size(&self) -> (r: usize) {
        proof {
            self.fat_directory.lemma_entry_bytes();
        }
        self.fat_directory.file_size as usize
    }
}


// ---------------------------------------------------------------------------
// Reading the entries of a folder's cluster.

/// Entry `i` of a cluster's bytes.
pub open spec fn dir_entry(b: Seq<u8>, i: int) -> Seq<u8> {
    b.subrange(32 * i, 32 * i + 32)
}

/// A file or folder that a scan finds: its name and its entry's bytes.
pub type FoundEntry = (Seq<char>, Seq<u8>);

/// What a scan of entries `i .. count` finds, given the long name gathered so
/// far: an entry starting with byte 0 ends the folder, one starting with 0xE5
/// is unused, a long-name entry puts its part in front of the gathered name,
/// and any other entry is found under the gathered name (or its own short
/// name, when none was gathered). `None` when a short name is needed that is
/// not valid UTF-8.
pub open spec fn scan_entries(b: Seq<u8>, i: int, count: int, temp: Option<Seq<char>>) -> Option<
    Seq<FoundEntry>,
>
    decreases count - i,
{
    if i >= count {
        Some(Seq::empty())
    } else {
        let e = dir_entry(b, i);
        if e[0] == 0 {
            Some(Seq::empty())
        } else if e[0] == 0xE5 {
            scan_entries(b, i + 1, count, temp)
        } else if entry_is_lfn(e) {
            let part = long_name_spec(e);
            scan_entries(
                b,
                i + 1,
                count,
                Some(
                    match temp {
                        Some(t) => part + t,
                        None => part,
                    },
                ),
            )
        } else {
            match temp {
                Some(t) => prepend_found((t, e), scan_entries(b, i + 1, count, None)),
                None => if valid_utf8(e.take(11)) {
                    prepend_found((short_name_spec(e), e), scan_entries(b, i + 1, count, None))
                } else {
                    None
                },
            }
        }
    }
}

/// The parts of the long-name entries `i .. i + n`, last entry first.
pub open spec fn parts_last_first(b: Seq<u8>, i: int, n: int) -> Seq<char>
    decreases n,
{
    if n <= 0 {
        Seq::empty()
    } else {
        long_name_spec(dir_entry(b, i + n - 1)) + parts_last_first(b, i, n - 1)
    }
}

/// Entry `k` is a long-name entry in use.
pub open spec fn is_long_name_entry(b: Seq<u8>, k: int) -> bool {
    let e = dir_entry(b, k);
    e[0] != 0 && e[0] != 0xE5 && entry_is_lfn(e)
}

proof fn lemma_long_name_parts_gathered(b: Seq<u8>, i: int, k: int, count: int)
    requires
        1 <= k,
        forall|m: int| i <= m < i + k ==> #[trigger] is_long_name_entry(b, m),
        i + k <= count,
    ensures
        scan_entries(b, i, count, None) == scan_entries(
            b,
            i + k,
            count,
            Some(parts_last_first(b, i, k)),
        ),
    decreases k,
{
    if k == 1 {
        assert(is_long_name_entry(b, i));
        assert(long_name_spec(dir_entry(b, i)) + Seq::<char>::empty() =~= long_name_spec(
            dir_entry(b, i),
        ));
        assert(parts_last_first(b, i, 1) == long_name_spec(dir_entry(b, i)) + parts_last_first(
            b,
            i,
            0,
        ));
    } else {
        lemma_long_name_parts_gathered(b, i, k - 1, count);
        assert(is_long_name_entry(b, i + k - 1));
    }
}

/// A file's long name is its long-name entries' parts in reverse disk order:
/// when entries `i .. i + n` (`n >= 1`) are long-name entries and entry
/// `i + n` is a file or folder, the scan finds that entry under the name
/// part(entry `i + n - 1`) + ... + part(entry `i`), then goes on after it.
pub proof fn lemma_long_name_parts_in_reverse(b: Seq<u8>, i: int, n: int, count: int)
    requires
        0 <= i,
        1 <= n,
        i + n < count,
        forall|m: int| i <= m < i + n ==> #[trigger] is_long_name_entry(b, m),
        dir_entry(b, i + n)[0] != 0,
        dir_entry(b, i + n)[0] != 0xE5,
        !entry_is_lfn(dir_entry(b, i + n)),
    ensures
        scan_entries(b, i, count, None) == prepend_found(
            (parts_last_first(b, i, n), dir_entry(b, i + n)),
            scan_entries(b, i + n + 1, count, None),
        ),
{
    lemma_long_name_parts_gathered(b, i, n, count);
}

/// `found` in front of what a scan finds.
pub open spec fn prepend_found(found: FoundEntry, rest: Option<Seq<FoundEntry>>) -> Option<
    Seq<FoundEntry>,
> {
    match rest {
        Some(r) => Some(seq![found] + r),
        None => None,
    }
}

/// `prefix` in front of what a scan finds.
pub open spec fn prefix_found(prefix: Seq<FoundEntry>, rest: Option<Seq<FoundEntry>>) -> Option<
    Seq<FoundEntry>,
> {
    match rest {
        Some(r) => Some(prefix + r),
        None => None,
    }
}

/// The name and entry bytes of each directory.
pub open spec fn found_view(dirs: Seq<Directory>) -> Seq<FoundEntry> {
    dirs.map_values(|d: Directory| (d.name_view(), d.fat_view().entry_bytes()))
}

/// The characters of the name, if there is one.
pub open spec fn name_view_opt(name: Option<String>) -> Option<Seq<char>> {
    match name {
        Some(t) => Some(t@),
        None => None,
    }
}

/// A short name that is not valid UTF-8 stopped the scan.
#[derive(PartialEq, Eq, Structural, Clone, Copy, Debug)]
pub struct InvalidName;

/// Reads the first `count` entries of a cluster's bytes and appends the files
/// and folders they describe to `directories` (see `scan_entries`).
pub fn parse_directory_entries(buffer: &[u8], count: usize, directories: &mut Vec<Directory>) -> (r:
    Result<(), InvalidName>)
    requires
        count * 32 <= buffer.len(),
    ensures
        match scan_entries(buffer@, 0, count as int, None) {
            Some(found) => r is Ok && found_view(final(directories)@) == found_view(
                old(directories)@,
            ) + found,
            None => r is Err,
        },
        final(directories)@.len() >= old(directories)@.len(),
        found_view(final(directories)@).subrange(0, old(directories)@.len() as int) == found_view(
            old(directories)@,
        ),
{
    let ghost b = buffer@;
    let ghost total = scan_entries(b, 0, count as int, None);
    let ghost start = found_view(directories@);
    let mut temp_name: Option<String> = None;
    let mut index: usize = 0;
    while index < count
        invariant
            b == buffer@,
            total == scan_entries(b, 0, count as int, None),
            start == found_view(old(directories)@),
            count * 32 <= buffer.len(),
            index <= count,
            prefix_found(
                found_view(directories@).subrange(start.len() as int, found_view(directories@).len() as int),
                scan_entries(b, index as int, count as int, name_view_opt(temp_name)),
            ) == total,
            found_view(directories@).len() >= start.len(),
            found_view(directories@).subrange(0, start.len() as int) == start,
        ensures
            total == Some(
                found_view(directories@).subrange(
                    start.len() as int,
                    found_view(directories@).len() as int,
                ),
            ),
            found_view(directories@).len() >= start.len(),
            found_view(directories@).subrange(0, start.len() as int) == start,
        decreases count - index,
    {
        let ghost gathered = found_view(directories@).subrange(start.len() as int, found_view(directories@).len() as int);
        let ghost temp_view = name_view_opt(temp_name);
        assert(prefix_found(gathered, scan_entries(b, index as int, count as int, temp_view)) == total);
        assert(index * 32 + 32 <= count * 32) by (nonlinear_arith)
            requires
                index < count,
        ;
        let directory = FatDirectory::parse(buffer, index * 32);
        proof {
            directory.lemma_entry_bytes();
            assert(directory.entry_bytes()[0] == directory.name@[0]);
            assert(directory.entry_bytes() == dir_entry(b, index as int));
        }
        if directory.name[0] == 0 {
            // no more entries in this folder
            assert(gathered + Seq::<FoundEntry>::empty() =~= gathered);
            break;
        } else if directory.name[0] == 0xE5 {
            // an unused entry
            index = index + 1;
        } else if directory.is_lfn() {
            let long_file_name = directory.get_long_name();
            temp_name = match temp_name {
                Some(stored) => Some(long_file_name.concat(stored.as_str())),
                None => Some(long_file_name),
            };
            index = index + 1;
        } else {
            let name = match temp_name {
                Some(stored) => stored,
                None => match directory.try_short_name() {
                    Some(short_name) => short_name,
                    None => {
                        proof {
                            assert(!valid_utf8(dir_entry(b, index as int).take(11)));
                            assert(scan_entries(b, index as int, count as int, None) is None);
                        }
                        return Err(InvalidName);
                    },
                },
            };
            let ghost before = directories@;
            directories.push(Directory::new(name, directory));
            temp_name = None;
            index = index + 1;
            proof {
                let fv = found_view(directories@);
                assert(fv =~= found_view(before).push((name@, directory.entry_bytes())));
                assert(fv.subrange(start.len() as int, fv.len() as int) =~= gathered.push(
                    (name@, directory.entry_bytes()),
                ));
                assert(fv.subrange(0, start.len() as int) =~= found_view(before).subrange(
                    0,
                    start.len() as int,
                ));
                let rest = scan_entries(b, index as int, count as int, None);
                if rest is Some {
                    assert(gathered + (seq![(name@, directory.entry_bytes())] + rest->0) =~= gathered.push(
                        (name@, directory.entry_bytes()),
                    ) + rest->0);
                }
            }
        }
    }
    proof {
        let fv = found_view(directories@);
        assert(fv =~= start + fv.subrange(start.len() as int, fv.len() as int));
    }
    Ok(())
}

} // verus!
