use kernel::filesystem::descriptor::{File, FileDescriptor, FilePointer};
use kernel::filesystem::disk::Disk;
use kernel::filesystem::fat32::directory::{parse_directory_entries, Directory, FatDirectory};
use kernel::filesystem::fat32::table::{
    classify_entry, read_u16, read_u32, Cluster, ClusterChain, Ebpb, FatEntry,
};
use kernel::filesystem::fat32::{find_by_name, split_path, Fat32, FsError};
use kernel::filesystem::managed::{ManagedFilesystem, ReadStatus};
use kernel::filesystem::{Filesystem, FilesystemOn, OpenError};
use kernel::syscall::{open, read, read_dir_name, stat, Stat};
use kernel::text::utf16_lossy;
use std::cell::Cell;

const SECTOR: usize = 512;

struct MemDisk {
    bytes: Vec<u8>,
    fail: Cell<bool>,
    reads: Cell<usize>,
}

impl Disk for MemDisk {
    fn read_view(&self, _block: u64, _len: vstd::prelude::nat) -> vstd::prelude::Seq<u8> {
        panic!("ghost: never called at run time")
    }

    fn read_count(&self, _block: u64, _len: vstd::prelude::nat) -> u8 {
        panic!("ghost: never called at run time")
    }

    fn read(&self, block: u64, buffer: &mut [u8]) -> Result<u8, &str> {
        self.reads.set(self.reads.get() + 1);
        if self.fail.get() {
            return Err("read error");
        }
        let start = block as usize * SECTOR;
        for (i, b) in buffer.iter_mut().enumerate() {
            *b = *self.bytes.get(start + i).unwrap_or(&0);
        }
        Ok(((buffer.len() + SECTOR - 1) / SECTOR) as u8)
    }

    fn write_at(&self, _block: u64, _buffer: &[u8]) -> Result<u8, &str> {
        Err("read only")
    }
}

fn put16(b: &mut [u8], at: usize, v: u16) {
    b[at..at + 2].copy_from_slice(&v.to_le_bytes());
}

fn put32(b: &mut [u8], at: usize, v: u32) {
    b[at..at + 4].copy_from_slice(&v.to_le_bytes());
}

fn entry(name: &[u8; 11], attributes: u8, cluster: u32, size: u32) -> [u8; 32] {
    let mut e = [0u8; 32];
    e[..11].copy_from_slice(name);
    e[11] = attributes;
    put16(&mut e, 20, (cluster >> 16) as u16);
    put16(&mut e, 26, cluster as u16);
    put32(&mut e, 28, size);
    e
}

fn long_name_entry(part: &str) -> [u8; 32] {
    let mut units: Vec<u16> = part.encode_utf16().collect();
    if units.len() < 13 {
        units.push(0);
    }
    while units.len() < 13 {
        units.push(0xFFFF);
    }
    let mut e = [0u8; 32];
    e[0] = 0x41;
    e[11] = 0x0F;
    let places = [1, 3, 5, 7, 9, 14, 16, 18, 20, 22, 24, 28, 30];
    for (i, at) in places.iter().enumerate() {
        put16(&mut e, *at, units[i]);
    }
    e
}

/// A volume of 512-byte sectors, one sector per cluster, one reserved sector
/// and one table of one sector, so cluster `c` is sector `c`:
/// - root (cluster 2): README (clusters 3 and 4, 600 bytes), a deleted entry,
///   "notes.txt" by its long name (cluster 7), DOCS (cluster 5);
/// - DOCS: `.`, `..`, INFO (cluster 6, 11 bytes).
fn image() -> Vec<u8> {
    let mut b = vec![0u8; SECTOR * 8];
    put16(&mut b, 11, 512);
    b[13] = 1;
    put16(&mut b, 14, 1);
    b[16] = 1;
    put32(&mut b, 36, 1);
    put32(&mut b, 44, 2);
    let fat = SECTOR;
    let table: [u32; 8] = [0x0FFFFFF8, 0x0FFFFFFF, 0x0FFFFFFF, 4, 0x0FFFFFFF, 0x0FFFFFFF, 0x0FFFFFFF, 0x0FFFFFFF];
    for (i, v) in table.iter().enumerate() {
        put32(&mut b, fat + 4 * i, *v);
    }
    let root = 2 * SECTOR;
    b[root..root + 32].copy_from_slice(&entry(b"README     ", 0x20, 3, 600));
    let mut deleted = entry(b"OLD        ", 0x20, 3, 1);
    deleted[0] = 0xE5;
    b[root + 32..root + 64].copy_from_slice(&deleted);
    b[root + 64..root + 96].copy_from_slice(&long_name_entry("notes.txt"));
    b[root + 96..root + 128].copy_from_slice(&entry(b"NOTES~1 TXT", 0x20, 7, 5));
    b[root + 128..root + 160].copy_from_slice(&entry(b"DOCS       ", 0x10, 5, 0));
    for i in 0..512 {
        b[3 * SECTOR + i] = b'a';
    }
    for i in 0..88 {
        b[4 * SECTOR + i] = b'b';
    }
    let docs = 5 * SECTOR;
    b[docs..docs + 32].copy_from_slice(&entry(b".          ", 0x10, 5, 0));
    b[docs + 32..docs + 64].copy_from_slice(&entry(b"..         ", 0x10, 0, 0));
    b[docs + 64..docs + 96].copy_from_slice(&entry(b"INFO       ", 0x20, 6, 11));
    b[6 * SECTOR..6 * SECTOR + 11].copy_from_slice(b"hello world");
    b[7 * SECTOR..7 * SECTOR + 5].copy_from_slice(b"notes");
    b
}

fn disk() -> MemDisk {
    MemDisk { bytes: image(), fail: Cell::new(false), reads: Cell::new(0) }
}

fn names(dirs: &[Directory]) -> Vec<String> {
    dirs.iter().map(|d| d.get_name()).collect()
}

#[test]
fn little_endian_fields_and_the_boot_sector() {
    let b = image();
    assert_eq!(read_u16(&b, 11), 512);
    assert_eq!(read_u32(&b, 44), 2);
    assert_eq!(read_u32(&[0x78, 0x56, 0x34, 0x12], 0), 0x12345678);
    let e = Ebpb::parse(&b);
    assert_eq!(e.bpb.bytes_per_sector, 512);
    assert_eq!(e.bpb.sectors_per_cluster, 1);
    assert_eq!(e.bpb.reserved_sectors_count, 1);
    assert_eq!(e.sectors_per_fat, 1);
    assert_eq!(e.root_dir_cluster, 2);
}

#[test]
fn the_volume_geometry() {
    let d = disk();
    let fat = Fat32::new(&d).unwrap();
    assert!(fat.has_usable_geometry());
    assert_eq!(fat.get_first_data_sector(), 2);
    assert_eq!(fat.get_bytes_in_cluster(), 512);
    assert_eq!(fat.first_sector_of_cluster(2), 2);
    assert_eq!(fat.first_sector_of_cluster(7), 7);
    assert!(!fat.cluster_in_range(1));
    assert!(fat.cluster_in_range(2));
    let failing = MemDisk { bytes: image(), fail: Cell::new(true), reads: Cell::new(0) };
    assert!(Fat32::new(&failing).is_none());
}

#[test]
fn table_values_are_read_by_their_low_28_bits() {
    assert_eq!(classify_entry(0x0FFFFFF8), FatEntry::End);
    assert_eq!(classify_entry(0xFFFFFFFF), FatEntry::End);
    assert_eq!(classify_entry(0x0FFFFFF7), FatEntry::BadBlock);
    assert_eq!(classify_entry(0x10000005), FatEntry::Node(Cluster(5)));
    assert_eq!(classify_entry(3), FatEntry::Node(Cluster(3)));
}

#[test]
fn a_cluster_chain_follows_the_table() {
    let d = disk();
    let fat = Fat32::new(&d).unwrap();
    let mut chain = ClusterChain::new(Cluster(3), &fat, &d);
    assert_eq!(chain.next(), Ok(Some(Cluster(3))));
    assert_eq!(chain.next(), Ok(Some(Cluster(4))));
    assert_eq!(chain.next(), Ok(None));
    assert_eq!(chain.next(), Ok(None));
}

#[test]
fn directory_entries_give_names_clusters_and_kinds() {
    let e = entry(b"DOCS       ", 0x10, 0x12345, 0);
    let fd = FatDirectory::parse(&e, 0);
    assert_eq!(fd.get_short_name(), "DOCS");
    assert_eq!(fd.get_cluster(), 0x12345);
    assert!(fd.is_folder());
    assert!(!fd.is_lfn());
    let l = FatDirectory::parse(&long_name_entry("notes.txt"), 0);
    assert!(l.is_lfn());
    assert_eq!(l.get_long_name(), "notes.txt");
    let root = FatDirectory::with_cluster(0x20002);
    assert_eq!(root.get_cluster(), 0x20002);
    assert!(root.is_folder());
    // the padding of this made-up entry is zero bytes, which trimming keeps
    assert_eq!(root.get_short_name(), ".\0\0\0\0\0\0\0\0\0\0");
    let bad = entry(b"\xFFBAD       ", 0x20, 3, 1);
    assert!(FatDirectory::parse(&bad, 0).try_short_name().is_none());
}

#[test]
fn parsing_a_folder_applies_long_names_and_skips_deleted_entries() {
    let b = image();
    let root = &b[2 * SECTOR..3 * SECTOR];
    let mut dirs: Vec<Directory> = Vec::new();
    assert!(parse_directory_entries(root, 16, &mut dirs).is_ok());
    assert_eq!(names(&dirs), vec!["README", "notes.txt", "DOCS"]);
    assert_eq!(dirs[0].get_size(), 600);
    assert_eq!(dirs[1].get_fat_dir().get_cluster(), 7);
    let mut bad = [0u8; 32];
    bad.copy_from_slice(&entry(b"\xFFBAD       ", 0x20, 3, 1));
    let mut more: Vec<Directory> = Vec::new();
    assert!(parse_directory_entries(&bad, 1, &mut more).is_err());
}

#[test]
fn paths_and_names() {
    assert_eq!(split_path("DOCS/INFO"), vec!["DOCS", "INFO"]);
    assert_eq!(split_path("a//b/"), vec!["a", "", "b", ""]);
    assert_eq!(split_path(""), vec![""]);
    let d = disk();
    let fat = Fat32::new(&d).unwrap();
    let dirs = fat.get_child_directories(&d, &fat.get_root_directory()).unwrap();
    assert_eq!(find_by_name(&dirs, &"DOCS".to_string()), Some(2));
    assert_eq!(find_by_name(&dirs, &"docs".to_string()), Some(2));
    assert_eq!(find_by_name(&dirs, &"notes.txt".to_string()), Some(1));
    assert_eq!(find_by_name(&dirs, &"NOTES.TXT".to_string()), None);
    assert_eq!(find_by_name(&dirs, &"missing".to_string()), None);
}

#[test]
fn folders_files_and_lookups() {
    let d = disk();
    let fat = Fat32::new(&d).unwrap();
    let root = fat.get_root_directory();
    assert_eq!(root.get_name(), ".");
    assert_eq!(root.get_fat_dir().get_cluster(), 2);
    assert_eq!(names(&fat.get_child_directories(&d, &root).unwrap()), vec!["README", "notes.txt", "DOCS"]);
    let docs = fat.get_directory(&d, "docs").unwrap().unwrap();
    assert!(docs.get_fat_dir().is_folder());
    assert_eq!(names(&fat.get_child_directories(&d, &docs).unwrap()), vec![".", "..", "INFO"]);
    let info = fat.get_directory(&d, "DOCS/INFO").unwrap().unwrap();
    assert_eq!(info.get_size(), 11);
    assert!(matches!(fat.get_directory(&d, "DOCS/NOPE"), Ok(None)));
    assert!(matches!(fat.get_directory(&d, "README/X"), Ok(None)));
    let failing = MemDisk { bytes: image(), fail: Cell::new(true), reads: Cell::new(0) };
    assert!(matches!(fat.get_directory(&failing, "DOCS"), Err(FsError::DiskRead)));
    assert!(matches!(fat.get_child_directories(&failing, &root), Err(FsError::DiskRead)));
    assert_eq!(fat.get_file(&d, "docs/info").unwrap().get_name(), "INFO");
    assert!(matches!(fat.get_file(&d, "DOCS"), Err(OpenError::FileNotFound)));
    assert!(matches!(fat.get_file(&d, "nothing"), Err(OpenError::FileNotFound)));
    let failing = MemDisk { bytes: image(), fail: Cell::new(true), reads: Cell::new(0) };
    assert!(matches!(fat.get_file(&failing, "README"), Err(OpenError::DiskError)));
    // a file met before the path ends is the result
    assert_eq!(fat.get_file(&d, "README/more").unwrap().get_name(), "README");
}

#[test]
fn open_file_and_read_file_contents() {
    let d = disk();
    let fat = Fat32::new(&d).unwrap();
    let pointer = fat.open_file(&d, "README").unwrap().unwrap();
    assert_eq!(pointer.get_current(), 0);
    let mut buffer = vec![0u8; 600];
    assert_eq!(fat.read_file(&d, &pointer, &mut buffer), Some(600));
    assert!(buffer[..512].iter().all(|b| *b == b'a'));
    assert!(buffer[512..].iter().all(|b| *b == b'b'));
    // from the middle of the second cluster
    let later = FilePointer::new(520, pointer.get_file().clone());
    let mut small = vec![0u8; 4];
    assert_eq!(fat.read_file_contents(&d, &later, &mut small), Ok(Some(4)));
    assert_eq!(small, b"bbbb");
    assert_eq!(fat.open_file(&d, "DOCS").unwrap().map(|p| p.get_current()), None);
    let failing = MemDisk { bytes: image(), fail: Cell::new(true), reads: Cell::new(0) };
    assert_eq!(fat.open_file(&failing, "README").map(|p| p.is_some()), Err(FsError::DiskRead));
}

#[test]
fn file_pointers_and_descriptors() {
    let d = disk();
    let fat = Fat32::new(&d).unwrap();
    let file = fat.get_file(&d, "DOCS/INFO").unwrap();
    let mut p = FilePointer::new(3, file);
    p.advance_current(4);
    assert_eq!(p.get_current(), 7);
    p.set_current(1);
    assert_eq!(p.get_current(), 1);
    assert_eq!(p.get_file().get_name(), "INFO");
    let mut fd = FileDescriptor::new(9, p);
    assert_eq!(fd.get_id(), 9);
    fd.get_pointer_mut().set_current(2);
    assert_eq!(fd.get_pointer().get_current(), 2);
}

#[test]
fn descriptors_take_the_lowest_free_number() {
    let d = disk();
    let fat = Fat32::new(&d).unwrap();
    let mut fs = ManagedFilesystem::new(fat, &d);
    assert_eq!(fs.open_file("README"), Ok(0));
    assert_eq!(fs.open_file("notes.txt"), Ok(1));
    assert_eq!(fs.open_file("DOCS/INFO"), Ok(2));
    assert_eq!(fs.open_file("DOCS"), Err(OpenError::FileNotFound));
    assert!(fs.close_descriptor(1));
    assert!(!fs.close_descriptor(1));
    assert_eq!(fs.open_file("README"), Ok(1));
    assert_eq!(fs.open_file("README"), Ok(3));
}

#[test]
fn close_undoes_open() {
    let d = disk();
    let fat = Fat32::new(&d).unwrap();
    let mut fs = ManagedFilesystem::new(fat, &d);
    assert_eq!(fs.open_file("README"), Ok(0));
    let id = fs.open_file("notes.txt").unwrap();
    assert!(fs.close_descriptor(id));
    // the table is as before: the same number comes back
    assert_eq!(fs.open_file("notes.txt"), Ok(id));
}

#[test]
fn seek_and_read_move_the_position() {
    let d = disk();
    let fat = Fat32::new(&d).unwrap();
    let mut fs = ManagedFilesystem::new(fat, &d);
    let id = fs.open_file("DOCS/INFO").unwrap();
    let mut buffer = vec![0u8; 5];
    assert_eq!(fs.read_file(id, &mut buffer), ReadStatus::Read(5));
    assert_eq!(buffer, b"hello");
    let mut rest = vec![0u8; 6];
    assert_eq!(fs.read_file(id, &mut rest), ReadStatus::Read(6));
    assert_eq!(rest, b" world");
    assert!(fs.seek(id, 6));
    let mut again = vec![0u8; 5];
    assert_eq!(fs.read_file(id, &mut again), ReadStatus::Read(5));
    assert_eq!(again, b"world");
    // past the end: the last byte
    assert!(fs.seek(id, 100));
    let mut last = vec![0u8; 2];
    assert_eq!(fs.read_file(id, &mut last), ReadStatus::Read(2));
    assert_eq!(last[0], b'd');
    assert!(!fs.seek(7, 0));
    assert_eq!(fs.read_file(7, &mut last), ReadStatus::NotOpen);
    let root = fs.get_root_directory();
    assert_eq!(names(&fs.get_child_directories(&root).unwrap()), vec!["README", "notes.txt", "DOCS"]);
    assert_eq!(fs.get_directory("DOCS/INFO").unwrap().unwrap().get_size(), 11);
}

#[test]
fn error_codes_read_back() {
    for e in [OpenError::FileNotFound, OpenError::NotAFile, OpenError::DescriptorAlreadyOpen, OpenError::DiskError] {
        assert_eq!(OpenError::from_code(e.code()), Some(e));
    }
    assert_eq!(OpenError::from_code(3), None);
}

#[test]
fn open_error_codes() {
    assert_eq!(OpenError::FileNotFound.code(), 0xffffffff);
    assert_eq!(OpenError::NotAFile.code(), 0xfffffffe);
    assert_eq!(OpenError::DescriptorAlreadyOpen.code(), 0xfffffffd);
    assert_eq!(OpenError::DiskError.code(), 0xfffffffc);
}

#[test]
fn stat_describes_folders_and_their_entries() {
    let d = disk();
    let fat = Fat32::new(&d).unwrap();
    let fs = ManagedFilesystem::new(fat, &d);
    // the root folder itself
    assert_eq!(
        stat(&fs, ".", 0),
        Ok(Some(Stat { directory_name_length: 1, directory_size: 0, is_folder: true, child_nodes_count: 3 }))
    );
    // entry 1 of the root: README
    assert_eq!(
        stat(&fs, ".", 1),
        Ok(Some(Stat { directory_name_length: 6, directory_size: 600, is_folder: false, child_nodes_count: 0 }))
    );
    // entry 3 of the root: DOCS, with three entries
    assert_eq!(
        stat(&fs, ".", 3),
        Ok(Some(Stat { directory_name_length: 4, directory_size: 0, is_folder: true, child_nodes_count: 3 }))
    );
    // `..` in DOCS points to cluster 0: it counts the entries of DOCS
    assert_eq!(
        stat(&fs, "DOCS", 2),
        Ok(Some(Stat { directory_name_length: 2, directory_size: 0, is_folder: true, child_nodes_count: 3 }))
    );
    assert_eq!(stat(&fs, ".", 4), Ok(None));
    assert_eq!(stat(&fs, "NOWHERE", 0), Ok(None));
    assert_eq!(read_dir_name(&fs, ".", 1), Ok(Some("notes.txt".to_string())));
    assert_eq!(read_dir_name(&fs, "DOCS", 2), Ok(Some("INFO".to_string())));
    assert_eq!(read_dir_name(&fs, "DOCS", 3), Ok(None));
    assert_eq!(read_dir_name(&fs, "NOWHERE", 0), Ok(None));
}

#[test]
fn filesystem_errors() {
    let d = disk();
    let fat = Fat32::new(&d).unwrap();
    // cluster 0 lies outside the data area
    assert_eq!(fat.read_folder(&d, 0).map(|v| v.len()), Err(FsError::BadCluster));
    // `..` of a top-level folder points to cluster 0
    assert!(matches!(fat.get_directory(&d, "DOCS/../README"), Err(FsError::BadCluster)));
    // a short name that is not UTF-8
    let mut bytes = image();
    let root = 2 * SECTOR;
    bytes[root + 160..root + 192].copy_from_slice(&entry(b"\xFFBAD       ", 0x20, 3, 1));
    let bad = MemDisk { bytes, fail: Cell::new(false), reads: Cell::new(0) };
    assert_eq!(fat.read_folder(&bad, 2).map(|v| v.len()), Err(FsError::InvalidName));
    // a boot sector whose sector size cannot be used
    let mut zero = image();
    put16(&mut zero, 11, 0);
    let broken = MemDisk { bytes: zero, fail: Cell::new(false), reads: Cell::new(0) };
    let unusable = Fat32::new(&broken).unwrap();
    assert!(!unusable.has_usable_geometry());
    assert_eq!(unusable.open_file(&broken, "README").map(|p| p.is_some()), Err(FsError::BadGeometry));
    assert!(matches!(
        unusable.get_child_directories(&broken, &unusable.get_root_directory()),
        Err(FsError::BadGeometry)
    ));
    assert!(matches!(unusable.get_directory(&broken, "README"), Err(FsError::BadGeometry)));
    assert!(matches!(unusable.get_file(&broken, "README"), Err(OpenError::DiskError)));
}

#[test]
fn a_read_that_fails_leaves_the_position() {
    let d = disk();
    let fat = Fat32::new(&d).unwrap();
    let mut fs = ManagedFilesystem::new(fat, &d);
    let id = fs.open_file("DOCS/INFO").unwrap();
    d.fail.set(true);
    let mut buffer = vec![0u8; 4];
    assert_eq!(fs.read_file(id, &mut buffer), ReadStatus::Failed);
    d.fail.set(false);
    // the position did not move: the next read starts at the beginning
    assert_eq!(fs.read_file(id, &mut buffer), ReadStatus::Read(4));
    assert_eq!(buffer, b"hell");
    assert_eq!(fs.read_file(id + 1, &mut buffer), ReadStatus::NotOpen);
}

#[test]
fn the_open_and_read_calls_answer_numbers() {
    let d = disk();
    let fat = Fat32::new(&d).unwrap();
    let mut fs = ManagedFilesystem::new(fat, &d);
    assert_eq!(open(&mut fs, "README"), 0);
    assert_eq!(open(&mut fs, "DOCS"), 0xffffffff);
    assert_eq!(open(&mut fs, "DOCS/INFO"), 1);
    let mut buffer = vec![0u8; 5];
    assert_eq!(read(&mut fs, 1, &mut buffer), 0);
    assert_eq!(buffer, b"hello");
    assert_eq!(read(&mut fs, 9, &mut buffer), 0);
}

#[test]
fn the_read_call_moves_only_its_descriptor() {
    let d = disk();
    let fat = Fat32::new(&d).unwrap();
    let mut fs = ManagedFilesystem::new(fat, &d);
    assert_eq!(open(&mut fs, "DOCS/INFO"), 0);
    assert_eq!(open(&mut fs, "DOCS/INFO"), 1);
    let mut buffer = vec![0u8; 6];
    assert_eq!(read(&mut fs, 1, &mut buffer), 0);
    assert_eq!(buffer, b"hello ");
    // a number that is not open leaves the buffer as it was
    assert_eq!(read(&mut fs, 5, &mut buffer), 0);
    assert_eq!(buffer, b"hello ");
    // descriptor 0 is still at the start, descriptor 1 moved on
    let mut first = vec![0u8; 5];
    assert_eq!(read(&mut fs, 0, &mut first), 0);
    assert_eq!(first, b"hello");
    let mut second = vec![0u8; 5];
    assert_eq!(read(&mut fs, 1, &mut second), 0);
    assert_eq!(second, b"world");
}

#[test]
fn a_file_chain_through_a_bad_cluster() {
    let mut bytes = image();
    // README's chain goes from cluster 3 to cluster 1, outside the data area
    put32(&mut bytes, SECTOR + 4 * 3, 1);
    let bad = MemDisk { bytes, fail: Cell::new(false), reads: Cell::new(0) };
    let fat = Fat32::new(&bad).unwrap();
    let pointer = fat.open_file(&bad, "README").unwrap().unwrap();
    let mut buffer = vec![0u8; 600];
    assert_eq!(fat.read_file_contents(&bad, &pointer, &mut buffer), Err(FsError::BadCluster));
    assert_eq!(fat.read_file(&bad, &pointer, &mut buffer), None);
    let failing = MemDisk { bytes: image(), fail: Cell::new(true), reads: Cell::new(0) };
    assert_eq!(fat.read_file_contents(&failing, &pointer, &mut buffer), Err(FsError::DiskRead));
    // a folder whose chain leaves the data area
    assert_eq!(fat.read_folder(&bad, 3).map(|v| v.len()), Err(FsError::BadCluster));
}

#[test]
fn stat_and_names_report_a_failed_read() {
    let d = disk();
    let fat = Fat32::new(&d).unwrap();
    let fs = ManagedFilesystem::new(fat, &d);
    d.fail.set(true);
    assert_eq!(stat(&fs, ".", 0), Err(FsError::DiskRead));
    assert_eq!(stat(&fs, "DOCS", 1), Err(FsError::DiskRead));
    assert_eq!(read_dir_name(&fs, ".", 0), Err(FsError::DiskRead));
    d.fail.set(false);
    // a sub-folder's count is read from its own listing
    assert_eq!(
        stat(&fs, "DOCS", 0),
        Ok(Some(Stat { directory_name_length: 4, directory_size: 0, is_folder: true, child_nodes_count: 3 }))
    );
    assert_eq!(read_dir_name(&fs, ".", 0), Ok(Some("README".to_string())));
}

#[test]
fn long_name_units_decode_as_utf16() {
    assert_eq!(utf16_lossy(&[0x41, 0x62]), "Ab");
    // a surrogate pair is one character
    assert_eq!(utf16_lossy(&[0xD83D, 0xDE00]), "\u{1F600}");
    // a surrogate on its own becomes U+FFFD
    assert_eq!(utf16_lossy(&[0xD800, 0x42, 0xDC00]), "\u{FFFD}B\u{FFFD}");
}

#[test]
fn an_unusable_volume_fails_before_reading() {
    let mut zero = image();
    put16(&mut zero, 11, 0);
    let broken = MemDisk { bytes: zero, fail: Cell::new(false), reads: Cell::new(0) };
    let fat = Fat32::new(&broken).unwrap();
    let mut fs = ManagedFilesystem::new(fat, &broken);
    let reads = broken.reads.get();
    assert_eq!(open(&mut fs, "README"), 0xfffffffc);
    assert_eq!(stat(&fs, ".", 0), Err(FsError::BadGeometry));
    assert_eq!(stat(&fs, "DOCS", 0), Err(FsError::BadGeometry));
    assert_eq!(read_dir_name(&fs, ".", 0), Err(FsError::BadGeometry));
    // nothing was read from the disk
    assert_eq!(broken.reads.get(), reads);
}

#[test]
fn a_folder_that_points_outside_the_data_area() {
    let mut bytes = image();
    // DOCS points to cluster 1
    let root = 2 * SECTOR;
    bytes[root + 128..root + 160].copy_from_slice(&entry(b"DOCS       ", 0x10, 1, 0));
    let bad = MemDisk { bytes, fail: Cell::new(false), reads: Cell::new(0) };
    let fat = Fat32::new(&bad).unwrap();
    let fs = ManagedFilesystem::new(fat, &bad);
    assert_eq!(stat(&fs, ".", 3), Err(FsError::BadCluster));
    assert_eq!(read_dir_name(&fs, "DOCS", 0), Err(FsError::BadCluster));
    assert_eq!(stat(&fs, "DOCS/INFO", 0), Err(FsError::BadCluster));
    // entries that do not need DOCS's listing still work
    assert_eq!(read_dir_name(&fs, ".", 2), Ok(Some("DOCS".to_string())));
}

#[test]
fn opening_keeps_the_other_descriptors() {
    let d = disk();
    let fat = Fat32::new(&d).unwrap();
    let mut fs = ManagedFilesystem::new(fat, &d);
    assert_eq!(fs.open_file("DOCS/INFO"), Ok(0));
    let mut first = vec![0u8; 6];
    assert_eq!(fs.read_file(0, &mut first), ReadStatus::Read(6));
    assert_eq!(fs.open_file("README"), Ok(1));
    // descriptor 0 kept its file and position
    let mut rest = vec![0u8; 5];
    assert_eq!(fs.read_file(0, &mut rest), ReadStatus::Read(5));
    assert_eq!(rest, b"world");
}
