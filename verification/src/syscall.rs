use vstd::prelude::*;
use vstd::string::StrSliceExecFns;
use crate::filesystem::descriptor::File;
use crate::filesystem::disk::Disk;
use crate::filesystem::fat32::{Fat32, FsError, geometry_ok};
use crate::filesystem::fat32::directory::{
    Directory, entry_cluster, entry_file_size, entry_is_folder, found_view,
};
use crate::filesystem::managed::{first_gap, lemma_first_gap_bounds, ManagedFilesystem};
use crate::filesystem::{Filesystem, FilesystemOn};
use crate::userland::syscalls::ProcInfo;

verus! {

/// The system-call numbers.
pub const SYS_FOPEN: usize = 0x1;
pub const SYS_PRINT: usize = 0x2;
pub const SYS_READ: usize = 0x03;
pub const SYS_STAT: usize = 0x04;
pub const IO_GETC: usize = 0x05;
pub const IO_DELC: usize = 0x06;
pub const SYS_EXECV: usize = 0x07;
pub const SYS_DIR_NAME: usize = 0x08;

/// What an unknown system call returns.
pub const UNDEFINED_SYSCALL: usize = 0xff;

/// What a failed lookup returns.
pub const NOT_FOUND: usize = 0xffffffff;

/// A system call with its arguments (addresses are in the calling process).
#[derive(Copy, Clone, PartialEq, Eq, Structural, Debug)]
pub enum Syscall {
    /// Open the file whose path has `path_len` bytes at `path_ptr`.
    Open { path_ptr: usize, path_len: usize },
    /// Print the `len` bytes at `ptr`.
    Print { ptr: usize, len: usize },
    /// Read from descriptor `fd` into the `buffer_len` bytes at `buffer_ptr`.
    Read { fd: usize, buffer_ptr: usize, buffer_len: usize },
    /// Describe entry `child_node` of the path into the record at `stat_ptr`.
    Stat { path_ptr: usize, path_len: usize, stat_ptr: usize, child_node: usize },
    /// Wait for a character from the keyboard.
    Getc,
    /// Delete the last character on the screen.
    Delc,
    /// Run the program at the path with `args_count` arguments listed at `args_ptr`.
    Execv { name_ptr: usize, name_len: usize, args_ptr: usize, args_count: usize },
    /// Copy the name of entry `child_node` of the folder into the buffer.
    DirName {
        path_ptr: usize,
        path_len: usize,
        buffer_ptr: usize,
        buffer_len: usize,
        child_node: usize,
    },
    /// A number that names no system call.
    Undefined,
}

/// What the registers `a` (the number) to `f` ask for.
pub open spec fn syscall_spec(a: usize, b: usize, c: usize, d: usize, e: usize, f: usize) -> Syscall {
    if a == SYS_FOPEN {
        Syscall::Open { path_ptr: b, path_len: c }
    } else if a == SYS_PRINT {
        Syscall::Print { ptr: b, len: c }
    } else if a == SYS_READ {
        Syscall::Read { fd: b, buffer_ptr: c, buffer_len: d }
    } else if a == IO_GETC {
        Syscall::Getc
    } else if a == IO_DELC {
        Syscall::Delc
    } else if a == SYS_EXECV {
        Syscall::Execv { name_ptr: b, name_len: c, args_ptr: d, args_count: e }
    } else if a == SYS_STAT {
        Syscall::Stat { path_ptr: b, path_len: c, stat_ptr: d, child_node: e }
    } else if a == SYS_DIR_NAME {
        Syscall::DirName { path_ptr: b, path_len: c, buffer_ptr: d, buffer_len: e, child_node: f }
    } else {
        Syscall::Undefined
    }
}

/// Reads the registers of a system call (see `syscall_spec`).
pub fn decode_syscall(a: usize, b: usize, c: usize, d: usize, e: usize, f: usize) -> (r: Syscall)
    ensures
        r == syscall_spec(a, b, c, d, e, f),
{
    match a {
        SYS_FOPEN => Syscall::Open { path_ptr: b, path_len: c },
        SYS_PRINT => Syscall::Print { ptr: b, len: c },
        SYS_READ => Syscall::Read { fd: b, buffer_ptr: c, buffer_len: d },
        IO_GETC => Syscall::Getc,
        IO_DELC => Syscall::Delc,
        SYS_EXECV => Syscall::Execv { name_ptr: b, name_len: c, args_ptr: d, args_count: e },
        SYS_STAT => Syscall::Stat { path_ptr: b, path_len: c, stat_ptr: d, child_node: e },
        SYS_DIR_NAME => Syscall::DirName {
            path_ptr: b,
            path_len: c,
            buffer_ptr: d,
            buffer_len: e,
            child_node: f,
        },
        _ => Syscall::Undefined,
    }
}

/// The registers that the system-call entry pushes, in the order they lie on
/// the stack.
#[derive(Copy, Clone, PartialEq, Eq, Structural, Debug)]
pub struct SyscallStack {
    pub edi: usize,
    pub esi: usize,
    pub edx: usize,
    pub ecx: usize,
    pub ebx: usize,
    pub eax: usize,
}

impl SyscallStack {
    /// The call that the registers ask for: the number in `eax`, the
    /// arguments in `ebx`, `ecx`, `edx`, `esi` and `edi`.
    pub fn syscall(&self) -> (r: Syscall)
        ensures
            r == syscall_spec(self.eax, self.ebx, self.ecx, self.edx, self.esi, self.edi),
    {
        decode_syscall(self.eax, self.ebx, self.ecx, self.edx, self.esi, self.edi)
    }
}

/// The record that the stat call fills in.
#[derive(Copy, Clone, PartialEq, Eq, Structural, Debug)]
pub struct Stat {
    pub directory_name_length: u32,
    pub directory_size: u32,
    pub is_folder: bool,
    pub child_nodes_count: u32,
}

/// The record for an entry: its name's length in UTF-8 bytes (cut to 32 bits), its size, whether
/// it is a folder, and the given count of entries in it.
pub open spec fn stat_spec(name: Seq<char>, entry: Seq<u8>, child_nodes_count: u32) -> Stat {
    Stat {
        directory_name_length: (vstd::utf8::encode_utf8(name).len() as usize) as u32,
        directory_size: entry_file_size(entry),
        is_folder: entry_is_folder(entry),
        child_nodes_count: if entry_is_folder(entry) {
            child_nodes_count
        } else {
            0
        },
    }
}

/// The record for `directory`, whose folder (if it is one) has
/// `child_nodes_count` entries.
pub fn stat_of(directory: &Directory, child_nodes_count: u32) -> (r: Stat)
    ensures
        r == stat_spec(
            directory.name_view(),
            directory.fat_view().entry_bytes(),
            child_nodes_count,
        ),
{
    let name = directory.get_name();
    let is_folder = directory.get_fat_dir().is_folder();
    let name_length = name.as_str().len();
    let size = directory.get_size();
    let mut stat = Stat {
        directory_name_length: name_length as u32,
        directory_size: size as u32,
        is_folder,
        child_nodes_count: 0,
    };
    if is_folder {
        stat.child_nodes_count = child_nodes_count;
    }
    stat
}

/// The record of process number `proc_number`, from what the process table
/// knows of it; each value is cut to 32 bits.
pub fn process_record(
    proc_number: usize,
    name_length: usize,
    process_base: usize,
    total_size: usize,
    arguments_count: usize,
    stack_size: usize,
) -> (r: ProcInfo)
    ensures
        r == (ProcInfo {
            process_index: proc_number as u32,
            process_name_length: name_length as u32,
            process_base: process_base as u32,
            process_total_size: total_size as u32,
            arguments_count: arguments_count as u32,
            process_stack_size: stack_size as u32,
        }),
{
    ProcInfo {
        process_index: proc_number as u32,
        process_name_length: name_length as u32,
        process_base: process_base as u32,
        process_total_size: total_size as u32,
        arguments_count: arguments_count as u32,
        process_stack_size: stack_size as u32,
    }
}

/// What the process table knows of a process that the process-information
/// call describes.
#[derive(Copy, Clone, PartialEq, Eq, Structural, Debug)]
pub struct ProcessFacts {
    /// The length of the name of the process's program, in bytes.
    pub name_length: usize,
    /// Where the process is loaded.
    pub process_base: usize,
    /// The size of everything loaded for the process.
    pub total_size: usize,
    /// How many arguments it was started with.
    pub arguments_count: usize,
    /// The size of its stack.
    pub stack_size: usize,
}

/// The process-information call on index `proc_number`, given what the
/// process table holds at that index (`None` when there is no process):
/// the answer, and the record to write into the caller's memory. For a
/// process the answer is `proc_number` and the record describes it (see
/// `process_record`); without one the answer is `0xffffffff` and nothing is
/// written.
pub fn proc_info(proc_number: usize, process: Option<ProcessFacts>) -> (r: (usize, Option<ProcInfo>))
    ensures
        match process {
            Some(p) => r == (
                proc_number,
                Some(
                    ProcInfo {
                        process_index: proc_number as u32,
                        process_name_length: p.name_length as u32,
                        process_base: p.process_base as u32,
                        process_total_size: p.total_size as u32,
                        arguments_count: p.arguments_count as u32,
                        process_stack_size: p.stack_size as u32,
                    },
                ),
            ),
            None => r == (NOT_FOUND, None::<ProcInfo>),
        },
{
    match process {
        Some(p) => {
            let record = process_record(
                proc_number,
                p.name_length,
                p.process_base,
                p.total_size,
                p.arguments_count,
                p.stack_size,
            );
            (proc_number, Some(record))
        },
        None => (NOT_FOUND, None),
    }
}

/// The answer of a stat call to its caller: 0 when it found the entry (and
/// the record is written), `NOT_FOUND` when there is none.
pub fn stat_answer(r: &Option<Stat>) -> (a: usize)
    ensures
        a == (if r is Some {
            0
        } else {
            NOT_FOUND
        }),
{
    match r {
        Some(_) => 0,
        None => NOT_FOUND,
    }
}

/// The answer of a name call to its caller: 0 when it found the entry (and
/// the name is copied), `NOT_FOUND` when there is none.
pub fn dir_name_answer(r: &Option<String>) -> (a: usize)
    ensures
        a == (if r is Some {
            0
        } else {
            NOT_FOUND
        }),
{
    match r {
        Some(_) => 0,
        None => NOT_FOUND,
    }
}

impl Syscall {
    /// The answer of a call whose answer does not depend on what it does:
    /// 0 for print and delete, `UNDEFINED_SYSCALL` for an unknown number;
    /// `None` for the others.
    pub fn fixed_answer(&self) -> (r: Option<usize>)
        ensures
            r == match *self {
                Syscall::Print { .. } | Syscall::Delc => Some(0usize),
                Syscall::Undefined => Some(UNDEFINED_SYSCALL),
                _ => None,
            },
    {
        match self {
            Syscall::Print { .. } | Syscall::Delc => Some(0),
            Syscall::Undefined => Some(UNDEFINED_SYSCALL),
            _ => None,
        }
    }
}

/// The open call: the new descriptor's number, or the code of the error
/// (see `ManagedFilesystem::open_file`).
pub fn open<D: Disk>(filesystem: &mut ManagedFilesystem<Fat32, D>, file_name: &str) -> (r: usize)
    requires
        old(filesystem).wf(),
    ensures
        final(filesystem).wf(),
        final(filesystem).filesystem_view() == old(filesystem).filesystem_view(),
        final(filesystem).drive_view() == old(filesystem).drive_view(),
        final(filesystem).open_files() == old(filesystem).open_files() ==> r == 0xfffffffc || r
            == 0xffffffff,
        r == 0xffffffff && final(filesystem).open_files() == old(filesystem).open_files()
            ==> old(filesystem).filesystem_view().leads_to(
            old(filesystem).drive_view(),
            file_name@,
            None,
        ),
        !geometry_ok(old(filesystem).filesystem_view().ebpb_view()) ==> r == 0xfffffffc
            && final(filesystem).open_files() == old(filesystem).open_files(),
        final(filesystem).open_files() != old(filesystem).open_files() ==> {
            &&& r == first_gap(old(filesystem).ids())
            &&& final(filesystem).ids() == old(filesystem).ids().insert(r as int, r)
            &&& final(filesystem).open_files().remove(r as int) == old(filesystem).open_files()
            &&& final(filesystem).open_files()[r as int].pointer_view().position() == 0
            &&& old(filesystem).filesystem_view().leads_to(
                old(filesystem).drive_view(),
                file_name@,
                Some(final(filesystem).open_files()[r as int].pointer_view().file_view()),
            )
        },
{
    proof {
        lemma_first_gap_bounds(filesystem.ids());
    }
    match filesystem.open_file(file_name) {
        Ok(file_descriptor) => {
            assert(filesystem.ids().len() == old(filesystem).ids().len() + 1);
            assert(filesystem.open_files() != old(filesystem).open_files());
            file_descriptor
        },
        Err(open_error) => open_error.code(),
    }
}

/// The read call: reads from descriptor `fd` into `buffer` (see
/// `ManagedFilesystem::read_file`) and answers 0.
pub fn read<D: Disk>(filesystem: &mut ManagedFilesystem<Fat32, D>, fd: usize, buffer: &mut [u8]) -> (r: usize)
    requires
        old(filesystem).wf(),
    ensures
        r == 0,
        final(filesystem).wf(),
        final(filesystem).ids() == old(filesystem).ids(),
        final(filesystem).filesystem_view() == old(filesystem).filesystem_view(),
        final(filesystem).drive_view() == old(filesystem).drive_view(),
        final(buffer)@.len() == old(buffer)@.len(),
        !old(filesystem).ids().contains(fd) ==> final(buffer)@ == old(buffer)@,
        forall|i: int|
            0 <= i < old(filesystem).ids().len() ==> {
                let before = (#[trigger] old(filesystem).open_files()[i]).pointer_view();
                let after = final(filesystem).open_files()[i].pointer_view();
                &&& after.file_view() == before.file_view()
                &&& old(filesystem).ids()[i] != fd ==> after.position() == before.position()
                &&& after.position() == before.position() || after.position() == before.position()
                    + old(buffer)@.len()
                &&& after.position() != before.position() ==> old(
                    filesystem,
                ).filesystem_view().reads(
                    old(filesystem).drive_view(),
                    before,
                    old(buffer)@,
                    final(buffer)@,
                )
            },
{
    let _status = filesystem.read_file(fd, buffer);
    proof {
        assert forall|i: int| 0 <= i < old(filesystem).ids().len() && #[trigger] old(
            filesystem,
        ).ids()[i] == fd implies i == old(filesystem).ids().index_of(fd) by {
            let k = old(filesystem).ids().index_of(fd);
            assert(old(filesystem).ids()[k] == fd);
            if k < i {
                assert(old(filesystem).ids()[k] < old(filesystem).ids()[i]);
            } else if i < k {
                assert(old(filesystem).ids()[i] < old(filesystem).ids()[k]);
            }
        }
    }
    0
}

/// The path names the root folder.
fn is_root_path(path: &str) -> (r: bool)
    ensures
        r == (path@ == seq!['.']),
{
    if path.unicode_len() == 1 {
        let c = path.get_char(0);
        assert(c == '.' ==> path@ =~= seq!['.']);
        c == '.'
    } else {
        false
    }
}

/// `parent` is the folder that a stat or name call on `path` looks in: the
/// root for `.`, else the entry that the path names.
pub open spec fn looks_in<D: Disk>(
    filesystem: &ManagedFilesystem<Fat32, D>,
    path: Seq<char>,
    parent: Directory,
) -> bool {
    if path == seq!['.'] {
        filesystem.filesystem_view().is_root(parent)
    } else {
        filesystem.filesystem_view().names(filesystem.drive_view(), path, Some(parent))
    }
}

/// The path is not `.` and names nothing.
pub open spec fn names_nothing<D: Disk>(filesystem: &ManagedFilesystem<Fat32, D>, path: Seq<char>) -> bool {
    path != seq!['.'] && filesystem.filesystem_view().names(filesystem.drive_view(), path, None)
}

/// The folder that a stat or name call looks in (see `looks_in`): `Ok(None)`
/// when the path names nothing, `Err` when the folders on the way could not
/// be read.
fn parent_of<D: Disk>(filesystem: &ManagedFilesystem<Fat32, D>, path: &str) -> (r: Result<
    Option<Directory>,
    FsError,
>)
    ensures
        r matches Ok(Some(p)) ==> looks_in(filesystem, path@, p),
        r == Ok::<Option<Directory>, FsError>(None) ==> names_nothing(filesystem, path@),
        path@ == seq!['.'] ==> r is Ok && r->Ok_0 is Some,
        (r == Err::<Option<Directory>, FsError>(FsError::BadGeometry)) == (path@ != seq!['.']
            && !geometry_ok(filesystem.filesystem_view().ebpb_view())),
        r matches Err(e) ==> e == FsError::BadGeometry || e == FsError::DiskRead
            || filesystem.filesystem_view().unreadable_path(filesystem.drive_view(), path@),
{
    if is_root_path(path) {
        Ok(Some(filesystem.get_root_directory()))
    } else {
        filesystem.get_directory(path)
    }
}

/// The folder `parent` at `path` lists `children` on the disk.
pub open spec fn listing_at<D: Disk>(
    filesystem: &ManagedFilesystem<Fat32, D>,
    path: Seq<char>,
    parent: Directory,
    children: Seq<Directory>,
) -> bool {
    &&& looks_in(filesystem, path, parent)
    &&& filesystem.filesystem_view().lists(filesystem.drive_view(), parent, children)
}

/// The folder at `path` lists at most `count` entries.
pub open spec fn listing_within<D: Disk>(
    filesystem: &ManagedFilesystem<Fat32, D>,
    path: Seq<char>,
    count: int,
) -> bool {
    exists|parent: Directory, children: Seq<Directory>|
        #[trigger] listing_at(filesystem, path, parent, children) && children.len() <= count
}

/// Two folders found at the same path list as many entries.
proof fn lemma_listing_unique<D: Disk>(
    filesystem: &ManagedFilesystem<Fat32, D>,
    path: Seq<char>,
    p: Directory,
    children: Seq<Directory>,
    q: Directory,
    others: Seq<Directory>,
)
    requires
        listing_at(filesystem, path, p, children),
        listing_at(filesystem, path, q, others),
    ensures
        children.len() == others.len(),
        found_view(children) == found_view(others),
{
    assert(entry_cluster(q.fat_view().entry_bytes()) == entry_cluster(p.fat_view().entry_bytes()));
    assert(found_view(others).len() == others.len());
    assert(found_view(children).len() == children.len());
}

/// `s` is what stat reports for entry `child_node` of the folder `parent`
/// at `path`, which lists `children`: `d` is the folder itself (0) or its
/// entry number `child_node`, and the count of entries of a folder `d` is
/// the count of `children` when `d` points to cluster 0, else the count of
/// `grandchildren`, what `d` lists.
pub open spec fn stat_witness<D: Disk>(
    filesystem: &ManagedFilesystem<Fat32, D>,
    path: Seq<char>,
    child_node: usize,
    s: Stat,
    parent: Directory,
    children: Seq<Directory>,
    d: Directory,
    grandchildren: Seq<Directory>,
) -> bool {
    let fs = filesystem.filesystem_view();
    let drive = filesystem.drive_view();
    let bytes = d.fat_view().entry_bytes();
    &&& listing_at(filesystem, path, parent, children)
    &&& child_node <= children.len()
    &&& d == (if child_node == 0 {
        parent
    } else {
        children[child_node - 1]
    })
    &&& entry_is_folder(bytes) && entry_cluster(bytes) != 0 ==> fs.lists(drive, d, grandchildren)
    &&& s == stat_spec(
        d.name_view(),
        bytes,
        if entry_cluster(bytes) == 0 {
            children.len() as u32
        } else {
            grandchildren.len() as u32
        },
    )
}

/// A folder that a name call on `path` reads cannot be read, whatever the
/// disk does: a folder on the way along the path, or the folder it names.
pub open spec fn name_unreadable<D: Disk>(
    filesystem: &ManagedFilesystem<Fat32, D>,
    path: Seq<char>,
) -> bool {
    let fs = filesystem.filesystem_view();
    let drive = filesystem.drive_view();
    ||| path != seq!['.'] && fs.unreadable_path(drive, path)
    ||| exists|p: Directory| #[trigger] looks_in(filesystem, path, p) && fs.unreadable_folder(drive, p)
}

/// A folder that a stat call on `path` and `child_node` reads cannot be
/// read, whatever the disk does: one that a name call reads, or the entry
/// `child_node` when it is a folder whose entries are counted.
pub open spec fn stat_unreadable<D: Disk>(
    filesystem: &ManagedFilesystem<Fat32, D>,
    path: Seq<char>,
    child_node: usize,
) -> bool {
    let fs = filesystem.filesystem_view();
    let drive = filesystem.drive_view();
    ||| name_unreadable(filesystem, path)
    ||| exists|p: Directory, children: Seq<Directory>|
        #[trigger] listing_at(filesystem, path, p, children) && 1 <= child_node <= children.len()
            && fs.unreadable_folder(drive, children[child_node - 1])
}

/// `s` is what stat reports for entry `child_node` of the folder at `path`
/// (see `stat_witness`).
pub open spec fn stat_found<D: Disk>(
    filesystem: &ManagedFilesystem<Fat32, D>,
    path: Seq<char>,
    child_node: usize,
    s: Stat,
) -> bool {
    exists|parent: Directory, children: Seq<Directory>, d: Directory, grandchildren: Seq<Directory>|
        #[trigger] stat_witness(filesystem, path, child_node, s, parent, children, d, grandchildren)
}

/// Describes entry `child_node` of the folder at `directory_path` (`.` is the
/// root): 0 is the folder itself, `n` its `n`-th entry. `Ok(None)` when the
/// path names nothing or the folder has fewer than `child_node` entries;
/// `Err` when a folder that the answer depends on could not be read. The
/// count of entries in a folder entry is read from the disk, except for an
/// entry that points to cluster 0 (the `..` of a top-level folder), which
/// counts the entries of the folder at the path.
pub fn stat<D: Disk>(
    filesystem: &ManagedFilesystem<Fat32, D>,
    directory_path: &str,
    child_node: usize,
) -> (r: Result<Option<Stat>, FsError>)
    ensures
        r matches Ok(Some(s)) ==> stat_found(filesystem, directory_path@, child_node, s),
        r == Ok::<Option<Stat>, FsError>(None) ==> names_nothing(filesystem, directory_path@)
            || listing_within(filesystem, directory_path@, child_node - 1),
        names_nothing(filesystem, directory_path@) || listing_within(
            filesystem,
            directory_path@,
            child_node - 1,
        ) ==> (r matches Ok(x) ==> x is None),
        directory_path@ == seq!['.'] && child_node == 0 ==> r != Ok::<Option<Stat>, FsError>(None),
        (r == Err::<Option<Stat>, FsError>(FsError::BadGeometry)) == !geometry_ok(
            filesystem.filesystem_view().ebpb_view(),
        ),
        r matches Err(e) ==> e == FsError::DiskRead || e == FsError::BadGeometry || stat_unreadable(
            filesystem,
            directory_path@,
            child_node,
        ),
{
    let parent_directory = match parent_of(filesystem, directory_path) {
        Ok(Some(dir)) => dir,
        Ok(None) => {
            return Ok(None);
        },
        Err(e) => {
            return Err(e);
        },
    };
    let child_dirs = match filesystem.get_child_directories(&parent_directory) {
        Ok(dirs) => dirs,
        Err(e) => {
            assert(looks_in(filesystem, directory_path@, parent_directory));
            return Err(e);
        },
    };
    assert(listing_at(filesystem, directory_path@, parent_directory, child_dirs@));
    proof {
        assert forall|q: Directory, others: Seq<Directory>|
            #[trigger] listing_at(filesystem, directory_path@, q, others) implies others.len()
            == child_dirs@.len() by {
            lemma_listing_unique(filesystem, directory_path@, parent_directory, child_dirs@, q, others);
        }
    }
    let directory = if child_node == 0 {
        parent_directory.clone()
    } else if child_node - 1 < child_dirs.len() {
        child_dirs[child_node - 1].clone()
    } else {
        return Ok(None);
    };
    let mut grandchildren: Vec<Directory> = Vec::new();
    let child_nodes_count = if directory.get_fat_dir().is_folder() {
        if directory.get_fat_dir().get_cluster() == 0 {
            child_dirs.len() as u32
        } else {
            grandchildren = match filesystem.get_child_directories(&directory) {
                Ok(dirs) => dirs,
                Err(e) => {
                    proof {
                        if child_node == 0 {
                            assert(looks_in(filesystem, directory_path@, directory));
                        } else {
                            assert(directory == child_dirs@[child_node - 1]);
                        }
                    }
                    return Err(e);
                },
            };
            grandchildren.len() as u32
        }
    } else {
        0
    };
    let stat = stat_of(&directory, child_nodes_count);
    proof {
        let bytes = directory.fat_view().entry_bytes();
        assert(stat == stat_spec(
            directory.name_view(),
            bytes,
            if entry_cluster(bytes) == 0 {
                child_dirs@.len() as u32
            } else {
                grandchildren@.len() as u32
            },
        ));
    }
    assert(stat_witness(
        filesystem,
        directory_path@,
        child_node,
        stat,
        parent_directory,
        child_dirs@,
        directory,
        grandchildren@,
    ));
    assert(stat_found(filesystem, directory_path@, child_node, stat));
    Ok(Some(stat))
}

/// `name` is entry `child_node` of the folder `parent` at `path`, which
/// lists `children`.
pub open spec fn dir_name_witness<D: Disk>(
    filesystem: &ManagedFilesystem<Fat32, D>,
    path: Seq<char>,
    child_node: usize,
    name: Seq<char>,
    parent: Directory,
    children: Seq<Directory>,
) -> bool {
    &&& listing_at(filesystem, path, parent, children)
    &&& child_node < children.len()
    &&& name == children[child_node as int].name_view()
}

/// `name` is entry `child_node` of the folder at `path` (see `dir_name_witness`).
pub open spec fn dir_name_found<D: Disk>(
    filesystem: &ManagedFilesystem<Fat32, D>,
    path: Seq<char>,
    child_node: usize,
    name: Seq<char>,
) -> bool {
    exists|parent: Directory, children: Seq<Directory>|
        #[trigger] dir_name_witness(filesystem, path, child_node, name, parent, children)
}

/// The name of entry `child_node` of the folder at `parent_dir_name` (`.` is
/// the root, 0 its first entry): `Ok(None)` when the path names nothing or
/// the entry does not exist, `Err` when a folder on the way could not be read.
pub fn read_dir_name<D: Disk>(
    filesystem: &ManagedFilesystem<Fat32, D>,
    parent_dir_name: &str,
    child_node: usize,
) -> (r: Result<Option<String>, FsError>)
    ensures
        r matches Ok(Some(name)) ==> dir_name_found(filesystem, parent_dir_name@, child_node, name@),
        r == Ok::<Option<String>, FsError>(None) ==> names_nothing(filesystem, parent_dir_name@)
            || listing_within(filesystem, parent_dir_name@, child_node as int),
        names_nothing(filesystem, parent_dir_name@) || listing_within(
            filesystem,
            parent_dir_name@,
            child_node as int,
        ) ==> (r matches Ok(x) ==> x is None),
        (r == Err::<Option<String>, FsError>(FsError::BadGeometry)) == !geometry_ok(
            filesystem.filesystem_view().ebpb_view(),
        ),
        r matches Err(e) ==> e == FsError::DiskRead || e == FsError::BadGeometry || name_unreadable(
            filesystem,
            parent_dir_name@,
        ),
{
    let parent = match parent_of(filesystem, parent_dir_name) {
        Ok(Some(dir)) => dir,
        Ok(None) => {
            return Ok(None);
        },
        Err(e) => {
            return Err(e);
        },
    };
    let dirs = match filesystem.get_child_directories(&parent) {
        Ok(dirs) => dirs,
        Err(e) => {
            assert(looks_in(filesystem, parent_dir_name@, parent));
            return Err(e);
        },
    };
    assert(listing_at(filesystem, parent_dir_name@, parent, dirs@));
    proof {
        assert forall|q: Directory, others: Seq<Directory>|
            #[trigger] listing_at(filesystem, parent_dir_name@, q, others) implies others.len()
            == dirs@.len() by {
            lemma_listing_unique(filesystem, parent_dir_name@, parent, dirs@, q, others);
        }
    }
    if child_node < dirs.len() {
        let name = dirs[child_node].get_name();
        assert(dir_name_witness(filesystem, parent_dir_name@, child_node, name@, parent, dirs@));
        assert(dir_name_found(filesystem, parent_dir_name@, child_node, name@));
        Ok(Some(name))
    } else {
        Ok(None)
    }
}

/// The name length that stat reports for entry `n + 1` of a folder (its
/// `n`-th entry counted from 0) is the number of bytes of the UTF-8 encoding
/// of the name that the name call gives for entry `n` of the same folder:
/// the bytes that the name call copies (cut to 32 bits).
pub proof fn lemma_stat_name_length_is_name_bytes<D: Disk>(
    filesystem: &ManagedFilesystem<Fat32, D>,
    path: Seq<char>,
    n: usize,
    s: Stat,
    name: Seq<char>,
)
    requires
        n < usize::MAX,
        stat_found(filesystem, path, (n + 1) as usize, s),
        dir_name_found(filesystem, path, n, name),
    ensures
        s.directory_name_length == (vstd::utf8::encode_utf8(name).len() as usize) as u32,
{
    let (p, children, d, g) = choose|
        p: Directory,
        children: Seq<Directory>,
        d: Directory,
        g: Seq<Directory>,
    | #[trigger] stat_witness(filesystem, path, (n + 1) as usize, s, p, children, d, g);
    let (q, others) = choose|q: Directory, others: Seq<Directory>|
        #[trigger] dir_name_witness(filesystem, path, n, name, q, others);
    lemma_listing_unique(filesystem, path, p, children, q, others);
    assert(d == children[n as int]);
    assert(found_view(children)[n as int] == found_view(others)[n as int]);
    assert(found_view(children)[n as int].0 == children[n as int].name_view());
    assert(found_view(others)[n as int].0 == others[n as int].name_view());
}

} // verus!
