use vstd::prelude::*;
use crate::filesystem::descriptor::{File, FilePointer};
use crate::filesystem::disk::Disk;
use crate::filesystem::fat32::FsError;

pub mod descriptor;
pub mod disk;
pub mod fat32;
pub mod managed;

verus! {

/// Why a file could not be opened.
#[derive(PartialEq, Eq, Structural, Clone, Copy, Debug)]
pub enum OpenError {
    FileNotFound,
    NotAFile,
    DescriptorAlreadyOpen,
    /// The disk failed to read a sector on the way.
    DiskError,
}

impl OpenError {
    pub open spec fn code_spec(self) -> usize {
        match self {
            OpenError::FileNotFound => 0xffffffff,
            OpenError::NotAFile => 0xfffffffe,
            OpenError::DescriptorAlreadyOpen => 0xfffffffd,
            OpenError::DiskError => 0xfffffffc,
        }
    }

    /// The error that a number stands for, where a descriptor was expected;
    /// `None` for a descriptor number.
    pub fn from_code(code: usize) -> (r: Option<OpenError>)
        ensures
            match r {
                Some(e) => e.code_spec() == code,
                None => code != 0xffffffff && code != 0xfffffffe && code != 0xfffffffd && code
                    != 0xfffffffc,
            },
    {
        if code == 0xffffffff {
            Some(OpenError::FileNotFound)
        } else if code == 0xfffffffe {
            Some(OpenError::NotAFile)
        } else if code == 0xfffffffd {
            Some(OpenError::DescriptorAlreadyOpen)
        } else if code == 0xfffffffc {
            Some(OpenError::DiskError)
        } else {
            None
        }
    }

    /// The number that stands for the error where a descriptor is expected.
    pub fn code(&self) -> (r: usize)
        ensures
            r == self.code_spec(),
    {
        match self {
            OpenError::FileNotFound => 0xffffffff,
            OpenError::NotAFile => 0xfffffffe,
            OpenError::DescriptorAlreadyOpen => 0xfffffffd,
            OpenError::DiskError => 0xfffffffc,
        }
    }
}

/// Different errors have different numbers, so reading a number back
/// (`OpenError::from_code`) gives the error it was made from.
pub proof fn lemma_error_codes_differ(a: OpenError, b: OpenError)
    ensures
        a.code_spec() == b.code_spec() ==> a == b,
{
}

/// A filesystem: its kind of entry and its root folder.
pub trait Filesystem {
    type EntryType: File;

    /// `entry` is the root folder.
    spec fn is_root(&self, entry: Self::EntryType) -> bool;

    fn get_root_directory(&self) -> (r: Self::EntryType)
        ensures
            self.is_root(r),
    ;
}

/// A filesystem as it lies on a disk of type `D`: what reading it gives.
pub trait FilesystemOn<D: Disk>: Filesystem {
    /// `children` is what the folder `folder` holds on `drive`.
    spec fn lists(
        &self,
        drive: &D,
        folder: Self::EntryType,
        children: Seq<Self::EntryType>,
    ) -> bool;

    /// `entry` is what `path` names on `drive`: a file or a folder, or
    /// nothing (`None`).
    spec fn names(&self, drive: &D, path: Seq<char>, entry: Option<Self::EntryType>) -> bool;

    /// `file` is the file that `path` leads to on `drive`, or there is none (`None`).
    spec fn leads_to(&self, drive: &D, path: Seq<char>, file: Option<Self::EntryType>) -> bool;

    /// `after` is what a read of the file from the pointer's position leaves
    /// in a buffer that held `before`.
    spec fn reads(
        &self,
        drive: &D,
        file_pointer: FilePointer<Self::EntryType>,
        before: Seq<u8>,
        after: Seq<u8>,
    ) -> bool;

    /// The volume's description can be used; when it cannot, every call
    /// fails before it reads anything else (`BadGeometry`).
    spec fn usable(&self) -> bool;

    /// What `folder` points to on `drive` cannot be read as a folder, whatever
    /// the disk does.
    spec fn unreadable_folder(&self, drive: &D, folder: Self::EntryType) -> bool;

    /// A folder on the way along `path` on `drive` cannot be read, whatever
    /// the disk does.
    spec fn unreadable_path(&self, drive: &D, path: Seq<char>) -> bool;

    /// The entries of `directory`, or why they could not be read: `BadGeometry`
    /// exactly when the volume cannot be used, else a failed disk read or a
    /// folder that cannot be read.
    fn get_child_directories(&self, drive: &D, directory: &Self::EntryType) -> (r: Result<
        Vec<Self::EntryType>,
        FsError,
    >)
        ensures
            r matches Ok(v) ==> self.lists(drive, *directory, v@),
            (r == Err::<Vec<Self::EntryType>, FsError>(FsError::BadGeometry)) == !self.usable(),
            r matches Err(e) ==> e == FsError::BadGeometry || e == FsError::DiskRead
                || self.unreadable_folder(drive, *directory),
    ;

    /// The file or folder at the path (`None` when it names nothing), or why
    /// the folders on the way could not be read (as for `get_child_directories`).
    fn get_directory(&self, drive: &D, directory_path: &str) -> (r: Result<
        Option<Self::EntryType>,
        FsError,
    >)
        ensures
            r matches Ok(x) ==> self.names(drive, directory_path@, x),
            (r == Err::<Option<Self::EntryType>, FsError>(FsError::BadGeometry))
                == !self.usable(),
            r matches Err(e) ==> e == FsError::BadGeometry || e == FsError::DiskRead
                || self.unreadable_path(drive, directory_path@),
    ;

    /// The file at the path.
    fn get_file(&self, drive: &D, file_path: &str) -> (r: Result<
        Self::EntryType,
        OpenError,
    >)
        ensures
            r matches Ok(f) ==> self.leads_to(drive, file_path@, Some(f)),
            r == Err::<Self::EntryType, OpenError>(OpenError::FileNotFound) ==> self.leads_to(
                drive,
                file_path@,
                None,
            ),
            r matches Err(e) ==> e == OpenError::FileNotFound || e == OpenError::DiskError,
            !self.usable() ==> r == Err::<Self::EntryType, OpenError>(OpenError::DiskError),
    ;

    /// Reads the file from the pointer's position into `buffer`; on success
    /// returns the number of bytes by which the position moves on.
    fn read_file(
        &self,
        drive: &D,
        file_pointer: &FilePointer<Self::EntryType>,
        buffer: &mut [u8],
    ) -> (r: Option<usize>)
        ensures
            final(buffer)@.len() == old(buffer)@.len(),
            r is Some ==> self.reads(drive, *file_pointer, old(buffer)@, final(buffer)@),
            r matches Some(n) ==> n == old(buffer)@.len(),
            !self.usable() ==> r is None,
    ;
}

} // verus!
