use vstd::prelude::*;
use crate::filesystem::descriptor::{File, FileDescriptor, FilePointer};
use crate::filesystem::disk::Disk;
use crate::filesystem::{Filesystem, FilesystemOn, OpenError};
use crate::filesystem::fat32::FsError;

verus! {

/// Descriptor numbers in strictly increasing order.
pub open spec fn ids_sorted(ids: Seq<usize>) -> bool {
    forall|i: int, j: int| 0 <= i < j < ids.len() ==> ids[i] < ids[j]
}

/// The first position from `i` on whose number is larger than the position.
pub open spec fn first_gap_from(ids: Seq<usize>, i: int) -> int
    decreases ids.len() - i,
{
    if i >= ids.len() {
        ids.len() as int
    } else if ids[i] > i {
        i
    } else {
        first_gap_from(ids, i + 1)
    }
}

/// The number that the next opened file gets (and the position it is stored at).
pub open spec fn first_gap(ids: Seq<usize>) -> int {
    first_gap_from(ids, 0)
}

/// What a read of an open descriptor came to.
#[derive(PartialEq, Eq, Structural, Clone, Copy, Debug)]
pub enum ReadStatus {
    /// No open descriptor has the number.
    NotOpen,
    /// The filesystem could not read the file.
    Failed,
    /// The filesystem read this many bytes, and the position moved on by as many.
    Read(usize),
}

/// A filesystem on a drive, with the table of open files.
pub struct ManagedFilesystem<'a, T: FilesystemOn<D>, D: Disk> {
    filesystem: T,
    drive: &'a D,
    descriptors: Vec<FileDescriptor<T::EntryType>>,
}

impl<'a, T: FilesystemOn<D>, D: Disk> ManagedFilesystem<'a, T, D> {
    /// The open descriptors, in table order.
    pub closed spec fn open_files(&self) -> Seq<FileDescriptor<T::EntryType>> {
        self.descriptors@
    }

    /// The numbers of the open descriptors, in table order.
    pub open spec fn ids(&self) -> Seq<usize> {
        self.open_files().map_values(|d: FileDescriptor<T::EntryType>| d.id_view())
    }

    /// The filesystem.
    pub closed spec fn filesystem_view(&self) -> T {
        self.filesystem
    }

    /// The drive the filesystem lies on.
    pub closed spec fn drive_view(&self) -> &'a D {
        self.drive
    }

    /// The table is kept sorted by descriptor number, without repeats.
    pub open spec fn wf(&self) -> bool {
        ids_sorted(self.ids())
    }

    /// The table is a vector, so its length fits in a `usize`.
    pub proof fn lemma_table_length_fits(&self)
        ensures
            self.ids().len() <= usize::MAX,
    {
        assert(self.descriptors.len() == self.descriptors@.len());
    }

    pub fn new(filesystem: T, drive: &'a D) -> (r: Self)
        ensures
            r.open_files() == Seq::<FileDescriptor<T::EntryType>>::empty(),
            r.filesystem_view() == filesystem,
            r.drive_view() == drive,
            r.wf(),
    {
        let r = ManagedFilesystem { filesystem, drive, descriptors: Vec::new() };
        assert(r.ids() =~= Seq::<usize>::empty());
        r
    }

    /// The file or folder at the path (see `FilesystemOn::get_directory`).
    pub fn get_directory(&self, directory_path: &str) -> (r: Result<Option<T::EntryType>, FsError>)
        ensures
            r matches Ok(x) ==> self.filesystem_view().names(self.drive_view(), directory_path@, x),
            (r == Err::<Option<T::EntryType>, FsError>(FsError::BadGeometry))
                == !self.filesystem_view().usable(),
            r matches Err(e) ==> e == FsError::BadGeometry || e == FsError::DiskRead
                || self.filesystem_view().unreadable_path(self.drive_view(), directory_path@),
    {
        self.filesystem.get_directory(self.drive, directory_path)
    }

    /// The root folder.
    pub fn get_root_directory(&self) -> (r: T::EntryType)
        ensures
            self.filesystem_view().is_root(r),
    {
        self.filesystem.get_root_directory()
    }

    /// The entries of `directory` (see `FilesystemOn::get_child_directories`).
    pub fn get_child_directories(&self, directory: &T::EntryType) -> (r: Result<
        Vec<T::EntryType>,
        FsError,
    >)
        ensures
            r matches Ok(v) ==> self.filesystem_view().lists(self.drive_view(), *directory, v@),
            (r == Err::<Vec<T::EntryType>, FsError>(FsError::BadGeometry))
                == !self.filesystem_view().usable(),
            r matches Err(e) ==> e == FsError::BadGeometry || e == FsError::DiskRead
                || self.filesystem_view().unreadable_folder(self.drive_view(), *directory),
    {
        self.filesystem.get_child_directories(self.drive, directory)
    }

    /// Opens `file` under the lowest number that is not in use, at position 0,
    /// and returns that number.
    pub fn open_entry(&mut self, file: T::EntryType) -> (r: usize)
        requires
            old(self).wf(),
        ensures
            final(self).wf(),
            r == first_gap(old(self).ids()),
            final(self).ids() == old(self).ids().insert(r as int, r),
            final(self).open_files().len() == old(self).open_files().len() + 1,
            final(self).open_files().remove(r as int) == old(self).open_files(),
            final(self).open_files()[r as int].id_view() == r,
            final(self).open_files()[r as int].pointer_view().position() == 0,
            final(self).open_files()[r as int].pointer_view().file_view() == file,
            final(self).filesystem_view() == old(self).filesystem_view(),
            final(self).drive_view() == old(self).drive_view(),
    {
        let ghost ids = self.ids();
        let mut lowest_index = self.descriptors.len();
        let mut index: usize = 0;
        while index < self.descriptors.len()
            invariant_except_break
                forall|i: int| 0 <= i < index ==> #[trigger] ids[i] == i,
                lowest_index == self.descriptors.len(),
            invariant
                ids == self.ids(),
                ids_sorted(ids),
                index <= self.descriptors.len(),
                first_gap_from(ids, index as int) == first_gap(ids),
            ensures
                lowest_index == first_gap(ids),
            decreases self.descriptors.len() - index,
        {
            let id = self.descriptors[index].get_id();
            assert(id == ids[index as int]);
            if id > index {
                lowest_index = index;
                break;
            }
            proof {
                lemma_sorted_ids_at_least_position(ids, index as int);
            }
            index = index + 1;
        }
        proof {
            lemma_first_gap_bounds(ids);
        }
        let ghost files0 = self.descriptors@;
        let descriptor = FileDescriptor::new(lowest_index, FilePointer::new(0, file));
        self.descriptors.insert(lowest_index, descriptor);
        proof {
            let new_ids = self.ids();
            assert(new_ids =~= ids.insert(lowest_index as int, lowest_index));
            assert(self.descriptors@.remove(lowest_index as int) =~= files0);
            lemma_insert_first_gap_sorted(ids);
        }
        lowest_index
    }

    /// Opens the file at `file_name`: its descriptor number on success (see
    /// `open_entry`), else the filesystem's error, with the table unchanged.
    pub fn open_file(&mut self, file_name: &str) -> (r: Result<usize, OpenError>)
        requires
            old(self).wf(),
        ensures
            final(self).wf(),
            final(self).filesystem_view() == old(self).filesystem_view(),
            final(self).drive_view() == old(self).drive_view(),
            !old(self).filesystem_view().usable() ==> r == Err::<usize, OpenError>(
                OpenError::DiskError,
            ),
            match r {
                Ok(id) => {
                    &&& id == first_gap(old(self).ids())
                    &&& final(self).ids() == old(self).ids().insert(id as int, id)
                    &&& final(self).open_files().remove(id as int) == old(self).open_files()
                    &&& final(self).open_files()[id as int].pointer_view().position() == 0
                    &&& old(self).filesystem_view().leads_to(
                        old(self).drive_view(),
                        file_name@,
                        Some(final(self).open_files()[id as int].pointer_view().file_view()),
                    )
                },
                Err(e) => {
                    &&& final(self).open_files() == old(self).open_files()
                    &&& e == OpenError::FileNotFound || e == OpenError::DiskError
                    &&& e == OpenError::FileNotFound ==> old(self).filesystem_view().leads_to(
                        old(self).drive_view(),
                        file_name@,
                        None,
                    )
                },
            },
    {
        match self.filesystem.get_file(self.drive, file_name) {
            Ok(file) => {
                let id = self.open_entry(file);
                Ok(id)
            },
            Err(open_error) => Err(open_error),
        }
    }

    /// Position in the table of the descriptor numbered `descriptor`, if it is open.
    fn find(&self, descriptor: usize) -> (r: Option<usize>)
        ensures
            match r {
                Some(i) => i < self.ids().len() && self.ids()[i as int] == descriptor,
                None => !self.ids().contains(descriptor),
            },
    {
        let mut index: usize = 0;
        while index < self.descriptors.len()
            invariant
                index <= self.descriptors.len(),
                forall|i: int| 0 <= i < index ==> #[trigger] self.ids()[i] != descriptor,
            decreases self.descriptors.len() - index,
        {
            if self.descriptors[index].get_id() == descriptor {
                return Some(index);
            }
            index = index + 1;
        }
        None
    }

    /// Moves the position of descriptor `descriptor` to `new_current`, or to
    /// the file's last byte when `new_current` lies past its end. Returns
    /// whether the descriptor was open; when it is not, nothing changes.
    pub fn seek(&mut self, descriptor: usize, new_current: usize) -> (r: bool)
        requires
            old(self).wf(),
            forall|i: int|
                0 <= i < old(self).ids().len() && old(self).ids()[i] == descriptor ==> (#[trigger] old(
                    self,
                ).open_files()[i]).pointer_view().file_view().size_view() > 0,
        ensures
            final(self).wf(),
            final(self).filesystem_view() == old(self).filesystem_view(),
            final(self).drive_view() == old(self).drive_view(),
            r == old(self).ids().contains(descriptor),
            !r ==> final(self).open_files() == old(self).open_files(),
            final(self).ids() == old(self).ids(),
            forall|i: int|
                0 <= i < old(self).ids().len() ==> {
                    let before = (#[trigger] old(self).open_files()[i]).pointer_view();
                    let after = final(self).open_files()[i].pointer_view();
                    let size = before.file_view().size_view();
                    &&& after.file_view() == before.file_view()
                    &&& after.position() == if old(self).ids()[i] != descriptor {
                        before.position() as int
                    } else if new_current < size {
                        new_current as int
                    } else {
                        size - 1
                    }
                },
    {
        match self.find(descriptor) {
            Some(index) => {
                let mut entry = self.descriptors.remove(index);
                let file_pointer = entry.get_pointer_mut();
                let file_size = file_pointer.get_file().get_size();
                if new_current < file_size {
                    file_pointer.set_current(new_current);
                } else {
                    file_pointer.set_current(file_size - 1);
                }
                self.descriptors.insert(index, entry);
                proof {
                    assert(self.ids() =~= old(self).ids());
                }
                true
            },
            None => false,
        }
    }

    /// Closes descriptor `descriptor`. Returns whether it was open; when it is
    /// not, nothing changes.
    pub fn close_descriptor(&mut self, descriptor: usize) -> (r: bool)
        requires
            old(self).wf(),
        ensures
            final(self).wf(),
            final(self).filesystem_view() == old(self).filesystem_view(),
            final(self).drive_view() == old(self).drive_view(),
            r == old(self).ids().contains(descriptor),
            !r ==> final(self).open_files() == old(self).open_files(),
            r ==> final(self).open_files() == old(self).open_files().remove(
                old(self).ids().index_of(descriptor),
            ),
            r ==> final(self).ids() == old(self).ids().remove(old(self).ids().index_of(descriptor)),
    {
        match self.find(descriptor) {
            Some(index) => {
                proof {
                    let ids = old(self).ids();
                    assert(ids.contains(descriptor));
                    let j = ids.index_of(descriptor);
                    if j != index {
                        assert(ids[j] == ids[index as int]);
                    }
                }
                self.descriptors.remove(index);
                proof {
                    assert(self.ids() =~= old(self).ids().remove(index as int));
                }
                true
            },
            None => false,
        }
    }

    /// Reads from descriptor `descriptor` into `buffer` and moves its position
    /// on by the number of bytes that the filesystem reports read.
    pub fn read_file(&mut self, descriptor: usize, buffer: &mut [u8]) -> (r: ReadStatus)
        requires
            old(self).wf(),
        ensures
            final(self).wf(),
            final(self).filesystem_view() == old(self).filesystem_view(),
            final(self).drive_view() == old(self).drive_view(),
            final(self).ids() == old(self).ids(),
            (r == ReadStatus::NotOpen) == !old(self).ids().contains(descriptor),
            forall|i: int|
                0 <= i < old(self).ids().len() ==> {
                    let before = (#[trigger] old(self).open_files()[i]).pointer_view();
                    let after = final(self).open_files()[i].pointer_view();
                    &&& after.file_view() == before.file_view()
                    &&& after.position() == match r {
                        ReadStatus::Read(n) => if old(self).ids()[i] == descriptor {
                            before.position() + n
                        } else {
                            before.position() as int
                        },
                        _ => before.position() as int,
                    }
                },
            final(buffer)@.len() == old(buffer)@.len(),
            r == ReadStatus::NotOpen ==> final(buffer)@ == old(buffer)@,
            r == ReadStatus::Failed ==> old(self).ids().contains(descriptor),
            r matches ReadStatus::Read(n) ==> n == old(buffer)@.len(),
            old(self).ids().contains(descriptor) && (!old(self).filesystem_view().usable() || old(
                self,
            ).open_files()[old(self).ids().index_of(descriptor)].pointer_view().position()
                + old(buffer)@.len() > usize::MAX) ==> r == ReadStatus::Failed,
            r matches ReadStatus::Read(_) ==> old(self).filesystem_view().reads(
                old(self).drive_view(),
                old(self).open_files()[old(self).ids().index_of(descriptor)].pointer_view(),
                old(buffer)@,
                final(buffer)@,
            ),
    {
        match self.find(descriptor) {
            Some(index) => {
                let mut entry = self.descriptors.remove(index);
                let file_pointer = entry.get_pointer_mut();
                let result = self.filesystem.read_file(self.drive, file_pointer, buffer);
                let status = match result {
                    Some(result) => {
                        if file_pointer.get_current() <= usize::MAX - result {
                            file_pointer.advance_current(result);
                            ReadStatus::Read(result)
                        } else {
                            ReadStatus::Failed
                        }
                    },
                    None => ReadStatus::Failed,
                };
                self.descriptors.insert(index, entry);
                proof {
                    assert(self.ids() =~= old(self).ids());
                }
                status
            },
            None => ReadStatus::NotOpen,
        }
    }
}

// ---------------------------------------------------------------------------
// Laws of the descriptor table.

proof fn lemma_sorted_ids_at_least_position(ids: Seq<usize>, i: int)
    requires
        ids_sorted(ids),
        0 <= i < ids.len(),
        forall|k: int| 0 <= k < i ==> #[trigger] ids[k] == k,
        ids[i] <= i,
    ensures
        ids[i] == i,
{
    if i > 0 {
        assert(ids[i - 1] == i - 1);
        assert(ids[i - 1] < ids[i]);
    }
}

/// The next number lies within the table, every earlier position holds its
/// own number, and the position of the next number holds a larger one.
pub proof fn lemma_first_gap_bounds(ids: Seq<usize>)
    requires
        ids_sorted(ids),
    ensures
        0 <= first_gap(ids) <= ids.len(),
        forall|k: int| 0 <= k < first_gap(ids) ==> #[trigger] ids[k] == k,
        first_gap(ids) < ids.len() ==> ids[first_gap(ids)] > first_gap(ids),
{
    lemma_first_gap_from(ids, 0);
}

proof fn lemma_first_gap_from(ids: Seq<usize>, i: int)
    requires
        ids_sorted(ids),
        0 <= i <= ids.len(),
        forall|k: int| 0 <= k < i ==> #[trigger] ids[k] == k,
    ensures
        i <= first_gap_from(ids, i) <= ids.len(),
        forall|k: int| 0 <= k < first_gap_from(ids, i) ==> #[trigger] ids[k] == k,
        first_gap_from(ids, i) < ids.len() ==> ids[first_gap_from(ids, i)] > first_gap_from(
            ids,
            i,
        ),
    decreases ids.len() - i,
{
    if i < ids.len() && ids[i] <= i {
        lemma_sorted_ids_at_least_position(ids, i);
        lemma_first_gap_from(ids, i + 1);
    }
}

proof fn lemma_insert_first_gap_sorted(ids: Seq<usize>)
    requires
        ids_sorted(ids),
        first_gap(ids) <= usize::MAX,
    ensures
        ids_sorted(ids.insert(first_gap(ids), first_gap(ids) as usize)),
{
    lemma_first_gap_bounds(ids);
    let g = first_gap(ids);
    let n = ids.insert(g, g as usize);
    assert forall|i: int, j: int| 0 <= i < j < n.len() implies n[i] < n[j] by {
        if j < g {
        } else if i < g && j == g {
            assert(ids[i] == i);
        } else if i < g {
            assert(ids[i] == i);
            assert(ids[g] > g);
            if j - 1 > g {
                assert(ids[g] < ids[j - 1]);
            }
        } else if i == g {
            if j - 1 > g {
                assert(ids[g] < ids[j - 1]);
            }
        } else {
            assert(ids[i - 1] < ids[j - 1]);
        }
    }
}

/// The number that `open_file` hands out is the lowest one not in use: it is
/// not open, and every smaller number is. (A table's `ids()` meets the bound
/// on its length, see `lemma_table_length_fits`.)
pub proof fn lemma_first_gap_is_lowest_free(ids: Seq<usize>)
    requires
        ids_sorted(ids),
        ids.len() <= usize::MAX,
    ensures
        !ids.contains(first_gap(ids) as usize),
        forall|n: usize| 0 <= n < first_gap(ids) ==> #[trigger] ids.contains(n),
{
    lemma_first_gap_bounds(ids);
    let g = first_gap(ids);
    assert forall|n: usize| 0 <= n < g implies #[trigger] ids.contains(n) by {
        assert(ids[n as int] == n);
    }
    if ids.contains(g as usize) {
        let k = choose|k: int| 0 <= k < ids.len() && ids[k] == g as usize;
        if k < g {
            assert(ids[k] == k);
        } else if k > g {
            assert(ids[g] < ids[k]);
        } else {
            assert(ids[g] > g);
        }
    }
}

/// Closing the descriptor that `open_file` just handed out gives back the
/// table of numbers that was there before.
pub proof fn lemma_close_undoes_open(ids: Seq<usize>)
    requires
        ids_sorted(ids),
        first_gap(ids) <= usize::MAX,
    ensures
        ({
            let g = first_gap(ids);
            let opened = ids.insert(g, g as usize);
            &&& opened.contains(g as usize)
            &&& opened.index_of(g as usize) == g
            &&& opened.remove(opened.index_of(g as usize)) == ids
        }),
{
    lemma_first_gap_bounds(ids);
    lemma_insert_first_gap_sorted(ids);
    let g = first_gap(ids);
    let opened = ids.insert(g, g as usize);
    assert(opened[g] == g as usize);
    let j = opened.index_of(g as usize);
    if j != g {
        if j < g {
            assert(opened[j] < opened[g]);
        } else {
            assert(opened[g] < opened[j]);
        }
    }
    assert(opened.remove(g) =~= ids);
}

} // verus!
