use vstd::prelude::*;

verus! {

/// What the kernel needs to know of a file.
pub trait File {
    /// The file's name.
    spec fn name_view(&self) -> Seq<char>;

    /// The file's size in bytes.
    spec fn size_view(&self) -> nat;

    fn get_name(&self) -> (r: String)
        ensures
            r@ == self.name_view(),
    ;

    fn get_size(&self) -> (r: usize)
        ensures
            r == self.size_view(),
    ;
}

/// An open file and the position in it that the next read starts from.
pub struct FilePointer<T: File> {
    current: usize,
    file: T,
}

impl<T: File> FilePointer<T> {
    /// The position of the next read.
    pub closed spec fn position(&self) -> usize {
        self.current
    }

    /// The file.
    pub closed spec fn file_view(&self) -> T {
        self.file
    }

    pub fn new(current: usize, file: T) -> (r: Self)
        ensures
            r.position() == current,
            r.file_view() == file,
    {
        FilePointer { current, file }
    }

    pub fn get_current(&self) -> (r: usize)
        ensures
            r == self.position(),
    {
        self.current
    }

    /// Moves the position forward by `amount` bytes.
    pub fn advance_current(&mut self, amount: usize)
        requires
            old(self).position() + amount <= usize::MAX,
        ensures
            final(self).position() == old(self).position() + amount,
            final(self).file_view() == old(self).file_view(),
    {
        self.current = self.current + amount;
    }

    pub fn set_current(&mut self, new_current: usize)
        ensures
            final(self).position() == new_current,
            final(self).file_view() == old(self).file_view(),
    {
        self.current = new_current;
    }

    pub fn get_file(&self) -> (r: &T)
        ensures
            *r == self.file_view(),
    {
        &self.file
    }
}

/// An open file under its descriptor number.
pub struct FileDescriptor<T: File> {
    id: usize,
    pointer: FilePointer<T>,
}

impl<T: File> FileDescriptor<T> {
    /// The descriptor number.
    pub closed spec fn id_view(&self) -> usize {
        self.id
    }

    /// The open file.
    pub closed spec fn pointer_view(&self) -> FilePointer<T> {
        self.pointer
    }

    pub fn new(id: usize, pointer: FilePointer<T>) -> (r: Self)
        ensures
            r.id_view() == id,
            r.pointer_view() == pointer,
    {
        FileDescriptor { id, pointer }
    }

    pub fn get_id(&self) -> (r: usize)
        ensures
            r == self.id_view(),
    {
        self.id
    }

    pub fn get_pointer(&self) -> (r: &FilePointer<T>)
        ensures
            *r == self.pointer_view(),
    {
        &self.pointer
    }

    pub fn get_pointer_mut(&mut self) -> (r: &mut FilePointer<T>)
        ensures
            *r == old(self).pointer_view(),
            final(self).pointer_view() == *final(r),
            final(self).id_view() == old(self).id_view(),
    {
        &mut self.pointer
    }
}

} // verus!
