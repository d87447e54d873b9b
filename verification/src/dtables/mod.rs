use vstd::prelude::*;

pub mod interrupts;
pub mod ldt;

verus! {

/// The operand of `lgdt` / `lidt`: the table's size in bytes minus one, and its address.
#[derive(Clone, Copy, Debug)]
pub struct TableDescriptor {
    pub limit: u16,
    pub ptr: u32,
}

/// The limit field for a table of `len` entries of `entry_size` bytes.
pub open spec fn table_limit(entry_size: int, len: int) -> u16 {
    (entry_size * len - 1) as u16
}

/// Something that has a packed form of type `T` for a descriptor table.
pub trait Encodable<T> {
    /// The packed form.
    spec fn encoding(&self) -> T;

    fn encode(&self) -> (r: T)
        ensures
            r == self.encoding(),
    ;
}

/// A descriptor table, absent until it is given a length.
pub struct DescriptorTable<T: Default> {
    table: Option<Vec<T>>,
}

impl<T: Default> DescriptorTable<T> {
    /// The entries, when the table exists.
    pub closed spec fn entries(&self) -> Option<Seq<T>> {
        match self.table {
            Some(v) => Some(v@),
            None => None,
        }
    }

    /// A table that does not exist yet.
    pub fn new() -> (r: Self)
        ensures
            r.entries() is None,
    {
        DescriptorTable { table: None }
    }

    /// Stores the packed form of `element` at `index`.
    pub fn insert<S: Encodable<T>>(&mut self, index: usize, element: S)
        requires
            old(self).entries() is Some,
            index < old(self).entries()->0.len(),
        ensures
            final(self).entries() == Some(old(self).entries()->0.update(index as int, element.encoding())),
    {
        let encoded = element.encode();
        match &mut self.table {
            Some(table) => {
                table.set(index, encoded);
            },
            None => {},
        }
    }

    /// Makes the table `length` default entries long.
    pub fn init_with_length(&mut self, length: usize)
        ensures
            final(self).entries() is Some,
            final(self).entries()->0.len() == length,
            forall|i: int|
                0 <= i < length ==> call_ensures(
                    T::default,
                    (),
                    #[trigger] final(self).entries()->0[i],
                ),
    {
        let mut vec: Vec<T> = Vec::new();
        let mut index: usize = 0;
        while index < length
            invariant
                index <= length,
                vec@.len() == index,
                forall|i: int| 0 <= i < index ==> call_ensures(T::default, (), #[trigger] vec@[i]),
            decreases length - index,
        {
            vec.push(T::default());
            index = index + 1;
        }
        self.table = Some(vec);
    }

    /// The entries, when the table exists.
    pub fn as_ref(&self) -> (r: Option<&[T]>)
        ensures
            match r {
                Some(s) => self.entries() == Some(s@),
                None => self.entries() is None,
            },
    {
        match &self.table {
            Some(boxed_slice) => Some(boxed_slice.as_slice()),
            None => None,
        }
    }
}

impl TableDescriptor {
    /// The descriptor of `structure`, which lies at `table_address`: its limit
    /// is the table's size in bytes minus one. A table that does not exist
    /// gives the empty descriptor.
    pub fn new<T: Default>(structure: &DescriptorTable<T>, table_address: u32) -> (r: Self)
        requires
            structure.entries() is Some ==> 1 <= vstd::layout::size_of::<T>()
                * structure.entries()->0.len() <= usize::MAX,
        ensures
            match structure.entries() {
                Some(entries) => r.limit == table_limit(
                    vstd::layout::size_of::<T>() as int,
                    entries.len() as int,
                ) && r.ptr == table_address,
                None => r.limit == 0 && r.ptr == 0,
            },
    {
        if let Some(slice) = structure.as_ref() {
            let size = core::mem::size_of::<T>() * slice.len() - 1;
            return TableDescriptor { limit: size as u16, ptr: table_address };
        }
        TableDescriptor::empty()
    }

    pub fn empty() -> (r: Self)
        ensures
            r.limit == 0,
            r.ptr == 0,
    {
        TableDescriptor { limit: 0, ptr: 0 }
    }
}

/// The operand of `lldt` / `lidt` for a table given as a slice.
pub struct TablePointer {
    pub limit: u16,
    pub ptr: u32,
}

impl TablePointer {
    /// The pointer to `table`, which lies at `table_address`.
    pub fn new<T>(table: &[T], table_address: u32) -> (r: Self)
        requires
            1 <= vstd::layout::size_of::<T>() * table@.len() <= usize::MAX,
        ensures
            r.limit == table_limit(vstd::layout::size_of::<T>() as int, table@.len() as int),
            r.ptr == table_address,
    {
        let size = core::mem::size_of::<T>() * table.len() - 1;
        TablePointer { limit: size as u16, ptr: table_address }
    }
}

} // verus!
