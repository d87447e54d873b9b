use vstd::prelude::*;

verus! {

/// The kinds of regions that the bootloader's memory map reports.
#[derive(PartialEq, Eq, Structural, Clone, Copy, Debug)]
pub enum MemoryAreaType {
    Free,
    Reserved,
    AcpiReclaimable,
    AcpiNonVolatile,
    Bad,
}

impl MemoryAreaType {
    /// The number that stands for each kind in the memory map.
    pub open spec fn code(self) -> u32 {
        match self {
            MemoryAreaType::Free => 1,
            MemoryAreaType::Reserved => 2,
            MemoryAreaType::AcpiReclaimable => 3,
            MemoryAreaType::AcpiNonVolatile => 4,
            MemoryAreaType::Bad => 5,
        }
    }

    /// The kind that a memory-map entry's type field names.
    pub open spec fn from_code(x: u32) -> MemoryAreaType {
        if x == 1 {
            MemoryAreaType::Free
        } else if x == 2 {
            MemoryAreaType::Reserved
        } else if x == 3 {
            MemoryAreaType::AcpiNonVolatile
        } else if x == 4 {
            MemoryAreaType::AcpiReclaimable
        } else {
            MemoryAreaType::Bad
        }
    }

    /// Reads a memory-map type field (`1 ..= 5`; other values are not a kind).
    pub fn from(x: u32) -> (r: MemoryAreaType)
        requires
            1 <= x <= 5,
        ensures
            r == Self::from_code(x),
    {
        match x {
            1 => MemoryAreaType::Free,
            2 => MemoryAreaType::Reserved,
            3 => MemoryAreaType::AcpiNonVolatile,
            4 => MemoryAreaType::AcpiReclaimable,
            _ => MemoryAreaType::Bad,
        }
    }

    /// The number that stands for this kind.
    pub fn as_u32(&self) -> (r: u32)
        ensures
            r == self.code(),
    {
        match self {
            MemoryAreaType::Free => 1,
            MemoryAreaType::Reserved => 2,
            MemoryAreaType::AcpiReclaimable => 3,
            MemoryAreaType::AcpiNonVolatile => 4,
            MemoryAreaType::Bad => 5,
        }
    }
}

/// One entry of the memory map that the bootloader leaves in memory.
#[derive(Clone, Copy, Debug)]
pub struct MemoryMapEntry {
    pub base: u64,
    pub size: u64,
    region_type: u32,
    acpi_info: u32,
}

impl MemoryMapEntry {
    /// The entry's type field.
    pub closed spec fn type_field(&self) -> u32 {
        self.region_type
    }

    /// The entry's base address.
    pub closed spec fn entry_base(&self) -> u64 {
        self.base
    }

    /// The entry's length in bytes.
    pub closed spec fn entry_size(&self) -> u64 {
        self.size
    }

    /// An entry with the given fields, as the bootloader lays them out.
    pub fn new(base: u64, size: u64, region_type: u32, acpi_info: u32) -> (r: Self)
        ensures
            r.entry_base() == base,
            r.entry_size() == size,
            r.type_field() == region_type,
    {
        MemoryMapEntry { base, size, region_type, acpi_info }
    }

    pub fn get_base(&self) -> (r: u64)
        ensures
            r == self.entry_base(),
    {
        self.base
    }

    pub fn get_size(&self) -> (r: u64)
        ensures
            r == self.entry_size(),
    {
        self.size
    }

    /// The type field names a kind of region (`1 ..= 5`).
    pub fn has_known_type(&self) -> (r: bool)
        ensures
            r == (1 <= self.type_field() <= 5),
    {
        1 <= self.region_type && self.region_type <= 5
    }

    /// The kind of the region; the type field must name one.
    pub fn get_region_type(&self) -> (r: MemoryAreaType)
        requires
            1 <= self.type_field() <= 5,
        ensures
            r == MemoryAreaType::from_code(self.type_field()),
    {
        MemoryAreaType::from(self.region_type)
    }
}

/// A range of addresses: `size` bytes from `base`.
#[derive(Clone, Copy, Debug)]
pub struct MemoryArea {
    pub base: usize,
    pub size: usize,
}

/// Address `x` lies in `area`.
pub open spec fn area_contains(area: MemoryArea, x: int) -> bool {
    area.base <= x < area.base + area.size
}

/// Address `x` lies in the area, if there is one.
pub open spec fn piece_contains(piece: Option<MemoryArea>, x: int) -> bool {
    match piece {
        Some(a) => area_contains(a, x),
        None => false,
    }
}

/// The area ends within the address space.
pub open spec fn area_in_range(area: MemoryArea) -> bool {
    area.base + area.size <= usize::MAX
}

/// What `subtract` returns: the part of `a` below `o`, and the part from the end of `o`.
pub open spec fn subtract_spec(a: MemoryArea, o: MemoryArea) -> (
    Option<MemoryArea>,
    Option<MemoryArea>,
) {
    let o_end = o.base + o.size;
    let end = a.base + a.size;
    (
        if a.base < o.base {
            Some(
                MemoryArea {
                    base: a.base,
                    size: if o.base - a.base < a.size {
                        (o.base - a.base) as usize
                    } else {
                        a.size
                    },
                },
            )
        } else {
            None
        },
        if end > o_end {
            Some(
                MemoryArea {
                    base: if o_end > a.base {
                        o_end as usize
                    } else {
                        a.base
                    },
                    size: (end - o_end) as usize,
                },
            )
        } else {
            None
        },
    )
}

impl MemoryArea {
    /// The area of `size` bytes from `base`.
    pub fn new(base: usize, size: usize) -> (r: Self)
        ensures
            r.base == base,
            r.size == size,
    {
        MemoryArea { base, size }
    }

    /// The empty area at address zero, which fills unused slots of area tables.
    pub open spec fn empty_spec() -> MemoryArea {
        MemoryArea { base: 0, size: 0 }
    }

    pub fn empty() -> (r: Self)
        ensures
            r == Self::empty_spec(),
    {
        MemoryArea { base: 0, size: 0 }
    }

    /// Removes `other` from this area: returns the part below `other` and the
    /// part from the end of `other` on, each when it is there.
    pub fn subtract(&self, other: &MemoryArea) -> (r: (Option<MemoryArea>, Option<MemoryArea>))
        requires
            area_in_range(*self),
            area_in_range(*other),
        ensures
            r == subtract_spec(*self, *other),
    {
        let mut before = None;
        let mut after = None;

        if self.base < other.base {
            let gap = other.base - self.base;
            let size = if gap < self.size {
                gap
            } else {
                self.size
            };
            before = Some(MemoryArea::new(self.base, size));
        }
        let other_end = other.base + other.size;
        let end = self.base + self.size;
        if end > other_end {
            let base = if other_end > self.base {
                other_end
            } else {
                self.base
            };
            after = Some(MemoryArea::new(base, end - other_end));
        }
        (before, after)
    }
}

/// Subtracting gives the set difference: an address lies in one of the two
/// parts exactly when it lies in `a` and not in `o`. This holds whenever `a`
/// does not lie wholly above the end of `o`; there, the upper part starts at
/// `a.base` but is as long as the distance from the end of `o` to the end of
/// `a`, which reaches past `a`.
pub proof fn lemma_subtract_is_difference(a: MemoryArea, o: MemoryArea, x: int)
    requires
        area_in_range(a),
        area_in_range(o),
        a.base <= o.base + o.size,
    ensures
        ({
            let (before, after) = subtract_spec(a, o);
            (piece_contains(before, x) || piece_contains(after, x)) <==> (area_contains(a, x)
                && !area_contains(o, x))
        }),
        ({
            let (before, after) = subtract_spec(a, o);
            !(piece_contains(before, x) && piece_contains(after, x))
        }),
{
}


impl From<MemoryMapEntry> for MemoryArea {
    /// The area that a memory-map entry describes.
    fn from(memory_map_entry: MemoryMapEntry) -> (r: Self) {
        MemoryArea { base: memory_map_entry.base as usize, size: memory_map_entry.size as usize }
    }
}

impl vstd::std_specs::convert::FromSpecImpl<MemoryMapEntry> for MemoryArea {
    open spec fn obeys_from_spec() -> bool {
        true
    }

    open spec fn from_spec(v: MemoryMapEntry) -> Self {
        MemoryArea { base: v.entry_base() as usize, size: v.entry_size() as usize }
    }
}

// ---------------------------------------------------------------------------
// Cutting occupied areas out of a table of free areas.

/// The area, if there is one, as a sequence of zero or one areas.
pub open spec fn piece_seq(piece: Option<MemoryArea>) -> Seq<MemoryArea> {
    match piece {
        Some(a) => seq![a],
        None => Seq::empty(),
    }
}

/// What area `a` becomes in the table after subtracting `o`: its parts, or `a`
/// itself when subtracting leaves no part.
pub open spec fn area_pieces(a: MemoryArea, o: MemoryArea) -> Seq<MemoryArea> {
    let (before, after) = subtract_spec(a, o);
    if before is None && after is None {
        seq![a]
    } else {
        piece_seq(before) + piece_seq(after)
    }
}

/// The pieces of every area of `map`, in order.
pub open spec fn pieces_of(map: Seq<MemoryArea>, o: MemoryArea) -> Seq<MemoryArea>
    decreases map.len(),
{
    if map.len() == 0 {
        Seq::empty()
    } else {
        pieces_of(map.drop_last(), o) + area_pieces(map.last(), o)
    }
}

/// The table of ten areas that holds `s` and then empty areas.
pub open spec fn pad_areas(s: Seq<MemoryArea>) -> Seq<MemoryArea> {
    Seq::new(10, |i: int| if i < s.len() { s[i] } else { MemoryArea::empty_spec() })
}

/// Subtracting `o` from every area of `map` stays within `usize` and yields
/// at most ten pieces.
pub open spec fn subtract_step_ok(map: Seq<MemoryArea>, o: MemoryArea) -> bool {
    &&& area_in_range(o)
    &&& forall|i: int| 0 <= i < map.len() ==> area_in_range(#[trigger] map[i])
    &&& pieces_of(map, o).len() <= 10
}

/// The table after cutting each occupied area, in order, out of `map`.
pub open spec fn free_areas_spec(map: Seq<MemoryArea>, occupied: Seq<MemoryArea>) -> Seq<
    MemoryArea,
>
    decreases occupied.len(),
{
    if occupied.len() == 0 {
        map
    } else {
        free_areas_spec(pad_areas(pieces_of(map, occupied[0])), occupied.drop_first())
    }
}

/// Every step of `free_areas_spec` is within bounds.
pub open spec fn free_areas_defined(map: Seq<MemoryArea>, occupied: Seq<MemoryArea>) -> bool
    decreases occupied.len(),
{
    occupied.len() == 0 || (subtract_step_ok(map, occupied[0]) && free_areas_defined(
        pad_areas(pieces_of(map, occupied[0])),
        occupied.drop_first(),
    ))
}

/// Address `x` lies in one of the areas.
pub open spec fn covered(areas: Seq<MemoryArea>, x: int) -> bool {
    exists|i: int| 0 <= i < areas.len() && #[trigger] area_contains(areas[i], x)
}

proof fn lemma_covered_concat(a: Seq<MemoryArea>, b: Seq<MemoryArea>, x: int)
    ensures
        covered(a + b, x) == (covered(a, x) || covered(b, x)),
{
    if covered(a + b, x) {
        let i = choose|i: int| 0 <= i < (a + b).len() && #[trigger] area_contains((a + b)[i], x);
        if i < a.len() {
            assert(area_contains(a[i], x));
        } else {
            assert(area_contains(b[i - a.len()], x));
        }
    }
    if covered(a, x) {
        let i = choose|i: int| 0 <= i < a.len() && #[trigger] area_contains(a[i], x);
        assert(area_contains((a + b)[i], x));
    }
    if covered(b, x) {
        let i = choose|i: int| 0 <= i < b.len() && #[trigger] area_contains(b[i], x);
        assert(area_contains((a + b)[a.len() + i], x));
    }
}

/// Cutting `o` out of every area of a table leaves exactly the table's
/// addresses that `o` does not cover, when every area ends within the
/// address space, none lies wholly above the end of `o` (its upper part
/// would reach past it), and none that holds an address lies wholly inside
/// `o` (it is kept whole).
pub proof fn lemma_pieces_are_difference(map: Seq<MemoryArea>, o: MemoryArea, x: int)
    requires
        area_in_range(o),
        forall|i: int|
            0 <= i < map.len() ==> {
                let a = #[trigger] map[i];
                &&& area_in_range(a)
                &&& a.base <= o.base + o.size
                &&& !(a.size > 0 && a.base >= o.base && a.base + a.size <= o.base + o.size)
            },
    ensures
        covered(pieces_of(map, o), x) == (covered(map, x) && !area_contains(o, x)),
    decreases map.len(),
{
    if map.len() == 0 {
        assert(!covered(pieces_of(map, o), x));
        assert(!covered(map, x));
    } else {
        let rest = map.drop_last();
        let a = map.last();
        assert(a == map[map.len() - 1]);
        assert forall|i: int| 0 <= i < rest.len() implies {
            let b = #[trigger] rest[i];
            &&& area_in_range(b)
            &&& b.base <= o.base + o.size
            &&& !(b.size > 0 && b.base >= o.base && b.base + b.size <= o.base + o.size)
        } by {
            assert(rest[i] == map[i]);
        }
        lemma_pieces_are_difference(rest, o, x);
        lemma_covered_concat(pieces_of(rest, o), area_pieces(a, o), x);
        lemma_covered_concat(rest, seq![a], x);
        assert(rest + seq![a] =~= map);
        lemma_subtract_is_difference(a, o, x);
        let (before, after) = subtract_spec(a, o);
        if before is None && after is None {
            assert(a.size == 0);
            assert(!covered(area_pieces(a, o), x)) by {
                if covered(area_pieces(a, o), x) {
                    assert(area_contains(area_pieces(a, o)[0], x));
                }
            }
            assert(!covered(seq![a], x)) by {
                if covered(seq![a], x) {
                    assert(area_contains(seq![a][0], x));
                }
            }
        } else {
            lemma_covered_concat(piece_seq(before), piece_seq(after), x);
            assert(covered(piece_seq(before), x) == piece_contains(before, x)) by {
                if covered(piece_seq(before), x) {
                    assert(area_contains(piece_seq(before)[0], x));
                }
                if piece_contains(before, x) {
                    assert(area_contains(piece_seq(before)[0], x));
                }
            }
            assert(covered(piece_seq(after), x) == piece_contains(after, x)) by {
                if covered(piece_seq(after), x) {
                    assert(area_contains(piece_seq(after)[0], x));
                }
                if piece_contains(after, x) {
                    assert(area_contains(piece_seq(after)[0], x));
                }
            }
            assert(covered(seq![a], x) == area_contains(a, x)) by {
                if covered(seq![a], x) {
                    assert(area_contains(seq![a][0], x));
                }
                if area_contains(a, x) {
                    assert(area_contains(seq![a][0], x));
                }
            }
        }
    }
}

proof fn lemma_pieces_prefix(map: Seq<MemoryArea>, o: MemoryArea, j: int)
    requires
        0 <= j <= map.len(),
    ensures
        pieces_of(map.take(j), o).len() <= pieces_of(map, o).len(),
    decreases map.len() - j,
{
    if j < map.len() {
        lemma_pieces_prefix(map, o, j + 1);
        assert(map.take(j + 1).drop_last() =~= map.take(j));
    } else {
        assert(map.take(j) =~= map);
    }
}

/// Cuts each of `occupied_areas`, in order, out of the table of free areas:
/// every area is replaced by its parts below and above the occupied area (or
/// kept when subtracting leaves no part), and the pieces are packed into a new
/// table of ten.
pub fn get_free_areas(
    current_memory_map: &[MemoryArea; 10],
    occupied_areas: &[MemoryArea],
) -> (r: [MemoryArea; 10])
    requires
        free_areas_defined(current_memory_map@, occupied_areas@),
    ensures
        r@ == free_areas_spec(current_memory_map@, occupied_areas@),
    decreases occupied_areas@.len(),
{
    if occupied_areas.len() > 0 {
        let current_occupied_area = &occupied_areas[0];
        let ghost map = current_memory_map@;
        let ghost o = *current_occupied_area;
        let mut new_memory_map = [MemoryArea::empty();10];
        let mut insertion_index: usize = 0;
        let mut index: usize = 0;
        proof {
            assert(map.take(0) =~= Seq::<MemoryArea>::empty());
            assert(new_memory_map@ =~= pad_areas(pieces_of(map.take(0), o)));
        }
        while index < 10
            invariant
                map == current_memory_map@,
                map.len() == 10,
                occupied_areas@.len() > 0,
                o == occupied_areas@[0],
                *current_occupied_area == o,
                subtract_step_ok(map, o),
                index <= 10,
                insertion_index == pieces_of(map.take(index as int), o).len(),
                new_memory_map@ == pad_areas(pieces_of(map.take(index as int), o)),
            decreases 10 - index,
        {
            let area = current_memory_map[index];
            proof {
                lemma_pieces_prefix(map, o, index + 1);
                assert(map.take(index + 1).drop_last() =~= map.take(index as int));
                assert(area_in_range(map[index as int]));
            }
            let ghost before_pieces = pieces_of(map.take(index as int), o);
            proof {
                assert(map.take(index + 1).last() == map[index as int]);
                assert(pieces_of(map.take(index + 1), o) == before_pieces + area_pieces(
                    map[index as int],
                    o,
                ));
            }
            let result = area.subtract(current_occupied_area);
            if let Some(before) = result.0 {
                new_memory_map[insertion_index] = before;
                insertion_index = insertion_index + 1;
            }
            if let Some(after) = result.1 {
                new_memory_map[insertion_index] = after;
                insertion_index = insertion_index + 1;
            }
            if result.0.is_none() && result.1.is_none() {
                new_memory_map[insertion_index] = area;
                insertion_index = insertion_index + 1;
            }
            index = index + 1;
            proof {
                assert(new_memory_map@ =~= pad_areas(pieces_of(map.take(index as int), o)));
            }
        }
        proof {
            assert(map.take(10) =~= map);
        }
        let rest = &occupied_areas[1..occupied_areas.len()];
        proof {
            assert(rest@ =~= occupied_areas@.drop_first());
        }
        get_free_areas(&new_memory_map, rest)
    } else {
        *current_memory_map
    }
}


// ---------------------------------------------------------------------------
// The memory map and what the kernel makes of it.

/// What the bootloader hands the kernel.
#[derive(Clone, Copy, Debug)]
pub struct BootloaderInfo {
    pub memory_map_count: u32,
    pub memory_map_addr: u32,
    pub kernel_start: u32,
    pub kernel_end: u32,
}

/// The bootloader's memory map.
pub struct MemoryMap<'a> {
    pub memory_map: &'a [MemoryMapEntry],
}

/// Every entry's type field names a kind of region.
pub open spec fn entry_types_valid(entries: Seq<MemoryMapEntry>) -> bool {
    forall|i: int| 0 <= i < entries.len() ==> 1 <= #[trigger] entries[i].type_field() <= 5
}

/// The areas of the free entries, in order.
pub open spec fn free_entry_areas(entries: Seq<MemoryMapEntry>) -> Seq<MemoryArea>
    decreases entries.len(),
{
    if entries.len() == 0 {
        Seq::empty()
    } else {
        let rest = free_entry_areas(entries.drop_last());
        let e = entries.last();
        if e.type_field() == 1 {
            rest.push(MemoryArea { base: e.entry_base() as usize, size: e.entry_size() as usize })
        } else {
            rest
        }
    }
}

impl<'a> MemoryMap<'a> {
    /// Number of entries that describe free memory.
    pub fn amount_of_free_areas(&self) -> (r: usize)
        requires
            entry_types_valid(self.memory_map@),
        ensures
            r == free_entry_areas(self.memory_map@).len(),
    {
        let mut count: usize = 0;
        let mut index: usize = 0;
        while index < self.memory_map.len()
            invariant
                entry_types_valid(self.memory_map@),
                index <= self.memory_map@.len(),
                count == free_entry_areas(self.memory_map@.take(index as int)).len(),
                count <= index,
            decreases self.memory_map@.len() - index,
        {
            let area = &self.memory_map[index];
            proof {
                assert(self.memory_map@.take(index + 1).drop_last() =~= self.memory_map@.take(
                    index as int,
                ));
                assert(1 <= self.memory_map@[index as int].type_field() <= 5);
            }
            if area.get_region_type().as_u32() == MemoryAreaType::Free.as_u32() {
                count = count + 1;
            }
            index = index + 1;
        }
        proof {
            assert(self.memory_map@.take(index as int) =~= self.memory_map@);
        }
        count
    }
}

/// Where the kernel's heap goes and which free areas remain for tasks.
pub struct MemoryLayout {
    pub heap_area: Option<MemoryArea>,
    pub free_areas: Vec<MemoryArea>,
}

/// The area that the kernel image occupies.
pub open spec fn kernel_area_spec(info: BootloaderInfo) -> MemoryArea {
    MemoryArea {
        base: info.kernel_start as usize,
        size: (info.kernel_end as usize - info.kernel_start as usize) as usize,
    }
}

/// The free areas of the map, with the kernel cut out of them.
pub open spec fn free_areas_after_kernel(
    info: BootloaderInfo,
    entries: Seq<MemoryMapEntry>,
) -> Seq<MemoryArea> {
    free_areas_spec(pad_areas(free_entry_areas(entries)), seq![kernel_area_spec(info)])
}

/// The memory map is one the kernel can lay out: every type is known, at most
/// ten areas are free, the kernel image ends after it starts, and cutting it
/// out stays within the table.
pub open spec fn can_layout_memory(info: BootloaderInfo, entries: Seq<MemoryMapEntry>) -> bool {
    &&& entry_types_valid(entries)
    &&& free_entry_areas(entries).len() <= 10
    &&& info.kernel_start <= info.kernel_end
    &&& free_areas_defined(pad_areas(free_entry_areas(entries)), seq![kernel_area_spec(info)])
}

/// The table of ten areas that holds the map's free areas, in order.
pub fn free_table(memory_map: &MemoryMap) -> (r: [MemoryArea; 10])
    requires
        entry_types_valid(memory_map.memory_map@),
        free_entry_areas(memory_map.memory_map@).len() <= 10,
    ensures
        r@ == pad_areas(free_entry_areas(memory_map.memory_map@)),
{
    let ghost entries = memory_map.memory_map@;
    let mut free_memory_areas = [MemoryArea::empty();10];
    let mut current_index: usize = 0;
    let mut index: usize = 0;
    proof {
        assert(entries.take(0) =~= Seq::<MemoryMapEntry>::empty());
        assert(free_memory_areas@ =~= pad_areas(free_entry_areas(entries.take(0))));
    }
    while index < memory_map.memory_map.len()
        invariant
            entries == memory_map.memory_map@,
            entry_types_valid(entries),
            free_entry_areas(entries).len() <= 10,
            index <= entries.len(),
            current_index == free_entry_areas(entries.take(index as int)).len(),
            current_index <= 10,
            free_memory_areas@ == pad_areas(free_entry_areas(entries.take(index as int))),
        decreases entries.len() - index,
    {
        let entry = &memory_map.memory_map[index];
        proof {
            assert(entries.take(index + 1).drop_last() =~= entries.take(index as int));
            assert(1 <= entries[index as int].type_field() <= 5);
            lemma_free_entry_areas_prefix(entries, index + 1);
        }
        if entry.get_region_type().as_u32() == MemoryAreaType::Free.as_u32() {
            free_memory_areas[current_index] = MemoryArea::from(*entry);
            current_index = current_index + 1;
        }
        index = index + 1;
        proof {
            assert(free_memory_areas@ =~= pad_areas(free_entry_areas(entries.take(index as int))));
        }
    }
    proof {
        assert(entries.take(index as int) =~= entries);
    }
    free_memory_areas
}

/// How many pieces cutting `o` out of every area of `map` gives (see
/// `pieces_of`); `None` when an area of the table runs past the end of the
/// address space.
pub fn pieces_count(map: &[MemoryArea; 10], o: &MemoryArea) -> (r: Option<usize>)
    requires
        area_in_range(*o),
    ensures
        r matches Some(n) ==> (forall|i: int| 0 <= i < 10 ==> area_in_range(#[trigger] map@[i]))
            && n == pieces_of(map@, *o).len(),
        r is None ==> !(forall|i: int| 0 <= i < 10 ==> area_in_range(#[trigger] map@[i])),
{
    let mut count: usize = 0;
    let mut index: usize = 0;
    proof {
        assert(map@.take(0) =~= Seq::<MemoryArea>::empty());
    }
    while index < 10
        invariant
            area_in_range(*o),
            index <= 10,
            count <= 2 * index,
            count == pieces_of(map@.take(index as int), *o).len(),
            forall|i: int| 0 <= i < index ==> area_in_range(#[trigger] map@[i]),
        decreases 10 - index,
    {
        let area = map[index];
        if area.base > usize::MAX - area.size {
            assert(!area_in_range(map@[index as int]));
            return None;
        }
        proof {
            assert(map@.take(index + 1).drop_last() =~= map@.take(index as int));
        }
        let (before, after) = area.subtract(o);
        if before.is_none() && after.is_none() {
            count = count + 1;
        } else {
            if before.is_some() {
                count = count + 1;
            }
            if after.is_some() {
                count = count + 1;
            }
        }
        index = index + 1;
    }
    proof {
        assert(map@.take(10) =~= map@);
    }
    Some(count)
}

/// Whether `layout_memory` may run on the map (see `can_layout_memory`).
pub fn can_lay_out(bootloader_info: &BootloaderInfo, memory_map: &MemoryMap) -> (r: bool)
    ensures
        r == can_layout_memory(*bootloader_info, memory_map.memory_map@),
{
    let ghost entries = memory_map.memory_map@;
    let mut index: usize = 0;
    while index < memory_map.memory_map.len()
        invariant
            entries == memory_map.memory_map@,
            index <= entries.len(),
            forall|i: int| 0 <= i < index ==> 1 <= #[trigger] entries[i].type_field() <= 5,
        decreases entries.len() - index,
    {
        if !memory_map.memory_map[index].has_known_type() {
            return false;
        }
        index = index + 1;
    }
    if memory_map.amount_of_free_areas() > 10 {
        return false;
    }
    if bootloader_info.kernel_start > bootloader_info.kernel_end {
        return false;
    }
    let table = free_table(memory_map);
    let kernel_area = MemoryArea::new(
        bootloader_info.kernel_start as usize,
        bootloader_info.kernel_end as usize - bootloader_info.kernel_start as usize,
    );
    proof {
        let k = kernel_area_spec(*bootloader_info);
        assert(kernel_area == k);
        assert(seq![k].drop_first() =~= Seq::<MemoryArea>::empty());
        assert(free_areas_defined(pad_areas(pieces_of(table@, k)), seq![k].drop_first()));
    }
    match pieces_count(&table, &kernel_area) {
        Some(n) => n <= 10,
        None => false,
    }
}

/// The first free area left after the kernel becomes the heap when it holds
/// at least a page; the other nine are handed on.
pub fn layout_memory(bootloader_info: &BootloaderInfo, memory_map: &MemoryMap) -> (r:
    MemoryLayout)
    requires
        can_layout_memory(*bootloader_info, memory_map.memory_map@),
    ensures
        ({
            let areas = free_areas_after_kernel(*bootloader_info, memory_map.memory_map@);
            &&& r.heap_area == (if areas[0].size >= 0x1000 {
                Some(areas[0])
            } else {
                None
            })
            &&& r.free_areas@ == areas.subrange(1, 10)
        }),
{
    let kernel_area = MemoryArea::new(
        bootloader_info.kernel_start as usize,
        bootloader_info.kernel_end as usize - bootloader_info.kernel_start as usize,
    );
    let free_memory_areas = free_table(memory_map);
    let occupied_areas = [kernel_area];
    proof {
        assert(occupied_areas@ =~= seq![kernel_area_spec(*bootloader_info)]);
    }
    let free_memory_areas = get_free_areas(&free_memory_areas, occupied_areas.as_slice());
    let heap_memory_area = free_memory_areas[0];
    let heap_area = if heap_memory_area.size >= 0x1000 {
        Some(heap_memory_area)
    } else {
        None
    };
    let mut rest: Vec<MemoryArea> = Vec::new();
    let mut index: usize = 1;
    while index < 10
        invariant
            1 <= index <= 10,
            free_memory_areas@.len() == 10,
            rest@ == free_memory_areas@.subrange(1, index as int),
        decreases 10 - index,
    {
        rest.push(free_memory_areas[index]);
        index = index + 1;
        proof {
            assert(rest@ =~= free_memory_areas@.subrange(1, index as int));
        }
    }
    MemoryLayout { heap_area, free_areas: rest }
}

proof fn lemma_free_entry_areas_prefix(entries: Seq<MemoryMapEntry>, j: int)
    requires
        0 <= j <= entries.len(),
    ensures
        free_entry_areas(entries.take(j)).len() <= free_entry_areas(entries).len(),
    decreases entries.len() - j,
{
    if j < entries.len() {
        lemma_free_entry_areas_prefix(entries, j + 1);
        assert(entries.take(j + 1).drop_last() =~= entries.take(j));
    } else {
        assert(entries.take(j) =~= entries);
    }
}

} // verus!
