use vstd::prelude::*;

verus! {

/// `x` is a power of two: `x == 2^n` for some `n` below the width of `usize`.
pub open spec fn is_pow2_usize(x: usize) -> bool {
    exists|n: usize| n < usize::BITS && x == (1usize << n)
}

/// Calls `usize::is_power_of_two`, whose documentation says it returns `true`
/// exactly when the value is `2^k` for some `k`.
#[verifier::external_body]
fn is_power_of_two(x: usize) -> (r: bool)
    ensures
        r == is_pow2_usize(x),
{
    x.is_power_of_two()
}

/// The multiple of `align` that `align_down` lands on: `addr` rounded down.
pub open spec fn round_down(addr: int, align: int) -> int {
    addr - addr % align
}

proof fn lemma_mask_is_round_down(addr: usize, align: usize)
    requires
        is_pow2_usize(align),
    ensures
        align > 0,
        addr & !((align - 1) as usize) == round_down(addr as int, align as int),
{
    let n = choose|n: usize| n < usize::BITS && align == (1usize << n);
    assert(n < usize::BITS && align == (1usize << n));
    vstd::bits::lemma_usize_pow2_no_overflow(n as nat);
    vstd::bits::lemma_usize_shl_is_mul(1, n);
    assert(align == vstd::arithmetic::power2::pow2(n as nat));
    vstd::bits::lemma_usize_low_bits_mask_is_mod(addr, n as nat);
    let mask = (align - 1) as usize;
    assert(mask == vstd::bits::low_bits_mask(n as nat) as usize);
    assert((addr & !mask) + (addr & mask) == addr) by (bit_vector);
}

/// Align downwards. Returns the greatest x with alignment `align`
/// so that x <= addr. The alignment must be a power of 2; an alignment
/// of zero leaves the address as it is.
pub fn align_down(addr: usize, align: usize) -> (r: usize)
    requires
        align == 0 || is_pow2_usize(align),
    ensures
        align == 0 ==> r == addr,
        is_pow2_usize(align) ==> {
            &&& r == round_down(addr as int, align as int)
            &&& r <= addr
            &&& r % align == 0
            &&& addr - r < align
        },
{
    if is_power_of_two(align) {
        proof {
            lemma_mask_is_round_down(addr, align);
            vstd::arithmetic::div_mod::lemma_fundamental_div_mod(addr as int, align as int);
            vstd::arithmetic::div_mod::lemma_mod_multiples_vanish(
                (addr / align) as int,
                0,
                align as int,
            );
            vstd::arithmetic::mul::lemma_mul_is_commutative(align as int, (addr / align) as int);
        }
        addr & !(align - 1)
    } else {
        addr
    }
}

/// Align upwards. Returns the smallest x with alignment `align`
/// so that x >= addr. The alignment must be a power of 2; with an
/// alignment of zero the result is `addr - 1`.
pub fn align_up(addr: usize, align: usize) -> (r: usize)
    requires
        align == 0 || is_pow2_usize(align),
        1 <= addr + align <= usize::MAX,
    ensures
        align == 0 ==> r == addr - 1,
        is_pow2_usize(align) ==> {
            &&& r == round_down(addr + align - 1, align as int)
            &&& r >= addr
            &&& r % align == 0
            &&& r - addr < align
        },
{
    align_down(addr + align - 1, align)
}


/// The state of one block of the heap, kept in the bitmap in front of the data area.
#[derive(PartialEq, Eq, Structural, Clone, Copy, Debug)]
pub enum CellState {
    Free,
    Boundary,
    Allocated,
}

/// Bytes that one bitmap cell takes.
pub const CELL_SIZE: usize = 1;

/// Bytes in one block of the data area: four machine words.
pub open spec fn block_size_spec() -> int {
    (vstd::layout::size_of::<usize>() * 4) as int
}

/// Allocation failures.
#[derive(PartialEq, Eq, Structural, Clone, Copy, Debug)]
pub enum AllocErr {
    /// No run of free blocks is long enough for the request.
    Exhausted { size: usize, align: usize },
}

/// A first-fit allocator over a heap that starts with one cell per block
/// (the bitmap) and continues with the blocks themselves (the data area).
pub struct BitmapAllocator {
    bitmap_start: usize,
    block_count: usize,
    cells: Vec<CellState>,
}

// ---------------------------------------------------------------------------
// Model of the bitmap.

/// No `Allocated` cell opens a run: each one follows a `Boundary` or an `Allocated` cell.
pub open spec fn cells_wf(cells: Seq<CellState>) -> bool {
    forall|i: int| 0 <= i < cells.len() ==> #[trigger] follows_claim(cells, i)
}

/// Cell `i`, when `Allocated`, continues a claim.
pub open spec fn follows_claim(cells: Seq<CellState>, i: int) -> bool {
    cells[i] == CellState::Allocated ==> i > 0 && cells[i - 1] != CellState::Free
}

/// Number of blocks that cover `requested` bytes.
pub open spec fn blocks_needed(requested: int) -> int {
    (requested + block_size_spec() - 1) / block_size_spec()
}

/// Cells `s .. s + k` exist and are all free.
pub open spec fn free_run(cells: Seq<CellState>, s: int, k: int) -> bool {
    &&& 0 <= s
    &&& s + k <= cells.len()
    &&& forall|i: int| s <= i < s + k ==> #[trigger] cells[i] == CellState::Free
}

/// Some run of `k` free cells exists.
pub open spec fn has_fit(cells: Seq<CellState>, k: int) -> bool {
    exists|s: int| #[trigger] free_run(cells, s, k)
}

/// `s` starts the first run of `k` free cells.
pub open spec fn is_first_fit(cells: Seq<CellState>, k: int, s: int) -> bool {
    &&& free_run(cells, s, k)
    &&& forall|t: int| 0 <= t < s ==> !#[trigger] free_run(cells, t, k)
}

/// The first run of `k` free cells (meaningful when `has_fit`).
pub open spec fn first_fit(cells: Seq<CellState>, k: int) -> int {
    choose|s: int| is_first_fit(cells, k, s)
}

/// The bitmap after claiming `k` cells from `s`: a boundary, then allocated cells.
pub open spec fn claim(cells: Seq<CellState>, s: int, k: int) -> Seq<CellState> {
    Seq::new(
        cells.len(),
        |i: int|
            if i == s {
                CellState::Boundary
            } else if s < i < s + k {
                CellState::Allocated
            } else {
                cells[i]
            },
    )
}

/// The bitmap after freeing cells `j .. e`.
pub open spec fn release(cells: Seq<CellState>, j: int, e: int) -> Seq<CellState> {
    Seq::new(cells.len(), |i: int| if j <= i < e { CellState::Free } else { cells[i] })
}

/// The last boundary at or below `m`, or -1 when there is none.
pub open spec fn last_boundary(cells: Seq<CellState>, m: int) -> int
    decreases m + 1,
{
    if m < 0 {
        -1
    } else if cells[m] == CellState::Boundary {
        m
    } else {
        last_boundary(cells, m - 1)
    }
}

/// The first cell at or after `m` that is not `Allocated` (the length when there is none).
pub open spec fn run_end_from(cells: Seq<CellState>, m: int) -> int
    decreases cells.len() - m,
{
    if m >= cells.len() {
        cells.len() as int
    } else if cells[m] != CellState::Allocated {
        m
    } else {
        run_end_from(cells, m + 1)
    }
}

/// The cell just past the allocation that starts at the boundary `j`.
pub open spec fn run_end(cells: Seq<CellState>, j: int) -> int {
    run_end_from(cells, j + 1)
}

/// The address of block `s` of the data area.
pub open spec fn block_address(data_start: int, s: int) -> int {
    s * block_size_spec() + data_start
}

/// The block that holds address `ptr`.
pub open spec fn block_of(data_start: int, ptr: int) -> int {
    (ptr - data_start) / block_size_spec()
}

// ---------------------------------------------------------------------------
// Lemmas on the model.

proof fn lemma_block_size()
    ensures
        block_size_spec() == usize::BITS / 2,
        block_size_spec() == 16 || block_size_spec() == 32,
{
    broadcast use vstd::layout::layout_of_primitives;

    assert(vstd::layout::size_of::<usize>() * 8 == usize::BITS);
}

proof fn lemma_blocks_needed(requested: int, c: int)
    requires
        requested >= 1,
        c >= 0,
    ensures
        blocks_needed(requested) >= 1,
        c * block_size_spec() >= requested <==> c >= blocks_needed(requested),
{
    lemma_block_size();
    let bs = block_size_spec();
    let k = blocks_needed(requested);
    vstd::arithmetic::div_mod::lemma_fundamental_div_mod(requested + bs - 1, bs);
    let r = (requested + bs - 1) % bs;
    assert(requested + bs - 1 == bs * k + r);
    assert(0 <= r < bs);
    assert(k >= 1) by (nonlinear_arith)
        requires
            requested + bs - 1 == bs * k + r,
            0 <= r < bs,
            requested >= 1,
            bs > 0,
    ;
    assert(c * bs >= requested <==> c >= k) by (nonlinear_arith)
        requires
            requested + bs - 1 == bs * k + r,
            0 <= r < bs,
            bs > 0,
            c >= 0,
    ;
}

proof fn lemma_first_fit_unique(cells: Seq<CellState>, k: int, s: int)
    requires
        is_first_fit(cells, k, s),
    ensures
        has_fit(cells, k),
        first_fit(cells, k) == s,
{
    assert(free_run(cells, s, k));
    let t = first_fit(cells, k);
    assert(is_first_fit(cells, k, t));
    if t < s {
        assert(!free_run(cells, t, k));
    }
    if s < t {
        assert(!free_run(cells, s, k));
    }
}

proof fn lemma_first_fit_exists_from(cells: Seq<CellState>, k: int, from: int, w: int)
    requires
        0 <= from <= w,
        free_run(cells, w, k),
        forall|t: int| 0 <= t < from ==> !#[trigger] free_run(cells, t, k),
    ensures
        is_first_fit(cells, k, first_fit(cells, k)),
    decreases w - from,
{
    if free_run(cells, from, k) {
        assert(is_first_fit(cells, k, from));
    } else {
        assert forall|t: int| 0 <= t < from + 1 implies !#[trigger] free_run(cells, t, k) by {
            if t < from {
            }
        }
        lemma_first_fit_exists_from(cells, k, from + 1, w);
    }
}

/// When some run of `k` free cells exists, `first_fit` is the first one.
pub proof fn lemma_first_fit_exists(cells: Seq<CellState>, k: int)
    requires
        has_fit(cells, k),
    ensures
        is_first_fit(cells, k, first_fit(cells, k)),
{
    let w = choose|w: int| free_run(cells, w, k);
    lemma_first_fit_exists_from(cells, k, 0, w);
}

proof fn lemma_last_boundary_bounds(cells: Seq<CellState>, m: int)
    requires
        -1 <= m < cells.len(),
    ensures
        -1 <= last_boundary(cells, m) <= m,
        last_boundary(cells, m) >= 0 ==> cells[last_boundary(cells, m)] == CellState::Boundary,
        forall|i: int|
            last_boundary(cells, m) < i <= m ==> #[trigger] cells[i] != CellState::Boundary,
    decreases m + 1,
{
    if m >= 0 && cells[m] != CellState::Boundary {
        lemma_last_boundary_bounds(cells, m - 1);
    }
}

proof fn lemma_run_end_bounds(cells: Seq<CellState>, m: int)
    requires
        m >= 0,
    ensures
        m <= run_end_from(cells, m) || m > cells.len(),
        run_end_from(cells, m) <= cells.len() || m > cells.len(),
        run_end_from(cells, m) < cells.len() ==> cells[run_end_from(cells, m)]
            != CellState::Allocated,
        forall|i: int| m <= i < run_end_from(cells, m) ==> #[trigger] cells[i] == CellState::Allocated,
    decreases cells.len() - m,
{
    if m < cells.len() && cells[m] == CellState::Allocated {
        lemma_run_end_bounds(cells, m + 1);
    }
}

proof fn lemma_run_end_is(cells: Seq<CellState>, m: int, e: int)
    requires
        0 <= m <= e < cells.len(),
        cells[e] != CellState::Allocated,
        forall|i: int| m <= i < e ==> #[trigger] cells[i] == CellState::Allocated,
    ensures
        run_end_from(cells, m) == e,
    decreases e - m,
{
    if m < e {
        lemma_run_end_is(cells, m + 1, e);
    }
}

proof fn lemma_last_boundary_is(cells: Seq<CellState>, j: int, m: int)
    requires
        0 <= j <= m < cells.len(),
        cells[j] == CellState::Boundary,
        forall|i: int| j < i <= m ==> #[trigger] cells[i] != CellState::Boundary,
    ensures
        last_boundary(cells, m) == j,
    decreases m - j,
{
    if j < m {
        lemma_last_boundary_is(cells, j, m - 1);
    }
}


// ---------------------------------------------------------------------------
// The allocator.

impl BitmapAllocator {
    /// Address of the first bitmap cell.
    pub closed spec fn start(&self) -> int {
        self.bitmap_start as int
    }

    /// Number of blocks (and of bitmap cells).
    pub closed spec fn count(&self) -> int {
        self.block_count as int
    }

    /// The bitmap, one cell per block (empty until `init`).
    pub closed spec fn cells(&self) -> Seq<CellState> {
        self.cells@
    }

    /// The bitmap and the data area fit in the address space, and the bitmap is well formed.
    pub closed spec fn wf(&self) -> bool {
        &&& self.block_count * (CELL_SIZE + block_size_spec()) <= usize::MAX
        &&& cells_wf(self.cells@)
    }

    /// `init` has run: there is one cell per block.
    pub open spec fn is_initialized(&self) -> bool {
        self.cells().len() == self.count()
    }

    /// Address of the first block of the data area, just past the bitmap.
    pub open spec fn data_start(&self) -> int {
        self.count() * CELL_SIZE + self.start()
    }

    /// Bytes in one block: four machine words.
    pub fn block_size() -> (r: usize)
        ensures
            r == block_size_spec(),
            r == usize::BITS / 2,
    {
        proof {
            lemma_block_size();
        }
        core::mem::size_of::<usize>() * 4
    }

    /// An allocator for the `size` bytes from `start`: as many blocks as fit,
    /// each with its bitmap cell.
    pub fn new(start: usize, size: usize) -> (r: Self)
        ensures
            r.start() == start,
            r.count() == size as int / (CELL_SIZE + block_size_spec()),
            r.cells() == Seq::<CellState>::empty(),
            r.wf(),
    {
        let block_count = size / (CELL_SIZE + Self::block_size());
        proof {
            let d: int = CELL_SIZE + block_size_spec();
            let sz: int = size as int;
            lemma_block_size();
            vstd::arithmetic::div_mod::lemma_fundamental_div_mod(sz, d);
            assert(block_count * d <= sz) by (nonlinear_arith)
                requires
                    sz == d * block_count + sz % d,
                    sz % d >= 0,
            ;
        }
        BitmapAllocator { bitmap_start: start, block_count, cells: Vec::new() }
    }

    /// Marks every block free.
    pub fn init(&mut self)
        requires
            old(self).wf(),
        ensures
            final(self).wf(),
            final(self).is_initialized(),
            final(self).start() == old(self).start(),
            final(self).count() == old(self).count(),
            forall|i: int|
                0 <= i < final(self).count() ==> #[trigger] final(self).cells()[i]
                    == CellState::Free,
    {
        // one allocation of one byte per block, the size of the bitmap area
        let mut cells: Vec<CellState> = Vec::with_capacity(self.block_count);
        let mut index: usize = 0;
        while index < self.block_count
            invariant
                index <= self.block_count,
                cells@.len() == index,
                forall|i: int| 0 <= i < index ==> #[trigger] cells@[i] == CellState::Free,
            decreases self.block_count - index,
        {
            cells.push(CellState::Free);
            index = index + 1;
        }
        self.cells = cells;
    }

    /// Number of blocks.
    pub fn get_block_count(&self) -> (r: usize)
        ensures
            r == self.count(),
    {
        self.block_count
    }

    /// State of the cell of block `index`.
    pub fn get_cell(&self, index: usize) -> (r: CellState)
        requires
            self.is_initialized(),
            index < self.count(),
        ensures
            r == self.cells()[index as int],
    {
        self.cells[index]
    }

    /// Address of the first block of the data area.
    pub fn get_data_start(&self) -> (r: usize)
        requires
            self.data_start() <= usize::MAX,
        ensures
            r == self.data_start(),
    {
        self.block_count * CELL_SIZE + self.bitmap_start
    }
}


impl BitmapAllocator {
    /// Blocks that a request of `size` bytes aligned to `align` takes.
    pub open spec fn request_blocks(size: int, align: int) -> int {
        blocks_needed(size + align)
    }

    /// The first block that `allocate(size, align)` claims (meaningful when it succeeds).
    pub open spec fn alloc_block(&self, size: int, align: int) -> int {
        first_fit(self.cells(), Self::request_blocks(size, align))
    }

    /// The address that `allocate(size, align)` returns (meaningful when it succeeds):
    /// the claimed block's address rounded up to `align`.
    pub open spec fn alloc_address(&self, size: int, align: int) -> int {
        round_down(
            block_address(self.data_start(), self.alloc_block(size, align)) + align - 1,
            align,
        )
    }

    /// The address computation of `allocate(size, align)` stays within `usize`.
    pub open spec fn alloc_in_range(&self, size: int, align: int) -> bool {
        has_fit(self.cells(), Self::request_blocks(size, align)) ==> block_address(
            self.data_start(),
            self.alloc_block(size, align),
        ) + align <= usize::MAX
    }

    /// Scans the bitmap for the first run of free blocks that holds `requested`
    /// bytes; returns the start of the run that was being counted and its length.
    fn scan(&self, requested: usize) -> (r: (Option<usize>, usize))
        requires
            self.wf(),
            self.is_initialized(),
            requested >= 1,
        ensures
            ({
                let (cell_index, continuous_count) = r;
                let k = blocks_needed(requested as int);
                &&& continuous_count * block_size_spec() >= requested ==> {
                    &&& continuous_count == k
                    &&& cell_index == Some(first_fit(self.cells(), k) as usize)
                    &&& is_first_fit(self.cells(), k, first_fit(self.cells(), k))
                }
                &&& continuous_count * block_size_spec() < requested ==> !has_fit(
                    self.cells(),
                    k,
                )
                &&& continuous_count <= self.count()
            }),
    {
        let ghost cells0 = self.cells@;
        let bs = Self::block_size();
        let ghost k = blocks_needed(requested as int);
        proof {
            lemma_block_size();
            lemma_blocks_needed(requested as int, 0);
        }
        let mut cell_index: Option<usize> = None;
        let mut continuous_count: usize = 0;
        let mut index: usize = 0;
        while index < self.block_count
            invariant_except_break
                continuous_count < k,
                continuous_count * bs < requested,
                continuous_count <= index,
                forall|i: int|
                    index - continuous_count <= i < index ==> #[trigger] cells0[i]
                        == CellState::Free,
                index - continuous_count > 0 ==> cells0[index - continuous_count - 1]
                    != CellState::Free,
                cell_index == (if continuous_count == 0 {
                    None
                } else {
                    Some((index - continuous_count) as usize)
                }),
                forall|t: int| 0 <= t && t + k <= index ==> !#[trigger] free_run(cells0, t, k),
            invariant
                self.cells@ == cells0,
                self.wf(),
                self.is_initialized(),
                bs == block_size_spec(),
                k == blocks_needed(requested as int),
                k >= 1,
                requested >= 1,
                index <= self.block_count,
                continuous_count <= self.block_count,
            ensures
                continuous_count <= self.block_count,
                continuous_count * bs >= requested ==> {
                    &&& continuous_count == k
                    &&& index < self.block_count
                    &&& cell_index == Some((index + 1 - k) as usize)
                    &&& is_first_fit(cells0, k, index + 1 - k)
                },
                continuous_count * bs < requested ==> !has_fit(cells0, k),
            decreases self.block_count - index,
        {
            if self.cells[index] == CellState::Free {
                continuous_count = continuous_count + 1;
                if cell_index.is_none() {
                    cell_index = Some(index);
                }
            } else {
                continuous_count = 0;
                cell_index = None;
            }
            proof {
                lemma_blocks_needed(requested as int, continuous_count as int);
                assert forall|t: int|
                    continuous_count < k && 0 <= t && t + k == index + 1 implies !#[trigger] free_run(
                    cells0,
                    t,
                    k,
                ) by {
                    let w = index - continuous_count;
                    assert(t <= w < t + k);
                    assert(cells0[w] != CellState::Free);
                }
            }
            assert(continuous_count * bs <= usize::MAX) by (nonlinear_arith)
                requires
                    continuous_count <= self.block_count,
                    self.block_count * (CELL_SIZE + bs) <= usize::MAX,
                    bs >= 0,
            ;
            if continuous_count * bs >= requested {
                proof {
                    assert(free_run(cells0, index + 1 - k, k));
                }
                break;
            }
            index = index + 1;
        }
        proof {
            if continuous_count * bs >= requested {
                lemma_first_fit_unique(cells0, k, index + 1 - k);
            } else {
                assert forall|t: int| !#[trigger] free_run(cells0, t, k) by {
                    if 0 <= t && t + k <= cells0.len() {
                    }
                }
            }
        }
        (cell_index, continuous_count)
    }

    /// Marks `count` cells from `s`: a boundary followed by allocated cells.
    fn claim_cells(&mut self, s: usize, count: usize)
        requires
            old(self).wf(),
            old(self).is_initialized(),
            count >= 1,
            free_run(old(self).cells(), s as int, count as int),
        ensures
            final(self).wf(),
            final(self).is_initialized(),
            final(self).start() == old(self).start(),
            final(self).count() == old(self).count(),
            final(self).cells() == claim(old(self).cells(), s as int, count as int),
    {
        let ghost cells0 = self.cells@;
        self.cells.set(s, CellState::Boundary);
        assert(self.cells@ =~= claim(cells0, s as int, 1));
        let mut index: usize = 1;
        while index < count
            invariant
                1 <= index <= count,
                free_run(cells0, s as int, count as int),
                self.cells@ == claim(cells0, s as int, index as int),
                self.block_count == cells0.len(),
                self.bitmap_start == old(self).bitmap_start,
                self.block_count == old(self).block_count,
            decreases count - index,
        {
            self.cells.set(s + index, CellState::Allocated);
            index = index + 1;
            assert(self.cells@ =~= claim(cells0, s as int, index as int));
        }
        proof {
            let c = self.cells@;
            assert forall|i: int| 0 <= i < c.len() implies #[trigger] follows_claim(c, i) by {
                if c[i] == CellState::Allocated && !(s < i < s + count) {
                    assert(follows_claim(cells0, i));
                    if i == s + count {
                        assert(cells0[i - 1] == CellState::Free);
                    }
                }
            }
        }
    }

    /// First fit: claims the first run of free blocks that holds `size + align`
    /// bytes, marks its first cell `Boundary` and the rest `Allocated`, and
    /// returns the run's address rounded up to `align`.
    pub fn allocate(&mut self, size: usize, align: usize) -> (r: Result<usize, AllocErr>)
        requires
            old(self).wf(),
            old(self).is_initialized(),
            is_pow2_usize(align),
            size + align <= usize::MAX,
            old(self).alloc_in_range(size as int, align as int),
        ensures
            final(self).wf(),
            final(self).is_initialized(),
            final(self).start() == old(self).start(),
            final(self).count() == old(self).count(),
            r is Ok <==> has_fit(old(self).cells(), Self::request_blocks(size as int, align as int)),
            match r {
                Ok(addr) => {
                    let k = Self::request_blocks(size as int, align as int);
                    let s = old(self).alloc_block(size as int, align as int);
                    &&& is_first_fit(old(self).cells(), k, s)
                    &&& final(self).cells() == claim(old(self).cells(), s, k)
                    &&& addr == old(self).alloc_address(size as int, align as int)
                    &&& addr % align == 0
                    &&& block_address(old(self).data_start(), s) <= addr
                    &&& addr + size <= block_address(old(self).data_start(), s + k)
                },
                Err(e) => {
                    &&& final(self).cells() == old(self).cells()
                    &&& e == AllocErr::Exhausted { size, align }
                },
            },
    {
        let requested = size + align;
        let bs = Self::block_size();
        proof {
            let n = choose|n: usize| n < usize::BITS && align == (1usize << n);
            assert(align >= 1) by (bit_vector)
                requires
                    n < usize::BITS,
                    align == (1usize << n),
            ;
        }
        let (cell_index, continuous_count) = self.scan(requested);
        proof {
            lemma_block_size();
            assert(continuous_count * bs <= usize::MAX) by (nonlinear_arith)
                requires
                    continuous_count <= self.block_count,
                    self.block_count * (CELL_SIZE + bs) <= usize::MAX,
                    bs >= 0,
            ;
        }
        if let Some(cell_index) = cell_index {
            if continuous_count * bs >= requested {
                let ghost k = continuous_count as int;
                let ghost s = cell_index as int;
                proof {
                    assert(s * bs + k * bs <= self.block_count * bs) by (nonlinear_arith)
                        requires
                            s + k <= self.block_count,
                            bs >= 0,
                    ;
                    assert((s + k) * bs == s * bs + k * bs) by (nonlinear_arith);
                }
                let block_address = cell_index * bs + self.get_data_start();
                let alloc_start = align_up(block_address, align);
                self.claim_cells(cell_index, continuous_count);
                return Ok(alloc_start);
            }
        }
        Err(AllocErr::Exhausted { size, align })
    }
}


impl BitmapAllocator {
    /// The allocation that `dealloc(ptr, ..)` frees starts at this boundary cell.
    pub open spec fn dealloc_start(&self, ptr: int) -> int {
        last_boundary(self.cells(), block_of(self.data_start(), ptr))
    }

    /// ... and ends just before this cell.
    pub open spec fn dealloc_end(&self, ptr: int) -> int {
        run_end(self.cells(), self.dealloc_start(ptr))
    }

    /// `dealloc(ptr, ..)` stays within the bitmap: `ptr` lies in the data area,
    /// a boundary precedes its block, and a cell that is not `Allocated`
    /// follows the allocation inside the bitmap.
    pub open spec fn can_dealloc(&self, ptr: int) -> bool {
        &&& self.data_start() <= ptr
        &&& block_of(self.data_start(), ptr) < self.count()
        &&& self.dealloc_start(ptr) >= 0
        &&& self.dealloc_end(ptr) < self.count()
    }

    /// Frees the allocation that holds `ptr`: walks back from the block of
    /// `ptr` to its boundary cell, then marks that cell and the `Allocated`
    /// cells after it free.
    #[allow(unused_variables)]
    pub fn dealloc(&mut self, ptr: usize, size: usize, align: usize)
        requires
            old(self).wf(),
            old(self).is_initialized(),
            old(self).can_dealloc(ptr as int),
        ensures
            final(self).wf(),
            final(self).is_initialized(),
            final(self).start() == old(self).start(),
            final(self).count() == old(self).count(),
            final(self).cells() == release(
                old(self).cells(),
                old(self).dealloc_start(ptr as int),
                old(self).dealloc_end(ptr as int),
            ),
    {
        let ghost cells0 = self.cells@;
        let ghost j = self.dealloc_start(ptr as int);
        let ghost e = self.dealloc_end(ptr as int);
        let bs = Self::block_size();
        proof {
            lemma_block_size();
            vstd::arithmetic::div_mod::lemma_div_pos_is_pos(
                ptr - self.data_start(),
                bs as int,
            );
        }
        let mut starting_block = (ptr - self.get_data_start()) / bs;
        proof {
            lemma_last_boundary_bounds(cells0, starting_block as int);
        }
        while self.cells[starting_block] != CellState::Boundary
            invariant
                self.cells@ == cells0,
                self.block_count == cells0.len(),
                j <= starting_block < cells0.len(),
                j >= 0,
                cells0[j] == CellState::Boundary,
                last_boundary(cells0, starting_block as int) == j,
            decreases starting_block,
        {
            starting_block = starting_block - 1;
        }
        proof {
            lemma_run_end_bounds(cells0, j + 1);
        }
        let mut block = starting_block;
        assert(self.cells@ =~= release(cells0, j, block as int));
        loop
            invariant_except_break
                block < e,
            invariant
                j <= block <= e,
                e < cells0.len(),
                e == run_end_from(cells0, j + 1),
                self.block_count == cells0.len(),
                self.bitmap_start == old(self).bitmap_start,
                self.block_count == old(self).block_count,
                forall|i: int| j < i < e ==> #[trigger] cells0[i] == CellState::Allocated,
                cells0[e] != CellState::Allocated,
                self.cells@ == release(cells0, j, block as int),
            ensures
                block == e,
            decreases e - block,
        {
            self.cells.set(block, CellState::Free);
            block = block + 1;
            assert(self.cells@ =~= release(cells0, j, block as int));
            let next_value = self.cells[block];
            if next_value != CellState::Allocated {
                break;
            }
        }
        proof {
            let c = self.cells@;
            assert forall|i: int| 0 <= i < c.len() implies #[trigger] follows_claim(c, i) by {
                assert(follows_claim(cells0, i));
            }
        }
    }
}


impl BitmapAllocator {
    /// Whether `dealloc(ptr, ..)` may be called: `ptr` lies in the data area,
    /// a boundary cell precedes its block, and a cell that is not `Allocated`
    /// follows that allocation inside the bitmap (see `can_dealloc`).
    pub fn can_dealloc_at(&self, ptr: usize) -> (r: bool)
        requires
            self.wf(),
            self.is_initialized(),
            self.data_start() <= usize::MAX,
        ensures
            r == self.can_dealloc(ptr as int),
    {
        let data = self.get_data_start();
        if ptr < data {
            return false;
        }
        let bs = Self::block_size();
        proof {
            lemma_block_size();
        }
        let block = (ptr - data) / bs;
        assert(block_of(self.data_start(), ptr as int) == block as int);
        if block >= self.block_count {
            return false;
        }
        let ghost cells = self.cells@;
        assert(self.cells() == cells);
        // walk back to the boundary cell
        let mut i: usize = block;
        loop
            invariant
                i <= block < cells.len(),
                self.cells@ == cells,
                self.block_count == cells.len(),
                block_of(self.data_start(), ptr as int) == block as int,
                last_boundary(cells, block as int) == last_boundary(cells, i as int),
            ensures
                cells[i as int] == CellState::Boundary,
                last_boundary(cells, block as int) == i,
            decreases i,
        {
            if self.cells[i] == CellState::Boundary {
                break;
            }
            if i == 0 {
                assert(last_boundary(cells, 0) == last_boundary(cells, -1));
                assert(last_boundary(cells, -1) == -1);
                assert(self.dealloc_start(ptr as int) == -1);
                return false;
            }
            i = i - 1;
        }
        // walk forward past the allocated cells
        let mut e: usize = i + 1;
        while e < self.block_count && self.cells[e] == CellState::Allocated
            invariant
                i + 1 <= e <= cells.len(),
                self.cells@ == cells,
                self.block_count == cells.len(),
                run_end_from(cells, i + 1) == run_end_from(cells, e as int),
            decreases cells.len() - e,
        {
            e = e + 1;
        }
        e < self.block_count
    }
}

// ---------------------------------------------------------------------------
// Laws.

proof fn lemma_block_of_claimed(data_start: int, s: int, k: int, pad: int)
    requires
        s >= 0,
        k >= 1,
        0 <= pad < k * block_size_spec(),
    ensures
        s <= block_of(data_start, block_address(data_start, s) + pad) < s + k,
{
    lemma_block_size();
    let bs = block_size_spec();
    let x = s * bs + pad;
    assert(block_address(data_start, s) + pad - data_start == x);
    vstd::arithmetic::div_mod::lemma_fundamental_div_mod(x, bs);
    let q = x / bs;
    let r = x % bs;
    assert(s <= q < s + k) by (nonlinear_arith)
        requires
            x == bs * q + r,
            0 <= r < bs,
            x == s * bs + pad,
            0 <= pad < k * bs,
            bs > 0,
    ;
}

/// A `dealloc` right after an `allocate` restores the bitmap: when `allocate`
/// on `before` succeeded and left `after` (the first fit claimed, see its
/// contract), `dealloc` of the address it returned may be called on `after`,
/// and the cells it frees are exactly the claimed ones, so the bitmap is again
/// that of `before`. This holds as long as the claimed run does not end at the
/// last block (`dealloc` looks at the cell after the run).
pub proof fn lemma_dealloc_after_alloc_restores_bitmap(
    before: BitmapAllocator,
    after: BitmapAllocator,
    size: usize,
    align: usize,
)
    requires
        before.wf(),
        before.is_initialized(),
        is_pow2_usize(align),
        has_fit(before.cells(), BitmapAllocator::request_blocks(size as int, align as int)),
        before.alloc_block(size as int, align as int) + BitmapAllocator::request_blocks(
            size as int,
            align as int,
        ) < before.count(),
        after.start() == before.start(),
        after.count() == before.count(),
        after.cells() == claim(
            before.cells(),
            before.alloc_block(size as int, align as int),
            BitmapAllocator::request_blocks(size as int, align as int),
        ),
    ensures
        after.can_dealloc(before.alloc_address(size as int, align as int)),
        release(
            after.cells(),
            after.dealloc_start(before.alloc_address(size as int, align as int)),
            after.dealloc_end(before.alloc_address(size as int, align as int)),
        ) == before.cells(),
{
    lemma_block_size();
    let bs = block_size_spec();
    let cells = before.cells();
    let k = BitmapAllocator::request_blocks(size as int, align as int);
    let s = before.alloc_block(size as int, align as int);
    let ds = before.data_start();
    let addr = before.alloc_address(size as int, align as int);
    let claimed = after.cells();
    let n = choose|n: usize| n < usize::BITS && align == (1usize << n);
    assert(align >= 1) by (bit_vector)
        requires
            n < usize::BITS,
            align == (1usize << n),
    ;
    lemma_blocks_needed(size + align, k);
    lemma_first_fit_exists(cells, k);
    assert(free_run(cells, s, k));
    let ba = block_address(ds, s);
    let pad = addr - ba;
    assert(0 <= pad < align);
    assert(k * bs >= size + align);
    lemma_block_of_claimed(ds, s, k, pad);
    let b = block_of(ds, addr);
    assert(ba >= ds) by (nonlinear_arith)
        requires
            ba == s * bs + ds,
            s >= 0,
            bs > 0,
    ;
    // the walk back from the block of `addr` stops at the boundary `s`
    assert forall|i: int| s < i <= b implies #[trigger] claimed[i] != CellState::Boundary by {
        assert(claimed[i] == CellState::Allocated);
    }
    lemma_last_boundary_is(claimed, s, b);
    // the walk forward stops just past the run
    assert(follows_claim(cells, s + k));
    assert(cells[s + k - 1] == CellState::Free);
    assert forall|i: int| s + 1 <= i < s + k implies #[trigger] claimed[i]
        == CellState::Allocated by {}
    lemma_run_end_is(claimed, s + 1, s + k);
    assert(release(claimed, s, s + k) =~= cells);
}

} // verus!
