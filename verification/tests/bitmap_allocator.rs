use kernel::bitmap_allocator::{align_down, align_up, AllocErr, BitmapAllocator, CellState};
use std::mem::{align_of, size_of};

const HEAP_SIZE: usize = 1000;

fn get_allocator(heap_space: &[u8]) -> BitmapAllocator {
    let mut allocator = BitmapAllocator::new(heap_space.as_ptr() as usize, HEAP_SIZE);
    allocator.init();
    allocator
}

#[test]
fn test_single_allocation() {
    let heap_space = vec![0u8; HEAP_SIZE];
    let mut heap = get_allocator(&heap_space);
    let size = size_of::<usize>();
    let align = align_of::<usize>();
    let addr = heap.allocate(size, align);
    assert!(addr.is_ok());
    let addr = addr.unwrap();
    heap.dealloc(addr, size, align);
    assert!(addr == align_up(heap.get_data_start(), align_of::<usize>()));
}

#[test]
fn test_multiple_allocation() {
    let heap_space = vec![0u8; HEAP_SIZE];
    let mut heap = get_allocator(&heap_space);
    let size = size_of::<usize>() * 6;
    let align = align_of::<usize>();
    let mut addresses: Vec<usize> = Vec::new();
    for _ in 0..10 {
        let addr = heap.allocate(size, align);
        assert!(addr.is_ok());
        addresses.push(addr.unwrap());
    }
    for i in 0..addresses.len() {
        heap.dealloc(addresses[i], size, align);
    }
    let mut all_free = true;
    for i in 0..heap.get_block_count() {
        if heap.get_cell(i) != CellState::Free {
            all_free = false;
        }
    }
    assert!(all_free);
}

#[test]
fn align_down_and_up_round_to_the_power_of_two() {
    assert_eq!(align_down(13, 8), 8);
    assert_eq!(align_up(13, 8), 16);
    assert_eq!(align_down(16, 8), 16);
    assert_eq!(align_up(16, 8), 16);
    assert_eq!(align_up(0, 4096), 0);
    assert_eq!(align_down(4097, 4096), 4096);
    assert_eq!(align_up(1, 1), 1);
}

#[test]
fn new_fits_cells_and_blocks_in_the_area() {
    let heap = BitmapAllocator::new(0x1000, 1000);
    let block = BitmapAllocator::block_size();
    assert_eq!(block, size_of::<usize>() * 4);
    assert_eq!(heap.get_block_count(), 1000 / (1 + block));
    assert_eq!(heap.get_data_start(), 0x1000 + heap.get_block_count());
}

#[test]
fn first_fit_takes_the_lowest_free_run() {
    let mut heap = BitmapAllocator::new(0x1000, 1000);
    heap.init();
    let block = BitmapAllocator::block_size();
    let data = heap.get_data_start();
    // one block each
    let a = heap.allocate(8, 8).unwrap();
    let b = heap.allocate(8, 8).unwrap();
    assert_eq!(a, align_up(data, 8));
    assert_eq!(b, align_up(data + block, 8));
    assert_eq!(heap.get_cell(0), CellState::Boundary);
    assert_eq!(heap.get_cell(1), CellState::Boundary);
    assert_eq!(heap.get_cell(2), CellState::Free);
    // freeing the first makes its block the first fit again
    heap.dealloc(a, 8, 8);
    assert_eq!(heap.get_cell(0), CellState::Free);
    let c = heap.allocate(8, 8).unwrap();
    assert_eq!(c, a);
}

#[test]
fn a_request_over_several_blocks_marks_boundary_then_allocated() {
    let mut heap = BitmapAllocator::new(0x2000, 1000);
    heap.init();
    let block = BitmapAllocator::block_size();
    // size + align needs three blocks
    let size = 2 * block;
    let addr = heap.allocate(size, 8).unwrap();
    assert_eq!(addr, align_up(heap.get_data_start(), 8));
    assert_eq!(heap.get_cell(0), CellState::Boundary);
    assert_eq!(heap.get_cell(1), CellState::Allocated);
    assert_eq!(heap.get_cell(2), CellState::Allocated);
    assert_eq!(heap.get_cell(3), CellState::Free);
    // an address inside the allocation frees the whole of it
    heap.dealloc(addr + block + 1, size, 8);
    for i in 0..4 {
        assert_eq!(heap.get_cell(i), CellState::Free);
    }
}

#[test]
fn a_request_larger_than_the_heap_is_exhausted() {
    let mut heap = BitmapAllocator::new(0x1000, 1000);
    heap.init();
    let r = heap.allocate(2000, 8);
    assert_eq!(r, Err(AllocErr::Exhausted { size: 2000, align: 8 }));
    for i in 0..heap.get_block_count() {
        assert_eq!(heap.get_cell(i), CellState::Free);
    }
}

#[test]
fn allocate_then_dealloc_leaves_the_bitmap_as_it_was() {
    let mut heap = BitmapAllocator::new(0x4000, 1000);
    heap.init();
    let first = heap.allocate(40, 8).unwrap();
    let before: Vec<CellState> = (0..heap.get_block_count()).map(|i| heap.get_cell(i)).collect();
    let second = heap.allocate(100, 16).unwrap();
    assert_eq!(second % 16, 0);
    heap.dealloc(second, 100, 16);
    let after: Vec<CellState> = (0..heap.get_block_count()).map(|i| heap.get_cell(i)).collect();
    assert_eq!(before, after);
    heap.dealloc(first, 40, 8);
}

#[test]
fn can_dealloc_at_tells_which_addresses_dealloc_accepts() {
    let mut heap = BitmapAllocator::new(0x1000, 1000);
    heap.init();
    let block = BitmapAllocator::block_size();
    let data = heap.get_data_start();
    // nothing allocated: no boundary to walk back to
    assert!(!heap.can_dealloc_at(data));
    let a = heap.allocate(8, 8).unwrap();
    assert!(heap.can_dealloc_at(a));
    assert!(heap.can_dealloc_at(a + block - 1 - (a - data)));
    // below the data area, and past its last block
    assert!(!heap.can_dealloc_at(data - 1));
    assert!(!heap.can_dealloc_at(data + heap.get_block_count() * block));
    // an allocation that ends at the last block cannot be freed
    let mut full = BitmapAllocator::new(0x1000, 1000);
    full.init();
    let count = full.get_block_count();
    let all = full.allocate((count - 1) * block, 8).unwrap();
    assert!(!full.can_dealloc_at(all));
}
