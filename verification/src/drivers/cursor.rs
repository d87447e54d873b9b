use vstd::prelude::*;
use crate::drivers::utils::PortWrite;

verus! {

/// Characters in a row of the VGA text screen.
pub const BUFFER_WIDTH: usize = 80;

/// The CRT controller's index register.
pub const CRTC_INDEX: u16 = 0x3D4;

/// The CRT controller's data register.
pub const CRTC_DATA: u16 = 0x3D5;

/// The hardware text cursor.
#[derive(Copy, Clone, PartialEq, Eq, Structural, Debug)]
pub struct Cursor;

/// The cell of the cursor at `row` and `column`, counted from the top left.
pub open spec fn cursor_position(row: usize, column: usize) -> int {
    row * BUFFER_WIDTH + column
}

impl Cursor {
    /// Moves the cursor to `row`, `column`: the low byte of the cell number
    /// goes to register 0x0F, then the next byte to register 0x0E.
    pub fn update_location(&self, row: usize, column: usize) -> (r: Vec<PortWrite>)
        requires
            cursor_position(row, column) <= usize::MAX,
        ensures
            r@ == seq![
                PortWrite { port: CRTC_INDEX, value: 0x0F },
                PortWrite { port: CRTC_DATA, value: (cursor_position(row, column) % 256) as u8 },
                PortWrite { port: CRTC_INDEX, value: 0x0E },
                PortWrite {
                    port: CRTC_DATA,
                    value: ((cursor_position(row, column) / 256) % 256) as u8,
                },
            ],
    {
        let pos: usize = row * BUFFER_WIDTH + column;
        let low: u8 = (pos & 0xFF) as u8;
        let high: u8 = ((pos >> 8) & 0xFF) as u8;
        assert(pos & 0xFF == pos % 256) by (bit_vector);
        assert((pos >> 8) & 0xFF == (pos / 256) % 256) by (bit_vector);
        let mut writes: Vec<PortWrite> = Vec::new();
        writes.push(PortWrite { port: CRTC_INDEX, value: 0x0F });
        writes.push(PortWrite { port: CRTC_DATA, value: low });
        writes.push(PortWrite { port: CRTC_INDEX, value: 0x0E });
        writes.push(PortWrite { port: CRTC_DATA, value: high });
        assert(writes@ =~= seq![
            PortWrite { port: CRTC_INDEX, value: 0x0F },
            PortWrite { port: CRTC_DATA, value: (cursor_position(row, column) % 256) as u8 },
            PortWrite { port: CRTC_INDEX, value: 0x0E },
            PortWrite {
                port: CRTC_DATA,
                value: ((cursor_position(row, column) / 256) % 256) as u8,
            },
        ]);
        writes
    }
}

} // verus!
