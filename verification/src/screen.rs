//! The memory-mapped display device and its color-index abstraction.
//!
//! The display is a fixed-width, fixed-height grid of single-byte cells at
//! a constant base address inside guest memory; one byte per cell holds a
//! terminal-style color code.  Writing a cell is a direct memory write; a
//! separate zero-argument redraw trap tells the kernel to render the
//! buffer, and touches no memory itself.

use vstd::prelude::*;

use crate::gateway::syscall0;
use crate::kernel::draw_step;
use crate::machine::{Machine, MachineModel};
use crate::syscall::Syscall;

verus! {

/// Cells per row.
pub const WIDTH: u32 = 40;

/// Rows on the screen.
pub const HEIGHT: u32 = 20;

/// Total cell count of the display buffer.
pub const SIZE: u32 = WIDTH * HEIGHT;

/// Base address of the display buffer in guest memory.
pub const START_ADDR: usize = 0xC00;

/// How many color indices are defined; everything at or above this falls
/// back to the reset code.
pub const NUM_COLORS: u8 = 9;

/// The defined colors of a cell.
#[derive(Clone, Copy, Debug, PartialEq, Eq, Structural)]
pub enum Color {
    Reset,
    Black,
    Red,
    Green,
    Yellow,
    Blue,
    Magenta,
    Cyan,
    White,
}

impl Color {
    /// The fixed terminal code of this color.
    pub open spec fn ansi(self) -> u8 {
        match self {
            Color::Reset => 0,
            Color::Black => 30,
            Color::Red => 31,
            Color::Green => 32,
            Color::Yellow => 33,
            Color::Blue => 34,
            Color::Magenta => 35,
            Color::Cyan => 36,
            Color::White => 37,
        }
    }

    /// The color a small index names; indices at or above the color count
    /// fall back to `Reset`.
    pub open spec fn of_index(value: u8) -> Color {
        if value == 0 {
            Color::Reset
        } else if value == 1 {
            Color::Black
        } else if value == 2 {
            Color::Red
        } else if value == 3 {
            Color::Green
        } else if value == 4 {
            Color::Yellow
        } else if value == 5 {
            Color::Blue
        } else if value == 6 {
            Color::Magenta
        } else if value == 7 {
            Color::Cyan
        } else if value == 8 {
            Color::White
        } else {
            Color::Reset
        }
    }

    /// The terminal code of this color, as the byte written to a cell.
    pub fn to_ansi(&self) -> (r: u8)
        ensures
            r == self.ansi(),
    {
        match *self {
            Color::Reset => 0,
            Color::Black => 30,
            Color::Red => 31,
            Color::Green => 32,
            Color::Yellow => 33,
            Color::Blue => 34,
            Color::Magenta => 35,
            Color::Cyan => 36,
            Color::White => 37,
        }
    }

    /// Map a small index to its color, with the out-of-range fallback.
    pub fn from_index(value: u8) -> (c: Color)
        ensures
            c == Color::of_index(value),
    {
        match value {
            0 => Color::Reset,
            1 => Color::Black,
            2 => Color::Red,
            3 => Color::Green,
            4 => Color::Yellow,
            5 => Color::Blue,
            6 => Color::Magenta,
            7 => Color::Cyan,
            8 => Color::White,
            _ => Color::Reset,
        }
    }
}

/// Color mapping is total and deterministic: every index below the color
/// count yields its fixed code (0 for the reset color, 29 plus the index
/// for the rest, i.e. the table 0, 30, 31, ..., 37), and every index at or
/// above the count yields the reset code 0.
pub proof fn lemma_color_map_total(i: u8)
    ensures
        i < NUM_COLORS ==> Color::of_index(i).ansi() == (if i == 0 {
            0
        } else {
            29 + i
        }),
        i >= NUM_COLORS ==> Color::of_index(i).ansi() == 0,
{
}

/// Dumping the display buffer after filling every cell with the color of
/// its index modulo the color count yields a byte sequence of one code
/// byte per cell: the element at each position is the code of that
/// position's color.
pub proof fn lemma_fill_then_dump(m: MachineModel)
    requires
        m.wf(),
        forall|j: int|
            0 <= j < SIZE ==> #[trigger] m.mem[START_ADDR + j] == Color::of_index(
                (j % (NUM_COLORS as int)) as u8,
            ).ansi(),
    ensures
        m.mem.subrange(START_ADDR as int, START_ADDR + SIZE).len() == SIZE,
        forall|j: int|
            0 <= j < SIZE ==> #[trigger] m.mem.subrange(START_ADDR as int, START_ADDR + SIZE)[j]
                == Color::of_index((j % (NUM_COLORS as int)) as u8).ansi(),
{
    assert forall|j: int|
        0 <= j < SIZE implies #[trigger] m.mem.subrange(START_ADDR as int, START_ADDR + SIZE)[j]
        == Color::of_index((j % (NUM_COLORS as int)) as u8).ansi() by {
        assert(m.mem[START_ADDR + j] == Color::of_index((j % (NUM_COLORS as int)) as u8).ansi());
    }
}

/// Write one cell of the display buffer, addressed by flattened row-major
/// index: a single byte holding the color's code, at the fixed base address
/// plus the index.
pub fn set_cell_by_index(m: &mut Machine, index: u32, color: Color)
    requires
        old(m)@.wf(),
        index < SIZE,
    ensures
        final(m)@.wf(),
        final(m)@ == (MachineModel {
            mem: old(m)@.mem.update(START_ADDR + index, color.ansi()),
            ..old(m)@
        }),
{
    let b = color.to_ansi();
    m.mem.set(START_ADDR + (index as usize), b);
    proof {
        assert(m@ =~= (MachineModel {
            mem: old(m)@.mem.update(START_ADDR + index, color.ansi()),
            ..old(m)@
        }));
    }
}

/// Write the cell at column `x`, row `y`.
pub fn set_cell(m: &mut Machine, x: u32, y: u32, color: Color)
    requires
        old(m)@.wf(),
        x < WIDTH,
        y < HEIGHT,
    ensures
        final(m)@.wf(),
        final(m)@ == (MachineModel {
            mem: old(m)@.mem.update(START_ADDR + y * WIDTH + x, color.ansi()),
            ..old(m)@
        }),
{
    set_cell_by_index(m, y * WIDTH + x, color)
}

/// Tell the kernel to render the display buffer.  The trap carries no
/// arguments and the buffer itself is not touched.
pub fn draw_screen(m: &mut Machine)
    requires
        old(m)@.wf(),
    ensures
        final(m)@.wf(),
        final(m)@ == draw_step(old(m)@).0,
        final(m)@.mem == old(m)@.mem,
{
    let _ = syscall0(m, Syscall::Draw);
}

/// The display buffer's bytes, row-major, as they stand in guest memory.
pub fn dump_screen(m: &Machine) -> (r: Vec<u8>)
    requires
        m@.wf(),
    ensures
        r@.len() == SIZE,
        r@ == m@.mem.subrange(START_ADDR as int, START_ADDR + SIZE),
{
    m.fetch_bytes(START_ADDR, SIZE as usize)
}

} // verus!
