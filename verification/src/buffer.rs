//! The frame buffer: 25 rows of 80 cells, laid out row by row, each cell a
//! character byte followed by a style byte.

use crate::color::ColorCode;
use crate::trusted::{held, slot_new, slot_read, slot_write};
use volatile::Volatile;
use vstd::prelude::*;

verus! {

/// What the hardware shows in one position of the screen: a character byte
/// and the style it is drawn in.
#[derive(Debug, Clone, Copy, PartialEq, Eq, Structural)]
pub struct ScreenChar {
    pub char_ascii: u8,
    pub color_code: ColorCode,
}

/// Number of rows on the screen.
pub const BUFFER_HEIGHT: usize = 25;

/// Number of cells in a row.
pub const BUFFER_WIDTH: usize = 80;

/// The contents of a screen as a value: a sequence of rows, each a sequence of cells.
pub type Grid = Seq<Seq<ScreenChar>>;

/// A grid has the shape of the screen when it has `BUFFER_HEIGHT` rows of
/// `BUFFER_WIDTH` cells each.
pub open spec fn screen_shaped(grid: Grid) -> bool {
    &&& grid.len() == BUFFER_HEIGHT
    &&& forall|row: int| 0 <= row < BUFFER_HEIGHT ==> (#[trigger] grid[row]).len() == BUFFER_WIDTH
}

/// One volatile write to the frame buffer: the cell that was stored and where.
pub struct Store {
    pub row: int,
    pub col: int,
    pub cell: ScreenChar,
}

/// The grid after one write is made to it.
pub open spec fn stored(grid: Grid, store: Store) -> Grid {
    grid.update(store.row, grid[store.row].update(store.col, store.cell))
}

/// The grid after a sequence of writes is made to it, first to last.
pub open spec fn replayed(grid: Grid, stores: Seq<Store>) -> Grid
    decreases stores.len(),
{
    if stores.len() == 0 {
        grid
    } else {
        stored(replayed(grid, stores.drop_last()), stores.last())
    }
}

/// The memory that the display hardware reads. Every cell is volatile. For
/// the proofs, the buffer also keeps a record of every write made to it.
pub struct Buffer {
    chars: [[Volatile<ScreenChar>; BUFFER_WIDTH]; BUFFER_HEIGHT],
    stores: Ghost<Seq<Store>>,
}

impl View for Buffer {
    type V = Grid;

    /// The cells that the buffer holds, row by row.
    closed spec fn view(&self) -> Grid {
        Seq::new(
            BUFFER_HEIGHT as nat,
            |row: int| Seq::new(BUFFER_WIDTH as nat, |col: int| held(self.chars[row][col])),
        )
    }
}

impl Buffer {
    /// The writes made to this buffer since it was created, oldest first.
    pub closed spec fn stores(&self) -> Seq<Store> {
        self.stores@
    }

    /// A buffer in ordinary memory with `cell` in every position and no
    /// write made to it yet.
    pub fn filled(cell: ScreenChar) -> (buffer: Buffer)
        ensures
            screen_shaped(buffer@),
            forall|row: int, col: int|
                0 <= row < BUFFER_HEIGHT && 0 <= col < BUFFER_WIDTH ==> buffer@[row][col] == cell,
            buffer.stores() == Seq::<Store>::empty(),
    {
        let row_of_cells = |_row: usize| -> (cells: [Volatile<ScreenChar>; BUFFER_WIDTH])
            ensures
                forall|col: int| 0 <= col < BUFFER_WIDTH ==> held(#[trigger] cells[col]) == cell,
            {
                let one_cell = |_col: usize| -> (slot: Volatile<ScreenChar>)
                    ensures
                        held(slot) == cell,
                    { slot_new(cell) };
                core::array::from_fn(one_cell)
            };
        Buffer { chars: core::array::from_fn(row_of_cells), stores: Ghost(Seq::empty()) }
    }

    /// Every buffer has the shape of the screen.
    pub proof fn lemma_shape(&self)
        ensures
            screen_shaped(self@),
    {
    }

    /// Reads the cell at `row` and `col` with one volatile read.
    pub fn read(&self, row: usize, col: usize) -> (cell: ScreenChar)
        requires
            row < BUFFER_HEIGHT,
            col < BUFFER_WIDTH,
        ensures
            cell == self@[row as int][col as int],
    {
        slot_read(&self.chars[row][col])
    }

    /// Stores `cell` at `row` and `col` with exactly one volatile write. No
    /// other cell changes.
    pub fn write(&mut self, row: usize, col: usize, cell: ScreenChar)
        requires
            row < BUFFER_HEIGHT,
            col < BUFFER_WIDTH,
        ensures
            final(self)@ == stored(old(self)@, Store { row: row as int, col: col as int, cell }),
            final(self).stores() == old(self).stores().push(
                Store { row: row as int, col: col as int, cell },
            ),
        no_unwind
    {
        slot_write(&mut self.chars[row][col], cell);
        proof {
            self.stores@ = self.stores@.push(Store { row: row as int, col: col as int, cell });
        }
        assert(self@ =~~= stored(old(self)@, Store { row: row as int, col: col as int, cell }));
    }
}

} // verus!
