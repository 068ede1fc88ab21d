//! What the console does, stated over plain values: the grid of cells, the
//! cursor column and the current style, and how each operation changes them.

use crate::buffer::{
    screen_shaped, stored, Grid, ScreenChar, Store, BUFFER_HEIGHT, BUFFER_WIDTH,
};
use crate::color::ColorCode;
use vstd::prelude::*;

verus! {

/// The byte that ends a line, `\n`.
pub const NEWLINE: u8 = 0x0a;

/// The character that an emptied cell shows, and the first printable ASCII byte.
pub const SPACE: u8 = 0x20;

/// The last printable ASCII byte, `~`.
pub const LAST_PRINTABLE: u8 = 0x7e;

/// The glyph drawn in place of a byte that the display cannot show.
pub const PLACEHOLDER: u8 = 0xfe;

/// Whether a byte is a printable ASCII character.
pub open spec fn is_printable(byte: u8) -> bool {
    SPACE <= byte <= LAST_PRINTABLE
}

/// The byte that is handed on for a byte of text: the byte itself where the
/// display can show it or where it ends the line, the placeholder otherwise.
pub open spec fn rendered(byte: u8) -> u8 {
    if is_printable(byte) || byte == NEWLINE {
        byte
    } else {
        PLACEHOLDER
    }
}

/// A cell that shows `byte` in the given style.
pub open spec fn glyph(byte: u8, color: ColorCode) -> ScreenChar {
    ScreenChar { char_ascii: byte, color_code: color }
}

/// An empty cell in the given style.
pub open spec fn blank(color: ColorCode) -> ScreenChar {
    glyph(SPACE, color)
}

/// A row of empty cells in the given style.
pub open spec fn blank_row(color: ColorCode) -> Seq<ScreenChar> {
    Seq::new(BUFFER_WIDTH as nat, |col: int| blank(color))
}

/// The grid after a scroll: every row holds what the row below it held, the
/// top row's contents are gone, and the bottom row is empty in the given style.
pub open spec fn scrolled(grid: Grid, color: ColorCode) -> Grid {
    Seq::new(
        BUFFER_HEIGHT as nat,
        |row: int|
            if row + 1 < BUFFER_HEIGHT {
                grid[row + 1]
            } else {
                blank_row(color)
            },
    )
}

/// The writes that empty `row` in the given style: one for each cell, from
/// the first column to the last.
pub open spec fn clearing_stores(row: int, color: ColorCode) -> Seq<Store> {
    Seq::new(BUFFER_WIDTH as nat, |col: int| Store { row, col, cell: blank(color) })
}

/// The writes that move a grid up by one row: row 0 receives the cells of
/// row 1, then row 1 those of row 2, and so on down to the row above the
/// bottom one; within a row the cells go from the first column to the last.
/// Rows are taken top down, so each cell is copied before anything is
/// written over it.
pub open spec fn copying_stores(grid: Grid) -> Seq<Store> {
    Seq::new(
        ((BUFFER_HEIGHT - 1) * BUFFER_WIDTH) as nat,
        |k: int|
            Store {
                row: k / (BUFFER_WIDTH as int),
                col: k % (BUFFER_WIDTH as int),
                cell: grid[k / (BUFFER_WIDTH as int) + 1][k % (BUFFER_WIDTH as int)],
            },
    )
}

/// The state of a console: what is on the screen, the column of the bottom
/// row where the next character lands, the style of what is written next,
/// and every write made to the frame buffer so far, oldest first.
pub struct Screen {
    pub column: int,
    pub color: ColorCode,
    pub grid: Grid,
    pub stores: Seq<Store>,
}

impl Screen {
    /// The grid has the shape of the screen, and the cursor is on the bottom
    /// row or just past its end.
    pub open spec fn wf(self) -> bool {
        &&& 0 <= self.column <= BUFFER_WIDTH
        &&& screen_shaped(self.grid)
    }

    /// The state after `row` is emptied in the current style, cell by cell
    /// from left to right.
    pub open spec fn clear_row(self, row: int) -> Screen {
        Screen {
            grid: self.grid.update(row, blank_row(self.color)),
            stores: self.stores + clearing_stores(row, self.color),
            ..self
        }
    }

    /// The state after a scroll: the grid moves up by one row, copied top
    /// down, then the bottom row is emptied in the current style, and the
    /// cursor is back at column 0.
    pub open spec fn new_line(self) -> Screen {
        Screen {
            column: 0,
            grid: scrolled(self.grid, self.color),
            stores: self.stores + copying_stores(self.grid) + clearing_stores(
                BUFFER_HEIGHT - 1,
                self.color,
            ),
            ..self
        }
    }

    /// The state after `byte` is drawn at the cursor in the current style,
    /// with a single write, and the cursor moves one column to the right.
    pub open spec fn put(self, byte: u8) -> Screen {
        let store = Store {
            row: BUFFER_HEIGHT - 1,
            col: self.column,
            cell: glyph(byte, self.color),
        };
        Screen {
            column: self.column + 1,
            grid: stored(self.grid, store),
            stores: self.stores.push(store),
            ..self
        }
    }

    /// The state after one byte is written: a newline scrolls and draws
    /// nothing; any other byte is drawn at the cursor, after a scroll if the
    /// bottom row is full.
    pub open spec fn write_byte(self, byte: u8) -> Screen {
        if byte == NEWLINE {
            self.new_line()
        } else if self.column >= BUFFER_WIDTH {
            self.new_line().put(byte)
        } else {
            self.put(byte)
        }
    }

    /// The state after a text is written: its bytes are written one after
    /// another, first to last, each as `rendered` gives it.
    pub open spec fn write_bytes(self, bytes: Seq<u8>) -> Screen
        decreases bytes.len(),
    {
        if bytes.len() == 0 {
            self
        } else {
            self.write_bytes(bytes.drop_last()).write_byte(rendered(bytes.last()))
        }
    }
}

} // verus!
