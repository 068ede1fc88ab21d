//! The console writer: a cursor on the bottom row, a current style, and the
//! frame buffer it draws into.

use crate::buffer::{Buffer, ScreenChar, Store, BUFFER_HEIGHT, BUFFER_WIDTH};
use crate::color::ColorCode;
use crate::screen::{
    blank, clearing_stores, copying_stores, scrolled, Screen, LAST_PRINTABLE, NEWLINE,
    PLACEHOLDER, SPACE,
};
use vstd::prelude::*;
use vstd::string::*;

verus! {

/// Writes text to the bottom row of a frame buffer, scrolling the screen up
/// whenever the row is full or a line ends.
pub struct Writer {
    column_position: usize,
    color_code: ColorCode,
    buffer: &'static mut Buffer,
}

impl View for Writer {
    type V = Screen;

    /// The console state that this writer and its buffer stand for.
    closed spec fn view(&self) -> Screen {
        Screen {
            column: self.column_position as int,
            color: self.color_code,
            grid: self.buffer@,
            stores: self.buffer.stores(),
        }
    }
}

impl Writer {
    /// The cursor never goes further than one past the last column.
    #[verifier::type_invariant]
    spec fn cursor_in_row(self) -> bool {
        self.column_position <= BUFFER_WIDTH
    }

    /// A writer at column 0 that draws into `buffer` in the given style. What
    /// the buffer holds stays on the screen.
    pub fn new(color_code: ColorCode, buffer: &'static mut Buffer) -> (writer: Writer)
        ensures
            writer@ == (Screen {
                column: 0,
                color: color_code,
                grid: old(buffer)@,
                stores: old(buffer).stores(),
            }),
            writer@.wf(),
    {
        proof {
            buffer.lemma_shape();
        }
        Writer { column_position: 0, color_code, buffer }
    }

    /// Empties `row`: every cell of it becomes a space in the current style.
    pub fn clear_row(&mut self, row: usize)
        requires
            row < BUFFER_HEIGHT,
        ensures
            final(self)@ == old(self)@.clear_row(row as int),
            final(self)@.wf(),
    {
        let cancel: ScreenChar = ScreenChar { char_ascii: SPACE, color_code: self.color_code };
        let ghost before = self@;
        proof {
            use_type_invariant(&*self);
            self.buffer.lemma_shape();
        }
        for c in 0..BUFFER_WIDTH
            invariant
                row < BUFFER_HEIGHT,
                cancel == blank(before.color),
                self@.column == before.column,
                self@.color == before.color,
                self@.wf(),
                before.wf(),
                forall|r: int|
                    0 <= r < BUFFER_HEIGHT && r != row ==> self@.grid[r] == before.grid[r],
                forall|k: int| 0 <= k < c ==> self@.grid[row as int][k] == cancel,
                forall|k: int|
                    c <= k < BUFFER_WIDTH ==> self@.grid[row as int][k]
                        == before.grid[row as int][k],
                self@.stores == before.stores + clearing_stores(row as int, before.color).take(
                    c as int,
                ),
        {
            self.buffer.write(row, c, cancel);
            assert(clearing_stores(row as int, before.color).take(c + 1)
                =~= clearing_stores(row as int, before.color).take(c as int).push(
                Store { row: row as int, col: c as int, cell: cancel },
            ));
        }
        assert(self@.grid =~~= before.clear_row(row as int).grid);
        assert(self@.stores =~= before.clear_row(row as int).stores);
    }

    /// Scrolls the screen: every row takes the contents of the row below it,
    /// the bottom row is emptied in the current style, and the cursor goes
    /// back to column 0.
    pub fn new_line(&mut self)
        ensures
            final(self)@ == old(self)@.new_line(),
            final(self)@.wf(),
    {
        let ghost before = self@;
        proof {
            use_type_invariant(&*self);
            self.buffer.lemma_shape();
        }
        for r in 1..BUFFER_HEIGHT
            invariant
                self@.column == before.column,
                self@.color == before.color,
                self@.wf(),
                before.wf(),
                forall|i: int| 0 <= i < r - 1 ==> self@.grid[i] == before.grid[i + 1],
                forall|i: int| r - 1 <= i < BUFFER_HEIGHT ==> self@.grid[i] == before.grid[i],
                self@.stores == before.stores + copying_stores(before.grid).take(
                    (r - 1) * BUFFER_WIDTH,
                ),
        {
            let ghost row_start = self@;
            let ghost above: int = r - 1;
            for c in 0..BUFFER_WIDTH
                invariant
                    1 <= r < BUFFER_HEIGHT,
                    above == r - 1,
                    self@.column == before.column,
                    self@.color == before.color,
                    self@.wf(),
                    row_start.wf(),
                    forall|i: int|
                        0 <= i < BUFFER_HEIGHT && i != above ==> self@.grid[i] == row_start.grid[i],
                    forall|k: int|
                        0 <= k < c ==> self@.grid[above][k] == row_start.grid[r as int][k],
                    forall|k: int|
                        c <= k < BUFFER_WIDTH ==> self@.grid[above][k] == row_start.grid[above][k],
                    row_start.grid[r as int] == before.grid[r as int],
                    self@.stores == before.stores + copying_stores(before.grid).take(
                        above * BUFFER_WIDTH + c,
                    ),
            {
                let character: ScreenChar = self.buffer.read(r, c);
                self.buffer.write(r - 1, c, character);
                assert(copying_stores(before.grid).take(above * BUFFER_WIDTH + c + 1)
                    =~= copying_stores(before.grid).take(above * BUFFER_WIDTH + c).push(
                    Store { row: above, col: c as int, cell: character },
                ));
            }
            assert(self@.grid[above] =~= before.grid[r as int]);
            assert forall|i: int| 0 <= i < r implies self@.grid[i] == before.grid[i + 1] by {
                assert(i != above ==> self@.grid[i] == row_start.grid[i]);
            }
        }
        assert(copying_stores(before.grid).take((BUFFER_HEIGHT - 1) * BUFFER_WIDTH)
            =~= copying_stores(before.grid));
        self.clear_row(BUFFER_HEIGHT - 1);
        self.column_position = 0;
        assert(self@.grid =~= scrolled(before.grid, before.color));
    }

    /// Writes one byte. A newline scrolls the screen and draws nothing. Any
    /// other byte is drawn at the cursor on the bottom row in the current
    /// style and moves the cursor one column on; when the row is already
    /// full, the screen scrolls first and the byte lands in column 0.
    pub fn write_a_byte(&mut self, byte: u8)
        ensures
            final(self)@ == old(self)@.write_byte(byte),
            final(self)@.wf(),
    {
        proof {
            use_type_invariant(&*self);
            self.buffer.lemma_shape();
        }
        if byte == NEWLINE {
            self.new_line();
        } else {
            if self.column_position >= BUFFER_WIDTH {
                self.new_line();
            }
            let row: usize = BUFFER_HEIGHT - 1;
            let col: usize = self.column_position;
            self.buffer.write(
                row,
                col,
                ScreenChar { char_ascii: byte, color_code: self.color_code },
            );
            self.column_position += 1;
        }
    }

    /// Writes a sequence of bytes, first to last. A printable ASCII byte or a
    /// newline is written as it is; any other byte is written as the
    /// placeholder glyph, so every byte that is not a newline fills exactly
    /// one cell.
    pub fn write_bytes(&mut self, bytes: &[u8])
        ensures
            final(self)@ == old(self)@.write_bytes(bytes@),
            final(self)@.wf(),
    {
        let ghost before = self@;
        proof {
            use_type_invariant(&*self);
            self.buffer.lemma_shape();
        }
        for i in 0..bytes.len()
            invariant
                self@ == before.write_bytes(bytes@.take(i as int)),
                self@.wf(),
        {
            let x: u8 = bytes[i];
            assert(bytes@.take(i + 1).drop_last() =~= bytes@.take(i as int));
            if (SPACE <= x && x <= LAST_PRINTABLE) || x == NEWLINE {
                self.write_a_byte(x);
            } else {
                self.write_a_byte(PLACEHOLDER);
            }
        }
        assert(bytes@.take(bytes.len() as int) =~= bytes@);
    }

    /// Writes a text, byte by byte of its UTF-8 encoding, as `write_bytes`
    /// does. A character outside ASCII therefore shows as one placeholder
    /// glyph for each byte of its encoding.
    pub fn write_a_str(&mut self, xs: &str)
        ensures
            final(self)@ == old(self)@.write_bytes(xs.spec_bytes()),
            final(self)@.wf(),
    {
        self.write_bytes(xs.as_bytes());
    }

    /// The column of the bottom row where the next character lands;
    /// `BUFFER_WIDTH` when the row is full.
    pub fn column_position(&self) -> (column: usize)
        ensures
            column == self@.column,
            self@.wf(),
    {
        proof {
            use_type_invariant(self);
            self.buffer.lemma_shape();
        }
        self.column_position
    }

    /// The style in which the next character is drawn.
    pub fn color_code(&self) -> (color: ColorCode)
        ensures
            color == self@.color,
    {
        self.color_code
    }

    /// Changes the style of everything written from now on. What is on the
    /// screen keeps the style it was drawn in.
    pub fn set_color_code(&mut self, color_code: ColorCode)
        ensures
            final(self)@ == (Screen { color: color_code, ..old(self)@ }),
            final(self)@.wf(),
    {
        proof {
            use_type_invariant(&*self);
            self.buffer.lemma_shape();
        }
        self.color_code = color_code;
    }

    /// The frame buffer that this writer draws into.
    pub fn buffer(&self) -> (buffer: &Buffer)
        ensures
            buffer@ == self@.grid,
            buffer.stores() == self@.stores,
    {
        &*self.buffer
    }
}

impl core::fmt::Write for Writer {
    /// Writes a text as `write_a_str` does, and always succeeds.
    fn write_str(&mut self, xs: &str) -> (result: core::fmt::Result)
        ensures
            result is Ok,
            final(self)@ == old(self)@.write_bytes(xs.spec_bytes()),
            final(self)@.wf(),
    {
        self.write_a_str(xs);
        Ok(())
    }
}

} // verus!
