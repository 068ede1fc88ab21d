//! What holds of the console in every state and for every input, proved
//! over the model in `screen`.

use crate::buffer::{replayed, screen_shaped, Grid, Store, BUFFER_HEIGHT, BUFFER_WIDTH};
use crate::color::ColorCode;
use crate::screen::{
    blank, blank_row, clearing_stores, copying_stores, glyph, is_printable, rendered, Screen,
    NEWLINE, PLACEHOLDER,
};
use vstd::prelude::*;

verus! {

/// The column where a byte that is not a newline is drawn: the cursor's
/// column, or column 0 when the bottom row is full.
pub open spec fn landing_column(s: Screen) -> int {
    if s.column < BUFFER_WIDTH {
        s.column
    } else {
        0
    }
}

/// Whether none of the bytes is a newline.
pub open spec fn no_newline(bytes: Seq<u8>) -> bool {
    forall|i: int| 0 <= i < bytes.len() ==> bytes[i] != NEWLINE
}

/// The writes that draw `bytes` on the bottom row in the given style, one
/// cell for each byte, left to right from column `start`.
pub open spec fn drawing_stores(bytes: Seq<u8>, start: int, color: ColorCode) -> Seq<Store> {
    Seq::new(
        bytes.len(),
        |i: int|
            Store {
                row: BUFFER_HEIGHT - 1,
                col: start + i,
                cell: glyph(rendered(bytes[i]), color),
            },
    )
}

/// Writing a text and then one more byte is writing the text and then
/// writing that byte as `rendered` gives it.
pub proof fn lemma_write_bytes_push(s: Screen, bytes: Seq<u8>, byte: u8)
    ensures
        s.write_bytes(bytes.push(byte)) == s.write_bytes(bytes).write_byte(rendered(byte)),
{
    assert(bytes.push(byte).drop_last() =~= bytes);
}

/// Writing one text after another gives the same screen as writing the two
/// joined into one.
pub proof fn lemma_write_bytes_concat(s: Screen, first: Seq<u8>, second: Seq<u8>)
    ensures
        s.write_bytes(first + second) == s.write_bytes(first).write_bytes(second),
    decreases second.len(),
{
    if second.len() == 0 {
        assert(first + second =~= first);
    } else {
        lemma_write_bytes_concat(s, first, second.drop_last());
        assert((first + second).drop_last() =~= first + second.drop_last());
    }
}

/// Every operation keeps the screen well formed and the style unchanged: the
/// grid keeps its shape and the cursor stays within the bottom row or just
/// past its end.
pub proof fn lemma_operations_preserve_wf(s: Screen, byte: u8, row: int)
    requires
        s.wf(),
    ensures
        s.new_line().wf() && s.new_line().color == s.color,
        s.write_byte(byte).wf() && s.write_byte(byte).color == s.color,
        0 <= row < BUFFER_HEIGHT ==> s.clear_row(row).wf() && s.clear_row(row).color == s.color,
{
}

/// Writing a text keeps the screen well formed and the style unchanged.
pub proof fn lemma_write_bytes_preserves_wf(s: Screen, bytes: Seq<u8>)
    requires
        s.wf(),
    ensures
        s.write_bytes(bytes).wf(),
        s.write_bytes(bytes).color == s.color,
    decreases bytes.len(),
{
    if bytes.len() > 0 {
        lemma_write_bytes_preserves_wf(s, bytes.drop_last());
        lemma_operations_preserve_wf(s.write_bytes(bytes.drop_last()), rendered(bytes.last()), 0);
    }
}

/// How one byte of a text shows on the screen. A newline scrolls and draws
/// nothing. A printable ASCII byte is drawn unchanged, and any other byte is
/// drawn as the placeholder glyph; either way it fills exactly the cell at
/// the landing column of the bottom row, in the current style, with the last
/// write that is made, and the cursor ends one column further.
pub proof fn lemma_byte_rendering(s: Screen, prefix: Seq<u8>, byte: u8)
    requires
        s.wf(),
    ensures
        ({
            let before = s.write_bytes(prefix);
            let after = s.write_bytes(prefix.push(byte));
            let col: int = landing_column(before);
            let shown: u8 = if is_printable(byte) {
                byte
            } else {
                PLACEHOLDER
            };
            &&& byte == NEWLINE ==> after == before.new_line()
            &&& byte != NEWLINE ==> {
                &&& after.grid[BUFFER_HEIGHT - 1][col] == glyph(shown, s.color)
                &&& after.stores.last() == (Store {
                    row: BUFFER_HEIGHT - 1,
                    col,
                    cell: glyph(shown, s.color),
                })
                &&& after.column == col + 1
            }
        }),
{
    lemma_write_bytes_push(s, prefix, byte);
    lemma_write_bytes_preserves_wf(s, prefix);
}

/// A text without a newline that fits in what is left of the bottom row is
/// drawn there left to right, byte by byte, starting at the cursor. Nothing
/// scrolls: one write is made for each byte and no other, and every other
/// cell of the screen keeps what it held.
pub proof fn lemma_fits_in_row(s: Screen, bytes: Seq<u8>)
    requires
        s.wf(),
        no_newline(bytes),
        s.column + bytes.len() <= BUFFER_WIDTH,
    ensures
        ({
            let after = s.write_bytes(bytes);
            &&& after.wf()
            &&& after.color == s.color
            &&& after.column == s.column + bytes.len()
            &&& after.stores == s.stores + drawing_stores(bytes, s.column, s.color)
            &&& forall|row: int|
                0 <= row < BUFFER_HEIGHT - 1 ==> #[trigger] after.grid[row] == s.grid[row]
            &&& forall|col: int|
                0 <= col < BUFFER_WIDTH ==> #[trigger] after.grid[BUFFER_HEIGHT - 1][col] == (
                if s.column <= col < s.column + bytes.len() {
                    glyph(rendered(bytes[col - s.column]), s.color)
                } else {
                    s.grid[BUFFER_HEIGHT - 1][col]
                })
        }),
    decreases bytes.len(),
{
    if bytes.len() > 0 {
        let front = bytes.drop_last();
        lemma_fits_in_row(s, front);
        assert(drawing_stores(bytes, s.column, s.color) =~= drawing_stores(
            front,
            s.column,
            s.color,
        ).push(
            Store {
                row: BUFFER_HEIGHT - 1,
                col: s.column + front.len(),
                cell: glyph(rendered(bytes.last()), s.color),
            },
        ));
        assert(s.write_bytes(bytes).stores =~= s.stores + drawing_stores(bytes, s.column, s.color));
    } else {
        assert(s.stores + drawing_stores(bytes, s.column, s.color) =~= s.stores);
    }
}

/// Writing exactly `BUFFER_WIDTH` bytes without a newline from column 0
/// fills the bottom row left to right, with one write for each byte, and
/// scrolls nothing. One more such byte scrolls the screen exactly once
/// before it is drawn: the filled row now stands one row higher, every row
/// above it has moved up by one as well, and the new bottom row holds that
/// byte in column 0 and is empty after it.
pub proof fn lemma_full_row_then_one_more(s: Screen, bytes: Seq<u8>, byte: u8)
    requires
        s.wf(),
        s.column == 0,
        bytes.len() == BUFFER_WIDTH,
        no_newline(bytes),
        byte != NEWLINE,
    ensures
        ({
            let full = s.write_bytes(bytes);
            let over = s.write_bytes(bytes.push(byte));
            &&& full.column == BUFFER_WIDTH
            &&& full.stores == s.stores + drawing_stores(bytes, 0, s.color)
            &&& forall|row: int|
                0 <= row < BUFFER_HEIGHT - 1 ==> #[trigger] full.grid[row] == s.grid[row]
            &&& forall|col: int|
                0 <= col < BUFFER_WIDTH ==> #[trigger] full.grid[BUFFER_HEIGHT - 1][col] == glyph(
                    rendered(bytes[col]),
                    s.color,
                )
            &&& over == full.new_line().put(rendered(byte))
            &&& over.column == 1
            &&& forall|row: int|
                0 <= row < BUFFER_HEIGHT - 1 ==> #[trigger] over.grid[row] == full.grid[row + 1]
            &&& over.grid[BUFFER_HEIGHT - 1][0] == glyph(rendered(byte), s.color)
            &&& forall|col: int|
                1 <= col < BUFFER_WIDTH ==> #[trigger] over.grid[BUFFER_HEIGHT - 1][col] == blank(
                    s.color,
                )
        }),
{
    lemma_fits_in_row(s, bytes);
    lemma_write_bytes_push(s, bytes, byte);
}

/// A scroll moves the contents of every row up by exactly one row, empties
/// the bottom row in the current style and touches nothing else: the style
/// stays, and the cursor returns to column 0.
pub proof fn lemma_scroll_moves_rows_up(s: Screen)
    requires
        s.wf(),
    ensures
        ({
            let after = s.new_line();
            &&& after.wf()
            &&& after.column == 0
            &&& after.color == s.color
            &&& forall|row: int|
                0 <= row < BUFFER_HEIGHT - 1 ==> #[trigger] after.grid[row] == s.grid[row + 1]
            &&& forall|col: int|
                0 <= col < BUFFER_WIDTH ==> #[trigger] after.grid[BUFFER_HEIGHT - 1][col] == blank(
                    s.color,
                )
        }),
{
}

/// The writes of a scroll, in the order they are made. First comes the copy:
/// each of its writes puts into a row above the bottom one the cell that
/// stood just below, and the copy never goes back to an earlier row, nor to
/// an earlier column within a row. Then the bottom row, and no other, is
/// emptied.
pub proof fn lemma_scroll_stores_in_order(s: Screen)
    requires
        s.wf(),
    ensures
        ({
            let copy = copying_stores(s.grid);
            let clear = clearing_stores(BUFFER_HEIGHT - 1, s.color);
            &&& s.new_line().stores == s.stores + copy + clear
            &&& copy.len() == (BUFFER_HEIGHT - 1) * BUFFER_WIDTH
            &&& forall|k: int|
                0 <= k < copy.len() ==> {
                    let store = #[trigger] copy[k];
                    &&& 0 <= store.row < BUFFER_HEIGHT - 1
                    &&& 0 <= store.col < BUFFER_WIDTH
                    &&& k == store.row * BUFFER_WIDTH + store.col
                    &&& store.cell == s.grid[store.row + 1][store.col]
                }
            &&& forall|j: int, k: int|
                0 <= j <= k < copy.len() ==> {
                    let earlier = #[trigger] copy[j];
                    let later = #[trigger] copy[k];
                    earlier.row < later.row || (earlier.row == later.row && earlier.col
                        <= later.col)
                }
            &&& clear.len() == BUFFER_WIDTH
            &&& forall|col: int|
                0 <= col < BUFFER_WIDTH ==> #[trigger] clear[col] == (Store {
                    row: BUFFER_HEIGHT - 1,
                    col,
                    cell: blank(s.color),
                })
        }),
{
}

/// Every cell of a row that was just emptied reads back as a space in the
/// style that was current when it was emptied. The other rows, the cursor
/// and the style are as before: each of the writes made goes to that row.
/// Emptying the row a second time leaves the screen as it is.
pub proof fn lemma_cleared_row_reads_blank(s: Screen, row: int)
    requires
        s.wf(),
        0 <= row < BUFFER_HEIGHT,
    ensures
        ({
            let after = s.clear_row(row);
            &&& after.wf()
            &&& after.column == s.column
            &&& after.color == s.color
            &&& forall|col: int|
                0 <= col < BUFFER_WIDTH ==> #[trigger] after.grid[row][col] == blank(s.color)
            &&& forall|other: int|
                0 <= other < BUFFER_HEIGHT && other != row ==> #[trigger] after.grid[other]
                    == s.grid[other]
            &&& after.stores.len() == s.stores.len() + BUFFER_WIDTH
            &&& forall|i: int|
                0 <= i < after.stores.len() ==> #[trigger] after.stores[i] == (if i
                    < s.stores.len() {
                    s.stores[i]
                } else {
                    Store { row, col: i - s.stores.len(), cell: blank(s.color) }
                })
            &&& after.clear_row(row).grid == after.grid
        }),
{
    let after = s.clear_row(row);
    assert(after.clear_row(row).grid =~= after.grid);
}

/// Making one sequence of writes after another gives the same grid as making
/// the two joined into one.
pub proof fn lemma_replayed_concat(grid: Grid, first: Seq<Store>, second: Seq<Store>)
    ensures
        replayed(grid, first + second) == replayed(replayed(grid, first), second),
    decreases second.len(),
{
    if second.len() == 0 {
        assert(first + second =~= first);
    } else {
        lemma_replayed_concat(grid, first, second.drop_last());
        assert((first + second).drop_last() =~= first + second.drop_last());
    }
}

/// The first `n` cells of `row` are empty in the given style, the rest of
/// the grid is as in `grid`.
spec fn partly_cleared(grid: Grid, row: int, color: ColorCode, n: int) -> Grid {
    grid.update(
        row,
        Seq::new(
            BUFFER_WIDTH as nat,
            |col: int|
                if col < n {
                    blank(color)
                } else {
                    grid[row][col]
                },
        ),
    )
}

/// The first `n` writes that empty a row leave its first `n` cells empty.
proof fn lemma_clearing_prefix_replayed(grid: Grid, row: int, color: ColorCode, n: int)
    requires
        screen_shaped(grid),
        0 <= row < BUFFER_HEIGHT,
        0 <= n <= BUFFER_WIDTH,
    ensures
        replayed(grid, clearing_stores(row, color).take(n)) == partly_cleared(grid, row, color, n),
    decreases n,
{
    let stores = clearing_stores(row, color);
    if n == 0 {
        assert(partly_cleared(grid, row, color, 0) =~~= grid);
    } else {
        lemma_clearing_prefix_replayed(grid, row, color, n - 1);
        assert(stores.take(n).drop_last() =~= stores.take(n - 1));
        assert(replayed(grid, stores.take(n)) =~~= partly_cleared(grid, row, color, n));
    }
}

/// The writes that empty a row, made in their order, leave that row empty
/// and every other row as it was.
pub proof fn lemma_clearing_stores_replayed(grid: Grid, row: int, color: ColorCode)
    requires
        screen_shaped(grid),
        0 <= row < BUFFER_HEIGHT,
    ensures
        replayed(grid, clearing_stores(row, color)) == grid.update(row, blank_row(color)),
{
    let stores = clearing_stores(row, color);
    lemma_clearing_prefix_replayed(grid, row, color, BUFFER_WIDTH as int);
    assert(stores.take(BUFFER_WIDTH as int) =~= stores);
    assert(partly_cleared(grid, row, color, BUFFER_WIDTH as int) =~~= grid.update(
        row,
        blank_row(color),
    ));
}

/// The grid with every row above the bottom one replaced by the row below it.
pub open spec fn moved_up(grid: Grid) -> Grid {
    Seq::new(
        BUFFER_HEIGHT as nat,
        |row: int|
            if row + 1 < BUFFER_HEIGHT {
                grid[row + 1]
            } else {
                grid[row]
            },
    )
}

/// The first `n` cells, counted row by row, hold the cell that stood below
/// them in `grid`; the others are as in `grid`.
spec fn partly_moved_up(grid: Grid, n: int) -> Grid {
    Seq::new(
        BUFFER_HEIGHT as nat,
        |row: int|
            Seq::new(
                BUFFER_WIDTH as nat,
                |col: int|
                    if row * BUFFER_WIDTH + col < n {
                        grid[row + 1][col]
                    } else {
                        grid[row][col]
                    },
            ),
    )
}

/// The first `n` writes of the copy have moved just the first `n` cells up.
proof fn lemma_copying_prefix_replayed(grid: Grid, n: int)
    requires
        screen_shaped(grid),
        0 <= n <= (BUFFER_HEIGHT - 1) * BUFFER_WIDTH,
    ensures
        replayed(grid, copying_stores(grid).take(n)) == partly_moved_up(grid, n),
    decreases n,
{
    let stores = copying_stores(grid);
    if n == 0 {
        assert(partly_moved_up(grid, 0) =~~= grid);
    } else {
        lemma_copying_prefix_replayed(grid, n - 1);
        assert(stores.take(n).drop_last() =~= stores.take(n - 1));
        assert(replayed(grid, stores.take(n)) =~~= partly_moved_up(grid, n));
    }
}

/// The writes of the copy, made in their order, move the grid up by one
/// row: since the rows are taken top down, every cell is read before it is
/// written over. The bottom row is as it was.
pub proof fn lemma_copying_stores_replayed(grid: Grid)
    requires
        screen_shaped(grid),
    ensures
        replayed(grid, copying_stores(grid)) == moved_up(grid),
{
    let stores = copying_stores(grid);
    let n: int = (BUFFER_HEIGHT - 1) * BUFFER_WIDTH;
    lemma_copying_prefix_replayed(grid, n);
    assert(stores.take(n) =~= stores);
    assert(partly_moved_up(grid, n) =~~= moved_up(grid));
}

/// Writing one byte changes the screen by the writes it makes and by
/// nothing else: the writes made before are still there, in their order,
/// and the new ones, made first to last, turn the old grid into the new one.
pub proof fn lemma_byte_is_what_was_stored(s: Screen, byte: u8)
    requires
        s.wf(),
    ensures
        ({
            let after = s.write_byte(byte);
            &&& s.stores.len() <= after.stores.len()
            &&& after.stores.take(s.stores.len() as int) == s.stores
            &&& after.grid == replayed(s.grid, after.stores.skip(s.stores.len() as int))
        }),
{
    let after = s.write_byte(byte);
    let old_len: int = s.stores.len() as int;
    let copy = copying_stores(s.grid);
    let clear = clearing_stores(BUFFER_HEIGHT - 1, s.color);
    lemma_copying_stores_replayed(s.grid);
    lemma_clearing_stores_replayed(moved_up(s.grid), BUFFER_HEIGHT - 1, s.color);
    lemma_replayed_concat(s.grid, copy, clear);
    assert(replayed(s.grid, copy + clear) =~= s.new_line().grid);
    assert(after.stores.take(old_len) =~= s.stores);
    if byte == NEWLINE {
        assert(after.stores.skip(old_len) =~= copy + clear);
    } else if s.column >= BUFFER_WIDTH {
        let last = after.stores.last();
        assert(after.stores.skip(old_len) =~= (copy + clear).push(last));
        assert((copy + clear).push(last).drop_last() =~= copy + clear);
    } else {
        let last = after.stores.last();
        let none = Seq::<Store>::empty();
        assert(after.stores.skip(old_len) =~= none.push(last));
        assert(none.push(last).drop_last() =~= none);
        assert(replayed(s.grid, none) == s.grid);
    }
}

/// Writing a text changes the screen by the writes it makes and by nothing
/// else: the writes made before are still there, in their order, and the
/// new ones, made first to last, turn the old grid into the new one.
pub proof fn lemma_text_is_what_was_stored(s: Screen, bytes: Seq<u8>)
    requires
        s.wf(),
    ensures
        ({
            let after = s.write_bytes(bytes);
            &&& s.stores.len() <= after.stores.len()
            &&& after.stores.take(s.stores.len() as int) == s.stores
            &&& after.grid == replayed(s.grid, after.stores.skip(s.stores.len() as int))
        }),
    decreases bytes.len(),
{
    let old_len: int = s.stores.len() as int;
    if bytes.len() == 0 {
        assert(s.stores.take(old_len) =~= s.stores);
        assert(s.stores.skip(old_len) =~= Seq::<Store>::empty());
    } else {
        let middle = s.write_bytes(bytes.drop_last());
        let after = s.write_bytes(bytes);
        let middle_len: int = middle.stores.len() as int;
        lemma_text_is_what_was_stored(s, bytes.drop_last());
        lemma_write_bytes_preserves_wf(s, bytes.drop_last());
        lemma_byte_is_what_was_stored(middle, rendered(bytes.last()));
        lemma_replayed_concat(
            s.grid,
            middle.stores.skip(old_len),
            after.stores.skip(middle_len),
        );
        assert(after.stores =~= after.stores.take(middle_len) + after.stores.skip(middle_len));
        assert(after.stores.take(old_len) =~= s.stores);
        assert(after.stores.skip(old_len) =~= middle.stores.skip(old_len) + after.stores.skip(
            middle_len,
        ));
    }
}

} // verus!
