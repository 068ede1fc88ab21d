//! A text-mode console for the classic 80x25 VGA character display.
//!
//! The screen is a grid of two-byte cells that the display hardware reads
//! directly from memory. [`Writer`] turns a stream of bytes into cells on the
//! bottom row of that grid, wrapping and scrolling as the row fills up, and
//! every access to a cell is a volatile read or write.
//!
//! What each operation does is stated over a mathematical model of the
//! console, [`Screen`], and proved of the code. The model holds the grid, the
//! cursor and the style, and also the sequence of writes that were made to
//! the frame buffer, so a contract says which cells are written and in which
//! order, not only what the screen shows in the end.

pub mod buffer;
pub mod color;
pub mod laws;
pub mod screen;
pub mod trusted;
pub mod writer;

pub use buffer::{Buffer, ScreenChar, BUFFER_HEIGHT, BUFFER_WIDTH};
pub use color::{Color, ColorCode};
pub use screen::Screen;
pub use writer::Writer;
