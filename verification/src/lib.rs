//! A text-mode console driver over a fixed grid of character cells: packed
//! color codes, a writer with line wrapping and vertical scrolling, and the
//! volatile cell accesses the memory-mapped hardware expects.

pub mod laws;
pub mod vga_buffer;
