//! Boot-time memory services for a small x86_64 kernel: a catalog of the
//! loader-reported physical memory regions, a frame allocator over its usable
//! frames, a four-level page-table walker, and the bootstrap of the mapper
//! that higher layers use, together with the text and pixel buffers the
//! early console draws into.

pub mod color;
pub mod device;
pub mod error;
pub mod ext2;
pub mod font;
pub mod gop;
pub mod keyboard;
pub mod graphics;
pub mod memory;
pub mod paging;
pub mod qemu;
pub mod region;
pub mod storage;
pub mod terminal;
pub mod text;
pub mod util;
pub mod vga;
