use lib_sorrow::device::{ConfigAccess, PciBus, PciBusIter};
use lib_sorrow::ext2::{Block, FileSystem, INode, SuperBlock, BLOCK_SIZE};
use lib_sorrow::keyboard::{init_us_keyboard, KeyInput, Keyboard};
use lib_sorrow::qemu::QemuExitCode;
use lib_sorrow::storage::{Drive, SECTOR_SIZE};
use lib_sorrow::terminal::{Span, TerminalBackBuffer};
use lib_sorrow::gop::{FrameBufferInfo, Writer};
use lib_sorrow::graphics::PixelFormat;
use lib_sorrow::storage::printable_text;
use lib_sorrow::text::{Position, TextWriter};
use lib_sorrow::text::Direction;
use lib_sorrow::util::PushReturn;

#[test]
fn spans_keep_their_ends() {
    let span = Span::new(3u32, 9u32);
    assert_eq!((span.start, span.end), (3, 9));
    let chars = Span::new('a', 'z');
    assert_eq!((chars.start, chars.end), ('a', 'z'));
}

#[test]
fn back_buffer_keeps_lines_and_history() {
    let mut buffer = TerminalBackBuffer::new(4, 4);
    buffer.push_command("$ ".to_string(), "ls".to_string());
    buffer.push_command("$ ".to_string(), "cat a".to_string());
    assert_eq!(buffer.buffer.1, vec!["$ ls".to_string(), "$ cat a".to_string()]);
    assert_eq!(
        buffer.history.1.iter().cloned().collect::<Vec<_>>(),
        vec!["ls".to_string(), "cat a".to_string()]
    );
}

#[test]
fn full_history_drops_its_oldest_command() {
    let mut buffer = TerminalBackBuffer::new(2, 8);
    buffer.push_command("> ".to_string(), "one".to_string());
    buffer.push_command("> ".to_string(), "two".to_string());
    buffer.push_command("> ".to_string(), "three".to_string());
    assert_eq!(
        buffer.history.1.iter().cloned().collect::<Vec<_>>(),
        vec!["two".to_string(), "three".to_string()]
    );
    assert_eq!(buffer.buffer.1.len(), 3);
}

#[test]
fn overfull_line_buffer_drops_its_oldest_line() {
    let mut buffer = TerminalBackBuffer::new(8, 1);
    buffer.push_command("".to_string(), "a".to_string());
    buffer.push_command("".to_string(), "b".to_string());
    // The cap is only enforced once the buffer has grown past it.
    assert_eq!(buffer.buffer.1, vec!["a".to_string(), "b".to_string()]);
    buffer.push_command("".to_string(), "c".to_string());
    assert_eq!(buffer.buffer.1, vec!["b".to_string(), "c".to_string()]);
}

#[test]
fn default_back_buffer_uses_the_boot_caps() {
    let buffer = TerminalBackBuffer::default();
    assert_eq!(buffer.history.0, 250);
    assert_eq!(buffer.buffer.0, 50);
}

#[test]
fn drives_carry_their_geometry() {
    let drive = Drive::new(2, 128);
    assert_eq!((drive._id, drive.sector_size), (2, 128));
    let default = Drive::default();
    assert_eq!((default._id, default.sector_size), (0, SECTOR_SIZE));
    assert_eq!(default.read_length(3), Some(3 * SECTOR_SIZE));
    assert_eq!(default.read_length(usize::MAX), None);
}

#[test]
fn fresh_filesystem_has_empty_inodes() {
    let fs = FileSystem::new(3, 10);
    assert_eq!(fs.super_block.inode_count, 3);
    assert_eq!(fs.super_block.block_count, 10);
    // The recorded block size is the in-memory size of a Block: the data
    // bytes together with the chain link.
    assert_eq!(fs.super_block.block_size, core::mem::size_of::<Block>());
    assert!(fs.super_block.block_size >= BLOCK_SIZE);
    assert_eq!(fs.inodes.len(), 3);
    assert!(fs.inodes.iter().all(|inode| inode.name.is_empty() && inode.size == 0));
    assert!(fs.head_block.next.is_none());
    assert!(fs.head_block.data.iter().all(|&b| b == 0));
}

#[test]
fn inode_and_block_builders() {
    let inode = INode::new("kernel.txt", 42);
    assert_eq!((inode.name.as_str(), inode.size), ("kernel.txt", 42));
    let block = Block::new();
    assert_eq!(block.data.len(), BLOCK_SIZE);
    let sb = SuperBlock::new(7, 9);
    assert_eq!((sb.inode_count, sb.block_count), (7, 9));
    assert_eq!(sb.block_size, core::mem::size_of::<Block>());
}

struct RecordingAccess;

impl ConfigAccess for RecordingAccess {
    fn read_nolock(&self, bus: u8, dev: u8, _func: u8, _offset: u16) -> u32 {
        (bus as u32) << 8 | dev as u32
    }

    fn read(&self, bus: u8, dev: u8, func: u8, offset: u16) -> u32 {
        self.read_nolock(bus, dev, func, offset)
    }

    fn write_nolock(&self, _bus: u8, _dev: u8, _func: u8, _offset: u16, _value: u32) {}

    fn write(&self, bus: u8, dev: u8, func: u8, offset: u16, value: u32) {
        self.write_nolock(bus, dev, func, offset, value)
    }
}

#[test]
fn pci_bus_iterates_its_32_slots() {
    let bus = PciBus { pci: RecordingAccess, num: 1 };
    let mut iter = bus.devices();
    let mut count = 0u32;
    let mut last = 0u8;
    while let Some(device) = iter.next() {
        last = device.num;
        count += 1;
    }
    assert_eq!(count, 32);
    assert_eq!(last, 31);
    assert!(PciBusIter::new(&bus).next().is_some());
    assert_eq!(bus.read(5, 0, 0), (1 << 8) | 5);
}

#[test]
fn qemu_exit_codes() {
    assert_eq!(QemuExitCode::Success.code(), 0x10);
    assert_eq!(QemuExitCode::Failed.code(), 0x11);
}

#[test]
fn keyboard_decodes_a_letter_press() {
    let mut keyboard = init_us_keyboard();
    // Scancode set 1: 0x1E is the make code of the A key.
    match keyboard.process_scancode(0x1e) {
        Some(KeyInput::Unicode(c)) => assert_eq!(c, 'a'),
        other => panic!("expected a decoded 'a', got {:?}", other.is_some()),
    }
}

#[test]
fn keyboard_decodes_an_arrow_key() {
    let mut keyboard = Keyboard::new();
    // The extended prefix completes no key press on its own.
    assert!(keyboard.process_scancode(0xe0).is_none());
    match keyboard.process_scancode(0x4b) {
        Some(KeyInput::Arrow(direction)) => assert!(matches!(direction, Direction::Left)),
        other => panic!("expected an arrow key, got {:?}", other.is_some()),
    }
}

#[test]
fn drive_words_render_as_printable_text() {
    // 'h' = 0x68, 'i' = 0x69; 0x07 and 0xff are dropped as unprintable.
    let words = [0x6869u16, 0x07ff, 0x2161];
    assert_eq!(printable_text(&words), vec![0x68, 0x69, 0x21, 0x61]);
    assert_eq!(printable_text(&[]), Vec::<u8>::new());
}

#[test]
fn push_return_chains_pushes() {
    let mut v: Vec<u32> = Vec::new();
    v.push_return(1).push_return(2).push_return(3);
    assert_eq!(v, vec![1, 2, 3]);
}

#[test]
fn keypresses_drive_the_console() {
    let info = FrameBufferInfo {
        horizontal_resolution: 64,
        vertical_resolution: 16,
        stride: 64,
        bytes_per_pixel: 4,
        pixel_format: PixelFormat::Rgb,
    };
    let writer = Writer::new(vec![0; 64 * 4 * 16], info).expect("the geometry is consistent");
    let mut console = TextWriter::new(writer).expect("cells fit");
    let keyboard = Keyboard::new();
    keyboard.handle_keypress(&mut console, KeyInput::Unicode('x'));
    assert_eq!(console.back.get(Position::new(0, 0)), Some('x'));
    keyboard.handle_keypress(&mut console, KeyInput::Unicode('\u{8}'));
    assert_eq!(console.back.get(Position::new(0, 0)), Some(' '));
    keyboard.handle_keypress(&mut console, KeyInput::Unicode('\n'));
    assert_eq!((console.position.x, console.position.y), (0, 1));
    keyboard.handle_keypress(&mut console, KeyInput::Arrow(Direction::Right));
    assert_eq!((console.position.x, console.position.y), (1, 1));
    keyboard.handle_keypress(&mut console, KeyInput::Raw("Escape".to_string()));
    assert_eq!(console.back.get(Position::new(1, 1)), Some('E'));
    assert_eq!(console.back.get(Position::new(6, 1)), Some('e'));
}
