use font8x8::UnicodeFonts;
use lib_sorrow::color::Color as NamedColor;
use lib_sorrow::gop::{Color, ColorCode, Coordinates, FrameBufferInfo, Writer};
use lib_sorrow::graphics::{GopDevice, PixelFormat};
use lib_sorrow::text::{BackBuffer, Direction, FrontBuffer, Position, TextWriter};
use lib_sorrow::vga;

#[test]
fn named_colors_encode_both_ways() {
    assert_eq!(NamedColor::Red.as_rgb(), 0xff000000);
    assert_eq!(NamedColor::Red.as_bgr(), 0x0000ff00);
    assert_eq!(NamedColor::Blue.as_rgb(), 0x0000ff00);
    assert_eq!(NamedColor::Blue.as_bgr(), 0xff000000);
    assert_eq!(NamedColor::White.as_rgb(), 0xffffff00);
    assert_eq!(NamedColor::White.as_bgr(), 0xffffff00);
}

#[test]
fn raw_colors_swap_red_and_blue_channels() {
    assert_eq!(NamedColor::Bgr(0x11223344).as_rgb(), 0x33221144);
    assert_eq!(NamedColor::Rgb(0x11223344).as_bgr(), 0x33221144);
    assert_eq!(NamedColor::Rgb(0xdeadbe00).as_rgb(), 0xdeadbe00);
    assert_eq!(NamedColor::Bgr(0xdeadbe00).as_bgr(), 0xdeadbe00);
}

#[test]
fn console_color_formats_into_bytes() {
    let red = Color::new(ColorCode::Red);
    assert_eq!(red.format(), [0xff, 0x00, 0x00, 0x00]);
    assert_eq!(red.format_as_bgr(), [0x00, 0x00, 0xff, 0x00]);
    let gray = Color::from(ColorCode::Gray);
    assert_eq!(gray.format(), [0x22, 0x22, 0x22, 0x00]);
}

fn canvas(width: usize, height: usize, format: PixelFormat) -> Writer {
    let info = FrameBufferInfo {
        horizontal_resolution: width,
        vertical_resolution: height,
        stride: width,
        bytes_per_pixel: 4,
        pixel_format: format,
    };
    Writer::new(vec![0; width * 4 * height], info).expect("the geometry is consistent")
}

#[test]
fn canvas_draw_writes_the_pixel_bytes() {
    let mut writer = canvas(4, 3, PixelFormat::Rgb);
    writer.draw(Coordinates::new(2, 1), Color::new(ColorCode::Magenta));
    let offset = (4 * 4) * 1 + 4 * 2;
    assert_eq!(&writer.frame_buffer[offset..offset + 4], &[0xff, 0x00, 0xff, 0x00]);
    // The neighboring pixel kept its bytes.
    assert_eq!(&writer.frame_buffer[offset + 4..offset + 8], &[0, 0, 0, 0]);
}

#[test]
fn canvas_draw_honors_the_bgr_format() {
    let mut writer = canvas(2, 1, PixelFormat::Bgr);
    writer.draw(Coordinates::new(0, 0), Color::new(ColorCode::Red));
    assert_eq!(&writer.frame_buffer[0..4], &[0x00, 0x00, 0xff, 0x00]);
}

#[test]
fn canvas_rejects_inconsistent_geometry() {
    let info = FrameBufferInfo {
        horizontal_resolution: 4,
        vertical_resolution: 4,
        stride: 4,
        bytes_per_pixel: 4,
        pixel_format: PixelFormat::Rgb,
    };
    assert!(Writer::new(vec![0; 7], info).is_none());
    assert_eq!(
        Writer::try_new(None).err(),
        Some("Failed to acquire frame buffer handle")
    );
}

#[test]
fn canvas_fill_paints_everything() {
    let mut writer = canvas(3, 2, PixelFormat::Rgb);
    writer.fill(Color::new(ColorCode::Blue));
    for pixel in 0..6 {
        let offset = pixel * 4;
        assert_eq!(&writer.frame_buffer[offset..offset + 4], &[0x00, 0x00, 0xff, 0x00]);
    }
}

#[test]
fn canvas_rectangle_leaves_the_outside_alone() {
    let mut writer = canvas(4, 4, PixelFormat::Rgb);
    writer.draw_rectangle(Coordinates::new(1, 1), Coordinates::new(2, 2), Color::new(ColorCode::White));
    let row_bytes = 4 * 4;
    for y in 0..4 {
        for x in 0..4 {
            let offset = y * row_bytes + x * 4;
            let inside = (1..3).contains(&x) && (1..3).contains(&y);
            let expected: [u8; 4] = if inside { [0xff, 0xff, 0xff, 0x00] } else { [0, 0, 0, 0] };
            assert_eq!(&writer.frame_buffer[offset..offset + 4], &expected);
        }
    }
}

#[test]
fn gop_device_draws_squares_and_pixels() {
    let device = GopDevice::new(vec![0; 8 * 4 * 4], 8, 4, 8, 4, PixelFormat::Rgb);
    let mut device = device.expect("the geometry is consistent");
    assert_eq!(device.width(), 8);
    assert_eq!(device.height(), 4);
    assert_eq!(device.pitch(), 32);
    assert_eq!(device.pixel_bytes(), 4);
    device.draw_square(1, 1, 2, NamedColor::Green);
    for y in 0..4 {
        for x in 0..8 {
            let offset = y * 32 + x * 4;
            let inside = (1..3).contains(&x) && (1..3).contains(&y);
            let expected: [u8; 4] = if inside { [0x00, 0xff, 0x00, 0x00] } else { [0, 0, 0, 0] };
            assert_eq!(&device.buffer[offset..offset + 4], &expected);
        }
    }
    device.set_byte(0, 0x77);
    assert_eq!(device.buffer[0], 0x77);
}

#[test]
fn gop_device_rejects_wrong_buffer_size() {
    assert!(GopDevice::new(vec![0; 10], 8, 4, 8, 4, PixelFormat::Rgb).is_none());
    assert!(GopDevice::new(vec![0; 8 * 4 * 4], 8, 4, 8, 3, PixelFormat::Rgb).is_none());
}

#[test]
fn glyphs_land_on_the_canvas_as_the_font_draws_them() {
    let mut front = FrontBuffer::new(canvas(8, 8, PixelFormat::Rgb));
    front.put_char('A', Position::new(0, 0));
    let glyph = font8x8::BASIC_FONTS.get('A').expect("the basic font covers ASCII");
    for gy in 0..8 {
        for gx in 0..8 {
            let offset = gy * 32 + gx * 4;
            let lit = glyph[gy] & (1 << gx) != 0;
            let expected: [u8; 4] = if lit {
                [0xff, 0xff, 0xff, 0x00]
            } else {
                [0x00, 0x00, 0x00, 0x00]
            };
            assert_eq!(
                &front.0.frame_buffer[offset..offset + 4],
                &expected,
                "pixel ({gx}, {gy}) of the glyph"
            );
        }
    }
}

#[test]
fn uncovered_characters_draw_nothing() {
    let mut front = FrontBuffer::new(canvas(8, 8, PixelFormat::Rgb));
    front.put_char('é', Position::new(0, 0));
    assert!(front.0.frame_buffer.iter().all(|&b| b == 0));
}

#[test]
fn back_buffer_tracks_cells_and_scrolls() {
    let mut back = BackBuffer::new(Position::new(2, 2));
    assert_eq!(back.get(Position::new(0, 0)), None);
    back.set(Position::new(0, 0), Some('a'));
    back.set(Position::new(1, 0), Some('b'));
    back.set(Position::new(0, 1), Some('c'));
    back.set(Position::new(1, 1), Some('d'));
    back.shift();
    assert_eq!(back.get(Position::new(0, 0)), Some('c'));
    assert_eq!(back.get(Position::new(1, 0)), Some('d'));
    assert_eq!(back.get(Position::new(0, 1)), None);
    assert_eq!(back.get(Position::new(1, 1)), None);
    back.clear();
    assert_eq!(back.get(Position::new(0, 0)), None);
}

#[test]
fn text_writer_advances_wraps_and_scrolls() {
    // A 16-by-16 canvas gives a two-by-two character grid.
    let mut console = TextWriter::new(canvas(16, 16, PixelFormat::Rgb)).expect("two cells fit");
    console.write_char('a');
    assert_eq!((console.position.x, console.position.y), (1, 0));
    console.write_char('b');
    assert_eq!((console.position.x, console.position.y), (0, 1));
    console.write_char('c');
    console.write_char('d');
    // Writing into the bottom-right cell scrolled the grid one row up.
    assert_eq!((console.position.x, console.position.y), (0, 1));
    assert_eq!(console.back.get(Position::new(0, 0)), Some('c'));
    assert_eq!(console.back.get(Position::new(1, 0)), Some('d'));
    assert_eq!(console.back.get(Position::new(0, 1)), None);
}

#[test]
fn text_writer_control_characters() {
    let mut console = TextWriter::new(canvas(64, 16, PixelFormat::Rgb)).expect("cells fit");
    console.write_char('x');
    console.write_char('\n');
    assert_eq!((console.position.x, console.position.y), (0, 1));
    console.write_char('y');
    console.write_char('\r');
    assert_eq!((console.position.x, console.position.y), (0, 1));
    console.write_char('\t');
    assert_eq!((console.position.x, console.position.y), (4, 1));
    assert_eq!(console.back.get(Position::new(0, 1)), Some(' '));
}

#[test]
fn text_writer_clear_last_steps_back() {
    let mut console = TextWriter::new(canvas(32, 8, PixelFormat::Rgb)).expect("cells fit");
    console.write_str("hi");
    console.clear_last();
    assert_eq!((console.position.x, console.position.y), (1, 0));
    assert_eq!(console.back.get(Position::new(1, 0)), Some(' '));
    assert_eq!(console.back.get(Position::new(0, 0)), Some('h'));
}

#[test]
fn text_writer_cursor_moves() {
    let mut console = TextWriter::new(canvas(32, 16, PixelFormat::Rgb)).expect("cells fit");
    console.move_cursor(Direction::Right);
    assert_eq!((console.position.x, console.position.y), (1, 0));
    console.move_cursor(Direction::Left);
    assert_eq!((console.position.x, console.position.y), (0, 0));
    console.move_cursor(Direction::Up);
    assert_eq!((console.position.x, console.position.y), (0, 1));
    console.move_cursor(Direction::Down);
    assert_eq!((console.position.x, console.position.y), (3, 0));
}

#[test]
fn text_writer_clear_empties_the_grid() {
    let mut console = TextWriter::new(canvas(16, 16, PixelFormat::Rgb)).expect("cells fit");
    console.write_char('q');
    console.clear();
    assert_eq!(console.back.get(Position::new(0, 0)), None);
    // The canvas went gray, the console background.
    assert_eq!(&console.front.0.frame_buffer[0..4], &[0x22, 0x22, 0x22, 0x00]);
}

#[test]
fn position_flattens_to_cell_count() {
    assert_eq!(Position::new(3, 4).flat(), 12);
    let p = Position::default();
    assert_eq!((p.x, p.y), (0, 0));
    let c = Coordinates::default();
    assert_eq!((c.x, c.y), (0, 0));
}

#[test]
fn vga_writer_writes_and_wraps() {
    let colors = vga::ColorCode::new(vga::Color::White, vga::Color::Black);
    let mut writer = vga::Writer::new(colors);
    writer.write_byte(b'H');
    assert_eq!(writer.column_position, 1);
    assert_eq!(writer.buffer.video_mem[0].ascii_char, b'H');
    writer.write_byte(b'\n');
    assert_eq!((writer.row_position, writer.column_position), (1, 0));
    for _ in 0..vga::BUFFER_WIDTH {
        writer.write_byte(b'x');
    }
    // A full row wrapped to the next one.
    assert_eq!((writer.row_position, writer.column_position), (2, 0));
}

#[test]
fn vga_writer_scrolls_at_the_bottom() {
    let colors = vga::ColorCode::new(vga::Color::Yellow, vga::Color::Blue);
    let mut writer = vga::Writer::new(colors);
    writer.write_byte(b'A');
    for _ in 0..vga::BUFFER_HEIGHT - 1 {
        writer.write_byte(b'\n');
    }
    assert_eq!(writer.row_position, vga::BUFFER_HEIGHT - 1);
    writer.write_byte(b'B');
    writer.write_byte(b'\n');
    // 'A' scrolled off; 'B' moved one row up.
    assert_eq!(
        writer.buffer.video_mem[(vga::BUFFER_HEIGHT - 2) * vga::BUFFER_WIDTH].ascii_char,
        b'B'
    );
    assert_eq!(writer.buffer.video_mem[0].ascii_char, b' ');
}

#[test]
fn vga_writer_replaces_unprintable_characters() {
    let colors = vga::ColorCode::new(vga::Color::White, vga::Color::Black);
    let mut writer = vga::Writer::new(colors);
    writer.write_string("ok\u{263a}");
    assert_eq!(writer.buffer.video_mem[0].ascii_char, b'o');
    assert_eq!(writer.buffer.video_mem[1].ascii_char, b'k');
    assert_eq!(writer.buffer.video_mem[2].ascii_char, 0xfe);
}

#[test]
fn vga_attribute_byte_packs_both_colors() {
    let colors = vga::ColorCode::new(vga::Color::Yellow, vga::Color::Blue);
    assert_eq!(colors.0, (1 << 4) | 14);
    let c = vga::Char::new(b'!', colors);
    assert_eq!(c.ascii_char, b'!');
    assert_eq!(vga::Char::blank(colors).ascii_char, b' ');
}

#[test]
fn vga_free_functions_drive_the_writer() {
    let colors = vga::ColorCode::new(vga::Color::White, vga::Color::Black);
    let mut writer = vga::Writer::new(colors);
    vga::tabline(&mut writer);
    assert_eq!(writer.column_position, 2);
    vga::newline(&mut writer);
    assert_eq!((writer.row_position, writer.column_position), (1, 0));
    vga::move_cursor(&mut writer, vga::Direction::Right);
    assert_eq!(writer.column_position, 1);
    vga::clear_last(&mut writer);
    assert_eq!(writer.column_position, 0);
    vga::move_cursor(&mut writer, vga::Direction::Up);
    assert_eq!(writer.row_position, 0);
    vga::move_cursor(&mut writer, vga::Direction::Down);
    assert_eq!(writer.row_position, 1);
}

#[test]
fn vga_clear_screen_blanks_everything() {
    let colors = vga::ColorCode::new(vga::Color::White, vga::Color::Black);
    let mut writer = vga::Writer::new(colors);
    writer.write_string("hello\nworld");
    writer.clear_screen();
    assert_eq!((writer.row_position, writer.column_position), (0, 0));
    assert!(writer.buffer.video_mem.iter().all(|c| c.ascii_char == b' '));
}

#[test]
fn write_str_walks_the_grid_like_single_characters() {
    let mut by_string = TextWriter::new(canvas(32, 16, PixelFormat::Rgb)).expect("cells fit");
    let mut by_chars = TextWriter::new(canvas(32, 16, PixelFormat::Rgb)).expect("cells fit");
    by_string.write_str("ab\ncd");
    for c in "ab\ncd".chars() {
        by_chars.write_char(c);
    }
    assert_eq!(by_string.position, by_chars.position);
    for y in 0..2 {
        for x in 0..4 {
            assert_eq!(
                by_string.back.get(Position::new(x, y)),
                by_chars.back.get(Position::new(x, y))
            );
        }
    }
    assert_eq!(by_string.back.get(Position::new(0, 0)), Some('a'));
    assert_eq!(by_string.back.get(Position::new(0, 1)), Some('c'));
}
