use ps2_filetypes::bytes::ByteCursor;
use ps2_filetypes::icon_sys::{
    convert_linepos, parse_color, parse_colorf, parse_direction, join_title_lines, parse_icon_sys, parse_icon_sys_checked, parse_sjis_string,
    split_title,
};
use ps2_filetypes::{Color, ColorF, IconSys, Vector};

fn sample_icon() -> IconSys {
    IconSys {
        flags: 0x0102,
        linebreak_pos: 5,
        background_transparency: 0x11223344,
        background_colors: [
            Color { r: 1, g: 2, b: 3, a: 4 },
            Color { r: 5, g: 6, b: 7, a: 8 },
            Color { r: 9, g: 10, b: 11, a: 12 },
            Color { r: 13, g: 14, b: 15, a: 255 },
        ],
        light_directions: [
            Vector { x: 0.5f32.to_bits(), y: (-1.0f32).to_bits(), z: 0.0f32.to_bits(), w: 1.0f32.to_bits() },
            Vector { x: 2.0f32.to_bits(), y: 3.0f32.to_bits(), z: 4.0f32.to_bits(), w: 5.0f32.to_bits() },
            Vector { x: 6, y: 7, z: 8, w: 9 },
        ],
        light_colors: [
            ColorF { r: 0.25f32.to_bits(), g: 0.5f32.to_bits(), b: 0.75f32.to_bits(), a: 1.0f32.to_bits() },
            ColorF { r: 1, g: 2, b: 3, a: 4 },
            ColorF { r: 0xdeadbeef, g: 0, b: u32::MAX, a: 7 },
        ],
        ambient_color: ColorF { r: 10, g: 20, b: 30, a: 40 },
        title_line1: "Hello".to_string(),
        title_line2: "World".to_string(),
        icon_file: "icon.icn".to_string(),
        icon_copy_file: "copy.icn".to_string(),
        icon_delete_file: "del.icn".to_string(),
    }
}

#[test]
fn linepos_example_from_the_format() {
    // A line break on the 5th character (0b0101) is stored as 0b1010.
    assert_eq!(convert_linepos(0b0000_0101), 0b0000_1010);
    assert_eq!(convert_linepos(0b0000_1010), 0b0000_0101);
}

#[test]
fn linepos_ignores_high_nibble() {
    assert_eq!(convert_linepos(0b1111_0001), 0b0000_1000);
    assert_eq!(convert_linepos(0xF0), 0);
    assert_eq!(convert_linepos(0xFF), 0x0F);
}

#[test]
fn linepos_conversion_is_its_own_inverse() {
    for x in 0u8..=255 {
        assert_eq!(convert_linepos(convert_linepos(x)), x & 0x0F);
        assert!(convert_linepos(x) < 16);
    }
}

#[test]
fn split_title_cuts_and_trims() {
    let (a, b) = split_title(5, "Hello   World".to_string());
    assert_eq!(a, "Hello");
    assert_eq!(b, "World");
}

#[test]
fn split_title_past_end_keeps_title_whole() {
    let (a, b) = split_title(5, "Hello".to_string());
    assert_eq!(a, "Hello");
    assert_eq!(b, "");
    let (a, b) = split_title(12, "Hi".to_string());
    assert_eq!(a, "Hi");
    assert_eq!(b, "");
}

#[test]
fn split_title_at_zero() {
    let (a, b) = split_title(0, " Title".to_string());
    assert_eq!(a, "");
    assert_eq!(b, "Title");
}

#[test]
fn join_title_lines_adds_one_space() {
    assert_eq!(join_title_lines("Hello".to_string(), "World".to_string()), "Hello World");
    assert_eq!(join_title_lines("Hello".to_string(), String::new()), "Hello");
    assert_eq!(join_title_lines(String::new(), "x".to_string()), " x");
}

#[test]
fn split_undoes_join() {
    let joined = join_title_lines("Save".to_string(), "Data".to_string());
    let (a, b) = split_title(4, joined);
    assert_eq!(a, "Save");
    assert_eq!(b, "Data");
}

#[test]
fn sjis_title_stops_at_nul() {
    let mut buf = b"My Save".to_vec();
    buf.extend_from_slice(&[0, b'x', b'y']);
    assert_eq!(parse_sjis_string(&buf), "My Save");
    assert_eq!(parse_sjis_string(b"no nul here"), "no nul here");
}

#[test]
fn sjis_title_decodes_japanese() {
    // 0x82 0xA0 is HIRAGANA LETTER A in Shift-JIS.
    assert_eq!(parse_sjis_string(&[0x82, 0xA0, 0x00, 0x41]), "\u{3042}");
}

#[test]
fn color_to_bytes_writes_channels_as_u32() {
    let c = Color { r: 1, g: 2, b: 3, a: 0xff };
    assert_eq!(c.to_bytes(), vec![1, 0, 0, 0, 2, 0, 0, 0, 3, 0, 0, 0, 0xff, 0, 0, 0]);
}

#[test]
fn colorf_and_vector_to_bytes_are_little_endian_floats() {
    let c = ColorF { r: 1.0f32.to_bits(), g: 0, b: 0x01020304, a: u32::MAX };
    let mut expected = 1.0f32.to_le_bytes().to_vec();
    expected.extend_from_slice(&[0, 0, 0, 0, 4, 3, 2, 1, 0xff, 0xff, 0xff, 0xff]);
    assert_eq!(c.to_bytes(), expected);
    let v = Vector { x: 0x0a0b0c0d, y: 1, z: 2, w: 3 };
    assert_eq!(v.to_bytes(), vec![0x0d, 0x0c, 0x0b, 0x0a, 1, 0, 0, 0, 2, 0, 0, 0, 3, 0, 0, 0]);
}

#[test]
fn to_bytes_layout() {
    let icon = sample_icon();
    let bytes = icon.to_bytes().unwrap();
    assert_eq!(bytes.len(), 964);
    assert_eq!(&bytes[0..4], b"PS2D");
    assert_eq!(&bytes[4..6], &[0x02, 0x01]);
    assert_eq!(bytes[6], 0b1010);
    assert_eq!(&bytes[7..12], &[0, 0, 0, 0, 0]);
    assert_eq!(&bytes[12..16], &[0x44, 0x33, 0x22, 0x11]);
    assert_eq!(&bytes[16..20], &[1, 0, 0, 0]);
    assert_eq!(&bytes[76..80], &[255, 0, 0, 0]);
    assert_eq!(&bytes[80..84], &0.5f32.to_le_bytes());
    assert_eq!(&bytes[192..203], b"Hello World");
    assert!(bytes[203..260].iter().all(|&b| b == 0));
    assert_eq!(&bytes[260..268], b"icon.icn");
    assert!(bytes[268..324].iter().all(|&b| b == 0));
    assert_eq!(&bytes[324..332], b"copy.icn");
    assert_eq!(&bytes[388..395], b"del.icn");
    assert!(bytes[452..].iter().all(|&b| b == 0));
}

#[test]
fn to_bytes_then_parse_gives_back_the_descriptor() {
    let icon = sample_icon();
    let bytes = icon.to_bytes().unwrap();
    let read = IconSys::new(bytes);
    assert_eq!(read.flags, icon.flags);
    assert_eq!(read.linebreak_pos, icon.linebreak_pos);
    assert_eq!(read.background_transparency, icon.background_transparency);
    for i in 0..4 {
        let (a, b) = (read.background_colors[i], icon.background_colors[i]);
        assert_eq!((a.r, a.g, a.b, a.a), (b.r, b.g, b.b, b.a));
    }
    for i in 0..3 {
        let (a, b) = (read.light_directions[i], icon.light_directions[i]);
        assert_eq!((a.x, a.y, a.z, a.w), (b.x, b.y, b.z, b.w));
        let (a, b) = (read.light_colors[i], icon.light_colors[i]);
        assert_eq!((a.r, a.g, a.b, a.a), (b.r, b.g, b.b, b.a));
    }
    let (a, b) = (read.ambient_color, icon.ambient_color);
    assert_eq!((a.r, a.g, a.b, a.a), (b.r, b.g, b.b, b.a));
    assert_eq!(read.title_line1, "Hello");
    assert_eq!(read.title_line2, "World");
    assert_eq!(read.icon_file, "icon.icn");
    assert_eq!(read.icon_copy_file, "copy.icn");
    assert_eq!(read.icon_delete_file, "del.icn");
}

#[test]
fn title_too_long_is_invalid_input() {
    let mut icon = sample_icon();
    icon.title_line1 = "A".repeat(40);
    icon.title_line2 = "B".repeat(28);
    let err = icon.to_bytes().unwrap_err();
    assert_eq!(err.kind(), std::io::ErrorKind::InvalidInput);
    icon.title_line2 = "B".repeat(27);
    assert_eq!(icon.to_bytes().unwrap().len(), 964);
}

#[test]
fn long_file_name_is_written_whole() {
    let mut icon = sample_icon();
    icon.icon_file = "x".repeat(70);
    let bytes = icon.to_bytes().unwrap();
    assert_eq!(bytes.len(), 970);
    assert_eq!(&bytes[260..330], "x".repeat(70).as_bytes());
}

#[test]
fn short_input_is_end_of_input() {
    let err = parse_icon_sys(vec![0u8; 451]).unwrap_err();
    assert_eq!(err.kind(), std::io::ErrorKind::UnexpectedEof);
    assert!(parse_icon_sys(Vec::new()).is_err());
    assert!(parse_icon_sys(vec![0u8; 452]).is_ok());
}

#[test]
fn zero_file_reads_as_empty_descriptor() {
    let icon = parse_icon_sys(vec![0u8; 452]).unwrap();
    assert_eq!(icon.flags, 0);
    assert_eq!(icon.linebreak_pos, 0);
    assert_eq!(icon.title_line1, "");
    assert_eq!(icon.title_line2, "");
    assert_eq!(icon.icon_file, "");
}

#[test]
fn magic_is_not_checked_and_tail_is_ignored() {
    let mut bytes = sample_icon().to_bytes().unwrap();
    bytes[0] = b'X';
    bytes.truncate(452);
    let read = parse_icon_sys(bytes).unwrap();
    assert_eq!(read.title_line1, "Hello");
}

#[test]
fn checked_parse_refuses_a_break_inside_a_character() {
    let mut bytes = vec![0u8; 452];
    // title: HIRAGANA A (3 bytes in UTF-8), then "bc"
    bytes[192] = 0x82;
    bytes[193] = 0xA0;
    bytes[194] = b'b';
    bytes[195] = b'c';
    // line break at byte 1, stored bit-reversed
    bytes[6] = convert_linepos(1);
    assert!(parse_icon_sys_checked(bytes.clone()).is_none());
    bytes[6] = convert_linepos(3);
    let read = parse_icon_sys_checked(bytes).unwrap().unwrap();
    assert_eq!(read.title_line1, "\u{3042}");
    assert_eq!(read.title_line2, "bc");
    assert!(parse_icon_sys_checked(vec![1, 2, 3]).unwrap().is_err());
}

#[test]
fn japanese_title_is_written_in_shift_jis() {
    let mut icon = sample_icon();
    icon.title_line1 = "\u{3042}".to_string();
    icon.title_line2 = String::new();
    icon.linebreak_pos = 15;
    let bytes = icon.to_bytes().unwrap();
    assert_eq!(&bytes[192..195], &[0x82, 0xA0, 0x00]);
    let read = IconSys::new(bytes);
    assert_eq!(read.title_line1, "\u{3042}");
    assert_eq!(read.title_line2, "");
}

#[test]
fn line_break_beyond_the_nibble_is_not_kept() {
    let mut icon = sample_icon();
    icon.linebreak_pos = 0x15;
    icon.title_line1 = "Hello".to_string();
    icon.title_line2 = "World".to_string();
    let read = IconSys::new(icon.to_bytes().unwrap());
    assert_eq!(read.linebreak_pos, 5);
}

#[test]
fn color_read_from_too_few_bytes_is_end_of_input() {
    let mut c = ByteCursor::new(vec![1u8; 15]);
    let err = parse_color(&mut c).unwrap_err();
    assert_eq!(err.kind(), std::io::ErrorKind::UnexpectedEof);
    assert_eq!(c.pos, 15);
    let mut c = ByteCursor::new(vec![1u8; 20]);
    c.pos = 5;
    assert!(parse_colorf(&mut c).is_err());
    assert_eq!(c.pos, 20);
}

#[test]
fn color_reads_low_bytes_and_moves_on() {
    let mut bytes = vec![0xAAu8; 3];
    bytes.extend_from_slice(&[1, 9, 9, 9, 2, 9, 9, 9, 3, 9, 9, 9, 4, 9, 9, 9, 7]);
    let mut c = ByteCursor::new(bytes);
    c.pos = 3;
    let col = parse_color(&mut c).unwrap();
    assert_eq!((col.r, col.g, col.b, col.a), (1, 2, 3, 4));
    assert_eq!(c.pos, 19);
}

#[test]
fn colorf_and_direction_read_back_their_bytes() {
    let x = ColorF { r: 0.25f32.to_bits(), g: 7, b: u32::MAX, a: 0x01020304 };
    let mut c = ByteCursor::new(x.to_bytes());
    let y = parse_colorf(&mut c).unwrap();
    assert_eq!((y.r, y.g, y.b, y.a), (x.r, x.g, x.b, x.a));
    assert_eq!(c.pos, 16);
    let v = Vector { x: (-2.5f32).to_bits(), y: 1, z: 2, w: 3 };
    let mut c = ByteCursor::new(v.to_bytes());
    let u = parse_direction(&mut c).unwrap();
    assert_eq!((u.x, u.y, u.z, u.w), (v.x, v.y, v.z, v.w));
    assert_eq!(c.pos, 16);
}

#[test]
fn cursor_reads_little_endian_and_fails_at_the_end() {
    let mut c = ByteCursor::new(vec![0x34, 0x12, 0x78, 0x56, 0x34, 0x12, 0xFF]);
    assert_eq!(c.read_u16_le().unwrap(), 0x1234);
    assert_eq!(c.read_u32_le().unwrap(), 0x12345678);
    assert_eq!(c.read_u8().unwrap(), 0xFF);
    assert_eq!(c.read_u8().unwrap_err().kind(), std::io::ErrorKind::UnexpectedEof);
    assert_eq!(c.pos, 7);
}

#[test]
fn magic_reserved_bytes_and_high_nibble_are_ignored() {
    let bytes = sample_icon().to_bytes().unwrap();
    let mut other = bytes.clone();
    other[0..4].copy_from_slice(b"ABCD");
    other[6] |= 0xF0;
    other[7..12].copy_from_slice(&[1, 2, 3, 4, 5]);
    other.truncate(452);
    let a = parse_icon_sys(bytes).unwrap();
    let b = parse_icon_sys(other).unwrap();
    assert_eq!(a.linebreak_pos, b.linebreak_pos);
    assert_eq!(a.title_line1, b.title_line1);
    assert_eq!(a.title_line2, b.title_line2);
    assert_eq!(a.background_transparency, b.background_transparency);
}

#[test]
fn joining_a_split_title_gives_it_back() {
    let t = "Data Save".to_string();
    let (a, b) = split_title(4, t.clone());
    assert_eq!(join_title_lines(a, b), t);
    let (a, b) = split_title(40, t.clone());
    assert_eq!(join_title_lines(a, b), t);
}

#[test]
fn one_byte_short_is_unexpected_eof() {
    let err = parse_icon_sys(vec![0u8; 451]).unwrap_err();
    assert_eq!(err.kind(), std::io::ErrorKind::UnexpectedEof);
    let err = parse_icon_sys_checked(vec![0u8; 451]).unwrap().unwrap_err();
    assert_eq!(err.kind(), std::io::ErrorKind::UnexpectedEof);
}

#[test]
fn sixty_nine_byte_title_is_invalid_input() {
    let mut icon = sample_icon();
    icon.title_line1 = "A".repeat(34);
    icon.title_line2 = "B".repeat(34);
    let err = icon.to_bytes().unwrap_err();
    assert_eq!(err.kind(), std::io::ErrorKind::InvalidInput);
    assert_eq!(err.to_string(), "Title length exceeds 68 bytes");
}
