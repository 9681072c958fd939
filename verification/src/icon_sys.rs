//! The `icon.sys` descriptor of a PlayStation 2 save: the icon's colours and
//! lights, the two-line title shown by the browser, and the icon files.
//!
//! Layout (all numbers little-endian):
//!
//! | offset | size | field                                     |
//! |--------|------|-------------------------------------------|
//! | 0      | 4    | magic `PS2D`                              |
//! | 4      | 2    | flags                                     |
//! | 6      | 1    | line-break position, bits reversed        |
//! | 7      | 5    | reserved, zero                            |
//! | 12     | 4    | background transparency                   |
//! | 16     | 64   | four background colours, four `u32` each  |
//! | 80     | 48   | three light directions, four `f32` each   |
//! | 128    | 48   | three light colours, four `f32` each      |
//! | 176    | 16   | ambient colour, four `f32`                |
//! | 192    | 68   | title, Shift-JIS, NUL-padded              |
//! | 260    | 64   | icon file name, NUL-padded                |
//! | 324    | 64   | copy icon file name, NUL-padded           |
//! | 388    | 64   | delete icon file name, NUL-padded         |
//! | 452    | 512  | reserved, zero (written, never read)      |
//!
//! Floating-point values are carried as their IEEE-754 bit patterns: the
//! format only stores and reloads them.

use crate::bytes::{
    copy_range, io_error_kind, push_bytes, push_u16_le, push_u32_le, push_zero_padded, push_zeros,
    u16_at, u16_le, u32_at, u32_le, zero_padded, zeros, ByteCursor, IoErrorKind,
};
use crate::text::{
    cstring_bytes, decode_sjis, encode_sjis, lemma_cstring_of_utf8, lossy_utf8_text, parse_cstring,
    sjis_bytes, sjis_size_ok, sjis_text, text_before_nul, trim_start, trim_start_text,
};
use vstd::prelude::*;
use vstd::string::StringExecFns;
use vstd::utf8::*;

verus! {

/// A background colour: each channel is stored as a 32-bit number of which
/// only the low byte is kept.
#[derive(Clone, Copy, Debug)]
pub struct Color {
    pub r: u8,
    pub g: u8,
    pub b: u8,
    pub a: u8,
}

/// A light colour: four single-precision floats, held as their IEEE-754 bit
/// patterns (`f32::to_bits`).
#[derive(Clone, Copy, Debug)]
pub struct ColorF {
    pub r: u32,
    pub g: u32,
    pub b: u32,
    pub a: u32,
}

/// A light direction: four single-precision floats, held as their IEEE-754
/// bit patterns (`f32::to_bits`).
#[derive(Clone, Copy, Debug)]
pub struct Vector {
    pub x: u32,
    pub y: u32,
    pub z: u32,
    pub w: u32,
}

/// The contents of an `icon.sys` file.
#[derive(Clone, Debug)]
pub struct IconSys {
    pub flags: u16,
    pub linebreak_pos: u8,
    pub background_transparency: u32,
    pub background_colors: [Color; 4],
    pub light_directions: [Vector; 3],
    pub light_colors: [ColorF; 3],
    pub ambient_color: ColorF,
    pub title_line1: String,
    pub title_line2: String,
    pub icon_file: String,
    pub icon_copy_file: String,
    pub icon_delete_file: String,
}

/// Size of the part of an `icon.sys` file that is read.
pub const ICON_SYS_READ_SIZE: usize = 452;

/// Room for the title, in bytes.
pub const TITLE_SIZE: usize = 68;

/// Room for each icon file name, in bytes.
pub const FILE_NAME_SIZE: usize = 64;

/// Size of the zero block that closes a written `icon.sys` file.
pub const RESERVED_TAIL_SIZE: usize = 512;

/// Four 32-bit numbers, each least significant byte first.
#[verifier::opaque]
pub open spec fn quad_bytes(a: u32, b: u32, c: u32, d: u32) -> Seq<u8> {
    u32_le(a) + u32_le(b) + u32_le(c) + u32_le(d)
}

/// Four numbers take sixteen bytes.
pub broadcast proof fn lemma_quad_bytes_len(a: u32, b: u32, c: u32, d: u32)
    ensures
        #[trigger] quad_bytes(a, b, c, d).len() == 16,
{
    reveal(quad_bytes);
}

pub open spec fn color_bytes(c: Color) -> Seq<u8> {
    quad_bytes(c.r as u32, c.g as u32, c.b as u32, c.a as u32)
}

pub open spec fn colorf_bytes(c: ColorF) -> Seq<u8> {
    quad_bytes(c.r, c.g, c.b, c.a)
}

pub open spec fn vector_bytes(v: Vector) -> Seq<u8> {
    quad_bytes(v.x, v.y, v.z, v.w)
}

/// The background colour stored at `pos`.
pub open spec fn color_at(s: Seq<u8>, pos: int) -> Color {
    Color {
        r: u32_at(s, pos) as u8,
        g: u32_at(s, pos + 4) as u8,
        b: u32_at(s, pos + 8) as u8,
        a: u32_at(s, pos + 12) as u8,
    }
}

/// The light colour stored at `pos`.
pub open spec fn colorf_at(s: Seq<u8>, pos: int) -> ColorF {
    ColorF { r: u32_at(s, pos), g: u32_at(s, pos + 4), b: u32_at(s, pos + 8), a: u32_at(s, pos + 12) }
}

/// The light direction stored at `pos`.
pub open spec fn vector_at(s: Seq<u8>, pos: int) -> Vector {
    Vector { x: u32_at(s, pos), y: u32_at(s, pos + 4), z: u32_at(s, pos + 8), w: u32_at(s, pos + 12) }
}

impl Color {
    /// The sixteen bytes of the colour: each channel as a 32-bit number.
    pub fn to_bytes(&self) -> (bytes: Vec<u8>)
        ensures
            bytes@ == color_bytes(*self),
    {
        let mut bytes: Vec<u8> = Vec::new();
        push_u32_le(&mut bytes, self.r as u32);
        push_u32_le(&mut bytes, self.g as u32);
        push_u32_le(&mut bytes, self.b as u32);
        push_u32_le(&mut bytes, self.a as u32);
        assert(bytes@ =~= color_bytes(*self)) by {
            reveal(quad_bytes);
        }
        bytes
    }
}

impl ColorF {
    /// The sixteen bytes of the colour: each channel's float, little-endian.
    pub fn to_bytes(&self) -> (bytes: Vec<u8>)
        ensures
            bytes@ == colorf_bytes(*self),
    {
        let mut bytes: Vec<u8> = Vec::new();
        push_u32_le(&mut bytes, self.r);
        push_u32_le(&mut bytes, self.g);
        push_u32_le(&mut bytes, self.b);
        push_u32_le(&mut bytes, self.a);
        assert(bytes@ =~= colorf_bytes(*self)) by {
            reveal(quad_bytes);
        }
        bytes
    }
}

impl Vector {
    /// The sixteen bytes of the vector: each component's float, little-endian.
    pub fn to_bytes(&self) -> (bytes: Vec<u8>)
        ensures
            bytes@ == vector_bytes(*self),
    {
        let mut bytes: Vec<u8> = Vec::new();
        push_u32_le(&mut bytes, self.x);
        push_u32_le(&mut bytes, self.y);
        push_u32_le(&mut bytes, self.z);
        push_u32_le(&mut bytes, self.w);
        assert(bytes@ =~= vector_bytes(*self)) by {
            reveal(quad_bytes);
        }
        bytes
    }
}

/// Reads a background colour: four 32-bit numbers, of which the low bytes
/// are kept. It fails, at the end of the bytes, when fewer than sixteen
/// bytes remain.
pub fn parse_color(c: &mut ByteCursor) -> (res: Result<Color, std::io::Error>)
    ensures
        old(c).moved(final(c), 16, res is Ok),
        res matches Err(e) ==> io_error_kind(e) == IoErrorKind::UnexpectedEof,
        res matches Ok(color) ==> color == color_at(old(c).bytes@, old(c).pos as int),
{
    let r = c.read_u32_le()? as u8;
    let g = c.read_u32_le()? as u8;
    let b = c.read_u32_le()? as u8;
    let a = c.read_u32_le()? as u8;
    Ok(Color { r, g, b, a })
}

/// Reads a light colour: four little-endian floats. It fails, at the end
/// of the bytes, when fewer than sixteen bytes remain.
pub fn parse_colorf(c: &mut ByteCursor) -> (res: Result<ColorF, std::io::Error>)
    ensures
        old(c).moved(final(c), 16, res is Ok),
        res matches Err(e) ==> io_error_kind(e) == IoErrorKind::UnexpectedEof,
        res matches Ok(color) ==> color == colorf_at(old(c).bytes@, old(c).pos as int),
{
    let r = c.read_u32_le()?;
    let g = c.read_u32_le()?;
    let b = c.read_u32_le()?;
    let a = c.read_u32_le()?;
    Ok(ColorF { r, g, b, a })
}

/// Reads a light direction: four little-endian floats. It fails, at the end
/// of the bytes, when fewer than sixteen bytes remain.
pub fn parse_direction(c: &mut ByteCursor) -> (res: Result<Vector, std::io::Error>)
    ensures
        old(c).moved(final(c), 16, res is Ok),
        res matches Err(e) ==> io_error_kind(e) == IoErrorKind::UnexpectedEof,
        res matches Ok(v) ==> v == vector_at(old(c).bytes@, old(c).pos as int),
{
    let x = c.read_u32_le()?;
    let y = c.read_u32_le()?;
    let z = c.read_u32_le()?;
    let w = c.read_u32_le()?;
    Ok(Vector { x, y, z, w })
}

/// The nibble of `source` that holds the title's line break, with its four
/// bits in reverse order (bit 0 becomes bit 3, bit 1 becomes bit 2, ...).
/// The four higher bits of `source` play no part.
pub open spec fn linepos_code(source: u8) -> u8 {
    (((source & 1) << 3) | ((source & 2) << 1) | ((source >> 1) & 2) | ((source >> 3) & 1)) as u8
}

/// Converts the line-break byte of an `icon.sys` header into a character
/// position and back: the low nibble is stored least significant bit first.
/// For example a line break at character 5 (`0b0101`) is stored as `0b1010`.
pub fn convert_linepos(source: u8) -> (res: u8)
    ensures
        res == linepos_code(source),
        res < 16,
        forall|i: u8| i < 4 ==> #[trigger] ((res >> i) & 1) == (source >> ((3 - i) as u8)) & 1,
{
    let low_half = source & 0b0000_1111;
    let res = ((low_half & 1) << 3) | ((low_half & 2) << 1) | ((low_half >> 1) & 2) | ((low_half
        >> 3) & 1);
    assert(res == linepos_code(source) && res < 16) by (bit_vector)
        requires
            low_half == source & 0x0f,
            res == ((low_half & 1) << 3) | ((low_half & 2) << 1) | ((low_half >> 1) & 2) | ((
            low_half >> 3) & 1),
    ;
    assert(forall|i: u8| i < 4 ==> #[trigger] ((res >> i) & 1) == (source >> ((3 - i) as u8)) & 1)
        by (bit_vector)
        requires
            res == linepos_code(source),
    ;
    res
}

/// Converting twice gives back the low nibble: the conversion is its own
/// inverse on line-break positions 0 to 15.
pub proof fn lemma_linepos_involution(source: u8)
    ensures
        linepos_code(linepos_code(source)) == source & 0x0f,
        source < 16 ==> linepos_code(linepos_code(source)) == source,
{
    assert(linepos_code(linepos_code(source)) == source & 0x0f) by (bit_vector);
    assert(source < 16 ==> source & 0x0f == source) by (bit_vector);
}

/// Where a line break at byte `pos` falls in `title`: the title is left
/// whole when `pos` is not below its byte length (that length taken modulo
/// 256: it is compared as a byte), else it is cut at that byte and the
/// second line loses its leading white space.
pub open spec fn split_title_text(pos: u8, title: Seq<char>) -> (Seq<char>, Seq<char>) {
    let b = encode_utf8(title);
    if pos >= ((b.len() as usize) as u8) {
        (title, Seq::empty())
    } else {
        (decode_utf8(b.take(pos as int)), trim_start_text(decode_utf8(b.skip(pos as int))))
    }
}

/// The cut that `split_title_text` makes falls between two characters.
pub open spec fn split_title_ok(pos: u8, title: Seq<char>) -> bool {
    let b = encode_utf8(title);
    pos < ((b.len() as usize) as u8) ==> is_char_boundary(b, pos as int)
}

/// Splits a title into its two lines at byte `linebreak_pos`, dropping the
/// white space that starts the second line.
pub fn split_title(linebreak_pos: u8, title: String) -> (lines: (String, String))
    requires
        split_title_ok(linebreak_pos, title@),
    ensures
        (lines.0@, lines.1@) == split_title_text(linebreak_pos, title@),
{
    let len = title.as_str().len();
    if linebreak_pos >= #[verifier::truncate] (len as u8) {
        return (title, String::new());
    }
    let (line1, rest) = title.as_str().split_at(linebreak_pos as usize);
    let line2 = trim_start(rest);
    proof {
        let b = encode_utf8(title@);
        assert(b.take(linebreak_pos as int) =~= b.subrange(0, linebreak_pos as int));
        assert(b.skip(linebreak_pos as int) =~= b.subrange(linebreak_pos as int, b.len() as int));
        encode_utf8_decode_utf8(line1@);
        encode_utf8_decode_utf8(rest@);
    }
    (line1.to_owned(), line2.to_owned())
}

/// The title as one text: the second line, if any, after a space.
pub open spec fn join_title_text(line1: Seq<char>, line2: Seq<char>) -> Seq<char> {
    if line2.len() == 0 {
        line1
    } else {
        line1 + seq![' '] + line2
    }
}

/// Joins the two lines of a title with a space; a missing second line adds
/// nothing.
pub fn join_title_lines(title_line1: String, title_line2: String) -> (title: String)
    ensures
        title@ == join_title_text(title_line1@, title_line2@),
{
    if title_line2.as_str().is_empty() {
        return title_line1;
    }
    let mut title = title_line1;
    title.append(" ");
    title.append(title_line2.as_str());
    proof {
        reveal_strlit(" ");
    }
    title
}

/// The title held in a Shift-JIS field: the decoded text up to its first
/// NUL character.
pub fn parse_sjis_string(c: &[u8]) -> (title: String)
    requires
        sjis_size_ok(c@.len()),
    ensures
        title@ == text_before_nul(sjis_text(c@)),
{
    let decoded = decode_sjis(c);
    let title = parse_cstring(decoded.as_str().as_bytes());
    proof {
        lemma_cstring_of_utf8(decoded@);
    }
    title
}

/// `std::io::Error::new` with `ErrorKind::InvalidInput`: the error for a
/// title that does not fit its field. An error made with a kind reports
/// that kind (documented for `Error::new`); nothing else is stated of it.
#[verifier::external_body]
fn title_too_long_error() -> (e: std::io::Error)
    ensures
        io_error_kind(e) == IoErrorKind::InvalidInput,
{
    std::io::Error::new(std::io::ErrorKind::InvalidInput, "Title length exceeds 68 bytes")
}

/// The title stored in `s`: its Shift-JIS field decoded, up to the first
/// NUL character.
pub open spec fn stored_title(s: Seq<u8>) -> Seq<char> {
    text_before_nul(sjis_text(s.subrange(192, 260)))
}

/// The stored line-break position falls between two characters of the
/// stored title (or at or past its end).
pub open spec fn stored_title_splits(s: Seq<u8>) -> bool {
    split_title_ok(linepos_code(s[6]), stored_title(s))
}

/// The text of a NUL-padded file-name field.
pub open spec fn stored_name(s: Seq<u8>, pos: int) -> Seq<char> {
    lossy_utf8_text(cstring_bytes(s.subrange(pos, pos + 64)))
}

/// `icon` is what the first 452 bytes of `s` hold.
pub open spec fn is_parsed_icon_sys(s: Seq<u8>, icon: IconSys) -> bool {
    let (line1, line2) = split_title_text(linepos_code(s[6]), stored_title(s));
    &&& icon.flags == u16_at(s, 4)
    &&& icon.linebreak_pos == linepos_code(s[6])
    &&& icon.background_transparency == u32_at(s, 12)
    &&& icon.background_colors@ == seq![
        color_at(s, 16),
        color_at(s, 32),
        color_at(s, 48),
        color_at(s, 64),
    ]
    &&& icon.light_directions@ == seq![vector_at(s, 80), vector_at(s, 96), vector_at(s, 112)]
    &&& icon.light_colors@ == seq![colorf_at(s, 128), colorf_at(s, 144), colorf_at(s, 160)]
    &&& icon.ambient_color == colorf_at(s, 176)
    &&& icon.title_line1@ == line1
    &&& icon.title_line2@ == line2
    &&& icon.icon_file@ == stored_name(s, 260)
    &&& icon.icon_copy_file@ == stored_name(s, 324)
    &&& icon.icon_delete_file@ == stored_name(s, 388)
}

/// Reads an `icon.sys` file, field after field. It fails, with an
/// end-of-input error, exactly when the input is shorter than the 452 bytes
/// that are read; the magic and the reserved bytes are read but not
/// checked, and bytes past 452 are ignored.
/// The line break must not fall inside a character of the title (the title
/// would then be cut in the middle of a character).
pub fn parse_icon_sys(bytes: Vec<u8>) -> (res: Result<IconSys, std::io::Error>)
    requires
        bytes@.len() >= ICON_SYS_READ_SIZE ==> stored_title_splits(bytes@),
    ensures
        res is Ok <==> bytes@.len() >= ICON_SYS_READ_SIZE,
        res matches Ok(icon) ==> is_parsed_icon_sys(bytes@, icon),
        res matches Err(e) ==> io_error_kind(e) == IoErrorKind::UnexpectedEof,
{
    let ghost s = bytes@;
    let mut c = ByteCursor::new(bytes);
    let _magic = c.read_exact(4)?;
    let flags = c.read_u16_le()?;
    let linebreak_pos = convert_linepos(c.read_u8()?);
    let _ = c.read_u8();  // reserved, always 0
    let _ = c.read_u32_le();  // reserved, always 0
    let background_transparency = c.read_u32_le()?;
    let color0 = parse_color(&mut c)?;
    let color1 = parse_color(&mut c)?;
    let color2 = parse_color(&mut c)?;
    let color3 = parse_color(&mut c)?;
    let background_colors = [color0, color1, color2, color3];
    let direction0 = parse_direction(&mut c)?;
    let direction1 = parse_direction(&mut c)?;
    let direction2 = parse_direction(&mut c)?;
    let light_directions = [direction0, direction1, direction2];
    let light0 = parse_colorf(&mut c)?;
    let light1 = parse_colorf(&mut c)?;
    let light2 = parse_colorf(&mut c)?;
    let light_colors = [light0, light1, light2];
    let ambient_color = parse_colorf(&mut c)?;
    let title_buf = c.read_exact(TITLE_SIZE)?;
    let icon_file_buf = c.read_exact(FILE_NAME_SIZE)?;
    let icon_copy_file_buf = c.read_exact(FILE_NAME_SIZE)?;
    let icon_delete_file_buf = c.read_exact(FILE_NAME_SIZE)?;
    assert(c.pos == ICON_SYS_READ_SIZE);
    let title = parse_sjis_string(title_buf.as_slice());
    let (title_line1, title_line2) = split_title(linebreak_pos, title);
    let icon = IconSys {
        flags,
        linebreak_pos,
        background_transparency,
        background_colors,
        light_directions,
        light_colors,
        ambient_color,
        title_line1,
        title_line2,
        icon_file: parse_cstring(icon_file_buf.as_slice()),
        icon_copy_file: parse_cstring(icon_copy_file_buf.as_slice()),
        icon_delete_file: parse_cstring(icon_delete_file_buf.as_slice()),
    };
    assert(icon.background_colors@ =~= seq![
        color_at(bytes@, 16),
        color_at(bytes@, 32),
        color_at(bytes@, 48),
        color_at(bytes@, 64),
    ]);
    assert(icon.light_directions@ =~= seq![
        vector_at(bytes@, 80),
        vector_at(bytes@, 96),
        vector_at(bytes@, 112),
    ]);
    assert(icon.light_colors@ =~= seq![
        colorf_at(bytes@, 128),
        colorf_at(bytes@, 144),
        colorf_at(bytes@, 160),
    ]);
    Ok(icon)
}

/// Reads an `icon.sys` file as `parse_icon_sys` does, after testing the one
/// input that it cannot take: `None` when the stored line break falls
/// inside a character of the stored title.
pub fn parse_icon_sys_checked(bytes: Vec<u8>) -> (res: Option<Result<IconSys, std::io::Error>>)
    ensures
        res is None <==> bytes@.len() >= ICON_SYS_READ_SIZE && !stored_title_splits(bytes@),
        res matches Some(r) ==> (r is Ok <==> bytes@.len() >= ICON_SYS_READ_SIZE),
        res matches Some(Ok(icon)) ==> is_parsed_icon_sys(bytes@, icon),
        res matches Some(Err(e)) ==> io_error_kind(e) == IoErrorKind::UnexpectedEof,
{
    if bytes.len() >= ICON_SYS_READ_SIZE {
        let title_buf = copy_range(bytes.as_slice(), 192, TITLE_SIZE);
        let title = parse_sjis_string(title_buf.as_slice());
        let pos = convert_linepos(bytes[6]);
        let len = title.as_str().len();
        if pos < #[verifier::truncate] (len as u8) && !title.as_str().is_char_boundary(pos as usize) {
            return None;
        }
    }
    Some(parse_icon_sys(bytes))
}

/// The Shift-JIS bytes of the joined title.
pub open spec fn title_bytes(icon: IconSys) -> Seq<u8> {
    sjis_bytes(join_title_text(icon.title_line1@, icon.title_line2@))
}

/// The joined title is short enough for `encoding_rs` to size its buffers.
pub open spec fn title_encodable(icon: IconSys) -> bool {
    sjis_size_ok(encode_utf8(join_title_text(icon.title_line1@, icon.title_line2@)).len())
}

/// The sixteen header bytes of `icon`: magic, flags, line break, reserved
/// zeros, background transparency.
pub open spec fn header_bytes(icon: IconSys) -> Seq<u8> {
    seq![0x50u8, 0x53u8, 0x32u8, 0x44u8] + u16_le(icon.flags) + seq![
        linepos_code(icon.linebreak_pos),
        0u8,
    ] + zeros(4) + u32_le(icon.background_transparency)
}

/// The colour and light block of `icon`, 176 bytes.
pub open spec fn palette_bytes(icon: IconSys) -> Seq<u8> {
    color_bytes(icon.background_colors@[0]) + color_bytes(icon.background_colors@[1])
        + color_bytes(icon.background_colors@[2]) + color_bytes(icon.background_colors@[3])
        + vector_bytes(icon.light_directions@[0]) + vector_bytes(icon.light_directions@[1])
        + vector_bytes(icon.light_directions@[2]) + colorf_bytes(icon.light_colors@[0])
        + colorf_bytes(icon.light_colors@[1]) + colorf_bytes(icon.light_colors@[2]) + colorf_bytes(
        icon.ambient_color,
    )
}

/// The three file-name fields of `icon`.
pub open spec fn names_bytes(icon: IconSys) -> Seq<u8> {
    zero_padded(encode_utf8(icon.icon_file@), 64) + zero_padded(
        encode_utf8(icon.icon_copy_file@),
        64,
    ) + zero_padded(encode_utf8(icon.icon_delete_file@), 64)
}

/// The bytes of `icon` as a file, with `title` as the title field's text.
pub open spec fn icon_sys_image(icon: IconSys, title: Seq<u8>) -> Seq<u8> {
    header_bytes(icon) + palette_bytes(icon) + zero_padded(title, 68) + names_bytes(icon) + zeros(
        512,
    )
}

impl IconSys {
    fn push_header(&self, bytes: &mut Vec<u8>)
        ensures
            final(bytes)@ == old(bytes)@ + header_bytes(*self),
    {
        bytes.push(0x50u8);
        bytes.push(0x53u8);
        bytes.push(0x32u8);
        bytes.push(0x44u8);
        push_u16_le(bytes, self.flags);
        bytes.push(convert_linepos(self.linebreak_pos));
        bytes.push(0u8);
        push_u32_le(bytes, 0u32);
        push_u32_le(bytes, self.background_transparency);
        assert(u32_le(0u32) =~= zeros(4));
        assert(bytes@ =~= old(bytes)@ + header_bytes(*self));
    }

    fn push_palette(&self, bytes: &mut Vec<u8>)
        ensures
            final(bytes)@ == old(bytes)@ + palette_bytes(*self),
    {
        push_bytes(bytes, self.background_colors[0].to_bytes().as_slice());
        push_bytes(bytes, self.background_colors[1].to_bytes().as_slice());
        push_bytes(bytes, self.background_colors[2].to_bytes().as_slice());
        push_bytes(bytes, self.background_colors[3].to_bytes().as_slice());
        push_bytes(bytes, self.light_directions[0].to_bytes().as_slice());
        push_bytes(bytes, self.light_directions[1].to_bytes().as_slice());
        push_bytes(bytes, self.light_directions[2].to_bytes().as_slice());
        push_bytes(bytes, self.light_colors[0].to_bytes().as_slice());
        push_bytes(bytes, self.light_colors[1].to_bytes().as_slice());
        push_bytes(bytes, self.light_colors[2].to_bytes().as_slice());
        push_bytes(bytes, self.ambient_color.to_bytes().as_slice());
        assert(bytes@ =~= old(bytes)@ + palette_bytes(*self));
    }

    fn push_names(&self, bytes: &mut Vec<u8>)
        ensures
            final(bytes)@ == old(bytes)@ + names_bytes(*self),
    {
        push_zero_padded(bytes, self.icon_file.as_str().as_bytes(), FILE_NAME_SIZE);
        push_zero_padded(bytes, self.icon_copy_file.as_str().as_bytes(), FILE_NAME_SIZE);
        push_zero_padded(bytes, self.icon_delete_file.as_str().as_bytes(), FILE_NAME_SIZE);
        assert(bytes@ =~= old(bytes)@ + names_bytes(*self));
    }
}

impl IconSys {
    /// Reads an `icon.sys` file, which must hold at least the 452 bytes that
    /// are read and a line break that does not fall inside a character of
    /// the title.
    pub fn new(bytes: Vec<u8>) -> (icon: Self)
        requires
            bytes@.len() >= ICON_SYS_READ_SIZE,
            stored_title_splits(bytes@),
        ensures
            is_parsed_icon_sys(bytes@, icon),
    {
        parse_icon_sys(bytes).unwrap()
    }

    /// Writes the `icon.sys` file. The title is joined and written in
    /// Shift-JIS; it fails, with an invalid-input error, exactly when that
    /// takes more than 68 bytes. File names longer than their 64-byte fields
    /// are written whole, shifting what follows.
    pub fn to_bytes(&self) -> (res: Result<Vec<u8>, std::io::Error>)
        requires
            title_encodable(*self),
        ensures
            res is Ok <==> title_bytes(*self).len() <= TITLE_SIZE,
            res matches Ok(bytes) ==> bytes@ == icon_sys_image(*self, title_bytes(*self)),
            res matches Err(e) ==> io_error_kind(e) == IoErrorKind::InvalidInput,
    {
        let mut bytes: Vec<u8> = Vec::new();
        self.push_header(&mut bytes);
        self.push_palette(&mut bytes);
        let title = join_title_lines(self.title_line1.clone(), self.title_line2.clone());
        let title_bytes = encode_sjis(title.as_str());
        if title_bytes.len() > TITLE_SIZE {
            return Err(title_too_long_error());
        }
        push_zero_padded(&mut bytes, title_bytes.as_slice(), TITLE_SIZE);
        self.push_names(&mut bytes);
        push_zeros(&mut bytes, RESERVED_TAIL_SIZE);
        assert(bytes@ =~= icon_sys_image(*self, title_bytes@));
        Ok(bytes)
    }
}

} // verus!
