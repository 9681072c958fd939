//! Laws of the formats: what reading gives back of what writing wrote.

use crate::bytes::{
    lemma_u16_le_roundtrip, lemma_u32_le_roundtrip, u16_at, u16_le, u32_at, u32_le, zero_padded,
    zeros,
};
use crate::icon_sys::{
    color_at, color_bytes, colorf_at, colorf_bytes, header_bytes, icon_sys_image,
    is_parsed_icon_sys, join_title_text, lemma_linepos_involution, linepos_code, names_bytes,
    palette_bytes, quad_bytes, split_title_ok, split_title_text,
    stored_title_splits, title_bytes, vector_at, vector_bytes, lemma_quad_bytes_len, Color,
    ColorF, IconSys, Vector,
};
use crate::psu::{datetime_text, kind_text, listing_heading, listing_row, listing_text, PSUEntry};
use crate::packer::{
    converted, converts, file_time, file_time_converts, offset_datetime, parsed_datetime,
    timestamp_text, utc_datetime, zero_filled, ConfigDate, ConfigTime, ConfigTimestamp,
};
use chrono::{FixedOffset, NaiveDateTime};
use crate::text::{
    decimal_text, digit_char, is_digits, left_aligned, numeral_value, right_aligned,
    ascii_bytes, ascii_text, cstring_bytes, is_ascii_bytes, is_white_space, leading_white_space,
    lemma_text_end_unique, lemma_utf8_text_end, sjis_text, text_before_nul,
    lossy_utf8_text, is_text_end,
};
use vstd::prelude::*;
use vstd::utf8::*;

verus! {

broadcast use lemma_quad_bytes_len;

/// No character of `s` is NUL.
pub open spec fn has_no_nul(s: Seq<char>) -> bool {
    forall|i: int| 0 <= i < s.len() ==> #[trigger] s[i] != '\0'
}

/// Sixteen bytes at `pos` that are `quad_bytes(a, b, c, d)` read back as
/// those four numbers.
proof fn lemma_quad_at(s: Seq<u8>, pos: int, a: u32, b: u32, c: u32, d: u32)
    requires
        0 <= pos,
        pos + 16 <= s.len(),
        s.subrange(pos, pos + 16) == quad_bytes(a, b, c, d),
    ensures
        u32_at(s, pos) == a,
        u32_at(s, pos + 4) == b,
        u32_at(s, pos + 8) == c,
        u32_at(s, pos + 12) == d,
{
    lemma_u32_le_roundtrip(a);
    lemma_u32_le_roundtrip(b);
    lemma_u32_le_roundtrip(c);
    lemma_u32_le_roundtrip(d);
    reveal(quad_bytes);
    let q = quad_bytes(a, b, c, d);
    assert forall|k: int| 0 <= k < 16 implies s[pos + k] == q[k] by {
        assert(s.subrange(pos, pos + 16)[k] == s[pos + k]);
    }
    assert(q[0] == u32_le(a)[0] && q[1] == u32_le(a)[1] && q[2] == u32_le(a)[2] && q[3] == u32_le(
        a,
    )[3]);
    assert(q[4] == u32_le(b)[0] && q[5] == u32_le(b)[1] && q[6] == u32_le(b)[2] && q[7] == u32_le(
        b,
    )[3]);
    assert(q[8] == u32_le(c)[0] && q[9] == u32_le(c)[1] && q[10] == u32_le(c)[2] && q[11]
        == u32_le(c)[3]);
    assert(q[12] == u32_le(d)[0] && q[13] == u32_le(d)[1] && q[14] == u32_le(d)[2] && q[15]
        == u32_le(d)[3]);
}

/// A text without NUL is kept whole by `text_before_nul`.
proof fn lemma_text_before_nul_whole(s: Seq<char>)
    requires
        has_no_nul(s),
    ensures
        text_before_nul(s) == s,
    decreases s.len(),
{
    if s.len() > 0 {
        assert(s[0] != '\0');
        lemma_text_before_nul_whole(s.drop_first());
        assert(s =~= seq![s[0]] + s.drop_first());
    }
}

/// A text without NUL, followed by a NUL (or nothing), is cut right there.
proof fn lemma_text_before_nul_prefix(x: Seq<char>, y: Seq<char>)
    requires
        has_no_nul(x),
        y.len() == 0 || y[0] == '\0',
    ensures
        text_before_nul(x + y) == x,
    decreases x.len(),
{
    if x.len() == 0 {
        assert(x + y =~= y);
    } else {
        assert((x + y)[0] == x[0]);
        assert((x + y).drop_first() =~= x.drop_first() + y);
        lemma_text_before_nul_prefix(x.drop_first(), y);
        assert(x =~= seq![x[0]] + x.drop_first());
    }
}

/// A file name without NUL that fits its 64-byte field reads back whole.
proof fn lemma_name_field(name: Seq<char>)
    requires
        encode_utf8(name).len() <= 64,
        has_no_nul(name),
    ensures
        lossy_utf8_text(cstring_bytes(zero_padded(encode_utf8(name), 64))) == name,
        valid_utf8(cstring_bytes(zero_padded(encode_utf8(name), 64))),
{
    let e = encode_utf8(name);
    let f = zero_padded(e, 64);
    lemma_text_before_nul_whole(name);
    lemma_utf8_text_end(name);
    assert(is_text_end(f, e.len() as int)) by {
        if e.len() < 64 {
            assert(f[e.len() as int] == 0);
        }
        assert forall|i: int| 0 <= i < e.len() implies #[trigger] f[i] != 0 by {
            assert(f[i] == e[i]);
        }
    }
    lemma_text_end_unique(f, e.len() as int);
    assert(cstring_bytes(f) =~= e);
    encode_utf8_valid_utf8(name);
    encode_utf8_decode_utf8(name);
}

/// ASCII text is its own bytes, in UTF-8 as in Shift-JIS, and reads back.
proof fn lemma_ascii_text_bytes(x: Seq<char>)
    requires
        is_ascii_chars(x),
    ensures
        encode_utf8(x) == ascii_bytes(x),
        is_ascii_bytes(ascii_bytes(x)),
        ascii_text(ascii_bytes(x)) == x,
{
    is_ascii_chars_encode_utf8(x);
    assert forall|i: int| 0 <= i < x.len() implies #[trigger] ascii_bytes(x)[i] < 0x80 by {
        assert('\0' <= x[i] <= '\u{7f}');
    }
    assert forall|i: int| 0 <= i < x.len() implies #[trigger] ascii_text(ascii_bytes(x))[i]
        == x[i] by {
        let c = x[i];
        assert('\0' <= c <= '\u{7f}');
        assert(((c as u8) as char) == c);
    }
    assert(encode_utf8(x) =~= ascii_bytes(x));
    assert(ascii_text(ascii_bytes(x)) =~= x);
}

/// An `icon.sys` descriptor that the file format holds exactly: a line
/// break that fits the header's nibble and matches the title, an ASCII
/// title without NUL that fits its field (the Shift-JIS conversion of other
/// text is not stated here), and file names without NUL that fit theirs.
pub open spec fn is_storable_icon_sys(icon: IconSys) -> bool {
    let l1 = icon.title_line1@;
    let l2 = icon.title_line2@;
    &&& icon.linebreak_pos < 16
    &&& is_ascii_chars(l1)
    &&& is_ascii_chars(l2)
    &&& has_no_nul(l1)
    &&& has_no_nul(l2)
    &&& join_title_text(l1, l2).len() <= 68
    &&& if l2.len() == 0 {
        icon.linebreak_pos >= l1.len()
    } else {
        icon.linebreak_pos == l1.len() && !is_white_space(l2[0])
    }
    &&& encode_utf8(icon.icon_file@).len() <= 64
    &&& encode_utf8(icon.icon_copy_file@).len() <= 64
    &&& encode_utf8(icon.icon_delete_file@).len() <= 64
    &&& has_no_nul(icon.icon_file@)
    &&& has_no_nul(icon.icon_copy_file@)
    &&& has_no_nul(icon.icon_delete_file@)
}

/// The title field that a storable descriptor is written with reads back
/// as its joined title, and the line break splits it into its two lines.
proof fn lemma_title_field(icon: IconSys)
    requires
        is_storable_icon_sys(icon),
    ensures
        title_bytes(icon).len() <= 68,
        text_before_nul(sjis_text(zero_padded(title_bytes(icon), 68))) == join_title_text(
            icon.title_line1@,
            icon.title_line2@,
        ),
        split_title_ok(icon.linebreak_pos, join_title_text(icon.title_line1@, icon.title_line2@)),
        split_title_text(icon.linebreak_pos, join_title_text(icon.title_line1@, icon.title_line2@))
            == (icon.title_line1@, icon.title_line2@),
{
    let l1 = icon.title_line1@;
    let l2 = icon.title_line2@;
    let p = icon.linebreak_pos;
    let j = join_title_text(l1, l2);
    let sp = seq![' '] + l2;
    assert(is_ascii_chars(sp) && has_no_nul(sp)) by {
        assert forall|i: int| 0 <= i < sp.len() implies '\0' <= #[trigger] sp[i] <= '\u{7f}'
            && sp[i] != '\0' by {
            if i > 0 {
                assert(sp[i] == l2[i - 1]);
            }
        }
    }
    assert(is_ascii_chars(j) && has_no_nul(j)) by {
        if l2.len() != 0 {
            assert(j =~= l1 + sp);
            assert forall|i: int| 0 <= i < j.len() implies '\0' <= #[trigger] j[i] <= '\u{7f}'
                && j[i] != '\0' by {
                if i >= l1.len() {
                    assert(j[i] == sp[i - l1.len()]);
                }
            }
        }
    }
    lemma_ascii_text_bytes(j);
    let t = title_bytes(icon);
    assert(t == ascii_bytes(j));
    let f = zero_padded(t, 68);
    let pad = zeros((68 - t.len()) as nat);
    assert(f =~= t + pad);
    assert(is_ascii_bytes(f)) by {
        assert forall|i: int| 0 <= i < f.len() implies #[trigger] f[i] < 0x80 by {
            if i < t.len() {
                assert(f[i] == t[i]);
            }
        }
    }
    assert(ascii_text(f) =~= j + ascii_text(pad));
    assert(ascii_text(pad).len() == 0 || ascii_text(pad)[0] == '\0');
    lemma_text_before_nul_prefix(j, ascii_text(pad));
    let b = encode_utf8(j);
    assert(b.len() == j.len());
    encode_utf8_valid_utf8(j);
    if p < ((b.len() as usize) as u8) {
        assert(l2.len() != 0);
        assert(b[p as int] < 0x80);
        is_char_boundary_iff_not_is_continuation_byte(b, p as int);
        assert(j =~= l1 + sp);
        lemma_ascii_text_bytes(l1);
        lemma_ascii_text_bytes(sp);
        assert(b.take(p as int) =~= encode_utf8(l1));
        assert(b.skip(p as int) =~= encode_utf8(sp));
        encode_utf8_decode_utf8(l1);
        encode_utf8_decode_utf8(sp);
        assert(sp.drop_first() =~= l2);
        assert(leading_white_space(l2) == 0);
        assert(is_white_space(sp[0]));
        assert(leading_white_space(sp) == 1);
        assert(sp.skip(1) =~= l2);
    }
}

/// Two descriptors agree field by field, texts by their characters.
pub open spec fn same_icon_sys(a: IconSys, b: IconSys) -> bool {
    &&& a.flags == b.flags
    &&& a.linebreak_pos == b.linebreak_pos
    &&& a.background_transparency == b.background_transparency
    &&& a.background_colors@ == b.background_colors@
    &&& a.light_directions@ == b.light_directions@
    &&& a.light_colors@ == b.light_colors@
    &&& a.ambient_color == b.ambient_color
    &&& a.title_line1@ == b.title_line1@
    &&& a.title_line2@ == b.title_line2@
    &&& a.icon_file@ == b.icon_file@
    &&& a.icon_copy_file@ == b.icon_copy_file@
    &&& a.icon_delete_file@ == b.icon_delete_file@
}

/// A storable descriptor is written without error as a 964-byte file that
/// can be read back: its title fits, and its line break falls between two
/// characters of the title that is read.
pub proof fn lemma_icon_sys_writes_readably(icon: IconSys)
    requires
        is_storable_icon_sys(icon),
    ensures
        title_bytes(icon).len() <= 68,
        icon_sys_image(icon, title_bytes(icon)).len() == 964,
        stored_title_splits(icon_sys_image(icon, title_bytes(icon))),
{
    lemma_title_field(icon);
    lemma_image_layout(icon);
    let s = icon_sys_image(icon, title_bytes(icon));
    lemma_header(icon, s);
    lemma_linepos_involution(icon.linebreak_pos);
}

/// Where the parts of a descriptor's file lie, when its title and names fit
/// their fields: the file is then 964 bytes long.
#[verifier::rlimit(60)]
pub proof fn lemma_image_layout(icon: IconSys)
    requires
        title_bytes(icon).len() <= 68,
        encode_utf8(icon.icon_file@).len() <= 64,
        encode_utf8(icon.icon_copy_file@).len() <= 64,
        encode_utf8(icon.icon_delete_file@).len() <= 64,
    ensures
        ({
            let s = icon_sys_image(icon, title_bytes(icon));
            &&& s.len() == 964
            &&& s.subrange(0, 16) == header_bytes(icon)
            &&& s.subrange(16, 192) == palette_bytes(icon)
            &&& s.subrange(192, 260) == zero_padded(title_bytes(icon), 68)
            &&& s.subrange(260, 324) == zero_padded(encode_utf8(icon.icon_file@), 64)
            &&& s.subrange(324, 388) == zero_padded(encode_utf8(icon.icon_copy_file@), 64)
            &&& s.subrange(388, 452) == zero_padded(encode_utf8(icon.icon_delete_file@), 64)
        }),
{
    let s = icon_sys_image(icon, title_bytes(icon));
    let h = header_bytes(icon);
    let pal = palette_bytes(icon);
    let t = zero_padded(title_bytes(icon), 68);
    let n1 = zero_padded(encode_utf8(icon.icon_file@), 64);
    let n2 = zero_padded(encode_utf8(icon.icon_copy_file@), 64);
    let n3 = zero_padded(encode_utf8(icon.icon_delete_file@), 64);
    let rest = n1 + n2 + n3 + zeros(512);
    assert(h.len() == 16);
    lemma_palette_len(icon);
    assert(t.len() == 68);
    assert(n1.len() == 64 && n2.len() == 64 && n3.len() == 64);
    assert(s =~= h + pal + t + rest) by {
        assert(names_bytes(icon) =~= n1 + n2 + n3);
    }
    assert(s.subrange(0, 16) =~= h);
    assert(s.subrange(16, 192) =~= pal);
    assert(s.subrange(192, 260) =~= t);
    assert(s.subrange(260, 324) =~= n1);
    assert(s.subrange(324, 388) =~= n2);
    assert(s.subrange(388, 452) =~= n3);
}

/// The header that a descriptor is written with reads back as its flags,
/// line break and transparency.
proof fn lemma_header(icon: IconSys, s: Seq<u8>)
    requires
        s.len() == 964,
        s.subrange(0, 16) == header_bytes(icon),
    ensures
        u16_at(s, 4) == icon.flags,
        s[6] == linepos_code(icon.linebreak_pos),
        u32_at(s, 12) == icon.background_transparency,
{
    let h = header_bytes(icon);
    assert(h[4] == u16_le(icon.flags)[0] && h[5] == u16_le(icon.flags)[1]);
    assert(h[6] == linepos_code(icon.linebreak_pos));
    let u = u32_le(icon.background_transparency);
    assert(h[12] == u[0] && h[13] == u[1] && h[14] == u[2] && h[15] == u[3]);
    assert(s[4] == h[4] && s[5] == h[5] && s[6] == h[6]);
    assert(s[12] == h[12] && s[13] == h[13] && s[14] == h[14] && s[15] == h[15]);
    lemma_u16_le_roundtrip(icon.flags);
    lemma_u32_le_roundtrip(icon.background_transparency);
}

/// Reading the file that writing a storable descriptor gives yields the
/// same descriptor.
pub proof fn lemma_icon_sys_roundtrip(icon: IconSys, read: IconSys)
    requires
        is_storable_icon_sys(icon),
        is_parsed_icon_sys(icon_sys_image(icon, title_bytes(icon)), read),
    ensures
        same_icon_sys(icon, read),
{
    let s = icon_sys_image(icon, title_bytes(icon));
    lemma_title_field(icon);
    lemma_image_layout(icon);
    lemma_header(icon, s);
    lemma_linepos_involution(icon.linebreak_pos);
    lemma_palette(icon, s);
    lemma_name_field(icon.icon_file@);
    lemma_name_field(icon.icon_copy_file@);
    lemma_name_field(icon.icon_delete_file@);
}

/// The colour and light block takes 176 bytes.
proof fn lemma_palette_len(icon: IconSys)
    ensures
        palette_bytes(icon).len() == 176,
{
    let c = icon.background_colors@;
    let d = icon.light_directions@;
    let l = icon.light_colors@;
    let a = icon.ambient_color;
    lemma_quad_bytes_len(c[0].r as u32, c[0].g as u32, c[0].b as u32, c[0].a as u32);
    lemma_quad_bytes_len(c[1].r as u32, c[1].g as u32, c[1].b as u32, c[1].a as u32);
    lemma_quad_bytes_len(c[2].r as u32, c[2].g as u32, c[2].b as u32, c[2].a as u32);
    lemma_quad_bytes_len(c[3].r as u32, c[3].g as u32, c[3].b as u32, c[3].a as u32);
    lemma_quad_bytes_len(d[0].x, d[0].y, d[0].z, d[0].w);
    lemma_quad_bytes_len(d[1].x, d[1].y, d[1].z, d[1].w);
    lemma_quad_bytes_len(d[2].x, d[2].y, d[2].z, d[2].w);
    lemma_quad_bytes_len(l[0].r, l[0].g, l[0].b, l[0].a);
    lemma_quad_bytes_len(l[1].r, l[1].g, l[1].b, l[1].a);
    lemma_quad_bytes_len(l[2].r, l[2].g, l[2].b, l[2].a);
    lemma_quad_bytes_len(a.r, a.g, a.b, a.a);
}

/// The colours and lights of a storable descriptor read back from its file.
proof fn lemma_palette(icon: IconSys, s: Seq<u8>)
    requires
        s.len() == 964,
        s.subrange(16, 192) == palette_bytes(icon),
    ensures
        icon.background_colors@ == seq![
            color_at(s, 16),
            color_at(s, 32),
            color_at(s, 48),
            color_at(s, 64),
        ],
        icon.light_directions@ == seq![vector_at(s, 80), vector_at(s, 96), vector_at(s, 112)],
        icon.light_colors@ == seq![colorf_at(s, 128), colorf_at(s, 144), colorf_at(s, 160)],
        icon.ambient_color == colorf_at(s, 176),
{
    let c = icon.background_colors@;
    let d = icon.light_directions@;
    let l = icon.light_colors@;
    let a = icon.ambient_color;
    lemma_palette_len(icon);
    let pal = palette_bytes(icon);
    assert(pal.subrange(0, 16) =~= color_bytes(c[0]));
    assert(pal.subrange(16, 32) =~= color_bytes(c[1]));
    assert(pal.subrange(32, 48) =~= color_bytes(c[2]));
    assert(pal.subrange(48, 64) =~= color_bytes(c[3]));
    assert(pal.subrange(64, 80) =~= vector_bytes(d[0]));
    assert(pal.subrange(80, 96) =~= vector_bytes(d[1]));
    assert(pal.subrange(96, 112) =~= vector_bytes(d[2]));
    assert(pal.subrange(112, 128) =~= colorf_bytes(l[0]));
    assert(pal.subrange(128, 144) =~= colorf_bytes(l[1]));
    assert(pal.subrange(144, 160) =~= colorf_bytes(l[2]));
    assert(pal.subrange(160, 176) =~= colorf_bytes(a));
    assert(s.subrange(16, 32) =~= s.subrange(16, 192).subrange(0, 16));
    assert(s.subrange(32, 48) =~= s.subrange(16, 192).subrange(16, 32));
    assert(s.subrange(48, 64) =~= s.subrange(16, 192).subrange(32, 48));
    assert(s.subrange(64, 80) =~= s.subrange(16, 192).subrange(48, 64));
    assert(s.subrange(80, 96) =~= s.subrange(16, 192).subrange(64, 80));
    assert(s.subrange(96, 112) =~= s.subrange(16, 192).subrange(80, 96));
    assert(s.subrange(112, 128) =~= s.subrange(16, 192).subrange(96, 112));
    assert(s.subrange(128, 144) =~= s.subrange(16, 192).subrange(112, 128));
    assert(s.subrange(144, 160) =~= s.subrange(16, 192).subrange(128, 144));
    assert(s.subrange(160, 176) =~= s.subrange(16, 192).subrange(144, 160));
    assert(s.subrange(176, 192) =~= s.subrange(16, 192).subrange(160, 176));
    lemma_quad_at(s, 16, c[0].r as u32, c[0].g as u32, c[0].b as u32, c[0].a as u32);
    lemma_quad_at(s, 32, c[1].r as u32, c[1].g as u32, c[1].b as u32, c[1].a as u32);
    lemma_quad_at(s, 48, c[2].r as u32, c[2].g as u32, c[2].b as u32, c[2].a as u32);
    lemma_quad_at(s, 64, c[3].r as u32, c[3].g as u32, c[3].b as u32, c[3].a as u32);
    lemma_quad_at(s, 80, d[0].x, d[0].y, d[0].z, d[0].w);
    lemma_quad_at(s, 96, d[1].x, d[1].y, d[1].z, d[1].w);
    lemma_quad_at(s, 112, d[2].x, d[2].y, d[2].z, d[2].w);
    lemma_quad_at(s, 128, l[0].r, l[0].g, l[0].b, l[0].a);
    lemma_quad_at(s, 144, l[1].r, l[1].g, l[1].b, l[1].a);
    lemma_quad_at(s, 160, l[2].r, l[2].g, l[2].b, l[2].a);
    lemma_quad_at(s, 176, a.r, a.g, a.b, a.a);
    assert(icon.background_colors@ =~= seq![
        color_at(s, 16),
        color_at(s, 32),
        color_at(s, 48),
        color_at(s, 64),
    ]);
    assert(icon.light_directions@ =~= seq![vector_at(s, 80), vector_at(s, 96), vector_at(s, 112)]);
    assert(icon.light_colors@ =~= seq![colorf_at(s, 128), colorf_at(s, 144), colorf_at(s, 160)]);
}

/// The UTF-8 encoding of two texts one after the other is their encodings
/// one after the other.
pub proof fn lemma_encode_utf8_concat(a: Seq<char>, b: Seq<char>)
    ensures
        encode_utf8(a + b) == encode_utf8(a) + encode_utf8(b),
    decreases a.len(),
{
    if a.len() == 0 {
        assert(a + b =~= b);
        assert(encode_utf8(a) + encode_utf8(b) =~= encode_utf8(b));
    } else {
        assert((a + b)[0] == a[0]);
        assert((a + b).drop_first() =~= a.drop_first() + b);
        lemma_encode_utf8_concat(a.drop_first(), b);
        assert(encode_utf8(a + b) =~= encode_utf8(a) + encode_utf8(b));
    }
}

/// Splitting a joined title where its first line ends gives back the two
/// lines, provided the second line does not start with white space and the
/// title is shorter than 256 bytes (the length is compared as a byte).
pub proof fn lemma_split_join(line1: Seq<char>, line2: Seq<char>)
    requires
        line2.len() == 0 || !is_white_space(line2[0]),
        encode_utf8(join_title_text(line1, line2)).len() < 256,
    ensures
        split_title_ok(
            encode_utf8(line1).len() as u8,
            join_title_text(line1, line2),
        ),
        split_title_text(encode_utf8(line1).len() as u8, join_title_text(line1, line2)) == (
            line1,
            line2,
        ),
{
    let j = join_title_text(line1, line2);
    let b = encode_utf8(j);
    let e1 = encode_utf8(line1);
    if line2.len() != 0 {
        let sp = seq![' '] + line2;
        assert(j =~= line1 + sp);
        lemma_encode_utf8_concat(line1, sp);
        lemma_encode_utf8_concat(seq![' '], line2);
        assert((0x20u32 & 0x7F) as u8 == 0x20) by (bit_vector);
        assert(seq![' '].drop_first() =~= Seq::<char>::empty());
        assert((' ' as u32) == 0x20);
        assert(seq![' '][0] == ' ');
        assert(encode_scalar(0x20u32) =~= seq![0x20u8]);
        let one = seq![' '];
        assert(encode_utf8(one) == encode_scalar(one[0] as u32) + encode_utf8(one.drop_first()));
        assert(encode_utf8(one.drop_first()) =~= Seq::<u8>::empty());
        assert(encode_utf8(seq![' ']) =~= seq![0x20u8]);
        let p = e1.len();
        assert(b[p as int] == 0x20);
        encode_utf8_valid_utf8(j);
        is_char_boundary_iff_not_is_continuation_byte(b, p as int);
        assert(b.take(p as int) =~= e1);
        assert(b.skip(p as int) =~= encode_utf8(sp));
        encode_utf8_decode_utf8(line1);
        encode_utf8_decode_utf8(sp);
        assert(sp.drop_first() =~= line2);
        assert(leading_white_space(line2) == 0);
        assert(is_white_space(sp[0]));
        assert(leading_white_space(sp) == 1);
        assert(sp.skip(1) =~= line2);
    }
}

/// Reading looks only at the flags, the low nibble of the line-break byte
/// and bytes 12 to 451: files that agree there read the same, whatever
/// their magic, their reserved bytes 7 to 11, the high nibble of byte 6 and
/// the bytes past 452.
pub proof fn lemma_parse_reads_fields(s1: Seq<u8>, s2: Seq<u8>, icon: IconSys)
    requires
        s1.len() >= 452,
        s2.len() >= 452,
        s1[4] == s2[4],
        s1[5] == s2[5],
        s1[6] & 0x0f == s2[6] & 0x0f,
        forall|i: int| 12 <= i < 452 ==> #[trigger] s1[i] == s2[i],
    ensures
        stored_title_splits(s1) == stored_title_splits(s2),
        is_parsed_icon_sys(s1, icon) == is_parsed_icon_sys(s2, icon),
{
    let (x, y) = (s1[6], s2[6]);
    assert(linepos_code(x) == linepos_code(y)) by (bit_vector)
        requires
            x & 0x0f == y & 0x0f,
    ;
    assert(s1.subrange(192, 260) =~= s2.subrange(192, 260));
    assert(s1.subrange(260, 324) =~= s2.subrange(260, 324));
    assert(s1.subrange(324, 388) =~= s2.subrange(324, 388));
    assert(s1.subrange(388, 452) =~= s2.subrange(388, 452));
    assert(u16_at(s1, 4) == u16_at(s2, 4));
    assert(u32_at(s1, 12) == u32_at(s2, 12));
    assert forall|p: int| 16 <= p <= 176 implies #[trigger] u32_at(s1, p) == u32_at(s2, p)
        && u32_at(s1, p + 4) == u32_at(s2, p + 4) && u32_at(s1, p + 8) == u32_at(s2, p + 8)
        && u32_at(s1, p + 12) == u32_at(s2, p + 12) by {
        assert(s1[p] == s2[p] && s1[p + 1] == s2[p + 1] && s1[p + 2] == s2[p + 2] && s1[p + 3]
            == s2[p + 3]);
        assert(s1[p + 4] == s2[p + 4] && s1[p + 5] == s2[p + 5] && s1[p + 6] == s2[p + 6]
            && s1[p + 7] == s2[p + 7]);
        assert(s1[p + 8] == s2[p + 8] && s1[p + 9] == s2[p + 9] && s1[p + 10] == s2[p + 10]
            && s1[p + 11] == s2[p + 11]);
        assert(s1[p + 12] == s2[p + 12] && s1[p + 13] == s2[p + 13] && s1[p + 14] == s2[p + 14]
            && s1[p + 15] == s2[p + 15]);
    }
    assert(u32_at(s1, 12) == u32_at(s2, 12)) by {
        assert(s1[12] == s2[12] && s1[13] == s2[13] && s1[14] == s2[14] && s1[15] == s2[15]);
    }
    assert(color_at(s1, 16) == color_at(s2, 16) && color_at(s1, 32) == color_at(s2, 32) && color_at(
        s1,
        48,
    ) == color_at(s2, 48) && color_at(s1, 64) == color_at(s2, 64));
    assert(vector_at(s1, 80) == vector_at(s2, 80) && vector_at(s1, 96) == vector_at(s2, 96)
        && vector_at(s1, 112) == vector_at(s2, 112));
    assert(colorf_at(s1, 128) == colorf_at(s2, 128) && colorf_at(s1, 144) == colorf_at(s2, 144)
        && colorf_at(s1, 160) == colorf_at(s2, 160) && colorf_at(s1, 176) == colorf_at(s2, 176));
}

/// The sixteen bytes that `Color::to_bytes` writes read back, at their
/// start, as the same colour.
pub proof fn lemma_color_bytes_roundtrip(c: Color)
    ensures
        color_bytes(c).len() == 16,
        color_at(color_bytes(c), 0) == c,
{
    let q = color_bytes(c);
    assert(q.subrange(0, 16) =~= q);
    lemma_quad_at(q, 0, c.r as u32, c.g as u32, c.b as u32, c.a as u32);
}

/// The sixteen bytes that `ColorF::to_bytes` writes read back, at their
/// start, as the same colour (the same bit patterns).
pub proof fn lemma_colorf_bytes_roundtrip(c: ColorF)
    ensures
        colorf_bytes(c).len() == 16,
        colorf_at(colorf_bytes(c), 0) == c,
{
    let q = colorf_bytes(c);
    assert(q.subrange(0, 16) =~= q);
    lemma_quad_at(q, 0, c.r, c.g, c.b, c.a);
}

/// The sixteen bytes that `Vector::to_bytes` writes read back, at their
/// start, as the same direction (the same bit patterns).
pub proof fn lemma_vector_bytes_roundtrip(v: Vector)
    ensures
        vector_bytes(v).len() == 16,
        vector_at(vector_bytes(v), 0) == v,
{
    let q = vector_bytes(v);
    assert(q.subrange(0, 16) =~= q);
    lemma_quad_at(q, 0, v.x, v.y, v.z, v.w);
}

/// Joining the two lines of a split title gives back the title, when the
/// break is at or past its end, or falls on a single space that is followed
/// by a second line not starting with white space (the title being shorter
/// than 256 bytes, as its length is compared as a byte).
pub proof fn lemma_join_split(line1: Seq<char>, rest: Seq<char>, pos: u8)
    requires
        encode_utf8(line1 + rest).len() < 256,
        pos == encode_utf8(line1).len() && rest.len() >= 2 && rest[0] == ' '
            && !is_white_space(rest[1]) || rest.len() == 0 && pos >= encode_utf8(line1).len(),
    ensures
        split_title_ok(pos, line1 + rest),
        ({
            let (a, b) = split_title_text(pos, line1 + rest);
            join_title_text(a, b) == line1 + rest
        }),
{
    if rest.len() == 0 {
        assert(line1 + rest =~= line1);
    } else {
        let line2 = rest.drop_first();
        assert(rest =~= seq![' '] + line2);
        assert(join_title_text(line1, line2) =~= line1 + rest);
        lemma_split_join(line1, line2);
    }
}

/// `10^k`.
pub open spec fn pow10(k: nat) -> nat
    decreases k,
{
    if k == 0 {
        1
    } else {
        10 * pow10((k - 1) as nat)
    }
}

/// The decimal numeral of `n` is made of digits, reads back as `n`, and has
/// no leading zero (but for `n` = 0, written `0`); it takes at most `k`
/// digits when `n` is below `10^k`.
pub proof fn lemma_decimal_text(n: nat)
    ensures
        decimal_text(n).len() >= 1,
        is_digits(decimal_text(n)),
        numeral_value(decimal_text(n)) == n,
        decimal_text(n)[0] == '0' ==> n == 0,
    decreases n,
{
    let d = decimal_text(n);
    if n < 10 {
        assert(d.drop_last() =~= Seq::<char>::empty());
        assert(digit_char(n) as int == 48 + n);
        assert(numeral_value(d.drop_last()) == 0);
        assert(numeral_value(d) == 10 * numeral_value(d.drop_last()) + (d.last() as int - 48));
    } else {
        let q = n / 10;
        let r = n % 10;
        lemma_decimal_text(q);
        assert(d.drop_last() =~= decimal_text(q));
        assert(d.last() == digit_char(r));
        assert(digit_char(r) as int == 48 + r);
        assert(numeral_value(d) == 10 * numeral_value(d.drop_last()) + (d.last() as int - 48));
        assert(n == 10 * q + r);
        assert(d[0] == decimal_text(q)[0]);
        assert forall|i: int| 0 <= i < d.len() implies '0' <= #[trigger] d[i] <= '9' by {
            if i < d.len() - 1 {
                assert(d[i] == decimal_text(q)[i]);
            }
        }
    }
}

/// The decimal numeral of a number below `10^k` takes at most `k` digits.
pub proof fn lemma_decimal_text_len(n: nat, k: nat)
    requires
        k >= 1,
        n < pow10(k),
    ensures
        decimal_text(n).len() <= k,
    decreases k,
{
    if n >= 10 {
        assert(k >= 2) by {
            if k == 1 {
                assert(pow10(1) == 10 * pow10(0));
            }
        }
        assert(n / 10 < pow10((k - 1) as nat)) by (nonlinear_arith)
            requires
                n < pow10(k),
                pow10(k) == 10 * pow10((k - 1) as nat),
        ;
        lemma_decimal_text_len(n / 10, (k - 1) as nat);
    }
}

/// Leading zeros leave the value of a numeral as it is.
proof fn lemma_numeral_leading_zeros(z: nat, s: Seq<char>)
    ensures
        numeral_value(Seq::new(z, |i: int| '0') + s) == numeral_value(s),
    decreases s.len(),
{
    let zs = Seq::new(z, |i: int| '0');
    if s.len() == 0 {
        assert(zs + s =~= zs);
        lemma_numeral_zeros(z);
    } else {
        assert((zs + s).drop_last() =~= zs + s.drop_last());
        lemma_numeral_leading_zeros(z, s.drop_last());
    }
}

/// A string of zeros stands for 0.
proof fn lemma_numeral_zeros(z: nat)
    ensures
        numeral_value(Seq::new(z, |i: int| '0')) == 0,
    decreases z,
{
    if z > 0 {
        assert(Seq::new(z, |i: int| '0').drop_last() =~= Seq::new((z - 1) as nat, |i: int| '0'));
        lemma_numeral_zeros((z - 1) as nat);
    }
}

/// A zero-filled numeral of `n` reads back as `n` and, when `n` is below
/// `10^w`, takes exactly `w` digits.
pub proof fn lemma_zero_filled(n: nat, w: nat)
    requires
        w >= 1,
        n < pow10(w),
    ensures
        zero_filled(n, w).len() == w,
        is_digits(zero_filled(n, w)),
        numeral_value(zero_filled(n, w)) == n,
{
    lemma_decimal_text(n);
    lemma_decimal_text_len(n, w);
    let d = decimal_text(n);
    if d.len() < w {
        let z = (w - d.len()) as nat;
        lemma_numeral_leading_zeros(z, d);
        let f = zero_filled(n, w);
        assert forall|i: int| 0 <= i < f.len() implies '0' <= #[trigger] f[i] <= '9' by {
            if i >= z {
                assert(f[i] == d[i - z]);
            }
        }
    }
}

/// The text of a configuration time stamp reads back, field by field, as
/// its year, month, day, hour, minute and second, between the separators
/// `-`, `-`, `T`, `:`, `:`.
pub proof fn lemma_timestamp_text_fields(date: ConfigDate, time: ConfigTime)
    requires
        date.year <= 9999,
        date.month <= 99,
        date.day <= 99,
        time.hour <= 99,
        time.minute <= 99,
        time.second <= 99,
    ensures
        ({
            let t = timestamp_text(date, time);
            &&& t.len() == 19
            &&& numeral_value(t.subrange(0, 4)) == date.year
            &&& t[4] == '-'
            &&& numeral_value(t.subrange(5, 7)) == date.month
            &&& t[7] == '-'
            &&& numeral_value(t.subrange(8, 10)) == date.day
            &&& t[10] == 'T'
            &&& numeral_value(t.subrange(11, 13)) == time.hour
            &&& t[13] == ':'
            &&& numeral_value(t.subrange(14, 16)) == time.minute
            &&& t[16] == ':'
            &&& numeral_value(t.subrange(17, 19)) == time.second
        }),
{
    reveal_with_fuel(pow10, 5);
    lemma_zero_filled(date.year as nat, 4);
    lemma_zero_filled(date.month as nat, 2);
    lemma_zero_filled(date.day as nat, 2);
    lemma_zero_filled(time.hour as nat, 2);
    lemma_zero_filled(time.minute as nat, 2);
    lemma_zero_filled(time.second as nat, 2);
    let t = timestamp_text(date, time);
    assert(t.subrange(0, 4) =~= zero_filled(date.year as nat, 4));
    assert(t.subrange(5, 7) =~= zero_filled(date.month as nat, 2));
    assert(t.subrange(8, 10) =~= zero_filled(date.day as nat, 2));
    assert(t.subrange(11, 13) =~= zero_filled(time.hour as nat, 2));
    assert(t.subrange(14, 16) =~= zero_filled(time.minute as nat, 2));
    assert(t.subrange(17, 19) =~= zero_filled(time.second as nat, 2));
}

/// Where the size column of an entry's listing line starts: after the line
/// break, the kind column and the name column with their separators.
pub open spec fn size_column_start(e: PSUEntry) -> int {
    1 + left_aligned(kind_text(e.kind), 12).len() as int + 2 + left_aligned(e.name@, 16).len() + 2
}

/// The size column of an entry's listing line holds the full decimal
/// numeral of the entry's size, aligned right in nine characters: spaces,
/// then digits that read back as the size.
pub proof fn lemma_listing_row_size(e: PSUEntry)
    ensures
        ({
            let k = size_column_start(e);
            let d = decimal_text(e.size as nat);
            let c = right_aligned(d, 9);
            &&& listing_row(e).subrange(k, k + c.len()) == c
            &&& c.subrange(c.len() - d.len(), c.len() as int) == d
            &&& forall|i: int| 0 <= i < c.len() - d.len() ==> #[trigger] c[i] == ' '
            &&& is_digits(d)
            &&& numeral_value(d) == e.size
        }),
{
    reveal_strlit("\n");
    reveal_strlit("| ");
    lemma_decimal_text(e.size as nat);
    let k = size_column_start(e);
    let d = decimal_text(e.size as nat);
    let c = right_aligned(d, 9);
    let a = "\n"@ + left_aligned(kind_text(e.kind), 12) + "| "@ + left_aligned(e.name@, 16) + "| "@;
    let rest = "| "@ + left_aligned(datetime_text(e.created), 25) + "| "@ + left_aligned(
        datetime_text(e.modified),
        25,
    );
    assert(a.len() == k);
    assert(listing_row(e) =~= a + c + rest);
    assert(listing_row(e).subrange(k, k + c.len()) =~= c);
    assert(c.subrange(c.len() - d.len(), c.len() as int) =~= d);
}

/// A file time converts exactly when `chrono` can place it in UTC and then
/// move it by the offset, and it converts to that local time; nothing else
/// (neither the nanoseconds nor the size of the seconds) refuses it.
pub proof fn lemma_file_time_conversion(
    secs: u64,
    nanos: u32,
    offset: FixedOffset,
    utc: NaiveDateTime,
    local: NaiveDateTime,
)
    requires
        utc_datetime(#[verifier::truncate] (secs as i64), nanos) == Some(utc),
        offset_datetime(utc, offset) == Some(local),
    ensures
        file_time_converts(secs, nanos, offset),
        file_time(secs, nanos, offset) == local,
{
}

/// A file time that `chrono` cannot place in UTC, or cannot move by the
/// offset, is refused.
pub proof fn lemma_file_time_refusal(secs: u64, nanos: u32, offset: FixedOffset)
    requires
        utc_datetime(#[verifier::truncate] (secs as i64), nanos) is None || offset_datetime(
            utc_datetime(#[verifier::truncate] (secs as i64), nanos)->0,
            offset,
        ) is None,
    ensures
        !file_time_converts(secs, nanos, offset),
{
}

/// A configuration time stamp with both a date and a time, whose text
/// `chrono` reads and whose move by the offset stays in range, converts to
/// that local time, whatever its hour, minute or second; no time stamp
/// converts to none.
pub proof fn lemma_config_timestamp_conversion(
    date: ConfigDate,
    time: ConfigTime,
    offset: FixedOffset,
    utc: NaiveDateTime,
    local: NaiveDateTime,
)
    requires
        parsed_datetime(timestamp_text(date, time)) == Some(utc),
        offset_datetime(utc, offset) == Some(local),
    ensures
        converts(Some(ConfigTimestamp { date: Some(date), time: Some(time) }), offset),
        converted(Some(ConfigTimestamp { date: Some(date), time: Some(time) }), offset) == Some(
            local,
        ),
        converts(None, offset),
        converted(None, offset) == None::<NaiveDateTime>,
{
}

/// A configuration time stamp converts only when it has both a date and a
/// time, `chrono` reads its text, and the move by the offset stays in
/// range.
pub proof fn lemma_config_timestamp_refusal(ts: ConfigTimestamp, offset: FixedOffset)
    requires
        converts(Some(ts), offset),
    ensures
        ts.date is Some,
        ts.time is Some,
        parsed_datetime(timestamp_text(ts.date->0, ts.time->0)) matches Some(utc) && offset_datetime(
            utc,
            offset,
        ) is Some,
{
}

/// A listing starts with the heading, and each entry's line stands in it,
/// in order: the line of entry `i` follows the listing of the entries
/// before it.
pub proof fn lemma_listing_rows(entries: Seq<PSUEntry>, i: int)
    requires
        0 <= i < entries.len(),
    ensures
        listing_text(entries).len() >= listing_text(entries.take(i)).len() + listing_row(
            entries[i],
        ).len(),
        listing_text(entries).subrange(
            listing_text(entries.take(i)).len() as int,
            listing_text(entries.take(i)).len() + listing_row(entries[i]).len() as int,
        ) == listing_row(entries[i]),
        listing_text(entries).take(listing_heading().len() as int) == listing_heading(),
    decreases entries.len(),
{
    let n = entries.len();
    lemma_listing_prefix(entries);
    if i == n - 1 {
        assert(entries.drop_last() =~= entries.take(i));
        assert(listing_text(entries) == listing_text(entries.take(i)) + listing_row(entries[i]));
        assert(listing_text(entries).subrange(
            listing_text(entries.take(i)).len() as int,
            listing_text(entries.take(i)).len() + listing_row(entries[i]).len() as int,
        ) =~= listing_row(entries[i]));
    } else {
        let d = entries.drop_last();
        lemma_listing_rows(d, i);
        assert(d.take(i) =~= entries.take(i));
        assert(d[i] == entries[i]);
        let t = listing_text(entries);
        assert(t == listing_text(d) + listing_row(entries.last()));
        let a = listing_text(d.take(i)).len() as int;
        let b = a + listing_row(entries[i]).len();
        assert(t.subrange(a, b) =~= listing_text(d).subrange(a, b));
    }
}

/// A listing starts with the heading.
proof fn lemma_listing_prefix(entries: Seq<PSUEntry>)
    ensures
        listing_text(entries).len() >= listing_heading().len(),
        listing_text(entries).take(listing_heading().len() as int) == listing_heading(),
    decreases entries.len(),
{
    if entries.len() > 0 {
        lemma_listing_prefix(entries.drop_last());
        let t = listing_text(entries);
        assert(t == listing_text(entries.drop_last()) + listing_row(entries.last()));
        assert(t.take(listing_heading().len() as int) =~= listing_text(entries.drop_last()).take(
            listing_heading().len() as int,
        ));
    } else {
        assert(listing_text(entries).take(listing_heading().len() as int) =~= listing_heading());
    }
}

} // verus!
