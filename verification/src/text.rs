//! Text of the save-data formats: NUL-terminated strings, Shift-JIS titles,
//! and the padded columns of listings.

use vstd::prelude::*;
use vstd::string::StrSliceExecFns;
use vstd::string::StringExecFns;
use vstd::utf8::*;

verus! {

/// What `encoding_rs` makes of `bytes` read as Shift-JIS text
/// (`SHIFT_JIS.decode`).
pub uninterp spec fn sjis_decoded(bytes: Seq<u8>) -> Seq<char>;

/// The Shift-JIS bytes that `encoding_rs` writes for `text`
/// (`SHIFT_JIS.encode`).
pub uninterp spec fn sjis_encoded(text: Seq<char>) -> Seq<u8>;

/// What `String::from_utf8_lossy` makes of `bytes`.
pub uninterp spec fn utf8_lossy_decoded(bytes: Seq<u8>) -> Seq<char>;

/// Every byte is below 0x80.
pub open spec fn is_ascii_bytes(bytes: Seq<u8>) -> bool {
    forall|i: int| 0 <= i < bytes.len() ==> #[trigger] bytes[i] < 0x80
}

/// The characters whose code points are the given ASCII bytes.
pub open spec fn ascii_text(bytes: Seq<u8>) -> Seq<char> {
    bytes.map_values(|b: u8| b as char)
}

/// The bytes that are the code points of the given ASCII characters.
pub open spec fn ascii_bytes(text: Seq<char>) -> Seq<u8> {
    text.map_values(|c: char| c as u8)
}

/// The text of Shift-JIS bytes: ASCII bytes stand for themselves (Shift-JIS
/// is ASCII-compatible), other input is read by `encoding_rs`.
pub open spec fn sjis_text(bytes: Seq<u8>) -> Seq<char> {
    if is_ascii_bytes(bytes) {
        ascii_text(bytes)
    } else {
        sjis_decoded(bytes)
    }
}

/// The Shift-JIS bytes of a text: ASCII text is its own bytes, other text
/// is written by `encoding_rs`.
pub open spec fn sjis_bytes(text: Seq<char>) -> Seq<u8> {
    if is_ascii_chars(text) {
        ascii_bytes(text)
    } else {
        sjis_encoded(text)
    }
}

/// The text of bytes read as UTF-8: valid UTF-8 stands for the text it
/// encodes, other input is repaired by `String::from_utf8_lossy`.
pub open spec fn lossy_utf8_text(bytes: Seq<u8>) -> Seq<char> {
    if valid_utf8(bytes) {
        decode_utf8(bytes)
    } else {
        utf8_lossy_decoded(bytes)
    }
}

/// Longest inputs handed to the Shift-JIS conversions: `encoding_rs`
/// computes its buffer sizes with checked arithmetic and panics on overflow.
pub open spec fn sjis_size_ok(len: nat) -> bool {
    len <= usize::MAX / 16
}

/// `encoding_rs::SHIFT_JIS.decode`: the bytes read as Shift-JIS (after its
/// byte-order-mark sniffing), malformed sequences replaced. Shift-JIS is
/// ASCII-compatible and no byte-order mark is ASCII, so ASCII bytes come
/// back as the same characters (the crate's documentation says so, and the
/// source borrows such input unchanged). Nothing else is stated of the text.
#[verifier::external_body]
pub(crate) fn decode_sjis(bytes: &[u8]) -> (text: String)
    requires
        sjis_size_ok(bytes@.len()),
    ensures
        text@ == sjis_decoded(bytes@),
        text@ == sjis_text(bytes@),
{
    encoding_rs::SHIFT_JIS.decode(bytes).0.into_owned()
}

/// `encoding_rs::SHIFT_JIS.encode`: the text written as Shift-JIS,
/// unmappable characters replaced by numeric character references. ASCII
/// text comes back as its own bytes (documented, and borrowed unchanged in
/// the source). Nothing else is stated of the bytes.
#[verifier::external_body]
pub(crate) fn encode_sjis(text: &str) -> (bytes: Vec<u8>)
    requires
        sjis_size_ok(encode_utf8(text@).len()),
    ensures
        bytes@ == sjis_encoded(text@),
        bytes@ == sjis_bytes(text@),
{
    encoding_rs::SHIFT_JIS.encode(text).0.into_owned()
}

/// `String::from_utf8_lossy`: the bytes read as UTF-8, invalid sequences
/// replaced by U+FFFD. Valid UTF-8 comes back as the text it encodes, as
/// the documentation says.
#[verifier::external_body]
fn utf8_lossy(bytes: &[u8]) -> (text: String)
    ensures
        text@ == utf8_lossy_decoded(bytes@),
        text@ == lossy_utf8_text(bytes@),
{
    String::from_utf8_lossy(bytes).into_owned()
}

/// `n` is where the NUL-terminated text at the start of `bytes` ends: no
/// zero byte comes before it, and it is the end of `bytes` or a zero byte.
pub open spec fn is_text_end(bytes: Seq<u8>, n: int) -> bool {
    &&& 0 <= n <= bytes.len()
    &&& forall|i: int| 0 <= i < n ==> #[trigger] bytes[i] != 0
    &&& n < bytes.len() ==> bytes[n] == 0
}

/// The length of the NUL-terminated text at the start of `bytes`.
pub open spec fn text_end(bytes: Seq<u8>) -> int {
    choose|n: int| is_text_end(bytes, n)
}

/// The bytes before the first zero byte (all of them if there is none).
pub open spec fn cstring_bytes(bytes: Seq<u8>) -> Seq<u8> {
    bytes.take(text_end(bytes))
}

/// The end of the text at the start of `bytes` is unique.
pub proof fn lemma_text_end_unique(bytes: Seq<u8>, n: int)
    requires
        is_text_end(bytes, n),
    ensures
        text_end(bytes) == n,
{
    let m = text_end(bytes);
    assert(is_text_end(bytes, m));
    if m < n {
        assert(bytes[m] != 0);
    } else if n < m {
        assert(bytes[n] != 0);
    }
}

/// The position of the first zero byte of `bytes`, or its length.
fn find_text_end(bytes: &[u8]) -> (n: usize)
    ensures
        is_text_end(bytes@, n as int),
        n == text_end(bytes@),
{
    let mut n: usize = 0;
    while n < bytes.len() && bytes[n] != 0
        invariant
            n <= bytes@.len(),
            forall|i: int| 0 <= i < n ==> #[trigger] bytes@[i] != 0,
        decreases bytes@.len() - n,
    {
        n = n + 1;
    }
    proof {
        lemma_text_end_unique(bytes@, n as int);
    }
    n
}

/// The text of a NUL-terminated byte string: the bytes before the first zero
/// byte (or all of them), read as UTF-8 with invalid sequences replaced.
pub fn parse_cstring(bytes: &[u8]) -> (text: String)
    ensures
        text@ == lossy_utf8_text(cstring_bytes(bytes@)),
{
    let n = find_text_end(bytes);
    let head = vstd::slice::slice_subrange(bytes, 0, n);
    assert(head@ =~= cstring_bytes(bytes@));
    utf8_lossy(head)
}

/// The characters of `s` before its first NUL character (all of them if
/// there is none).
pub open spec fn text_before_nul(s: Seq<char>) -> Seq<char>
    decreases s.len(),
{
    if s.len() == 0 || s[0] == '\0' {
        seq![]
    } else {
        seq![s[0]] + text_before_nul(s.drop_first())
    }
}

/// The UTF-8 encoding of a character other than NUL holds no zero byte.
proof fn lemma_scalar_bytes_nonzero(c: char)
    requires
        c != '\0',
    ensures
        forall|i: int|
            0 <= i < encode_scalar(c as u32).len() ==> #[trigger] encode_scalar(c as u32)[i] != 0,
{
    let v = c as u32;
    char_is_scalar(c);
    char_u32_cast(c, v);
    if has_width_1_encoding(v) {
        assert(v != 0);
        assert((v & 0x7F) as u8 != 0) by (bit_vector)
            requires
                v != 0,
                v <= 0x7F,
        ;
    } else {
        assert(0xC0 | ((v >> 6) & 0x1F) as u8 != 0) by (bit_vector);
        assert(0xE0 | ((v >> 12) & 0x0F) as u8 != 0) by (bit_vector);
        assert(0xF0 | ((v >> 18) & 0x7) as u8 != 0) by (bit_vector);
        assert(0x80 | (v & 0x3F) as u8 != 0) by (bit_vector);
        assert(0x80 | ((v >> 6) & 0x3F) as u8 != 0) by (bit_vector);
        assert(0x80 | ((v >> 12) & 0x3F) as u8 != 0) by (bit_vector);
    }
}

/// In the UTF-8 encoding of `s`, the first zero byte (or the end) is where
/// the encoding of the characters before the first NUL ends.
pub proof fn lemma_utf8_text_end(s: Seq<char>)
    ensures
        is_text_end(encode_utf8(s), encode_utf8(text_before_nul(s)).len() as int),
        encode_utf8(s).take(encode_utf8(text_before_nul(s)).len() as int) == encode_utf8(
            text_before_nul(s),
        ),
    decreases s.len(),
{
    if s.len() == 0 {
        assert(encode_utf8(s).take(0) =~= encode_utf8(text_before_nul(s)));
    } else if s[0] == '\0' {
        assert(((0u32 & 0x7F) as u8) == 0) by (bit_vector);
        assert(encode_scalar(s[0] as u32) =~= seq![0u8]);
        assert(encode_utf8(s)[0] == 0);
        assert(encode_utf8(s).take(0) =~= encode_utf8(text_before_nul(s)));
    } else {
        let c = s[0];
        let r = s.drop_first();
        let e = encode_scalar(c as u32);
        lemma_utf8_text_end(r);
        lemma_scalar_bytes_nonzero(c);
        let t = seq![c] + text_before_nul(r);
        assert(t[0] == c);
        assert(t.drop_first() =~= text_before_nul(r));
        assert(text_before_nul(s) == t);
        let m = encode_utf8(text_before_nul(r)).len() as int;
        let b = encode_utf8(s);
        assert(b =~= e + encode_utf8(r));
        assert(encode_utf8(t) =~= e + encode_utf8(text_before_nul(r)));
        assert forall|i: int| 0 <= i < e.len() + m implies #[trigger] b[i] != 0 by {
            if i < e.len() {
                assert(b[i] == e[i]);
            } else {
                assert(b[i] == encode_utf8(r)[i - e.len()]);
            }
        }
        assert(b.take(e.len() + m) =~= e + encode_utf8(r).take(m));
    }
}

/// The NUL-terminated text at the start of the UTF-8 encoding of `s` is the
/// encoding of the characters of `s` before its first NUL.
pub proof fn lemma_cstring_of_utf8(s: Seq<char>)
    ensures
        cstring_bytes(encode_utf8(s)) == encode_utf8(text_before_nul(s)),
        valid_utf8(cstring_bytes(encode_utf8(s))),
        decode_utf8(cstring_bytes(encode_utf8(s))) == text_before_nul(s),
{
    lemma_utf8_text_end(s);
    lemma_text_end_unique(encode_utf8(s), encode_utf8(text_before_nul(s)).len() as int);
    encode_utf8_valid_utf8(text_before_nul(s));
    encode_utf8_decode_utf8(text_before_nul(s));
}

/// Characters with the Unicode `White_Space` property, which is what
/// `char::is_whitespace` and `str::trim_start` go by.
pub open spec fn is_white_space(c: char) -> bool {
    let v = c as u32;
    ||| 0x09 <= v <= 0x0D
    ||| v == 0x20
    ||| v == 0x85
    ||| v == 0xA0
    ||| v == 0x1680
    ||| 0x2000 <= v <= 0x200A
    ||| v == 0x2028
    ||| v == 0x2029
    ||| v == 0x202F
    ||| v == 0x205F
    ||| v == 0x3000
}

/// How many white-space characters `s` starts with.
pub open spec fn leading_white_space(s: Seq<char>) -> nat
    decreases s.len(),
{
    if s.len() > 0 && is_white_space(s[0]) {
        1 + leading_white_space(s.drop_first())
    } else {
        0
    }
}

/// `s` without its leading white space.
pub open spec fn trim_start_text(s: Seq<char>) -> Seq<char> {
    s.skip(leading_white_space(s) as int)
}

/// Whether `c` has the `White_Space` property.
pub fn is_white_space_char(c: char) -> (b: bool)
    ensures
        b == is_white_space(c),
{
    let v = c as u32;
    (0x09 <= v && v <= 0x0D) || v == 0x20 || v == 0x85 || v == 0xA0 || v == 0x1680 || (0x2000 <= v
        && v <= 0x200A) || v == 0x2028 || v == 0x2029 || v == 0x202F || v == 0x205F || v == 0x3000
}

/// The text without its leading white space.
pub fn trim_start(s: &str) -> (r: &str)
    ensures
        r@ == trim_start_text(s@),
{
    let n = s.unicode_len();
    let mut i: usize = 0;
    assert(s@.skip(0) =~= s@);
    while i < n && is_white_space_char(s.get_char(i))
        invariant
            i <= n,
            n == s@.len(),
            leading_white_space(s@) == i + leading_white_space(s@.skip(i as int)),
        decreases n - i,
    {
        let ghost rest = s@.skip(i as int);
        assert(rest[0] == s@[i as int]);
        assert(rest.drop_first() =~= s@.skip(i + 1));
        i = i + 1;
    }
    proof {
        let rest = s@.skip(i as int);
        if i < n {
            assert(rest[0] == s@[i as int]);
        }
    }
    s.substring_char(i, n)
}

/// `n` spaces.
pub open spec fn spaces(n: nat) -> Seq<char> {
    Seq::new(n, |i: int| ' ')
}

/// `s` in a column `width` characters wide, aligned left: followed by spaces
/// up to the width; a longer `s` is left as it is.
pub open spec fn left_aligned(s: Seq<char>, width: nat) -> Seq<char> {
    if s.len() < width {
        s + spaces((width - s.len()) as nat)
    } else {
        s
    }
}

/// `s` in a column `width` characters wide, aligned right: preceded by
/// spaces up to the width; a longer `s` is left as it is.
pub open spec fn right_aligned(s: Seq<char>, width: nat) -> Seq<char> {
    if s.len() < width {
        spaces((width - s.len()) as nat) + s
    } else {
        s
    }
}

/// The decimal digit for `d` (below ten).
pub open spec fn digit_char(d: nat) -> char {
    ((48 + d) as u32) as char
}

/// The number that a string of decimal digits stands for, most significant
/// digit first (the empty string stands for 0).
pub open spec fn numeral_value(s: Seq<char>) -> int
    decreases s.len(),
{
    if s.len() == 0 {
        0
    } else {
        10 * numeral_value(s.drop_last()) + (s.last() as int - 48)
    }
}

/// Every character is a decimal digit.
pub open spec fn is_digits(s: Seq<char>) -> bool {
    forall|i: int| 0 <= i < s.len() ==> '0' <= #[trigger] s[i] <= '9'
}

/// The decimal numeral of `n`, without leading zeros.
pub open spec fn decimal_text(n: nat) -> Seq<char>
    decreases n,
{
    if n < 10 {
        seq![digit_char(n)]
    } else {
        decimal_text(n / 10) + seq![digit_char(n % 10)]
    }
}

/// Appends the decimal digit `d`.
fn push_digit(out: &mut String, d: u32)
    requires
        d < 10,
    ensures
        final(out)@ == old(out)@ + seq![digit_char(d as nat)],
{
    let digit = match d {
        0 => "0",
        1 => "1",
        2 => "2",
        3 => "3",
        4 => "4",
        5 => "5",
        6 => "6",
        7 => "7",
        8 => "8",
        _ => "9",
    };
    proof {
        reveal_strlit("0");
        reveal_strlit("1");
        reveal_strlit("2");
        reveal_strlit("3");
        reveal_strlit("4");
        reveal_strlit("5");
        reveal_strlit("6");
        reveal_strlit("7");
        reveal_strlit("8");
        reveal_strlit("9");
    }
    assert(digit@ =~= seq![digit_char(d as nat)]);
    out.append(digit);
}

/// Appends the decimal numeral of `n`.
fn push_decimal(out: &mut String, n: u32)
    ensures
        final(out)@ == old(out)@ + decimal_text(n as nat),
    decreases n,
{
    if n >= 10 {
        push_decimal(out, n / 10);
    }
    push_digit(out, n % 10);
    assert(out@ =~= old(out)@ + decimal_text(n as nat));
}

/// The decimal numeral of `n`, without leading zeros.
pub fn decimal_string(n: u32) -> (s: String)
    ensures
        s@ == decimal_text(n as nat),
        is_digits(s@),
        numeral_value(s@) == n,
        s@[0] == '0' ==> n == 0,
{
    proof {
        crate::laws::lemma_decimal_text(n as nat);
    }
    let mut s = String::new();
    push_decimal(&mut s, n);
    assert(s@ =~= decimal_text(n as nat));
    s
}

/// Appends `n` spaces.
pub fn push_spaces(out: &mut String, n: usize)
    ensures
        final(out)@ == old(out)@ + spaces(n as nat),
{
    let mut i: usize = 0;
    while i < n
        invariant
            i <= n,
            out@ == old(out)@ + spaces(i as nat),
        decreases n - i,
    {
        out.append(" ");
        proof {
            reveal_strlit(" ");
        }
        i = i + 1;
        assert(out@ =~= old(out)@ + spaces(i as nat));
    }
}

/// Appends `s` in a column `width` characters wide, aligned left.
pub fn push_left_aligned(out: &mut String, s: &str, width: usize)
    ensures
        final(out)@ == old(out)@ + left_aligned(s@, width as nat),
{
    let n = s.unicode_len();
    out.append(s);
    if n < width {
        push_spaces(out, width - n);
    }
    assert(out@ =~= old(out)@ + left_aligned(s@, width as nat));
}

/// Appends `s` in a column `width` characters wide, aligned right.
pub fn push_right_aligned(out: &mut String, s: &str, width: usize)
    ensures
        final(out)@ == old(out)@ + right_aligned(s@, width as nat),
{
    let n = s.unicode_len();
    if n < width {
        push_spaces(out, width - n);
    }
    out.append(s);
    assert(out@ =~= old(out)@ + right_aligned(s@, width as nat));
}

} // verus!
