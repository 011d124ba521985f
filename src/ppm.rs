//! Decoding of binary PPM images.
//!
//! A file is the magic `P6` and one byte, then width and height, then the
//! maximum sample value, each a decimal token ended by one whitespace byte
//! and each optionally preceded by comment lines starting with `#`, then
//! `height` rows of `width` pixels, each three samples (red, green, blue)
//! of one byte, or of two big-endian bytes when the maximum exceeds 255.
use vstd::prelude::*;
use crate::image::Image;
use crate::pixel::Pixel;

verus! {

/// Why an image could not be decoded.
#[derive(Copy, Clone, Debug, PartialEq, Eq, Structural)]
pub enum PpmError {
    /// The data does not start with `P`.
    InvalidHeader,
    /// The magic is not `P6`.
    InvalidType,
    /// A number field is empty.
    EmptyNumber,
    /// A number field holds a byte that is not a decimal digit.
    InvalidDigit,
    /// A number field does not fit in 32 bits.
    NumberTooLarge,
    /// The data ends before the header or the pixels are complete.
    Truncated,
}

/// A read position in a byte buffer.
pub struct ByteCursor {
    data: Vec<u8>,
    pos: usize,
}

impl ByteCursor {
    #[verifier::type_invariant]
    spec fn inv(self) -> bool {
        self.pos <= self.data@.len()
    }

    /// The bytes being read.
    pub closed spec fn bytes(&self) -> Seq<u8> {
        self.data@
    }

    /// The index of the next byte to read.
    pub closed spec fn at(&self) -> nat {
        self.pos as nat
    }

    /// A cursor at the start of `data`.
    pub fn new(data: Vec<u8>) -> (c: ByteCursor)
        ensures
            c.bytes() == data@,
            c.at() == 0,
    {
        ByteCursor { data, pos: 0 }
    }

    /// The index of the next byte to read.
    pub fn position(&self) -> (r: usize)
        ensures
            r == self.at(),
            r <= self.bytes().len(),
    {
        proof {
            use_type_invariant(self);
        }
        self.pos
    }

    /// The next byte, consumed; `None` at the end of the data.
    pub fn read_char(&mut self) -> (r: Option<u8>)
        ensures
            final(self).bytes() == old(self).bytes(),
            old(self).at() < old(self).bytes().len() ==> r == Some(old(self).bytes()[old(self).at() as int])
                && final(self).at() == old(self).at() + 1,
            old(self).at() >= old(self).bytes().len() ==> r is None && final(self).at() == old(self).at(),
            final(self).at() <= final(self).bytes().len(),
    {
        proof {
            use_type_invariant(&*self);
        }
        if self.pos < self.data.len() {
            let b = self.data[self.pos];
            self.pos = self.pos + 1;
            Some(b)
        } else {
            None
        }
    }
}

/// Whether `b` ends a token: space, tab, line feed or carriage return.
pub open spec fn is_split(b: u8) -> bool {
    b == 0x20 || b == 0x09 || b == 0x0a || b == 0x0d
}

/// Whether `b` ends a line: line feed or carriage return.
pub open spec fn is_line_end(b: u8) -> bool {
    b == 0x0a || b == 0x0d
}

/// Whether `b` stops a scan for a line end (`line`) or a token end.
pub open spec fn stops(b: u8, line: bool) -> bool {
    if line {
        is_line_end(b)
    } else {
        is_split(b)
    }
}

/// The index of the first stopping byte at or after `pos`, or the length.
pub open spec fn scan_end(data: Seq<u8>, pos: nat, line: bool) -> nat
    decreases data.len() - pos,
{
    if pos >= data.len() {
        data.len()
    } else if stops(data[pos as int], line) {
        pos
    } else {
        scan_end(data, pos + 1, line)
    }
}

/// The index after the scan from `pos`: past the stopping byte, if any.
pub open spec fn after_scan(data: Seq<u8>, pos: nat, line: bool) -> nat {
    if scan_end(data, pos, line) < data.len() {
        scan_end(data, pos, line) + 1
    } else {
        data.len()
    }
}

proof fn lemma_scan_end(data: Seq<u8>, pos: nat, line: bool)
    requires
        pos <= data.len(),
    ensures
        pos <= scan_end(data, pos, line) <= data.len(),
        forall|i: int| pos <= i < scan_end(data, pos, line) ==> !stops(#[trigger] data[i], line),
        scan_end(data, pos, line) < data.len() ==> stops(data[scan_end(data, pos, line) as int], line),
    decreases data.len() - pos,
{
    if pos < data.len() && !stops(data[pos as int], line) {
        lemma_scan_end(data, pos + 1, line);
    }
}

/// The value of a string of decimal digits.
pub open spec fn digits_value(s: Seq<u8>) -> nat
    decreases s.len(),
{
    if s.len() == 0 {
        0
    } else {
        digits_value(s.drop_last()) * 10 + (s.last() - 0x30) as nat
    }
}

/// Whether `b` is an ASCII decimal digit.
pub open spec fn is_digit(b: u8) -> bool {
    0x30 <= b <= 0x39
}

/// A number field without its leading `+`, if it has one.
pub open spec fn unsigned_part(s: Seq<u8>) -> Seq<u8> {
    if s.len() > 0 && s[0] == 0x2b {
        s.subrange(1, s.len() as int)
    } else {
        s
    }
}

/// A number field: decimal digits, optionally after a `+`.
pub open spec fn number_value(s: Seq<u8>) -> Result<u32, PpmError> {
    let d = unsigned_part(s);
    if s.len() == 0 {
        Err(PpmError::EmptyNumber)
    } else if d.len() == 0 || exists|i: int| 0 <= i < d.len() && !is_digit(#[trigger] d[i]) {
        Err(PpmError::InvalidDigit)
    } else if digits_value(d) > u32::MAX {
        Err(PpmError::NumberTooLarge)
    } else {
        Ok(digits_value(d) as u32)
    }
}

/// Parses a number field.
pub fn parse_number(s: &Vec<u8>) -> (r: Result<u32, PpmError>)
    ensures
        r == number_value(s@),
{
    if s.len() == 0 {
        return Err(PpmError::EmptyNumber);
    }
    let start: usize = if s[0] == 0x2b {
        1
    } else {
        0
    };
    let ghost d = unsigned_part(s@);
    assert(d =~= s@.subrange(start as int, s@.len() as int));
    if start == s.len() {
        return Err(PpmError::InvalidDigit);
    }
    let mut i: usize = start;
    while i < s.len()
        invariant
            start <= i <= s@.len(),
            d =~= s@.subrange(start as int, s@.len() as int),
            d == unsigned_part(s@),
            s@.len() > 0,
            forall|j: int| 0 <= j < i - start ==> is_digit(#[trigger] d[j]),
        decreases s@.len() - i,
    {
        if !(0x30 <= s[i] && s[i] <= 0x39) {
            assert(0 <= i - start < d.len() && !is_digit(d[i - start]));
            return Err(PpmError::InvalidDigit);
        }
        i = i + 1;
    }
    let mut value: u64 = 0;
    let mut k: usize = start;
    while k < s.len()
        invariant
            start <= k <= s@.len(),
            d =~= s@.subrange(start as int, s@.len() as int),
            d == unsigned_part(s@),
            s@.len() > 0,
            forall|j: int| 0 <= j < d.len() ==> is_digit(#[trigger] d[j]),
            value == digits_value(d.subrange(0, k - start)),
            value <= u32::MAX,
        decreases s@.len() - k,
    {
        assert(is_digit(d[k - start]));
        assert(d.subrange(0, k + 1 - start).drop_last() =~= d.subrange(0, k - start));
        assert(d.subrange(0, k + 1 - start).last() == s@[k as int]);
        let digit = (s[k] - 0x30) as u64;
        let next = value * 10 + digit;
        if next > 0xFFFF_FFFF {
            proof {
                lemma_digits_value_grows(d, (k + 1 - start) as nat);
                assert(digits_value(d.subrange(0, k + 1 - start)) == next);
            }
            return Err(PpmError::NumberTooLarge);
        }
        value = next;
        k = k + 1;
    }
    assert(d.subrange(0, d.len() as int) =~= d);
    Ok(value as u32)
}

proof fn lemma_digits_value_grows(d: Seq<u8>, n: nat)
    requires
        n <= d.len(),
        forall|j: int| 0 <= j < d.len() ==> is_digit(#[trigger] d[j]),
    ensures
        digits_value(d.subrange(0, n as int)) <= digits_value(d),
    decreases d.len() - n,
{
    if n < d.len() {
        lemma_digits_value_grows(d, n + 1);
        assert(d.subrange(0, (n + 1) as int).drop_last() =~= d.subrange(0, n as int));
    } else {
        assert(d.subrange(0, n as int) =~= d);
    }
}


/// The index of the first byte at or after `pos` that is outside comment
/// lines; `in_comment` tells whether `pos` lies inside a comment. A comment
/// runs from `#` through the next line end.
pub open spec fn skip_comments(data: Seq<u8>, pos: nat, in_comment: bool) -> nat
    decreases data.len() - pos,
{
    if pos >= data.len() {
        data.len()
    } else if in_comment {
        skip_comments(data, pos + 1, !is_line_end(data[pos as int]))
    } else if data[pos as int] == 0x23 {
        skip_comments(data, pos + 1, true)
    } else {
        pos
    }
}

/// A number field whose first byte is at `pos`: that byte and the token
/// after it. Yields the number and the index after the field.
pub open spec fn field_at(data: Seq<u8>, pos: nat) -> Result<(u32, nat), PpmError> {
    if pos >= data.len() {
        Err(PpmError::Truncated)
    } else {
        match number_value(data.subrange(pos as int, scan_end(data, pos + 1, false) as int)) {
            Err(e) => Err(e),
            Ok(v) => Ok((v, after_scan(data, pos + 1, false))),
        }
    }
}

/// The magic `P6` and the byte after it; yields the index after them.
pub open spec fn magic_spec(data: Seq<u8>, pos: nat) -> Result<nat, PpmError> {
    if pos >= data.len() || data[pos as int] != 0x50 {
        Err(PpmError::InvalidHeader)
    } else if pos + 1 >= data.len() || data[(pos + 1) as int] != 0x36 {
        Err(PpmError::InvalidType)
    } else if pos + 2 >= data.len() {
        Err(PpmError::Truncated)
    } else {
        Ok(pos + 3)
    }
}

/// Width and height after optional comments; yields both and the index
/// after them.
pub open spec fn sizes_spec(data: Seq<u8>, pos: nat) -> Result<(u32, u32, nat), PpmError> {
    match field_at(data, skip_comments(data, pos, false)) {
        Err(e) => Err(e),
        Ok((w, p2)) => match number_value(data.subrange(p2 as int, scan_end(data, p2, false) as int)) {
            Err(e) => Err(e),
            Ok(h) => Ok((w, h, after_scan(data, p2, false))),
        },
    }
}

/// The maximum sample value after optional comments; yields it and the
/// index after it.
pub open spec fn max_value_spec(data: Seq<u8>, pos: nat) -> Result<(u32, nat), PpmError> {
    field_at(data, skip_comments(data, pos, false))
}

/// Consumes bytes through the next line end, or to the end of the data.
pub fn read_line(cursor: &mut ByteCursor)
    ensures
        final(cursor).bytes() == old(cursor).bytes(),
        final(cursor).at() == after_scan(old(cursor).bytes(), old(cursor).at(), true),
{
    let ghost data = cursor.bytes();
    let ghost start = cursor.at();
    proof {
        use_type_invariant(&*cursor);
        lemma_scan_end(data, start, true);
    }
    loop
        invariant_except_break
            cursor.bytes() == data,
            start <= cursor.at() <= scan_end(data, start, true),
            scan_end(data, cursor.at(), true) == scan_end(data, start, true),
        ensures
            cursor.bytes() == data,
            cursor.at() == after_scan(data, start, true),
        decreases data.len() - cursor.at(),
    {
        proof {
            use_type_invariant(&*cursor);
            if cursor.at() < data.len() {
                lemma_scan_end(data, cursor.at() + 1, true);
            }
        }
        match cursor.read_char() {
            None => break,
            Some(b) => {
                if b == 0x0a || b == 0x0d {
                    break;
                }
            },
        }
    }
}

/// Appends to `result_buffer` the bytes up to the next token end, and
/// consumes them and the token end.
pub fn read_until_split_character(cursor: &mut ByteCursor, result_buffer: &mut Vec<u8>)
    ensures
        final(cursor).bytes() == old(cursor).bytes(),
        final(cursor).at() == after_scan(old(cursor).bytes(), old(cursor).at(), false),
        final(result_buffer)@ == old(result_buffer)@ + old(cursor).bytes().subrange(
            old(cursor).at() as int,
            scan_end(old(cursor).bytes(), old(cursor).at(), false) as int,
        ),
{
    let ghost data = cursor.bytes();
    let ghost start = cursor.at();
    let ghost buf0 = result_buffer@;
    proof {
        use_type_invariant(&*cursor);
        lemma_scan_end(data, start, false);
    }
    loop
        invariant_except_break
            cursor.bytes() == data,
            start <= cursor.at() <= scan_end(data, start, false),
            scan_end(data, cursor.at(), false) == scan_end(data, start, false),
            result_buffer@ == buf0 + data.subrange(start as int, cursor.at() as int),
        ensures
            cursor.bytes() == data,
            cursor.at() == after_scan(data, start, false),
            result_buffer@ == buf0 + data.subrange(start as int, scan_end(data, start, false) as int),
        decreases data.len() - cursor.at(),
    {
        proof {
            use_type_invariant(&*cursor);
            if cursor.at() < data.len() {
                lemma_scan_end(data, cursor.at() + 1, false);
            }
        }
        let ghost here = cursor.at();
        match cursor.read_char() {
            None => break,
            Some(b) => {
                if b == 0x20 || b == 0x09 || b == 0x0a || b == 0x0d {
                    break;
                }
                result_buffer.push(b);
                assert(data.subrange(start as int, cursor.at() as int) =~= data.subrange(
                    start as int,
                    here as int,
                ).push(b));
            },
        }
    }
}

/// A number field: `first_character`, if given, then the bytes up to the
/// next token end.
pub fn read_size_propertie(cursor: &mut ByteCursor, first_character: Option<u8>) -> (r: Result<
    u32,
    PpmError,
>)
    ensures
        final(cursor).bytes() == old(cursor).bytes(),
        final(cursor).at() == after_scan(old(cursor).bytes(), old(cursor).at(), false),
        r == number_value(
            match first_character {
                Some(c) => seq![c],
                None => Seq::empty(),
            } + old(cursor).bytes().subrange(
                old(cursor).at() as int,
                scan_end(old(cursor).bytes(), old(cursor).at(), false) as int,
            ),
        ),
{
    let mut result_buffer: Vec<u8> = Vec::new();
    if let Some(c) = first_character {
        result_buffer.push(c);
    }
    read_until_split_character(cursor, &mut result_buffer);
    proof {
        let first = match first_character {
            Some(c) => seq![c],
            None => Seq::<u8>::empty(),
        };
        assert(result_buffer@ =~= first + old(cursor).bytes().subrange(
            old(cursor).at() as int,
            scan_end(old(cursor).bytes(), old(cursor).at(), false) as int,
        ));
    }
    parse_number(&result_buffer)
}

/// Consumes comment lines and the first byte after them; returns that
/// byte, or `None` if the data ends first.
pub fn read_char_after_comments(cursor: &mut ByteCursor) -> (r: Option<u8>)
    ensures
        final(cursor).bytes() == old(cursor).bytes(),
        ({
            let data = old(cursor).bytes();
            let p = skip_comments(data, old(cursor).at(), false);
            if p < data.len() {
                r == Some(data[p as int]) && final(cursor).at() == p + 1
            } else {
                r is None && final(cursor).at() == data.len()
            }
        }),
{
    let ghost data = cursor.bytes();
    let ghost start = cursor.at();
    let mut in_comment = false;
    proof {
        use_type_invariant(&*cursor);
    }
    loop
        invariant
            cursor.bytes() == data,
            start == old(cursor).at(),
            data == old(cursor).bytes(),
            cursor.at() <= data.len(),
            skip_comments(data, cursor.at(), in_comment) == skip_comments(data, start, false),
        decreases data.len() - cursor.at(),
    {
        proof {
            use_type_invariant(&*cursor);
        }
        match cursor.read_char() {
            None => {
                return None;
            },
            Some(b) => {
                if in_comment {
                    in_comment = !(b == 0x0a || b == 0x0d);
                } else if b == 0x23 {
                    in_comment = true;
                } else {
                    return Some(b);
                }
            },
        }
    }
}

/// Reads width and height, after optional comment lines, into `image`.
/// On error `image` is left as it was.
pub fn read_size_or_comment(cursor: &mut ByteCursor, image: &mut Image) -> (r: Result<(), PpmError>)
    ensures
        final(cursor).bytes() == old(cursor).bytes(),
        match sizes_spec(old(cursor).bytes(), old(cursor).at()) {
            Ok((w, h, next)) => r is Ok && final(image).width == w && final(image).height == h
                && final(image).pixels == old(image).pixels && final(cursor).at() == next,
            Err(e) => r == Err::<(), PpmError>(e) && *final(image) == *old(image),
        },
{
    let ghost data = cursor.bytes();
    let first = read_char_after_comments(cursor);
    let first_character = match first {
        None => {
            return Err(PpmError::Truncated);
        },
        Some(c) => c,
    };
    proof {
        let p = skip_comments(data, old(cursor).at(), false);
        lemma_scan_end(data, p + 1, false);
        assert(seq![first_character] + data.subrange((p + 1) as int, scan_end(data, p + 1, false) as int)
            =~= data.subrange(p as int, scan_end(data, p + 1, false) as int));
    }
    let width = match read_size_propertie(cursor, Some(first_character)) {
        Err(e) => {
            return Err(e);
        },
        Ok(w) => w,
    };
    let height = match read_size_propertie(cursor, None) {
        Err(e) => {
            return Err(e);
        },
        Ok(h) => h,
    };
    image.width = width;
    image.height = height;
    Ok(())
}

/// Reads the maximum sample value, after optional comment lines.
pub fn read_max_value_or_comment(cursor: &mut ByteCursor) -> (r: Result<u32, PpmError>)
    ensures
        final(cursor).bytes() == old(cursor).bytes(),
        match max_value_spec(old(cursor).bytes(), old(cursor).at()) {
            Ok((m, next)) => r == Ok::<u32, PpmError>(m) && final(cursor).at() == next,
            Err(e) => r == Err::<u32, PpmError>(e),
        },
{
    let ghost data = cursor.bytes();
    let first_character = match read_char_after_comments(cursor) {
        None => {
            return Err(PpmError::Truncated);
        },
        Some(c) => c,
    };
    proof {
        let p = skip_comments(data, old(cursor).at(), false);
        lemma_scan_end(data, p + 1, false);
        assert(seq![first_character] + data.subrange((p + 1) as int, scan_end(data, p + 1, false) as int)
            =~= data.subrange(p as int, scan_end(data, p + 1, false) as int));
    }
    read_size_propertie(cursor, Some(first_character))
}

/// Reads the magic `P6` and the byte after it.
pub fn read_constants(cursor: &mut ByteCursor) -> (r: Result<(), PpmError>)
    ensures
        final(cursor).bytes() == old(cursor).bytes(),
        match magic_spec(old(cursor).bytes(), old(cursor).at()) {
            Ok(next) => r is Ok && final(cursor).at() == next,
            Err(e) => r == Err::<(), PpmError>(e),
        },
{
    match cursor.read_char() {
        Some(0x50) => {},
        _ => {
            return Err(PpmError::InvalidHeader);
        },
    }
    match cursor.read_char() {
        Some(0x36) => {},
        _ => {
            return Err(PpmError::InvalidType);
        },
    }
    match cursor.read_char() {
        Some(_) => Ok(()),
        None => Err(PpmError::Truncated),
    }
}


/// Bytes per sample: two when the maximum sample value exceeds 255.
pub open spec fn sample_bytes(wide: bool) -> nat {
    if wide {
        2
    } else {
        1
    }
}

/// The sample at `pos`: one byte, or two bytes, most significant first.
pub open spec fn sample_at(data: Seq<u8>, pos: nat, wide: bool) -> u16 {
    if wide {
        (data[pos as int] as nat * 256 + data[(pos + 1) as int] as nat) as u16
    } else {
        data[pos as int] as u16
    }
}

/// The pixel whose red sample starts at `pos`.
pub open spec fn pixel_at(data: Seq<u8>, pos: nat, wide: bool) -> Pixel {
    Pixel {
        r: sample_at(data, pos, wide),
        g: sample_at(data, pos + sample_bytes(wide), wide),
        b: sample_at(data, pos + 2 * sample_bytes(wide), wide),
    }
}

/// `width` pixels from `pos` on, and the index after them; `None` if the
/// data ends first.
pub open spec fn decode_row(data: Seq<u8>, pos: nat, width: nat, wide: bool) -> Option<
    (Seq<Pixel>, nat),
>
    decreases width,
{
    if width == 0 {
        Some((Seq::empty(), pos))
    } else if pos + 3 * sample_bytes(wide) > data.len() {
        None
    } else {
        match decode_row(data, pos + 3 * sample_bytes(wide), (width - 1) as nat, wide) {
            None => None,
            Some((rest, end)) => Some((seq![pixel_at(data, pos, wide)] + rest, end)),
        }
    }
}

/// `height` rows of `width` pixels from `pos` on; `None` if the data ends
/// first.
pub open spec fn decode_rows(data: Seq<u8>, pos: nat, height: nat, width: nat, wide: bool) -> Option<
    Seq<Seq<Pixel>>,
>
    decreases height,
{
    if height == 0 {
        Some(Seq::empty())
    } else {
        match decode_row(data, pos, width, wide) {
            None => None,
            Some((row, end)) => match decode_rows(data, end, (height - 1) as nat, width, wide) {
                None => None,
                Some(rest) => Some(seq![row] + rest),
            },
        }
    }
}

/// A whole image from `pos` on: its width, height and pixel rows.
pub open spec fn decode_spec(data: Seq<u8>, pos: nat) -> Result<(u32, u32, Seq<Seq<Pixel>>), PpmError> {
    match magic_spec(data, pos) {
        Err(e) => Err(e),
        Ok(p1) => match sizes_spec(data, p1) {
            Err(e) => Err(e),
            Ok((w, h, p2)) => match max_value_spec(data, p2) {
                Err(e) => Err(e),
                Ok((m, p3)) => match decode_rows(data, p3, h as nat, w as nat, m > 255) {
                    None => Err(PpmError::Truncated),
                    Some(rows) => Ok((w, h, rows)),
                },
            },
        },
    }
}

proof fn lemma_decode_row_len(data: Seq<u8>, pos: nat, width: nat, wide: bool)
    ensures
        decode_row(data, pos, width, wide) matches Some((row, _)) ==> row.len() == width,
    decreases width,
{
    if width > 0 {
        lemma_decode_row_len(data, pos + 3 * sample_bytes(wide), (width - 1) as nat, wide);
    }
}

/// Reads a one-byte sample.
pub fn read_u8(cursor: &mut ByteCursor) -> (r: Option<u8>)
    ensures
        final(cursor).bytes() == old(cursor).bytes(),
        old(cursor).at() < old(cursor).bytes().len() ==> r == Some(
            old(cursor).bytes()[old(cursor).at() as int],
        ) && final(cursor).at() == old(cursor).at() + 1,
        old(cursor).at() >= old(cursor).bytes().len() ==> r is None,
{
    cursor.read_char()
}

/// Reads a two-byte sample, most significant byte first.
pub fn read_u16(cursor: &mut ByteCursor) -> (r: Option<u16>)
    ensures
        final(cursor).bytes() == old(cursor).bytes(),
        old(cursor).at() + 2 <= old(cursor).bytes().len() ==> r == Some(
            sample_at(old(cursor).bytes(), old(cursor).at(), true),
        ) && final(cursor).at() == old(cursor).at() + 2,
        old(cursor).at() + 2 > old(cursor).bytes().len() ==> r is None,
{
    let hi = match cursor.read_char() {
        None => {
            return None;
        },
        Some(b) => b,
    };
    let lo = match cursor.read_char() {
        None => {
            return None;
        },
        Some(b) => b,
    };
    Some(hi as u16 * 256 + lo as u16)
}

/// Reads a pixel of one-byte samples, if three bytes remain.
pub fn build_pixel_u8(cursor: &mut ByteCursor) -> (r: Option<Pixel>)
    ensures
        final(cursor).bytes() == old(cursor).bytes(),
        old(cursor).at() + 3 <= old(cursor).bytes().len() ==> r == Some(
            pixel_at(old(cursor).bytes(), old(cursor).at(), false),
        ) && final(cursor).at() == old(cursor).at() + 3,
        old(cursor).at() + 3 > old(cursor).bytes().len() ==> r is None,
{
    let r = match read_u8(cursor) {
        None => {
            return None;
        },
        Some(v) => v,
    };
    let g = match read_u8(cursor) {
        None => {
            return None;
        },
        Some(v) => v,
    };
    let b = match read_u8(cursor) {
        None => {
            return None;
        },
        Some(v) => v,
    };
    Some(Pixel { r: r as u16, g: g as u16, b: b as u16 })
}

/// Reads a pixel of two-byte samples, if six bytes remain.
pub fn build_pixel_u16(cursor: &mut ByteCursor) -> (r: Option<Pixel>)
    ensures
        final(cursor).bytes() == old(cursor).bytes(),
        old(cursor).at() + 6 <= old(cursor).bytes().len() ==> r == Some(
            pixel_at(old(cursor).bytes(), old(cursor).at(), true),
        ) && final(cursor).at() == old(cursor).at() + 6,
        old(cursor).at() + 6 > old(cursor).bytes().len() ==> r is None,
{
    let r = match read_u16(cursor) {
        None => {
            return None;
        },
        Some(v) => v,
    };
    let g = match read_u16(cursor) {
        None => {
            return None;
        },
        Some(v) => v,
    };
    let b = match read_u16(cursor) {
        None => {
            return None;
        },
        Some(v) => v,
    };
    Some(Pixel { r, g, b })
}

fn read_row(cursor: &mut ByteCursor, width: u32, wide: bool) -> (r: Option<Vec<Pixel>>)
    ensures
        final(cursor).bytes() == old(cursor).bytes(),
        match decode_row(old(cursor).bytes(), old(cursor).at(), width as nat, wide) {
            None => r is None,
            Some((row, end)) => r matches Some(v) && v@ == row && final(cursor).at() == end,
        },
{
    let ghost data = cursor.bytes();
    let mut row: Vec<Pixel> = Vec::new();
    let mut c: u32 = 0;
    while c < width
        invariant
            cursor.bytes() == data,
            data == old(cursor).bytes(),
            c <= width,
            decode_row(data, old(cursor).at(), width as nat, wide) == match decode_row(
                data,
                cursor.at(),
                (width - c) as nat,
                wide,
            ) {
                None => None,
                Some((rest, end)) => Some((row@ + rest, end)),
            },
        decreases width - c,
    {
        let ghost here = cursor.at();
        let p = if wide {
            build_pixel_u16(cursor)
        } else {
            build_pixel_u8(cursor)
        };
        match p {
            None => {
                return None;
            },
            Some(px) => {
                proof {
                    let tail = decode_row(data, cursor.at(), (width - c - 1) as nat, wide);
                    if let Some((rest, end)) = tail {
                        assert(row@.push(px) + rest =~= row@ + (seq![px] + rest));
                    }
                }
                row.push(px);
            },
        }
        c = c + 1;
    }
    Some(row)
}

/// Decodes a whole binary PPM image from the cursor's position.
pub fn decode_ppm_image(cursor: &mut ByteCursor) -> (r: Result<Image, PpmError>)
    ensures
        match decode_spec(old(cursor).bytes(), old(cursor).at()) {
            Ok((w, h, rows)) => r matches Ok(img) && img.width == w && img.height == h
                && img.grid() == rows && img.wf(),
            Err(e) => r matches Err(x) && x == e,
        },
{
    let ghost data = cursor.bytes();
    let mut image = Image { width: 0, height: 0, pixels: Vec::new() };
    read_constants(cursor)?;
    read_size_or_comment(cursor, &mut image)?;
    let max_size = read_max_value_or_comment(cursor)?;
    let wide = max_size > 255;
    let width = image.width;
    let height = image.height;
    let ghost start = cursor.at();
    let mut pixels: Vec<Vec<Pixel>> = Vec::new();
    let mut r: u32 = 0;
    while r < height
        invariant
            cursor.bytes() == data,
            data == old(cursor).bytes(),
            decode_spec(data, old(cursor).at()) == match decode_rows(
                data,
                start,
                height as nat,
                width as nat,
                wide,
            ) {
                None => Err(PpmError::Truncated),
                Some(rows) => Ok((width, height, rows)),
            },
            r <= height,
            forall|i: int| 0 <= i < pixels@.len() ==> #[trigger] pixels@[i]@.len() == width,
            pixels@.len() == r,
            decode_rows(data, start, height as nat, width as nat, wide) == match decode_rows(
                data,
                cursor.at(),
                (height - r) as nat,
                width as nat,
                wide,
            ) {
                None => None,
                Some(rest) => Some(pixels@.map_values(|v: Vec<Pixel>| v@) + rest),
            },
        decreases height - r,
    {
        let ghost here = cursor.at();
        let row = match read_row(cursor, width, wide) {
            None => {
                return Err(PpmError::Truncated);
            },
            Some(v) => v,
        };
        proof {
            lemma_decode_row_len(data, here, width as nat, wide);
            let tail = decode_rows(data, cursor.at(), (height - r - 1) as nat, width as nat, wide);
            if let Some(rest) = tail {
                assert(pixels@.push(row).map_values(|v: Vec<Pixel>| v@) + rest =~= pixels@.map_values(
                    |v: Vec<Pixel>| v@,
                ) + (seq![row@] + rest));
            }
        }
        pixels.push(row);
        r = r + 1;
    }
    proof {
        assert(pixels@.map_values(|v: Vec<Pixel>| v@) + Seq::empty() =~= pixels@.map_values(
            |v: Vec<Pixel>| v@,
        ));
    }
    image.pixels = pixels;
    Ok(image)
}

} // verus!
