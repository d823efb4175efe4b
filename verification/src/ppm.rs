//! The binary pixel-map encoding of an image: a short text header with the
//! dimensions, then three bytes for every pixel.

use crate::color::Color;
use crate::image::Image;
use crate::image::ImageView;
use vstd::prelude::*;

verus! {

/// The decimal numeral of `n` in ASCII, most significant digit first and
/// without leading zeros. The digit `d` has the code `0x30 + d`.
pub open spec fn decimal_digits(n: nat) -> Seq<u8>
    decreases n,
{
    if n < 10 {
        seq![(0x30 + n) as u8]
    } else {
        decimal_digits(n / 10).push((0x30 + n % 10) as u8)
    }
}

/// The header of a pixel map of the given dimensions: the magic number
/// `P6` (`0x50 0x36`) and a line feed (`0x0a`), the width, a space (`0x20`),
/// the height and a line feed, then the largest channel value, `255`
/// (`0x32 0x35 0x35`), and a line feed.
pub open spec fn header_format(width: nat, height: nat) -> Seq<u8> {
    seq![0x50u8, 0x36u8, 0x0au8] + decimal_digits(width) + seq![0x20u8] + decimal_digits(height)
        + seq![0x0au8, 0x32u8, 0x35u8, 0x35u8, 0x0au8]
}

/// The channels of all pixels, pixel after pixel.
pub open spec fn raster_bytes(pixels: Seq<Color>) -> Seq<u8> {
    pixels.flat_map(|color: Color| color.channels())
}

/// The whole encoding: the header for the image's dimensions, followed by
/// the pixels that it holds.
pub open spec fn file_format(image: ImageView) -> Seq<u8> {
    header_format(image.width, image.height) + raster_bytes(image.pixels)
}

/// The number that a sequence of ASCII digits denotes in base ten.
pub open spec fn decimal_value(digits: Seq<u8>) -> nat
    decreases digits.len(),
{
    if digits.len() == 0 {
        0
    } else {
        (10 * decimal_value(digits.drop_last()) + (digits.last() - 0x30)) as nat
    }
}

/// Whether `digits` is the numeral of some number: not empty, ASCII digits
/// only, and with a leading `0` only when that is the single digit.
pub open spec fn is_numeral(digits: Seq<u8>) -> bool {
    &&& digits.len() >= 1
    &&& forall|i: int| 0 <= i < digits.len() ==> 0x30 <= #[trigger] digits[i] <= 0x39
    &&& digits[0] == 0x30 ==> digits.len() == 1
}

/// The digits written for `n` are a numeral, and it denotes `n`.
pub proof fn lemma_decimal_digits_denote(n: nat)
    ensures
        is_numeral(decimal_digits(n)),
        decimal_value(decimal_digits(n)) == n,
    decreases n,
{
    if n < 10 {
        assert(decimal_digits(n).drop_last() =~= Seq::<u8>::empty());
        assert(decimal_value(decimal_digits(n).drop_last()) == 0);
    } else {
        let rest = decimal_digits(n / 10);
        lemma_decimal_digits_denote(n / 10);
        assert(decimal_digits(n).drop_last() =~= rest);
        assert(rest.len() == 1 ==> rest[0] != 0x30) by {
            if rest.len() == 1 && rest[0] == 0x30 {
                assert(rest.drop_last() =~= Seq::<u8>::empty());
                assert(decimal_value(rest.drop_last()) == 0);
            }
        }
    }
}

/// A numeral is the one that is written for the number it denotes: no two
/// numerals denote the same number.
pub proof fn lemma_numeral_is_unique(digits: Seq<u8>)
    requires
        is_numeral(digits),
    ensures
        decimal_digits(decimal_value(digits)) == digits,
    decreases digits.len(),
{
    let front = digits.drop_last();
    let unit = (digits.last() - 0x30) as nat;
    if digits.len() == 1 {
        assert(front =~= Seq::<u8>::empty());
        assert(decimal_value(front) == 0);
        assert(decimal_digits(unit) =~= digits);
    } else {
        lemma_numeral_front(digits);
        lemma_numeral_is_unique(front);
        lemma_leading_digit_counts(front);
        let value = 10 * decimal_value(front) + unit;
        assert(value >= 10);
        assert(value / 10 == decimal_value(front) && value % 10 == unit);
        assert(decimal_digits(value as nat) =~= digits);
    }
}

/// A numeral of two or more digits without its last digit is a numeral
/// again, and one that does not start with `0`.
proof fn lemma_numeral_front(digits: Seq<u8>)
    requires
        is_numeral(digits),
        digits.len() >= 2,
    ensures
        is_numeral(digits.drop_last()),
        digits.drop_last()[0] != 0x30,
{
    let front = digits.drop_last();
    assert(front[0] == digits[0]);
    assert forall|i: int| 0 <= i < front.len() implies 0x30 <= #[trigger] front[i] <= 0x39 by {
        assert(front[i] == digits[i]);
    }
}

/// A numeral that does not start with `0` denotes a number above zero.
proof fn lemma_leading_digit_counts(digits: Seq<u8>)
    requires
        is_numeral(digits),
        digits[0] != 0x30,
    ensures
        decimal_value(digits) >= 1,
    decreases digits.len(),
{
    let front = digits.drop_last();
    if digits.len() == 1 {
        assert(front =~= Seq::<u8>::empty());
        assert(decimal_value(front) == 0);
    } else {
        lemma_numeral_front(digits);
        lemma_leading_digit_counts(front);
    }
}

/// The bytes of a row of pixels are the bytes of all but the last pixel,
/// followed by the channels of the last.
proof fn lemma_raster_bytes_last(pixels: Seq<Color>)
    requires
        pixels.len() > 0,
    ensures
        raster_bytes(pixels) == raster_bytes(pixels.drop_last()) + pixels.last().channels(),
{
    let front = pixels.drop_last();
    assert(pixels =~= front.push(pixels.last()));
    front.lemma_flat_map_push(|color: Color| color.channels(), pixels.last());
}

/// Every pixel takes three bytes.
pub proof fn lemma_raster_bytes_len(pixels: Seq<Color>)
    ensures
        raster_bytes(pixels).len() == 3 * pixels.len(),
    decreases pixels.len(),
{
    if pixels.len() > 0 {
        lemma_raster_bytes_len(pixels.drop_last());
        lemma_raster_bytes_last(pixels);
    }
}

/// Channel `k` of pixel `i` is the byte at index `3 * i + k`.
pub proof fn lemma_raster_bytes_index(pixels: Seq<Color>, i: int, k: int)
    requires
        0 <= i < pixels.len(),
        0 <= k < 3,
    ensures
        3 * i + k < raster_bytes(pixels).len(),
        raster_bytes(pixels)[3 * i + k] == pixels[i].channels()[k],
    decreases pixels.len(),
{
    let front = pixels.drop_last();
    lemma_raster_bytes_len(front);
    lemma_raster_bytes_last(pixels);
    if i < front.len() {
        lemma_raster_bytes_index(front, i, k);
    }
}

/// Appends the decimal numeral of `n` to `out`.
pub fn write_decimal(out: &mut Vec<u8>, n: u32)
    ensures
        final(out)@ == old(out)@ + decimal_digits(n as nat),
    decreases n,
{
    if n >= 10 {
        write_decimal(out, n / 10);
    }
    let digit: u8 = (n % 10) as u8;
    out.push(0x30 + digit);
}

/// The header of a pixel map of the given dimensions.
pub fn header(width: u32, height: u32) -> (bytes: Vec<u8>)
    ensures
        bytes@ == header_format(width as nat, height as nat),
{
    let mut bytes: Vec<u8> = Vec::new();
    // "P6", line feed
    bytes.push(0x50);
    bytes.push(0x36);
    bytes.push(0x0a);
    write_decimal(&mut bytes, width);
    // space
    bytes.push(0x20);
    write_decimal(&mut bytes, height);
    // line feed, "255", line feed
    bytes.push(0x0a);
    bytes.push(0x32);
    bytes.push(0x35);
    bytes.push(0x35);
    bytes.push(0x0a);
    bytes
}

/// Encodes `image` as a binary pixel map.
pub fn encode(image: &Image) -> (bytes: Vec<u8>)
    ensures
        bytes@ == file_format(image@),
{
    let mut bytes = header(image.width(), image.height());
    let pixels = image.pixels();
    let mut i: usize = 0;
    while i < pixels.len()
        invariant
            i <= pixels.len(),
            pixels@ == image@.pixels,
            bytes@ == header_format(image@.width, image@.height) + raster_bytes(pixels@.take(i as int)),
        decreases pixels.len() - i,
    {
        let color = pixels[i];
        proof {
            pixels@.lemma_flat_map_take_append(|color: Color| color.channels(), i as int);
        }
        bytes.push(color.r);
        bytes.push(color.g);
        bytes.push(color.b);
        i += 1;
    }
    assert(pixels@.take(i as int) =~= pixels@);
    bytes
}

} // verus!
