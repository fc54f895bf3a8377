//! The image: where each pixel goes, and how a channel becomes one of the
//! 256 values that are written.
//!
//! Pixels are produced and written in one order: rows from the top of the
//! image to the bottom, and each row from left to right.  A pixel's
//! coordinates `(i, j)` count columns from the left and rows from the
//! bottom, as the camera's do, so the first pixel written is `(0, height - 1)`.

use vstd::prelude::*;
use vstd::arithmetic::power2::{lemma2_to64, pow2};
use crate::scalar::Scalar;
use crate::truncate::{lemma_below_one, lemma_truncated_monotone, lemma_whole_by_shift};

verus! {

/// One pixel: red, green and blue, each in `0..=255`.
#[derive(Clone, Copy, Debug, PartialEq, Eq, Structural)]
pub struct Rgb {
    pub r: u8,
    pub g: u8,
    pub b: u8,
}

/// `v` brought into `0..=255`.
pub open spec fn clamped(v: int) -> int {
    if v < 0 {
        0
    } else if v > 255 {
        255
    } else {
        v
    }
}

/// The channel value that is written for the quantized value `v`: `v`
/// itself where it is in range, else the nearest bound.
pub fn channel(v: i32) -> (c: u8)
    ensures
        c == clamped(v as int),
{
    if v < 0 {
        0
    } else if v > 255 {
        255
    } else {
        v as u8
    }
}

/// Clamping keeps the order of the values, and leaves alone what is in
/// range.
pub proof fn lemma_clamped_monotone(v: int, w: int)
    ensures
        v <= w ==> clamped(v) <= clamped(w),
        0 <= v <= 255 ==> clamped(v) == v,
        0 <= clamped(v) <= 255,
{
}

/// Bit pattern of `255.99`: a channel between 0 and 1 is multiplied by it
/// and then quantized.
pub const SCALE_BITS: u32 = 0x437f_fd71;

/// The channel value of a scaled channel: its integer part, clamped.
pub open spec fn quantized(scaled: Scalar) -> int {
    clamped(scaled.truncated())
}

/// The channel value that is written for a scaled channel.  What is out of
/// range is clamped, and a NaN is written as 0.
pub fn quantize(scaled: Scalar) -> (c: u8)
    ensures
        c == quantized(scaled),
{
    channel(scaled.truncate())
}

/// The scale, for the caller to multiply by.
pub fn scale() -> (s: Scalar)
    ensures
        s.bits == SCALE_BITS,
{
    Scalar::from_bits(SCALE_BITS)
}

/// A brighter channel is never written as a darker one.
pub proof fn lemma_quantized_monotone(a: Scalar, b: Scalar)
    requires
        a.at_most(b),
    ensures
        quantized(a) <= quantized(b),
{
    lemma_truncated_monotone(a, b);
}

/// The darkest channel is written as 0, and the brightest, the scale
/// itself, as 255.
pub proof fn lemma_quantized_bounds()
    ensures
        Scalar::zero().truncated() == 0,
        (Scalar { bits: SCALE_BITS }).truncated() == 255,
        quantized(Scalar::zero()) == 0,
        quantized(Scalar { bits: SCALE_BITS }) == 255,
{
    let top = Scalar { bits: SCALE_BITS };
    lemma_below_one(Scalar::zero());
    lemma_whole_by_shift(top);
    lemma2_to64();
    assert(top.exponent() == 134);
    assert(top.significand() == 0xff_fd71);
    let d = pow2((150 - top.exponent()) as nat) as int;
    assert(d == 0x1_0000);
    assert(top.whole() == top.significand() / d);
    assert(0xff_fd71int / 0x1_0000int == 255);
}

/// Between zero and the scale nothing is clamped: the channel value is the
/// integer part of the scaled channel.
pub proof fn lemma_quantized_in_range(scaled: Scalar)
    requires
        Scalar::zero().at_most(scaled),
        scaled.at_most(Scalar { bits: SCALE_BITS }),
    ensures
        quantized(scaled) == scaled.whole(),
        0 <= scaled.whole() <= 255,
{
    lemma_quantized_bounds();
    lemma_truncated_monotone(Scalar::zero(), scaled);
    lemma_truncated_monotone(scaled, Scalar { bits: SCALE_BITS });
    if scaled.sign_negative() {
        lemma_below_one(scaled);
    }
}

/// What is not above zero is written as 0, and so is a NaN.
pub proof fn lemma_quantized_dark(scaled: Scalar)
    requires
        scaled.is_nan() || scaled.at_most(Scalar::zero()),
    ensures
        quantized(scaled) == 0,
{
    if !scaled.is_nan() {
        lemma_quantized_bounds();
        lemma_truncated_monotone(scaled, Scalar::zero());
    }
}

/// The coordinates of the pixel written at place `index`.
pub open spec fn pixel_at(index: int, width: int, height: int) -> (int, int) {
    (index % width, height - 1 - index / width)
}

/// The place at which pixel `(i, j)` is written.
pub open spec fn place_of(i: int, j: int, width: int, height: int) -> int {
    (height - 1 - j) * width + i
}

/// The number of pixels of an image.
pub fn area(width: u32, height: u32) -> (n: u64)
    ensures
        n == width * height,
{
    assert(width * height <= 0xffff_ffff * 0xffff_ffff) by (nonlinear_arith)
        requires
            width <= 0xffff_ffff,
            height <= 0xffff_ffff,
    ;
    (width as u64) * (height as u64)
}

/// The coordinates `(i, j)` of the pixel written at place `index` of an
/// image of `width` by `height` pixels; none if the image has no such place.
pub fn pixel(index: u64, width: u32, height: u32) -> (r: Option<(u32, u32)>)
    ensures
        index < width * height ==> r == Some(
            (
                pixel_at(index as int, width as int, height as int).0 as u32,
                pixel_at(index as int, width as int, height as int).1 as u32,
            ),
        ),
        index >= width * height ==> r is None,
        r matches Some(p) ==> p.0 < width && p.1 < height,
{
    if index >= area(width, height) {
        return None;
    }
    assert(width > 0) by (nonlinear_arith)
        requires
            index < width * height,
    ;
    let w: u64 = width as u64;
    let row: u64 = index / w;
    let column: u64 = index % w;
    assert(row < height) by (nonlinear_arith)
        requires
            row == index / w,
            w == width,
            w > 0,
            index < width * height,
    ;
    Some((column as u32, height - 1 - (row as u32)))
}

/// The place at which pixel `(i, j)` is written; none if the image has no
/// such pixel.
pub fn place(i: u32, j: u32, width: u32, height: u32) -> (r: Option<u64>)
    ensures
        i < width && j < height ==> r == Some(
            place_of(i as int, j as int, width as int, height as int) as u64,
        ),
        !(i < width && j < height) ==> r is None,
        r matches Some(index) ==> index < width * height,
{
    if i >= width || j >= height {
        return None;
    }
    let rows_above: u64 = (height - 1 - j) as u64;
    assert(rows_above * width + i < width * height) by (nonlinear_arith)
        requires
            rows_above == height - 1 - j,
            i < width,
            j < height,
    ;
    assert(width * height <= 0xffff_ffff * 0xffff_ffff) by (nonlinear_arith)
        requires
            width <= 0xffff_ffff,
            height <= 0xffff_ffff,
    ;
    assert(0 <= rows_above * width) by (nonlinear_arith);
    Some(rows_above * (width as u64) + (i as u64))
}

/// Each pixel has one place and each place one pixel: `place_of` and
/// `pixel_at` undo each other.
pub proof fn lemma_place_pixel_inverse(width: int, height: int, index: int, i: int, j: int)
    requires
        width > 0,
        height > 0,
    ensures
        0 <= index < width * height ==> {
            let p = pixel_at(index, width, height);
            0 <= p.0 < width && 0 <= p.1 < height && place_of(p.0, p.1, width, height) == index
        },
        0 <= i < width && 0 <= j < height ==> {
            let k = place_of(i, j, width, height);
            0 <= k < width * height && pixel_at(k, width, height) == (i, j)
        },
{
    if 0 <= index < width * height {
        assert(index == width * (index / width) + index % width && 0 <= index % width < width
            && 0 <= index / width < height) by (nonlinear_arith)
            requires
                0 <= index < width * height,
                width > 0,
        ;
        assert((height - 1 - (height - 1 - index / width)) * width + index % width == index)
            by (nonlinear_arith)
            requires
                index == width * (index / width) + index % width,
        ;
    }
    if 0 <= i < width && 0 <= j < height {
        let k = place_of(i, j, width, height);
        assert(0 <= k < width * height && k / width == height - 1 - j && k % width == i)
            by (nonlinear_arith)
            requires
                k == (height - 1 - j) * width + i,
                0 <= i < width,
                0 <= j < height,
        ;
    }
}

/// Rows are written from the top down and each row from the left: of two
/// places, the later one is lower in the image, or in the same row and
/// further right.
pub proof fn lemma_top_down(width: int, height: int, first: int, second: int)
    requires
        width > 0,
        0 <= first < second < width * height,
    ensures
        ({
            let p = pixel_at(first, width, height);
            let q = pixel_at(second, width, height);
            q.1 < p.1 || (q.1 == p.1 && p.0 < q.0)
        }),
{
    assert(first / width <= second / width && (first / width == second / width ==> first % width
        < second % width)) by (nonlinear_arith)
        requires
            width > 0,
            0 <= first < second,
    ;
}

} // verus!
