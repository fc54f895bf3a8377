//! The text of a plain PPM file: a header with the magic number of the
//! format, the image's width and height and the largest channel value, 255,
//! then one line per pixel with its red, green and blue in decimal, in the
//! order in which `image` places the pixels.

use vstd::prelude::*;
use crate::image::Rgb;

verus! {

pub const NEWLINE: u8 = 10;

pub const SPACE: u8 = 32;

/// The digit `0`; the other digits follow it.
pub const DIGIT_ZERO: u8 = 48;

/// The letter `P`.
pub const LETTER_P: u8 = 80;

/// `n` in decimal, without leading zeros.
pub open spec fn decimal(n: nat) -> Seq<u8>
    decreases n,
{
    if n < 10 {
        seq![(DIGIT_ZERO + n) as u8]
    } else {
        decimal(n / 10).push((DIGIT_ZERO + n % 10) as u8)
    }
}

/// The magic number, then width and height on one line, then `255`.
pub open spec fn header_text(width: nat, height: nat) -> Seq<u8> {
    seq![LETTER_P, (DIGIT_ZERO + 3) as u8, NEWLINE] + decimal(width) + seq![SPACE] + decimal(height)
        + seq![NEWLINE, (DIGIT_ZERO + 2) as u8, (DIGIT_ZERO + 5) as u8, (DIGIT_ZERO + 5) as u8, NEWLINE]
}

/// The line of one pixel.
pub open spec fn triplet_text(p: Rgb) -> Seq<u8> {
    decimal(p.r as nat) + seq![SPACE] + decimal(p.g as nat) + seq![SPACE] + decimal(p.b as nat)
        + seq![NEWLINE]
}

/// The lines of the pixels, in their order.
pub open spec fn body_text(pixels: Seq<Rgb>) -> Seq<u8>
    decreases pixels.len(),
{
    if pixels.len() == 0 {
        Seq::empty()
    } else {
        body_text(pixels.drop_last()) + triplet_text(pixels.last())
    }
}

/// The whole file.
pub open spec fn file_text(width: nat, height: nat, pixels: Seq<Rgb>) -> Seq<u8> {
    header_text(width, height) + body_text(pixels)
}

fn push_decimal(out: &mut Vec<u8>, n: u32)
    ensures
        final(out)@ == old(out)@ + decimal(n as nat),
    decreases n,
{
    if n < 10 {
        out.push(DIGIT_ZERO + (n as u8));
        assert(out@ =~= old(out)@ + decimal(n as nat));
    } else {
        push_decimal(out, n / 10);
        out.push(DIGIT_ZERO + ((n % 10) as u8));
        assert(out@ =~= old(out)@ + decimal(n as nat));
    }
}

fn push_triplet(out: &mut Vec<u8>, p: Rgb)
    ensures
        final(out)@ == old(out)@ + triplet_text(p),
{
    push_decimal(out, p.r as u32);
    out.push(SPACE);
    push_decimal(out, p.g as u32);
    out.push(SPACE);
    push_decimal(out, p.b as u32);
    out.push(NEWLINE);
    assert(out@ =~= old(out)@ + triplet_text(p));
}

/// The header of an image of `width` by `height` pixels.
pub fn header(width: u32, height: u32) -> (out: Vec<u8>)
    ensures
        out@ == header_text(width as nat, height as nat),
{
    let mut out: Vec<u8> = Vec::new();
    out.push(LETTER_P);
    out.push(DIGIT_ZERO + 3);
    out.push(NEWLINE);
    push_decimal(&mut out, width);
    out.push(SPACE);
    push_decimal(&mut out, height);
    out.push(NEWLINE);
    out.push(DIGIT_ZERO + 2);
    out.push(DIGIT_ZERO + 5);
    out.push(DIGIT_ZERO + 5);
    out.push(NEWLINE);
    assert(out@ =~= header_text(width as nat, height as nat));
    out
}

/// The line of one pixel.
pub fn triplet(p: Rgb) -> (out: Vec<u8>)
    ensures
        out@ == triplet_text(p),
{
    let mut out: Vec<u8> = Vec::new();
    push_triplet(&mut out, p);
    assert(out@ =~= triplet_text(p));
    out
}

/// The file of an image of `width` by `height` pixels; none unless
/// `pixels` holds exactly that many.
pub fn encode(width: u32, height: u32, pixels: &Vec<Rgb>) -> (out: Option<Vec<u8>>)
    ensures
        pixels.len() == width * height ==> (out matches Some(text) && text@ == file_text(
            width as nat,
            height as nat,
            pixels@,
        )),
        pixels.len() != width * height ==> out is None,
{
    if pixels.len() as u64 != crate::image::area(width, height) {
        return None;
    }
    let mut out = header(width, height);
    let mut k: usize = 0;
    while k < pixels.len()
        invariant
            k <= pixels.len(),
            out@ == header_text(width as nat, height as nat) + body_text(pixels@.take(k as int)),
        decreases pixels.len() - k,
    {
        push_triplet(&mut out, pixels[k]);
        proof {
            let next = pixels@.take(k + 1);
            assert(next.drop_last() =~= pixels@.take(k as int));
            assert(next.last() == pixels@[k as int]);
            assert(out@ =~= header_text(width as nat, height as nat) + body_text(next));
        }
        k = k + 1;
    }
    assert(pixels@.take(k as int) =~= pixels@);
    Some(out)
}

/// A number's text is made of digits, at least one, and starts with `0`
/// only if the number is 0.
pub proof fn lemma_decimal_digits(n: nat)
    ensures
        decimal(n).len() >= 1,
        forall|k: int|
            0 <= k < decimal(n).len() ==> DIGIT_ZERO <= #[trigger] decimal(n)[k] <= DIGIT_ZERO + 9,
        decimal(n)[0] == DIGIT_ZERO <==> n == 0,
    decreases n,
{
    if n >= 10 {
        lemma_decimal_digits(n / 10);
    }
}

} // verus!
