//! Pictures, and their text in the plain portable pixmap format.
use vstd::prelude::*;

verus! {

/// One dot of a picture: red, green and blue, each from 0 to 255.
#[derive(Clone, Copy, Debug, PartialEq, Eq, Structural)]
pub struct Pixel {
    pub r: u8,
    pub g: u8,
    pub b: u8,
}

/// A picture: `width * height` pixels, row by row from the top, each row from
/// the left.
#[derive(Debug)]
pub struct Image {
    pub width: i32,
    pub height: i32,
    pub pixels: Vec<Pixel>,
}

/// The digits of `n` in base ten, as ASCII, without leading zeros.
pub open spec fn digits_spec(n: nat) -> Seq<u8>
    decreases n,
{
    if n < 10 {
        seq![(48 + n) as u8]
    } else {
        digits_spec(n / 10).push((48 + n % 10) as u8)
    }
}

/// `n` in base ten, as ASCII, with a minus sign where it is below zero.
pub open spec fn decimal_spec(n: int) -> Seq<u8> {
    if n < 0 {
        seq![45u8] + digits_spec((-n) as nat)
    } else {
        digits_spec(n as nat)
    }
}

/// The line of a pixel: its three numbers with a space between them, and a line
/// feed.
pub open spec fn pixel_line_spec(p: Pixel) -> Seq<u8> {
    decimal_spec(p.r as int) + seq![32u8] + decimal_spec(p.g as int) + seq![32u8] + decimal_spec(p.b as int)
        + seq![10u8]
}

/// The lines of `pixels`, one after the other.
pub open spec fn pixel_lines_spec(pixels: Seq<Pixel>) -> Seq<u8>
    decreases pixels.len(),
{
    if pixels.len() == 0 {
        Seq::<u8>::empty()
    } else {
        pixel_lines_spec(pixels.drop_last()) + pixel_line_spec(pixels.last())
    }
}

/// The three lines that open a pixmap: `P3`, width and height, and `255`.
pub open spec fn header_spec(width: int, height: int) -> Seq<u8> {
    seq![80u8, 51u8, 10u8] + decimal_spec(width) + seq![32u8] + decimal_spec(height) + seq![10u8] + seq![
        50u8,
        53u8,
        53u8,
        10u8,
    ]
}

/// Appends the digits of `n`.
pub fn push_digits(out: &mut Vec<u8>, n: u64)
    ensures
        final(out)@ == old(out)@ + digits_spec(n as nat),
    decreases n,
{
    if n >= 10 {
        push_digits(out, n / 10);
    }
    out.push(48 + (n % 10) as u8);
    assert(final(out)@ == old(out)@ + digits_spec(n as nat)) by {
        if n >= 10 {
            assert((old(out)@ + digits_spec((n / 10) as nat)).push((48 + n % 10) as u8) =~= old(out)@ + digits_spec(
                (n / 10) as nat,
            ).push((48 + n % 10) as u8));
        } else {
            assert(old(out)@.push((48 + n) as u8) =~= old(out)@ + seq![(48 + n) as u8]);
        }
    }
}

/// Appends `n` in base ten.
pub fn push_decimal(out: &mut Vec<u8>, n: i64)
    ensures
        final(out)@ == old(out)@ + decimal_spec(n as int),
{
    if n < 0 {
        out.push(45);
        let m: u64 = (-(n + 1)) as u64 + 1;
        push_digits(out, m);
        assert(final(out)@ =~= old(out)@ + (seq![45u8] + digits_spec((-n) as nat)));
    } else {
        push_digits(out, n as u64);
    }
}

/// Appends the line of the pixel `p`.
pub fn push_pixel_line(out: &mut Vec<u8>, p: Pixel)
    ensures
        final(out)@ == old(out)@ + pixel_line_spec(p),
{
    push_decimal(out, p.r as i64);
    out.push(32);
    push_decimal(out, p.g as i64);
    out.push(32);
    push_decimal(out, p.b as i64);
    out.push(10);
    assert(final(out)@ =~= old(out)@ + pixel_line_spec(p));
}

impl Image {
    /// The text of the picture: the header, then the line of each pixel.
    pub open spec fn to_ppm_spec(self) -> Seq<u8> {
        header_spec(self.width as int, self.height as int) + pixel_lines_spec(self.pixels@)
    }

    /// The text of the picture in the plain portable pixmap format.
    pub fn to_ppm(&self) -> (out: Vec<u8>)
        ensures
            out@ == self.to_ppm_spec(),
    {
        let mut out: Vec<u8> = Vec::new();
        out.push(80);
        out.push(51);
        out.push(10);
        push_decimal(&mut out, self.width as i64);
        out.push(32);
        push_decimal(&mut out, self.height as i64);
        out.push(10);
        out.push(50);
        out.push(53);
        out.push(53);
        out.push(10);
        assert(out@ =~= header_spec(self.width as int, self.height as int));
        let mut i: usize = 0;
        while i < self.pixels.len()
            invariant
                i <= self.pixels.len(),
                out@ == header_spec(self.width as int, self.height as int) + pixel_lines_spec(
                    self.pixels@.subrange(0, i as int),
                ),
            decreases self.pixels.len() - i,
        {
            let ghost before = out@;
            push_pixel_line(&mut out, self.pixels[i]);
            proof {
                let next = self.pixels@.subrange(0, i as int + 1);
                assert(next.drop_last() == self.pixels@.subrange(0, i as int));
                assert(next.last() == self.pixels@[i as int]);
                assert(out@ =~= header_spec(self.width as int, self.height as int) + pixel_lines_spec(next));
            }
            i = i + 1;
        }
        assert(self.pixels@.subrange(0, i as int) == self.pixels@);
        out
    }
}

} // verus!
