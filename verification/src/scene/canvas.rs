//! The pixel buffer that rendered colours are written to.

use vstd::prelude::*;
use crate::primitives::color::Color;

verus! {

/// The decimal digits of `n` in ASCII, the most significant first.
pub open spec fn decimal(n: nat) -> Seq<u8>
    decreases n,
{
    if n < 10 {
        seq![(48 + n) as u8]
    } else {
        decimal(n / 10).push((48 + n % 10) as u8)
    }
}

/// The number that a run of ASCII digits spells.
pub open spec fn spelled(digits: Seq<u8>) -> nat
    decreases digits.len(),
{
    if digits.len() == 0 {
        0
    } else {
        (10 * spelled(digits.drop_last()) + (digits.last() - 48)) as nat
    }
}

/// The digits of a number are digits, spell the number, and start with a
/// zero only where the number is zero.
pub proof fn lemma_decimal_spells(n: nat)
    ensures
        decimal(n).len() >= 1,
        forall|k: int| 0 <= k < decimal(n).len() ==> 48 <= #[trigger] decimal(n)[k] <= 57,
        spelled(decimal(n)) == n,
        decimal(n)[0] == 48 <==> n == 0,
    decreases n,
{
    if n < 10 {
        assert(decimal(n).drop_last() =~= Seq::<u8>::empty());
        assert(spelled(decimal(n).drop_last()) == 0);
    } else {
        lemma_decimal_spells(n / 10);
        assert(decimal(n).drop_last() =~= decimal(n / 10));
        assert(decimal(n)[0] == decimal(n / 10)[0]);
    }
}

/// The head of a plain PPM file: the magic number of the plain format, the
/// width and the height, and the greatest sample, 255, each on its line.
pub open spec fn ppm_header(width: nat, height: nat) -> Seq<u8> {
    seq![0x50u8, 0x33u8, 0x0au8] + decimal(width) + seq![0x20u8] + decimal(height) + seq![
        0x0au8,
        0x32u8,
        0x35u8,
        0x35u8,
        0x0au8,
    ]
}

/// The line of one pixel: its red, green and blue sample, with a space
/// between them.
pub open spec fn ppm_line(sample: (u8, u8, u8)) -> Seq<u8> {
    decimal(sample.0 as nat) + seq![0x20u8] + decimal(sample.1 as nat) + seq![0x20u8] + decimal(
        sample.2 as nat,
    ) + seq![0x0au8]
}

/// The lines of the given pixels, one after the other.
pub open spec fn ppm_body(samples: Seq<(u8, u8, u8)>) -> Seq<u8>
    decreases samples.len(),
{
    if samples.len() == 0 {
        Seq::empty()
    } else {
        ppm_body(samples.drop_last()) + ppm_line(samples.last())
    }
}

/// Appends the decimal digits of `n` to `out`.
fn push_decimal(out: &mut Vec<u8>, n: usize)
    ensures
        final(out)@ == old(out)@ + decimal(n as nat),
    decreases n,
{
    if n >= 10 {
        push_decimal(out, n / 10);
    }
    out.push((48 + n % 10) as u8);
    proof {
        assert(out@ =~= old(out)@ + decimal(n as nat));
    }
}

/// Appends the line of one pixel to `out`.
fn push_line(out: &mut Vec<u8>, sample: (u8, u8, u8))
    ensures
        final(out)@ == old(out)@ + ppm_line(sample),
{
    push_decimal(out, sample.0 as usize);
    out.push(0x20);
    push_decimal(out, sample.1 as usize);
    out.push(0x20);
    push_decimal(out, sample.2 as usize);
    out.push(0x0a);
    proof {
        assert(out@ =~= old(out)@ + ppm_line(sample));
    }
}

/// A grid of pixels, `width` wide and `height` high, stored row by row.
pub struct Canvas {
    pub width: usize,
    pub height: usize,
    pub pixels: Vec<Color>,
}

impl Canvas {
    /// Whether the buffer holds one pixel for each place of the grid.
    pub open spec fn wf(self) -> bool {
        self.pixels@.len() == self.width * self.height
    }

    /// The pixel in column `x` of row `y`.
    pub open spec fn at(self, x: int, y: int) -> Color {
        self.pixels@[y * self.width + x]
    }

    /// The place of a pixel of the grid lies inside the buffer.
    pub proof fn lemma_place_in_buffer(width: int, height: int, x: int, y: int)
        requires
            0 <= x < width,
            0 <= y < height,
        ensures
            0 <= y * width,
            y * width + x < width * height,
    {
        assert(y * width + x < width * height) by (nonlinear_arith)
            requires
                0 <= x < width,
                0 <= y < height,
        {
            assert((y + 1) * width <= height * width);
            assert((y + 1) * width == y * width + width);
        }
        assert(0 <= y * width) by (nonlinear_arith)
            requires
                0 <= y,
                0 <= width,
        ;
    }

    /// A black canvas of the given size.
    pub fn new(width: usize, height: usize) -> (c: Canvas)
        requires
            width * height <= usize::MAX,
        ensures
            c.wf(),
            c.width == width,
            c.height == height,
            forall|k: int| 0 <= k < width * height ==> c.pixels@[k] == Color::spec_black(),
    {
        let size = width * height;
        let mut pixels: Vec<Color> = Vec::new();
        let mut k: usize = 0;
        while k < size
            invariant
                k <= size,
                pixels@.len() == k,
                forall|n: int| 0 <= n < k ==> pixels@[n] == Color::spec_black(),
            decreases size - k,
        {
            pixels.push(Color::black());
            k += 1;
        }
        Canvas { width, height, pixels }
    }

    /// Paints the pixel in column `x` of row `y`.  A place outside the grid
    /// is left alone, and so is the canvas.
    pub fn draw_pixel(&mut self, x: usize, y: usize, color: Color)
        requires
            old(self).wf(),
        ensures
            final(self).wf(),
            final(self).width == old(self).width,
            final(self).height == old(self).height,
            x < old(self).width && y < old(self).height ==> final(self).pixels@ == old(
                self,
            ).pixels@.update(y * old(self).width + x, color),
            !(x < old(self).width && y < old(self).height) ==> final(self).pixels@ == old(
                self,
            ).pixels@,
    {
        if y < self.height && x < self.width {
            proof {
                Canvas::lemma_place_in_buffer(
                    self.width as int,
                    self.height as int,
                    x as int,
                    y as int,
                );
                vstd::std_specs::vec::axiom_spec_len(&self.pixels);
            }
            let place = y * self.width + x;
            self.pixels[place] = color;
        }
    }

    /// The canvas as a plain PPM file, given the three 8-bit samples of each
    /// pixel in the order of the buffer: the head with the size of the
    /// canvas, then one line for each pixel.
    pub fn to_ppm(&self, samples: &Vec<(u8, u8, u8)>) -> (text: Vec<u8>)
        ensures
            text@ == ppm_header(self.width as nat, self.height as nat) + ppm_body(samples@),
    {
        let mut text: Vec<u8> = Vec::new();
        text.push(0x50);
        text.push(0x33);
        text.push(0x0a);
        push_decimal(&mut text, self.width);
        text.push(0x20);
        push_decimal(&mut text, self.height);
        text.push(0x0a);
        text.push(0x32);
        text.push(0x35);
        text.push(0x35);
        text.push(0x0a);
        proof {
            assert(text@ =~= ppm_header(self.width as nat, self.height as nat));
        }
        let n = samples.len();
        let mut k: usize = 0;
        while k < n
            invariant
                n == samples@.len(),
                k <= n,
                text@ == ppm_header(self.width as nat, self.height as nat) + ppm_body(
                    samples@.take(k as int),
                ),
            decreases n - k,
        {
            push_line(&mut text, samples[k]);
            proof {
                let next = samples@.take(k + 1);
                assert(next.drop_last() =~= samples@.take(k as int));
                assert(next.last() == samples@[k as int]);
                assert(text@ =~= ppm_header(self.width as nat, self.height as nat) + ppm_body(
                    next,
                ));
            }
            k += 1;
        }
        proof {
            assert(samples@.take(n as int) =~= samples@);
        }
        text
    }

    /// The pixel in column `x` of row `y`.
    pub fn pixel_at(&self, x: usize, y: usize) -> (color: Color)
        requires
            self.wf(),
            x < self.width,
            y < self.height,
        ensures
            color == self.at(x as int, y as int),
    {
        proof {
            Canvas::lemma_place_in_buffer(
                self.width as int,
                self.height as int,
                x as int,
                y as int,
            );
            vstd::std_specs::vec::axiom_spec_len(&self.pixels);
        }
        self.pixels[y * self.width + x]
    }
}

} // verus!
