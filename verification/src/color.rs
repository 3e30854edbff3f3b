//! Pixel colors: luminance, contrast color, and textual color formats.

use vstd::prelude::*;

verus! {

/// A pixel as 8-bit red, green and blue channels.
pub type Pixel = (u8, u8, u8);

/// Standard grayscale weighting of a pixel (luma coefficients scaled by
/// 10000, truncated integer division).
pub open spec fn luma_spec(p: Pixel) -> int {
    ((p.0 as int) * 2126 + (p.1 as int) * 7152 + (p.2 as int) * 722) / 10000
}

/// The grayscale weighting always lands in the 8-bit range.
pub proof fn lemma_luma_spec_bounds(p: Pixel)
    ensures
        0 <= luma_spec(p) <= 255,
{
    assert(0 <= ((p.0 as int) * 2126 + (p.1 as int) * 7152 + (p.2 as int) * 722) / 10000
        <= 255) by (nonlinear_arith)
        requires
            0 <= p.0 <= 255,
            0 <= p.1 <= 255,
            0 <= p.2 <= 255,
    ;
}

/// Grayscale value of a pixel.
pub fn luma(p: Pixel) -> (r: u8)
    ensures
        r == luma_spec(p),
{
    let weighted: u32 = (p.0 as u32) * 2126 + (p.1 as u32) * 7152 + (p.2 as u32) * 722;
    (weighted / 10000) as u8
}

/// The gray level that contrasts most with a pixel: full white for dark
/// input, full black for bright input, linear in between.
pub fn contrast_color(p: Pixel) -> (r: u8)
    ensures
        r == 255 - luma_spec(p),
{
    255 - luma(p)
}

/// The textual form a picked color is reported in.
#[derive(Clone, Copy, PartialEq, Eq, Structural, Debug)]
pub enum ColorFormat {
    /// `#RRGGBB` with uppercase hexadecimal digits.
    Hex,
    /// `RRR, GGG, BBB` in decimal.
    Rgb,
}

/// The uppercase hexadecimal digit for a value below 16, as an ASCII byte.
pub open spec fn hex_digit(d: int) -> u8 {
    if d < 10 {
        (48 + d) as u8
    } else {
        (55 + d) as u8
    }
}

/// The two hexadecimal digits of a byte.
pub open spec fn hex_byte_seq(v: u8) -> Seq<u8> {
    seq![hex_digit(v as int / 16), hex_digit(v as int % 16)]
}

/// The decimal digits of a nonnegative value, most significant first, no
/// leading zeros.
pub open spec fn dec_byte_seq(n: int) -> Seq<u8>
    decreases n,
{
    if n < 10 {
        seq![(48 + n) as u8]
    } else {
        dec_byte_seq(n / 10) + seq![(48 + n % 10) as u8]
    }
}

/// The ASCII bytes that describe a pixel in the given format: `#RRGGBB`,
/// or the three decimal channel values separated by comma and space.
pub open spec fn format_spec(format: ColorFormat, p: Pixel) -> Seq<u8> {
    match format {
        ColorFormat::Hex => seq![35u8] + hex_byte_seq(p.0) + hex_byte_seq(p.1) + hex_byte_seq(p.2),
        ColorFormat::Rgb => dec_byte_seq(p.0 as int) + seq![44u8, 32u8] + dec_byte_seq(p.1 as int)
            + seq![44u8, 32u8] + dec_byte_seq(p.2 as int),
    }
}

impl ColorFormat {
    /// The flag value that selects this format.
    pub fn name(&self) -> (r: &'static str)
        ensures
            *self is Hex ==> r@ == "hex"@,
            *self is Rgb ==> r@ == "rgb"@,
    {
        match self {
            ColorFormat::Hex => "hex",
            ColorFormat::Rgb => "rgb",
        }
    }
}

/// Appends the two hexadecimal digits of `v`.
fn push_hex(out: &mut Vec<u8>, v: u8)
    ensures
        final(out)@ == old(out)@ + hex_byte_seq(v),
{
    let hi = v / 16;
    let lo = v % 16;
    out.push(if hi < 10 { 48 + hi } else { 55 + hi });
    out.push(if lo < 10 { 48 + lo } else { 55 + lo });
    proof {
        assert(out@ =~= old(out)@ + hex_byte_seq(v));
    }
}

/// Appends the decimal digits of `v`, most significant first.
fn push_dec(out: &mut Vec<u8>, v: u8)
    ensures
        final(out)@ == old(out)@ + dec_byte_seq(v as int),
{
    proof {
        if v >= 100 {
            assert((v as int / 10) / 10 == v as int / 100) by (nonlinear_arith);
            assert((v as int / 10) % 10 == v as int / 10 - (v as int / 100) * 10)
                by (nonlinear_arith);
        } else if v >= 10 {
        }
    }
    if v >= 100 {
        out.push(48 + v / 100);
        out.push(48 + (v / 10) % 10);
        out.push(48 + v % 10);
        proof {
            reveal_with_fuel(dec_byte_seq, 4);
            assert(dec_byte_seq(v as int) =~= seq![(48 + v as int / 100) as u8, (48 + (v as int
                / 10) % 10) as u8, (48 + v as int % 10) as u8]);
            assert(out@ =~= old(out)@ + dec_byte_seq(v as int));
        }
    } else if v >= 10 {
        out.push(48 + v / 10);
        out.push(48 + v % 10);
        proof {
            reveal_with_fuel(dec_byte_seq, 3);
            assert(dec_byte_seq(v as int) =~= seq![(48 + v as int / 10) as u8, (48 + v as int
                % 10) as u8]);
            assert(out@ =~= old(out)@ + dec_byte_seq(v as int));
        }
    } else {
        out.push(48 + v);
        proof {
            assert(out@ =~= old(out)@ + dec_byte_seq(v as int));
        }
    }
}

/// The ASCII text for a picked color in the chosen format.
pub fn format_color(format: ColorFormat, p: Pixel) -> (r: Vec<u8>)
    ensures
        r@ == format_spec(format, p),
{
    let mut out: Vec<u8> = Vec::new();
    match format {
        ColorFormat::Hex => {
            out.push(35);
            push_hex(&mut out, p.0);
            push_hex(&mut out, p.1);
            push_hex(&mut out, p.2);
            proof {
                assert(out@ =~= format_spec(format, p));
            }
        },
        ColorFormat::Rgb => {
            push_dec(&mut out, p.0);
            out.push(44);
            out.push(32);
            push_dec(&mut out, p.1);
            out.push(44);
            out.push(32);
            push_dec(&mut out, p.2);
            proof {
                assert(out@ =~= format_spec(format, p));
            }
        },
    }
    out
}

} // verus!
