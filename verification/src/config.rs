//! Startup configuration: the validated flag values handed to the picker,
//! the clamping bounds for the zoom controls, and the zoom-window-size
//! validator.

use vstd::prelude::*;
use vstd::string::StringSliceAdditionalSpecFns;
use crate::color::ColorFormat;

verus! {

/// The validated flag values the picker core consumes.  Parsing and
/// validating the command line happens outside the library; by the time an
/// `Args` reaches the core, `size` is a positive odd integer and `scale`
/// is at least 2.
pub struct Args {
    /// Turn the zoom on at the start (held-zoom style).
    pub zoom: bool,
    /// Requested zoom level; the stored zoom scale starts at its square.
    pub scale: u32,
    /// Side of the square captured by the zoom; positive and odd.
    pub size: u32,
    /// How the picked color is printed and copied.
    pub format: ColorFormat,
    /// Do not color the terminal output.
    pub disable_color: bool,
    /// Do not touch the clipboard.
    pub disable_clipboard: bool,
    /// Prefer an exclusive fullscreen video mode over a borderless window.
    pub exclusive: bool,
}

/// Clamping bounds for the zoom controls.  The zoom scale and the zoom
/// window size saturate at these bounds and never leave them.
pub struct ZoomPolicy {
    pub scale_min: u32,
    pub scale_max: u32,
    pub size_min: u32,
    pub size_max: u32,
}

impl ZoomPolicy {
    /// Sound bounds: ordered, odd size bounds (so stepping by two keeps
    /// the size odd), and small enough that a magnified square always fits
    /// a frame's dimension limit.
    pub open spec fn wf(&self) -> bool {
        &&& 1 <= self.scale_min <= self.scale_max
        &&& 1 <= self.size_min <= self.size_max
        &&& self.size_min % 2 == 1
        &&& self.size_max % 2 == 1
        &&& (self.size_max as int) * (self.scale_max as int) + 1 <= crate::frame::MAX_DIM
    }
}

impl Default for ZoomPolicy {
    /// The default bounds: zoom scale in `[2, 256]`, zoom window size in
    /// `[1, 63]`.
    fn default() -> (r: ZoomPolicy)
        ensures
            r.wf(),
            r == (ZoomPolicy { scale_min: 2, scale_max: 256, size_min: 1, size_max: 63 }),
    {
        ZoomPolicy { scale_min: 2, scale_max: 256, size_min: 1, size_max: 63 }
    }
}

/// `v` clamped into `[lo, hi]`.
pub open spec fn clamped(v: int, lo: int, hi: int) -> int {
    if v < lo {
        lo
    } else if v > hi {
        hi
    } else {
        v
    }
}

/// Whether `b` is an ASCII decimal digit.
pub open spec fn is_digit_byte(b: u8) -> bool {
    48 <= b <= 57
}

/// Every byte is a decimal digit.
pub open spec fn all_digit_bytes(bs: Seq<u8>) -> bool {
    forall|i: int| 0 <= i < bs.len() ==> is_digit_byte(#[trigger] bs[i])
}

/// The value of a digit string, most significant digit first.
pub open spec fn digits_value(bs: Seq<u8>) -> int
    decreases bs.len(),
{
    if bs.len() == 0 {
        0
    } else {
        digits_value(bs.drop_last()) * 10 + (bs.last() - 48)
    }
}

/// The digit part of a numeral: everything after one optional leading
/// plus sign.
pub open spec fn numeral_body(bs: Seq<u8>) -> Seq<u8> {
    if bs.len() > 0 && bs[0] == 43 {
        bs.drop_first()
    } else {
        bs
    }
}

/// A well-formed decimal numeral: an optional plus sign followed by at
/// least one digit.
pub open spec fn is_numeral(bs: Seq<u8>) -> bool {
    numeral_body(bs).len() > 0 && all_digit_bytes(numeral_body(bs))
}

/// Why a zoom window size was rejected.
#[derive(Clone, Copy, PartialEq, Eq, Structural, Debug)]
pub enum ZoomSizeError {
    /// The text is not a decimal numeral.
    NotANumber,
    /// The numeral's value does not fit 32 bits.
    TooLarge,
    /// The value is even; the zoom window size must be odd.
    NotOdd,
}

/// The value of a digit string is nonnegative.
proof fn lemma_digits_value_nonneg(bs: Seq<u8>)
    requires
        all_digit_bytes(bs),
    ensures
        digits_value(bs) >= 0,
    decreases bs.len(),
{
    if bs.len() > 0 {
        assert(all_digit_bytes(bs.drop_last())) by {
            assert(forall|i: int|
                0 <= i < bs.len() - 1 ==> #[trigger] bs.drop_last()[i] == bs[i]);
        }
        lemma_digits_value_nonneg(bs.drop_last());
    }
}

/// Extending a digit string never shrinks its value.
proof fn lemma_digits_value_prefix_le(bs: Seq<u8>, i: int)
    requires
        all_digit_bytes(bs),
        0 <= i <= bs.len(),
    ensures
        digits_value(bs.take(i)) <= digits_value(bs),
    decreases bs.len() - i,
{
    if i < bs.len() {
        lemma_digits_value_prefix_le(bs, i + 1);
        assert(bs.take(i + 1).drop_last() =~= bs.take(i));
        assert(bs.take(i + 1).last() == bs[i]);
        assert(all_digit_bytes(bs.take(i))) by {
            assert(forall|k: int| 0 <= k < i ==> #[trigger] bs.take(i)[k] == bs[k]);
        }
        lemma_digits_value_nonneg(bs.take(i));
        assert(digits_value(bs.take(i + 1)) == digits_value(bs.take(i)) * 10 + (bs[i] - 48));
        assert(digits_value(bs.take(i)) * 10 >= digits_value(bs.take(i))) by (nonlinear_arith)
            requires
                digits_value(bs.take(i)) >= 0,
        ;
    } else {
        assert(bs.take(i) =~= bs);
    }
}

/// Validates a zoom-window-size flag: it must be a decimal numeral whose
/// value fits 32 bits and is odd.
pub fn valid_zoom_size(s: &str) -> (r: Result<u32, ZoomSizeError>)
    ensures
        ({
            let bs = s.spec_bytes();
            let body = numeral_body(bs);
            match r {
                Ok(n) => is_numeral(bs) && digits_value(body) == n && n % 2 == 1,
                Err(ZoomSizeError::NotOdd) => is_numeral(bs) && digits_value(body) <= u32::MAX
                    && digits_value(body) % 2 == 0,
                Err(ZoomSizeError::TooLarge) => is_numeral(bs) && digits_value(body) > u32::MAX,
                Err(ZoomSizeError::NotANumber) => !is_numeral(bs),
            }
        }),
{
    let bytes = s.as_bytes();
    let n = bytes.len();
    let start: usize = if n > 0 && bytes[0] == 43 {
        1
    } else {
        0
    };
    if start >= n {
        return Err(ZoomSizeError::NotANumber);
    }
    let ghost body = numeral_body(s.spec_bytes());
    proof {
        assert(body =~= bytes@.subrange(start as int, n as int));
    }
    let mut k: usize = start;
    while k < n
        invariant
            start <= k <= n,
            start < n,
            n == bytes@.len(),
            bytes@ == s.spec_bytes(),
            body == numeral_body(s.spec_bytes()),
            body == bytes@.subrange(start as int, n as int),
            forall|i: int| start <= i < k ==> is_digit_byte(#[trigger] bytes@[i]),
        decreases n - k,
    {
        let b = bytes[k];
        if b < 48 || b > 57 {
            proof {
                assert(!is_digit_byte(body[k as int - start as int]));
                assert(!all_digit_bytes(body));
            }
            return Err(ZoomSizeError::NotANumber);
        }
        k = k + 1;
    }
    proof {
        assert(all_digit_bytes(body)) by {
            assert(forall|i: int|
                0 <= i < body.len() ==> body[i] == #[trigger] bytes@[i + start as int]);
        }
        assert(is_numeral(s.spec_bytes()));
    }
    let mut acc: u32 = 0;
    let mut k: usize = start;
    while k < n
        invariant
            start <= k <= n,
            start < n,
            n == bytes@.len(),
            bytes@ == s.spec_bytes(),
            body == numeral_body(s.spec_bytes()),
            body == bytes@.subrange(start as int, n as int),
            all_digit_bytes(body),
            acc == digits_value(body.take(k as int - start as int)),
        decreases n - k,
    {
        let b = bytes[k];
        proof {
            assert(is_digit_byte(body[k as int - start as int]));
            lemma_digits_value_nonneg(body.take(k as int - start as int));
        }
        let d: u32 = (b - 48) as u32;
        if acc > (u32::MAX - d) / 10 {
            proof {
                let pre = body.take(k as int - start as int);
                let ext = body.take(k as int + 1 - start as int);
                assert(ext.drop_last() =~= pre);
                assert(ext.last() == body[k as int - start as int]);
                assert(digits_value(ext) == digits_value(pre) * 10 + d);
                assert(digits_value(pre) * 10 + d > u32::MAX) by (nonlinear_arith)
                    requires
                        digits_value(pre) > (u32::MAX - d) / 10,
                        digits_value(pre) >= 0,
                        0 <= d <= 9,
                ;
                assert(all_digit_bytes(ext)) by {
                    assert(forall|i: int| 0 <= i < ext.len() ==> #[trigger] ext[i] == body[i]);
                }
                lemma_digits_value_prefix_le(body, k as int + 1 - start as int);
                assert(body.take(body.len() as int) =~= body);
            }
            return Err(ZoomSizeError::TooLarge);
        }
        proof {
            assert(acc * 10 + d <= u32::MAX) by (nonlinear_arith)
                requires
                    acc <= (u32::MAX - d) / 10,
                    0 <= d <= 9,
                    acc >= 0,
            ;
        }
        acc = acc * 10 + d;
        proof {
            let pre = body.take(k as int - start as int);
            let ext = body.take(k as int + 1 - start as int);
            assert(ext.drop_last() =~= pre);
            assert(ext.last() == body[k as int - start as int]);
        }
        k = k + 1;
    }
    proof {
        assert(body.take(n as int - start as int) =~= body);
    }
    if acc % 2 == 1 {
        Ok(acc)
    } else {
        Err(ZoomSizeError::NotOdd)
    }
}

} // verus!
