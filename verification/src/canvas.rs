//! The pixel canvas and its serialization to the text form of a PPM image:
//! a header, and a body of scaled channel values wrapped at 70 columns.

use vstd::prelude::*;
use vstd::string::StringExecFns;
use crate::common::SCALE;
use crate::tuple::{Kind, Tuple};

verus! {

/// Half of one fixed-point unit's scale: the rounding offset.
pub const HALF_SCALE: i64 = 5_000_000;

/// A rectangular grid of color pixels, stored column-major: the pixel at
/// `(x, y)` lives at index `x * height + y`.
#[derive(Debug)]
pub struct Canvas {
    pub width: usize,
    pub height: usize,
    pub pixels: Vec<Tuple>,
}

/// The canvas holds exactly `width * height` pixels.
pub open spec fn canvas_wf(c: Canvas) -> bool {
    c.pixels@.len() == c.width * c.height
}

/// The decimal digit character for a value of zero to nine.
pub open spec fn digit_char(d: int) -> char {
    if d == 0 {
        '0'
    } else if d == 1 {
        '1'
    } else if d == 2 {
        '2'
    } else if d == 3 {
        '3'
    } else if d == 4 {
        '4'
    } else if d == 5 {
        '5'
    } else if d == 6 {
        '6'
    } else if d == 7 {
        '7'
    } else if d == 8 {
        '8'
    } else {
        '9'
    }
}

/// The decimal digits of a nonnegative integer, most significant first.
pub open spec fn dec_of(n: int) -> Seq<char>
    decreases n,
{
    if n < 10 {
        seq![digit_char(n)]
    } else {
        dec_of(n / 10).push(digit_char(n % 10))
    }
}

/// The PPM header: magic number, dimensions, and the maximum channel value.
pub open spec fn ppm_header_chars(w: int, h: int) -> Seq<char> {
    seq!['P', '3', '\n'] + dec_of(w) + seq![' '] + dec_of(h) + seq!['\n', '2', '5', '5', '\n']
}

/// A fixed-point channel scaled to 0..255: rounded half away from zero,
/// then clamped.
pub open spec fn chan(v: int) -> int {
    let rounded = if v >= 0 {
        (v * 255 + HALF_SCALE) / (SCALE as int)
    } else {
        -(((-v) * 255 + HALF_SCALE) / (SCALE as int))
    };
    if rounded > 255 {
        255
    } else if rounded < 0 {
        0
    } else {
        rounded
    }
}

/// One coordinate of a tuple, by index: x, y, then z.
pub open spec fn comp(t: Tuple, k: int) -> int {
    if k == 0 {
        t.x as int
    } else if k == 1 {
        t.y as int
    } else {
        t.z as int
    }
}

/// The pixels flattened to scaled channel values, three per pixel.
pub open spec fn flat_chans(pixels: Seq<Tuple>) -> Seq<int> {
    Seq::new((3 * pixels.len()) as nat, |i: int| chan(comp(pixels[i / 3], i % 3)))
}

/// One step of the PPM body layout over the state
/// `(text so far, characters on the line, whitespace just inserted)`,
/// fed the `k`-th channel value (zero-based).
pub open spec fn body_step(
    st: (Seq<char>, int, bool),
    val: int,
    k: int,
    width: int,
) -> (Seq<char>, int, bool) {
    let vs = dec_of(val);
    let vl = vs.len() as int;
    if st.1 + vl + 1 > 70 {
        (st.0 + seq!['\n'] + vs, vl, st.2)
    } else if (k + 1) % (width * 3) == 0 {
        (st.0 + seq![' '] + vs + seq!['\n'], 0, true)
    } else if st.2 || k == 0 {
        (st.0 + vs, st.1 + vl, false)
    } else {
        (st.0 + seq![' '] + vs, st.1 + vl + 1, false)
    }
}

/// The PPM body layout after the first `k` channel values.
pub open spec fn body_fold(vals: Seq<int>, width: int, k: int) -> (Seq<char>, int, bool)
    decreases k,
{
    if k <= 0 {
        (Seq::empty(), 0, false)
    } else {
        body_step(body_fold(vals, width, k - 1), vals[k - 1], k - 1, width)
    }
}

/// The full PPM body of a pixel sequence.
pub open spec fn ppm_body_chars(pixels: Seq<Tuple>, width: int) -> Seq<char> {
    body_fold(flat_chans(pixels), width, flat_chans(pixels).len() as int).0
}

impl Canvas {
    /// A canvas of the given size, every pixel black.
    pub fn new(width: usize, height: usize) -> (r: Canvas)
        requires
            width * height <= usize::MAX,
        ensures
            r.width == width,
            r.height == height,
            canvas_wf(r),
            forall|i: int|
                0 <= i < r.pixels@.len() ==> #[trigger] r.pixels@[i] == (Tuple {
                    x: 0,
                    y: 0,
                    z: 0,
                    kind: Kind::Color,
                }),
    {
        proof {
            vstd::arithmetic::mul::lemma_mul_nonnegative(width as int, height as int);
        }
        Canvas { width, height, pixels: vec![Tuple::color(0, 0, 0); width * height] }
    }

    /// The index of the pixel at `(x, y)`.
    fn get_index(&self, x: usize, y: usize) -> (r: usize)
        requires
            canvas_wf(*self),
            x < self.width,
            y < self.height,
        ensures
            r == x * self.height + y,
            r < self.pixels@.len(),
    {
        proof {
            lemma_index_in_range(self.width as int, self.height as int, x as int, y as int);
        }
        let len = self.pixels.len();
        proof {
            assert(x * self.height + y < len);
        }
        x * self.height + y
    }

    /// The pixel at `(x, y)`.
    pub fn pixel_at(&self, x: usize, y: usize) -> (r: Tuple)
        requires
            canvas_wf(*self),
            x < self.width,
            y < self.height,
        ensures
            r == self.pixels@[x * self.height + y],
    {
        let i = self.get_index(x, y);
        self.pixels[i]
    }

    /// Replaces the pixel at `(x, y)`.
    pub fn write_pixel(&mut self, x: usize, y: usize, color: Tuple)
        requires
            canvas_wf(*old(self)),
            x < old(self).width,
            y < old(self).height,
        ensures
            final(self).width == old(self).width,
            final(self).height == old(self).height,
            canvas_wf(*final(self)),
            final(self).pixels@ == old(self).pixels@.update(
                x * old(self).height + y,
                color,
            ),
    {
        let i = self.get_index(x, y);
        self.pixels[i] = color;
    }

    /// The PPM text of this canvas: the header alone. The body is produced
    /// separately by `create_ppm_body`.
    pub fn canvas_to_ppm(&self) -> (r: String)
        ensures
            r@ == ppm_header_chars(self.width as int, self.height as int),
    {
        create_ppm_header(self.width, self.height)
    }
}

proof fn lemma_index_in_range(w: int, h: int, x: int, y: int)
    requires
        0 <= x < w,
        0 <= y < h,
    ensures
        0 <= x * h + y < w * h,
{
    assert(x * h + y < w * h) by (nonlinear_arith)
        requires
            0 <= x < w,
            0 <= y < h,
    ;
    assert(x * h >= 0) by (nonlinear_arith)
        requires
            x >= 0,
            h >= 0,
    ;
}

/// The decimal string of a digit.
fn digit_str(d: u8) -> (r: &'static str)
    requires
        d < 10,
    ensures
        r@ == seq![digit_char(d as int)],
{
    proof {
        reveal_strlit("0");
        reveal_strlit("1");
        reveal_strlit("2");
        reveal_strlit("3");
        reveal_strlit("4");
        reveal_strlit("5");
        reveal_strlit("6");
        reveal_strlit("7");
        reveal_strlit("8");
        reveal_strlit("9");
    }
    let r = match d {
        0 => "0",
        1 => "1",
        2 => "2",
        3 => "3",
        4 => "4",
        5 => "5",
        6 => "6",
        7 => "7",
        8 => "8",
        _ => "9",
    };
    proof {
        assert(r@ =~= seq![digit_char(d as int)]);
    }
    r
}

/// The digit characters of the reversed digit list, most significant
/// (that is, last-pushed) first.
pub open spec fn rev_digits(s: Seq<u8>) -> Seq<char> {
    Seq::new(s.len(), |i: int| digit_char(s[s.len() - 1 - i] as int))
}

/// The decimal string of a nonnegative machine integer.
pub fn dec_string(n: usize) -> (r: String)
    ensures
        r@ == dec_of(n as int),
{
    let mut digits: Vec<u8> = Vec::new();
    let mut m: usize = n;
    digits.push((m % 10) as u8);
    m = m / 10;
    proof {
        lemma_dec_unfold(n as int, m as int, digits@);
    }
    while m != 0
        invariant
            digits@.len() >= 1,
            forall|i: int| 0 <= i < digits@.len() ==> (#[trigger] digits@[i]) < 10,
            dec_of(n as int) =~= if m == 0 {
                rev_digits(digits@)
            } else {
                dec_of(m as int) + rev_digits(digits@)
            },
        decreases m,
    {
        let ghost old_m = m as int;
        let ghost old_digits = digits@;
        digits.push((m % 10) as u8);
        m = m / 10;
        proof {
            assert(dec_of(old_m) =~= if old_m < 10 {
                seq![digit_char(old_m)]
            } else {
                dec_of(old_m / 10).push(digit_char(old_m % 10))
            });
            assert(rev_digits(digits@) =~= seq![digit_char(old_m % 10)] + rev_digits(old_digits));
            if m == 0 {
                assert(dec_of(n as int) =~= rev_digits(digits@));
            } else {
                assert(dec_of(n as int) =~= dec_of(m as int) + rev_digits(digits@));
            }
        }
    }
    let mut out = String::new();
    let mut k = digits.len();
    while k > 0
        invariant
            k <= digits@.len(),
            forall|i: int| 0 <= i < digits@.len() ==> (#[trigger] digits@[i]) < 10,
            dec_of(n as int) =~= rev_digits(digits@),
            out@ =~= rev_digits(digits@).subrange(0, digits@.len() - k),
        decreases k,
    {
        k = k - 1;
        out.append(digit_str(digits[k]));
        proof {
            assert(out@ =~= rev_digits(digits@).subrange(0, digits@.len() - k));
        }
    }
    proof {
        assert(out@ =~= dec_of(n as int));
    }
    out
}

/// The PPM header for a canvas of the given size.
pub fn create_ppm_header(width: usize, height: usize) -> (r: String)
    ensures
        r@ == ppm_header_chars(width as int, height as int),
{
    proof {
        reveal_strlit("P3\n");
        reveal_strlit(" ");
        reveal_strlit("\n255\n");
    }
    let mut out = String::new();
    out.append("P3\n");
    let w = dec_string(width);
    out.append(w.as_str());
    out.append(" ");
    let h = dec_string(height);
    out.append(h.as_str());
    out.append("\n255\n");
    proof {
        assert(out@ =~= ppm_header_chars(width as int, height as int));
    }
    out
}

/// The scaled channel value of one fixed-point color component.
fn channel_value(v: i64) -> (r: i64)
    ensures
        r == chan(v as int),
        0 <= r <= 255,
{
    if v < 0 {
        proof {
            vstd::arithmetic::div_mod::lemma_div_pos_is_pos(
                (-(v as int)) * 255 + HALF_SCALE,
                SCALE as int,
            );
            assert((-(v as int)) * 255 >= 0) by (nonlinear_arith)
                requires
                    v < 0,
            ;
        }
        0
    } else {
        proof {
            assert((v as int) * 255 <= 9_223_372_036_854_775_807 * 255) by (nonlinear_arith)
                requires
                    0 <= v <= i64::MAX,
            ;
            assert((v as int) * 255 >= 0) by (nonlinear_arith)
                requires
                    v >= 0,
            ;
            vstd::arithmetic::div_mod::lemma_div_pos_is_pos(
                (v as int) * 255 + HALF_SCALE,
                SCALE as int,
            );
        }
        let q: u128 = ((v as u128) * 255 + (HALF_SCALE as u128)) / (SCALE as u128);
        if q > 255 {
            255
        } else {
            q as i64
        }
    }
}

/// The PPM body: every pixel's three channels scaled to 0..255, written
/// in decimal, separated by spaces, with a newline closing each pixel row
/// and a line break before any value that would pass the 70th column.
pub fn create_ppm_body(pixels: &Vec<Tuple>, width: usize) -> (r: String)
    requires
        width >= 1,
        width <= 100_000,
        pixels@.len() <= 1_000_000_000,
    ensures
        r@ == ppm_body_chars(pixels@, width as int),
{
    let ghost vals = flat_chans(pixels@);
    let total: usize = 3 * pixels.len();
    let mut out = String::new();
    let mut i_chars: usize = 0;
    let mut inserted_ws = false;
    let mut k: usize = 0;
    proof {
        assert(vals.len() == total);
    }
    while k < total
        invariant
            total == 3 * pixels@.len(),
            total <= 3_000_000_000,
            width >= 1,
            width <= 100_000,
            k <= total,
            vals == flat_chans(pixels@),
            i_chars <= 70,
            (out@, i_chars as int, inserted_ws) == body_fold(vals, width as int, k as int),
        decreases total - k,
    {
        let p = k / 3;
        let c = k % 3;
        proof {
            assert(p < pixels@.len());
            assert(vals[k as int] == chan(comp(pixels@[k as int / 3], k as int % 3)));
        }
        let pix = &pixels[p];
        let component: i64 = if c == 0 {
            pix.x
        } else if c == 1 {
            pix.y
        } else {
            pix.z
        };
        let cv = channel_value(component);
        proof {
            assert(cv as int == vals[k as int]);
            lemma_dec_len_small(cv as int);
        }
        let val_str = dec_string(cv as usize);
        let vl: usize = if cv < 10 {
            1
        } else if cv < 100 {
            2
        } else {
            3
        };
        proof {
            assert(vl == dec_of(cv as int).len());
        }
        if i_chars + vl + 1 > 70 {
            proof {
                reveal_strlit("\n");
            }
            out.append("\n");
            out.append(val_str.as_str());
            i_chars = vl;
        } else if (k + 1) % (width * 3) == 0 {
            proof {
                reveal_strlit(" ");
                reveal_strlit("\n");
            }
            out.append(" ");
            out.append(val_str.as_str());
            out.append("\n");
            inserted_ws = true;
            i_chars = 0;
        } else if inserted_ws || k == 0 {
            out.append(val_str.as_str());
            inserted_ws = false;
            i_chars = i_chars + vl;
        } else {
            proof {
                reveal_strlit(" ");
            }
            out.append(" ");
            out.append(val_str.as_str());
            inserted_ws = false;
            i_chars = i_chars + vl + 1;
        }
        k = k + 1;
        proof {
            assert(body_fold(vals, width as int, k as int) == body_step(
                body_fold(vals, width as int, k as int - 1),
                vals[k as int - 1],
                k as int - 1,
                width as int,
            ));
            assert(out@ =~= body_fold(vals, width as int, k as int).0);
        }
    }
    out
}

/// The decimal form of a channel value has one to three digits.
proof fn lemma_dec_len_small(v: int)
    requires
        0 <= v <= 255,
    ensures
        dec_of(v).len() == if v < 10 {
            1int
        } else if v < 100 {
            2int
        } else {
            3int
        },
{
    if v < 10 {
        assert(dec_of(v) == seq![digit_char(v)]);
    } else if v < 100 {
        assert(1 <= v / 10 < 10);
        assert(dec_of(v) == dec_of(v / 10).push(digit_char(v % 10)));
        assert(dec_of(v / 10) == seq![digit_char(v / 10)]);
    } else {
        assert(10 <= v / 10 < 26);
        assert(dec_of(v) == dec_of(v / 10).push(digit_char(v % 10)));
        assert(dec_of(v / 10) == dec_of(v / 10 / 10).push(digit_char(v / 10 % 10)));
        assert(0 <= v / 10 / 10 < 10);
        assert(dec_of(v / 10 / 10) == seq![digit_char(v / 10 / 10)]);
    }
}

/// Unfolds one step of the decimal expansion for the loop that collects
/// digits.
proof fn lemma_dec_unfold(n: int, m: int, digits: Seq<u8>)
    requires
        n >= 0,
        m == n / 10,
        digits =~= seq![(n % 10) as u8],
    ensures
        dec_of(n) =~= if m == 0 {
            rev_digits(digits)
        } else {
            dec_of(m) + rev_digits(digits)
        },
        forall|i: int| 0 <= i < digits.len() ==> (#[trigger] digits[i]) < 10,
{
    assert(0 <= n % 10 < 10);
    if n < 10 {
        assert(n / 10 == 0);
        assert(n % 10 == n);
        assert(rev_digits(digits) =~= seq![digit_char(n)]);
    } else {
        assert(n / 10 >= 1);
        assert(dec_of(n) == dec_of(n / 10).push(digit_char(n % 10)));
        assert(dec_of(n) =~= dec_of(m) + rev_digits(digits));
    }
}

} // verus!
