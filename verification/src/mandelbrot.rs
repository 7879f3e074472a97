//! Fixed-point Mandelbrot kernel.
//!
//! The numerics are 20.12 fixed point in `i32` with every multiplication,
//! addition and subtraction wrapping at 32 bits, and the escape test
//! `|z|^2 > 4.0`. The tests check that 160x120 at 64 iterations sums to
//! 407644; the proofs here say what is summed, not that number.

use vstd::prelude::*;

verus! {

use vstd::wrapping::i32_specs;

/// Fractional bits in the fixed-point representation.
pub const FRAC_BITS: u32 = 12;

/// 1.0 in fixed point.
pub const ONE: i32 = 1 << FRAC_BITS;

/// Escape threshold, |z|^2 > 4.0.
pub const ESCAPE: i32 = 4 << FRAC_BITS;

proof fn lemma_constants()
    ensures
        ONE == 4096,
        ESCAPE == 16384,
        2i32 << FRAC_BITS == 8192,
        3i32 << FRAC_BITS == 12288,
{
    assert(1i32 << 12u32 == 4096i32) by (bit_vector);
    assert(4i32 << 12u32 == 16384i32) by (bit_vector);
    assert(2i32 << 12u32 == 8192i32) by (bit_vector);
    assert(3i32 << 12u32 == 12288i32) by (bit_vector);
}

/// The fixed-point square of `v`, wrapping at 32 bits.
pub open spec fn fx_square(v: i32) -> i32 {
    i32_specs::wrapping_mul(v, v) >> FRAC_BITS
}

/// The number of iterations of z -> z^2 + c, counted from `i` with
/// z = x + iy, before |z|^2 exceeds 4.0 or the count reaches `max_iter`.
pub open spec fn escape_from(x: i32, y: i32, cx: i32, cy: i32, i: int, max_iter: int) -> int
    decreases max_iter - i,
{
    if i >= max_iter {
        i
    } else {
        let x2 = fx_square(x);
        let y2 = fx_square(y);
        if i32_specs::wrapping_add(x2, y2) > ESCAPE {
            i
        } else {
            escape_from(
                i32_specs::wrapping_add(i32_specs::wrapping_sub(x2, y2), cx),
                i32_specs::wrapping_add(i32_specs::wrapping_mul(x, y) >> 11u32, cy),
                cx,
                cy,
                i + 1,
                max_iter,
            )
        }
    }
}

/// The iteration count of the point c = cx + i cy, starting from z = 0.
pub open spec fn escape_time(cx: i32, cy: i32, max_iter: i32) -> int {
    escape_from(0, 0, cx, cy, 0, max_iter as int)
}

/// The byte stored for a pixel: its iteration count, truncated to 8 bits.
pub open spec fn pixel_byte(cx: i32, cy: i32, max_iter: i32) -> u8 {
    escape_time(cx, cy, max_iter) as u8
}

/// The real part of column `px`, `px * dx - 2.0`, wrapping at 32 bits.
pub open spec fn column_cx(px: int, dx: i32) -> i32 {
    i32_specs::wrapping_sub(i32_specs::wrapping_mul(px as i32, dx), 8192)
}

/// The bytes of one scanline of `len` pixels.
pub open spec fn row_pixels(len: nat, dx: i32, cy: i32, max_iter: i32) -> Seq<u8> {
    Seq::new(len, |px: int| pixel_byte(column_cx(px, dx), cy, max_iter))
}

proof fn lemma_escape_from_bounds(x: i32, y: i32, cx: i32, cy: i32, i: int, max_iter: int)
    requires
        i >= 0,
    ensures
        i <= escape_from(x, y, cx, cy, i, max_iter),
        escape_from(x, y, cx, cy, i, max_iter) <= if i <= max_iter { max_iter } else { i },
    decreases max_iter - i,
{
    if i < max_iter {
        let x2 = fx_square(x);
        let y2 = fx_square(y);
        if i32_specs::wrapping_add(x2, y2) <= ESCAPE {
            lemma_escape_from_bounds(
                i32_specs::wrapping_add(i32_specs::wrapping_sub(x2, y2), cx),
                i32_specs::wrapping_add(i32_specs::wrapping_mul(x, y) >> 11u32, cy),
                cx,
                cy,
                i + 1,
                max_iter,
            );
        }
    }
}

/// The iteration count of one point, never more than `max_iter` and never
/// negative.
fn escape_iterations(cx: i32, cy: i32, max_iter: i32) -> (r: i32)
    ensures
        r as int == escape_time(cx, cy, max_iter),
        0 <= r,
        max_iter >= 0 ==> r <= max_iter,
        max_iter <= 0 ==> r == 0,
{
    let mut x: i32 = 0;
    let mut y: i32 = 0;
    let mut i: i32 = 0;
    proof {
        lemma_constants();
        lemma_escape_from_bounds(0, 0, cx, cy, 0, max_iter as int);
    }
    while i < max_iter
        invariant_except_break
            0 <= i,
            escape_from(x, y, cx, cy, i as int, max_iter as int) == escape_time(
                cx,
                cy,
                max_iter,
            ),
        ensures
            i as int == escape_time(cx, cy, max_iter),
        decreases max_iter - i,
    {
        let x2 = x.wrapping_mul(x) >> FRAC_BITS;
        let y2 = y.wrapping_mul(y) >> FRAC_BITS;
        if x2.wrapping_add(y2) > ESCAPE {
            break ;
        }
        y = (x.wrapping_mul(y) >> (FRAC_BITS - 1)).wrapping_add(cy);
        x = x2.wrapping_sub(y2).wrapping_add(cx);
        i += 1;
    }
    proof {
        lemma_escape_from_bounds(0, 0, cx, cy, 0, max_iter as int);
    }
    i
}

/// Iteration counts for one scanline, written as bytes (truncated to 8
/// bits).
///
/// `dx` is the fixed-point step between columns and `cy` the row's imaginary
/// part; pixel `px` has real part `px * dx - 2.0`. Every operation wraps at
/// 32 bits.
pub fn mandel_row(out: &mut [u8], dx: i32, cy: i32, max_iter: i32)
    ensures
        final(out)@ == row_pixels(old(out)@.len(), dx, cy, max_iter),
{
    let mut px: usize = 0;
    while px < out.len()
        invariant
            px <= out@.len(),
            out@.len() == old(out)@.len(),
            forall|j: int|
                0 <= j < px ==> out@[j] == #[trigger] pixel_byte(column_cx(j, dx), cy, max_iter),
        decreases out@.len() - px,
    {
        proof {
            lemma_constants();
        }
        let cx = (#[verifier::truncate] (px as i32)).wrapping_mul(dx).wrapping_sub(2 << FRAC_BITS);
        let i = escape_iterations(cx, cy, max_iter);
        assert(cx == column_cx(px as int, dx));
        out[px] = #[verifier::truncate] (i as u8);
        assert(out@[px as int] == pixel_byte(column_cx(px as int, dx), cy, max_iter));
        px += 1;
    }
    assert(out@ =~= row_pixels(old(out)@.len(), dx, cy, max_iter));
}

/// Integer division rounding toward zero, as Rust's `/` on integers does,
/// for a positive divisor.
pub open spec fn div_toward_zero(a: int, b: int) -> int {
    if a >= 0 {
        a / b
    } else {
        -((-a) / b)
    }
}

/// The column step of an image `width` pixels wide: 3.0 / width, rounded
/// toward zero.
pub open spec fn image_dx(width: i32) -> i32 {
    (12288int / (width as int)) as i32
}

/// The imaginary part of row `r` of an image `height` rows high:
/// (2r << 12) / height - 1.0, where the shift wraps at 32 bits.
pub open spec fn row_cy(r: int, height: i32) -> i32 {
    (div_toward_zero((((2 * r) as i32) << FRAC_BITS) as int, height as int) - 4096) as i32
}

/// The sum of the bytes of the first `n` pixels of a scanline.
pub open spec fn row_sum(n: int, dx: i32, cy: i32, max_iter: i32) -> int
    decreases n,
{
    if n <= 0 {
        0
    } else {
        row_sum(n - 1, dx, cy, max_iter) + pixel_byte(column_cx(n - 1, dx), cy, max_iter) as int
    }
}

/// The sum of the pixel bytes of the first `rows` rows of an image.
pub open spec fn image_sum(width: i32, height: i32, max_iter: i32, rows: int) -> int
    decreases rows,
{
    if rows <= 0 {
        0
    } else {
        image_sum(width, height, max_iter, rows - 1) + row_sum(
            width as int,
            image_dx(width),
            row_cy(rows - 1, height),
            max_iter,
        )
    }
}

/// The checksum of a whole image: the sum of every pixel byte, modulo 2**32;
/// zero for an empty image.
pub open spec fn image_checksum(width: i32, height: i32, max_iter: i32) -> u32 {
    if width <= 0 || height <= 0 {
        0
    } else {
        (image_sum(width, height, max_iter, height as int) % 0x1_0000_0000) as u32
    }
}

proof fn lemma_row_sum_nonneg(n: int, dx: i32, cy: i32, max_iter: i32)
    ensures
        row_sum(n, dx, cy, max_iter) >= 0,
    decreases n,
{
    if n > 0 {
        lemma_row_sum_nonneg(n - 1, dx, cy, max_iter);
    }
}

proof fn lemma_image_sum_nonneg(width: i32, height: i32, max_iter: i32, rows: int)
    ensures
        image_sum(width, height, max_iter, rows) >= 0,
    decreases rows,
{
    if rows > 0 {
        lemma_image_sum_nonneg(width, height, max_iter, rows - 1);
        lemma_row_sum_nonneg(width as int, image_dx(width), row_cy(rows - 1, height), max_iter);
    }
}

/// Adding a byte to a running total with a wrapping `u32` addition keeps the
/// total equal to the exact sum modulo 2**32.
proof fn lemma_wrapping_accumulate(t: u32, s: int, b: u8)
    requires
        s >= 0,
        t as int == s % 0x1_0000_0000,
    ensures
        vstd::wrapping::u32_specs::wrapping_add(t, b as u32) as int == (s + b) % 0x1_0000_0000,
{
    vstd::arithmetic::div_mod::lemma_add_mod_noop(s, b as int, 0x1_0000_0000);
    vstd::arithmetic::div_mod::lemma_small_mod(b as nat, 0x1_0000_0000);
    if t + b > u32::MAX {
        vstd::arithmetic::div_mod::lemma_fundamental_div_mod_converse_mod(
            t + b,
            0x1_0000_0000,
            1,
            t + b - 0x1_0000_0000,
        );
    } else {
        vstd::arithmetic::div_mod::lemma_small_mod((t + b) as nat, 0x1_0000_0000);
    }
}

/// With at least two rows, the row position divided by the height stays
/// within +/- 2**30, so subtracting 1.0 from it cannot overflow.
proof fn lemma_row_quotient_bounds(v: i32, height: i32)
    requires
        height >= 2,
    ensures
        -0x4000_0000 <= div_toward_zero(v as int, height as int) <= 0x4000_0000,
{
    if v >= 0 {
        assert((v as int) / (height as int) <= (v as int) / 2) by {
            vstd::arithmetic::div_mod::lemma_div_is_ordered_by_denominator(v as int, 2, height as int);
        }
        assert((v as int) / (height as int) >= 0) by {
            vstd::arithmetic::div_mod::lemma_div_pos_is_pos(v as int, height as int);
        }
    } else {
        assert((-v) / (height as int) <= (-v) / 2) by {
            vstd::arithmetic::div_mod::lemma_div_is_ordered_by_denominator(-v, 2, height as int);
        }
        assert((-v) / (height as int) >= 0) by {
            vstd::arithmetic::div_mod::lemma_div_pos_is_pos(-v, height as int);
        }
    }
}

/// Sum of every pixel's iteration count (each truncated to a byte) over the
/// whole image, wrapping at 2**32; zero for an empty image.
///
/// Row `r` has imaginary part `((2r) << 12) / height - 1.0` and every row
/// uses the column step `3.0 / width`.
pub fn mandel_sum(width: i32, height: i32, max_iter: i32) -> (r: u32)
    requires
        width > 0 && height > 0 ==> height <= 0x4000_0000,
    ensures
        r == image_checksum(width, height, max_iter),
{
    if width <= 0 || height <= 0 {
        return 0;
    }
    proof {
        lemma_constants();
    }
    let dx = (3 << FRAC_BITS) / width;
    let mut total: u32 = 0;
    let mut r: i32 = 0;
    while r < height
        invariant
            0 <= r <= height,
            0 < height <= 0x4000_0000,
            width > 0,
            dx == image_dx(width),
            total as int == image_sum(width, height, max_iter, r as int) % 0x1_0000_0000,
        decreases height - r,
    {
        proof {
            lemma_constants();
        }
        let v = (r * 2) << FRAC_BITS;
        let q = v / height;
        assert(q == div_toward_zero(v as int, height as int));
        proof {
            if height >= 2 {
                lemma_row_quotient_bounds(v, height);
            } else {
                assert(r == 0);
                assert(0i32 << 12u32 == 0i32) by (bit_vector);
            }
        }
        let cy = q - ONE;
        assert(cy == row_cy(r as int, height));
        let ghost base = image_sum(width, height, max_iter, r as int);
        proof {
            lemma_image_sum_nonneg(width, height, max_iter, r as int);
        }
        let mut px: i32 = 0;
        while px < width
            invariant
                0 <= px <= width,
                base >= 0,
                total as int == (base + row_sum(px as int, dx, cy, max_iter)) % 0x1_0000_0000,
            decreases width - px,
        {
            proof {
                lemma_constants();
                lemma_row_sum_nonneg(px as int, dx, cy, max_iter);
            }
            let cx = px.wrapping_mul(dx).wrapping_sub(2 << FRAC_BITS);
            assert(cx == column_cx(px as int, dx));
            let i = escape_iterations(cx, cy, max_iter);
            let b = #[verifier::truncate] (i as u8);
            assert(b == pixel_byte(column_cx(px as int, dx), cy, max_iter));
            proof {
                lemma_wrapping_accumulate(total, base + row_sum(px as int, dx, cy, max_iter), b);
            }
            total = total.wrapping_add(b as u32);
            px += 1;
        }
        r += 1;
    }
    total
}

/// The sum of a sequence of bytes.
pub open spec fn byte_total(s: Seq<u8>) -> int
    decreases s.len(),
{
    if s.len() == 0 {
        0
    } else {
        byte_total(s.drop_last()) + s.last() as int
    }
}

/// The sum over the first `rows` rows of the bytes of each scanline, as the
/// row kernel produces them for an image `width` by `height`.
pub open spec fn row_kernel_total(width: i32, height: i32, max_iter: i32, rows: int) -> int
    decreases rows,
{
    if rows <= 0 {
        0
    } else {
        row_kernel_total(width, height, max_iter, rows - 1) + byte_total(
            row_pixels(width as nat, image_dx(width), row_cy(rows - 1, height), max_iter),
        )
    }
}

proof fn lemma_row_sum_is_byte_total(n: nat, dx: i32, cy: i32, max_iter: i32)
    ensures
        row_sum(n as int, dx, cy, max_iter) == byte_total(row_pixels(n, dx, cy, max_iter)),
    decreases n,
{
    if n > 0 {
        lemma_row_sum_is_byte_total((n - 1) as nat, dx, cy, max_iter);
        assert(row_pixels(n, dx, cy, max_iter).drop_last() =~= row_pixels(
            (n - 1) as nat,
            dx,
            cy,
            max_iter,
        ));
    }
}

proof fn lemma_image_sum_is_row_kernel_total(width: i32, height: i32, max_iter: i32, rows: int)
    requires
        width > 0,
    ensures
        image_sum(width, height, max_iter, rows) == row_kernel_total(width, height, max_iter, rows),
    decreases rows,
{
    if rows > 0 {
        lemma_image_sum_is_row_kernel_total(width, height, max_iter, rows - 1);
        lemma_row_sum_is_byte_total(
            width as nat,
            image_dx(width),
            row_cy(rows - 1, height),
            max_iter,
        );
    }
}

/// The whole-image checksum is the row kernel's: for a non-empty image,
/// summing the bytes that `mandel_row` writes for every row, each with the
/// column step `3.0 / width` and its row's imaginary part, gives the
/// checksum modulo 2**32.
pub proof fn lemma_checksum_matches_row_kernel(width: i32, height: i32, max_iter: i32)
    requires
        width > 0,
        height > 0,
    ensures
        image_checksum(width, height, max_iter) as int == row_kernel_total(
            width,
            height,
            max_iter,
            height as int,
        ) % 0x1_0000_0000,
{
    lemma_image_sum_is_row_kernel_total(width, height, max_iter, height as int);
}

/// A pixel's iteration count lies between zero and `max_iter`; with no
/// iterations allowed it is zero.
pub proof fn lemma_escape_time_bounds(cx: i32, cy: i32, max_iter: i32)
    ensures
        0 <= escape_time(cx, cy, max_iter),
        max_iter >= 0 ==> escape_time(cx, cy, max_iter) <= max_iter,
        max_iter <= 0 ==> escape_time(cx, cy, max_iter) == 0,
{
    lemma_escape_from_bounds(0, 0, cx, cy, 0, max_iter as int);
}

proof fn lemma_row_sum_without_iterations(n: int, dx: i32, cy: i32, max_iter: i32)
    requires
        max_iter <= 0,
    ensures
        row_sum(n, dx, cy, max_iter) == 0,
    decreases n,
{
    if n > 0 {
        lemma_row_sum_without_iterations(n - 1, dx, cy, max_iter);
        lemma_escape_time_bounds(column_cx(n - 1, dx), cy, max_iter);
    }
}

proof fn lemma_image_sum_without_iterations(width: i32, height: i32, max_iter: i32, rows: int)
    requires
        max_iter <= 0,
    ensures
        image_sum(width, height, max_iter, rows) == 0,
    decreases rows,
{
    if rows > 0 {
        lemma_image_sum_without_iterations(width, height, max_iter, rows - 1);
        lemma_row_sum_without_iterations(
            width as int,
            image_dx(width),
            row_cy(rows - 1, height),
            max_iter,
        );
    }
}

/// With no iterations allowed every pixel is zero, so the checksum is zero.
pub proof fn lemma_checksum_without_iterations(width: i32, height: i32, max_iter: i32)
    requires
        max_iter <= 0,
    ensures
        image_checksum(width, height, max_iter) == 0,
{
    lemma_image_sum_without_iterations(width, height, max_iter, height as int);
}

proof fn lemma_escape_from_cap(x: i32, y: i32, cx: i32, cy: i32, i: int, m1: int, m2: int)
    requires
        0 <= i <= m1 <= m2,
    ensures
        escape_from(x, y, cx, cy, i, m1) == if escape_from(x, y, cx, cy, i, m2) < m1 {
            escape_from(x, y, cx, cy, i, m2)
        } else {
            m1
        },
    decreases m1 - i,
{
    lemma_escape_from_bounds(x, y, cx, cy, i, m2);
    if i < m1 {
        let x2 = fx_square(x);
        let y2 = fx_square(y);
        if i32_specs::wrapping_add(x2, y2) <= ESCAPE {
            lemma_escape_from_cap(
                i32_specs::wrapping_add(i32_specs::wrapping_sub(x2, y2), cx),
                i32_specs::wrapping_add(i32_specs::wrapping_mul(x, y) >> 11u32, cy),
                cx,
                cy,
                i + 1,
                m1,
                m2,
            );
        }
    }
}

/// Allowing more iterations never changes a count that stayed below the
/// smaller limit, and otherwise the smaller limit is the count: with
/// `0 <= m1 <= m2`, the count under `m1` is the count under `m2` capped at
/// `m1`. In particular the count never decreases as the limit grows.
pub proof fn lemma_escape_time_capped(cx: i32, cy: i32, m1: i32, m2: i32)
    requires
        0 <= m1 <= m2,
    ensures
        escape_time(cx, cy, m1) == if escape_time(cx, cy, m2) < m1 {
            escape_time(cx, cy, m2)
        } else {
            m1 as int
        },
        escape_time(cx, cy, m1) <= escape_time(cx, cy, m2),
{
    lemma_escape_from_cap(0, 0, cx, cy, 0, m1 as int, m2 as int);
    lemma_escape_from_bounds(0, 0, cx, cy, 0, m2 as int);
}

proof fn lemma_origin_never_escapes(i: int, max_iter: int)
    requires
        0 <= i,
    ensures
        escape_from(0, 0, 0, 0, i, max_iter) == if i <= max_iter { max_iter } else { i },
    decreases max_iter - i,
{
    lemma_constants();
    if i < max_iter {
        assert(fx_square(0) == 0) by {
            assert(0i32 >> 12u32 == 0i32) by (bit_vector);
        }
        assert(i32_specs::wrapping_mul(0, 0) >> 11u32 == 0) by {
            assert(0i32 >> 11u32 == 0i32) by (bit_vector);
        }
        lemma_origin_never_escapes(i + 1, max_iter);
    }
}

/// The origin is in the set: its orbit stays at 0, so its count is the
/// limit for every non-negative limit.
pub proof fn lemma_origin_reaches_limit(max_iter: i32)
    requires
        max_iter >= 0,
    ensures
        escape_time(0, 0, max_iter) == max_iter,
{
    lemma_origin_never_escapes(0, max_iter as int);
}

/// A point whose first step already has |c|^2 > 4.0 escapes after exactly
/// one iteration, for every limit of at least two.
pub proof fn lemma_far_point_escapes_at_once(cx: i32, cy: i32, max_iter: i32)
    requires
        max_iter >= 2,
        i32_specs::wrapping_add(fx_square(cx), fx_square(cy)) > ESCAPE,
    ensures
        escape_time(cx, cy, max_iter) == 1,
{
    assert(fx_square(0) == 0) by {
        assert(0i32 >> 12u32 == 0i32) by (bit_vector);
    }
    assert(i32_specs::wrapping_mul(0, 0) >> 11u32 == 0) by {
        assert(0i32 >> 11u32 == 0i32) by (bit_vector);
    }
    lemma_constants();
    reveal_with_fuel(escape_from, 2);
    assert(i32_specs::wrapping_add(0, cx) == cx);
    assert(i32_specs::wrapping_add(0, cy) == cy);
    assert(i32_specs::wrapping_sub(0, 0) == 0);
    assert(escape_from(cx, cy, cx, cy, 1, max_iter as int) == 1);
}

} // verus!
