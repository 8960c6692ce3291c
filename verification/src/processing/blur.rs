//! Separable box blur of packed RGB planes.
//!
//! A pass replaces every value by the mean of its row window, then by the mean of
//! its column window.  Beyond an edge the edge value repeats; the mean is rounded
//! down.

use vstd::prelude::*;
use vstd::arithmetic::div_mod;

verus! {

/// `i`, moved into `0..n`.
pub open spec fn clamped(i: int, n: int) -> int {
    if i < 0 {
        0
    } else if i >= n {
        n - 1
    } else {
        i
    }
}

/// Sum of the values `from..to` of the line of `n` values that starts at `base`
/// and goes on in steps of `stride`; the edge values repeat.
pub open spec fn window(
    img: Seq<u8>,
    base: int,
    stride: int,
    n: int,
    from: int,
    to: int,
) -> int
    decreases to - from,
{
    if from >= to {
        0
    } else {
        window(img, base, stride, n, from, to - 1) + img[base + clamped(to - 1, n) * stride]
    }
}

/// Mean of the window of `radius` around value `x` of a line.
pub open spec fn mean(
    img: Seq<u8>,
    base: int,
    stride: int,
    n: int,
    x: int,
    radius: int,
) -> u8 {
    (window(img, base, stride, n, x - radius, x + radius + 1) / (2 * radius + 1)) as u8
}

/// Every value of a plane of `h` rows of `line` bytes, three to a pixel,
/// replaced by the mean of its row window.
pub open spec fn rows_blurred(img: Seq<u8>, line: int, h: int, radius: int) -> Seq<u8> {
    Seq::new(
        (line * h) as nat,
        |i: int|
            mean(
                img,
                (i / line) * line + (i % line) % 3,
                3,
                line / 3,
                (i % line) / 3,
                radius,
            ),
    )
}

/// Every value of a plane replaced by the mean of its column window.
pub open spec fn columns_blurred(img: Seq<u8>, line: int, h: int, radius: int) -> Seq<u8> {
    Seq::new((line * h) as nat, |i: int| mean(img, i % line, line, h, i / line, radius))
}

/// A plane after `n` passes of the blur.
pub open spec fn blurred(img: Seq<u8>, line: int, h: int, radius: int, n: nat) -> Seq<u8>
    decreases n,
{
    if n == 0 || radius == 0 {
        img
    } else {
        columns_blurred(
            rows_blurred(blurred(img, line, h, radius, (n - 1) as nat), line, h, radius),
            line,
            h,
            radius,
        )
    }
}

/// A line within a plane: its last value is there.
spec fn fits(img: Seq<u8>, base: int, stride: int, n: int) -> bool {
    0 <= base && 0 <= stride && 0 < n && base + (n - 1) * stride < img.len()
}

proof fn lemma_within(img: Seq<u8>, base: int, stride: int, n: int, i: int)
    requires
        fits(img, base, stride, n),
        0 <= i < n,
    ensures
        0 <= base + i * stride < img.len(),
        0 <= i * stride,
{
    assert(0 <= i * stride <= (n - 1) * stride) by (nonlinear_arith)
        requires
            0 <= i <= n - 1,
            0 <= stride,
    ;
}

proof fn lemma_window_bounds(
    img: Seq<u8>,
    base: int,
    stride: int,
    n: int,
    from: int,
    to: int,
)
    requires
        from <= to,
    ensures
        0 <= window(img, base, stride, n, from, to) <= 255 * (to - from),
    decreases to - from,
{
    if from < to {
        lemma_window_bounds(img, base, stride, n, from, to - 1);
    }
}

proof fn lemma_window_front(
    img: Seq<u8>,
    base: int,
    stride: int,
    n: int,
    from: int,
    to: int,
)
    requires
        from < to,
    ensures
        window(img, base, stride, n, from, to) == img[base + clamped(from, n) * stride] + window(
            img,
            base,
            stride,
            n,
            from + 1,
            to,
        ),
    decreases to - from,
{
    if from + 1 < to {
        lemma_window_front(img, base, stride, n, from, to - 1);
    } else {
        assert(window(img, base, stride, n, from, from) == 0);
        assert(window(img, base, stride, n, from + 1, to) == 0);
    }
}

/// The window sum around the first value of a line.
fn first_sum(img: &[u8], base: usize, stride: usize, n: usize, radius: u32) -> (r: u64)
    requires
        fits(img@, base as int, stride as int, n as int),
    ensures
        r == window(
            img@,
            base as int,
            stride as int,
            n as int,
            -(radius as int),
            radius + 1,
        ),
        r <= 255 * (2 * radius + 1),
{
    let len: usize = img.len();
    let mut sum: u64 = 0;
    let mut t: u64 = 0;
    let width: u64 = 2 * radius as u64 + 1;
    while t < width
        invariant
            len == img@.len(),
            width == 2 * radius + 1,
            t <= width,
            fits(img@, base as int, stride as int, n as int),
            sum == window(
                img@,
                base as int,
                stride as int,
                n as int,
                -(radius as int),
                t - radius,
            ),
            sum <= 255 * t,
        decreases width - t,
    {
        let at: usize = if t <= radius as u64 {
            0
        } else if t - radius as u64 >= n as u64 {
            n - 1
        } else {
            (t - radius as u64) as usize
        };
        proof {
            assert(at == clamped(t - radius, n as int));
            lemma_within(img@, base as int, stride as int, n as int, at as int);
        }
        sum = sum + img[base + at * stride] as u64;
        t = t + 1;
        proof {
            assert((t - radius) - 1 == (t - 1) - radius);
        }
    }
    sum
}

/// The window sum around value `x + 1` of a line, from that around value `x`.
fn slide(
    img: &[u8],
    base: usize,
    stride: usize,
    n: usize,
    radius: u32,
    x: usize,
    sum: u64,
) -> (r: u64)
    requires
        fits(img@, base as int, stride as int, n as int),
        x < n,
        n <= u32::MAX,
        sum == window(
            img@,
            base as int,
            stride as int,
            n as int,
            x - radius,
            x + radius + 1,
        ),
    ensures
        r == window(
            img@,
            base as int,
            stride as int,
            n as int,
            x + 1 - radius,
            x + radius + 2,
        ),
{
    let len: usize = img.len();
    let out: usize = if x as u64 <= radius as u64 {
        0
    } else {
        x - radius as usize
    };
    let next: u64 = x as u64 + radius as u64 + 1;
    let enter: usize = if next >= n as u64 {
        n - 1
    } else {
        next as usize
    };
    proof {
        let (b, s, m) = (base as int, stride as int, n as int);
        assert(len == img@.len());
        lemma_within(img@, b, s, m, out as int);
        lemma_within(img@, b, s, m, enter as int);
        assert(out == clamped(x - radius, m));
        assert(enter == clamped(x + radius + 1, m));
        lemma_window_front(img@, b, s, m, x - radius, x + radius + 1);
        lemma_window_bounds(img@, b, s, m, x - radius + 1, x + radius + 1);
        lemma_window_bounds(img@, b, s, m, x - radius, x + radius + 1);
        assert(x + radius + 2 - 1 == x + radius + 1);
        assert(x - radius + 1 == x + 1 - radius);
    }
    sum - img[base + out * stride] as u64 + img[base + enter * stride] as u64
}

/// The mean, from the window sum.
fn mean_of(sum: u64, radius: u32) -> (r: u8)
    requires
        sum <= 255 * (2 * radius + 1),
    ensures
        r == (sum as int / (2 * radius + 1)) as u8,
        r == sum as int / (2 * radius + 1),
{
    let width: u64 = 2 * radius as u64 + 1;
    assert(sum / width <= 255) by (nonlinear_arith)
        requires
            sum <= 255 * width,
            width > 0,
    ;
    (sum / width) as u8
}

proof fn lemma_cell(line: int, y: int, j: int)
    requires
        0 <= j < line,
        0 <= y,
    ensures
        (y * line + j) / line == y,
        (y * line + j) % line == j,
{
    div_mod::lemma_fundamental_div_mod_converse(y * line + j, line, y, j);
}

proof fn lemma_row_start(line: int, h: int, y: int)
    requires
        0 <= line,
        0 <= y < h,
    ensures
        0 <= y * line,
        y * line + line <= line * h,
{
    assert(0 <= y * line && y * line + line <= line * h) by (nonlinear_arith)
        requires
            0 <= line,
            0 <= y <= h - 1,
    ;
}

/// Replace every value by the mean of its row window.
#[verifier::rlimit(40)]
fn blur_rows(src: &[u8], out: &mut [u8], w: usize, h: usize, radius: u32)
    requires
        0 < w <= u32::MAX,
        src@.len() == 3 * w * h,
        old(out)@.len() == src@.len(),
    ensures
        final(out)@ == rows_blurred(src@, 3 * w, h as int, radius as int),
{
    let n: usize = src.len();
    let ghost line: int = 3 * w;
    let ghost want = rows_blurred(src@, line, h as int, radius as int);
    assert(line * h == 3 * w * h) by (nonlinear_arith)
        requires
            line == 3 * w,
    ;
    let mut y: usize = 0;
    let mut i: usize = 0;
    while y < h
        invariant
            0 < w <= u32::MAX,
            line == 3 * w,
            line * h == n,
            n == src@.len(),
            n == src.len(),
            out@.len() == n,
            y <= h,
            i == y * line,
            want == rows_blurred(src@, line, h as int, radius as int),
            forall|k: int| 0 <= k < i ==> #[trigger] out@[k] == want[k],
        decreases h - y,
    {
        proof {
            lemma_row_start(line, h as int, y as int);
        }
        let start: usize = i;
        assert(fits(src@, start as int, 3, w as int));
        assert(fits(src@, start + 1, 3, w as int));
        assert(fits(src@, start + 2, 3, w as int));
        let mut s0: u64 = first_sum(src, start, 3, w, radius);
        let mut s1: u64 = first_sum(src, start + 1, 3, w, radius);
        let mut s2: u64 = first_sum(src, start + 2, 3, w, radius);
        let mut x: usize = 0;
        while x < w
            invariant
                0 < w <= u32::MAX,
                line == 3 * w,
                line * h == n,
                n == src@.len(),
                n == src.len(),
                out@.len() == n,
                y < h,
                start == y * line,
                start + line <= n,
                x <= w,
                i == start + 3 * x,
                fits(src@, start as int, 3, w as int),
                fits(src@, start + 1, 3, w as int),
                fits(src@, start + 2, 3, w as int),
                want == rows_blurred(src@, line, h as int, radius as int),
                forall|k: int| 0 <= k < i ==> #[trigger] out@[k] == want[k],
                s0 == window(src@, start as int, 3, w as int, x - radius, x + radius + 1),
                s1 == window(src@, start + 1, 3, w as int, x - radius, x + radius + 1),
                s2 == window(src@, start + 2, 3, w as int, x - radius, x + radius + 1),
            decreases w - x,
        {
            proof {
                lemma_window_bounds(src@, start as int, 3, w as int, x - radius, x + radius + 1);
                lemma_window_bounds(src@, start + 1, 3, w as int, x - radius, x + radius + 1);
                lemma_window_bounds(src@, start + 2, 3, w as int, x - radius, x + radius + 1);
                lemma_cell(line, y as int, 3 * x as int);
                lemma_cell(line, y as int, 3 * x + 1);
                lemma_cell(line, y as int, 3 * x + 2);
                assert((3 * x as int) / 3 == x && (3 * x as int) % 3 == 0);
                assert((3 * x + 1) / 3 == x as int && (3 * x + 1) % 3 == 1);
                assert((3 * x + 2) / 3 == x as int && (3 * x + 2) % 3 == 2);
                assert(line / 3 == w as int);
                assert(
                    want[i as int] == mean(src@, start as int, 3, w as int, x as int, radius as int)
                );
                assert(want[i + 1] == mean(src@, start + 1, 3, w as int, x as int, radius as int));
                assert(want[i + 2] == mean(src@, start + 2, 3, w as int, x as int, radius as int));
            }
            out[i] = mean_of(s0, radius);
            out[i + 1] = mean_of(s1, radius);
            out[i + 2] = mean_of(s2, radius);
            s0 = slide(src, start, 3, w, radius, x, s0);
            s1 = slide(src, start + 1, 3, w, radius, x, s1);
            s2 = slide(src, start + 2, 3, w, radius, x, s2);
            i = i + 3;
            x = x + 1;
        }
        proof {
            assert(i == (y + 1) * line) by (nonlinear_arith)
                requires
                    i == y * line + line,
            ;
        }
        y = y + 1;
    }
    proof {
        assert(i == n) by (nonlinear_arith)
            requires
                i == y * line,
                y == h,
                line * h == n,
        ;
        assert(out@ =~= want);
    }
}

/// Replace every value by the mean of its column window.
#[verifier::rlimit(40)]
fn blur_columns(src: &[u8], out: &mut [u8], w: usize, h: usize, radius: u32)
    requires
        0 < w <= u32::MAX,
        h <= u32::MAX,
        src@.len() == 3 * w * h,
        old(out)@.len() == src@.len(),
    ensures
        final(out)@ == columns_blurred(src@, 3 * w, h as int, radius as int),
{
    let n: usize = src.len();
    if h == 0 {
        assert(out@ =~= columns_blurred(src@, 3 * w, h as int, radius as int));
        return;
    }
    assert(3 * w <= n) by (nonlinear_arith)
        requires
            n == 3 * w * h,
            h >= 1,
    ;
    let line: usize = 3 * w;
    assert(line * h == 3 * w * h) by (nonlinear_arith)
        requires
            line == 3 * w,
    ;
    let ghost want = columns_blurred(src@, line as int, h as int, radius as int);
    let mut sums: Vec<u64> = Vec::new();
    let mut j: usize = 0;
    while j < line
        invariant
            j <= line,
            0 < h,
            line * h == n,
            n == src@.len(),
            sums@.len() == j,
            forall|k: int|
                0 <= k < j ==> #[trigger] sums@[k] == window(
                    src@,
                    k,
                    line as int,
                    h as int,
                    -(radius as int),
                    radius + 1,
                ),
        decreases line - j,
    {
        proof {
            lemma_column(src@, line as int, h as int, j as int);
        }
        let s: u64 = first_sum(src, j, line, h, radius);
        sums.push(s);
        j = j + 1;
    }
    let mut y: usize = 0;
    let mut i: usize = 0;
    while y < h
        invariant
            0 < h <= u32::MAX,
            0 < line,
            line * h == n,
            n == src@.len(),
            n == src.len(),
            out@.len() == n,
            y <= h,
            i == y * line,
            want == columns_blurred(src@, line as int, h as int, radius as int),
            sums@.len() == line,
            forall|k: int| 0 <= k < i ==> #[trigger] out@[k] == want[k],
            forall|k: int|
                0 <= k < line ==> #[trigger] sums@[k] == window(
                    src@,
                    k,
                    line as int,
                    h as int,
                    y - radius,
                    y + radius + 1,
                ),
        decreases h - y,
    {
        proof {
            lemma_row_start(line as int, h as int, y as int);
        }
        let start: usize = i;
        let mut j: usize = 0;
        while j < line
            invariant
                0 < h <= u32::MAX,
                0 < line,
                line * h == n,
                n == src@.len(),
                n == src.len(),
                out@.len() == n,
                y < h,
                start == y * line,
                start + line <= n,
                j <= line,
                i == start + j,
                want == columns_blurred(src@, line as int, h as int, radius as int),
                sums@.len() == line,
                forall|k: int| 0 <= k < i ==> #[trigger] out@[k] == want[k],
                forall|k: int|
                    j <= k < line ==> #[trigger] sums@[k] == window(
                        src@,
                        k,
                        line as int,
                        h as int,
                        y - radius,
                        y + radius + 1,
                    ),
                forall|k: int|
                    0 <= k < j ==> #[trigger] sums@[k] == window(
                        src@,
                        k,
                        line as int,
                        h as int,
                        y + 1 - radius,
                        y + radius + 2,
                    ),
            decreases line - j,
        {
            let s: u64 = sums[j];
            proof {
                lemma_column(src@, line as int, h as int, j as int);
                lemma_window_bounds(
                    src@,
                    j as int,
                    line as int,
                    h as int,
                    y - radius,
                    y + radius + 1,
                );
                lemma_cell(line as int, y as int, j as int);
                assert(want[i as int] == mean(
                    src@,
                    j as int,
                    line as int,
                    h as int,
                    y as int,
                    radius as int,
                ));
            }
            out[i] = mean_of(s, radius);
            sums[j] = slide(src, j, line, h, radius, y, s);
            i = i + 1;
            j = j + 1;
        }
        proof {
            assert(i == (y + 1) * line) by (nonlinear_arith)
                requires
                    i == y * line + line,
            ;
        }
        y = y + 1;
    }
    proof {
        assert(i == n) by (nonlinear_arith)
            requires
                i == y * line,
                y == h,
                line * h == n,
        ;
        assert(out@ =~= want);
    }
}

proof fn lemma_column(img: Seq<u8>, line: int, h: int, j: int)
    requires
        0 <= j < line,
        0 < h,
        img.len() == line * h,
    ensures
        fits(img, j, line, h),
{
    assert(j + (h - 1) * line < line * h) by (nonlinear_arith)
        requires
            0 <= j < line,
            0 < h,
    ;
}

pub(crate) fn copy_slice(src: &[u8], dst: &mut [u8])
    requires
        old(dst)@.len() == src@.len(),
    ensures
        final(dst)@ == src@,
{
    let n: usize = src.len();
    let mut i: usize = 0;
    while i < n
        invariant
            i <= n,
            n == src@.len(),
            dst@.len() == n,
            forall|k: int| 0 <= k < i ==> dst@[k] == src@[k],
        decreases n - i,
    {
        dst[i] = src[i];
        i = i + 1;
    }
    assert(dst@ =~= src@);
}

/// Blur a packed RGB plane; no pass, or a radius of zero, copies it.  `scratch`
/// holds what is between the two directions.
pub fn box_blur_rgb(
    src: &[u8],
    dst: &mut [u8],
    scratch: &mut [u8],
    width: u32,
    height: u32,
    radius: u32,
    passes: u32,
)
    requires
        src@.len() == width * height * 3,
        old(dst)@.len() == src@.len(),
        old(scratch)@.len() == src@.len(),
    ensures
        final(dst)@ == blurred(src@, 3 * width, height as int, radius as int, passes as nat),
        final(dst)@.len() == old(dst)@.len(),
        final(scratch)@.len() == old(scratch)@.len(),
{
    copy_slice(src, dst);
    if radius == 0 || passes == 0 {
        return;
    }
    if src.len() == 0 {
        proof {
            assert(3 * width * height == 0) by (nonlinear_arith)
                requires
                    width * height * 3 == 0,
            ;
            assert(blurred(src@, 3 * width, height as int, radius as int, passes as nat) =~= src@);
        }
        return;
    }
    proof {
        if width == 0 {
            assert(width * height * 3 == 0) by (nonlinear_arith)
                requires
                    width == 0,
            ;
        }
    }
    let w: usize = width as usize;
    let h: usize = height as usize;
    assert(3 * w * h == width * height * 3) by (nonlinear_arith)
        requires
            w == width,
            h == height,
    ;
    let mut n: u32 = 0;
    while n < passes
        invariant
            n <= passes,
            w == width,
            h == height,
            0 < w <= u32::MAX,
            h <= u32::MAX,
            radius > 0,
            src@.len() == 3 * w * h,
            dst@.len() == src@.len(),
            scratch@.len() == src@.len(),
            dst@ == blurred(src@, 3 * width, height as int, radius as int, n as nat),
        decreases passes - n,
    {
        blur_rows(&*dst, scratch, w, h, radius);
        blur_columns(&*scratch, dst, w, h, radius);
        n = n + 1;
    }
}

proof fn lemma_uniform_window(
    img: Seq<u8>,
    base: int,
    stride: int,
    n: int,
    from: int,
    to: int,
    v: u8,
)
    requires
        fits(img, base, stride, n),
        forall|i: int| 0 <= i < img.len() ==> img[i] == v,
        from <= to,
    ensures
        window(img, base, stride, n, from, to) == (to - from) * v,
    decreases to - from,
{
    if from < to {
        lemma_uniform_window(img, base, stride, n, from, to - 1, v);
        lemma_within(img, base, stride, n, clamped(to - 1, n));
        assert((to - 1 - from) * v + v == (to - from) * v) by (nonlinear_arith);
    } else {
        assert((to - from) * v == 0) by (nonlinear_arith)
            requires
                to == from,
        ;
    }
}

proof fn lemma_uniform_mean(
    img: Seq<u8>,
    base: int,
    stride: int,
    n: int,
    x: int,
    radius: int,
    v: u8,
)
    requires
        fits(img, base, stride, n),
        radius >= 0,
        forall|i: int| 0 <= i < img.len() ==> img[i] == v,
    ensures
        mean(img, base, stride, n, x, radius) == v,
{
    lemma_uniform_window(img, base, stride, n, x - radius, x + radius + 1, v);
    div_mod::lemma_div_multiples_vanish(v as int, 2 * radius + 1);
}

/// The blur leaves a uniform plane alone.
pub proof fn law_uniform_plane_stays(
    img: Seq<u8>,
    w: int,
    h: int,
    radius: int,
    n: nat,
    v: u8,
)
    requires
        w > 0,
        h > 0,
        radius >= 0,
        img.len() == 3 * w * h,
        forall|i: int| 0 <= i < img.len() ==> img[i] == v,
    ensures
        blurred(img, 3 * w, h, radius, n) == img,
    decreases n,
{
    if n > 0 && radius > 0 {
        let line = 3 * w;
        let before = blurred(img, line, h, radius, (n - 1) as nat);
        law_uniform_plane_stays(img, w, h, radius, (n - 1) as nat, v);
        assert(line * h == 3 * w * h) by (nonlinear_arith)
            requires
                line == 3 * w,
        ;
        let rows = rows_blurred(before, line, h, radius);
        assert forall|i: int| 0 <= i < rows.len() implies rows[i] == v by {
            let y = i / line;
            let j = i % line;
            div_mod::lemma_fundamental_div_mod(i, line);
            assert(0 <= y < h) by (nonlinear_arith)
                requires
                    i == line * y + j,
                    0 <= j < line,
                    0 <= i < line * h,
            ;
            lemma_row_start(line, h, y);
            assert(fits(before, y * line + j % 3, 3, w));
            lemma_uniform_mean(before, y * line + j % 3, 3, w, j / 3, radius, v);
        }
        assert(rows =~= img);
        let columns = columns_blurred(rows, line, h, radius);
        assert forall|i: int| 0 <= i < columns.len() implies columns[i] == v by {
            let j = i % line;
            lemma_column(rows, line, h, j);
            lemma_uniform_mean(rows, j, line, h, i / line, radius, v);
        }
        assert(columns =~= img);
    }
}

/// Sum of a list of numbers.
pub open spec fn total(list: Seq<int>) -> int
    decreases list.len(),
{
    if list.len() == 0 {
        0
    } else {
        total(list.drop_last()) + list.last()
    }
}

/// The `2 * radius + 1` values around column `x` of row `y`, channel `c`; beyond
/// an edge the edge value repeats.
pub open spec fn row_neighbours(
    img: Seq<u8>,
    w: int,
    x: int,
    y: int,
    c: int,
    radius: int,
) -> Seq<int> {
    Seq::new(
        (2 * radius + 1) as nat,
        |k: int|
            {
                let q = x - radius + k;
                let edge = if q < 0 {
                    0
                } else if q > w - 1 {
                    w - 1
                } else {
                    q
                };
                img[(y * w + edge) * 3 + c] as int
            },
    )
}

/// The `2 * radius + 1` values around row `y` of column `x`, channel `c`; beyond
/// an edge the edge value repeats.
pub open spec fn column_neighbours(
    img: Seq<u8>,
    w: int,
    h: int,
    x: int,
    y: int,
    c: int,
    radius: int,
) -> Seq<int> {
    Seq::new(
        (2 * radius + 1) as nat,
        |k: int|
            {
                let q = y - radius + k;
                let edge = if q < 0 {
                    0
                } else if q > h - 1 {
                    h - 1
                } else {
                    q
                };
                img[(edge * w + x) * 3 + c] as int
            },
    )
}

/// Whether `mid` has at column `x` of row `y`, channel `c`, the mean of the values
/// of `img` around it in the row, rounded down.
pub open spec fn row_mean_at(
    img: Seq<u8>,
    mid: Seq<u8>,
    w: int,
    radius: int,
    x: int,
    y: int,
    c: int,
) -> bool {
    mid[(y * w + x) * 3 + c] == total(row_neighbours(img, w, x, y, c, radius)) / (2 * radius + 1)
}

/// Whether `out` has at column `x` of row `y`, channel `c`, the mean of the values
/// of `mid` around it in the column, rounded down.
pub open spec fn column_mean_at(
    mid: Seq<u8>,
    out: Seq<u8>,
    w: int,
    h: int,
    radius: int,
    x: int,
    y: int,
    c: int,
) -> bool {
    out[(y * w + x) * 3 + c] == total(column_neighbours(mid, w, h, x, y, c, radius)) / (2 * radius
        + 1)
}

/// Whether `out` is what one pass makes of `img`, with `mid` in between.
pub open spec fn averaged(
    img: Seq<u8>,
    mid: Seq<u8>,
    out: Seq<u8>,
    w: int,
    h: int,
    radius: int,
) -> bool {
    &&& mid.len() == img.len()
    &&& out.len() == img.len()
    &&& forall|x: int, y: int, c: int|
        0 <= x < w && 0 <= y < h && 0 <= c < 3 ==> #[trigger] row_mean_at(
            img,
            mid,
            w,
            radius,
            x,
            y,
            c,
        )
    &&& forall|x: int, y: int, c: int|
        0 <= x < w && 0 <= y < h && 0 <= c < 3 ==> #[trigger] column_mean_at(
            mid,
            out,
            w,
            h,
            radius,
            x,
            y,
            c,
        )
}

proof fn lemma_window_total(
    img: Seq<u8>,
    base: int,
    stride: int,
    n: int,
    from: int,
    to: int,
    list: Seq<int>,
)
    requires
        from <= to,
        list.len() == to - from,
        forall|k: int|
            0 <= k < list.len() ==> #[trigger] list[k] == img[base + clamped(from + k, n) * stride],
    ensures
        window(img, base, stride, n, from, to) == total(list),
    decreases to - from,
{
    if from < to {
        lemma_window_total(img, base, stride, n, from, to - 1, list.drop_last());
        assert(list.last() == list[to - 1 - from]);
    }
}

/// Where a channel of a pixel lies.
proof fn lemma_place(w: int, h: int, x: int, y: int, c: int)
    requires
        0 <= x < w,
        0 <= y < h,
        0 <= c < 3,
    ensures
        0 <= (y * w + x) * 3 + c < 3 * w * h,
        ((y * w + x) * 3 + c) / (3 * w) == y,
        ((y * w + x) * 3 + c) % (3 * w) == 3 * x + c,
        (3 * w) * h == 3 * w * h,
        y * (3 * w) + c + x * 3 == (y * w + x) * 3 + c,
        (3 * x + c) + y * (3 * w) == (y * w + x) * 3 + c,
{
    let line = 3 * w;
    let i = (y * w + x) * 3 + c;
    assert(i == y * line + (3 * x + c)) by (nonlinear_arith)
        requires
            line == 3 * w,
            i == (y * w + x) * 3 + c,
    ;
    assert(y * line + line <= h * line && h * line == 3 * w * h && line * h == 3 * w * h)
        by (nonlinear_arith)
        requires
            0 <= y < h,
            line == 3 * w,
            w > 0,
    ;
    assert(0 <= y * line) by (nonlinear_arith)
        requires
            0 <= y,
            0 <= line,
    ;
    div_mod::lemma_fundamental_div_mod_converse(i, line, y, 3 * x + c);
    assert(y * (3 * w) + c + x * 3 == (y * w + x) * 3 + c) by (nonlinear_arith);
    assert((3 * x + c) + y * (3 * w) == (y * w + x) * 3 + c) by (nonlinear_arith);
}

/// One pass of the blur, pixel by pixel: there is a plane in between, every value
/// of which is the mean, rounded down, of the values around it in its row and
/// channel; and every value of the result is the mean, rounded down, of the values
/// of that plane around it in its column and channel.
pub proof fn law_one_pass(img: Seq<u8>, w: int, h: int, radius: int)
    requires
        w > 0,
        h > 0,
        radius > 0,
        img.len() == 3 * w * h,
    ensures
        exists|mid: Seq<u8>| #[trigger]
            averaged(img, mid, blurred(img, 3 * w, h, radius, 1), w, h, radius),
{
    let line = 3 * w;
    let mid = rows_blurred(img, line, h, radius);
    let out = blurred(img, line, h, radius, 1);
    law_nothing_to_blur(img, line, h, radius, 0);
    assert(out == columns_blurred(mid, line, h, radius));
    lemma_place(w, h, 0, 0, 0);
    assert forall|x: int, y: int, c: int|
        0 <= x < w && 0 <= y < h && 0 <= c < 3 implies #[trigger] row_mean_at(
        img,
        mid,
        w,
        radius,
        x,
        y,
        c,
    ) by {
        lemma_place(w, h, x, y, c);
        let list = row_neighbours(img, w, x, y, c, radius);
        assert forall|k: int| 0 <= k < list.len() implies #[trigger] list[k] == img[y * line + c
            + clamped(x - radius + k, w) * 3] by {
            let edge = clamped(x - radius + k, w);
            lemma_place(w, h, edge, y, c);
        }
        lemma_window_total(img, y * line + c, 3, w, x - radius, x + radius + 1, list);
        lemma_window_bounds(img, y * line + c, 3, w, x - radius, x + radius + 1);
        lemma_mean_fits(total(list), radius);
    }
    assert forall|x: int, y: int, c: int|
        0 <= x < w && 0 <= y < h && 0 <= c < 3 implies #[trigger] column_mean_at(
        mid,
        out,
        w,
        h,
        radius,
        x,
        y,
        c,
    ) by {
        lemma_place(w, h, x, y, c);
        let list = column_neighbours(mid, w, h, x, y, c, radius);
        assert forall|k: int| 0 <= k < list.len() implies #[trigger] list[k] == mid[3 * x + c
            + clamped(y - radius + k, h) * line] by {
            let edge = clamped(y - radius + k, h);
            lemma_place(w, h, x, edge, c);
        }
        lemma_window_total(mid, 3 * x + c, line, h, y - radius, y + radius + 1, list);
        lemma_window_bounds(mid, 3 * x + c, line, h, y - radius, y + radius + 1);
        lemma_mean_fits(total(list), radius);
    }
    assert(averaged(img, mid, out, w, h, radius));
}

proof fn lemma_mean_fits(sum: int, radius: int)
    requires
        radius >= 0,
        0 <= sum <= 255 * (2 * radius + 1),
    ensures
        0 <= sum / (2 * radius + 1) <= 255,
{
    assert(0 <= sum / (2 * radius + 1) <= 255) by (nonlinear_arith)
        requires
            radius >= 0,
            0 <= sum <= 255 * (2 * radius + 1),
    ;
}

/// Passes chain: `m + n` passes are `n` passes over what `m` passes make.
pub proof fn law_passes_chain(img: Seq<u8>, line: int, h: int, radius: int, m: nat, n: nat)
    ensures
        blurred(img, line, h, radius, m + n) == blurred(
            blurred(img, line, h, radius, m),
            line,
            h,
            radius,
            n,
        ),
    decreases n,
{
    if n > 0 && radius != 0 {
        law_passes_chain(img, line, h, radius, m, (n - 1) as nat);
        assert((m + n - 1) as nat == m + (n - 1) as nat);
    }
}

/// Without a radius, or without a pass, nothing changes.
pub proof fn law_nothing_to_blur(img: Seq<u8>, line: int, h: int, radius: int, n: nat)
    requires
        radius == 0 || n == 0,
    ensures
        blurred(img, line, h, radius, n) == img,
{
}

/// Whether `out` is what one pass makes of `img`.
pub open spec fn one_pass(img: Seq<u8>, out: Seq<u8>, w: int, h: int, radius: int) -> bool {
    exists|mid: Seq<u8>| #[trigger] averaged(img, mid, out, w, h, radius)
}

/// Whether `planes` leads from `img` to `out` in `n` passes, each over what the
/// one before it made.
pub open spec fn pass_by_pass(
    planes: Seq<Seq<u8>>,
    img: Seq<u8>,
    out: Seq<u8>,
    w: int,
    h: int,
    radius: int,
    n: nat,
) -> bool {
    &&& planes.len() == n + 1
    &&& planes[0] == img
    &&& planes[n as int] == out
    &&& forall|i: int, j: int|
        0 <= i < n && j == i + 1 ==> one_pass(
            #[trigger] planes[i],
            #[trigger] planes[j],
            w,
            h,
            radius,
        )
}

/// The blur is one pass after the other.
pub proof fn law_pass_by_pass(img: Seq<u8>, w: int, h: int, radius: int, n: nat)
    requires
        w > 0,
        h > 0,
        radius > 0,
        img.len() == 3 * w * h,
    ensures
        blurred(img, 3 * w, h, radius, n).len() == img.len(),
        exists|planes: Seq<Seq<u8>>| #[trigger]
            pass_by_pass(planes, img, blurred(img, 3 * w, h, radius, n), w, h, radius, n),
    decreases n,
{
    if n == 0 {
        assert(pass_by_pass(seq![img], img, img, w, h, radius, 0));
    } else {
        let m = (n - 1) as nat;
        law_pass_by_pass(img, w, h, radius, m);
        let last = blurred(img, 3 * w, h, radius, m);
        let out = blurred(img, 3 * w, h, radius, n);
        law_passes_chain(img, 3 * w, h, radius, m, 1);
        law_one_pass(last, w, h, radius);
        let planes = choose|planes: Seq<Seq<u8>>| #[trigger]
            pass_by_pass(planes, img, last, w, h, radius, m);
        let more = planes.push(out);
        assert forall|i: int, j: int| 0 <= i < n && j == i + 1 implies one_pass(
            #[trigger] more[i],
            #[trigger] more[j],
            w,
            h,
            radius,
        ) by {
            if i < m {
                assert(one_pass(planes[i], planes[j], w, h, radius));
            }
        }
        assert(pass_by_pass(more, img, out, w, h, radius, n));
    }
}

} // verus!
