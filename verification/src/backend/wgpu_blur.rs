//! Data layout of the compute-shader blur: padded pixels, padded rows and the
//! parameter block.

use vstd::prelude::*;

verus! {

/// Bytes of the parameter block.
pub const UNIFORM_BUFFER_SIZE: u64 = 16;

/// Side of a workgroup in pixels.
pub const WORKGROUP_SIZE: u32 = 8;

/// [`wgpu::COPY_BYTES_PER_ROW_ALIGNMENT`]: the alignment of a row in a buffer
/// that a texture is copied to.  Claimed: it is 256.
#[verifier::external_body]
fn row_alignment() -> (r: u32)
    ensures
        r == 256,
{
    wgpu::COPY_BYTES_PER_ROW_ALIGNMENT
}

/// Bytes of a row of `width` pixels, up to the next multiple of the alignment.
pub open spec fn padded_row(width: u32) -> int {
    (width * 4 + 255) / 256 * 256
}

/// Bytes of a row of the buffer that a texture of `width` pixels is copied to.
#[must_use]
pub fn padded_bytes_per_row(width: u32) -> (r: u32)
    requires
        padded_row(width) <= u32::MAX,
    ensures
        r == padded_row(width),
        r % 256 == 0,
        width * 4 <= r < width * 4 + 256,
{
    let unpadded: u32 = width * 4;
    let align: u32 = row_alignment();
    let rest: u32 = unpadded % align;
    proof {
        lemma_next_multiple(unpadded as int, rest as int);
    }
    if rest == 0 {
        unpadded
    } else {
        unpadded + (align - rest)
    }
}

proof fn lemma_next_multiple(n: int, rest: int)
    requires
        0 <= n,
        rest == n % 256,
    ensures
        rest == 0 ==> (n + 255) / 256 * 256 == n,
        rest > 0 ==> (n + 255) / 256 * 256 == n + 256 - rest,
        (n + 255) / 256 * 256 % 256 == 0,
{
}

/// Workgroups that cover `pixels`.
#[must_use]
pub fn workgroups(pixels: u32) -> (r: u32)
    ensures
        r == (pixels + 7) / 8,
        pixels <= r * WORKGROUP_SIZE < pixels + WORKGROUP_SIZE,
{
    let whole: u32 = pixels / WORKGROUP_SIZE;
    if pixels % WORKGROUP_SIZE == 0 {
        whole
    } else {
        whole + 1
    }
}

/// Packed RGB as packed RGBA, fully opaque.
pub open spec fn rgba(rgb: Seq<u8>) -> Seq<u8> {
    Seq::new(
        rgb.len() / 3 * 4,
        |i: int|
            if i % 4 == 3 {
                0xFFu8
            } else {
                rgb[i / 4 * 3 + i % 4]
            },
    )
}

/// Pad packed RGB to packed RGBA.
pub fn pad_rgb_to_rgba(src: &[u8], dst: &mut [u8])
    requires
        src@.len() % 3 == 0,
        old(dst)@.len() == src@.len() / 3 * 4,
    ensures
        final(dst)@ == rgba(src@),
{
    let pixels: usize = src.len() / 3;
    let n: usize = dst.len();
    let mut p: usize = 0;
    while p < pixels
        invariant
            p <= pixels,
            src@.len() == pixels * 3,
            dst@.len() == pixels * 4,
            n == dst@.len(),
            forall|i: int| 0 <= i < p * 4 ==> #[trigger] dst@[i] == rgba(src@)[i],
        decreases pixels - p,
    {
        dst[p * 4] = src[p * 3];
        dst[p * 4 + 1] = src[p * 3 + 1];
        dst[p * 4 + 2] = src[p * 3 + 2];
        dst[p * 4 + 3] = 0xFF;
        p = p + 1;
    }
    assert(dst@ =~= rgba(src@));
}

/// Position of channel `c` of pixel `x` in row `y`.
pub open spec fn packed_at(width: int, x: int, y: int, c: int) -> int {
    (y * width + x) * 3 + c
}

/// Whether `rgb` holds the colours of the RGBA rows in `src`, each of `row`
/// bytes.
pub open spec fn stripped(src: Seq<u8>, rgb: Seq<u8>, width: int, height: int, row: int) -> bool {
    &&& rgb.len() == width * height * 3
    &&& forall|x: int, y: int, c: int|
        0 <= x < width && 0 <= y < height && 0 <= c < 3 ==> #[trigger] rgb[packed_at(
            width,
            x,
            y,
            c,
        )] == src[y * row + x * 4 + c]
}

proof fn lemma_pixel(width: int, height: int, row: int, len: int, x: int, y: int)
    requires
        0 <= x < width,
        0 <= y < height,
        width * 4 <= row,
        row * height <= len,
    ensures
        0 <= packed_at(width, x, y, 0),
        packed_at(width, x, y, 0) + 3 <= width * height * 3,
        0 <= y * row,
        y * row + x * 4 + 4 <= len,
        0 <= y * width,
        y * width + width <= width * height,
{
    assert(0 <= y * width && y * width + width <= width * height) by (nonlinear_arith)
        requires
            0 <= y <= height - 1,
            0 <= width,
    ;
    assert(0 <= y * row && y * row + row <= row * height) by (nonlinear_arith)
        requires
            0 <= y <= height - 1,
            0 <= row,
    ;
    assert((y * width + x) * 3 + 3 <= width * height * 3) by (nonlinear_arith)
        requires
            y * width + x + 1 <= width * height,
    ;
}

/// Strip the RGBA rows of a buffer, each of `bytes_per_row` bytes, to packed RGB.
#[verifier::rlimit(30)]
pub fn strip_rgba_to_rgb(
    src: &[u8],
    dst: &mut [u8],
    width: u32,
    height: u32,
    bytes_per_row: u32,
)
    requires
        old(dst)@.len() == width * height * 3,
        width * 4 <= bytes_per_row,
        bytes_per_row * height <= src@.len(),
    ensures
        stripped(src@, final(dst)@, width as int, height as int, bytes_per_row as int),
{
    let w: usize = width as usize;
    let h: usize = height as usize;
    let row: usize = bytes_per_row as usize;
    let src_len: usize = src.len();
    let dst_len: usize = dst.len();
    let mut y: usize = 0;
    let mut at: usize = 0;
    let mut from: usize = 0;
    while y < h
        invariant
            w == width,
            h == height,
            row == bytes_per_row,
            w * 4 <= row,
            row * h <= src_len,
            src_len == src@.len(),
            dst_len == dst@.len(),
            dst_len == w * h * 3,
            y <= h,
            at == y * w * 3,
            from == y * row,
            forall|x: int, yy: int, c: int|
                0 <= x < w && 0 <= yy < y && 0 <= c < 3 ==> #[trigger] dst@[packed_at(
                    w as int,
                    x,
                    yy,
                    c,
                )] == src@[yy * row + x * 4 + c],
        decreases h - y,
    {
        let mut x: usize = 0;
        proof {
            if w > 0 {
                lemma_pixel(w as int, h as int, row as int, src_len as int, 0, y as int);
            }
            assert(y * w * 3 == packed_at(w as int, 0, y as int, 0)) by (nonlinear_arith)
                requires
                    packed_at(w as int, 0, y as int, 0) == (y * w + 0) * 3 + 0,
            ;
        }
        while x < w
            invariant
                w == width,
                h == height,
                row == bytes_per_row,
                w * 4 <= row,
                row * h <= src_len,
                src_len == src@.len(),
                dst_len == dst@.len(),
                dst_len == w * h * 3,
                y < h,
                x <= w,
                at == packed_at(w as int, x as int, y as int, 0),
                from == y * row,
                forall|xx: int, yy: int, c: int|
                    0 <= xx < w && 0 <= yy < y && 0 <= c < 3 ==> #[trigger] dst@[packed_at(
                        w as int,
                        xx,
                        yy,
                        c,
                    )] == src@[yy * row + xx * 4 + c],
                forall|xx: int, c: int|
                    0 <= xx < x && 0 <= c < 3 ==> #[trigger] dst@[packed_at(
                        w as int,
                        xx,
                        y as int,
                        c,
                    )] == src@[y * row + xx * 4 + c],
            decreases w - x,
        {
            proof {
                lemma_pixel(w as int, h as int, row as int, src_len as int, x as int, y as int);
            }
            let ghost before = dst@;
            dst[at] = src[from + x * 4];
            dst[at + 1] = src[from + x * 4 + 1];
            dst[at + 2] = src[from + x * 4 + 2];
            proof {
                assert forall|xx: int, yy: int, c: int|
                    0 <= xx < w && 0 <= yy < y && 0 <= c < 3 implies #[trigger] dst@[packed_at(
                    w as int,
                    xx,
                    yy,
                    c,
                )] == src@[yy * row + xx * 4 + c] by {
                    assert(0 <= yy * w && yy * w + w <= y * w) by (nonlinear_arith)
                        requires
                            0 <= yy <= y - 1,
                            0 <= w,
                    ;
                    assert(dst@[packed_at(w as int, xx, yy, c)] == before[packed_at(
                        w as int,
                        xx,
                        yy,
                        c,
                    )]);
                }
                assert forall|xx: int, c: int|
                    0 <= xx < x + 1 && 0 <= c < 3 implies #[trigger] dst@[packed_at(
                    w as int,
                    xx,
                    y as int,
                    c,
                )] == src@[y * row + xx * 4 + c] by {
                    if xx < x {
                        assert(dst@[packed_at(w as int, xx, y as int, c)] == before[packed_at(
                            w as int,
                            xx,
                            y as int,
                            c,
                        )]);
                    }
                }
            }
            at = at + 3;
            x = x + 1;
        }
        proof {
            assert(at == (y + 1) * w * 3) by (nonlinear_arith)
                requires
                    at == (y * w + w) * 3 + 0,
            ;
            assert(from + row == (y + 1) * row) by (nonlinear_arith)
                requires
                    from == y * row,
            ;
            assert((y + 1) * row <= row * h) by (nonlinear_arith)
                requires
                    y + 1 <= h,
                    0 <= row,
            ;
        }
        from = from + row;
        y = y + 1;
    }
}

/// Little-endian bytes of `v`.
pub open spec fn le_bytes(v: u32) -> Seq<u8> {
    seq![
        (v % 0x100) as u8,
        (v / 0x100 % 0x100) as u8,
        (v / 0x1_0000 % 0x100) as u8,
        (v / 0x100_0000) as u8,
    ]
}

/// The parameter block: width, height and radius, little-endian, then zeros.
#[must_use]
pub fn pack_uniform(width: u32, height: u32, radius: u32) -> (r: [u8; 16])
    ensures
        r@ == le_bytes(width) + le_bytes(height) + le_bytes(radius) + seq![0u8, 0u8, 0u8, 0u8],
{
    let out: [u8; 16] = [
        (width % 0x100) as u8,
        (width / 0x100 % 0x100) as u8,
        (width / 0x1_0000 % 0x100) as u8,
        (width / 0x100_0000) as u8,
        (height % 0x100) as u8,
        (height / 0x100 % 0x100) as u8,
        (height / 0x1_0000 % 0x100) as u8,
        (height / 0x100_0000) as u8,
        (radius % 0x100) as u8,
        (radius / 0x100 % 0x100) as u8,
        (radius / 0x1_0000 % 0x100) as u8,
        (radius / 0x100_0000) as u8,
        0,
        0,
        0,
        0,
    ];
    assert(out@ =~= le_bytes(width) + le_bytes(height) + le_bytes(radius) + seq![
        0u8,
        0u8,
        0u8,
        0u8,
    ]);
    out
}

/// Stripping what was padded gives the plane back, whatever the rows are padded
/// to.
pub proof fn law_pad_strip_round_trip(
    rgb: Seq<u8>,
    rows: Seq<u8>,
    out: Seq<u8>,
    width: int,
    height: int,
    row: int,
)
    requires
        0 <= width,
        0 <= height,
        rgb.len() == width * height * 3,
        width * 4 <= row,
        forall|y: int, j: int|
            0 <= y < height && 0 <= j < width * 4 ==> #[trigger] rows[y * row + j] == rgba(
                rgb,
            )[y * (width * 4) + j],
        stripped(rows, out, width, height, row),
    ensures
        out == rgb,
{
    assert forall|i: int| 0 <= i < out.len() implies out[i] == rgb[i] by {
        let p = i / 3;
        let c = i % 3;
        let y = p / width;
        let x = p % width;
        assert(width > 0) by (nonlinear_arith)
            requires
                0 <= i < width * height * 3,
                0 <= width,
                0 <= height,
        ;
        vstd::arithmetic::div_mod::lemma_fundamental_div_mod(p, width);
        assert(p == y * width + x) by (nonlinear_arith)
            requires
                p == width * y + x,
        ;
        assert(0 <= y < height) by (nonlinear_arith)
            requires
                p == y * width + x,
                0 <= x < width,
                0 <= p < width * height,
        ;
        assert(i == packed_at(width, x, y, c));
        assert(out[packed_at(width, x, y, c)] == rows[y * row + x * 4 + c]);
        let j = x * 4 + c;
        assert(rows[y * row + j] == rgba(rgb)[y * (width * 4) + j]);
        assert(y * (width * 4) + j == p * 4 + c) by (nonlinear_arith)
            requires
                p == y * width + x,
                j == x * 4 + c,
        ;
        assert((p * 4 + c) % 4 == c && (p * 4 + c) / 4 == p);
        assert(rgba(rgb)[p * 4 + c] == rgb[p * 3 + c]);
    }
    assert(out =~= rgb);
}

} // verus!
