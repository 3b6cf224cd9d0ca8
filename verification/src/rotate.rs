//! 90-degree clockwise rotation of the rendered frame and conversion of its
//! premultiplied B,G,R,A pixels into X,R,G,B (B,G,R,X in memory) pixels.
//!
//! The source is the landscape pixmap the renderer drew into (`src_w` pixels
//! wide, row-major, four bytes per pixel); the destination is the portrait
//! framebuffer (`dst_w` pixels wide, `dst_h` rows). Destination row `dy` reads
//! source column `dy`, walking the visible source rows from `src_h - 1` down to
//! 0. When `dst_w > src_h` the leading `dst_w - src_h` pixels of every
//! destination row have no source pixel and are zero, alpha included.

use vstd::arithmetic::div_mod::lemma_fundamental_div_mod_converse;
use vstd::arithmetic::mul::lemma_mul_inequality;
use vstd::prelude::*;

verus! {

/// `⌊c·255/a⌋`, saturated to a byte.
pub open spec fn spec_unpremultiply(c: u8, a: u8) -> u8 {
    let v = (c as int) * 255 / (a as int);
    if v > 255 {
        255u8
    } else {
        v as u8
    }
}

/// Number of leading destination pixels per row that have no source pixel.
pub open spec fn rotation_pad(dst_w: int, src_h: int) -> int {
    if dst_w > src_h {
        dst_w - src_h
    } else {
        0
    }
}

/// Channel `ch` (0 = blue, 1 = green, 2 = red, 3 = X) of the converted pixel
/// whose source bytes start at `base`.
pub open spec fn converted_channel(src: Seq<u8>, base: int, ch: int) -> u8 {
    let a = src[base + 3];
    if ch == 3 {
        255u8
    } else if a == 0 {
        0u8
    } else if a == 255 {
        src[base + ch]
    } else {
        spec_unpremultiply(src[base + ch], a)
    }
}

/// Byte `ch` of destination pixel `(dx, dy)`.
pub open spec fn rotated_pixel_byte(
    src: Seq<u8>,
    src_w: int,
    src_h: int,
    dst_w: int,
    dx: int,
    dy: int,
    ch: int,
) -> u8 {
    let pad = rotation_pad(dst_w, src_h);
    if dx < pad {
        0u8
    } else {
        let base = ((src_h - 1 - (dx - pad)) * src_w + dy) * 4;
        if base + 4 > src.len() {
            0u8
        } else {
            converted_channel(src, base, ch)
        }
    }
}

/// The whole rotated frame: `dst_w * dst_h` pixels, four bytes each.
pub open spec fn rotated_frame(src: Seq<u8>, src_w: int, src_h: int, dst_w: int, dst_h: int) -> Seq<u8> {
    Seq::new(
        (dst_w * dst_h * 4) as nat,
        |i: int| rotated_pixel_byte(src, src_w, src_h, dst_w, (i / 4) % dst_w, (i / 4) / dst_w, i % 4),
    )
}

/// The source offsets that the rotation computes stay within `usize`.
pub open spec fn rotation_offsets_fit(src_w: int, src_h: int, dst_h: int) -> bool {
    dst_h > 0 && src_h > 0 ==> ((src_h - 1) * src_w + dst_h) * 4 <= usize::MAX
}

/// Unpremultiply one colour channel: `c * 255 / a`, saturated to a byte.
pub fn unpremultiply_channel(c: u8, a: u8) -> (r: u8)
    requires
        a != 0,
    ensures
        r == spec_unpremultiply(c, a),
{
    let scaled: u32 = (c as u32) * 255 / (a as u32);
    if scaled > 255 {
        255
    } else {
        scaled as u8
    }
}

proof fn lemma_frame_index(i: int, q: int, ch: int, dst_w: int, dx: int, dy: int)
    requires
        0 <= ch < 4,
        i == q * 4 + ch,
        dst_w > 0,
        0 <= dx < dst_w,
        q == dy * dst_w + dx,
    ensures
        i / 4 == q,
        i % 4 == ch,
        q / dst_w == dy,
        q % dst_w == dx,
{
    lemma_fundamental_div_mod_converse(i, 4, q, ch);
    lemma_fundamental_div_mod_converse(q, dst_w, dy, dx);
}

/// Rotate 90 degrees clockwise and unpremultiply into XRGB8888, writing into
/// the first `dst_w * dst_h * 4` bytes of `dst`. Leaves `dst` untouched when
/// it is shorter than that. A source pixel that lies past the end of
/// `src_data` leaves its destination pixel zero.
pub fn rotate_and_convert_into(
    src_data: &[u8],
    src_w: usize,
    src_h: usize,
    dst_w: usize,
    dst_h: usize,
    dst: &mut [u8],
)
    requires
        dst_w > 0,
        dst_w * dst_h * 4 <= usize::MAX,
        old(dst)@.len() >= dst_w * dst_h * 4 ==> rotation_offsets_fit(
            src_w as int,
            src_h as int,
            dst_h as int,
        ),
    ensures
        old(dst)@.len() < dst_w * dst_h * 4 ==> final(dst)@ == old(dst)@,
        old(dst)@.len() >= dst_w * dst_h * 4 ==> final(dst)@ == rotated_frame(
            src_data@,
            src_w as int,
            src_h as int,
            dst_w as int,
            dst_h as int,
        ) + old(dst)@.subrange(dst_w * dst_h * 4, old(dst)@.len() as int),
{
    let n = dst_w * dst_h * 4;
    if dst.len() < n {
        return ;
    }
    let ghost frame = rotated_frame(src_data@, src_w as int, src_h as int, dst_w as int, dst_h as int);
    let ghost old_dst = dst@;
    let pad: usize = if dst_w > src_h {
        dst_w - src_h
    } else {
        0
    };
    let mut dy: usize = 0;
    while dy < dst_h
        invariant
            0 <= dy <= dst_h,
            dst_w > 0,
            n == dst_w * dst_h * 4,
            n <= usize::MAX,
            dst@.len() == old_dst.len(),
            old_dst.len() >= n,
            pad == rotation_pad(dst_w as int, src_h as int),
            rotation_offsets_fit(src_w as int, src_h as int, dst_h as int),
            frame == rotated_frame(src_data@, src_w as int, src_h as int, dst_w as int, dst_h as int),
            forall|i: int| 0 <= i < dy * dst_w * 4 ==> dst@[i] == frame[i],
            forall|i: int| n <= i < old_dst.len() ==> dst@[i] == old_dst[i],
        decreases dst_h - dy,
    {
        assert(dy * dst_w < dst_h * dst_w) by (nonlinear_arith)
            requires
                dy < dst_h,
                dst_w > 0,
        ;
        assert((dy + 1) * dst_w <= dst_h * dst_w) by (nonlinear_arith)
            requires
                dy < dst_h,
                dst_w > 0,
        ;
        let mut dx: usize = 0;
        while dx < dst_w
            invariant
                0 <= dy < dst_h,
                0 <= dx <= dst_w,
                dst_w > 0,
                n == dst_w * dst_h * 4,
                n <= usize::MAX,
                (dy + 1) * dst_w <= dst_h * dst_w,
                dst@.len() == old_dst.len(),
                old_dst.len() >= n,
                pad == rotation_pad(dst_w as int, src_h as int),
                rotation_offsets_fit(src_w as int, src_h as int, dst_h as int),
                frame == rotated_frame(src_data@, src_w as int, src_h as int, dst_w as int, dst_h as int),
                forall|i: int| 0 <= i < (dy * dst_w + dx) * 4 ==> dst@[i] == frame[i],
                forall|i: int| n <= i < old_dst.len() ==> dst@[i] == old_dst[i],
            decreases dst_w - dx,
        {
            assert((dy + 1) * dst_w == dy * dst_w + dst_w) by (nonlinear_arith);
            assert(dst_h * dst_w * 4 == dst_w * dst_h * 4) by (nonlinear_arith);
            let q: usize = dy * dst_w + dx;
            let o: usize = q * 4;
            let (b, g, r, x) = rotated_pixel(src_data, src_w, src_h, dst_w, dst_h, dx, dy, pad);
            dst[o] = b;
            dst[o + 1] = g;
            dst[o + 2] = r;
            dst[o + 3] = x;
            proof {
                assert forall|i: int| 0 <= i < (dy * dst_w + dx + 1) * 4 implies dst@[i] == frame[i] by {
                    if i >= o {
                        let ch = i - o;
                        lemma_frame_index(i, q as int, ch, dst_w as int, dx as int, dy as int);
                    }
                }
            }
            dx = dx + 1;
        }
        assert((dy + 1) * dst_w == dy * dst_w + dst_w) by (nonlinear_arith);
        dy = dy + 1;
    }
    assert(dst_h * dst_w * 4 == n) by (nonlinear_arith)
        requires
            n == dst_w * dst_h * 4,
    ;
    assert(dst@ =~= frame + old_dst.subrange(n as int, old_dst.len() as int));
}

/// The four output bytes of destination pixel `(dx, dy)`.
fn rotated_pixel(
    src_data: &[u8],
    src_w: usize,
    src_h: usize,
    dst_w: usize,
    dst_h: usize,
    dx: usize,
    dy: usize,
    pad: usize,
) -> (res: (u8, u8, u8, u8))
    requires
        dx < dst_w,
        dy < dst_h,
        pad == rotation_pad(dst_w as int, src_h as int),
        rotation_offsets_fit(src_w as int, src_h as int, dst_h as int),
    ensures
        res.0 == rotated_pixel_byte(src_data@, src_w as int, src_h as int, dst_w as int, dx as int, dy as int, 0),
        res.1 == rotated_pixel_byte(src_data@, src_w as int, src_h as int, dst_w as int, dx as int, dy as int, 1),
        res.2 == rotated_pixel_byte(src_data@, src_w as int, src_h as int, dst_w as int, dx as int, dy as int, 2),
        res.3 == rotated_pixel_byte(src_data@, src_w as int, src_h as int, dst_w as int, dx as int, dy as int, 3),
{
    if dx < pad {
        return (0, 0, 0, 0);
    }
    let sy: usize = src_h - 1 - (dx - pad);
    proof {
        lemma_mul_inequality(sy as int, (src_h - 1) as int, src_w as int);
    }
    let base: usize = (sy * src_w + dy) * 4;
    if base + 4 > src_data.len() {
        return (0, 0, 0, 0);
    }
    let blue = src_data[base];
    let green = src_data[base + 1];
    let red = src_data[base + 2];
    let alpha = src_data[base + 3];
    if alpha == 0 {
        (0, 0, 0, 255)
    } else if alpha == 255 {
        (blue, green, red, 255)
    } else {
        (
            unpremultiply_channel(blue, alpha),
            unpremultiply_channel(green, alpha),
            unpremultiply_channel(red, alpha),
            255,
        )
    }
}

/// Allocating form of [`rotate_and_convert_into`]: a fresh zeroed buffer of
/// exactly `dst_w * dst_h * 4` bytes, filled with the rotated frame.
pub fn rotate_and_convert(
    src_data: &[u8],
    src_w: usize,
    src_h: usize,
    dst_w: usize,
    dst_h: usize,
) -> (out: Vec<u8>)
    requires
        dst_w > 0,
        dst_w * dst_h * 4 <= usize::MAX,
        rotation_offsets_fit(src_w as int, src_h as int, dst_h as int),
    ensures
        out@ == rotated_frame(src_data@, src_w as int, src_h as int, dst_w as int, dst_h as int),
{
    let n = dst_w * dst_h * 4;
    let mut dst: Vec<u8> = vec![0u8; n];
    rotate_and_convert_into(src_data, src_w, src_h, dst_w, dst_h, dst.as_mut_slice());
    assert(dst@ =~= rotated_frame(src_data@, src_w as int, src_h as int, dst_w as int, dst_h as int));
    dst
}


/// Unpremultiplying a channel that respects premultiplication (`c <= a`)
/// never saturates: it is exactly `⌊c·255/a⌋`, and a channel equal to alpha
/// comes back fully on.
pub proof fn lemma_unpremultiply_exact(c: u8, a: u8)
    requires
        0 < a,
        c <= a,
    ensures
        spec_unpremultiply(c, a) as int == (c as int) * 255 / (a as int),
        c == a ==> spec_unpremultiply(c, a) == 255,
{
    assert((c as int) * 255 / (a as int) <= 255) by (nonlinear_arith)
        requires
            0 < a,
            c <= a,
    ;
    if c == a {
        assert((a as int) * 255 / (a as int) == 255) by (nonlinear_arith)
            requires
                0 < a,
        ;
    }
}

/// Byte `ch` of destination pixel `(dx, dy)` sits at `(dy * dst_w + dx) * 4 + ch`
/// of the rotated frame.
pub proof fn lemma_frame_layout(
    src: Seq<u8>,
    src_w: int,
    src_h: int,
    dst_w: int,
    dst_h: int,
    dx: int,
    dy: int,
    ch: int,
)
    requires
        0 <= dx < dst_w,
        0 <= dy < dst_h,
        0 <= ch < 4,
    ensures
        0 <= (dy * dst_w + dx) * 4 + ch < dst_w * dst_h * 4,
        rotated_frame(src, src_w, src_h, dst_w, dst_h)[(dy * dst_w + dx) * 4 + ch]
            == rotated_pixel_byte(src, src_w, src_h, dst_w, dx, dy, ch),
{
    let q = dy * dst_w + dx;
    assert(0 <= q < dst_w * dst_h) by (nonlinear_arith)
        requires
            0 <= dx < dst_w,
            0 <= dy < dst_h,
            q == dy * dst_w + dx,
    ;
    lemma_frame_index(q * 4 + ch, q, ch, dst_w, dx, dy);
}

/// A 90-degree clockwise rotation: when the destination is exactly as wide as
/// the visible source is tall, source pixel `(sx, sy)` lands at destination
/// pixel `(src_h - 1 - sy, sx)`; its alpha byte becomes 0xFF, and a fully
/// opaque pixel keeps its three colour bytes.
pub proof fn lemma_rotation_moves_pixel(
    src: Seq<u8>,
    src_w: int,
    src_h: int,
    dst_h: int,
    sx: int,
    sy: int,
)
    requires
        0 <= sy < src_h,
        0 <= sx < dst_h,
        (sy * src_w + sx) * 4 + 4 <= src.len(),
    ensures
        ({
            let base = (sy * src_w + sx) * 4;
            let f = |ch: int| rotated_pixel_byte(src, src_w, src_h, src_h, src_h - 1 - sy, sx, ch);
            &&& f(3) == 255
            &&& src[base + 3] == 255 ==> f(0) == src[base] && f(1) == src[base + 1] && f(2) == src[base + 2]
            &&& src[base + 3] == 0 ==> f(0) == 0 && f(1) == 0 && f(2) == 0
        }),
{
    assert(rotation_pad(src_h, src_h) == 0);
    assert(src_h - 1 - (src_h - 1 - sy - 0) == sy);
}

/// Destination pixels that no source row reaches are zero, alpha included.
pub proof fn lemma_padding_is_zero(
    src: Seq<u8>,
    src_w: int,
    src_h: int,
    dst_w: int,
    dx: int,
    dy: int,
    ch: int,
)
    requires
        0 <= dx < dst_w - src_h,
    ensures
        rotated_pixel_byte(src, src_w, src_h, dst_w, dx, dy, ch) == 0,
{
}

/// The clockwise rotation, padded frames included: source pixel `(sx, sy)`
/// lands in destination row `sx`, at column `dst_w - 1 - sy` (after the
/// `dst_w - src_h` padding pixels, the visible rows run from the last one
/// down to row 0). Its fourth byte is 0xFF; its colour bytes are the
/// source's when it is opaque, zero when it is fully transparent, and
/// `⌊c·255/a⌋` (at most 255) otherwise.
pub proof fn lemma_rotation_lands_pixel(
    src: Seq<u8>,
    src_w: int,
    src_h: int,
    dst_w: int,
    dst_h: int,
    sx: int,
    sy: int,
    ch: int,
)
    requires
        0 <= sy < src_h <= dst_w,
        0 <= sx < dst_h,
        0 <= ch < 4,
        (sy * src_w + sx) * 4 + 4 <= src.len(),
    ensures
        ({
            let base = (sy * src_w + sx) * 4;
            let a = src[base + 3];
            let c = src[base + ch];
            let out = rotated_frame(src, src_w, src_h, dst_w, dst_h)[(sx * dst_w + (dst_w - 1 - sy)) * 4
                + ch];
            &&& ch == 3 ==> out == 255
            &&& ch < 3 && a == 255 ==> out == c
            &&& ch < 3 && a == 0 ==> out == 0
            &&& ch < 3 && 0 < a < 255 ==> out as int == (if (c as int) * 255 / (a as int) > 255 {
                255
            } else {
                (c as int) * 255 / (a as int)
            })
        }),
{
    let dx = dst_w - 1 - sy;
    lemma_frame_layout(src, src_w, src_h, dst_w, dst_h, dx, sx, ch);
    assert(dx - rotation_pad(dst_w, src_h) == src_h - 1 - sy);
}

} // verus!
