//! Byte-level image conversions used before inference: channel reordering,
//! grayscale and bilinear resizing.

use std::sync::Arc;

use vstd::prelude::*;

use crate::error::TfError;
use crate::frame::{channels_of, Frame, PixelFormat};
use crate::text::string_from_chars;

verus! {

/// The RGB bytes of the first `n` pixels of `src`, whose pixels are `c`
/// bytes wide with blue first (BGR or BGRA): red and blue trade places and
/// any fourth byte is dropped.
pub open spec fn swapped_rgb(src: Seq<u8>, n: int, c: int) -> Seq<u8> {
    Seq::new((3 * n) as nat, |k: int| src[c * (k / 3) + 2 - k % 3])
}

/// `g` holds one gray byte per pixel of `src` (format `f`, `n` pixels):
/// gray input is kept as it is; otherwise pixel `p`'s byte is what `luma`
/// returns for the format and the pixel's first three bytes in memory order
/// (blue, green, red for BGR and BGRA; red, green, blue for RGB).
pub open spec fn is_gray_by<F: Fn(PixelFormat, u8, u8, u8) -> u8>(
    g: Seq<u8>,
    src: Seq<u8>,
    n: int,
    f: PixelFormat,
    luma: F,
) -> bool {
    if f == PixelFormat::Gray8 {
        g == src
    } else {
        &&& g.len() == n
        &&& forall|p: int|
            0 <= p < n ==> luma.ensures(
                (f, src[channels_of(f) * p], src[channels_of(f) * p + 1], src[channels_of(f) * p + 2]),
                #[trigger] g[p],
            )
    }
}

proof fn lemma_swapped(out: Seq<u8>, src: Seq<u8>, n: int, c: int)
    requires
        n >= 0,
        out.len() == 3 * n,
        forall|p: int|
            0 <= p < n ==> {
                &&& #[trigger] out[3 * p] == src[c * p + 2]
                &&& out[3 * p + 1] == src[c * p + 1]
                &&& out[3 * p + 2] == src[c * p]
            },
    ensures
        out == swapped_rgb(src, n, c),
{
    let sw = swapped_rgb(src, n, c);
    assert forall|k: int| 0 <= k < out.len() implies out[k] == sw[k] by {
        let p = k / 3;
        let r = k % 3;
        vstd::arithmetic::div_mod::lemma_fundamental_div_mod(k, 3);
        assert(k == 3 * p + r);
        assert(0 <= p < n);
        assert(out[3 * p] == src[c * p + 2]);
    }
    assert(out =~= sw);
}

proof fn lemma_u32_product(a: u32, b: u32)
    ensures
        0 <= a * b <= 0xffff_fffe_0000_0001,
{
    assert(0 <= a * b <= 0xffff_ffff * 0xffff_ffff) by (nonlinear_arith)
        requires
            0 <= a <= 0xffff_ffff,
            0 <= b <= 0xffff_ffff,
    ;
}

fn vision_error(msg: &str) -> (e: TfError)
    ensures
        e matches TfError::Vision(m) && m@ == msg@,
{
    TfError::Vision(msg.to_owned())
}

/// Reorders BGRA bytes into RGB (the alpha byte is dropped).
pub fn bgra_to_rgb(frame: &Frame) -> (r: Result<Frame, TfError>)
    requires
        frame.format == PixelFormat::Bgra8 && frame.data@.len() >= 4 * (frame.width * frame.height)
            ==> 3 * frame.width <= u32::MAX,
    ensures
        match r {
            Ok(f) => {
                &&& frame.format == PixelFormat::Bgra8
                &&& frame.data@.len() >= 4 * (frame.width * frame.height)
                &&& f.width == frame.width
                &&& f.height == frame.height
                &&& f.stride == 3 * frame.width
                &&& f.format == PixelFormat::Rgb8
                &&& f.data@ == swapped_rgb(frame.data@, frame.width * frame.height, 4)
            },
            Err(e) => {
                &&& e is Vision
                &&& (frame.format != PixelFormat::Bgra8 || frame.data@.len() < 4 * (frame.width * frame.height))
            },
        },
{
    if frame.format != PixelFormat::Bgra8 {
        let msg = match frame.format {
            PixelFormat::Bgr8 => "expected BGRA8, got Bgr8",
            PixelFormat::Rgb8 => "expected BGRA8, got Rgb8",
            _ => "expected BGRA8, got Gray8",
        };
        return Err(vision_error(msg));
    }
    let src: &Vec<u8> = &frame.data;
    let slen = src.len();
    proof {
        lemma_u32_product(frame.width, frame.height);
    }
    let pc: u128 = frame.width as u128 * frame.height as u128;
    if (slen as u128) < pc * 4 {
        return Err(vision_error("BGRA frame data too short"));
    }
    let n = pc as usize;
    let mut dst: Vec<u8> = Vec::new();
    for i in 0..n
        invariant
            n == frame.width * frame.height,
            src@ == frame.data@,
            src@.len() >= 4 * n,
            slen == src@.len(),
            dst@.len() == 3 * i,
            forall|p: int|
                0 <= p < i ==> {
                    &&& #[trigger] dst@[3 * p] == src@[4 * p + 2]
                    &&& dst@[3 * p + 1] == src@[4 * p + 1]
                    &&& dst@[3 * p + 2] == src@[4 * p]
                },
    {
        let off = i * 4;
        let ghost d0 = dst@;
        dst.push(src[off + 2]);
        dst.push(src[off + 1]);
        dst.push(src[off]);
        proof {
            assert forall|p: int| 0 <= p < i + 1 implies {
                &&& #[trigger] dst@[3 * p] == src@[4 * p + 2]
                &&& dst@[3 * p + 1] == src@[4 * p + 1]
                &&& dst@[3 * p + 2] == src@[4 * p]
            } by {
                if p < i {
                    assert(d0[3 * p] == src@[4 * p + 2]);
                    assert(dst@[3 * p] == d0[3 * p]);
                    assert(dst@[3 * p + 1] == d0[3 * p + 1]);
                    assert(dst@[3 * p + 2] == d0[3 * p + 2]);
                }
            }
        }
    }
    proof {
        lemma_swapped(dst@, src@, n as int, 4);
    }
    Ok(Frame {
        width: frame.width,
        height: frame.height,
        stride: frame.width * 3,
        format: PixelFormat::Rgb8,
        data: Arc::new(dst),
    })
}

/// Reorders BGR bytes into RGB.
pub fn bgr_to_rgb_bytes(src: &Vec<u8>, n: usize) -> (dst: Vec<u8>)
    requires
        src@.len() >= 3 * n,
    ensures
        dst@ == swapped_rgb(src@, n as int, 3),
{
    let slen = src.len();
    let mut dst: Vec<u8> = Vec::new();
    for i in 0..n
        invariant
            src@.len() >= 3 * n,
            slen == src@.len(),
            dst@.len() == 3 * i,
            forall|p: int|
                0 <= p < i ==> {
                    &&& #[trigger] dst@[3 * p] == src@[3 * p + 2]
                    &&& dst@[3 * p + 1] == src@[3 * p + 1]
                    &&& dst@[3 * p + 2] == src@[3 * p]
                },
    {
        let off = i * 3;
        let ghost d0 = dst@;
        dst.push(src[off + 2]);
        dst.push(src[off + 1]);
        dst.push(src[off]);
        proof {
            assert forall|p: int| 0 <= p < i + 1 implies {
                &&& #[trigger] dst@[3 * p] == src@[3 * p + 2]
                &&& dst@[3 * p + 1] == src@[3 * p + 1]
                &&& dst@[3 * p + 2] == src@[3 * p]
            } by {
                if p < i {
                    assert(d0[3 * p] == src@[3 * p + 2]);
                    assert(dst@[3 * p] == d0[3 * p]);
                    assert(dst@[3 * p + 1] == d0[3 * p + 1]);
                    assert(dst@[3 * p + 2] == d0[3 * p + 2]);
                }
            }
        }
    }
    proof {
        lemma_swapped(dst@, src@, n as int, 3);
    }
    dst
}

/// Converts a frame to one gray byte per pixel; `luma` turns the first
/// three bytes of a colour pixel (in memory order, with the format) into its
/// gray value.
pub fn to_grayscale<F: Fn(PixelFormat, u8, u8, u8) -> u8>(frame: &Frame, luma: F) -> (r: Result<Frame, TfError>)
    requires
        forall|f: PixelFormat, a: u8, b: u8, c: u8| luma.requires((f, a, b, c)),
    ensures
        match r {
            Ok(f) => {
                &&& frame.data@.len() >= channels_of(frame.format) * (frame.width * frame.height)
                    || frame.format == PixelFormat::Gray8
                &&& f.width == frame.width
                &&& f.height == frame.height
                &&& f.stride == frame.width
                &&& f.format == PixelFormat::Gray8
                &&& is_gray_by(f.data@, frame.data@, frame.width * frame.height, frame.format, luma)
            },
            Err(e) => {
                &&& e is Vision
                &&& frame.format != PixelFormat::Gray8
                &&& frame.data@.len() < channels_of(frame.format) * (frame.width * frame.height)
            },
        },
{
    let src: &Vec<u8> = &frame.data;
    let slen = src.len();
    proof {
        lemma_u32_product(frame.width, frame.height);
    }
    let pc: u128 = frame.width as u128 * frame.height as u128;
    let gray: Vec<u8> = match frame.format {
        PixelFormat::Gray8 => {
            let g = src.clone();
            proof {
                assert(g@ =~= src@);
            }
            g
        },
        _ => {
            let ch: usize = match frame.format {
                PixelFormat::Bgra8 => 4,
                _ => 3,
            };
            let need: u128 = if ch == 4 { pc * 4 } else { pc * 3 };
            if (slen as u128) < need {
                return Err(vision_error("frame data too short"));
            }
            let n = pc as usize;
            let fmt = frame.format;
            let mut gray: Vec<u8> = Vec::new();
            for i in 0..n
                invariant
                    n == frame.width * frame.height,
                    src@ == frame.data@,
                    fmt == frame.format,
                    ch == channels_of(frame.format),
                    frame.format != PixelFormat::Gray8,
                    src@.len() >= ch * n,
                    slen == src@.len(),
                    forall|f: PixelFormat, a: u8, b: u8, c: u8| luma.requires((f, a, b, c)),
                    gray@.len() == i,
                    forall|p: int|
                        0 <= p < i ==> luma.ensures(
                            (fmt, src@[ch * p], src@[ch * p + 1], src@[ch * p + 2]),
                            #[trigger] gray@[p],
                        ),
            {
                let off = i * ch;
                let y = luma(fmt, src[off], src[off + 1], src[off + 2]);
                let ghost g0 = gray@;
                gray.push(y);
                proof {
                    assert forall|p: int| 0 <= p < i + 1 implies luma.ensures(
                        (fmt, src@[ch * p], src@[ch * p + 1], src@[ch * p + 2]),
                        #[trigger] gray@[p],
                    ) by {
                        if p < i {
                            assert(gray@[p] == g0[p]);
                        }
                    }
                }
            }
            gray
        },
    };
    Ok(Frame {
        width: frame.width,
        height: frame.height,
        stride: frame.width,
        format: PixelFormat::Gray8,
        data: Arc::new(gray),
    })
}

/// Channel `c` of pixel (`row`, `col`) of a `w`-wide image with `ch` channels.
pub open spec fn sample(src: Seq<u8>, w: int, ch: int, row: int, col: int, c: int) -> u8 {
    src[(row * w + col) * ch + c]
}

/// `p` is what `place` gives for output index `i` when `s` source pixels are
/// scaled to `t`: the source index at or below the sample point.
pub open spec fn placed<P: Fn(u32, u32, u32) -> u32>(place: P, i: int, s: int, t: int, p: u32) -> bool {
    place.ensures((i as u32, s as u32, t as u32), p)
}

/// A source index held to the last of `s` pixels.
pub open spec fn clamp_index(p: int, s: int) -> int {
    if p <= s - 1 {
        p
    } else {
        s - 1
    }
}

/// `v` is what `blend` gives for channel `c` of output pixel (`y`, `x`) when
/// the sample point lies at row `py` and column `px` of the source: the four
/// neighbouring pixels (rows `py`, `py + 1` and columns `px`, `px + 1`, held
/// to the image) are handed over with the output position.
pub open spec fn blended<B: Fn(u8, u8, u8, u8, u32, u32) -> u8>(
    src: Seq<u8>,
    w: int,
    h: int,
    ch: int,
    y: int,
    x: int,
    c: int,
    py: int,
    px: int,
    blend: B,
    v: u8,
) -> bool {
    let y0 = clamp_index(py, h);
    let y1 = clamp_index(y0 + 1, h);
    let x0 = clamp_index(px, w);
    let x1 = clamp_index(x0 + 1, w);
    blend.ensures(
        (
            sample(src, w, ch, y0, x0, c),
            sample(src, w, ch, y0, x1, c),
            sample(src, w, ch, y1, x0, c),
            sample(src, w, ch, y1, x1, c),
            x as u32,
            y as u32,
        ),
        v,
    )
}

/// `v` is a value of channel `c` of output pixel (`y`, `x`) when a `w`×`h`
/// image is scaled to `tw`×`th`, the rows and columns placed by `place` and
/// the neighbours weighed by `blend`.
pub open spec fn resized_pixel<P: Fn(u32, u32, u32) -> u32, B: Fn(u8, u8, u8, u8, u32, u32) -> u8>(
    v: u8,
    src: Seq<u8>,
    w: int,
    h: int,
    ch: int,
    tw: int,
    th: int,
    y: int,
    x: int,
    c: int,
    place: P,
    blend: B,
) -> bool {
    exists|py: u32, px: u32|
        #[trigger] placed(place, y, h, th, py) && #[trigger] placed(place, x, w, tw, px) && blended(
            src,
            w,
            h,
            ch,
            y,
            x,
            c,
            py as int,
            px as int,
            blend,
            v,
        )
}

/// `out` is the image `src` scaled to `tw`×`th`, row after row, `ch` bytes
/// per pixel.
pub open spec fn is_resized_by<P: Fn(u32, u32, u32) -> u32, B: Fn(u8, u8, u8, u8, u32, u32) -> u8>(
    out: Seq<u8>,
    src: Seq<u8>,
    w: int,
    h: int,
    ch: int,
    tw: int,
    th: int,
    place: P,
    blend: B,
) -> bool {
    &&& out.len() == tw * th * ch
    &&& forall|k: int|
        0 <= k < out.len() ==> resized_pixel(
            #[trigger] out[k],
            src,
            w,
            h,
            ch,
            tw,
            th,
            (k / ch) / tw,
            (k / ch) % tw,
            k % ch,
            place,
            blend,
        )
}

proof fn lemma_index(row: int, col: int, c: int, w: int, h: int, ch: int)
    requires
        0 <= row < h,
        0 <= col < w,
        0 <= c < ch,
    ensures
        0 <= row * w <= row * w + col < w * h,
        0 <= (row * w + col) * ch <= (row * w + col) * ch + c < ch * (w * h),
        w * h <= ch * (w * h),
{
    assert(w * h <= ch * (w * h)) by (nonlinear_arith)
        requires
            ch >= 1,
            w >= 0,
            h >= 0,
    ;
    assert(0 <= row * w <= row * w + col < w * h) by (nonlinear_arith)
        requires
            0 <= row < h,
            0 <= col < w,
    ;
    assert(0 <= (row * w + col) * ch <= (row * w + col) * ch + c < ch * (w * h)) by (nonlinear_arith)
        requires
            0 <= row * w + col < w * h,
            0 <= c < ch,
    ;
}

/// Offset of channel `c` of pixel (`row`, `col`) in a `w`×`h` image with
/// `ch` bytes per pixel.
fn sample_index(row: u128, col: u128, c: usize, w: u32, h: u32, ch: usize, len: usize) -> (i: usize)
    requires
        row < h,
        col < w,
        c < ch,
        ch * (w * h) <= len,
    ensures
        i == (row * w + col) * ch + c,
        i < len,
{
    proof {
        lemma_index(row as int, col as int, c as int, w as int, h as int, ch as int);
    }
    let r = row as usize;
    let k = col as usize;
    let wu = w as usize;
    assert(r == row && k == col && wu == w);
    let base = r * wu + k;
    assert(base * ch + c < len);
    base * ch + c
}

proof fn lemma_decompose(y: int, x: int, c: int, tw: int, ch: int)
    requires
        0 <= x < tw,
        0 <= c < ch,
        y >= 0,
    ensures
        (((y * tw + x) * ch + c) / ch) / tw == y,
        (((y * tw + x) * ch + c) / ch) % tw == x,
        ((y * tw + x) * ch + c) % ch == c,
{
    let k = (y * tw + x) * ch + c;
    vstd::arithmetic::div_mod::lemma_fundamental_div_mod_converse(k, ch, y * tw + x, c);
    vstd::arithmetic::div_mod::lemma_fundamental_div_mod_converse(y * tw + x, tw, y, x);
}

/// Channel `c` of pixel `p` of an image with `ch` channels.
pub open spec fn channel_value(src: Seq<u8>, ch: int, p: int, c: int) -> u8 {
    src[p * ch + c]
}

/// The first `n` pixels of `src` all have colour `col` (one value per channel).
pub open spec fn uniform_color(src: Seq<u8>, n: int, ch: int, col: Seq<u8>) -> bool {
    &&& col.len() == ch
    &&& forall|p: int, c: int| 0 <= p < n && 0 <= c < ch ==> #[trigger] channel_value(src, ch, p, c) == col[c]
}

/// Resizing keeps an image of one colour when `blend` keeps four equal
/// neighbours: every pixel of the result then has the colour `col` too.
pub proof fn lemma_resize_keeps_uniform_color<P: Fn(u32, u32, u32) -> u32, B: Fn(u8, u8, u8, u8, u32, u32) -> u8>(
    out: Seq<u8>,
    src: Seq<u8>,
    w: int,
    h: int,
    ch: int,
    tw: int,
    th: int,
    col: Seq<u8>,
    place: P,
    blend: B,
)
    requires
        w > 0,
        h > 0,
        ch > 0,
        tw > 0,
        uniform_color(src, w * h, ch, col),
        is_resized_by(out, src, w, h, ch, tw, th, place, blend),
        forall|v: u8, x: u32, y: u32, r: u8| #[trigger] blend.ensures((v, v, v, v, x, y), r) ==> r == v,
    ensures
        forall|k: int| 0 <= k < out.len() ==> #[trigger] out[k] == col[k % ch],
{
    assert forall|k: int| 0 <= k < out.len() implies #[trigger] out[k] == col[k % ch] by {
        let c = k % ch;
        let y = (k / ch) / tw;
        let x = (k / ch) % tw;
        vstd::arithmetic::div_mod::lemma_mod_bound(k, ch);
        assert(resized_pixel(out[k], src, w, h, ch, tw, th, y, x, c, place, blend));
        let (py, px) = choose|py: u32, px: u32|
            #[trigger] placed(place, y, h, th, py) && #[trigger] placed(place, x, w, tw, px) && blended(
                src,
                w,
                h,
                ch,
                y,
                x,
                c,
                py as int,
                px as int,
                blend,
                out[k],
            );
        let y0 = clamp_index(py as int, h);
        let y1 = clamp_index(y0 + 1, h);
        let x0 = clamp_index(px as int, w);
        let x1 = clamp_index(x0 + 1, w);
        let v = col[c];
        assert forall|row: int, cl: int| 0 <= row < h && 0 <= cl < w implies #[trigger] sample(src, w, ch, row, cl, c)
            == v by {
            lemma_index(row, cl, c, w, h, ch);
            assert(sample(src, w, ch, row, cl, c) == channel_value(src, ch, row * w + cl, c));
        }
        assert(sample(src, w, ch, y0, x0, c) == v);
        assert(sample(src, w, ch, y0, x1, c) == v);
        assert(sample(src, w, ch, y1, x0, c) == v);
        assert(sample(src, w, ch, y1, x1, c) == v);
        assert(blend.ensures((v, v, v, v, x as u32, y as u32), out[k]));
    }
}

/// Scales a frame to `target_w`×`target_h` (same format) by bilinear
/// interpolation: `place` gives, for an output row or column, the source row
/// or column at or below its sample point, and `blend` weighs the four
/// neighbouring source pixels into the output byte.
pub fn resize<P: Fn(u32, u32, u32) -> u32, B: Fn(u8, u8, u8, u8, u32, u32) -> u8>(
    frame: &Frame,
    target_w: u32,
    target_h: u32,
    place: P,
    blend: B,
) -> (r: Result<Frame, TfError>)
    requires
        forall|i: u32, s: u32, t: u32| place.requires((i, s, t)),
        forall|a: u8, b: u8, c: u8, d: u8, x: u32, y: u32| blend.requires((a, b, c, d, x, y)),
        target_h > 0 ==> frame.height > 0,
        target_h > 0 && target_w > 0 ==> frame.width > 0 && frame.data@.len() >= channels_of(frame.format)
            * (frame.width * frame.height),
        target_w * target_h * channels_of(frame.format) <= usize::MAX,
        target_w * channels_of(frame.format) <= u32::MAX,
    ensures
        r matches Ok(f) && f.width == target_w && f.height == target_h && f.stride == target_w * channels_of(
            frame.format,
        ) && f.format == frame.format && is_resized_by(
            f.data@,
            frame.data@,
            frame.width as int,
            frame.height as int,
            channels_of(frame.format),
            target_w as int,
            target_h as int,
            place,
            blend,
        ),
{
    let ch: usize = match frame.format {
        PixelFormat::Gray8 => 1,
        PixelFormat::Bgr8 | PixelFormat::Rgb8 => 3,
        PixelFormat::Bgra8 => 4,
    };
    let src: &Vec<u8> = &frame.data;
    let slen = src.len();
    let w = frame.width;
    let h = frame.height;
    let ghost gw = w as int;
    let ghost gh = h as int;
    let ghost tw = target_w as int;
    let ghost th = target_h as int;
    let ghost gch = ch as int;
    let mut dst: Vec<u8> = Vec::new();
    assert(dst@.len() == (0 * tw) * ch);
    for y in 0..target_h
        invariant
            ch == channels_of(frame.format),
            gch == ch,
            src@ == frame.data@,
            slen == src@.len(),
            w == frame.width,
            h == frame.height,
            gw == w,
            gh == h,
            tw == target_w,
            th == target_h,
            forall|i: u32, s: u32, t: u32| place.requires((i, s, t)),
            forall|a: u8, b: u8, c: u8, d: u8, x: u32, y: u32| blend.requires((a, b, c, d, x, y)),
            target_h > 0 ==> h > 0,
            target_h > 0 && target_w > 0 ==> w > 0 && src@.len() >= ch * (w * h),
            target_w * target_h * ch <= usize::MAX,
            dst@.len() == (y * tw) * ch,
            forall|k: int|
                0 <= k < dst@.len() ==> resized_pixel(
                    #[trigger] dst@[k],
                    src@,
                    gw,
                    gh,
                    gch,
                    tw,
                    th,
                    (k / gch) / tw,
                    (k / gch) % tw,
                    k % gch,
                    place,
                    blend,
                ),
    {
        proof {
            assert((y * tw) * ch <= (th - 1) * tw * ch) by (nonlinear_arith)
                requires
                    y < th,
                    tw >= 0,
                    ch >= 0,
            ;
        }
        let py = place(y, h, target_h);
        let y0: u32 = if py <= h - 1 { py } else { h - 1 };
        let y1: u32 = if y0 + 1 <= h - 1 { y0 + 1 } else { h - 1 };
        for x in 0..target_w
            invariant
                ch == channels_of(frame.format),
                gch == ch,
                src@ == frame.data@,
                slen == src@.len(),
                w == frame.width,
                h == frame.height,
                gw == w,
                gh == h,
                tw == target_w,
                th == target_h,
                forall|i: u32, s: u32, t: u32| place.requires((i, s, t)),
                forall|a: u8, b: u8, c: u8, d: u8, x: u32, y: u32| blend.requires((a, b, c, d, x, y)),
                y < target_h,
                h > 0,
                place.ensures((y, h, target_h), py),
                y0 == clamp_index(py as int, gh),
                y1 == clamp_index(y0 + 1, gh),
                target_w > 0 ==> w > 0 && src@.len() >= ch * (w * h),
                target_w * target_h * ch <= usize::MAX,
                dst@.len() == (y * tw + x) * ch,
                forall|k: int|
                    0 <= k < dst@.len() ==> resized_pixel(
                        #[trigger] dst@[k],
                        src@,
                        gw,
                        gh,
                        gch,
                        tw,
                        th,
                        (k / gch) / tw,
                        (k / gch) % tw,
                        k % gch,
                        place,
                        blend,
                    ),
        {
            let px = place(x, w, target_w);
            let x0: u32 = if px <= w - 1 { px } else { w - 1 };
            let x1: u32 = if x0 + 1 <= w - 1 { x0 + 1 } else { w - 1 };
            for c in 0..ch
                invariant
                    ch == channels_of(frame.format),
                    gch == ch,
                    src@ == frame.data@,
                    slen == src@.len(),
                    w == frame.width,
                    h == frame.height,
                    gw == w,
                    gh == h,
                    tw == target_w,
                    th == target_h,
                    forall|a: u8, b: u8, c: u8, d: u8, x: u32, y: u32| blend.requires((a, b, c, d, x, y)),
                    y < target_h,
                    x < target_w,
                    w > 0,
                    h > 0,
                    src@.len() >= ch * (w * h),
                    target_w * target_h * ch <= usize::MAX,
                    place.ensures((y, h, target_h), py),
                    place.ensures((x, w, target_w), px),
                    y0 == clamp_index(py as int, gh),
                    y1 == clamp_index(y0 + 1, gh),
                    x0 == clamp_index(px as int, gw),
                    x1 == clamp_index(x0 + 1, gw),
                    dst@.len() == (y * tw + x) * ch + c,
                    forall|k: int|
                        0 <= k < dst@.len() ==> resized_pixel(
                            #[trigger] dst@[k],
                            src@,
                            gw,
                            gh,
                            gch,
                            tw,
                            th,
                            (k / gch) / tw,
                            (k / gch) % tw,
                            k % gch,
                            place,
                            blend,
                        ),
            {
                let i00 = sample_index(y0 as u128, x0 as u128, c, w, h, ch, slen);
                let i01 = sample_index(y0 as u128, x1 as u128, c, w, h, ch, slen);
                let i10 = sample_index(y1 as u128, x0 as u128, c, w, h, ch, slen);
                let i11 = sample_index(y1 as u128, x1 as u128, c, w, h, ch, slen);
                let value = blend(src[i00], src[i01], src[i10], src[i11], x, y);
                let ghost d0 = dst@;
                dst.push(value);
                proof {
                    let k = (y * tw + x) * gch + c;
                    lemma_decompose(y as int, x as int, c as int, tw, gch);
                    assert(k == d0.len());
                    assert(placed(place, y as int, gh, th, py));
                    assert(placed(place, x as int, gw, tw, px));
                    assert(blended(src@, gw, gh, gch, y as int, x as int, c as int, py as int, px as int, blend, value));
                    assert(resized_pixel(dst@[k], src@, gw, gh, gch, tw, th, y as int, x as int, c as int, place, blend));
                    assert forall|j: int| 0 <= j < dst@.len() implies resized_pixel(
                        #[trigger] dst@[j],
                        src@,
                        gw,
                        gh,
                        gch,
                        tw,
                        th,
                        (j / gch) / tw,
                        (j / gch) % tw,
                        j % gch,
                        place,
                        blend,
                    ) by {
                        if j < k {
                            assert(dst@[j] == d0[j]);
                        }
                    }
                }
            }
            proof {
                assert((y * tw + x) * ch + ch == (y * tw + (x + 1)) * ch) by (nonlinear_arith);
            }
        }
        proof {
            assert((y * tw + tw) * ch == ((y + 1) * tw) * ch) by (nonlinear_arith);
        }
    }
    proof {
        assert((th * tw) * ch == tw * th * ch) by (nonlinear_arith);
    }
    Ok(Frame {
        width: target_w,
        height: target_h,
        stride: target_w * ch as u32,
        format: frame.format,
        data: Arc::new(dst),
    })
}

/// The alphabet used when none is given: the blank, then the digits 0 to 9.
pub open spec fn default_ctc_charset() -> Seq<char> {
    seq!['_', '0', '1', '2', '3', '4', '5', '6', '7', '8', '9']
}

/// Greedy CTC collapse of the best class of each time step: class 0 is the
/// blank, a class repeated from the step before is dropped, and every other
/// class is written as its character (classes past the alphabet are skipped).
pub open spec fn ctc_collapsed(best: Seq<usize>, charset: Seq<char>) -> Seq<char>
    decreases best.len(),
{
    if best.len() == 0 {
        Seq::empty()
    } else {
        let rest = ctc_collapsed(best.drop_last(), charset);
        let c = best.last();
        let prev: usize = if best.len() >= 2 { best[best.len() - 2] } else { 0 };
        if c != 0 && c != prev && c < charset.len() {
            rest.push(charset[c as int])
        } else {
            rest
        }
    }
}

fn default_charset() -> (v: Vec<char>)
    ensures
        v@ == default_ctc_charset(),
{
    let v = vec!['_', '0', '1', '2', '3', '4', '5', '6', '7', '8', '9'];
    proof {
        assert(v@ =~= default_ctc_charset());
    }
    v
}

/// Decodes the best class of each time step of a CTC output into text,
/// with the given alphabet or the default one.
pub fn ctc_collapse(best: &[usize], charset: Option<&[char]>) -> (text: String)
    ensures
        text@ == ctc_collapsed(
            best@,
            match charset {
                Some(c) => c@,
                None => default_ctc_charset(),
            },
        ),
{
    let default = default_charset();
    let chars: &[char] = match charset {
        Some(c) => c,
        None => default.as_slice(),
    };
    let ghost cs = chars@;
    let mut out: Vec<char> = Vec::new();
    let mut prev: usize = 0;
    let n = best.len();
    for t in 0..n
        invariant
            n == best@.len(),
            cs == chars@,
            out@ == ctc_collapsed(best@.take(t as int), cs),
            prev == if t >= 1 { best@[t - 1] } else { 0usize },
    {
        let c = best[t];
        proof {
            let p = best@.take(t + 1);
            assert(p.drop_last() =~= best@.take(t as int));
            if t >= 1 {
                assert(p[p.len() - 2] == best@[t - 1]);
            }
        }
        if c != 0 && c != prev && c < chars.len() {
            out.push(chars[c]);
        }
        prev = c;
    }
    proof {
        assert(best@.take(n as int) =~= best@);
    }
    string_from_chars(&out)
}

} // verus!
