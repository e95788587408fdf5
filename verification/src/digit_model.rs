//! Digit recognition: the preparation of a number strip for the OCR model.

use vstd::prelude::*;

use crate::error::TfError;
use crate::frame::{channels_of, Frame, PixelFormat};
use crate::prepost::{is_gray_by, is_resized_by, resize, to_grayscale};
use crate::session::DigitInput;
use crate::text::string_from_chars;
use vstd::string::StrSliceExecFns;

verus! {

pub const DIGIT_MODEL_WIDTH: u32 = 100;

pub const DIGIT_MODEL_HEIGHT: u32 = 32;

/// Converts a number strip of any size to the model's 100×32 gray input;
/// `luma` turns a colour pixel into its gray value as in `to_grayscale`, and
/// `place` and `blend` do the bilinear scaling as in `resize`.
pub fn frame_to_digit_input<
    F: Fn(PixelFormat, u8, u8, u8) -> u8,
    P: Fn(u32, u32, u32) -> u32,
    B: Fn(u8, u8, u8, u8, u32, u32) -> u8,
>(roi: &Frame, luma: F, place: P, blend: B) -> (r: Result<DigitInput, TfError>)
    requires
        forall|i: u32, s: u32, t: u32| place.requires((i, s, t)),
        forall|a: u8, b: u8, c: u8, d: u8, x: u32, y: u32| blend.requires((a, b, c, d, x, y)),
        forall|f: PixelFormat, a: u8, b: u8, c: u8| luma.requires((f, a, b, c)),
        roi.format == PixelFormat::Gray8 ==> roi.data@.len() >= roi.width * roi.height,
        roi.data@.len() >= channels_of(roi.format) * (roi.width * roi.height) ==> roi.width > 0 && roi.height
            > 0,
    ensures
        r is Ok <==> roi.data@.len() >= channels_of(roi.format) * (roi.width * roi.height),
        r matches Ok(input) ==> input.width == DIGIT_MODEL_WIDTH && input.height == DIGIT_MODEL_HEIGHT
            && exists|g: Seq<u8>|
            {
                &&& is_gray_by(g, roi.data@, roi.width * roi.height, roi.format, luma)
                &&& is_resized_by(
                    input.data@,
                    g,
                    roi.width as int,
                    roi.height as int,
                    1,
                    DIGIT_MODEL_WIDTH as int,
                    DIGIT_MODEL_HEIGHT as int,
                    place,
                    blend,
                )
            },
        r matches Err(e) ==> e is Vision,
{
    let gray = match to_grayscale(roi, luma) {
        Ok(f) => f,
        Err(e) => {
            return Err(e);
        },
    };
    let ghost g = gray.data@;
    match resize(&gray, DIGIT_MODEL_WIDTH, DIGIT_MODEL_HEIGHT, place, blend) {
        Ok(f) => {
            let input = DigitInput { data: f.data, width: DIGIT_MODEL_WIDTH, height: DIGIT_MODEL_HEIGHT };
            assert(is_gray_by(g, roi.data@, roi.width * roi.height, roi.format, luma));
            assert(is_resized_by(
                input.data@,
                g,
                roi.width as int,
                roi.height as int,
                1,
                DIGIT_MODEL_WIDTH as int,
                DIGIT_MODEL_HEIGHT as int,
                place,
                blend,
            ));
            Ok(input)
        },
        Err(e) => Err(e),
    }
}

/// A character with the Unicode White_Space property (what
/// `char::is_whitespace` accepts).
pub open spec fn white_space(c: char) -> bool {
    let u = c as u32;
    ||| 0x09 <= u <= 0x0d
    ||| u == 0x20
    ||| u == 0x85
    ||| u == 0xa0
    ||| u == 0x1680
    ||| 0x2000 <= u <= 0x200a
    ||| u == 0x2028
    ||| u == 0x2029
    ||| u == 0x202f
    ||| u == 0x205f
    ||| u == 0x3000
}

/// `s` without its leading white space.
pub open spec fn trim_start(s: Seq<char>) -> Seq<char>
    decreases s.len(),
{
    if s.len() > 0 && white_space(s[0]) {
        trim_start(s.drop_first())
    } else {
        s
    }
}

/// `s` without its trailing white space.
pub open spec fn trim_end(s: Seq<char>) -> Seq<char>
    decreases s.len(),
{
    if s.len() > 0 && white_space(s.last()) {
        trim_end(s.drop_last())
    } else {
        s
    }
}

/// `s` without its leading and trailing white space.
pub open spec fn trimmed(s: Seq<char>) -> Seq<char> {
    trim_end(trim_start(s))
}

fn is_white_space(c: char) -> (r: bool)
    ensures
        r == white_space(c),
{
    let u = c as u32;
    (0x09 <= u && u <= 0x0d) || u == 0x20 || u == 0x85 || u == 0xa0 || u == 0x1680 || (0x2000 <= u && u
        <= 0x200a) || u == 0x2028 || u == 0x2029 || u == 0x202f || u == 0x205f || u == 0x3000
}

/// The bounds `(a, b)` of `s` without its leading and trailing white space.
fn trim_bounds(s: &str) -> (r: (usize, usize))
    ensures
        r.0 <= r.1 <= s@.len(),
        trimmed(s@) == s@.subrange(r.0 as int, r.1 as int),
{
    let n = s.unicode_len();
    let mut a: usize = 0;
    proof {
        assert(s@.subrange(0, n as int) =~= s@);
    }
    while a < n
        invariant_except_break
            a <= n,
            n == s@.len(),
            trim_start(s@) == trim_start(s@.subrange(a as int, n as int)),
        ensures
            a <= n,
            trim_start(s@) == trim_start(s@.subrange(a as int, n as int)),
            a < n ==> !white_space(s@[a as int]),
        decreases n - a,
    {
        if !is_white_space(s.get_char(a)) {
            break;
        }
        proof {
            assert(s@.subrange(a as int, n as int).drop_first() =~= s@.subrange(a + 1, n as int));
        }
        a = a + 1;
    }
    proof {
        let t = s@.subrange(a as int, n as int);
        if a == n {
            assert(t.len() == 0);
        } else {
            assert(t[0] == s@[a as int]);
        }
        assert(trim_start(t) == t);
    }
    let mut b: usize = n;
    while b > a
        invariant_except_break
            a <= b <= n,
            n == s@.len(),
            trim_end(s@.subrange(a as int, n as int)) == trim_end(s@.subrange(a as int, b as int)),
        ensures
            a <= b <= n,
            trim_end(s@.subrange(a as int, n as int)) == trim_end(s@.subrange(a as int, b as int)),
            b > a ==> !white_space(s@[b - 1]),
        decreases b - a,
    {
        if !is_white_space(s.get_char(b - 1)) {
            break;
        }
        proof {
            assert(s@.subrange(a as int, b as int).drop_last() =~= s@.subrange(a as int, b - 1));
        }
        b = b - 1;
    }
    proof {
        let t = s@.subrange(a as int, b as int);
        if b == a {
            assert(t.len() == 0);
        } else {
            assert(t.last() == s@[b - 1]);
        }
        assert(trim_end(t) == t);
    }
    (a, b)
}

/// Characters that OCR text of an amount may carry around the number:
/// currency signs, thousands separators and spaces.
pub open spec fn dropped_char(c: char) -> bool {
    c == '$' || c == '\u{20ac}' || c == '\u{a3}' || c == ',' || c == ' '
}

/// The characters of `s` that are not dropped, in order.
pub open spec fn kept_chars(s: Seq<char>) -> Seq<char>
    decreases s.len(),
{
    if s.len() == 0 {
        Seq::empty()
    } else if dropped_char(s.last()) {
        kept_chars(s.drop_last())
    } else {
        kept_chars(s.drop_last()).push(s.last())
    }
}

/// The multiplier a final character stands for: K or k a thousand, M or m a
/// million, anything else one.
pub open spec fn suffix_scale(c: char) -> u32 {
    if c == 'K' || c == 'k' {
        1000
    } else if c == 'M' || c == 'm' {
        1_000_000
    } else {
        1
    }
}

/// The number part and multiplier of cleaned amount text `k`; nothing when
/// no character is left.
pub open spec fn amount_parts(k: Seq<char>) -> Option<(Seq<char>, u32)> {
    if k.len() == 0 {
        None
    } else if suffix_scale(k.last()) != 1 {
        Some((k.drop_last(), suffix_scale(k.last())))
    } else {
        Some((k, 1))
    }
}

/// Splits OCR text of an amount into the number to parse and the multiplier
/// of its K/M suffix: the text is trimmed, currency signs, commas and spaces
/// are dropped, and one final K, k, M or m is taken off. `None` when nothing
/// is left.
pub fn split_amount_text(text: &str) -> (r: Option<(String, u32)>)
    ensures
        match r {
            Some((number, scale)) => amount_parts(kept_chars(trimmed(text@))) == Some((number@, scale)),
            None => amount_parts(kept_chars(trimmed(text@))) is None,
        },
{
    let (a, b) = trim_bounds(text);
    let ghost t = text@.subrange(a as int, b as int);
    let mut kept: Vec<char> = Vec::new();
    for i in a..b
        invariant
            a <= b <= text@.len(),
            t == text@.subrange(a as int, b as int),
            kept@ == kept_chars(t.take(i - a)),
    {
        let c = text.get_char(i);
        proof {
            assert(t.take(i - a + 1).drop_last() =~= t.take(i - a));
            assert(t.take(i - a + 1).last() == c);
        }
        if !(c == '$' || c == '\u{20ac}' || c == '\u{a3}' || c == ',' || c == ' ') {
            kept.push(c);
        }
    }
    proof {
        assert(t.take(b - a) =~= t);
    }
    let len = kept.len();
    if len == 0 {
        return None;
    }
    let last = kept[len - 1];
    let scale: u32 = if last == 'K' || last == 'k' {
        1000
    } else if last == 'M' || last == 'm' {
        1_000_000
    } else {
        1
    };
    if scale != 1 {
        kept.pop();
    }
    proof {
        if scale != 1 {
            assert(kept@ =~= kept_chars(t).drop_last());
        }
    }
    Some((string_from_chars(&kept), scale))
}

} // verus!
