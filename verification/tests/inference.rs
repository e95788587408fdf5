use std::collections::HashSet;
use std::sync::Arc;

use tableflow::card_model::{class_id_to_card, frame_to_card_input};
use tableflow::digit_model::frame_to_digit_input;
use tableflow::error::TfError;
use tableflow::frame::{Frame, PixelFormat};
use tableflow::prepost::{bgra_to_rgb, resize, to_grayscale};
use tableflow::types::{Rank, Suit};

/// The gray value of a colour pixel in f32, truncated, with the operands in
/// the order the pixel format stores them.
/// The source row or column at or below an output sample point, in f64.
fn f64_place(i: u32, s: u32, t: u32) -> u32 {
    (i as f64 * (s as f64 / t as f64)).floor() as u32
}

/// Bilinear weighing in f64 for a `w`x`h` source scaled to `tw`x`th`,
/// rounded to the nearest byte.
fn f64_blend(w: u32, h: u32, tw: u32, th: u32) -> impl Fn(u8, u8, u8, u8, u32, u32) -> u8 {
    move |v00, v01, v10, v11, x, y| {
        let src_y = y as f64 * (h as f64 / th as f64);
        let y0 = (src_y.floor() as usize).min(h as usize - 1);
        let fy = src_y - y0 as f64;
        let src_x = x as f64 * (w as f64 / tw as f64);
        let x0 = (src_x.floor() as usize).min(w as usize - 1);
        let fx = src_x - x0 as f64;
        let (v00, v01, v10, v11) = (v00 as f64, v01 as f64, v10 as f64, v11 as f64);
        let v = v00 * (1.0 - fx) * (1.0 - fy) + v01 * fx * (1.0 - fy) + v10 * (1.0 - fx) * fy + v11 * fx * fy;
        v.round().clamp(0.0, 255.0) as u8
    }
}

fn card_input(frame: &Frame) -> Result<tableflow::session::CardClassificationInput, TfError> {
    frame_to_card_input(frame, f64_place, f64_blend(frame.width, frame.height, 64, 90))
}

fn digit_input(frame: &Frame) -> Result<tableflow::session::DigitInput, TfError> {
    frame_to_digit_input(frame, f32_luma, f64_place, f64_blend(frame.width, frame.height, 100, 32))
}

fn resized(frame: &Frame, tw: u32, th: u32) -> Result<Frame, TfError> {
    resize(frame, tw, th, f64_place, f64_blend(frame.width, frame.height, tw, th))
}

fn f32_luma(f: PixelFormat, a: u8, b: u8, c: u8) -> u8 {
    let (a, b, c) = (a as f32, b as f32, c as f32);
    match f {
        PixelFormat::Rgb8 => (0.299 * a + 0.587 * b + 0.114 * c) as u8,
        _ => (0.114 * a + 0.587 * b + 0.299 * c) as u8,
    }
}

fn make_bgra_frame(w: u32, h: u32, fill: u8) -> Frame {
    let data = vec![fill; (w * h * 4) as usize];
    Frame { width: w, height: h, stride: w * 4, format: PixelFormat::Bgra8, data: Arc::new(data) }
}

fn make_rgb_frame(w: u32, h: u32, r: u8, g: u8, b: u8) -> Frame {
    let mut data = Vec::with_capacity((w * h * 3) as usize);
    for _ in 0..(w * h) {
        data.push(r);
        data.push(g);
        data.push(b);
    }
    Frame { width: w, height: h, stride: w * 3, format: PixelFormat::Rgb8, data: Arc::new(data) }
}

// ---- card model ----

#[test]
fn test_class_id_to_card_all_suits() {
    let (s, r) = class_id_to_card(0).unwrap();
    assert_eq!(s, Suit::Spades);
    assert_eq!(r, Rank::Two);

    let (s, r) = class_id_to_card(12).unwrap();
    assert_eq!(s, Suit::Spades);
    assert_eq!(r, Rank::Ace);

    let (s, r) = class_id_to_card(13).unwrap();
    assert_eq!(s, Suit::Hearts);
    assert_eq!(r, Rank::Two);

    let (s, r) = class_id_to_card(26).unwrap();
    assert_eq!(s, Suit::Diamonds);
    assert_eq!(r, Rank::Two);

    let (s, r) = class_id_to_card(39).unwrap();
    assert_eq!(s, Suit::Clubs);
    assert_eq!(r, Rank::Two);

    let (s, r) = class_id_to_card(51).unwrap();
    assert_eq!(s, Suit::Clubs);
    assert_eq!(r, Rank::Ace);
}

#[test]
fn test_class_id_out_of_range() {
    assert!(class_id_to_card(52).is_none());
    assert!(class_id_to_card(100).is_none());
}

#[test]
fn test_frame_to_card_input_rgb() {
    let data = vec![128u8; 200 * 300 * 3];
    let frame = Frame { width: 200, height: 300, stride: 600, format: PixelFormat::Rgb8, data: Arc::new(data) };
    let input = card_input(&frame).unwrap();
    assert_eq!(input.width, 64);
    assert_eq!(input.height, 90);
    assert_eq!(input.data.len(), 64 * 90 * 3);
}

#[test]
fn test_frame_to_card_input_bgra() {
    let data = vec![128u8; 200 * 300 * 4];
    let frame = Frame { width: 200, height: 300, stride: 800, format: PixelFormat::Bgra8, data: Arc::new(data) };
    let input = card_input(&frame).unwrap();
    assert_eq!(input.width, 64);
    assert_eq!(input.height, 90);
}

#[test]
fn test_class_id_52_cards_unique() {
    let cards: HashSet<(Suit, Rank)> = (0..52).filter_map(class_id_to_card).collect();
    assert_eq!(cards.len(), 52);
}

#[test]
fn class_id_layout_is_suit_major() {
    assert_eq!(class_id_to_card(25), Some((Suit::Hearts, Rank::Ace)));
    assert_eq!(class_id_to_card(30), Some((Suit::Diamonds, Rank::Six)));
    assert_eq!(class_id_to_card(u32::MAX), None);
}

#[test]
fn gray_card_image_is_refused() {
    let frame = Frame { width: 4, height: 4, stride: 4, format: PixelFormat::Gray8, data: Arc::new(vec![0u8; 16]) };
    assert!(matches!(card_input(&frame), Err(TfError::Vision(_))));
}

#[test]
fn short_bgra_card_image_is_refused() {
    let frame = Frame { width: 4, height: 4, stride: 16, format: PixelFormat::Bgra8, data: Arc::new(vec![0u8; 10]) };
    assert!(matches!(card_input(&frame), Err(TfError::Vision(_))));
}

#[test]
fn bgr_card_image_is_swapped_to_rgb() {
    let mut data = Vec::new();
    for _ in 0..4 {
        data.extend_from_slice(&[10u8, 20, 30]);
    }
    let frame = Frame { width: 2, height: 2, stride: 6, format: PixelFormat::Bgr8, data: Arc::new(data) };
    let input = card_input(&frame).unwrap();
    assert_eq!(input.data.len(), 64 * 90 * 3);
    assert_eq!(&input.data[0..3], &[30, 20, 10]);
}

// ---- digit model ----

#[test]
fn test_frame_to_digit_input_dimensions() {
    let data = vec![128u8; 200 * 100 * 3];
    let frame = Frame { width: 200, height: 100, stride: 600, format: PixelFormat::Rgb8, data: Arc::new(data) };
    let input = digit_input(&frame).unwrap();
    assert_eq!(input.width, 100);
    assert_eq!(input.height, 32);
    assert_eq!(input.data.len(), 100 * 32);
}

#[test]
fn short_digit_strip_is_refused() {
    let frame = Frame { width: 10, height: 10, stride: 30, format: PixelFormat::Rgb8, data: Arc::new(vec![0u8; 20]) };
    assert!(matches!(digit_input(&frame), Err(TfError::Vision(_))));
}

#[test]
fn digit_strip_of_one_gray_is_uniform() {
    let frame = Frame { width: 7, height: 3, stride: 7, format: PixelFormat::Gray8, data: Arc::new(vec![77u8; 21]) };
    let input = digit_input(&frame).unwrap();
    assert!(input.data.iter().all(|&v| v == 77));
}

// ---- pre-processing ----

#[test]
fn test_bgra_to_rgb_size() {
    let frame = make_bgra_frame(4, 3, 128);
    let rgb = bgra_to_rgb(&frame).unwrap();
    assert_eq!(rgb.format, PixelFormat::Rgb8);
    assert_eq!(rgb.data.len(), 4 * 3 * 3);
    assert_eq!(rgb.width, 4);
    assert_eq!(rgb.height, 3);
}

#[test]
fn test_bgra_to_rgb_channel_order() {
    let mut data = vec![0u8; 8];
    data[0] = 10;
    data[1] = 20;
    data[2] = 30;
    data[3] = 255;
    data[4] = 40;
    data[5] = 50;
    data[6] = 60;
    data[7] = 254;
    let frame = Frame { width: 2, height: 1, stride: 8, format: PixelFormat::Bgra8, data: Arc::new(data) };
    let rgb = bgra_to_rgb(&frame).unwrap();
    assert_eq!(rgb.data.as_slice(), &[30, 20, 10, 60, 50, 40]);
}

#[test]
fn bgra_to_rgb_refuses_other_formats_and_short_data() {
    let rgb = make_rgb_frame(2, 2, 1, 2, 3);
    assert!(matches!(bgra_to_rgb(&rgb), Err(TfError::Vision(_))));
    let short = Frame { width: 2, height: 2, stride: 8, format: PixelFormat::Bgra8, data: Arc::new(vec![0u8; 15]) };
    assert!(matches!(bgra_to_rgb(&short), Err(TfError::Vision(_))));
}

#[test]
fn test_to_grayscale_from_rgb() {
    let frame = make_rgb_frame(2, 2, 100, 150, 200);
    let gray = to_grayscale(&frame, f32_luma).unwrap();
    assert_eq!(gray.format, PixelFormat::Gray8);
    assert_eq!(gray.data.len(), 4);
    let expected = (0.299 * 100.0 + 0.587 * 150.0 + 0.114 * 200.0) as u8;
    for &v in gray.data.iter() {
        assert!((v as i16 - expected as i16).abs() <= 1);
    }
}

#[test]
fn test_to_grayscale_passthrough() {
    let data = vec![42u8; 9];
    let frame = Frame { width: 3, height: 3, stride: 3, format: PixelFormat::Gray8, data: Arc::new(data) };
    let gray = to_grayscale(&frame, f32_luma).unwrap();
    assert_eq!(gray.data.as_slice(), &[42u8; 9]);
}

#[test]
fn grayscale_hands_pixels_over_in_memory_order() {
    let first = |_f: PixelFormat, a: u8, _b: u8, _c: u8| a;
    let rgb = make_rgb_frame(2, 1, 10, 20, 30);
    assert_eq!(to_grayscale(&rgb, first).unwrap().data.as_slice(), &[10, 10]);
    let bgra = Frame { width: 2, height: 1, stride: 8, format: PixelFormat::Bgra8, data: Arc::new(vec![1, 2, 3, 4, 5, 6, 7, 8]) };
    assert_eq!(to_grayscale(&bgra, first).unwrap().data.as_slice(), &[1, 5]);
    let short = Frame { width: 2, height: 1, stride: 8, format: PixelFormat::Bgra8, data: Arc::new(vec![0u8; 7]) };
    assert!(matches!(to_grayscale(&short, first), Err(TfError::Vision(_))));
}

#[test]
fn float_luma_truncates_like_f32() {
    let grey = make_rgb_frame(1, 1, 37, 37, 37);
    assert_eq!(to_grayscale(&grey, f32_luma).unwrap().data.as_slice(), &[36]);
    let bgr = Frame { width: 1, height: 1, stride: 3, format: PixelFormat::Bgr8, data: Arc::new(vec![200, 150, 100]) };
    assert_eq!(to_grayscale(&bgr, f32_luma).unwrap().data.as_slice(), &[140]);
}

#[test]
fn test_resize_dimensions() {
    let frame = make_rgb_frame(100, 100, 128, 128, 128);
    let resized = resized(&frame, 50, 50).unwrap();
    assert_eq!(resized.width, 50);
    assert_eq!(resized.height, 50);
    assert_eq!(resized.data.len(), 50 * 50 * 3);
}

#[test]
fn test_resize_uniform_color() {
    let frame = make_rgb_frame(10, 10, 200, 100, 50);
    let resized = resized(&frame, 5, 5).unwrap();
    for chunk in resized.data.chunks(3) {
        assert_eq!(chunk[0], 200);
        assert_eq!(chunk[1], 100);
        assert_eq!(chunk[2], 50);
    }
}

#[test]
fn resize_interpolates_between_neighbours() {
    // 2x1 gray image 0, 100 stretched to 4x1: source x = 0, 0.5, 1, 1.5.
    let frame = Frame { width: 2, height: 1, stride: 2, format: PixelFormat::Gray8, data: Arc::new(vec![0, 100]) };
    let resized = resized(&frame, 4, 1).unwrap();
    assert_eq!(resized.data.as_slice(), &[0, 50, 100, 100]);
    assert_eq!(resized.stride, 4);
}

#[test]
fn resize_hands_the_four_neighbours_to_blend() {
    // 3x1 gray image 10, 20, 30; each output takes its left neighbour, or
    // the right one, to see which pixels are handed over.
    let frame = Frame { width: 3, height: 1, stride: 3, format: PixelFormat::Gray8, data: Arc::new(vec![10, 20, 30]) };
    let half = |i: u32, s: u32, t: u32| i * s / t;
    let left = |a: u8, _b: u8, _c: u8, _d: u8, _x: u32, _y: u32| a;
    let right = |_a: u8, b: u8, _c: u8, _d: u8, _x: u32, _y: u32| b;
    assert_eq!(resize(&frame, 6, 1, half, left).unwrap().data.as_slice(), &[10, 10, 20, 20, 30, 30]);
    assert_eq!(resize(&frame, 6, 1, half, right).unwrap().data.as_slice(), &[20, 20, 30, 30, 30, 30]);
    let far = |_i: u32, _s: u32, _t: u32| 99;
    assert_eq!(resize(&frame, 2, 1, far, left).unwrap().data.as_slice(), &[30, 30]);
}

#[test]
fn f64_resize_of_three_columns_to_ten() {
    // 3 source columns to 10: column 5 samples halfway between 1 and 2.
    let frame = Frame { width: 3, height: 1, stride: 3, format: PixelFormat::Gray8, data: Arc::new(vec![0, 200, 0]) };
    let out = resized(&frame, 10, 1).unwrap();
    assert_eq!(out.data.len(), 10);
    assert_eq!(out.data[0], 0);
    assert_eq!(out.data[5], 100);
}
