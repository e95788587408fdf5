//! Card classification: the model's class ids and the preparation of a card
//! image for the model.

use std::sync::Arc;

use vstd::prelude::*;

use crate::error::TfError;
use crate::frame::{Frame, PixelFormat};
use crate::prepost::{bgr_to_rgb_bytes, bgra_to_rgb, is_resized_by, resize, swapped_rgb};
use crate::session::CardClassificationInput;
use crate::types::{rank_index, Rank, Suit};

verus! {

pub const CARD_MODEL_WIDTH: u32 = 64;

pub const CARD_MODEL_HEIGHT: u32 = 90;

/// Position of a suit in the class-id layout: Spades, Hearts, Diamonds, Clubs.
pub open spec fn suit_index(s: Suit) -> int {
    match s {
        Suit::Spades => 0,
        Suit::Hearts => 1,
        Suit::Diamonds => 2,
        Suit::Clubs => 3,
    }
}

/// The class id the model gives a card: 13 per suit, ranks Two..Ace in order.
pub open spec fn class_of_card(s: Suit, r: Rank) -> int {
    13 * suit_index(s) + rank_index(r)
}

/// The class ids 0..52 and the 52 (suit, rank) pairs correspond one to one.
pub proof fn lemma_class_ids_are_a_deck(s1: Suit, r1: Rank, s2: Suit, r2: Rank)
    ensures
        0 <= class_of_card(s1, r1) < 52,
        class_of_card(s1, r1) == class_of_card(s2, r2) <==> (s1 == s2 && r1 == r2),
{
}

/// The card of a class id of the 52-class model, or `None` past the deck.
pub fn class_id_to_card(class_id: u32) -> (r: Option<(Suit, Rank)>)
    ensures
        r is Some <==> class_id < 52,
        r matches Some((s, rk)) ==> class_of_card(s, rk) == class_id,
{
    if class_id >= 52 {
        return None;
    }
    let suit = match class_id / 13 {
        0 => Suit::Spades,
        1 => Suit::Hearts,
        2 => Suit::Diamonds,
        _ => Suit::Clubs,
    };
    let rank = match class_id % 13 {
        0 => Rank::Two,
        1 => Rank::Three,
        2 => Rank::Four,
        3 => Rank::Five,
        4 => Rank::Six,
        5 => Rank::Seven,
        6 => Rank::Eight,
        7 => Rank::Nine,
        8 => Rank::Ten,
        9 => Rank::Jack,
        10 => Rank::Queen,
        11 => Rank::King,
        _ => Rank::Ace,
    };
    Some((suit, rank))
}

/// The RGB bytes a frame of format `f` gives (before resizing).
pub open spec fn rgb_source(src: Seq<u8>, n: int, f: PixelFormat) -> Seq<u8> {
    match f {
        PixelFormat::Bgra8 => swapped_rgb(src, n, 4),
        PixelFormat::Bgr8 => swapped_rgb(src, n, 3),
        _ => src,
    }
}

/// Whether the card input can be made from `roi`: colour data, and BGRA data
/// long enough for its pixels.
pub open spec fn card_input_accepted(roi: Frame) -> bool {
    match roi.format {
        PixelFormat::Gray8 => false,
        PixelFormat::Bgra8 => roi.data@.len() >= 4 * (roi.width * roi.height),
        _ => true,
    }
}

/// Converts a card image of any size to the model's 64×90 RGB input;
/// `place` and `blend` do the bilinear scaling as in `resize`.
pub fn frame_to_card_input<P: Fn(u32, u32, u32) -> u32, B: Fn(u8, u8, u8, u8, u32, u32) -> u8>(
    roi: &Frame,
    place: P,
    blend: B,
) -> (r: Result<CardClassificationInput, TfError>)
    requires
        forall|i: u32, s: u32, t: u32| place.requires((i, s, t)),
        forall|a: u8, b: u8, c: u8, d: u8, x: u32, y: u32| blend.requires((a, b, c, d, x, y)),
        roi.format == PixelFormat::Rgb8 || roi.format == PixelFormat::Bgr8 ==> roi.width > 0 && roi.height > 0
            && roi.data@.len() >= 3 * (roi.width * roi.height),
        roi.format == PixelFormat::Bgr8 || roi.format == PixelFormat::Bgra8 ==> 3 * roi.width <= u32::MAX,
        roi.format == PixelFormat::Bgra8 && roi.data@.len() >= 4 * (roi.width * roi.height) ==> roi.width > 0
            && roi.height > 0,
    ensures
        r is Ok <==> card_input_accepted(*roi),
        r matches Ok(input) ==> input.width == CARD_MODEL_WIDTH && input.height == CARD_MODEL_HEIGHT
            && is_resized_by(
            input.data@,
            rgb_source(roi.data@, roi.width * roi.height, roi.format),
            roi.width as int,
            roi.height as int,
            3,
            CARD_MODEL_WIDTH as int,
            CARD_MODEL_HEIGHT as int,
            place,
            blend,
        ),
        r matches Err(e) ==> e is Vision,
{
    let resized = match roi.format {
        PixelFormat::Rgb8 => resize(roi, CARD_MODEL_WIDTH, CARD_MODEL_HEIGHT, place, blend),
        PixelFormat::Bgra8 => {
            let rgb = match bgra_to_rgb(roi) {
                Ok(f) => f,
                Err(e) => {
                    return Err(e);
                },
            };
            resize(&rgb, CARD_MODEL_WIDTH, CARD_MODEL_HEIGHT, place, blend)
        },
        PixelFormat::Bgr8 => {
            proof {
                assert(0 <= roi.width * roi.height <= 0xffff_ffff * 0xffff_ffff) by (nonlinear_arith)
                    requires
                        0 <= roi.width <= 0xffff_ffff,
                        0 <= roi.height <= 0xffff_ffff,
                ;
            }
            let slen = roi.data.len();
            let pc: u64 = roi.width as u64 * roi.height as u64;
            assert(pc <= slen);
            let n = pc as usize;
            let dst = bgr_to_rgb_bytes(&roi.data, n);
            let rgb = Frame {
                width: roi.width,
                height: roi.height,
                stride: roi.width * 3,
                format: PixelFormat::Rgb8,
                data: Arc::new(dst),
            };
            resize(&rgb, CARD_MODEL_WIDTH, CARD_MODEL_HEIGHT, place, blend)
        },
        PixelFormat::Gray8 => {
            return Err(TfError::Vision("cannot convert Gray8 to RGB for card classification".to_owned()));
        },
    };
    match resized {
        Ok(f) => Ok(CardClassificationInput { data: f.data, width: CARD_MODEL_WIDTH, height: CARD_MODEL_HEIGHT }),
        Err(e) => Err(e),
    }
}

} // verus!
