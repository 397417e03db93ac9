//! The preprocessing pipeline: encoded image bytes in, normalized
//! channel-first tensor out.
//!
//! The steps are fixed: decode to an RGB pixel grid, resize to the
//! model's spatial dimensions with the triangular filter (this exact
//! filter is a correctness requirement — another filter shifts pixel
//! values and can change the classification), then map every channel
//! value through a per-channel normalization table into the tensor's
//! channel-major layout.
//!
//! Floating-point arithmetic never enters this crate: a tensor element is
//! carried as the raw bit pattern of an IEEE-754 single-precision value.
//! The caller supplies the normalization table, 256 entries per channel,
//! where entry `c * 256 + v` holds the bits of the normalized form of raw
//! value `v` in channel `c` (the fixed per-channel affine map
//! `(v/255 - mean[c]) / std[c]`).  Decoding and resizing are delegated to
//! the `image` crate behind trusted wrappers; everything around them is
//! verified.

use vstd::arithmetic::div_mod::lemma_fundamental_div_mod_converse;
use vstd::prelude::*;

use crate::errors::ErrorType;

verus! {

/// The spatial width models expect of their input.
pub const MODEL_IMAGE_WIDTH: u32 = 224;

/// The spatial height models expect of their input.
pub const MODEL_IMAGE_HEIGHT: u32 = 224;

/// Entries of a normalization table: 256 per channel, three channels.
pub const NORMALIZATION_TABLE_LEN: usize = 768;

/// What `image::load_from_memory` followed by `DynamicImage::to_rgb8`
/// yields for the given encoded bytes: `None` on a decode failure, else
/// the width, height and row-major interleaved RGB bytes.
pub uninterp spec fn decode_rgb8_of(bytes: Seq<u8>) -> Option<(u32, u32, Seq<u8>)>;

/// What `image::imageops::resize` with the triangular filter yields for
/// an RGB pixel grid of the given dimensions, resized to `nw` by `nh`.
pub uninterp spec fn resize_triangle_of(pix: Seq<u8>, w: u32, h: u32, nw: u32, nh: u32) -> Seq<u8>;

/// Relies on `image::load_from_memory` and `DynamicImage::to_rgb8`:
/// decoding depends on the encoded bytes alone, and a decoded RGB buffer
/// holds exactly `3 * width * height` bytes, row-major, one
/// red-green-blue triple per pixel.
#[verifier::external_body]
fn decode_rgb8(bytes: &Vec<u8>) -> (r: Option<(u32, u32, Vec<u8>)>)
    ensures
        match r {
            Option::None => decode_rgb8_of(bytes@) is None,
            Option::Some((w, h, pix)) => {
                &&& decode_rgb8_of(bytes@) == Some((w, h, pix@))
                &&& pix@.len() == 3 * (w as int) * (h as int)
            },
        },
{
    match image::load_from_memory(bytes.as_slice()) {
        Ok(img) => {
            let rgb = img.to_rgb8();
            let (w, h) = rgb.dimensions();
            Some((w, h, rgb.into_raw()))
        },
        Err(_) => None,
    }
}

/// Relies on `image::imageops::resize` with `FilterType::Triangle`: the
/// result depends on the pixels and dimensions alone and is an RGB
/// buffer of exactly the requested dimensions.
#[verifier::external_body]
fn resize_triangle(pix: &Vec<u8>, w: u32, h: u32, nw: u32, nh: u32) -> (r: Vec<u8>)
    requires
        pix@.len() == 3 * (w as int) * (h as int),
        1 <= nw,
        1 <= nh,
        3 * (nw as int) * (nh as int) <= isize::MAX as int,
    ensures
        r@ == resize_triangle_of(pix@, w, h, nw, nh),
        r@.len() == 3 * (nw as int) * (nh as int),
{
    let buffer: image::RgbImage = image::ImageBuffer::from_raw(w, h, pix.clone()).unwrap();
    image::imageops::resize(&buffer, nw, nh, image::imageops::FilterType::Triangle).into_raw()
}

/// The flat position of channel `c` of pixel `(x, y)` in a
/// channel-major (batch 1, channel, row, column) tensor.
pub open spec fn chw_index(c: int, y: int, x: int, w: int, h: int) -> int {
    (c * h + y) * w + x
}

/// The flat position of channel `c` of pixel `(x, y)` in a row-major
/// interleaved RGB buffer.
pub open spec fn rgb_index(x: int, y: int, c: int, w: int) -> int {
    (y * w + x) * 3 + c
}

/// The normalized tensor of an RGB pixel grid: channel-major, each
/// element the table's entry for its channel and raw value.
pub open spec fn normalized_tensor(pix: Seq<u8>, w: int, h: int, table: Seq<u32>) -> Seq<u32> {
    Seq::new(
        (3 * h * w) as nat,
        |i: int|
            {
                let c = i / (h * w);
                let y = (i % (h * w)) / w;
                let x = (i % (h * w)) % w;
                table[c * 256 + pix[rgb_index(x, y, c, w)]]
            },
    )
}

/// Where channel `c` of pixel `(x, y)` lands in the tensor and what it
/// holds: the table entry for the pixel's raw value in that channel.
pub proof fn lemma_tensor_element(
    pix: Seq<u8>,
    w: int,
    h: int,
    table: Seq<u32>,
    c: int,
    y: int,
    x: int,
)
    requires
        1 <= w,
        1 <= h,
        0 <= c < 3,
        0 <= y < h,
        0 <= x < w,
    ensures
        0 <= chw_index(c, y, x, w, h) < 3 * h * w,
        normalized_tensor(pix, w, h, table)[chw_index(c, y, x, w, h)] == table[c * 256 + pix[
            rgb_index(x, y, c, w)
        ]],
{
    let i = chw_index(c, y, x, w, h);
    let r = y * w + x;
    assert(i == c * (h * w) + r) by (nonlinear_arith)
        requires
            i == (c * h + y) * w + x,
            r == y * w + x,
    ;
    assert(0 <= r && r < h * w) by (nonlinear_arith)
        requires
            0 <= y < h,
            0 <= x < w,
            r == y * w + x,
    ;
    assert(0 <= i && i < 3 * (h * w)) by (nonlinear_arith)
        requires
            0 <= c < 3,
            0 <= r < h * w,
            i == c * (h * w) + r,
    ;
    lemma_fundamental_div_mod_converse(i, h * w, c, r);
    lemma_fundamental_div_mod_converse(r, w, y, x);
    assert(3 * (h * w) == 3 * h * w) by (nonlinear_arith);
}

/// Arranges an RGB pixel grid into the normalized channel-major tensor,
/// mapping every raw value through the table.
pub fn chw_tensor(pix: &Vec<u8>, w: usize, h: usize, table: &Vec<u32>) -> (t: Vec<u32>)
    requires
        1 <= w,
        1 <= h,
        pix@.len() == 3 * w * h,
        table@.len() == NORMALIZATION_TABLE_LEN as int,
    ensures
        t@ == normalized_tensor(pix@, w as int, h as int, table@),
        t@.len() == 3 * w * h,
{
    let ghost spec_t = normalized_tensor(pix@, w as int, h as int, table@);
    let total: usize = pix.len();
    proof {
        assert(total == 3 * w * h);
    }
    let mut t: Vec<u32> = Vec::new();
    let mut c: usize = 0;
    proof {
        assert(((c as int) * (h as int)) * (w as int) == 0) by (nonlinear_arith)
            requires
                c == 0,
        ;
    }
    while c < 3
        invariant
            c <= 3,
            1 <= w,
            1 <= h,
            pix@.len() == 3 * w * h,
            3 * w * h <= usize::MAX as int,
            table@.len() == NORMALIZATION_TABLE_LEN as int,
            spec_t == normalized_tensor(pix@, w as int, h as int, table@),
            t@.len() == c * h * w,
            forall|j: int| 0 <= j < t@.len() ==> t@[j] == spec_t[j],
        decreases 3 - c,
    {
        let mut y: usize = 0;
        while y < h
            invariant
                c < 3,
                y <= h,
                1 <= w,
                1 <= h,
                pix@.len() == 3 * w * h,
                3 * w * h <= usize::MAX as int,
                table@.len() == NORMALIZATION_TABLE_LEN as int,
                spec_t == normalized_tensor(pix@, w as int, h as int, table@),
                t@.len() == (c * h + y) * w,
                forall|j: int| 0 <= j < t@.len() ==> t@[j] == spec_t[j],
            decreases h - y,
        {
            let mut x: usize = 0;
            while x < w
                invariant
                    c < 3,
                    y < h,
                    x <= w,
                    1 <= w,
                    1 <= h,
                    pix@.len() == 3 * w * h,
                    3 * w * h <= usize::MAX as int,
                    table@.len() == NORMALIZATION_TABLE_LEN as int,
                    spec_t == normalized_tensor(pix@, w as int, h as int, table@),
                    t@.len() == (c * h + y) * w + x,
                    forall|j: int| 0 <= j < t@.len() ==> t@[j] == spec_t[j],
                decreases w - x,
            {
                proof {
                    assert(y * w + x < w * h) by (nonlinear_arith)
                        requires
                            0 <= y < h,
                            0 <= x < w,
                    ;
                    assert((y * w + x) * 3 + c < 3 * w * h && w * h <= 3 * w * h)
                        by (nonlinear_arith)
                        requires
                            y * w + x < w * h,
                            0 <= c < 3,
                            1 <= w,
                            1 <= h,
                    ;
                    assert(y * w <= y * w + x);
                    lemma_tensor_element(
                        pix@,
                        w as int,
                        h as int,
                        table@,
                        c as int,
                        y as int,
                        x as int,
                    );
                }
                let pixel_pos: usize = (y * w + x) * 3 + c;
                let raw: u8 = pix[pixel_pos];
                let entry: usize = c * 256 + (raw as usize);
                t.push(table[entry]);
                x = x + 1;
            }
            proof {
                assert((c * h + y) * w + w == (c * h + y + 1) * w) by (nonlinear_arith);
            }
            y = y + 1;
        }
        proof {
            assert((c * h + h) * w == ((c + 1) * h) * w) by (nonlinear_arith);
        }
        c = c + 1;
    }
    proof {
        assert((3 * h) * w == 3 * h * w) by (nonlinear_arith);
        assert(t@ =~= spec_t);
        assert(3 * h * w == 3 * w * h) by (nonlinear_arith);
    }
    t
}

/// The little-endian byte `k` (0 low, 3 high) of a tensor element.
pub open spec fn le_byte(word: u32, k: int) -> u8 {
    if k == 0 {
        (word & 0xffu32) as u8
    } else if k == 1 {
        ((word >> 8u32) & 0xffu32) as u8
    } else if k == 2 {
        ((word >> 16u32) & 0xffu32) as u8
    } else {
        ((word >> 24u32) & 0xffu32) as u8
    }
}

/// The tensor serialized element by element into little-endian bytes,
/// the form in which it crosses to a guest.
pub open spec fn le_bytes_of(t: Seq<u32>) -> Seq<u8> {
    Seq::new((4 * t.len()) as nat, |i: int| le_byte(t[i / 4], i % 4))
}

/// Serializes a tensor into little-endian bytes.
pub fn tensor_to_le_bytes(t: &Vec<u32>) -> (r: Vec<u8>)
    requires
        4 * t@.len() <= usize::MAX as int,
    ensures
        r@ == le_bytes_of(t@),
{
    let n = t.len();
    let mut out: Vec<u8> = Vec::new();
    let mut i: usize = 0;
    while i < n
        invariant
            i <= n,
            n == t@.len(),
            4 * n <= usize::MAX as int,
            out@.len() == 4 * i,
            forall|j: int| 0 <= j < out@.len() ==> out@[j] == le_bytes_of(t@)[j],
        decreases n - i,
    {
        let word = t[i];
        proof {
            assert(word & 0xffu32 < 256u32) by (bit_vector);
            assert((word >> 8u32) & 0xffu32 < 256u32) by (bit_vector);
            assert((word >> 16u32) & 0xffu32 < 256u32) by (bit_vector);
            assert((word >> 24u32) & 0xffu32 < 256u32) by (bit_vector);
            assert forall|k: int| 0 <= k < 4 implies le_bytes_of(t@)[4 * i + k] == le_byte(
                word,
                k,
            ) by {
                lemma_fundamental_div_mod_converse(4 * (i as int) + k, 4, i as int, k);
            }
        }
        out.push((word & 0xffu32) as u8);
        out.push(((word >> 8u32) & 0xffu32) as u8);
        out.push(((word >> 16u32) & 0xffu32) as u8);
        out.push(((word >> 24u32) & 0xffu32) as u8);
        i = i + 1;
    }
    proof {
        assert(out@ =~= le_bytes_of(t@));
    }
    out
}

/// The whole preprocessing contract: what `transform` returns for every
/// input.  A decode failure is an image-load error; a degenerate decoded
/// grid (a zero dimension) is an image-conversion error; otherwise the
/// result is the normalized tensor of the triangularly resized grid.
pub open spec fn transform_spec(bytes: Seq<u8>, tw: u32, th: u32, table: Seq<u32>) -> Result<
    Seq<u32>,
    ErrorType,
> {
    match decode_rgb8_of(bytes) {
        Option::None => Err(ErrorType::ImageLoad),
        Option::Some((w, h, pix)) => {
            if w == 0 || h == 0 {
                Err(ErrorType::ImageConversion)
            } else {
                Ok(
                    normalized_tensor(
                        resize_triangle_of(pix, w, h, tw, th),
                        tw as int,
                        th as int,
                        table,
                    ),
                )
            }
        },
    }
}

/// Decodes an image, resizes it to the target dimensions with the
/// triangular filter, and normalizes it through the table into a
/// channel-major tensor, exactly as `transform_spec` says.
pub fn transform(bytes: &Vec<u8>, target_w: u32, target_h: u32, table: &Vec<u32>) -> (r: Result<
    Vec<u32>,
    ErrorType,
>)
    requires
        table@.len() == NORMALIZATION_TABLE_LEN as int,
        1 <= target_w,
        1 <= target_h,
        3 * (target_w as int) * (target_h as int) <= isize::MAX as int,
    ensures
        match r {
            Result::Ok(t) => transform_spec(bytes@, target_w, target_h, table@) == Ok::<
                Seq<u32>,
                ErrorType,
            >(t@),
            Result::Err(e) => transform_spec(bytes@, target_w, target_h, table@) == Err::<
                Seq<u32>,
                ErrorType,
            >(e),
        },
{
    match decode_rgb8(bytes) {
        Option::None => Err(ErrorType::ImageLoad),
        Option::Some((w, h, pix)) => {
            if w == 0 || h == 0 {
                return Err(ErrorType::ImageConversion);
            }
            let resized = resize_triangle(&pix, w, h, target_w, target_h);
            proof {
                assert(3 * (target_w as int) * (target_h as int) == 3 * (target_w as int) * (
                target_h as int)) by (nonlinear_arith);
            }
            let t = chw_tensor(&resized, target_w as usize, target_h as usize, table);
            Ok(t)
        },
    }
}

/// Law: preprocessing is deterministic.  The transform's outcome is a
/// function of the image bytes, the target dimensions and the table
/// alone, so equal image bytes always yield byte-identical tensors.
pub proof fn lemma_transform_deterministic(
    bytes1: Seq<u8>,
    bytes2: Seq<u8>,
    tw: u32,
    th: u32,
    table: Seq<u32>,
)
    requires
        bytes1 == bytes2,
    ensures
        transform_spec(bytes1, tw, th, table) == transform_spec(bytes2, tw, th, table),
{
}

} // verus!
