//! Image embedding: color-channel extraction and alpha-mask splitting.
//!
//! A decoded image arrives as interleaved bytes, row-major: three bytes per
//! pixel (RGB) when it has no alpha channel, four (RGBA) when it has one.
//! The color object carries the RGB bytes; an alpha-bearing image
//! additionally yields a grayscale mask object holding one alpha byte per
//! pixel, linked from the color object as its soft mask.

use vstd::prelude::*;

use vstd::arithmetic::div_mod::lemma_fundamental_div_mod_converse;

verus! {

/// A decoded image: dimensions and interleaved channel bytes.
#[derive(Clone, Debug, PartialEq, Eq)]
pub struct ImageData {
    pub width: u32,
    pub height: u32,
    pub has_alpha: bool,
    /// RGBA bytes (4 per pixel) when `has_alpha`, RGB bytes (3 per pixel)
    /// otherwise, row-major.
    pub pixels: Vec<u8>,
}

/// The pixel data is complete for the dimensions and channel count.
pub open spec fn image_wf(img: ImageData) -> bool {
    if img.has_alpha {
        img.pixels@.len() == 4 * (img.width as int) * (img.height as int)
    } else {
        img.pixels@.len() == 3 * (img.width as int) * (img.height as int)
    }
}

/// The RGB bytes of the image: the pixels as given when there is no alpha
/// channel, otherwise each pixel's first three bytes.
pub open spec fn spec_rgb(img: ImageData) -> Seq<u8> {
    if img.has_alpha {
        Seq::new((img.pixels@.len() / 4) * 3, |k: int| img.pixels@[(k / 3) * 4 + (k % 3)])
    } else {
        img.pixels@
    }
}

/// The alpha bytes of the image, one per pixel, in the same row-major
/// order as the color data.
pub open spec fn spec_alpha(img: ImageData) -> Seq<u8> {
    Seq::new(img.pixels@.len() / 4, |k: int| img.pixels@[4 * k + 3])
}

/// Extracts the RGB channel bytes, dropping the alpha channel if present.
pub fn rgb_channels(img: &ImageData) -> (r: Vec<u8>)
    requires
        image_wf(*img),
    ensures
        r@ == spec_rgb(*img),
{
    let n = img.pixels.len();
    let mut out: Vec<u8> = Vec::new();
    if !img.has_alpha {
        let mut i: usize = 0;
        while i < n
            invariant
                0 <= i <= n,
                n == img.pixels@.len(),
                out@.len() == i,
                forall|k: int| 0 <= k < i ==> out@[k] == img.pixels@[k],
            decreases n - i,
        {
            out.push(img.pixels[i]);
            i += 1;
        }
        proof {
            assert(out@ =~= spec_rgb(*img));
        }
    } else {
        proof {
            lemma_len_multiple_of_4(*img);
        }
        let mut i: usize = 0;
        while i < n
            invariant
                0 <= i <= n,
                i % 4 == 0,
                n == img.pixels@.len(),
                n % 4 == 0,
                out@.len() == (i / 4) * 3,
                forall|k: int|
                    0 <= k < out@.len() ==> out@[k] == img.pixels@[(k / 3) * 4 + (k % 3)],
            decreases n - i,
        {
            let ghost q = i as int / 4;
            proof {
                lemma_step_fits(i as int, n as int);
                lemma_fundamental_div_mod_converse(i as int, 4, q, 0);
                lemma_fundamental_div_mod_converse(3 * q, 3, q, 0);
                lemma_fundamental_div_mod_converse(3 * q + 1, 3, q, 1);
                lemma_fundamental_div_mod_converse(3 * q + 2, 3, q, 2);
                lemma_fundamental_div_mod_converse(i + 4, 4, q + 1, 0);
                assert((q + 1) * 3 == q * 3 + 3) by (nonlinear_arith);
                assert(q * 4 == i) by (nonlinear_arith)
                    requires q == i as int / 4 && i as int % 4 == 0;
            }
            out.push(img.pixels[i]);
            out.push(img.pixels[i + 1]);
            out.push(img.pixels[i + 2]);
            i += 4;
        }
        proof {
            assert(out@ =~= spec_rgb(*img));
        }
    }
    out
}

/// A well-formed image's byte count is a multiple of four when it carries
/// an alpha channel.
proof fn lemma_len_multiple_of_4(img: ImageData)
    requires
        image_wf(img),
        img.has_alpha,
    ensures
        img.pixels@.len() % 4 == 0,
{
    let x = (img.width as int) * (img.height as int);
    assert(img.pixels@.len() == x * 4) by (nonlinear_arith)
        requires img.pixels@.len() == 4 * (img.width as int) * (img.height as int)
            && x == (img.width as int) * (img.height as int);
    vstd::arithmetic::div_mod::lemma_mod_multiples_basic(x, 4);
}

/// Between two multiples of four there is room for a whole pixel.
proof fn lemma_step_fits(i: int, n: int)
    requires
        0 <= i < n,
        i % 4 == 0,
        n % 4 == 0,
    ensures
        i + 4 <= n,
{
    lemma_fundamental_div_mod_converse(i, 4, i / 4, 0);
    lemma_fundamental_div_mod_converse(n, 4, n / 4, 0);
    assert(i + 4 <= n) by (nonlinear_arith)
        requires i < n && i == 4 * (i / 4) && n == 4 * (n / 4);
}

/// Extracts the alpha byte of every pixel, row-major.
pub fn alpha_channel(img: &ImageData) -> (r: Vec<u8>)
    requires
        image_wf(*img),
        img.has_alpha,
    ensures
        r@ == spec_alpha(*img),
{
    let n = img.pixels.len();
    let mut out: Vec<u8> = Vec::new();
    let mut i: usize = 0;
    proof {
        lemma_len_multiple_of_4(*img);
    }
    while i < n
        invariant
            0 <= i <= n,
            i % 4 == 0,
            n == img.pixels@.len(),
            n % 4 == 0,
            out@.len() == i / 4,
            forall|k: int| 0 <= k < out@.len() ==> out@[k] == img.pixels@[4 * k + 3],
        decreases n - i,
    {
        let ghost q = i as int / 4;
        proof {
            lemma_step_fits(i as int, n as int);
            lemma_fundamental_div_mod_converse(i as int, 4, q, 0);
            lemma_fundamental_div_mod_converse(i + 4, 4, q + 1, 0);
            assert(4 * q == i) by (nonlinear_arith)
                requires q == i as int / 4 && i as int % 4 == 0;
        }
        out.push(img.pixels[i + 3]);
        i += 4;
    }
    proof {
        assert(out@ =~= spec_alpha(*img));
    }
    out
}

/// A grayscale soft-mask object: per-pixel opacity for a color image.
#[derive(Clone, Debug, PartialEq, Eq)]
pub struct MaskObject {
    pub id: i32,
    pub samples: Vec<u8>,
}

/// A color image object, with its soft mask when the source has alpha.
#[derive(Clone, Debug, PartialEq, Eq)]
pub struct ImageObject {
    pub id: i32,
    pub width: u32,
    pub height: u32,
    /// RGB bytes, 8 bits per channel.
    pub rgb: Vec<u8>,
    /// Present exactly when the source image reports an alpha channel; the
    /// mask is referenced from this color object.
    pub mask: Option<MaskObject>,
}

/// An image object carries exactly the embedding data of the source image:
/// one color object, and one mask object — referenced from the color
/// object under `mask_id` — precisely when the source reports alpha.
pub open spec fn image_obj_matches(r: ImageObject, img: ImageData, id: i32, mask_id: i32) -> bool {
    &&& r.id == id
    &&& r.width == img.width
    &&& r.height == img.height
    &&& r.rgb@ == spec_rgb(img)
    &&& img.has_alpha ==> (r.mask matches Some(m) && m.id == mask_id && m.samples@ == spec_alpha(
        img,
    ))
    &&& !img.has_alpha ==> r.mask is None
}

/// Builds the embedding objects of one image: exactly one color object,
/// and exactly one mask object — referenced from the color object under
/// `mask_id` — precisely when the source reports an alpha channel.
pub fn build_image_object(img: &ImageData, id: i32, mask_id: i32) -> (r: ImageObject)
    requires
        image_wf(*img),
    ensures
        image_obj_matches(r, *img, id, mask_id),
{
    let rgb = rgb_channels(img);
    let mask = if img.has_alpha {
        Some(MaskObject { id: mask_id, samples: alpha_channel(img) })
    } else {
        None
    };
    ImageObject { id, width: img.width, height: img.height, rgb, mask }
}

} // verus!
