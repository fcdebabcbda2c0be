use image::GenericImageView;
use vstd::prelude::*;

use crate::texture::{TextureProperties, TEXTURE_USAGE_COPY_DST};

verus! {

/// What `image::load_from_memory` makes of `bytes`: nothing when it refuses them, else the
/// width, the height, the pixel bytes in the decoded layout and the pixels as 8-bit RGBA.
pub uninterp spec fn decoded_image(bytes: Seq<u8>) -> Option<(u32, u32, Seq<u8>, Seq<u8>)>;

/// What `image::load_from_memory_with_format` makes of `bytes` read as a Radiance HDR file:
/// nothing when it refuses them, else the width, the height and the pixels as three 32-bit
/// floats each (red, green, blue), in the machine's byte order.
pub uninterp spec fn decoded_hdr_image(bytes: Seq<u8>) -> Option<(u32, u32, Seq<u8>)>;

/// Decodes an image of any format the `image` crate recognises: `image::load_from_memory`,
/// then its dimensions, its bytes as decoded and its bytes converted to RGBA8. The decoded
/// values are named by `decoded_image` and not otherwise stated.
#[verifier::external_body]
fn decode_image(bytes: &[u8]) -> (r: Option<(u32, u32, Vec<u8>, Vec<u8>)>)
    ensures
        match r {
            Some(d) => decoded_image(bytes@) == Some((d.0, d.1, d.2@, d.3@)),
            None => decoded_image(bytes@) is None,
        },
{
    match image::load_from_memory(bytes) {
        Ok(img) => {
            let (width, height) = img.dimensions();
            let native = img.as_bytes().to_vec();
            Some((width, height, native, img.into_rgba8().into_raw()))
        },
        Err(_) => None,
    }
}

/// Decodes a Radiance HDR image: `image::load_from_memory_with_format` with the HDR format,
/// then its dimensions and its bytes. The decoded values are named by `decoded_hdr_image` and
/// not otherwise stated.
#[verifier::external_body]
fn decode_hdr_image(bytes: &[u8]) -> (r: Option<(u32, u32, Vec<u8>)>)
    ensures
        match r {
            Some(d) => decoded_hdr_image(bytes@) == Some((d.0, d.1, d.2@)),
            None => decoded_hdr_image(bytes@) is None,
        },
{
    match image::load_from_memory_with_format(bytes, image::ImageFormat::Hdr) {
        Ok(img) => {
            let (width, height) = img.dimensions();
            Some((width, height, img.as_bytes().to_vec()))
        },
        Err(_) => None,
    }
}

/// Why image data could not be turned into texture data.
#[derive(Debug, Clone, Copy, PartialEq, Eq)]
pub enum TextureDataError {
    /// The image decoder refused the bytes.
    Undecodable,
    /// The decoded pixels are fewer than the dimensions say, or too many to hold.
    MalformedPixels,
}

/// The pixel data and properties a texture is created with, and its dimensions.
#[derive(Debug)]
pub struct TextureSource<F> {
    pub bytes: Vec<u8>,
    pub properties: TextureProperties<F>,
    pub dimensions: (u32, u32),
}

/// The properties a high dynamic range image is uploaded with.
pub open spec fn hdr_upload_properties<F>(p: TextureProperties<F>) -> TextureProperties<F> {
    TextureProperties {
        is_sampled: false,
        is_cubemap: false,
        is_filtered: false,
        extra_usages: p.extra_usages | TEXTURE_USAGE_COPY_DST,
        ..p
    }
}

/// Prepares the contents of an image file for a texture of `properties`, whose format has
/// `format_components` components per texel. A high dynamic range image is handed on as it
/// is, to be decoded when uploaded, with its dimensions left at zero and the properties of an
/// HDR upload. Any other image is decoded: into 8-bit RGBA for a four-component format, and
/// as decoded otherwise.
pub fn texture_source<F: Copy>(raw: Vec<u8>, properties: TextureProperties<F>, format_components: u8) -> (r: Result<TextureSource<F>, TextureDataError>)
    ensures
        properties.is_hdr ==> r is Ok && r->Ok_0.bytes@ == raw@ && r->Ok_0.properties == hdr_upload_properties(properties)
            && r->Ok_0.dimensions == (0u32, 0u32),
        !properties.is_hdr ==> match decoded_image(raw@) {
            None => r == Err::<TextureSource<F>, TextureDataError>(TextureDataError::Undecodable),
            Some(d) => r is Ok && r->Ok_0.properties == properties && r->Ok_0.dimensions == (d.0, d.1)
                && r->Ok_0.bytes@ == (if format_components == 4 { d.3 } else { d.2 }),
        },
{
    if properties.is_hdr {
        let upload = properties.for_hdr_upload();
        Ok(TextureSource { bytes: raw, properties: upload, dimensions: (0, 0) })
    } else {
        match decode_image(raw.as_slice()) {
            Some((width, height, native, rgba)) => {
                let bytes = if format_components == 4 {
                    rgba
                } else {
                    native
                };
                Ok(TextureSource { bytes, properties, dimensions: (width, height) })
            },
            None => Err(TextureDataError::Undecodable),
        }
    }
}

/// `rgb` with the first `n` of its pixels of three 4-byte channels each widened to four
/// channels, the fourth being `alpha`.
pub open spec fn rgba_from_rgb(rgb: Seq<u8>, n: nat, alpha: [u8; 4]) -> Seq<u8>
    decreases n,
{
    if n == 0 {
        Seq::empty()
    } else {
        rgba_from_rgb(rgb, (n - 1) as nat, alpha) + rgb.subrange(12 * (n - 1), 12 * n as int) + alpha@
    }
}

/// Widens `pixel_count` pixels of three 4-byte channels to four channels, the fourth being
/// `alpha` (the bytes of the value 1.0).
pub fn rgb_to_rgba(rgb: &[u8], pixel_count: usize, alpha: [u8; 4]) -> (r: Vec<u8>)
    requires
        12 * pixel_count <= rgb@.len(),
    ensures
        r@ == rgba_from_rgb(rgb@, pixel_count as nat, alpha),
{
    let total = rgb.len();
    let mut out: Vec<u8> = Vec::new();
    let mut p: usize = 0;
    while p < pixel_count
        invariant
            0 <= p <= pixel_count,
            total == rgb@.len(),
            12 * pixel_count <= rgb@.len(),
            out@ == rgba_from_rgb(rgb@, p as nat, alpha),
        decreases pixel_count - p,
    {
        let start = 12 * p;
        let ghost before = out@;
        let mut k: usize = 0;
        while k < 12
            invariant
                0 <= k <= 12,
                start == 12 * p,
                p < pixel_count,
                total == rgb@.len(),
                12 * pixel_count <= rgb@.len(),
                out@ == before + rgb@.subrange(start as int, start + k),
            decreases 12 - k,
        {
            out.push(rgb[start + k]);
            proof {
                assert(rgb@.subrange(start as int, start + k + 1) =~= rgb@.subrange(start as int, start + k).push(rgb@[start + k]));
            }
            k = k + 1;
        }
        let mut a: usize = 0;
        while a < 4
            invariant
                0 <= a <= 4,
                start == 12 * p,
                out@ == before + rgb@.subrange(start as int, start + 12) + alpha@.take(a as int),
            decreases 4 - a,
        {
            out.push(alpha[a]);
            proof {
                assert(alpha@.take(a + 1) =~= alpha@.take(a as int).push(alpha@[a as int]));
            }
            a = a + 1;
        }
        proof {
            assert(alpha@.take(4) =~= alpha@);
            assert(out@ =~= rgba_from_rgb(rgb@, (p + 1) as nat, alpha));
        }
        p = p + 1;
    }
    out
}

/// Decodes a Radiance HDR image and widens its pixels to four 32-bit channels, the fourth
/// being `alpha` (the bytes of the value 1.0): the width, the height and the pixel bytes. It
/// fails when the decoder refuses the bytes, or when the decoded pixels are fewer than the
/// dimensions say or too many to hold.
pub fn hdr_texture_data(bytes: &[u8], alpha: [u8; 4]) -> (r: Result<(u32, u32, Vec<u8>), TextureDataError>)
    ensures
        match decoded_hdr_image(bytes@) {
            None => r == Err::<(u32, u32, Vec<u8>), TextureDataError>(TextureDataError::Undecodable),
            Some(d) => if 12 * (d.0 * d.1) <= d.2.len() && 16 * (d.0 * d.1) <= usize::MAX {
                r is Ok && r->Ok_0.0 == d.0 && r->Ok_0.1 == d.1 && r->Ok_0.2@ == rgba_from_rgb(d.2, (d.0 * d.1) as nat, alpha)
            } else {
                r == Err::<(u32, u32, Vec<u8>), TextureDataError>(TextureDataError::MalformedPixels)
            },
        },
{
    match decode_hdr_image(bytes) {
        None => Err(TextureDataError::Undecodable),
        Some((width, height, rgb)) => {
            proof {
                assert(width * height <= 0xffff_fffe_0000_0001) by (nonlinear_arith)
                    requires
                        width <= u32::MAX,
                        height <= u32::MAX,
                ;
            }
            let pixels: u64 = (width as u64) * (height as u64);
            if pixels > (usize::MAX as u64) / 16 {
                return Err(TextureDataError::MalformedPixels);
            }
            let count = pixels as usize;
            if rgb.len() / 12 < count {
                return Err(TextureDataError::MalformedPixels);
            }
            Ok((width, height, rgb_to_rgba(rgb.as_slice(), count, alpha)))
        },
    }
}

} // verus!
