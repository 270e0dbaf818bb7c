//! Loading PNG images as 8-bit RGBA pixels, and saving RGBA pixels as PNG.
//! The `png` crate decodes and encodes; this module turns what it decodes
//! into RGBA.
use vstd::prelude::*;
use vstd::arithmetic::div_mod::lemma_fundamental_div_mod_converse;

verus! {

#[verifier::external_type_specification]
#[verifier::external_body]
pub struct ExPngDecodingError(png::DecodingError);

#[verifier::external_type_specification]
#[verifier::external_body]
pub struct ExPngEncodingError(png::EncodingError);

/// Color types of decoded data (the values of `png::ColorType`).
pub const COLOR_GRAYSCALE: u8 = 0;

pub const COLOR_RGB: u8 = 2;

pub const COLOR_GRAYSCALE_ALPHA: u8 = 4;

pub const COLOR_RGBA: u8 = 6;

/// Bytes per pixel of an 8-bit color type.
pub open spec fn color_samples(color: u8) -> nat {
    if color == COLOR_GRAYSCALE {
        1
    } else if color == COLOR_RGB {
        3
    } else if color == COLOR_GRAYSCALE_ALPHA {
        2
    } else {
        4
    }
}

pub open spec fn is_color8(color: u8) -> bool {
    color == COLOR_GRAYSCALE || color == COLOR_RGB || color == COLOR_GRAYSCALE_ALPHA || color
        == COLOR_RGBA
}

/// What the `png` crate decodes from a file with its `normalize_to_color8`
/// transformation: the output color type, the frame's width and height and
/// the frame's pixel bytes; nothing for a file it refuses.
pub uninterp spec fn png_decoded(file: Seq<u8>) -> Option<(u8, u32, u32, Seq<u8>)>;

/// The PNG file the `png` crate writes for 8-bit RGBA pixels.
pub uninterp spec fn png_encoded(raw: Seq<u8>, width: u32, height: u32) -> Seq<u8>;

/// The first frame of a PNG file as the `png` crate hands it out.
pub struct DecodedPng {
    pub color: u8,
    pub width: u32,
    pub height: u32,
    pub data: Vec<u8>,
}

/// Decodes the first frame of `file` with `png::Decoder`, every input
/// transformed to 8-bit gray or color (`Transformations::normalize_to_color8`),
/// into a buffer of `Reader::output_buffer_size` bytes. Claimed: the result
/// is what `png_decoded` names; the color type is gray, gray-alpha, RGB or
/// RGBA (indexed images are expanded), and the buffer holds whole pixels (a
/// row is `width * samples` bytes at eight bits per sample).
#[verifier::external_body]
fn png_decode(file: &Vec<u8>) -> (r: Result<DecodedPng, png::DecodingError>)
    ensures
        r matches Ok(d) ==> png_decoded(file@) == Some((d.color, d.width, d.height, d.data@)),
        r is Err ==> png_decoded(file@) is None,
        r matches Ok(d) ==> is_color8(d.color) && d.data@.len() % color_samples(d.color) == 0,
{
    let mut decoder = png::Decoder::new(std::io::Cursor::new(file));
    decoder.set_transformations(png::Transformations::normalize_to_color8());
    let mut reader = decoder.read_info()?;
    let mut data = vec![0u8; reader.output_buffer_size()];
    let info = reader.next_frame(&mut data)?;
    let color = reader.output_color_type().0 as u8;
    Ok(DecodedPng { color, width: info.width, height: info.height, data })
}

/// Encodes 8-bit RGBA pixels with `png::Encoder` into a `Vec`. Claimed from
/// the encoder's source: it refuses a zero width or height
/// (`Writer::init`) and pixel data of another length than
/// `width * height * 4` (`write_image_data`), and writing into a `Vec`
/// does not fail otherwise; the bytes are what `png_encoded` names. The
/// encoder multiplies the row length by the height in `usize`, so the size
/// must fit.
#[verifier::external_body]
fn png_encode_rgba(raw: &Vec<u8>, width: u32, height: u32) -> (r: Result<Vec<u8>, png::EncodingError>)
    requires
        width * height * 4 <= usize::MAX,
    ensures
        r is Ok <==> (width > 0 && height > 0 && raw@.len() == width * height * 4),
        r matches Ok(v) ==> v@ == png_encoded(raw@, width, height),
{
    let mut res: Vec<u8> = Vec::new();
    let mut encoder = png::Encoder::new(std::io::BufWriter::new(&mut res), width, height);
    encoder.set_color(png::ColorType::Rgba);
    encoder.set_depth(png::BitDepth::Eight);
    let mut writer = encoder.write_header()?;
    writer.write_image_data(raw)?;
    writer.finish()?;
    Ok(res)
}

/// A loaded image: RGBA pixels, row by row.
pub struct PngResult {
    pub data: Vec<u8>,
    pub width: u32,
    pub height: u32,
}

pub enum PngError {
    /// The `png` crate could not decode the file.
    Decoding(png::DecodingError),
    /// The `png` crate could not encode the pixels.
    Encoding(png::EncodingError),
    /// The RGBA pixels would not fit in memory.
    TooLarge,
}

/// Byte `k` of the RGBA form of 8-bit pixels of the given color type: RGB
/// gets an opaque alpha, gray is spread over the three colors. A
/// gray-alpha image keeps the buffer size of four bytes per source byte;
/// past its pixels the buffer is zero.
pub open spec fn rgba_byte(color: u8, raw: Seq<u8>, k: int) -> u8 {
    let p = k / 4;
    let c = k % 4;
    if color == COLOR_RGB {
        if c < 3 {
            raw[3 * p + c]
        } else {
            255
        }
    } else if color == COLOR_GRAYSCALE {
        if c < 3 {
            raw[p]
        } else {
            255
        }
    } else if color == COLOR_GRAYSCALE_ALPHA {
        if p < raw.len() / 2 {
            if c < 3 {
                raw[2 * p]
            } else {
                raw[2 * p + 1]
            }
        } else {
            0
        }
    } else {
        raw[k]
    }
}

/// Length of the RGBA buffer for `raw`.
pub open spec fn rgba_len(color: u8, raw: Seq<u8>) -> nat {
    if color == COLOR_RGB {
        raw.len() * 4 / 3
    } else if color == COLOR_RGBA {
        raw.len()
    } else {
        raw.len() * 4
    }
}

pub open spec fn rgba_pixels(color: u8, raw: Seq<u8>) -> Seq<u8> {
    Seq::new(rgba_len(color, raw), |k: int| rgba_byte(color, raw, k))
}

proof fn lemma_pixel_pos(p: int, c: int)
    requires
        0 <= c < 4,
    ensures
        (4 * p + c) / 4 == p,
        (4 * p + c) % 4 == c,
{
    lemma_fundamental_div_mod_converse(4 * p + c, 4, p, c);
}

/// Pixel `p` of the RGBA image: an RGB pixel keeps its three colors and
/// becomes opaque, a gray pixel gives its gray to all three colors and
/// becomes opaque, a gray-alpha pixel gives its gray to the colors and
/// keeps its alpha, an RGBA pixel stays as it is; every pixel of the source
/// has its four bytes in the result.
pub proof fn law_rgba_pixel(color: u8, raw: Seq<u8>, p: int, c: int)
    requires
        is_color8(color),
        raw.len() % color_samples(color) == 0,
        0 <= c < 3,
        0 <= p,
        p * color_samples(color) < raw.len(),
    ensures
        4 * p + 3 < rgba_len(color, raw),
        color == COLOR_RGB ==> rgba_pixels(color, raw)[4 * p + c] == raw[3 * p + c]
            && rgba_pixels(color, raw)[4 * p + 3] == 255,
        color == COLOR_GRAYSCALE ==> rgba_pixels(color, raw)[4 * p + c] == raw[p]
            && rgba_pixels(color, raw)[4 * p + 3] == 255,
        color == COLOR_GRAYSCALE_ALPHA ==> rgba_pixels(color, raw)[4 * p + c] == raw[2 * p]
            && rgba_pixels(color, raw)[4 * p + 3] == raw[2 * p + 1],
        color == COLOR_RGBA ==> rgba_pixels(color, raw)[4 * p + c] == raw[4 * p + c]
            && rgba_pixels(color, raw)[4 * p + 3] == raw[4 * p + 3],
{
    lemma_pixel_pos(p, c);
    lemma_pixel_pos(p, 3);
    let n = raw.len() as int;
    if color == COLOR_RGB {
        assert(3 * p + 3 <= n);
        assert(n * 4 / 3 >= 4 * p + 4) by (nonlinear_arith)
            requires
                3 * p + 3 <= n,
                p >= 0,
        ;
    } else if color == COLOR_GRAYSCALE_ALPHA {
        assert(2 * p + 2 <= n);
        assert(p < n / 2);
    } else if color == COLOR_RGBA {
        assert(4 * p + 4 <= n);
    }
}

/// Converts 8-bit pixels of color type `color` to RGBA (see `rgba_byte`).
pub fn expand_to_rgba(color: u8, raw: &Vec<u8>) -> (r: Vec<u8>)
    requires
        is_color8(color),
        raw@.len() % color_samples(color) == 0,
        raw@.len() * 4 <= usize::MAX,
    ensures
        r@ == rgba_pixels(color, raw@),
{
    if color == COLOR_RGBA {
        let r = raw.clone();
        proof {
            assert(r@ =~= rgba_pixels(color, raw@));
        }
        return r;
    }
    let n = raw.len();
    let samples: usize = if color == COLOR_RGB {
        3
    } else if color == COLOR_GRAYSCALE {
        1
    } else {
        2
    };
    let pixels = n / samples;
    proof {
        vstd::arithmetic::div_mod::lemma_fundamental_div_mod(n as int, samples as int);
        assert(n == samples * pixels);
    }
    let mut out: Vec<u8> = Vec::new();
    let mut p: usize = 0;
    while p < pixels
        invariant
            is_color8(color),
            color != COLOR_RGBA,
            n == raw@.len(),
            n * 4 <= usize::MAX,
            samples as int == color_samples(color),
            n == samples * pixels,
            p <= pixels,
            out@.len() == 4 * p,
            forall|k: int| 0 <= k < 4 * p ==> #[trigger] out@[k] == rgba_byte(color, raw@, k),
        decreases pixels - p,
    {
        let base = samples * p;
        proof {
            assert(samples * p + samples <= n) by (nonlinear_arith)
                requires
                    p < pixels,
                    n == samples * pixels,
            ;
        }
        let (r, g, b, a) = if color == COLOR_RGB {
            (raw[base], raw[base + 1], raw[base + 2], 255u8)
        } else if color == COLOR_GRAYSCALE {
            (raw[base], raw[base], raw[base], 255u8)
        } else {
            (raw[base], raw[base], raw[base], raw[base + 1])
        };
        proof {
            lemma_pixel_pos(p as int, 0);
            lemma_pixel_pos(p as int, 1);
            lemma_pixel_pos(p as int, 2);
            lemma_pixel_pos(p as int, 3);
            if color == COLOR_GRAYSCALE_ALPHA {
                assert(p < n / 2);
            }
        }
        out.push(r);
        out.push(g);
        out.push(b);
        out.push(a);
        p = p + 1;
    }
    if color == COLOR_GRAYSCALE_ALPHA {
        while out.len() < n * 4
            invariant
                color == COLOR_GRAYSCALE_ALPHA,
                n == raw@.len(),
                n * 4 <= usize::MAX,
                n == 2 * pixels,
                4 * pixels <= out@.len() <= n * 4,
                forall|k: int| 0 <= k < out@.len() ==> #[trigger] out@[k] == rgba_byte(color, raw@, k),
            decreases n * 4 - out@.len(),
        {
            proof {
                let k = out@.len() as int;
                vstd::arithmetic::div_mod::lemma_fundamental_div_mod(k, 4);
                assert(k / 4 >= pixels);
            }
            out.push(0);
        }
    }
    proof {
        assert(out@ =~= rgba_pixels(color, raw@));
    }
    out
}

/// The image of a decoded frame: its pixels as RGBA and its size; a frame
/// whose RGBA pixels would not fit in memory is refused.
pub fn png_result_from_decoded(decoded: DecodedPng) -> (r: Result<PngResult, PngError>)
    requires
        is_color8(decoded.color),
        decoded.data@.len() % color_samples(decoded.color) == 0,
    ensures
        decoded.data@.len() * 4 > usize::MAX ==> r matches Err(PngError::TooLarge),
        decoded.data@.len() * 4 <= usize::MAX ==> (r matches Ok(img) && img.data@ == rgba_pixels(
            decoded.color,
            decoded.data@,
        ) && img.width == decoded.width && img.height == decoded.height),
{
    if decoded.data.len() > usize::MAX / 4 {
        return Err(PngError::TooLarge);
    }
    let data = expand_to_rgba(decoded.color, &decoded.data);
    Ok(PngResult { data, width: decoded.width, height: decoded.height })
}

/// Loads a PNG file as RGBA pixels.
pub fn load_png_image(file: &Vec<u8>) -> (r: Result<PngResult, PngError>)
    ensures
        png_decoded(file@) is None <==> r matches Err(PngError::Decoding(_)),
        png_decoded(file@) matches Some(d) ==> (if d.3.len() * 4 > usize::MAX {
            r matches Err(PngError::TooLarge)
        } else {
            r matches Ok(img) && img.data@ == rgba_pixels(d.0, d.3) && img.width == d.1
                && img.height == d.2
        }),
{
    match png_decode(file) {
        Ok(decoded) => png_result_from_decoded(decoded),
        Err(e) => Err(PngError::Decoding(e)),
    }
}

/// Saves RGBA pixels as a PNG file; the encoder refuses a zero width or
/// height and pixel data that is not `width * height` RGBA pixels.
pub fn save_png_image(raw_bytes: &Vec<u8>, width: u32, height: u32) -> (r: Result<
    Vec<u8>,
    PngError,
>)
    requires
        width * height * 4 <= usize::MAX,
    ensures
        r is Ok <==> (width > 0 && height > 0 && raw_bytes@.len() == width * height * 4),
        r matches Ok(v) ==> v@ == png_encoded(raw_bytes@, width, height),
        r matches Err(e) ==> e is Encoding,
{
    match png_encode_rgba(raw_bytes, width, height) {
        Ok(v) => Ok(v),
        Err(e) => Err(PngError::Encoding(e)),
    }
}

} // verus!
