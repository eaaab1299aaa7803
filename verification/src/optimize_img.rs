//! The image compressor: a thumbnail of bounded size, quantized to an
//! adaptive palette and serialized as PNG, together with a label of the
//! dimensions of the image it was made from.
use crate::encoding::{base64_text, encodable, to_base64};
use crate::text::{decimal, push_decimal};
use vstd::prelude::*;
use vstd::string::*;

verus! {

/// The longer edge of a thumbnail never exceeds this many pixels.
pub const MAX_EDGE_SIZE: u32 = 240;

/// Why an image could not be compressed.
#[derive(Debug, Clone, Copy, PartialEq, Eq, Structural)]
pub enum CompressError {
    /// The bytes are no image in a format that can be read.
    Decode,
    /// The thumbnail would have no pixels.
    Empty,
    /// The palette could not be built.
    Quantize,
    /// The PNG could not be written.
    Encode,
}

impl CompressError {
    /// The error as a message for the log.
    pub fn message(&self) -> (text: String)
        ensures
            text@ == match self {
                CompressError::Decode => "Image could not be decoded"@,
                CompressError::Empty => "Thumbnail would be empty"@,
                CompressError::Quantize => "Failed to quantize image"@,
                CompressError::Encode => "Failed to encode image"@,
            },
    {
        match self {
            CompressError::Decode => "Image could not be decoded".to_owned(),
            CompressError::Empty => "Thumbnail would be empty".to_owned(),
            CompressError::Quantize => "Failed to quantize image".to_owned(),
            CompressError::Encode => "Failed to encode image".to_owned(),
        }
    }
}

/// The number of bytes that `width` x `height` pixels take, four each.
pub open spec fn pixel_bytes(width: u32, height: u32) -> int {
    4 * width * height
}

/// The number of bytes that `width` x `height` pixels take; see
/// [`pixel_bytes`].
pub fn byte_count(width: u32, height: u32) -> (count: u128)
    ensures
        count == pixel_bytes(width, height),
{
    assert(0 <= 4 * width * height <= 4 * 0xffff_ffff * 0xffff_ffff) by (nonlinear_arith)
        requires
            0 <= width <= 0xffff_ffff,
            0 <= height <= 0xffff_ffff,
    ;
    4u128 * (width as u128) * (height as u128)
}

/// Pixels in RGBA order, four bytes each, rows from the top.  The buffer
/// holds exactly the pixels that the dimensions ask for.
#[derive(Debug)]
pub struct Raster {
    width: u32,
    height: u32,
    data: Vec<u8>,
}

/// The mathematical content of a [`Raster`].
pub struct RasterView {
    pub width: u32,
    pub height: u32,
    pub data: Seq<u8>,
}

impl Raster {
    /// Dimensions and bytes.
    pub closed spec fn view(&self) -> RasterView {
        RasterView { width: self.width, height: self.height, data: self.data@ }
    }

    #[verifier::type_invariant]
    spec fn well_formed(&self) -> bool {
        pixel_bytes(self.width, self.height) == self.data@.len()
    }

    /// A raster over `data`, which must hold exactly `width` x `height`
    /// pixels.
    pub fn new(width: u32, height: u32, data: Vec<u8>) -> (made: Option<Raster>)
        ensures
            match made {
                Some(img) => img@ == (RasterView { width, height, data: data@ }) && pixel_bytes(
                    width,
                    height,
                ) == data@.len(),
                None => pixel_bytes(width, height) != data@.len(),
            },
    {
        let need = byte_count(width, height);
        if data.len() as u128 == need {
            Some(Raster { width, height, data })
        } else {
            None
        }
    }

    /// A raster over the first `width` x `height` pixels of `data`.
    fn covering(width: u32, height: u32, data: Vec<u8>) -> (img: Raster)
        requires
            pixel_bytes(width, height) <= data@.len(),
        ensures
            img@ == (RasterView {
                width,
                height,
                data: data@.take(pixel_bytes(width, height)),
            }),
    {
        let need = byte_count(width, height);
        let mut data = data;
        data.truncate(need as usize);
        Raster { width, height, data }
    }

    /// The width in pixels.
    pub fn width(&self) -> (width: u32)
        ensures
            width == self@.width,
    {
        self.width
    }

    /// The height in pixels.
    pub fn height(&self) -> (height: u32)
        ensures
            height == self@.height,
    {
        self.height
    }

    /// The bytes of the pixels, exactly four for each.
    pub fn data(&self) -> (data: &Vec<u8>)
        ensures
            data@ == self@.data,
            data@.len() == pixel_bytes(self@.width, self@.height),
    {
        proof {
            use_type_invariant(self);
        }
        &self.data
    }
}

/// `image::ImageError`, why bytes did not decode.  Opaque here.
#[verifier::external_type_specification]
#[verifier::external_body]
pub struct ExImageError(image::ImageError);

/// `imagequant::Error`, why no palette could be built.  Opaque here.
#[verifier::external_type_specification]
#[verifier::external_body]
pub struct ExQuantError(imagequant::Error);

/// `lodepng::Error`, why no PNG could be written.  Opaque here.
#[verifier::external_type_specification]
#[verifier::external_body]
pub struct ExPngError(lodepng::Error);

/// The dimensions of the thumbnail of a `width` x `height` image: unchanged
/// when both edges are within the bound; otherwise the longer edge becomes
/// the bound and the shorter one follows the aspect ratio, rounded down.
pub open spec fn thumbnail_size(width: u32, height: u32) -> (u32, u32) {
    if width <= MAX_EDGE_SIZE && height <= MAX_EDGE_SIZE {
        (width, height)
    } else if width > height {
        (MAX_EDGE_SIZE, (MAX_EDGE_SIZE * height / (width as int)) as u32)
    } else {
        ((MAX_EDGE_SIZE * width / (height as int)) as u32, MAX_EDGE_SIZE)
    }
}

/// Whether an image of these dimensions is scaled down for its thumbnail.
pub open spec fn needs_resize(width: u32, height: u32) -> bool {
    width > MAX_EDGE_SIZE || height > MAX_EDGE_SIZE
}

/// The label of an image's dimensions: width, `x`, height, in decimal.
pub open spec fn size_text(width: u32, height: u32) -> Seq<char> {
    decimal(width as nat).push('x') + decimal(height as nat)
}

/// Thumbnail bound: an image with an edge above the bound gets a thumbnail
/// whose longer edge is exactly the bound, with the aspect ratio kept up to
/// rounding down; a smaller image keeps its dimensions.
pub proof fn law_thumbnail_bound(width: u32, height: u32)
    ensures
        ({
            let (w, h) = thumbnail_size(width, height);
            &&& w <= MAX_EDGE_SIZE && h <= MAX_EDGE_SIZE
            &&& w <= width && h <= height
            &&& !needs_resize(width, height) ==> w == width && h == height
            &&& needs_resize(width, height) ==> {
                &&& w == MAX_EDGE_SIZE || h == MAX_EDGE_SIZE
                &&& width > height ==> w == MAX_EDGE_SIZE && 0 <= w * height - h * width < width
                &&& width <= height ==> h == MAX_EDGE_SIZE && 0 <= h * width - w * height
                    < height
            }
        }),
{
    if needs_resize(width, height) {
        if width > height {
            lemma_scaled_edge(height as int, width as int);
        } else {
            lemma_scaled_edge(width as int, height as int);
        }
    }
}

/// Scaling the shorter edge: `240 * short / long`, rounded down, is at most
/// the bound and at most `short`, and off the exact ratio by less than one
/// part in `long`.
proof fn lemma_scaled_edge(short: int, long: int)
    requires
        0 <= short <= long,
        long > 240,
    ensures
        0 <= 240 * short / long <= 240,
        240 * short / long <= short,
        0 <= 240 * short - (240 * short / long) * long < long,
{
    let q = 240 * short / long;
    assert(240 * short == q * long + (240 * short) % long) by {
        vstd::arithmetic::div_mod::lemma_fundamental_div_mod(240 * short, long);
        assert(long * q == q * long) by (nonlinear_arith);
    }
    assert(0 <= (240 * short) % long < long) by {
        vstd::arithmetic::div_mod::lemma_mod_bound(240 * short, long);
    }
    assert(q >= 0 && q <= 240 && q <= short) by (nonlinear_arith)
        requires
            q * long <= 240 * short,
            240 * short < q * long + long,
            0 <= short <= long,
            long > 240,
    ;
}

/// The dimensions of the thumbnail; see [`thumbnail_size`].
pub fn thumbnail_dimensions(width: u32, height: u32) -> (dims: (u32, u32))
    ensures
        dims == thumbnail_size(width, height),
        dims.0 <= MAX_EDGE_SIZE,
        dims.1 <= MAX_EDGE_SIZE,
        dims.0 <= width,
        dims.1 <= height,
{
    proof {
        law_thumbnail_bound(width, height);
    }
    if width <= MAX_EDGE_SIZE && height <= MAX_EDGE_SIZE {
        (width, height)
    } else if width > height {
        let scaled = (MAX_EDGE_SIZE as u64) * (height as u64) / (width as u64);
        (MAX_EDGE_SIZE, scaled as u32)
    } else {
        let scaled = (MAX_EDGE_SIZE as u64) * (width as u64) / (height as u64);
        (scaled as u32, MAX_EDGE_SIZE)
    }
}

/// The label of an image's dimensions; see [`size_text`].
pub fn size_label(width: u32, height: u32) -> (label: String)
    ensures
        label@ == size_text(width, height),
{
    let mut label = String::new();
    push_decimal(&mut label, width as u64);
    label.append("x");
    proof {
        reveal_strlit("x");
    }
    push_decimal(&mut label, height as u64);
    label
}

/// Whether scaling an image of this width to `new_height` rows stays within
/// what can be allocated: the scaler works on an intermediate image of that
/// size with sixteen bytes per pixel.
pub open spec fn resample_fits(width: u32, new_height: u32) -> bool {
    16 * width * new_height <= isize::MAX
}

/// An image that is held in memory can be scaled to its thumbnail: the
/// scaler's intermediate image is never larger than 3840 bytes for each
/// pixel along the image's shorter edge.
pub proof fn lemma_resample_fits(width: u32, height: u32)
    requires
        pixel_bytes(width, height) <= usize::MAX,
        needs_resize(width, height),
    ensures
        resample_fits(width, thumbnail_size(width, height).1),
{
    let rows = thumbnail_size(width, height).1 as int;
    let short = if width > height {
        height as int
    } else {
        width as int
    };
    let long = if width > height {
        width as int
    } else {
        height as int
    };
    lemma_scaled_edge(short, long);
    assert(width * rows <= 240 * short) by (nonlinear_arith)
        requires
            width > height ==> rows == 240 * short / long && long == width && 0 <= 240 * short
                - (240 * short / long) * long,
            width <= height ==> rows == 240 && short == width,
    ;
    assert(short * short <= width * height) by (nonlinear_arith)
        requires
            0 <= short <= width,
            0 <= short <= height,
    ;
    assert(4 * (width * height) == 4 * width * height) by (nonlinear_arith);
    assert(usize::MAX == 0xffff_ffff || usize::MAX == 0xffff_ffff_ffff_ffff);
    if usize::MAX == 0xffff_ffff {
        assert(isize::MAX == 0x7fff_ffff);
        assert(short < 0x8000) by (nonlinear_arith)
            requires
                0 <= short,
                4 * (short * short) <= 0xffff_ffff,
        ;
    } else {
        assert(isize::MAX == 0x7fff_ffff_ffff_ffff);
    }
    assert(16 * width * rows == 16 * (width * rows)) by (nonlinear_arith);
}

/// A number as four bytes, most significant first.
pub open spec fn big_endian(n: u32) -> Seq<u8> {
    seq![
        (n / 0x100_0000) as u8,
        (n / 0x1_0000 % 0x100) as u8,
        (n / 0x100 % 0x100) as u8,
        (n % 0x100) as u8,
    ]
}

/// How every PNG file of a `width` x `height` image begins: the eight bytes
/// of the signature, the length (13) and the name (`IHDR`) of the header
/// chunk, then width and height.
pub open spec fn png_start(width: u32, height: u32) -> Seq<u8> {
    seq![137u8, 80, 78, 71, 13, 10, 26, 10, 0, 0, 0, 13, 73, 72, 68, 82] + big_endian(width)
        + big_endian(height)
}

/// `png` begins as a PNG file of a `width` x `height` image does.
pub open spec fn is_png_of_size(png: Seq<u8>, width: u32, height: u32) -> bool {
    png.len() >= 24 && png.take(24) == png_start(width, height)
}

/// The colours of a palette as plain values: red, green, blue and opacity of
/// each entry.
pub open spec fn colours(palette: Seq<[u8; 4]>) -> Seq<Seq<u8>> {
    palette.map_values(|c: [u8; 4]| c@)
}

/// What `lodepng::Encoder::encode` makes of a `width` x `height` image with
/// this palette and these palette indices, one per pixel: the PNG file that
/// it writes, or `None` where it refuses the image.
pub uninterp spec fn png_file(
    palette: Seq<Seq<u8>>,
    indices: Seq<u8>,
    width: u32,
    height: u32,
) -> Option<Seq<u8>>;

/// `text` shows, as a thumbnail, the `width` x `height` image with this
/// palette and these indices: there is one index for every pixel, and the
/// text is the base64 text of the PNG file of the image, which begins as a
/// PNG file of these dimensions does.
pub open spec fn pictures(
    text: Seq<char>,
    palette: Seq<Seq<u8>>,
    indices: Seq<u8>,
    width: u32,
    height: u32,
) -> bool {
    &&& indices.len() == width * height
    &&& png_file(palette, indices, width, height) matches Some(png)
    &&& is_png_of_size(png, width, height)
    &&& text == base64_text(png)
}

/// Whether a thumbnail can be made of the `width` x `height` image with this
/// palette and these indices: there is one index for every pixel, the PNG
/// writer accepts the image, and the file it writes is not too long to be
/// put as base64 text.
pub open spec fn can_picture(
    palette: Seq<Seq<u8>>,
    indices: Seq<u8>,
    width: u32,
    height: u32,
) -> bool {
    &&& indices.len() == width * height
    &&& png_file(palette, indices, width, height) matches Some(png)
    &&& encodable(png.len())
}

/// `text` is a thumbnail of `width` x `height` pixels: it shows some image
/// of these dimensions.
pub open spec fn is_thumbnail(text: Seq<char>, width: u32, height: u32) -> bool {
    exists|palette: Seq<Seq<u8>>, indices: Seq<u8>| #[trigger]
        pictures(text, palette, indices, width, height)
}

/// What `image::load_from_memory` makes of the bytes of an encoded image:
/// the width and height of the image that it decodes them to, or `None`
/// where it refuses them.
pub uninterp spec fn image_size(bytes: Seq<u8>) -> Option<(u32, u32)>;

/// Whether the bytes decode to an image.
pub open spec fn image_decodes(bytes: Seq<u8>) -> bool {
    image_size(bytes) is Some
}

/// `image::load_from_memory`, then `DynamicImage::to_rgba8` to get at the
/// pixels.  Returns width, height and the RGBA bytes.  Trusted: whether the
/// bytes decode, and to which dimensions, is a function of the bytes alone;
/// and an image buffer never holds fewer bytes than its dimensions ask for,
/// four per pixel.  Nothing is claimed about the pixels.
///
/// The first claim rests on two things.  The decoder runs with its default
/// limits, a fixed budget of 512 MiB.  And nothing in the process registers
/// a decoding hook with the `image` crate: it consults its process-wide
/// tables of hooks when it guesses the format, and this library registers
/// none.
#[verifier::external_body]
fn decode_rgba(bytes: &[u8]) -> (result: Result<(u32, u32, Vec<u8>), image::ImageError>)
    ensures
        match result {
            Ok((width, height, data)) => image_size(bytes@) == Some((width, height))
                && pixel_bytes(width, height) <= data@.len(),
            Err(_) => image_size(bytes@) is None,
        },
{
    let rgba = image::load_from_memory(bytes)?.to_rgba8();
    Ok((rgba.width(), rgba.height(), rgba.into_raw()))
}

/// `image::imageops::resize` with the Lanczos3 filter.  Returns width,
/// height and the RGBA bytes of the scaled image.  Trusted: the result has
/// the dimensions asked for and a buffer that covers them.  Nothing is
/// claimed about the pixels: the filter's weights are computed with
/// `f32::sin`, whose precision std leaves to the platform, so the pixels are
/// not a function of the arguments alone.  `requires` keeps the scaler's
/// buffers within what can be allocated, where it would panic otherwise.
#[verifier::external_body]
fn resample(src: &Raster, width: u32, height: u32) -> (out: (u32, u32, Vec<u8>))
    requires
        pixel_bytes(src@.width, src@.height) == src@.data.len(),
        width <= MAX_EDGE_SIZE,
        height <= MAX_EDGE_SIZE,
        resample_fits(src@.width, height),
    ensures
        out.0 == width,
        out.1 == height,
        pixel_bytes(width, height) <= out.2@.len(),
{
    let pixels = &src.data[..];
    let view: image::ImageBuffer<image::Rgba<u8>, &[u8]> =
        image::ImageBuffer::from_raw(src.width, src.height, pixels).unwrap();
    let out = image::imageops::resize(&view, width, height, image::imageops::FilterType::Lanczos3);
    (out.width(), out.height(), out.into_raw())
}

/// `imagequant`: `Attributes::new`, `new_image` with the default gamma,
/// `quantize` and `remapped`.  Returns the palette (red, green, blue and
/// opacity of each entry) and one palette index per pixel.  Trusted: on
/// success there are as many indices as the source has pixels.  Which palette
/// comes out is not claimed: the quantizer spreads its work over as many
/// threads as the machine offers, and its sums depend on that.
#[verifier::external_body]
fn quantize(src: &Raster) -> (result: Result<(Vec<[u8; 4]>, Vec<u8>), imagequant::Error>)
    requires
        pixel_bytes(src@.width, src@.height) == src@.data.len(),
    ensures
        result matches Ok((palette, indices)) ==> indices@.len() == src@.width * src@.height,
{
    let pixels: Vec<imagequant::RGBA> =
        src.data.chunks_exact(4).map(|c| [c[0], c[1], c[2], c[3]].into()).collect();
    let (w, h) = (src.width as usize, src.height as usize);
    let attrs = imagequant::Attributes::new();
    let mut image = attrs.new_image(pixels, w, h, Default::default())?;
    let (colors, indices) = attrs.quantize(&mut image)?.remapped(&mut image)?;
    Ok((colors.into_iter().map(Into::into).collect(), indices))
}

/// `lodepng::Encoder`: `set_palette`, then `encode` of the indices.
/// Trusted: whether the encoder writes a file, and which, is a function of
/// palette, indices and dimensions alone (given that memory can be had: the
/// encoder reports a failed allocation as an error); and what it writes
/// begins with the PNG signature and the header chunk, which holds the width
/// and the height it was given.  `requires` gives the encoder as many
/// indices as the dimensions ask for.
#[verifier::external_body]
fn encode_png(palette: &Vec<[u8; 4]>, indices: &Vec<u8>, width: u32, height: u32) -> (result:
    Result<Vec<u8>, lodepng::Error>)
    requires
        indices@.len() == width * height,
    ensures
        match result {
            Ok(png) => png_file(colours(palette@), indices@, width, height) == Some(png@)
                && is_png_of_size(png@, width, height),
            Err(_) => png_file(colours(palette@), indices@, width, height) is None,
        },
{
    let colors: Vec<lodepng::RGBA> = palette.iter().map(|c| (*c).into()).collect();
    let mut encoder = lodepng::Encoder::new();
    encoder.set_palette(&colors)?;
    encoder.encode(indices, width as usize, height as usize)
}

/// Scales an image down to its thumbnail and labels it with its full-size
/// dimensions.  An image within the bound on both edges is handed back as it
/// is.  Returns the thumbnail's pixels, the label, and the thumbnail's
/// dimensions.  What the pixels of a scaled image are is up to the scaler.
pub fn resize_img(img: Raster) -> (result: (Raster, String, (usize, usize)))
    ensures
        (result.0@.width, result.0@.height) == thumbnail_size(img@.width, img@.height),
        result.0@.data.len() == pixel_bytes(result.0@.width, result.0@.height),
        !needs_resize(img@.width, img@.height) ==> result.0 == img,
        result.1@ == size_text(img@.width, img@.height),
        result.2 == (result.0@.width as usize, result.0@.height as usize),
{
    proof {
        use_type_invariant(&img);
    }
    let label = size_label(img.width, img.height);
    let (new_width, new_height) = thumbnail_dimensions(img.width, img.height);
    if img.width > MAX_EDGE_SIZE || img.height > MAX_EDGE_SIZE {
        let held = img.data.len();
        assert(held == pixel_bytes(img.width, img.height));
        proof {
            lemma_resample_fits(img.width, img.height);
        }
        let (width, height, data) = resample(&img, new_width, new_height);
        let out = Raster::covering(width, height, data);
        return (out, label, (new_width as usize, new_height as usize));
    }
    (img, label, (new_width as usize, new_height as usize))
}

/// The thumbnail text for the bytes of a PNG: their base64 encoding.
pub fn thumbnail_text(png: &[u8]) -> (result: Result<String, CompressError>)
    ensures
        match result {
            Ok(text) => encodable(png@.len()) && text@ == base64_text(png@),
            Err(e) => e == CompressError::Encode && !encodable(png@.len()),
        },
{
    match to_base64(png) {
        Some(text) => Ok(text),
        None => Err(CompressError::Encode),
    }
}

/// The thumbnail that shows a quantized image: its PNG file as base64 text.
/// A thumbnail is owed exactly where one can be made; see [`can_picture`]
/// and [`pictures`].
pub fn encode_thumbnail(
    palette: &Vec<[u8; 4]>,
    indices: &Vec<u8>,
    width: u32,
    height: u32,
) -> (result: Result<String, CompressError>)
    ensures
        result is Ok <==> can_picture(colours(palette@), indices@, width, height),
        match result {
            Ok(text) => pictures(text@, colours(palette@), indices@, width, height),
            Err(e) => e == CompressError::Encode,
        },
{
    assert(0 <= width * height <= 0xffff_ffff * 0xffff_ffff) by (nonlinear_arith)
        requires
            0 <= width <= 0xffff_ffff,
            0 <= height <= 0xffff_ffff,
    ;
    if indices.len() as u64 != (width as u64) * (height as u64) {
        return Err(CompressError::Encode);
    }
    match encode_png(palette, indices, width, height) {
        Ok(png) => thumbnail_text(png.as_slice()),
        Err(_) => Err(CompressError::Encode),
    }
}

/// Whether the thumbnail of an image of these dimensions has no pixels: the
/// image is empty, or so narrow that its shorter edge scales to nothing.
pub open spec fn vanishes(width: u32, height: u32) -> bool {
    thumbnail_size(width, height).0 == 0 || thumbnail_size(width, height).1 == 0
}

/// Compresses pixels into a thumbnail: scales them down where an edge is
/// above the bound, quantizes to an adaptive palette, writes an indexed PNG
/// and encodes it as base64.  Returns the thumbnail and the label of the
/// full-size dimensions.
///
/// An image whose thumbnail has no pixels is refused as `Empty`, and no
/// other is.  For every other image the codecs decide between a failure of
/// theirs and a thumbnail, which then is a PNG file of the dimensions that
/// [`thumbnail_size`] gives; its pixels are theirs as well.
pub fn compress(img: Raster) -> (result: Result<(String, String), CompressError>)
    ensures
        vanishes(img@.width, img@.height) <==> result == Err::<(String, String), CompressError>(
            CompressError::Empty,
        ),
        result matches Err(e) ==> e != CompressError::Decode,
        result matches Ok((thumbnail, label)) ==> compressed_as(
            thumbnail@,
            label@,
            img@.width,
            img@.height,
        ),
{
    let (small, label, _) = resize_img(img);
    proof {
        use_type_invariant(&small);
    }
    if small.width == 0 || small.height == 0 {
        return Err(CompressError::Empty);
    }
    let (palette, indices) = match quantize(&small) {
        Ok(quantized) => quantized,
        Err(_) => {
            return Err(CompressError::Quantize);
        },
    };
    match encode_thumbnail(&palette, &indices, small.width, small.height) {
        Ok(thumbnail) => Ok((thumbnail, label)),
        Err(e) => Err(e),
    }
}

/// `thumbnail` and `label` are what compressing a `width` x `height` image
/// gives: the label names the dimensions, and the thumbnail is a PNG file of
/// the dimensions that [`thumbnail_size`] gives for them.
pub open spec fn compressed_as(
    thumbnail: Seq<char>,
    label: Seq<char>,
    width: u32,
    height: u32,
) -> bool {
    &&& label == size_text(width, height)
    &&& is_thumbnail(
        thumbnail,
        thumbnail_size(width, height).0,
        thumbnail_size(width, height).1,
    )
}

/// Compresses an encoded image (TIFF, PNG, ...) into a thumbnail; see
/// [`compress`].
///
/// Bytes that do not decode give `Decode`, and nothing else does.  Bytes
/// that decode give `Empty` exactly where the thumbnail of their dimensions
/// has no pixels.  For all other bytes the codecs decide between a failure
/// of theirs and a thumbnail, which then comes with the label of the
/// dimensions and as a PNG file of the dimensions that [`thumbnail_size`]
/// gives for them.
pub fn optimize_img(img_bytes: &[u8]) -> (result: Result<(String, String), CompressError>)
    ensures
        result == Err::<(String, String), CompressError>(CompressError::Decode) <==> !image_decodes(
            img_bytes@,
        ),
        image_size(img_bytes@) matches Some((width, height)) ==> {
            &&& result == Err::<(String, String), CompressError>(CompressError::Empty)
                <==> vanishes(width, height)
            &&& result matches Ok((thumbnail, label)) ==> compressed_as(
                thumbnail@,
                label@,
                width,
                height,
            )
        },
{
    match decode_rgba(img_bytes) {
        Ok((width, height, data)) => compress(Raster::covering(width, height, data)),
        Err(_) => Err(CompressError::Decode),
    }
}

} // verus!
