//! Rendering of raster icons into premultiplied RGBA buffers.

use vstd::prelude::*;

verus! {

#[verifier::external_type_specification]
#[verifier::external_body]
pub struct ExImageError(image::ImageError);

#[verifier::external_type_specification]
#[verifier::external_body]
pub struct ExIoError(std::io::Error);

/// Icon loading error.
#[derive(Debug)]
pub enum Error {
    /// The raster bytes could not be decoded.
    Image(image::ImageError),
    /// The vector rasterizer failed, with its message.
    Svg(String),
    /// The icon file could not be read.
    Io(std::io::Error),
    /// No theme directory holds an icon of that name.
    NotFound,
    /// The content handed over does not have the format that the index recorded.
    UnsupportedFormat,
    /// The vector rasterizer returned other than a square buffer of the requested size.
    VectorSize,
}

/// Why the file of a found icon could not be read or rasterized.
#[derive(Debug)]
pub enum ReadError {
    /// The file could not be read.
    Io(std::io::Error),
    /// The vector rasterizer failed, with its message.
    Svg(String),
}

impl From<image::ImageError> for Error {
    fn from(error: image::ImageError) -> (r: Error) {
        Error::Image(error)
    }
}

impl vstd::std_specs::convert::FromSpecImpl<image::ImageError> for Error {
    open spec fn obeys_from_spec() -> bool {
        true
    }

    open spec fn from_spec(error: image::ImageError) -> Error {
        Error::Image(error)
    }
}

impl From<std::io::Error> for Error {
    fn from(error: std::io::Error) -> (r: Error) {
        Error::Io(error)
    }
}

impl vstd::std_specs::convert::FromSpecImpl<std::io::Error> for Error {
    open spec fn obeys_from_spec() -> bool {
        true
    }

    open spec fn from_spec(error: std::io::Error) -> Error {
        Error::Io(error)
    }
}

impl From<ReadError> for Error {
    fn from(error: ReadError) -> (r: Error) {
        match error {
            ReadError::Io(e) => Error::Io(e),
            ReadError::Svg(m) => Error::Svg(m),
        }
    }
}

impl vstd::std_specs::convert::FromSpecImpl<ReadError> for Error {
    open spec fn obeys_from_spec() -> bool {
        true
    }

    open spec fn from_spec(error: ReadError) -> Error {
        match error {
            ReadError::Io(e) => Error::Io(e),
            ReadError::Svg(m) => Error::Svg(m),
        }
    }
}

/// Rendered icon: RGBA8 pixels with premultiplied alpha, rows of `width` pixels.
#[derive(Debug, Clone)]
pub struct Icon {
    pub data: Vec<u8>,
    pub width: usize,
    /// The icon name it was rendered from, kept to render it again at another size.
    pub name: String,
}

/// `c * a / 255`, rounded to the nearest integer.
pub open spec fn premultiplied_channel(c: u8, a: u8) -> u8 {
    ((c as int * a as int + 127) / 255) as u8
}

/// Every colour channel of each RGBA pixel scaled by the pixel's alpha; alpha kept.
pub open spec fn premultiplied(px: Seq<u8>) -> Seq<u8> {
    Seq::new(
        px.len(),
        |i: int|
            if i % 4 == 3 {
                px[i]
            } else {
                premultiplied_channel(px[i], px[i - i % 4 + 3])
            },
    )
}

/// The premultiplied channel is the integer nearest to `c * a / 255`: its distance
/// to that quotient is below one half.
pub proof fn premultiplied_channel_is_nearest(c: u8, a: u8)
    ensures
        premultiplied_channel(c, a) as int * 255 - (c as int * a as int) <= 127,
        (c as int * a as int) - premultiplied_channel(c, a) as int * 255 <= 127,
{
    let p = c as int * a as int;
    assert(0 <= p <= 255 * 255) by (nonlinear_arith)
        requires
            p == c as int * a as int,
            0 <= c <= 255,
            0 <= a <= 255,
    ;
    let q = (p + 127) / 255;
    assert(q * 255 <= p + 127 < q * 255 + 255);
    assert(0 <= q <= 255);
}

fn premultiply_channel(c: u8, a: u8) -> (r: u8)
    ensures
        r == premultiplied_channel(c, a),
{
    assert(c as u32 * a as u32 <= 255 * 255) by (nonlinear_arith)
        requires
            c <= 255,
            a <= 255,
    ;
    let p: u32 = c as u32 * a as u32;
    ((p + 127) / 255) as u8
}

/// Premultiplies alpha in place on RGBA8 pixels.
pub fn premultiply(data: &mut Vec<u8>)
    requires
        old(data)@.len() % 4 == 0,
    ensures
        final(data)@ == premultiplied(old(data)@),
{
    let n = data.len();
    let mut i: usize = 0;
    while i < n
        invariant
            n == data@.len(),
            n == old(data)@.len(),
            n % 4 == 0,
            i % 4 == 0,
            i <= n,
            forall|j: int| 0 <= j < i ==> data@[j] == #[trigger] premultiplied(old(data)@)[j],
            forall|j: int| i <= j < n ==> data@[j] == old(data)@[j],
        decreases n - i,
    {
        let a = data[i + 3];
        let r = premultiply_channel(data[i], a);
        let g = premultiply_channel(data[i + 1], a);
        let b = premultiply_channel(data[i + 2], a);
        data.set(i, r);
        data.set(i + 1, g);
        data.set(i + 2, b);
        assert((i + 1) as int % 4 == 1 && (i + 2) as int % 4 == 2 && (i + 3) as int % 4 == 3);
        assert forall|j: int| 0 <= j < i + 4 implies data@[j] == #[trigger] premultiplied(
            old(data)@,
        )[j] by {
            if j >= i {
                assert(j - j % 4 + 3 == i + 3);
            }
        }
        i = i + 4;
    }
    assert(data@ =~= premultiplied(old(data)@));
}

/// The RGBA8 image that decoding `bytes` yields, as width, height and pixels, or
/// `None` where the decoder reads no image from them.
pub uninterp spec fn decoded_rgba(bytes: Seq<u8>) -> Option<(u32, u32, Seq<u8>)>;

/// Relies on image::load_from_memory, then DynamicImage::to_rgba8 and
/// ImageBuffer::into_raw: the decoded image as RGBA8 rows. The PNG decoder, the
/// one format enabled, refuses a zero width or height.
#[verifier::external_body]
fn decode_rgba(bytes: &[u8]) -> (r: Result<(u32, u32, Vec<u8>), image::ImageError>)
    ensures
        match r {
            Ok((w, h, px)) => decoded_rgba(bytes@) == Some((w, h, px@)) && w > 0 && h > 0
                && px@.len() == w * h * 4,
            Err(_) => decoded_rgba(bytes@) is None,
        },
{
    let image = image::load_from_memory(bytes)?.to_rgba8();
    Ok((image.width(), image.height(), image.into_raw()))
}

/// Relies on image::imageops::resize with FilterType::CatmullRom, which returns a
/// buffer of exactly the requested dimensions. Its pixels are computed in floating
/// point, so nothing is stated of them.
#[verifier::external_body]
fn resize_rgba(width: u32, height: u32, pixels: Vec<u8>, size: u32) -> (r: Vec<u8>)
    requires
        width > 0,
        height > 0,
        size > 0,
        pixels@.len() == width * height * 4,
        size * size * 4 <= usize::MAX,
    ensures
        r@.len() == size * size * 4,
{
    let source = image::RgbaImage::from_raw(width, height, pixels).unwrap();
    image::imageops::resize(&source, size, size, image::imageops::FilterType::CatmullRom).into_raw()
}

/// Whether a decoded bitmap is resampled: only where both of its dimensions differ
/// from the requested size. A bitmap that matches the size in one dimension keeps
/// its own dimensions, so it may come out other than square; this policy is kept
/// deliberately, and `render_raster` states its size only for the other bitmaps.
pub open spec fn needs_resize(width: u32, height: u32, size: u32) -> bool {
    width != size && height != size
}

/// Whether a decoded bitmap is resampled before premultiplication.
pub fn resize_needed(width: u32, height: u32, size: u32) -> (r: bool)
    ensures
        r == needs_resize(width, height, size),
{
    width != size && height != size
}

/// Whether `width` and `data` are a rendering of the raster icon held in `bytes`
/// at `size`: a bitmap that is resampled gives the premultiplied form of some
/// `size`×`size` pixel buffer; another gives its own pixels premultiplied.
pub open spec fn raster_rendered(bytes: Seq<u8>, size: u32, width: nat, data: Seq<u8>) -> bool {
    match decoded_rgba(bytes) {
        None => false,
        Some((w, h, px)) => if needs_resize(w, h, size) {
            width == size && data.len() == size * size * 4 && exists|q: Seq<u8>|
                q.len() == size * size * 4 && data == premultiplied(q)
        } else {
            width == w && data.len() == w * h * 4 && data == premultiplied(px)
        },
    }
}

/// Whether a rendering of the raster icon held in `bytes` at `size` is square at
/// that size: the bitmap is resampled, or already has that size.
pub open spec fn raster_square(bytes: Seq<u8>, size: u32) -> bool {
    match decoded_rgba(bytes) {
        None => false,
        Some((w, h, _)) => needs_resize(w, h, size) || (w == size && h == size),
    }
}

/// Whether a raster size request can be served within the address space.
pub open spec fn size_fits(size: u32) -> bool {
    0 < size && size * size * 4 <= usize::MAX
}

/// Decodes raster bytes, resamples them when needed, and premultiplies alpha.
pub fn render_raster(bytes: &[u8], size: u32, name: String) -> (r: Result<Icon, Error>)
    requires
        size_fits(size),
    ensures
        match r {
            Ok(icon) => raster_rendered(bytes@, size, icon.width as nat, icon.data@)
                && icon.name@ == name@ && (raster_square(bytes@, size) ==> icon.width == size
                && icon.data@.len() == size * size * 4),
            Err(e) => decoded_rgba(bytes@) is None && e is Image,
        },
{
    match decode_rgba(bytes) {
        Err(e) => Err(Error::Image(e)),
        Ok((w, h, px)) => {
            let (width, mut data) = if resize_needed(w, h, size) {
                (size as usize, resize_rgba(w, h, px, size))
            } else {
                (w as usize, px)
            };
            assert(data@.len() % 4 == 0) by (nonlinear_arith)
                requires
                    data@.len() == w * h * 4 || data@.len() == size * size * 4,
            ;
            let ghost resampled = data@;
            premultiply(&mut data);
            assert(data@.len() == resampled.len());
            Ok(Icon { data, width, name })
        },
    }
}

} // verus!
