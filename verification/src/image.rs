//! Images for a worksheet: recognising the file format from the first bytes
//! and reading the pixel dimensions and the resolution from the format's own
//! header fields.
//!
//! Four formats are known: PNG, JPEG, GIF and BMP. A resolution is kept as
//! the integer that the file stores together with its unit, so that nothing
//! is lost to rounding.

use vstd::prelude::*;
use vstd::string::*;
use crate::error::XlsxError;
use crate::registry::Descriptor;
use vstd::slice::slice_to_vec;

verus! {

/// The format of an image file.
#[derive(Clone, Copy, Debug, PartialEq, Eq, Structural)]
pub enum XlsxImageType {
    Unknown,
    Png,
    Jpg,
    Gif,
    Bmp,
}

impl XlsxImageType {
    /// The file extension under which an image of this format is stored in
    /// the package.
    pub open spec fn extension_text(&self) -> Seq<char> {
        match self {
            XlsxImageType::Unknown => "unknown"@,
            XlsxImageType::Png => "png"@,
            XlsxImageType::Jpg => "jpeg"@,
            XlsxImageType::Gif => "gif"@,
            XlsxImageType::Bmp => "bmp"@,
        }
    }

    /// The file extension under which an image of this format is stored in
    /// the package.
    pub fn extension(&self) -> (text: String)
        ensures
            text@ == self.extension_text(),
    {
        match self {
            XlsxImageType::Unknown => "unknown".to_owned(),
            XlsxImageType::Png => "png".to_owned(),
            XlsxImageType::Jpg => "jpeg".to_owned(),
            XlsxImageType::Gif => "gif".to_owned(),
            XlsxImageType::Bmp => "bmp".to_owned(),
        }
    }
}

/// The unit of length of a resolution.
#[derive(Clone, Copy, Debug, PartialEq, Eq, Structural)]
pub enum DensityUnit {
    /// Pixels per inch.
    Inch,
    /// Pixels per centimetre: one such pixel is 2.54 per inch.
    Centimeter,
    /// Pixels per metre: one such pixel is 0.0254 per inch.
    Meter,
}

/// A resolution as an image file stores it: a count of pixels per unit.
#[derive(Clone, Copy, Debug, PartialEq, Eq, Structural)]
pub struct Resolution {
    pub value: u32,
    pub unit: DensityUnit,
}

/// The resolution that stands for "not stated": 96 pixels per inch.
pub open spec fn default_resolution() -> Resolution {
    Resolution { value: 96, unit: DensityUnit::Inch }
}

/// What the header fields of an image say.
#[derive(Clone, Copy, Debug, PartialEq, Eq, Structural)]
pub struct ImageMetadata {
    pub image_type: XlsxImageType,
    pub width: u32,
    pub height: u32,
    pub width_dpi: Resolution,
    pub height_dpi: Resolution,
    pub has_default_dpi: bool,
}

/// The metadata before anything was read: no format, no dimensions, the
/// default resolution.
pub open spec fn blank_metadata() -> ImageMetadata {
    ImageMetadata {
        image_type: XlsxImageType::Unknown,
        width: 0,
        height: 0,
        width_dpi: default_resolution(),
        height_dpi: default_resolution(),
        has_default_dpi: true,
    }
}

/// The two bytes at `offset`, most significant first.
pub open spec fn u16_from_be(data: Seq<u8>, offset: int) -> int {
    data[offset] as int * 0x100 + data[offset + 1] as int
}

/// The two bytes at `offset`, least significant first.
pub open spec fn u16_from_le(data: Seq<u8>, offset: int) -> int {
    data[offset] as int + data[offset + 1] as int * 0x100
}

/// The four bytes at `offset`, most significant first.
pub open spec fn u32_from_be(data: Seq<u8>, offset: int) -> int {
    data[offset] as int * 0x100_0000 + data[offset + 1] as int * 0x1_0000 + data[offset + 2] as int
        * 0x100 + data[offset + 3] as int
}

/// The four bytes at `offset`, least significant first.
pub open spec fn u32_from_le(data: Seq<u8>, offset: int) -> int {
    data[offset] as int + data[offset + 1] as int * 0x100 + data[offset + 2] as int * 0x1_0000
        + data[offset + 3] as int * 0x100_0000
}

/// Reads a big-endian 16-bit integer.
pub fn unpack_u16_from_be_bytes(data: &[u8], offset: usize) -> (value: u16)
    requires
        offset + 2 <= data@.len(),
    ensures
        value == u16_from_be(data@, offset as int),
{
    data[offset] as u16 * 0x100 + data[offset + 1] as u16
}

/// Reads a little-endian 16-bit integer.
pub fn unpack_u16_from_le_bytes(data: &[u8], offset: usize) -> (value: u16)
    requires
        offset + 2 <= data@.len(),
    ensures
        value == u16_from_le(data@, offset as int),
{
    data[offset] as u16 + data[offset + 1] as u16 * 0x100
}

/// Reads a big-endian 32-bit integer.
pub fn unpack_u32_from_be_bytes(data: &[u8], offset: usize) -> (value: u32)
    requires
        offset + 4 <= data@.len(),
    ensures
        value == u32_from_be(data@, offset as int),
{
    data[offset] as u32 * 0x100_0000 + data[offset + 1] as u32 * 0x1_0000 + data[offset + 2] as u32
        * 0x100 + data[offset + 3] as u32
}

/// Reads a little-endian 32-bit integer.
pub fn unpack_u32_from_le_bytes(data: &[u8], offset: usize) -> (value: u32)
    requires
        offset + 4 <= data@.len(),
    ensures
        value == u32_from_le(data@, offset as int),
{
    data[offset] as u32 + data[offset + 1] as u32 * 0x100 + data[offset + 2] as u32 * 0x1_0000
        + data[offset + 3] as u32 * 0x100_0000
}

/// Whether the four bytes at `offset` are `a b c d`.
pub open spec fn marker_at(data: Seq<u8>, offset: int, a: u8, b: u8, c: u8, d: u8) -> bool {
    data[offset] == a && data[offset + 1] == b && data[offset + 2] == c && data[offset + 3] == d
}

fn has_marker(data: &[u8], offset: usize, a: u8, b: u8, c: u8, d: u8) -> (r: bool)
    requires
        offset + 4 <= data@.len(),
    ensures
        r == marker_at(data@, offset as int, a, b, c, d),
{
    data[offset] == a && data[offset + 1] == b && data[offset + 2] == c && data[offset + 3] == d
}

/// The format that the first bytes of `data` announce. A PNG file has
/// `PNG` at offset 1, a JPEG file begins with `FF D8`, a BMP file with `BM`
/// and a GIF file with `GIF8`; a file of fewer than four bytes has no format.
pub open spec fn image_type_of(data: Seq<u8>) -> XlsxImageType {
    if data.len() < 4 {
        XlsxImageType::Unknown
    } else if data[1] == 0x50 && data[2] == 0x4E && data[3] == 0x47 {
        XlsxImageType::Png
    } else if data[0] == 0xFF && data[1] == 0xD8 {
        XlsxImageType::Jpg
    } else if data[0] == 0x42 && data[1] == 0x4D {
        XlsxImageType::Bmp
    } else if marker_at(data, 0, 0x47, 0x49, 0x46, 0x38) {
        XlsxImageType::Gif
    } else {
        XlsxImageType::Unknown
    }
}

/// Where the PNG chunk after the one at `offset` begins: past the length
/// field, the name, the content and the checksum.
pub open spec fn png_next_chunk(data: Seq<u8>, offset: int) -> int {
    offset + u32_from_be(data, offset) + 12
}

/// What the metadata `m` becomes by the PNG chunk at `offset`, or `None`
/// where reading ends with this chunk.
///
/// `IHDR` holds the width and the height. `pHYs` holds the resolution of
/// each axis and a unit; with unit 1 it is in pixels per metre, else it is
/// ignored. Reading ends at `IEND` and at a chunk whose fields lie beyond
/// the end of the data.
pub open spec fn png_chunk(data: Seq<u8>, offset: int, m: ImageMetadata) -> Option<ImageMetadata> {
    if marker_at(data, offset + 4, 0x49, 0x48, 0x44, 0x52) {
        if offset + 16 > data.len() {
            None
        } else {
            Some(
                ImageMetadata {
                    width: u32_from_be(data, offset + 8) as u32,
                    height: u32_from_be(data, offset + 12) as u32,
                    ..m
                },
            )
        }
    } else if marker_at(data, offset + 4, 0x70, 0x48, 0x59, 0x73) {
        if offset + 17 > data.len() {
            None
        } else if data[offset + 16] == 1 {
            Some(
                ImageMetadata {
                    width_dpi: Resolution {
                        value: u32_from_be(data, offset + 8) as u32,
                        unit: DensityUnit::Meter,
                    },
                    height_dpi: Resolution {
                        value: u32_from_be(data, offset + 12) as u32,
                        unit: DensityUnit::Meter,
                    },
                    has_default_dpi: false,
                    ..m
                },
            )
        } else {
            Some(m)
        }
    } else if marker_at(data, offset + 4, 0x49, 0x45, 0x4E, 0x44) {
        None
    } else {
        Some(m)
    }
}

/// What the metadata `m` becomes by reading the PNG chunks of `data` from
/// `offset` on.
///
/// A chunk is a length of four bytes, a name of four bytes, the content and
/// a checksum. Reading ends where a chunk says so and where fewer than the
/// eight bytes of a length and a name are left.
pub open spec fn png_scan(data: Seq<u8>, offset: int, m: ImageMetadata) -> ImageMetadata
    decreases data.len() - offset,
{
    if offset < 0 || offset + 8 > data.len() {
        m
    } else {
        match png_chunk(data, offset, m) {
            None => m,
            Some(after) => if png_next_chunk(data, offset) + 8 > data.len() {
                after
            } else {
                png_scan(data, png_next_chunk(data, offset), after)
            },
        }
    }
}

/// The metadata of a PNG file: what reading its chunks from offset 8 on,
/// past the signature, gives.
pub open spec fn png_metadata(data: Seq<u8>) -> ImageMetadata {
    png_scan(data, 8, ImageMetadata { image_type: XlsxImageType::Png, ..blank_metadata() })
}

/// Whether `marker` opens a JPEG frame header, which holds the dimensions:
/// `FFC0` to `FFCF` without `FFC4`, `FFC8` and `FFCC`.
pub open spec fn is_jpeg_frame_marker(marker: int) -> bool {
    0xFFC0 <= marker <= 0xFFCF && marker != 0xFFC4 && marker != 0xFFC8 && marker != 0xFFCC
}

/// A JPEG resolution that is usable: a resolution of zero, or of one pixel
/// per inch, is taken as not stated.
pub open spec fn jpeg_checked_resolution(r: Resolution) -> Resolution {
    if r.value == 0 || (r.unit == DensityUnit::Inch && r.value == 1) {
        default_resolution()
    } else {
        r
    }
}

/// What the metadata `m` becomes by the JFIF header segment at `offset`:
/// unit 1 gives pixels per inch, unit 2 pixels per centimetre, any other
/// unit leaves the resolution as it was; then unusable values are replaced.
pub open spec fn jpeg_density(data: Seq<u8>, offset: int, m: ImageMetadata) -> ImageMetadata {
    let units = data[offset + 11];
    let x = u16_from_be(data, offset + 12) as u32;
    let y = u16_from_be(data, offset + 14) as u32;
    let stated = if units == 1 {
        ImageMetadata {
            width_dpi: Resolution { value: x, unit: DensityUnit::Inch },
            height_dpi: Resolution { value: y, unit: DensityUnit::Inch },
            ..m
        }
    } else if units == 2 {
        ImageMetadata {
            width_dpi: Resolution { value: x, unit: DensityUnit::Centimeter },
            height_dpi: Resolution { value: y, unit: DensityUnit::Centimeter },
            has_default_dpi: false,
            ..m
        }
    } else {
        m
    };
    ImageMetadata {
        width_dpi: jpeg_checked_resolution(stated.width_dpi),
        height_dpi: jpeg_checked_resolution(stated.height_dpi),
        ..stated
    }
}

/// Where the JPEG segment after the one at `offset` begins: past the marker
/// and as many bytes as the length field says.
pub open spec fn jpeg_next_segment(data: Seq<u8>, offset: int) -> int {
    offset + u16_from_be(data, offset + 2) + 2
}

/// What the metadata `m` becomes by the JPEG segment at `offset`, or `None`
/// where reading ends with this segment.
///
/// A frame header holds the height and the width; the JFIF header `FFE0`
/// holds the resolution. Reading ends at the start of the scan data,
/// `FFDA`, and at a segment whose fields lie beyond the end of the data.
pub open spec fn jpeg_segment(data: Seq<u8>, offset: int, m: ImageMetadata) -> Option<
    ImageMetadata,
> {
    let marker = u16_from_be(data, offset);
    if is_jpeg_frame_marker(marker) {
        if offset + 9 > data.len() {
            None
        } else {
            Some(
                ImageMetadata {
                    height: u16_from_be(data, offset + 5) as u32,
                    width: u16_from_be(data, offset + 7) as u32,
                    ..m
                },
            )
        }
    } else if marker == 0xFFE0 {
        if offset + 16 > data.len() {
            None
        } else {
            Some(jpeg_density(data, offset, m))
        }
    } else if marker == 0xFFDA {
        None
    } else {
        Some(m)
    }
}

/// What the metadata `m` becomes by reading the JPEG segments of `data`
/// from `offset` on.
///
/// A segment is a marker of two bytes, a length of two bytes and the
/// content. Reading ends where a segment says so and where fewer than the
/// four bytes of a marker and a length are left.
pub open spec fn jpeg_scan(data: Seq<u8>, offset: int, m: ImageMetadata) -> ImageMetadata
    decreases data.len() - offset,
{
    if offset < 0 || offset + 4 > data.len() {
        m
    } else {
        match jpeg_segment(data, offset, m) {
            None => m,
            Some(after) => if jpeg_next_segment(data, offset) + 4 > data.len() {
                after
            } else {
                jpeg_scan(data, jpeg_next_segment(data, offset), after)
            },
        }
    }
}

/// The metadata of a JPEG file: what reading its segments from offset 2 on,
/// past the signature, gives.
pub open spec fn jpeg_metadata(data: Seq<u8>) -> ImageMetadata {
    jpeg_scan(data, 2, ImageMetadata { image_type: XlsxImageType::Jpg, ..blank_metadata() })
}

/// The metadata of a BMP file: width and height from the fixed header
/// fields at offsets 18 and 22, and always the default resolution. A file
/// too short to hold them has no dimensions.
pub open spec fn bmp_metadata(data: Seq<u8>) -> ImageMetadata {
    if data.len() < 26 {
        ImageMetadata { image_type: XlsxImageType::Bmp, ..blank_metadata() }
    } else {
        ImageMetadata {
            image_type: XlsxImageType::Bmp,
            width: u32_from_le(data, 18) as u32,
            height: u32_from_le(data, 22) as u32,
            ..blank_metadata()
        }
    }
}

/// The metadata of a GIF file: width and height from the logical screen
/// descriptor at offsets 6 and 8, and always the default resolution. A file
/// too short to hold them has no dimensions.
pub open spec fn gif_metadata(data: Seq<u8>) -> ImageMetadata {
    if data.len() < 10 {
        ImageMetadata { image_type: XlsxImageType::Gif, ..blank_metadata() }
    } else {
        ImageMetadata {
            image_type: XlsxImageType::Gif,
            width: u16_from_le(data, 6) as u32,
            height: u16_from_le(data, 8) as u32,
            ..blank_metadata()
        }
    }
}

/// The metadata of an image file of any format.
pub open spec fn image_metadata(data: Seq<u8>) -> ImageMetadata {
    match image_type_of(data) {
        XlsxImageType::Png => png_metadata(data),
        XlsxImageType::Jpg => jpeg_metadata(data),
        XlsxImageType::Bmp => bmp_metadata(data),
        XlsxImageType::Gif => gif_metadata(data),
        XlsxImageType::Unknown => blank_metadata(),
    }
}

/// Whether an image with the bytes `data` can be placed in a worksheet:
/// its format is known and neither dimension is zero.
pub open spec fn image_is_usable(data: Seq<u8>) -> bool {
    image_type_of(data) != XlsxImageType::Unknown && image_metadata(data).width != 0
        && image_metadata(data).height != 0
}

/// An image to place in a worksheet: the bytes of the file and what its
/// header says.
#[derive(Clone, Debug)]
pub struct Image {
    metadata: ImageMetadata,
    alt_text: String,
    data: Vec<u8>,
}

impl Image {
    /// What the header of the image says.
    pub closed spec fn metadata(&self) -> ImageMetadata {
        self.metadata
    }

    /// The bytes of the image file.
    pub closed spec fn bytes(&self) -> Seq<u8> {
        self.data@
    }

    /// The alternative text of the image.
    pub closed spec fn alt_text_view(&self) -> Seq<char> {
        self.alt_text@
    }

    /// An image from the bytes of an image file.
    ///
    /// Fails with `UnknownImageType` when the bytes begin with no known
    /// signature, and with `ImageDimensionError` when the format is known
    /// but the width or the height is zero or could not be read.
    pub fn new(data: Vec<u8>) -> (result: Result<Image, XlsxError>)
        ensures
            result is Ok <==> image_is_usable(data@),
            result matches Ok(image) ==> {
                &&& image.metadata() == image_metadata(data@)
                &&& image.bytes() == data@
                &&& image.alt_text_view() == Seq::<char>::empty()
            },
            result matches Err(e) ==> e == if image_type_of(data@) == XlsxImageType::Unknown {
                XlsxError::UnknownImageType
            } else {
                XlsxError::ImageDimensionError
            },
    {
        let metadata = Self::process_image(data.as_slice());
        if metadata.image_type == XlsxImageType::Unknown {
            return Err(XlsxError::UnknownImageType);
        }
        if metadata.width == 0 || metadata.height == 0 {
            return Err(XlsxError::ImageDimensionError);
        }
        Ok(Image { metadata, alt_text: String::new(), data })
    }

    /// Sets the alternative text of the image.
    pub fn set_alt_text(&mut self, alt_text: &str)
        ensures
            final(self).alt_text_view() == alt_text@,
            final(self).metadata() == old(self).metadata(),
            final(self).bytes() == old(self).bytes(),
    {
        self.alt_text = alt_text.to_owned();
    }

    /// The width of the image in pixels.
    pub fn width(&self) -> (width: u32)
        ensures
            width == self.metadata().width,
    {
        self.metadata.width
    }

    /// The height of the image in pixels.
    pub fn height(&self) -> (height: u32)
        ensures
            height == self.metadata().height,
    {
        self.metadata.height
    }

    /// The horizontal resolution of the image.
    pub fn width_dpi(&self) -> (dpi: Resolution)
        ensures
            dpi == self.metadata().width_dpi,
    {
        self.metadata.width_dpi
    }

    /// The vertical resolution of the image.
    pub fn height_dpi(&self) -> (dpi: Resolution)
        ensures
            dpi == self.metadata().height_dpi,
    {
        self.metadata.height_dpi
    }

    /// Whether the file states no resolution of its own.
    pub fn has_default_dpi(&self) -> (flag: bool)
        ensures
            flag == self.metadata().has_default_dpi,
    {
        self.metadata.has_default_dpi
    }

    /// The format of the image.
    pub fn image_type(&self) -> (image_type: XlsxImageType)
        ensures
            image_type == self.metadata().image_type,
    {
        self.metadata.image_type
    }

    /// The alternative text of the image.
    pub fn alt_text(&self) -> (text: &String)
        ensures
            text@ == self.alt_text_view(),
    {
        &self.alt_text
    }

    /// The bytes of the image file, as they go into the package.
    pub fn data(&self) -> (data: &Vec<u8>)
        ensures
            data@ == self.bytes(),
    {
        &self.data
    }

    /// The image as one of the media of a package.
    pub open spec fn media(&self) -> MediaView {
        MediaView { image_type: self.metadata().image_type, data: self.bytes() }
    }

    /// The image as one of the media of a package.
    pub fn to_media(&self) -> (media: Media)
        ensures
            media@ == self.media(),
    {
        Media { image_type: self.metadata.image_type, data: slice_to_vec(self.data.as_slice()) }
    }

    /// A copy of the image.
    pub fn duplicate(&self) -> (copy: Image)
        ensures
            copy.metadata() == self.metadata(),
            copy.bytes() == self.bytes(),
            copy.alt_text_view() == self.alt_text_view(),
    {
        Image {
            metadata: self.metadata,
            alt_text: self.alt_text.clone(),
            data: slice_to_vec(self.data.as_slice()),
        }
    }

    /// Recognises the format of an image file and reads its metadata.
    pub fn process_image(data: &[u8]) -> (metadata: ImageMetadata)
        ensures
            metadata == image_metadata(data@),
            metadata.image_type == image_type_of(data@),
    {
        proof {
            lemma_metadata_type(data@);
        }
        if data.len() < 4 {
            ImageMetadata {
                image_type: XlsxImageType::Unknown,
                width: 0,
                height: 0,
                width_dpi: Resolution { value: 96, unit: DensityUnit::Inch },
                height_dpi: Resolution { value: 96, unit: DensityUnit::Inch },
                has_default_dpi: true,
            }
        } else if data[1] == 0x50 && data[2] == 0x4E && data[3] == 0x47 {
            Self::process_png(data)
        } else if unpack_u16_from_be_bytes(data, 0) == 0xFFD8 {
            Self::process_jpg(data)
        } else if data[0] == 0x42 && data[1] == 0x4D {
            Self::process_bmp(data)
        } else if has_marker(data, 0, 0x47, 0x49, 0x46, 0x38) {
            Self::process_gif(data)
        } else {
            ImageMetadata {
                image_type: XlsxImageType::Unknown,
                width: 0,
                height: 0,
                width_dpi: Resolution { value: 96, unit: DensityUnit::Inch },
                height_dpi: Resolution { value: 96, unit: DensityUnit::Inch },
                has_default_dpi: true,
            }
        }
    }

    /// Reads the width, the height and the resolution of a PNG file.
    pub fn process_png(data: &[u8]) -> (metadata: ImageMetadata)
        ensures
            metadata == png_metadata(data@),
    {
        let data_length = data.len();
        let mut offset: usize = 8;
        let mut current = ImageMetadata {
            image_type: XlsxImageType::Png,
            width: 0,
            height: 0,
            width_dpi: Resolution { value: 96, unit: DensityUnit::Inch },
            height_dpi: Resolution { value: 96, unit: DensityUnit::Inch },
            has_default_dpi: true,
        };
        let mut done = false;
        while !done
            invariant
                data_length == data@.len(),
                png_scan(data@, offset as int, current) == png_metadata(data@),
                done ==> current == png_metadata(data@),
            decreases (if done { 0int } else { 1int }) + (if offset < data_length { data_length - offset } else { 0int }),
        {
            if data_length < 8 || offset > data_length - 8 {
                done = true;
            } else {
                let length = unpack_u32_from_be_bytes(data, offset);
                let remaining = data_length - offset;
                let mut stop = false;
                if has_marker(data, offset + 4, 0x49, 0x48, 0x44, 0x52) {
                    if remaining < 16 {
                        stop = true;
                    } else {
                        current.width = unpack_u32_from_be_bytes(data, offset + 8);
                        current.height = unpack_u32_from_be_bytes(data, offset + 12);
                    }
                } else if has_marker(data, offset + 4, 0x70, 0x48, 0x59, 0x73) {
                    if remaining < 17 {
                        stop = true;
                    } else if data[offset + 16] == 1 {
                        current.width_dpi = Resolution {
                            value: unpack_u32_from_be_bytes(data, offset + 8),
                            unit: DensityUnit::Meter,
                        };
                        current.height_dpi = Resolution {
                            value: unpack_u32_from_be_bytes(data, offset + 12),
                            unit: DensityUnit::Meter,
                        };
                        current.has_default_dpi = false;
                    }
                } else if has_marker(data, offset + 4, 0x49, 0x45, 0x4E, 0x44) {
                    stop = true;
                }
                if stop {
                    done = true;
                } else if remaining < 20 || length as usize > remaining - 20 {
                    // Too little is left for another chunk.
                    done = true;
                } else {
                    offset = offset + length as usize + 12;
                }
            }
        }
        current
    }

    /// Reads the width, the height and the resolution of a JPEG file.
    pub fn process_jpg(data: &[u8]) -> (metadata: ImageMetadata)
        ensures
            metadata == jpeg_metadata(data@),
    {
        let data_length = data.len();
        let mut offset: usize = 2;
        let mut current = ImageMetadata {
            image_type: XlsxImageType::Jpg,
            width: 0,
            height: 0,
            width_dpi: Resolution { value: 96, unit: DensityUnit::Inch },
            height_dpi: Resolution { value: 96, unit: DensityUnit::Inch },
            has_default_dpi: true,
        };
        let mut done = false;
        while !done
            invariant
                data_length == data@.len(),
                jpeg_scan(data@, offset as int, current) == jpeg_metadata(data@),
                done ==> current == jpeg_metadata(data@),
            decreases (if done { 0int } else { 1int }) + (if offset < data_length { data_length - offset } else { 0int }),
        {
            if data_length < 4 || offset > data_length - 4 {
                done = true;
            } else {
                let marker = unpack_u16_from_be_bytes(data, offset);
                let length = unpack_u16_from_be_bytes(data, offset + 2);
                let remaining = data_length - offset;
                let mut stop = false;
                if 0xFFC0 <= marker && marker <= 0xFFCF && marker != 0xFFC4 && marker != 0xFFC8
                    && marker != 0xFFCC {
                    if remaining < 9 {
                        stop = true;
                    } else {
                        current.height = unpack_u16_from_be_bytes(data, offset + 5) as u32;
                        current.width = unpack_u16_from_be_bytes(data, offset + 7) as u32;
                    }
                } else if marker == 0xFFE0 {
                    if remaining < 16 {
                        stop = true;
                    } else {
                        let units = data[offset + 11];
                        let x_density = unpack_u16_from_be_bytes(data, offset + 12) as u32;
                        let y_density = unpack_u16_from_be_bytes(data, offset + 14) as u32;
                        if units == 1 {
                            current.width_dpi = Resolution { value: x_density, unit: DensityUnit::Inch };
                            current.height_dpi = Resolution { value: y_density, unit: DensityUnit::Inch };
                        }
                        if units == 2 {
                            current.width_dpi = Resolution {
                                value: x_density,
                                unit: DensityUnit::Centimeter,
                            };
                            current.height_dpi = Resolution {
                                value: y_density,
                                unit: DensityUnit::Centimeter,
                            };
                            current.has_default_dpi = false;
                        }
                        current.width_dpi = checked_resolution(current.width_dpi);
                        current.height_dpi = checked_resolution(current.height_dpi);
                    }
                } else if marker == 0xFFDA {
                    stop = true;
                }
                if stop {
                    done = true;
                } else if remaining < 6 || length as usize > remaining - 6 {
                    // Too little is left for another segment.
                    done = true;
                } else {
                    offset = offset + length as usize + 2;
                }
            }
        }
        current
    }

    /// Reads the width and the height of a BMP file.
    pub fn process_bmp(data: &[u8]) -> (metadata: ImageMetadata)
        ensures
            metadata == bmp_metadata(data@),
    {
        let mut width: u32 = 0;
        let mut height: u32 = 0;
        if data.len() >= 26 {
            width = unpack_u32_from_le_bytes(data, 18);
            height = unpack_u32_from_le_bytes(data, 22);
        }
        ImageMetadata {
            image_type: XlsxImageType::Bmp,
            width,
            height,
            width_dpi: Resolution { value: 96, unit: DensityUnit::Inch },
            height_dpi: Resolution { value: 96, unit: DensityUnit::Inch },
            has_default_dpi: true,
        }
    }

    /// Reads the width and the height of a GIF file.
    pub fn process_gif(data: &[u8]) -> (metadata: ImageMetadata)
        ensures
            metadata == gif_metadata(data@),
    {
        let mut width: u32 = 0;
        let mut height: u32 = 0;
        if data.len() >= 10 {
            width = unpack_u16_from_le_bytes(data, 6) as u32;
            height = unpack_u16_from_le_bytes(data, 8) as u32;
        }
        ImageMetadata {
            image_type: XlsxImageType::Gif,
            width,
            height,
            width_dpi: Resolution { value: 96, unit: DensityUnit::Inch },
            height_dpi: Resolution { value: 96, unit: DensityUnit::Inch },
            has_default_dpi: true,
        }
    }
}

/// Whether two byte strings hold the same bytes.
pub fn bytes_equal(a: &Vec<u8>, b: &Vec<u8>) -> (r: bool)
    ensures
        r == (a@ == b@),
{
    if a.len() != b.len() {
        return false;
    }
    let mut i: usize = 0;
    while i < a.len()
        invariant
            i <= a.len(),
            a.len() == b.len(),
            forall|k: int| 0 <= k < i ==> a@[k] == b@[k],
        decreases a.len() - i,
    {
        if a[i] != b[i] {
            return false;
        }
        i += 1;
    }
    proof {
        assert(a@ =~= b@);
    }
    true
}

/// An image file as one of the media of a package: its format and its
/// bytes.
pub struct Media {
    pub image_type: XlsxImageType,
    pub data: Vec<u8>,
}

/// One of the media of a package as a plain value.
pub struct MediaView {
    pub image_type: XlsxImageType,
    pub data: Seq<u8>,
}

impl View for Media {
    type V = MediaView;

    open spec fn view(&self) -> MediaView {
        MediaView { image_type: self.image_type, data: self.data@ }
    }
}

impl Descriptor for Media {
    fn same(&self, other: &Self) -> (r: bool) {
        self.image_type == other.image_type && bytes_equal(&self.data, &other.data)
    }

    fn duplicate(&self) -> (copy: Self) {
        Media { image_type: self.image_type, data: slice_to_vec(self.data.as_slice()) }
    }
}

fn checked_resolution(r: Resolution) -> (checked: Resolution)
    ensures
        checked == jpeg_checked_resolution(r),
{
    if r.value == 0 || (r.unit == DensityUnit::Inch && r.value == 1) {
        Resolution { value: 96, unit: DensityUnit::Inch }
    } else {
        r
    }
}

/// Reading chunks never changes the format that the metadata names.
pub proof fn lemma_png_scan_keeps_type(data: Seq<u8>, offset: int, m: ImageMetadata)
    ensures
        png_scan(data, offset, m).image_type == m.image_type,
    decreases data.len() - offset,
{
    if offset < 0 || offset + 8 > data.len() {
    } else {
        match png_chunk(data, offset, m) {
            None => {},
            Some(after) => {
                if png_next_chunk(data, offset) + 8 <= data.len() {
                    lemma_png_scan_keeps_type(data, png_next_chunk(data, offset), after);
                }
            },
        }
    }
}

/// Reading segments never changes the format that the metadata names.
pub proof fn lemma_jpeg_scan_keeps_type(data: Seq<u8>, offset: int, m: ImageMetadata)
    ensures
        jpeg_scan(data, offset, m).image_type == m.image_type,
    decreases data.len() - offset,
{
    if offset < 0 || offset + 4 > data.len() {
    } else {
        match jpeg_segment(data, offset, m) {
            None => {},
            Some(after) => {
                if jpeg_next_segment(data, offset) + 4 <= data.len() {
                    lemma_jpeg_scan_keeps_type(data, jpeg_next_segment(data, offset), after);
                }
            },
        }
    }
}

/// The metadata of a file names the format that its first bytes announce.
pub proof fn lemma_metadata_type(data: Seq<u8>)
    ensures
        image_metadata(data).image_type == image_type_of(data),
{
    lemma_png_scan_keeps_type(
        data,
        8,
        ImageMetadata { image_type: XlsxImageType::Png, ..blank_metadata() },
    );
    lemma_jpeg_scan_keeps_type(
        data,
        2,
        ImageMetadata { image_type: XlsxImageType::Jpg, ..blank_metadata() },
    );
}

} // verus!
