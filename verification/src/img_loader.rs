//! Decoding of uncompressed bitmaps with a header of 54 bytes.
//!
//! The pixel data follows the header: one byte a pixel (gray), three (blue,
//! green, red) or four (blue, green, red, alpha). The decoded image is dense
//! and row-major, three bytes a pixel in the order red, green, blue; a
//! channel byte `b` stands for the intensity `b / 256`.

use vstd::arithmetic::power2::is_pow2;
use vstd::prelude::*;
use vstd::string::StringExecFns;

verus! {

/// The number of bytes before the pixel data.
pub const HEADER_SIZE: usize = 54;

/// The layout of the pixel data.
#[derive(Clone, Copy, Debug, PartialEq, Eq, Structural)]
pub enum Mode {
    Gray,
    RGB,
    RGBA,
}

/// Why a file is refused.
#[derive(Clone, Copy, Debug, PartialEq, Eq, Structural)]
pub enum ImageError {
    /// The file is shorter than a header or does not begin with `BM`.
    NotBmp,
    /// The header gives a header size other than 54 or 0.
    HeaderSize,
    /// The number of pixels is no power of two.
    PixelCount,
    /// The pixel data has the length of none of the three layouts.
    DataSize,
}

/// A decoded image.
pub struct Image {
    data: Vec<u8>,
    width: usize,
    height: usize,
}

/// The mathematical content of an [`Image`].
pub struct ImageView {
    pub data: Seq<u8>,
    pub width: usize,
    pub height: usize,
}

impl View for Image {
    type V = ImageView;

    closed spec fn view(&self) -> ImageView {
        ImageView { data: self.data@, width: self.width, height: self.height }
    }
}

/// The number of bytes that a pixel takes in the file.
pub open spec fn stride(mode: Mode) -> int {
    match mode {
        Mode::Gray => 1,
        Mode::RGB => 3,
        Mode::RGBA => 4,
    }
}

/// What the header of a file says: width, height and layout, or why the
/// file is refused.
pub open spec fn header_of(data: Seq<u8>) -> Result<(usize, usize, Mode), ImageError> {
    if data.len() < HEADER_SIZE || data[0] != 0x42 || data[1] != 0x4d {
        Err(ImageError::NotBmp)
    } else {
        let width = data[0x12] as int;
        let height = data[0x16] as int;
        let pixels = data.len() - HEADER_SIZE;
        if data[0x0a] != 0 && data[0x0a] != HEADER_SIZE {
            Err(ImageError::HeaderSize)
        } else if !is_pow2(width * height) {
            Err(ImageError::PixelCount)
        } else if pixels == width * height {
            Ok((width as usize, height as usize, Mode::Gray))
        } else if pixels == width * height * 3 {
            Ok((width as usize, height as usize, Mode::RGB))
        } else if pixels == width * height * 4 {
            Ok((width as usize, height as usize, Mode::RGBA))
        } else {
            Err(ImageError::DataSize)
        }
    }
}

/// The place in the file of channel `channel` (0 red, 1 green, 2 blue) of
/// pixel `pixel`.
pub open spec fn source(mode: Mode, pixel: int, channel: int) -> int {
    match mode {
        Mode::Gray => HEADER_SIZE + pixel,
        Mode::RGB => HEADER_SIZE + pixel * 3 + (2 - channel),
        Mode::RGBA => HEADER_SIZE + pixel * 4 + (2 - channel),
    }
}

/// The decoded pixels of a file: for each pixel in file order its red, green
/// and blue byte.
pub open spec fn pixels_of(data: Seq<u8>, width: int, height: int, mode: Mode) -> Seq<u8> {
    Seq::new((3 * (width * height)) as nat, |k: int| data[source(mode, k / 3, k % 3)])
}

/// The decoded image of a file, or why the file is refused.
pub open spec fn image_of(data: Seq<u8>) -> Result<ImageView, ImageError> {
    match header_of(data) {
        Ok((width, height, mode)) => Ok(
            ImageView { data: pixels_of(data, width as int, height as int, mode), width, height },
        ),
        Err(e) => Err(e),
    }
}

impl ImageError {
    /// The error in words.
    pub fn message(&self) -> (r: &'static str)
        ensures
            r@ == self.text(),
    {
        match self {
            ImageError::NotBmp => "error: not bmp",
            ImageError::HeaderSize => "error: not supported bmp: header_size != 54",
            ImageError::PixelCount => "error: not supported bmp: size != 2^n",
            ImageError::DataSize => "error: not supported bmp: data size",
        }
    }

    /// The characters of `message`.
    pub open spec fn text(&self) -> Seq<char> {
        match self {
            ImageError::NotBmp => "error: not bmp"@,
            ImageError::HeaderSize => "error: not supported bmp: header_size != 54"@,
            ImageError::PixelCount => "error: not supported bmp: size != 2^n"@,
            ImageError::DataSize => "error: not supported bmp: data size"@,
        }
    }
}

impl Image {
    /// Decodes the bytes of the file at `path`. A refusal names the reason
    /// and the path.
    pub fn new(path: &str, data: &Vec<u8>) -> (r: Result<Self, String>)
        ensures
            match image_of(data@) {
                Ok(image) => r is Ok && r->Ok_0@ == image,
                Err(e) => r is Err && r->Err_0@ == e.text() + ": "@ + path@,
            },
    {
        match Self::load_bmp_header(data) {
            Ok((width, height, mode)) => {
                assert(width * height <= 65025) by (nonlinear_arith)
                    requires
                        width <= 255,
                        height <= 255,
                ;
                Ok(Image { data: Self::load_bmp_data(data, width, height, mode), width, height })
            },
            Err(e) => {
                let mut text: String = String::from_str(e.message());
                text.append(": ");
                text.append(path);
                Err(text)
            },
        }
    }

    pub fn get_data(&self) -> (r: &Vec<u8>)
        ensures
            r@ == self@.data,
    {
        &self.data
    }

    pub fn get_width(&self) -> (r: usize)
        ensures
            r == self@.width,
    {
        self.width
    }

    pub fn get_height(&self) -> (r: usize)
        ensures
            r == self@.height,
    {
        self.height
    }

    /// Reads the header of a file.
    pub fn load_bmp_header(data: &Vec<u8>) -> (r: Result<(usize, usize, Mode), ImageError>)
        ensures
            r == header_of(data@),
            r matches Ok((width, height, mode)) ==> width <= 255 && height <= 255 && data.len()
                == HEADER_SIZE + width * height * stride(mode),
    {
        if data.len() < HEADER_SIZE || data[0] != 0x42 || data[1] != 0x4d {
            return Err(ImageError::NotBmp);
        }
        let header_size: usize = data[0x0a] as usize;
        let width: usize = data[0x12] as usize;
        let height: usize = data[0x16] as usize;
        if header_size != 0 && header_size != HEADER_SIZE {
            return Err(ImageError::HeaderSize);
        }
        assert(width * height <= 65025) by (nonlinear_arith)
            requires
                width <= 255,
                height <= 255,
        ;
        let count: usize = width * height;
        if !Self::is_pow2(count) {
            return Err(ImageError::PixelCount);
        }
        let pixels: usize = data.len() - HEADER_SIZE;
        if pixels == count {
            Ok((width, height, Mode::Gray))
        } else if pixels == count * 3 {
            Ok((width, height, Mode::RGB))
        } else if pixels == count * 4 {
            Ok((width, height, Mode::RGBA))
        } else {
            Err(ImageError::DataSize)
        }
    }

    /// Whether `value` is a power of two.
    pub fn is_pow2(value: usize) -> (r: bool)
        ensures
            r == is_pow2(value as int),
    {
        proof {
            reveal(is_pow2);
        }
        if value == 0 {
            return false;
        }
        let mut rest: usize = value;
        while rest % 2 == 0
            invariant
                rest > 0,
                is_pow2(rest as int) == is_pow2(value as int),
            decreases rest,
        {
            proof {
                reveal(is_pow2);
            }
            rest = rest / 2;
        }
        proof {
            reveal(is_pow2);
        }
        rest == 1
    }

    /// Decodes the pixel data of a file whose header has been read.
    pub fn load_bmp_data(data: &Vec<u8>, width: usize, height: usize, mode: Mode) -> (r: Vec<u8>)
        requires
            data.len() == HEADER_SIZE + width * height * stride(mode),
            3 * (width * height) <= usize::MAX,
        ensures
            r@ == pixels_of(data@, width as int, height as int, mode),
    {
        assert(0 <= width * height) by (nonlinear_arith)
            requires
                0 <= width,
                0 <= height,
        ;
        let count: usize = width * height;
        let mut out: Vec<u8> = Vec::new();
        let mut pixel: usize = 0;
        while pixel < count
            invariant
                pixel <= count,
                count == width * height,
                3 * count <= usize::MAX,
                data.len() == HEADER_SIZE + count * stride(mode),
                out.len() == 3 * pixel,
                forall|k: int|
                    0 <= k < 3 * pixel ==> #[trigger] out@[k] == data@[source(mode, k / 3, k % 3)],
            decreases count - pixel,
        {
            match mode {
                Mode::Gray => {
                    let value: u8 = data[HEADER_SIZE + pixel];
                    out.push(value);
                    out.push(value);
                    out.push(value);
                },
                Mode::RGB => {
                    let at: usize = HEADER_SIZE + pixel * 3;
                    out.push(data[at + 2]);
                    out.push(data[at + 1]);
                    out.push(data[at]);
                },
                Mode::RGBA => {
                    let at: usize = HEADER_SIZE + pixel * 4;
                    out.push(data[at + 2]);
                    out.push(data[at + 1]);
                    out.push(data[at]);
                },
            }
            pixel = pixel + 1;
        }
        assert(out@ =~= pixels_of(data@, width as int, height as int, mode));
        out
    }
}

} // verus!
