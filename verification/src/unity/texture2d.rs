use vstd::prelude::*;
use super::error::UnityError;
use super::streaming_info::{fs_readable, sp_load_data};
use super::unity_fs::UnityFsFile;
use super::streaming_info::StreamingInfo;

verus! {

/// Well-known texture 2D formats.
#[allow(non_camel_case_types)]
#[derive(Debug, Eq, PartialEq, Clone, Copy, Hash, Structural)]
pub enum TextureFormat {
    UnknownType,
    Alpha8,
    ARGB4444,
    RGB24,
    RGBA32,
    ARGB32,
    RGB565,
    R16,
    DXT1,
    DXT5,
    RGBA4444,
    BGRA32,
    RHalf,
    RGHalf,
    RGBAHalf,
    RFloat,
    RGFloat,
    RGBAFloat,
    YUY2,
    RGB9e5Float,
    BC4,
    BC5,
    BC6H,
    BC7,
    DXT1Crunched,
    DXT5Crunched,
    PVRTC_RGB2,
    PVRTC_RGBA2,
    PVRTC_RGB4,
    PVRTC_RGBA4,
    ETC_RGB4,
    ATC_RGB4,
    ATC_RGBA8,
    EAC_R,
    EAC_R_SIGNED,
    EAC_RG,
    EAC_RG_SIGNED,
    ETC2_RGB,
    ETC2_RGBA1,
    ETC2_RGBA8,
    ASTC_RGB_4x4,
    ASTC_RGB_5x5,
    ASTC_RGB_6x6,
    ASTC_RGB_8x8,
    ASTC_RGB_10x10,
    ASTC_RGB_12x12,
    ASTC_RGBA_4x4,
    ASTC_RGBA_5x5,
    ASTC_RGBA_6x6,
    ASTC_RGBA_8x8,
    ASTC_RGBA_10x10,
    ASTC_RGBA_12x12,
    ETC_RGB4_3DS,
    ETC_RGBA8_3DS,
    RG16,
    R8,
    ETC_RGB4Crunched,
    ETC2_RGBA8Crunched,
    ASTC_HDR_4x4,
    ASTC_HDR_5x5,
    ASTC_HDR_6x6,
    ASTC_HDR_8x8,
    ASTC_HDR_10x10,
    ASTC_HDR_12x12,
}

/// The number Unity stores for a format.
pub open spec fn format_number(f: TextureFormat) -> int {
    match f {
        TextureFormat::UnknownType => -1,
        TextureFormat::Alpha8 => 1,
        TextureFormat::ARGB4444 => 2,
        TextureFormat::RGB24 => 3,
        TextureFormat::RGBA32 => 4,
        TextureFormat::ARGB32 => 5,
        TextureFormat::RGB565 => 7,
        TextureFormat::R16 => 9,
        TextureFormat::DXT1 => 10,
        TextureFormat::DXT5 => 12,
        TextureFormat::RGBA4444 => 13,
        TextureFormat::BGRA32 => 14,
        TextureFormat::RHalf => 15,
        TextureFormat::RGHalf => 16,
        TextureFormat::RGBAHalf => 17,
        TextureFormat::RFloat => 18,
        TextureFormat::RGFloat => 19,
        TextureFormat::RGBAFloat => 20,
        TextureFormat::YUY2 => 21,
        TextureFormat::RGB9e5Float => 22,
        TextureFormat::BC4 => 26,
        TextureFormat::BC5 => 27,
        TextureFormat::BC6H => 24,
        TextureFormat::BC7 => 25,
        TextureFormat::DXT1Crunched => 28,
        TextureFormat::DXT5Crunched => 29,
        TextureFormat::PVRTC_RGB2 => 30,
        TextureFormat::PVRTC_RGBA2 => 31,
        TextureFormat::PVRTC_RGB4 => 32,
        TextureFormat::PVRTC_RGBA4 => 33,
        TextureFormat::ETC_RGB4 => 34,
        TextureFormat::ATC_RGB4 => 35,
        TextureFormat::ATC_RGBA8 => 36,
        TextureFormat::EAC_R => 41,
        TextureFormat::EAC_R_SIGNED => 42,
        TextureFormat::EAC_RG => 43,
        TextureFormat::EAC_RG_SIGNED => 44,
        TextureFormat::ETC2_RGB => 45,
        TextureFormat::ETC2_RGBA1 => 46,
        TextureFormat::ETC2_RGBA8 => 47,
        TextureFormat::ASTC_RGB_4x4 => 48,
        TextureFormat::ASTC_RGB_5x5 => 49,
        TextureFormat::ASTC_RGB_6x6 => 50,
        TextureFormat::ASTC_RGB_8x8 => 51,
        TextureFormat::ASTC_RGB_10x10 => 52,
        TextureFormat::ASTC_RGB_12x12 => 53,
        TextureFormat::ASTC_RGBA_4x4 => 54,
        TextureFormat::ASTC_RGBA_5x5 => 55,
        TextureFormat::ASTC_RGBA_6x6 => 56,
        TextureFormat::ASTC_RGBA_8x8 => 57,
        TextureFormat::ASTC_RGBA_10x10 => 58,
        TextureFormat::ASTC_RGBA_12x12 => 59,
        TextureFormat::ETC_RGB4_3DS => 60,
        TextureFormat::ETC_RGBA8_3DS => 61,
        TextureFormat::RG16 => 62,
        TextureFormat::R8 => 63,
        TextureFormat::ETC_RGB4Crunched => 64,
        TextureFormat::ETC2_RGBA8Crunched => 65,
        TextureFormat::ASTC_HDR_4x4 => 66,
        TextureFormat::ASTC_HDR_5x5 => 67,
        TextureFormat::ASTC_HDR_6x6 => 68,
        TextureFormat::ASTC_HDR_8x8 => 69,
        TextureFormat::ASTC_HDR_10x10 => 70,
        TextureFormat::ASTC_HDR_12x12 => 71,
    }
}

/// The format stored as `value`; values that name no format are `UnknownType`.
pub open spec fn spec_format_of(value: i32) -> TextureFormat {
    if value == -1 {
        TextureFormat::UnknownType
    } else if value == 1 {
        TextureFormat::Alpha8
    } else if value == 2 {
        TextureFormat::ARGB4444
    } else if value == 3 {
        TextureFormat::RGB24
    } else if value == 4 {
        TextureFormat::RGBA32
    } else if value == 5 {
        TextureFormat::ARGB32
    } else if value == 7 {
        TextureFormat::RGB565
    } else if value == 9 {
        TextureFormat::R16
    } else if value == 10 {
        TextureFormat::DXT1
    } else if value == 12 {
        TextureFormat::DXT5
    } else if value == 13 {
        TextureFormat::RGBA4444
    } else if value == 14 {
        TextureFormat::BGRA32
    } else if value == 15 {
        TextureFormat::RHalf
    } else if value == 16 {
        TextureFormat::RGHalf
    } else if value == 17 {
        TextureFormat::RGBAHalf
    } else if value == 18 {
        TextureFormat::RFloat
    } else if value == 19 {
        TextureFormat::RGFloat
    } else if value == 20 {
        TextureFormat::RGBAFloat
    } else if value == 21 {
        TextureFormat::YUY2
    } else if value == 22 {
        TextureFormat::RGB9e5Float
    } else if value == 24 {
        TextureFormat::BC6H
    } else if value == 25 {
        TextureFormat::BC7
    } else if value == 26 {
        TextureFormat::BC4
    } else if value == 27 {
        TextureFormat::BC5
    } else if value == 28 {
        TextureFormat::DXT1Crunched
    } else if value == 29 {
        TextureFormat::DXT5Crunched
    } else if value == 30 {
        TextureFormat::PVRTC_RGB2
    } else if value == 31 {
        TextureFormat::PVRTC_RGBA2
    } else if value == 32 {
        TextureFormat::PVRTC_RGB4
    } else if value == 33 {
        TextureFormat::PVRTC_RGBA4
    } else if value == 34 {
        TextureFormat::ETC_RGB4
    } else if value == 35 {
        TextureFormat::ATC_RGB4
    } else if value == 36 {
        TextureFormat::ATC_RGBA8
    } else if value == 41 {
        TextureFormat::EAC_R
    } else if value == 42 {
        TextureFormat::EAC_R_SIGNED
    } else if value == 43 {
        TextureFormat::EAC_RG
    } else if value == 44 {
        TextureFormat::EAC_RG_SIGNED
    } else if value == 45 {
        TextureFormat::ETC2_RGB
    } else if value == 46 {
        TextureFormat::ETC2_RGBA1
    } else if value == 47 {
        TextureFormat::ETC2_RGBA8
    } else if value == 48 {
        TextureFormat::ASTC_RGB_4x4
    } else if value == 49 {
        TextureFormat::ASTC_RGB_5x5
    } else if value == 50 {
        TextureFormat::ASTC_RGB_6x6
    } else if value == 51 {
        TextureFormat::ASTC_RGB_8x8
    } else if value == 52 {
        TextureFormat::ASTC_RGB_10x10
    } else if value == 53 {
        TextureFormat::ASTC_RGB_12x12
    } else if value == 54 {
        TextureFormat::ASTC_RGBA_4x4
    } else if value == 55 {
        TextureFormat::ASTC_RGBA_5x5
    } else if value == 56 {
        TextureFormat::ASTC_RGBA_6x6
    } else if value == 57 {
        TextureFormat::ASTC_RGBA_8x8
    } else if value == 58 {
        TextureFormat::ASTC_RGBA_10x10
    } else if value == 59 {
        TextureFormat::ASTC_RGBA_12x12
    } else if value == 60 {
        TextureFormat::ETC_RGB4_3DS
    } else if value == 61 {
        TextureFormat::ETC_RGBA8_3DS
    } else if value == 62 {
        TextureFormat::RG16
    } else if value == 63 {
        TextureFormat::R8
    } else if value == 64 {
        TextureFormat::ETC_RGB4Crunched
    } else if value == 65 {
        TextureFormat::ETC2_RGBA8Crunched
    } else if value == 66 {
        TextureFormat::ASTC_HDR_4x4
    } else if value == 67 {
        TextureFormat::ASTC_HDR_5x5
    } else if value == 68 {
        TextureFormat::ASTC_HDR_6x6
    } else if value == 69 {
        TextureFormat::ASTC_HDR_8x8
    } else if value == 70 {
        TextureFormat::ASTC_HDR_10x10
    } else if value == 71 {
        TextureFormat::ASTC_HDR_12x12
    } else {
        TextureFormat::UnknownType
    }
}

impl TextureFormat {
    /// The format stored as `value`; values that name no format are `UnknownType`.
    pub fn from_primitive(value: i32) -> (r: TextureFormat)
        ensures
            r == spec_format_of(value),
    {
        match value {
            -1 => TextureFormat::UnknownType,
            1 => TextureFormat::Alpha8,
            2 => TextureFormat::ARGB4444,
            3 => TextureFormat::RGB24,
            4 => TextureFormat::RGBA32,
            5 => TextureFormat::ARGB32,
            7 => TextureFormat::RGB565,
            9 => TextureFormat::R16,
            10 => TextureFormat::DXT1,
            12 => TextureFormat::DXT5,
            13 => TextureFormat::RGBA4444,
            14 => TextureFormat::BGRA32,
            15 => TextureFormat::RHalf,
            16 => TextureFormat::RGHalf,
            17 => TextureFormat::RGBAHalf,
            18 => TextureFormat::RFloat,
            19 => TextureFormat::RGFloat,
            20 => TextureFormat::RGBAFloat,
            21 => TextureFormat::YUY2,
            22 => TextureFormat::RGB9e5Float,
            24 => TextureFormat::BC6H,
            25 => TextureFormat::BC7,
            26 => TextureFormat::BC4,
            27 => TextureFormat::BC5,
            28 => TextureFormat::DXT1Crunched,
            29 => TextureFormat::DXT5Crunched,
            30 => TextureFormat::PVRTC_RGB2,
            31 => TextureFormat::PVRTC_RGBA2,
            32 => TextureFormat::PVRTC_RGB4,
            33 => TextureFormat::PVRTC_RGBA4,
            34 => TextureFormat::ETC_RGB4,
            35 => TextureFormat::ATC_RGB4,
            36 => TextureFormat::ATC_RGBA8,
            41 => TextureFormat::EAC_R,
            42 => TextureFormat::EAC_R_SIGNED,
            43 => TextureFormat::EAC_RG,
            44 => TextureFormat::EAC_RG_SIGNED,
            45 => TextureFormat::ETC2_RGB,
            46 => TextureFormat::ETC2_RGBA1,
            47 => TextureFormat::ETC2_RGBA8,
            48 => TextureFormat::ASTC_RGB_4x4,
            49 => TextureFormat::ASTC_RGB_5x5,
            50 => TextureFormat::ASTC_RGB_6x6,
            51 => TextureFormat::ASTC_RGB_8x8,
            52 => TextureFormat::ASTC_RGB_10x10,
            53 => TextureFormat::ASTC_RGB_12x12,
            54 => TextureFormat::ASTC_RGBA_4x4,
            55 => TextureFormat::ASTC_RGBA_5x5,
            56 => TextureFormat::ASTC_RGBA_6x6,
            57 => TextureFormat::ASTC_RGBA_8x8,
            58 => TextureFormat::ASTC_RGBA_10x10,
            59 => TextureFormat::ASTC_RGBA_12x12,
            60 => TextureFormat::ETC_RGB4_3DS,
            61 => TextureFormat::ETC_RGBA8_3DS,
            62 => TextureFormat::RG16,
            63 => TextureFormat::R8,
            64 => TextureFormat::ETC_RGB4Crunched,
            65 => TextureFormat::ETC2_RGBA8Crunched,
            66 => TextureFormat::ASTC_HDR_4x4,
            67 => TextureFormat::ASTC_HDR_5x5,
            68 => TextureFormat::ASTC_HDR_6x6,
            69 => TextureFormat::ASTC_HDR_8x8,
            70 => TextureFormat::ASTC_HDR_10x10,
            71 => TextureFormat::ASTC_HDR_12x12,
            _ => TextureFormat::UnknownType,
        }
    }
}

/// Every format is read back from its own number.
pub proof fn lemma_format_number_roundtrip(f: TextureFormat)
    ensures
        spec_format_of(format_number(f) as i32) == f,
{
}

/// Data for Unity's Texture2D class.
#[derive(Debug, Clone)]
pub struct Texture2D {
    pub name: String,
    pub width: i32,
    pub height: i32,
    pub format: i32,
    pub image_data: Vec<u8>,
    pub stream_data: StreamingInfo,
}

/// Loaded data for a [`Texture2D`].
#[derive(Debug, Clone)]
pub struct Texture2DData<'t> {
    texture: &'t Texture2D,
    data: Vec<u8>,
}

impl Texture2D {
    /// Gets the texture format.
    pub fn format(&self) -> (r: TextureFormat)
        ensures
            r == spec_format_of(self.format),
    {
        TextureFormat::from_primitive(self.format)
    }

    /// Reads the texture data: the streamed data where the texture has a stream path,
    /// else its own image data.
    pub fn read_data<'t>(&'t self, fs: &UnityFsFile) -> (r: Result<Texture2DData<'t>, UnityError>)
        requires
            self.stream_data.path@.len() > 0 ==> fs_readable(fs),
        ensures
            r matches Ok(td) ==> td.spec_texture() == self,
            self.stream_data.path@.len() == 0 ==> (r matches Ok(td) && td.spec_data() == self.image_data@),
            self.stream_data.path@.len() > 0 ==> match r {
                Ok(td) => sp_load_data(
                    fs@,
                    self.stream_data.path@,
                    self.stream_data.offset.0,
                    self.stream_data.size,
                ) == Ok::<Seq<u8>, UnityError>(td.spec_data()),
                Err(e) => sp_load_data(
                    fs@,
                    self.stream_data.path@,
                    self.stream_data.offset.0,
                    self.stream_data.size,
                ) == Err::<Seq<u8>, UnityError>(e),
            },
    {
        let data = self.stream_data.load_data_or_else(fs, self.image_data.as_slice())?;
        Ok(self.with_data(data))
    }

    /// Pairs the texture with its loaded data.
    pub fn with_data<'t>(&'t self, data: Vec<u8>) -> (r: Texture2DData<'t>)
        ensures
            r.spec_texture() == self,
            r.spec_data() == data@,
    {
        Texture2DData { texture: self, data }
    }
}

/// The bytes of pixels in `RGBA` order, from decoded pixels that hold blue in the
/// lowest byte, then green, red and alpha.
pub open spec fn rgba_bytes(pixels: Seq<u32>) -> Seq<u8> {
    Seq::new(
        4 * pixels.len(),
        |i: int|
            {
                let px = pixels[i / 4];
                let k = i % 4;
                if k == 0 {
                    ((px / 0x10000) % 0x100) as u8
                } else if k == 1 {
                    ((px / 0x100) % 0x100) as u8
                } else if k == 2 {
                    (px % 0x100) as u8
                } else {
                    (px / 0x1000000) as u8
                }
            },
    )
}

impl<'t> Texture2DData<'t> {
    /// The texture.
    pub closed spec fn spec_texture(&self) -> &'t Texture2D {
        self.texture
    }

    /// The loaded data.
    pub closed spec fn spec_data(&self) -> Seq<u8> {
        self.data@
    }

    /// Gets the block of data.
    pub fn data(&self) -> (r: &[u8])
        ensures
            r@ == self.spec_data(),
    {
        self.data.as_slice()
    }
}

/// Converts decoded pixels to `RGBA` bytes, swapping the red and blue channels.
pub fn pixels_to_rgba(pixels: &Vec<u32>) -> (r: Vec<u8>)
    requires
        4 * pixels@.len() <= usize::MAX,
    ensures
        r@ == rgba_bytes(pixels@),
{
    let mut out: Vec<u8> = Vec::new();
    let mut i: usize = 0;
    while i < pixels.len()
        invariant
            0 <= i <= pixels@.len(),
            4 * pixels@.len() <= usize::MAX,
            out@.len() == 4 * i,
            forall|k: int| 0 <= k < 4 * i ==> #[trigger] out@[k] == rgba_bytes(pixels@)[k],
        decreases pixels.len() - i,
    {
        let px = pixels[i];
        out.push(((px / 0x10000) % 0x100) as u8);
        out.push(((px / 0x100) % 0x100) as u8);
        out.push((px % 0x100) as u8);
        out.push((px / 0x1000000) as u8);
        proof {
            assert forall|k: int| 4 * i <= k < 4 * i + 4 implies #[trigger] out@[k] == rgba_bytes(
                pixels@,
            )[k] by {
                assert(k / 4 == i as int);
                assert(k % 4 == k - 4 * i);
            }
        }
        i = i + 1;
    }
    assert(out@ =~= rgba_bytes(pixels@));
    out
}

proof fn lemma_mul_u32(a: int, b: int)
    requires
        0 <= a <= 0x1_0000_0000,
        0 <= b <= 0x1_0000_0000,
    ensures
        0 <= a * b <= 0x1_0000_0000_0000_0000,
        a * b * 4 == 4 * a * b,
{
    assert(0 <= a * b <= 0x1_0000_0000 * 0x1_0000_0000) by (nonlinear_arith)
        requires
            0 <= a <= 0x1_0000_0000,
            0 <= b <= 0x1_0000_0000,
    ;
    assert(a * b * 4 == 4 * a * b) by (nonlinear_arith);
}

/// An image of `RGBA` pixels with 8 bits per channel, row by row.
#[derive(Debug, Clone)]
pub struct RgbaImage {
    pub width: u32,
    pub height: u32,
    pub data: Vec<u8>,
}

/// The image of `width` by `height` pixels over `data`.
pub open spec fn rgba_image(width: u32, height: u32, data: Seq<u8>) -> (u32, u32, Seq<u8>) {
    (width, height, data)
}

impl RgbaImage {
    /// The width, height and bytes of the image.
    pub open spec fn view(&self) -> (u32, u32, Seq<u8>) {
        (self.width, self.height, self.data@)
    }

    /// An image of `width` by `height` pixels over the bytes of `buf`, or `None` when
    /// `buf` holds fewer than `4 * width * height` bytes (`image::RgbaImage::from_raw`).
    pub fn from_raw(width: u32, height: u32, buf: Vec<u8>) -> (r: Option<RgbaImage>)
        ensures
            r is Some <==> 4 * width * height <= buf@.len(),
            r matches Some(img) ==> img.view() == rgba_image(width, height, buf@),
    {
        proof {
            lemma_mul_u32(width as int, height as int);
        }
        if 4 * (width as u128) * (height as u128) <= buf.len() as u128 {
            Some(RgbaImage { width, height, data: buf })
        } else {
            None
        }
    }
}

/// The pixels that ETC2 RGBA8 decoding gives for `data` at the given size: one
/// `u32` per pixel, row by row, blue in the lowest byte, then green, red and alpha.
pub uninterp spec fn etc2_rgba8_pixels(data: Seq<u8>, width: usize, height: usize) -> Seq<u32>;

/// The number of input bytes ETC2 RGBA8 needs: 16 per 4x4 block.
pub open spec fn etc2_rgba8_input_len(width: int, height: int) -> int {
    ((width + 3) / 4) * ((height + 3) / 4) * 16
}

/// `texture2ddecoder::decode_etc2_rgba8`: decodes ETC2 RGBA8 `data` into `image`,
/// which holds exactly one `u32` per pixel. It fails, leaving `image` as it was, when
/// `data` is shorter than 16 bytes per 4x4 block. The computation of that length
/// must not overflow.
#[verifier::external_body]
fn decode_etc2_rgba8(data: &[u8], width: usize, height: usize, image: &mut Vec<u32>) -> (r: Result<
    (),
    &'static str,
>)
    requires
        old(image)@.len() == width * height,
        etc2_rgba8_input_len(width as int, height as int) <= usize::MAX,
    ensures
        r is Ok <==> data@.len() >= etc2_rgba8_input_len(width as int, height as int),
        final(image)@.len() == old(image)@.len(),
        r is Ok ==> final(image)@ == etc2_rgba8_pixels(data@, width, height),
        r is Err ==> final(image)@ == old(image)@,
        r matches Err(m) ==> m == "Not enough data to decode image!",
{
    texture2ddecoder::decode_etc2_rgba8(data, width, height, image.as_mut_slice())
}

/// What decoding a texture gives.
pub open spec fn spec_decode(format: TextureFormat, width: i32, height: i32, data: Seq<u8>) -> Result<
    (u32, u32, Seq<u8>),
    UnityError,
> {
    if width < 0 || height < 0 {
        Err(UnityError::InvalidData("texture size is negative"))
    } else if format == TextureFormat::RGBA32 {
        if 4 * width * height <= data.len() {
            Ok(rgba_image(width as u32, height as u32, data))
        } else {
            Err(UnityError::InvalidData("image data size incorrect"))
        }
    } else if format == TextureFormat::ETC2_RGBA8 {
        if 4 * width * height > usize::MAX || etc2_rgba8_input_len(width as int, height as int)
            > usize::MAX {
            Err(UnityError::InvalidData("image size overflows address space"))
        } else if data.len() < etc2_rgba8_input_len(width as int, height as int) {
            Err(UnityError::InvalidData("Not enough data to decode image!"))
        } else {
            Ok(
                rgba_image(
                    width as u32,
                    height as u32,
                    rgba_bytes(etc2_rgba8_pixels(data, width as usize, height as usize)),
                ),
            )
        }
    } else {
        Err(UnityError::Unsupported("texture format not implemented"))
    }
}

impl<'t> Texture2DData<'t> {
    /// Decodes the image data.
    pub fn decode(&self) -> (r: Result<RgbaImage, UnityError>)
        ensures
            r matches Ok(img) ==> spec_decode(
                spec_format_of(self.spec_texture().format),
                self.spec_texture().width,
                self.spec_texture().height,
                self.spec_data(),
            ) == Ok::<(u32, u32, Seq<u8>), UnityError>(img.view()),
            r matches Err(e) ==> spec_decode(
                spec_format_of(self.spec_texture().format),
                self.spec_texture().width,
                self.spec_texture().height,
                self.spec_data(),
            ) == Err::<(u32, u32, Seq<u8>), UnityError>(e),
    {
        let w = self.texture.width;
        let h = self.texture.height;
        if w < 0 || h < 0 {
            return Err(UnityError::InvalidData("texture size is negative"));
        }
        let width = w as u32;
        let height = h as u32;
        let format = self.texture.format();
        if format == TextureFormat::RGBA32 {
            let mut buf: Vec<u8> = Vec::new();
            let mut i: usize = 0;
            while i < self.data.len()
                invariant
                    0 <= i <= self.data@.len(),
                    buf@ == self.data@.subrange(0, i as int),
                decreases self.data.len() - i,
            {
                buf.push(self.data[i]);
                i = i + 1;
            }
            assert(buf@ =~= self.data@);
            match RgbaImage::from_raw(width, height, buf) {
                Some(img) => Ok(img),
                None => Err(UnityError::InvalidData("image data size incorrect")),
            }
        } else if format == TextureFormat::ETC2_RGBA8 {
            let wide_w = width as u128;
            let wide_h = height as u128;
            proof {
                lemma_mul_u32(wide_w as int, wide_h as int);
                lemma_mul_u32((wide_w + 3) / 4, (wide_h + 3) / 4);
            }
            if wide_w * wide_h * 4 > usize::MAX as u128 || ((wide_w + 3) / 4) * ((wide_h + 3) / 4)
                * 16 > usize::MAX as u128 {
                return Err(UnityError::InvalidData("image size overflows address space"));
            }
            let width_s = width as usize;
            let height_s = height as usize;
            let mut pixels: Vec<u32> = Vec::new();
            let count = width_s * height_s;
            let mut i: usize = 0;
            while i < count
                invariant
                    0 <= i <= count,
                    pixels@.len() == i,
                decreases count - i,
            {
                pixels.push(0);
                i = i + 1;
            }
            match decode_etc2_rgba8(self.data.as_slice(), width_s, height_s, &mut pixels) {
                Ok(()) => {},
                Err(e) => {
                    return Err(UnityError::InvalidData(e));
                },
            }
            let buffer = pixels_to_rgba(&pixels);
            match RgbaImage::from_raw(width, height, buffer) {
                Some(img) => Ok(img),
                None => Err(UnityError::InvalidData("image data size incorrect")),
            }
        } else {
            Err(UnityError::Unsupported("texture format not implemented"))
        }
    }
}

} // verus!
