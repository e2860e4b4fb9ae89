use crate::error::{outcome, Error, ErrorKind};
use vstd::prelude::*;

verus! {

/// How the colour channels of a texture are to be read.
#[derive(Debug, Clone, Copy, PartialEq, Eq, Structural)]
pub enum PixelFormat {
    RGB,
    RGBA,
    ScaledYCoCg,
    Alpha,
    RGBUnsignedFloat,
    RGBSignedFloat,
    MultipleImages,
}

/// The GPU block compression of a texture.
#[derive(Debug, Clone, Copy, PartialEq, Eq, Structural)]
pub enum PixelCompression {
    DXT1BC1,
    DXT5BC3,
    BC7,
    RGTC1BC4,
    BC6U,
    BC6S,
    NotApplicable,
}

/// The general-purpose compression laid over the texture bytes.
#[derive(Debug, Clone, Copy, PartialEq, Eq, Structural)]
pub enum SecondStageCompressor {
    Uncompressed,
    Snappy,
    Complex,
}

/// The bytes of a block-compressed texture.
pub type RawTexture = Vec<u8>;

/// A decoded frame: its texture bytes, tagged with their GPU format.
#[allow(non_camel_case_types)]
#[derive(Debug)]
pub enum Texture {
    /// GL_COMPRESSED_RGB_S3TC_DXT1_EXT
    RGB_DXT1_BC1(RawTexture),
    /// GL_COMPRESSED_RGBA_S3TC_DXT5_EXT
    RGBA_DXT5_BC3(RawTexture),
    ScaledYCoCg_DXT5_BC3(RawTexture),
    /// GL_COMPRESSED_RGBA_BPTC_UNORM_ARB
    RGBA_BC7(RawTexture),
    Alpha_RGTC1_BC4(RawTexture),
    /// GL_COMPRESSED_RGB_BPTC_UNSIGNED_FLOAT_ARB
    RGBUnsignedFloat_BC6U(RawTexture),
    /// GL_COMPRESSED_RGB_BPTC_SIGNED_FLOAT_ARB
    RGBSignedFloat_BC6S(RawTexture),
    MultipleImages_ScaledYCoCg_DXT5_Alpha_RGTC1(RawTexture, RawTexture),
}

/// The format codes (low nibble of a section type) of a single texture.
pub open spec fn is_single_code(c: u8) -> bool {
    c == 0x01 || c == 0x02 || c == 0x03 || c == 0x0B || c == 0x0C || c == 0x0E || c == 0x0F
}

/// The format code that marks a pair of textures.
pub const MULTIPLE_IMAGES: u8 = 0x0D;

impl View for Texture {
    /// The format code, the first texture's bytes, and the second texture's
    /// bytes (empty but for the pair).
    type V = (u8, Seq<u8>, Seq<u8>);

    open spec fn view(&self) -> (u8, Seq<u8>, Seq<u8>) {
        match self {
            Texture::RGB_DXT1_BC1(v) => (0x0Bu8, v@, Seq::empty()),
            Texture::RGBA_DXT5_BC3(v) => (0x0Eu8, v@, Seq::empty()),
            Texture::ScaledYCoCg_DXT5_BC3(v) => (0x0Fu8, v@, Seq::empty()),
            Texture::RGBA_BC7(v) => (0x0Cu8, v@, Seq::empty()),
            Texture::Alpha_RGTC1_BC4(v) => (0x01u8, v@, Seq::empty()),
            Texture::RGBUnsignedFloat_BC6U(v) => (0x02u8, v@, Seq::empty()),
            Texture::RGBSignedFloat_BC6S(v) => (0x03u8, v@, Seq::empty()),
            Texture::MultipleImages_ScaledYCoCg_DXT5_Alpha_RGTC1(a, b) => (0x0Du8, a@, b@),
        }
    }
}

/// An OpenGL internal format id, or two for a pair of textures.
#[derive(Debug, Clone, Copy, PartialEq, Eq, Structural)]
pub enum OpenGLFormatId {
    Single(u32),
    Double(u32, u32),
    Unsupported,
}

/// The compressed formats of glium that a texture can be uploaded as.
#[derive(Debug, Clone, Copy, PartialEq, Eq, Structural)]
pub enum CompressedFormat {
    S3tcDxt1NoAlpha,
    S3tcDxt5Alpha,
    BptcUnsignedFloat3,
    BptcSignedFloat3,
}

/// The OpenGL id of the format with code `c`, where OpenGL has one.
pub open spec fn opengl_id_of(c: u8) -> OpenGLFormatId {
    if c == 0x0B {
        OpenGLFormatId::Single(0x83F0)
    } else if c == 0x0E {
        OpenGLFormatId::Single(0x83F3)
    } else if c == 0x0C {
        OpenGLFormatId::Single(0x8E8C)
    } else if c == 0x02 {
        OpenGLFormatId::Single(0x8E8F)
    } else if c == 0x03 {
        OpenGLFormatId::Single(0x8E8E)
    } else {
        OpenGLFormatId::Unsupported
    }
}

/// The glium format of the format with code `c`, where glium has one.
pub open spec fn glium_format_of(c: u8) -> Option<CompressedFormat> {
    if c == 0x0B {
        Some(CompressedFormat::S3tcDxt1NoAlpha)
    } else if c == 0x0E {
        Some(CompressedFormat::S3tcDxt5Alpha)
    } else if c == 0x02 {
        Some(CompressedFormat::BptcUnsignedFloat3)
    } else if c == 0x03 {
        Some(CompressedFormat::BptcSignedFloat3)
    } else {
        None
    }
}

impl Texture {
    /// The bytes of a single texture; `None` for a pair.
    pub fn get_single_texture_raw_data(self) -> (r: Option<RawTexture>)
        ensures
            self@.0 == MULTIPLE_IMAGES <==> r is None,
            r is Some ==> r->Some_0@ == self@.1,
    {
        match self {
            Texture::RGB_DXT1_BC1(inner) => Some(inner),
            Texture::RGBA_DXT5_BC3(inner) => Some(inner),
            Texture::ScaledYCoCg_DXT5_BC3(inner) => Some(inner),
            Texture::RGBA_BC7(inner) => Some(inner),
            Texture::Alpha_RGTC1_BC4(inner) => Some(inner),
            Texture::RGBUnsignedFloat_BC6U(inner) => Some(inner),
            Texture::RGBSignedFloat_BC6S(inner) => Some(inner),
            Texture::MultipleImages_ScaledYCoCg_DXT5_Alpha_RGTC1(_, _) => None,
        }
    }

    /// The bytes of a single texture, borrowed; `None` for a pair.
    pub fn get_single_texture_raw_data_ref(&self) -> (r: Option<&[u8]>)
        ensures
            self@.0 == MULTIPLE_IMAGES <==> r is None,
            r is Some ==> r->Some_0@ == self@.1,
    {
        match self {
            Texture::RGB_DXT1_BC1(inner) => Some(inner.as_slice()),
            Texture::RGBA_DXT5_BC3(inner) => Some(inner.as_slice()),
            Texture::ScaledYCoCg_DXT5_BC3(inner) => Some(inner.as_slice()),
            Texture::RGBA_BC7(inner) => Some(inner.as_slice()),
            Texture::Alpha_RGTC1_BC4(inner) => Some(inner.as_slice()),
            Texture::RGBUnsignedFloat_BC6U(inner) => Some(inner.as_slice()),
            Texture::RGBSignedFloat_BC6S(inner) => Some(inner.as_slice()),
            Texture::MultipleImages_ScaledYCoCg_DXT5_Alpha_RGTC1(_, _) => None,
        }
    }

    /// The OpenGL internal format to upload the texture as.
    pub fn opengl_pixelformat_id(&self) -> (r: OpenGLFormatId)
        ensures
            r == opengl_id_of(self@.0),
    {
        match self {
            Texture::RGB_DXT1_BC1(_) => OpenGLFormatId::Single(0x83F0),
            Texture::RGBA_DXT5_BC3(_) => OpenGLFormatId::Single(0x83F3),
            Texture::ScaledYCoCg_DXT5_BC3(_) => OpenGLFormatId::Unsupported,
            Texture::RGBA_BC7(_) => OpenGLFormatId::Single(0x8E8C),
            Texture::Alpha_RGTC1_BC4(_) => OpenGLFormatId::Unsupported,
            Texture::RGBUnsignedFloat_BC6U(_) => OpenGLFormatId::Single(0x8E8F),
            Texture::RGBSignedFloat_BC6S(_) => OpenGLFormatId::Single(0x8E8E),
            Texture::MultipleImages_ScaledYCoCg_DXT5_Alpha_RGTC1(_, _) => OpenGLFormatId::Unsupported,
        }
    }

    /// The glium compressed format to upload the texture as, where glium
    /// has one.
    pub fn glium_compressed_format(&self) -> (r: Option<CompressedFormat>)
        ensures
            r == glium_format_of(self@.0),
    {
        match self {
            Texture::RGB_DXT1_BC1(_) => Some(CompressedFormat::S3tcDxt1NoAlpha),
            Texture::RGBA_DXT5_BC3(_) => Some(CompressedFormat::S3tcDxt5Alpha),
            Texture::ScaledYCoCg_DXT5_BC3(_) => None,
            Texture::RGBA_BC7(_) => None,
            Texture::Alpha_RGTC1_BC4(_) => None,
            Texture::RGBUnsignedFloat_BC6U(_) => Some(CompressedFormat::BptcUnsignedFloat3),
            Texture::RGBSignedFloat_BC6S(_) => Some(CompressedFormat::BptcSignedFloat3),
            Texture::MultipleImages_ScaledYCoCg_DXT5_Alpha_RGTC1(_, _) => None,
        }
    }
}

/// The names of one texture's colour layout and block compression, and its
/// size in bytes.
#[derive(Debug, Clone, Copy, PartialEq, Eq)]
pub struct TextureLabel {
    pub color: &'static str,
    pub compression: &'static str,
    pub size: usize,
}

/// The name of the colour layout of format code `c` (the first texture's,
/// for the pair).
pub open spec fn color_name(c: u8) -> Seq<char> {
    if c == 0x0B {
        "RGB"@
    } else if c == 0x0E || c == 0x0C {
        "RGBA"@
    } else if c == 0x0F || c == 0x0D {
        "ScaledYCoCg"@
    } else if c == 0x01 {
        "Alpha"@
    } else if c == 0x02 {
        "RGB unsigned float"@
    } else {
        "RGB signed float"@
    }
}

/// The name of the block compression of format code `c` (the first
/// texture's, for the pair).
pub open spec fn compression_name(c: u8) -> Seq<char> {
    if c == 0x0B {
        "DXT1/BC1"@
    } else if c == 0x0E || c == 0x0F || c == 0x0D {
        "DXT5/BC3"@
    } else if c == 0x0C {
        "BC7"@
    } else if c == 0x01 {
        "RGTC1/BC4"@
    } else if c == 0x02 {
        "BC6U"@
    } else {
        "BC6S"@
    }
}

impl Texture {
    /// What the texture holds, for display: a label for the single
    /// texture, or one for each texture of the pair.
    pub fn labels(&self) -> (r: (TextureLabel, Option<TextureLabel>))
        ensures
            r.0.color@ == color_name(self@.0),
            r.0.compression@ == compression_name(self@.0),
            r.0.size == self@.1.len(),
            self@.0 == MULTIPLE_IMAGES <==> r.1 is Some,
            r.1 is Some ==> r.1->Some_0.color@ == "Alpha"@ && r.1->Some_0.compression@ == "BC4"@
                && r.1->Some_0.size == self@.2.len(),
    {
        let label = |color: &'static str, compression: &'static str, v: &Vec<u8>| -> (l: TextureLabel)
            ensures
                l.color == color && l.compression == compression && l.size == v@.len(),
            { TextureLabel { color, compression, size: v.len() } };
        match self {
            Texture::RGB_DXT1_BC1(v) => (label("RGB", "DXT1/BC1", v), None),
            Texture::RGBA_DXT5_BC3(v) => (label("RGBA", "DXT5/BC3", v), None),
            Texture::ScaledYCoCg_DXT5_BC3(v) => (label("ScaledYCoCg", "DXT5/BC3", v), None),
            Texture::RGBA_BC7(v) => (label("RGBA", "BC7", v), None),
            Texture::Alpha_RGTC1_BC4(v) => (label("Alpha", "RGTC1/BC4", v), None),
            Texture::RGBUnsignedFloat_BC6U(v) => (label("RGB unsigned float", "BC6U", v), None),
            Texture::RGBSignedFloat_BC6S(v) => (label("RGB signed float", "BC6S", v), None),
            Texture::MultipleImages_ScaledYCoCg_DXT5_Alpha_RGTC1(a, b) => (
                label("ScaledYCoCg", "DXT5/BC3", a),
                Some(label("Alpha", "BC4", b)),
            ),
        }
    }
}

/// Tags `raw` with the format that the low nibble of `texture_format` names.
pub fn wrap_single_texture(texture_format: u8, raw: RawTexture) -> (r: Result<Texture, Error>)
    ensures
        is_single_code(texture_format & 0x0F) ==> r is Ok && r->Ok_0@ == (
        texture_format & 0x0F,
        raw@,
        Seq::<u8>::empty(),
        ),
        !is_single_code(texture_format & 0x0F) ==> r is Err && r->Err_0@
            == ErrorKind::UnknownTextureFormat(texture_format & 0x0F),
{
    let code = texture_format & 0x0F;
    if code == 0x0B {
        Ok(Texture::RGB_DXT1_BC1(raw))
    } else if code == 0x0E {
        Ok(Texture::RGBA_DXT5_BC3(raw))
    } else if code == 0x0F {
        Ok(Texture::ScaledYCoCg_DXT5_BC3(raw))
    } else if code == 0x0C {
        Ok(Texture::RGBA_BC7(raw))
    } else if code == 0x01 {
        Ok(Texture::Alpha_RGTC1_BC4(raw))
    } else if code == 0x02 {
        Ok(Texture::RGBUnsignedFloat_BC6U(raw))
    } else if code == 0x03 {
        Ok(Texture::RGBSignedFloat_BC6S(raw))
    } else {
        Err(Error::UnknownTextureFormat(code))
    }
}

/// A summary of a frame's outer section.
#[derive(Debug, Clone, Copy, PartialEq, Eq, Structural)]
pub struct Header {
    pub section_size: u32,
    pub pixel_format: PixelFormat,
    pub pixel_compression: PixelCompression,
    pub second_stage_compressor: SecondStageCompressor,
}

/// The pixel format and block compression that format code `c` names.
pub open spec fn pixel_format_of(c: u8) -> Option<(PixelFormat, PixelCompression)> {
    if c == 0x01 {
        Some((PixelFormat::Alpha, PixelCompression::RGTC1BC4))
    } else if c == 0x02 {
        Some((PixelFormat::RGBUnsignedFloat, PixelCompression::BC6U))
    } else if c == 0x03 {
        Some((PixelFormat::RGBSignedFloat, PixelCompression::BC6S))
    } else if c == 0x0B {
        Some((PixelFormat::RGB, PixelCompression::DXT1BC1))
    } else if c == 0x0C {
        Some((PixelFormat::RGBA, PixelCompression::BC7))
    } else if c == 0x0D {
        Some((PixelFormat::MultipleImages, PixelCompression::NotApplicable))
    } else if c == 0x0E {
        Some((PixelFormat::RGBA, PixelCompression::DXT5BC3))
    } else if c == 0x0F {
        Some((PixelFormat::ScaledYCoCg, PixelCompression::DXT5BC3))
    } else {
        None
    }
}

/// The second-stage compressor that the high nibble `h` of a texture
/// section's type names.
pub open spec fn compressor_of_nibble(h: u8) -> Option<SecondStageCompressor> {
    if h == 0xA0 {
        Some(SecondStageCompressor::Uncompressed)
    } else if h == 0xB0 {
        Some(SecondStageCompressor::Snappy)
    } else if h == 0xC0 {
        Some(SecondStageCompressor::Complex)
    } else {
        None
    }
}

/// The pixel format and block compression that format code `c` names.
pub fn pixel_format_pair(c: u8) -> (r: Option<(PixelFormat, PixelCompression)>)
    ensures
        r == pixel_format_of(c),
{
    if c == 0x01 {
        Some((PixelFormat::Alpha, PixelCompression::RGTC1BC4))
    } else if c == 0x02 {
        Some((PixelFormat::RGBUnsignedFloat, PixelCompression::BC6U))
    } else if c == 0x03 {
        Some((PixelFormat::RGBSignedFloat, PixelCompression::BC6S))
    } else if c == 0x0B {
        Some((PixelFormat::RGB, PixelCompression::DXT1BC1))
    } else if c == 0x0C {
        Some((PixelFormat::RGBA, PixelCompression::BC7))
    } else if c == 0x0D {
        Some((PixelFormat::MultipleImages, PixelCompression::NotApplicable))
    } else if c == 0x0E {
        Some((PixelFormat::RGBA, PixelCompression::DXT5BC3))
    } else if c == 0x0F {
        Some((PixelFormat::ScaledYCoCg, PixelCompression::DXT5BC3))
    } else {
        None
    }
}

/// The header that an outer section of `size` bytes and type `t` gives. A
/// multi-image marker carries no second-stage compression of its own.
pub open spec fn header_of(size: u32, t: u8) -> Result<Header, ErrorKind> {
    match pixel_format_of(t & 0x0F) {
        None => Err(ErrorKind::UnknownTextureFormat(t & 0x0F)),
        Some((f, c)) => if t == MULTIPLE_IMAGES {
            Ok(
                Header {
                    section_size: size,
                    pixel_format: f,
                    pixel_compression: c,
                    second_stage_compressor: SecondStageCompressor::Uncompressed,
                },
            )
        } else {
            match compressor_of_nibble(t & 0xF0) {
                None => Err(ErrorKind::UnknownCompressor(t & 0xF0)),
                Some(k) => Ok(
                    Header {
                        section_size: size,
                        pixel_format: f,
                        pixel_compression: c,
                        second_stage_compressor: k,
                    },
                ),
            }
        },
    }
}

/// The header of an outer section of `size` bytes and type `t`.
pub fn header_for(size: u32, t: u8) -> (r: Result<Header, Error>)
    ensures
        outcome(r) == header_of(size, t),
{
    let (pixel_format, pixel_compression) = match pixel_format_pair(t & 0x0F) {
        Some(p) => p,
        None => return Err(Error::UnknownTextureFormat(t & 0x0F)),
    };
    let second_stage_compressor = if t == MULTIPLE_IMAGES {
        SecondStageCompressor::Uncompressed
    } else {
        let h = t & 0xF0;
        if h == 0xA0 {
            SecondStageCompressor::Uncompressed
        } else if h == 0xB0 {
            SecondStageCompressor::Snappy
        } else if h == 0xC0 {
            SecondStageCompressor::Complex
        } else {
            return Err(Error::UnknownCompressor(h));
        }
    };
    Ok(Header { section_size: size, pixel_format, pixel_compression, second_stage_compressor })
}

} // verus!
