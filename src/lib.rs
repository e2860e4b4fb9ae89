//! Decoder for Hap frames: GPU block-compressed textures wrapped in nested
//! sections, optionally passed through Snappy, whole or in chunks.
pub mod decoder;
pub mod error;
pub mod instructions;
pub mod pool;
pub mod section;
pub mod snappy;
pub mod texture;

pub use decoder::{
    assemble_texture, decode_chunks, decode_piece, frame_length, is_single_format,
    parse_toplevel_section, Decoder, FramePlan,
};
pub use error::{Error, ErrorKind, IoError};
pub use instructions::{decode_second_stage_compressor, ChunkInfo};
pub use pool::{slot_of, ChunkSlots};
pub use section::{parse_section_header, RawSection};
pub use texture::{
    header_for, pixel_format_pair, wrap_single_texture, CompressedFormat, Header, TextureLabel,
    OpenGLFormatId, PixelCompression, PixelFormat, RawTexture, SecondStageCompressor, Texture,
    MULTIPLE_IMAGES,
};
