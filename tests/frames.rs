use hap::{
    decode_chunks, frame_length, parse_section_header, parse_toplevel_section, slot_of,
    wrap_single_texture, ChunkSlots, CompressedFormat, Decoder, Error, IoError,
    OpenGLFormatId, PixelCompression, PixelFormat, SecondStageCompressor, Texture,
};

fn preamble(size: u32, t: u8) -> Vec<u8> {
    if size > 0 && size < 0x0100_0000 {
        vec![size as u8, (size >> 8) as u8, (size >> 16) as u8, t]
    } else {
        let mut v = vec![0, 0, 0, t];
        v.extend_from_slice(&size.to_le_bytes());
        v
    }
}

fn section(t: u8, body: &[u8]) -> Vec<u8> {
    let mut v = preamble(body.len() as u32, t);
    v.extend_from_slice(body);
    v
}

fn snappy(b: &[u8]) -> Vec<u8> {
    snap::raw::Encoder::new().compress_vec(b).unwrap()
}

fn words(ws: &[u32]) -> Vec<u8> {
    ws.iter().flat_map(|w| w.to_le_bytes()).collect()
}

fn identity16() -> Vec<u8> {
    (0u8..16).collect()
}

/// A complex texture section of type `t` with the given header sub-sections
/// and body.
fn complex(t: u8, subsections: &[Vec<u8>], body: &[u8]) -> Vec<u8> {
    let header_payload: Vec<u8> = subsections.concat();
    let mut payload = section(0x01, &header_payload);
    payload.extend_from_slice(body);
    section(t, &payload)
}

fn three_chunk_body() -> (Vec<u8>, Vec<u8>, Vec<u8>) {
    let a: Vec<u8> = (1u8..=8).collect();
    let b: Vec<u8> = vec![9, 9, 9, 7, 7];
    let c: Vec<u8> = (20u8..28).collect();
    (a, b, c)
}

fn decode(frame: &[u8]) -> Result<Texture, Error> {
    Decoder::new().decode_frame(frame)
}

#[test]
fn identity_single_texture() {
    let mut frame = vec![0x10, 0x00, 0x00, 0xAB];
    frame.extend(identity16());
    match decode(&frame).unwrap() {
        Texture::RGB_DXT1_BC1(v) => assert_eq!(v, identity16()),
        other => panic!("unexpected {:?}", other),
    }
}

#[test]
fn whole_body_snappy() {
    let raw: Vec<u8> = [0xAA, 0xBB].repeat(8);
    let frame = section(0xBE, &snappy(&raw));
    match decode(&frame).unwrap() {
        Texture::RGBA_DXT5_BC3(v) => assert_eq!(v, raw),
        other => panic!("unexpected {:?}", other),
    }
}

#[test]
fn marker_with_single_inner() {
    let inner = section(0xAB, &identity16());
    let frame = section(0x0D, &inner);
    assert_eq!(frame[0], 20);
    match decode(&frame).unwrap() {
        Texture::RGB_DXT1_BC1(v) => assert_eq!(v, identity16()),
        other => panic!("unexpected {:?}", other),
    }
}

#[test]
fn marker_with_pair() {
    let first = identity16();
    let second: Vec<u8> = (100u8..112).collect();
    let mut payload = section(0xAF, &first);
    payload.extend(section(0xA1, &second));
    let frame = section(0x0D, &payload);
    assert_eq!(frame[0] as usize, 4 + 16 + 4 + 12);
    match decode(&frame).unwrap() {
        Texture::MultipleImages_ScaledYCoCg_DXT5_Alpha_RGTC1(a, b) => {
            assert_eq!(a, first);
            assert_eq!(b, second);
        }
        other => panic!("unexpected {:?}", other),
    }
}

#[test]
fn complex_three_chunks_mixed() {
    let (a, b, c) = three_chunk_body();
    let sb = snappy(&b);
    let mut body = a.clone();
    body.extend(&sb);
    body.extend(&c);
    let frame = complex(
        0xCB,
        &[
            section(0x02, &[0x0A, 0x0B, 0x0A]),
            section(0x03, &words(&[8, sb.len() as u32, 8])),
        ],
        &body,
    );
    let expected: Vec<u8> = [a, b, c].concat();
    match decode(&frame).unwrap() {
        Texture::RGB_DXT1_BC1(v) => assert_eq!(v, expected),
        other => panic!("unexpected {:?}", other),
    }
}

#[test]
fn unknown_texture_nibble() {
    let frame = section(0xA7, &identity16());
    assert!(matches!(decode(&frame), Err(Error::UnknownTextureFormat(0x07))));
}

#[test]
fn preamble_short_and_long_forms() {
    let short = preamble(0x00ABCDEF, 0x42);
    let s = parse_section_header(&short, 0).unwrap();
    assert_eq!((s.size, s.section_type, s.header_size), (0x00ABCDEF, 0x42, 4));
    let long = preamble(0x12345678, 0x07);
    assert_eq!(long.len(), 8);
    let s = parse_section_header(&long, 0).unwrap();
    assert_eq!((s.size, s.section_type, s.header_size), (0x12345678, 0x07, 8));
    let zero = preamble(0, 0x03);
    let s = parse_section_header(&zero, 0).unwrap();
    assert_eq!((s.size, s.section_type, s.header_size), (0, 0x03, 8));
    let edge = preamble(0x0100_0000, 0xFF);
    let s = parse_section_header(&edge, 0).unwrap();
    assert_eq!((s.size, s.section_type, s.header_size), (0x0100_0000, 0xFF, 8));
}

#[test]
fn preamble_at_offset_and_truncated() {
    let mut d = vec![0xEE, 0xEE];
    d.extend(preamble(5, 0xA1));
    let s = parse_section_header(&d, 2).unwrap();
    assert_eq!((s.size, s.section_type, s.header_size), (5, 0xA1, 4));
    assert!(matches!(
        parse_section_header(&[1, 0, 0], 0),
        Err(Error::Io(IoError::UnexpectedEof))
    ));
    assert!(matches!(
        parse_section_header(&[0, 0, 0, 1, 5, 0], 0),
        Err(Error::Io(IoError::UnexpectedEof))
    ));
}

#[test]
fn long_form_outer_section() {
    let mut frame = vec![0, 0, 0, 0xAB];
    frame.extend_from_slice(&16u32.to_le_bytes());
    frame.extend(identity16());
    assert_eq!(frame_length(&frame).unwrap(), 24);
    match decode(&frame).unwrap() {
        Texture::RGB_DXT1_BC1(v) => assert_eq!(v, identity16()),
        other => panic!("unexpected {:?}", other),
    }
}

#[test]
fn offset_table_matches_running_sums() {
    let (a, b, c) = three_chunk_body();
    let sb = snappy(&b);
    let body: Vec<u8> = [a.clone(), sb.clone(), c.clone()].concat();
    let sizes = words(&[8, sb.len() as u32, 8]);
    let without = complex(
        0xCE,
        &[section(0x02, &[0x0A, 0x0B, 0x0A]), section(0x03, &sizes)],
        &body,
    );
    let with = complex(
        0xCE,
        &[
            section(0x02, &[0x0A, 0x0B, 0x0A]),
            section(0x03, &sizes),
            section(0x04, &words(&[0, 8, 8 + sb.len() as u32])),
        ],
        &body,
    );
    let x = decode(&without).unwrap().get_single_texture_raw_data().unwrap();
    let y = decode(&with).unwrap().get_single_texture_raw_data().unwrap();
    assert_eq!(x, y);
    assert_eq!(x, [a, b, c].concat());
}

#[test]
fn offset_table_reorders_chunks() {
    let body: Vec<u8> = (0u8..10).collect();
    let frame = complex(
        0xCB,
        &[
            section(0x02, &[0x0A, 0x0A]),
            section(0x03, &words(&[4, 6])),
            section(0x04, &words(&[6, 0])),
        ],
        &body,
    );
    let v = decode(&frame).unwrap().get_single_texture_raw_data().unwrap();
    assert_eq!(v, vec![6, 7, 8, 9, 0, 1, 2, 3, 4, 5]);
}

#[test]
fn unknown_subsections_are_skipped() {
    let (a, b, c) = three_chunk_body();
    let sb = snappy(&b);
    let body: Vec<u8> = [a, sb.clone(), c].concat();
    let plain = complex(
        0xCB,
        &[
            section(0x02, &[0x0A, 0x0B, 0x0A]),
            section(0x03, &words(&[8, sb.len() as u32, 8])),
        ],
        &body,
    );
    let padded = complex(
        0xCB,
        &[
            section(0x77, &[1, 2, 3]),
            section(0x02, &[0x0A, 0x0B, 0x0A]),
            section(0x09, &[]),
            section(0x03, &words(&[8, sb.len() as u32, 8])),
            section(0xF0, &[0x0C; 9]),
        ],
        &body,
    );
    let x = decode(&plain).unwrap().get_single_texture_raw_data().unwrap();
    let y = decode(&padded).unwrap().get_single_texture_raw_data().unwrap();
    assert_eq!(x, y);
}

#[test]
fn size_table_split_over_two_sections() {
    let body: Vec<u8> = (0u8..12).collect();
    let frame = complex(
        0xCC,
        &[
            section(0x02, &[0x0A, 0x0A, 0x0A]),
            section(0x03, &words(&[2, 3])),
            section(0x03, &words(&[7])),
        ],
        &body,
    );
    match decode(&frame).unwrap() {
        Texture::RGBA_BC7(v) => assert_eq!(v, body),
        other => panic!("unexpected {:?}", other),
    }
}

#[test]
fn slots_filled_out_of_order_match_serial() {
    let (a, b, c) = three_chunk_body();
    let sa = snappy(&a);
    let sc = snappy(&c);
    let body: Vec<u8> = [sa.clone(), b.clone(), sc.clone()].concat();
    let frame = complex(
        0xCB,
        &[
            section(0x02, &[0x0B, 0x0A, 0x0B]),
            section(0x03, &words(&[sa.len() as u32, 5, sc.len() as u32])),
        ],
        &body,
    );
    let decoder = Decoder::new();
    let plan = decoder.plan_frame(&frame).unwrap();
    let serial = decode_chunks(&frame, &plan.first).unwrap();
    let mut slots = ChunkSlots::new(&frame, &plan.first).unwrap();
    let pending = slots.pending();
    assert_eq!(pending, vec![0, 2]);
    let tags: Vec<u128> = vec![0xDEAD, 0xBEEF];
    for (tag, bytes) in [(0xBEEFu128, c.clone()), (0xDEADu128, a.clone())] {
        let k = slot_of(&tags, tag).unwrap();
        slots.fill(pending[k], bytes);
    }
    let pooled = slots.finish().unwrap();
    assert_eq!(pooled, serial);
    assert_eq!(pooled, [a, b, c].concat());
}

#[test]
fn slots_with_gap_do_not_finish() {
    let frame = section(0xBB, &snappy(&[1, 2, 3]));
    let plan = Decoder::new().plan_frame(&frame).unwrap();
    let slots = ChunkSlots::new(&frame, &plan.first).unwrap();
    assert_eq!(slots.len(), 1);
    assert_eq!(slots.pending(), vec![0]);
    assert!(slots.finish().is_none());
}

#[test]
fn slot_of_finds_first_match() {
    assert_eq!(slot_of(&[5, 7, 7, 9], 7), Some(1));
    assert_eq!(slot_of(&[5, 7], 8), None);
    assert_eq!(slot_of(&[], 8), None);
}

#[test]
fn unknown_outer_compressor() {
    let frame = section(0x9B, &identity16());
    assert!(matches!(decode(&frame), Err(Error::UnknownCompressor(0x90))));
}

#[test]
fn unknown_chunk_compressor() {
    let frame = complex(
        0xCB,
        &[section(0x02, &[0x0A, 0x0C]), section(0x03, &words(&[1, 1]))],
        &[1, 2],
    );
    assert!(matches!(decode(&frame), Err(Error::UnknownCompressor(0x0C))));
}

#[test]
fn legacy_chunk_compressor_byte_is_refused() {
    let frame = complex(
        0xCB,
        &[section(0x02, &[0xA0]), section(0x03, &words(&[2]))],
        &[1, 2],
    );
    assert!(matches!(decode(&frame), Err(Error::UnknownCompressor(0xA0))));
}

#[test]
fn truncated_body_is_eof() {
    let mut frame = section(0xAB, &identity16());
    frame.truncate(12);
    assert!(matches!(decode(&frame), Err(Error::Io(IoError::UnexpectedEof))));
    assert!(matches!(decode(&[]), Err(Error::Io(IoError::UnexpectedEof))));
}

#[test]
fn table_count_mismatch_is_invalid() {
    let frame = complex(
        0xCB,
        &[section(0x02, &[0x0A]), section(0x03, &words(&[1, 1]))],
        &[1, 2],
    );
    assert!(matches!(decode(&frame), Err(Error::Io(IoError::InvalidData))));
}

#[test]
fn ragged_size_table_is_eof() {
    let frame = complex(
        0xCB,
        &[section(0x02, &[0x0A]), section(0x03, &[2, 0, 0])],
        &[1, 2],
    );
    assert!(matches!(decode(&frame), Err(Error::Io(IoError::UnexpectedEof))));
}

#[test]
fn chunk_past_body_is_invalid() {
    let frame = complex(
        0xCB,
        &[section(0x02, &[0x0A]), section(0x03, &words(&[3]))],
        &[1, 2],
    );
    assert!(matches!(decode(&frame), Err(Error::Io(IoError::InvalidData))));
}

#[test]
fn subsection_past_header_is_invalid() {
    let mut header_payload = section(0x02, &[0x0A]);
    header_payload.truncate(4);
    let mut payload = section(0x01, &header_payload);
    payload.extend_from_slice(&[0; 4]);
    let frame = section(0xCB, &payload);
    assert!(matches!(decode(&frame), Err(Error::Io(IoError::InvalidData))));
}

#[test]
fn bad_snappy_data() {
    let frame = section(0xBB, &[0xFF, 0xFF, 0xFF, 0xFF, 0xFF, 0xFF]);
    assert!(matches!(decode(&frame), Err(Error::Snappy(_))));
}

#[test]
fn empty_snappy_chunk_is_refused() {
    let frame = complex(
        0xCB,
        &[section(0x02, &[0x0B]), section(0x03, &words(&[0]))],
        &[],
    );
    assert!(matches!(decode(&frame), Err(Error::Snappy(_))));
}

#[test]
fn opengl_ids() {
    let t = |c: u8| wrap_single_texture(0xA0 | c, vec![1]).unwrap().opengl_pixelformat_id();
    assert_eq!(t(0x0B), OpenGLFormatId::Single(0x83F0));
    assert_eq!(t(0x0E), OpenGLFormatId::Single(0x83F3));
    assert_eq!(t(0x0C), OpenGLFormatId::Single(0x8E8C));
    assert_eq!(t(0x02), OpenGLFormatId::Single(0x8E8F));
    assert_eq!(t(0x03), OpenGLFormatId::Single(0x8E8E));
    assert_eq!(t(0x0F), OpenGLFormatId::Unsupported);
    assert_eq!(t(0x01), OpenGLFormatId::Unsupported);
    let pair = Texture::MultipleImages_ScaledYCoCg_DXT5_Alpha_RGTC1(vec![], vec![]);
    assert_eq!(pair.opengl_pixelformat_id(), OpenGLFormatId::Unsupported);
}

#[test]
fn glium_formats() {
    let t = |c: u8| wrap_single_texture(c, vec![]).unwrap().glium_compressed_format();
    assert_eq!(t(0x0B), Some(CompressedFormat::S3tcDxt1NoAlpha));
    assert_eq!(t(0x0E), Some(CompressedFormat::S3tcDxt5Alpha));
    assert_eq!(t(0x02), Some(CompressedFormat::BptcUnsignedFloat3));
    assert_eq!(t(0x03), Some(CompressedFormat::BptcSignedFloat3));
    assert_eq!(t(0x0C), None);
    assert_eq!(t(0x0F), None);
    assert_eq!(t(0x01), None);
}

#[test]
fn raw_data_getters() {
    let t = wrap_single_texture(0xFF, vec![4, 5]).unwrap();
    assert!(matches!(t, Texture::ScaledYCoCg_DXT5_BC3(_)));
    assert_eq!(t.get_single_texture_raw_data_ref(), Some(&[4u8, 5][..]));
    assert_eq!(t.get_single_texture_raw_data(), Some(vec![4, 5]));
    let pair = Texture::MultipleImages_ScaledYCoCg_DXT5_Alpha_RGTC1(vec![1], vec![2]);
    assert_eq!(pair.get_single_texture_raw_data_ref(), None);
    assert_eq!(pair.get_single_texture_raw_data(), None);
}

#[test]
fn wrap_rejects_marker_and_unknown_codes() {
    assert!(matches!(
        wrap_single_texture(0x0D, vec![]),
        Err(Error::UnknownTextureFormat(0x0D))
    ));
    assert!(matches!(
        wrap_single_texture(0xB4, vec![]),
        Err(Error::UnknownTextureFormat(0x04))
    ));
    assert!(matches!(wrap_single_texture(0x01, vec![]), Ok(Texture::Alpha_RGTC1_BC4(_))));
    assert!(matches!(wrap_single_texture(0x02, vec![]), Ok(Texture::RGBUnsignedFloat_BC6U(_))));
    assert!(matches!(wrap_single_texture(0x03, vec![]), Ok(Texture::RGBSignedFloat_BC6S(_))));
    assert!(matches!(wrap_single_texture(0x0C, vec![]), Ok(Texture::RGBA_BC7(_))));
}

#[test]
fn chunk_compressor_bytes() {
    assert_eq!(
        hap::decode_second_stage_compressor(0x0A).unwrap(),
        SecondStageCompressor::Uncompressed
    );
    assert_eq!(
        hap::decode_second_stage_compressor(0x0B).unwrap(),
        SecondStageCompressor::Snappy
    );
    assert!(matches!(
        hap::decode_second_stage_compressor(0xB0),
        Err(Error::UnknownCompressor(0xB0))
    ));
}

#[test]
fn toplevel_header() {
    let h = parse_toplevel_section(&section(0xCF, &[0; 3])).unwrap();
    assert_eq!(h.section_size, 3);
    assert_eq!(h.pixel_format, PixelFormat::ScaledYCoCg);
    assert_eq!(h.pixel_compression, PixelCompression::DXT5BC3);
    assert_eq!(h.second_stage_compressor, SecondStageCompressor::Complex);
    let h = parse_toplevel_section(&preamble(40, 0x0D)).unwrap();
    assert_eq!(h.pixel_format, PixelFormat::MultipleImages);
    assert_eq!(h.pixel_compression, PixelCompression::NotApplicable);
    assert!(matches!(
        parse_toplevel_section(&preamble(1, 0xD1)),
        Err(Error::UnknownCompressor(0xD0))
    ));
    assert!(matches!(
        parse_toplevel_section(&preamble(1, 0xA5)),
        Err(Error::UnknownTextureFormat(0x05))
    ));
}

#[test]
fn trailing_bytes_are_left_alone() {
    let mut frame = section(0xA1, &[7, 8]);
    frame.extend_from_slice(&[0xFF; 5]);
    assert_eq!(frame_length(&frame).unwrap(), 6);
    match decode(&frame).unwrap() {
        Texture::Alpha_RGTC1_BC4(v) => assert_eq!(v, vec![7, 8]),
        other => panic!("unexpected {:?}", other),
    }
}

#[test]
fn texture_labels() {
    let t = wrap_single_texture(0x02, vec![0; 9]).unwrap();
    let (one, two) = t.labels();
    assert_eq!((one.color, one.compression, one.size), ("RGB unsigned float", "BC6U", 9));
    assert!(two.is_none());
    let t = wrap_single_texture(0x01, vec![0; 2]).unwrap();
    assert_eq!(t.labels().0.compression, "RGTC1/BC4");
    let pair = Texture::MultipleImages_ScaledYCoCg_DXT5_Alpha_RGTC1(vec![0; 3], vec![0; 5]);
    let (a, b) = pair.labels();
    let b = b.unwrap();
    assert_eq!((a.color, a.compression, a.size), ("ScaledYCoCg", "DXT5/BC3", 3));
    assert_eq!((b.color, b.compression, b.size), ("Alpha", "BC4", 5));
}

#[test]
fn marker_size_must_cover_both_inner_sections() {
    let mut payload = section(0xAB, &[1, 2, 3, 4]);
    payload.extend(section(0xA1, &[5, 6, 7, 8]));
    let mut frame = preamble(100, 0x0D);
    frame.extend(&payload);
    assert!(matches!(decode(&frame), Err(Error::Io(IoError::InvalidData))));
    let mut exact = preamble(payload.len() as u32, 0x0D);
    exact.extend(&payload);
    match decode(&exact).unwrap() {
        Texture::MultipleImages_ScaledYCoCg_DXT5_Alpha_RGTC1(a, b) => {
            assert_eq!(a, vec![1, 2, 3, 4]);
            assert_eq!(b, vec![5, 6, 7, 8]);
        }
        other => panic!("unexpected {:?}", other),
    }
}

#[test]
fn compressor_tables_are_appended() {
    let b: Vec<u8> = vec![3, 1, 4, 1, 5];
    let sb = snappy(&b);
    let body: Vec<u8> = [vec![9, 8], sb.clone()].concat();
    let frame = complex(
        0xCB,
        &[
            section(0x02, &[0x0A]),
            section(0x02, &[0x0B]),
            section(0x03, &words(&[2, sb.len() as u32])),
        ],
        &body,
    );
    let v = decode(&frame).unwrap().get_single_texture_raw_data().unwrap();
    assert_eq!(v, [vec![9, 8], b].concat());
}
