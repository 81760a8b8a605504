use sfrom::{
    parse_sfrom, plan_layout, EnhancementChip, GameTagData, Sfrom, SfromError, SfromFooter,
    SfromHeader,
};

fn empty_tags() -> GameTagData {
    GameTagData {
        armet_threshold: None,
        sdd1_data: None,
        preset_id: None,
        flags: None,
        unknown_s: None,
        superfx_clock: None,
        armet_version: None,
        snes_header_location: None,
        unknown_d: None,
        enhancement_chip: None,
        resolution_ratio: None,
        unknown_j: None,
        mouse_flag: None,
        max_players: None,
        visible_height: None,
        unknown_t: None,
        volume: None,
    }
}

fn header(total: u32, pcm: u32, pcm_f: u32, footer: u32) -> SfromHeader {
    SfromHeader {
        magic: 0x100,
        file_size: total,
        rom_location: 48,
        pcm_samples_location: pcm,
        pcm_footer_location: pcm_f,
        footer_location: footer,
        sdd1_data_offset: 0,
        reserved1: 0,
        unknown1: 0,
        wiiu_game_id: [0u8; 8],
        reserved2: 0,
    }
}

fn plain_footer() -> SfromFooter {
    SfromFooter {
        fps: 0x3c,
        rom_size: 10,
        pcm_samples_size: 0,
        pcm_footer_size: 0,
        preset_id: 0,
        player_count: 1,
        sound_volume: 255,
        rom_type: 0x14,
        enhancement_chip: 0x00,
        unknown1: 1,
        unknown2: 1,
    }
}

/// The 93-byte no-audio scenario: a 10-byte ROM at offset 48, footer at
/// 58, empty tag table.
fn scenario_container() -> Sfrom {
    Sfrom {
        header: header(93, 58, 58, 58),
        rom_data: vec![1, 2, 3, 4, 5, 6, 7, 8, 9, 10],
        pcm_data: None,
        pcm_footer: None,
        footer: plain_footer(),
        game_tags: empty_tags(),
    }
}

fn scenario_bytes() -> Vec<u8> {
    let mut expected: Vec<u8> = Vec::new();
    // header
    expected.extend_from_slice(&[0x00, 0x01, 0x00, 0x00]); // magic 0x100
    expected.extend_from_slice(&[93, 0, 0, 0]); // total size
    expected.extend_from_slice(&[48, 0, 0, 0]); // rom offset
    expected.extend_from_slice(&[58, 0, 0, 0]); // audio samples offset
    expected.extend_from_slice(&[58, 0, 0, 0]); // audio trailer offset
    expected.extend_from_slice(&[58, 0, 0, 0]); // footer offset
    expected.extend_from_slice(&[0; 4]); // codec payload offset
    expected.extend_from_slice(&[0; 4]); // reserved
    expected.extend_from_slice(&[0; 4]); // flags
    expected.extend_from_slice(&[0; 8]); // platform id
    expected.extend_from_slice(&[0; 4]); // reserved
    // rom
    expected.extend_from_slice(&[1, 2, 3, 4, 5, 6, 7, 8, 9, 10]);
    // footer
    expected.push(0x3c);
    expected.extend_from_slice(&[10, 0, 0, 0]); // rom size
    expected.extend_from_slice(&[0; 4]); // audio size
    expected.extend_from_slice(&[0; 4]); // audio trailer size
    expected.extend_from_slice(&[0, 0]); // preset id
    expected.push(1); // player count
    expected.push(255); // volume
    expected.push(0x14); // addressing mode
    expected.push(0x00); // hw extension
    expected.extend_from_slice(&[1, 0, 0, 0]);
    expected.extend_from_slice(&[1, 0, 0, 0]);
    expected.extend_from_slice(&[0; 8]); // reserved tail of the footer region
    expected
}

#[test]
fn write_scenario_exact_bytes() {
    let out = scenario_container().write();
    let expected = scenario_bytes();
    assert_eq!(out.len(), 93);
    assert_eq!(out, expected);
    // total_size field of the emitted header
    assert_eq!(u32::from_le_bytes([out[4], out[5], out[6], out[7]]), 93);
}

#[test]
fn parse_write_roundtrip_no_audio() {
    let c = scenario_container();
    let out = c.write();
    let back = Sfrom::parse(&out).expect("self-produced output must parse");
    assert_eq!(back, c);
}

#[test]
fn parse_write_roundtrip_with_audio_and_tags() {
    let rom = vec![0xaa; 7];
    let pcm = vec![0xbb; 5];
    let pcm_f = vec![0xcc; 3];
    let mut tags = empty_tags();
    tags.armet_threshold = Some([9, 8, 7]);
    tags.sdd1_data = Some(vec![1, 2, 3, 4]);
    tags.preset_id = Some(0x0102);
    // tag table: A + 3, D + 3-byte length + 4, G + 3 + 2  => 4 + 8 + 6 = 18
    let total = 48 + 7 + 5 + 3 + 35 + 18;
    let c = Sfrom {
        header: SfromHeader {
            magic: 0x100,
            file_size: total,
            rom_location: 48,
            pcm_samples_location: 55,
            pcm_footer_location: 60,
            footer_location: 63,
            sdd1_data_offset: 0x1234,
            reserved1: 0,
            unknown1: 0xdead,
            wiiu_game_id: *b"WUP-TEST",
            reserved2: 0,
        },
        rom_data: rom,
        pcm_data: Some(pcm),
        pcm_footer: Some(pcm_f),
        footer: plain_footer(),
        game_tags: tags,
    };
    let out = c.write();
    assert_eq!(out.len(), total as usize);
    let back = Sfrom::parse(&out).expect("self-produced output must parse");
    assert_eq!(back, c);
}

#[test]
fn reencode_is_stable_for_noncanonical_input() {
    // Non-canonical: junk declared size and reserved words, a tag the
    // encoder does not emit, and an audio pair of two empty blobs.
    let mut tags = empty_tags();
    tags.flags = Some([1, 2, 3, 4, 5, 6, 7]);
    tags.preset_id = Some(7);
    let c = Sfrom {
        header: SfromHeader {
            magic: 0,
            file_size: 0xffff,
            rom_location: 0,
            pcm_samples_location: 1,
            pcm_footer_location: 2,
            footer_location: 3,
            sdd1_data_offset: 5,
            reserved1: 9,
            unknown1: 8,
            wiiu_game_id: [7u8; 8],
            reserved2: 9,
        },
        rom_data: vec![1, 2, 3],
        pcm_data: Some(vec![]),
        pcm_footer: Some(vec![]),
        footer: plain_footer(),
        game_tags: tags,
    };
    let once = Sfrom::parse(&c.write()).expect("first pass must parse");
    // the empty audio pair collapsed to an explicit absence
    assert!(once.pcm_data.is_none());
    assert!(once.pcm_footer.is_none());
    // the unconfirmed tag was dropped; the confirmed one survived
    assert!(once.game_tags.flags.is_none());
    assert_eq!(once.game_tags.preset_id, Some(7));
    let twice = Sfrom::parse(&once.write()).expect("second pass must parse");
    assert_eq!(twice, once);
}

#[test]
fn sentinel_offsets_mean_no_audio() {
    let out = scenario_container().write();
    let pcm_off = u32::from_le_bytes([out[12], out[13], out[14], out[15]]);
    let footer_off = u32::from_le_bytes([out[20], out[21], out[22], out[23]]);
    assert_eq!(pcm_off, footer_off);
    let back = Sfrom::parse(&out).unwrap();
    assert!(back.pcm_data.is_none());
    assert!(back.pcm_footer.is_none());
}

#[test]
fn short_buffer_is_truncated_header() {
    let buf = [0u8; 47];
    assert_eq!(
        Sfrom::parse(&buf),
        Err(SfromError::TruncatedHeader { offset: 0 })
    );
    assert_eq!(
        Sfrom::parse(&[]),
        Err(SfromError::TruncatedHeader { offset: 0 })
    );
}

#[test]
fn footer_offset_past_end_is_out_of_bounds() {
    let mut buf = scenario_bytes();
    // declare the footer (and audio) offsets past the end of the buffer
    for i in 12..24 {
        buf[i] = 0;
    }
    buf[12] = 200; // audio samples offset
    buf[16] = 200; // audio trailer offset
    buf[20] = 200; // footer offset
    assert_eq!(
        Sfrom::parse(&buf),
        Err(SfromError::OutOfBounds { offset: 200 })
    );
}

#[test]
fn wrong_magic_is_bad_magic() {
    let mut buf = scenario_bytes();
    buf[0] = 0x42;
    assert_eq!(Sfrom::parse(&buf), Err(SfromError::BadMagic { offset: 0 }));
}

#[test]
fn footer_region_too_short_is_truncated_footer() {
    let mut buf = scenario_bytes();
    buf.truncate(80); // footer at 58 has only 22 bytes left
    // keep declared offsets within the shortened buffer
    let out = Sfrom::parse(&buf);
    assert_eq!(out, Err(SfromError::TruncatedFooter { offset: 58 }));
}

#[test]
fn overlong_tag_length_is_invalid_payload() {
    let mut buf = scenario_bytes();
    // append a length-prefixed tag declaring more bytes than remain
    buf.extend_from_slice(&[b'D', 4, 0, 0, 1, 2]); // declares 4, has 2
    assert_eq!(
        Sfrom::parse(&buf),
        Err(SfromError::InvalidTagPayload { offset: 93 })
    );
}

#[test]
fn truncated_fixed_tag_is_invalid_payload() {
    let buf = [b'A', 1, 2];
    assert_eq!(
        GameTagData::parse(&buf),
        Err(SfromError::InvalidTagPayload { offset: 0 })
    );
}

#[test]
fn unknown_leading_byte_ends_table_without_error() {
    let buf = [0x5a, 1, 2, 3, 4];
    let (tags, consumed) = GameTagData::parse(&buf).expect("unknown tag is not an error");
    assert_eq!(consumed, 0);
    assert_eq!(tags, empty_tags());
}

#[test]
fn empty_buffer_is_empty_table() {
    let (tags, consumed) = GameTagData::parse(&[]).unwrap();
    assert_eq!(consumed, 0);
    assert_eq!(tags, empty_tags());
}

#[test]
fn preset_tag_encodes_reserved_bytes_then_value() {
    let mut tags = empty_tags();
    tags.preset_id = Some(0x1234);
    let out = tags.encode();
    assert_eq!(out, vec![b'G', 0, 0, 0, 0x34, 0x12]);
}

#[test]
fn tag_table_decodes_all_three_known_tags() {
    let mut buf: Vec<u8> = Vec::new();
    buf.extend_from_slice(&[b'A', 10, 20, 30]);
    buf.extend_from_slice(&[b'D', 2, 0, 0, 0xfe, 0xff]);
    buf.extend_from_slice(&[b'G', 9, 9, 9, 0x34, 0x12]);
    buf.extend_from_slice(&[b'Z', 1, 2, 3]); // unconsumed suffix
    let (tags, consumed) = GameTagData::parse(&buf).unwrap();
    assert_eq!(consumed, buf.len() - 4);
    assert_eq!(tags.armet_threshold, Some([10, 20, 30]));
    assert_eq!(tags.sdd1_data, Some(vec![0xfe, 0xff]));
    assert_eq!(tags.preset_id, Some(0x1234));
}

#[test]
fn later_duplicate_tag_wins() {
    let mut buf: Vec<u8> = Vec::new();
    buf.extend_from_slice(&[b'A', 1, 1, 1]);
    buf.extend_from_slice(&[b'A', 2, 2, 2]);
    let (tags, consumed) = GameTagData::parse(&buf).unwrap();
    assert_eq!(consumed, 8);
    assert_eq!(tags.armet_threshold, Some([2, 2, 2]));
}

#[test]
fn layout_planner_no_audio() {
    let l = plan_layout(10, None, 0);
    assert_eq!(l.rom_start, 48);
    assert_eq!(l.pcm_samples_start, 58);
    assert_eq!(l.pcm_footer_start, 58);
    assert_eq!(l.footer_start, 58);
    assert_eq!(l.total_size, 93);
}

#[test]
fn layout_planner_with_audio() {
    let l = plan_layout(100, Some((40, 8)), 6);
    assert_eq!(l.rom_start, 48);
    assert_eq!(l.pcm_samples_start, 148);
    assert_eq!(l.pcm_footer_start, 188);
    assert_eq!(l.footer_start, 196);
    assert_eq!(l.total_size, 196 + 35 + 6);
}

#[test]
fn header_codec_roundtrip() {
    let h = SfromHeader {
        magic: 0x100,
        file_size: 0x01020304,
        rom_location: 48,
        pcm_samples_location: 0x1000,
        pcm_footer_location: 0x2000,
        footer_location: 0x3000,
        sdd1_data_offset: 0xa0b0c0d0,
        reserved1: 0,
        unknown1: 0x55aa55aa,
        wiiu_game_id: *b"WUP-AAAA",
        reserved2: 0,
    };
    let bytes = h.encode();
    assert_eq!(bytes.len(), 48);
    let (back, n) = SfromHeader::parse(&bytes).unwrap();
    assert_eq!(n, 48);
    assert_eq!(back, h);
    assert_eq!(
        SfromHeader::parse(&bytes[..40]),
        Err(SfromError::TruncatedHeader { offset: 0 })
    );
}

#[test]
fn footer_codec_roundtrip() {
    let f = SfromFooter {
        fps: 0x32,
        rom_size: 0x123456,
        pcm_samples_size: 77,
        pcm_footer_size: 33,
        preset_id: 0x4242,
        player_count: 2,
        sound_volume: 100,
        rom_type: 0x15,
        enhancement_chip: 0x0c,
        unknown1: 1,
        unknown2: 1,
    };
    let bytes = f.encode();
    assert_eq!(bytes.len(), 35);
    let (back, n) = SfromFooter::parse(&bytes).unwrap();
    assert_eq!(n, 35);
    assert_eq!(back, f);
    assert_eq!(
        SfromFooter::parse(&bytes[..34]),
        Err(SfromError::TruncatedFooter { offset: 0 })
    );
}

#[test]
fn parse_sfrom_sequential_layout() {
    let mut buf: Vec<u8> = Vec::new();
    buf.extend_from_slice(&header(83, 48, 48, 48).encode());
    buf.extend_from_slice(&plain_footer().encode());
    buf.extend_from_slice(&[b'G', 0, 0, 0, 0x34, 0x12]);
    let ((h, f, t), consumed) = parse_sfrom(&buf).unwrap();
    assert_eq!(consumed, buf.len());
    assert_eq!(h, header(83, 48, 48, 48));
    assert_eq!(f, plain_footer());
    assert_eq!(t.preset_id, Some(0x1234));
}

#[test]
fn enhancement_chip_codes_roundtrip() {
    let chips = [
        EnhancementChip::Normal,
        EnhancementChip::Dsp1,
        EnhancementChip::Sdd1,
        EnhancementChip::Cx4,
        EnhancementChip::MegaManX,
        EnhancementChip::Sa1_1,
        EnhancementChip::Sa1_2,
        EnhancementChip::Sa1_3,
        EnhancementChip::Sa1_4,
        EnhancementChip::Sa1_5,
        EnhancementChip::Sa1_6,
        EnhancementChip::SuperFx,
    ];
    let codes = [
        0x00, 0x02, 0x03, 0x04, 0x05, 0x06, 0x07, 0x08, 0x09, 0x0a, 0x0b, 0x0c,
    ];
    for (chip, code) in chips.iter().zip(codes.iter()) {
        assert_eq!(chip.code(), *code);
        assert_eq!(EnhancementChip::from_code(*code), Some(*chip));
    }
    assert_eq!(EnhancementChip::from_code(0x01), None);
    assert_eq!(EnhancementChip::from_code(0x0d), None);
}
