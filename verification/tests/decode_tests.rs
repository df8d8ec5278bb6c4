use ooa_unpack::error::UnpackError;
use ooa_unpack::ooa::EncBlock;
use ooa_unpack::pe::decode_vendor_section;
use ooa_unpack::{apex, bf2042, skate_cpt, titanfall2};

struct Fixture {
    tls_list: bool,
    mod256: bool,
    trailing_fixed: Option<usize>,
}

const TITANFALL2_FP: [u8; 20] = [
    144, 186, 35, 2, 239, 178, 23, 166, 193, 39, 171, 1, 174, 248, 38, 101, 194, 51, 160, 24,
];

const APEX_FP: [u8; 20] = [
    250, 245, 169, 146, 9, 235, 14, 14, 206, 72, 175, 215, 8, 35, 218, 185, 77, 140, 48, 61,
];

fn fp_of(v: Vec<u8>) -> [u8; 20] {
    let mut fp = [0u8; 20];
    fp.copy_from_slice(&v);
    fp
}

fn sample_blocks() -> Vec<EncBlock> {
    vec![
        EncBlock {
            va: 0x1000,
            raw_size: 0x200,
            virtual_size: 0x1f0,
            unk: 7,
            crc: 0xAABBCCDD,
            unk2: 0,
            crc2: 0x11223344,
            pad: 0,
            file_offset: 0,
            pad2: 0,
            pad3: 0,
        },
        EncBlock {
            va: 0x3000,
            raw_size: 0x400,
            virtual_size: 0x3f8,
            unk: 9,
            crc: 0x01020304,
            unk2: 0,
            crc2: 0x05060708,
            pad: 0,
            file_offset: 0,
            pad2: 0,
            pad3: 0,
        },
    ]
}

#[allow(clippy::too_many_arguments)]
fn build_section(
    fx: &Fixture,
    fingerprint: &[u8; 20],
    label: &str,
    imports: usize,
    thunks: usize,
    reloc_payload: usize,
    tls_entries: usize,
    oep: u32,
    blocks: &[EncBlock],
    image_base: u64,
    size_of_image: u32,
    import_dir: (u32, u32),
    reloc_dir: (u32, u32),
    iat_dir: (u32, u32),
) -> Vec<u8> {
    let mut d = vec![0u8; 0x42];
    d[0x2A..0x3E].copy_from_slice(fingerprint);
    let mut w: Vec<u8> = Vec::new();
    for c in label.encode_utf16() {
        w.extend_from_slice(&c.to_le_bytes());
    }
    w.extend_from_slice(&[0, 0]);
    while w.len() < 0x200 {
        w.push(0);
    }
    d.extend_from_slice(&w);
    assert_eq!(d.len(), 0x242);
    for i in 0..imports {
        d.extend_from_slice(&(i as u32 + 1).to_le_bytes());
        d.extend_from_slice(&[0u8; 16]);
    }
    d.extend_from_slice(&[0u8; 20]);
    for _pass in 0..2 {
        for i in 0..thunks {
            d.extend_from_slice(&(0xDEAD_u32 + i as u32).to_le_bytes());
            d.extend_from_slice(&0u32.to_le_bytes());
        }
        d.extend_from_slice(&[0u8; 8]);
    }
    d.extend_from_slice(&[0u8; 72]);
    d.extend_from_slice(&(reloc_payload as u32).to_le_bytes());
    d.extend_from_slice(&0u32.to_le_bytes());
    for _ in 0..reloc_payload {
        d.push(0xCC);
    }
    d.extend_from_slice(&[0u8; 16]);
    if fx.tls_list {
        for i in 0..tls_entries {
            d.extend_from_slice(&(0x1000_u64 + i as u64).to_le_bytes());
        }
        d.extend_from_slice(&[0u8; 8]);
    }
    if fx.mod256 {
        let fill = (0x1ea - (d.len() % 0x100)) % 0x100;
        for _ in 0..fill {
            d.push(0);
        }
    }
    d.extend_from_slice(&oep.to_le_bytes());
    d.push(blocks.len() as u8);
    for b in blocks {
        d.extend_from_slice(&b.va.to_le_bytes());
        d.extend_from_slice(&b.raw_size.to_le_bytes());
        d.extend_from_slice(&b.virtual_size.to_le_bytes());
        d.extend_from_slice(&b.unk.to_le_bytes());
        d.extend_from_slice(&b.crc.to_le_bytes());
        d.extend_from_slice(&b.unk2.to_le_bytes());
        d.extend_from_slice(&b.crc2.to_le_bytes());
        d.extend_from_slice(&b.pad.to_le_bytes());
        d.extend_from_slice(&b.file_offset.to_le_bytes());
        d.extend_from_slice(&b.pad2.to_le_bytes());
        d.extend_from_slice(&b.pad3.to_le_bytes());
    }
    let trail = match fx.trailing_fixed {
        Some(k) => k,
        None => 0x30 * (10 - blocks.len()) + 8,
    };
    for _ in 0..trail {
        d.push(0);
    }
    d.push(1);
    d.extend_from_slice(&image_base.to_le_bytes());
    d.extend_from_slice(&size_of_image.to_le_bytes());
    for (va, sz) in [import_dir, reloc_dir, iat_dir] {
        d.extend_from_slice(&va.to_le_bytes());
        d.extend_from_slice(&sz.to_le_bytes());
    }
    d
}

fn titanfall2_fixture() -> Fixture {
    Fixture { tls_list: false, mod256: false, trailing_fixed: Some(393) }
}

fn apex_fixture() -> Fixture {
    Fixture { tls_list: false, mod256: false, trailing_fixed: Some(392) }
}

fn bf2042_fixture() -> Fixture {
    Fixture { tls_list: true, mod256: true, trailing_fixed: None }
}

fn skate_fixture() -> Fixture {
    Fixture { tls_list: false, mod256: false, trailing_fixed: Some(0xF8) }
}

#[test]
fn titanfall2_round_trip() {
    let blocks = sample_blocks();
    let data = build_section(
        &titanfall2_fixture(),
        &TITANFALL2_FP,
        "TestGame",
        2,
        3,
        5,
        0,
        0x4321,
        &blocks,
        0x1_4000_0000,
        0x80000,
        (0x100, 0x20),
        (0x200, 0x30),
        (0x300, 0x40),
    );
    let sec = titanfall2::parse(&data).expect("decode failed");
    assert_eq!(sec.content_id, "TestGame");
    assert_eq!(sec.oep, 0x4321);
    assert_eq!(sec.enc_blocks, blocks);
    assert_eq!(sec.image_base, 0x1_4000_0000);
    assert_eq!(sec.size_of_image, 0x80000);
    assert_eq!((sec.import_dir.va, sec.import_dir.size), (0x100, 0x20));
    assert_eq!((sec.reloc_dir.va, sec.reloc_dir.size), (0x200, 0x30));
    assert_eq!((sec.iat_dir.va, sec.iat_dir.size), (0x300, 0x40));
}

#[test]
fn apex_round_trip() {
    let blocks = sample_blocks();
    let data = build_section(
        &apex_fixture(),
        &APEX_FP,
        "ApexTitle",
        1,
        1,
        0,
        0,
        0xABCD,
        &blocks,
        0x1_4000_0000,
        0x90000,
        (0x111, 0x22),
        (0x333, 0x44),
        (0x555, 0x66),
    );
    let sec = apex::parse_s11_1(&data).expect("decode failed");
    assert_eq!(sec.content_id, "ApexTitle");
    assert_eq!(sec.oep, 0xABCD);
    assert_eq!(sec.enc_blocks, blocks);
    assert_eq!(sec.image_base, 0x1_4000_0000);
    assert_eq!(sec.size_of_image, 0x90000);
}

#[test]
fn bf2042_round_trip() {
    let blocks = sample_blocks();
    let data = build_section(
        &bf2042_fixture(),
        &fp_of(bf2042::fingerprint_bytes()),
        "Kingston",
        2,
        2,
        7,
        3,
        0x777,
        &blocks,
        0x1_4000_0000,
        0,
        (0xA00, 0xB0),
        (0xC00, 0xD0),
        (0xE00, 0xF0),
    );
    let sec = bf2042::parse(&data).expect("decode failed");
    assert_eq!(sec.content_id, "Kingston");
    assert_eq!(sec.oep, 0x777);
    assert_eq!(sec.enc_blocks, blocks);
    assert_eq!(sec.size_of_image, 0);
    assert_eq!((sec.iat_dir.va, sec.iat_dir.size), (0xE00, 0xF0));
}

#[test]
fn skate_round_trip() {
    let blocks = sample_blocks();
    let data = build_section(
        &skate_fixture(),
        &fp_of(skate_cpt::fingerprint_bytes()),
        "SkateCpt",
        0,
        0,
        0,
        0,
        0x9999,
        &blocks,
        0,
        0x70000,
        (0x10, 0x20),
        (0x30, 0x40),
        (0x50, 0x60),
    );
    let sec = skate_cpt::parse(&data).expect("decode failed");
    assert_eq!(sec.content_id, "SkateCpt");
    assert_eq!(sec.oep, 0x9999);
    assert_eq!(sec.enc_blocks, blocks);
    assert_eq!(sec.image_base, 0);
}

#[test]
fn dispatch_selects_variant_by_fingerprint() {
    let blocks = sample_blocks();
    let data = build_section(
        &titanfall2_fixture(),
        &TITANFALL2_FP,
        "TestGame",
        1,
        1,
        0,
        0,
        0x4321,
        &blocks,
        0,
        0,
        (1, 1),
        (1, 1),
        (1, 1),
    );
    let sec = decode_vendor_section(&data).expect("dispatch failed");
    assert_eq!(sec.content_id, "TestGame");
    assert_eq!(sec.oep, 0x4321);
}

#[test]
fn decoding_is_deterministic() {
    let blocks = sample_blocks();
    let data = build_section(
        &titanfall2_fixture(),
        &TITANFALL2_FP,
        "SameBytes",
        2,
        1,
        9,
        0,
        0x1111,
        &blocks,
        7,
        8,
        (9, 10),
        (11, 12),
        (13, 14),
    );
    let a = titanfall2::parse(&data).expect("first decode failed");
    let b = titanfall2::parse(&data).expect("second decode failed");
    assert_eq!(a.content_id, b.content_id);
    assert_eq!(a.oep, b.oep);
    assert_eq!(a.enc_blocks, b.enc_blocks);
    assert_eq!(a.image_base, b.image_base);
    assert_eq!(a.size_of_image, b.size_of_image);
    assert_eq!(a.import_dir, b.import_dir);
    assert_eq!(a.reloc_dir, b.reloc_dir);
    assert_eq!(a.iat_dir, b.iat_dir);
}

#[test]
fn sentinel_first_consumes_one_record() {
    // Zero import and thunk tables: each loop must stop at its very first
    // record, and the rest of the layout still lines up.
    let blocks = sample_blocks();
    let data = build_section(
        &titanfall2_fixture(),
        &TITANFALL2_FP,
        "Minimal",
        0,
        0,
        0,
        0,
        0x42,
        &blocks,
        1,
        2,
        (3, 4),
        (5, 6),
        (7, 8),
    );
    let sec = titanfall2::parse(&data).expect("decode failed");
    assert_eq!(sec.oep, 0x42);
    assert_eq!(sec.enc_blocks, blocks);
}

#[test]
fn zero_blocks_round_trip() {
    let data = build_section(
        &titanfall2_fixture(),
        &TITANFALL2_FP,
        "NoBlocks",
        0,
        0,
        0,
        0,
        0x1,
        &[],
        0,
        0,
        (0, 0),
        (0, 0),
        (0, 0),
    );
    let sec = titanfall2::parse(&data).expect("decode failed");
    assert_eq!(sec.enc_blocks.len(), 0);
}

#[test]
fn unknown_fingerprint_is_fatal() {
    let blocks = sample_blocks();
    let data = build_section(
        &titanfall2_fixture(),
        &[0xAA; 20],
        "TestGame",
        0,
        0,
        0,
        0,
        0x4321,
        &blocks,
        0,
        0,
        (1, 1),
        (1, 1),
        (1, 1),
    );
    assert_eq!(decode_vendor_section(&data).unwrap_err(), UnpackError::UnknownVariant);
}

#[test]
fn truncated_section_is_reported() {
    let blocks = sample_blocks();
    let mut data = build_section(
        &titanfall2_fixture(),
        &TITANFALL2_FP,
        "TestGame",
        0,
        0,
        0,
        0,
        0x4321,
        &blocks,
        0,
        0,
        (1, 1),
        (1, 1),
        (1, 1),
    );
    data.truncate(0x200);
    assert_eq!(titanfall2::parse(&data).unwrap_err(), UnpackError::TruncatedData);
    data.truncate(0x20);
    assert_eq!(decode_vendor_section(&data).unwrap_err(), UnpackError::ContainerFormatError);
}

#[test]
fn blank_label_is_rejected() {
    let blocks = sample_blocks();
    let data = build_section(
        &titanfall2_fixture(),
        &TITANFALL2_FP,
        "  \t ",
        0,
        0,
        0,
        0,
        0x4321,
        &blocks,
        0,
        0,
        (1, 1),
        (1, 1),
        (1, 1),
    );
    assert_eq!(titanfall2::parse(&data).unwrap_err(), UnpackError::ContainerFormatError);
}

#[test]
fn get_ooa_hash_reads_fingerprint_window() {
    let mut data = vec![0u8; 0x3E];
    for (i, b) in data.iter_mut().enumerate() {
        *b = i as u8;
    }
    let h = ooa_unpack::pe::get_ooa_hash(&data).expect("window long enough");
    assert_eq!(h.len(), 20);
    assert_eq!(h[0], 0x2A);
    assert_eq!(h[19], 0x3D);
    let short = vec![0u8; 0x3D];
    assert!(ooa_unpack::pe::get_ooa_hash(&short).is_none());
}
