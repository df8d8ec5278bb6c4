use ooa_unpack::error::UnpackError;
use ooa_unpack::ooa::{DataDir, Section};
use ooa_unpack::pe::{consistency_checks, reconstruct, PeInfo, PeSection};

const E_LFANEW: usize = 0x80;
const OPT_SIZE: usize = 240;

fn synthetic_pe() -> (Vec<u8>, PeInfo) {
    // Three ordinary sections and a vendor section last, whose raw data
    // starts at 0x400; the file runs on beyond it.
    let mut buf = vec![0u8; 0x600];
    for (i, b) in buf.iter_mut().enumerate() {
        *b = (i % 251) as u8;
    }
    let sections = vec![
        PeSection { virtual_address: 0x1000, pointer_to_raw_data: 0x200, size_of_raw_data: 0x80 },
        PeSection { virtual_address: 0x2000, pointer_to_raw_data: 0x280, size_of_raw_data: 0x80 },
        PeSection { virtual_address: 0x3000, pointer_to_raw_data: 0x300, size_of_raw_data: 0x100 },
        PeSection { virtual_address: 0x4000, pointer_to_raw_data: 0x400, size_of_raw_data: 0x200 },
    ];
    let info = PeInfo {
        e_lfanew: E_LFANEW as u32,
        size_of_optional_header: OPT_SIZE as u16,
        image_base: 0x1_4000_0000,
        size_of_image: 0x90000,
        sections,
    };
    (buf, info)
}

fn descriptor(import: (u32, u32), reloc: (u32, u32), iat: (u32, u32), size: u32) -> Section {
    Section {
        content_id: "TestGame".to_string(),
        oep: 0xDEAD_BEEF,
        enc_blocks: Vec::new(),
        image_base: 0x1_4000_0000,
        size_of_image: size,
        import_dir: DataDir { va: import.0, size: import.1 },
        iat_dir: DataDir { va: iat.0, size: iat.1 },
        reloc_dir: DataDir { va: reloc.0, size: reloc.1 },
    }
}

fn rd_u16(b: &[u8], off: usize) -> u16 {
    u16::from_le_bytes([b[off], b[off + 1]])
}

fn rd_u32(b: &[u8], off: usize) -> u32 {
    u32::from_le_bytes([b[off], b[off + 1], b[off + 2], b[off + 3]])
}

#[test]
fn regular_mode_three_section_output() {
    let (buf, info) = synthetic_pe();
    let sec = descriptor((0x100, 0x20), (0x200, 0x30), (0x300, 0x40), 0x8F000);
    let out = reconstruct(&buf, &info, &sec).expect("regular reconstruction");
    // Vendor section removed: output ends where its raw data began.
    assert_eq!(out.len(), 0x400);
    let h = E_LFANEW + 24;
    // Section count decremented from 4 to 3.
    assert_eq!(rd_u16(&out, E_LFANEW + 6), 3);
    // The fourth (vendor) descriptor-table slot is zeroed.
    let entry = h + OPT_SIZE + 3 * 0x28;
    assert!(out[entry..entry + 0x28].iter().all(|&b| b == 0));
    // Patched fields read back at their documented offsets.
    assert_eq!(rd_u32(&out, h + 56), 0x8F000);
    assert_eq!(rd_u32(&out, h + 16), 0xDEAD_BEEF);
    assert_eq!(rd_u32(&out, h + 120), 0x100);
    assert_eq!(rd_u32(&out, h + 124), 0x20);
    assert_eq!(rd_u32(&out, h + 152), 0x200);
    assert_eq!(rd_u32(&out, h + 156), 0x30);
    assert_eq!(rd_u32(&out, h + 208), 0x300);
    assert_eq!(rd_u32(&out, h + 212), 0x40);
    // Bytes before the header area are untouched.
    assert_eq!(&out[..E_LFANEW + 6], &buf[..E_LFANEW + 6]);
}

#[test]
fn regular_mode_derives_size_when_descriptor_has_none() {
    let (buf, info) = synthetic_pe();
    let sec = descriptor((0x100, 0x20), (0x200, 0x30), (0x300, 0x40), 0);
    let out = reconstruct(&buf, &info, &sec).expect("regular reconstruction");
    let h = E_LFANEW + 24;
    assert_eq!(rd_u32(&out, h + 56), 0x90000 - 0x1000);
}

#[test]
fn irregular_mode_preserves_count_and_size() {
    let (buf, info) = synthetic_pe();
    // One directory pair is (0, 0): irregular mode.
    let sec = descriptor((0x100, 0x20), (0, 0), (0x300, 0x40), 0x8F000);
    let out = reconstruct(&buf, &info, &sec).expect("irregular reconstruction");
    // Whole file kept.
    assert_eq!(out.len(), buf.len());
    let h = E_LFANEW + 24;
    // Section count and size-of-image bytes are byte-for-byte the input's.
    assert_eq!(rd_u16(&out, E_LFANEW + 6), rd_u16(&buf, E_LFANEW + 6));
    assert_eq!(rd_u32(&out, h + 56), rd_u32(&buf, h + 56));
    // The vendor descriptor slot is untouched.
    let entry = h + OPT_SIZE + 3 * 0x28;
    assert_eq!(&out[entry..entry + 0x28], &buf[entry..entry + 0x28]);
    // The entry point is still patched, and the present directories too.
    assert_eq!(rd_u32(&out, h + 16), 0xDEAD_BEEF);
    assert_eq!(rd_u32(&out, h + 120), 0x100);
    assert_eq!(rd_u32(&out, h + 124), 0x20);
    // The absent directory keeps the container's bytes.
    assert_eq!(rd_u32(&out, h + 152), rd_u32(&buf, h + 152));
    assert_eq!(rd_u32(&out, h + 156), rd_u32(&buf, h + 156));
    assert_eq!(rd_u32(&out, h + 208), 0x300);
}

#[test]
fn reconstruct_rejects_empty_section_table() {
    let (buf, mut info) = synthetic_pe();
    info.sections = Vec::new();
    let sec = descriptor((1, 1), (1, 1), (1, 1), 0x1000);
    assert_eq!(reconstruct(&buf, &info, &sec).unwrap_err(), UnpackError::ContainerFormatError);
}

#[test]
fn reconstruct_rejects_vendor_start_outside_file() {
    let (buf, mut info) = synthetic_pe();
    info.sections[3].pointer_to_raw_data = 0x700;
    let sec = descriptor((1, 1), (1, 1), (1, 1), 0x1000);
    assert_eq!(reconstruct(&buf, &info, &sec).unwrap_err(), UnpackError::ContainerFormatError);
}

#[test]
fn consistency_checks_compare_against_container() {
    let (_buf, info) = synthetic_pe();
    let sec = descriptor((1, 1), (1, 1), (1, 1), 0x90000 - 0x1000);
    assert_eq!(consistency_checks(&info, &sec), (true, true));
    let mut other = descriptor((1, 1), (1, 1), (1, 1), 0x123);
    other.image_base = 0x7777;
    assert_eq!(consistency_checks(&info, &other), (false, false));
    // Zero values mean "unavailable": the checks pass vacuously.
    let mut silent = descriptor((1, 1), (1, 1), (1, 1), 0);
    silent.image_base = 0;
    assert_eq!(consistency_checks(&info, &silent), (true, true));
}
