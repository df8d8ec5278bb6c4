use vstd::prelude::*;

use crate::cursor::{le16, le32, le64};
use crate::decode::{
    aligned_pos, content_units, content_units_all, lemma_nul_cut_is_first, parse_section,
    pos_after_reloc, pos_after_tables, pos_after_tls, pos_entry, scan_imports, scan_tls_callbacks,
    scan_thunks, trailing_pos, AlignRule, ParsedSection, TrailingSkip, VariantLayout,
    CONTENT_END, RECORDS_START,
};
use crate::ooa::{enc_block_at, EncBlock, ENC_BLOCK_LEN};

verus! {

/// Byte `k` of a 32-bit value, little-endian.
pub open spec fn u32_byte(v: u32, k: int) -> u8 {
    if k == 0 {
        (v & 0xff) as u8
    } else if k == 1 {
        ((v >> 8) & 0xff) as u8
    } else if k == 2 {
        ((v >> 16) & 0xff) as u8
    } else {
        ((v >> 24) & 0xff) as u8
    }
}

/// Byte `k` of a 64-bit value, little-endian.
pub open spec fn u64_byte(v: u64, k: int) -> u8 {
    if k == 0 {
        (v & 0xff) as u8
    } else if k == 1 {
        ((v >> 8) & 0xff) as u8
    } else if k == 2 {
        ((v >> 16) & 0xff) as u8
    } else if k == 3 {
        ((v >> 24) & 0xff) as u8
    } else if k == 4 {
        ((v >> 32) & 0xff) as u8
    } else if k == 5 {
        ((v >> 40) & 0xff) as u8
    } else if k == 6 {
        ((v >> 48) & 0xff) as u8
    } else {
        ((v >> 56) & 0xff) as u8
    }
}

/// Byte `j` of the content window: the label's code units, a null
/// terminator, zeros to the end of the window.
pub open spec fn window_byte(label: Seq<u16>, j: int) -> u8 {
    if j < 2 * label.len() {
        if j % 2 == 0 {
            (label[j / 2] & 0xff) as u8
        } else {
            ((label[j / 2] >> 8) & 0xff) as u8
        }
    } else {
        0u8
    }
}

/// Byte `t` of one block descriptor's 48-byte record.
pub open spec fn enc_block_byte(b: EncBlock, t: int) -> u8 {
    if t < 4 {
        u32_byte(b.va, t)
    } else if t < 8 {
        u32_byte(b.raw_size, t - 4)
    } else if t < 12 {
        u32_byte(b.virtual_size, t - 8)
    } else if t < 16 {
        u32_byte(b.unk, t - 12)
    } else if t < 20 {
        u32_byte(b.crc, t - 16)
    } else if t < 24 {
        u32_byte(b.unk2, t - 20)
    } else if t < 28 {
        u32_byte(b.crc2, t - 24)
    } else if t < 32 {
        u32_byte(b.pad, t - 28)
    } else if t < 36 {
        u32_byte(b.file_offset, t - 32)
    } else if t < 44 {
        u64_byte(b.pad2, t - 36)
    } else {
        u32_byte(b.pad3, t - 44)
    }
}

/// Length of the all-zero span between the records start and the entry
/// point: the import sentinel, two thunk sentinels, the 72-byte span, two
/// zero size fields, an empty relocation reservation and the TLS header;
/// one variant adds a list terminator.
pub open spec fn mid_len(lay: VariantLayout) -> int {
    if lay.tls_callback_list {
        140
    } else {
        132
    }
}

/// Length of the alignment filler before the entry point.
pub open spec fn align_len(lay: VariantLayout) -> int {
    match lay.align {
        AlignRule::Direct => 0,
        AlignRule::Mod256 => (0x1ea - ((RECORDS_START + mid_len(lay)) % 0x100)) % 0x100,
    }
}

/// Where the entry-point field sits in a synthetic section.
pub open spec fn entry_pos(lay: VariantLayout) -> int {
    RECORDS_START + mid_len(lay) + align_len(lay)
}

/// Length of the filler between the block descriptors and the flag byte.
pub open spec fn trail_len(lay: VariantLayout, n: int) -> int {
    match lay.trailing {
        TrailingSkip::Fixed(k) => k as int,
        TrailingSkip::BlockCapacity => 488 - ENC_BLOCK_LEN * n,
    }
}

/// Total length of a synthetic section holding `n` block descriptors.
pub open spec fn synth_len(lay: VariantLayout, n: int) -> int {
    entry_pos(lay) + 5 + ENC_BLOCK_LEN * n + trail_len(lay, n) + 37
}

/// Byte `j` of a correctly-shaped synthetic vendor section that encodes the
/// descriptor `d` under layout `lay`: the given header bytes, the label
/// window, empty import and thunk tables, an empty relocation reservation,
/// no TLS callbacks, then the entry point, the block table, the flag byte
/// and the tail fields.
pub open spec fn synth_byte(lay: VariantLayout, head: Seq<u8>, d: ParsedSection, j: int) -> u8 {
    let q = entry_pos(lay);
    let n = d.blocks.len() as int;
    let b0 = q + 5;
    let f = b0 + ENC_BLOCK_LEN * n + trail_len(lay, n);
    let t = f + 1;
    if j < 0x42 {
        head[j]
    } else if j < 0x242 {
        window_byte(d.content_units, j - 0x42)
    } else if j < q {
        0u8
    } else if j < q + 4 {
        u32_byte(d.oep, j - q)
    } else if j == q + 4 {
        n as u8
    } else if j < b0 + ENC_BLOCK_LEN * n {
        enc_block_byte(d.blocks[(j - b0) / 48], (j - b0) % 48)
    } else if j < f {
        0u8
    } else if j == f {
        1u8
    } else if j < t + 8 {
        u64_byte(d.image_base, j - t)
    } else if j < t + 12 {
        u32_byte(d.size_of_image, j - t - 8)
    } else if j < t + 16 {
        u32_byte(d.import_dir.va, j - t - 12)
    } else if j < t + 20 {
        u32_byte(d.import_dir.size, j - t - 16)
    } else if j < t + 24 {
        u32_byte(d.reloc_dir.va, j - t - 20)
    } else if j < t + 28 {
        u32_byte(d.reloc_dir.size, j - t - 24)
    } else if j < t + 32 {
        u32_byte(d.iat_dir.va, j - t - 28)
    } else {
        u32_byte(d.iat_dir.size, j - t - 32)
    }
}

/// A whole synthetic vendor section.
pub open spec fn synth_section(lay: VariantLayout, head: Seq<u8>, d: ParsedSection) -> Seq<u8> {
    Seq::new(synth_len(lay, d.blocks.len() as int) as nat, |j: int| synth_byte(lay, head, d, j))
}

/// A descriptor that a synthetic section can carry: the label fits the
/// window and holds no terminator, and the block table fits its count byte
/// (and, for the capacity-based trailing skip, the ten reserved slots).
pub open spec fn synth_fits(lay: VariantLayout, d: ParsedSection) -> bool {
    &&& d.content_units.len() <= 254
    &&& (forall|i: int| 0 <= i < d.content_units.len() ==> d.content_units[i] != 0)
    &&& d.blocks.len() <= 255
    &&& (lay.trailing is BlockCapacity ==> d.blocks.len() <= 10)
}

/// A 16-bit field assembled from its little-endian bytes.
pub proof fn lemma_le16_from_parts(s: Seq<u8>, p: int, v: u16)
    requires
        0 <= p,
        p + 2 <= s.len(),
        s[p] == (v & 0xff) as u8,
        s[p + 1] == ((v >> 8) & 0xff) as u8,
    ensures
        le16(s, p) == v,
{
    assert(((v & 0xff) as u8 as u16) | (((v >> 8) & 0xff) as u8 as u16) << 8 == v) by (bit_vector);
}

/// A 32-bit field assembled from its little-endian bytes.
pub proof fn lemma_le32_from_parts(s: Seq<u8>, p: int, v: u32)
    requires
        0 <= p,
        p + 4 <= s.len(),
        s[p] == u32_byte(v, 0),
        s[p + 1] == u32_byte(v, 1),
        s[p + 2] == u32_byte(v, 2),
        s[p + 3] == u32_byte(v, 3),
    ensures
        le32(s, p) == v,
{
    assert(((v & 0xff) as u8 as u32) | (((v >> 8) & 0xff) as u8 as u32) << 8 | (((v >> 16)
        & 0xff) as u8 as u32) << 16 | (((v >> 24) & 0xff) as u8 as u32) << 24 == v) by (bit_vector);
}

/// A 64-bit field assembled from its little-endian bytes.
pub proof fn lemma_le64_from_parts(s: Seq<u8>, p: int, v: u64)
    requires
        0 <= p,
        p + 8 <= s.len(),
        forall|k: int| 0 <= k < 8 ==> s[p + k] == #[trigger] u64_byte(v, k),
    ensures
        le64(s, p) == v,
{
    let lo = (v & 0xFFFF_FFFF) as u32;
    let hi = (v >> 32) as u32;
    assert(u64_byte(v, 0) == u32_byte(lo, 0) && u64_byte(v, 1) == u32_byte(lo, 1) && u64_byte(
        v,
        2,
    ) == u32_byte(lo, 2) && u64_byte(v, 3) == u32_byte(lo, 3) && u64_byte(v, 4) == u32_byte(hi, 0)
        && u64_byte(v, 5) == u32_byte(hi, 1) && u64_byte(v, 6) == u32_byte(hi, 2) && u64_byte(v, 7)
        == u32_byte(hi, 3)) by (bit_vector)
        requires
            lo == (v & 0xFFFF_FFFF) as u32,
            hi == (v >> 32) as u32,
    ;
    assert(s[p + 0] == u64_byte(v, 0) && s[p + 1] == u64_byte(v, 1) && s[p + 2] == u64_byte(v, 2)
        && s[p + 3] == u64_byte(v, 3) && s[p + 4] == u64_byte(v, 4) && s[p + 5] == u64_byte(v, 5)
        && s[p + 6] == u64_byte(v, 6) && s[p + 7] == u64_byte(v, 7));
    lemma_le32_from_parts(s, p, lo);
    lemma_le32_from_parts(s, p + 4, hi);
    assert((lo as u64) | ((hi as u64) << 32) == v) by (bit_vector)
        requires
            lo == (v & 0xFFFF_FFFF) as u32,
            hi == (v >> 32) as u32,
    ;
}

/// Four zero bytes read as zero.
pub proof fn lemma_le32_zero(s: Seq<u8>, p: int)
    requires
        0 <= p,
        p + 4 <= s.len(),
        s[p] == 0u8,
        s[p + 1] == 0u8,
        s[p + 2] == 0u8,
        s[p + 3] == 0u8,
    ensures
        le32(s, p) == 0,
{
    assert((0u8 as u32) | ((0u8 as u32) << 8) | ((0u8 as u32) << 16) | ((0u8 as u32) << 24)
        == 0) by (bit_vector);
}

/// Eight zero bytes read as zero.
pub proof fn lemma_le64_zero(s: Seq<u8>, p: int)
    requires
        0 <= p,
        p + 8 <= s.len(),
        forall|k: int| 0 <= k < 8 ==> #[trigger] s[p + k] == 0u8,
    ensures
        le64(s, p) == 0,
{
    assert(s[p + 0] == 0u8 && s[p + 1] == 0u8 && s[p + 2] == 0u8 && s[p + 3] == 0u8 && s[p + 4]
        == 0u8 && s[p + 5] == 0u8 && s[p + 6] == 0u8 && s[p + 7] == 0u8);
    lemma_le32_zero(s, p);
    lemma_le32_zero(s, p + 4);
    assert((0u32 as u64) | ((0u32 as u64) << 32) == 0) by (bit_vector);
}

/// The trailing filler of a fitting descriptor is never negative.
proof fn lemma_trail_len_nonneg(lay: VariantLayout, n: int)
    requires
        0 <= n <= 255,
        lay.trailing is BlockCapacity ==> n <= 10,
    ensures
        trail_len(lay, n) >= 0,
{
    match lay.trailing {
        TrailingSkip::Fixed(_) => {},
        TrailingSkip::BlockCapacity => {
            assert(ENC_BLOCK_LEN * n <= 480) by (nonlinear_arith)
                requires
                    0 <= n <= 10,
                    ENC_BLOCK_LEN == 48,
            ;
        },
    }
}

/// The content label written into a synthetic section is read back exactly.
proof fn lemma_synth_content(lay: VariantLayout, head: Seq<u8>, d: ParsedSection)
    requires
        head.len() == 0x42,
        synth_fits(lay, d),
    ensures
        synth_section(lay, head, d).len() >= CONTENT_END,
        content_units(synth_section(lay, head, d)) == d.content_units,
{
    let s = synth_section(lay, head, d);
    let label = d.content_units;
    let all = content_units_all(s);
    let n = d.blocks.len() as int;
    lemma_trail_len_nonneg(lay, n);
    assert(ENC_BLOCK_LEN * n >= 0) by (nonlinear_arith)
        requires
            n >= 0,
            ENC_BLOCK_LEN == 48,
    ;
    assert(s.len() >= CONTENT_END);
    assert forall|i: int| 0 <= i < label.len() implies all[i] == label[i] by {
        let j0 = 0x42 + 2 * i;
        assert((2 * i) / 2 == i && (2 * i) % 2 == 0 && (2 * i + 1) / 2 == i && (2 * i + 1) % 2
            == 1) by (nonlinear_arith)
            requires
                i >= 0,
        ;
        assert(s[j0] == (label[i] & 0xff) as u8);
        assert(s[j0 + 1] == ((label[i] >> 8) & 0xff) as u8);
        lemma_le16_from_parts(s, j0, label[i]);
        assert(all[i] == le16(s, 0x42 + 2 * i));
    }
    assert forall|i: int| label.len() <= i < 255 implies all[i] == 0u16 by {
        let j0 = 0x42 + 2 * i;
        assert(2 * i >= 2 * label.len() && 2 * i + 1 >= 2 * label.len()) by (nonlinear_arith)
            requires
                i >= label.len(),
        ;
        assert(s[j0] == 0u8);
        assert(s[j0 + 1] == 0u8);
        assert((0u16 & 0xff) as u8 == 0u8 && ((0u16 >> 8) & 0xff) as u8 == 0u8) by (bit_vector);
        lemma_le16_from_parts(s, j0, 0u16);
        assert(all[i] == le16(s, 0x42 + 2 * i));
    }
    lemma_nul_cut_is_first(all, 0, label.len() as int);
    assert(content_units(s) == all.take(label.len() as int));
    assert(all.take(label.len() as int) =~= label);
}

/// The parse positions of a synthetic section: every table is empty, so the
/// entry point sits exactly where the builder put it.
proof fn lemma_synth_positions(lay: VariantLayout, head: Seq<u8>, d: ParsedSection)
    requires
        head.len() == 0x42,
        synth_fits(lay, d),
    ensures
        pos_entry(lay, synth_section(lay, head, d)) == Some(entry_pos(lay)),
{
    let s = synth_section(lay, head, d);
    let n = d.blocks.len() as int;
    let q = entry_pos(lay);
    lemma_trail_len_nonneg(lay, n);
    assert(ENC_BLOCK_LEN * n >= 0) by (nonlinear_arith)
        requires
            n >= 0,
            ENC_BLOCK_LEN == 48,
    ;
    assert(q >= 0x2C6);
    assert(s.len() >= q + 42);
    assert forall|j: int| 0x242 <= j < q implies #[trigger] s[j] == 0u8 by {}
    lemma_le32_zero(s, 0x242int);
    assert(scan_imports(s, 0x242int) == Some(0x256int));
    lemma_le32_zero(s, 0x256int);
    assert(scan_thunks(s, 0x256int) == Some(0x25Eint));
    lemma_le32_zero(s, 0x25Eint);
    assert(scan_thunks(s, 0x25Eint) == Some(0x266int));
    assert(pos_after_tables(s) == Some(0x266int));
    lemma_le32_zero(s, 0x2AE as int);
    assert(pos_after_reloc(s) == Some(0x2B6int));
    if lay.tls_callback_list {
        lemma_le64_zero(s, 0x2C6int);
        assert(scan_tls_callbacks(s, 0x2C6int) == Some(0x2CEint));
        assert(pos_after_tls(lay, s) == Some(0x2CEint));
        assert(0x2CE == 0x242 + mid_len(lay));
    } else {
        assert(pos_after_tls(lay, s) == Some(0x2C6int));
        assert(0x2C6 == 0x242 + mid_len(lay));
    }
    match lay.align {
        AlignRule::Direct => {
            assert(align_len(lay) == 0);
        },
        AlignRule::Mod256 => {
            let p = 0x242 + mid_len(lay);
            assert(aligned_pos(lay.align, p, s.len() as int) == Some(q));
        },
    }
}

/// A block descriptor is read back from its 48 bytes.
#[verifier::rlimit(60)]
proof fn lemma_enc_block_readback(s: Seq<u8>, p: int, b: EncBlock)
    requires
        0 <= p,
        p + 48 <= s.len(),
        forall|tt: int| 0 <= tt < 48 ==> s[p + tt] == #[trigger] enc_block_byte(b, tt),
    ensures
        enc_block_at(s, p) == b,
{
    assert(s[p + 0] == enc_block_byte(b, 0) && s[p + 1] == enc_block_byte(b, 1) && s[p + 2] == enc_block_byte(b, 2) && s[p + 3] == enc_block_byte(b, 3) && s[p + 4] == enc_block_byte(b, 4) && s[p + 5] == enc_block_byte(b, 5) && s[p + 6] == enc_block_byte(b, 6) && s[p + 7] == enc_block_byte(b, 7) && s[p + 8] == enc_block_byte(b, 8) && s[p + 9] == enc_block_byte(b, 9) && s[p + 10] == enc_block_byte(b, 10) && s[p + 11] == enc_block_byte(b, 11) && s[p + 12] == enc_block_byte(b, 12) && s[p + 13] == enc_block_byte(b, 13) && s[p + 14] == enc_block_byte(b, 14) && s[p + 15] == enc_block_byte(b, 15) && s[p + 16] == enc_block_byte(b, 16) && s[p + 17] == enc_block_byte(b, 17) && s[p + 18] == enc_block_byte(b, 18) && s[p + 19] == enc_block_byte(b, 19) && s[p + 20] == enc_block_byte(b, 20) && s[p + 21] == enc_block_byte(b, 21) && s[p + 22] == enc_block_byte(b, 22) && s[p + 23] == enc_block_byte(b, 23) && s[p + 24] == enc_block_byte(b, 24) && s[p + 25] == enc_block_byte(b, 25) && s[p + 26] == enc_block_byte(b, 26) && s[p + 27] == enc_block_byte(b, 27) && s[p + 28] == enc_block_byte(b, 28) && s[p + 29] == enc_block_byte(b, 29) && s[p + 30] == enc_block_byte(b, 30) && s[p + 31] == enc_block_byte(b, 31) && s[p + 32] == enc_block_byte(b, 32) && s[p + 33] == enc_block_byte(b, 33) && s[p + 34] == enc_block_byte(b, 34) && s[p + 35] == enc_block_byte(b, 35) && s[p + 36] == enc_block_byte(b, 36) && s[p + 37] == enc_block_byte(b, 37) && s[p + 38] == enc_block_byte(b, 38) && s[p + 39] == enc_block_byte(b, 39) && s[p + 40] == enc_block_byte(b, 40) && s[p + 41] == enc_block_byte(b, 41) && s[p + 42] == enc_block_byte(b, 42) && s[p + 43] == enc_block_byte(b, 43) && s[p + 44] == enc_block_byte(b, 44) && s[p + 45] == enc_block_byte(b, 45) && s[p + 46] == enc_block_byte(b, 46) && s[p + 47] == enc_block_byte(b, 47));
    lemma_le32_from_parts(s, p, b.va);
    lemma_le32_from_parts(s, p + 4, b.raw_size);
    lemma_le32_from_parts(s, p + 8, b.virtual_size);
    lemma_le32_from_parts(s, p + 12, b.unk);
    lemma_le32_from_parts(s, p + 16, b.crc);
    lemma_le32_from_parts(s, p + 20, b.unk2);
    lemma_le32_from_parts(s, p + 24, b.crc2);
    lemma_le32_from_parts(s, p + 28, b.pad);
    lemma_le32_from_parts(s, p + 32, b.file_offset);
    assert forall|k: int| 0 <= k < 8 implies s[p + 36 + k] == #[trigger] u64_byte(b.pad2, k) by {
        assert(s[p + (36 + k)] == enc_block_byte(b, 36 + k));
    }
    lemma_le64_from_parts(s, p + 36, b.pad2);
    lemma_le32_from_parts(s, p + 44, b.pad3);
}

/// One block descriptor written into a synthetic section is read back
/// exactly.
#[verifier::rlimit(100)]
proof fn lemma_synth_block_at(lay: VariantLayout, head: Seq<u8>, d: ParsedSection, i: int)
    requires
        head.len() == 0x42,
        synth_fits(lay, d),
        0 <= i < d.blocks.len(),
    ensures
        enc_block_at(
            synth_section(lay, head, d),
            entry_pos(lay) + 5 + ENC_BLOCK_LEN * i,
        ) == d.blocks[i],
{
    let s = synth_section(lay, head, d);
    let n = d.blocks.len() as int;
    let q = entry_pos(lay);
    let b0 = q + 5;
    let p = b0 + ENC_BLOCK_LEN * i;
    let b = d.blocks[i];
    lemma_trail_len_nonneg(lay, n);
    assert(ENC_BLOCK_LEN * n >= 0) by (nonlinear_arith)
        requires
            n >= 0,
            ENC_BLOCK_LEN == 48,
    ;
    assert(ENC_BLOCK_LEN * i >= 0 && ENC_BLOCK_LEN * i + 48 <= ENC_BLOCK_LEN * n) by (
    nonlinear_arith)
        requires
            0 <= i < n,
            ENC_BLOCK_LEN == 48,
    ;
    assert forall|tt: int| 0 <= tt < 48 implies s[p + tt] == #[trigger] enc_block_byte(b, tt) by {
        assert((ENC_BLOCK_LEN * i + tt) / 48 == i && (ENC_BLOCK_LEN * i + tt) % 48 == tt) by (
        nonlinear_arith)
            requires
                0 <= i,
                0 <= tt < 48,
                ENC_BLOCK_LEN == 48,
        ;
        assert(ENC_BLOCK_LEN * i + tt < ENC_BLOCK_LEN * n) by (nonlinear_arith)
            requires
                0 <= tt < 48,
                i < n,
                ENC_BLOCK_LEN == 48,
        ;
        assert(s[p + tt] == synth_byte(lay, head, d, p + tt));
    }
    lemma_enc_block_readback(s, p, b);
}

/// The round trip: writing any fitting descriptor out as a correctly-shaped
/// synthetic vendor section and decoding it under the same layout gives the
/// descriptor back, exactly. Instantiating `lay` with each variant's layout
/// states this for every known fingerprint's decoder, whose own contract
/// ties it to `parse_section`.
#[verifier::rlimit(100)]
pub proof fn lemma_synth_round_trip(lay: VariantLayout, head: Seq<u8>, d: ParsedSection)
    requires
        head.len() == 0x42,
        synth_fits(lay, d),
    ensures
        parse_section(lay, synth_section(lay, head, d)) == Some(d),
{
    let s = synth_section(lay, head, d);
    let n = d.blocks.len() as int;
    let q = entry_pos(lay);
    let b0 = q + 5;
    let f = b0 + ENC_BLOCK_LEN * n + trail_len(lay, n);
    let t = f + 1;
    lemma_trail_len_nonneg(lay, n);
    assert(ENC_BLOCK_LEN * n >= 0) by (nonlinear_arith)
        requires
            n >= 0,
            ENC_BLOCK_LEN == 48,
    ;
    lemma_synth_content(lay, head, d);
    lemma_synth_positions(lay, head, d);
    // Entry point and block count.
    assert(s[q + 0] == u32_byte(d.oep, 0) && s[q + 1] == u32_byte(d.oep, 1) && s[q + 2]
        == u32_byte(d.oep, 2) && s[q + 3] == u32_byte(d.oep, 3));
    lemma_le32_from_parts(s, q, d.oep);
    assert(s[q + 4] == n as u8);
    assert((n as u8) as int == n);
    // The block table.
    assert forall|i: int|
        0 <= i < n implies #[trigger] enc_block_at(s, b0 + ENC_BLOCK_LEN * i) == d.blocks[i] by {
        lemma_synth_block_at(lay, head, d, i);
    }
    assert(Seq::new(n as nat, |i: int| enc_block_at(s, b0 + ENC_BLOCK_LEN * i)) =~= d.blocks);
    // The flag byte sits exactly where the trailing rule says.
    assert(trailing_pos(lay.trailing, b0, n) == f);
    assert(t + 36 == s.len());
    // The tail fields.
    assert forall|k: int| 0 <= k < 8 implies s[t + k] == #[trigger] u64_byte(d.image_base, k) by {
        assert(s[t + k] == synth_byte(lay, head, d, t + k));
    }
    lemma_le64_from_parts(s, t, d.image_base);
    assert(s[t + 8] == u32_byte(d.size_of_image, 0) && s[t + 9] == u32_byte(d.size_of_image, 1)
        && s[t + 10] == u32_byte(d.size_of_image, 2) && s[t + 11] == u32_byte(
        d.size_of_image,
        3,
    ));
    lemma_le32_from_parts(s, t + 8, d.size_of_image);
    lemma_le32_from_parts(s, t + 12, d.import_dir.va);
    lemma_le32_from_parts(s, t + 16, d.import_dir.size);
    lemma_le32_from_parts(s, t + 20, d.reloc_dir.va);
    lemma_le32_from_parts(s, t + 24, d.reloc_dir.size);
    lemma_le32_from_parts(s, t + 28, d.iat_dir.va);
    lemma_le32_from_parts(s, t + 32, d.iat_dir.size);
    assert(crate::ooa::data_dir_at(s, t + 12) == d.import_dir);
    assert(crate::ooa::data_dir_at(s, t + 20) == d.reloc_dir);
    assert(crate::ooa::data_dir_at(s, t + 28) == d.iat_dir);
    assert(parse_section(lay, s) == Some(d));
}

} // verus!
