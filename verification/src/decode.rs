use vstd::prelude::*;

use crate::cursor::{le16, le32, le64, Cursor};
use crate::error::UnpackError;
use crate::ooa::{
    data_dir_at, enc_block_at, read_data_dir, read_enc_block, read_import, read_thunk, DataDir,
    EncBlock, Section, ENC_BLOCK_LEN, IMPORT_LEN, THUNK_LEN,
};

verus! {

/// First byte of the UTF-16 content-label window.
pub const CONTENT_START: usize = 0x42;

/// Number of 16-bit units in the content-label window.
pub const CONTENT_UNITS: usize = 255;

/// The window is read as one slice up to this offset (exclusive), so the
/// buffer must be at least this long before decoding can start.
pub const CONTENT_END: usize = 0x241;

/// Offset of the first import-shaped record.
pub const RECORDS_START: usize = 0x242;

/// How a variant reaches the entry-point field from the end of the TLS span.
#[derive(Debug, Clone, Copy, PartialEq, Eq, Structural)]
pub enum AlignRule {
    /// The entry point follows immediately.
    Direct,
    /// Pad to the next position congruent to 0x1ea modulo 0x100.
    Mod256,
}

/// How a variant reaches the consistency-flag byte from the end of the block
/// descriptors.
#[derive(Debug, Clone, Copy, PartialEq, Eq, Structural)]
pub enum TrailingSkip {
    /// A fixed number of bytes.
    Fixed(usize),
    /// The block-table region always has capacity for ten descriptors: skip
    /// 0x30 * (10 - n) + 8 bytes, which is a backward move when n > 10.
    BlockCapacity,
}

/// The empirically-captured constants that distinguish the four on-disk
/// layouts. Everything else about the grammar is shared.
#[derive(Debug, Clone, Copy, PartialEq, Eq, Structural)]
pub struct VariantLayout {
    /// Whether a null-terminated list of 64-bit TLS callback addresses
    /// follows the fixed TLS span.
    pub tls_callback_list: bool,
    pub align: AlignRule,
    pub trailing: TrailingSkip,
}

/// Everything a correct decoder extracts from a vendor section, at the
/// mathematical level. `parse_section` is the single source of truth that the
/// executable decoders are proved against.
pub ghost struct ParsedSection {
    pub content_units: Seq<u16>,
    pub oep: u32,
    pub blocks: Seq<EncBlock>,
    pub image_base: u64,
    pub size_of_image: u32,
    pub import_dir: DataDir,
    pub reloc_dir: DataDir,
    pub iat_dir: DataDir,
}

/// The result of decoding the UTF-16 content label with the standard
/// library's lossy decoder; a pure function of the code units alone.
pub uninterp spec fn utf16_lossy_of(units: Seq<u16>) -> Seq<char>;

/// Relies on String::from_utf16_lossy: the resulting characters depend on
/// the code units alone (invalid units become replacement characters).
#[verifier::external_body]
fn utf16_lossy(units: &Vec<u16>) -> (r: String)
    ensures
        r@ == utf16_lossy_of(units@),
{
    String::from_utf16_lossy(units)
}

/// All 255 code units of the content window.
pub open spec fn content_units_all(s: Seq<u8>) -> Seq<u16> {
    Seq::new(CONTENT_UNITS as nat, |i: int| le16(s, CONTENT_START + 2 * i))
}

/// Index of the first null unit at or after `i`, or the length if none.
pub open spec fn nul_cut(units: Seq<u16>, i: int) -> int
    decreases units.len() - i,
{
    if i < 0 || i >= units.len() {
        i
    } else if units[i] == 0 {
        i
    } else {
        nul_cut(units, i + 1)
    }
}

/// The content label's code units: the window up to (not including) the first
/// null unit, or the whole window if no null is present.
pub open spec fn content_units(s: Seq<u8>) -> Seq<u16> {
    content_units_all(s).take(nul_cut(content_units_all(s), 0))
}

pub open spec fn is_space_u16(u: u16) -> bool {
    u == 0x20 || u == 0x09 || u == 0x0D || u == 0x0A
}

/// The label is meaningful: some unit is not whitespace, so the label is
/// non-empty after trimming.
pub open spec fn content_nonblank(units: Seq<u16>) -> bool {
    exists|i: int| 0 <= i < units.len() && !is_space_u16(units[i])
}

/// The window is readable and the label it holds is non-blank.
pub open spec fn content_ok(s: Seq<u8>) -> bool {
    s.len() >= CONTENT_END && content_nonblank(content_units(s))
}

/// Position just past the import table: records of 20 bytes are consumed up
/// to and including the first whose leading 32-bit field is zero. `None` if
/// the buffer ends first.
pub open spec fn scan_imports(s: Seq<u8>, pos: int) -> Option<int>
    decreases s.len() - pos,
{
    if pos + IMPORT_LEN > s.len() {
        None
    } else if le32(s, pos) == 0 {
        Some(pos + IMPORT_LEN)
    } else {
        scan_imports(s, pos + IMPORT_LEN)
    }
}

/// Position just past one thunk table: records of 8 bytes are consumed up to
/// and including the first whose leading 32-bit field is zero.
pub open spec fn scan_thunks(s: Seq<u8>, pos: int) -> Option<int>
    decreases s.len() - pos,
{
    if pos + THUNK_LEN > s.len() {
        None
    } else if le32(s, pos) == 0 {
        Some(pos + THUNK_LEN)
    } else {
        scan_thunks(s, pos + THUNK_LEN)
    }
}

/// Position just past a null-terminated list of 64-bit callback addresses.
pub open spec fn scan_tls_callbacks(s: Seq<u8>, pos: int) -> Option<int>
    decreases s.len() - pos,
{
    if pos + 8 > s.len() {
        None
    } else if le64(s, pos) == 0 {
        Some(pos + 8)
    } else {
        scan_tls_callbacks(s, pos + 8)
    }
}

/// Position after the import table and the two thunk tables.
pub open spec fn pos_after_tables(s: Seq<u8>) -> Option<int> {
    match scan_imports(s, RECORDS_START as int) {
        Some(p1) => match scan_thunks(s, p1) {
            Some(p2) => scan_thunks(s, p2),
            None => None,
        },
        None => None,
    }
}

/// Position after the relocation reservation: a fixed 72-byte span, the two
/// 32-bit size fields, then as many bytes as the *maximum* size names.
pub open spec fn pos_after_reloc(s: Seq<u8>) -> Option<int> {
    match pos_after_tables(s) {
        Some(p) => {
            if p + 80 + le32(s, p + 72) <= s.len() {
                Some(p + 80 + le32(s, p + 72))
            } else {
                None
            }
        },
        None => None,
    }
}

/// Position after the TLS span: a 16-byte fixed header, then (for one
/// variant) the null-terminated callback list.
pub open spec fn pos_after_tls(lay: VariantLayout, s: Seq<u8>) -> Option<int> {
    match pos_after_reloc(s) {
        Some(p) => {
            if p + 16 <= s.len() {
                if lay.tls_callback_list {
                    scan_tls_callbacks(s, p + 16)
                } else {
                    Some(p + 16)
                }
            } else {
                None
            }
        },
        None => None,
    }
}

/// The variant-specific alignment before the entry-point field.
pub open spec fn aligned_pos(align: AlignRule, p: int, s_len: int) -> Option<int> {
    match align {
        AlignRule::Direct => Some(p),
        AlignRule::Mod256 => {
            let t = p + (0x1ea - (p % 0x100)) % 0x100;
            if t <= s_len {
                Some(t)
            } else {
                None
            }
        },
    }
}

/// Position of the entry-point field.
pub open spec fn pos_entry(lay: VariantLayout, s: Seq<u8>) -> Option<int> {
    match pos_after_tls(lay, s) {
        Some(p) => aligned_pos(lay.align, p, s.len() as int),
        None => None,
    }
}

/// Position of the consistency-flag byte, from the end of the block
/// descriptors at `b0 + 48 * n`.
pub open spec fn trailing_pos(tr: TrailingSkip, b0: int, n: int) -> int {
    match tr {
        TrailingSkip::Fixed(k) => b0 + ENC_BLOCK_LEN * n + k,
        TrailingSkip::BlockCapacity => b0 + 0x30 * 10 + 8,
    }
}

/// The complete decoding of a vendor section under layout `lay`: `None`
/// exactly when some read or skip would run outside the buffer.
pub open spec fn parse_section(lay: VariantLayout, s: Seq<u8>) -> Option<ParsedSection> {
    if s.len() < CONTENT_END {
        None
    } else {
        match pos_entry(lay, s) {
            Some(q) => {
                if q + 5 <= s.len() {
                    let n = s[q + 4] as int;
                    let b0 = q + 5;
                    if b0 + ENC_BLOCK_LEN * n <= s.len() {
                        let f = trailing_pos(lay.trailing, b0, n);
                        let t = f + 1;
                        if f + 1 <= s.len() && t + 36 <= s.len() {
                            Some(
                                ParsedSection {
                                    content_units: content_units(s),
                                    oep: le32(s, q),
                                    blocks: Seq::new(
                                        n as nat,
                                        |i: int| enc_block_at(s, b0 + ENC_BLOCK_LEN * i),
                                    ),
                                    image_base: le64(s, t),
                                    size_of_image: le32(s, t + 8),
                                    import_dir: data_dir_at(s, t + 12),
                                    reloc_dir: data_dir_at(s, t + 20),
                                    iat_dir: data_dir_at(s, t + 28),
                                },
                            )
                        } else {
                            None
                        }
                    } else {
                        None
                    }
                } else {
                    None
                }
            },
            None => None,
        }
    }
}

/// `nul_cut` names the first null at or after `i`.
pub proof fn lemma_nul_cut_is_first(units: Seq<u16>, i: int, k: int)
    requires
        0 <= i <= k <= units.len(),
        forall|j: int| i <= j < k ==> units[j] != 0,
        k == units.len() || units[k] == 0,
    ensures
        nul_cut(units, i) == k,
    decreases k - i,
{
    if i < k {
        lemma_nul_cut_is_first(units, i + 1, k);
    }
}

/// How an executable `Section` corresponds to the mathematical decoding.
pub open spec fn decoded_matches(sec: Section, p: ParsedSection) -> bool {
    &&& sec.content_id@ == utf16_lossy_of(p.content_units)
    &&& sec.oep == p.oep
    &&& sec.enc_blocks@ == p.blocks
    &&& sec.image_base == p.image_base
    &&& sec.size_of_image == p.size_of_image
    &&& sec.import_dir == p.import_dir
    &&& sec.reloc_dir == p.reloc_dir
    &&& sec.iat_dir == p.iat_dir
}

/// Extract the content label's code units (up to the first null) and report
/// whether any of them is not whitespace.
fn read_content_units(data: &Vec<u8>) -> (r: (Vec<u16>, bool))
    requires
        data@.len() >= CONTENT_END,
    ensures
        r.0@ == content_units(data@),
        r.1 == content_nonblank(content_units(data@)),
{
    let mut cut: usize = 0;
    let mut found_nul = false;
    while cut < CONTENT_UNITS && !found_nul
        invariant
            data@.len() >= CONTENT_END,
            cut <= CONTENT_UNITS,
            forall|j: int| 0 <= j < cut ==> content_units_all(data@)[j] != 0,
            found_nul ==> cut < CONTENT_UNITS && content_units_all(data@)[cut as int] == 0,
        decreases CONTENT_UNITS - cut, (if found_nul { 0int } else { 1int }),
    {
        let base = CONTENT_START + 2 * cut;
        let u = (data[base] as u16) | ((data[base + 1] as u16) << 8);
        proof {
            assert(u == content_units_all(data@)[cut as int]);
        }
        if u == 0 {
            found_nul = true;
        } else {
            cut = cut + 1;
        }
    }
    proof {
        lemma_nul_cut_is_first(content_units_all(data@), 0, cut as int);
        assert(content_units(data@) == content_units_all(data@).take(cut as int));
    }
    let mut units: Vec<u16> = Vec::new();
    let mut j: usize = 0;
    let mut nonblank = false;
    while j < cut
        invariant
            data@.len() >= CONTENT_END,
            j <= cut <= CONTENT_UNITS,
            units@ == content_units_all(data@).take(j as int),
            nonblank <==> exists|t: int|
                0 <= t < j && !is_space_u16(content_units_all(data@)[t]),
        decreases cut - j,
    {
        let base = CONTENT_START + 2 * j;
        let u = (data[base] as u16) | ((data[base + 1] as u16) << 8);
        proof {
            assert(u == content_units_all(data@)[j as int]);
        }
        if !(u == 0x20 || u == 0x09 || u == 0x0D || u == 0x0A) {
            nonblank = true;
        }
        units.push(u);
        j = j + 1;
        proof {
            assert(units@ =~= content_units_all(data@).take(j as int));
        }
    }
    proof {
        let all = content_units_all(data@);
        let cu = content_units(data@);
        assert(cu.len() == cut as int);
        assert(forall|t: int| 0 <= t < cut ==> cu[t] == all[t]);
        if nonblank {
            let t = choose|t: int| 0 <= t < cut && !is_space_u16(all[t]);
            assert(!is_space_u16(cu[t]));
        }
        if content_nonblank(cu) {
            let t = choose|t: int| 0 <= t < cu.len() && !is_space_u16(cu[t]);
            assert(!is_space_u16(all[t]));
        }
    }
    (units, nonblank)
}

/// Discard import records up to and including the zero-characteristics
/// sentinel.
#[verifier::loop_isolation(false)]
fn skip_import_table(cursor: &mut Cursor, data: &Vec<u8>) -> (r: Result<(), UnpackError>)
    requires
        old(cursor).pos <= data@.len(),
    ensures
        r is Ok <==> scan_imports(data@, old(cursor).pos as int) is Some,
        r is Ok ==> Some(final(cursor).pos as int) == scan_imports(data@, old(cursor).pos as int),
        r is Err ==> r == Err::<(), UnpackError>(UnpackError::TruncatedData),
        final(cursor).pos <= data@.len(),
{
    let ghost p0 = cursor.pos as int;
    let mut done = false;
    while !done
        invariant
            cursor.pos <= data@.len(),
            !done ==> scan_imports(data@, p0) == scan_imports(data@, cursor.pos as int),
            done ==> scan_imports(data@, p0) == Some(cursor.pos as int),
        decreases data@.len() - cursor.pos, (if done { 0int } else { 1int }),
    {
        let rec = match read_import(cursor, data) {
            Ok(v) => v,
            Err(e) => {
                return Err(e);
            },
        };
        if rec.characteristics == 0 {
            done = true;
        }
    }
    Ok(())
}

/// Discard thunk records up to and including the zero-function sentinel.
#[verifier::loop_isolation(false)]
fn skip_thunk_table(cursor: &mut Cursor, data: &Vec<u8>) -> (r: Result<(), UnpackError>)
    requires
        old(cursor).pos <= data@.len(),
    ensures
        r is Ok <==> scan_thunks(data@, old(cursor).pos as int) is Some,
        r is Ok ==> Some(final(cursor).pos as int) == scan_thunks(data@, old(cursor).pos as int),
        r is Err ==> r == Err::<(), UnpackError>(UnpackError::TruncatedData),
        final(cursor).pos <= data@.len(),
{
    let ghost p0 = cursor.pos as int;
    let mut done = false;
    while !done
        invariant
            cursor.pos <= data@.len(),
            !done ==> scan_thunks(data@, p0) == scan_thunks(data@, cursor.pos as int),
            done ==> scan_thunks(data@, p0) == Some(cursor.pos as int),
        decreases data@.len() - cursor.pos, (if done { 0int } else { 1int }),
    {
        let rec = match read_thunk(cursor, data) {
            Ok(v) => v,
            Err(e) => {
                return Err(e);
            },
        };
        if rec.function == 0 {
            done = true;
        }
    }
    Ok(())
}

/// Discard 64-bit callback addresses up to and including the null terminator.
#[verifier::loop_isolation(false)]
fn skip_tls_list(cursor: &mut Cursor, data: &Vec<u8>) -> (r: Result<(), UnpackError>)
    requires
        old(cursor).pos <= data@.len(),
    ensures
        r is Ok <==> scan_tls_callbacks(data@, old(cursor).pos as int) is Some,
        r is Ok ==> Some(final(cursor).pos as int) == scan_tls_callbacks(
            data@,
            old(cursor).pos as int,
        ),
        r is Err ==> r == Err::<(), UnpackError>(UnpackError::TruncatedData),
        final(cursor).pos <= data@.len(),
{
    let ghost p0 = cursor.pos as int;
    let mut done = false;
    while !done
        invariant
            cursor.pos <= data@.len(),
            !done ==> scan_tls_callbacks(data@, p0) == scan_tls_callbacks(
                data@,
                cursor.pos as int,
            ),
            done ==> scan_tls_callbacks(data@, p0) == Some(cursor.pos as int),
        decreases data@.len() - cursor.pos, (if done { 0int } else { 1int }),
    {
        let va = match cursor.read_u64(data) {
            Ok(v) => v,
            Err(e) => {
                return Err(e);
            },
        };
        if va == 0 {
            done = true;
        }
    }
    Ok(())
}

/// Read exactly `n` block descriptors.
#[verifier::loop_isolation(false)]
fn read_enc_blocks(cursor: &mut Cursor, data: &Vec<u8>, n: usize) -> (r: Result<
    Vec<EncBlock>,
    UnpackError,
>)
    requires
        old(cursor).pos <= data@.len(),
    ensures
        r is Ok <==> old(cursor).pos + ENC_BLOCK_LEN * n <= data@.len(),
        r is Ok ==> r.unwrap()@ == Seq::new(
            n as nat,
            |i: int| enc_block_at(data@, old(cursor).pos + ENC_BLOCK_LEN * i),
        ) && final(cursor).pos == old(cursor).pos + ENC_BLOCK_LEN * n,
        r is Err ==> r == Err::<Vec<EncBlock>, UnpackError>(UnpackError::TruncatedData),
        final(cursor).pos <= data@.len(),
{
    let ghost b0 = cursor.pos as int;
    let mut blocks: Vec<EncBlock> = Vec::new();
    let mut k: usize = 0;
    while k < n
        invariant
            k <= n,
            cursor.pos == b0 + ENC_BLOCK_LEN * k,
            cursor.pos <= data@.len(),
            blocks@ == Seq::new(k as nat, |i: int| enc_block_at(data@, b0 + ENC_BLOCK_LEN * i)),
        decreases n - k,
    {
        let blk = match read_enc_block(cursor, data) {
            Ok(v) => v,
            Err(e) => {
                proof {
                    assert(ENC_BLOCK_LEN * k + ENC_BLOCK_LEN <= ENC_BLOCK_LEN * n) by (
                    nonlinear_arith)
                        requires
                            k < n,
                    ;
                }
                return Err(e);
            },
        };
        blocks.push(blk);
        k = k + 1;
        proof {
            assert(blocks@ =~= Seq::new(
                k as nat,
                |i: int| enc_block_at(data@, b0 + ENC_BLOCK_LEN * i),
            ));
        }
    }
    proof {
        assert(ENC_BLOCK_LEN * n >= 0) by (nonlinear_arith);
    }
    Ok(blocks)
}

/// A sentinel-terminated import walk does not over-read: when the sentinel
/// is the very first record, exactly one record is consumed.
pub proof fn lemma_scan_imports_sentinel_first(s: Seq<u8>, pos: int)
    requires
        pos + IMPORT_LEN <= s.len(),
        le32(s, pos) == 0,
    ensures
        scan_imports(s, pos) == Some(pos + IMPORT_LEN as int),
{
}

/// A sentinel-terminated thunk walk does not over-read either.
pub proof fn lemma_scan_thunks_sentinel_first(s: Seq<u8>, pos: int)
    requires
        pos + THUNK_LEN <= s.len(),
        le32(s, pos) == 0,
    ensures
        scan_thunks(s, pos) == Some(pos + THUNK_LEN as int),
{
}

/// An import walk terminates on the first zero sentinel: with `k`
/// non-sentinel records before it, it consumes exactly `k + 1` records.
pub proof fn lemma_scan_imports_first_sentinel(s: Seq<u8>, pos: int, k: int)
    requires
        0 <= k,
        forall|j: int| 0 <= j < k ==> #[trigger] le32(s, pos + IMPORT_LEN * j) != 0,
        pos + IMPORT_LEN * (k + 1) <= s.len(),
        le32(s, pos + IMPORT_LEN * k) == 0,
    ensures
        scan_imports(s, pos) == Some(pos + IMPORT_LEN * (k + 1)),
    decreases k,
{
    if k == 0 {
        assert(IMPORT_LEN * 1 == IMPORT_LEN as int);
        assert(IMPORT_LEN * 0 == 0);
    } else {
        assert(le32(s, pos + IMPORT_LEN * 0) != 0);
        assert(IMPORT_LEN * 0 == 0);
        let pos2 = pos + IMPORT_LEN as int;
        assert forall|j: int| 0 <= j < k - 1 implies #[trigger] le32(s, pos2 + IMPORT_LEN * j) != 0 by {
            assert(le32(s, pos + IMPORT_LEN * (j + 1)) != 0);
            assert(pos2 + IMPORT_LEN * j == pos + IMPORT_LEN * (j + 1)) by (nonlinear_arith)
                requires
                    pos2 == pos + 20,
                    IMPORT_LEN == 20,
            ;
        }
        assert(pos2 + IMPORT_LEN * ((k - 1) + 1) == pos + IMPORT_LEN * (k + 1)) by (nonlinear_arith)
            requires
                pos2 == pos + 20,
                IMPORT_LEN == 20,
        ;
        assert(pos2 + IMPORT_LEN * (k - 1) == pos + IMPORT_LEN * k) by (nonlinear_arith)
            requires
                pos2 == pos + 20,
                IMPORT_LEN == 20,
        ;
        lemma_scan_imports_first_sentinel(s, pos2, k - 1);
        assert(IMPORT_LEN * (k + 1) >= IMPORT_LEN as int) by (nonlinear_arith)
            requires
                k >= 0,
                IMPORT_LEN == 20,
        ;
    }
}

/// A thunk walk terminates on the first zero sentinel in the same way.
pub proof fn lemma_scan_thunks_first_sentinel(s: Seq<u8>, pos: int, k: int)
    requires
        0 <= k,
        forall|j: int| 0 <= j < k ==> #[trigger] le32(s, pos + THUNK_LEN * j) != 0,
        pos + THUNK_LEN * (k + 1) <= s.len(),
        le32(s, pos + THUNK_LEN * k) == 0,
    ensures
        scan_thunks(s, pos) == Some(pos + THUNK_LEN * (k + 1)),
    decreases k,
{
    if k == 0 {
        assert(THUNK_LEN * 1 == THUNK_LEN as int);
        assert(THUNK_LEN * 0 == 0);
    } else {
        assert(le32(s, pos + THUNK_LEN * 0) != 0);
        assert(THUNK_LEN * 0 == 0);
        let pos2 = pos + THUNK_LEN as int;
        assert forall|j: int| 0 <= j < k - 1 implies #[trigger] le32(s, pos2 + THUNK_LEN * j) != 0 by {
            assert(le32(s, pos + THUNK_LEN * (j + 1)) != 0);
            assert(pos2 + THUNK_LEN * j == pos + THUNK_LEN * (j + 1)) by (nonlinear_arith)
                requires
                    pos2 == pos + 8,
                    THUNK_LEN == 8,
            ;
        }
        assert(pos2 + THUNK_LEN * ((k - 1) + 1) == pos + THUNK_LEN * (k + 1)) by (nonlinear_arith)
            requires
                pos2 == pos + 8,
                THUNK_LEN == 8,
        ;
        assert(pos2 + THUNK_LEN * (k - 1) == pos + THUNK_LEN * k) by (nonlinear_arith)
            requires
                pos2 == pos + 8,
                THUNK_LEN == 8,
        ;
        lemma_scan_thunks_first_sentinel(s, pos2, k - 1);
        assert(THUNK_LEN * (k + 1) >= THUNK_LEN as int) by (nonlinear_arith)
            requires
                k >= 0,
                THUNK_LEN == 8,
        ;
    }
}

/// Decoding is deterministic: two results obtained from identical input
/// bytes under one layout are the same result, and successful descriptors
/// agree in every observable field.
pub proof fn lemma_decode_deterministic(
    lay: VariantLayout,
    s: Seq<u8>,
    a: Result<Section, UnpackError>,
    b: Result<Section, UnpackError>,
)
    requires
        decode_post(lay, s, a),
        decode_post(lay, s, b),
    ensures
        a is Ok <==> b is Ok,
        a is Err ==> a == b,
        a is Ok ==> ({
            let x = a->Ok_0;
            let y = b->Ok_0;
            &&& x.content_id@ == y.content_id@
            &&& x.oep == y.oep
            &&& x.enc_blocks@ == y.enc_blocks@
            &&& x.image_base == y.image_base
            &&& x.size_of_image == y.size_of_image
            &&& x.import_dir == y.import_dir
            &&& x.reloc_dir == y.reloc_dir
            &&& x.iat_dir == y.iat_dir
        }),
{
}

/// From the end of the thunk tables: past the relocation reservation, the
/// TLS span and the variant alignment, to the entry-point field.
#[verifier::loop_isolation(false)]
fn advance_to_entry(cursor: &mut Cursor, data: &Vec<u8>, lay: VariantLayout) -> (r: Result<
    (),
    UnpackError,
>)
    requires
        old(cursor).pos <= data@.len(),
        pos_after_tables(data@) == Some(old(cursor).pos as int),
    ensures
        r is Ok <==> pos_entry(lay, data@) is Some,
        r is Ok ==> Some(final(cursor).pos as int) == pos_entry(lay, data@),
        r is Err ==> r == Err::<(), UnpackError>(UnpackError::TruncatedData),
        final(cursor).pos <= data@.len(),
{
    // Relocation reservation: 72 fixed bytes, two size fields, then as many
    // bytes as the maximum size names (its capacity, not its logical size).
    match cursor.skip(data, 72) {
        Ok(_) => (),
        Err(e) => {
            return Err(e);
        },
    }
    let reloc_max_size = match cursor.read_u32(data) {
        Ok(v) => v,
        Err(e) => {
            return Err(e);
        },
    };
    let _reloc_new_size = match cursor.read_u32(data) {
        Ok(v) => v,
        Err(e) => {
            return Err(e);
        },
    };
    match cursor.skip(data, reloc_max_size as usize) {
        Ok(_) => (),
        Err(e) => {
            return Err(e);
        },
    }
    proof {
        assert(pos_after_reloc(data@) == Some(cursor.pos as int));
    }
    // Fixed TLS span: directory pointer, callback-array pointer, first
    // callback value; read and discarded.
    let _tls = match cursor.read_u32(data) {
        Ok(v) => v,
        Err(e) => {
            return Err(e);
        },
    };
    let _tls_callback = match cursor.read_u32(data) {
        Ok(v) => v,
        Err(e) => {
            return Err(e);
        },
    };
    let _tls_first_callback = match cursor.read_u64(data) {
        Ok(v) => v,
        Err(e) => {
            return Err(e);
        },
    };
    if lay.tls_callback_list {
        match skip_tls_list(cursor, data) {
            Ok(_) => (),
            Err(e) => {
                return Err(e);
            },
        }
    }
    proof {
        assert(pos_after_tls(lay, data@) == Some(cursor.pos as int));
    }
    // Variant-specific alignment before the entry point.
    match lay.align {
        AlignRule::Direct => (),
        AlignRule::Mod256 => {
            let rem = cursor.position() % 0x100;
            let amt = (0x1ea - rem) % 0x100;
            match cursor.skip(data, amt) {
                Ok(_) => (),
                Err(e) => {
                    return Err(e);
                },
            }
        },
    }
    Ok(())
}

/// Where the consistency flag sits, measured from the position right after
/// the block descriptors when `n` of them were read.
pub open spec fn flag_pos(tr: TrailingSkip, p: int, n: int) -> int {
    match tr {
        TrailingSkip::Fixed(k) => p + k,
        TrailingSkip::BlockCapacity => p - ENC_BLOCK_LEN * n + 0x30 * 10 + 8,
    }
}

/// From the end of the block descriptors: the variant trailing skip, the
/// consistency-flag byte (read and discarded: the check is soft), then image
/// base, size of image and the three directory pairs.
#[verifier::loop_isolation(false)]
fn finish_tail(cursor: &mut Cursor, data: &Vec<u8>, tr: TrailingSkip, n: usize) -> (r: Result<
    (u64, u32, DataDir, DataDir, DataDir),
    UnpackError,
>)
    requires
        old(cursor).pos <= data@.len(),
        flag_pos(tr, old(cursor).pos as int, n as int) >= 0,
    ensures
        ({
            let f = flag_pos(tr, old(cursor).pos as int, n as int);
            &&& r is Ok <==> f + 37 <= data@.len()
            &&& r is Ok ==> r.unwrap() == (
                le64(data@, f + 1),
                le32(data@, f + 9),
                data_dir_at(data@, f + 13),
                data_dir_at(data@, f + 21),
                data_dir_at(data@, f + 29),
            )
            &&& r is Err ==> r == Err::<(u64, u32, DataDir, DataDir, DataDir), UnpackError>(
                UnpackError::TruncatedData,
            )
        }),
{
    match tr {
        TrailingSkip::Fixed(extra) => {
            match cursor.skip(data, extra) {
                Ok(_) => (),
                Err(e) => {
                    return Err(e);
                },
            }
        },
        TrailingSkip::BlockCapacity => {
            if n <= 10 {
                match cursor.skip(data, 0x30 * (10 - n) + 8) {
                    Ok(_) => (),
                    Err(e) => {
                        return Err(e);
                    },
                }
            } else {
                // The table region reserves ten slots; with more descriptors
                // present the flag lies before the current position.
                cursor.seek_back(0x30 * (n - 10) - 8);
            }
        },
    }
    let _flag = match cursor.read_u8(data) {
        Ok(v) => v,
        Err(e) => {
            return Err(e);
        },
    };
    let image_base = match cursor.read_u64(data) {
        Ok(v) => v,
        Err(e) => {
            return Err(e);
        },
    };
    let size_of_image = match cursor.read_u32(data) {
        Ok(v) => v,
        Err(e) => {
            return Err(e);
        },
    };
    let import_dir = match read_data_dir(cursor, data) {
        Ok(v) => v,
        Err(e) => {
            return Err(e);
        },
    };
    let reloc_dir = match read_data_dir(cursor, data) {
        Ok(v) => v,
        Err(e) => {
            return Err(e);
        },
    };
    let iat_dir = match read_data_dir(cursor, data) {
        Ok(v) => v,
        Err(e) => {
            return Err(e);
        },
    };
    Ok((image_base, size_of_image, import_dir, reloc_dir, iat_dir))
}

/// What decoding a vendor section `s` under layout `lay` must return: a
/// descriptor matching the mathematical decoding exactly when it exists and
/// the content label is non-blank, the blank-label error exactly when the
/// window is readable but blank, and the truncation error otherwise.
pub open spec fn decode_post(lay: VariantLayout, s: Seq<u8>, r: Result<
    Section,
    UnpackError,
>) -> bool {
    &&& (r is Ok <==> content_ok(s) && parse_section(lay, s) is Some)
    &&& (r is Ok ==> decoded_matches(r.unwrap(), parse_section(lay, s).unwrap()))
    &&& (r == Err::<Section, UnpackError>(UnpackError::ContainerFormatError) <==> s.len()
        >= CONTENT_END && !content_nonblank(content_units(s)))
    &&& (r == Err::<Section, UnpackError>(UnpackError::TruncatedData) <==> s.len() < CONTENT_END
        || (content_ok(s) && parse_section(lay, s) is None))
}

/// The shared decoding routine: one pass over the vendor section, driven by
/// the variant's layout constants. Succeeds exactly when every read stays
/// inside the buffer and the content label is non-blank.
#[verifier::rlimit(100)]
pub fn parse_with(lay: VariantLayout, data: &Vec<u8>) -> (r: Result<Section, UnpackError>)
    ensures
        decode_post(lay, data@, r),
{
    if data.len() < CONTENT_END {
        return Err(UnpackError::TruncatedData);
    }
    // Content label: units up to the first null, and whether any is not
    // whitespace.
    let (units, nonblank) = read_content_units(data);
    if !nonblank {
        return Err(UnpackError::ContainerFormatError);
    }
    let content_id = utf16_lossy(&units);

    let mut cursor = Cursor::new();
    match cursor.seek_to(data, RECORDS_START) {
        Ok(_) => (),
        Err(e) => {
            return Err(e);
        },
    }
    // Import table, then the two thunk tables.
    match skip_import_table(&mut cursor, data) {
        Ok(_) => (),
        Err(e) => {
            return Err(e);
        },
    }
    match skip_thunk_table(&mut cursor, data) {
        Ok(_) => (),
        Err(e) => {
            return Err(e);
        },
    }
    match skip_thunk_table(&mut cursor, data) {
        Ok(_) => (),
        Err(e) => {
            return Err(e);
        },
    }
    proof {
        assert(pos_after_tables(data@) == Some(cursor.pos as int));
    }
    match advance_to_entry(&mut cursor, data, lay) {
        Ok(_) => (),
        Err(e) => {
            return Err(e);
        },
    }
    let ghost q = cursor.pos as int;
    let oep = match cursor.read_u32(data) {
        Ok(v) => v,
        Err(e) => {
            return Err(e);
        },
    };
    let count = match cursor.read_u8(data) {
        Ok(v) => v,
        Err(e) => {
            return Err(e);
        },
    };
    let n = count as usize;
    let ghost b0 = cursor.pos as int;
    let blocks = match read_enc_blocks(&mut cursor, data, n) {
        Ok(v) => v,
        Err(e) => {
            return Err(e);
        },
    };
    let tail = match finish_tail(&mut cursor, data, lay.trailing, n) {
        Ok(v) => v,
        Err(e) => {
            return Err(e);
        },
    };
    let (image_base, size_of_image, import_dir, reloc_dir, iat_dir) = tail;
    let sec = Section {
        content_id,
        oep,
        enc_blocks: blocks,
        image_base,
        size_of_image,
        import_dir,
        iat_dir,
        reloc_dir,
    };
    proof {
        let s = data@;
        let f = flag_pos(lay.trailing, b0 + ENC_BLOCK_LEN * (n as int), n as int);
        assert(f == trailing_pos(lay.trailing, b0, n as int));
        assert(parse_section(lay, s) is Some);
        assert(decoded_matches(sec, parse_section(lay, s).unwrap()));
    }
    Ok(sec)
}

} // verus!
