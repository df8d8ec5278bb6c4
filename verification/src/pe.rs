use vstd::prelude::*;

use crate::apex;
use crate::bf2042;
use crate::decode::{decode_post, VariantLayout};
use crate::error::UnpackError;
use crate::ooa::Section;
use crate::skate_cpt;
use crate::titanfall2;

verus! {

/// The fields of one PE section header that the engine reads. The external
/// PE reader supplies them as plain values.
#[derive(Debug, Clone, Copy, PartialEq, Eq, Structural)]
pub struct PeSection {
    pub virtual_address: u32,
    pub pointer_to_raw_data: u32,
    pub size_of_raw_data: u32,
}

/// What the engine needs to know about the container: the DOS-stub header
/// pointer, the optional-header size, the two cross-checked header fields,
/// and the section table in file order (the vendor section last).
#[derive(Debug)]
pub struct PeInfo {
    pub e_lfanew: u32,
    pub size_of_optional_header: u16,
    pub image_base: u64,
    pub size_of_image: u32,
    pub sections: Vec<PeSection>,
}

/// First byte of the fingerprint window inside the vendor section.
pub const FINGERPRINT_START: usize = 0x2A;

/// One past the last byte of the fingerprint window.
pub const FINGERPRINT_END: usize = 0x3E;

/// The 20-byte format fingerprint at the fixed window of a vendor section,
/// if the section is long enough to hold it.
pub fn get_ooa_hash(data: &Vec<u8>) -> (r: Option<Vec<u8>>)
    ensures
        r is Some <==> data@.len() >= FINGERPRINT_END,
        r is Some ==> r.unwrap()@ == data@.subrange(
            FINGERPRINT_START as int,
            FINGERPRINT_END as int,
        ),
{
    if data.len() < FINGERPRINT_END {
        return None;
    }
    let mut h: Vec<u8> = Vec::new();
    let mut i: usize = FINGERPRINT_START;
    while i < FINGERPRINT_END
        invariant
            FINGERPRINT_START <= i <= FINGERPRINT_END,
            data@.len() >= FINGERPRINT_END,
            h@ == data@.subrange(FINGERPRINT_START as int, i as int),
        decreases FINGERPRINT_END - i,
    {
        let b = data[i];
        h.push(b);
        i = i + 1;
        proof {
            assert(h@ =~= data@.subrange(FINGERPRINT_START as int, i as int));
        }
    }
    Some(h)
}

/// Compare two byte vectors.
fn bytes_eq(a: &Vec<u8>, b: &Vec<u8>) -> (r: bool)
    ensures
        r == (a@ == b@),
{
    if a.len() != b.len() {
        return false;
    }
    let mut i: usize = 0;
    while i < a.len()
        invariant
            i <= a@.len(),
            a@.len() == b@.len(),
            forall|j: int| 0 <= j < i ==> a@[j] == b@[j],
        decreases a@.len() - i,
    {
        if a[i] != b[i] {
            return false;
        }
        i = i + 1;
    }
    proof {
        assert(a@ =~= b@);
    }
    true
}

/// The layout that a fingerprint selects, if it is a known one.
pub open spec fn layout_of_fingerprint(h: Seq<u8>) -> Option<VariantLayout> {
    if h == titanfall2::fingerprint() {
        Some(titanfall2::layout())
    } else if h == apex::fingerprint_s11_1() {
        Some(apex::layout_s11_1())
    } else if h == bf2042::fingerprint() {
        Some(bf2042::layout())
    } else if h == skate_cpt::fingerprint() {
        Some(skate_cpt::layout())
    } else {
        None
    }
}

/// Decode a vendor section: read its fingerprint, select the matching
/// variant, and run that variant's decoder. An unrecognized fingerprint is
/// fatal: guessing a layout risks corrupting the image.
pub fn decode_vendor_section(data: &Vec<u8>) -> (r: Result<Section, UnpackError>)
    ensures
        data@.len() < FINGERPRINT_END ==> r == Err::<Section, UnpackError>(
            UnpackError::ContainerFormatError,
        ),
        data@.len() >= FINGERPRINT_END ==> ({
            let h = data@.subrange(FINGERPRINT_START as int, FINGERPRINT_END as int);
            match layout_of_fingerprint(h) {
                Some(lay) => decode_post(lay, data@, r),
                None => r == Err::<Section, UnpackError>(UnpackError::UnknownVariant),
            }
        }),
{
    let h = match get_ooa_hash(data) {
        Some(h) => h,
        None => {
            return Err(UnpackError::ContainerFormatError);
        },
    };
    if bytes_eq(&h, &titanfall2::fingerprint_bytes()) {
        titanfall2::parse(data)
    } else if bytes_eq(&h, &apex::fingerprint_s11_1_bytes()) {
        apex::parse_s11_1(data)
    } else if bytes_eq(&h, &bf2042::fingerprint_bytes()) {
        bf2042::parse(data)
    } else if bytes_eq(&h, &skate_cpt::fingerprint_bytes()) {
        skate_cpt::parse(data)
    } else {
        Err(UnpackError::UnknownVariant)
    }
}

/// The sentinel block an encoder edge case leaves behind: sixteen 0x10
/// bytes.
pub open spec fn pad_sentinel() -> Seq<u8> {
    Seq::new(16, |i: int| 0x10u8)
}

/// Sixteen zero bytes.
pub open spec fn zero_block() -> Seq<u8> {
    Seq::new(16, |i: int| 0u8)
}

/// Zero a trailing sentinel block: when the last 16 bytes of `r` equal the
/// sentinel they become zeros; any other trailing bytes stay untouched.
pub open spec fn normalize_padding(r: Seq<u8>) -> Seq<u8> {
    if r.len() >= 16 && r.subrange(r.len() - 16, r.len() as int) == pad_sentinel() {
        r.subrange(0, r.len() - 16) + zero_block()
    } else {
        r
    }
}

/// Index of the first section at or after `i` whose virtual address is `va`.
pub open spec fn find_section(sections: Seq<PeSection>, va: u32, i: int) -> Option<int>
    decreases sections.len() - i,
{
    if i < 0 || i >= sections.len() {
        None
    } else if sections[i].virtual_address == va {
        Some(i)
    } else {
        find_section(sections, va, i + 1)
    }
}

/// Decrypt one region in place: the 16 bytes before it are its IV, and a
/// trailing sentinel block of the decryption is zeroed.
pub open spec fn apply_block(buf: Seq<u8>, p: int, n: int, key: Seq<u8>) -> Seq<u8> {
    buf.subrange(0, p) + normalize_padding(
        crate::util::cbc_decrypt_of(key, buf.subrange(p - 16, p), buf.subrange(p, p + n)),
    ) + buf.skip(p + n)
}

/// The whole decryption pass, block descriptor by block descriptor, in
/// on-disk order. A descriptor whose virtual address matches no section is
/// the mapping error; a region that is not preceded by a full IV block, runs
/// outside the buffer, or is not a whole number of cipher blocks is the
/// container error.
pub open spec fn decrypt_blocks_spec(
    buf: Seq<u8>,
    sections: Seq<PeSection>,
    blocks: Seq<crate::ooa::EncBlock>,
    key: Seq<u8>,
) -> Result<Seq<u8>, UnpackError>
    decreases blocks.len(),
{
    if blocks.len() == 0 {
        Ok(buf)
    } else {
        match find_section(sections, blocks[0].va, 0) {
            Some(i) => {
                let p = sections[i].pointer_to_raw_data as int;
                let n = sections[i].size_of_raw_data as int;
                if 16 <= p && p + n <= buf.len() && n % 16 == 0 {
                    decrypt_blocks_spec(apply_block(buf, p, n, key), sections, blocks.drop_first(), key)
                } else {
                    Err(UnpackError::ContainerFormatError)
                }
            },
            None => Err(UnpackError::SectionMappingError),
        }
    }
}

/// Find the first section with the given virtual address.
#[verifier::loop_isolation(false)]
fn find_section_idx(sections: &Vec<PeSection>, va: u32) -> (r: Option<usize>)
    ensures
        r is Some <==> find_section(sections@, va, 0) is Some,
        r is Some ==> Some(r.unwrap() as int) == find_section(sections@, va, 0)
            && r.unwrap() < sections@.len(),
{
    let mut i: usize = 0;
    while i < sections.len()
        invariant
            0 <= i <= sections@.len(),
            find_section(sections@, va, 0) == find_section(sections@, va, i as int),
        decreases sections@.len() - i,
    {
        if sections[i].virtual_address == va {
            return Some(i);
        }
        i = i + 1;
    }
    None
}

/// If the 16 bytes ending at `start + len` are all 0x10, zero them; the
/// padding-normalization step after decrypting one region.
#[verifier::loop_isolation(false)]
fn fix_trailing_padding(buf: &mut Vec<u8>, start: usize, len: usize)
    requires
        start + len <= old(buf)@.len(),
    ensures
        final(buf)@ == old(buf)@.subrange(0, start as int) + normalize_padding(
            old(buf)@.subrange(start as int, start as int + len as int),
        ) + old(buf)@.skip(start as int + len as int),
        final(buf)@.len() == old(buf)@.len(),
{
    let ghost region = old(buf)@.subrange(start as int, start as int + len as int);
    if len < 16 {
        proof {
            assert(normalize_padding(region) == region);
            assert(buf@ =~= old(buf)@.subrange(0, start as int) + region + old(buf)@.skip(
                start as int + len as int,
            ));
        }
        return ;
    }
    let total = buf.len();
    let end = start + len;
    let tail = end - 16;
    let mut all = true;
    let mut i: usize = tail;
    while i < end
        invariant
            tail <= i <= end,
            all <==> (forall|j: int| tail <= j < i ==> old(buf)@[j] == 0x10u8),
            buf@ == old(buf)@,
        decreases end - i,
    {
        if buf[i] != 0x10 {
            all = false;
        }
        i = i + 1;
    }
    if all {
        proof {
            assert(region.subrange(len - 16, len as int) =~= pad_sentinel());
        }
        let mut j: usize = tail;
        while j < end
            invariant
                tail <= j <= end,
                buf@.len() == old(buf)@.len(),
                forall|t: int| 0 <= t < tail ==> buf@[t] == old(buf)@[t],
                forall|t: int| tail <= t < j ==> buf@[t] == 0u8,
                forall|t: int| end <= t < buf@.len() ==> buf@[t] == old(buf)@[t],
            decreases end - j,
        {
            buf[j] = 0;
            j = j + 1;
        }
        proof {
            assert(normalize_padding(region) == region.subrange(0, len - 16) + zero_block());
            assert(buf@ =~= old(buf)@.subrange(0, start as int) + (region.subrange(0, len - 16)
                + zero_block()) + old(buf)@.skip(start as int + len as int));
        }
    } else {
        proof {
            let witness = choose|j: int| tail <= j < end && old(buf)@[j] != 0x10u8;
            assert(region[witness - start] != 0x10u8);
            assert(region.subrange(len - 16, len as int)[witness - start - (len - 16)] != 0x10u8);
            assert(region.subrange(len - 16, len as int) != pad_sentinel()) by {
                assert(pad_sentinel()[witness - start - (len - 16)] == 0x10u8);
            }
            assert(normalize_padding(region) == region);
            assert(buf@ =~= old(buf)@.subrange(0, start as int) + region + old(buf)@.skip(
                start as int + len as int,
            ));
        }
    }
}

/// Decrypt every protected region of `buf` in place: match each block
/// descriptor to the section with its virtual address, take the 16 bytes
/// before the section's raw data as the IV, decrypt, and zero a trailing
/// sentinel block. The buffer's length never changes; on an error it may be
/// left partially decrypted, and the run is over anyway.
#[verifier::loop_isolation(false)]
pub fn decrypt_blocks(
    buf: &mut Vec<u8>,
    sections: &Vec<PeSection>,
    blocks: &Vec<crate::ooa::EncBlock>,
    key: &Vec<u8>,
) -> (r: Result<(), UnpackError>)
    requires
        key@.len() == 16,
    ensures
        ({
            let outcome = decrypt_blocks_spec(old(buf)@, sections@, blocks@, key@);
            &&& (r is Ok <==> outcome is Ok)
            &&& (r is Ok ==> final(buf)@ == outcome->Ok_0)
            &&& (r is Err ==> r == Err::<(), UnpackError>(outcome->Err_0))
        }),
        final(buf)@.len() == old(buf)@.len(),
{
    let mut k: usize = 0;
    proof {
        assert(blocks@.skip(0) =~= blocks@);
    }
    while k < blocks.len()
        invariant
            0 <= k <= blocks@.len(),
            buf@.len() == old(buf)@.len(),
            decrypt_blocks_spec(old(buf)@, sections@, blocks@, key@) == decrypt_blocks_spec(
                buf@,
                sections@,
                blocks@.skip(k as int),
                key@,
            ),
        decreases blocks@.len() - k,
    {
        let ghost pre = buf@;
        let ghost rest = blocks@.skip(k as int);
        proof {
            assert(rest[0] == blocks@[k as int]);
        }
        let va = blocks[k].va;
        let si = match find_section_idx(sections, va) {
            Some(si) => si,
            None => {
                return Err(UnpackError::SectionMappingError);
            },
        };
        let p = sections[si].pointer_to_raw_data as usize;
        let n = sections[si].size_of_raw_data as usize;
        if !(16 <= p && n <= buf.len() && p <= buf.len() - n && n % 16 == 0) {
            return Err(UnpackError::ContainerFormatError);
        }
        // The 16 bytes immediately preceding the raw data are the IV.
        let mut iv: Vec<u8> = Vec::new();
        let mut t: usize = p - 16;
        while t < p
            invariant
                p - 16 <= t <= p,
                p <= buf@.len(),
                iv@ == buf@.subrange(p - 16, t as int),
                buf@ == pre,
            decreases p - t,
        {
            let b = buf[t];
            iv.push(b);
            t = t + 1;
            proof {
                assert(iv@ =~= buf@.subrange(p - 16, t as int));
            }
        }
        crate::util::cbc_decrypt_range(key, &iv, buf, p, n);
        proof {
            let dec = crate::util::cbc_decrypt_of(
                key@,
                pre.subrange(p - 16, p as int),
                pre.subrange(p as int, p + n),
            );
            assert(buf@.subrange(0, p as int) =~= pre.subrange(0, p as int));
            assert(buf@.subrange(p as int, p + n) =~= dec);
            assert(buf@.skip(p + n) =~= pre.skip(p + n));
        }
        fix_trailing_padding(buf, p, n);
        k = k + 1;
        proof {
            let mid = normalize_padding(
                crate::util::cbc_decrypt_of(
                    key@,
                    pre.subrange(p - 16, p as int),
                    pre.subrange(p as int, p + n),
                ),
            );
            assert(buf@ =~= apply_block(pre, p as int, n as int, key@));
            assert(rest.drop_first() =~= blocks@.skip(k as int));
        }
    }
    proof {
        assert(blocks@.skip(blocks@.len() as int) =~= Seq::<crate::ooa::EncBlock>::empty());
    }
    Ok(())
}

/// The little-endian bytes of a 16-bit value.
pub open spec fn u16_le_bytes(v: u16) -> Seq<u8> {
    seq![(v & 0xff) as u8, ((v >> 8) & 0xff) as u8]
}

/// The little-endian bytes of a 32-bit value.
pub open spec fn u32_le_bytes(v: u32) -> Seq<u8> {
    seq![
        (v & 0xff) as u8,
        ((v >> 8) & 0xff) as u8,
        ((v >> 16) & 0xff) as u8,
        ((v >> 24) & 0xff) as u8,
    ]
}

/// `s` with the bytes at `off` replaced by `b`.
pub open spec fn splice(s: Seq<u8>, off: int, b: Seq<u8>) -> Seq<u8> {
    s.subrange(0, off) + b + s.skip(off + b.len())
}

/// A directory pair written at `off`: address first, size right after.
pub open spec fn dir_patch(t: Seq<u8>, off: int, d: crate::ooa::DataDir) -> Seq<u8> {
    splice(splice(t, off, u32_le_bytes(d.va)), off + 4, u32_le_bytes(d.size))
}

fn write_u16_at(buf: &mut Vec<u8>, off: usize, v: u16)
    requires
        off + 2 <= old(buf)@.len(),
    ensures
        final(buf)@ == splice(old(buf)@, off as int, u16_le_bytes(v)),
        final(buf)@.len() == old(buf)@.len(),
{
    let total = buf.len();
    buf[off] = (v & 0xff) as u8;
    buf[off + 1] = ((v >> 8) & 0xff) as u8;
    proof {
        assert(buf@ =~= splice(old(buf)@, off as int, u16_le_bytes(v)));
    }
}

fn write_u32_at(buf: &mut Vec<u8>, off: usize, v: u32)
    requires
        off + 4 <= old(buf)@.len(),
    ensures
        final(buf)@ == splice(old(buf)@, off as int, u32_le_bytes(v)),
        final(buf)@.len() == old(buf)@.len(),
{
    let total = buf.len();
    buf[off] = (v & 0xff) as u8;
    buf[off + 1] = ((v >> 8) & 0xff) as u8;
    buf[off + 2] = ((v >> 16) & 0xff) as u8;
    buf[off + 3] = ((v >> 24) & 0xff) as u8;
    proof {
        assert(buf@ =~= splice(old(buf)@, off as int, u32_le_bytes(v)));
    }
}

fn write_dir_at(buf: &mut Vec<u8>, off: usize, d: crate::ooa::DataDir)
    requires
        off + 8 <= old(buf)@.len(),
    ensures
        final(buf)@ == dir_patch(old(buf)@, off as int, d),
        final(buf)@.len() == old(buf)@.len(),
{
    let total = buf.len();
    write_u32_at(buf, off, d.va);
    write_u32_at(buf, off + 4, d.size);
}

#[verifier::loop_isolation(false)]
fn write_zeros_at(buf: &mut Vec<u8>, off: usize, cnt: usize)
    requires
        off + cnt <= old(buf)@.len(),
    ensures
        final(buf)@ == splice(old(buf)@, off as int, Seq::new(cnt as nat, |i: int| 0u8)),
        final(buf)@.len() == old(buf)@.len(),
{
    let total = buf.len();
    let mut j: usize = off;
    while j < off + cnt
        invariant
            off <= j <= off + cnt,
            buf@.len() == old(buf)@.len(),
            forall|t: int| 0 <= t < off ==> buf@[t] == old(buf)@[t],
            forall|t: int| off <= t < j ==> buf@[t] == 0u8,
            forall|t: int| off + cnt <= t < buf@.len() ==> buf@[t] == old(buf)@[t],
        decreases off + cnt - j,
    {
        buf[j] = 0;
        j = j + 1;
    }
    proof {
        assert(buf@ =~= splice(old(buf)@, off as int, Seq::new(cnt as nat, |i: int| 0u8)));
    }
}

pub open spec fn dir_present(d: crate::ooa::DataDir) -> bool {
    d.va != 0 && d.size != 0
}

/// A binary is "regular" when the descriptor carries all three directories;
/// otherwise directory patches are selectively skipped and the vendor
/// section's bytes are retained.
pub open spec fn is_regular(sec: Section) -> bool {
    dir_present(sec.import_dir) && dir_present(sec.reloc_dir) && dir_present(sec.iat_dir)
}

/// The patches applied in both modes, in order: the entry point always, then
/// each directory the descriptor carries. `h` is the start of the file
/// header (the DOS-stub pointer plus the file-header size of 24).
pub open spec fn common_patches(t: Seq<u8>, h: int, sec: Section) -> Seq<u8> {
    let t1 = splice(t, h + 16, u32_le_bytes(sec.oep));
    let t2 = if dir_present(sec.import_dir) {
        dir_patch(t1, h + 120, sec.import_dir)
    } else {
        t1
    };
    let t3 = if dir_present(sec.reloc_dir) {
        dir_patch(t2, h + 152, sec.reloc_dir)
    } else {
        t2
    };
    if dir_present(sec.iat_dir) {
        dir_patch(t3, h + 208, sec.iat_dir)
    } else {
        t3
    }
}

/// The size-of-image value written in regular mode: the descriptor's when it
/// carries one, else the container's own reported size minus one page.
pub open spec fn size_of_image_value(info: PeInfo, sec: Section) -> u32 {
    if sec.size_of_image != 0 {
        sec.size_of_image
    } else {
        (info.size_of_image - 0x1000) as u32
    }
}

/// The regular-mode-only patches, in order: section count decremented, the
/// vendor section's (last) descriptor-table entry zeroed, size of image.
pub open spec fn regular_patches(t: Seq<u8>, info: PeInfo, sec: Section) -> Seq<u8> {
    let e = info.e_lfanew as int;
    let h = e + 24;
    let nsec = info.sections@.len() as int;
    let entry_off = h + info.size_of_optional_header + (nsec - 1) * 0x28;
    let t1 = splice(t, e + 6, u16_le_bytes((nsec - 1) as u16));
    let t2 = splice(t1, entry_off, Seq::new(0x28, |i: int| 0u8));
    splice(t2, h + 56, u32_le_bytes(size_of_image_value(info, sec)))
}

/// Whether the container is well shaped enough to patch: at least one
/// section and a count that fits its 16-bit field, every patched offset
/// inside the output, and a subtractable reported size where it is needed.
pub open spec fn reconstruct_ok(buf: Seq<u8>, info: PeInfo, sec: Section) -> bool {
    let e = info.e_lfanew as int;
    let h = e + 24;
    let nsec = info.sections@.len() as int;
    let out_len = if is_regular(sec) {
        info.sections@.last().pointer_to_raw_data as int
    } else {
        buf.len() as int
    };
    &&& 1 <= nsec <= 0xFFFF
    &&& out_len <= buf.len()
    &&& h + 216 <= out_len
    &&& (is_regular(sec) ==> h + info.size_of_optional_header + (nsec - 1) * 0x28 + 0x28
        <= out_len)
    &&& (is_regular(sec) && sec.size_of_image == 0 ==> info.size_of_image >= 0x1000)
}

/// The final output: in regular mode the file truncated at the vendor
/// section with the regular and common patches, in irregular mode the whole
/// file with the common patches alone.
pub open spec fn reconstruct_spec(buf: Seq<u8>, info: PeInfo, sec: Section) -> Result<
    Seq<u8>,
    UnpackError,
> {
    if !reconstruct_ok(buf, info, sec) {
        Err(UnpackError::ContainerFormatError)
    } else {
        let h = info.e_lfanew as int + 24;
        if is_regular(sec) {
            let base = buf.subrange(0, info.sections@.last().pointer_to_raw_data as int);
            Ok(common_patches(regular_patches(base, info, sec), h, sec))
        } else {
            Ok(common_patches(buf, h, sec))
        }
    }
}

/// Copy the first `cnt` bytes of `buf` into a fresh vector.
fn copy_prefix(buf: &Vec<u8>, cnt: usize) -> (out: Vec<u8>)
    requires
        cnt <= buf@.len(),
    ensures
        out@ == buf@.subrange(0, cnt as int),
{
    let mut out: Vec<u8> = Vec::new();
    let mut i: usize = 0;
    while i < cnt
        invariant
            0 <= i <= cnt,
            cnt <= buf@.len(),
            out@ == buf@.subrange(0, i as int),
        decreases cnt - i,
    {
        let b = buf[i];
        out.push(b);
        i = i + 1;
        proof {
            assert(out@ =~= buf@.subrange(0, i as int));
        }
    }
    out
}

/// Rewrite the PE header fields so the decrypted image is loadable, and in
/// regular mode drop the vendor section. The input buffer is left as it is;
/// the patched copy is returned.
#[verifier::loop_isolation(false)]
#[verifier::rlimit(100)]
pub fn reconstruct(buf: &Vec<u8>, info: &PeInfo, sec: &Section) -> (r: Result<
    Vec<u8>,
    UnpackError,
>)
    ensures
        r is Ok <==> reconstruct_spec(buf@, *info, *sec) is Ok,
        r is Ok ==> r.unwrap()@ == reconstruct_spec(buf@, *info, *sec)->Ok_0,
        r is Err ==> r == Err::<Vec<u8>, UnpackError>(UnpackError::ContainerFormatError),
{
    let regular = sec.import_dir.va != 0 && sec.import_dir.size != 0 && sec.reloc_dir.va != 0
        && sec.reloc_dir.size != 0 && sec.iat_dir.va != 0 && sec.iat_dir.size != 0;
    let nsec = info.sections.len();
    if nsec < 1 || nsec > 0xFFFF {
        return Err(UnpackError::ContainerFormatError);
    }
    let out_len = if regular {
        info.sections[nsec - 1].pointer_to_raw_data as usize
    } else {
        buf.len()
    };
    if out_len > buf.len() {
        return Err(UnpackError::ContainerFormatError);
    }
    if out_len < 240 {
        return Err(UnpackError::ContainerFormatError);
    }
    let e = info.e_lfanew as usize;
    if e > out_len - 240 {
        return Err(UnpackError::ContainerFormatError);
    }
    let h = e + 24;
    let opt = info.size_of_optional_header as usize;
    if regular && opt + (nsec - 1) * 0x28 + 0x28 > out_len - h {
        return Err(UnpackError::ContainerFormatError);
    }
    if regular && sec.size_of_image == 0 && info.size_of_image < 0x1000 {
        return Err(UnpackError::ContainerFormatError);
    }
    // The output starts as the input, truncated at the vendor section in
    // regular mode.
    let mut out: Vec<u8> = copy_prefix(buf, out_len);
    let ghost base = out@;
    if regular {
        // Section count decremented by one.
        write_u16_at(&mut out, e + 6, (nsec - 1) as u16);
        // The vendor section's descriptor-table entry zeroed.
        write_zeros_at(&mut out, h + opt + (nsec - 1) * 0x28, 0x28);
        // Size of image.
        let size_val = if sec.size_of_image != 0 {
            sec.size_of_image
        } else {
            info.size_of_image - 0x1000
        };
        write_u32_at(&mut out, h + 56, size_val);
        proof {
            assert(out@ == regular_patches(base, *info, *sec));
        }
    }
    let ghost mid = out@;
    // The entry point, always.
    write_u32_at(&mut out, h + 16, sec.oep);
    // Each directory the descriptor carries; a (0, 0) pair means the
    // container's own value stays.
    if sec.import_dir.va != 0 && sec.import_dir.size != 0 {
        write_dir_at(&mut out, h + 120, sec.import_dir);
    }
    if sec.reloc_dir.va != 0 && sec.reloc_dir.size != 0 {
        write_dir_at(&mut out, h + 152, sec.reloc_dir);
    }
    if sec.iat_dir.va != 0 && sec.iat_dir.size != 0 {
        write_dir_at(&mut out, h + 208, sec.iat_dir);
    }
    proof {
        assert(out@ == common_patches(mid, h as int, *sec));
        if regular {
            assert(base =~= buf@.subrange(
                0,
                info.sections@.last().pointer_to_raw_data as int,
            ));
        } else {
            assert(base =~= buf@);
        }
    }
    Ok(out)
}

/// A splice leaves its length and every byte outside the patched range
/// unchanged.
pub proof fn lemma_splice_outside(s: Seq<u8>, off: int, b: Seq<u8>, j: int)
    requires
        0 <= off,
        off + b.len() <= s.len(),
        0 <= j < s.len(),
        j < off || off + b.len() <= j,
    ensures
        splice(s, off, b).len() == s.len(),
        splice(s, off, b)[j] == s[j],
{
}

/// A 16-bit field reads back from its own patch.
pub proof fn lemma_splice_le16(s: Seq<u8>, off: int, v: u16)
    requires
        0 <= off,
        off + 2 <= s.len(),
    ensures
        crate::cursor::le16(splice(s, off, u16_le_bytes(v)), off) == v,
{
    let t = splice(s, off, u16_le_bytes(v));
    assert(t[off] == (v & 0xff) as u8);
    assert(t[off + 1] == ((v >> 8) & 0xff) as u8);
    assert(((v & 0xff) as u8 as u16) | (((v >> 8) & 0xff) as u8 as u16) << 8 == v) by (bit_vector);
}

/// A 32-bit field reads back from its own patch.
pub proof fn lemma_splice_le32(s: Seq<u8>, off: int, v: u32)
    requires
        0 <= off,
        off + 4 <= s.len(),
    ensures
        crate::cursor::le32(splice(s, off, u32_le_bytes(v)), off) == v,
{
    let t = splice(s, off, u32_le_bytes(v));
    assert(t[off] == (v & 0xff) as u8);
    assert(t[off + 1] == ((v >> 8) & 0xff) as u8);
    assert(t[off + 2] == ((v >> 16) & 0xff) as u8);
    assert(t[off + 3] == ((v >> 24) & 0xff) as u8);
    assert(((v & 0xff) as u8 as u32) | (((v >> 8) & 0xff) as u8 as u32) << 8 | (((v >> 16)
        & 0xff) as u8 as u32) << 16 | (((v >> 24) & 0xff) as u8 as u32) << 24 == v) by (bit_vector);
}

/// A 16-bit field is unaffected by a disjoint splice.
pub proof fn lemma_le16_untouched(s: Seq<u8>, off: int, b: Seq<u8>, j: int)
    requires
        0 <= off,
        off + b.len() <= s.len(),
        0 <= j,
        j + 2 <= s.len(),
        j + 2 <= off || off + b.len() <= j,
    ensures
        crate::cursor::le16(splice(s, off, b), j) == crate::cursor::le16(s, j),
{
    lemma_splice_outside(s, off, b, j);
    lemma_splice_outside(s, off, b, j + 1);
}

/// A 32-bit field is unaffected by a disjoint splice.
pub proof fn lemma_le32_untouched(s: Seq<u8>, off: int, b: Seq<u8>, j: int)
    requires
        0 <= off,
        off + b.len() <= s.len(),
        0 <= j,
        j + 4 <= s.len(),
        j + 4 <= off || off + b.len() <= j,
    ensures
        crate::cursor::le32(splice(s, off, b), j) == crate::cursor::le32(s, j),
{
    lemma_splice_outside(s, off, b, j);
    lemma_splice_outside(s, off, b, j + 1);
    lemma_splice_outside(s, off, b, j + 2);
    lemma_splice_outside(s, off, b, j + 3);
}

/// Both halves of a directory pair read back from their patch.
pub proof fn lemma_dir_patch_readback(t: Seq<u8>, off: int, d: crate::ooa::DataDir)
    requires
        0 <= off,
        off + 8 <= t.len(),
    ensures
        dir_patch(t, off, d).len() == t.len(),
        crate::cursor::le32(dir_patch(t, off, d), off) == d.va,
        crate::cursor::le32(dir_patch(t, off, d), off + 4) == d.size,
{
    let t1 = splice(t, off, u32_le_bytes(d.va));
    lemma_splice_le32(t, off, d.va);
    lemma_le32_untouched(t1, off + 4, u32_le_bytes(d.size), off);
    lemma_splice_le32(t1, off + 4, d.size);
}

/// A 16-bit field is unaffected by a disjoint directory patch.
pub proof fn lemma_dir_patch_le16_untouched(t: Seq<u8>, off: int, d: crate::ooa::DataDir, j: int)
    requires
        0 <= off,
        off + 8 <= t.len(),
        0 <= j,
        j + 2 <= t.len(),
        j + 2 <= off || off + 8 <= j,
    ensures
        crate::cursor::le16(dir_patch(t, off, d), j) == crate::cursor::le16(t, j),
{
    let t1 = splice(t, off, u32_le_bytes(d.va));
    lemma_le16_untouched(t, off, u32_le_bytes(d.va), j);
    lemma_le16_untouched(t1, off + 4, u32_le_bytes(d.size), j);
}

/// A 32-bit field is unaffected by a disjoint directory patch.
pub proof fn lemma_dir_patch_le32_untouched(t: Seq<u8>, off: int, d: crate::ooa::DataDir, j: int)
    requires
        0 <= off,
        off + 8 <= t.len(),
        0 <= j,
        j + 4 <= t.len(),
        j + 4 <= off || off + 8 <= j,
    ensures
        crate::cursor::le32(dir_patch(t, off, d), j) == crate::cursor::le32(t, j),
{
    let t1 = splice(t, off, u32_le_bytes(d.va));
    lemma_le32_untouched(t, off, u32_le_bytes(d.va), j);
    lemma_le32_untouched(t1, off + 4, u32_le_bytes(d.size), j);
}

/// Irregular mode leaves the section-count and size-of-image bytes exactly
/// as the input had them, and the output as long as the input, while the
/// entry point is still patched.
pub proof fn lemma_irregular_preserves(buf: Seq<u8>, info: PeInfo, sec: Section)
    requires
        !is_regular(sec),
        reconstruct_spec(buf, info, sec) is Ok,
    ensures
        ({
            let out = reconstruct_spec(buf, info, sec)->Ok_0;
            let e = info.e_lfanew as int;
            let h = e + 24;
            &&& out.len() == buf.len()
            &&& crate::cursor::le16(out, e + 6) == crate::cursor::le16(buf, e + 6)
            &&& crate::cursor::le32(out, h + 56) == crate::cursor::le32(buf, h + 56)
            &&& crate::cursor::le32(out, h + 16) == sec.oep
        }),
{
    let e = info.e_lfanew as int;
    let h = e + 24;
    let t1 = splice(buf, h + 16, u32_le_bytes(sec.oep));
    lemma_splice_le32(buf, h + 16, sec.oep);
    lemma_le16_untouched(buf, h + 16, u32_le_bytes(sec.oep), e + 6);
    lemma_le32_untouched(buf, h + 16, u32_le_bytes(sec.oep), h + 56);
    let t2 = if dir_present(sec.import_dir) {
        dir_patch(t1, h + 120, sec.import_dir)
    } else {
        t1
    };
    if dir_present(sec.import_dir) {
        lemma_dir_patch_le16_untouched(t1, h + 120, sec.import_dir, e + 6);
        lemma_dir_patch_le32_untouched(t1, h + 120, sec.import_dir, h + 56);
        lemma_dir_patch_le32_untouched(t1, h + 120, sec.import_dir, h + 16);
    }
    let t3 = if dir_present(sec.reloc_dir) {
        dir_patch(t2, h + 152, sec.reloc_dir)
    } else {
        t2
    };
    if dir_present(sec.reloc_dir) {
        lemma_dir_patch_le16_untouched(t2, h + 152, sec.reloc_dir, e + 6);
        lemma_dir_patch_le32_untouched(t2, h + 152, sec.reloc_dir, h + 56);
        lemma_dir_patch_le32_untouched(t2, h + 152, sec.reloc_dir, h + 16);
    }
    if dir_present(sec.iat_dir) {
        lemma_dir_patch_le16_untouched(t3, h + 208, sec.iat_dir, e + 6);
        lemma_dir_patch_le32_untouched(t3, h + 208, sec.iat_dir, h + 56);
        lemma_dir_patch_le32_untouched(t3, h + 208, sec.iat_dir, h + 16);
    }
}

/// Regular mode: the output ends where the vendor section began, and every
/// patched header field reads back at its documented offset, with the vendor
/// section's descriptor-table entry zeroed.
#[verifier::rlimit(100)]
pub proof fn lemma_regular_fields_readable(buf: Seq<u8>, info: PeInfo, sec: Section)
    requires
        is_regular(sec),
        info.size_of_optional_header >= 224,
        reconstruct_spec(buf, info, sec) is Ok,
    ensures
        ({
            let out = reconstruct_spec(buf, info, sec)->Ok_0;
            let e = info.e_lfanew as int;
            let h = e + 24;
            let nsec = info.sections@.len() as int;
            let entry_off = h + info.size_of_optional_header + (nsec - 1) * 0x28;
            &&& out.len() == info.sections@.last().pointer_to_raw_data as int
            &&& crate::cursor::le16(out, e + 6) == (nsec - 1) as u16
            &&& crate::cursor::le32(out, h + 56) == size_of_image_value(info, sec)
            &&& crate::cursor::le32(out, h + 16) == sec.oep
            &&& crate::cursor::le32(out, h + 120) == sec.import_dir.va
            &&& crate::cursor::le32(out, h + 124) == sec.import_dir.size
            &&& crate::cursor::le32(out, h + 152) == sec.reloc_dir.va
            &&& crate::cursor::le32(out, h + 156) == sec.reloc_dir.size
            &&& crate::cursor::le32(out, h + 208) == sec.iat_dir.va
            &&& crate::cursor::le32(out, h + 212) == sec.iat_dir.size
            &&& forall|j: int| entry_off <= j < entry_off + 0x28 ==> out[j] == 0
        }),
{
    let e = info.e_lfanew as int;
    let h = e + 24;
    let nsec = info.sections@.len() as int;
    let opt = info.size_of_optional_header as int;
    let entry_off = h + opt + (nsec - 1) * 0x28;
    let base = buf.subrange(0, info.sections@.last().pointer_to_raw_data as int);
    let zeros = Seq::new(0x28 as nat, |i: int| 0u8);
    assert((nsec - 1) * 0x28 >= 0) by (nonlinear_arith)
        requires
            nsec >= 1,
    ;
    let t1 = splice(base, e + 6, u16_le_bytes((nsec - 1) as u16));
    lemma_splice_le16(base, e + 6, (nsec - 1) as u16);
    let t2 = splice(t1, entry_off, zeros);
    lemma_le16_untouched(t1, entry_off, zeros, e + 6);
    let t3 = splice(t2, h + 56, u32_le_bytes(size_of_image_value(info, sec)));
    lemma_splice_le32(t2, h + 56, size_of_image_value(info, sec));
    lemma_le16_untouched(t2, h + 56, u32_le_bytes(size_of_image_value(info, sec)), e + 6);
    let t4 = splice(t3, h + 16, u32_le_bytes(sec.oep));
    lemma_splice_le32(t3, h + 16, sec.oep);
    lemma_le16_untouched(t3, h + 16, u32_le_bytes(sec.oep), e + 6);
    lemma_le32_untouched(t3, h + 16, u32_le_bytes(sec.oep), h + 56);
    let t5 = dir_patch(t4, h + 120, sec.import_dir);
    lemma_dir_patch_readback(t4, h + 120, sec.import_dir);
    lemma_dir_patch_le16_untouched(t4, h + 120, sec.import_dir, e + 6);
    lemma_dir_patch_le32_untouched(t4, h + 120, sec.import_dir, h + 56);
    lemma_dir_patch_le32_untouched(t4, h + 120, sec.import_dir, h + 16);
    let t6 = dir_patch(t5, h + 152, sec.reloc_dir);
    lemma_dir_patch_readback(t5, h + 152, sec.reloc_dir);
    lemma_dir_patch_le16_untouched(t5, h + 152, sec.reloc_dir, e + 6);
    lemma_dir_patch_le32_untouched(t5, h + 152, sec.reloc_dir, h + 56);
    lemma_dir_patch_le32_untouched(t5, h + 152, sec.reloc_dir, h + 16);
    lemma_dir_patch_le32_untouched(t5, h + 152, sec.reloc_dir, h + 120);
    lemma_dir_patch_le32_untouched(t5, h + 152, sec.reloc_dir, h + 124);
    let t7 = dir_patch(t6, h + 208, sec.iat_dir);
    lemma_dir_patch_readback(t6, h + 208, sec.iat_dir);
    lemma_dir_patch_le16_untouched(t6, h + 208, sec.iat_dir, e + 6);
    lemma_dir_patch_le32_untouched(t6, h + 208, sec.iat_dir, h + 56);
    lemma_dir_patch_le32_untouched(t6, h + 208, sec.iat_dir, h + 16);
    lemma_dir_patch_le32_untouched(t6, h + 208, sec.iat_dir, h + 120);
    lemma_dir_patch_le32_untouched(t6, h + 208, sec.iat_dir, h + 124);
    lemma_dir_patch_le32_untouched(t6, h + 208, sec.iat_dir, h + 152);
    lemma_dir_patch_le32_untouched(t6, h + 208, sec.iat_dir, h + 156);
    assert forall|j: int| entry_off <= j < entry_off + 0x28 implies t7[j] == 0u8 by {
        assert(t2[j] == 0u8);
        lemma_splice_outside(t2, h + 56, u32_le_bytes(size_of_image_value(info, sec)), j);
        lemma_splice_outside(t3, h + 16, u32_le_bytes(sec.oep), j);
        lemma_splice_outside(t4, h + 120, u32_le_bytes(sec.import_dir.va), j);
        lemma_splice_outside(
            splice(t4, h + 120, u32_le_bytes(sec.import_dir.va)),
            h + 124,
            u32_le_bytes(sec.import_dir.size),
            j,
        );
        lemma_splice_outside(t5, h + 152, u32_le_bytes(sec.reloc_dir.va), j);
        lemma_splice_outside(
            splice(t5, h + 152, u32_le_bytes(sec.reloc_dir.va)),
            h + 156,
            u32_le_bytes(sec.reloc_dir.size),
            j,
        );
        lemma_splice_outside(t6, h + 208, u32_le_bytes(sec.iat_dir.va), j);
        lemma_splice_outside(
            splice(t6, h + 208, u32_le_bytes(sec.iat_dir.va)),
            h + 212,
            u32_le_bytes(sec.iat_dir.size),
            j,
        );
    }
}

/// The soft cross-checks between descriptor and container: the image base
/// when the descriptor carries one, and the reported size of image minus one
/// page when the descriptor carries a size. Both are diagnostics only; the
/// caller logs a failed one and goes on.
pub fn consistency_checks(info: &PeInfo, sec: &Section) -> (r: (bool, bool))
    ensures
        r.0 == (sec.image_base == 0 || sec.image_base == info.image_base),
        r.1 == (sec.size_of_image == 0 || (info.size_of_image >= 0x1000 && sec.size_of_image
            == info.size_of_image - 0x1000)),
{
    let base_ok = sec.image_base == 0 || sec.image_base == info.image_base;
    let size_ok = sec.size_of_image == 0 || (info.size_of_image >= 0x1000 && sec.size_of_image
        == info.size_of_image - 0x1000);
    (base_ok, size_ok)
}

} // verus!
