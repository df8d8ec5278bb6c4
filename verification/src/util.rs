use vstd::prelude::*;

use crate::error::UnpackError;
use block_modes::BlockMode;

verus! {

/// What AES-128-CBC decryption followed by PKCS7 unpadding returns for a
/// given key, IV and ciphertext, when the padding turns out well formed; a
/// pure function of the three inputs.
pub uninterp spec fn aes_unpad_of(key: Seq<u8>, iv: Seq<u8>, enc: Seq<u8>) -> Option<Seq<u8>>;

/// What raw AES-128-CBC block decryption (no unpadding) turns a whole number
/// of blocks into; a pure function of the three inputs.
pub uninterp spec fn cbc_decrypt_of(key: Seq<u8>, iv: Seq<u8>, enc: Seq<u8>) -> Seq<u8>;

/// What the permissive base64 decoder (standard alphabet, trailing bits
/// tolerated) returns, when the input is well formed; a pure function of the
/// input.
pub uninterp spec fn b64_permissive_of(frag: Seq<u8>) -> Option<Seq<u8>>;

/// The fixed, shared 128-bit key of the license container. It is a constant
/// of the scheme and must be reproduced byte for byte.
pub open spec fn dlf_key_spec() -> Seq<u8> {
    seq![65u8, 50, 114, 45, 208, 130, 239, 176, 220, 100, 87, 197, 118, 104, 202, 9]
}

/// The all-zero initialization vector used for the license container.
pub open spec fn zero_iv_spec() -> Seq<u8> {
    seq![0u8, 0, 0, 0, 0, 0, 0, 0, 0, 0, 0, 0, 0, 0, 0, 0]
}

/// Length of the opaque, unencrypted prefix of a license container.
pub const DLF_PREFIX: usize = 0x41;

/// The marker that precedes the embedded key in the decrypted license text.
pub open spec fn cipher_tag() -> Seq<u8> {
    seq![0x3Cu8, 0x43, 0x69, 0x70, 0x68, 0x65, 0x72, 0x4B, 0x65, 0x79, 0x3E]
}

/// Length of the base64 fragment that follows the marker.
pub const B64_FRAG_LEN: usize = 24;

/// Relies on block_modes' `Cbc::<Aes128, Pkcs7>::decrypt_vec`: succeeds
/// exactly when the input is a whole number of blocks and the decrypted
/// padding is well formed.
#[verifier::external_body]
pub fn aes_decrypt(key: &Vec<u8>, iv: &Vec<u8>, enc: &Vec<u8>) -> (r: Option<Vec<u8>>)
    requires
        key@.len() == 16,
        iv@.len() == 16,
    ensures
        r is Some ==> enc@.len() % 16 == 0 && aes_unpad_of(key@, iv@, enc@) is Some,
        r is None ==> enc@.len() % 16 != 0 || aes_unpad_of(key@, iv@, enc@) is None,
        r is Some ==> r.unwrap()@ == aes_unpad_of(key@, iv@, enc@).unwrap(),
{
    let cipher = block_modes::Cbc::<aes::Aes128, block_modes::block_padding::Pkcs7>::new_from_slices(
        key,
        iv,
    ).unwrap();
    cipher.decrypt_vec(enc).ok()
}

/// Relies on block_modes' `Cbc::<Aes128, Pkcs7>::decrypt`: the block pass
/// decrypts the whole range in place and preserves its length; the unpadding
/// step only computes the returned subslice, which is discarded here.
#[verifier::external_body]
pub(crate) fn cbc_decrypt_range(key: &Vec<u8>, iv: &Vec<u8>, buf: &mut Vec<u8>, start: usize, len: usize)
    requires
        key@.len() == 16,
        iv@.len() == 16,
        start + len <= old(buf)@.len(),
        len % 16 == 0,
    ensures
        final(buf)@ == old(buf)@.subrange(0, start as int) + cbc_decrypt_of(
            key@,
            iv@,
            old(buf)@.subrange(start as int, start as int + len as int),
        ) + old(buf)@.skip(start as int + len as int),
        final(buf)@.len() == old(buf)@.len(),
{
    let cipher = block_modes::Cbc::<aes::Aes128, block_modes::block_padding::Pkcs7>::new_from_slices(
        key,
        iv,
    ).unwrap();
    let _ = cipher.decrypt(&mut buf[start..start + len]);
}

/// Decrypt a whole buffer in place with AES-128-CBC (no unpadding applies to
/// the stored bytes: the protected regions keep their full length).
pub fn aes_decrypt_inplace(key: &Vec<u8>, iv: &Vec<u8>, buf: &mut Vec<u8>)
    requires
        key@.len() == 16,
        iv@.len() == 16,
        old(buf)@.len() % 16 == 0,
    ensures
        final(buf)@ == cbc_decrypt_of(key@, iv@, old(buf)@),
        final(buf)@.len() == old(buf)@.len(),
{
    let n = buf.len();
    cbc_decrypt_range(key, iv, buf, 0, n);
    proof {
        assert(old(buf)@.subrange(0, n as int) =~= old(buf)@);
        assert(buf@ =~= cbc_decrypt_of(key@, iv@, old(buf)@));
    }
}

/// Relies on base64::decode_config with the standard alphabet and
/// decode_allow_trailing_bits: succeeds exactly on well-formed input, and a
/// 24-character fragment decodes to 16 to 18 bytes (six four-character
/// chunks, at most two of them padding).
#[verifier::external_body]
fn b64_decode_permissive(frag: &Vec<u8>) -> (r: Option<Vec<u8>>)
    ensures
        r is Some <==> b64_permissive_of(frag@) is Some,
        r is Some ==> r.unwrap()@ == b64_permissive_of(frag@).unwrap(),
        r is Some && frag@.len() == B64_FRAG_LEN ==> 16 <= r.unwrap()@.len() <= 18,
{
    base64::decode_config(frag, base64::STANDARD.decode_allow_trailing_bits(true)).ok()
}

/// The runtime value of the fixed license-container key.
pub fn dlf_key() -> (v: Vec<u8>)
    ensures
        v@ == dlf_key_spec(),
{
    let v: Vec<u8> = vec![65u8, 50, 114, 45, 208, 130, 239, 176, 220, 100, 87, 197, 118, 104, 202, 9];
    proof {
        assert(v@ =~= dlf_key_spec());
    }
    v
}

/// The runtime value of the all-zero initialization vector.
pub fn zero_iv() -> (v: Vec<u8>)
    ensures
        v@ == zero_iv_spec(),
{
    let v: Vec<u8> = vec![0u8, 0, 0, 0, 0, 0, 0, 0, 0, 0, 0, 0, 0, 0, 0, 0];
    proof {
        assert(v@ =~= zero_iv_spec());
    }
    v
}

/// Decrypt a license container: skip the fixed opaque prefix, then AES with
/// the fixed key and zero IV. Fails exactly when the container is too short,
/// not a whole number of blocks, or its padding is malformed.
pub fn decrypt_dlf(data: &Vec<u8>) -> (r: Result<Vec<u8>, UnpackError>)
    ensures
        r is Ok <==> data@.len() >= DLF_PREFIX && (data@.len() - DLF_PREFIX as int) % 16 == 0
            && aes_unpad_of(dlf_key_spec(), zero_iv_spec(), data@.skip(DLF_PREFIX as int)) is Some,
        r is Ok ==> r.unwrap()@ == aes_unpad_of(
            dlf_key_spec(),
            zero_iv_spec(),
            data@.skip(DLF_PREFIX as int),
        ).unwrap(),
        r is Err ==> r == Err::<Vec<u8>, UnpackError>(UnpackError::KeyRecoveryFailed),
{
    if data.len() < DLF_PREFIX {
        return Err(UnpackError::KeyRecoveryFailed);
    }
    let mut enc: Vec<u8> = Vec::new();
    let mut i: usize = DLF_PREFIX;
    while i < data.len()
        invariant
            DLF_PREFIX <= i <= data@.len(),
            enc@ == data@.subrange(DLF_PREFIX as int, i as int),
        decreases data@.len() - i,
    {
        let b = data[i];
        enc.push(b);
        i = i + 1;
        proof {
            assert(enc@ =~= data@.subrange(DLF_PREFIX as int, i as int));
        }
    }
    proof {
        assert(enc@ == data@.skip(DLF_PREFIX as int));
    }
    let key = dlf_key();
    let iv = zero_iv();
    match aes_decrypt(&key, &iv, &enc) {
        Some(v) => Ok(v),
        None => Err(UnpackError::KeyRecoveryFailed),
    }
}

/// Whether the marker occupies `s[i .. i + 11]`.
pub open spec fn tag_at(s: Seq<u8>, i: int) -> bool {
    0 <= i && i + 11 <= s.len() && s.subrange(i, i + 11) == cipher_tag()
}

/// The first marker occurrence at or after `i`, if any.
pub open spec fn first_tag(s: Seq<u8>, i: int) -> Option<int>
    decreases s.len() - i,
{
    if i + 11 > s.len() {
        None
    } else if tag_at(s, i) {
        Some(i)
    } else {
        first_tag(s, i + 1)
    }
}

/// Byte-compare the marker at one position.
fn tag_matches_at(dlf: &Vec<u8>, i: usize) -> (b: bool)
    requires
        i + 11 <= dlf@.len(),
    ensures
        b == tag_at(dlf@, i as int),
{
    let n = dlf.len();
    let b = dlf[i] == 0x3C && dlf[i + 1] == 0x43 && dlf[i + 2] == 0x69 && dlf[i + 3] == 0x70
        && dlf[i + 4] == 0x68 && dlf[i + 5] == 0x65 && dlf[i + 6] == 0x72 && dlf[i + 7] == 0x4B
        && dlf[i + 8] == 0x65 && dlf[i + 9] == 0x79 && dlf[i + 10] == 0x3E;
    proof {
        let s = dlf@;
        let ii = i as int;
        if b {
            assert(s.subrange(ii, ii + 11) =~= cipher_tag());
        } else if tag_at(s, ii) {
            assert(forall|j: int|
                0 <= j < 11 ==> s.subrange(ii, ii + 11)[j] == cipher_tag()[j]);
            assert(s[ii] == 0x3C && s[ii + 1] == 0x43 && s[ii + 2] == 0x69 && s[ii + 3] == 0x70
                && s[ii + 4] == 0x68 && s[ii + 5] == 0x65 && s[ii + 6] == 0x72 && s[ii + 7]
                == 0x4B && s[ii + 8] == 0x65 && s[ii + 9] == 0x79 && s[ii + 10] == 0x3E);
        }
    }
    b
}

/// Find the first marker occurrence in the decrypted license text.
#[verifier::loop_isolation(false)]
fn find_tag(dlf: &Vec<u8>) -> (r: Option<usize>)
    ensures
        r is Some <==> first_tag(dlf@, 0) is Some,
        r is Some ==> Some(r.unwrap() as int) == first_tag(dlf@, 0),
        r is Some ==> r.unwrap() + 11 <= dlf@.len(),
{
    if dlf.len() < 11 {
        return None;
    }
    let mut i: usize = 0;
    while i <= dlf.len() - 11
        invariant
            0 <= i,
            i + 10 <= dlf@.len(),
            first_tag(dlf@, 0) == first_tag(dlf@, i as int),
        decreases dlf@.len() - i,
    {
        if tag_matches_at(dlf, i) {
            return Some(i);
        }
        i = i + 1;
    }
    None
}

/// The recovered per-title key: the base64 decoding of the 24 characters
/// after the first marker, truncated to 16 bytes; absent when the marker is
/// missing, the fragment runs off the end, or the encoding is malformed.
pub open spec fn cipher_key_of(s: Seq<u8>) -> Option<Seq<u8>> {
    match first_tag(s, 0) {
        Some(p) => {
            let fs = p + 11;
            if fs + B64_FRAG_LEN <= s.len() {
                match b64_permissive_of(s.subrange(fs, fs + B64_FRAG_LEN)) {
                    Some(d) => Some(
                        if d.len() <= 16 {
                            d
                        } else {
                            d.subrange(0, 16)
                        },
                    ),
                    None => None,
                }
            } else {
                None
            }
        },
        None => None,
    }
}

/// Scan a decrypted license text for the embedded key.
#[verifier::loop_isolation(false)]
pub fn dlf_get_cipher(dlf: &Vec<u8>) -> (r: Option<Vec<u8>>)
    ensures
        r is Some <==> cipher_key_of(dlf@) is Some,
        r is Some ==> r.unwrap()@ == cipher_key_of(dlf@).unwrap(),
        r is Some ==> r.unwrap()@.len() == 16,
{
    let p = match find_tag(dlf) {
        Some(p) => p,
        None => {
            return None;
        },
    };
    let n = dlf.len();
    let fs = p + 11;
    if dlf.len() - fs < B64_FRAG_LEN {
        return None;
    }
    let mut frag: Vec<u8> = Vec::new();
    let mut j: usize = fs;
    while j < fs + B64_FRAG_LEN
        invariant
            fs <= j <= fs + B64_FRAG_LEN,
            fs + B64_FRAG_LEN <= dlf@.len(),
            frag@ == dlf@.subrange(fs as int, j as int),
        decreases fs + B64_FRAG_LEN - j,
    {
        let b = dlf[j];
        frag.push(b);
        j = j + 1;
        proof {
            assert(frag@ =~= dlf@.subrange(fs as int, j as int));
        }
    }
    let dec = match b64_decode_permissive(&frag) {
        Some(d) => d,
        None => {
            return None;
        },
    };
    let mut key = dec;
    key.truncate(16);
    Some(key)
}

} // verus!
