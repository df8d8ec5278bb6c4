use aes::Aes128;
use block_modes::block_padding::Pkcs7;
use block_modes::{BlockMode, Cbc};
use ooa_unpack::error::UnpackError;
use ooa_unpack::ooa::EncBlock;
use ooa_unpack::pe::{decrypt_blocks, PeSection};
use ooa_unpack::util::{aes_decrypt, aes_decrypt_inplace, decrypt_dlf, dlf_get_cipher, dlf_key, zero_iv};

type Aes128Cbc = Cbc<Aes128, Pkcs7>;

fn encrypt(key: &[u8], iv: &[u8], plain: &[u8]) -> Vec<u8> {
    Aes128Cbc::new_from_slices(key, iv).unwrap().encrypt_vec(plain)
}

#[test]
fn cipher_key_extracted_and_truncated() {
    let text = b"header stuff...<CipherKey>QUIxMjM0NTY3ODkwMTIzNA==and a tail".to_vec();
    let key = dlf_get_cipher(&text).expect("marker present");
    assert_eq!(key, b"AB12345678901234".to_vec());
    assert_eq!(key.len(), 16);
}

#[test]
fn cipher_key_missing_marker() {
    let text = b"no marker at all here".to_vec();
    assert!(dlf_get_cipher(&text).is_none());
}

#[test]
fn cipher_key_fragment_runs_off_end() {
    let text = b"prefix<CipherKey>QUIx".to_vec();
    assert!(dlf_get_cipher(&text).is_none());
}

#[test]
fn cipher_key_malformed_base64() {
    let text = b"prefix<CipherKey>!!!!!!!!!!!!!!!!!!!!!!!!suffix".to_vec();
    assert!(dlf_get_cipher(&text).is_none());
}

#[test]
fn dlf_round_trip() {
    let plain = b"<license><CipherKey>QUIxMjM0NTY3ODkwMTIzNA==</CipherKey></license>".to_vec();
    let ct = encrypt(&dlf_key(), &zero_iv(), &plain);
    let mut container = vec![0x5Au8; 0x41];
    container.extend_from_slice(&ct);
    let decrypted = decrypt_dlf(&container).expect("well-formed container");
    assert_eq!(decrypted, plain);
    let key = dlf_get_cipher(&decrypted).expect("marker present");
    assert_eq!(key, b"AB12345678901234".to_vec());
}

#[test]
fn dlf_too_short_fails() {
    let container = vec![0u8; 0x40];
    assert_eq!(decrypt_dlf(&container).unwrap_err(), UnpackError::KeyRecoveryFailed);
}

#[test]
fn dlf_bad_padding_fails() {
    let mut container = vec![0u8; 0x41];
    container.extend_from_slice(&[7u8; 32]);
    assert_eq!(decrypt_dlf(&container).unwrap_err(), UnpackError::KeyRecoveryFailed);
}

#[test]
fn aes_decrypt_reverses_encryption() {
    let key = vec![9u8; 16];
    let iv = vec![3u8; 16];
    let plain = b"sixteen byte msg".to_vec();
    let ct = encrypt(&key, &iv, &plain);
    let back = aes_decrypt(&key, &iv, &ct).expect("valid padding");
    assert_eq!(back, plain);
}

#[test]
fn aes_decrypt_inplace_decrypts_blocks() {
    let key = vec![1u8; 16];
    let iv = vec![2u8; 16];
    let plain = vec![0x41u8; 32];
    let mut buf = encrypt(&key, &iv, &plain[..31]);
    assert_eq!(buf.len(), 32);
    aes_decrypt_inplace(&key, &iv, &mut buf);
    assert_eq!(&buf[..31], &plain[..31]);
    assert_eq!(buf[31], 1);
}

#[test]
fn padding_sentinel_is_zeroed() {
    // A region whose plaintext length is a block multiple gains a full
    // padding block of 0x10 bytes from the encoder; after in-place
    // decryption that trailing sentinel must be zeroed.
    let key = vec![7u8; 16];
    let iv = [0x33u8; 16];
    let plain: Vec<u8> = (0u8..32).collect();
    let ct = encrypt(&key, &iv, &plain);
    assert_eq!(ct.len(), 48);
    let mut buf = iv.to_vec();
    buf.extend_from_slice(&ct);
    let sections = vec![PeSection { virtual_address: 0x1000, pointer_to_raw_data: 16, size_of_raw_data: 48 }];
    let blocks = vec![EncBlock {
        va: 0x1000,
        raw_size: 48,
        virtual_size: 48,
        unk: 0,
        crc: 0,
        unk2: 0,
        crc2: 0,
        pad: 0,
        file_offset: 0,
        pad2: 0,
        pad3: 0,
    }];
    decrypt_blocks(&mut buf, &sections, &blocks, &key).expect("decryption succeeds");
    assert_eq!(&buf[16..48], &plain[..]);
    assert_eq!(&buf[48..64], &[0u8; 16]);
}

#[test]
fn non_sentinel_trailing_bytes_untouched() {
    let key = vec![8u8; 16];
    let iv = [0x44u8; 16];
    let plain: Vec<u8> = (0u8..31).collect();
    let ct = encrypt(&key, &iv, &plain);
    assert_eq!(ct.len(), 32);
    let mut buf = iv.to_vec();
    buf.extend_from_slice(&ct);
    let sections = vec![PeSection { virtual_address: 0x2000, pointer_to_raw_data: 16, size_of_raw_data: 32 }];
    let blocks = vec![EncBlock {
        va: 0x2000,
        raw_size: 32,
        virtual_size: 32,
        unk: 0,
        crc: 0,
        unk2: 0,
        crc2: 0,
        pad: 0,
        file_offset: 0,
        pad2: 0,
        pad3: 0,
    }];
    decrypt_blocks(&mut buf, &sections, &blocks, &key).expect("decryption succeeds");
    assert_eq!(&buf[16..47], &plain[..]);
    assert_eq!(buf[47], 1);
}

#[test]
fn missing_section_is_mapping_error() {
    let key = vec![1u8; 16];
    let mut buf = vec![0u8; 64];
    let sections = vec![PeSection { virtual_address: 0x1000, pointer_to_raw_data: 16, size_of_raw_data: 32 }];
    let blocks = vec![EncBlock {
        va: 0x9999,
        raw_size: 32,
        virtual_size: 32,
        unk: 0,
        crc: 0,
        unk2: 0,
        crc2: 0,
        pad: 0,
        file_offset: 0,
        pad2: 0,
        pad3: 0,
    }];
    assert_eq!(
        decrypt_blocks(&mut buf, &sections, &blocks, &key).unwrap_err(),
        UnpackError::SectionMappingError
    );
}

#[test]
fn region_outside_buffer_is_container_error() {
    let key = vec![1u8; 16];
    let mut buf = vec![0u8; 32];
    let sections = vec![PeSection { virtual_address: 0x1000, pointer_to_raw_data: 16, size_of_raw_data: 64 }];
    let blocks = vec![EncBlock {
        va: 0x1000,
        raw_size: 64,
        virtual_size: 64,
        unk: 0,
        crc: 0,
        unk2: 0,
        crc2: 0,
        pad: 0,
        file_offset: 0,
        pad2: 0,
        pad3: 0,
    }];
    assert_eq!(
        decrypt_blocks(&mut buf, &sections, &blocks, &key).unwrap_err(),
        UnpackError::ContainerFormatError
    );
}
