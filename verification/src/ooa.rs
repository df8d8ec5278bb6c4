use vstd::prelude::*;

use crate::cursor::{le32, le64, Cursor};
use crate::error::UnpackError;

verus! {

/// Normalized description of the protection, produced by exactly one variant
/// decoder and immutable afterwards.
#[derive(Debug)]
pub struct Section {
    /// Null-terminated UTF-16 label read from the fixed window; identifies the
    /// title and locates the matching license artifact.
    pub content_id: String,
    /// Virtual address (relative to the image base) to install as the new
    /// entry point.
    pub oep: u32,
    /// One descriptor per protected region, in on-disk order.
    pub enc_blocks: Vec<EncBlock>,
    /// Expected preferred load address; zero means "unavailable, skip the
    /// cross-check".
    pub image_base: u64,
    /// Expected final image size minus the vendor section; zero means "derive
    /// it from the container instead".
    pub size_of_image: u32,
    pub import_dir: DataDir,
    pub iat_dir: DataDir,
    pub reloc_dir: DataDir,
}

/// Import-descriptor-shaped record; read only to advance past the table, a
/// zero `characteristics` field is the terminating sentinel.
#[derive(Debug, Clone, Copy, PartialEq, Eq, Structural)]
pub struct Import {
    pub characteristics: u32,
    pub timedatestamp: u32,
    pub forwarder_chain: u32,
    pub name: u32,
    pub fthunk: u32,
}

/// Thunk-shaped record; a zero `function` field is the terminating sentinel.
#[derive(Debug, Clone, Copy, PartialEq, Eq, Structural)]
pub struct Thunk {
    pub function: u32,
    pub data_addr: u32,
}

/// A PE data-directory replacement value. (0, 0) signals "this binary does
/// not use this directory; do not patch it".
#[derive(Debug, Clone, Copy, PartialEq, Eq, Structural)]
pub struct DataDir {
    pub va: u32,
    pub size: u32,
}

/// One protected region. Only `va` drives decryption (it is matched against a
/// PE section's virtual address); the other fields are kept verbatim from the
/// format for fidelity.
#[derive(Debug, Clone, Copy, PartialEq, Eq, Structural)]
pub struct EncBlock {
    pub va: u32,
    pub raw_size: u32,
    pub virtual_size: u32,
    pub unk: u32,
    pub crc: u32,
    pub unk2: u32,
    pub crc2: u32,
    pub pad: u32,
    pub file_offset: u32,
    pub pad2: u64,
    pub pad3: u32,
}

pub const IMPORT_LEN: usize = 20;

pub const THUNK_LEN: usize = 8;

pub const DATA_DIR_LEN: usize = 8;

pub const ENC_BLOCK_LEN: usize = 48;

/// The import record laid out in `s` at offset `p`.
pub open spec fn import_at(s: Seq<u8>, p: int) -> Import {
    Import {
        characteristics: le32(s, p),
        timedatestamp: le32(s, p + 4),
        forwarder_chain: le32(s, p + 8),
        name: le32(s, p + 12),
        fthunk: le32(s, p + 16),
    }
}

/// The thunk record laid out in `s` at offset `p`.
pub open spec fn thunk_at(s: Seq<u8>, p: int) -> Thunk {
    Thunk { function: le32(s, p), data_addr: le32(s, p + 4) }
}

/// The data-directory pair laid out in `s` at offset `p`.
pub open spec fn data_dir_at(s: Seq<u8>, p: int) -> DataDir {
    DataDir { va: le32(s, p), size: le32(s, p + 4) }
}

/// The block descriptor laid out in `s` at offset `p`.
pub open spec fn enc_block_at(s: Seq<u8>, p: int) -> EncBlock {
    EncBlock {
        va: le32(s, p),
        raw_size: le32(s, p + 4),
        virtual_size: le32(s, p + 8),
        unk: le32(s, p + 12),
        crc: le32(s, p + 16),
        unk2: le32(s, p + 20),
        crc2: le32(s, p + 24),
        pad: le32(s, p + 28),
        file_offset: le32(s, p + 32),
        pad2: le64(s, p + 36),
        pad3: le32(s, p + 44),
    }
}

pub fn read_import(cursor: &mut Cursor, data: &Vec<u8>) -> (r: Result<Import, UnpackError>)
    ensures
        r is Ok <==> old(cursor).pos + IMPORT_LEN <= data@.len(),
        r is Ok ==> r == Ok::<Import, UnpackError>(import_at(data@, old(cursor).pos as int))
            && final(cursor).pos == old(cursor).pos + IMPORT_LEN,
        r is Err ==> *final(cursor) == *old(cursor) && r == Err::<Import, UnpackError>(
            UnpackError::TruncatedData,
        ),
{
    if cursor.pos > data.len() || IMPORT_LEN > data.len() - cursor.pos {
        return Err(UnpackError::TruncatedData);
    }
    let characteristics = match cursor.read_u32(data) {
        Ok(v) => v,
        Err(e) => {
            return Err(e);
        },
    };
    let timedatestamp = match cursor.read_u32(data) {
        Ok(v) => v,
        Err(e) => {
            return Err(e);
        },
    };
    let forwarder_chain = match cursor.read_u32(data) {
        Ok(v) => v,
        Err(e) => {
            return Err(e);
        },
    };
    let name = match cursor.read_u32(data) {
        Ok(v) => v,
        Err(e) => {
            return Err(e);
        },
    };
    let fthunk = match cursor.read_u32(data) {
        Ok(v) => v,
        Err(e) => {
            return Err(e);
        },
    };
    Ok(Import { characteristics, timedatestamp, forwarder_chain, name, fthunk })
}

pub fn read_thunk(cursor: &mut Cursor, data: &Vec<u8>) -> (r: Result<Thunk, UnpackError>)
    ensures
        r is Ok <==> old(cursor).pos + THUNK_LEN <= data@.len(),
        r is Ok ==> r == Ok::<Thunk, UnpackError>(thunk_at(data@, old(cursor).pos as int))
            && final(cursor).pos == old(cursor).pos + THUNK_LEN,
        r is Err ==> *final(cursor) == *old(cursor) && r == Err::<Thunk, UnpackError>(
            UnpackError::TruncatedData,
        ),
{
    if cursor.pos > data.len() || THUNK_LEN > data.len() - cursor.pos {
        return Err(UnpackError::TruncatedData);
    }
    let function = match cursor.read_u32(data) {
        Ok(v) => v,
        Err(e) => {
            return Err(e);
        },
    };
    let data_addr = match cursor.read_u32(data) {
        Ok(v) => v,
        Err(e) => {
            return Err(e);
        },
    };
    Ok(Thunk { function, data_addr })
}

pub fn read_data_dir(cursor: &mut Cursor, data: &Vec<u8>) -> (r: Result<DataDir, UnpackError>)
    ensures
        r is Ok <==> old(cursor).pos + DATA_DIR_LEN <= data@.len(),
        r is Ok ==> r == Ok::<DataDir, UnpackError>(data_dir_at(data@, old(cursor).pos as int))
            && final(cursor).pos == old(cursor).pos + DATA_DIR_LEN,
        r is Err ==> *final(cursor) == *old(cursor) && r == Err::<DataDir, UnpackError>(
            UnpackError::TruncatedData,
        ),
{
    if cursor.pos > data.len() || DATA_DIR_LEN > data.len() - cursor.pos {
        return Err(UnpackError::TruncatedData);
    }
    let va = match cursor.read_u32(data) {
        Ok(v) => v,
        Err(e) => {
            return Err(e);
        },
    };
    let size = match cursor.read_u32(data) {
        Ok(v) => v,
        Err(e) => {
            return Err(e);
        },
    };
    Ok(DataDir { va, size })
}

pub fn read_enc_block(cursor: &mut Cursor, data: &Vec<u8>) -> (r: Result<EncBlock, UnpackError>)
    ensures
        r is Ok <==> old(cursor).pos + ENC_BLOCK_LEN <= data@.len(),
        r is Ok ==> r == Ok::<EncBlock, UnpackError>(enc_block_at(data@, old(cursor).pos as int))
            && final(cursor).pos == old(cursor).pos + ENC_BLOCK_LEN,
        r is Err ==> *final(cursor) == *old(cursor) && r == Err::<EncBlock, UnpackError>(
            UnpackError::TruncatedData,
        ),
{
    if cursor.pos > data.len() || ENC_BLOCK_LEN > data.len() - cursor.pos {
        return Err(UnpackError::TruncatedData);
    }
    let va = match cursor.read_u32(data) {
        Ok(v) => v,
        Err(e) => {
            return Err(e);
        },
    };
    let raw_size = match cursor.read_u32(data) {
        Ok(v) => v,
        Err(e) => {
            return Err(e);
        },
    };
    let virtual_size = match cursor.read_u32(data) {
        Ok(v) => v,
        Err(e) => {
            return Err(e);
        },
    };
    let unk = match cursor.read_u32(data) {
        Ok(v) => v,
        Err(e) => {
            return Err(e);
        },
    };
    let crc = match cursor.read_u32(data) {
        Ok(v) => v,
        Err(e) => {
            return Err(e);
        },
    };
    let unk2 = match cursor.read_u32(data) {
        Ok(v) => v,
        Err(e) => {
            return Err(e);
        },
    };
    let crc2 = match cursor.read_u32(data) {
        Ok(v) => v,
        Err(e) => {
            return Err(e);
        },
    };
    let pad = match cursor.read_u32(data) {
        Ok(v) => v,
        Err(e) => {
            return Err(e);
        },
    };
    let file_offset = match cursor.read_u32(data) {
        Ok(v) => v,
        Err(e) => {
            return Err(e);
        },
    };
    let pad2 = match cursor.read_u64(data) {
        Ok(v) => v,
        Err(e) => {
            return Err(e);
        },
    };
    let pad3 = match cursor.read_u32(data) {
        Ok(v) => v,
        Err(e) => {
            return Err(e);
        },
    };
    Ok(
        EncBlock {
            va,
            raw_size,
            virtual_size,
            unk,
            crc,
            unk2,
            crc2,
            pad,
            file_offset,
            pad2,
            pad3,
        },
    )
}

} // verus!
