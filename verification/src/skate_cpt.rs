use vstd::prelude::*;

use crate::decode::{decode_post, parse_with, AlignRule, TrailingSkip, VariantLayout};
use crate::error::UnpackError;
use crate::ooa::Section;

verus! {

/// The 20-byte fingerprint of this release's vendor-section layout.
pub open spec fn fingerprint() -> Seq<u8> {
    seq![
        0x4Bu8, 0x4B, 0x61, 0xB5, 0xE1, 0x2E, 0xB6, 0xEB, 0xD6, 0x85, 0x31, 0xCC, 0xB9, 0x73,
        0x14, 0xFB, 0xF7, 0x4D, 0xF5, 0x5A,
    ]
}

/// The layout constants of this release: no TLS callback list, the entry
/// point follows the TLS span directly, and a fixed 0xF8-byte trailing skip.
pub open spec fn layout() -> VariantLayout {
    VariantLayout {
        tls_callback_list: false,
        align: AlignRule::Direct,
        trailing: TrailingSkip::Fixed(0xF8),
    }
}

/// Decode a vendor section laid out by this release.
pub fn parse(data: &Vec<u8>) -> (r: Result<Section, UnpackError>)
    ensures
        decode_post(layout(), data@, r),
{
    parse_with(
        VariantLayout {
            tls_callback_list: false,
            align: AlignRule::Direct,
            trailing: TrailingSkip::Fixed(0xF8),
        },
        data,
    )
}

/// The fingerprint as runtime bytes, for the dispatch table.
pub fn fingerprint_bytes() -> (v: Vec<u8>)
    ensures
        v@ == fingerprint(),
{
    let v: Vec<u8> = vec![
        0x4Bu8, 0x4B, 0x61, 0xB5, 0xE1, 0x2E, 0xB6, 0xEB, 0xD6, 0x85, 0x31, 0xCC, 0xB9, 0x73,
        0x14, 0xFB, 0xF7, 0x4D, 0xF5, 0x5A,
    ];
    proof {
        assert(v@ =~= fingerprint());
    }
    v
}

} // verus!
