use vstd::prelude::*;

use crate::decode::{decode_post, parse_with, AlignRule, TrailingSkip, VariantLayout};
use crate::error::UnpackError;
use crate::ooa::Section;

verus! {

/// The 20-byte fingerprint of this release's vendor-section layout
/// (SHA-1 of its version string).
pub open spec fn fingerprint_s11_1() -> Seq<u8> {
    seq![
        250u8, 245, 169, 146, 9, 235, 14, 14, 206, 72, 175, 215, 8, 35, 218, 185, 77, 140, 48,
        61,
    ]
}

/// The layout constants of this release: no TLS callback list, the entry
/// point follows the TLS span directly, and a fixed 392-byte trailing skip.
pub open spec fn layout_s11_1() -> VariantLayout {
    VariantLayout {
        tls_callback_list: false,
        align: AlignRule::Direct,
        trailing: TrailingSkip::Fixed(392),
    }
}

/// Decode a vendor section laid out by this release.
pub fn parse_s11_1(data: &Vec<u8>) -> (r: Result<Section, UnpackError>)
    ensures
        decode_post(layout_s11_1(), data@, r),
{
    parse_with(
        VariantLayout {
            tls_callback_list: false,
            align: AlignRule::Direct,
            trailing: TrailingSkip::Fixed(392),
        },
        data,
    )
}

/// The fingerprint as runtime bytes, for the dispatch table.
pub fn fingerprint_s11_1_bytes() -> (v: Vec<u8>)
    ensures
        v@ == fingerprint_s11_1(),
{
    let v: Vec<u8> = vec![
        250u8, 245, 169, 146, 9, 235, 14, 14, 206, 72, 175, 215, 8, 35, 218, 185, 77, 140, 48,
        61,
    ];
    proof {
        assert(v@ =~= fingerprint_s11_1());
    }
    v
}

} // verus!
