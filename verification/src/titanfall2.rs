use vstd::prelude::*;

use crate::decode::{decode_post, parse_with, AlignRule, TrailingSkip, VariantLayout};
use crate::error::UnpackError;
use crate::ooa::Section;

verus! {

/// The 20-byte fingerprint of this release's vendor-section layout.
pub open spec fn fingerprint() -> Seq<u8> {
    seq![
        144u8, 186, 35, 2, 239, 178, 23, 166, 193, 39, 171, 1, 174, 248, 38, 101, 194, 51, 160,
        24,
    ]
}

/// The layout constants of this release: no TLS callback list, the entry
/// point follows the TLS span directly, and a fixed 393-byte trailing skip.
pub open spec fn layout() -> VariantLayout {
    VariantLayout {
        tls_callback_list: false,
        align: AlignRule::Direct,
        trailing: TrailingSkip::Fixed(393),
    }
}

/// Decode a vendor section laid out by this release.
pub fn parse(data: &Vec<u8>) -> (r: Result<Section, UnpackError>)
    ensures
        decode_post(layout(), data@, r),
{
    parse_with(
        VariantLayout {
            tls_callback_list: false,
            align: AlignRule::Direct,
            trailing: TrailingSkip::Fixed(393),
        },
        data,
    )
}

/// The fingerprint as runtime bytes, for the dispatch table.
pub fn fingerprint_bytes() -> (v: Vec<u8>)
    ensures
        v@ == fingerprint(),
{
    let v: Vec<u8> = vec![
        144u8, 186, 35, 2, 239, 178, 23, 166, 193, 39, 171, 1, 174, 248, 38, 101, 194, 51, 160,
        24,
    ];
    proof {
        assert(v@ =~= fingerprint());
    }
    v
}

} // verus!
