use vstd::prelude::*;

use crate::decode::{decode_post, parse_with, AlignRule, TrailingSkip, VariantLayout};
use crate::error::UnpackError;
use crate::ooa::Section;

verus! {

/// The 20-byte fingerprint of this release's vendor-section layout.
pub open spec fn fingerprint() -> Seq<u8> {
    seq![
        214u8, 24, 5, 34, 117, 81, 199, 112, 69, 244, 93, 188, 146, 127, 63, 245, 249, 98, 11,
        217,
    ]
}

/// The layout constants of this release: a null-terminated TLS callback list
/// follows the TLS span, the entry point sits at the next position congruent
/// to 0x1ea modulo 0x100, and the trailing skip compensates for the ten-slot
/// capacity of the block-table region.
pub open spec fn layout() -> VariantLayout {
    VariantLayout {
        tls_callback_list: true,
        align: AlignRule::Mod256,
        trailing: TrailingSkip::BlockCapacity,
    }
}

/// Decode a vendor section laid out by this release.
pub fn parse(data: &Vec<u8>) -> (r: Result<Section, UnpackError>)
    ensures
        decode_post(layout(), data@, r),
{
    parse_with(
        VariantLayout {
            tls_callback_list: true,
            align: AlignRule::Mod256,
            trailing: TrailingSkip::BlockCapacity,
        },
        data,
    )
}

/// The fingerprint as runtime bytes, for the dispatch table.
pub fn fingerprint_bytes() -> (v: Vec<u8>)
    ensures
        v@ == fingerprint(),
{
    let v: Vec<u8> = vec![
        214u8, 24, 5, 34, 117, 81, 199, 112, 69, 244, 93, 188, 146, 127, 63, 245, 249, 98, 11,
        217,
    ];
    proof {
        assert(v@ =~= fingerprint());
    }
    v
}

} // verus!
