use vstd::prelude::*;

verus! {

/// Every failure of the unpacking pipeline. All are fatal for a run: the
/// inputs are static files, so a retry cannot succeed differently.
#[derive(Debug, Clone, Copy, PartialEq, Eq, Structural)]
pub enum UnpackError {
    /// The input is not a PE image of the expected shape (missing vendor
    /// section, malformed header, blank content label).
    ContainerFormatError,
    /// The vendor section's fingerprint matches no known layout.
    UnknownVariant,
    /// A cursor read or skip ran outside the vendor section buffer.
    TruncatedData,
    /// No license artifact could be located.
    LicenseNotFound,
    /// The license artifact held no well-formed key fragment.
    KeyRecoveryFailed,
    /// An encrypted block's virtual address matches no PE section.
    SectionMappingError,
    /// A cross-check between descriptor and container failed.
    ConsistencyCheckFailed,
}

} // verus!
