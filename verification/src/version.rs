//! The application's version number, packed the way Windows version
//! resources hold it: 16 bits major, 16 bits minor, 32 bits build.
use vstd::prelude::*;

verus! {

pub const VERSION_MAJOR: u32 = 1;
pub const VERSION_MINOR: u32 = 0;
pub const VERSION_BUILD: u32 = 1;

/// The packed version `[major][minor][build]`; a major or minor of more
/// than 16 bits keeps its low bits only where they do not overlap.
pub open spec fn spec_encode_version(major: u32, minor: u32, build: u32) -> u64 {
    ((major as u64) << 48u64) | ((minor as u64) << 32u64) | (build as u64)
}

/// Packs `(major, minor, build)` into a 64-bit Windows version number.
pub fn encode_version(major: u32, minor: u32, build: u32) -> (r: u64)
    ensures
        r == spec_encode_version(major, minor, build),
{
    ((major as u64) << 48u64) | ((minor as u64) << 32u64) | (build as u64)
}

/// A packed version holds its three parts, each in its own field, when major
/// and minor fit in 16 bits.
pub proof fn lemma_version_fields(major: u32, minor: u32, build: u32)
    requires
        major < 0x1_0000,
        minor < 0x1_0000,
    ensures
        spec_encode_version(major, minor, build) >> 48u64 == major as u64,
        (spec_encode_version(major, minor, build) >> 32u64) & 0xFFFFu64 == minor as u64,
        spec_encode_version(major, minor, build) & 0xFFFF_FFFFu64 == build as u64,
{
    let a = major as u64;
    let b = minor as u64;
    let c = build as u64;
    assert(((a << 48u64) | (b << 32u64) | c) >> 48u64 == a) by (bit_vector)
        requires a < 0x1_0000u64, b < 0x1_0000u64, c < 0x1_0000_0000u64;
    assert((((a << 48u64) | (b << 32u64) | c) >> 32u64) & 0xFFFFu64 == b) by (bit_vector)
        requires a < 0x1_0000u64, b < 0x1_0000u64, c < 0x1_0000_0000u64;
    assert(((a << 48u64) | (b << 32u64) | c) & 0xFFFF_FFFFu64 == c) by (bit_vector)
        requires a < 0x1_0000u64, b < 0x1_0000u64, c < 0x1_0000_0000u64;
}

} // verus!
