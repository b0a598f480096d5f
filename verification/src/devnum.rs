//! Device numbers and their major and minor parts.

use vstd::prelude::*;

verus! {

/// The major part of a device number, as Linux packs it: bits 8..20 hold the
/// low twelve bits, bits 44..64 the rest.
pub open spec fn spec_major(dev: u64) -> u64 {
    ((dev >> 32u64) & 0xffff_f000u64) | ((dev >> 8u64) & 0x0000_0fffu64)
}

/// The minor part of a device number, as Linux packs it: bits 0..8 hold the
/// low eight bits, bits 20..44 the rest.
pub open spec fn spec_minor(dev: u64) -> u64 {
    ((dev >> 12u64) & 0xffff_ff00u64) | (dev & 0x0000_00ffu64)
}

/// Whether a device-scoped signal that names `major` and `minor` is meant for
/// the device numbered `dev`.
pub open spec fn spec_identifies(dev: u64, major: u32, minor: u32) -> bool {
    major as u64 == spec_major(dev) && minor as u64 == spec_minor(dev)
}

/// Calls `nix::sys::stat::major`. Trusted: on Linux the result is the
/// expression of shifts and masks that `spec_major` spells out.
#[verifier::external_body]
fn major(dev: u64) -> (number: u64)
    ensures
        number == spec_major(dev),
{
    nix::sys::stat::major(dev)
}

/// Calls `nix::sys::stat::minor`. Trusted: on Linux the result is the
/// expression of shifts and masks that `spec_minor` spells out.
#[verifier::external_body]
fn minor(dev: u64) -> (number: u64)
    ensures
        number == spec_minor(dev),
{
    nix::sys::stat::minor(dev)
}

/// Tells whether `major` and `minor` are the two parts of the device number
/// `dev`.
pub fn identifies(dev: u64, major: u32, minor: u32) -> (same: bool)
    ensures
        same == spec_identifies(dev, major, minor),
{
    major as u64 == self::major(dev) && minor as u64 == self::minor(dev)
}

/// A device number whose parts fit twelve and eight bits is the two parts
/// side by side, so the parts can be read off it.
pub proof fn lemma_small_device_number(dev: u64, major: u32, minor: u32)
    requires
        major < 0x1000,
        minor < 0x100,
        dev == major * 256 + minor,
    ensures
        spec_major(dev) == major,
        spec_minor(dev) == minor,
        spec_identifies(dev, major, minor),
{
    let a = major as u64;
    let b = minor as u64;
    assert((((dev >> 32u64) & 0xffff_f000u64) | ((dev >> 8u64) & 0x0000_0fffu64)) == a
        && (((dev >> 12u64) & 0xffff_ff00u64) | (dev & 0x0000_00ffu64)) == b) by (bit_vector)
        requires
            dev == a * 256 + b,
            a < 0x1000,
            b < 0x100,
    ;
}

} // verus!
