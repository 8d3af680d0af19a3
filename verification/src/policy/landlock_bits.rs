//! Landlock's filesystem access rights, as the kernel numbers them.
use vstd::prelude::*;

verus! {

pub const EXECUTE: u64 = 1;

pub const WRITE_FILE: u64 = 2;

pub const READ_FILE: u64 = 4;

pub const READ_DIR: u64 = 8;

pub const REMOVE_DIR: u64 = 16;

pub const REMOVE_FILE: u64 = 32;

pub const MAKE_CHAR: u64 = 64;

pub const MAKE_DIR: u64 = 128;

pub const MAKE_REG: u64 = 256;

pub const MAKE_SOCK: u64 = 512;

pub const MAKE_FIFO: u64 = 1024;

pub const MAKE_BLOCK: u64 = 2048;

pub const MAKE_SYM: u64 = 4096;

/// Known from ABI 2 on.
pub const REFER: u64 = 8192;

/// Known from ABI 3 on.
pub const TRUNCATE: u64 = 16384;

/// Known from ABI 5 on.
pub const IOCTL_DEV: u64 = 32768;

/// The rights that the kernel knows at an ABI.
pub open spec fn known(abi: u32) -> u64 {
    let base = EXECUTE | WRITE_FILE | READ_FILE | READ_DIR | REMOVE_DIR | REMOVE_FILE | MAKE_CHAR | MAKE_DIR
        | MAKE_REG | MAKE_SOCK | MAKE_FIFO | MAKE_BLOCK | MAKE_SYM;
    if abi >= 5 {
        base | REFER | TRUNCATE | IOCTL_DEV
    } else if abi >= 3 {
        base | REFER | TRUNCATE
    } else if abi >= 2 {
        base | REFER
    } else {
        base
    }
}

/// The rights that the kernel knows at an ABI: all that were introduced at or before it.
pub fn known_at_abi(abi: u32) -> (r: u64)
    ensures
        r == known(abi),
{
    let mut mask: u64 = EXECUTE | WRITE_FILE | READ_FILE | READ_DIR | REMOVE_DIR | REMOVE_FILE | MAKE_CHAR
        | MAKE_DIR | MAKE_REG | MAKE_SOCK | MAKE_FIFO | MAKE_BLOCK | MAKE_SYM;
    if abi >= 2 {
        mask = mask | REFER;
    }
    if abi >= 3 {
        mask = mask | TRUNCATE;
    }
    if abi >= 5 {
        mask = mask | IOCTL_DEV;
    }
    mask
}

/// A later ABI knows every right that an earlier one knows.
pub proof fn known_grows(a: u32, b: u32)
    requires
        a <= b,
    ensures
        known(a) & known(b) == known(a),
{
    assert(a <= b ==> known(a) & known(b) == known(a)) by (bit_vector);
}

} // verus!
