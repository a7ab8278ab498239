//! Constants and conversions of the system interface.
//!
//! Each function here hands over one value of the `nix`, `num_traits` or
//! standard library. What it promises of that value is not proved.

use nix::mount::{MntFlags, MsFlags};
use nix::poll::{PollFlags, PollTimeout};
use nix::sys::statfs::TMPFS_MAGIC;
use num_traits::AsPrimitive;
use vstd::prelude::*;
use vstd::utf8::{decode_utf8, valid_utf8};

verus! {

/// `MsFlags::empty()`: no bit is set.
#[verifier::external_body]
pub(crate) fn ms_none() -> (bits: u64)
    ensures
        bits == 0,
{
    MsFlags::empty().bits() as u64
}

/// `MsFlags::MS_RDONLY`: the bit that Linux gives to a read-only mount.
#[verifier::external_body]
pub(crate) fn ms_rdonly() -> (bits: u64)
    ensures
        bits == 0x1,
{
    MsFlags::MS_RDONLY.bits() as u64
}

/// `MsFlags::MS_REMOUNT`: the bit that alters a mount in place.
#[verifier::external_body]
pub(crate) fn ms_remount() -> (bits: u64)
    ensures
        bits == 0x20,
{
    MsFlags::MS_REMOUNT.bits() as u64
}

/// `MsFlags::MS_BIND`: the bit of a bind mount.
#[verifier::external_body]
pub(crate) fn ms_bind() -> (bits: u64)
    ensures
        bits == 0x1000,
{
    MsFlags::MS_BIND.bits() as u64
}

/// `MsFlags` under `|` (`BitOr::bitor`): the union of two sets of mount flags has
/// the bitwise or of their bits, unknown bits included. The flags are a machine
/// word, of 32 bits at least.
#[verifier::external_body]
pub(crate) fn ms_union(a: u64, b: u64) -> (bits: u64)
    requires
        a <= u32::MAX,
        b <= u32::MAX,
    ensures
        bits == a | b,
{
    (MsFlags::from_bits_retain(a as _) | MsFlags::from_bits_retain(b as _)).bits() as u64
}

/// `MntFlags::MNT_DETACH`: the bit of a lazy unmount.
#[verifier::external_body]
pub(crate) fn mnt_detach() -> (bits: i32)
    ensures
        bits == 0x2,
{
    MntFlags::MNT_DETACH.bits()
}

/// `PollFlags::POLLIN`: the bit that stands for data to read.
#[verifier::external_body]
pub(crate) fn poll_in() -> (bits: i16)
    ensures
        bits == 0x1,
{
    PollFlags::POLLIN.bits()
}

/// `PollTimeout::try_from` on an `i32`: every number of milliseconds from -1 on
/// is a timeout and keeps its value; smaller ones are refused.
#[verifier::external_body]
pub(crate) fn poll_timeout(millis: i32) -> (timeout: Option<i32>)
    ensures
        timeout == (if millis >= -1 {
            Some(millis)
        } else {
            None
        }),
{
    match PollTimeout::try_from(millis) {
        Ok(timeout) => Some(i32::from(timeout)),
        Err(_) => None,
    }
}

/// `nix::sys::statfs::TMPFS_MAGIC`: the number that marks a tmpfs.
#[verifier::external_body]
pub(crate) fn tmpfs_magic() -> (magic: i64)
    ensures
        magic == 0x0102_1994,
{
    TMPFS_MAGIC.0 as i64
}

/// `num_traits::AsPrimitive::as_` from `u32` to `i64`: the value is kept.
#[verifier::external_body]
pub(crate) fn as_fs_type(magic: u32) -> (fs_type: i64)
    ensures
        fs_type == magic,
{
    magic.as_()
}

/// `std::str::from_utf8`: text where the bytes are UTF-8, nothing elsewhere.
#[verifier::external_body]
pub(crate) fn utf8_text(bytes: &Vec<u8>) -> (text: Option<String>)
    ensures
        text is Some <==> valid_utf8(bytes@),
        text matches Some(text) ==> text@ == decode_utf8(bytes@),
{
    match std::str::from_utf8(bytes) {
        Ok(text) => Some(text.to_string()),
        Err(_) => None,
    }
}

/// What `String::from_utf8_lossy` makes of `bytes`.
pub uninterp spec fn lossy(bytes: Seq<u8>) -> Seq<char>;

/// `String::from_utf8_lossy`: the text that the name `lossy` stands for, which
/// is the text itself where the bytes are UTF-8. What stands for bytes that are
/// not UTF-8 is left open.
#[verifier::external_body]
pub(crate) fn lossy_text(bytes: &Vec<u8>) -> (text: String)
    ensures
        text@ == lossy(bytes@),
        valid_utf8(bytes@) ==> text@ == decode_utf8(bytes@),
{
    String::from_utf8_lossy(bytes).into_owned()
}

} // verus!
