//! Paths as bytes.

use crate::sys::utf8_text;
use vstd::prelude::*;
use vstd::string::StrSliceExecFns;
use vstd::utf8::{decode_utf8, encode_utf8, valid_utf8};

verus! {

/// The path that a text spells.
pub open spec fn text_path(text: Seq<char>) -> Seq<u8> {
    encode_utf8(text)
}

/// The text of a path, empty where the path is not UTF-8.
pub open spec fn path_text(path: Seq<u8>) -> Seq<char> {
    if valid_utf8(path) {
        decode_utf8(path)
    } else {
        Seq::empty()
    }
}

/// `name` below `base`: an absolute name stands for itself, any other follows
/// the base after one separator.
pub open spec fn below(base: Seq<u8>, name: Seq<u8>) -> Seq<u8> {
    if name.len() > 0 && name[0] == 0x2f {
        name
    } else if base.len() > 0 && base.last() != 0x2f {
        base.push(0x2f) + name
    } else {
        base + name
    }
}

/// Spells a text as a path.
pub fn to_path(text: &str) -> (path: Vec<u8>)
    ensures
        path@ == text_path(text@),
{
    text.as_bytes_vec()
}

/// Gives a path as text, empty where the path is not UTF-8.
pub fn to_text(path: &Vec<u8>) -> (text: String)
    ensures
        text@ == path_text(path@),
{
    match utf8_text(path) {
        Some(text) => text,
        None => String::new(),
    }
}

/// Appends `name` to `base` as a path component.
pub fn join_path(base: &Vec<u8>, name: &Vec<u8>) -> (path: Vec<u8>)
    ensures
        path@ == below(base@, name@),
{
    let mut path: Vec<u8> = Vec::new();
    if name.len() == 0 || name[0] != 0x2f {
        copy_bytes(&mut path, base);
        if base.len() > 0 && base[base.len() - 1] != 0x2f {
            path.push(0x2f);
        }
    }
    copy_bytes(&mut path, name);
    path
}

/// A second copy of `path`.
pub fn copy_path(path: &Vec<u8>) -> (copy: Vec<u8>)
    ensures
        copy@ == path@,
{
    let mut copy: Vec<u8> = Vec::new();
    copy_bytes(&mut copy, path);
    assert(copy@ =~= path@);
    copy
}

/// Appends `bytes` to `to`.
fn copy_bytes(to: &mut Vec<u8>, bytes: &Vec<u8>)
    ensures
        final(to)@ == old(to)@ + bytes@,
{
    let mut i: usize = 0;
    while i < bytes.len()
        invariant
            i <= bytes.len(),
            to@ == old(to)@ + bytes@.take(i as int),
        decreases bytes.len() - i,
    {
        to.push(bytes[i]);
        assert(bytes@.take(i + 1) =~= bytes@.take(i as int).push(bytes@[i as int]));
        i = i + 1;
    }
    assert(bytes@.take(i as int) =~= bytes@);
}

} // verus!
