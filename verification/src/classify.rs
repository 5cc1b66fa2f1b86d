//! Classifies a file as an ELF candidate or not, by content alone.

use vstd::prelude::*;

verus! {

/// A byte sequence counts as ELF exactly when it is at least four bytes long
/// and its first four bytes are 0x7f 'E' 'L' 'F'.
pub open spec fn is_elf_bytes(s: Seq<u8>) -> bool {
    s.len() >= 4 && s[0] == 0x7f && s[1] == 0x45 && s[2] == 0x4c && s[3] == 0x46
}

/// Classifies a file by its leading bytes: ELF exactly when the first four
/// bytes equal the ELF magic. A prefix shorter than four bytes is never ELF,
/// so a short read degrades to "not ELF" rather than an error.
pub fn is_elf(prefix: &Vec<u8>) -> (r: bool)
    ensures
        r == is_elf_bytes(prefix@),
{
    prefix.len() >= 4 && prefix[0] == 0x7f && prefix[1] == 0x45 && prefix[2] == 0x4c
        && prefix[3] == 0x46
}

} // verus!
