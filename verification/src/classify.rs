//! The classifier: decides which decoded characters count as printable,
//! and defines the case transform applied to printable bytes.

use vstd::prelude::*;

verus! {

/// A scalar value counts as printable exactly when it is ASCII
/// punctuation or ASCII alphanumeric; that union is the contiguous
/// range of the visible ASCII characters, `'!'` through `'~'`.
pub open spec fn printable_scalar(v: int) -> bool {
    0x21 <= v <= 0x7e
}

/// Returns whether `c` is printable for run accumulation: ASCII
/// punctuation or ASCII alphanumeric. Whitespace, control characters
/// and every non-ASCII scalar are non-printable.
pub fn is_ascii_printable(ch: char) -> (r: bool)
    ensures
        r == printable_scalar(ch as int),
{
    let v = ch as u32;
    // punctuation: !../  :..@  [..`  {..~   alphanumeric: 0..9 A..Z a..z
    (0x21 <= v && v <= 0x2f) || (0x3a <= v && v <= 0x40) || (0x5b <= v && v <= 0x60) || (0x7b <= v
        && v <= 0x7e) || (0x30 <= v && v <= 0x39) || (0x41 <= v && v <= 0x5a) || (0x61 <= v && v
        <= 0x7a)
}

/// The case-inverted candidate for a byte: uppercase and lowercase
/// ASCII letters trade places; every other byte is unchanged.
pub open spec fn spec_flip_case(b: u8) -> u8 {
    if 0x61 <= b <= 0x7a {
        (b - 0x20) as u8
    } else if 0x41 <= b <= 0x5a {
        (b + 0x20) as u8
    } else {
        b
    }
}

/// Inverts the case of an ASCII letter byte; leaves other bytes unchanged.
pub fn flip_case(b: u8) -> (r: u8)
    ensures
        r == spec_flip_case(b),
{
    if 0x61 <= b && b <= 0x7a {
        b - 0x20
    } else if 0x41 <= b && b <= 0x5a {
        b + 0x20
    } else {
        b
    }
}

/// The byte emitted for a printable byte `b` under flip decision `flip`:
/// the case-inverted candidate when the per-character draw succeeded,
/// the original byte otherwise.
pub open spec fn out_byte(b: u8, flip: bool) -> u8 {
    if flip {
        spec_flip_case(b)
    } else {
        b
    }
}

/// A byte sequence made of printable bytes only.
pub open spec fn all_printable(s: Seq<u8>) -> bool {
    forall|j: int| 0 <= j < s.len() ==> printable_scalar((#[trigger] s[j]) as int)
}

/// Case flipping never leaves the printable range.
pub proof fn lemma_flip_case_printable(b: u8)
    requires
        printable_scalar(b as int),
    ensures
        printable_scalar(spec_flip_case(b) as int),
{
}

} // verus!
