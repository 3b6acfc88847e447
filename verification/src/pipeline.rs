//! The whole pipeline: decode a byte buffer under the selected encoding,
//! classify and transform its characters, and return the emitted lines
//! in scan order.
//!
//! Randomness is injected: the caller supplies one flip decision per
//! decode position (the outcome of one independent uniform draw tested
//! against the swap probability), and the scan consumes the decision at
//! each printable character's position.

use vstd::prelude::*;

use crate::decode::ascii_items;
use crate::decode::decode_ascii;
use crate::decode::decode_utf16_units;
use crate::decode::lemma_units_len;
use crate::decode::lemma_utf16_items_len;
use crate::decode::units_from_bytes;
use crate::decode::units_of;
use crate::decode::utf16_items;
use crate::options::Encoding;
use crate::options::Options;
use crate::options::StringsError;
use crate::scan::scan_items;
use crate::scan::scan_lines;

verus! {

/// Scans a buffer in single-byte mode: every byte is one character at
/// its own offset. Returns one line for every printable run strictly
/// longer than `opt.length` that a non-printable byte terminates,
/// prefixed with the offset reference in lowercase hexadecimal when
/// `opt.off` is set. A run still open at the end of the buffer is
/// dropped. Needs one flip decision per byte.
pub fn find_strings_ascii(f: Vec<u8>, opt: &Options, flips: &Vec<bool>) -> (lines: Vec<Vec<u8>>)
    requires
        flips@.len() >= f@.len(),
    ensures
        lines.deep_view() == scan_lines(ascii_items(f@), flips@, opt.length as nat, opt.off, 1),
{
    let items = decode_ascii(&f);
    scan_items(&items, flips, opt.length, opt.off, 1)
}

/// Scans a buffer in 16-bit mode: byte pairs are combined under the
/// selected variant's byte order, decoded as UTF-16 (surrogate pairs
/// combined, unpaired surrogates marked malformed), and the decoded
/// stream is scanned as in single-byte mode, offsets counting two
/// bytes per decoded position. Returns `InvalidEncoding` exactly when
/// the single-byte encoding is selected. Needs one flip decision per
/// decoded position: half as many as the buffer has bytes suffices.
pub fn find_strings_utf16(f: Vec<u8>, options: &Options, flips: &Vec<bool>) -> (r: Result<
    Vec<Vec<u8>>,
    StringsError,
>)
    requires
        flips@.len() >= f@.len() / 2,
    ensures
        r is Err <==> options.enc is UTF8,
        r matches Err(e) ==> e == StringsError::InvalidEncoding,
        r matches Ok(lines) ==> lines.deep_view() == scan_lines(
            utf16_items(units_of(f@, options.enc)),
            flips@,
            options.length as nat,
            options.off,
            2,
        ),
{
    match options.enc {
        Encoding::UTF8 => Err(StringsError::InvalidEncoding),
        _ => {
            let units = units_from_bytes(&f, options.enc);
            let items = decode_utf16_units(&units);
            proof {
                lemma_units_len(f@, options.enc);
                lemma_utf16_items_len(units@);
                assert(items@.len() <= f@.len() / 2);
                assert((items@.len() as int) * 2 <= f@.len() as int);
            }
            Ok(scan_items(&items, flips, options.length, options.off, 2))
        },
    }
}

} // verus!
