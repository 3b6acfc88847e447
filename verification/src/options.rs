//! Configuration: the selectable encodings, the scan options, and the
//! error reported for an unusable encoding selection.

use vstd::prelude::*;

verus! {

broadcast use vstd::string::axiom_spec_iter, vstd::string::next_postcondition;

/// The encodings the scanner understands. `UTF8` treats every byte as
/// one character. The two 16-bit variants consume the buffer in 2-byte
/// units; each variant reads its units with its own fixed byte order
/// (see `decode::spec_unit`), deliberately kept distinct per variant.
#[derive(Clone, Copy, PartialEq, Eq, Structural, Debug)]
pub enum Encoding {
    UTF8,
    UTF16BE,
    UTF16LE,
}

/// The errors the library reports: an encoding code outside the
/// accepted set, found at configuration time before any scanning.
#[derive(Clone, Copy, PartialEq, Eq, Structural, Debug)]
pub enum StringsError {
    InvalidEncoding,
}

impl StringsError {
    /// A human-readable description of the error.
    pub fn message(&self) -> (r: String)
        ensures
            r@ == "Not an encoding option"@,
    {
        "Not an encoding option".to_owned()
    }
}

/// The encoding selected by a one-character code: `s` and `S` pick the
/// single-byte mode, `l` and `b` the two 16-bit modes; everything else
/// is rejected.
pub open spec fn spec_encoding_from(s: Seq<char>) -> Result<Encoding, StringsError> {
    if s.len() == 1 {
        if s[0] == 's' || s[0] == 'S' {
            Ok(Encoding::UTF8)
        } else if s[0] == 'l' {
            Ok(Encoding::UTF16LE)
        } else if s[0] == 'b' {
            Ok(Encoding::UTF16BE)
        } else {
            Err(StringsError::InvalidEncoding)
        }
    } else {
        Err(StringsError::InvalidEncoding)
    }
}

impl Encoding {
    /// Parses an encoding code. Returns `Ok` exactly for the four
    /// accepted codes `s`, `S`, `l`, `b`, and `InvalidEncoding` for
    /// every other string.
    pub fn from_str(code: &str) -> (r: Result<Encoding, StringsError>)
        ensures
            r == spec_encoding_from(code@),
    {
        let mut it = code.chars();
        let first = it.next();
        let second = it.next();
        match (first, second) {
            (Some(c), None) => {
                if c == 's' || c == 'S' {
                    Ok(Encoding::UTF8)
                } else if c == 'l' {
                    Ok(Encoding::UTF16LE)
                } else if c == 'b' {
                    Ok(Encoding::UTF16BE)
                } else {
                    Err(StringsError::InvalidEncoding)
                }
            },
            _ => Err(StringsError::InvalidEncoding),
        }
    }
}

/// The immutable scan configuration: the minimum run length (a run is
/// emitted only when strictly longer than it), the selected encoding,
/// and whether each emitted line is prefixed with its offset in
/// lowercase hexadecimal.
#[derive(Clone, Copy)]
pub struct Options {
    pub length: usize,
    pub enc: Encoding,
    pub off: bool,
}

} // verus!
