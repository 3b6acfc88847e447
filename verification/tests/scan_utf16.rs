// 16-bit scanning: per-variant byte order, surrogate handling, decode
// error recovery, item-counted offsets, and the encoding guard.

use mockstrings::find_strings_utf16;
use mockstrings::Encoding;
use mockstrings::Options;
use mockstrings::StringsError;

fn opts(length: usize, enc: Encoding, off: bool) -> Options {
    Options { length, enc, off }
}

fn no_flips(n: usize) -> Vec<bool> {
    vec![false; n]
}

// Unit values as bytes for the `l` tag, which reads the first byte of
// each pair as the high-order byte.
fn le_tag_bytes(units: &[u16]) -> Vec<u8> {
    let mut v = Vec::new();
    for u in units {
        v.push((u >> 8) as u8);
        v.push((u & 0xff) as u8);
    }
    v
}

// Unit values as bytes for the `b` tag, which reads the second byte of
// each pair as the high-order byte.
fn be_tag_bytes(units: &[u16]) -> Vec<u8> {
    let mut v = Vec::new();
    for u in units {
        v.push((u & 0xff) as u8);
        v.push((u >> 8) as u8);
    }
    v
}

fn units_of_ascii(s: &[u8]) -> Vec<u16> {
    s.iter().map(|b| *b as u16).collect()
}

#[test]
fn single_byte_encoding_is_rejected() {
    let r = find_strings_utf16(b"anything".to_vec(), &opts(4, Encoding::UTF8, false), &no_flips(8));
    assert_eq!(r, Err(StringsError::InvalidEncoding));
}

#[test]
fn le_tag_reads_first_byte_high() {
    let mut units = units_of_ascii(b"hello");
    units.push(0x000a);
    let f = le_tag_bytes(&units);
    let flips = no_flips(f.len());
    let lines = find_strings_utf16(f, &opts(4, Encoding::UTF16LE, false), &flips).unwrap();
    assert_eq!(lines, vec![b"hello".to_vec()]);
}

#[test]
fn be_tag_reads_second_byte_high() {
    let mut units = units_of_ascii(b"hello");
    units.push(0x000a);
    let f = be_tag_bytes(&units);
    let flips = no_flips(f.len());
    let lines = find_strings_utf16(f, &opts(4, Encoding::UTF16BE, false), &flips).unwrap();
    assert_eq!(lines, vec![b"hello".to_vec()]);
}

#[test]
fn swapped_byte_order_breaks_the_run() {
    // "hello" laid out for the other tag decodes to non-printable
    // units, so nothing is emitted.
    let mut units = units_of_ascii(b"hello");
    units.push(0x000a);
    let f = be_tag_bytes(&units);
    let flips = no_flips(f.len());
    let lines = find_strings_utf16(f, &opts(4, Encoding::UTF16LE, false), &flips).unwrap();
    assert_eq!(lines, Vec::<Vec<u8>>::new());
}

#[test]
fn decode_error_is_recovered_and_scan_continues() {
    // A short printable run, an unpaired high surrogate, then a long
    // printable run and a terminator: exactly one line comes out.
    let mut units = units_of_ascii(b"ab");
    units.push(0xd800);
    units.extend(units_of_ascii(b"hello!"));
    units.push(0x000a);
    let f = be_tag_bytes(&units);
    let flips = no_flips(f.len());
    let lines = find_strings_utf16(f, &opts(4, Encoding::UTF16BE, false), &flips).unwrap();
    assert_eq!(lines, vec![b"hello!".to_vec()]);
}

#[test]
fn decode_error_drops_current_run_without_emitting() {
    // A run long enough to pass the threshold is still dropped when a
    // decode error, not a terminator, ends it.
    let mut units = units_of_ascii(b"hello");
    units.push(0xd800);
    units.push(0x000a);
    let f = be_tag_bytes(&units);
    let flips = no_flips(f.len());
    let lines = find_strings_utf16(f, &opts(4, Encoding::UTF16BE, false), &flips).unwrap();
    assert_eq!(lines, Vec::<Vec<u8>>::new());
}

#[test]
fn lone_low_surrogate_is_malformed() {
    let mut units = units_of_ascii(b"ab");
    units.push(0xdc00);
    units.extend(units_of_ascii(b"world"));
    units.push(0x000a);
    let f = be_tag_bytes(&units);
    let flips = no_flips(f.len());
    let lines = find_strings_utf16(f, &opts(4, Encoding::UTF16BE, false), &flips).unwrap();
    assert_eq!(lines, vec![b"world".to_vec()]);
}

#[test]
fn trailing_high_surrogate_is_malformed() {
    let mut units = units_of_ascii(b"hello");
    units.push(0x000a);
    units.push(0xd800);
    let f = be_tag_bytes(&units);
    let flips = no_flips(f.len());
    let lines = find_strings_utf16(f, &opts(4, Encoding::UTF16BE, false), &flips).unwrap();
    assert_eq!(lines, vec![b"hello".to_vec()]);
}

#[test]
fn surrogate_pair_counts_one_item_and_terminates() {
    // A surrogate pair decodes to one supplementary character: it is
    // non-printable, so it flushes the run before it, and the offset
    // reference advances by item count, two bytes per item.
    let mut units = units_of_ascii(b"hello");
    units.push(0xd83d);
    units.push(0xde00);
    units.extend(units_of_ascii(b"world"));
    units.push(0x000a);
    let f = be_tag_bytes(&units);
    let flips = no_flips(f.len());
    let lines = find_strings_utf16(f, &opts(4, Encoding::UTF16BE, true), &flips).unwrap();
    // the pair is item 5, so the second run's prefix is 5 * 2 = a
    assert_eq!(lines, vec![b"0: hello".to_vec(), b"a: world".to_vec()]);
}

#[test]
fn trailing_odd_byte_is_dropped() {
    let mut units = units_of_ascii(b"hello");
    units.push(0x000a);
    let mut f = be_tag_bytes(&units);
    f.push(0x61);
    let flips = no_flips(f.len());
    let lines = find_strings_utf16(f, &opts(4, Encoding::UTF16BE, false), &flips).unwrap();
    assert_eq!(lines, vec![b"hello".to_vec()]);
}

#[test]
fn non_ascii_units_are_not_printable() {
    // A decoded character above the ASCII range terminates the run.
    let mut units = units_of_ascii(b"hello");
    units.push(0x00e9);
    units.extend(units_of_ascii(b"world"));
    units.push(0x000a);
    let f = be_tag_bytes(&units);
    let flips = no_flips(f.len());
    let lines = find_strings_utf16(f, &opts(4, Encoding::UTF16BE, false), &flips).unwrap();
    assert_eq!(lines, vec![b"hello".to_vec(), b"world".to_vec()]);
}

#[test]
fn all_swap_inverts_in_utf16_mode() {
    let mut units = units_of_ascii(b"AbC,12x");
    units.push(0x000a);
    let f = be_tag_bytes(&units);
    let flips = vec![true; units_of_ascii(b"AbC,12x").len() + 1];
    let lines = find_strings_utf16(f, &opts(4, Encoding::UTF16BE, false), &flips).unwrap();
    assert_eq!(lines, vec![b"aBc,12X".to_vec()]);
}
