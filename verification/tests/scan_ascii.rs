// Single-byte scanning: run segmentation, the length threshold, the
// end-of-input drop, offsets, and the case transform.

use mockstrings::find_strings_ascii;
use mockstrings::Encoding;
use mockstrings::Options;

fn opts(length: usize, off: bool) -> Options {
    Options { length, enc: Encoding::UTF8, off }
}

fn no_flips(n: usize) -> Vec<bool> {
    vec![false; n]
}

#[test]
fn five_byte_run_emits_one_line() {
    let f = b"hello\n".to_vec();
    let flips = no_flips(f.len());
    let lines = find_strings_ascii(f, &opts(4, false), &flips);
    assert_eq!(lines, vec![b"hello".to_vec()]);
}

#[test]
fn four_byte_run_emits_nothing() {
    let f = b"hell\n".to_vec();
    let flips = no_flips(f.len());
    let lines = find_strings_ascii(f, &opts(4, false), &flips);
    assert_eq!(lines, Vec::<Vec<u8>>::new());
}

#[test]
fn open_run_at_end_of_input_is_dropped() {
    let f = b"abcde".to_vec();
    let flips = no_flips(f.len());
    let lines = find_strings_ascii(f, &opts(4, false), &flips);
    assert_eq!(lines, Vec::<Vec<u8>>::new());
}

#[test]
fn empty_input_emits_nothing() {
    let f = Vec::new();
    let flips = Vec::new();
    let lines = find_strings_ascii(f, &opts(4, false), &flips);
    assert_eq!(lines, Vec::<Vec<u8>>::new());
}

#[test]
fn zero_minimum_emits_single_byte_run() {
    let f = b"a\n".to_vec();
    let flips = no_flips(f.len());
    let lines = find_strings_ascii(f, &opts(0, false), &flips);
    assert_eq!(lines, vec![b"a".to_vec()]);
}

#[test]
fn whitespace_splits_runs() {
    let f = b"Hello, World!\n".to_vec();
    let flips = no_flips(f.len());
    let lines = find_strings_ascii(f, &opts(4, false), &flips);
    assert_eq!(lines, vec![b"Hello,".to_vec(), b"World!".to_vec()]);
}

#[test]
fn no_swap_keeps_bytes_identical() {
    let f = b"AbC,123!x\n".to_vec();
    let flips = no_flips(f.len());
    let lines = find_strings_ascii(f, &opts(4, false), &flips);
    assert_eq!(lines, vec![b"AbC,123!x".to_vec()]);
}

#[test]
fn all_swap_inverts_every_cased_letter() {
    let f = b"AbC,123!x\n".to_vec();
    let flips = vec![true; f.len()];
    let lines = find_strings_ascii(f, &opts(4, false), &flips);
    assert_eq!(lines, vec![b"aBc,123!X".to_vec()]);
}

#[test]
fn mixed_flips_swap_only_where_drawn() {
    let f = b"abcde\n".to_vec();
    let flips = vec![true, false, true, false, true, false];
    let lines = find_strings_ascii(f, &opts(4, false), &flips);
    assert_eq!(lines, vec![b"AbCdE".to_vec()]);
}

#[test]
fn offset_prefix_for_run_at_start() {
    let f = b"hello\n".to_vec();
    let flips = no_flips(f.len());
    let lines = find_strings_ascii(f, &opts(4, true), &flips);
    assert_eq!(lines, vec![b"0: hello".to_vec()]);
}

#[test]
fn offset_prefix_is_last_terminator_position() {
    // Eleven non-printable bytes; the run starts at index 11, and the
    // prefix is the hex position of the terminator before it, 10 = a.
    let mut f = vec![b'\n'; 11];
    f.extend_from_slice(b"hello\n");
    let flips = no_flips(f.len());
    let lines = find_strings_ascii(f, &opts(4, true), &flips);
    assert_eq!(lines, vec![b"a: hello".to_vec()]);
}

#[test]
fn offset_prefix_multi_digit_hex() {
    let mut f = vec![b'\n'; 256];
    f.extend_from_slice(b"hello\n");
    let flips = no_flips(f.len());
    let lines = find_strings_ascii(f, &opts(4, true), &flips);
    assert_eq!(lines, vec![b"ff: hello".to_vec()]);
}

#[test]
fn high_bytes_are_not_printable() {
    let mut f = b"hello".to_vec();
    f.push(0xc3);
    f.extend_from_slice(b"world\n");
    let flips = no_flips(f.len());
    let lines = find_strings_ascii(f, &opts(4, false), &flips);
    assert_eq!(lines, vec![b"hello".to_vec(), b"world".to_vec()]);
}
