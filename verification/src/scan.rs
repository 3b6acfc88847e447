//! The segmenter and the emitter: accumulates printable runs over the
//! decoded item stream, applies the per-character case transform, flushes
//! every run that is strictly longer than the minimum length when a
//! terminator arrives, and formats each flushed run as one output line,
//! optionally prefixed with its offset in lowercase hexadecimal.
//!
//! A run still open when the stream ends is dropped, never emitted. A
//! malformed position drops the current run without emitting it and
//! without moving the offset reference; a terminator flushes the run
//! (when long enough) and moves the offset reference to its own
//! position.

use vstd::prelude::*;

use crate::classify::out_byte;
use crate::decode::ScanItem;

verus! {

/// The lowercase hexadecimal digit for a value below 16.
pub open spec fn hex_digit(d: int) -> u8 {
    if d < 10 {
        (0x30 + d) as u8
    } else {
        (0x57 + d) as u8
    }
}

/// The lowercase hexadecimal digits of `n`, most significant first,
/// with no leading zeros (`0` itself is the single digit `0`).
pub open spec fn hex_seq(n: nat) -> Seq<u8>
    decreases n,
{
    if n < 16 {
        seq![hex_digit(n as int)]
    } else {
        hex_seq(n / 16).push(hex_digit((n % 16) as int))
    }
}

/// The bytes of one output line: the run itself, or, with the offset
/// flag set, the offset in lowercase hexadecimal, a colon and a space,
/// then the run.
pub open spec fn emit_line(run: Seq<u8>, offset: nat, off_flag: bool) -> Seq<u8> {
    if off_flag {
        hex_seq(offset) + seq![0x3au8, 0x20u8] + run
    } else {
        run
    }
}

/// The flushed runs of the item stream from position `i` on, each with
/// the offset reference current when it was flushed. `run` is the run
/// accumulated so far and `line` its offset reference. A printable item
/// appends its transformed byte; a terminator flushes the run when it
/// is strictly longer than `min` and moves the reference to its own
/// position; a malformed item drops the run and leaves the reference;
/// the end of the stream drops an open run without flushing it.
pub open spec fn flushes_from(
    items: Seq<ScanItem>,
    flips: Seq<bool>,
    i: int,
    run: Seq<u8>,
    line: nat,
    min: nat,
) -> Seq<(Seq<u8>, nat)>
    decreases items.len() - i,
{
    if i < 0 || i >= items.len() {
        Seq::empty()
    } else {
        match items[i] {
            ScanItem::Printable(b) => flushes_from(
                items,
                flips,
                i + 1,
                run.push(out_byte(b, flips[i])),
                line,
                min,
            ),
            ScanItem::Terminator => {
                let rest = flushes_from(items, flips, i + 1, Seq::empty(), i as nat, min);
                if run.len() > min {
                    seq![(run, line)] + rest
                } else {
                    rest
                }
            },
            ScanItem::Malformed => flushes_from(items, flips, i + 1, Seq::empty(), line, min),
        }
    }
}

/// The flushed runs of a whole item stream.
pub open spec fn scan_flushes(items: Seq<ScanItem>, flips: Seq<bool>, min: nat) -> Seq<
    (Seq<u8>, nat),
> {
    flushes_from(items, flips, 0, Seq::empty(), 0, min)
}

/// The output lines of a whole item stream: each flushed run formatted
/// as a line, its offset reference scaled by the byte width of one
/// decode position (1 in single-byte mode, 2 in 16-bit mode).
pub open spec fn scan_lines(
    items: Seq<ScanItem>,
    flips: Seq<bool>,
    min: nat,
    off: bool,
    scale: nat,
) -> Seq<Seq<u8>> {
    scan_flushes(items, flips, min).map_values(
        |p: (Seq<u8>, nat)| emit_line(p.0, p.1 * scale, off),
    )
}

/// Appends the lowercase hexadecimal digits of `n` to `out`.
pub fn push_hex(out: &mut Vec<u8>, n: usize)
    ensures
        final(out)@ == old(out)@ + hex_seq(n as nat),
    decreases n,
{
    if n < 16 {
        let d = n as u8;
        out.push(if d < 10 { 0x30 + d } else { 0x57 + d });
        proof {
            assert(out@ =~= old(out)@ + hex_seq(n as nat));
        }
    } else {
        push_hex(out, n / 16);
        let d = (n % 16) as u8;
        out.push(if d < 10 { 0x30 + d } else { 0x57 + d });
        proof {
            assert(out@ =~= old(out)@ + hex_seq(n as nat));
        }
    }
}

/// Formats one flushed run as a line, prefixing the offset when asked.
pub fn make_line(run: Vec<u8>, offset: usize, off_flag: bool) -> (r: Vec<u8>)
    ensures
        r@ == emit_line(run@, offset as nat, off_flag),
{
    if off_flag {
        let mut v: Vec<u8> = Vec::new();
        push_hex(&mut v, offset);
        v.push(0x3a);
        v.push(0x20);
        let mut tail = run;
        let ghost tail_snap = tail@;
        v.append(&mut tail);
        proof {
            assert(v@ =~= hex_seq(offset as nat) + seq![0x3au8, 0x20u8] + tail_snap);
        }
        v
    } else {
        run
    }
}

/// Scans a decoded item stream: accumulates printable runs under the
/// per-character flip decisions and returns, in scan order, one line
/// for every run flushed by a terminator.
pub fn scan_items(
    items: &Vec<ScanItem>,
    flips: &Vec<bool>,
    length: usize,
    off: bool,
    scale: usize,
) -> (lines: Vec<Vec<u8>>)
    requires
        flips@.len() >= items@.len(),
        (items@.len() as int) * (scale as int) <= usize::MAX as int,
    ensures
        lines.deep_view() == scan_lines(items@, flips@, length as nat, off, scale as nat),
{
    let mut lines: Vec<Vec<u8>> = Vec::new();
    let mut run: Vec<u8> = Vec::new();
    let mut line: usize = 0;
    let ghost mut flushed: Seq<(Seq<u8>, nat)> = Seq::empty();
    let ghost mut line_count: nat = 0nat;
    let mut i: usize = 0;
    while i < items.len()
        invariant
            i <= items@.len(),
            flips@.len() >= items@.len(),
            (items@.len() as int) * (scale as int) <= usize::MAX as int,
            line as nat == line_count * (scale as nat),
            scan_flushes(items@, flips@, length as nat) == flushed + flushes_from(
                items@,
                flips@,
                i as int,
                run@,
                line_count,
                length as nat,
            ),
            lines.deep_view() == flushed.map_values(
                |p: (Seq<u8>, nat)| emit_line(p.0, p.1 * (scale as nat), off),
            ),
        decreases items@.len() - i,
    {
        let ghost run_before = run@;
        match items[i] {
            ScanItem::Printable(b) => {
                let ob = if flips[i] {
                    crate::classify::flip_case(b)
                } else {
                    b
                };
                run.push(ob);
                proof {
                    assert(run@ == run_before.push(out_byte(b, flips@[i as int])));
                }
            },
            ScanItem::Terminator => {
                if run.len() > length {
                    let lv = make_line(run, line, off);
                    let ghost lines_before = lines.deep_view();
                    lines.push(lv);
                    run = Vec::new();
                    proof {
                        assert forall|k: int| 0 <= k < lines@.len() implies lines.deep_view()[k]
                            == lines_before.push(lv@)[k] by {
                            if k < lines_before.len() {
                                assert(lines@[k] == lines@.drop_last()[k]);
                            }
                            assert(lv.deep_view() =~= lv@);
                        }
                        assert(lines.deep_view() =~= lines_before.push(lv@));
                        flushed = flushed.push((run_before, line_count));
                        assert(lines.deep_view() =~= flushed.map_values(
                            |p: (Seq<u8>, nat)| emit_line(p.0, p.1 * (scale as nat), off),
                        ));
                        assert(flushed.drop_last() + (seq![(run_before, line_count)]
                            + flushes_from(
                            items@,
                            flips@,
                            i as int + 1,
                            Seq::empty(),
                            i as nat,
                            length as nat,
                        )) =~= flushed + flushes_from(
                            items@,
                            flips@,
                            i as int + 1,
                            Seq::empty(),
                            i as nat,
                            length as nat,
                        ));
                    }
                } else {
                    run.clear();
                }
                proof {
                    assert((i as int) * (scale as int) <= (items@.len() as int) * (
                    scale as int)) by (nonlinear_arith)
                        requires
                            0 <= i as int <= items@.len() as int,
                            scale as int >= 0,
                    ;
                }
                line = i * scale;
                proof {
                    line_count = i as nat;
                }
            },
            ScanItem::Malformed => {
                run.clear();
            },
        }
        i = i + 1;
    }
    proof {
        assert(flushes_from(items@, flips@, i as int, run@, line_count, length as nat)
            =~= Seq::<(Seq<u8>, nat)>::empty());
        assert(scan_flushes(items@, flips@, length as nat) =~= flushed);
        assert(lines.deep_view() =~= scan_lines(items@, flips@, length as nat, off, scale as nat));
    }
    lines
}

} // verus!
