//! Laws of the scanning pipeline, each stated over the segmenter's
//! mathematical model and proved for every input:
//! every emitted run is strictly longer than the minimum length; every
//! emitted byte is printable; with no flip ever drawn the output equals
//! the input's raw printable runs; with every flip drawn each emitted
//! byte is the case inversion of the corresponding raw byte; and a run
//! still open at the end of the stream is never emitted.

use vstd::prelude::*;

use crate::classify::all_printable;
use crate::classify::lemma_flip_case_printable;
use crate::classify::out_byte;
use crate::classify::printable_scalar;
use crate::classify::spec_flip_case;
use crate::decode::ScanItem;
use crate::decode::wf_items;
use crate::scan::flushes_from;
use crate::scan::scan_flushes;

verus! {

/// Every flushed run in `fs` is strictly longer than `min`.
pub open spec fn runs_longer_than(fs: Seq<(Seq<u8>, nat)>, min: nat) -> bool {
    forall|k: int| 0 <= k < fs.len() ==> (#[trigger] fs[k]).0.len() > min
}

/// Every flushed run in `fs` holds printable bytes only.
pub open spec fn runs_all_printable(fs: Seq<(Seq<u8>, nat)>) -> bool {
    forall|k: int| 0 <= k < fs.len() ==> all_printable((#[trigger] fs[k]).0)
}

proof fn lemma_flushes_from_lengths(
    items: Seq<ScanItem>,
    flips: Seq<bool>,
    i: int,
    run: Seq<u8>,
    line: nat,
    min: nat,
)
    ensures
        runs_longer_than(flushes_from(items, flips, i, run, line, min), min),
    decreases items.len() - i,
{
    if i < 0 || i >= items.len() {
    } else {
        match items[i] {
            ScanItem::Printable(b) => {
                lemma_flushes_from_lengths(
                    items,
                    flips,
                    i + 1,
                    run.push(out_byte(b, flips[i])),
                    line,
                    min,
                );
            },
            ScanItem::Terminator => {
                lemma_flushes_from_lengths(items, flips, i + 1, Seq::empty(), i as nat, min);
                let rest = flushes_from(items, flips, i + 1, Seq::empty(), i as nat, min);
                if run.len() > min {
                    let fs = seq![(run, line)] + rest;
                    assert forall|k: int| 0 <= k < fs.len() implies (#[trigger] fs[k]).0.len()
                        > min by {
                        if k > 0 {
                            assert(fs[k] == rest[k - 1]);
                        }
                    }
                }
            },
            ScanItem::Malformed => {
                lemma_flushes_from_lengths(items, flips, i + 1, Seq::empty(), line, min);
            },
        }
    }
}

/// Every emitted run is strictly longer than the configured minimum
/// length, whatever the input and the flip decisions.
pub proof fn lemma_emitted_run_lengths(items: Seq<ScanItem>, flips: Seq<bool>, min: nat)
    ensures
        runs_longer_than(scan_flushes(items, flips, min), min),
{
    lemma_flushes_from_lengths(items, flips, 0, Seq::empty(), 0, min);
}

proof fn lemma_flushes_from_printable(
    items: Seq<ScanItem>,
    flips: Seq<bool>,
    i: int,
    run: Seq<u8>,
    line: nat,
    min: nat,
)
    requires
        wf_items(items),
        all_printable(run),
    ensures
        runs_all_printable(flushes_from(items, flips, i, run, line, min)),
    decreases items.len() - i,
{
    if i < 0 || i >= items.len() {
    } else {
        match items[i] {
            ScanItem::Printable(b) => {
                lemma_flip_case_printable(b);
                let run2 = run.push(out_byte(b, flips[i]));
                assert(all_printable(run2)) by {
                    assert forall|j: int| 0 <= j < run2.len() implies printable_scalar(
                        run2[j] as int,
                    ) by {
                        if j < run.len() {
                            assert(printable_scalar(run[j] as int));
                        }
                    }
                }
                lemma_flushes_from_printable(items, flips, i + 1, run2, line, min);
            },
            ScanItem::Terminator => {
                lemma_flushes_from_printable(items, flips, i + 1, Seq::empty(), i as nat, min);
                let rest = flushes_from(items, flips, i + 1, Seq::empty(), i as nat, min);
                if run.len() > min {
                    let fs = seq![(run, line)] + rest;
                    assert forall|k: int| 0 <= k < fs.len() implies all_printable(
                        (#[trigger] fs[k]).0,
                    ) by {
                        if k > 0 {
                            assert(fs[k] == rest[k - 1]);
                        }
                    }
                }
            },
            ScanItem::Malformed => {
                lemma_flushes_from_printable(items, flips, i + 1, Seq::empty(), line, min);
            },
        }
    }
}

/// Every byte of every emitted run is printable: ASCII punctuation or
/// alphanumeric. Holds of every decoded stream (both decoders yield
/// printable bytes only) and every choice of flip decisions.
pub proof fn lemma_emitted_runs_printable(items: Seq<ScanItem>, flips: Seq<bool>, min: nat)
    requires
        wf_items(items),
    ensures
        runs_all_printable(scan_flushes(items, flips, min)),
{
    lemma_flushes_from_printable(items, flips, 0, Seq::empty(), 0, min);
}

/// Every run emitted for a buffer scanned in single-byte mode holds
/// printable bytes only, whatever the buffer.
pub proof fn lemma_ascii_runs_printable(bytes: Seq<u8>, flips: Seq<bool>, min: nat)
    ensures
        runs_all_printable(scan_flushes(crate::decode::ascii_items(bytes), flips, min)),
{
    crate::decode::lemma_ascii_items_wf(bytes);
    lemma_emitted_runs_printable(crate::decode::ascii_items(bytes), flips, min);
}

/// Every run emitted for a unit sequence scanned in 16-bit mode holds
/// printable bytes only, whatever the units.
pub proof fn lemma_utf16_runs_printable(us: Seq<u16>, flips: Seq<bool>, min: nat)
    ensures
        runs_all_printable(scan_flushes(crate::decode::utf16_items(us), flips, min)),
{
    crate::decode::lemma_utf16_items_wf(us);
    lemma_emitted_runs_printable(crate::decode::utf16_items(us), flips, min);
}

/// The raw printable runs of an item stream: the same segmentation as
/// `flushes_from`, with every printable byte kept unchanged.
pub open spec fn plain_from(
    items: Seq<ScanItem>,
    i: int,
    run: Seq<u8>,
    line: nat,
    min: nat,
) -> Seq<(Seq<u8>, nat)>
    decreases items.len() - i,
{
    if i < 0 || i >= items.len() {
        Seq::empty()
    } else {
        match items[i] {
            ScanItem::Printable(b) => plain_from(items, i + 1, run.push(b), line, min),
            ScanItem::Terminator => {
                let rest = plain_from(items, i + 1, Seq::empty(), i as nat, min);
                if run.len() > min {
                    seq![(run, line)] + rest
                } else {
                    rest
                }
            },
            ScanItem::Malformed => plain_from(items, i + 1, Seq::empty(), line, min),
        }
    }
}

/// The raw printable runs of a whole item stream.
pub open spec fn plain_runs(items: Seq<ScanItem>, min: nat) -> Seq<(Seq<u8>, nat)> {
    plain_from(items, 0, Seq::empty(), 0, min)
}

proof fn lemma_no_swap_from(
    items: Seq<ScanItem>,
    flips: Seq<bool>,
    i: int,
    run: Seq<u8>,
    line: nat,
    min: nat,
)
    requires
        forall|j: int| i <= j < items.len() ==> !(#[trigger] flips[j]),
    ensures
        flushes_from(items, flips, i, run, line, min) == plain_from(items, i, run, line, min),
    decreases items.len() - i,
{
    if i < 0 || i >= items.len() {
    } else {
        match items[i] {
            ScanItem::Printable(b) => {
                assert(out_byte(b, flips[i]) == b);
                lemma_no_swap_from(items, flips, i + 1, run.push(b), line, min);
            },
            ScanItem::Terminator => {
                lemma_no_swap_from(items, flips, i + 1, Seq::empty(), i as nat, min);
            },
            ScanItem::Malformed => {
                lemma_no_swap_from(items, flips, i + 1, Seq::empty(), line, min);
            },
        }
    }
}

/// With the swap probability fixed at zero — no flip decision ever
/// drawn — the emitted runs are byte-identical to the input's raw
/// printable runs, offsets included.
pub proof fn lemma_no_swap_identity(items: Seq<ScanItem>, flips: Seq<bool>, min: nat)
    requires
        forall|j: int| 0 <= j < items.len() ==> !(#[trigger] flips[j]),
    ensures
        scan_flushes(items, flips, min) == plain_runs(items, min),
{
    lemma_no_swap_from(items, flips, 0, Seq::empty(), 0, min);
}

/// A run with every byte's case inverted: cased letters trade case,
/// digits and punctuation stay as they are.
pub open spec fn flip_run(s: Seq<u8>) -> Seq<u8> {
    s.map_values(|b: u8| spec_flip_case(b))
}

/// A flushed run with its bytes case-inverted and its offset kept.
pub open spec fn flip_flush(p: (Seq<u8>, nat)) -> (Seq<u8>, nat) {
    (flip_run(p.0), p.1)
}

proof fn lemma_all_swap_from(
    items: Seq<ScanItem>,
    flips: Seq<bool>,
    i: int,
    run_p: Seq<u8>,
    line: nat,
    min: nat,
)
    requires
        forall|j: int| i <= j < items.len() ==> #[trigger] flips[j],
    ensures
        flushes_from(items, flips, i, flip_run(run_p), line, min) == plain_from(
            items,
            i,
            run_p,
            line,
            min,
        ).map_values(|p: (Seq<u8>, nat)| flip_flush(p)),
    decreases items.len() - i,
{
    if i < 0 || i >= items.len() {
        assert(plain_from(items, i, run_p, line, min).map_values(
            |p: (Seq<u8>, nat)| flip_flush(p),
        ) =~= Seq::<(Seq<u8>, nat)>::empty());
    } else {
        match items[i] {
            ScanItem::Printable(b) => {
                assert(out_byte(b, flips[i]) == spec_flip_case(b));
                assert(flip_run(run_p).push(spec_flip_case(b)) =~= flip_run(run_p.push(b)));
                lemma_all_swap_from(items, flips, i + 1, run_p.push(b), line, min);
            },
            ScanItem::Terminator => {
                lemma_all_swap_from(items, flips, i + 1, Seq::empty(), i as nat, min);
                assert(flip_run(Seq::<u8>::empty()) =~= Seq::<u8>::empty());
                assert(flip_run(run_p).len() == run_p.len());
                if run_p.len() > min {
                    let rest_p = plain_from(items, i + 1, Seq::empty(), i as nat, min);
                    assert((seq![(run_p, line)] + rest_p).map_values(
                        |p: (Seq<u8>, nat)| flip_flush(p),
                    ) =~= seq![(flip_run(run_p), line)] + rest_p.map_values(
                        |p: (Seq<u8>, nat)| flip_flush(p),
                    ));
                }
            },
            ScanItem::Malformed => {
                lemma_all_swap_from(items, flips, i + 1, Seq::empty(), line, min);
                assert(flip_run(Seq::<u8>::empty()) =~= Seq::<u8>::empty());
            },
        }
    }
}

/// With the swap probability fixed at one — every flip decision drawn —
/// the emitted runs are the input's raw printable runs with every cased
/// letter's case inverted and every other byte unchanged, offsets kept.
pub proof fn lemma_all_swap_inverts(items: Seq<ScanItem>, flips: Seq<bool>, min: nat)
    requires
        forall|j: int| 0 <= j < items.len() ==> #[trigger] flips[j],
    ensures
        scan_flushes(items, flips, min) == plain_runs(items, min).map_values(
            |p: (Seq<u8>, nat)| flip_flush(p),
        ),
        scan_flushes(items, flips, min).len() == plain_runs(items, min).len(),
        forall|k: int|
            0 <= k < plain_runs(items, min).len() ==> (#[trigger] scan_flushes(items, flips, min)[k]).1
                == plain_runs(items, min)[k].1 && scan_flushes(items, flips, min)[k].0 == flip_run(
                plain_runs(items, min)[k].0,
            ),
{
    assert(flip_run(Seq::<u8>::empty()) =~= Seq::<u8>::empty());
    lemma_all_swap_from(items, flips, 0, Seq::empty(), 0, min);
    assert forall|k: int| 0 <= k < plain_runs(items, min).len() implies (#[trigger] scan_flushes(
        items,
        flips,
        min,
    )[k]).1 == plain_runs(items, min)[k].1 && scan_flushes(items, flips, min)[k].0 == flip_run(
        plain_runs(items, min)[k].0,
    ) by {
        assert(scan_flushes(items, flips, min)[k] == plain_runs(items, min).map_values(
            |p: (Seq<u8>, nat)| flip_flush(p),
        )[k]);
    }
}

proof fn lemma_no_terminator_from(
    items: Seq<ScanItem>,
    flips: Seq<bool>,
    i: int,
    run: Seq<u8>,
    line: nat,
    min: nat,
)
    requires
        forall|j: int| i <= j < items.len() ==> !((#[trigger] items[j]) is Terminator),
    ensures
        flushes_from(items, flips, i, run, line, min) == Seq::<(Seq<u8>, nat)>::empty(),
    decreases items.len() - i,
{
    if i < 0 || i >= items.len() {
    } else {
        match items[i] {
            ScanItem::Printable(b) => {
                lemma_no_terminator_from(
                    items,
                    flips,
                    i + 1,
                    run.push(out_byte(b, flips[i])),
                    line,
                    min,
                );
            },
            ScanItem::Terminator => {
                assert(false);
            },
            ScanItem::Malformed => {
                lemma_no_terminator_from(items, flips, i + 1, Seq::empty(), line, min);
            },
        }
    }
}

/// A run still open at the end of the input is never emitted: a stream
/// in which no terminator ever arrives produces no output at all,
/// however long its printable runs are.
pub proof fn lemma_open_run_never_emitted(items: Seq<ScanItem>, flips: Seq<bool>, min: nat)
    requires
        forall|j: int| 0 <= j < items.len() ==> !((#[trigger] items[j]) is Terminator),
    ensures
        scan_flushes(items, flips, min) == Seq::<(Seq<u8>, nat)>::empty(),
{
    lemma_no_terminator_from(items, flips, 0, Seq::empty(), 0, min);
}

} // verus!
