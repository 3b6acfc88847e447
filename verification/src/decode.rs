//! The decoder: turns the raw byte buffer into a stream of scan items
//! under the selected encoding. Single-byte mode maps every byte to one
//! item and never fails; the 16-bit modes consume 2-byte units, combine
//! surrogate pairs, and mark unpaired surrogates as malformed.

use vstd::prelude::*;

use crate::classify::printable_scalar;
use crate::options::Encoding;

verus! {

/// One position of the decoded stream, as the segmenter sees it:
/// a printable character carried as its ASCII byte (before the case
/// transform), a decoded but non-printable character, or a position
/// at which decoding failed.
#[derive(Clone, Copy, PartialEq, Eq, Structural, Debug)]
pub enum ScanItem {
    Printable(u8),
    Terminator,
    Malformed,
}

/// The item a decoded scalar value turns into: printable scalars keep
/// their byte, everything else terminates the current run.
pub open spec fn item_of_scalar(v: int) -> ScanItem {
    if printable_scalar(v) {
        ScanItem::Printable(v as u8)
    } else {
        ScanItem::Terminator
    }
}

/// Items contain printable bytes only.
pub open spec fn wf_items(items: Seq<ScanItem>) -> bool {
    forall|i: int|
        0 <= i < items.len() ==> (#[trigger] items[i] matches ScanItem::Printable(b)
            ==> printable_scalar(b as int))
}

/// The decoded stream of a buffer in single-byte mode: every byte is
/// its own character, at its own index, and decoding never fails.
pub open spec fn ascii_items(bytes: Seq<u8>) -> Seq<ScanItem> {
    bytes.map_values(|b: u8| item_of_scalar(b as int))
}

/// Decodes a buffer in single-byte mode.
pub fn decode_ascii(f: &Vec<u8>) -> (items: Vec<ScanItem>)
    ensures
        items@ == ascii_items(f@),
{
    let mut items: Vec<ScanItem> = Vec::new();
    let mut i: usize = 0;
    while i < f.len()
        invariant
            i <= f@.len(),
            items@ == ascii_items(f@.take(i as int)),
        decreases f@.len() - i,
    {
        let b = f[i];
        if 0x21 <= b && b <= 0x7e {
            items.push(ScanItem::Printable(b));
        } else {
            items.push(ScanItem::Terminator);
        }
        i = i + 1;
        proof {
            assert(items@ =~= ascii_items(f@.take(i as int)));
        }
    }
    proof {
        assert(f@.take(f@.len() as int) =~= f@);
    }
    items
}

/// The 16-bit unit read from a byte pair under an encoding: each
/// 16-bit variant reads its pairs with its own fixed byte order
/// (`UTF16LE` takes the first byte as the high-order byte, the other
/// variants take the second); the two variants are deliberately
/// distinguished by these per-variant byte orders.
pub open spec fn spec_unit(enc: Encoding, b0: u8, b1: u8) -> u16 {
    match enc {
        Encoding::UTF16LE => ((b0 as int) * 0x100 + (b1 as int)) as u16,
        _ => ((b1 as int) * 0x100 + (b0 as int)) as u16,
    }
}

/// The unit sequence of a buffer: consecutive 2-byte pairs combined
/// under the encoding's byte order; a trailing odd byte is dropped.
pub open spec fn units_of(bytes: Seq<u8>, enc: Encoding) -> Seq<u16>
    decreases bytes.len(),
{
    if bytes.len() < 2 {
        Seq::empty()
    } else {
        seq![spec_unit(enc, bytes[0], bytes[1])] + units_of(bytes.skip(2), enc)
    }
}

/// Splits a buffer into 16-bit units under the encoding's byte order,
/// dropping a trailing odd byte.
pub fn units_from_bytes(f: &Vec<u8>, enc: Encoding) -> (units: Vec<u16>)
    ensures
        units@ == units_of(f@, enc),
{
    let mut units: Vec<u16> = Vec::new();
    let mut i: usize = 0;
    proof {
        assert(f@.skip(0) =~= f@);
    }
    while i < f.len() && i + 1 < f.len()
        invariant
            i <= f@.len(),
            units_of(f@, enc) == units@ + units_of(f@.skip(i as int), enc),
        decreases f@.len() - i,
    {
        let b0 = f[i];
        let b1 = f[i + 1];
        let u: u16 = match enc {
            Encoding::UTF16LE => (b0 as u16) * 0x100 + (b1 as u16),
            _ => (b1 as u16) * 0x100 + (b0 as u16),
        };
        proof {
            assert(f@.skip(i as int).len() >= 2);
            assert(f@.skip(i as int)[0] == f@[i as int]);
            assert(f@.skip(i as int)[1] == f@[i as int + 1]);
            assert(f@.skip(i as int).skip(2) =~= f@.skip(i as int + 2));
        }
        units.push(u);
        i = i + 2;
    }
    proof {
        assert(units_of(f@.skip(i as int), enc) =~= Seq::<u16>::empty());
        assert(units@ =~= units_of(f@, enc));
    }
    units
}

/// A 16-bit unit in the high-surrogate range.
pub open spec fn is_high_surrogate(u: u16) -> bool {
    0xd800 <= u <= 0xdbff
}

/// A 16-bit unit in the low-surrogate range.
pub open spec fn is_low_surrogate(u: u16) -> bool {
    0xdc00 <= u <= 0xdfff
}

/// The decoded stream of a 16-bit unit sequence: a non-surrogate unit
/// is its own scalar; a high surrogate followed by a low surrogate
/// combines into one supplementary scalar (one item for two units);
/// any unpaired surrogate is one malformed item, and decoding resumes
/// at the next unit.
pub open spec fn utf16_items(us: Seq<u16>) -> Seq<ScanItem>
    decreases us.len(),
{
    if us.len() == 0 {
        Seq::empty()
    } else if !is_high_surrogate(us[0]) && !is_low_surrogate(us[0]) {
        seq![item_of_scalar(us[0] as int)] + utf16_items(us.skip(1))
    } else if is_high_surrogate(us[0]) && us.len() >= 2 && is_low_surrogate(us[1]) {
        seq![
            item_of_scalar(0x10000 + (us[0] - 0xd800) * 0x400 + (us[1] - 0xdc00)),
        ] + utf16_items(us.skip(2))
    } else {
        seq![ScanItem::Malformed] + utf16_items(us.skip(1))
    }
}

/// Decodes a 16-bit unit sequence into scan items.
pub fn decode_utf16_units(units: &Vec<u16>) -> (items: Vec<ScanItem>)
    ensures
        items@ == utf16_items(units@),
{
    let mut items: Vec<ScanItem> = Vec::new();
    let mut i: usize = 0;
    proof {
        assert(units@.skip(0) =~= units@);
    }
    while i < units.len()
        invariant
            i <= units@.len(),
            utf16_items(units@) == items@ + utf16_items(units@.skip(i as int)),
        decreases units@.len() - i,
    {
        let u = units[i];
        proof {
            assert(units@.skip(i as int)[0] == units@[i as int]);
            assert(units@.skip(i as int).skip(1) =~= units@.skip(i as int + 1));
        }
        if u < 0xd800 || u > 0xdfff {
            if 0x21 <= u && u <= 0x7e {
                items.push(ScanItem::Printable(u as u8));
            } else {
                items.push(ScanItem::Terminator);
            }
            i = i + 1;
        } else if u <= 0xdbff && i + 1 < units.len() {
            let n = units[i + 1];
            if 0xdc00 <= n && n <= 0xdfff {
                proof {
                    assert(units@.skip(i as int)[1] == units@[i as int + 1]);
                    assert(units@.skip(i as int).skip(2) =~= units@.skip(i as int + 2));
                    assert((u - 0xd800) * 0x400 >= 0) by (nonlinear_arith)
                        requires
                            u >= 0xd800,
                    ;
                }
                items.push(ScanItem::Terminator);
                i = i + 2;
            } else {
                items.push(ScanItem::Malformed);
                i = i + 1;
            }
        } else {
            items.push(ScanItem::Malformed);
            i = i + 1;
        }
    }
    proof {
        assert(utf16_items(units@.skip(i as int)) =~= Seq::<ScanItem>::empty());
        assert(items@ =~= utf16_items(units@));
    }
    items
}

/// A buffer yields one 16-bit unit per full byte pair.
pub proof fn lemma_units_len(bytes: Seq<u8>, enc: Encoding)
    ensures
        units_of(bytes, enc).len() == bytes.len() / 2,
    decreases bytes.len(),
{
    if bytes.len() >= 2 {
        lemma_units_len(bytes.skip(2), enc);
    }
}

/// A 16-bit unit sequence decodes to at most one item per unit.
pub proof fn lemma_utf16_items_len(us: Seq<u16>)
    ensures
        utf16_items(us).len() <= us.len(),
    decreases us.len(),
{
    if us.len() == 0 {
    } else if !is_high_surrogate(us[0]) && !is_low_surrogate(us[0]) {
        lemma_utf16_items_len(us.skip(1));
    } else if is_high_surrogate(us[0]) && us.len() >= 2 && is_low_surrogate(us[1]) {
        lemma_utf16_items_len(us.skip(2));
    } else {
        lemma_utf16_items_len(us.skip(1));
    }
}

/// Single-byte decoding yields printable bytes only.
pub proof fn lemma_ascii_items_wf(bytes: Seq<u8>)
    ensures
        wf_items(ascii_items(bytes)),
{
}

/// 16-bit decoding yields printable bytes only.
pub proof fn lemma_utf16_items_wf(us: Seq<u16>)
    ensures
        wf_items(utf16_items(us)),
    decreases us.len(),
{
    if us.len() == 0 {
    } else if !is_high_surrogate(us[0]) && !is_low_surrogate(us[0]) {
        lemma_utf16_items_wf(us.skip(1));
    } else if is_high_surrogate(us[0]) && us.len() >= 2 && is_low_surrogate(us[1]) {
        lemma_utf16_items_wf(us.skip(2));
    } else {
        lemma_utf16_items_wf(us.skip(1));
    }
}

} // verus!
