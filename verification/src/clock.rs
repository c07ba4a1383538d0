//! Times in whole microseconds: how long a measure lasts, and when a placed
//! note sounds, counted from the start of its block.

use vstd::prelude::*;
use crate::bytes::{lemma_pow10_nine, pow10, Decimal};
use crate::timing::{
    all_within, before, even_slots, in_order, Barline, Track, TrackView,
};

verus! {

/// A tempo times ten to the power of its fraction digits: a whole number.
pub open spec fn tempo_units(t: Decimal) -> nat {
    t.whole as nat * pow10(t.fraction_digits as nat) + t.fraction as nat
}

/// Whether a measure has a length: its tempo is above zero and written with
/// at most nine fraction digits, and its denominator is not zero.
pub open spec fn has_length(b: Barline) -> bool {
    !b.tempo.negative && b.tempo.fraction_digits <= 9 && b.denominator > 0 && tempo_units(
        b.tempo,
    ) > 0
}

/// The length of a measure in microseconds, rounded down: sixty seconds by
/// the tempo, times four, times the numerator by the denominator.
pub open spec fn measure_length(b: Barline) -> nat {
    (240_000_000 * b.numerator as nat * pow10(b.tempo.fraction_digits as nat)) / (
    b.denominator as nat * tempo_units(b.tempo))
}

pub open spec fn measure_micros_of(b: Barline) -> Option<u64> {
    if has_length(b) && measure_length(b) <= u64::MAX {
        Some(measure_length(b) as u64)
    } else {
        None
    }
}

pub fn ten_to(n: u8) -> (r: u64)
    requires
        n <= 9,
    ensures
        r == pow10(n as nat),
        r <= 1_000_000_000,
{
    let mut r: u64 = 1;
    let mut k: u8 = 0;
    while k < n
        invariant
            k <= n <= 9,
            r == pow10(k as nat),
        decreases n - k,
    {
        proof {
            lemma_pow10_nine(k as nat);
        }
        r = r * 10;
        k += 1;
    }
    proof {
        lemma_pow10_nine(n as nat);
    }
    r
}

/// The length of a measure in microseconds, or `None` where it has none or
/// its length does not fit.
pub fn measure_micros(b: &Barline) -> (r: Option<u64>)
    ensures
        r == measure_micros_of(*b),
{
    if b.tempo.negative || b.tempo.fraction_digits > 9 || b.denominator == 0 {
        return None;
    }
    let p: u128 = ten_to(b.tempo.fraction_digits) as u128;
    let whole: u128 = b.tempo.whole as u128;
    let numerator: u128 = b.numerator as u128;
    let denominator: u128 = b.denominator as u128;
    assert(whole * p <= 0xFFFF_FFFF * 1_000_000_000) by (nonlinear_arith)
        requires
            whole <= 0xFFFF_FFFF,
            p <= 1_000_000_000,
    ;
    let units: u128 = whole * p + b.tempo.fraction as u128;
    if units == 0 {
        return None;
    }
    assert(240_000_000 * numerator <= 240_000_000 * 0xFFFF_FFFF) by (nonlinear_arith)
        requires
            numerator <= 0xFFFF_FFFF,
    ;
    let scaled: u128 = 240_000_000 * numerator;
    assert(scaled * p <= 240_000_000 * 0xFFFF_FFFF * 1_000_000_000) by (nonlinear_arith)
        requires
            scaled <= 240_000_000 * 0xFFFF_FFFF,
            p <= 1_000_000_000,
    ;
    let top: u128 = scaled * p;
    assert(denominator * units <= 0xFFFF_FFFF * (0xFFFF_FFFF * 1_000_000_000 + 0xFFFF_FFFF))
        by (nonlinear_arith)
        requires
            denominator <= 0xFFFF_FFFF,
            units <= 0xFFFF_FFFF * 1_000_000_000 + 0xFFFF_FFFF,
    ;
    assert(denominator * units > 0) by (nonlinear_arith)
        requires
            denominator > 0,
            units > 0,
    ;
    let bottom: u128 = denominator * units;
    let length: u128 = top / bottom;
    if length > u64::MAX as u128 {
        None
    } else {
        Some(length as u64)
    }
}

/// How far into a measure of length `length` its slot `slot` of `slots`
/// lies, rounded down.
pub open spec fn slot_offset(length: u64, slot: usize, slots: usize) -> nat {
    (length as nat * slot as nat) / (slots as nat)
}

pub fn slot_micros(length: u64, slot: usize, slots: usize) -> (r: u64)
    requires
        slot < slots,
    ensures
        r == slot_offset(length, slot, slots),
        r <= length,
{
    let a: u128 = length as u128;
    let b: u128 = slot as u128;
    let c: u128 = slots as u128;
    assert(a * b <= 0xFFFF_FFFF_FFFF_FFFF * 0xFFFF_FFFF_FFFF_FFFF) by (nonlinear_arith)
        requires
            a <= 0xFFFF_FFFF_FFFF_FFFF,
            b <= 0xFFFF_FFFF_FFFF_FFFF,
    ;
    assert((a * b) / (c as int) <= a) by (nonlinear_arith)
        requires
            0 <= b < c,
            0 <= a,
    ;
    ((a * b) / c) as u64
}

/// The time from the close of the first `from` measures to the close of the
/// first `to`: the sum of the lengths of the measures between. `None` where
/// one of them has no length or the sum does not fit.
pub open spec fn span_micros(barlines: Seq<Barline>, from: int, to: int) -> Option<u64>
    decreases to - from,
{
    if to <= from {
        Some(0)
    } else {
        match (span_micros(barlines, from, to - 1), measure_micros_of(barlines[to - 1])) {
            (Some(a), Some(b)) => if a + b <= u64::MAX {
                Some((a + b) as u64)
            } else {
                None
            },
            _ => None,
        }
    }
}

/// When the note at `i` sounds, counted from the start of its block: the
/// lengths of the block's measures before the note's own, and the note's
/// share `slot / slots` of its own measure.
pub open spec fn note_micros_of(t: TrackView, i: int) -> Option<u64> {
    let n = t.notes[i];
    if n.measure < t.barlines.len() && n.slot < n.slots && t.barlines[n.measure as int].origin
        <= n.measure {
        let b = t.barlines[n.measure as int];
        match (span_micros(t.barlines, b.origin as int, n.measure as int), measure_micros_of(b)) {
            (Some(start), Some(length)) => if start + slot_offset(length, n.slot, n.slots)
                <= u64::MAX {
                Some((start + slot_offset(length, n.slot, n.slots)) as u64)
            } else {
                None
            },
            _ => None,
        }
    } else {
        None
    }
}

/// The time between two barlines of a track in microseconds.
pub fn span_between(barlines: &Vec<Barline>, from: usize, to: usize) -> (r: Option<u64>)
    requires
        from <= to <= barlines@.len(),
    ensures
        r == span_micros(barlines@, from as int, to as int),
{
    let mut sum: u64 = 0;
    let mut m: usize = from;
    while m < to
        invariant
            from <= m <= to <= barlines@.len(),
            span_micros(barlines@, from as int, m as int) == Some(sum),
        decreases to - m,
    {
        match measure_micros(&barlines[m]) {
            Some(length) => {
                if length > u64::MAX - sum {
                    proof {
                        lemma_span_fails_on(barlines@, from as int, m + 1, to as int);
                    }
                    return None;
                }
                sum = sum + length;
            },
            None => {
                proof {
                    lemma_span_fails_on(barlines@, from as int, m + 1, to as int);
                }
                return None;
            },
        }
        m += 1;
    }
    Some(sum)
}

/// The time of the note at `i` in microseconds, or `None` where the note's
/// place is not one of the track, a measure before it has no length, or the
/// time does not fit.
pub fn note_micros(track: &Track, i: usize) -> (r: Option<u64>)
    requires
        i < track@.notes.len(),
    ensures
        r == note_micros_of(track@, i as int),
{
    let n = track.notes[i];
    if n.measure >= track.barlines.len() || n.slot >= n.slots {
        return None;
    }
    let b = track.barlines[n.measure];
    if b.origin > n.measure {
        return None;
    }
    match (span_between(&track.barlines, b.origin, n.measure), measure_micros(&b)) {
        (Some(start), Some(length)) => {
            let offset = slot_micros(length, n.slot, n.slots);
            if offset > u64::MAX - start {
                None
            } else {
                Some(start + offset)
            }
        },
        _ => None,
    }
}

/// When the barline at `m` stands, counted from the start of its block: at
/// the close of its measure.
pub open spec fn barline_micros_of(t: TrackView, m: int) -> Option<u64> {
    if t.barlines[m].origin <= m {
        span_micros(t.barlines, t.barlines[m].origin as int, m + 1)
    } else {
        None
    }
}

/// The time of the barline at `m` in microseconds, or `None` where its block
/// starts behind it, a measure has no length, or the time does not fit.
pub fn barline_micros(track: &Track, m: usize) -> (r: Option<u64>)
    requires
        m < track@.barlines.len(),
    ensures
        r == barline_micros_of(track@, m as int),
{
    let total = track.barlines.len();
    let origin = track.barlines[m].origin;
    if origin > m {
        return None;
    }
    assert(m < total);
    span_between(&track.barlines, origin, m + 1)
}

/// A span that has no time up to `mid` has none up to any later measure.
pub proof fn lemma_span_fails_on(barlines: Seq<Barline>, from: int, mid: int, to: int)
    requires
        from <= mid <= to,
        span_micros(barlines, from, mid) is None,
    ensures
        span_micros(barlines, from, to) is None,
    decreases to - mid,
{
    if mid < to {
        lemma_span_fails_on(barlines, from, mid, to - 1);
    }
}

/// A span that has a time has one up to every measure on the way, and no
/// later one.
pub proof fn lemma_span_grows(barlines: Seq<Barline>, from: int, mid: int, to: int)
    requires
        from <= mid <= to,
        span_micros(barlines, from, to) is Some,
    ensures
        span_micros(barlines, from, mid) is Some,
        span_micros(barlines, from, mid).unwrap() <= span_micros(barlines, from, to).unwrap(),
    decreases to - mid,
{
    if mid < to {
        lemma_span_grows(barlines, from, mid, to - 1);
    }
}

/// Within a measure a later slot lies no earlier, and every slot lies
/// within the measure's length.
pub proof fn lemma_slot_offset_grows(length: u64, first: usize, second: usize, slots: usize)
    requires
        first <= second < slots,
    ensures
        slot_offset(length, first, slots) <= slot_offset(length, second, slots) <= length,
{
    let l = length as int;
    let a = first as int;
    let b = second as int;
    let n = slots as int;
    assert((l * a) / n <= (l * b) / n && (l * b) / n <= l) by (nonlinear_arith)
        requires
            0 <= l,
            0 <= a <= b < n,
    ;
}

/// Of two notes of one block, the one that comes later in the track sounds
/// no earlier: the times of a block's notes never go back.
pub proof fn lemma_times_in_order(t: TrackView, i: int, j: int)
    requires
        0 <= i < j < t.notes.len(),
        in_order(t.notes),
        all_within(t.notes, t.barlines.len() as int),
        even_slots(t.notes),
        t.barlines[t.notes[i].measure as int].origin == t.barlines[t.notes[j].measure as int].origin,
        note_micros_of(t, i) is Some,
        note_micros_of(t, j) is Some,
    ensures
        note_micros_of(t, i).unwrap() <= note_micros_of(t, j).unwrap(),
{
    let a = t.notes[i];
    let b = t.notes[j];
    let origin = t.barlines[a.measure as int].origin as int;
    assert(before(a, b));
    assert(a.slot < a.slots && b.slot < b.slots);
    if a.measure == b.measure {
        assert(a.slots == b.slots);
        let length = measure_micros_of(t.barlines[a.measure as int]).unwrap();
        lemma_slot_offset_grows(length, a.slot, b.slot, a.slots);
    } else {
        let length = measure_micros_of(t.barlines[a.measure as int]).unwrap();
        lemma_slot_offset_grows(length, a.slot, a.slot, a.slots);
        lemma_span_grows(t.barlines, origin, a.measure + 1, b.measure as int);
    }
}

/// The numerator of a measure's exact length in microseconds.
pub open spec fn length_over(b: Barline) -> int {
    240_000_000 * b.numerator * pow10(b.tempo.fraction_digits as nat)
}

/// The denominator of a measure's exact length in microseconds.
pub open spec fn length_under(b: Barline) -> int {
    b.denominator * tempo_units(b.tempo)
}

/// Two measures of one tempo last as their fractions say: the length of the
/// one, taken `c` times over `d`, is the length of the other taken `a` times
/// over `b`, where the one is a measure of `a / b` and the other of
/// `c / d`. The lengths here are exact, as fractions of `length_over` over
/// `length_under` microseconds.
pub proof fn lemma_lengths_in_proportion(x: Barline, y: Barline)
    requires
        x.tempo == y.tempo,
    ensures
        length_over(x) * length_under(y) * (y.numerator * x.denominator) == length_over(y)
            * length_under(x) * (x.numerator * y.denominator),
{
    let p = pow10(x.tempo.fraction_digits as nat) as int;
    let u = tempo_units(x.tempo) as int;
    let a = x.numerator as int;
    let b = x.denominator as int;
    let c = y.numerator as int;
    let d = y.denominator as int;
    assert((240_000_000 * a * p) * (d * u) * (c * b) == (240_000_000 * c * p) * (b * u) * (a
        * d)) by (nonlinear_arith);
}

} // verus!
