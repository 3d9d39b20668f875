//! The scale that a throughput is measured against: its recent peak, which fades.
use crate::reading::{Reading, FADING, MILLIONTH, ONE, ZERO};
use vstd::prelude::*;

verus! {

/// A maximum that fades from one reading to the next.
#[derive(Clone, Copy, Debug, PartialEq, Eq, Structural)]
pub struct RollingMax {
    /// The scale after the last reading.
    pub val: Reading,
}

/// The larger of the scale and the current reading, before it fades.
pub open spec fn peak_of(val: Reading, current: Reading) -> Reading {
    if val.less(current) {
        current
    } else {
        val
    }
}

/// The scale after a reading, given the faded peak: never under the reading, and one where it
/// would all but vanish.
pub open spec fn settled(faded: Reading, current: Reading) -> Reading {
    let scale = if faded.less(current) {
        current
    } else {
        faded
    };
    if scale.less_eq(Reading { bits: MILLIONTH }) {
        Reading { bits: ONE }
    } else {
        scale
    }
}

impl Default for RollingMax {
    fn default() -> (r: RollingMax)
        ensures
            r.val == (Reading { bits: ZERO }),
    {
        RollingMax { val: Reading { bits: ZERO } }
    }
}

impl RollingMax {
    /// What is to fade when `current` comes in: the scale, or the reading where that is larger.
    pub fn peak(&self, current: Reading) -> (r: Reading)
        ensures
            r == peak_of(self.val, current),
    {
        if self.val.less_than(current) {
            current
        } else {
            self.val
        }
    }

    /// Takes in a reading and gives the scale to measure it against. `faded` is
    /// [`peak`](RollingMax::peak) of the same reading, multiplied by
    /// [`FADING`](crate::reading::FADING).
    pub fn update(&mut self, current: Reading, faded: Reading) -> (r: Reading)
        ensures
            r == settled(faded, current),
            final(self).val == r,
    {
        self.val = faded;
        if self.val.less_than(current) {
            self.val = current;
        }
        if self.val.at_most(Reading { bits: MILLIONTH }) {
            self.val = Reading { bits: ONE };
        }
        self.val
    }
}

/// The scale is a number above a millionth, finite where peak and reading are, and no reading
/// exceeds the scale it is measured against.
pub proof fn lemma_scale_covers_reading(faded: Reading, current: Reading)
    requires
        !faded.nan(),
        !current.nan(),
    ensures
        !settled(faded, current).nan(),
        settled(faded, current).value() > 0,
        (Reading { bits: MILLIONTH }).less(settled(faded, current)),
        faded.finite() && current.finite() ==> settled(faded, current).finite(),
        current.less_eq(settled(faded, current)),
{
    crate::reading::lemma_exact_constants();
    crate::reading::lemma_rank_orders(Reading { bits: MILLIONTH }, Reading { bits: ONE });
    crate::reading::lemma_rank_orders(Reading { bits: ZERO }, Reading { bits: MILLIONTH });
}

/// The scale falls no faster than the factor makes it: it is at least the faded peak, and exactly
/// the faded peak while that exceeds both the reading and a millionth.
pub proof fn lemma_scale_fades(faded: Reading, current: Reading)
    requires
        !faded.nan(),
        !current.nan(),
    ensures
        faded.less_eq(settled(faded, current)),
        current.less_eq(faded) && (Reading { bits: MILLIONTH }).less(faded) ==> settled(
            faded,
            current,
        ) == faded,
{
    crate::reading::lemma_rank_orders(Reading { bits: MILLIONTH }, Reading { bits: ONE });
}

/// The scale falls by the fading alone: it is at least the old scale faded. So it is of any fading
/// that keeps the order of finite numbers and leaves them finite, as a rounded product with a
/// factor from zero to one does.
pub proof fn lemma_scale_falls_by_fading_alone(
    val: Reading,
    current: Reading,
    fade: spec_fn(Reading) -> Reading,
)
    requires
        val.finite(),
        current.finite(),
        forall|a: Reading| #![trigger fade(a)] a.finite() ==> fade(a).finite(),
        forall|a: Reading, b: Reading|
            #![trigger fade(a), fade(b)]
            a.finite() && b.finite() && a.less_eq(b) ==> fade(a).less_eq(fade(b)),
    ensures
        fade(val).less_eq(settled(fade(peak_of(val, current)), current)),
        current.less_eq(settled(fade(peak_of(val, current)), current)),
        settled(fade(peak_of(val, current)), current).finite(),
        (Reading { bits: MILLIONTH }).less(settled(fade(peak_of(val, current)), current)),
{
    let peak = peak_of(val, current);
    lemma_peak_is_larger(val, current);
    lemma_scale_covers_reading(fade(peak), current);
    lemma_scale_fades(fade(peak), current);
}

/// The fading factor lies between zero and one.
pub proof fn lemma_fading_factor()
    ensures
        (Reading { bits: ZERO }).less(Reading { bits: FADING }),
        (Reading { bits: FADING }).less(Reading { bits: ONE }),
{
    crate::reading::lemma_constants_are_numbers();
    crate::reading::lemma_rank_orders(Reading { bits: ZERO }, Reading { bits: FADING });
    crate::reading::lemma_rank_orders(Reading { bits: FADING }, Reading { bits: ONE });
}

/// Neither scale nor reading can push the next peak below what it was.
pub proof fn lemma_peak_is_larger(val: Reading, current: Reading)
    requires
        !val.nan(),
        !current.nan(),
    ensures
        val.less_eq(peak_of(val, current)),
        current.less_eq(peak_of(val, current)),
        peak_of(val, current) == val || peak_of(val, current) == current,
{
}

/// Of two numbers without the sign the peak is the one with the larger bits; a scale that is no
/// number stays, and a reading that is none leaves the scale as it is.
pub proof fn lemma_peak_by_bits(val: Reading, current: Reading)
    ensures
        val.bits <= current.bits <= 0x7FF0_0000_0000_0000 ==> peak_of(val, current) == current,
        current.bits <= val.bits <= 0x7FF0_0000_0000_0000 ==> peak_of(val, current) == val,
        current.less_eq(val) ==> peak_of(val, current) == val,
        val.less(current) ==> peak_of(val, current) == current,
        val.nan() || current.nan() ==> peak_of(val, current) == val,
{
    crate::reading::lemma_order_by_bits(val, current);
}

/// The scale that is settled on: one where neither the faded peak nor the reading is above a
/// millionth, and else the larger of them. Where the reading is no number, the faded peak decides
/// alone; a faded peak that is no number stays.
pub proof fn lemma_settled_is_exact(faded: Reading, current: Reading)
    ensures
        !faded.nan() && !current.nan() && faded.less_eq(Reading { bits: MILLIONTH })
            && current.less_eq(Reading { bits: MILLIONTH }) ==> settled(faded, current).bits
            == 0x3FF0_0000_0000_0000,
        faded.less(current) && (Reading { bits: MILLIONTH }).less(current) ==> settled(
            faded,
            current,
        ) == current,
        current.less_eq(faded) && (Reading { bits: MILLIONTH }).less(faded) ==> settled(
            faded,
            current,
        ) == faded,
        current.nan() && (Reading { bits: MILLIONTH }).less(faded) ==> settled(faded, current)
            == faded,
        current.nan() && faded.less_eq(Reading { bits: MILLIONTH }) ==> settled(
            faded,
            current,
        ).bits == 0x3FF0_0000_0000_0000,
        faded.nan() ==> settled(faded, current) == faded,
{
}

/// The settled scale read off the bits of numbers without the sign.
pub proof fn lemma_settled_by_bits(faded: Reading, current: Reading)
    requires
        faded.bits <= 0x7FF0_0000_0000_0000,
        current.bits <= 0x7FF0_0000_0000_0000,
    ensures
        faded.bits <= 0x3EB0_C6F7_A0B5_ED8D && current.bits <= 0x3EB0_C6F7_A0B5_ED8D ==> settled(
            faded,
            current,
        ).bits == 0x3FF0_0000_0000_0000,
        0x3EB0_C6F7_A0B5_ED8D < faded.bits && current.bits <= faded.bits ==> settled(
            faded,
            current,
        ).bits == faded.bits,
        0x3EB0_C6F7_A0B5_ED8D < current.bits && faded.bits <= current.bits ==> settled(
            faded,
            current,
        ).bits == current.bits,
{
    crate::reading::lemma_order_by_bits(faded, current);
    crate::reading::lemma_order_by_bits(faded, Reading { bits: MILLIONTH });
    crate::reading::lemma_order_by_bits(current, Reading { bits: MILLIONTH });
}

} // verus!
