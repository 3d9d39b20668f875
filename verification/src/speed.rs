//! How a throughput is written: with which unit, divided by what, to how many decimals.
use crate::reading::{lemma_exact_constants, lemma_order_by_bits, unit, Reading, GIGA, KILO, MEGA};
use vstd::prelude::*;
use vstd::string::StringExecFns;

verus! {

/// Unit that a throughput is written in.
#[derive(Clone, Copy, Debug, PartialEq, Eq, Structural)]
pub enum SpeedUnit {
    /// Bytes a second.
    Bytes,
    /// 1024 bytes a second.
    Kilo,
    /// 1024 * 1024 bytes a second.
    Mega,
    /// 1024 * 1024 * 1024 bytes a second.
    Giga,
}

/// How to write a throughput.
#[derive(Clone, Copy, Debug, PartialEq, Eq, Structural)]
pub struct SpeedFormat {
    /// What the number is divided by before it is written.
    pub divisor: u64,
    /// Digits after the decimal point.
    pub decimals: usize,
    /// Unit after the number.
    pub unit: SpeedUnit,
}

/// What follows the number.
pub open spec fn unit_suffix(unit: SpeedUnit) -> Seq<char> {
    match unit {
        SpeedUnit::Bytes => " B/s"@,
        SpeedUnit::Kilo => " KB/s"@,
        SpeedUnit::Mega => " MB/s"@,
        SpeedUnit::Giga => " GB/s"@,
    }
}

/// How a number of kilobytes a second is written: whole kilobytes up to 1024 of them, then
/// megabytes and gigabytes to one decimal.
pub open spec fn auto_format(kbps: Reading) -> SpeedFormat {
    if kbps.less(Reading { bits: KILO }) {
        SpeedFormat { divisor: 1, decimals: 0, unit: SpeedUnit::Kilo }
    } else if kbps.less(Reading { bits: MEGA }) {
        SpeedFormat { divisor: 1024, decimals: 1, unit: SpeedUnit::Mega }
    } else {
        SpeedFormat { divisor: 1048576, decimals: 1, unit: SpeedUnit::Giga }
    }
}

/// How a number of bytes a second is written: in the largest unit that it fills.
pub open spec fn bytes_format(bps: Reading) -> SpeedFormat {
    if (Reading { bits: GIGA }).less_eq(bps) {
        SpeedFormat { divisor: 1073741824, decimals: 2, unit: SpeedUnit::Giga }
    } else if (Reading { bits: MEGA }).less_eq(bps) {
        SpeedFormat { divisor: 1048576, decimals: 2, unit: SpeedUnit::Mega }
    } else if (Reading { bits: KILO }).less_eq(bps) {
        SpeedFormat { divisor: 1024, decimals: 1, unit: SpeedUnit::Kilo }
    } else {
        SpeedFormat { divisor: 1, decimals: 0, unit: SpeedUnit::Bytes }
    }
}

/// How to write a number of kilobytes a second on the tray and the overlay.
pub fn format_speed_auto(kbps: Reading) -> (r: SpeedFormat)
    ensures
        r == auto_format(kbps),
{
    if kbps.less_than(Reading { bits: KILO }) {
        SpeedFormat { divisor: 1, decimals: 0, unit: SpeedUnit::Kilo }
    } else if kbps.less_than(Reading { bits: MEGA }) {
        SpeedFormat { divisor: 1024, decimals: 1, unit: SpeedUnit::Mega }
    } else {
        SpeedFormat { divisor: 1048576, decimals: 1, unit: SpeedUnit::Giga }
    }
}

/// How to write a number of bytes a second on the serial line.
pub fn format_speed_bytes(bps: Reading) -> (r: SpeedFormat)
    ensures
        r == bytes_format(bps),
{
    if (Reading { bits: GIGA }).at_most(bps) {
        SpeedFormat { divisor: 1073741824, decimals: 2, unit: SpeedUnit::Giga }
    } else if (Reading { bits: MEGA }).at_most(bps) {
        SpeedFormat { divisor: 1048576, decimals: 2, unit: SpeedUnit::Mega }
    } else if (Reading { bits: KILO }).at_most(bps) {
        SpeedFormat { divisor: 1024, decimals: 1, unit: SpeedUnit::Kilo }
    } else {
        SpeedFormat { divisor: 1, decimals: 0, unit: SpeedUnit::Bytes }
    }
}

/// The written throughput: the number, divided and rounded as the format says, and the unit.
pub fn speed_text(number: &str, unit: SpeedUnit) -> (r: String)
    ensures
        r@ == number@ + unit_suffix(unit),
{
    let mut r = number.to_owned();
    match unit {
        SpeedUnit::Bytes => r.append(" B/s"),
        SpeedUnit::Kilo => r.append(" KB/s"),
        SpeedUnit::Mega => r.append(" MB/s"),
        SpeedUnit::Giga => r.append(" GB/s"),
    }
    r
}

/// How many bytes a second one of a unit is.
pub open spec fn unit_bytes(unit: SpeedUnit) -> int {
    match unit {
        SpeedUnit::Bytes => 1,
        SpeedUnit::Kilo => 1024,
        SpeedUnit::Mega => 1048576,
        SpeedUnit::Giga => 1073741824,
    }
}

/// A written throughput is never empty, and holds no comma and no line end unless its number does.
pub proof fn lemma_speed_text_plain(number: Seq<char>, unit: SpeedUnit, c: char)
    requires
        c == ',' || c == '\n',
        !number.contains(c),
    ensures
        (number + unit_suffix(unit)).len() > 0,
        !(number + unit_suffix(unit)).contains(c),
{
    reveal_strlit(" B/s");
    reveal_strlit(" KB/s");
    reveal_strlit(" MB/s");
    reveal_strlit(" GB/s");
    let suffix = unit_suffix(unit);
    let text = number + suffix;
    if text.contains(c) {
        let i = choose|i: int| 0 <= i < text.len() && text[i] == c;
        if i < number.len() {
            assert(number[i] == c);
        } else {
            assert(suffix[i - number.len()] == c);
        }
    }
}

/// The number written is the throughput: the divisor leads from the unit measured in, which is
/// 1024 bytes for one form and one byte for the other, to the unit written.
pub proof fn lemma_divisor_fits_unit(x: Reading)
    ensures
        1024 * auto_format(x).divisor == unit_bytes(auto_format(x).unit),
        bytes_format(x).divisor == unit_bytes(bytes_format(x).unit),
{
}

/// A throughput is written in the largest unit that it fills: what is written in another than the
/// smallest unit is at least one of it, and under 1024 of it unless there is no larger one.
pub proof fn lemma_unit_is_filled(x: Reading)
    requires
        !x.nan(),
    ensures
        auto_format(x).unit != SpeedUnit::Kilo ==> auto_format(x).divisor * unit() <= x.value(),
        auto_format(x).unit != SpeedUnit::Giga ==> x.value() < 1024 * auto_format(x).divisor * unit(),
        bytes_format(x).unit != SpeedUnit::Bytes ==> bytes_format(x).divisor * unit() <= x.value(),
        bytes_format(x).unit != SpeedUnit::Giga ==> x.value() < 1024 * bytes_format(x).divisor
            * unit(),
{
    lemma_exact_constants();
    crate::reading::lemma_constants_are_numbers();
}

/// How a number of kilobytes a second is written, read off its bits: under 1024 and for negative
/// ones whole kilobytes, under 1024 * 1024 megabytes, and else gigabytes.
pub proof fn lemma_auto_format_by_bits(x: Reading)
    ensures
        x.bits < 0x4090_0000_0000_0000 || 0x8000_0000_0000_0000 <= x.bits <= 0xFFF0_0000_0000_0000
            ==> auto_format(x).divisor == 1 && auto_format(x).decimals == 0 && auto_format(x).unit
            == SpeedUnit::Kilo,
        0x4090_0000_0000_0000 <= x.bits < 0x4130_0000_0000_0000 ==> auto_format(x).divisor == 1024
            && auto_format(x).decimals == 1 && auto_format(x).unit == SpeedUnit::Mega,
        0x4130_0000_0000_0000 <= x.bits < 0x8000_0000_0000_0000 || 0xFFF0_0000_0000_0000 < x.bits
            ==> auto_format(x).divisor == 1048576 && auto_format(x).decimals == 1 && auto_format(
            x,
        ).unit == SpeedUnit::Giga,
{
    lemma_order_by_bits(x, Reading { bits: KILO });
    lemma_order_by_bits(x, Reading { bits: MEGA });
}

/// How a number of bytes a second is written, read off its bits: in gigabytes from 1024 megabytes
/// on, in megabytes from 1024 kilobytes on, in kilobytes from 1024 bytes on, and else, as for
/// negative ones and what is no number, in bytes.
pub proof fn lemma_bytes_format_by_bits(x: Reading)
    ensures
        0x41D0_0000_0000_0000 <= x.bits <= 0x7FF0_0000_0000_0000 ==> bytes_format(x).divisor
            == 1073741824 && bytes_format(x).decimals == 2 && bytes_format(x).unit
            == SpeedUnit::Giga,
        0x4130_0000_0000_0000 <= x.bits < 0x41D0_0000_0000_0000 ==> bytes_format(x).divisor
            == 1048576 && bytes_format(x).decimals == 2 && bytes_format(x).unit == SpeedUnit::Mega,
        0x4090_0000_0000_0000 <= x.bits < 0x4130_0000_0000_0000 ==> bytes_format(x).divisor == 1024
            && bytes_format(x).decimals == 1 && bytes_format(x).unit == SpeedUnit::Kilo,
        x.bits < 0x4090_0000_0000_0000 || 0x7FF0_0000_0000_0000 < x.bits ==> bytes_format(
            x,
        ).divisor == 1 && bytes_format(x).decimals == 0 && bytes_format(x).unit == SpeedUnit::Bytes,
{
    lemma_order_by_bits(Reading { bits: GIGA }, x);
    lemma_order_by_bits(Reading { bits: MEGA }, x);
    lemma_order_by_bits(Reading { bits: KILO }, x);
}

/// What follows the number, character by character: a space, the letter of the unit where it has
/// one, and `B/s`.
pub proof fn lemma_suffix_spelled(unit: SpeedUnit)
    ensures
        unit == SpeedUnit::Bytes ==> unit_suffix(unit) == seq![' ', 'B', '/', 's'],
        unit == SpeedUnit::Kilo ==> unit_suffix(unit) == seq![' ', 'K', 'B', '/', 's'],
        unit == SpeedUnit::Mega ==> unit_suffix(unit) == seq![' ', 'M', 'B', '/', 's'],
        unit == SpeedUnit::Giga ==> unit_suffix(unit) == seq![' ', 'G', 'B', '/', 's'],
{
    reveal_strlit(" B/s");
    reveal_strlit(" KB/s");
    reveal_strlit(" MB/s");
    reveal_strlit(" GB/s");
}

} // verus!
