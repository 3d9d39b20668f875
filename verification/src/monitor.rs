//! The rounds of measurement.
//!
//! A [`Monitor`] holds what one round hands to the next. Each of its methods takes in what has just
//! been measured or computed and says what is to be done next, in this order: the waiting command,
//! the clock, the counters, the rates, the fading of the scales, the connected network, the report.
use crate::counters::{diff_disk, diff_network, growth, DiskBytes, NetBytes};
use crate::metrics::Metrics;
use crate::reading::{
    lemma_constants_are_numbers, lemma_exact_constants, lemma_kinds_by_bits, lemma_order_by_bits,
    lemma_rank_orders, Reading, FOUR, HUNDRED, MILLIONTH, QUARTER, TENTH, THOUSANDTH, ZERO,
};
use crate::rolling::{lemma_scale_covers_reading, peak_of, settled, RollingMax};
use vstd::prelude::*;

verus! {

/// What the monitor can be told to do.
#[derive(Clone, Copy, Debug, PartialEq, Eq, Structural)]
pub enum MonitorCmd {
    /// Count on from here, and forget the scales.
    ResetDiffs,
}

/// Nanoseconds for which what is known of the connected network stays good.
pub const PROFILE_LIFE: u128 = 60_000_000_000;

/// What one round of measurement hands to the next. Times are nanoseconds on one clock.
#[derive(Debug)]
pub struct Monitor {
    /// Index of the interface that is watched; zero for none.
    pub active_if_index: u32,
    /// The connected network.
    pub net_info: String,
    /// Counters of the interface at the end of the last round.
    pub prev_net: NetBytes,
    /// Counters of the disks at the end of the last round.
    pub prev_disk: DiskBytes,
    /// Scale of the disk throughput.
    pub max_disk_mbps: RollingMax,
    /// Scale of the network throughput.
    pub max_net_kbps: RollingMax,
    /// When the last round was measured.
    pub last: u128,
    /// When the connected network was last asked for.
    pub last_net_info_check: u128,
}

/// Bytes that passed in a round; none where no time did.
#[derive(Clone, Copy, Debug, PartialEq, Eq)]
pub struct Traffic {
    /// Bytes received and sent.
    pub net: Option<(u64, u64)>,
    /// Bytes read and written.
    pub disk: Option<(u64, u64)>,
}

/// Throughput in a round.
#[derive(Clone, Copy, Debug, PartialEq, Eq, Structural)]
pub struct Rates {
    /// Megabytes read from disk in a second.
    pub disk_r_mbps: Reading,
    /// Megabytes written to disk in a second.
    pub disk_w_mbps: Reading,
    /// Megabytes read and written in a second.
    pub disk_mbps: Reading,
    /// Kilobytes received and sent in a second.
    pub net_kbps: Reading,
}

/// The peaks of disk and network that are to fade.
#[derive(Clone, Copy, Debug, PartialEq, Eq, Structural)]
pub struct Scales {
    /// For the disk.
    pub disk: Reading,
    /// For the network.
    pub net: Reading,
}

/// A rate without noise: what is finite and under `least` counts as none.
pub open spec fn quieted(rate: Reading, least: Reading) -> Reading {
    if rate.finite() && rate.less(least) {
        Reading { bits: ZERO }
    } else {
        rate
    }
}

/// Whether a rate is zero or at least `least`, and finite.
pub open spec fn zero_or_loud(rate: Reading, least: Reading) -> bool {
    rate.finite() && (rate.bits == ZERO || least.less_eq(rate))
}

/// The rates of a round without noise.
pub open spec fn quieted_rates(raw: Rates) -> Rates {
    Rates {
        disk_r_mbps: quieted(raw.disk_r_mbps, Reading { bits: THOUSANDTH }),
        disk_w_mbps: quieted(raw.disk_w_mbps, Reading { bits: THOUSANDTH }),
        disk_mbps: quieted(raw.disk_mbps, Reading { bits: THOUSANDTH }),
        net_kbps: quieted(raw.net_kbps, Reading { bits: TENTH }),
    }
}

/// What a disk rate adds to its scale: at least a quarter of a megabyte.
pub open spec fn disk_mark(rates: Rates) -> Reading {
    rates.disk_mbps.raised(Reading { bits: QUARTER })
}

/// What a network rate adds to its scale: at least four kilobytes.
pub open spec fn net_mark(rates: Rates) -> Reading {
    rates.net_kbps.raised(Reading { bits: FOUR })
}

/// A share in percent, brought into `0 ..= 100`.
pub open spec fn bounded_share(share: Reading) -> Reading {
    share.clamped(Reading { bits: ZERO }, Reading { bits: HUNDRED })
}

/// What passed between two states of the counters, where that took a positive time.
pub open spec fn traffic_of(
    prev_net: NetBytes,
    prev_disk: DiskBytes,
    net: NetBytes,
    disk: DiskBytes,
    dt: Reading,
) -> Traffic {
    if (Reading { bits: ZERO }).less(dt) {
        Traffic {
            net: Some((growth(prev_net.rx, net.rx), growth(prev_net.tx, net.tx))),
            disk: Some((growth(prev_disk.read, disk.read), growth(prev_disk.write, disk.write))),
        }
    } else {
        Traffic { net: None, disk: None }
    }
}

/// Time between two readings of the clock; none where it went back.
pub open spec fn elapsed(since: u128, now: u128) -> u128 {
    if now > since {
        (now - since) as u128
    } else {
        0
    }
}

/// The memory in use and all there is, to divide one by the other; nothing where there is none.
pub fn memory_fraction(used: u64, total: u64) -> (r: Option<(u64, u64)>)
    ensures
        r == (if total > 0 {
            Some((used, total))
        } else {
            None
        }),
{
    if total > 0 {
        Some((used, total))
    } else {
        None
    }
}

/// The length of a round, in seconds, to divide by: at least a thousandth.
pub fn interval(seconds: Reading) -> (r: Reading)
    ensures
        r == seconds.raised(Reading { bits: THOUSANDTH }),
        r.bits == (if 0x3F50_624D_D2F1_A9FC <= seconds.bits <= 0x7FF0_0000_0000_0000 {
            seconds.bits
        } else {
            0x3F50_624D_D2F1_A9FC
        }),
{
    proof {
        lemma_order_by_bits(seconds, Reading { bits: THOUSANDTH });
        lemma_kinds_by_bits(seconds);
        lemma_constants_are_numbers();
        lemma_rank_orders(Reading { bits: ZERO }, Reading { bits: THOUSANDTH });
    }
    seconds.at_least(Reading { bits: THOUSANDTH })
}

/// Takes the noise out of a rate.
fn quiet(rate: Reading, least: Reading) -> (r: Reading)
    ensures
        r == quieted(rate, least),
{
    if rate.is_finite() && rate.less_than(least) {
        Reading { bits: ZERO }
    } else {
        rate
    }
}

/// Takes the noise out of the rates of a round.
pub fn quiet_rates(raw: Rates) -> (r: Rates)
    ensures
        r == quieted_rates(raw),
{
    Rates {
        disk_r_mbps: quiet(raw.disk_r_mbps, Reading { bits: THOUSANDTH }),
        disk_w_mbps: quiet(raw.disk_w_mbps, Reading { bits: THOUSANDTH }),
        disk_mbps: quiet(raw.disk_mbps, Reading { bits: THOUSANDTH }),
        net_kbps: quiet(raw.net_kbps, Reading { bits: TENTH }),
    }
}

/// Brings a share in percent into `0 ..= 100`.
pub fn bound_share(share: Reading) -> (r: Reading)
    ensures
        r == bounded_share(share),
{
    proof {
        lemma_exact_constants();
        lemma_constants_are_numbers();
    }
    share.clamp(Reading { bits: ZERO }, Reading { bits: HUNDRED })
}

/// The floor of the disk scale.
fn mark_disk(rates: &Rates) -> (r: Reading)
    ensures
        r == disk_mark(*rates),
{
    proof {
        lemma_constants_are_numbers();
        lemma_rank_orders(Reading { bits: ZERO }, Reading { bits: QUARTER });
    }
    rates.disk_mbps.at_least(Reading { bits: QUARTER })
}

/// The floor of the network scale.
fn mark_net(rates: &Rates) -> (r: Reading)
    ensures
        r == net_mark(*rates),
{
    proof {
        lemma_constants_are_numbers();
        lemma_rank_orders(Reading { bits: ZERO }, Reading { bits: FOUR });
    }
    rates.net_kbps.at_least(Reading { bits: FOUR })
}

impl Monitor {
    /// The state before the first round.
    pub fn start(
        profile: (u32, String),
        net: NetBytes,
        disk: DiskBytes,
        now: u128,
        checked: u128,
    ) -> (r: Monitor)
        ensures
            r.active_if_index == profile.0,
            r.net_info == profile.1,
            r.prev_net == net,
            r.prev_disk == disk,
            r.max_disk_mbps.val.bits == ZERO,
            r.max_net_kbps.val.bits == ZERO,
            r.last == now,
            r.last_net_info_check == checked,
    {
        Monitor {
            active_if_index: profile.0,
            net_info: profile.1,
            prev_net: net,
            prev_disk: disk,
            max_disk_mbps: RollingMax::default(),
            max_net_kbps: RollingMax::default(),
            last: now,
            last_net_info_check: checked,
        }
    }

    /// Opens a round: on a command, names the interface whose counters are to be read, with those
    /// of the disks, for [`rebase`](Monitor::rebase).
    pub fn begin(&self, cmd: Option<MonitorCmd>) -> (r: Option<u32>)
        ensures
            r == match cmd {
                Some(MonitorCmd::ResetDiffs) => Some(self.active_if_index),
                None => None,
            },
    {
        match cmd {
            Some(MonitorCmd::ResetDiffs) => Some(self.active_if_index),
            None => None,
        }
    }

    /// Counts on from the given counters and time, and forgets the scales.
    pub fn rebase(&mut self, net: NetBytes, disk: DiskBytes, now: u128)
        ensures
            final(self).max_disk_mbps.val.bits == ZERO,
            final(self).max_net_kbps.val.bits == ZERO,
            *final(self) == (Monitor {
                prev_net: net,
                prev_disk: disk,
                max_disk_mbps: final(self).max_disk_mbps,
                max_net_kbps: final(self).max_net_kbps,
                last: now,
                ..*old(self)
            }),
    {
        self.prev_net = net;
        self.prev_disk = disk;
        self.max_disk_mbps = RollingMax::default();
        self.max_net_kbps = RollingMax::default();
        self.last = now;
    }

    /// Takes in the time, and gives the nanoseconds that the round lasted.
    pub fn clock(&mut self, now: u128) -> (r: u128)
        ensures
            r == elapsed(old(self).last, now),
            old(self).last <= now ==> old(self).last + r == now,
            now < old(self).last ==> r == 0,
            *final(self) == (Monitor { last: now, ..*old(self) }),
    {
        let since: u128 = self.last;
        self.last = now;
        if now > since {
            now - since
        } else {
            0
        }
    }

    /// Takes in the counters, and gives what passed in the round. `dt` is its length, as
    /// [`interval`] gives it.
    pub fn count(&mut self, net: NetBytes, disk: DiskBytes, dt: Reading) -> (r: Traffic)
        ensures
            r == traffic_of(old(self).prev_net, old(self).prev_disk, net, disk, dt),
            *final(self) == (Monitor { prev_net: net, prev_disk: disk, ..*old(self) }),
    {
        let (net_traffic, prev_net) = diff_network(self.prev_net, net, dt);
        let (disk_traffic, prev_disk) = diff_disk(self.prev_disk, disk, dt);
        self.prev_net = prev_net;
        self.prev_disk = prev_disk;
        Traffic { net: net_traffic, disk: disk_traffic }
    }

    /// Takes in the rates, free of noise, and gives the peaks that are to fade.
    pub fn peaks(&self, rates: &Rates) -> (r: Scales)
        ensures
            r.disk == peak_of(self.max_disk_mbps.val, disk_mark(*rates)),
            r.net == peak_of(self.max_net_kbps.val, net_mark(*rates)),
    {
        Scales {
            disk: self.max_disk_mbps.peak(mark_disk(rates)),
            net: self.max_net_kbps.peak(mark_net(rates)),
        }
    }

    /// Takes in the faded peaks, and gives the scales to measure the rates against.
    pub fn scales(&mut self, rates: &Rates, faded: &Scales) -> (r: Scales)
        ensures
            r.disk == settled(faded.disk, disk_mark(*rates)),
            r.net == settled(faded.net, net_mark(*rates)),
            *final(self) == (Monitor {
                max_disk_mbps: RollingMax { val: r.disk },
                max_net_kbps: RollingMax { val: r.net },
                ..*old(self)
            }),
    {
        let disk = self.max_disk_mbps.update(mark_disk(rates), faded.disk);
        let net = self.max_net_kbps.update(mark_net(rates), faded.net);
        Scales { disk, net }
    }

    /// Whether the connected network is to be asked for again.
    pub fn profile_due(&self, now: u128) -> (r: bool)
        ensures
            r == (elapsed(self.last_net_info_check, now) > PROFILE_LIFE),
            r == (now > self.last_net_info_check + 60_000_000_000),
    {
        now > self.last_net_info_check && now - self.last_net_info_check > PROFILE_LIFE
    }

    /// Takes in the connected network. Where it is reached over another interface, names that
    /// interface, whose counters are to be read for [`rebase_net`](Monitor::rebase_net).
    pub fn take_profile(&mut self, profile: (u32, String), now: u128) -> (r: Option<u32>)
        ensures
            r == (if profile.0 != old(self).active_if_index {
                Some(profile.0)
            } else {
                None
            }),
            *final(self) == (Monitor {
                active_if_index: profile.0,
                net_info: profile.1,
                last_net_info_check: now,
                ..*old(self)
            }),
    {
        let changed: bool = profile.0 != self.active_if_index;
        if changed {
            self.active_if_index = profile.0;
        }
        self.net_info = profile.1;
        self.last_net_info_check = now;
        if changed {
            Some(self.active_if_index)
        } else {
            None
        }
    }

    /// Counts the network on from the given counters.
    pub fn rebase_net(&mut self, net: NetBytes)
        ensures
            *final(self) == (Monitor { prev_net: net, ..*old(self) }),
    {
        self.prev_net = net;
    }

    /// Closes a round with its report. The shares are the rates in percent of their scales.
    pub fn report(
        &self,
        cpu_pct: Reading,
        ram_pct: Reading,
        rates: &Rates,
        disk_share: Reading,
        net_share: Reading,
    ) -> (r: Metrics)
        ensures
            r == (Metrics {
                cpu_pct,
                ram_pct,
                disk_r_mbps: rates.disk_r_mbps,
                disk_w_mbps: rates.disk_w_mbps,
                disk_mbps: rates.disk_mbps,
                net_kbps: rates.net_kbps,
                disk_pct: bounded_share(disk_share),
                net_pct: bounded_share(net_share),
                net_info: self.net_info,
            }),
    {
        Metrics {
            cpu_pct,
            ram_pct,
            disk_r_mbps: rates.disk_r_mbps,
            disk_w_mbps: rates.disk_w_mbps,
            disk_mbps: rates.disk_mbps,
            net_kbps: rates.net_kbps,
            disk_pct: bound_share(disk_share),
            net_pct: bound_share(net_share),
            net_info: self.net_info.clone(),
        }
    }
}

/// A round always lasts a positive time, however short or unknown it was, so its traffic is known.
pub proof fn lemma_interval_is_positive(seconds: Reading)
    ensures
        (Reading { bits: ZERO }).less(seconds.raised(Reading { bits: THOUSANDTH })),
{
    lemma_constants_are_numbers();
    lemma_exact_constants();
    lemma_rank_orders(Reading { bits: ZERO }, Reading { bits: THOUSANDTH });
}

/// The shares in a report lie in `0 ..= 100`.
pub proof fn lemma_share_in_range(share: Reading)
    requires
        !share.nan(),
    ensures
        (Reading { bits: ZERO }).less_eq(bounded_share(share)),
        bounded_share(share).less_eq(Reading { bits: HUNDRED }),
{
    lemma_exact_constants();
    lemma_constants_are_numbers();
}

/// A rate is never above the scale it is measured against, and the scale never falls under its
/// floor: a quarter of a megabyte for the disk, four kilobytes for the network.
pub proof fn lemma_scales_cover_rates(rates: Rates, faded: Scales)
    requires
        !faded.disk.nan(),
        !faded.net.nan(),
    ensures
        (Reading { bits: QUARTER }).less_eq(settled(faded.disk, disk_mark(rates))),
        (Reading { bits: FOUR }).less_eq(settled(faded.net, net_mark(rates))),
        !rates.disk_mbps.nan() ==> rates.disk_mbps.less_eq(settled(faded.disk, disk_mark(rates))),
        !rates.net_kbps.nan() ==> rates.net_kbps.less_eq(settled(faded.net, net_mark(rates))),
{
    lemma_constants_are_numbers();
    lemma_scale_covers_reading(faded.disk, disk_mark(rates));
    lemma_scale_covers_reading(faded.net, net_mark(rates));
}

/// After a start or a reset the peaks that are to fade are the larger of rate and floor, and so are
/// the scales, once these peaks fall in fading.
pub proof fn lemma_first_scales(rates: Rates, faded: Scales)
    requires
        faded.disk.less(disk_mark(rates)),
        faded.net.less(net_mark(rates)),
    ensures
        peak_of(Reading { bits: ZERO }, disk_mark(rates)) == disk_mark(rates),
        peak_of(Reading { bits: ZERO }, net_mark(rates)) == net_mark(rates),
        settled(faded.disk, disk_mark(rates)) == disk_mark(rates),
        settled(faded.net, net_mark(rates)) == net_mark(rates),
{
    lemma_constants_are_numbers();
    lemma_exact_constants();
    lemma_rank_orders(Reading { bits: MILLIONTH }, Reading { bits: QUARTER });
    lemma_rank_orders(Reading { bits: MILLIONTH }, Reading { bits: FOUR });
}

/// What is left of a rate is the rate itself or nothing, never noise, and taking the noise out
/// once more changes nothing.
pub proof fn lemma_quieted_once(rate: Reading, least: Reading)
    requires
        !least.nan(),
        least.value() > 0,
    ensures
        quieted(rate, least) == rate || quieted(rate, least).bits == ZERO,
        rate.finite() && quieted(rate, least).bits != ZERO ==> least.less_eq(quieted(rate, least)),
        quieted(quieted(rate, least), least) == quieted(rate, least),
{
}

/// Each rate of a round that is finite before the noise is taken out is finite after it, and is
/// zero or at least its threshold, on its own: a thousandth for the disk, a tenth for the network.
pub proof fn lemma_rates_zero_or_loud(raw: Rates)
    requires
        raw.disk_r_mbps.finite(),
        raw.disk_w_mbps.finite(),
        raw.disk_mbps.finite(),
        raw.net_kbps.finite(),
    ensures
        ({
            let rates = quieted_rates(raw);
            &&& zero_or_loud(rates.disk_r_mbps, Reading { bits: THOUSANDTH })
            &&& zero_or_loud(rates.disk_w_mbps, Reading { bits: THOUSANDTH })
            &&& zero_or_loud(rates.disk_mbps, Reading { bits: THOUSANDTH })
            &&& zero_or_loud(rates.net_kbps, Reading { bits: TENTH })
        }),
{
    lemma_constants_are_numbers();
}

/// A share that is not negative is reported as zero only if it is zero, and never as more than it
/// is.
pub proof fn lemma_share_kept(share: Reading)
    requires
        (Reading { bits: ZERO }).less_eq(share),
    ensures
        bounded_share(share).value() == 0 <==> share.value() == 0,
        bounded_share(share).less_eq(share),
{
    lemma_exact_constants();
    lemma_constants_are_numbers();
}

/// The reported shares are bounded by the floors of the scales: a rate is reported with at most the
/// percentage that it makes of its floor. So it is of any quotient in percent that is not negative
/// and does not grow with the scale, as a rounded one of a finite rate that is not negative.
pub proof fn lemma_shares_bounded_by_floors(
    rates: Rates,
    faded: Scales,
    percent: spec_fn(Reading, Reading) -> Reading,
)
    requires
        !faded.disk.nan(),
        !faded.net.nan(),
        forall|rate: Reading, scale: Reading|
            #![trigger percent(rate, scale)]
            (rate == rates.disk_mbps || rate == rates.net_kbps) && (Reading { bits: ZERO }).less(
                scale,
            ) ==> (Reading { bits: ZERO }).less_eq(percent(rate, scale)),
        forall|rate: Reading, scale: Reading, larger: Reading|
            #![trigger percent(rate, scale), percent(rate, larger)]
            (rate == rates.disk_mbps || rate == rates.net_kbps) && (Reading { bits: ZERO }).less(
                scale,
            ) && scale.less_eq(larger) ==> percent(rate, larger).less_eq(percent(rate, scale)),
    ensures
        bounded_share(percent(rates.disk_mbps, settled(faded.disk, disk_mark(rates)))).less_eq(
            percent(rates.disk_mbps, Reading { bits: QUARTER }),
        ),
        bounded_share(percent(rates.net_kbps, settled(faded.net, net_mark(rates)))).less_eq(
            percent(rates.net_kbps, Reading { bits: FOUR }),
        ),
{
    let disk_scale = settled(faded.disk, disk_mark(rates));
    let net_scale = settled(faded.net, net_mark(rates));
    lemma_exact_constants();
    lemma_constants_are_numbers();
    lemma_scales_cover_rates(rates, faded);
    lemma_share_kept(percent(rates.disk_mbps, disk_scale));
    lemma_share_kept(percent(rates.net_kbps, net_scale));
}

/// A round over counters that did not move, as right after they were rebased, has no traffic,
/// however short it was.
pub proof fn lemma_still_counters_no_traffic(net: NetBytes, disk: DiskBytes, seconds: Reading)
    ensures
        traffic_of(net, disk, net, disk, seconds.raised(Reading { bits: THOUSANDTH })) == (Traffic {
            net: Some((0, 0)),
            disk: Some((0, 0)),
        }),
{
    lemma_interval_is_positive(seconds);
}

/// A rate that is at least its threshold comes out with the bits it went in with, whatever the
/// other rates are: a thousandth for each of the three disk rates, a tenth for the network.
pub proof fn lemma_loud_rates_kept(raw: Rates)
    ensures
        0x3F50_624D_D2F1_A9FC <= raw.disk_r_mbps.bits <= 0x7FF0_0000_0000_0000
            ==> quieted_rates(raw).disk_r_mbps.bits == raw.disk_r_mbps.bits,
        0x3F50_624D_D2F1_A9FC <= raw.disk_w_mbps.bits <= 0x7FF0_0000_0000_0000
            ==> quieted_rates(raw).disk_w_mbps.bits == raw.disk_w_mbps.bits,
        0x3F50_624D_D2F1_A9FC <= raw.disk_mbps.bits <= 0x7FF0_0000_0000_0000
            ==> quieted_rates(raw).disk_mbps.bits == raw.disk_mbps.bits,
        0x3FB9_9999_9999_999A <= raw.net_kbps.bits <= 0x7FF0_0000_0000_0000
            ==> quieted_rates(raw).net_kbps.bits == raw.net_kbps.bits,
{
    lemma_order_by_bits(raw.disk_r_mbps, Reading { bits: THOUSANDTH });
    lemma_order_by_bits(raw.disk_w_mbps, Reading { bits: THOUSANDTH });
    lemma_order_by_bits(raw.disk_mbps, Reading { bits: THOUSANDTH });
    lemma_order_by_bits(raw.net_kbps, Reading { bits: TENTH });
}

/// Each rate comes out as zero where it is a finite number under its own threshold, negative ones
/// among them, and otherwise with the bits it went in with; no rate depends on another.
pub proof fn lemma_rates_by_bits(raw: Rates)
    ensures
        ({
            let rates = quieted_rates(raw);
            &&& rates.disk_r_mbps.bits == (if raw.disk_r_mbps.bits < 0x3F50_624D_D2F1_A9FC
                || 0x8000_0000_0000_0000 <= raw.disk_r_mbps.bits < 0xFFF0_0000_0000_0000 {
                0
            } else {
                raw.disk_r_mbps.bits
            })
            &&& rates.disk_w_mbps.bits == (if raw.disk_w_mbps.bits < 0x3F50_624D_D2F1_A9FC
                || 0x8000_0000_0000_0000 <= raw.disk_w_mbps.bits < 0xFFF0_0000_0000_0000 {
                0
            } else {
                raw.disk_w_mbps.bits
            })
            &&& rates.disk_mbps.bits == (if raw.disk_mbps.bits < 0x3F50_624D_D2F1_A9FC
                || 0x8000_0000_0000_0000 <= raw.disk_mbps.bits < 0xFFF0_0000_0000_0000 {
                0
            } else {
                raw.disk_mbps.bits
            })
            &&& rates.net_kbps.bits == (if raw.net_kbps.bits < 0x3FB9_9999_9999_999A
                || 0x8000_0000_0000_0000 <= raw.net_kbps.bits < 0xFFF0_0000_0000_0000 {
                0
            } else {
                raw.net_kbps.bits
            })
        }),
{
    lemma_order_by_bits(raw.disk_r_mbps, Reading { bits: THOUSANDTH });
    lemma_order_by_bits(raw.disk_w_mbps, Reading { bits: THOUSANDTH });
    lemma_order_by_bits(raw.disk_mbps, Reading { bits: THOUSANDTH });
    lemma_order_by_bits(raw.net_kbps, Reading { bits: TENTH });
    lemma_kinds_by_bits(raw.disk_r_mbps);
    lemma_kinds_by_bits(raw.disk_w_mbps);
    lemma_kinds_by_bits(raw.disk_mbps);
    lemma_kinds_by_bits(raw.net_kbps);
}

/// A change in one rate changes none of the others.
pub proof fn lemma_rates_independent(one: Rates, other: Rates)
    ensures
        one.disk_r_mbps == other.disk_r_mbps ==> quieted_rates(one).disk_r_mbps == quieted_rates(
            other,
        ).disk_r_mbps,
        one.disk_w_mbps == other.disk_w_mbps ==> quieted_rates(one).disk_w_mbps == quieted_rates(
            other,
        ).disk_w_mbps,
        one.disk_mbps == other.disk_mbps ==> quieted_rates(one).disk_mbps == quieted_rates(
            other,
        ).disk_mbps,
        one.net_kbps == other.net_kbps ==> quieted_rates(one).net_kbps == quieted_rates(
            other,
        ).net_kbps,
{
}

/// What a rate adds to its scale is the rate itself from the floor on, and the floor for less and
/// for what is no number: a quarter for the disk, by the rate of reading and writing together, and
/// four for the network.
pub proof fn lemma_marks_by_bits(rates: Rates)
    ensures
        disk_mark(rates).bits == (if 0x3FD0_0000_0000_0000 <= rates.disk_mbps.bits
            <= 0x7FF0_0000_0000_0000 {
            rates.disk_mbps.bits
        } else {
            0x3FD0_0000_0000_0000
        }),
        net_mark(rates).bits == (if 0x4010_0000_0000_0000 <= rates.net_kbps.bits
            <= 0x7FF0_0000_0000_0000 {
            rates.net_kbps.bits
        } else {
            0x4010_0000_0000_0000
        }),
{
    lemma_order_by_bits(rates.disk_mbps, Reading { bits: QUARTER });
    lemma_order_by_bits(rates.net_kbps, Reading { bits: FOUR });
    lemma_kinds_by_bits(rates.disk_mbps);
    lemma_kinds_by_bits(rates.net_kbps);
}

/// A share is reported as it is from zero to a hundred, as a hundred above, as zero below, and as
/// no number where it is none.
pub proof fn lemma_share_by_bits(share: Reading)
    ensures
        share.bits <= 0x4059_0000_0000_0000 || share.bits == 0x8000_0000_0000_0000
            ==> bounded_share(share) == share,
        0x4059_0000_0000_0000 <= share.bits <= 0x7FF0_0000_0000_0000 ==> bounded_share(share).bits
            == 0x4059_0000_0000_0000,
        0x8000_0000_0000_0000 < share.bits <= 0xFFF0_0000_0000_0000 ==> bounded_share(share).bits
            == 0,
        0x7FF0_0000_0000_0000 < share.bits < 0x8000_0000_0000_0000 || 0xFFF0_0000_0000_0000
            < share.bits ==> bounded_share(share) == share,
{
    lemma_order_by_bits(share, Reading { bits: ZERO });
    lemma_order_by_bits(Reading { bits: HUNDRED }, share);
}

/// Each counter's traffic makes up, with what the counter was, what it is, while it does not fall,
/// and is none where it fell. Traffic is known if and only if the time is a positive number.
pub proof fn lemma_traffic_is_exact(
    prev_net: NetBytes,
    prev_disk: DiskBytes,
    net: NetBytes,
    disk: DiskBytes,
    dt: Reading,
)
    ensures
        ({
            let traffic = traffic_of(prev_net, prev_disk, net, disk, dt);
            &&& traffic.net is Some <==> 0 < dt.bits <= 0x7FF0_0000_0000_0000
            &&& traffic.disk is Some <==> 0 < dt.bits <= 0x7FF0_0000_0000_0000
            &&& traffic.net matches Some(passed) ==> (if prev_net.rx <= net.rx {
                prev_net.rx + passed.0 == net.rx
            } else {
                passed.0 == 0
            })
            &&& traffic.net matches Some(passed) ==> (if prev_net.tx <= net.tx {
                prev_net.tx + passed.1 == net.tx
            } else {
                passed.1 == 0
            })
            &&& traffic.disk matches Some(passed) ==> (if prev_disk.read <= disk.read {
                prev_disk.read + passed.0 == disk.read
            } else {
                passed.0 == 0
            })
            &&& traffic.disk matches Some(passed) ==> (if prev_disk.write <= disk.write {
                prev_disk.write + passed.1 == disk.write
            } else {
                passed.1 == 0
            })
        }),
{
    lemma_order_by_bits(Reading { bits: ZERO }, dt);
}

/// The time that passed makes up, with when it started, when it ended; none passed where the clock
/// went back.
pub proof fn lemma_elapsed_is_exact(since: u128, now: u128)
    ensures
        since <= now ==> since + elapsed(since, now) == now,
        now < since ==> elapsed(since, now) == 0,
{
}

} // verus!
