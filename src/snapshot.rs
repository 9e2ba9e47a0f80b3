//! Snapshot interpolation: a time-ordered buffer of samples from a remote
//! peer, a local estimate of the remote clock that runs faster or slower to
//! keep the buffer near its target depth, and a cursor that brackets the
//! current time between two samples.
//!
//! Times are integer microseconds; speeds, thresholds and fractions are
//! parts per million of one.
use crate::ema::{ema_added, ExponentialMovingAverage};
use crate::writer::{Vector3Bits, Vector4Bits};
use vstd::prelude::*;

verus! {

/// One, in parts per million.
pub const PPM_ONE: u64 = 1_000_000;

/// A timestamped sample of remote state.
#[derive(Debug, Clone, Copy, PartialEq, Eq, Structural)]
pub struct Snapshot {
    pub remote_time: i64,
    pub local_time: i64,
    pub position: Vector3Bits,
    pub rotation: Vector4Bits,
    pub scale: Vector3Bits,
}

/// Samples strictly ordered by remote time (so no two share a timestamp).
pub open spec fn sorted(s: Seq<Snapshot>) -> bool {
    forall|i: int, j: int| 0 <= i < j < s.len() ==> s[i].remote_time < s[j].remote_time
}

pub open spec fn has_time(s: Seq<Snapshot>, t: i64) -> bool {
    exists|i: int| 0 <= i < s.len() && s[i].remote_time == t
}

pub open spec fn clamp_i64(x: int) -> i64 {
    if x > i64::MAX {
        i64::MAX
    } else if x < i64::MIN {
        i64::MIN
    } else {
        x as i64
    }
}

/// Playback speed for a drift: faster above the positive threshold, slower
/// below the negative one, else normal. Thresholds are multiples (in ppm)
/// of the send interval.
pub open spec fn timescale_spec(drift: int, send_interval: int, catchup_ppm: int, slowdown_ppm: int, negative_ppm: int, positive_ppm: int) -> u64 {
    if drift * PPM_ONE > send_interval * positive_ppm {
        (PPM_ONE + catchup_ppm) as u64
    } else if drift * PPM_ONE < send_interval * negative_ppm {
        if slowdown_ppm >= PPM_ONE {
            0
        } else {
            (PPM_ONE - slowdown_ppm) as u64
        }
    } else {
        PPM_ONE as u64
    }
}

/// The buffer-time multiplier (ppm) that covers one send interval plus the
/// observed jitter, plus a tolerance: `(interval + jitter) / interval + tolerance`.
pub open spec fn dynamic_adjustment_spec(send_interval: nat, jitter: nat, tolerance_ppm: nat) -> u64 {
    let m: int = (send_interval + jitter) * PPM_ONE / (send_interval as int) + tolerance_ppm;
    if m > u64::MAX {
        u64::MAX
    } else {
        m as u64
    }
}

/// The first `i >= k` whose pair `s[i], s[i + 1]` brackets `t`.
pub open spec fn bracket_from(s: Seq<Snapshot>, t: i64, k: int) -> Option<int>
    decreases s.len() - k,
{
    if k < 0 || k >= s.len() - 1 {
        None
    } else if s[k].remote_time <= t && t <= s[k + 1].remote_time {
        Some(k)
    } else {
        bracket_from(s, t, k + 1)
    }
}

/// The indices of the two samples to interpolate between at time `t`: the
/// first bracketing pair; else the first sample twice when `t` is before it,
/// or the last twice when `t` is past it.
pub open spec fn sample_spec(s: Seq<Snapshot>, t: i64) -> (int, int) {
    match bracket_from(s, t, 0) {
        Some(i) => (i, i + 1),
        None => if s[0].remote_time > t {
            (0, 0)
        } else {
            (s.len() - 1, s.len() - 1)
        },
    }
}

/// Where `t` lies between `a` and `b`, in ppm, for `a < b` and `a <= t <= b`.
pub open spec fn inverse_lerp_ppm(a: i64, b: i64, t: i64) -> u64 {
    ((t - a) * PPM_ONE / (b - a)) as u64
}

/// One interpolation step at time `t`: the samples older than the first
/// one needed are dropped; the result is what is left, the two samples and
/// the fraction between them.
pub open spec fn step_spec(s: Seq<Snapshot>, t: i64) -> (Seq<Snapshot>, Snapshot, Snapshot, u64) {
    let (f, g) = sample_spec(s, t);
    let frac = if f == g {
        0
    } else {
        inverse_lerp_ppm(s[f].remote_time, s[g].remote_time, t)
    };
    (s.subrange(f, s.len() as int), s[f], s[g], frac)
}

proof fn lemma_bracket_from(s: Seq<Snapshot>, t: i64, k: int)
    ensures
        bracket_from(s, t, k) matches Some(i) ==> k <= i < s.len() - 1 && s[i].remote_time <= t
            && t <= s[i + 1].remote_time,
    decreases s.len() - k,
{
    if k >= 0 && k < s.len() - 1 && !(s[k].remote_time <= t && t <= s[k + 1].remote_time) {
        lemma_bracket_from(s, t, k + 1);
    }
}

/// Stepping at a time no earlier than the last step never moves the target
/// sample back: successive steps at non-decreasing times give targets with
/// non-decreasing remote times, whatever order the samples arrived in.
pub proof fn lemma_step_target_monotonic(s: Seq<Snapshot>, t1: i64, t2: i64)
    requires
        sorted(s),
        s.len() > 0,
        t1 <= t2,
    ensures
        ({
            let r1 = step_spec(s, t1);
            let r2 = step_spec(r1.0, t2);
            r1.0.len() > 0 && sorted(r1.0) && r1.2.remote_time <= r2.2.remote_time
        }),
{
    lemma_bracket_from(s, t1, 0);
    let (f1, g1) = sample_spec(s, t1);
    let b = s.subrange(f1, s.len() as int);
    assert(sorted(b));
    let d = g1 - f1;
    assert(b[d] == s[g1]);
    lemma_bracket_from(b, t2, 0);
    let (f2, g2) = sample_spec(b, t2);
    if bracket_from(b, t2, 0) is None && b[0].remote_time > t2 {
        if bracket_from(s, t1, 0) is Some {
            assert(s[f1].remote_time <= t1);
            assert(false);
        }
    }
    assert(g2 >= d);
    if g2 > d {
        assert(b[d].remote_time < b[g2].remote_time);
    }
}

/// Playback speed (ppm) for a drift of the buffered time from its target.
pub fn timescale(drift: i64, send_interval: u32, catchup_speed_ppm: u32, slowdown_speed_ppm: u32, negative_threshold_ppm: i32, positive_threshold_ppm: i32) -> (r: u64)
    ensures
        r == timescale_spec(drift as int, send_interval as int, catchup_speed_ppm as int, slowdown_speed_ppm as int, negative_threshold_ppm as int, positive_threshold_ppm as int),
{
    let scaled: i128 = drift as i128 * 1_000_000;
    assert(-0x1_0000_0000_0000_0000int <= send_interval as int * positive_threshold_ppm as int <= 0x1_0000_0000_0000_0000int) by (nonlinear_arith)
        requires
            0 <= send_interval <= u32::MAX,
            i32::MIN <= positive_threshold_ppm <= i32::MAX,
    ;
    assert(-0x1_0000_0000_0000_0000int <= send_interval as int * negative_threshold_ppm as int <= 0x1_0000_0000_0000_0000int) by (nonlinear_arith)
        requires
            0 <= send_interval <= u32::MAX,
            i32::MIN <= negative_threshold_ppm <= i32::MAX,
    ;
    if scaled > send_interval as i128 * positive_threshold_ppm as i128 {
        return 1_000_000 + catchup_speed_ppm as u64;
    }
    if scaled < send_interval as i128 * negative_threshold_ppm as i128 {
        if slowdown_speed_ppm as u64 >= 1_000_000 {
            return 0;
        }
        return 1_000_000 - slowdown_speed_ppm as u64;
    }
    1_000_000
}

/// The buffer-time multiplier (ppm) for the jitter seen.
pub fn dynamic_adjustment(send_interval: u32, jitter_standard_deviation: u64, tolerance_ppm: u32) -> (r: u64)
    requires
        send_interval > 0,
    ensures
        r == dynamic_adjustment_spec(send_interval as nat, jitter_standard_deviation as nat, tolerance_ppm as nat),
{
    let with_jitter: u128 = send_interval as u128 + jitter_standard_deviation as u128;
    let m: u128 = with_jitter * 1_000_000 / send_interval as u128 + tolerance_ppm as u128;
    if m > u64::MAX as u128 {
        u64::MAX
    } else {
        m as u64
    }
}

/// Inserts `snapshot` unless the buffer holds `limit` samples or one with
/// the same remote time. Returns whether it was inserted.
pub fn insert_if_not_exists(buffer: &mut Vec<Snapshot>, limit: usize, snapshot: Snapshot) -> (r: bool)
    requires
        sorted(old(buffer)@),
    ensures
        sorted(final(buffer)@),
        r == (old(buffer)@.len() < limit && !has_time(old(buffer)@, snapshot.remote_time)),
        !r ==> final(buffer)@ == old(buffer)@,
        r ==> exists|p: int| 0 <= p <= old(buffer)@.len() && final(buffer)@ == old(buffer)@.insert(p, snapshot),
{
    if buffer.len() >= limit {
        return false;
    }
    let mut i: usize = 0;
    while i < buffer.len() && buffer[i].remote_time < snapshot.remote_time
        invariant
            i <= buffer@.len(),
            buffer@ == old(buffer)@,
            forall|j: int| 0 <= j < i ==> buffer@[j].remote_time < snapshot.remote_time,
        decreases buffer@.len() - i,
    {
        i = i + 1;
    }
    if i < buffer.len() && buffer[i].remote_time == snapshot.remote_time {
        return false;
    }
    assert(!has_time(old(buffer)@, snapshot.remote_time)) by {
        if has_time(old(buffer)@, snapshot.remote_time) {
            let k = choose|k: int| 0 <= k < old(buffer)@.len() && old(buffer)@[k].remote_time == snapshot.remote_time;
            if k > i {
                assert(old(buffer)@[i as int].remote_time < old(buffer)@[k].remote_time);
            }
        }
    }
    buffer.insert(i, snapshot);
    assert(sorted(buffer@)) by {
        assert forall|a: int, b: int| 0 <= a < b < buffer@.len() implies buffer@[a].remote_time < buffer@[b].remote_time by {
            if i < old(buffer)@.len() && b > i as int {
                assert(old(buffer)@[i as int].remote_time > snapshot.remote_time);
                if a > i as int {
                    assert(old(buffer)@[a - 1].remote_time < old(buffer)@[b - 1].remote_time);
                } else if a < i as int {
                    assert(old(buffer)@[a].remote_time < snapshot.remote_time);
                    if b - 1 > i as int {
                        assert(old(buffer)@[i as int].remote_time < old(buffer)@[b - 1].remote_time);
                    }
                }
            }
        }
    }
    true
}

/// `v`, or else the last sample's value, or else the current one.
pub open spec fn fill<T>(v: Option<T>, last: Option<T>, current: T) -> T {
    match v {
        Some(x) => x,
        None => match last {
            Some(y) => y,
            None => current,
        },
    }
}

/// The part of the last sample that `pick` selects, if there is a sample.
pub open spec fn last_of<T>(s: Seq<Snapshot>, pick: spec_fn(Snapshot) -> T) -> Option<T> {
    if s.len() == 0 {
        None
    } else {
        Some(pick(s.last()))
    }
}

/// Adds a transform sample received at `timestamp`. Parts that were not
/// sent are taken from the newest sample held, or from the current
/// transform when none is held. Returns whether it was inserted.
pub fn add_snapshot(
    snapshots: &mut Vec<Snapshot>,
    limit: usize,
    timestamp: i64,
    local_time: i64,
    position: Option<Vector3Bits>,
    rotation: Option<Vector4Bits>,
    scale: Option<Vector3Bits>,
    current: Snapshot,
) -> (r: bool)
    requires
        sorted(old(snapshots)@),
    ensures
        ({
            let old_s = old(snapshots)@;
            let snapshot = Snapshot {
                remote_time: timestamp,
                local_time,
                position: fill(position, last_of(old_s, |x: Snapshot| x.position), current.position),
                rotation: fill(rotation, last_of(old_s, |x: Snapshot| x.rotation), current.rotation),
                scale: fill(scale, last_of(old_s, |x: Snapshot| x.scale), current.scale),
            };
            &&& sorted(final(snapshots)@)
            &&& r == (old_s.len() < limit && !has_time(old_s, timestamp))
            &&& !r ==> final(snapshots)@ == old_s
            &&& r ==> exists|p: int| 0 <= p <= old_s.len() && final(snapshots)@ == old_s.insert(p, snapshot)
        }),
{
    let n = snapshots.len();
    let position = match position {
        Some(p) => p,
        None => if n > 0 { snapshots[n - 1].position } else { current.position },
    };
    let rotation = match rotation {
        Some(q) => q,
        None => if n > 0 { snapshots[n - 1].rotation } else { current.rotation },
    };
    let scale = match scale {
        Some(v) => v,
        None => if n > 0 { snapshots[n - 1].scale } else { current.scale },
    };
    let snapshot = Snapshot { remote_time: timestamp, local_time, position, rotation, scale };
    insert_if_not_exists(snapshots, limit, snapshot)
}

/// Advances the clock estimate by `delta` microseconds at speed `timescale_ppm`,
/// staying within the range of `i64`.
pub fn step_time(delta: u32, timeline: &mut i64, timescale_ppm: u64)
    ensures
        *final(timeline) == clamp_i64(*old(timeline) + (delta as int * timescale_ppm as int) / PPM_ONE as int),
{
    assert(delta as int * timescale_ppm as int <= 0x1_0000_0000_0000_0000_0000_0000int) by (nonlinear_arith)
        requires
            0 <= delta <= u32::MAX,
            0 <= timescale_ppm <= u64::MAX,
    ;
    let step: i128 = (delta as u128 * timescale_ppm as u128 / 1_000_000) as i128;
    let next: i128 = *timeline as i128 + step;
    *timeline = if next > i64::MAX as i128 {
        i64::MAX
    } else if next < i64::MIN as i128 {
        i64::MIN
    } else {
        next as i64
    };
}

/// The indices of the samples to interpolate between at `timeline`, and the
/// fraction (ppm) between them.
pub fn sample(buffer: &Vec<Snapshot>, timeline: i64) -> (r: (usize, usize, u64))
    requires
        sorted(buffer@),
        buffer@.len() > 0,
    ensures
        (r.0 as int, r.1 as int) == sample_spec(buffer@, timeline),
        r.2 == step_spec(buffer@, timeline).3,
{
    let n = buffer.len();
    let mut i: usize = 0;
    while i + 1 < n
        invariant
            n == buffer@.len() > 0,
            i < n,
            sorted(buffer@),
            bracket_from(buffer@, timeline, 0) == bracket_from(buffer@, timeline, i as int),
        decreases n - i,
    {
        let first = buffer[i].remote_time;
        let second = buffer[i + 1].remote_time;
        if first <= timeline && timeline <= second {
            let num: i128 = (timeline as i128 - first as i128) * 1_000_000;
            let den: i128 = second as i128 - first as i128;
            assert(first < second);
            assert(0 <= num <= den * 1_000_000);
            let t = (num / den) as u64;
            assert(num / den <= 1_000_000) by (nonlinear_arith)
                requires
                    0 <= num <= den * 1_000_000,
                    den > 0,
            ;
            return (i, i + 1, t);
        }
        i = i + 1;
    }
    if buffer[0].remote_time > timeline {
        (0, 0, 0)
    } else {
        (n - 1, n - 1, 0)
    }
}

/// Drops the samples older than the first one needed at `timeline` and
/// returns the two samples to interpolate between and the fraction (ppm).
pub fn step_interpolation(buffer: &mut Vec<Snapshot>, timeline: i64) -> (r: (Snapshot, Snapshot, u64))
    requires
        sorted(old(buffer)@),
        old(buffer)@.len() > 0,
    ensures
        (final(buffer)@, r.0, r.1, r.2) == step_spec(old(buffer)@, timeline),
        sorted(final(buffer)@),
        final(buffer)@.len() > 0,
{
    let (from, to, t) = sample(buffer, timeline);
    proof {
        lemma_bracket_from(buffer@, timeline, 0);
    }
    let a = buffer[from];
    let b = buffer[to];
    let mut rest: Vec<Snapshot> = Vec::with_capacity(buffer.len() - from);
    let mut i: usize = from;
    while i < buffer.len()
        invariant
            from <= i <= buffer@.len(),
            buffer@ == old(buffer)@,
            rest@ == buffer@.subrange(from as int, i as int),
        decreases buffer@.len() - i,
    {
        rest.push(buffer[i]);
        i = i + 1;
        assert(rest@ =~= buffer@.subrange(from as int, i as int));
    }
    *buffer = rest;
    assert(sorted(buffer@));
    (a, b, t)
}

/// Tuning of the interpolation engine.
#[derive(Debug, Clone, Copy)]
pub struct SnapshotSettings {
    /// The most samples held at once; more are dropped.
    pub buffer_limit: usize,
    pub catchup_speed_ppm: u32,
    pub slowdown_speed_ppm: u32,
    /// Drift below this many send intervals (ppm) slows playback down.
    pub catchup_negative_threshold_ppm: i32,
    /// Drift above this many send intervals (ppm) speeds playback up.
    pub catchup_positive_threshold_ppm: i32,
    pub dynamic_adjustment: bool,
    pub dynamic_adjustment_tolerance_ppm: u32,
    pub drift_ema_window: u64,
    pub delivery_time_ema_window: u64,
}

/// The interpolation state that a connection keeps for its peer.
pub struct SnapshotInterpolation {
    /// The samples, in remote-time order.
    pub buffer: Vec<Snapshot>,
    pub settings: SnapshotSettings,
    /// The interval at which the peer sends, in microseconds.
    pub send_interval: u32,
    pub remote_timeline: i64,
    pub remote_timescale: u64,
    pub buffer_time_multiplier: u64,
    pub buffer_time: i64,
    pub drift_ema: ExponentialMovingAverage,
    pub delivery_time_ema: ExponentialMovingAverage,
}

/// `send_interval * multiplier`, the multiplier in ppm.
pub open spec fn buffer_time_spec(send_interval: u32, multiplier_ppm: u64) -> i64 {
    clamp_i64(send_interval as int * multiplier_ppm as int / PPM_ONE as int)
}

impl SnapshotInterpolation {
    pub open spec fn snapshots(&self) -> Seq<Snapshot> {
        self.buffer@
    }

    pub open spec fn wf(&self) -> bool {
        &&& sorted(self.snapshots())
        &&& self.send_interval > 0
        &&& self.drift_ema.wf()
        &&& self.delivery_time_ema.wf()
    }

    fn compute_buffer_time(send_interval: u32, multiplier: u64) -> (r: i64)
        ensures
            r == buffer_time_spec(send_interval, multiplier),
    {
        assert(send_interval as int * multiplier as int <= 0x1_0000_0000_0000_0000_0000_0000int) by (nonlinear_arith)
            requires
                0 <= send_interval <= u32::MAX,
                0 <= multiplier <= u64::MAX,
        ;
        let v: u128 = send_interval as u128 * multiplier as u128 / 1_000_000;
        if v > i64::MAX as u128 {
            i64::MAX
        } else {
            v as i64
        }
    }

    /// An empty buffer, normal speed, and a buffer time of
    /// `send_interval * buffer_time_multiplier` (ppm).
    pub fn new(settings: SnapshotSettings, send_interval: u32, buffer_time_multiplier: u64, local_time: i64) -> (s: SnapshotInterpolation)
        requires
            send_interval > 0,
            settings.drift_ema_window >= 1,
            settings.delivery_time_ema_window >= 1,
        ensures
            s.wf(),
            s.snapshots() == Seq::<Snapshot>::empty(),
            s.settings == settings,
            s.send_interval == send_interval,
            s.remote_timeline == local_time,
            s.remote_timescale == PPM_ONE,
            s.buffer_time_multiplier == buffer_time_multiplier,
            s.buffer_time == buffer_time_spec(send_interval, buffer_time_multiplier),
    {
        SnapshotInterpolation {
            buffer: Vec::new(),
            settings,
            send_interval,
            remote_timeline: local_time,
            remote_timescale: 1_000_000,
            buffer_time_multiplier,
            buffer_time: Self::compute_buffer_time(send_interval, buffer_time_multiplier),
            drift_ema: ExponentialMovingAverage::new(settings.drift_ema_window),
            delivery_time_ema: ExponentialMovingAverage::new(settings.delivery_time_ema_window),
        }
    }

    pub fn len(&self) -> (n: usize)
        ensures
            n == self.snapshots().len(),
    {
        self.buffer.len()
    }

    /// Takes in a sample from the peer. A full buffer, or a sample whose
    /// remote time is already held, drops it and changes nothing. Otherwise
    /// the sample is inserted in time order, the delivery-time and drift
    /// averages take it in, and the playback speed is set from the drift.
    pub fn on_time_snapshot(&mut self, snapshot: Snapshot) -> (r: bool)
        requires
            old(self).wf(),
        ensures
            final(self).wf(),
            r == (old(self).snapshots().len() < old(self).settings.buffer_limit
                && !has_time(old(self).snapshots(), snapshot.remote_time)),
            !r ==> final(self).snapshots() == old(self).snapshots(),
            r ==> exists|p: int| 0 <= p <= old(self).snapshots().len()
                && final(self).snapshots() == old(self).snapshots().insert(p, snapshot),
            final(self).settings == old(self).settings,
            final(self).send_interval == old(self).send_interval,
            r ==> final(self).remote_timescale == timescale_spec(
                clamp_i64(final(self).drift_ema.value - final(self).buffer_time) as int,
                old(self).send_interval as int,
                old(self).settings.catchup_speed_ppm as int,
                old(self).settings.slowdown_speed_ppm as int,
                old(self).settings.catchup_negative_threshold_ppm as int,
                old(self).settings.catchup_positive_threshold_ppm as int,
            ),
            old(self).snapshots().len() < old(self).settings.buffer_limit ==> {
                &&& final(self).buffer_time_multiplier == if old(self).settings.dynamic_adjustment {
                    dynamic_adjustment_spec(old(self).send_interval as nat, old(self).delivery_time_ema.standard_deviation as nat,
                        old(self).settings.dynamic_adjustment_tolerance_ppm as nat)
                } else {
                    old(self).buffer_time_multiplier
                }
                &&& final(self).buffer_time == if old(self).settings.dynamic_adjustment {
                    buffer_time_spec(old(self).send_interval, final(self).buffer_time_multiplier)
                } else {
                    old(self).buffer_time
                }
            },
            old(self).snapshots().len() >= old(self).settings.buffer_limit ==> final(self).buffer_time == old(self).buffer_time
                && final(self).buffer_time_multiplier == old(self).buffer_time_multiplier
                && final(self).remote_timeline == old(self).remote_timeline,
            r && final(self).snapshots().len() >= 2 ==> ema_added(old(self).delivery_time_ema, final(self).delivery_time_ema,
                clamp_i64(final(self).snapshots().last().local_time - final(self).snapshots()[final(self).snapshots().len() - 2].local_time)),
            r && final(self).snapshots().len() < 2 ==> final(self).delivery_time_ema == old(self).delivery_time_ema,
            r ==> final(self).remote_timeline == if old(self).snapshots().len() == 0 {
                clamp_i64(snapshot.remote_time - final(self).buffer_time)
            } else {
                old(self).remote_timeline
            },
            r ==> ema_added(old(self).drift_ema, final(self).drift_ema,
                clamp_i64(snapshot.remote_time - (if old(self).snapshots().len() == 0 {
                    clamp_i64(snapshot.remote_time - final(self).buffer_time)
                } else {
                    old(self).remote_timeline
                }))),
    {
        if self.buffer.len() >= self.settings.buffer_limit {
            return false;
        }
        if self.settings.dynamic_adjustment {
            self.buffer_time_multiplier = dynamic_adjustment(
                self.send_interval,
                self.delivery_time_ema.standard_deviation,
                self.settings.dynamic_adjustment_tolerance_ppm,
            );
            self.buffer_time = Self::compute_buffer_time(self.send_interval, self.buffer_time_multiplier);
        }
        if self.buffer.len() == 0 {
            self.remote_timeline = clamp(snapshot.remote_time as i128 - self.buffer_time as i128);
        }
        if !insert_if_not_exists(&mut self.buffer, self.settings.buffer_limit, snapshot) {
            return false;
        }
        let n = self.buffer.len();
        if n >= 2 {
            let delivery = clamp(self.buffer[n - 1].local_time as i128 - self.buffer[n - 2].local_time as i128);
            self.delivery_time_ema.add(delivery);
        }
        let diff = clamp(snapshot.remote_time as i128 - self.remote_timeline as i128);
        self.drift_ema.add(diff);
        let drift = clamp(self.drift_ema.value as i128 - self.buffer_time as i128);
        self.remote_timescale = timescale(
            drift,
            self.send_interval,
            self.settings.catchup_speed_ppm,
            self.settings.slowdown_speed_ppm,
            self.settings.catchup_negative_threshold_ppm,
            self.settings.catchup_positive_threshold_ppm,
        );
        true
    }

    /// Advances the clock by `delta` microseconds and steps the cursor:
    /// `None` while no sample is held.
    pub fn update_time_interpolation(&mut self, delta: u32) -> (r: Option<(Snapshot, Snapshot, u64)>)
        requires
            old(self).wf(),
        ensures
            final(self).wf(),
            old(self).snapshots().len() == 0 ==> r is None && final(self).snapshots() == old(self).snapshots(),
            old(self).snapshots().len() > 0 ==> {
                &&& final(self).remote_timeline == clamp_i64(old(self).remote_timeline + (delta as int * old(self).remote_timescale as int) / PPM_ONE as int)
                &&& r matches Some(x) && (final(self).snapshots(), x.0, x.1, x.2) == step_spec(old(self).snapshots(), final(self).remote_timeline)
            },
    {
        if self.buffer.len() == 0 {
            return None;
        }
        step_time(delta, &mut self.remote_timeline, self.remote_timescale);
        Some(step_interpolation(&mut self.buffer, self.remote_timeline))
    }
}

fn clamp(x: i128) -> (r: i64)
    ensures
        r == clamp_i64(x as int),
{
    if x > i64::MAX as i128 {
        i64::MAX
    } else if x < i64::MIN as i128 {
        i64::MIN
    } else {
        x as i64
    }
}

} // verus!
