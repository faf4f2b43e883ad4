//! Whether somebody lies in the bed, and whether they move, judged from a
//! rolling window of accelerometer samples.
//!
//! Readings are integers in millionths of their unit, times are milliseconds
//! of a clock that does not run backwards. Of the change between two samples
//! the window keeps the square of its magnitude, which orders the changes as
//! the magnitude does.

use crate::fixed::{elapsed_since, time_since};
use vstd::prelude::*;

verus! {

/// One reading of the accelerometer.
#[derive(Debug, Clone, Copy, PartialEq, Eq)]
pub struct AccelerometerData {
    /// Acceleration along the three axes.
    pub acc: (i32, i32, i32),
    /// Rotation about the three axes.
    pub gyro: (i32, i32, i32),
    /// Temperature of the sensor.
    pub temp: i32,
}

/// The `k`-th of the seven numbers of a reading.
pub open spec fn component(d: AccelerometerData, k: int) -> int {
    if k == 0 {
        d.acc.0 as int
    } else if k == 1 {
        d.acc.1 as int
    } else if k == 2 {
        d.acc.2 as int
    } else if k == 3 {
        d.gyro.0 as int
    } else if k == 4 {
        d.gyro.1 as int
    } else if k == 5 {
        d.gyro.2 as int
    } else {
        d.temp as int
    }
}

/// The sum of the `k`-th number over the first `n` readings.
pub open spec fn component_total(data: Seq<AccelerometerData>, k: int, n: int) -> int
    decreases n,
{
    if n <= 0 {
        0
    } else {
        component_total(data, k, n - 1) + component(data[n - 1], k)
    }
}

/// The mean of the `k`-th number over all readings, rounded toward zero.
pub open spec fn component_mean(data: Seq<AccelerometerData>, k: int) -> int {
    let total = component_total(data, k, data.len() as int);
    if total >= 0 {
        total / (data.len() as int)
    } else {
        -((-total) / (data.len() as int))
    }
}

proof fn lemma_total_bounds(data: Seq<AccelerometerData>, k: int, n: int)
    requires
        0 <= n <= data.len(),
    ensures
        n * (i32::MIN as int) <= component_total(data, k, n) <= n * (i32::MAX as int),
    decreases n,
{
    if n > 0 {
        lemma_total_bounds(data, k, n - 1);
        assert((n - 1) * (i32::MIN as int) + (i32::MIN as int) == n * (i32::MIN as int))
            by (nonlinear_arith);
        assert((n - 1) * (i32::MAX as int) + (i32::MAX as int) == n * (i32::MAX as int))
            by (nonlinear_arith);
    }
}

proof fn lemma_mean_bounds(total: int, n: int)
    requires
        n > 0,
        n * (i32::MIN as int) <= total <= n * (i32::MAX as int),
    ensures
        total >= 0 ==> 0 <= total / n <= i32::MAX,
        total < 0 ==> 0 <= (-total) / n <= -(i32::MIN as int),
{
    if total >= 0 {
        assert(0 <= total / n <= 0x7fff_ffff) by (nonlinear_arith)
            requires
                n > 0,
                0 <= total <= n * 0x7fff_ffff,
        ;
    } else {
        assert(0 <= (-total) / n <= 0x8000_0000) by (nonlinear_arith)
            requires
                n > 0,
                0 < -total <= n * 0x8000_0000,
        ;
    }
}

fn mean_of(total: i128, n: usize, Ghost(data): Ghost<Seq<AccelerometerData>>, Ghost(k): Ghost<
    int,
>) -> (m: i32)
    requires
        n > 0,
        n == data.len(),
        total == component_total(data, k, n as int),
    ensures
        m == component_mean(data, k),
{
    proof {
        lemma_total_bounds(data, k, n as int);
        lemma_mean_bounds(total as int, n as int);
    }
    (total / (n as i128)) as i32
}

impl AccelerometerData {
    /// The mean of some readings, number by number, each rounded toward zero.
    pub fn mean(data: &[AccelerometerData]) -> (m: AccelerometerData)
        requires
            data@.len() > 0,
        ensures
            forall|k: int| 0 <= k < 7 ==> component(m, k) == component_mean(data@, k),
    {
        let n = data.len();
        let mut acc: (i128, i128, i128) = (0, 0, 0);
        let mut gyro: (i128, i128, i128) = (0, 0, 0);
        let mut temp: i128 = 0;
        let mut i: usize = 0;
        while i < n
            invariant
                i <= n,
                n == data@.len(),
                acc.0 == component_total(data@, 0, i as int),
                acc.1 == component_total(data@, 1, i as int),
                acc.2 == component_total(data@, 2, i as int),
                gyro.0 == component_total(data@, 3, i as int),
                gyro.1 == component_total(data@, 4, i as int),
                gyro.2 == component_total(data@, 5, i as int),
                temp == component_total(data@, 6, i as int),
            decreases n - i,
        {
            proof {
                lemma_total_bounds(data@, 0, i as int);
                lemma_total_bounds(data@, 1, i as int);
                lemma_total_bounds(data@, 2, i as int);
                lemma_total_bounds(data@, 3, i as int);
                lemma_total_bounds(data@, 4, i as int);
                lemma_total_bounds(data@, 5, i as int);
                lemma_total_bounds(data@, 6, i as int);
                assert(i * (i32::MIN as int) >= usize::MAX * (i32::MIN as int))
                    by (nonlinear_arith)
                    requires
                        0 <= i <= usize::MAX,
                ;
                assert(i * (i32::MAX as int) <= usize::MAX * (i32::MAX as int))
                    by (nonlinear_arith)
                    requires
                        0 <= i <= usize::MAX,
                ;
            }
            let d = data[i];
            acc = (acc.0 + d.acc.0 as i128, acc.1 + d.acc.1 as i128, acc.2 + d.acc.2 as i128);
            gyro = (
                gyro.0 + d.gyro.0 as i128,
                gyro.1 + d.gyro.1 as i128,
                gyro.2 + d.gyro.2 as i128,
            );
            temp = temp + d.temp as i128;
            i += 1;
        }
        AccelerometerData {
            acc: (
                mean_of(acc.0, n, Ghost(data@), Ghost(0)),
                mean_of(acc.1, n, Ghost(data@), Ghost(1)),
                mean_of(acc.2, n, Ghost(data@), Ghost(2)),
            ),
            gyro: (
                mean_of(gyro.0, n, Ghost(data@), Ghost(3)),
                mean_of(gyro.1, n, Ghost(data@), Ghost(4)),
                mean_of(gyro.2, n, Ghost(data@), Ghost(5)),
            ),
            temp: mean_of(temp, n, Ghost(data@), Ghost(6)),
        }
    }
}

/// The square of the magnitude of the change of acceleration from one
/// reading to the next.
pub open spec fn delta_squared(from: AccelerometerData, to: AccelerometerData) -> int {
    let dx = to.acc.0 - from.acc.0;
    let dy = to.acc.1 - from.acc.1;
    let dz = to.acc.2 - from.acc.2;
    dx * dx + dy * dy + dz * dz
}

/// How many of the changes have a squared magnitude above `threshold`.
pub open spec fn count_above(deltas: Seq<u128>, threshold: u128) -> nat
    decreases deltas.len(),
{
    if deltas.len() == 0 {
        0
    } else {
        count_above(deltas.drop_last(), threshold) + if deltas.last() > threshold {
            1nat
        } else {
            0nat
        }
    }
}

/// How many entries at the front of the window are older, at `now`, than
/// the window remembers.
pub open spec fn stale_prefix(times: Seq<i64>, now: i64, max_memory: i64) -> nat
    decreases times.len(),
{
    if times.len() == 0 || time_since(now as int, times[0] as int) <= max_memory {
        0
    } else {
        1 + stale_prefix(times.skip(1), now, max_memory)
    }
}

/// Whether a reading taken at `time` is still within what the window
/// remembers at `now`.
pub open spec fn is_fresh(time: i64, now: i64, max_memory: i64) -> bool {
    time_since(now as int, time as int) <= max_memory
}

/// The stale entries at the front end before the first entry that is fresh.
pub proof fn lemma_stale_prefix_ends(times: Seq<i64>, now: i64, max_memory: i64)
    ensures
        stale_prefix(times, now, max_memory) <= times.len(),
        stale_prefix(times, now, max_memory) < times.len() ==> is_fresh(
            times[stale_prefix(times, now, max_memory) as int],
            now,
            max_memory,
        ),
        forall|i: int|
            0 <= i < times.len() && is_fresh(#[trigger] times[i], now, max_memory)
                ==> stale_prefix(times, now, max_memory) <= i,
    decreases times.len(),
{
    if times.len() > 0 && !is_fresh(times[0], now, max_memory) {
        let rest = times.skip(1);
        lemma_stale_prefix_ends(rest, now, max_memory);
        assert forall|i: int|
            0 <= i < times.len() && is_fresh(#[trigger] times[i], now, max_memory) implies 1
            + stale_prefix(rest, now, max_memory) <= i by {
            assert(rest[i - 1] == times[i]);
        }
    }
}

/// Where the readings came in the order of their times, every entry behind
/// the stale front is fresh: after the eviction nothing in the window is
/// older than the window remembers.
pub proof fn lemma_window_is_fresh(times: Seq<i64>, now: i64, max_memory: i64)
    requires
        forall|i: int, j: int| 0 <= i <= j < times.len() ==> times[i] <= times[j],
    ensures
        forall|i: int|
            stale_prefix(times, now, max_memory) <= i < times.len() ==> is_fresh(
                #[trigger] times[i],
                now,
                max_memory,
            ),
{
    lemma_stale_prefix_ends(times, now, max_memory);
    let first = stale_prefix(times, now, max_memory) as int;
    assert forall|i: int| first <= i < times.len() implies is_fresh(
        #[trigger] times[i],
        now,
        max_memory,
    ) by {
        assert(times[first] <= times[i]);
    }
}

/// A change of acceleration above this is more than noise: the square of
/// 0.015.
pub const NOISE_THRESHOLD: u128 = 225_000_000;

/// More changes above the noise than this, and somebody is in the bed.
pub const NOISE_THRESHOLD_SAMPLES: usize = 1;

/// A change of acceleration above this is a marked movement: the square of
/// 0.02.
pub const MOVEMENT_THRESHOLD: u128 = 400_000_000;

/// More marked movements than this, and the sleeper moves markedly.
pub const MOVEMENT_THRESHOLD_SAMPLES: usize = 2;

fn squared(d: i64) -> (sq: u128)
    requires
        -0xffff_ffff <= d <= 0xffff_ffff,
    ensures
        sq == d * d,
        sq <= 0xffff_ffff * 0xffff_ffff,
{
    assert(0 <= d * d <= 0xffff_ffff * 0xffff_ffff) by (nonlinear_arith)
        requires
            -0xffff_ffff <= d <= 0xffff_ffff,
    ;
    ((d as i128) * (d as i128)) as u128
}

fn delta_magnitude_squared(from: &AccelerometerData, to: &AccelerometerData) -> (sq: u128)
    ensures
        sq == delta_squared(*from, *to),
{
    let dx = squared(to.acc.0 as i64 - from.acc.0 as i64);
    let dy = squared(to.acc.1 as i64 - from.acc.1 as i64);
    let dz = squared(to.acc.2 as i64 - from.acc.2 as i64);
    dx + dy + dz
}

fn count_over(deltas: &Vec<u128>, threshold: u128) -> (count: usize)
    ensures
        count == count_above(deltas@, threshold),
{
    let mut count: usize = 0;
    let mut i: usize = 0;
    while i < deltas.len()
        invariant
            i <= deltas@.len(),
            count <= i,
            count == count_above(deltas@.take(i as int), threshold),
        decreases deltas@.len() - i,
    {
        assert(deltas@.take(i + 1).drop_last() =~= deltas@.take(i as int));
        if deltas[i] > threshold {
            count += 1;
        }
        i += 1;
    }
    assert(deltas@.take(deltas@.len() as int) =~= deltas@);
    count
}

/// The rolling window over the readings of the accelerometer.
pub struct SleepMonitor {
    rolling_data: Vec<AccelerometerData>,
    times: Vec<i64>,
    rolling_delta_magn: Vec<u128>,
    max_memory: i64,
}

impl SleepMonitor {
    /// The readings in the window, oldest first.
    pub closed spec fn samples(&self) -> Seq<AccelerometerData> {
        self.rolling_data@
    }

    /// The time at which each reading in the window was pushed.
    pub closed spec fn sample_times(&self) -> Seq<i64> {
        self.times@
    }

    /// The squared magnitudes of the changes between neighbouring readings.
    pub closed spec fn deltas(&self) -> Seq<u128> {
        self.rolling_delta_magn@
    }

    /// For how long the window remembers a reading.
    pub closed spec fn retention(&self) -> i64 {
        self.max_memory
    }

    /// Every reading has its time, and the changes are one fewer than the
    /// readings.
    pub open spec fn wf(&self) -> bool {
        &&& self.sample_times().len() == self.samples().len()
        &&& if self.samples().len() == 0 {
            self.deltas().len() == 0
        } else {
            self.deltas().len() == self.samples().len() - 1
        }
    }

    /// An empty window that remembers a reading for `max_memory` milliseconds.
    pub fn new(max_memory: i64) -> (monitor: SleepMonitor)
        ensures
            monitor.wf(),
            monitor.samples() == Seq::<AccelerometerData>::empty(),
            monitor.sample_times() == Seq::<i64>::empty(),
            monitor.deltas() == Seq::<u128>::empty(),
            monitor.retention() == max_memory,
    {
        SleepMonitor {
            rolling_data: Vec::new(),
            times: Vec::new(),
            rolling_delta_magn: Vec::new(),
            max_memory,
        }
    }

    /// How many readings the window holds.
    pub fn len(&self) -> (n: usize)
        ensures
            n == self.samples().len(),
    {
        self.rolling_data.len()
    }

    /// Whether the sleeper moves markedly: more than
    /// `MOVEMENT_THRESHOLD_SAMPLES` changes in the window lie above
    /// `MOVEMENT_THRESHOLD`.
    pub fn is_significant_movement(&self) -> (moving: bool)
        ensures
            moving == (count_above(self.deltas(), MOVEMENT_THRESHOLD)
                > MOVEMENT_THRESHOLD_SAMPLES),
    {
        count_over(&self.rolling_delta_magn, MOVEMENT_THRESHOLD) > MOVEMENT_THRESHOLD_SAMPLES
    }

    /// Whether somebody is in the bed: more than `NOISE_THRESHOLD_SAMPLES`
    /// changes in the window lie above `NOISE_THRESHOLD`.
    pub fn is_present(&self) -> (present: bool)
        ensures
            present == (count_above(self.deltas(), NOISE_THRESHOLD) > NOISE_THRESHOLD_SAMPLES),
    {
        count_over(&self.rolling_delta_magn, NOISE_THRESHOLD) > NOISE_THRESHOLD_SAMPLES
    }
}

/// The window of changes after a reading is pushed behind `samples`.
pub open spec fn deltas_with(
    samples: Seq<AccelerometerData>,
    deltas: Seq<u128>,
    data: AccelerometerData,
) -> Seq<u128> {
    if samples.len() > 0 {
        deltas.push(delta_squared(samples.last(), data) as u128)
    } else {
        deltas
    }
}

/// All but the first `n` changes, and none where there are no more than `n`.
pub open spec fn deltas_after(deltas: Seq<u128>, n: nat) -> Seq<u128> {
    if n <= deltas.len() {
        deltas.skip(n as int)
    } else {
        Seq::<u128>::empty()
    }
}

impl SleepMonitor {
    /// Takes a reading into the window, at the time `now`.
    ///
    /// The reading goes to the back of the window, and with it the change
    /// from the reading before it, where there is one. Then every reading at
    /// the front that is older than the window remembers leaves it, each
    /// with the change that led away from it.
    pub fn push(&mut self, data: AccelerometerData, now: i64)
        requires
            old(self).wf(),
        ensures
            final(self).wf(),
            final(self).retention() == old(self).retention(),
            final(self).sample_times().len() > 0 ==> is_fresh(
                final(self).sample_times()[0],
                now,
                old(self).retention(),
            ),
            old(self).retention() >= 0 ==> final(self).samples().len() > 0,
            old(self).retention() >= 0 ==> final(self).samples().last() == data,
            ({
                let times = old(self).sample_times().push(now);
                let stale = stale_prefix(times, now, old(self).retention());
                &&& stale <= times.len()
                &&& final(self).samples() == old(self).samples().push(data).skip(stale as int)
                &&& final(self).sample_times() == times.skip(stale as int)
                &&& final(self).deltas() == deltas_after(
                    deltas_with(old(self).samples(), old(self).deltas(), data),
                    stale,
                )
            }),
    {
        let ghost samples = old(self).samples().push(data);
        let ghost times = old(self).sample_times().push(now);
        let ghost deltas = deltas_with(old(self).samples(), old(self).deltas(), data);
        let before = self.rolling_data.len();
        if before > 0 {
            let change = delta_magnitude_squared(&self.rolling_data[before - 1], &data);
            self.rolling_delta_magn.push(change);
        }
        self.rolling_data.push(data);
        self.times.push(now);
        assert(self.rolling_delta_magn@ =~= deltas);

        let ghost mut evicted: int = 0;
        proof {
            lemma_stale_prefix_ends(times, now, self.max_memory);
            assert(times[times.len() - 1] == now);
            assert(times.skip(0) =~= times);
            assert(samples.skip(0) =~= samples);
            assert(deltas.skip(0) =~= deltas);
        }
        while self.times.len() > 0 && elapsed_since(now, self.times[0]) > self.max_memory
            invariant
                self.max_memory == old(self).max_memory,
                times.len() == samples.len(),
                deltas.len() + 1 == samples.len(),
                0 <= evicted <= times.len(),
                self.times@ == times.skip(evicted),
                self.rolling_data@ == samples.skip(evicted),
                self.rolling_delta_magn@ == deltas_after(deltas, evicted as nat),
                stale_prefix(times, now, self.max_memory) == evicted + stale_prefix(
                    self.times@,
                    now,
                    self.max_memory,
                ),
            decreases self.times@.len(),
        {
            proof {
                assert(times.skip(evicted).skip(1) =~= times.skip(evicted + 1));
                assert(samples.skip(evicted).skip(1) =~= samples.skip(evicted + 1));
                assert(self.times@.remove(0) =~= self.times@.skip(1));
                assert(self.rolling_data@.remove(0) =~= self.rolling_data@.skip(1));
                if evicted < deltas.len() {
                    assert(deltas.skip(evicted).skip(1) =~= deltas.skip(evicted + 1));
                    assert(self.rolling_delta_magn@.remove(0) =~= self.rolling_delta_magn@.skip(
                        1,
                    ));
                }
            }
            self.times.remove(0);
            self.rolling_data.remove(0);
            if self.rolling_delta_magn.len() > 0 {
                self.rolling_delta_magn.remove(0);
            }
            proof {
                evicted = evicted + 1;
                if evicted == deltas.len() {
                    assert(deltas.skip(evicted) =~= Seq::<u128>::empty());
                }
            }
        }
    }
}

} // verus!
