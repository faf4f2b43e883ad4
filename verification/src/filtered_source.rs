//! The streaming low-pass filter: a convolution over the fully supported
//! region of a buffer, and the block-by-block filter built on it.

use crate::fixed::{clamped_to_unit, rescale, rescaled, saturated, ONE};
use crate::hint::{extend_hint, extend_upper, lower_with, upper_with};
use vstd::prelude::*;

verus! {

/// Why a filter operation was refused.
#[derive(Debug, Clone, Copy, PartialEq, Eq, Structural)]
pub enum FilterError {
    /// A sample rate, a channel count or a cut-off frequency was not positive.
    InvalidFilterParameters,
    /// The lengths of kernel, input and output do not fit together.
    InvalidConvolutionShape,
}

/// The sum of `input[at + j] * kernel[j]` over the first `n` taps `j`.
pub open spec fn weighted_sum(kernel: Seq<i32>, input: Seq<i32>, at: int, n: int) -> int
    decreases n,
{
    if n <= 0 {
        0
    } else {
        weighted_sum(kernel, input, at, n - 1) + input[at + n - 1] * kernel[n - 1]
    }
}

/// The filtered sample at position `at`: the weighted sum over the whole
/// kernel, brought back to millionths.
pub open spec fn convolved_sample(kernel: Seq<i32>, input: Seq<i32>, at: int) -> i32 {
    saturated(rescaled(weighted_sum(kernel, input, at, kernel.len() as int))) as i32
}

/// How many samples of an input the whole kernel fits on.
pub open spec fn convolved_len(kernel_len: nat, input_len: nat) -> nat {
    if input_len >= kernel_len {
        (input_len - kernel_len) as nat
    } else {
        0
    }
}

/// The convolution of `input` with `kernel`, restricted to the positions at
/// which the whole kernel lies inside the input.
pub open spec fn convolved(kernel: Seq<i32>, input: Seq<i32>) -> Seq<i32> {
    Seq::new(
        convolved_len(kernel.len(), input.len()),
        |at: int| convolved_sample(kernel, input, at),
    )
}

/// The lengths that `convolve` accepts: an even kernel, an input at least as
/// long as the kernel, and an output for exactly the fully supported samples.
pub open spec fn convolution_shape(kernel_len: nat, input_len: nat, output_len: nat) -> bool {
    &&& kernel_len % 2 == 0
    &&& input_len >= kernel_len
    &&& output_len == input_len - kernel_len
}

proof fn lemma_product_bound(a: i32, b: i32)
    ensures
        -0x4000_0000_0000_0000 <= a * b <= 0x4000_0000_0000_0000,
{
    assert(-0x4000_0000_0000_0000 <= a * b <= 0x4000_0000_0000_0000) by (nonlinear_arith)
        requires
            -0x8000_0000 <= a <= 0x8000_0000,
            -0x8000_0000 <= b <= 0x8000_0000,
    ;
}

/// The weighted sum over the first `n` taps at `at`, for an `n` within the kernel.
fn weighted_sum_at(filter: &[i32], input: &[i32], at: usize, n: usize) -> (sum: i128)
    requires
        n <= filter@.len(),
        at + n <= input@.len(),
    ensures
        sum == weighted_sum(filter@, input@, at as int, n as int),
{
    let end = input.len();
    let mut sum: i128 = 0;
    let mut j: usize = 0;
    while j < n
        invariant
            j <= n,
            n <= filter@.len(),
            at + n <= end,
            end == input@.len(),
            sum == weighted_sum(filter@, input@, at as int, j as int),
            -0x4000_0000_0000_0000 * j <= sum <= 0x4000_0000_0000_0000 * j,
        decreases n - j,
    {
        let x = input[at + j];
        let k = filter[j];
        proof {
            lemma_product_bound(x, k);
        }
        sum = sum + (x as i128) * (k as i128);
        j += 1;
    }
    sum
}

/// Writes into `output` the convolution of `input` with `filter` over the
/// fully supported region: half a kernel of samples on each side of the input
/// is consumed without being emitted.
///
/// Lengths that do not fit are refused and `output` is left as it was.
pub fn convolve(filter: &[i32], input: &[i32], output: &mut [i32]) -> (r: Result<(), FilterError>)
    ensures
        r is Ok <==> convolution_shape(filter@.len(), input@.len(), old(output)@.len()),
        r is Ok ==> final(output)@ == convolved(filter@, input@),
        r is Err ==> r == Err::<(), FilterError>(FilterError::InvalidConvolutionShape),
        r is Err ==> final(output)@ == old(output)@,
{
    let taps = filter.len();
    if taps % 2 != 0 || input.len() < taps || output.len() != input.len() - taps {
        return Err(FilterError::InvalidConvolutionShape);
    }
    let n = output.len();
    let mut at: usize = 0;
    while at < n
        invariant
            at <= n,
            taps == filter@.len(),
            n == output@.len(),
            n == input@.len() - taps,
            forall|i: int| 0 <= i < at ==> output@[i] == convolved_sample(filter@, input@, i),
        decreases n - at,
    {
        let sum = weighted_sum_at(filter, input, at, taps);
        output[at] = rescale(sum);
        at += 1;
    }
    assert(output@ =~= convolved(filter@, input@));
    Ok(())
}


/// How many samples one block of working input holds at most.
pub const BLOCK_SIZE: usize = 1024;

/// After how many emitted samples the kernel is designed anew.
pub const RECOMPUTE_INTERVAL: u64 = 8192;

/// How many fresh samples a block takes from upstream, for a kernel of
/// `kernel_len` taps.
pub open spec fn frame_len(kernel_len: nat) -> nat {
    if kernel_len <= BLOCK_SIZE {
        (BLOCK_SIZE - kernel_len) as nat
    } else {
        0
    }
}

/// `fresh`, followed by silence up to `len` samples.
pub open spec fn zero_padded(fresh: Seq<i32>, len: nat) -> Seq<i32> {
    Seq::new(
        len,
        |i: int|
            if i < fresh.len() {
                fresh[i]
            } else {
                0i32
            },
    )
}

/// The working input of a block: what the previous block carried over, then
/// one frame of fresh samples, padded with silence where upstream ran dry.
pub open spec fn block_input(trailing: Seq<i32>, fresh: Seq<i32>, kernel_len: nat) -> Seq<i32> {
    trailing + zero_padded(fresh, frame_len(kernel_len))
}

/// What a block carries over to the next: the last `kernel_len` samples of
/// its working input.
pub open spec fn carried_over(input: Seq<i32>, kernel_len: nat) -> Seq<i32> {
    input.subrange(input.len() - kernel_len, input.len() as int)
}

/// A filtered sample after the gain: multiplied, then limited to the range
/// from -1.0 to 1.0.
pub open spec fn with_gain(sample: i32, gain: i32) -> i32 {
    clamped_to_unit(rescaled(sample * gain)) as i32
}

/// The samples that a block emits: its working input convolved with the
/// kernel, each sample then taken through the gain.
pub open spec fn block_output(input: Seq<i32>, kernel: Seq<i32>, gain: i32) -> Seq<i32> {
    Seq::new(
        convolved_len(kernel.len(), input.len()),
        |at: int| with_gain(convolved_sample(kernel, input, at), gain),
    )
}

/// Whether a block can be formed: upstream handed over no more than a frame,
/// and the working input is at least as long as the kernel.
pub open spec fn block_fits(trailing_len: nat, fresh_len: nat, kernel_len: nat) -> bool {
    &&& fresh_len <= frame_len(kernel_len)
    &&& trailing_len + frame_len(kernel_len) >= kernel_len
}

/// Whether every sample lies in the range from -1.0 to 1.0.
pub open spec fn within_unit(samples: Seq<i32>) -> bool {
    forall|i: int| 0 <= i < samples.len() ==> -ONE <= #[trigger] samples[i] <= ONE
}

/// Whatever gain is stored, even one far out of range, every sample that a
/// block emits lies in the range from -1.0 to 1.0.
pub proof fn lemma_block_output_within_unit(input: Seq<i32>, kernel: Seq<i32>, gain: i32)
    ensures
        within_unit(block_output(input, kernel, gain)),
{
}

/// Multiplies a sample by the gain and limits the result to the range from
/// -1.0 to 1.0.
pub fn apply_gain(sample: i32, gain: i32) -> (out: i32)
    ensures
        out == with_gain(sample, gain),
        -ONE <= out <= ONE,
{
    proof {
        lemma_product_bound(sample, gain);
    }
    let scaled: i64 = (sample as i64) * (gain as i64) / (ONE as i64);
    if scaled > ONE as i64 {
        ONE
    } else if scaled < -(ONE as i64) {
        -ONE
    } else {
        scaled as i32
    }
}

/// The record that the filter reads before each block and that the control
/// side writes: the taps of the low-pass kernel and the gain.
#[derive(Debug)]
pub struct Settings {
    lowpass: Vec<i32>,
    volume: i32,
}

impl Settings {
    /// The taps of the kernel.
    pub closed spec fn kernel(&self) -> Seq<i32> {
        self.lowpass@
    }

    /// The gain, in millionths.
    pub closed spec fn gain(&self) -> i32 {
        self.volume
    }

    /// A kernel has an even number of taps and leaves room for a frame in a block.
    pub open spec fn wf(&self) -> bool {
        &&& self.kernel().len() % 2 == 0
        &&& self.kernel().len() < BLOCK_SIZE
    }

    /// Settings before the first block: no kernel yet, and full volume.
    pub fn new() -> (s: Settings)
        ensures
            s.wf(),
            s.kernel() == Seq::<i32>::empty(),
            s.gain() == ONE,
    {
        Settings { lowpass: Vec::new(), volume: ONE }
    }

    /// A copy of the settings as they stand, for a reader that must not hold
    /// on to the shared record while it works.
    pub fn snapshot(&self) -> (copy: Settings)
        ensures
            copy.kernel() == self.kernel(),
            copy.gain() == self.gain(),
    {
        let taps = self.lowpass.clone();
        assert(taps@ =~= self.lowpass@);
        Settings { lowpass: taps, volume: self.volume }
    }

    /// Stores the gain as it is given; it is limited only when samples are produced.
    pub fn set_volume(&mut self, v: i32)
        ensures
            final(self).gain() == v,
            final(self).kernel() == old(self).kernel(),
    {
        self.volume = v;
    }

    /// The gain as it was last stored.
    pub fn volume(&self) -> (v: i32)
        ensures
            v == self.gain(),
    {
        self.volume
    }

    /// The taps of the kernel.
    pub fn lowpass(&self) -> (taps: &Vec<i32>)
        ensures
            taps@ == self.kernel(),
    {
        &self.lowpass
    }

    /// Stores a new kernel. One with an odd number of taps, or with
    /// `BLOCK_SIZE` taps or more, is refused and the settings stay as they were.
    pub fn set_lowpass(&mut self, taps: Vec<i32>) -> (r: Result<(), FilterError>)
        requires
            old(self).wf(),
        ensures
            final(self).wf(),
            final(self).gain() == old(self).gain(),
            r is Ok <==> taps@.len() % 2 == 0 && taps@.len() < BLOCK_SIZE,
            r is Ok ==> final(self).kernel() == taps@,
            r is Err ==> r == Err::<(), FilterError>(FilterError::InvalidConvolutionShape),
            r is Err ==> final(self).kernel() == old(self).kernel(),
    {
        if taps.len() % 2 != 0 || taps.len() >= BLOCK_SIZE {
            return Err(FilterError::InvalidConvolutionShape);
        }
        self.lowpass = taps;
        Ok(())
    }
}


/// The time by which `consumed` samples have played, in milliseconds, for a
/// stream of `channels` interleaved channels at `sample_rate` frames a second.
pub open spec fn elapsed_millis(consumed: nat, channels: nat, sample_rate: nat) -> int {
    let millis = (consumed * 1000) / (channels * sample_rate);
    if millis > i64::MAX {
        i64::MAX as int
    } else {
        millis as int
    }
}

/// What the filter hands to its driver, or asks of it.
#[derive(Debug, Clone, Copy, PartialEq, Eq, Structural)]
pub enum Pull {
    /// The next filtered sample.
    Sample(i32),
    /// No output is buffered and the kernel is missing or stale: a kernel
    /// designed for the cut-off frequency at this time has to be installed.
    NeedKernel { elapsed_ms: i64 },
    /// No output is buffered: the next block has to be formed from up to
    /// `len` fresh samples.
    NeedFrame { len: usize },
}

/// The streaming filter. It emits the samples of one block at a time and
/// keeps, between blocks, the end of the working input that the next block
/// needs as its beginning.
pub struct FilteredSource {
    channels: u16,
    sample_rate: u32,
    input_buffer: Vec<i32>,
    trailing_samples: Vec<i32>,
    current_buffer_index: usize,
    current_buffer: Vec<i32>,
    sample_count: u64,
    last_lowpass_recalculation: u64,
}

impl FilteredSource {
    /// The samples carried over from the previous block.
    pub closed spec fn trailing(&self) -> Seq<i32> {
        self.trailing_samples@
    }

    /// The samples of the current block that have not been emitted yet.
    pub closed spec fn ready(&self) -> Seq<i32> {
        self.current_buffer@.skip(self.current_buffer_index as int)
    }

    /// How many samples the current block emits in all.
    pub closed spec fn block_len(&self) -> nat {
        self.current_buffer@.len()
    }

    /// How many samples have been emitted.
    pub closed spec fn consumed(&self) -> nat {
        self.sample_count as nat
    }

    /// How many samples had been emitted when the kernel was last installed.
    pub closed spec fn last_recompute(&self) -> nat {
        self.last_lowpass_recalculation as nat
    }

    /// The number of interleaved channels of the stream.
    pub closed spec fn channel_count(&self) -> nat {
        self.channels as nat
    }

    /// The number of frames a second of the stream.
    pub closed spec fn frame_rate(&self) -> nat {
        self.sample_rate as nat
    }

    /// The filter's invariant.
    pub closed spec fn wf(&self) -> bool {
        &&& self.channels > 0
        &&& self.sample_rate > 0
        &&& self.current_buffer_index <= self.current_buffer@.len()
        &&& self.current_buffer@.len() < 2 * BLOCK_SIZE
        &&& self.trailing_samples@.len() < BLOCK_SIZE
        &&& self.last_lowpass_recalculation <= self.sample_count
        &&& within_unit(self.current_buffer@)
    }

    /// Whether a kernel has to be designed before the next block: none is
    /// installed yet, or more than `RECOMPUTE_INTERVAL` samples were emitted
    /// since the last one was.
    pub open spec fn kernel_due(&self, settings: &Settings) -> bool {
        ||| settings.kernel().len() == 0
        ||| self.consumed() - self.last_recompute() > RECOMPUTE_INTERVAL
    }

    /// The time that the emitted samples span, in milliseconds.
    pub open spec fn elapsed(&self) -> int {
        elapsed_millis(self.consumed(), self.channel_count(), self.frame_rate())
    }

    /// Every buffered sample lies in the range from -1.0 to 1.0, whatever
    /// gain was stored when its block was formed.
    pub proof fn lemma_ready_within_unit(&self)
        requires
            self.wf(),
        ensures
            within_unit(self.ready()),
    {
        let ready = self.ready();
        assert forall|i: int| 0 <= i < ready.len() implies -ONE <= #[trigger] ready[i] <= ONE by {
            assert(ready[i] == self.current_buffer@[self.current_buffer_index + i]);
        }
    }

    fn elapsed_ms(&self) -> (ms: i64)
        requires
            self.wf(),
        ensures
            ms == self.elapsed(),
    {
        assert(self.channels * self.sample_rate <= 0xffff * 0xffff_ffff) by (nonlinear_arith)
            requires
                self.channels <= 0xffff,
                self.sample_rate <= 0xffff_ffff,
        ;
        assert(self.channels * self.sample_rate > 0) by (nonlinear_arith)
            requires
                self.channels > 0,
                self.sample_rate > 0,
        ;
        let per_second: u64 = (self.channels as u64) * (self.sample_rate as u64);
        let millis: u128 = (self.sample_count as u128) * 1000 / (per_second as u128);
        if millis > i64::MAX as u128 {
            i64::MAX
        } else {
            millis as i64
        }
    }

    /// Emits the next buffered sample. Where none is buffered, says what has
    /// to happen first and leaves the filter as it is: a kernel is asked for
    /// where one is due, a frame of fresh samples otherwise.
    pub fn next(&mut self, settings: &Settings) -> (pull: Pull)
        requires
            old(self).wf(),
            settings.wf(),
        ensures
            final(self).wf(),
            final(self).trailing() == old(self).trailing(),
            final(self).block_len() == old(self).block_len(),
            final(self).last_recompute() == old(self).last_recompute(),
            final(self).channel_count() == old(self).channel_count(),
            final(self).frame_rate() == old(self).frame_rate(),
            old(self).ready().len() > 0 ==> {
                &&& pull == Pull::Sample(old(self).ready()[0])
                &&& -ONE <= old(self).ready()[0] <= ONE
                &&& final(self).ready() == old(self).ready().skip(1)
                &&& final(self).consumed() == if old(self).consumed() < u64::MAX {
                    old(self).consumed() + 1
                } else {
                    old(self).consumed()
                }
            },
            old(self).ready().len() == 0 ==> {
                &&& final(self).ready() == old(self).ready()
                &&& final(self).consumed() == old(self).consumed()
                &&& pull == if old(self).kernel_due(settings) {
                    Pull::NeedKernel { elapsed_ms: old(self).elapsed() as i64 }
                } else {
                    Pull::NeedFrame { len: frame_len(settings.kernel().len()) as usize }
                }
            },
    {
        if self.current_buffer_index < self.current_buffer.len() {
            let sample = self.current_buffer[self.current_buffer_index];
            proof {
                assert(old(self).ready()[0] == sample);
                assert(old(self).ready().skip(1) =~= self.current_buffer@.skip(
                    self.current_buffer_index + 1,
                ));
            }
            self.current_buffer_index += 1;
            if self.sample_count < u64::MAX {
                self.sample_count += 1;
            }
            return Pull::Sample(sample);
        }
        if settings.lowpass.len() == 0 || self.sample_count - self.last_lowpass_recalculation
            > RECOMPUTE_INTERVAL {
            Pull::NeedKernel { elapsed_ms: self.elapsed_ms() }
        } else {
            Pull::NeedFrame { len: BLOCK_SIZE - settings.lowpass.len() }
        }
    }
}


/// The cut-off frequency that a kernel is designed for: the one asked for,
/// lowered to half the sample rate where it lies above.
pub open spec fn design_cutoff(cutoff_hz: i64, sample_rate: u32) -> int {
    if cutoff_hz > sample_rate / 2 {
        (sample_rate / 2) as int
    } else {
        cutoff_hz as int
    }
}

/// What a low-pass kernel is designed from.
#[derive(Debug, Clone, Copy, PartialEq, Eq, Structural)]
pub struct KernelRequest {
    /// The cut-off frequency in hertz, at most half the sample rate.
    pub cutoff_hz: u32,
    /// The sample rate in hertz.
    pub sample_rate: u32,
}

/// Checks the parameters of a kernel design. The cut-off frequency is lowered
/// to half the sample rate where it lies above; a cut-off frequency or a
/// sample rate that is not positive is refused.
pub fn kernel_request(cutoff_hz: i64, sample_rate: u32) -> (r: Result<KernelRequest, FilterError>)
    ensures
        r is Ok <==> cutoff_hz > 0 && sample_rate > 0,
        r is Ok ==> r->Ok_0.cutoff_hz == design_cutoff(cutoff_hz, sample_rate) && r->Ok_0.sample_rate
            == sample_rate,
        r is Err ==> r == Err::<KernelRequest, FilterError>(FilterError::InvalidFilterParameters),
{
    if cutoff_hz <= 0 || sample_rate == 0 {
        return Err(FilterError::InvalidFilterParameters);
    }
    let nyquist = sample_rate / 2;
    let cutoff = if cutoff_hz > nyquist as i64 {
        nyquist
    } else {
        cutoff_hz as u32
    };
    Ok(KernelRequest { cutoff_hz: cutoff, sample_rate })
}

/// Makes a filter for a stream of `channels` interleaved channels at
/// `sample_rate` frames a second, and the settings it starts from: no kernel
/// yet, and full volume. A stream without channels or without a sample rate
/// is refused.
pub fn dynamic_filter(channels: u16, sample_rate: u32) -> (r: Result<
    (FilteredSource, Settings),
    FilterError,
>)
    ensures
        r is Ok <==> channels > 0 && sample_rate > 0,
        r is Err ==> r == Err::<(FilteredSource, Settings), FilterError>(
            FilterError::InvalidFilterParameters,
        ),
        r is Ok ==> {
            let (source, settings) = r->Ok_0;
            &&& source.wf()
            &&& source.trailing() == Seq::<i32>::empty()
            &&& source.ready() == Seq::<i32>::empty()
            &&& source.block_len() == 0
            &&& source.consumed() == 0
            &&& source.last_recompute() == 0
            &&& source.channel_count() == channels
            &&& source.frame_rate() == sample_rate
            &&& settings.wf()
            &&& settings.kernel() == Seq::<i32>::empty()
            &&& settings.gain() == ONE
        },
{
    if channels == 0 || sample_rate == 0 {
        return Err(FilterError::InvalidFilterParameters);
    }
    let source = FilteredSource {
        channels,
        sample_rate,
        input_buffer: Vec::new(),
        trailing_samples: Vec::new(),
        current_buffer_index: 0,
        current_buffer: Vec::new(),
        sample_count: 0,
        last_lowpass_recalculation: 0,
    };
    assert(source.ready() =~= Seq::<i32>::empty());
    Ok((source, Settings::new()))
}

impl FilteredSource {
    /// The number of interleaved channels of the stream.
    pub fn channels(&self) -> (n: u16)
        ensures
            n == self.channel_count(),
    {
        self.channels
    }

    /// The number of frames a second of the stream.
    pub fn sample_rate(&self) -> (hz: u32)
        ensures
            hz == self.frame_rate(),
    {
        self.sample_rate
    }

    /// The bounds on the samples left, from those of upstream: the length of
    /// the current block comes on top.
    pub fn size_hint(&self, inner: (usize, Option<usize>)) -> (hint: (usize, Option<usize>))
        ensures
            hint.0 == lower_with(inner.0, self.block_len() as usize),
            hint.1 == upper_with(inner.1, self.block_len() as usize),
    {
        extend_hint(inner, self.current_buffer.len())
    }

    /// The number of samples before the format of the stream may change,
    /// from that of upstream.
    pub fn current_frame_len(&self, inner: Option<usize>) -> (len: Option<usize>)
        ensures
            len == upper_with(inner, self.block_len() as usize),
    {
        extend_upper(inner, self.current_buffer.len())
    }

    /// Checks a cut-off frequency against the sample rate of this stream.
    pub fn design_parameters(&self, cutoff_hz: i64) -> (r: Result<KernelRequest, FilterError>)
        requires
            self.wf(),
        ensures
            r is Ok <==> cutoff_hz > 0,
            r is Ok ==> r->Ok_0.cutoff_hz == design_cutoff(cutoff_hz, self.frame_rate() as u32)
                && r->Ok_0.sample_rate == self.frame_rate(),
            r is Err ==> r == Err::<KernelRequest, FilterError>(
                FilterError::InvalidFilterParameters,
            ),
    {
        kernel_request(cutoff_hz, self.sample_rate)
    }

    /// Stores a newly designed kernel in the settings and notes how many
    /// samples had been emitted by then. A kernel that the settings refuse
    /// changes nothing.
    pub fn install_kernel(&mut self, settings: &mut Settings, taps: Vec<i32>) -> (r: Result<
        (),
        FilterError,
    >)
        requires
            old(self).wf(),
            old(settings).wf(),
        ensures
            final(self).wf(),
            final(settings).wf(),
            final(settings).gain() == old(settings).gain(),
            final(self).trailing() == old(self).trailing(),
            final(self).ready() == old(self).ready(),
            final(self).block_len() == old(self).block_len(),
            final(self).consumed() == old(self).consumed(),
            final(self).channel_count() == old(self).channel_count(),
            final(self).frame_rate() == old(self).frame_rate(),
            r is Ok <==> taps@.len() % 2 == 0 && taps@.len() < BLOCK_SIZE,
            r is Ok ==> final(settings).kernel() == taps@,
            r is Ok ==> final(self).last_recompute() == old(self).consumed(),
            r is Err ==> r == Err::<(), FilterError>(FilterError::InvalidConvolutionShape),
            r is Err ==> final(settings).kernel() == old(settings).kernel(),
            r is Err ==> final(self).last_recompute() == old(self).last_recompute(),
    {
        match settings.set_lowpass(taps) {
            Ok(()) => {
                self.last_lowpass_recalculation = self.sample_count;
                Ok(())
            },
            Err(e) => Err(e),
        }
    }

    /// Forms the next block from what upstream handed over, and buffers its
    /// output. The working input is what the previous block carried over,
    /// then `fresh`, then silence up to a full frame. Its last samples, as
    /// many as the kernel has taps, are carried over to the next block.
    ///
    /// Refused, with the filter unchanged, while buffered output remains,
    /// where `fresh` is longer than a frame, and where the working input
    /// would be shorter than the kernel.
    pub fn refill(&mut self, settings: &Settings, fresh: &[i32]) -> (r: Result<(), FilterError>)
        requires
            old(self).wf(),
            settings.wf(),
        ensures
            final(self).wf(),
            final(self).consumed() == old(self).consumed(),
            final(self).last_recompute() == old(self).last_recompute(),
            final(self).channel_count() == old(self).channel_count(),
            final(self).frame_rate() == old(self).frame_rate(),
            r is Ok <==> old(self).ready().len() == 0 && block_fits(
                old(self).trailing().len(),
                fresh@.len(),
                settings.kernel().len(),
            ),
            r is Ok ==> {
                let input = block_input(old(self).trailing(), fresh@, settings.kernel().len());
                &&& final(self).trailing() == carried_over(input, settings.kernel().len())
                &&& final(self).ready() == block_output(input, settings.kernel(), settings.gain())
                &&& final(self).block_len() == final(self).ready().len()
                &&& final(self).trailing().len() == settings.kernel().len()
            },
            r is Err ==> r == Err::<(), FilterError>(FilterError::InvalidConvolutionShape),
            r is Err ==> final(self).trailing() == old(self).trailing(),
            r is Err ==> final(self).ready() == old(self).ready(),
            r is Err ==> final(self).block_len() == old(self).block_len(),
    {
        let taps = settings.lowpass.len();
        let frame = BLOCK_SIZE - taps;
        let carried = self.trailing_samples.len();
        if self.current_buffer_index < self.current_buffer.len() || fresh.len() > frame || carried
            + frame < taps {
            return Err(FilterError::InvalidConvolutionShape);
        }
        let ghost input = block_input(old(self).trailing(), fresh@, settings.kernel().len());
        let total = carried + frame;

        let mut working: Vec<i32> = Vec::new();
        let mut carry: Vec<i32> = Vec::new();
        let mut output: Vec<i32> = Vec::new();
        core::mem::swap(&mut working, &mut self.input_buffer);
        core::mem::swap(&mut carry, &mut self.trailing_samples);
        core::mem::swap(&mut output, &mut self.current_buffer);

        working.clear();
        let mut i: usize = 0;
        while i < carried
            invariant
                i <= carried <= total,
                carried == carry@.len(),
                input.len() == total,
                input == carry@ + zero_padded(fresh@, frame as nat),
                working@ == input.take(i as int),
            decreases carried - i,
        {
            working.push(carry[i]);
            assert(working@ =~= input.take(i + 1));
            i += 1;
        }
        while i < total
            invariant
                carried <= i <= total,
                total == carried + frame,
                fresh@.len() <= frame,
                carried == carry@.len(),
                input.len() == total,
                input == carry@ + zero_padded(fresh@, frame as nat),
                working@ == input.take(i as int),
            decreases total - i,
        {
            let sample = if i - carried < fresh.len() {
                fresh[i - carried]
            } else {
                0
            };
            working.push(sample);
            assert(working@ =~= input.take(i + 1));
            i += 1;
        }
        assert(working@ =~= input);

        carry.clear();
        let mut k: usize = total - taps;
        while k < total
            invariant
                taps <= total,
                total - taps <= k <= total,
                total == input.len(),
                working@ == input,
                carry@ == input.subrange(total - taps, k as int),
            decreases total - k,
        {
            carry.push(working[k]);
            assert(carry@ =~= input.subrange(total - taps, k + 1));
            k += 1;
        }

        output.clear();
        let mut n: usize = 0;
        while n < total - taps
            invariant
                taps <= total,
                n <= total - taps,
                output@.len() == n,
            decreases total - taps - n,
        {
            output.push(0);
            n += 1;
        }
        let shaped = convolve(&settings.lowpass, &working, &mut output);
        assert(shaped is Ok);
        let mut at: usize = 0;
        while at < total - taps
            invariant
                taps <= total,
                at <= total - taps,
                output@.len() == total - taps,
                input.len() == total,
                taps == settings.kernel().len(),
                forall|j: int|
                    0 <= j < at ==> -ONE <= #[trigger] output@[j] <= ONE && output@[j] == with_gain(
                        convolved_sample(settings.kernel(), input, j),
                        settings.gain(),
                    ),
                forall|j: int|
                    at <= j < total - taps ==> #[trigger] output@[j] == convolved_sample(
                        settings.kernel(),
                        input,
                        j,
                    ),
            decreases total - taps - at,
        {
            let limited = apply_gain(output[at], settings.volume);
            output[at] = limited;
            at += 1;
        }
        proof {
            assert(output@.skip(0) =~= output@);
            assert(output@ =~= block_output(input, settings.kernel(), settings.gain()));
        }
        self.input_buffer = working;
        self.trailing_samples = carry;
        self.current_buffer = output;
        self.current_buffer_index = 0;
        Ok(())
    }
}

} // verus!
