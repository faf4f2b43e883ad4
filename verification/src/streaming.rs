//! Streaming a signal block by block gives what filtering it in one piece
//! gives: the overlap carried from block to block neither loses nor repeats
//! a sample.

use crate::filtered_source::{
    block_input, block_output, carried_over, dynamic_filter, frame_len, weighted_sum, zero_padded,
    FilterError, Pull, BLOCK_SIZE,
};
use vstd::prelude::*;

verus! {

/// The sample of `signal` at position `i`, and silence past its end.
pub open spec fn signal_at(signal: Seq<i32>, i: int) -> i32 {
    if 0 <= i < signal.len() {
        signal[i]
    } else {
        0i32
    }
}

/// The samples of `signal` from position `from` up to `to`, with silence
/// past its end.
pub open spec fn signal_window(signal: Seq<i32>, from: int, to: int) -> Seq<i32> {
    Seq::new((to - from) as nat, |i: int| signal_at(signal, from + i))
}

/// The position in the signal at which block number `block` takes up its
/// frame, for a kernel of `kernel_len` taps.
pub open spec fn frame_start(kernel_len: nat, block: nat) -> int {
    (block * frame_len(kernel_len)) as int
}

/// What upstream hands over for the block that starts at position `from`: the
/// next `frame` samples of the signal, or as many as are left of it.
pub open spec fn fresh_frame(signal: Seq<i32>, from: int, frame: nat) -> Seq<i32> {
    let len = signal.len() as int;
    let start = if from < len { from } else { len };
    let end = if from + frame < len { from + frame } else { len };
    signal.subrange(start, end)
}

/// The working input of block number `block` when `signal` is streamed
/// through a filter with a kernel of `kernel_len` taps.
pub open spec fn streamed_input(kernel_len: nat, signal: Seq<i32>, block: nat) -> Seq<i32>
    decreases block, 1int,
{
    block_input(
        streamed_trailing(kernel_len, signal, block),
        fresh_frame(signal, frame_start(kernel_len, block), frame_len(kernel_len)),
        kernel_len,
    )
}

/// What the filter carries over into block number `block`: nothing into the
/// first, and then the end of the previous block's working input.
pub open spec fn streamed_trailing(kernel_len: nat, signal: Seq<i32>, block: nat) -> Seq<i32>
    decreases block, 0int,
{
    if block == 0 {
        Seq::<i32>::empty()
    } else {
        carried_over(streamed_input(kernel_len, signal, (block - 1) as nat), kernel_len)
    }
}

/// Everything that the first `blocks` blocks emit, in order.
pub open spec fn streamed_output(kernel: Seq<i32>, gain: i32, signal: Seq<i32>, blocks: nat) -> Seq<
    i32,
>
    decreases blocks,
{
    if blocks == 0 {
        Seq::<i32>::empty()
    } else {
        streamed_output(kernel, gain, signal, (blocks - 1) as nat) + block_output(
            streamed_input(kernel.len(), signal, (blocks - 1) as nat),
            kernel,
            gain,
        )
    }
}

proof fn lemma_fresh_frame_padded(signal: Seq<i32>, from: int, frame: nat)
    requires
        from >= 0,
    ensures
        zero_padded(fresh_frame(signal, from, frame), frame) == signal_window(
            signal,
            from,
            from + frame,
        ),
{
    assert(zero_padded(fresh_frame(signal, from, frame), frame) =~= signal_window(
        signal,
        from,
        from + frame,
    ));
}

proof fn lemma_windows_join(signal: Seq<i32>, from: int, mid: int, to: int)
    requires
        from <= mid <= to,
    ensures
        signal_window(signal, from, mid) + signal_window(signal, mid, to) == signal_window(
            signal,
            from,
            to,
        ),
        signal_window(signal, from, to).subrange(mid - from, to - from) == signal_window(
            signal,
            mid,
            to,
        ),
{
    assert(signal_window(signal, from, mid) + signal_window(signal, mid, to) =~= signal_window(
        signal,
        from,
        to,
    ));
    assert(signal_window(signal, from, to).subrange(mid - from, to - from) =~= signal_window(
        signal,
        mid,
        to,
    ));
}

/// The working input of every block is a window of the signal: the first
/// starts with the signal, each later one starts a kernel's length before
/// its frame.
proof fn lemma_streamed_input(kernel_len: nat, signal: Seq<i32>, block: nat)
    requires
        2 * kernel_len <= BLOCK_SIZE,
    ensures
        streamed_input(kernel_len, signal, block) == signal_window(
            signal,
            if block == 0 {
                0
            } else {
                frame_start(kernel_len, block) - kernel_len
            },
            frame_start(kernel_len, block + 1),
        ),
    decreases block,
{
    let frame = frame_len(kernel_len) as int;
    let from = frame_start(kernel_len, block);
    assert(frame_start(kernel_len, block + 1) == from + frame) by (nonlinear_arith)
        requires
            from == block * frame,
            frame_start(kernel_len, block + 1) == (block + 1) * frame,
    ;
    assert(from >= 0) by (nonlinear_arith)
        requires
            from == block * frame,
            frame >= 0,
    ;
    lemma_fresh_frame_padded(signal, from, frame as nat);
    if block == 0 {
        assert(from == 0) by (nonlinear_arith)
            requires
                block == 0,
                from == block * frame,
        ;
        assert(streamed_trailing(kernel_len, signal, block) =~= Seq::<i32>::empty());
        assert(streamed_input(kernel_len, signal, block) =~= signal_window(signal, 0, frame));
    } else {
        let before = (block - 1) as nat;
        let earlier = frame_start(kernel_len, before);
        lemma_streamed_input(kernel_len, signal, before);
        assert(earlier + frame == from) by (nonlinear_arith)
            requires
                before + 1 == block,
                from == block * frame,
                earlier == before * frame,
        ;
        assert(earlier >= 0) by (nonlinear_arith)
            requires
                earlier == before * frame,
                frame >= 0,
        ;
        let start = if before == 0 {
            0
        } else {
            earlier - kernel_len
        };
        lemma_windows_join(signal, start, from - kernel_len, from);
        lemma_windows_join(signal, from - kernel_len, from, from + frame);
    }
}

proof fn lemma_weighted_sum_in_window(
    kernel: Seq<i32>,
    signal: Seq<i32>,
    from: int,
    to: int,
    whole: int,
    at: int,
    n: int,
)
    requires
        0 <= from,
        0 <= at,
        0 <= n,
        from + at + n <= to <= whole,
    ensures
        weighted_sum(kernel, signal_window(signal, from, to), at, n) == weighted_sum(
            kernel,
            signal_window(signal, 0, whole),
            from + at,
            n,
        ),
    decreases n,
{
    if n > 0 {
        lemma_weighted_sum_in_window(kernel, signal, from, to, whole, at, n - 1);
    }
}

/// Filtering a window of the signal gives the matching stretch of what
/// filtering a longer piece gives.
proof fn lemma_block_output_in_window(
    kernel: Seq<i32>,
    gain: i32,
    signal: Seq<i32>,
    from: int,
    to: int,
    whole: int,
)
    requires
        0 <= from,
        from + kernel.len() <= to <= whole,
    ensures
        block_output(signal_window(signal, from, to), kernel, gain) == block_output(
            signal_window(signal, 0, whole),
            kernel,
            gain,
        ).subrange(from, to - kernel.len()),
{
    let part = block_output(signal_window(signal, from, to), kernel, gain);
    let all = block_output(signal_window(signal, 0, whole), kernel, gain);
    assert forall|at: int| 0 <= at < part.len() implies part[at] == all[from + at] by {
        lemma_weighted_sum_in_window(kernel, signal, from, to, whole, at, kernel.len() as int);
    }
    assert(part =~= all.subrange(from, to - kernel.len()));
}

/// Streaming equals batch filtering. With a kernel and a gain that stay the
/// same, the output of the first `blocks` blocks, put together, is the output
/// of one convolution over the stretch of signal that those blocks consumed
/// (with silence where the signal has ended).
pub proof fn lemma_streaming_matches_batch(
    kernel: Seq<i32>,
    gain: i32,
    signal: Seq<i32>,
    blocks: nat,
)
    requires
        kernel.len() % 2 == 0,
        2 * kernel.len() <= BLOCK_SIZE,
    ensures
        streamed_output(kernel, gain, signal, blocks) == block_output(
            signal_window(signal, 0, frame_start(kernel.len(), blocks)),
            kernel,
            gain,
        ),
    decreases blocks,
{
    let frame = frame_len(kernel.len()) as int;
    let taps = kernel.len() as int;
    if blocks == 0 {
        assert(frame_start(kernel.len(), blocks) == 0) by (nonlinear_arith)
            requires
                blocks == 0,
                frame_start(kernel.len(), blocks) == blocks * frame,
        ;
        assert(streamed_output(kernel, gain, signal, blocks) =~= block_output(
            signal_window(signal, 0, 0),
            kernel,
            gain,
        ));
    } else {
        let before = (blocks - 1) as nat;
        let split = frame_start(kernel.len(), before);
        let whole = frame_start(kernel.len(), blocks);
        assert(whole == split + frame) by (nonlinear_arith)
            requires
                before + 1 == blocks,
                split == before * frame,
                whole == blocks * frame,
        ;
        assert(split >= 0) by (nonlinear_arith)
            requires
                split == before * frame,
                frame >= 0,
        ;
        lemma_streaming_matches_batch(kernel, gain, signal, before);
        lemma_streamed_input(kernel.len(), signal, before);
        let all = block_output(signal_window(signal, 0, whole), kernel, gain);
        let last = block_output(streamed_input(kernel.len(), signal, before), kernel, gain);
        if before == 0 {
            assert(streamed_output(kernel, gain, signal, before) =~= Seq::<i32>::empty());
            assert(streamed_output(kernel, gain, signal, blocks) =~= all);
        } else {
            assert(split >= frame) by (nonlinear_arith)
                requires
                    before >= 1,
                    split == before * frame,
                    frame >= 0,
            ;
            lemma_block_output_in_window(kernel, gain, signal, 0, split, whole);
            lemma_block_output_in_window(kernel, gain, signal, split - taps, whole, whole);
            assert(streamed_output(kernel, gain, signal, blocks) =~= all);
        }
    }
}

/// Streams a signal that lies in memory through a fresh filter, with a
/// kernel and a gain that stay the same, and collects what the first
/// `blocks` blocks emit. Past its end the signal counts as silence.
///
/// The result is what one convolution over the stretch consumed gives. A
/// kernel with an odd number of taps, or with more taps than half a block
/// holds, is refused.
pub fn stream_signal(kernel: Vec<i32>, gain: i32, signal: &[i32], blocks: usize) -> (r: Result<
    Vec<i32>,
    FilterError,
>)
    ensures
        r is Ok <==> kernel@.len() % 2 == 0 && 2 * kernel@.len() <= BLOCK_SIZE,
        r is Err ==> r == Err::<Vec<i32>, FilterError>(FilterError::InvalidConvolutionShape),
        r matches Ok(emitted) ==> emitted@ == streamed_output(kernel@, gain, signal@, blocks as nat),
        r matches Ok(emitted) ==> emitted@ == block_output(
            signal_window(signal@, 0, frame_start(kernel@.len(), blocks as nat)),
            kernel@,
            gain,
        ),
{
    let taps = kernel.len();
    if taps % 2 != 0 || taps > BLOCK_SIZE / 2 {
        return Err(FilterError::InvalidConvolutionShape);
    }
    let ghost taps_seq = kernel@;
    let frame = BLOCK_SIZE - taps;
    let (mut source, mut settings) = match dynamic_filter(1, 1) {
        Ok(pair) => pair,
        Err(e) => {
            return Err(e);
        },
    };
    settings.set_volume(gain);
    match source.install_kernel(&mut settings, kernel) {
        Ok(()) => {},
        Err(e) => {
            return Err(e);
        },
    }
    let len = signal.len();
    let mut emitted: Vec<i32> = Vec::new();
    let mut taken: usize = 0;
    let mut block: usize = 0;
    proof {
        assert(frame_start(taps_seq.len(), 0) == 0) by (nonlinear_arith)
            requires
                frame_start(taps_seq.len(), 0) == 0 * frame_len(taps_seq.len()),
        ;
    }
    while block < blocks
        invariant
            block <= blocks,
            len == signal@.len(),
            taps == taps_seq.len(),
            taps % 2 == 0,
            2 * taps <= BLOCK_SIZE,
            frame == frame_len(taps_seq.len()),
            source.wf(),
            settings.wf(),
            settings.kernel() == taps_seq,
            settings.gain() == gain,
            source.ready().len() == 0,
            source.trailing() == streamed_trailing(taps_seq.len(), signal@, block as nat),
            source.trailing().len() == if block == 0 {
                0
            } else {
                taps as int
            },
            taken <= len,
            taken == if frame_start(taps_seq.len(), block as nat) < len {
                frame_start(taps_seq.len(), block as nat)
            } else {
                len as int
            },
            emitted@ == streamed_output(taps_seq, gain, signal@, block as nat),
        decreases blocks - block,
    {
        let ghost before = emitted@;
        let end = if len - taken > frame {
            taken + frame
        } else {
            len
        };
        proof {
            let from = frame_start(taps_seq.len(), block as nat);
            assert(frame_start(taps_seq.len(), (block + 1) as nat) == from + frame)
                by (nonlinear_arith)
                requires
                    from == block * frame_len(taps_seq.len()),
                    frame_start(taps_seq.len(), (block + 1) as nat) == (block + 1) * frame_len(
                        taps_seq.len(),
                    ),
                    frame == frame_len(taps_seq.len()),
            ;
            assert(signal@.subrange(taken as int, end as int) == fresh_frame(
                signal@,
                from,
                frame as nat,
            ));
        }
        let fresh = vstd::slice::slice_subrange(signal, taken, end);
        let ghost input = streamed_input(taps_seq.len(), signal@, block as nat);
        match source.refill(&settings, fresh) {
            Ok(()) => {},
            Err(e) => {
                return Err(e);
            },
        }
        let ghost output = block_output(input, taps_seq, gain);
        let ghost mut drained: int = 0;
        proof {
            assert(output.skip(0) =~= output);
            assert(before + output.take(0) =~= before);
        }
        loop
            invariant
                source.wf(),
                settings.wf(),
                settings.kernel() == taps_seq,
                settings.gain() == gain,
                0 <= drained <= output.len(),
                source.ready() == output.skip(drained),
                source.trailing() == carried_over(input, taps_seq.len()),
                emitted@ == before + output.take(drained),
            ensures
                source.wf(),
                source.ready().len() == 0,
                source.trailing() == carried_over(input, taps_seq.len()),
                emitted@ == before + output,
            decreases output.len() - drained,
        {
            match source.next(&settings) {
                Pull::Sample(sample) => {
                    emitted.push(sample);
                    proof {
                        assert(output.skip(drained).skip(1) =~= output.skip(drained + 1));
                        assert(before + output.take(drained + 1) =~= (before + output.take(
                            drained,
                        )).push(output[drained]));
                        drained = drained + 1;
                    }
                },
                _ => {
                    proof {
                        assert(output.take(drained) =~= output);
                    }
                    break ;
                },
            }
        }
        taken = end;
        block += 1;
    }
    proof {
        lemma_streaming_matches_batch(taps_seq, gain, signal@, blocks as nat);
    }
    Ok(emitted)
}

} // verus!
