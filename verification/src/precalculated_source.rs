//! A source that holds the first samples of its upstream ready, so that the
//! start of a playback does not wait for them.

use crate::hint::{extend_hint, extend_upper, lower_with, upper_with};
use vstd::prelude::*;

verus! {

/// Samples taken from upstream ahead of time, and how far they have been
/// handed out.
pub struct PrecalculatedSource {
    current_buffer: Vec<i32>,
    current_buffer_index: usize,
}

impl PrecalculatedSource {
    /// The samples that are held ready and have not been handed out.
    pub closed spec fn ready(&self) -> Seq<i32> {
        if self.current_buffer_index <= self.current_buffer@.len() {
            self.current_buffer@.skip(self.current_buffer_index as int)
        } else {
            Seq::<i32>::empty()
        }
    }

    /// The samples handed out never run past the samples held.
    pub closed spec fn wf(&self) -> bool {
        self.current_buffer_index <= self.current_buffer@.len()
    }

    /// A source that holds `precalculated`, the first samples of its upstream.
    pub fn new(precalculated: Vec<i32>) -> (source: PrecalculatedSource)
        ensures
            source.wf(),
            source.ready() == precalculated@,
    {
        let source = PrecalculatedSource { current_buffer: precalculated, current_buffer_index: 0 };
        assert(source.current_buffer@.skip(0) =~= precalculated@);
        source
    }

    /// Holds more samples ready: `samples`, the next of upstream, go behind
    /// those that are held already.
    pub fn precalculate(&mut self, samples: &[i32])
        requires
            old(self).wf(),
        ensures
            final(self).wf(),
            final(self).ready() == old(self).ready() + samples@,
    {
        let mut i: usize = 0;
        while i < samples.len()
            invariant
                i <= samples@.len(),
                self.current_buffer_index == old(self).current_buffer_index,
                self.current_buffer@ == old(self).current_buffer@ + samples@.take(i as int),
                old(self).wf(),
            decreases samples@.len() - i,
        {
            self.current_buffer.push(samples[i]);
            assert(self.current_buffer@ =~= old(self).current_buffer@ + samples@.take(i + 1));
            i += 1;
        }
        assert(samples@.take(samples@.len() as int) =~= samples@);
        assert(self.ready() =~= old(self).ready() + samples@);
    }

    /// The next sample that is held ready. `None` once they have run out:
    /// from then on upstream is asked directly.
    pub fn next(&mut self) -> (sample: Option<i32>)
        requires
            old(self).wf(),
        ensures
            final(self).wf(),
            old(self).ready().len() > 0 ==> sample == Some(old(self).ready()[0]),
            old(self).ready().len() > 0 ==> final(self).ready() == old(self).ready().skip(1),
            old(self).ready().len() == 0 ==> sample is None,
            old(self).ready().len() == 0 ==> final(self).ready() == old(self).ready(),
    {
        if self.current_buffer_index < self.current_buffer.len() {
            let sample = self.current_buffer[self.current_buffer_index];
            assert(old(self).ready().skip(1) =~= self.current_buffer@.skip(
                self.current_buffer_index + 1,
            ));
            self.current_buffer_index += 1;
            Some(sample)
        } else {
            if self.current_buffer.len() > 0 {
                self.current_buffer.clear();
                self.current_buffer_index = 0;
            }
            assert(self.ready() =~= old(self).ready());
            None
        }
    }

    /// The bounds on the samples left, from those of upstream: the samples
    /// held ready come on top.
    pub fn size_hint(&self, inner: (usize, Option<usize>)) -> (hint: (usize, Option<usize>))
        requires
            self.wf(),
        ensures
            hint.0 == lower_with(inner.0, self.ready().len() as usize),
            hint.1 == upper_with(inner.1, self.ready().len() as usize),
    {
        extend_hint(inner, self.current_buffer.len() - self.current_buffer_index)
    }

    /// The number of samples before the format of the stream may change,
    /// from that of upstream.
    pub fn current_frame_len(&self, inner: Option<usize>) -> (len: Option<usize>)
        requires
            self.wf(),
        ensures
            len == upper_with(inner, self.ready().len() as usize),
    {
        extend_upper(inner, self.current_buffer.len() - self.current_buffer_index)
    }
}

} // verus!
