//! Speech segments found by voice activity detection, and the audio they keep.
use vstd::prelude::*;

verus! {

/// A speech segment with start and end sample indices.
#[derive(Debug, Clone, Copy)]
pub struct SpeechSegment {
    /// Start sample index
    pub start: usize,
    /// End sample index
    pub end: usize,
}

/// The samples the segments keep, in order: each segment's range, limited to the audio.
pub open spec fn kept_samples<T>(samples: Seq<T>, segments: Seq<SpeechSegment>) -> Seq<T>
    decreases segments.len(),
{
    if segments.len() == 0 {
        Seq::empty()
    } else {
        let n = samples.len() as int;
        let seg = segments.last();
        let start = if seg.start < n { seg.start as int } else { n };
        let end = if seg.end < n { seg.end as int } else { n };
        kept_samples(samples, segments.drop_last()) + samples.subrange(start, end)
    }
}

/// The speech audio: the samples of each segment, in order (see [`kept_samples`]). Each segment
/// must start no later than it ends.
pub fn extract_speech<T: Copy>(samples: &[T], segments: &[SpeechSegment]) -> (r: Vec<T>)
    requires
        forall|i: int| 0 <= i < segments@.len() ==> #[trigger] segments@[i].start <= segments@[i].end,
    ensures
        r@ == kept_samples(samples@, segments@),
{
    let n = samples.len();
    let mut out: Vec<T> = Vec::new();
    let mut i: usize = 0;
    while i < segments.len()
        invariant
            i <= segments@.len(),
            n == samples@.len(),
            forall|j: int| 0 <= j < segments@.len() ==> #[trigger] segments@[j].start <= segments@[j].end,
            out@ == kept_samples(samples@, segments@.take(i as int)),
        decreases segments.len() - i,
    {
        let seg = segments[i];
        let start = if seg.start < n { seg.start } else { n };
        let end = if seg.end < n { seg.end } else { n };
        let ghost before = out@;
        let mut k: usize = start;
        while k < end
            invariant
                start <= k <= end <= n,
                n == samples@.len(),
                out@ == before + samples@.subrange(start as int, k as int),
            decreases end - k,
        {
            out.push(samples[k]);
            assert(samples@.subrange(start as int, k + 1) =~= samples@.subrange(start as int, k as int).push(samples@[k as int]));
            k += 1;
        }
        proof {
            assert(segments@.take(i as int + 1).drop_last() == segments@.take(i as int));
            assert(segments@.take(i as int + 1).last() == seg);
        }
        i += 1;
    }
    assert(segments@.take(segments@.len() as int) == segments@);
    out
}

} // verus!
