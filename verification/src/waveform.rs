//! The waveform generator core: downsamples decoded samples into
//! amplitude buckets and streams them under a cooperative cancellation
//! token. Decoding the audio source is the decode collaborator's work.
use vstd::prelude::*;

verus! {

/// A cooperative stop signal, observed between chunks. Once requested it
/// can never be un-requested.
pub struct CancellationToken {
    pub requested: bool,
}

impl CancellationToken {
    pub fn new() -> (r: CancellationToken)
        ensures
            !r.requested,
    {
        CancellationToken { requested: false }
    }

    /// Requests the stop. Cancellation is monotonic: there is no way back.
    pub fn request(&mut self)
        ensures
            final (self).requested,
    {
        self.requested = true;
    }

    pub fn is_requested(&self) -> (r: bool)
        ensures
            r == self.requested,
    {
        self.requested
    }
}

/// The absolute value of one sample; fits a u16 even for the most
/// negative sample.
pub open spec fn abs_sample(x: i16) -> int {
    if x < 0 {
        -(x as int)
    } else {
        x as int
    }
}

/// The peak amplitude over `s[from..to]`.
pub open spec fn peak(s: Seq<i16>, from: int, to: int) -> int
    decreases to - from,
{
    if from >= to {
        0
    } else {
        let rest = peak(s, from + 1, to);
        if abs_sample(s[from]) >= rest {
            abs_sample(s[from])
        } else {
            rest
        }
    }
}

proof fn lemma_peak_bound(s: Seq<i16>, from: int, to: int)
    ensures
        0 <= peak(s, from, to) <= 32768,
    decreases to - from,
{
    if from < to {
        lemma_peak_bound(s, from + 1, to);
    }
}

fn peak_range(s: &Vec<i16>, from: usize, to: usize) -> (r: u16)
    requires
        from <= to <= s@.len(),
    ensures
        r == peak(s@, from as int, to as int),
    decreases to - from,
{
    proof {
        lemma_peak_bound(s@, from as int, to as int);
    }
    if from >= to {
        0
    } else {
        let rest = peak_range(s, from + 1, to);
        let x = s[from];
        let a: u16 = if x < 0 {
            if x == -32768i16 {
                32768u16
            } else {
                (-x) as u16
            }
        } else {
            x as u16
        };
        if a >= rest {
            a
        } else {
            rest
        }
    }
}

/// The size of one bucket when `n` samples fall into `count` buckets:
/// the ceiling of their quotient.
pub open spec fn bucket_size(n: int, count: int) -> int {
    n / count + (if n % count != 0 {
        1int
    } else {
        0int
    })
}

/// The start of bucket `i`, clamped to the end of the samples.
pub open spec fn bucket_start(n: int, count: int, i: int) -> int {
    let p = i * bucket_size(n, count);
    if p <= n {
        p
    } else {
        n
    }
}

/// The amplitude of bucket `i`.
pub open spec fn bucket_val(s: Seq<i16>, count: int, i: int) -> int {
    peak(s, bucket_start(s.len() as int, count, i), bucket_start(s.len() as int, count, i + 1))
}

/// Downsamples the decoded samples into exactly `count` amplitude
/// buckets; trailing buckets beyond the samples hold zero.
pub fn bucket_amplitudes(samples: &Vec<i16>, count: usize) -> (r: Vec<u16>)
    requires
        count >= 1,
    ensures
        r@.len() == count,
        forall|i: int| 0 <= i < count ==> #[trigger] r@[i] == bucket_val(samples@, count as int, i),
{
    let n = samples.len();
    let q: usize = n / count;
    let rem: usize = n % count;
    proof {
        if rem != 0 {
            assert(q < n) by (nonlinear_arith)
                requires
                    count >= 1,
                    q == n as int / count as int,
                    rem == n as int % count as int,
                    rem != 0,
            ;
        }
    }
    let size: usize = if rem != 0 {
        q + 1
    } else {
        q
    };
    let ghost gn = n as int;
    let ghost gc = count as int;
    let mut r: Vec<u16> = Vec::new();
    let mut i: usize = 0;
    let mut start: usize = 0;
    while i < count
        invariant
            count >= 1,
            gn == samples@.len(),
            gc == count as int,
            size == bucket_size(gn, gc),
            i <= count,
            r@.len() == i,
            start == bucket_start(gn, gc, i as int),
            start <= n,
            n == samples@.len(),
            forall|j: int| 0 <= j < i ==> #[trigger] r@[j] == bucket_val(samples@, gc, j),
        decreases count - i,
    {
        let next: usize = if size > n - start {
            n
        } else {
            start + size
        };
        proof {
            assert((i + 1) * size == i * size + size) by (nonlinear_arith);
            assert(i * size >= 0) by (nonlinear_arith)
                requires
                    i >= 0,
                    size >= 0,
            ;
            assert(next == bucket_start(gn, gc, i + 1));
        }
        r.push(peak_range(samples, start, next));
        start = next;
        i = i + 1;
    }
    r
}

/// The streaming producer: holds the buckets still to emit and observes
/// the cancellation token at every chunk boundary.
pub struct WaveformStream {
    pub chunks: Vec<u16>,
    pub pos: usize,
    pub cancelled: bool,
}

/// What one producer step does: once cancellation is observed, no chunk
/// is ever emitted again; otherwise the next bucket, if one is left.
pub open spec fn step_spec(pre: WaveformStream, cancel: bool) -> (WaveformStream, Option<u16>) {
    if pre.cancelled || cancel {
        (WaveformStream { cancelled: true, ..pre }, None)
    } else if pre.pos < pre.chunks@.len() {
        (
            WaveformStream { pos: (pre.pos + 1) as usize, ..pre },
            Some(pre.chunks@[pre.pos as int]),
        )
    } else {
        (pre, None)
    }
}

impl WaveformStream {
    /// A stream over the buckets of a decoded source.
    pub fn generate(samples: &Vec<i16>, count: usize) -> (r: (WaveformStream, CancellationToken))
        requires
            count >= 1,
        ensures
            !r.0.cancelled,
            r.0.pos == 0,
            r.0.chunks@.len() == count,
            forall|i: int|
                0 <= i < count ==> #[trigger] r.0.chunks@[i] == bucket_val(
                    samples@,
                    count as int,
                    i,
                ),
            !r.1.requested,
    {
        let chunks = bucket_amplitudes(samples, count);
        (WaveformStream { chunks, pos: 0, cancelled: false }, CancellationToken::new())
    }

    /// Emits the next chunk, or stops: after the token is observed
    /// requested, this and every later step emits nothing.
    pub fn step(&mut self, token: &CancellationToken) -> (r: Option<u16>)
        ensures
            (*final (self), r) == step_spec(*old(self), token.requested),
            old(self).cancelled ==> r is None && final (self).cancelled,
    {
        if self.cancelled || token.is_requested() {
            self.cancelled = true;
            return None;
        }
        if self.pos < self.chunks.len() {
            let c = self.chunks[self.pos];
            self.pos = self.pos + 1;
            Some(c)
        } else {
            None
        }
    }
}

/// Cancellation stops the stream within one chunk: a step that observes a
/// requested token emits nothing, marks the producer cancelled, and every
/// later step emits nothing either.
pub proof fn lemma_cancel_stops_stream(pre: WaveformStream, cancel: bool, later: bool)
    requires
        pre.cancelled || cancel,
    ensures
        step_spec(pre, cancel).1 is None,
        step_spec(pre, cancel).0.cancelled,
        step_spec(step_spec(pre, cancel).0, later).1 is None,
{
}

} // verus!
