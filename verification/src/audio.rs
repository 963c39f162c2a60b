use vstd::prelude::*;

verus! {

/// Samples per second of the model's output.
pub const SAMPLE_RATE: u32 = 24000;

/// The peak to which quiet speech is scaled up: the bits of 0.95 of full
/// scale.
pub const TARGET_PEAK: u32 = 0x3F73_3333;

/// The bits of positive infinity; a larger magnitude is no number.
pub const INFINITY_BITS: u32 = 0x7F80_0000;

/// The bit that holds the sign.
pub const SIGN_BIT: u32 = 0x8000_0000;

/// The views of a list of chunks.
pub open spec fn chunk_views<T>(chunks: Seq<Vec<T>>) -> Seq<Seq<T>> {
    Seq::new(chunks.len(), |i: int| chunks[i]@)
}

/// The chunks one after the other, with nothing between them.
pub open spec fn concat<T>(chunks: Seq<Seq<T>>) -> Seq<T>
    decreases chunks.len(),
{
    if chunks.len() == 0 {
        Seq::empty()
    } else {
        concat(chunks.drop_last()) + chunks.last()
    }
}

/// The number of samples in all chunks together.
pub open spec fn total_len<T>(chunks: Seq<Seq<T>>) -> nat
    decreases chunks.len(),
{
    if chunks.len() == 0 {
        0
    } else {
        total_len(chunks.drop_last()) + chunks.last().len()
    }
}

/// Concatenation neither adds nor drops a sample: the result is as long as
/// the chunks together.
pub proof fn lemma_concat_len<T>(chunks: Seq<Seq<T>>)
    ensures
        concat(chunks).len() == total_len(chunks),
    decreases chunks.len(),
{
    if chunks.len() > 0 {
        lemma_concat_len(chunks.drop_last());
    }
}

/// Each chunk stands in the result where the chunks before it end.
pub proof fn lemma_concat_chunk<T>(chunks: Seq<Seq<T>>, k: int)
    requires
        0 <= k < chunks.len(),
    ensures
        total_len(chunks.take(k)) + chunks[k].len() <= concat(chunks).len(),
        concat(chunks).subrange(
            total_len(chunks.take(k)) as int,
            (total_len(chunks.take(k)) + chunks[k].len()) as int,
        ) == chunks[k],
    decreases chunks.len(),
{
    lemma_concat_len(chunks);
    lemma_concat_len(chunks.drop_last());
    if k == chunks.len() - 1 {
        assert(chunks.take(k) =~= chunks.drop_last());
        assert(concat(chunks).subrange(
            total_len(chunks.take(k)) as int,
            (total_len(chunks.take(k)) + chunks[k].len()) as int,
        ) =~= chunks[k]);
    } else {
        lemma_concat_chunk(chunks.drop_last(), k);
        assert(chunks.drop_last().take(k) =~= chunks.take(k));
        let lo = total_len(chunks.take(k)) as int;
        let hi = lo + chunks[k].len();
        assert(concat(chunks).subrange(lo, hi) =~= concat(chunks.drop_last()).subrange(lo, hi));
    }
}

/// Joins audio chunks into one buffer, in their order and with nothing
/// between them.
pub fn concat_samples<T: Copy>(chunks: &[Vec<T>]) -> (out: Vec<T>)
    ensures
        out@ == concat(chunk_views(chunks@)),
        out@.len() == total_len(chunk_views(chunks@)),
{
    let mut out: Vec<T> = Vec::new();
    let mut i: usize = 0;
    while i < chunks.len()
        invariant
            i <= chunks.len(),
            out@ == concat(chunk_views(chunks@).take(i as int)),
        decreases chunks.len() - i,
    {
        let chunk = &chunks[i];
        let ghost head = out@;
        let mut j: usize = 0;
        while j < chunk.len()
            invariant
                j <= chunk.len(),
                out@ == head + chunk@.take(j as int),
            decreases chunk.len() - j,
        {
            out.push(chunk[j]);
            proof {
                assert(chunk@.take(j + 1) =~= chunk@.take(j as int).push(chunk@[j as int]));
            }
            j += 1;
        }
        proof {
            let views = chunk_views(chunks@);
            assert(chunk@.take(chunk.len() as int) =~= chunk@);
            assert(views.take(i + 1).drop_last() =~= views.take(i as int));
            assert(views.take(i + 1).last() == chunk@);
        }
        i += 1;
    }
    proof {
        let views = chunk_views(chunks@);
        assert(views.take(chunks.len() as int) =~= views);
        lemma_concat_len(views);
    }
    out
}

/// The magnitude of a sample given by its bits: the bits without the sign.
pub open spec fn magnitude(bits: u32) -> u32 {
    if bits >= SIGN_BIT {
        (bits - SIGN_BIT) as u32
    } else {
        bits
    }
}

/// Whether the bits are those of a number (finite or infinite) and not of a
/// NaN.
pub open spec fn is_number(bits: u32) -> bool {
    magnitude(bits) <= INFINITY_BITS
}

/// The peak of a buffer: the bits of the largest magnitude among its
/// numbers, and zero for a buffer without a number. Magnitudes of numbers
/// are ordered as their bits are.
pub open spec fn peak(samples: Seq<u32>) -> u32
    decreases samples.len(),
{
    if samples.len() == 0 {
        0
    } else {
        let rest = peak(samples.drop_last());
        let m = magnitude(samples.last());
        if is_number(samples.last()) && m > rest {
            m
        } else {
            rest
        }
    }
}

/// Whether a buffer with this peak is to be scaled up to the target: its
/// peak is above zero and below the target, which must be a positive number.
pub open spec fn wants_boost(peak: u32, target: u32) -> bool {
    0 < peak && target < SIGN_BIT && target <= INFINITY_BITS && peak < target
}

/// Finds the peak of a buffer of samples given by their bits.
pub fn peak_bits(samples: &[u32]) -> (p: u32)
    ensures
        p == peak(samples@),
        p <= INFINITY_BITS,
{
    let mut p: u32 = 0;
    let mut i: usize = 0;
    while i < samples.len()
        invariant
            i <= samples.len(),
            p == peak(samples@.take(i as int)),
            p <= INFINITY_BITS,
        decreases samples.len() - i,
    {
        let bits = samples[i];
        let m = if bits >= SIGN_BIT {
            bits - SIGN_BIT
        } else {
            bits
        };
        proof {
            assert(samples@.take(i + 1).drop_last() =~= samples@.take(i as int));
        }
        if m <= INFINITY_BITS && m > p {
            p = m;
        }
        i += 1;
    }
    proof {
        assert(samples@.take(samples.len() as int) =~= samples@);
    }
    p
}

/// Decides whether a buffer is to be normalized to the target peak, both
/// given by their bits. Quiet audio is scaled up: the result is the peak by
/// which the target is to be divided for the gain. Audio at or above the
/// target and silent audio are left alone: the result is `None`.
pub fn boost_peak(samples: &[u32], target_peak: u32) -> (r: Option<u32>)
    ensures
        match r {
            Some(p) => p == peak(samples@) && wants_boost(p, target_peak),
            None => !wants_boost(peak(samples@), target_peak),
        },
{
    let p = peak_bits(samples);
    if 0 < p && target_peak < SIGN_BIT && target_peak <= INFINITY_BITS && p < target_peak {
        Some(p)
    } else {
        None
    }
}

/// Whether `after` is `before` normalized to the target peak: as long as
/// `before`; the same, bit for bit, unless the peak of `before` is above
/// zero and below the target; and else every sample as `scale` gives it for
/// that sample, the peak and the target.
pub open spec fn normalized<F: Fn(u32, u32, u32) -> u32>(
    before: Seq<u32>,
    after: Seq<u32>,
    target_peak: u32,
    scale: &F,
) -> bool {
    &&& after.len() == before.len()
    &&& !wants_boost(peak(before), target_peak) ==> after == before
    &&& wants_boost(peak(before), target_peak) ==> forall|i: int|
        0 <= i < before.len() ==> scale.ensures(
            (before[i], peak(before), target_peak),
            #[trigger] after[i],
        )
}

/// Normalizes a buffer of samples, given by their bits, to the target peak.
/// Quiet audio is scaled up: `scale` is called with each sample, the peak of
/// the buffer and the target, and gives the sample times the target over the
/// peak. Audio whose peak is at or above the target, and silent audio, stay
/// as they are, bit for bit.
pub fn normalize<F: Fn(u32, u32, u32) -> u32>(samples: &mut Vec<u32>, target_peak: u32, scale: &F)
    requires
        forall|sample: u32, peak: u32, target: u32| scale.requires((sample, peak, target)),
    ensures
        normalized(old(samples)@, final(samples)@, target_peak, scale),
{
    let p = match boost_peak(samples.as_slice(), target_peak) {
        Some(p) => p,
        None => {
            return ;
        },
    };
    let mut i: usize = 0;
    while i < samples.len()
        invariant
            i <= samples.len(),
            samples@.len() == old(samples)@.len(),
            p == peak(old(samples)@),
            forall|sample: u32, peak: u32, target: u32| scale.requires((sample, peak, target)),
            forall|k: int| i <= k < samples@.len() ==> samples@[k] == old(samples)@[k],
            forall|k: int|
                0 <= k < i ==> scale.ensures(
                    (old(samples)@[k], p, target_peak),
                    #[trigger] samples@[k],
                ),
        decreases samples.len() - i,
    {
        let scaled = scale(samples[i], p, target_peak);
        samples.set(i, scaled);
        i += 1;
    }
}

/// A silent buffer is never scaled: its peak is zero.
pub proof fn lemma_silence_unchanged(samples: Seq<u32>, target: u32)
    requires
        forall|i: int| 0 <= i < samples.len() ==> magnitude(#[trigger] samples[i]) == 0,
    ensures
        peak(samples) == 0,
        !wants_boost(peak(samples), target),
    decreases samples.len(),
{
    if samples.len() > 0 {
        lemma_silence_unchanged(samples.drop_last(), target);
    }
}

/// The peak is the magnitude of one of the samples and no number in the
/// buffer has a larger one.
pub proof fn lemma_peak_is_max(samples: Seq<u32>)
    ensures
        forall|i: int|
            0 <= i < samples.len() && is_number(#[trigger] samples[i]) ==> magnitude(samples[i])
                <= peak(samples),
        peak(samples) > 0 ==> exists|i: int|
            0 <= i < samples.len() && is_number(#[trigger] samples[i]) && magnitude(samples[i])
                == peak(samples),
    decreases samples.len(),
{
    if samples.len() > 0 {
        let rest = samples.drop_last();
        lemma_peak_is_max(rest);
        assert forall|i: int|
            0 <= i < samples.len() && is_number(#[trigger] samples[i]) implies magnitude(
            samples[i],
        ) <= peak(samples) by {
            if i < rest.len() {
                assert(rest[i] == samples[i]);
            }
        }
        if peak(samples) > 0 {
            let m = magnitude(samples.last());
            if is_number(samples.last()) && m > peak(rest) {
                assert(samples[samples.len() - 1] == samples.last());
            } else {
                let k = choose|k: int|
                    0 <= k < rest.len() && is_number(#[trigger] rest[k]) && magnitude(rest[k])
                        == peak(rest);
                assert(samples[k] == rest[k]);
            }
        }
    }
}

} // verus!
