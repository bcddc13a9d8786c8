//! Musical timing primitives.
//!
//! A `Tempo` holds the tempo (in thousandths of a beat per minute), the
//! sample rate and the time signature, and converts between beat positions
//! (fixed-point ticks) and sample positions.
//!
//! Invariants: the tempo and the sample rate are both greater than zero.
use vstd::prelude::*;

verus! {

/// Number of ticks in one beat: beat positions and beat lengths are counted
/// in ticks. The resolution divides evenly by 2, 3, 4, 5, 8, 10, 16 and 100,
/// so hundredths of a beat and triplets are exact.
pub const TICKS_PER_BEAT: i64 = 960_000;

/// Tempo values are held in thousandths of a beat per minute.
pub const MILLI_BPM_PER_BPM: u64 = 1000;

/// `x` clamped into the range of `u64`.
pub open spec fn clamp_u64(x: int) -> u64 {
    if x > u64::MAX {
        u64::MAX
    } else if x < 0 {
        0
    } else {
        x as u64
    }
}

/// `x` clamped into the range of `i64`.
pub open spec fn clamp_i64(x: int) -> i64 {
    if x > i64::MAX {
        i64::MAX
    } else if x < i64::MIN {
        i64::MIN
    } else {
        x as i64
    }
}

/// Whole samples in one beat: 60 seconds times the sample rate over the
/// tempo, rounded down (and held at `u64::MAX` if larger).
pub open spec fn samples_per_beat_of(bpm_milli: u64, sample_rate: u64) -> u64 {
    clamp_u64((60 * MILLI_BPM_PER_BPM * sample_rate) / (bpm_milli as int))
}

/// Sample count of a beat length given in ticks: the exact product rounded
/// half up; lengths at or below zero give zero and counts past `u64::MAX`
/// are held there.
pub open spec fn beats_to_samples_of(samples_per_beat: u64, ticks: i64) -> u64 {
    if ticks <= 0 {
        0
    } else {
        clamp_u64(
            (2 * ticks * samples_per_beat + TICKS_PER_BEAT) / (2 * TICKS_PER_BEAT as int),
        )
    }
}

/// Beat position in ticks of a sample count, rounded down. With zero
/// samples per beat the position is unbounded and is held at `i64::MAX`,
/// as are positions past it.
pub open spec fn samples_to_beats_of(samples_per_beat: u64, samples: u64) -> i64 {
    if samples_per_beat == 0 {
        i64::MAX
    } else {
        clamp_i64((samples * TICKS_PER_BEAT) / (samples_per_beat as int))
    }
}

/// Law: both conversions keep order: a later beat position is never fewer
/// samples, and a later sample position is never an earlier beat.
pub proof fn law_conversions_keep_order(
    samples_per_beat: u64,
    t1: i64,
    t2: i64,
    s1: u64,
    s2: u64,
)
    requires
        t1 <= t2,
        s1 <= s2,
    ensures
        beats_to_samples_of(samples_per_beat, t1) <= beats_to_samples_of(samples_per_beat, t2),
        samples_to_beats_of(samples_per_beat, s1) <= samples_to_beats_of(samples_per_beat, s2),
{
    if t1 > 0 {
        let d = 2 * TICKS_PER_BEAT as int;
        let x = 2 * t1 * samples_per_beat + TICKS_PER_BEAT;
        let y = 2 * t2 * samples_per_beat + TICKS_PER_BEAT;
        assert(x <= y) by (nonlinear_arith)
            requires
                0 < t1 <= t2,
                x == 2 * t1 * samples_per_beat + TICKS_PER_BEAT,
                y == 2 * t2 * samples_per_beat + TICKS_PER_BEAT,
        ;
        vstd::arithmetic::div_mod::lemma_div_is_ordered(x, y, d);
    }
    if samples_per_beat > 0 {
        assert(s1 * TICKS_PER_BEAT <= s2 * TICKS_PER_BEAT) by (nonlinear_arith)
            requires
                s1 <= s2,
        ;
        vstd::arithmetic::div_mod::lemma_div_is_ordered(
            s1 * TICKS_PER_BEAT,
            s2 * TICKS_PER_BEAT,
            samples_per_beat as int,
        );
    }
}

/// Law: whole beats convert exactly: `k` beats are `k` times the samples
/// per beat, and that many samples are `k` beats again.
pub proof fn law_whole_beats_convert_exactly(samples_per_beat: u64, k: int)
    requires
        samples_per_beat > 0,
        k >= 0,
        k * samples_per_beat <= u64::MAX,
        k * TICKS_PER_BEAT <= i64::MAX,
    ensures
        beats_to_samples_of(samples_per_beat, (k * TICKS_PER_BEAT) as i64) == k * samples_per_beat,
        samples_to_beats_of(samples_per_beat, (k * samples_per_beat) as u64) == k * TICKS_PER_BEAT,
{
    let t = TICKS_PER_BEAT as int;
    let spb = samples_per_beat as int;
    if k > 0 {
        assert((2 * (k * t) * spb + t) / (2 * t) == k * spb) by (nonlinear_arith)
            requires
                t == 960_000,
                k > 0,
                spb > 0,
        {
            vstd::arithmetic::div_mod::lemma_fundamental_div_mod_converse(
                2 * (k * t) * spb + t,
                2 * t,
                k * spb,
                t,
            );
        }
    }
    assert((k * spb) * t / spb == k * t) by (nonlinear_arith)
        requires
            spb > 0,
            k >= 0,
    {
        vstd::arithmetic::div_mod::lemma_fundamental_div_mod_converse((k * spb) * t, spb, k * t, 0);
    }
}

/// Tempo, sample rate and time signature.
pub struct Tempo {
    bpm_milli: u64,
    sample_rate: u64,
    time_signature: (u64, u64),
}

impl Tempo {
    #[verifier::type_invariant]
    spec fn inv(&self) -> bool {
        self.bpm_milli > 0 && self.sample_rate > 0
    }

    /// Tempo in thousandths of a beat per minute.
    pub closed spec fn spec_bpm(&self) -> u64 {
        self.bpm_milli
    }

    /// Samples per second.
    pub closed spec fn spec_sample_rate(&self) -> u64 {
        self.sample_rate
    }

    /// (beats per bar, beat unit).
    pub closed spec fn spec_time_signature(&self) -> (u64, u64) {
        self.time_signature
    }

    /// Whole samples in one beat at this tempo and sample rate.
    pub open spec fn spec_samples_per_beat(&self) -> u64 {
        samples_per_beat_of(self.spec_bpm(), self.spec_sample_rate())
    }

    /// Creates a tempo; `bpm_milli` is the tempo in thousandths of a beat
    /// per minute.
    pub fn new(bpm_milli: u64, sample_rate: u64, time_signature: (u64, u64)) -> (t: Self)
        requires
            bpm_milli > 0,
            sample_rate > 0,
        ensures
            t.spec_bpm() == bpm_milli,
            t.spec_sample_rate() == sample_rate,
            t.spec_time_signature() == time_signature,
    {
        Tempo { bpm_milli, sample_rate, time_signature }
    }

    /// The tempo in thousandths of a beat per minute.
    #[verifier::when_used_as_spec(spec_bpm)]
    pub fn bpm(&self) -> (r: u64)
        ensures
            r == self.spec_bpm(),
            r > 0,
    {
        proof {
            use_type_invariant(self);
        }
        self.bpm_milli
    }

    /// Sets the tempo (thousandths of a beat per minute).
    pub fn set_bpm(&mut self, bpm_milli: u64)
        requires
            bpm_milli > 0,
        ensures
            final(self).spec_bpm() == bpm_milli,
            final(self).spec_sample_rate() == old(self).spec_sample_rate(),
            final(self).spec_time_signature() == old(self).spec_time_signature(),
    {
        proof {
            use_type_invariant(&*self);
        }
        self.bpm_milli = bpm_milli;
    }

    /// The sample rate.
    #[verifier::when_used_as_spec(spec_sample_rate)]
    pub fn sample_rate(&self) -> (r: u64)
        ensures
            r == self.spec_sample_rate(),
            r > 0,
    {
        proof {
            use_type_invariant(self);
        }
        self.sample_rate
    }

    /// Sets the sample rate.
    pub fn set_sample_rate(&mut self, sample_rate: u64)
        requires
            sample_rate > 0,
        ensures
            final(self).spec_sample_rate() == sample_rate,
            final(self).spec_bpm() == old(self).spec_bpm(),
            final(self).spec_time_signature() == old(self).spec_time_signature(),
    {
        proof {
            use_type_invariant(&*self);
        }
        self.sample_rate = sample_rate;
    }

    /// The time signature (beats per bar, beat unit).
    #[verifier::when_used_as_spec(spec_time_signature)]
    pub fn time_signature(&self) -> (r: (u64, u64))
        ensures
            r == self.spec_time_signature(),
    {
        self.time_signature
    }

    /// Sets the time signature.
    pub fn set_time_signature(&mut self, time_signature: (u64, u64))
        ensures
            final(self).spec_time_signature() == time_signature,
            final(self).spec_bpm() == old(self).spec_bpm(),
            final(self).spec_sample_rate() == old(self).spec_sample_rate(),
    {
        proof {
            use_type_invariant(&*self);
        }
        self.time_signature = time_signature;
    }

    /// Whole samples per beat: `60 * sample_rate / bpm`, rounded down.
    #[verifier::when_used_as_spec(spec_samples_per_beat)]
    pub fn samples_per_beat(&self) -> (r: u64)
        ensures
            r == self.spec_samples_per_beat(),
    {
        proof {
            use_type_invariant(self);
        }
        let rate: u128 = self.sample_rate as u128;
        assert(60_000u128 * rate <= 60_000u128 * (u64::MAX as u128)) by (nonlinear_arith)
            requires
                rate <= u64::MAX,
        ;
        let numerator: u128 = 60_000u128 * rate;
        let quotient: u128 = numerator / (self.bpm_milli as u128);
        if quotient > u64::MAX as u128 {
            u64::MAX
        } else {
            quotient as u64
        }
    }

    /// Converts a beat length in ticks to samples, rounding half up.
    pub fn beats_to_samples(&self, ticks: i64) -> (r: u64)
        ensures
            r == beats_to_samples_of(self.spec_samples_per_beat(), ticks),
    {
        if ticks <= 0 {
            return 0;
        }
        let spb = self.samples_per_beat();
        let tpb: u128 = TICKS_PER_BEAT as u128;
        assert((ticks as u128) * (spb as u128) <= (i64::MAX as u128) * (u64::MAX as u128))
            by (nonlinear_arith)
            requires
                0 < ticks,
        ;
        let product: u128 = (ticks as u128) * (spb as u128);
        let doubled: u128 = 2u128 * product + tpb;
        assert(doubled == 2 * ticks * spb + TICKS_PER_BEAT) by (nonlinear_arith)
            requires
                product == ticks * spb,
                doubled == 2 * product + tpb,
                tpb == TICKS_PER_BEAT,
        ;
        let rounded: u128 = doubled / (2u128 * tpb);
        if rounded > u64::MAX as u128 {
            u64::MAX
        } else {
            rounded as u64
        }
    }

    /// Converts a sample position to a beat position in ticks, rounding down.
    pub fn samples_to_beats(&self, samples: u64) -> (r: i64)
        ensures
            r == samples_to_beats_of(self.spec_samples_per_beat(), samples),
    {
        let spb = self.samples_per_beat();
        if spb == 0 {
            return i64::MAX;
        }
        assert((samples as u128) * (TICKS_PER_BEAT as u128) <= (u64::MAX as u128) * 960_000u128)
            by (nonlinear_arith);
        let quotient: u128 = ((samples as u128) * (TICKS_PER_BEAT as u128)) / (spb as u128);
        if quotient > i64::MAX as u128 {
            i64::MAX
        } else {
            quotient as i64
        }
    }
}

} // verus!
