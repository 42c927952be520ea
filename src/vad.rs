use vstd::prelude::*;

verus! {

/// Numerator of the ratio threshold (three fifths) between the trailing
/// window's mean amplitude and the whole buffer's.
pub const THRESHOLD_NUM: u128 = 3;

/// Denominator of the ratio threshold.
pub const THRESHOLD_DEN: u128 = 5;

/// Cutoff, in hertz, of the high-pass filter that the amplitudes pass
/// through before the test.
pub const HIGH_PASS_CUTOFF_HZ: u32 = 100;

/// The sum of `s`.
pub open spec fn sum_of(s: Seq<u32>) -> nat
    decreases s.len(),
{
    if s.len() == 0 {
        0
    } else {
        sum_of(s.drop_last()) + s.last() as nat
    }
}

/// Number of samples in a window of `window_ms` milliseconds at `sample_rate`.
pub open spec fn window_samples(sample_rate: u32, window_ms: u32) -> nat {
    (sample_rate as nat * window_ms as nat / 1000) as nat
}

/// Speech has ended over the absolute amplitudes `amplitudes` when the
/// trailing window is shorter than the buffer and either the whole buffer is
/// silent (every amplitude zero) or the window's mean amplitude is below
/// three fifths of the whole buffer's mean amplitude. A window as long as the
/// buffer or longer allows no decision, which counts as not ended; so does an
/// empty window over a buffer that is not silent.
pub open spec fn speech_ended(amplitudes: Seq<u32>, sample_rate: u32, window_ms: u32) -> bool {
    let n = amplitudes.len();
    let w = window_samples(sample_rate, window_ms);
    &&& w < n
    &&& (sum_of(amplitudes) == 0 || THRESHOLD_DEN * sum_of(amplitudes.subrange(n - w, n as int))
        * n < THRESHOLD_NUM * sum_of(amplitudes) * w)
}

/// The sum of `v[from..to]`, which fits in 128 bits.
fn sum_range(v: &Vec<u32>, from: usize, to: usize) -> (r: u128)
    requires
        from <= to <= v@.len(),
    ensures
        r == sum_of(v@.subrange(from as int, to as int)),
        r <= (to - from) * 0xffff_ffff,
{
    let mut r: u128 = 0;
    let mut i: usize = from;
    while i < to
        invariant
            from <= i <= to <= v@.len(),
            r == sum_of(v@.subrange(from as int, i as int)),
            r <= (i - from) * 0xffff_ffff,
        decreases to - i,
    {
        proof {
            assert(v@.subrange(from as int, i + 1).drop_last() =~= v@.subrange(from as int, i as int));
            assert((i - from) * 0xffff_ffff + 0xffff_ffff <= 0x1_0000_0000_0000_0000 * 0xffff_ffffnat)
                by (nonlinear_arith)
                requires
                    i - from < 0x1_0000_0000_0000_0000int,
            ;
            assert((i - from) * 0xffff_ffff + 0xffff_ffff == (i + 1 - from) * 0xffff_ffff)
                by (nonlinear_arith);
        }
        r = r + v[i] as u128;
        i = i + 1;
    }
    r
}

/// `x * y`, as a high part and its low 64 bits: `hi * 2^64 + lo`.
fn wide_mul(x: u128, y: u64) -> (r: (u128, u64))
    requires
        x < 0x10_0000_0000_0000_0000_0000_0000,
    ensures
        r.0 * 0x1_0000_0000_0000_0000int + r.1 == x * y,
{
    let base: u128 = 0x1_0000_0000_0000_0000;
    let xh = x / base;
    let xl = x % base;
    proof {
        assert(x == xh * base + xl) by (nonlinear_arith)
            requires
                xh == x / base,
                xl == x % base,
                base > 0,
        ;
        assert(xh < 0x10_0000_0000) by (nonlinear_arith)
            requires
                xh == x / base,
                base == 0x1_0000_0000_0000_0000,
                x < 0x10_0000_0000_0000_0000_0000_0000,
        ;
        assert(xl * y <= 0xffff_ffff_ffff_ffff * 0xffff_ffff_ffff_ffffnat) by (nonlinear_arith)
            requires
                xl < 0x1_0000_0000_0000_0000int,
                y <= 0xffff_ffff_ffff_ffffu64,
        ;
        assert(xh * y < 0x10_0000_0000 * 0x1_0000_0000_0000_0000nat) by (nonlinear_arith)
            requires
                xh < 0x10_0000_0000,
                y <= 0xffff_ffff_ffff_ffffu64,
        ;
    }
    let lo = xl * (y as u128);
    let hi = xh * (y as u128);
    let carry = lo / base;
    let low = lo % base;
    proof {
        assert(lo == carry * base + low) by (nonlinear_arith)
            requires
                carry == lo / base,
                low == lo % base,
                base > 0,
        ;
        assert(carry <= lo);
        assert(x * y == (hi + carry) * base + low) by (nonlinear_arith)
            requires
                x == xh * base + xl,
                lo == xl * y,
                hi == xh * y,
                lo == carry * base + low,
        ;
    }
    (hi + carry, low as u64)
}

/// Whether `a` stands for a smaller number than `b`, both split as by
/// `wide_mul`.
fn wide_lt(a: (u128, u64), b: (u128, u64)) -> (r: bool)
    ensures
        r == (a.0 * 0x1_0000_0000_0000_0000int + a.1 < b.0 * 0x1_0000_0000_0000_0000int + b.1),
{
    proof {
        let base = 0x1_0000_0000_0000_0000int;
        if a.0 < b.0 {
            assert(a.0 * base + a.1 < b.0 * base + b.1) by (nonlinear_arith)
                requires
                    a.0 < b.0,
                    base == 0x1_0000_0000_0000_0000int,
                    a.1 < base,
                    b.1 >= 0,
            ;
        } else if a.0 > b.0 {
            assert(a.0 * base + a.1 > b.0 * base + b.1) by (nonlinear_arith)
                requires
                    a.0 > b.0,
                    base == 0x1_0000_0000_0000_0000int,
                    b.1 < base,
                    a.1 >= 0,
            ;
        }
    }
    a.0 < b.0 || (a.0 == b.0 && a.1 < b.1)
}

/// The speech-end test over the absolute amplitudes of a high-pass filtered
/// buffer (`amplitudes`, captured at `sample_rate`), with a trailing window
/// of `trailing_window_ms`. It holds no state: the same buffer always gives
/// the same answer. The products of sums and lengths that the test compares
/// can exceed 128 bits, so they are formed in two parts.
pub fn has_speech_ended(amplitudes: &Vec<u32>, sample_rate: u32, trailing_window_ms: u32) -> (r: bool)
    ensures
        r == speech_ended(amplitudes@, sample_rate, trailing_window_ms),
{
    let n = amplitudes.len();
    proof {
        assert(sample_rate as nat * trailing_window_ms as nat <= 0xffff_ffff * 0xffff_ffffnat)
            by (nonlinear_arith)
            requires
                sample_rate <= 0xffff_ffffu32,
                trailing_window_ms <= 0xffff_ffffu32,
        ;
    }
    let w64 = sample_rate as u64 * trailing_window_ms as u64 / 1000;
    assert(w64 == window_samples(sample_rate, trailing_window_ms));
    if w64 >= n as u64 {
        return false;
    }
    let w = w64 as usize;
    let start = n - w;
    let total = sum_range(amplitudes, 0, n);
    let tail = sum_range(amplitudes, start, n);
    if total == 0 {
        proof {
            assert(amplitudes@.subrange(0, n as int) =~= amplitudes@);
        }
        return true;
    }
    proof {
        assert(amplitudes@.subrange(0, n as int) =~= amplitudes@);
        assert(tail <= 0x1_0000_0000_0000_0000 * 0xffff_ffffnat) by (nonlinear_arith)
            requires
                tail <= w as nat * 0xffff_ffff,
                w < 0x1_0000_0000_0000_0000int,
        ;
        assert(total <= 0x1_0000_0000_0000_0000 * 0xffff_ffffnat) by (nonlinear_arith)
            requires
                total <= n as nat * 0xffff_ffff,
                n < 0x1_0000_0000_0000_0000int,
        ;
    }
    let left = wide_mul(THRESHOLD_DEN * tail, n as u64);
    let right = wide_mul(THRESHOLD_NUM * total, w as u64);
    proof {
        assert(THRESHOLD_DEN * tail * n == (THRESHOLD_DEN * tail) * n);
        assert(THRESHOLD_NUM * total * w == (THRESHOLD_NUM * total) * w);
    }
    wide_lt(left, right)
}

/// On a buffer of silence every amplitude is zero, and speech counts as
/// ended for every trailing window shorter than the buffer; a window as long
/// as the buffer or longer gives no decision.
pub proof fn lemma_silence_ends_speech(amplitudes: Seq<u32>, sample_rate: u32, window_ms: u32)
    requires
        forall|i: int| 0 <= i < amplitudes.len() ==> amplitudes[i] == 0,
    ensures
        window_samples(sample_rate, window_ms) < amplitudes.len() ==> speech_ended(
            amplitudes,
            sample_rate,
            window_ms,
        ),
        window_samples(sample_rate, window_ms) >= amplitudes.len() ==> !speech_ended(
            amplitudes,
            sample_rate,
            window_ms,
        ),
{
    let n = amplitudes.len();
    let w = window_samples(sample_rate, window_ms);
    if w < n {
        lemma_sum_zero(amplitudes);
    }
}

proof fn lemma_sum_zero(s: Seq<u32>)
    requires
        forall|i: int| 0 <= i < s.len() ==> s[i] == 0,
    ensures
        sum_of(s) == 0,
    decreases s.len(),
{
    if s.len() > 0 {
        lemma_sum_zero(s.drop_last());
    }
}

} // verus!
