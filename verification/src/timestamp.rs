//! Constant-rate presentation and decode timestamps.
//!
//! The timestamps that an encoder puts on its packets are not trusted. Each
//! packet gets the next value of an exactly periodic sequence instead, whose
//! period is one frame duration counted in ticks of the time base that the
//! muxer settled on.

use vstd::prelude::*;
use crate::error::PipelineError;
use crate::rational::Rational;

verus! {

/// The magnitude of an integer.
pub open spec fn magnitude(a: int) -> int {
    if a < 0 {
        -a
    } else {
        a
    }
}

/// Integer division that rounds toward zero.
pub open spec fn quotient_toward_zero(a: int, b: int) -> int
    recommends
        b != 0,
{
    if (a < 0) == (b < 0) {
        magnitude(a) / magnitude(b)
    } else {
        -(magnitude(a) / magnitude(b))
    }
}

/// Ticks of `time_base` that one frame lasts at `fps` frames per second:
/// `(time_base.den * fps.den) / fps.num`, rounded toward zero.
pub open spec fn spec_pts_increment(fps: Rational, time_base: Rational) -> int
    recommends
        fps.num != 0,
{
    quotient_toward_zero(time_base.den * fps.den, fps.num as int)
}

/// The value fits a 64-bit timestamp.
pub open spec fn fits_i64(v: int) -> bool {
    i64::MIN <= v <= i64::MAX
}

/// The presentation timestamp of packet `n`, counted from zero.
pub open spec fn spec_pts(increment: int, n: nat) -> int {
    n * increment
}

/// Timestamps start at zero and each is exactly one increment after the one
/// before it.
pub proof fn lemma_timestamps_periodic(increment: int, n: nat)
    ensures
        spec_pts(increment, 0) == 0,
        spec_pts(increment, n + 1) - spec_pts(increment, n) == increment,
{
    assert((n + 1) * increment == n * increment + increment) by (nonlinear_arith);
}

/// With a positive increment, a later packet has a strictly larger
/// timestamp.
pub proof fn lemma_timestamps_strictly_increasing(increment: int, m: nat, n: nat)
    requires
        increment > 0,
        m < n,
    ensures
        spec_pts(increment, m) < spec_pts(increment, n),
{
    assert(m * increment < n * increment) by (nonlinear_arith)
        requires
            increment > 0,
            m < n,
    ;
}

/// The increment is positive where frame rate and time base are positive
/// and one frame lasts at least one tick of the time base.
pub proof fn lemma_increment_positive(fps: Rational, time_base: Rational)
    requires
        fps.num > 0,
        fps.den > 0,
        time_base.den > 0,
        time_base.den * fps.den >= fps.num,
    ensures
        spec_pts_increment(fps, time_base) >= 1,
{
    let ticks = time_base.den * fps.den;
    let rate = fps.num as int;
    assert(ticks / rate >= 1) by (nonlinear_arith)
        requires
            rate > 0,
            ticks >= rate,
    ;
}

/// A quotient rounded toward zero is no larger in magnitude than its dividend.
proof fn lemma_quotient_bounded(a: int, b: int)
    requires
        b != 0,
    ensures
        magnitude(quotient_toward_zero(a, b)) <= magnitude(a),
{
    let m = magnitude(a);
    let d = magnitude(b);
    assert(0 <= m / d <= m) by (nonlinear_arith)
        requires
            0 <= m,
            1 <= d,
    ;
}

/// The product of two 32-bit integers fits in 64 bits with room to spare.
proof fn lemma_product_fits(a: i32, b: i32)
    ensures
        -0x4000_0000_0000_0000 <= a * b <= 0x4000_0000_0000_0000,
{
    assert(-0x4000_0000_0000_0000 <= a * b <= 0x4000_0000_0000_0000) by (nonlinear_arith)
        requires
            -0x8000_0000 <= a <= 0x7fff_ffff,
            -0x8000_0000 <= b <= 0x7fff_ffff,
    ;
}

/// The timestamp increment fits in 64 bits whatever frame rate and time
/// base are.
pub proof fn lemma_increment_fits(fps: Rational, time_base: Rational)
    requires
        fps.num != 0,
    ensures
        fits_i64(spec_pts_increment(fps, time_base)),
{
    lemma_product_fits(time_base.den, fps.den);
    lemma_quotient_bounded(time_base.den * fps.den, fps.num as int);
}

/// Computes the timestamp increment of one frame from the frame rate and
/// from the time base that the muxer reports after it wrote its header.
///
/// Fails with `ZeroFrameRate` exactly when the frame rate has a zero
/// numerator.
pub fn pts_increment(fps: Rational, time_base: Rational) -> (res: Result<i64, PipelineError>)
    ensures
        fps.num == 0 <==> res == Err::<i64, PipelineError>(PipelineError::ZeroFrameRate),
        fps.num != 0 <==> res == Ok::<i64, PipelineError>(spec_pts_increment(fps, time_base) as i64),
        fps.num != 0 ==> fits_i64(spec_pts_increment(fps, time_base)),
{
    proof {
        lemma_product_fits(time_base.den, fps.den);
        if fps.num != 0 {
            lemma_increment_fits(fps, time_base);
        }
    }
    let ticks: i64 = (time_base.den as i64) * (fps.den as i64);
    match ticks.checked_div(fps.num as i64) {
        Some(q) => Ok(q),
        None => Err(PipelineError::ZeroFrameRate),
    }
}

/// The timestamps put on one packet.
#[derive(Clone, Copy, Debug, PartialEq, Eq, Structural)]
pub struct Timestamp {
    /// Presentation timestamp.
    pub pts: i64,
    /// Decode timestamp. Frames are never reordered, so it equals `pts`.
    pub dts: i64,
}

/// The running timestamp of one encode session.
pub struct TimestampSequence {
    increment: i64,
    current: i64,
    emitted: Ghost<nat>,
}

impl TimestampSequence {
    /// The fixed distance between two consecutive timestamps.
    pub closed spec fn spec_increment(&self) -> int {
        self.increment as int
    }

    /// How many packets have been stamped so far.
    pub closed spec fn spec_emitted(&self) -> nat {
        self.emitted@
    }

    /// The timestamp that the next packet will get.
    pub closed spec fn spec_current(&self) -> int {
        self.current as int
    }

    /// The running value is the packet count times the increment.
    pub closed spec fn wf(&self) -> bool {
        self.current == spec_pts(self.increment as int, self.emitted@)
    }

    /// The value after the next one still fits in 64 bits.
    pub open spec fn spec_can_advance(&self) -> bool {
        fits_i64(self.spec_current() + self.spec_increment())
    }

    /// In a well-formed sequence the next timestamp is the packet count
    /// times the increment, and both it and the increment are 64-bit values.
    pub proof fn lemma_current(&self)
        requires
            self.wf(),
        ensures
            self.spec_current() == spec_pts(self.spec_increment(), self.spec_emitted()),
            fits_i64(self.spec_current()),
            fits_i64(self.spec_increment()),
    {
    }

    /// A fresh sequence: it starts at zero and steps by `increment`.
    pub fn new(increment: i64) -> (seq: TimestampSequence)
        ensures
            seq.wf(),
            seq.spec_increment() == increment,
            seq.spec_emitted() == 0,
            seq.spec_current() == 0,
    {
        TimestampSequence { increment, current: 0, emitted: Ghost(0) }
    }

    /// The fixed distance between two consecutive timestamps.
    pub fn increment(&self) -> (i: i64)
        ensures
            i == self.spec_increment(),
    {
        self.increment
    }

    /// The timestamp that the next packet will get.
    pub fn current_pts(&self) -> (p: i64)
        ensures
            p == self.spec_current(),
    {
        self.current
    }

    /// Whether one more packet can be stamped without leaving the range of
    /// a 64-bit timestamp.
    pub fn can_advance(&self) -> (b: bool)
        ensures
            b == self.spec_can_advance(),
    {
        self.current.checked_add(self.increment).is_some()
    }

    /// Hands out the timestamps of the next packet and moves on by one
    /// increment. Presentation and decode timestamp are the same value.
    pub fn stamp(&mut self) -> (t: Timestamp)
        requires
            old(self).wf(),
            old(self).spec_can_advance(),
        ensures
            final(self).wf(),
            final(self).spec_increment() == old(self).spec_increment(),
            final(self).spec_emitted() == old(self).spec_emitted() + 1,
            final(self).spec_current() == old(self).spec_current() + old(self).spec_increment(),
            t.pts == spec_pts(old(self).spec_increment(), old(self).spec_emitted()),
            t.dts == t.pts,
    {
        let t = Timestamp { pts: self.current, dts: self.current };
        proof {
            assert((self.emitted@ + 1) * self.increment == self.emitted@ * self.increment
                + self.increment) by (nonlinear_arith);
        }
        self.current = self.current + self.increment;
        self.emitted = Ghost((self.emitted@ + 1) as nat);
        t
    }
}

} // verus!
