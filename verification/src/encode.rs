//! The settings and the clock of the video encoder.

use crate::text;
use vstd::prelude::*;
use vstd::string::*;

verus! {

#[derive(Debug)]
pub struct EncodeError(pub String);

impl EncodeError {
    pub fn message(&self) -> (s: String)
        ensures
            s@ == "encode error: "@ + self.0@,
    {
        text::joined("encode error: ", self.0.as_str())
    }
}

/// Two numbers in one: the first in the upper half.
pub fn pack(hi: u32, lo: u32) -> (n: u64)
    ensures
        n == hi * 0x1_0000_0000 + lo,
{
    hi as u64 * 0x1_0000_0000 + lo as u64
}

/// What an encoder is made for.
#[derive(Clone, Copy, Debug, PartialEq, Eq, Structural)]
pub struct EncoderConfig {
    pub in_w: u32,
    pub in_h: u32,
    pub out_w: u32,
    pub out_h: u32,
    pub fps: u32,
    pub bitrate: u32,
}

/// The largest even number that is not larger.
pub open spec fn even(n: u32) -> u32 {
    (n - n % 2) as u32
}

impl EncoderConfig {
    /// An encoder of frames `in_w` by `in_h` to a stream `out_w` by `out_h`, both made even
    /// downwards, as the colour format needs it.
    pub fn new_scaled(
        in_w: u32,
        in_h: u32,
        out_w: u32,
        out_h: u32,
        fps: u32,
        bitrate: u32,
    ) -> (c: EncoderConfig)
        ensures
            c == (EncoderConfig {
                in_w,
                in_h,
                out_w: even(out_w),
                out_h: even(out_h),
                fps,
                bitrate,
            }),
    {
        EncoderConfig {
            in_w,
            in_h,
            out_w: out_w - out_w % 2,
            out_h: out_h - out_h % 2,
            fps,
            bitrate,
        }
    }

    /// An encoder that keeps the size, made even downwards.
    pub fn new(width: u32, height: u32, fps: u32, bitrate: u32) -> (c: EncoderConfig)
        ensures
            c == (EncoderConfig {
                in_w: width,
                in_h: height,
                out_w: even(width),
                out_h: even(height),
                fps,
                bitrate,
            }),
    {
        EncoderConfig::new_scaled(width, height, width, height, fps, bitrate)
    }
}

/// The times of frames, in units of 100 nanoseconds.
#[derive(Clone, Copy, Debug)]
pub struct FrameClock {
    pub fps: u32,
    pub index: i64,
}

impl FrameClock {
    /// How long a frame lasts.
    pub open spec fn span(&self) -> int {
        10_000_000int / (self.fps as int)
    }

    /// When the next frame begins and how long it lasts.
    pub fn next(&mut self) -> (r: (i64, i64))
        requires
            old(self).fps > 0,
            0 <= old(self).index < i64::MAX,
            old(self).index * old(self).span() <= i64::MAX,
        ensures
            r.1 == old(self).span(),
            r.0 == old(self).index * old(self).span(),
            final(self).fps == old(self).fps,
            final(self).index == old(self).index + 1,
    {
        let dur: i64 = (10_000_000u64 / self.fps as u64) as i64;
        proof {
            let (i, d) = (self.index as int, dur as int);
            assert(i * d >= 0) by (nonlinear_arith)
                requires
                    i >= 0,
                    d >= 0,
            ;
        }
        let pts: i64 = self.index * dur;
        self.index = self.index + 1;
        (pts, dur)
    }
}

/// Frames follow one another without gap or overlap: one begins where the one before it ends.
pub proof fn law_frames_abut(clock: FrameClock)
    ensures
        (clock.index + 1) * clock.span() == clock.index * clock.span() + clock.span(),
{
    let (i, d) = (clock.index as int, clock.span());
    assert((i + 1) * d == i * d + d) by (nonlinear_arith);
}

/// Sides of a picture are made even by leaving out at most one row or column; rate and bit rate are
/// kept.
pub proof fn law_sides_are_even(
    w: u32,
    h: u32,
    to_w: u32,
    to_h: u32,
    fps: u32,
    rate: u32,
    c: EncoderConfig,
    same: EncoderConfig,
)
    requires
        call_ensures(EncoderConfig::new_scaled, (w, h, to_w, to_h, fps, rate), c),
        call_ensures(EncoderConfig::new, (w, h, fps, rate), same),
    ensures
        c.in_w == w && c.in_h == h && c.fps == fps && c.bitrate == rate,
        c.out_w % 2 == 0 && c.out_w <= to_w <= c.out_w + 1,
        c.out_h % 2 == 0 && c.out_h <= to_h <= c.out_h + 1,
        same.in_w == w && same.in_h == h && same.fps == fps && same.bitrate == rate,
        same.out_w % 2 == 0 && same.out_w <= w <= same.out_w + 1,
        same.out_h % 2 == 0 && same.out_h <= h <= same.out_h + 1,
{
}

/// Both numbers can be told from the one into which they are packed.
pub proof fn law_packed(hi: u32, lo: u32, n: u64)
    requires
        call_ensures(pack, (hi, lo), n),
    ensures
        n / 0x1_0000_0000 == hi,
        n % 0x1_0000_0000 == lo,
{
}

/// Each frame begins where the one before it ends, the first one at zero; and it lasts as long as
/// the rate says: as many frames fit into a second as the rate has, and not one more, up to a unit
/// of time.
pub proof fn law_clock_runs(
    c: &mut FrameClock,
    first: (i64, i64),
    d: &mut FrameClock,
    second: (i64, i64),
)
    requires
        0 < old(c).fps,
        0 <= old(c).index < i64::MAX - 1,
        call_ensures(FrameClock::next, (c,), first),
        *old(d) == *final(c),
        call_ensures(FrameClock::next, (d,), second),
    ensures
        second.0 == first.0 + first.1,
        second.1 == first.1,
        old(c).index == 0 ==> first.0 == 0,
        first.1 * old(c).fps <= 10_000_000 < (first.1 + 1) * old(c).fps,
{
    law_frames_abut(*old(c));
    let (n, q) = (old(c).fps as int, first.1 as int);
    assert(q * n <= 10_000_000 < (q + 1) * n) by (nonlinear_arith)
        requires
            q == 10_000_000int / n,
            n > 0,
    ;
    if old(c).index == 0 {
        let span = old(c).span();
        assert(0 * span == 0) by (nonlinear_arith);
    }
}

} // verus!
