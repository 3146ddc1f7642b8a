//! Time bookkeeping: the tick counter the timer interrupt drives, the
//! tick-rate calibration rule, the sleep deadline test, and the conversion
//! of the clock chip's binary-coded-decimal registers. Reading the
//! hardware ports happens outside the library; these functions carry the
//! decisions.

use vstd::prelude::*;

verus! {

use vstd::arithmetic::mul::lemma_mul_upper_bound;

/// The tick rate assumed until calibration, and fallen back to when
/// calibration returns nonsense.
pub const FALLBACK_HZ: u64 = 100;

/// Ticks `b` to `a`, with the counter allowed to wrap once.
pub open spec fn wrapping_diff(a: u64, b: u64) -> int {
    if a >= b {
        a - b
    } else {
        a + 0x1_0000_0000_0000_0000 - b
    }
}

/// The monotonic tick counter; the timer interrupt advances it.
pub struct Clock {
    pub ticks: u64,
}

impl Clock {
    pub fn new() -> (c: Clock)
        ensures
            c.ticks == 0u64,
    {
        Clock { ticks: 0 }
    }

    /// Count one timer interrupt; the counter wraps around at its maximum.
    pub fn tick(&mut self)
        ensures
            final(self).ticks == if old(self).ticks == u64::MAX {
                0u64
            } else {
                (old(self).ticks + 1) as u64
            },
    {
        if self.ticks == u64::MAX {
            self.ticks = 0;
        } else {
            self.ticks = self.ticks + 1;
        }
    }

    /// The current tick count.
    pub fn get_ticks(&self) -> (t: u64)
        ensures
            t == self.ticks,
    {
        self.ticks
    }
}

/// The calibrated ticks-per-second rate: the ticks counted across one
/// wall-clock second, or the fallback rate when fewer than ten were seen.
pub fn calibrate_hz(start_ticks: u64, end_ticks: u64) -> (hz: u64)
    ensures
        hz as int == if wrapping_diff(end_ticks, start_ticks) < 10 {
            FALLBACK_HZ as int
        } else {
            wrapping_diff(end_ticks, start_ticks)
        },
{
    let diff: u64 = if end_ticks >= start_ticks {
        end_ticks - start_ticks
    } else {
        u64::MAX - start_ticks + end_ticks + 1
    };
    if diff < 10 {
        FALLBACK_HZ
    } else {
        diff
    }
}

/// How many ticks a sleep of `seconds` must wait, saturating at the
/// counter's maximum.
pub fn wait_ticks(seconds: u64, hz: u64) -> (t: u64)
    ensures
        t as int == if seconds * hz <= u64::MAX {
            seconds * hz
        } else {
            u64::MAX as int
        },
{
    proof {
        lemma_mul_upper_bound(seconds as int, u64::MAX as int, hz as int, u64::MAX as int);
    }
    let wide: u128 = seconds as u128 * hz as u128;
    if wide > u64::MAX as u128 {
        u64::MAX
    } else {
        wide as u64
    }
}

/// Whether a sleep that began at tick `start` is over at tick `now`.
pub fn sleep_elapsed(start: u64, now: u64, wait: u64) -> (done: bool)
    ensures
        done == (wrapping_diff(now, start) >= wait),
{
    let diff: u64 = if now >= start {
        now - start
    } else {
        u64::MAX - start + now + 1
    };
    diff >= wait
}

/// A binary-coded-decimal byte as a binary value: the low nibble is the
/// ones digit and the high nibble the tens digit.
pub open spec fn spec_bcd(b: u8) -> int {
    (b & 0x0F) + (b >> 4) * 10
}

/// Convert one binary-coded-decimal byte.
pub fn bcd_to_binary(b: u8) -> (v: u8)
    ensures
        v as int == spec_bcd(b),
{
    proof {
        assert((b & 0x0F) < 16 && (b >> 4) < 16) by (bit_vector);
    }
    (b & 0x0F) + (b >> 4) * 10
}

/// Convert the clock chip's hour, minute and second registers.
pub fn rtc_decode(h_raw: u8, m_raw: u8, s_raw: u8) -> (t: (u8, u8, u8))
    ensures
        t.0 as int == spec_bcd(h_raw),
        t.1 as int == spec_bcd(m_raw),
        t.2 as int == spec_bcd(s_raw),
{
    (bcd_to_binary(h_raw), bcd_to_binary(m_raw), bcd_to_binary(s_raw))
}

} // verus!
