use crate::mixing::GAIN_UNITY;
use vstd::arithmetic::div_mod::lemma_fundamental_div_mod;
use vstd::arithmetic::mul::{lemma_mul_inequality, lemma_mul_is_distributive_add};
use vstd::prelude::*;

verus! {

/// Why a configuration was rejected at initialization.  Every rejection is
/// fatal and happens before any callback runs; nothing is discovered
/// mid-stream.
#[derive(Clone, Copy, Debug, PartialEq, Eq, Structural)]
pub enum ConfigError {
    /// The frame rate is zero.
    ZeroFrameRate,
    /// A buffer would hold no frames.
    ZeroBufferSize,
    /// Twice the frames-per-buffer does not fit the machine word.
    BufferTooLarge,
    /// The delay rounds to zero samples.
    ZeroDelay,
    /// The delay line would not fit the machine word.
    DelayTooLong,
    /// The delay length is not a whole number of buffers.
    MisalignedDelay,
    /// The two amplitudes together exceed unity gain.
    GainTooLarge,
}

/// Samples per buffer: interleaved stereo, two samples per frame.
pub open spec fn spec_samples_per_buffer(frames_per_buffer: int) -> int {
    2 * frames_per_buffer
}

/// The delay length in samples: frame rate × channels × delay duration,
/// with the duration given in milliseconds and the result rounded to the
/// nearest whole sample.
pub open spec fn spec_delay_samples(frame_rate: int, delay_ms: int) -> int {
    (2 * frame_rate * delay_ms + 500) / 1000
}

/// The next multiple of `unit` at or above `v`.
pub open spec fn round_up_to(v: int, unit: int) -> int {
    if v % unit == 0 {
        v
    } else {
        v + unit - v % unit
    }
}

/// The first reason, if any, to reject the given raw configuration.  With
/// `align_up` the delay length is stretched to the next whole number of
/// buffers instead of being rejected when it does not divide evenly.
pub open spec fn config_rejection(
    frame_rate: int,
    frames_per_buffer: int,
    delay_ms: int,
    dry_amp: int,
    wet_amp: int,
    align_up: bool,
) -> Option<ConfigError> {
    let spb = spec_samples_per_buffer(frames_per_buffer);
    let ds = spec_delay_samples(frame_rate, delay_ms);
    let aligned = if align_up {
        round_up_to(ds, spb)
    } else {
        ds
    };
    if frame_rate == 0 {
        Some(ConfigError::ZeroFrameRate)
    } else if frames_per_buffer == 0 {
        Some(ConfigError::ZeroBufferSize)
    } else if spb > usize::MAX {
        Some(ConfigError::BufferTooLarge)
    } else if ds == 0 {
        Some(ConfigError::ZeroDelay)
    } else if !align_up && ds % spb != 0 {
        Some(ConfigError::MisalignedDelay)
    } else if aligned > usize::MAX {
        Some(ConfigError::DelayTooLong)
    } else if dry_amp + wet_amp > GAIN_UNITY {
        Some(ConfigError::GainTooLarge)
    } else {
        None
    }
}

/// A validated stream configuration: channel count fixed at two
/// (interleaved left/right), frame rate, frames per buffer, delay length
/// in samples, and the dry and wet amplitudes, all immutable for the
/// process lifetime.
#[derive(Clone, Copy, Debug)]
pub struct Config {
    frame_rate: u32,
    frames_per_buffer: usize,
    delay_samples: usize,
    dry_amp: u32,
    wet_amp: u32,
}

/// What a constructor must return for the given raw configuration: the
/// first rejection if there is one, otherwise a well-formed `Config`
/// carrying exactly the validated and derived values.
pub open spec fn config_result(
    frame_rate: int,
    frames_per_buffer: int,
    delay_ms: int,
    dry_amp: int,
    wet_amp: int,
    align_up: bool,
    r: Result<Config, ConfigError>,
) -> bool {
    match config_rejection(frame_rate, frames_per_buffer, delay_ms, dry_amp, wet_amp, align_up) {
        Some(e) => r == Err::<Config, ConfigError>(e),
        None => match r {
            Ok(c) => {
                &&& c.wf()
                &&& c.spec_frame_rate() == frame_rate
                &&& c.spec_frames_per_buffer() == frames_per_buffer
                &&& c.spec_delay_samples_len() == (if align_up {
                    round_up_to(
                        spec_delay_samples(frame_rate, delay_ms),
                        spec_samples_per_buffer(frames_per_buffer),
                    )
                } else {
                    spec_delay_samples(frame_rate, delay_ms)
                })
                &&& c.spec_dry_amp() == dry_amp
                &&& c.spec_wet_amp() == wet_amp
            },
            Err(_) => false,
        },
    }
}

impl Config {
    pub closed spec fn spec_frame_rate(&self) -> int {
        self.frame_rate as int
    }

    pub closed spec fn spec_frames_per_buffer(&self) -> int {
        self.frames_per_buffer as int
    }

    pub closed spec fn spec_delay_samples_len(&self) -> int {
        self.delay_samples as int
    }

    pub closed spec fn spec_dry_amp(&self) -> int {
        self.dry_amp as int
    }

    pub closed spec fn spec_wet_amp(&self) -> int {
        self.wet_amp as int
    }

    /// Derived: samples per buffer, two per frame.
    pub open spec fn spec_spb(&self) -> int {
        spec_samples_per_buffer(self.spec_frames_per_buffer())
    }

    /// Derived: how many buffers the delay line spans.
    pub open spec fn spec_buffers_per_delay(&self) -> int {
        self.spec_delay_samples_len() / self.spec_spb()
    }

    /// The configuration invariant every constructor establishes: positive
    /// rate and sizes, a delay line that is a positive whole number of
    /// buffers, and amplitudes that together stay within unity gain.
    pub open spec fn wf(&self) -> bool {
        &&& 0 < self.spec_frame_rate()
        &&& 0 < self.spec_frames_per_buffer()
        &&& self.spec_spb() <= usize::MAX
        &&& self.spec_spb() <= self.spec_delay_samples_len()
        &&& self.spec_delay_samples_len() <= usize::MAX
        &&& self.spec_delay_samples_len() % self.spec_spb() == 0
        &&& 0 <= self.spec_dry_amp()
        &&& 0 <= self.spec_wet_amp()
        &&& self.spec_dry_amp() + self.spec_wet_amp() <= GAIN_UNITY
    }

    /// Validate a raw configuration, rejecting a delay that is not a whole
    /// number of buffers.
    pub fn new(
        frame_rate: u32,
        frames_per_buffer: usize,
        delay_ms: u32,
        dry_amp: u32,
        wet_amp: u32,
    ) -> (r: Result<Config, ConfigError>)
        ensures
            config_result(
                frame_rate as int,
                frames_per_buffer as int,
                delay_ms as int,
                dry_amp as int,
                wet_amp as int,
                false,
                r,
            ),
    {
        Self::build(frame_rate, frames_per_buffer, delay_ms, dry_amp, wet_amp, false)
    }

    /// Validate a raw configuration, stretching the delay up to the next
    /// whole number of buffers when it does not divide evenly.
    pub fn new_aligned_up(
        frame_rate: u32,
        frames_per_buffer: usize,
        delay_ms: u32,
        dry_amp: u32,
        wet_amp: u32,
    ) -> (r: Result<Config, ConfigError>)
        ensures
            config_result(
                frame_rate as int,
                frames_per_buffer as int,
                delay_ms as int,
                dry_amp as int,
                wet_amp as int,
                true,
                r,
            ),
    {
        Self::build(frame_rate, frames_per_buffer, delay_ms, dry_amp, wet_amp, true)
    }

    fn build(
        frame_rate: u32,
        frames_per_buffer: usize,
        delay_ms: u32,
        dry_amp: u32,
        wet_amp: u32,
        align_up: bool,
    ) -> (r: Result<Config, ConfigError>)
        ensures
            config_result(
                frame_rate as int,
                frames_per_buffer as int,
                delay_ms as int,
                dry_amp as int,
                wet_amp as int,
                align_up,
                r,
            ),
    {
        if frame_rate == 0 {
            return Err(ConfigError::ZeroFrameRate);
        }
        if frames_per_buffer == 0 {
            return Err(ConfigError::ZeroBufferSize);
        }
        if frames_per_buffer > usize::MAX / 2 {
            return Err(ConfigError::BufferTooLarge);
        }
        let spb: usize = 2 * frames_per_buffer;
        proof {
            assert((2 * (frame_rate as int)) * (delay_ms as int) <= (2 * (u32::MAX as int)) * (
            u32::MAX as int)) by (nonlinear_arith)
                requires
                    0 <= frame_rate as int <= u32::MAX as int,
                    0 <= delay_ms as int <= u32::MAX as int,
            ;
        }
        let num: u128 = 2u128 * (frame_rate as u128) * (delay_ms as u128) + 500;
        let ds: u128 = num / 1000;
        assert(ds == spec_delay_samples(frame_rate as int, delay_ms as int));
        if ds == 0 {
            return Err(ConfigError::ZeroDelay);
        }
        let rem: u128 = ds % (spb as u128);
        if !align_up && rem != 0 {
            return Err(ConfigError::MisalignedDelay);
        }
        let aligned: u128 = if align_up && rem != 0 {
            ds + ((spb as u128) - rem)
        } else {
            ds
        };
        assert(aligned == (if align_up {
            round_up_to(ds as int, spb as int)
        } else {
            ds as int
        }));
        if aligned > (usize::MAX as u128) {
            return Err(ConfigError::DelayTooLong);
        }
        let delay_samples: usize = aligned as usize;
        if dry_amp > GAIN_UNITY || wet_amp > GAIN_UNITY - dry_amp {
            return Err(ConfigError::GainTooLarge);
        }
        proof {
            lemma_fundamental_div_mod(ds as int, spb as int);
            let q = (ds as int) / (spb as int);
            if align_up {
                assert(aligned == (spb as int) * (if (ds as int) % (spb as int) == 0 {
                    q
                } else {
                    q + 1
                })) by {
                    lemma_mul_is_distributive_add(spb as int, q, 1);
                }
                vstd::arithmetic::div_mod::lemma_mod_multiples_basic(
                    if (ds as int) % (spb as int) == 0 {
                        q
                    } else {
                        q + 1
                    },
                    spb as int,
                );
            }
            assert((aligned as int) % (spb as int) == 0);
            let qa = (aligned as int) / (spb as int);
            lemma_fundamental_div_mod(aligned as int, spb as int);
            assert(qa >= 1) by {
                if qa <= 0 {
                    lemma_mul_inequality(qa, 0, spb as int);
                    assert((spb as int) * qa <= 0) by {
                        vstd::arithmetic::mul::lemma_mul_is_commutative(spb as int, qa);
                    }
                }
            }
            assert(spb as int <= aligned as int) by {
                lemma_mul_inequality(1, qa, spb as int);
                vstd::arithmetic::mul::lemma_mul_is_commutative(spb as int, qa);
            }
        }
        Ok(
            Config {
                frame_rate,
                frames_per_buffer,
                delay_samples,
                dry_amp,
                wet_amp,
            },
        )
    }

    /// The configured frame rate in frames per second.
    pub fn frame_rate(&self) -> (r: u32)
        ensures
            r as int == self.spec_frame_rate(),
    {
        self.frame_rate
    }

    /// Frames delivered per callback invocation.
    pub fn frames_per_buffer(&self) -> (r: usize)
        ensures
            r as int == self.spec_frames_per_buffer(),
    {
        self.frames_per_buffer
    }

    /// Samples delivered per callback invocation: two per frame.
    pub fn samples_per_buffer(&self) -> (r: usize)
        requires
            self.wf(),
        ensures
            r as int == self.spec_spb(),
    {
        2 * self.frames_per_buffer
    }

    /// The delay line length in samples.
    pub fn delay_samples(&self) -> (r: usize)
        ensures
            r as int == self.spec_delay_samples_len(),
    {
        self.delay_samples
    }

    /// How many buffers the delay line spans.
    pub fn buffers_per_delay(&self) -> (r: usize)
        requires
            self.wf(),
        ensures
            r as int == self.spec_buffers_per_delay(),
    {
        self.delay_samples / (2 * self.frames_per_buffer)
    }

    /// The dry (live input) amplitude, in units of `1 / GAIN_UNITY`.
    pub fn dry_amp(&self) -> (r: u32)
        ensures
            r as int == self.spec_dry_amp(),
    {
        self.dry_amp
    }

    /// The wet (delayed input) amplitude, in units of `1 / GAIN_UNITY`.
    pub fn wet_amp(&self) -> (r: u32)
        ensures
            r as int == self.spec_wet_amp(),
    {
        self.wet_amp
    }
}

} // verus!
