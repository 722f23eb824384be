use crate::config::Config;
use crate::delay::{
    all_sized, all_zero, lemma_shifted_all_samples, lemma_zero_convergence, shifted, shifted_all,
    DelayLine,
};
use crate::mixing::{lemma_mix_in_sample_range, lemma_mix_zero, mix, mix_sample, GAIN_UNITY};
use vstd::arithmetic::div_mod::{lemma_fundamental_div_mod, lemma_fundamental_div_mod_converse};
use vstd::arithmetic::mul::{lemma_mul_inequality, lemma_mul_is_commutative};
use vstd::prelude::*;

verus! {

/// What the callback reports back to the audio runtime: the effect never
/// asks for the stream to stop.
#[derive(Clone, Copy, Debug, PartialEq, Eq, Structural)]
pub enum StreamAction {
    Continue,
}

/// The interleaved positions of a frame's left and right samples.
pub fn stereo_buffer_idxs(frame_idx: usize) -> (r: (usize, usize))
    requires
        2 * frame_idx + 1 <= usize::MAX,
    ensures
        r.0 == 2 * frame_idx,
        r.1 == 2 * frame_idx + 1,
{
    (frame_idx * 2, frame_idx * 2 + 1)
}

/// The output block the processor owes for one callback: every sample is
/// the dry/wet mix of the live sample and the sample one full delay-length
/// back in the pre-advance history.
pub open spec fn mixed_block(input: Seq<i32>, history: Seq<i32>, dry: int, wet: int) -> Seq<i32> {
    Seq::new(
        input.len(),
        |t: int|
            mix(
                input[t] as int,
                history[history.len() - input.len() + t] as int,
                dry,
                wet,
            ) as i32,
    )
}

/// One frame of output: the dry/wet mix of the live frame and the frame one
/// full delay-length back, left and right.
pub fn compute_frame(
    frame_idx: usize,
    in_buffer: &Vec<i32>,
    delay_line: &DelayLine,
    dry_amp: u32,
    wet_amp: u32,
) -> (r: (i32, i32))
    requires
        delay_line.wf(),
        dry_amp + wet_amp <= GAIN_UNITY,
        2 * frame_idx + 1 < delay_line.block_size(),
        in_buffer@.len() == delay_line.block_size(),
    ensures
        r.0 as int == mix(
            in_buffer@[2 * frame_idx] as int,
            delay_line@[delay_line.oldest_start() + 2 * frame_idx] as int,
            dry_amp as int,
            wet_amp as int,
        ),
        r.1 as int == mix(
            in_buffer@[2 * frame_idx + 1] as int,
            delay_line@[delay_line.oldest_start() + 2 * frame_idx + 1] as int,
            dry_amp as int,
            wet_amp as int,
        ),
{
    let (left_idx, right_idx) = stereo_buffer_idxs(frame_idx);
    let (delay_left, delay_right) = delay_line.read_oldest(frame_idx);
    (
        mix_sample(in_buffer[left_idx], delay_left, dry_amp, wet_amp),
        mix_sample(in_buffer[right_idx], delay_right, dry_amp, wet_amp),
    )
}

/// The frame processor: owns the delay line exclusively and serves one
/// callback invocation at a time, on the audio runtime's thread.
pub struct Processor {
    dry_amp: u32,
    wet_amp: u32,
    frames_per_buffer: usize,
    delay: DelayLine,
}

impl Processor {
    pub closed spec fn spec_dry_amp(&self) -> int {
        self.dry_amp as int
    }

    pub closed spec fn spec_wet_amp(&self) -> int {
        self.wet_amp as int
    }

    pub closed spec fn spec_frames(&self) -> int {
        self.frames_per_buffer as int
    }

    /// The retained input history: the delay line's content, newest block
    /// first.
    pub closed spec fn history(&self) -> Seq<i32> {
        self.delay@
    }

    /// Samples per callback buffer: two per frame.
    pub open spec fn spec_spb(&self) -> int {
        2 * self.spec_frames()
    }

    /// The processor invariant: a well-formed delay line whose block is one
    /// callback buffer, and amplitudes that together stay within unity.
    pub closed spec fn wf(&self) -> bool {
        &&& 0 < self.spec_frames()
        &&& self.delay.wf()
        &&& self.delay.block_size() == self.spec_spb()
        &&& self.spec_dry_amp() + self.spec_wet_amp() <= GAIN_UNITY
    }

    /// How many samples the processor's delay line holds.
    pub open spec fn history_len(&self) -> int {
        self.history().len() as int
    }

    /// A fresh processor for a validated configuration: the delay line
    /// starts as all silence (the uninitialized lifecycle state).
    pub fn new(c: &Config) -> (r: Processor)
        requires
            c.wf(),
        ensures
            r.wf(),
            r.spec_dry_amp() == c.spec_dry_amp(),
            r.spec_wet_amp() == c.spec_wet_amp(),
            r.spec_frames() == c.spec_frames_per_buffer(),
            r.history().len() == c.spec_delay_samples_len(),
            all_zero(r.history()),
    {
        let spb = c.samples_per_buffer();
        let delay = DelayLine::new(spb, c.delay_samples());
        Processor {
            dry_amp: c.dry_amp(),
            wet_amp: c.wet_amp(),
            frames_per_buffer: c.frames_per_buffer(),
            delay,
        }
    }

    /// Serve one callback: fill the whole output buffer as the dry/wet mix
    /// of the live input and the pre-advance delay history — every frame of
    /// this call reads the state as it existed before the call — then, and
    /// only then, advance the delay line once with the input just consumed.
    /// The runtime is always told to keep streaming.
    pub fn process(&mut self, input: &Vec<i32>, output: &mut Vec<i32>) -> (r: StreamAction)
        requires
            old(self).wf(),
            input@.len() == old(self).spec_spb(),
            old(output)@.len() == old(self).spec_spb(),
        ensures
            final(self).wf(),
            final(self).spec_dry_amp() == old(self).spec_dry_amp(),
            final(self).spec_wet_amp() == old(self).spec_wet_amp(),
            final(self).spec_frames() == old(self).spec_frames(),
            final(output)@ == mixed_block(
                input@,
                old(self).history(),
                old(self).spec_dry_amp(),
                old(self).spec_wet_amp(),
            ),
            final(self).history() == shifted(old(self).history(), input@),
            r == StreamAction::Continue,
    {
        let mut frame_idx: usize = 0;
        while frame_idx < self.frames_per_buffer
            invariant
                *self == *old(self),
                self.wf(),
                input@.len() == self.spec_spb(),
                output@.len() == self.spec_spb(),
                frame_idx <= self.spec_frames(),
                forall|t: int|
                    0 <= t < 2 * frame_idx ==> #[trigger] output@[t] as int == mix(
                        input@[t] as int,
                        self.history()[self.history().len() - self.spec_spb() + t] as int,
                        self.spec_dry_amp(),
                        self.spec_wet_amp(),
                    ),
            decreases self.spec_frames() - frame_idx,
        {
            let (left_idx, right_idx) = stereo_buffer_idxs(frame_idx);
            let (sample_left, sample_right) = compute_frame(
                frame_idx,
                input,
                &self.delay,
                self.dry_amp,
                self.wet_amp,
            );
            output[left_idx] = sample_left;
            output[right_idx] = sample_right;
            frame_idx = frame_idx + 1;
        }
        proof {
            let mixed = mixed_block(
                input@,
                old(self).history(),
                old(self).spec_dry_amp(),
                old(self).spec_wet_amp(),
            );
            assert forall|t: int| 0 <= t < input@.len() implies output@[t] == mixed[t] by {
                lemma_mix_in_sample_range(
                    input@[t] as int,
                    self.history()[self.history().len() - self.spec_spb() + t] as int,
                    self.spec_dry_amp(),
                    self.spec_wet_amp(),
                );
            }
            assert(output@ =~= mixed);
        }
        self.delay.advance(input);
        StreamAction::Continue
    }
}

/// Zero-input convergence: feed silence for at least as many calls as the
/// delay line holds buffers and the line is silent again, whatever it held
/// before; a further silent call then produces an all-zero output block.
/// No residual energy remains in the steady state.
pub proof fn lemma_zero_input_convergence(
    history: Seq<i32>,
    inputs: Seq<Seq<i32>>,
    zero_in: Seq<i32>,
    block: int,
    dry: int,
    wet: int,
)
    requires
        0 < block <= history.len(),
        all_sized(inputs, block),
        forall|i: int| 0 <= i < inputs.len() ==> all_zero(#[trigger] inputs[i]),
        inputs.len() * block >= history.len(),
        zero_in.len() == block,
        all_zero(zero_in),
    ensures
        shifted_all(history, inputs).len() == history.len(),
        all_zero(shifted_all(history, inputs)),
        all_zero(mixed_block(zero_in, shifted_all(history, inputs), dry, wet)),
{
    lemma_zero_convergence(history, inputs, block);
    let h = shifted_all(history, inputs);
    let out = mixed_block(zero_in, h, dry, wet);
    assert forall|t: int| 0 <= t < out.len() implies out[t] == 0i32 by {
        lemma_mix_zero(dry, wet);
        assert(h[h.len() - block + t] == 0i32);
    }
}

/// Impulse propagation: over an all-silent delay line, feed one buffer
/// whose only sound sits in frame 0, then silence.  The call made exactly
/// `buffers-per-delay-line` calls later carries the wet-scaled impulse at
/// frame 0 of its output — and no other call, and no other frame, carries
/// anything beyond the dry-path leakage of the originating call itself.
/// `j` is the call index; the output of call `j` is the mixed block of
/// input `j` over the history left by the `j` advances before it.
pub proof fn lemma_impulse_propagation(
    history: Seq<i32>,
    inputs: Seq<Seq<i32>>,
    block: int,
    dry: int,
    wet: int,
    j: int,
)
    requires
        2 <= block <= history.len(),
        history.len() as int % block == 0,
        all_zero(history),
        all_sized(inputs, block),
        forall|i: int| 1 <= i < inputs.len() ==> all_zero(#[trigger] inputs[i]),
        forall|t: int| 2 <= t < block ==> inputs[0][t] == 0i32,
        0 <= j < inputs.len(),
    ensures
        ({
            let out_j = mixed_block(inputs[j], shifted_all(history, inputs.take(j)), dry, wet);
            let n = history.len() as int / block;
            &&& out_j.len() == block
            &&& (j == 0 ==> out_j[0] == mix(inputs[0][0] as int, 0, dry, wet) as i32 && out_j[1]
                == mix(inputs[0][1] as int, 0, dry, wet) as i32 && (forall|t: int|
                2 <= t < block ==> out_j[t] == 0i32))
            &&& (j == n ==> out_j[0] == mix(0, inputs[0][0] as int, dry, wet) as i32 && out_j[1]
                == mix(0, inputs[0][1] as int, dry, wet) as i32 && (forall|t: int|
                2 <= t < block ==> out_j[t] == 0i32))
            &&& (j != 0 && j != n ==> all_zero(out_j))
        }),
{
    let len = history.len() as int;
    let n = len / block;
    let run = inputs.take(j);
    assert(all_sized(run, block)) by {
        assert forall|i: int| 0 <= i < run.len() implies (#[trigger] run[i]).len() == block by {
            assert(run[i] == inputs[i]);
        }
    }
    lemma_shifted_all_samples(history, run, block);
    let h = shifted_all(history, run);
    let out_j = mixed_block(inputs[j], h, dry, wet);
    lemma_fundamental_div_mod(len, block);
    assert(len == n * block) by {
        lemma_mul_is_commutative(block, n);
    }
    assert(n >= 1) by {
        if n <= 0 {
            lemma_mul_inequality(n, 0, block);
            lemma_mul_is_commutative(n, block);
        }
    }
    lemma_mix_zero(dry, wet);
    assert forall|pos: int| len - block <= pos < len implies #[trigger] h[pos] == (if j == n {
        inputs[0][pos - (len - block)]
    } else {
        0i32
    }) by {
        let t = pos - (len - block);
        assert(pos == (n - 1) * block + t) by {
            vstd::arithmetic::mul::lemma_mul_is_distributive_sub_other_way(block, n, 1);
        }
        lemma_fundamental_div_mod_converse(pos, block, n - 1, t);
        if j <= n - 1 {
            assert(pos >= j * block) by {
                lemma_mul_inequality(j, n - 1, block);
            }
            assert(h[pos] == history[pos - j * block]);
        } else {
            assert(pos < j * block) by {
                lemma_mul_inequality(n, j, block);
            }
            assert(h[pos] == run[j - 1 - pos / block][pos % block]);
            assert(run[j - n] == inputs[j - n]);
            if j != n {
                assert(all_zero(inputs[j - n]));
            }
        }
    }
    if j == 0 {
        assert(out_j[0] == mix(inputs[0][0] as int, 0, dry, wet) as i32);
        assert(out_j[1] == mix(inputs[0][1] as int, 0, dry, wet) as i32);
        assert forall|t: int| 2 <= t < block implies out_j[t] == 0i32 by {
            assert(inputs[0][t] == 0i32);
        }
    } else {
        assert(all_zero(inputs[j]));
        if j == n {
            assert(out_j[0] == mix(0, inputs[0][0] as int, dry, wet) as i32);
            assert(out_j[1] == mix(0, inputs[0][1] as int, dry, wet) as i32);
            assert forall|t: int| 2 <= t < block implies out_j[t] == 0i32 by {
                assert(inputs[0][t] == 0i32);
            }
        } else {
            assert forall|t: int| 0 <= t < block implies out_j[t] == 0i32 by {
                assert(h[len - block + t] == 0i32);
                assert(inputs[j][t] == 0i32);
            }
        }
    }
}

} // verus!
