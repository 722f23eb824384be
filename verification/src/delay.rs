use vstd::arithmetic::div_mod::{
    lemma_fundamental_div_mod, lemma_fundamental_div_mod_converse, lemma_multiply_divide_lt,
};
use vstd::arithmetic::mul::{lemma_mul_inequality, lemma_mul_is_distributive_add_other_way};
use vstd::prelude::*;

verus! {

/// A fixed-capacity delay line of interleaved stereo samples.
///
/// The line always holds a positive whole number of blocks of `block`
/// samples each — exactly one delay-duration of trailing input history,
/// advanced one block per callback.  The freshest block sits at the front
/// (index 0); each `advance` pushes the just-consumed input block in at the
/// front and drops the oldest block off the back, so the block starting at
/// `len - block` is the input from `len / block` calls ago.
pub struct DelayLine {
    samples: Vec<i32>,
    block: usize,
}

/// The delay-line content after one advance: the input block enters at the
/// front, every retained sample moves down by one block, and the oldest
/// block leaves at the back.
pub open spec fn shifted(history: Seq<i32>, input: Seq<i32>) -> Seq<i32> {
    input + history.take(history.len() - input.len())
}

/// The delay-line content after a whole run of advances, `inputs[0]` first.
pub open spec fn shifted_all(history: Seq<i32>, inputs: Seq<Seq<i32>>) -> Seq<i32>
    decreases inputs.len(),
{
    if inputs.len() == 0 {
        history
    } else {
        shifted_all(shifted(history, inputs[0]), inputs.drop_first())
    }
}

/// Every buffer of the run holds exactly one block of samples.
pub open spec fn all_sized(inputs: Seq<Seq<i32>>, block: int) -> bool {
    forall|i: int| 0 <= i < inputs.len() ==> (#[trigger] inputs[i]).len() == block
}

/// Silence: every sample of the sequence is zero.
pub open spec fn all_zero(s: Seq<i32>) -> bool {
    forall|t: int| 0 <= t < s.len() ==> s[t] == 0i32
}

/// Where every sample of the line comes from after a run of advances:
/// sample `t` lies `t / block` blocks behind the front, so it was carried by
/// the input `1 + t / block` calls ago, or by the starting history once the
/// run is shorter than the line.  This is the shift-correctness of the
/// line: content identity, block by block, newest first.
pub proof fn lemma_shifted_all_samples(history: Seq<i32>, inputs: Seq<Seq<i32>>, block: int)
    requires
        0 < block <= history.len(),
        all_sized(inputs, block),
    ensures
        shifted_all(history, inputs).len() == history.len(),
        forall|t: int|
            0 <= t < history.len() ==> #[trigger] shifted_all(history, inputs)[t] == (if t
                < inputs.len() * block {
                inputs[inputs.len() - 1 - t / block][t % block]
            } else {
                history[t - inputs.len() * block]
            }),
    decreases inputs.len(),
{
    let k = inputs.len() as int;
    let len = history.len() as int;
    if inputs.len() == 0 {
        assert(0 * block == 0);
    } else {
        let first = inputs[0];
        let h1 = shifted(history, first);
        let rest = inputs.drop_first();
        let dl = rest.len() as int;
        assert(first.len() == block);
        assert(h1.len() == len);
        assert(all_sized(rest, block)) by {
            assert forall|i: int| 0 <= i < rest.len() implies (#[trigger] rest[i]).len()
                == block by {
                assert(rest[i] == inputs[i + 1]);
            }
        }
        lemma_shifted_all_samples(h1, rest, block);
        let res = shifted_all(history, inputs);
        assert(res == shifted_all(h1, rest));
        assert(dl * block + block == k * block) by {
            lemma_mul_is_distributive_add_other_way(block, dl, 1);
        }
        assert forall|t: int| 0 <= t < len implies #[trigger] res[t] == (if t < k * block {
            inputs[k - 1 - t / block][t % block]
        } else {
            history[t - k * block]
        }) by {
            assert(res[t] == (if t < dl * block {
                rest[dl - 1 - t / block][t % block]
            } else {
                h1[t - dl * block]
            }));
            if t < dl * block {
                lemma_multiply_divide_lt(t, block, dl);
                assert(rest[dl - 1 - t / block] == inputs[dl - t / block]);
            } else {
                let u = t - dl * block;
                assert(0 <= u);
                if u < block {
                    assert(h1[u] == first[u]);
                    lemma_fundamental_div_mod_converse(t, block, dl, u);
                    assert(inputs[k - 1 - t / block] == inputs[0]);
                } else {
                    assert(h1[u] == history.take(len - block)[u - block]);
                    assert(history.take(len - block)[u - block] == history[u - block]);
                    assert(t - k * block == u - block);
                }
            }
        }
    }
}

/// After a run of at least as many calls as the line has blocks, the oldest
/// retained block — the one `read_oldest` serves — is, sample for sample,
/// the input supplied exactly `history.len() / block` calls prior.
pub proof fn lemma_shift_correctness(history: Seq<i32>, inputs: Seq<Seq<i32>>, block: int)
    requires
        0 < block <= history.len(),
        history.len() as int % block == 0,
        all_sized(inputs, block),
        inputs.len() * block >= history.len(),
    ensures
        shifted_all(history, inputs).subrange(
            history.len() - block,
            history.len() as int,
        ) == inputs[inputs.len() - history.len() as int / block],
{
    let len = history.len() as int;
    let k = inputs.len() as int;
    let n = len / block;
    lemma_shifted_all_samples(history, inputs, block);
    lemma_fundamental_div_mod(len, block);
    assert(len == n * block) by {
        vstd::arithmetic::mul::lemma_mul_is_commutative(block, n);
    }
    assert(n >= 1) by {
        if n <= 0 {
            lemma_mul_inequality(n, 0, block);
        }
    }
    assert(k >= n) by {
        if k < n {
            vstd::arithmetic::mul::lemma_mul_strict_inequality(k, n, block);
        }
    }
    let tail = shifted_all(history, inputs).subrange(len - block, len);
    assert forall|t: int| 0 <= t < block implies tail[t] == inputs[k - n][t] by {
        let pos = len - block + t;
        assert(pos == (n - 1) * block + t) by {
            lemma_mul_is_distributive_add_other_way(block, n - 1, 1);
        }
        lemma_fundamental_div_mod_converse(pos, block, n - 1, t);
        assert(pos < k * block);
        assert(inputs[k - 1 - pos / block] == inputs[k - n]);
    }
    assert(tail =~= inputs[k - n]);
}

/// Feeding silence for at least as many calls as the line has blocks leaves
/// the whole line silent: no residual energy remains from earlier input.
pub proof fn lemma_zero_convergence(history: Seq<i32>, inputs: Seq<Seq<i32>>, block: int)
    requires
        0 < block <= history.len(),
        all_sized(inputs, block),
        forall|i: int| 0 <= i < inputs.len() ==> all_zero(#[trigger] inputs[i]),
        inputs.len() * block >= history.len(),
    ensures
        shifted_all(history, inputs).len() == history.len(),
        all_zero(shifted_all(history, inputs)),
{
    let len = history.len() as int;
    let k = inputs.len() as int;
    lemma_shifted_all_samples(history, inputs, block);
    assert forall|t: int| 0 <= t < len implies shifted_all(history, inputs)[t] == 0i32 by {
        vstd::arithmetic::div_mod::lemma_mod_division_less_than_divisor(t, block);
        vstd::arithmetic::div_mod::lemma_div_pos_is_pos(t, block);
        assert(t < block * k) by {
            vstd::arithmetic::mul::lemma_mul_is_commutative(block, k);
        }
        lemma_multiply_divide_lt(t, block, k);
        assert(all_zero(inputs[k - 1 - t / block]));
        assert(inputs[k - 1 - t / block][t % block] == 0i32);
    }
}

impl View for DelayLine {
    type V = Seq<i32>;

    closed spec fn view(&self) -> Seq<i32> {
        self.samples@
    }
}

impl DelayLine {
    /// The number of samples shifted in per call: one callback buffer,
    /// frames-per-buffer pairs of interleaved stereo samples.
    pub closed spec fn block_size(&self) -> int {
        self.block as int
    }

    /// Well-formed: a positive whole number of blocks, within the machine
    /// word.
    pub open spec fn wf(&self) -> bool {
        0 < self.block_size() && self.block_size() <= self@.len() && self@.len() <= usize::MAX
            && self@.len() as int % self.block_size() == 0
    }

    /// Index of the first sample of the oldest retained block, the block one
    /// full delay-length behind the buffer currently being processed.
    pub open spec fn oldest_start(&self) -> int {
        self@.len() - self.block_size()
    }

    /// How many callback buffers the line covers.
    pub open spec fn blocks(&self) -> int {
        self@.len() as int / self.block_size()
    }

    /// A fresh delay line of `len` samples, all silence.
    pub fn new(block: usize, len: usize) -> (r: DelayLine)
        requires
            0 < block,
            block <= len,
            len as int % block as int == 0,
        ensures
            r.wf(),
            r.block_size() == block,
            r@ == Seq::new(len as nat, |i: int| 0i32),
    {
        let mut samples: Vec<i32> = Vec::new();
        while samples.len() < len
            invariant
                samples@.len() <= len,
                forall|i: int| 0 <= i < samples@.len() ==> samples@[i] == 0i32,
            decreases len - samples@.len(),
        {
            samples.push(0);
        }
        proof {
            assert(samples@ =~= Seq::new(len as nat, |i: int| 0i32));
        }
        DelayLine { samples, block }
    }

    /// The stereo pair at the oldest retained block, one full delay-length
    /// behind frame `frame_idx` of the buffer currently being processed:
    /// this is the wet signal mixed into the output.
    pub fn read_oldest(&self, frame_idx: usize) -> (r: (i32, i32))
        requires
            self.wf(),
            2 * frame_idx + 1 < self.block_size(),
        ensures
            r.0 == self@[self.oldest_start() + 2 * frame_idx],
            r.1 == self@[self.oldest_start() + 2 * frame_idx + 1],
    {
        let base: usize = self.samples.len() - self.block;
        let left = self.samples[base + 2 * frame_idx];
        let right = self.samples[base + 2 * frame_idx + 1];
        (left, right)
    }

    /// Shift the whole line down by one block, discarding the oldest block,
    /// then write the just-consumed input block into the front: one single
    /// shift-then-write pass, run only after every `read_oldest` of the
    /// current callback.
    pub fn advance(&mut self, input: &Vec<i32>)
        requires
            old(self).wf(),
            input@.len() == old(self).block_size(),
        ensures
            final(self).wf(),
            final(self).block_size() == old(self).block_size(),
            final(self)@ == shifted(old(self)@, input@),
    {
        let len: usize = self.samples.len();
        let block: usize = self.block;
        let mut i: usize = len;
        while i > block
            invariant
                self.block == old(self).block,
                block == self.block,
                len == old(self)@.len(),
                self.samples@.len() == len,
                block <= i <= len,
                forall|j: int| 0 <= j < i ==> self.samples@[j] == old(self)@[j],
                forall|j: int| i <= j < len ==> self.samples@[j] == old(self)@[j - block],
            decreases i,
        {
            i = i - 1;
            let v = self.samples[i - block];
            self.samples[i] = v;
        }
        let mut k: usize = 0;
        while k < block
            invariant
                self.block == old(self).block,
                block == self.block,
                len == old(self)@.len(),
                self.samples@.len() == len,
                block <= len,
                input@.len() == block,
                k <= block,
                forall|j: int| 0 <= j < k ==> self.samples@[j] == input@[j],
                forall|j: int| k <= j < block ==> self.samples@[j] == old(self)@[j],
                forall|j: int| block <= j < len ==> self.samples@[j] == old(self)@[j - block],
            decreases block - k,
        {
            let v = input[k];
            self.samples[k] = v;
            k = k + 1;
        }
        proof {
            assert(self.samples@ =~= shifted(old(self)@, input@));
        }
    }
}

} // verus!
