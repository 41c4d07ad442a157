//! The effect as a mathematical object: its state, what a sample does to
//! it, and what follows for whole runs of samples.

use vstd::prelude::*;
use crate::scale::{ONE, FLOOR};
use crate::shaper::{shaped, lemma_shaped_clipping_bound};
use crate::filter::{Cascade, Stages, settling_time, lemma_settle_converges};
use crate::params::Parameter;

verus! {

/// The effect as mathematical values: what `DigiDist` stands for in
/// contracts.
pub struct Effect {
    /// Whether the smoothing filter follows the waveshaper.
    pub filtered: bool,
    pub threshold: int,
    pub cutoff: int,
    pub stages: Stages,
}

impl Effect {
    /// What holds of every instance: no parameter lies below the floor, and
    /// every value fits the sample format.
    pub open spec fn valid(self) -> bool {
        &&& FLOOR <= self.threshold <= i64::MAX
        &&& FLOOR <= self.cutoff <= i64::MAX
        &&& i64::MIN <= self.stages.first <= i64::MAX
        &&& i64::MIN <= self.stages.second <= i64::MAX
    }

    /// The parameter that a host's index names, if any.
    pub open spec fn parameter(self, index: int) -> Option<Parameter> {
        Parameter::at(index, self.filtered)
    }

    /// The stored value of a parameter.
    pub open spec fn value(self, p: Parameter) -> int {
        match p {
            Parameter::Threshold => self.threshold,
            Parameter::Cutoff => self.cutoff,
        }
    }

    /// The effect with the parameter `p` set to `value`.
    pub open spec fn with(self, p: Parameter, value: int) -> Effect {
        match p {
            Parameter::Threshold => Effect { threshold: value, ..self },
            Parameter::Cutoff => Effect { cutoff: value, ..self },
        }
    }

    /// The effect after the input sample `x`: where there is a filter, it
    /// has taken in the waveshaper's output; nothing else changes.
    pub open spec fn feed(self, x: int) -> Effect {
        if self.filtered {
            Effect { stages: self.stages.advance(shaped(x, self.threshold), self.cutoff), ..self }
        } else {
            self
        }
    }

    /// The output sample that the input sample `x` gives: the filter's
    /// residual, or without a filter the waveshaper's output.
    pub open spec fn emit(self, x: int) -> int {
        if self.filtered {
            self.feed(x).stages.residual(shaped(x, self.threshold))
        } else {
            shaped(x, self.threshold)
        }
    }

    /// The effect after the input samples `xs`, taken in order.
    pub open spec fn feed_all(self, xs: Seq<i64>) -> Effect
        decreases xs.len(),
    {
        if xs.len() == 0 {
            self
        } else {
            self.feed_all(xs.drop_last()).feed(xs.last() as int)
        }
    }
}

/// The samples of one channel that a block processes: as many as the input
/// and the output buffer both hold.
pub open spec fn paired(input: Seq<i64>, output: Seq<i64>) -> Seq<i64> {
    if input.len() <= output.len() {
        input
    } else {
        input.take(output.len() as int)
    }
}

/// The number of channels that a block processes: as many as there are
/// both input and output buffers.
pub open spec fn channels(inputs: Seq<Vec<i64>>, outputs: Seq<Vec<i64>>) -> nat {
    if inputs.len() <= outputs.len() {
        inputs.len()
    } else {
        outputs.len()
    }
}

/// The samples that the first `n` channels of a block contribute, in the
/// order in which they are processed: channel after channel.
pub open spec fn stream(inputs: Seq<Vec<i64>>, outputs: Seq<Vec<i64>>, n: nat) -> Seq<i64>
    decreases n,
{
    if n == 0 {
        Seq::empty()
    } else {
        stream(inputs, outputs, (n - 1) as nat) + paired(inputs[n - 1]@, outputs[n - 1]@)
    }
}

impl Effect {
    /// What processing one channel leaves at position `i` of its output
    /// buffer: the output for the input sample at that position, which the
    /// effect meets after the samples before it; beyond the processed
    /// samples, what the buffer held.
    pub open spec fn channel_output(self, input: Seq<i64>, output: Seq<i64>, i: int) -> int {
        if i < paired(input, output).len() {
            self.feed_all(input.take(i)).emit(input[i] as int)
        } else {
            output[i] as int
        }
    }

    /// The effect as it begins channel `c` of a block: after the samples of
    /// all channels before it.
    pub open spec fn before_channel(
        self,
        inputs: Seq<Vec<i64>>,
        outputs: Seq<Vec<i64>>,
        c: nat,
    ) -> Effect {
        self.feed_all(stream(inputs, outputs, c))
    }

    /// What processing a block leaves at position `i` of output channel
    /// `c`: what processing that channel leaves there, begun where the
    /// channels before it left the effect; in a channel without a partner,
    /// what the buffer held.
    pub open spec fn block_output(
        self,
        inputs: Seq<Vec<i64>>,
        outputs: Seq<Vec<i64>>,
        c: int,
        i: int,
    ) -> int {
        if c < channels(inputs, outputs) {
            self.before_channel(inputs, outputs, c as nat).channel_output(
                inputs[c]@,
                outputs[c]@,
                i,
            )
        } else {
            outputs[c]@[i] as int
        }
    }
}

/// Feeding two runs of samples one after the other is feeding their
/// concatenation.
pub proof fn lemma_feed_all_concat(e: Effect, xs: Seq<i64>, ys: Seq<i64>)
    ensures
        e.feed_all(xs + ys) == e.feed_all(xs).feed_all(ys),
    decreases ys.len(),
{
    if ys.len() == 0 {
        assert(xs + ys =~= xs);
    } else {
        lemma_feed_all_concat(e, xs, ys.drop_last());
        assert((xs + ys).drop_last() =~= xs + ys.drop_last());
    }
}

/// Samples change the filter's state and nothing else; without a filter
/// they change nothing at all.
pub proof fn lemma_feed_all_keeps_parameters(e: Effect, xs: Seq<i64>)
    ensures
        e.feed_all(xs) == (Effect { stages: e.feed_all(xs).stages, ..e }),
        !e.filtered ==> e.feed_all(xs) == e,
        e.valid() ==> e.feed_all(xs).valid(),
    decreases xs.len(),
{
    if xs.len() > 0 {
        lemma_feed_all_keeps_parameters(e, xs.drop_last());
    }
}

/// Feeding `n` equal samples moves the filter as `n` samples of the
/// waveshaper's output for them do.
pub proof fn lemma_feed_all_constant(e: Effect, x: i64, n: nat)
    requires
        e.filtered,
    ensures
        e.feed_all(Seq::new(n, |i: int| x)) == (Effect {
            stages: e.stages.settle(shaped(x as int, e.threshold), e.cutoff, n),
            ..e
        }),
    decreases n,
{
    if n > 0 {
        lemma_feed_all_constant(e, x, (n - 1) as nat);
        assert(Seq::new(n, |i: int| x).drop_last() =~= Seq::new((n - 1) as nat, |i: int| x));
    }
}

/// Held at a constant input `x`, with a cutoff of at most `ONE`, the
/// filtered effect falls silent: once `settling_time` samples have gone
/// through, both filter stages rest at the waveshaper's output for `x` and
/// every further output sample is zero.
pub proof fn lemma_constant_input_converges(e: Effect, x: i64, n: nat)
    requires
        e.valid(),
        e.filtered,
        e.cutoff <= ONE,
        n >= settling_time(e.stages, shaped(x as int, e.threshold)),
    ensures
        e.feed_all(Seq::new(n, |i: int| x)).stages == (Stages {
            first: shaped(x as int, e.threshold),
            second: shaped(x as int, e.threshold),
        }),
        e.feed_all(Seq::new(n, |i: int| x)).emit(x as int) == 0,
{
    let y = shaped(x as int, e.threshold);
    let start = Cascade { first: e.stages.first as i64, second: e.stages.second as i64 };
    lemma_shaped_clipping_bound(x as int, e.threshold);
    lemma_feed_all_constant(e, x, n);
    lemma_settle_converges(start, y as i64, e.cutoff as i64, n);
    lemma_settle_converges(start, y as i64, e.cutoff as i64, n + 1);
    assert(start@ == e.stages);
}

} // verus!
