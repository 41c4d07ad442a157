//! One instance of the effect: its parameters, the filter's running state,
//! and the processing of sample blocks.

use vstd::prelude::*;
use vstd::string::to_string_from_display_ensures_for_str;
use crate::scale::{ONE, FLOOR, DECIMALS, floored};
use crate::shaper::waveshape;
use crate::filter::{Cascade, Stages};
use crate::params::Parameter;
use crate::text::decimal;
use crate::model::{Effect, paired, channels, stream, lemma_feed_all_concat};
use crate::host::{PluginInfo, CATEGORY_EFFECT, host_defaults};

verus! {

/// The distortion effect.
pub struct DigiDist {
    filtered: bool,
    threshold: i64,
    cutoff: i64,
    filter: Cascade,
}

impl View for DigiDist {
    type V = Effect;

    closed spec fn view(&self) -> Effect {
        Effect {
            filtered: self.filtered,
            threshold: self.threshold as int,
            cutoff: self.cutoff as int,
            stages: self.filter@,
        }
    }
}

/// A parameter's value times its display factor.
fn displayed(value: i64, factor: i64) -> (n: u128)
    requires
        value >= 0,
        factor >= 0,
    ensures
        n == value * factor,
{
    assert(0 <= value * factor <= 0x7FFF_FFFF_FFFF_FFFF * 0x7FFF_FFFF_FFFF_FFFF)
        by (nonlinear_arith)
        requires
            0 <= value <= 0x7FFF_FFFF_FFFF_FFFF,
            0 <= factor <= 0x7FFF_FFFF_FFFF_FFFF,
    ;
    value as u128 * factor as u128
}

impl DigiDist {
    #[verifier::type_invariant]
    spec fn parameters_floored(self) -> bool {
        self.threshold >= FLOOR && self.cutoff >= FLOOR
    }

    /// A fresh instance, with or without the smoothing filter: threshold
    /// and cutoff at 1.0, the filter at rest.
    pub fn new(filtered: bool) -> (d: DigiDist)
        ensures
            d@ == (Effect {
                filtered,
                threshold: ONE as int,
                cutoff: ONE as int,
                stages: Stages { first: 0, second: 0 },
            }),
            d@.valid(),
    {
        DigiDist { filtered, threshold: ONE, cutoff: ONE, filter: Cascade::new() }
    }

    /// The plugin's description: its name, vendor and identifier, two
    /// channels in, two out, and one parameter, or two with the filter. The
    /// rest is as the host library has it by default.
    pub fn get_info(&self) -> (info: PluginInfo)
        ensures
            info.name@ == "DigiDist"@,
            info.vendor@ == "17cupsofcoffee"@,
            info.unique_id == 25032017,
            info.inputs == 2,
            info.outputs == 2,
            info.parameters == if self@.filtered { 2int } else { 1int },
            info.presets == 1,
            info.version == 1,
            info.category == CATEGORY_EFFECT,
            info.initial_delay == 0,
            !info.preset_chunks,
            info.f64_precision,
            !info.silent_when_stopped,
    {
        broadcast use to_string_from_display_ensures_for_str;

        let defaults: PluginInfo = host_defaults();
        PluginInfo {
            name: "DigiDist".to_string(),
            vendor: "17cupsofcoffee".to_string(),
            unique_id: 25032017,
            inputs: 2,
            outputs: 2,
            parameters: if self.filtered { 2 } else { 1 },
            ..defaults
        }
    }

    /// The value of the parameter at `index`; zero where the index names
    /// none.
    pub fn get_parameter(&self, index: i32) -> (value: i64)
        ensures
            value == match self@.parameter(index as int) {
                Some(p) => self@.value(p),
                None => 0,
            },
            index != 0 && index != 1 ==> value == 0,
            self@.parameter(index as int) is Some ==> value >= FLOOR,
            self@.valid(),
    {
        proof {
            use_type_invariant(self);
        }
        match Parameter::lookup(index, self.filtered) {
            Some(Parameter::Threshold) => self.threshold,
            Some(Parameter::Cutoff) => self.cutoff,
            None => 0,
        }
    }

    /// Stores the parameter at `index`, raised to the floor where the value
    /// lies below it. Where the index names no parameter, nothing changes.
    pub fn set_parameter(&mut self, index: i32, value: i64)
        ensures
            final(self)@ == match old(self)@.parameter(index as int) {
                Some(p) => old(self)@.with(p, floored(value as int)),
                None => old(self)@,
            },
            index == 0 && value < FLOOR ==> final(self)@.threshold == FLOOR,
            index == 1 && old(self)@.filtered && value < FLOOR ==> final(self)@.cutoff == FLOOR,
            index != 0 && index != 1 ==> final(self)@ == old(self)@,
            final(self)@.valid(),
    {
        proof {
            use_type_invariant(&*self);
        }
        let stored: i64 = if value < FLOOR { FLOOR } else { value };
        match Parameter::lookup(index, self.filtered) {
            Some(Parameter::Threshold) => {
                self.threshold = stored;
            },
            Some(Parameter::Cutoff) => {
                self.cutoff = stored;
            },
            None => {},
        }
    }

    /// The name of the parameter at `index`; empty where the index names
    /// none.
    pub fn get_parameter_name(&self, index: i32) -> (name: String)
        ensures
            name@ == match self@.parameter(index as int) {
                Some(p) => p.name_text(),
                None => Seq::empty(),
            },
    {
        match Parameter::lookup(index, self.filtered) {
            Some(p) => p.name(),
            None => String::new(),
        }
    }

    /// The value of the parameter at `index` as a host shows it: the
    /// threshold as a percentage, the cutoff as a frequency in hertz, both
    /// as plain decimal numbers without a unit; empty where the index names
    /// none.
    pub fn get_parameter_text(&self, index: i32) -> (text: String)
        ensures
            text@ == match self@.parameter(index as int) {
                Some(p) => p.display_text(self@.value(p)),
                None => Seq::empty(),
            },
    {
        proof {
            use_type_invariant(self);
        }
        match Parameter::lookup(index, self.filtered) {
            Some(Parameter::Threshold) => decimal(
                displayed(self.threshold, Parameter::Threshold.factor()),
                DECIMALS,
            ),
            Some(Parameter::Cutoff) => decimal(
                displayed(self.cutoff, Parameter::Cutoff.factor()),
                DECIMALS,
            ),
            None => String::new(),
        }
    }

    /// The unit that goes with the text of the parameter at `index`; empty
    /// where the index names none.
    pub fn get_parameter_label(&self, index: i32) -> (label: String)
        ensures
            label@ == match self@.parameter(index as int) {
                Some(p) => p.label_text(),
                None => Seq::empty(),
            },
    {
        match Parameter::lookup(index, self.filtered) {
            Some(p) => p.label(),
            None => String::new(),
        }
    }

    /// The filter's running state.
    pub fn filter_state(&self) -> (stages: Cascade)
        ensures
            stages@ == self@.stages,
    {
        self.filter
    }

    /// Processes one input sample: the waveshaper, then the filter where
    /// there is one.
    pub fn process_sample(&mut self, x: i64) -> (out: i64)
        ensures
            final(self)@ == old(self)@.feed(x as int),
            out == old(self)@.emit(x as int),
            final(self)@.valid(),
    {
        proof {
            use_type_invariant(&*self);
        }
        let y: i64 = waveshape(x, self.threshold);
        if self.filtered {
            let mut filter: Cascade = self.filter;
            let out: i64 = filter.push(y, self.cutoff);
            self.filter = filter;
            out
        } else {
            y
        }
    }

    /// Processes one channel: each input sample gives the output sample at
    /// the same position, as far as both buffers reach.
    pub fn process_channel(&mut self, input: &Vec<i64>, output: &mut Vec<i64>)
        ensures
            final(output)@.len() == old(output)@.len(),
            forall|i: int|
                0 <= i < old(output)@.len() ==> #[trigger] final(output)@[i]
                    == old(self)@.channel_output(input@, old(output)@, i),
            final(self)@ == old(self)@.feed_all(paired(input@, old(output)@)),
            final(self)@.valid(),
    {
        proof {
            use_type_invariant(&*self);
        }
        let n: usize = if input.len() <= output.len() { input.len() } else { output.len() };
        let ghost before = *self;
        let ghost untouched = output@;
        let mut i: usize = 0;
        while i < n
            invariant
                i <= n,
                self@.valid(),
                n == paired(input@, untouched).len(),
                n <= input@.len(),
                output@.len() == untouched.len(),
                self@ == before@.feed_all(input@.take(i as int)),
                forall|k: int|
                    0 <= k < i ==> #[trigger] output@[k]
                        == before@.channel_output(input@, untouched, k),
                forall|k: int| i <= k < untouched.len() ==> #[trigger] output@[k] == untouched[k],
            decreases n - i,
        {
            let out: i64 = self.process_sample(input[i]);
            output.set(i, out);
            proof {
                assert(input@.take(i + 1).drop_last() =~= input@.take(i as int));
            }
            i += 1;
        }
        proof {
            assert(input@.take(n as int) =~= paired(input@, untouched));
        }
    }

    /// Processes a block: the channels one after the other, each as
    /// `process_channel` does, all through the one filter state. Input and
    /// output channels are paired by position; a channel without a partner
    /// is left alone.
    pub fn process(&mut self, inputs: &Vec<Vec<i64>>, outputs: &mut Vec<Vec<i64>>)
        ensures
            final(outputs)@.len() == old(outputs)@.len(),
            forall|c: int|
                0 <= c < old(outputs)@.len() ==> (#[trigger] final(outputs)@[c])@.len()
                    == old(outputs)@[c]@.len(),
            forall|c: int, i: int|
                0 <= c < old(outputs)@.len() && 0 <= i < old(outputs)@[c]@.len()
                    ==> #[trigger] final(outputs)@[c]@[i]
                    == old(self)@.block_output(inputs@, old(outputs)@, c, i),
            final(self)@ == old(self)@.before_channel(
                inputs@,
                old(outputs)@,
                channels(inputs@, old(outputs)@),
            ),
            final(self)@.valid(),
    {
        proof {
            use_type_invariant(&*self);
        }
        let n: usize = if inputs.len() <= outputs.len() { inputs.len() } else { outputs.len() };
        let ghost start = *self;
        let ghost untouched = outputs@;
        let mut ch: usize = 0;
        while ch < n
            invariant
                ch <= n,
                self@.valid(),
                n == channels(inputs@, untouched),
                outputs@.len() == untouched.len(),
                forall|c: int|
                    0 <= c < untouched.len() ==> (#[trigger] outputs@[c])@.len()
                        == untouched[c]@.len(),
                self@ == start@.before_channel(inputs@, untouched, ch as nat),
                forall|c: int, i: int|
                    0 <= c < ch && 0 <= i < untouched[c]@.len() ==> #[trigger] outputs@[c]@[i]
                        == start@.block_output(inputs@, untouched, c, i),
                forall|c: int|
                    ch <= c < untouched.len() ==> (#[trigger] outputs@[c])@ == untouched[c]@,
            decreases n - ch,
        {
            let ghost earlier = outputs@;
            self.process_channel(&inputs[ch], &mut outputs[ch]);
            proof {
                lemma_feed_all_concat(
                    start@,
                    stream(inputs@, untouched, ch as nat),
                    paired(inputs@[ch as int]@, untouched[ch as int]@),
                );
                assert forall|c: int| 0 <= c < untouched.len() && c != ch implies
                    #[trigger] outputs@[c] == earlier[c] by {}
            }
            ch += 1;
        }
    }
}

impl Default for DigiDist {
    /// A fresh instance with the smoothing filter.
    fn default() -> (d: DigiDist)
        ensures
            d@ == (Effect {
                filtered: true,
                threshold: ONE as int,
                cutoff: ONE as int,
                stages: Stages { first: 0, second: 0 },
            }),
            d@.valid(),
    {
        DigiDist::new(true)
    }
}

} // verus!
