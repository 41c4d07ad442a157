//! What a plugin host is told of the effect.

use vstd::prelude::*;

verus! {

/// The category code of an effect, as opposed to an instrument or an
/// analyser.
pub const CATEGORY_EFFECT: i32 = 1;

/// The description of a plugin that a host asks for once, field for field
/// as `vst2::plugin::Info` holds it, with the category as its number.
pub struct PluginInfo {
    pub name: String,
    pub vendor: String,
    pub presets: i32,
    pub parameters: i32,
    pub inputs: i32,
    pub outputs: i32,
    pub unique_id: i32,
    pub version: i32,
    pub category: i32,
    pub initial_delay: i32,
    pub preset_chunks: bool,
    pub f64_precision: bool,
    pub silent_when_stopped: bool,
}

/// The description that `vst2::plugin::Info::default()` gives, which a
/// plugin completes with what it knows of itself. Not proved: the contract
/// repeats the values that the crate's `Default` impl for `Info` writes
/// down: a plugin named "VST" without a vendor, one preset, no parameter,
/// two inputs and two outputs, identifier 0, version 1, the category of an
/// effect, no delay, presets not kept in chunks, 64-bit processing offered,
/// and not silent while stopped.
#[verifier::external_body]
pub(crate) fn host_defaults() -> (d: PluginInfo)
    ensures
        d.name@ == "VST"@,
        d.vendor@ == Seq::<char>::empty(),
        d.presets == 1,
        d.parameters == 0,
        d.inputs == 2,
        d.outputs == 2,
        d.unique_id == 0,
        d.version == 1,
        d.category == CATEGORY_EFFECT,
        d.initial_delay == 0,
        !d.preset_chunks,
        d.f64_precision,
        !d.silent_when_stopped,
{
    let d = vst2::plugin::Info::default();
    PluginInfo {
        name: d.name, vendor: d.vendor, presets: d.presets, parameters: d.parameters,
        inputs: d.inputs, outputs: d.outputs, unique_id: d.unique_id, version: d.version,
        category: d.category as i32, initial_delay: d.initial_delay,
        preset_chunks: d.preset_chunks, f64_precision: d.f64_precision,
        silent_when_stopped: d.silent_when_stopped,
    }
}

} // verus!
