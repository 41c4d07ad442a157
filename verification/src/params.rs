//! The parameter table: which parameter an index names, what the
//! parameter is called, and how its value is shown to a user.

use vstd::prelude::*;
use vstd::string::to_string_from_display_ensures_for_str;
use crate::scale::DECIMALS;
use crate::text::decimal_text;

verus! {

/// A user-adjustable parameter of the effect.
#[derive(Clone, Copy, Debug, PartialEq, Eq, Structural)]
pub enum Parameter {
    /// The clipping level as a fraction of full scale.
    Threshold,
    /// The coefficient of the smoothing filter's stages.
    Cutoff,
}

impl Parameter {
    /// The parameter at a host's index: the threshold at 0, the cutoff at 1
    /// where the effect has a filter, none anywhere else.
    pub open spec fn at(index: int, filtered: bool) -> Option<Parameter> {
        if index == 0 {
            Some(Parameter::Threshold)
        } else if index == 1 && filtered {
            Some(Parameter::Cutoff)
        } else {
            None
        }
    }

    /// The parameter's name.
    pub open spec fn name_text(self) -> Seq<char> {
        match self {
            Parameter::Threshold => "Threshold"@,
            Parameter::Cutoff => "Cutoff"@,
        }
    }

    /// The unit in which the parameter is shown.
    pub open spec fn label_text(self) -> Seq<char> {
        match self {
            Parameter::Threshold => "%"@,
            Parameter::Cutoff => "hz"@,
        }
    }

    /// The factor from the parameter's value to the number shown for it:
    /// the threshold is shown as a percentage, the cutoff as a frequency
    /// of up to 20000 hertz.
    pub open spec fn display_factor(self) -> int {
        match self {
            Parameter::Threshold => 100,
            Parameter::Cutoff => 20_000,
        }
    }

    /// The text shown for the raw value `value` of the parameter.
    pub open spec fn display_text(self, value: int) -> Seq<char> {
        decimal_text((value * self.display_factor()) as nat, DECIMALS as nat)
    }

    /// Finds the parameter at a host's index.
    pub fn lookup(index: i32, filtered: bool) -> (p: Option<Parameter>)
        ensures
            p == Parameter::at(index as int, filtered),
    {
        if index == 0 {
            Some(Parameter::Threshold)
        } else if index == 1 && filtered {
            Some(Parameter::Cutoff)
        } else {
            None
        }
    }

    /// The parameter's name.
    pub fn name(self) -> (name: String)
        ensures
            name@ == self.name_text(),
    {
        broadcast use to_string_from_display_ensures_for_str;

        match self {
            Parameter::Threshold => "Threshold".to_string(),
            Parameter::Cutoff => "Cutoff".to_string(),
        }
    }

    /// The unit in which the parameter is shown.
    pub fn label(self) -> (label: String)
        ensures
            label@ == self.label_text(),
    {
        broadcast use to_string_from_display_ensures_for_str;

        match self {
            Parameter::Threshold => "%".to_string(),
            Parameter::Cutoff => "hz".to_string(),
        }
    }

    /// The factor from the parameter's value to the number shown for it.
    pub fn factor(self) -> (factor: i64)
        ensures
            factor == self.display_factor(),
    {
        match self {
            Parameter::Threshold => 100,
            Parameter::Cutoff => 20_000,
        }
    }
}

} // verus!
