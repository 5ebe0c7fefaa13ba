//! Host-facing control parameters.
//!
//! Every parameter value is normalized to [0, 1] and carried as an integer
//! number of micro-units in [0, UNIT]. Writes clamp to that range, so a
//! stored value is always in range. A write to a parameter that changes the
//! structure of the signal chain (the pan position, which is baked into a
//! freshly built graph) raises the dirty flag; the render loop consumes the
//! flag and rebuilds before the next block.

use vstd::prelude::*;
use crate::UNIT;

verus! {

/// Identity of a control parameter. The host addresses parameters by a
/// small integer index: 0 is `Modulation`, 1 is `Pan`, 2 is `Dirty`
/// (reserved, neither readable nor writable through the indexed interface),
/// 3 is `Frequency`.
#[derive(Clone, Copy, PartialEq, Eq, Structural, Debug)]
pub enum Parameter {
    Modulation,
    Pan,
    Dirty,
    Frequency,
}

impl Parameter {
    /// The indexed identity space is closed: any index outside it resolves
    /// to `None`, and the accessors below turn that into a neutral default.
    pub fn from_i32(index: i32) -> (r: Option<Parameter>)
        ensures
            r == Parameter::spec_from_i32(index),
    {
        if index == 0 {
            Some(Parameter::Modulation)
        } else if index == 1 {
            Some(Parameter::Pan)
        } else if index == 2 {
            Some(Parameter::Dirty)
        } else if index == 3 {
            Some(Parameter::Frequency)
        } else {
            None
        }
    }

    /// The index the host uses to address this parameter.
    pub open spec fn spec_index(self) -> i32 {
        match self {
            Parameter::Modulation => 0,
            Parameter::Pan => 1,
            Parameter::Dirty => 2,
            Parameter::Frequency => 3,
        }
    }

    pub fn index(&self) -> (r: i32)
        ensures
            r == self.spec_index(),
    {
        match self {
            Parameter::Modulation => 0,
            Parameter::Pan => 1,
            Parameter::Dirty => 2,
            Parameter::Frequency => 3,
        }
    }

    pub open spec fn spec_from_i32(index: i32) -> Option<Parameter> {
        if index == 0 {
            Some(Parameter::Modulation)
        } else if index == 1 {
            Some(Parameter::Pan)
        } else if index == 2 {
            Some(Parameter::Dirty)
        } else if index == 3 {
            Some(Parameter::Frequency)
        } else {
            None
        }
    }

    /// Human-readable name of the parameter with the given index.
    pub fn name_of(index: i32) -> (r: String)
        ensures
            r@ == Parameter::spec_name_of(index),
    {
        match Parameter::from_i32(index) {
            Some(Parameter::Modulation) => "Modulation".to_string(),
            Some(Parameter::Pan) => "Pan".to_string(),
            Some(Parameter::Dirty) => "Dirty".to_string(),
            Some(Parameter::Frequency) => "Frequency".to_string(),
            None => "unknown".to_string(),
        }
    }

    pub open spec fn spec_name_of(index: i32) -> Seq<char> {
        match Parameter::spec_from_i32(index) {
            Some(Parameter::Modulation) => "Modulation"@,
            Some(Parameter::Pan) => "Pan"@,
            Some(Parameter::Dirty) => "Dirty"@,
            Some(Parameter::Frequency) => "Frequency"@,
            None => "unknown"@,
        }
    }
}

/// Clamp a raw control value into [0, UNIT].
pub open spec fn clamp_unit(value: u32) -> u32 {
    if value > UNIT {
        UNIT
    } else {
        value
    }
}

/// The current control snapshot: one slot per continuously variable
/// parameter, plus the dirty flag that requests a graph rebuild.
pub struct Parameters {
    pub modulation: u32,
    pub pan: u32,
    pub frequency: u32,
    pub dirty: bool,
}

impl Parameters {
    /// Every stored value is a normalized amount in [0, UNIT].
    pub open spec fn wf(self) -> bool {
        self.modulation <= UNIT && self.pan <= UNIT && self.frequency <= UNIT
    }

    /// Value read through the indexed interface; an unknown or reserved
    /// index resolves to the neutral default 0.
    pub open spec fn spec_get(self, index: i32) -> u32 {
        match Parameter::spec_from_i32(index) {
            Some(Parameter::Modulation) => self.modulation,
            Some(Parameter::Pan) => self.pan,
            Some(Parameter::Frequency) => self.frequency,
            _ => 0,
        }
    }

    /// State after a write through the indexed interface: the addressed
    /// slot holds the clamped value, a pan write raises the dirty flag,
    /// and a write to an unknown or reserved index changes nothing.
    pub open spec fn spec_set(self, index: i32, value: u32) -> Parameters {
        match Parameter::spec_from_i32(index) {
            Some(Parameter::Modulation) => Parameters { modulation: clamp_unit(value), ..self },
            Some(Parameter::Pan) => Parameters { pan: clamp_unit(value), dirty: true, ..self },
            Some(Parameter::Frequency) => Parameters { frequency: clamp_unit(value), ..self },
            _ => self,
        }
    }

    pub fn get_parameter(&self, index: i32) -> (r: u32)
        ensures
            r == self.spec_get(index),
            self.wf() ==> r <= UNIT,
    {
        match Parameter::from_i32(index) {
            Some(Parameter::Modulation) => self.modulation,
            Some(Parameter::Pan) => self.pan,
            Some(Parameter::Frequency) => self.frequency,
            _ => 0,
        }
    }

    pub fn set_parameter(&mut self, index: i32, value: u32)
        ensures
            *final(self) == old(self).spec_set(index, value),
    {
        let clamped = if value > UNIT {
            UNIT
        } else {
            value
        };
        match Parameter::from_i32(index) {
            Some(Parameter::Modulation) => {
                self.modulation = clamped;
            }
            Some(Parameter::Pan) => {
                self.pan = clamped;
                self.dirty = true;
            }
            Some(Parameter::Frequency) => {
                self.frequency = clamped;
            }
            _ => {}
        }
    }

    /// Human-readable name of the parameter with the given index;
    /// "unknown" for an index outside the closed identity space.
    pub fn get_parameter_name(&self, index: i32) -> (r: String)
        ensures
            r@ == Parameter::spec_name_of(index),
    {
        Parameter::name_of(index)
    }

    /// Raise the dirty flag without touching any value slot.
    pub fn mark_dirty(&mut self)
        ensures
            *final(self) == (Parameters { dirty: true, ..*old(self) }),
    {
        self.dirty = true;
    }

    /// Consume the dirty flag: report whether it was raised and clear it.
    pub fn take_dirty(&mut self) -> (was_dirty: bool)
        ensures
            was_dirty == old(self).dirty,
            *final(self) == (Parameters { dirty: false, ..*old(self) }),
    {
        let was_dirty = self.dirty;
        self.dirty = false;
        was_dirty
    }

    /// A value written through `set_parameter` is observed, clamped into
    /// [0, UNIT], by the very next read of the same index.
    pub proof fn lemma_set_then_get(self, index: i32, value: u32)
        requires
            Parameter::spec_from_i32(index) matches Some(p) && p != Parameter::Dirty,
        ensures
            self.spec_set(index, value).spec_get(index) == clamp_unit(value),
            clamp_unit(value) <= UNIT,
            self.wf() ==> self.spec_set(index, value).wf(),
    {
    }
}

/// The initial control snapshot: full modulation, centered pan,
/// frequency at zero, and the dirty flag raised so the first processed
/// block builds the graph from this snapshot.
pub open spec fn spec_default_parameters() -> Parameters {
    Parameters { modulation: UNIT, pan: UNIT / 2, frequency: 0, dirty: true }
}

impl Parameters {
    pub open spec fn spec_default() -> Parameters {
        spec_default_parameters()
    }
}

impl Default for Parameters {
    fn default() -> (r: Parameters)
        ensures
            r == spec_default_parameters(),
            r.wf(),
    {
        Parameters { modulation: UNIT, pan: UNIT / 2, frequency: 0, dirty: true }
    }
}

} // verus!
