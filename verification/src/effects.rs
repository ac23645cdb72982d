//! The kinds of effect parameters.
use vstd::prelude::*;

verus! {

/// How a parameter is presented in the UI.
#[derive(Debug, Clone, Copy, PartialEq, Eq, Structural)]
pub enum ParameterType {
    /// Continuous rotary knob: the raw value is mapped to the parameter's
    /// range.
    Knob,
    /// Toggle button: `0.0` off, `1.0` on.
    Button,
}

} // verus!
