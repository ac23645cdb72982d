//! Mixer channels and the crossfader.

use vstd::prelude::*;

verus! {

/// Unique identifier of an engine channel.
#[derive(Debug, Clone, Copy, PartialEq, Eq, Hash, Structural)]
pub struct ChannelId(pub u32);

/// Crossfader side a channel is assigned to.
#[derive(Debug, Clone, Copy, PartialEq, Eq, Structural)]
pub enum ChannelOrientation {
    Left,
    Center,
    Right,
}

/// Crossfader curve type.
#[derive(Debug, Clone, Copy, PartialEq, Eq, Structural)]
pub enum CrossfaderCurve {
    /// Linear fade: both sides at half volume when centered.
    Additive,
    /// Constant power: left² + right² stays 1 across the fade.
    ConstantPower,
}

/// The crossfader's curve setting.
#[derive(Debug, Clone, Copy)]
pub struct Crossfader {
    curve: CrossfaderCurve,
}

impl Crossfader {
    /// The current curve.
    pub closed spec fn spec_curve(self) -> CrossfaderCurve {
        self.curve
    }

    /// A crossfader with the given curve.
    pub fn new(curve: CrossfaderCurve) -> (r: Self)
        ensures
            r.spec_curve() == curve,
    {
        Crossfader { curve }
    }

    /// Change the curve.
    pub fn set_curve(&mut self, curve: CrossfaderCurve)
        ensures
            final(self).spec_curve() == curve,
    {
        self.curve = curve;
    }

    /// The current curve.
    pub fn curve(&self) -> (r: CrossfaderCurve)
        ensures
            r == self.spec_curve(),
    {
        self.curve
    }
}

impl Default for Crossfader {
    fn default() -> (r: Self)
        ensures
            r.spec_curve() == CrossfaderCurve::Additive,
    {
        Crossfader::new(CrossfaderCurve::Additive)
    }
}

} // verus!
