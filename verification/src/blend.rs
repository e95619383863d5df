//! How a layer's colour combines with the pixels beneath it.
//!
//! The names are the ones CSS calls `mix-blend-mode` and PDF calls blend
//! modes, which is also what every other editor means by these words. This
//! is vocabulary only - a name for an intent; the arithmetic belongs to the
//! compositor that applies it.

use vstd::prelude::*;

verus! {

/// How a layer's colour combines with the pixels beneath it.
///
/// Split, as the specifications split them, into modes that work on each
/// channel independently (everything up to `Exclusion`) and four that take a
/// colour apart into hue, saturation and luminosity first.
///
/// The order of these variants is the order the compositor's `switch` is
/// numbered, so a variant's position is part of its meaning. Append; never
/// insert.
#[derive(Clone, Copy, PartialEq, Eq, Structural, Hash, Default, Debug)]
pub enum BlendMode {
    /// The layer simply covers what is beneath it, weighted by its alpha.
    #[default]
    Normal,
    /// Keeps whichever of the two is darker, per channel.
    Darken,
    /// Multiplies the two together. Never lightens.
    Multiply,
    /// Darkens what is beneath in proportion to how dark the layer is.
    ColorBurn,
    /// Keeps whichever of the two is lighter, per channel.
    Lighten,
    /// Multiplies the inverses. Never darkens.
    Screen,
    /// Plain addition, clipped at white.
    PlusLighter,
    /// Brightens what is beneath in proportion to how light the layer is.
    ColorDodge,
    /// Multiplies the darks and screens the lights, the picture beneath
    /// deciding which.
    Overlay,
    /// `Overlay`'s gentler cousin, a curve that never clips.
    SoftLight,
    /// `Overlay` with the roles swapped, so the layer decides.
    HardLight,
    /// The absolute difference between the two.
    Difference,
    /// `Difference` with a softer curve and less contrast.
    Exclusion,
    /// The layer's hue, wearing the saturation and brightness beneath.
    Hue,
    /// The layer's saturation, wearing the hue and brightness beneath.
    Saturation,
    /// The layer's hue and saturation over the brightness beneath.
    Color,
    /// The layer's brightness over the colour beneath.
    Luminosity,
}

} // verus!
