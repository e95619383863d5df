//! The document model's vocabulary: what media and clips can be, the lanes
//! they sit on, and the settings the host manages around an edit.
//!
//! The names match what the on-disk format writes; the serialised twins of
//! these types live with the code that reads and writes documents.

use vstd::prelude::*;

use crate::blend::BlendMode as EngineBlendMode;

verus! {

/// What a piece of media is. A still is not a video with one frame: it has
/// no intrinsic duration, so its length on a timeline is editorial.
#[derive(Clone, Copy, PartialEq, Eq, Structural, Debug)]
pub enum MediaKind {
    /// Moving pictures, with or without embedded sound.
    Video,
    /// Sound only; nothing to composite.
    Audio,
    /// A still, whose timeline length is editorial rather than intrinsic.
    Image,
}

/// What a clip can be - wider than [`MediaKind`] because a text clip has no
/// file behind it; it is its own content.
#[derive(Clone, Copy, PartialEq, Eq, Structural, Debug)]
pub enum ClipKind {
    /// A cut of a video media item.
    Video,
    /// A cut of audio - either audio media or sound detached from a video.
    Audio,
    /// A placed still.
    Image,
    /// A title. No media behind it.
    Text,
}

impl ClipKind {
    /// True for the kinds that put pixels on screen.
    pub fn is_visual(self) -> (visual: bool)
        ensures
            visual == (self == ClipKind::Video || self == ClipKind::Image),
    {
        matches!(self, ClipKind::Video | ClipKind::Image)
    }
}

/// How a title's lines sit within their block.
#[derive(Clone, Copy, PartialEq, Eq, Structural, Debug)]
pub enum TextAlign {
    /// Lines share a left edge.
    Left,
    /// Lines are centred on each other - the default, and what the reader
    /// falls back to for an unrecognised value.
    Center,
    /// Lines share a right edge.
    Right,
}

/// How a clip's colour combines with the picture beneath it - the
/// document's half of the engine's blend mode, spelled the way CSS spells
/// these because that is what a value on disk should read as.
#[derive(Clone, Copy, PartialEq, Eq, Structural, Default, Debug)]
pub enum BlendMode {
    /// Covers what is beneath, weighted by opacity. The default.
    #[default]
    Normal,
    /// Keeps the darker of the two, per channel.
    Darken,
    /// Multiplies the two. Never lightens.
    Multiply,
    /// Darkens beneath in proportion to how dark the clip is.
    ColorBurn,
    /// Keeps the lighter of the two, per channel.
    Lighten,
    /// Multiplies the inverses. Never darkens.
    Screen,
    /// Plain addition, clipped at white.
    PlusLighter,
    /// Brightens beneath in proportion to how light the clip is.
    ColorDodge,
    /// Multiplies the darks and screens the lights, the picture beneath
    /// deciding which.
    Overlay,
    /// `Overlay`'s gentler curve, which never clips.
    SoftLight,
    /// `Overlay` with the clip deciding instead.
    HardLight,
    /// The absolute difference; identical pictures give black.
    Difference,
    /// `Difference` with less contrast.
    Exclusion,
    /// The clip's hue over the saturation and brightness beneath.
    Hue,
    /// The clip's saturation over the hue and brightness beneath.
    Saturation,
    /// The clip's hue and saturation over the brightness beneath.
    Color,
    /// The clip's brightness over the colour beneath.
    Luminosity,
}

/// The engine mode of the same name as a document mode.
pub open spec fn engine_mode(mode: BlendMode) -> EngineBlendMode {
    match mode {
        BlendMode::Normal => EngineBlendMode::Normal,
        BlendMode::Darken => EngineBlendMode::Darken,
        BlendMode::Multiply => EngineBlendMode::Multiply,
        BlendMode::ColorBurn => EngineBlendMode::ColorBurn,
        BlendMode::Lighten => EngineBlendMode::Lighten,
        BlendMode::Screen => EngineBlendMode::Screen,
        BlendMode::PlusLighter => EngineBlendMode::PlusLighter,
        BlendMode::ColorDodge => EngineBlendMode::ColorDodge,
        BlendMode::Overlay => EngineBlendMode::Overlay,
        BlendMode::SoftLight => EngineBlendMode::SoftLight,
        BlendMode::HardLight => EngineBlendMode::HardLight,
        BlendMode::Difference => EngineBlendMode::Difference,
        BlendMode::Exclusion => EngineBlendMode::Exclusion,
        BlendMode::Hue => EngineBlendMode::Hue,
        BlendMode::Saturation => EngineBlendMode::Saturation,
        BlendMode::Color => EngineBlendMode::Color,
        BlendMode::Luminosity => EngineBlendMode::Luminosity,
    }
}

/// The engine's blend mode for a document's.
///
/// Two enums with the same variants, because the engine's vocabulary
/// carries no serialisation and the document's is nothing but. Written as a
/// `match` rather than a cast on purpose: adding a mode to one enum and
/// forgetting the other is then a compile error instead of a mode that
/// silently renders as normal.
pub fn engine_blend_mode(mode: BlendMode) -> (engine: EngineBlendMode)
    ensures
        engine == engine_mode(mode),
{
    match mode {
        BlendMode::Normal => EngineBlendMode::Normal,
        BlendMode::Darken => EngineBlendMode::Darken,
        BlendMode::Multiply => EngineBlendMode::Multiply,
        BlendMode::ColorBurn => EngineBlendMode::ColorBurn,
        BlendMode::Lighten => EngineBlendMode::Lighten,
        BlendMode::Screen => EngineBlendMode::Screen,
        BlendMode::PlusLighter => EngineBlendMode::PlusLighter,
        BlendMode::ColorDodge => EngineBlendMode::ColorDodge,
        BlendMode::Overlay => EngineBlendMode::Overlay,
        BlendMode::SoftLight => EngineBlendMode::SoftLight,
        BlendMode::HardLight => EngineBlendMode::HardLight,
        BlendMode::Difference => EngineBlendMode::Difference,
        BlendMode::Exclusion => EngineBlendMode::Exclusion,
        BlendMode::Hue => EngineBlendMode::Hue,
        BlendMode::Saturation => EngineBlendMode::Saturation,
        BlendMode::Color => EngineBlendMode::Color,
        BlendMode::Luminosity => EngineBlendMode::Luminosity,
    }
}

/// No two document modes render as the same engine mode, and every engine
/// mode is some document mode: the two vocabularies are kept in step.
pub proof fn lemma_engine_modes_correspond(a: BlendMode, b: BlendMode, engine: EngineBlendMode)
    ensures
        engine_mode(a) == engine_mode(b) ==> a == b,
        exists|mode: BlendMode| engine_mode(mode) == engine,
{
    let witness = match engine {
        EngineBlendMode::Normal => BlendMode::Normal,
        EngineBlendMode::Darken => BlendMode::Darken,
        EngineBlendMode::Multiply => BlendMode::Multiply,
        EngineBlendMode::ColorBurn => BlendMode::ColorBurn,
        EngineBlendMode::Lighten => BlendMode::Lighten,
        EngineBlendMode::Screen => BlendMode::Screen,
        EngineBlendMode::PlusLighter => BlendMode::PlusLighter,
        EngineBlendMode::ColorDodge => BlendMode::ColorDodge,
        EngineBlendMode::Overlay => BlendMode::Overlay,
        EngineBlendMode::SoftLight => BlendMode::SoftLight,
        EngineBlendMode::HardLight => BlendMode::HardLight,
        EngineBlendMode::Difference => BlendMode::Difference,
        EngineBlendMode::Exclusion => BlendMode::Exclusion,
        EngineBlendMode::Hue => BlendMode::Hue,
        EngineBlendMode::Saturation => BlendMode::Saturation,
        EngineBlendMode::Color => BlendMode::Color,
        EngineBlendMode::Luminosity => BlendMode::Luminosity,
    };
    assert(engine_mode(witness) == engine);
}

/// A lane. Deliberately untyped: any media goes on any track.
#[derive(Clone, PartialEq, Eq, Debug)]
pub struct Track {
    /// Minted per timeline ("t5", or "T1".."T4" for the first timeline's
    /// starter lanes); never shared between timelines.
    pub id: String,
    /// User-editable label, never blank.
    pub name: String,
    /// Video clips on this track are left out of the composite when false.
    pub visible: bool,
    /// Audio on this track is silent when true.
    pub muted: bool,
}

/// A font the user added from disk.
#[derive(Clone, PartialEq, Eq, Debug)]
pub struct CustomFont {
    /// The family name titles refer to.
    pub family: String,
    /// Where the font file lives on disk; the duplicate check when adding.
    pub path: String,
}

/// Settings the host manages around the edit: the manifest's identity
/// fields.
#[derive(Clone, Debug)]
pub struct DocumentSettings {
    /// The project's display name, written as the document's `name` field.
    pub name: String,
    /// Output frame width in pixels.
    pub width: u32,
    /// Output frame height in pixels.
    pub height: u32,
    /// Numerator of the output frame rate, e.g. 30000 for 29.97fps.
    pub rate_num: i64,
    /// Denominator of the output frame rate, e.g. 1001 for 29.97fps.
    pub rate_den: i64,
}

/// The session's settings as the editor view reports them.
#[derive(Clone, Debug)]
pub struct SettingsView {
    /// The project's display name.
    pub name: String,
    /// Output frame width in pixels.
    pub width: u32,
    /// Output frame height in pixels.
    pub height: u32,
    /// Frame rate numerator.
    pub rate_num: i64,
    /// Frame rate denominator.
    pub rate_den: i64,
}

/// An audio stream, as the UI sees it.
#[derive(Clone, PartialEq, Eq, Debug)]
pub struct AudioStreamInfo {
    /// The stream's index in its container.
    pub index: u32,
    /// Codec name as the probe reported it.
    pub codec: String,
    /// Samples per second.
    pub sample_rate: u32,
    /// Channel count.
    pub channels: u32,
}

/// Whether a serialised flag may be left out: only when it is false, so
/// documents without the flag stay byte-identical.
pub fn is_false(value: &bool) -> (skip: bool)
    ensures
        skip == !*value,
{
    !*value
}

/// The default of a flag that is on unless a document says otherwise.
pub fn yes() -> (on: bool)
    ensures
        on,
{
    true
}

} // verus!
