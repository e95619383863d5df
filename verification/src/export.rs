//! The exporter's vocabulary: what a flattened clip is, how filter chains
//! grow, when a running export stops, and what the encoder is asked for.

use vstd::prelude::*;

use crate::model::BlendMode;

verus! {

/// What a flattened clip is. Typed, so a kind check the compiler has not
/// seen cannot exist - the wire still says "video"/"audio"/"image".
#[derive(Clone, Copy, PartialEq, Eq, Structural, Debug)]
pub enum ClipKind {
    /// Footage: pictures over time, possibly with its own sound.
    Video,
    /// Sound only. Contributes to the mix and never to the picture.
    Audio,
    /// A still: a one-frame stream, decoded looping.
    Image,
}

impl ClipKind {
    /// True for the kinds that put pixels on screen.
    pub fn is_visual(self) -> (visual: bool)
        ensures
            visual == (self == ClipKind::Video || self == ClipKind::Image),
    {
        matches!(self, ClipKind::Video | ClipKind::Image)
    }
}

/// A transition on the cut into a clip, as the exporter reads it.
#[derive(Clone, Debug)]
pub struct TransitionSpec<N> {
    /// "cross-fade", "fade-black" or "fade-white". Anything else is ignored.
    pub kind: String,
    /// Seconds the transition covers.
    pub duration: N,
}

/// One clip, flattened for the exporter: its media, its timing and mix, and
/// the track state folded into its own flags. Numbers are the document's,
/// carried as they are.
#[derive(Clone, Debug)]
pub struct ExportClip<N> {
    /// The media file this clip shows or plays.
    pub path: String,
    /// Whether the clip is footage, sound or a still.
    pub kind: ClipKind,
    /// Seconds into the timeline where the clip begins.
    pub start: N,
    /// Seconds of timeline the clip covers.
    pub duration: N,
    /// Seconds into the source where playback begins.
    pub source_start: N,
    /// Index into the track stack, zero being bottom-most.
    pub track: usize,
    /// The track's picture is switched off.
    pub hidden: bool,
    /// The track's sound is switched off.
    pub muted: bool,
    /// Linear gain, 1 being unity.
    pub volume: N,
    /// Audio fade up from the clip's start, in seconds.
    pub fade_in: N,
    /// Audio fade out into the clip's end, in seconds.
    pub fade_out: N,
    /// FFmpeg filter chain from the Filters tab, or empty.
    pub filter_chain: String,
    /// Playback rate. 1 is normal.
    pub speed: N,
    /// False lets pitch rise with the rate, like tape.
    pub preserve_pitch: bool,
    /// Multiplier over the fitted size.
    pub scale: N,
    /// Offset of the picture's centre from frame centre, frame-width fraction.
    pub offset_x: N,
    /// Offset as a frame-height fraction.
    pub offset_y: N,
    /// Clockwise rotation in degrees.
    pub rotation: N,
    /// Blend strength over the layers beneath, 1 being solid.
    pub opacity: N,
    /// How the picture combines with the layers beneath it.
    pub blend_mode: BlendMode,
    /// FFmpeg video filter chain from the Effects tab, or empty.
    pub video_filter_chain: String,
    /// The transition into this clip's cut, when there is one.
    pub transition: Option<TransitionSpec<N>>,
    /// Video opacity ramp up from the clip's start, in seconds. Set by
    /// transition resolution, never by the flattener.
    pub video_fade_in: N,
    /// The source's pixel width, when known.
    pub media_width: Option<u32>,
    /// The source's pixel height, when known.
    pub media_height: Option<u32>,
    /// Whether the file carries an audio stream, when known.
    pub has_audio: Option<bool>,
}

/// A chain with one more filter on the end, comma-separated.
pub open spec fn chain_with(chain: Seq<char>, filter: Seq<char>) -> Seq<char> {
    if chain.len() == 0 {
        filter
    } else {
        chain + seq![','] + filter
    }
}

/// Appends one filter to a chain, comma-separated. Effects the user stacked
/// come first; a transition fades the styled picture, not the raw one.
pub fn append_filter(chain: &mut String, filter: &str)
    ensures
        final(chain)@ == chain_with(old(chain)@, filter@),
{
    if !chain.as_str().is_empty() {
        proof {
            reveal_strlit(",");
        }
        chain.append(",");
        chain.append(filter);
        assert(chain@ =~= old(chain)@ + seq![','] + filter@);
    } else {
        chain.append(filter);
        assert(chain@ =~= filter@);
    }
}

/// The message an export stops with when asked to.
pub open spec fn cancelled_message() -> Seq<char> {
    "export cancelled"@
}

/// The verdict between frames and stages: carry on, or stop because a stop
/// was requested.
pub fn cancel_verdict(requested: bool) -> (verdict: Result<(), String>)
    ensures
        verdict is Ok <==> !requested,
        verdict matches Err(message) ==> message@ == cancelled_message(),
{
    if requested {
        Err(String::from_str("export cancelled"))
    } else {
        Ok(())
    }
}

/// Encoder settings.
#[derive(Clone, Debug)]
pub struct EncodeOptions {
    /// Video codec, as FFmpeg names it.
    pub codec: String,
    /// x264-style speed/size tradeoff.
    pub preset: String,
    /// Constant rate factor. Lower is better quality and a bigger file.
    pub crf: u8,
    /// Output pixel format. `yuv420p` is what players actually accept.
    pub pixel_format: String,
    /// A filtergraph laid over the finished picture on the way in, or empty.
    pub video_filter: String,
}

impl Default for EncodeOptions {
    /// A playable H.264 file: libx264 at `medium`, CRF 18, `yuv420p`, and no
    /// filter over the picture.
    fn default() -> (options: Self)
        ensures
            options.codec@ == "libx264"@,
            options.preset@ == "medium"@,
            options.crf == 18,
            options.pixel_format@ == "yuv420p"@,
            options.video_filter@ == Seq::<char>::empty(),
    {
        EncodeOptions {
            codec: String::from_str("libx264"),
            preset: String::from_str("medium"),
            crf: 18,
            pixel_format: String::from_str("yuv420p"),
            video_filter: String::new(),
        }
    }
}

} // verus!
