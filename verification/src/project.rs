//! The edit itself: media, timelines, tracks and clips, and the lookups
//! every command starts with.
//!
//! Measurements - times, gains, scales, opacities - are of a number type
//! `N` the model only carries: the document stores them as `f64` seconds and
//! fractions, and nothing here does arithmetic on them. What this module
//! decides is which timeline, clip, track or media item a name refers to.

use vstd::prelude::*;

use crate::model::{BlendMode, ClipKind, CustomFont, MediaKind, TextAlign, Track};
use crate::scan::{decimal, push_decimal};
use crate::text::string_from_chars;

verus! {

/// One entry in the media bin: a file the user imported, plus what the
/// probe learned about it.
#[derive(Clone, Debug)]
pub struct MediaItem<N> {
    /// Minted by the editor ("m1", "m2", ...) and never re-issued.
    pub id: String,
    /// Absolute path on the user's disk; the duplicate check on import.
    pub path: String,
    /// Display name in the bin, normally the file's basename.
    pub name: String,
    /// Seconds, when the container said.
    pub duration: Option<N>,
    /// What the probe decided the file is.
    pub kind: MediaKind,
    /// Pixel width, when the file has pictures.
    pub width: Option<u32>,
    /// Pixel height, same terms as `width`.
    pub height: Option<u32>,
    /// Frames per second as a decimal, for display.
    pub frame_rate: Option<N>,
    /// The exact fraction the engine works in, e.g. "30000/1001".
    pub frame_rate_fraction: Option<String>,
    /// Codec name as the probe reported it.
    pub video_codec: Option<String>,
    /// Codec of the embedded audio, when there is any.
    pub audio_codec: Option<String>,
    /// Whether the file carries an audio stream.
    pub has_audio: bool,
    /// True when this item is a template slot waiting for the user's file.
    pub placeholder: bool,
}

/// One applied audio filter or video effect: a catalogue id plus whatever
/// parameters were set.
#[derive(Clone, Debug)]
pub struct AppliedFilter<N> {
    /// Which catalogue entry this is, e.g. "sepia".
    pub id: String,
    /// The user's knob settings, by parameter name, in name order.
    pub params: Vec<(String, N)>,
    /// False bypasses without losing settings.
    pub enabled: bool,
}

/// A transition on the cut into a clip.
#[derive(Clone, Debug)]
pub struct Transition<N> {
    /// Which transition from the catalogue, e.g. "cross-fade".
    pub id: String,
    /// Seconds the transition covers.
    pub duration: N,
}

/// A title's styling. Sizes are fractions of the frame.
#[derive(Clone, Debug)]
pub struct TextStyle<N> {
    /// The words themselves, newlines included.
    pub content: String,
    /// CSS-style family name.
    pub font_family: String,
    /// Cap height as a fraction of frame height.
    pub font_size: N,
    /// CSS-scale weight, 100..=900.
    pub font_weight: N,
    /// Italic when true.
    pub italic: bool,
    /// Fill colour as a CSS hex string.
    pub color: String,
    /// Line alignment within the block.
    pub align: TextAlign,
    /// Opacity of the whole title in 0..=1.
    pub opacity: N,
    /// Outline thickness as a fraction of frame height.
    pub stroke_width: N,
    /// Outline colour.
    pub stroke_color: String,
    /// A drop shadow for legibility over footage.
    pub shadow: bool,
    /// A solid plate behind the text; empty for none.
    pub background: String,
    /// Baseline spacing as a multiple of the font size.
    pub line_height: N,
    /// Extra letter spacing, in frame-height fractions.
    pub tracking: N,
}

/// One placed piece of a timeline: a stretch of media (or a title) with its
/// timing, mix, transform, and effects.
#[derive(Clone, Debug)]
pub struct Clip<N> {
    /// Minted by the editor ("c1", "c2", ...); how every command names it.
    pub id: String,
    /// The lane this clip sits on.
    pub track_id: String,
    /// Empty for a text clip, which has no file behind it.
    pub media_id: String,
    /// Display label.
    pub name: String,
    /// What this clip renders as.
    pub kind: ClipKind,
    /// Seconds from the start of the timeline.
    pub start: N,
    /// Seconds of timeline the clip occupies.
    pub duration: N,
    /// In-point: how far into the media the clip starts.
    pub source_start: N,
    /// Linear gain, 1 being unity.
    pub volume: N,
    /// Seconds of audio ramp-in from silence at the head.
    pub fade_in: N,
    /// Seconds of audio ramp-out to silence at the tail.
    pub fade_out: N,
    /// Multiplier over the fitted size.
    pub scale: N,
    /// Offset from centred, as a fraction of frame width.
    pub offset_x: N,
    /// Offset from centred, as a fraction of frame height.
    pub offset_y: N,
    /// Clockwise rotation in degrees.
    pub rotation: N,
    /// Blend strength over whatever is beneath, in 0..1.
    pub opacity: N,
    /// How the picture combines with what is beneath it.
    pub blend_mode: BlendMode,
    /// Playback rate. 1 is normal.
    pub speed: N,
    /// Keep voices at their natural pitch when `speed` is not 1.
    pub preserve_pitch: bool,
    /// Audio filters, in order.
    pub filters: Vec<AppliedFilter<N>>,
    /// Video effects, in order.
    pub video_effects: Vec<AppliedFilter<N>>,
    /// True when a video clip's embedded audio is detached out of it.
    pub muted: Option<bool>,
    /// On a detached audio clip: the video clip the sound came from.
    pub detached_from: Option<String>,
    /// The transition on the cut into this clip, if any.
    pub transition_in: Option<Transition<N>>,
    /// The overlay, when this is a text clip.
    pub text: Option<TextStyle<N>>,
}

/// One effect laid over the finished picture, covering a span of timeline
/// rather than a clip.
#[derive(Clone, Debug)]
pub struct TimelineEffect<N> {
    /// Minted by the editor ("e1", "e2", ...).
    pub id: String,
    /// Which catalogue entry this is, e.g. "gaussian-blur".
    pub effect_id: String,
    /// The user's knob settings, by parameter name, in name order.
    pub params: Vec<(String, N)>,
    /// Seconds from the start of the timeline.
    pub start: N,
    /// Seconds of timeline the effect covers.
    pub duration: N,
    /// Seconds the effect takes to come fully in at its head.
    pub ease_in: N,
    /// Seconds the effect takes to fall away at its tail.
    pub ease_out: N,
    /// False bypasses without losing settings.
    pub enabled: bool,
}

/// One timeline: a name and its lanes and clips.
#[derive(Clone, Debug)]
pub struct Timeline<N> {
    /// Minted by the editor ("tl2", ...), except the founding "TL1".
    pub id: String,
    /// The tab label.
    pub name: String,
    /// The lanes, top to bottom.
    pub tracks: Vec<Track>,
    /// Every clip on this timeline, in insertion order, not time order.
    pub clips: Vec<Clip<N>>,
    /// Effects laid over the finished picture, applied in order.
    pub effects: Vec<TimelineEffect<N>>,
}

/// The edit: everything the document stores except the app-level settings.
#[derive(Clone, Debug)]
pub struct Project<N> {
    /// The bin: every imported file, shared by all timelines.
    pub media: Vec<MediaItem<N>>,
    /// Fonts the user added from disk.
    pub fonts: Vec<CustomFont>,
    /// Every timeline, in tab order. Always at least one.
    pub timelines: Vec<Timeline<N>>,
    /// Which timeline commands act on.
    pub active_timeline_id: String,
}

/// Whether `index` is the first place in `items` where `matches` holds.
pub open spec fn is_first_match<A>(items: Seq<A>, matches: spec_fn(A) -> bool, index: int) -> bool {
    &&& 0 <= index < items.len()
    &&& matches(items[index])
    &&& forall|j: int| 0 <= j < index ==> !matches(#[trigger] items[j])
}

/// The first place in `items` where `matches` holds, if there is one.
pub open spec fn first_match<A>(items: Seq<A>, matches: spec_fn(A) -> bool) -> Option<int> {
    if exists|index: int| is_first_match(items, matches, index) {
        Some(choose|index: int| is_first_match(items, matches, index))
    } else {
        None
    }
}

/// There is a first match exactly when there is a match, and it is the one
/// `first_match` names.
pub proof fn lemma_first_match<A>(items: Seq<A>, matches: spec_fn(A) -> bool, index: int)
    requires
        is_first_match(items, matches, index),
    ensures
        first_match(items, matches) == Some(index),
{
    let chosen = choose|i: int| is_first_match(items, matches, i);
    assert(is_first_match(items, matches, chosen));
    if chosen < index {
        assert(!matches(items[chosen]));
    } else if chosen > index {
        assert(!matches(items[index]));
    }
}

/// No match anywhere means no first match.
pub proof fn lemma_no_match<A>(items: Seq<A>, matches: spec_fn(A) -> bool)
    requires
        forall|j: int| 0 <= j < items.len() ==> !matches(#[trigger] items[j]),
    ensures
        first_match(items, matches) is None,
{
}

/// Names a timeline by its id.
pub open spec fn has_timeline_id<N>(id: Seq<char>) -> spec_fn(Timeline<N>) -> bool {
    |timeline: Timeline<N>| timeline.id@ == id
}

/// Names a media item by its id.
pub open spec fn has_media_id<N>(id: Seq<char>) -> spec_fn(MediaItem<N>) -> bool {
    |item: MediaItem<N>| item.id@ == id
}

/// Names a clip by its id.
pub open spec fn has_clip_id<N>(id: Seq<char>) -> spec_fn(Clip<N>) -> bool {
    |clip: Clip<N>| clip.id@ == id
}

/// Names a track by its id.
pub open spec fn has_track_id(id: Seq<char>) -> spec_fn(Track) -> bool {
    |track: Track| track.id@ == id
}

/// Where the timeline named `id` is, or the first one when none is: the
/// tab strip's preference, and the degrade a broken active id gets.
pub open spec fn timeline_or_first<N>(timelines: Seq<Timeline<N>>, id: Seq<char>) -> int {
    match first_match(timelines, has_timeline_id(id)) {
        Some(index) => index,
        None => 0,
    }
}

/// The id of the `number`th starter lane, "T1".."T4".
pub open spec fn starter_track_id(number: nat) -> Seq<char> {
    seq!['T'] + decimal(number)
}

/// The label of the `number`th starter lane, "Track 1".."Track 4".
pub open spec fn starter_track_name(number: nat) -> Seq<char> {
    "Track "@ + decimal(number)
}

/// Where the timeline named `id` is among `timelines`.
pub fn find_timeline<N>(timelines: &Vec<Timeline<N>>, id: &str) -> (found: Option<usize>)
    ensures
        match found {
            Some(index) => first_match(timelines@, has_timeline_id(id@)) == Some(index as int),
            None => first_match(timelines@, has_timeline_id(id@)) is None,
        },
{
    let wanted = id.to_owned();
    let mut i: usize = 0;
    while i < timelines.len()
        invariant
            i <= timelines@.len(),
            wanted@ == id@,
            forall|j: int| 0 <= j < i ==> !has_timeline_id::<N>(id@)(#[trigger] timelines@[j]),
        decreases timelines@.len() - i,
    {
        if timelines[i].id == wanted {
            proof {
                lemma_first_match(timelines@, has_timeline_id(id@), i as int);
            }
            return Some(i);
        }
        i += 1;
    }
    proof {
        lemma_no_match(timelines@, has_timeline_id::<N>(id@));
    }
    None
}

/// Where the media item named `id` is among `media`.
pub fn find_media<N>(media: &Vec<MediaItem<N>>, id: &str) -> (found: Option<usize>)
    ensures
        match found {
            Some(index) => first_match(media@, has_media_id(id@)) == Some(index as int),
            None => first_match(media@, has_media_id(id@)) is None,
        },
{
    let wanted = id.to_owned();
    let mut i: usize = 0;
    while i < media.len()
        invariant
            i <= media@.len(),
            wanted@ == id@,
            forall|j: int| 0 <= j < i ==> !has_media_id::<N>(id@)(#[trigger] media@[j]),
        decreases media@.len() - i,
    {
        if media[i].id == wanted {
            proof {
                lemma_first_match(media@, has_media_id(id@), i as int);
            }
            return Some(i);
        }
        i += 1;
    }
    proof {
        lemma_no_match(media@, has_media_id::<N>(id@));
    }
    None
}

/// Where the clip named `id` is among `clips`.
pub fn find_clip<N>(clips: &Vec<Clip<N>>, id: &str) -> (found: Option<usize>)
    ensures
        match found {
            Some(index) => first_match(clips@, has_clip_id(id@)) == Some(index as int),
            None => first_match(clips@, has_clip_id(id@)) is None,
        },
{
    let wanted = id.to_owned();
    let mut i: usize = 0;
    while i < clips.len()
        invariant
            i <= clips@.len(),
            wanted@ == id@,
            forall|j: int| 0 <= j < i ==> !has_clip_id::<N>(id@)(#[trigger] clips@[j]),
        decreases clips@.len() - i,
    {
        if clips[i].id == wanted {
            proof {
                lemma_first_match(clips@, has_clip_id(id@), i as int);
            }
            return Some(i);
        }
        i += 1;
    }
    proof {
        lemma_no_match(clips@, has_clip_id::<N>(id@));
    }
    None
}

/// Where the track named `id` is among `tracks`.
pub fn find_track(tracks: &Vec<Track>, id: &str) -> (found: Option<usize>)
    ensures
        match found {
            Some(index) => first_match(tracks@, has_track_id(id@)) == Some(index as int),
            None => first_match(tracks@, has_track_id(id@)) is None,
        },
{
    let wanted = id.to_owned();
    let mut i: usize = 0;
    while i < tracks.len()
        invariant
            i <= tracks@.len(),
            wanted@ == id@,
            forall|j: int| 0 <= j < i ==> !has_track_id(id@)(#[trigger] tracks@[j]),
        decreases tracks@.len() - i,
    {
        if tracks[i].id == wanted {
            proof {
                lemma_first_match(tracks@, has_track_id(id@), i as int);
            }
            return Some(i);
        }
        i += 1;
    }
    proof {
        lemma_no_match(tracks@, has_track_id(id@));
    }
    None
}

fn numbered(prefix: &str, number: u64) -> (text: String)
    ensures
        text@ == prefix@ + decimal(number as nat),
{
    let mut out = crate::text::chars_of(prefix);
    push_decimal(&mut out, number);
    string_from_chars(&out)
}

impl<N> Project<N> {
    /// A new project: one timeline, "TL1", with four empty lanes "T1".."T4"
    /// named "Track 1".."Track 4", visible and unmuted; nothing in the bin.
    pub fn new() -> (project: Self)
        ensures
            project.media@.len() == 0,
            project.fonts@.len() == 0,
            project.active_timeline_id@ == "TL1"@,
            project.timelines@.len() == 1,
            project.timelines@[0].id@ == "TL1"@,
            project.timelines@[0].name@ == "Timeline 1"@,
            project.timelines@[0].clips@.len() == 0,
            project.timelines@[0].effects@.len() == 0,
            project.timelines@[0].tracks@.len() == 4,
            forall|i: int|
                0 <= i < 4 ==> {
                    &&& (#[trigger] project.timelines@[0].tracks@[i]).id@ == starter_track_id(
                        (i + 1) as nat,
                    )
                    &&& project.timelines@[0].tracks@[i].name@ == starter_track_name((i + 1) as nat)
                    &&& project.timelines@[0].tracks@[i].visible
                    &&& !project.timelines@[0].tracks@[i].muted
                },
    {
        let mut tracks: Vec<Track> = Vec::new();
        let mut number: u64 = 1;
        while number <= 4
            invariant
                1 <= number <= 5,
                tracks@.len() == number - 1,
                forall|i: int|
                    0 <= i < number - 1 ==> {
                        &&& (#[trigger] tracks@[i]).id@ == starter_track_id((i + 1) as nat)
                        &&& tracks@[i].name@ == starter_track_name((i + 1) as nat)
                        &&& tracks@[i].visible
                        &&& !tracks@[i].muted
                    },
            decreases 5 - number,
        {
            proof {
                reveal_strlit("T");
            }
            tracks.push(
                Track {
                    id: numbered("T", number),
                    name: numbered("Track ", number),
                    visible: true,
                    muted: false,
                },
            );
            number += 1;
        }
        let timeline = Timeline {
            id: String::from_str("TL1"),
            name: String::from_str("Timeline 1"),
            tracks,
            clips: Vec::new(),
            effects: Vec::new(),
        };
        let mut timelines = Vec::new();
        timelines.push(timeline);
        Project {
            media: Vec::new(),
            fonts: Vec::new(),
            timelines,
            active_timeline_id: String::from_str("TL1"),
        }
    }

    /// The timeline being edited: the one the active id names, degrading
    /// to the first timeline rather than panicking when it names none.
    pub fn active(&self) -> (timeline: &Timeline<N>)
        requires
            self.timelines@.len() > 0,
        ensures
            *timeline == self.timelines@[timeline_or_first(
                self.timelines@,
                self.active_timeline_id@,
            )],
    {
        match find_timeline(&self.timelines, self.active_timeline_id.as_str()) {
            Some(index) => &self.timelines[index],
            None => &self.timelines[0],
        }
    }

    /// Mutable twin of [`Project::active`], with the same degrade-to-first
    /// behaviour. Every other timeline is left as it was.
    pub fn active_mut(&mut self) -> (timeline: &mut Timeline<N>)
        requires
            old(self).timelines@.len() > 0,
        ensures
            *timeline == old(self).timelines@[timeline_or_first(
                old(self).timelines@,
                old(self).active_timeline_id@,
            )],
            final(self).timelines@ == old(self).timelines@.update(
                timeline_or_first(old(self).timelines@, old(self).active_timeline_id@),
                *final(timeline),
            ),
            final(self).media == old(self).media,
            final(self).fonts == old(self).fonts,
            final(self).active_timeline_id == old(self).active_timeline_id,
    {
        let index = match find_timeline(&self.timelines, self.active_timeline_id.as_str()) {
            Some(index) => index,
            None => 0,
        };
        &mut self.timelines[index]
    }

    /// The bin entry with this id, or `None` if it was removed.
    pub fn media_by_id(&self, media_id: &str) -> (item: Option<&MediaItem<N>>)
        ensures
            match first_match(self.media@, has_media_id(media_id@)) {
                Some(index) => item == Some(&self.media@[index]),
                None => item is None,
            },
    {
        match find_media(&self.media, media_id) {
            Some(index) => Some(&self.media[index]),
            None => None,
        }
    }
}

impl<N> Default for Project<N> {
    /// The same as [`Project::new`]: one timeline, "TL1", with four empty
    /// lanes "T1".."T4" named "Track 1".."Track 4", visible and unmuted;
    /// nothing in the bin.
    fn default() -> (project: Self)
        ensures
            project.media@.len() == 0,
            project.fonts@.len() == 0,
            project.active_timeline_id@ == "TL1"@,
            project.timelines@.len() == 1,
            project.timelines@[0].id@ == "TL1"@,
            project.timelines@[0].name@ == "Timeline 1"@,
            project.timelines@[0].clips@.len() == 0,
            project.timelines@[0].effects@.len() == 0,
            project.timelines@[0].tracks@.len() == 4,
            forall|i: int|
                0 <= i < 4 ==> {
                    &&& (#[trigger] project.timelines@[0].tracks@[i]).id@ == starter_track_id(
                        (i + 1) as nat,
                    )
                    &&& project.timelines@[0].tracks@[i].name@ == starter_track_name((i + 1) as nat)
                    &&& project.timelines@[0].tracks@[i].visible
                    &&& !project.timelines@[0].tracks@[i].muted
                },
    {
        Self::new()
    }
}

impl<N> Timeline<N> {
    /// The clip with this id, or `None` if it is not on this timeline.
    pub fn clip(&self, clip_id: &str) -> (clip: Option<&Clip<N>>)
        ensures
            match first_match(self.clips@, has_clip_id(clip_id@)) {
                Some(index) => clip == Some(&self.clips@[index]),
                None => clip is None,
            },
    {
        match find_clip(&self.clips, clip_id) {
            Some(index) => Some(&self.clips[index]),
            None => None,
        }
    }

    /// Mutable twin of [`Timeline::clip`]: whatever the caller does to the
    /// clip lands in its place, and nothing else changes.
    pub fn clip_mut(&mut self, clip_id: &str) -> (clip: Option<&mut Clip<N>>)
        ensures
            match first_match(old(self).clips@, has_clip_id(clip_id@)) {
                Some(index) => {
                    &&& clip matches Some(found) && *found == old(self).clips@[index]
                    &&& final(self).clips@ == old(self).clips@.update(index, *final(clip->0))
                },
                None => clip is None && final(self).clips == old(self).clips,
            },
            final(self).id == old(self).id,
            final(self).name == old(self).name,
            final(self).tracks == old(self).tracks,
            final(self).effects == old(self).effects,
    {
        match find_clip(&self.clips, clip_id) {
            Some(index) => Some(&mut self.clips[index]),
            None => None,
        }
    }

    /// The track with this id, or `None` if it was removed.
    pub fn track(&self, track_id: &str) -> (track: Option<&Track>)
        ensures
            match first_match(self.tracks@, has_track_id(track_id@)) {
                Some(index) => track == Some(&self.tracks@[index]),
                None => track is None,
            },
    {
        match find_track(&self.tracks, track_id) {
            Some(index) => Some(&self.tracks[index]),
            None => None,
        }
    }
}

} // verus!
