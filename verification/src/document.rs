//! Reading `wolfcut.json`: the tolerance rules.
//!
//! Every document already on disk is a contract. A field that is missing or
//! of the wrong type defaults rather than failing the load; an entry that
//! lacks what makes it an entry (an id, a path) is dropped; a clip whose
//! track or media vanished is dropped, while a title - which needs no media -
//! survives; a legacy flat document loads as the one timeline it always was.
//! A hand-edited or older file degrades to something openable, never to a
//! load error.
//!
//! The host reads the JSON into the `*Entry` types below - each field as the
//! document has it, `None` where it is absent or not of the expected JSON
//! type - and settles the measurements, which are floating point and clamped
//! by rules of their own. Everything else is decided here.

use vstd::prelude::*;

use crate::model::{BlendMode, ClipKind, CustomFont, MediaKind, TextAlign, Track};
use crate::project::{
    find_media, find_timeline, find_track, first_match, has_media_id, has_timeline_id, is_first_match,
    has_track_id, AppliedFilter, Clip, MediaItem, Project, TextStyle, Timeline, TimelineEffect,
    Transition,
};

verus! {

/// A lane as the document has it.
pub struct TrackEntry {
    pub id: Option<String>,
    pub name: Option<String>,
    pub visible: Option<bool>,
    pub muted: Option<bool>,
}

/// Whether `out` is what reading `entries` one by one gives, where an entry
/// for which `keeps` fails is dropped and one for which it holds becomes an
/// item related to it by `reads`, in the same order.
pub open spec fn read_as<E, T>(
    entries: Seq<E>,
    out: Seq<T>,
    keeps: spec_fn(E) -> bool,
    reads: spec_fn(E, T) -> bool,
) -> bool
    decreases entries.len(),
{
    if entries.len() == 0 {
        out.len() == 0
    } else if keeps(entries.last()) {
        &&& out.len() > 0
        &&& reads(entries.last(), out.last())
        &&& read_as(entries.drop_last(), out.drop_last(), keeps, reads)
    } else {
        read_as(entries.drop_last(), out, keeps, reads)
    }
}

/// A field's text, or `fallback` where the field is absent.
pub open spec fn text_or(field: Option<String>, fallback: Seq<char>) -> Seq<char> {
    match field {
        Some(text) => text@,
        None => fallback,
    }
}

/// A switch, or `fallback` where the field is absent.
pub open spec fn flag_or(field: Option<bool>, fallback: bool) -> bool {
    match field {
        Some(value) => value,
        None => fallback,
    }
}

/// Whether a field is present and spells `word`.
pub open spec fn spells(field: Option<String>, word: Seq<char>) -> bool {
    field matches Some(text) && text@ == word
}

/// A track entry is kept when it has an id.
pub open spec fn track_kept(entry: TrackEntry) -> bool {
    entry.id is Some
}

/// The lane a kept track entry reads as: named after its id when unnamed,
/// visible and unmuted unless it says otherwise.
pub open spec fn track_read(entry: TrackEntry, track: Track) -> bool {
    &&& track.id@ == entry.id->0@
    &&& track.name@ == text_or(entry.name, entry.id->0@)
    &&& track.visible == flag_or(entry.visible, true)
    &&& track.muted == flag_or(entry.muted, false)
}

fn text_or_else(field: Option<String>, fallback: &str) -> (text: String)
    ensures
        text@ == text_or(field, fallback@),
{
    match field {
        Some(text) => text,
        None => String::from_str(fallback),
    }
}

fn flag_or_else(field: Option<bool>, fallback: bool) -> (value: bool)
    ensures
        value == flag_or(field, fallback),
{
    match field {
        Some(value) => value,
        None => fallback,
    }
}

/// Reads the document's lanes: entries without an id are dropped.
pub fn read_tracks(entries: Vec<TrackEntry>) -> (tracks: Vec<Track>)
    ensures
        read_as(entries@, tracks@, |e: TrackEntry| track_kept(e), |e: TrackEntry, t: Track| track_read(e, t)),
{
    let ghost all = entries@;
    let mut tracks: Vec<Track> = Vec::new();
    for entry in it: entries.into_iter()
        invariant
            all == it.seq(),
            read_as(all.take(it.index() as int), tracks@, |e: TrackEntry| track_kept(e), |e: TrackEntry, t: Track| track_read(e, t)),
    {
        proof {
            assert(all.take(it.index() + 1).drop_last() =~= all.take(it.index() as int));
        }
        match entry.id {
            Some(id) => {
                let name = text_or_else(entry.name, id.as_str());
                let track = Track {
                    id,
                    name,
                    visible: flag_or_else(entry.visible, true),
                    muted: flag_or_else(entry.muted, false),
                };
                let ghost before = tracks@;
                tracks.push(track);
                proof {
                    assert(tracks@.drop_last() =~= before);
                }
            },
            None => {},
        }
    }
    proof {
        assert(all.take(all.len() as int) =~= all);
    }
    tracks
}


/// Whether a field is present and spells `word`.
fn spelled(field: &Option<String>, word: &str) -> (same: bool)
    ensures
        same == spells(*field, word@),
{
    match field {
        Some(text) => *text == String::from_str(word),
        None => false,
    }
}

/// A piece of media as the document has it.
pub struct MediaEntry<N> {
    pub id: Option<String>,
    pub path: Option<String>,
    pub name: Option<String>,
    pub duration: Option<N>,
    pub kind: Option<String>,
    pub width: Option<u64>,
    pub height: Option<u64>,
    pub frame_rate: Option<N>,
    pub frame_rate_fraction: Option<String>,
    pub video_codec: Option<String>,
    pub audio_codec: Option<String>,
    pub has_audio: Option<bool>,
    pub placeholder: Option<bool>,
}

/// The media kind a document names: "audio" and "image" as spelled,
/// anything else video.
pub open spec fn named_media_kind(kind: Option<String>) -> MediaKind {
    if spells(kind, "audio"@) {
        MediaKind::Audio
    } else if spells(kind, "image"@) {
        MediaKind::Image
    } else {
        MediaKind::Video
    }
}

/// A pixel count, kept only where it fits in 32 bits.
pub open spec fn narrowed(value: Option<u64>) -> Option<u32> {
    match value {
        Some(count) => if count <= u32::MAX {
            Some(count as u32)
        } else {
            None
        },
        None => None,
    }
}

/// A media entry is kept when it has both an id and a path.
pub open spec fn media_kept<N>(entry: MediaEntry<N>) -> bool {
    entry.id is Some && entry.path is Some
}

/// The bin entry a kept media entry reads as: named after its path when
/// unnamed, with neither audio nor placeholder status unless it says so.
pub open spec fn media_read<N>(entry: MediaEntry<N>, item: MediaItem<N>) -> bool {
    &&& item.id@ == entry.id->0@
    &&& item.path@ == entry.path->0@
    &&& item.name@ == text_or(entry.name, entry.path->0@)
    &&& item.duration == entry.duration
    &&& item.kind == named_media_kind(entry.kind)
    &&& item.width == narrowed(entry.width)
    &&& item.height == narrowed(entry.height)
    &&& item.frame_rate == entry.frame_rate
    &&& item.frame_rate_fraction == entry.frame_rate_fraction
    &&& item.video_codec == entry.video_codec
    &&& item.audio_codec == entry.audio_codec
    &&& item.has_audio == flag_or(entry.has_audio, false)
    &&& item.placeholder == flag_or(entry.placeholder, false)
}

fn narrow(value: Option<u64>) -> (narrowed_value: Option<u32>)
    ensures
        narrowed_value == narrowed(value),
{
    match value {
        Some(count) => if count <= 0xffff_ffffu64 {
            Some(count as u32)
        } else {
            None
        },
        None => None,
    }
}

fn media_kind_named(kind: &Option<String>) -> (named: MediaKind)
    ensures
        named == named_media_kind(*kind),
{
    if spelled(kind, "audio") {
        MediaKind::Audio
    } else if spelled(kind, "image") {
        MediaKind::Image
    } else {
        MediaKind::Video
    }
}

/// Reads one media entry; `None` when it lacks an id or a path.
pub fn read_media_item<N>(entry: MediaEntry<N>) -> (item: Option<MediaItem<N>>)
    ensures
        item is Some <==> media_kept(entry),
        item matches Some(item) ==> media_read(entry, item),
{
    let MediaEntry {
        id,
        path,
        name,
        duration,
        kind,
        width,
        height,
        frame_rate,
        frame_rate_fraction,
        video_codec,
        audio_codec,
        has_audio,
        placeholder,
    } = entry;
    match (id, path) {
        (Some(id), Some(path)) => {
            let name = text_or_else(name, path.as_str());
            Some(
                MediaItem {
                    id,
                    path,
                    name,
                    duration,
                    kind: media_kind_named(&kind),
                    width: narrow(width),
                    height: narrow(height),
                    frame_rate,
                    frame_rate_fraction,
                    video_codec,
                    audio_codec,
                    has_audio: flag_or_else(has_audio, false),
                    placeholder: flag_or_else(placeholder, false),
                },
            )
        },
        _ => None,
    }
}

/// Reads the media bin: entries without an id or a path are dropped.
pub fn read_media<N>(entries: Vec<MediaEntry<N>>) -> (media: Vec<MediaItem<N>>)
    ensures
        read_as(
            entries@,
            media@,
            |e: MediaEntry<N>| media_kept(e),
            |e: MediaEntry<N>, m: MediaItem<N>| media_read(e, m),
        ),
{
    let ghost all = entries@;
    let mut media: Vec<MediaItem<N>> = Vec::new();
    for entry in it: entries.into_iter()
        invariant
            all == it.seq(),
            read_as(
                all.take(it.index() as int),
                media@,
                |e: MediaEntry<N>| media_kept(e),
                |e: MediaEntry<N>, m: MediaItem<N>| media_read(e, m),
            ),
    {
        proof {
            assert(all.take(it.index() + 1).drop_last() =~= all.take(it.index() as int));
        }
        match read_media_item(entry) {
            Some(item) => {
                let ghost before = media@;
                media.push(item);
                proof {
                    assert(media@.drop_last() =~= before);
                }
            },
            None => {},
        }
    }
    proof {
        assert(all.take(all.len() as int) =~= all);
    }
    media
}

/// A font as the document has it.
pub struct FontEntry {
    pub family: Option<String>,
    pub path: Option<String>,
}

/// A font entry is kept when it has both a family and a path.
pub open spec fn font_kept(entry: FontEntry) -> bool {
    entry.family is Some && entry.path is Some
}

/// The font a kept entry reads as.
pub open spec fn font_read(entry: FontEntry, font: CustomFont) -> bool {
    font.family@ == entry.family->0@ && font.path@ == entry.path->0@
}

/// Reads the user's fonts: entries without a family or a path are dropped.
pub fn read_fonts(entries: Vec<FontEntry>) -> (fonts: Vec<CustomFont>)
    ensures
        read_as(entries@, fonts@, |e: FontEntry| font_kept(e), |e: FontEntry, f: CustomFont| font_read(e, f)),
{
    let ghost all = entries@;
    let mut fonts: Vec<CustomFont> = Vec::new();
    for entry in it: entries.into_iter()
        invariant
            all == it.seq(),
            read_as(all.take(it.index() as int), fonts@, |e: FontEntry| font_kept(e), |e: FontEntry, f: CustomFont| font_read(e, f)),
    {
        proof {
            assert(all.take(it.index() + 1).drop_last() =~= all.take(it.index() as int));
        }
        match (entry.family, entry.path) {
            (Some(family), Some(path)) => {
                let ghost before = fonts@;
                fonts.push(CustomFont { family, path });
                proof {
                    assert(fonts@.drop_last() =~= before);
                }
            },
            _ => {},
        }
    }
    proof {
        assert(all.take(all.len() as int) =~= all);
    }
    fonts
}

/// One applied filter or effect as the document has it; each parameter's
/// value is `None` where it is not a number.
pub struct FilterEntry<N> {
    pub id: Option<String>,
    pub params: Vec<(String, Option<N>)>,
    pub enabled: Option<bool>,
}

/// A parameter is kept when its value is a number.
pub open spec fn param_kept<N>(param: (String, Option<N>)) -> bool {
    param.1 is Some
}

/// The setting a kept parameter reads as.
pub open spec fn param_read<N>(param: (String, Option<N>), setting: (String, N)) -> bool {
    setting.0@ == param.0@ && setting.1 == param.1->0
}

/// A filter entry is kept when it has an id.
pub open spec fn filter_kept<N>(entry: FilterEntry<N>) -> bool {
    entry.id is Some
}

/// The filter a kept entry reads as: its numeric parameters in order, and
/// enabled unless it says otherwise.
pub open spec fn filter_read<N>(entry: FilterEntry<N>, filter: AppliedFilter<N>) -> bool {
    &&& filter.id@ == entry.id->0@
    &&& read_as(
        entry.params@,
        filter.params@,
        |p: (String, Option<N>)| param_kept(p),
        |p: (String, Option<N>), s: (String, N)| param_read(p, s),
    )
    &&& filter.enabled == flag_or(entry.enabled, true)
}

fn read_params<N>(entries: Vec<(String, Option<N>)>) -> (params: Vec<(String, N)>)
    ensures
        read_as(
            entries@,
            params@,
            |p: (String, Option<N>)| param_kept(p),
            |p: (String, Option<N>), s: (String, N)| param_read(p, s),
        ),
{
    let ghost all = entries@;
    let mut params: Vec<(String, N)> = Vec::new();
    for entry in it: entries.into_iter()
        invariant
            all == it.seq(),
            read_as(
                all.take(it.index() as int),
                params@,
                |p: (String, Option<N>)| param_kept(p),
                |p: (String, Option<N>), s: (String, N)| param_read(p, s),
            ),
    {
        proof {
            assert(all.take(it.index() + 1).drop_last() =~= all.take(it.index() as int));
        }
        let (name, value) = entry;
        match value {
            Some(value) => {
                let ghost before = params@;
                params.push((name, value));
                proof {
                    assert(params@.drop_last() =~= before);
                }
            },
            None => {},
        }
    }
    proof {
        assert(all.take(all.len() as int) =~= all);
    }
    params
}

/// Reads a clip's filters or effects: entries without an id are dropped,
/// and so are parameters that are not numbers.
pub fn read_filters<N>(entries: Vec<FilterEntry<N>>) -> (filters: Vec<AppliedFilter<N>>)
    ensures
        read_as(
            entries@,
            filters@,
            |e: FilterEntry<N>| filter_kept(e),
            |e: FilterEntry<N>, f: AppliedFilter<N>| filter_read(e, f),
        ),
{
    let ghost all = entries@;
    let mut filters: Vec<AppliedFilter<N>> = Vec::new();
    for entry in it: entries.into_iter()
        invariant
            all == it.seq(),
            read_as(
                all.take(it.index() as int),
                filters@,
                |e: FilterEntry<N>| filter_kept(e),
                |e: FilterEntry<N>, f: AppliedFilter<N>| filter_read(e, f),
            ),
    {
        proof {
            assert(all.take(it.index() + 1).drop_last() =~= all.take(it.index() as int));
        }
        let FilterEntry { id, params, enabled } = entry;
        match id {
            Some(id) => {
                let filter = AppliedFilter {
                    id,
                    params: read_params(params),
                    enabled: flag_or_else(enabled, true),
                };
                let ghost before = filters@;
                filters.push(filter);
                proof {
                    assert(filters@.drop_last() =~= before);
                }
            },
            None => {},
        }
    }
    proof {
        assert(all.take(all.len() as int) =~= all);
    }
    filters
}


/// A transition as the document has it; its duration already settled.
pub struct TransitionEntry<N> {
    pub id: Option<String>,
    pub duration: N,
}

/// One clip as the document has it. The measurements are already settled -
/// defaulted and clamped by the host, which holds them as floating point -
/// and `text` is the title style the entry describes, if it describes one;
/// only a title keeps it.
pub struct ClipEntry<N> {
    pub id: Option<String>,
    pub track_id: Option<String>,
    pub media_id: Option<String>,
    pub kind: Option<String>,
    pub name: Option<String>,
    pub start: N,
    pub duration: N,
    pub source_start: N,
    pub volume: N,
    pub fade_in: N,
    pub fade_out: N,
    pub scale: N,
    pub offset_x: N,
    pub offset_y: N,
    pub rotation: N,
    pub opacity: N,
    pub speed: N,
    /// The blend mode, where the document names one this build knows.
    pub blend_mode: Option<BlendMode>,
    pub preserve_pitch: Option<bool>,
    pub filters: Vec<FilterEntry<N>>,
    pub video_effects: Vec<FilterEntry<N>>,
    pub muted: Option<bool>,
    pub detached_from: Option<String>,
    pub transition_in: Option<TransitionEntry<N>>,
    pub text: Option<TextStyle<N>>,
}

/// The clip kind a document names: "text", "audio" and "image" as spelled,
/// anything else video.
pub open spec fn named_clip_kind(kind: Option<String>) -> ClipKind {
    if spells(kind, "text"@) {
        ClipKind::Text
    } else if spells(kind, "audio"@) {
        ClipKind::Audio
    } else if spells(kind, "image"@) {
        ClipKind::Image
    } else {
        ClipKind::Video
    }
}

/// The text alignment a document names: "left" and "right" as spelled,
/// anything else centred.
pub open spec fn named_text_align(align: Option<String>) -> TextAlign {
    if spells(align, "left"@) {
        TextAlign::Left
    } else if spells(align, "right"@) {
        TextAlign::Right
    } else {
        TextAlign::Center
    }
}

/// A clip entry is kept when it has an id and a track id naming one of
/// `tracks`, and - unless it is a title - a media id naming an item of
/// `media`.
pub open spec fn clip_kept<N>(entry: ClipEntry<N>, tracks: Seq<Track>, media: Seq<MediaItem<N>>) -> bool {
    &&& entry.id is Some
    &&& entry.track_id is Some
    &&& first_match(tracks, has_track_id(entry.track_id->0@)) is Some
    &&& (spells(entry.kind, "text"@) || (entry.media_id is Some && first_match(
        media,
        has_media_id(entry.media_id->0@),
    ) is Some))
}

/// The transition a clip entry reads as: kept only with an id.
pub open spec fn transition_read<N>(entry: Option<TransitionEntry<N>>) -> Option<Transition<N>> {
    match entry {
        Some(transition) => match transition.id {
            Some(id) => Some(Transition { id, duration: transition.duration }),
            None => None,
        },
        None => None,
    }
}

/// The clip a kept entry reads as. A title has no media id and keeps its
/// style, or takes `default` when the entry describes none; any other clip
/// drops the style. Unnamed clips are "clip"; pitch
/// is preserved, and the blend mode is normal, unless the entry says
/// otherwise; `muted` is recorded only when it is set.
pub open spec fn clip_read<N>(entry: ClipEntry<N>, default: TextStyle<N>, clip: Clip<N>) -> bool {
    let is_title = spells(entry.kind, "text"@);
    &&& clip.id@ == entry.id->0@
    &&& clip.track_id@ == entry.track_id->0@
    &&& clip.media_id@ == (if is_title {
        Seq::<char>::empty()
    } else {
        entry.media_id->0@
    })
    &&& clip.name@ == text_or(entry.name, "clip"@)
    &&& clip.kind == named_clip_kind(entry.kind)
    &&& clip.start == entry.start
    &&& clip.duration == entry.duration
    &&& clip.source_start == entry.source_start
    &&& clip.volume == entry.volume
    &&& clip.fade_in == entry.fade_in
    &&& clip.fade_out == entry.fade_out
    &&& clip.scale == entry.scale
    &&& clip.offset_x == entry.offset_x
    &&& clip.offset_y == entry.offset_y
    &&& clip.rotation == entry.rotation
    &&& clip.opacity == entry.opacity
    &&& clip.blend_mode == (match entry.blend_mode {
        Some(mode) => mode,
        None => BlendMode::Normal,
    })
    &&& clip.speed == entry.speed
    &&& clip.preserve_pitch == flag_or(entry.preserve_pitch, true)
    &&& read_as(
        entry.filters@,
        clip.filters@,
        |e: FilterEntry<N>| filter_kept(e),
        |e: FilterEntry<N>, f: AppliedFilter<N>| filter_read(e, f),
    )
    &&& read_as(
        entry.video_effects@,
        clip.video_effects@,
        |e: FilterEntry<N>| filter_kept(e),
        |e: FilterEntry<N>, f: AppliedFilter<N>| filter_read(e, f),
    )
    &&& clip.muted == (if flag_or(entry.muted, false) {
        Some(true)
    } else {
        None
    })
    &&& clip.detached_from == entry.detached_from
    &&& clip.transition_in == transition_read(entry.transition_in)
    &&& clip.text == (if is_title {
        Some(
            match entry.text {
                Some(style) => style,
                None => default,
            },
        )
    } else {
        None
    })
}

fn clip_kind_named(kind: &Option<String>) -> (named: ClipKind)
    ensures
        named == named_clip_kind(*kind),
{
    if spelled(kind, "text") {
        ClipKind::Text
    } else if spelled(kind, "audio") {
        ClipKind::Audio
    } else if spelled(kind, "image") {
        ClipKind::Image
    } else {
        ClipKind::Video
    }
}

/// The alignment a title style names; see `named_text_align`.
pub fn text_align_named(align: &Option<String>) -> (named: TextAlign)
    ensures
        named == named_text_align(*align),
{
    if spelled(align, "left") {
        TextAlign::Left
    } else if spelled(align, "right") {
        TextAlign::Right
    } else {
        TextAlign::Center
    }
}

/// A title style, copied field for field.
pub fn copy_style<N: Copy>(style: &TextStyle<N>) -> (copy: TextStyle<N>)
    ensures
        copy == *style,
{
    TextStyle {
        content: style.content.clone(),
        font_family: style.font_family.clone(),
        font_size: style.font_size,
        font_weight: style.font_weight,
        italic: style.italic,
        color: style.color.clone(),
        align: style.align,
        opacity: style.opacity,
        stroke_width: style.stroke_width,
        stroke_color: style.stroke_color.clone(),
        shadow: style.shadow,
        background: style.background.clone(),
        line_height: style.line_height,
        tracking: style.tracking,
    }
}

/// Reads one clip against the lanes and bin it will live with; `None` when
/// it has nowhere to live or, not being a title, nothing to show.
pub fn read_clip<N: Copy>(
    entry: ClipEntry<N>,
    tracks: &Vec<Track>,
    media: &Vec<MediaItem<N>>,
    default: &TextStyle<N>,
) -> (clip: Option<Clip<N>>)
    ensures
        clip is Some <==> clip_kept(entry, tracks@, media@),
        clip matches Some(clip) ==> clip_read(entry, *default, clip),
{
    let ghost given = entry;
    let is_title = spelled(&entry.kind, "text");
    let kind = clip_kind_named(&entry.kind);
    let ClipEntry {
        id,
        track_id,
        media_id,
        kind: _,
        name,
        start,
        duration,
        source_start,
        volume,
        fade_in,
        fade_out,
        scale,
        offset_x,
        offset_y,
        rotation,
        opacity,
        speed,
        blend_mode,
        preserve_pitch,
        filters,
        video_effects,
        muted,
        detached_from,
        transition_in,
        text,
    } = entry;
    let id = match id {
        Some(id) => id,
        None => return None,
    };
    let track_id = match track_id {
        Some(track_id) => track_id,
        None => return None,
    };
    if find_track(tracks, track_id.as_str()).is_none() {
        return None;
    }
    let media_id = if is_title {
        String::new()
    } else {
        match media_id {
            Some(media_id) => {
                if find_media(media, media_id.as_str()).is_none() {
                    return None;
                }
                media_id
            },
            None => return None,
        }
    };
    let transition_in = match transition_in {
        Some(TransitionEntry { id: Some(id), duration }) => Some(Transition { id, duration }),
        _ => None,
    };
    let clip = Clip {
        id,
        track_id,
        media_id,
        name: text_or_else(name, "clip"),
        kind,
        start,
        duration,
        source_start,
        volume,
        fade_in,
        fade_out,
        scale,
        offset_x,
        offset_y,
        rotation,
        opacity,
        blend_mode: match blend_mode {
            Some(mode) => mode,
            None => BlendMode::Normal,
        },
        speed,
        preserve_pitch: flag_or_else(preserve_pitch, true),
        filters: read_filters(filters),
        video_effects: read_filters(video_effects),
        muted: if flag_or_else(muted, false) {
            Some(true)
        } else {
            None
        },
        detached_from,
        transition_in,
        text: if is_title {
            Some(
                match text {
                    Some(style) => style,
                    None => copy_style(default),
                },
            )
        } else {
            None
        },
    };
    proof {
        assert(clip_read(given, *default, clip));
    }
    Some(clip)
}

/// Reads a timeline's clips against its lanes and the bin.
pub fn read_clips<N: Copy>(
    entries: Vec<ClipEntry<N>>,
    tracks: &Vec<Track>,
    media: &Vec<MediaItem<N>>,
    default: &TextStyle<N>,
) -> (clips: Vec<Clip<N>>)
    ensures
        read_as(
            entries@,
            clips@,
            |e: ClipEntry<N>| clip_kept(e, tracks@, media@),
            |e: ClipEntry<N>, c: Clip<N>| clip_read(e, *default, c),
        ),
{
    let ghost all = entries@;
    let mut clips: Vec<Clip<N>> = Vec::new();
    for entry in it: entries.into_iter()
        invariant
            all == it.seq(),
            read_as(
                all.take(it.index() as int),
                clips@,
                |e: ClipEntry<N>| clip_kept(e, tracks@, media@),
                |e: ClipEntry<N>, c: Clip<N>| clip_read(e, *default, c),
            ),
    {
        proof {
            assert(all.take(it.index() + 1).drop_last() =~= all.take(it.index() as int));
        }
        match read_clip(entry, tracks, media, default) {
            Some(clip) => {
                let ghost before = clips@;
                clips.push(clip);
                proof {
                    assert(clips@.drop_last() =~= before);
                }
            },
            None => {},
        }
    }
    proof {
        assert(all.take(all.len() as int) =~= all);
    }
    clips
}


/// One timeline as the document has it. Its effects are carried for the
/// documents that hold them; this build does not load them.
pub struct TimelineEntry<N> {
    pub id: Option<String>,
    pub name: Option<String>,
    pub tracks: Vec<TrackEntry>,
    pub clips: Vec<ClipEntry<N>>,
    pub effects: Vec<TimelineEffect<N>>,
}

/// Whether any of these lane entries would be kept.
pub open spec fn has_usable_track(entries: Seq<TrackEntry>) -> bool {
    exists|k: int| 0 <= k < entries.len() && track_kept(#[trigger] entries[k])
}

/// Whether a timeline entry can load at all: it has an id and a lane.
pub open spec fn timeline_usable<N>(entry: TimelineEntry<N>) -> bool {
    entry.id is Some && has_usable_track(entry.tracks@)
}

/// Whether a timeline entry loads after the timelines `prior` already
/// loaded: it must be usable, and its id must not be taken.
pub open spec fn timeline_fresh<N>(entry: TimelineEntry<N>, prior: Seq<Timeline<N>>) -> bool {
    timeline_usable(entry) && first_match(prior, has_timeline_id(entry.id->0@)) is None
}

/// The timeline a loading entry reads as, its clips read against its own
/// lanes and the bin. Timeline effects do not load: a timeline starts
/// without them.
pub open spec fn timeline_read<N>(
    entry: TimelineEntry<N>,
    media: Seq<MediaItem<N>>,
    default: TextStyle<N>,
    timeline: Timeline<N>,
) -> bool {
    &&& timeline.id@ == entry.id->0@
    &&& timeline.name@ == text_or(entry.name, "Timeline"@)
    &&& read_as(
        entry.tracks@,
        timeline.tracks@,
        |e: TrackEntry| track_kept(e),
        |e: TrackEntry, t: Track| track_read(e, t),
    )
    &&& read_as(
        entry.clips@,
        timeline.clips@,
        |e: ClipEntry<N>| clip_kept(e, timeline.tracks@, media),
        |e: ClipEntry<N>, c: Clip<N>| clip_read(e, default, c),
    )
    &&& timeline.effects@.len() == 0
}

/// Whether `out` is what reading the timeline entries in order gives: each
/// entry that is fresh against the timelines loaded before it loads, and
/// every other entry - without an id, without a lane, or repeating an id -
/// is skipped.
pub open spec fn timelines_read<N>(
    entries: Seq<TimelineEntry<N>>,
    media: Seq<MediaItem<N>>,
    default: TextStyle<N>,
    out: Seq<Timeline<N>>,
) -> bool
    decreases entries.len(),
{
    if entries.len() == 0 {
        out.len() == 0
    } else {
        let entry = entries.last();
        ||| {
            &&& out.len() > 0
            &&& timeline_fresh(entry, out.drop_last())
            &&& timeline_read(entry, media, default, out.last())
            &&& timelines_read(entries.drop_last(), media, default, out.drop_last())
        }
        ||| {
            &&& !timeline_fresh(entry, out)
            &&& timelines_read(entries.drop_last(), media, default, out)
        }
    }
}

/// Reading keeps nothing exactly when no entry is kept.
pub proof fn lemma_read_as_empty<E, T>(
    entries: Seq<E>,
    out: Seq<T>,
    keeps: spec_fn(E) -> bool,
    reads: spec_fn(E, T) -> bool,
)
    requires
        read_as(entries, out, keeps, reads),
    ensures
        out.len() == 0 <==> forall|k: int| 0 <= k < entries.len() ==> !keeps(#[trigger] entries[k]),
    decreases entries.len(),
{
    if entries.len() > 0 {
        let rest = entries.drop_last();
        if keeps(entries.last()) {
            lemma_read_as_empty(rest, out.drop_last(), keeps, reads);
        } else {
            lemma_read_as_empty(rest, out, keeps, reads);
            assert forall|k: int| 0 <= k < rest.len() implies rest[k] == entries[k] by {}
            if out.len() == 0 {
                assert forall|k: int| 0 <= k < entries.len() implies !keeps(#[trigger] entries[k]) by {
                    if k < rest.len() {
                        assert(rest[k] == entries[k]);
                    }
                }
            } else {
                let k = choose|k: int| 0 <= k < rest.len() && keeps(#[trigger] rest[k]);
                assert(entries[k] == rest[k]);
            }
        }
    }
}

/// Reads the timelines array: entries load in order, each unless it has no
/// id, no lane, or an id an earlier timeline already took.
pub fn read_timelines<N: Copy>(
    entries: Vec<TimelineEntry<N>>,
    media: &Vec<MediaItem<N>>,
    default: &TextStyle<N>,
) -> (timelines: Vec<Timeline<N>>)
    ensures
        timelines_read(entries@, media@, *default, timelines@),
        timelines@.len() == 0 <==> forall|k: int|
            0 <= k < entries@.len() ==> !timeline_usable(#[trigger] entries@[k]),
{
    let ghost all = entries@;
    let mut timelines: Vec<Timeline<N>> = Vec::new();
    for entry in it: entries.into_iter()
        invariant
            all == it.seq(),
            timelines_read(all.take(it.index() as int), media@, *default, timelines@),
            timelines@.len() == 0 <==> forall|k: int|
                0 <= k < it.index() ==> !timeline_usable(#[trigger] all[k]),
    {
        let ghost i = it.index() as int;
        let ghost before = timelines@;
        proof {
            assert(all.take(i + 1).drop_last() =~= all.take(i));
            assert(all.take(i + 1).last() == all[i]);
            assert(entry == all[i]);
        }
        let TimelineEntry { id, name, tracks, clips, effects: _ } = entry;
        match id {
            Some(id) => {
                if find_timeline(&timelines, id.as_str()).is_none() {
                    let tracks = read_tracks(tracks);
                    proof {
                        lemma_read_as_empty(
                            all[i].tracks@,
                            tracks@,
                            |e: TrackEntry| track_kept(e),
                            |e: TrackEntry, t: Track| track_read(e, t),
                        );
                    }
                    if tracks.len() > 0 {
                        let clips = read_clips(clips, &tracks, media, default);
                        let timeline = Timeline {
                            id,
                            name: text_or_else(name, "Timeline"),
                            tracks,
                            clips,
                            effects: Vec::new(),
                        };
                        timelines.push(timeline);
                        proof {
                            assert(timelines@.drop_last() =~= before);
                            assert(timeline_usable(all[i]));
                        }
                    } else {
                        proof {
                            assert(!has_usable_track(all[i].tracks@));
                        }
                    }
                } else {
                    proof {
                        let k = choose|k: int| 0 <= k < i && timeline_usable(#[trigger] all[k]);
                        assert(0 <= k < i + 1 && timeline_usable(all[k]));
                    }
                }
            },
            None => {},
        }
        proof {
            if timelines@.len() > 0 && before.len() > 0 {
                let k = choose|k: int| 0 <= k < i && timeline_usable(#[trigger] all[k]);
                assert(0 <= k < i + 1 && timeline_usable(all[k]));
            }
        }
    }
    proof {
        assert(all.take(all.len() as int) =~= all);
    }
    timelines
}


/// A whole document as read: the bin, the timelines array, the flat
/// `tracks`/`clips` of documents from before multiple timelines, the
/// active timeline's id and the user's fonts.
pub struct DocumentEntry<N> {
    pub media: Vec<MediaEntry<N>>,
    pub timelines: Vec<TimelineEntry<N>>,
    pub tracks: Vec<TrackEntry>,
    pub clips: Vec<ClipEntry<N>>,
    pub active_timeline_id: Option<String>,
    pub fonts: Vec<FontEntry>,
}

/// Whether any entry of the timelines array can load.
pub open spec fn any_usable_timeline<N>(entries: Seq<TimelineEntry<N>>) -> bool {
    exists|k: int| 0 <= k < entries.len() && timeline_usable(#[trigger] entries[k])
}

/// The one timeline a flat document loads as: "TL1", "Timeline 1", with
/// the document's lanes and the clips that can live on them.
pub open spec fn legacy_read<N>(
    document: DocumentEntry<N>,
    media: Seq<MediaItem<N>>,
    default: TextStyle<N>,
    timeline: Timeline<N>,
) -> bool {
    &&& timeline.id@ == "TL1"@
    &&& timeline.name@ == "Timeline 1"@
    &&& read_as(
        document.tracks@,
        timeline.tracks@,
        |e: TrackEntry| track_kept(e),
        |e: TrackEntry, t: Track| track_read(e, t),
    )
    &&& read_as(
        document.clips@,
        timeline.clips@,
        |e: ClipEntry<N>| clip_kept(e, timeline.tracks@, media),
        |e: ClipEntry<N>, c: Clip<N>| clip_read(e, default, c),
    )
    &&& timeline.effects@.len() == 0
}

/// The active timeline: the one the document names when it names one that
/// loaded, else the first.
pub open spec fn chosen_active<N>(requested: Option<String>, timelines: Seq<Timeline<N>>) -> Seq<char> {
    match requested {
        Some(id) => if first_match(timelines, has_timeline_id(id@)) is Some {
            id@
        } else {
            timelines[0].id@
        },
        None => timelines[0].id@,
    }
}

/// What reading a document gives, titles that describe no style taking
/// `default`. `None` exactly when there is nothing to load: no usable
/// timeline entry, and no lane in the flat fields either. Otherwise the bin
/// and the fonts as read; the timelines array when any of it loads, else
/// the flat fields as the one timeline they always were; and the active
/// timeline as chosen.
pub open spec fn document_read<N>(
    document: DocumentEntry<N>,
    default: TextStyle<N>,
    project: Option<Project<N>>,
) -> bool {
    match project {
        None => !any_usable_timeline(document.timelines@) && !has_usable_track(document.tracks@),
        Some(project) => {
            &&& read_as(
                document.media@,
                project.media@,
                |e: MediaEntry<N>| media_kept(e),
                |e: MediaEntry<N>, m: MediaItem<N>| media_read(e, m),
            )
            &&& read_as(
                document.fonts@,
                project.fonts@,
                |e: FontEntry| font_kept(e),
                |e: FontEntry, f: CustomFont| font_read(e, f),
            )
            &&& if any_usable_timeline(document.timelines@) {
                timelines_read(
                    document.timelines@,
                    project.media@,
                    default,
                    project.timelines@,
                )
            } else {
                &&& has_usable_track(document.tracks@)
                &&& project.timelines@.len() == 1
                &&& legacy_read(document, project.media@, default, project.timelines@[0])
            }
            &&& project.active_timeline_id@ == chosen_active(
                document.active_timeline_id,
                project.timelines@,
            )
        },
    }
}

/// Rebuilds a project from a document, a title that describes no style
/// taking `title_style`; `None` only when there is nothing recognisable to
/// load at all. See `document_read`.
pub fn read_document<N: Copy>(document: DocumentEntry<N>, title_style: &TextStyle<N>) -> (project:
    Option<Project<N>>)
    ensures
        document_read(document, *title_style, project),
{
    let ghost given = document;
    let DocumentEntry { media, timelines, tracks, clips, active_timeline_id, fonts } = document;
    let media = read_media(media);
    let mut timelines = read_timelines(timelines, &media, title_style);
    if timelines.len() == 0 {
        let tracks = read_tracks(tracks);
        proof {
            lemma_read_as_empty(
                given.tracks@,
                tracks@,
                |e: TrackEntry| track_kept(e),
                |e: TrackEntry, t: Track| track_read(e, t),
            );
        }
        if tracks.len() == 0 {
            return None;
        }
        let clips = read_clips(clips, &tracks, &media, title_style);
        timelines.push(
            Timeline {
                id: String::from_str("TL1"),
                name: String::from_str("Timeline 1"),
                tracks,
                clips,
                effects: Vec::new(),
            },
        );
    } else {
        proof {
            let k = choose|k: int|
                0 <= k < given.timelines@.len() && timeline_usable(
                    #[trigger] given.timelines@[k],
                );
        }
    }
    let active_timeline_id = match active_timeline_id {
        Some(id) => if find_timeline(&timelines, id.as_str()).is_some() {
            id
        } else {
            timelines[0].id.clone()
        },
        None => timelines[0].id.clone(),
    };
    let fonts = read_fonts(fonts);
    Some(Project { media, fonts, timelines, active_timeline_id })
}


/// Whether `item` was read from some kept entry of `entries`.
pub open spec fn read_from<E, T>(
    entries: Seq<E>,
    item: T,
    keeps: spec_fn(E) -> bool,
    reads: spec_fn(E, T) -> bool,
) -> bool {
    exists|i: int| 0 <= i < entries.len() && keeps(entries[i]) && reads(entries[i], item)
}

/// Every item read came from a kept entry it reads as.
pub proof fn lemma_read_as_source<E, T>(
    entries: Seq<E>,
    out: Seq<T>,
    keeps: spec_fn(E) -> bool,
    reads: spec_fn(E, T) -> bool,
)
    requires
        read_as(entries, out, keeps, reads),
    ensures
        forall|j: int| 0 <= j < out.len() ==> read_from(entries, #[trigger] out[j], keeps, reads),
    decreases entries.len(),
{
    if entries.len() > 0 {
        let rest = entries.drop_last();
        let last = entries.len() - 1;
        if keeps(entries.last()) {
            let prior = out.drop_last();
            lemma_read_as_source(rest, prior, keeps, reads);
            assert forall|j: int| 0 <= j < out.len() implies read_from(entries, #[trigger] out[j], keeps, reads) by {
                if j < prior.len() {
                    assert(out[j] == prior[j]);
                    assert(read_from(rest, prior[j], keeps, reads));
                    let i = choose|i: int| 0 <= i < rest.len() && keeps(rest[i]) && reads(rest[i], prior[j]);
                    assert(rest[i] == entries[i]);
                } else {
                    assert(out[j] == out.last());
                    assert(entries[last] == entries.last());
                    assert(keeps(entries[last]) && reads(entries[last], out[j]));
                }
            }
        } else {
            lemma_read_as_source(rest, out, keeps, reads);
            assert forall|j: int| 0 <= j < out.len() implies read_from(entries, #[trigger] out[j], keeps, reads) by {
                assert(read_from(rest, out[j], keeps, reads));
                let i = choose|i: int| 0 <= i < rest.len() && keeps(rest[i]) && reads(rest[i], out[j]);
                assert(rest[i] == entries[i]);
            }
        }
    }
}

/// Where anything matches, there is a first match.
pub proof fn lemma_some_match<A>(items: Seq<A>, matches: spec_fn(A) -> bool, index: int)
    requires
        0 <= index < items.len(),
        matches(items[index]),
    ensures
        first_match(items, matches) is Some,
    decreases index,
{
    if exists|k: int| 0 <= k < index && matches(#[trigger] items[k]) {
        let k = choose|k: int| 0 <= k < index && matches(#[trigger] items[k]);
        lemma_some_match(items, matches, k);
    } else {
        assert(is_first_match(items, matches, index));
    }
}

/// Whether a timeline can be worked on: it has a lane, every clip lives on
/// one of its lanes, and every clip but a title shows an item of `media`.
pub open spec fn timeline_consistent<N>(timeline: Timeline<N>, media: Seq<MediaItem<N>>) -> bool {
    &&& timeline.tracks@.len() > 0
    &&& forall|c: int|
        0 <= c < timeline.clips@.len() ==> first_match(
            timeline.tracks@,
            has_track_id(#[trigger] timeline.clips@[c].track_id@),
        ) is Some
    &&& forall|c: int|
        0 <= c < timeline.clips@.len() && #[trigger] timeline.clips@[c].kind != ClipKind::Text
            ==> first_match(media, has_media_id(timeline.clips@[c].media_id@)) is Some
    &&& forall|c: int|
        0 <= c < timeline.clips@.len() ==> (#[trigger] timeline.clips@[c].kind == ClipKind::Text
            <==> timeline.clips@[c].text is Some)
}

proof fn lemma_clips_live<N>(
    entries: Seq<ClipEntry<N>>,
    tracks: Seq<Track>,
    media: Seq<MediaItem<N>>,
    default: TextStyle<N>,
    clips: Seq<Clip<N>>,
)
    requires
        read_as(
            entries,
            clips,
            |e: ClipEntry<N>| clip_kept(e, tracks, media),
            |e: ClipEntry<N>, c: Clip<N>| clip_read(e, default, c),
        ),
    ensures
        forall|c: int|
            0 <= c < clips.len() ==> first_match(tracks, has_track_id(#[trigger] clips[c].track_id@))
                is Some,
        forall|c: int|
            0 <= c < clips.len() && #[trigger] clips[c].kind != ClipKind::Text ==> first_match(
                media,
                has_media_id(clips[c].media_id@),
            ) is Some,
        forall|c: int|
            0 <= c < clips.len() ==> (#[trigger] clips[c].kind == ClipKind::Text <==> clips[c].text is Some),
{
    let keeps = |e: ClipEntry<N>| clip_kept(e, tracks, media);
    let reads = |e: ClipEntry<N>, c: Clip<N>| clip_read(e, default, c);
    lemma_read_as_source(entries, clips, keeps, reads);
    assert forall|c: int| 0 <= c < clips.len() implies {
        &&& first_match(tracks, has_track_id(#[trigger] clips[c].track_id@)) is Some
        &&& (clips[c].kind != ClipKind::Text ==> first_match(media, has_media_id(clips[c].media_id@)) is Some)
        &&& (clips[c].kind == ClipKind::Text <==> clips[c].text is Some)
    } by {
        assert(read_from(entries, clips[c], keeps, reads));
        let i = choose|i: int| 0 <= i < entries.len() && keeps(entries[i]) && reads(entries[i], clips[c]);
        let entry = entries[i];
        assert(clip_kept(entry, tracks, media));
        assert(clip_read(entry, default, clips[c]));
        assert(has_track_id(clips[c].track_id@) == has_track_id(entry.track_id->0@));
        if clips[c].kind != ClipKind::Text {
            assert(!spells(entry.kind, "text"@));
            assert(has_media_id::<N>(clips[c].media_id@) == has_media_id::<N>(entry.media_id->0@));
        }
    }
}

proof fn lemma_timelines_consistent<N>(
    entries: Seq<TimelineEntry<N>>,
    media: Seq<MediaItem<N>>,
    default: TextStyle<N>,
    out: Seq<Timeline<N>>,
)
    requires
        timelines_read(entries, media, default, out),
    ensures
        forall|t: int| 0 <= t < out.len() ==> timeline_consistent(#[trigger] out[t], media),
        forall|a: int, b: int| 0 <= a < b < out.len() ==> #[trigger] out[a].id@ != #[trigger] out[b].id@,
    decreases entries.len(),
{
    if entries.len() > 0 {
        let entry = entries.last();
        if out.len() > 0 && timeline_fresh(entry, out.drop_last()) && timeline_read(
            entry,
            media,
            default,
            out.last(),
        ) && timelines_read(entries.drop_last(), media, default, out.drop_last()) {
            let prior = out.drop_last();
            let last = out.last();
            lemma_timelines_consistent(entries.drop_last(), media, default, prior);
            lemma_read_as_empty(
                entry.tracks@,
                last.tracks@,
                |e: TrackEntry| track_kept(e),
                |e: TrackEntry, t: Track| track_read(e, t),
            );
            lemma_clips_live(entry.clips@, last.tracks@, media, default, last.clips@);
            assert(timeline_consistent(last, media));
            assert forall|t: int| 0 <= t < out.len() implies timeline_consistent(#[trigger] out[t], media) by {
                if t < prior.len() {
                    assert(out[t] == prior[t]);
                }
            }
            assert forall|a: int, b: int| 0 <= a < b < out.len() implies #[trigger] out[a].id@
                != #[trigger] out[b].id@ by {
                assert(out[a] == prior[a]);
                if b < prior.len() {
                    assert(out[b] == prior[b]);
                } else if out[a].id@ == out[b].id@ {
                    assert(has_timeline_id::<N>(entry.id->0@)(prior[a]));
                    lemma_some_match(prior, has_timeline_id::<N>(entry.id->0@), a);
                }
            }
        } else {
            lemma_timelines_consistent(entries.drop_last(), media, default, out);
        }
    }
}

/// A document that loads always loads as something that can be worked on:
/// at least one timeline, no two sharing an id, the active id naming one of
/// them; every timeline with a lane, every clip on a lane of its timeline,
/// every clip but a title showing an item in the bin, and exactly the
/// titles carrying a text style.
pub proof fn lemma_loaded_project_is_openable<N>(
    document: DocumentEntry<N>,
    default: TextStyle<N>,
    project: Project<N>,
)
    requires
        document_read(document, default, Some(project)),
    ensures
        project.timelines@.len() > 0,
        forall|a: int, b: int|
            0 <= a < b < project.timelines@.len() ==> #[trigger] project.timelines@[a].id@
                != #[trigger] project.timelines@[b].id@,
        first_match(project.timelines@, has_timeline_id(project.active_timeline_id@)) is Some,
        forall|t: int|
            0 <= t < project.timelines@.len() ==> timeline_consistent(
                #[trigger] project.timelines@[t],
                project.media@,
            ),
{
    let timelines = project.timelines@;
    if any_usable_timeline(document.timelines@) {
        lemma_timelines_consistent(
            document.timelines@,
            project.media@,
            default,
            timelines,
        );
        let k = choose|k: int|
            0 <= k < document.timelines@.len() && timeline_usable(#[trigger] document.timelines@[k]);
        if timelines.len() == 0 {
            lemma_timelines_empty(
                document.timelines@,
                project.media@,
                default,
                timelines,
                k,
            );
        }
    } else {
        let only = timelines[0];
        lemma_read_as_empty(
            document.tracks@,
            only.tracks@,
            |e: TrackEntry| track_kept(e),
            |e: TrackEntry, t: Track| track_read(e, t),
        );
        lemma_clips_live(
            document.clips@,
            only.tracks@,
            project.media@,
            default,
            only.clips@,
        );
        assert(timeline_consistent(only, project.media@));
    }
    match document.active_timeline_id {
        Some(id) => if first_match(timelines, has_timeline_id(id@)) is None {
            lemma_some_match(timelines, has_timeline_id::<N>(timelines[0].id@), 0);
        },
        None => {
            lemma_some_match(timelines, has_timeline_id::<N>(timelines[0].id@), 0);
        },
    }
}

proof fn lemma_timelines_empty<N>(
    entries: Seq<TimelineEntry<N>>,
    media: Seq<MediaItem<N>>,
    default: TextStyle<N>,
    out: Seq<Timeline<N>>,
    k: int,
)
    requires
        timelines_read(entries, media, default, out),
        0 <= k < entries.len(),
        timeline_usable(entries[k]),
    ensures
        out.len() > 0,
    decreases entries.len(),
{
    let entry = entries.last();
    if out.len() == 0 {
        if k == entries.len() - 1 {
            assert(entries[k] == entry);
            assert(first_match(out, has_timeline_id::<N>(entry.id->0@)) is None);
        } else {
            assert(entries.drop_last()[k] == entries[k]);
            lemma_timelines_empty(entries.drop_last(), media, default, out, k);
        }
    }
}

/// Reading a clip entry keeps its identity and each of its measurements in
/// the field of the same name: the clip starts, lasts, plays from, fades in
/// and out over, is placed and mixed exactly as its entry says.
pub proof fn lemma_read_clip_keeps_its_measurements<N>(
    entry: ClipEntry<N>,
    default: TextStyle<N>,
    clip: Clip<N>,
)
    requires
        clip_read(entry, default, clip),
    ensures
        clip.start == entry.start,
        clip.duration == entry.duration,
        clip.source_start == entry.source_start,
        clip.volume == entry.volume,
        clip.fade_in == entry.fade_in,
        clip.fade_out == entry.fade_out,
        clip.scale == entry.scale,
        clip.offset_x == entry.offset_x,
        clip.offset_y == entry.offset_y,
        clip.rotation == entry.rotation,
        clip.opacity == entry.opacity,
        clip.speed == entry.speed,
{
}

} // verus!
