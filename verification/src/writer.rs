//! Writing `wolfcut.json`, and what a read gives back of a write.
//!
//! The writer puts every field of the project down, plus the flat
//! `tracks`/`clips` mirror of the active timeline that keeps documents
//! openable in builds that predate multiple timelines. The host turns the
//! entries into JSON field for field.
//!
//! Reading what was written gives the project back, field for field,
//! whenever the project is one the reader could have produced: the law at
//! the end of this module.

use vstd::prelude::*;

use crate::document::{
    any_usable_timeline, chosen_active, clip_kept, copy_style, clip_read, document_read, filter_kept,
    filter_read, font_kept, font_read, has_usable_track, lemma_loaded_project_is_openable,
    lemma_read_as_source, lemma_some_match, media_kept, media_read, read_from,
    named_clip_kind, named_media_kind, param_kept, param_read, read_as, spells, timeline_consistent,
    timeline_fresh, timeline_read, timeline_usable, timelines_read, track_kept, track_read,
    ClipEntry, DocumentEntry, FilterEntry, FontEntry, MediaEntry, TimelineEntry, TrackEntry,
    TransitionEntry,
};
use crate::model::{ClipKind, CustomFont, MediaKind, Track};
use crate::project::{
    first_match, has_media_id, has_timeline_id, has_track_id, lemma_no_match, timeline_or_first,
    AppliedFilter, Clip, MediaItem, Project, TextStyle, Timeline, TimelineEffect,
};

verus! {

/// Whether a text field was written as `text`.
pub open spec fn wrote(field: Option<String>, text: Seq<char>) -> bool {
    field matches Some(written) && written@ == text
}

/// How the document spells a media kind.
pub open spec fn media_kind_word(kind: MediaKind) -> Seq<char> {
    match kind {
        MediaKind::Video => "video"@,
        MediaKind::Audio => "audio"@,
        MediaKind::Image => "image"@,
    }
}

/// How the document spells a clip kind.
pub open spec fn clip_kind_word(kind: ClipKind) -> Seq<char> {
    match kind {
        ClipKind::Video => "video"@,
        ClipKind::Audio => "audio"@,
        ClipKind::Image => "image"@,
        ClipKind::Text => "text"@,
    }
}

/// A lane, written.
pub open spec fn track_written(track: Track, entry: TrackEntry) -> bool {
    &&& wrote(entry.id, track.id@)
    &&& wrote(entry.name, track.name@)
    &&& entry.visible == Some(track.visible)
    &&& entry.muted == Some(track.muted)
}

/// A piece of media, written.
pub open spec fn media_written<N>(item: MediaItem<N>, entry: MediaEntry<N>) -> bool {
    &&& wrote(entry.id, item.id@)
    &&& wrote(entry.path, item.path@)
    &&& wrote(entry.name, item.name@)
    &&& entry.duration == item.duration
    &&& wrote(entry.kind, media_kind_word(item.kind))
    &&& entry.width == (match item.width {
        Some(width) => Some(width as u64),
        None => None,
    })
    &&& entry.height == (match item.height {
        Some(height) => Some(height as u64),
        None => None,
    })
    &&& entry.frame_rate == item.frame_rate
    &&& entry.frame_rate_fraction == item.frame_rate_fraction
    &&& entry.video_codec == item.video_codec
    &&& entry.audio_codec == item.audio_codec
    &&& entry.has_audio == Some(item.has_audio)
    &&& entry.placeholder == Some(item.placeholder)
}

/// A filter, written: every parameter as a number.
pub open spec fn filter_written<N>(filter: AppliedFilter<N>, entry: FilterEntry<N>) -> bool {
    &&& wrote(entry.id, filter.id@)
    &&& entry.params@.len() == filter.params@.len()
    &&& forall|i: int|
        0 <= i < entry.params@.len() ==> (#[trigger] entry.params@[i]).0@ == filter.params@[i].0@
            && entry.params@[i].1 == Some(filter.params@[i].1)
    &&& entry.enabled == Some(filter.enabled)
}

/// A list of filters, written in order.
pub open spec fn filters_written<N>(filters: Seq<AppliedFilter<N>>, entries: Seq<FilterEntry<N>>) -> bool {
    &&& entries.len() == filters.len()
    &&& forall|i: int| 0 <= i < entries.len() ==> filter_written(filters[i], #[trigger] entries[i])
}

/// A clip, written.
pub open spec fn clip_written<N>(clip: Clip<N>, entry: ClipEntry<N>) -> bool {
    &&& wrote(entry.id, clip.id@)
    &&& wrote(entry.track_id, clip.track_id@)
    &&& wrote(entry.media_id, clip.media_id@)
    &&& wrote(entry.kind, clip_kind_word(clip.kind))
    &&& wrote(entry.name, clip.name@)
    &&& entry.start == clip.start
    &&& entry.duration == clip.duration
    &&& entry.source_start == clip.source_start
    &&& entry.volume == clip.volume
    &&& entry.fade_in == clip.fade_in
    &&& entry.fade_out == clip.fade_out
    &&& entry.scale == clip.scale
    &&& entry.offset_x == clip.offset_x
    &&& entry.offset_y == clip.offset_y
    &&& entry.rotation == clip.rotation
    &&& entry.opacity == clip.opacity
    &&& entry.speed == clip.speed
    &&& entry.blend_mode == Some(clip.blend_mode)
    &&& entry.preserve_pitch == Some(clip.preserve_pitch)
    &&& filters_written(clip.filters@, entry.filters@)
    &&& filters_written(clip.video_effects@, entry.video_effects@)
    &&& entry.muted == clip.muted
    &&& entry.detached_from == clip.detached_from
    &&& entry.transition_in == (match clip.transition_in {
        Some(transition) => Some(
            TransitionEntry { id: Some(transition.id), duration: transition.duration },
        ),
        None => None,
    })
    &&& entry.text == clip.text
}

/// Lanes, written in order.
pub open spec fn tracks_written(tracks: Seq<Track>, entries: Seq<TrackEntry>) -> bool {
    &&& entries.len() == tracks.len()
    &&& forall|i: int| 0 <= i < entries.len() ==> track_written(tracks[i], #[trigger] entries[i])
}

/// Clips, written in order.
pub open spec fn clips_written<N>(clips: Seq<Clip<N>>, entries: Seq<ClipEntry<N>>) -> bool {
    &&& entries.len() == clips.len()
    &&& forall|i: int| 0 <= i < entries.len() ==> clip_written(clips[i], #[trigger] entries[i])
}

/// An effect, carried along as it is.
pub open spec fn effect_carried<N>(effect: TimelineEffect<N>, carried: TimelineEffect<N>) -> bool {
    &&& carried.id@ == effect.id@
    &&& carried.effect_id@ == effect.effect_id@
    &&& carried.params@.len() == effect.params@.len()
    &&& forall|i: int|
        0 <= i < carried.params@.len() ==> (#[trigger] carried.params@[i]).0@ == effect.params@[i].0@
            && carried.params@[i].1 == effect.params@[i].1
    &&& carried.start == effect.start
    &&& carried.duration == effect.duration
    &&& carried.ease_in == effect.ease_in
    &&& carried.ease_out == effect.ease_out
    &&& carried.enabled == effect.enabled
}

/// A timeline, written, its effects carried along.
pub open spec fn timeline_written<N>(timeline: Timeline<N>, entry: TimelineEntry<N>) -> bool {
    &&& wrote(entry.id, timeline.id@)
    &&& wrote(entry.name, timeline.name@)
    &&& tracks_written(timeline.tracks@, entry.tracks@)
    &&& clips_written(timeline.clips@, entry.clips@)
    &&& entry.effects@.len() == timeline.effects@.len()
    &&& forall|i: int|
        0 <= i < entry.effects@.len() ==> effect_carried(timeline.effects@[i], #[trigger] entry.effects@[i])
}

/// A font, written.
pub open spec fn font_written(font: CustomFont, entry: FontEntry) -> bool {
    wrote(entry.family, font.family@) && wrote(entry.path, font.path@)
}

/// A whole project, written: the bin, the fonts, every timeline, the
/// active timeline's lanes and clips again as the flat fields, and the
/// active timeline's id.
pub open spec fn document_written<N>(project: Project<N>, document: DocumentEntry<N>) -> bool {
    let active = project.timelines@[timeline_or_first(
        project.timelines@,
        project.active_timeline_id@,
    )];
    &&& document.media@.len() == project.media@.len()
    &&& forall|i: int|
        0 <= i < document.media@.len() ==> media_written(
            project.media@[i],
            #[trigger] document.media@[i],
        )
    &&& document.timelines@.len() == project.timelines@.len()
    &&& forall|i: int|
        0 <= i < document.timelines@.len() ==> timeline_written(
            project.timelines@[i],
            #[trigger] document.timelines@[i],
        )
    &&& tracks_written(active.tracks@, document.tracks@)
    &&& clips_written(active.clips@, document.clips@)
    &&& wrote(document.active_timeline_id, project.active_timeline_id@)
    &&& document.fonts@.len() == project.fonts@.len()
    &&& forall|i: int|
        0 <= i < document.fonts@.len() ==> font_written(
            project.fonts@[i],
            #[trigger] document.fonts@[i],
        )
}

fn copy_text(field: &Option<String>) -> (copy: Option<String>)
    ensures
        copy == *field,
{
    match field {
        Some(text) => Some(text.clone()),
        None => None,
    }
}

fn word(literal: &str) -> (text: Option<String>)
    ensures
        text matches Some(written) && written@ == literal@,
{
    Some(String::from_str(literal))
}

fn write_track(track: &Track) -> (entry: TrackEntry)
    ensures
        track_written(*track, entry),
{
    TrackEntry {
        id: Some(track.id.clone()),
        name: Some(track.name.clone()),
        visible: Some(track.visible),
        muted: Some(track.muted),
    }
}

fn write_tracks(tracks: &Vec<Track>) -> (entries: Vec<TrackEntry>)
    ensures
        tracks_written(tracks@, entries@),
{
    let mut entries: Vec<TrackEntry> = Vec::new();
    let mut i: usize = 0;
    while i < tracks.len()
        invariant
            i <= tracks@.len(),
            entries@.len() == i,
            forall|j: int| 0 <= j < i ==> track_written(tracks@[j], #[trigger] entries@[j]),
        decreases tracks@.len() - i,
    {
        entries.push(write_track(&tracks[i]));
        i += 1;
    }
    entries
}

fn write_media_item<N: Copy>(item: &MediaItem<N>) -> (entry: MediaEntry<N>)
    ensures
        media_written(*item, entry),
{
    MediaEntry {
        id: Some(item.id.clone()),
        path: Some(item.path.clone()),
        name: Some(item.name.clone()),
        duration: item.duration,
        kind: match item.kind {
            MediaKind::Video => word("video"),
            MediaKind::Audio => word("audio"),
            MediaKind::Image => word("image"),
        },
        width: match item.width {
            Some(width) => Some(width as u64),
            None => None,
        },
        height: match item.height {
            Some(height) => Some(height as u64),
            None => None,
        },
        frame_rate: item.frame_rate,
        frame_rate_fraction: copy_text(&item.frame_rate_fraction),
        video_codec: copy_text(&item.video_codec),
        audio_codec: copy_text(&item.audio_codec),
        has_audio: Some(item.has_audio),
        placeholder: Some(item.placeholder),
    }
}

fn write_filter<N: Copy>(filter: &AppliedFilter<N>) -> (entry: FilterEntry<N>)
    ensures
        filter_written(*filter, entry),
{
    let mut params: Vec<(String, Option<N>)> = Vec::new();
    let mut i: usize = 0;
    while i < filter.params.len()
        invariant
            i <= filter.params@.len(),
            params@.len() == i,
            forall|j: int|
                0 <= j < i ==> (#[trigger] params@[j]).0@ == filter.params@[j].0@ && params@[j].1
                    == Some(filter.params@[j].1),
        decreases filter.params@.len() - i,
    {
        let (name, value) = &filter.params[i];
        params.push((name.clone(), Some(*value)));
        i += 1;
    }
    FilterEntry { id: Some(filter.id.clone()), params, enabled: Some(filter.enabled) }
}

fn write_filters<N: Copy>(filters: &Vec<AppliedFilter<N>>) -> (entries: Vec<FilterEntry<N>>)
    ensures
        filters_written(filters@, entries@),
{
    let mut entries: Vec<FilterEntry<N>> = Vec::new();
    let mut i: usize = 0;
    while i < filters.len()
        invariant
            i <= filters@.len(),
            entries@.len() == i,
            forall|j: int| 0 <= j < i ==> filter_written(filters@[j], #[trigger] entries@[j]),
        decreases filters@.len() - i,
    {
        entries.push(write_filter(&filters[i]));
        i += 1;
    }
    entries
}

fn write_clip<N: Copy>(clip: &Clip<N>) -> (entry: ClipEntry<N>)
    ensures
        clip_written(*clip, entry),
{
    ClipEntry {
        id: Some(clip.id.clone()),
        track_id: Some(clip.track_id.clone()),
        media_id: Some(clip.media_id.clone()),
        kind: match clip.kind {
            ClipKind::Video => word("video"),
            ClipKind::Audio => word("audio"),
            ClipKind::Image => word("image"),
            ClipKind::Text => word("text"),
        },
        name: Some(clip.name.clone()),
        start: clip.start,
        duration: clip.duration,
        source_start: clip.source_start,
        volume: clip.volume,
        fade_in: clip.fade_in,
        fade_out: clip.fade_out,
        scale: clip.scale,
        offset_x: clip.offset_x,
        offset_y: clip.offset_y,
        rotation: clip.rotation,
        opacity: clip.opacity,
        speed: clip.speed,
        blend_mode: Some(clip.blend_mode),
        preserve_pitch: Some(clip.preserve_pitch),
        filters: write_filters(&clip.filters),
        video_effects: write_filters(&clip.video_effects),
        muted: clip.muted,
        detached_from: copy_text(&clip.detached_from),
        transition_in: match &clip.transition_in {
            Some(transition) => Some(
                TransitionEntry { id: Some(transition.id.clone()), duration: transition.duration },
            ),
            None => None,
        },
        text: match &clip.text {
            Some(style) => Some(copy_style(style)),
            None => None,
        },
    }
}

fn write_clips<N: Copy>(clips: &Vec<Clip<N>>) -> (entries: Vec<ClipEntry<N>>)
    ensures
        clips_written(clips@, entries@),
{
    let mut entries: Vec<ClipEntry<N>> = Vec::new();
    let mut i: usize = 0;
    while i < clips.len()
        invariant
            i <= clips@.len(),
            entries@.len() == i,
            forall|j: int| 0 <= j < i ==> clip_written(clips@[j], #[trigger] entries@[j]),
        decreases clips@.len() - i,
    {
        entries.push(write_clip(&clips[i]));
        i += 1;
    }
    entries
}

fn copy_effect<N: Copy>(effect: &TimelineEffect<N>) -> (copy: TimelineEffect<N>)
    ensures
        effect_carried(*effect, copy),
{
    let mut params: Vec<(String, N)> = Vec::new();
    let mut i: usize = 0;
    while i < effect.params.len()
        invariant
            i <= effect.params@.len(),
            params@.len() == i,
            forall|j: int|
                0 <= j < i ==> (#[trigger] params@[j]).0@ == effect.params@[j].0@ && params@[j].1
                    == effect.params@[j].1,
        decreases effect.params@.len() - i,
    {
        let (name, value) = &effect.params[i];
        params.push((name.clone(), *value));
        i += 1;
    }
    TimelineEffect {
        id: effect.id.clone(),
        effect_id: effect.effect_id.clone(),
        params,
        start: effect.start,
        duration: effect.duration,
        ease_in: effect.ease_in,
        ease_out: effect.ease_out,
        enabled: effect.enabled,
    }
}

fn write_timeline<N: Copy>(timeline: &Timeline<N>) -> (entry: TimelineEntry<N>)
    ensures
        timeline_written(*timeline, entry),
{
    let mut effects: Vec<TimelineEffect<N>> = Vec::new();
    let mut i: usize = 0;
    while i < timeline.effects.len()
        invariant
            i <= timeline.effects@.len(),
            effects@.len() == i,
            forall|j: int| 0 <= j < i ==> effect_carried(timeline.effects@[j], #[trigger] effects@[j]),
        decreases timeline.effects@.len() - i,
    {
        effects.push(copy_effect(&timeline.effects[i]));
        i += 1;
    }
    TimelineEntry {
        id: Some(timeline.id.clone()),
        name: Some(timeline.name.clone()),
        tracks: write_tracks(&timeline.tracks),
        clips: write_clips(&timeline.clips),
        effects,
    }
}

/// Writes a project as a document: every field of every entry, the active
/// timeline's lanes and clips again as the flat fields, and the active
/// timeline's id. See `document_written`.
pub fn write_document<N: Copy>(project: &Project<N>) -> (document: DocumentEntry<N>)
    requires
        project.timelines@.len() > 0,
    ensures
        document_written(*project, document),
{
    let mut media: Vec<MediaEntry<N>> = Vec::new();
    let mut i: usize = 0;
    while i < project.media.len()
        invariant
            i <= project.media@.len(),
            media@.len() == i,
            forall|j: int| 0 <= j < i ==> media_written(project.media@[j], #[trigger] media@[j]),
        decreases project.media@.len() - i,
    {
        media.push(write_media_item(&project.media[i]));
        i += 1;
    }
    let mut timelines: Vec<TimelineEntry<N>> = Vec::new();
    let mut i: usize = 0;
    while i < project.timelines.len()
        invariant
            i <= project.timelines@.len(),
            timelines@.len() == i,
            forall|j: int|
                0 <= j < i ==> timeline_written(project.timelines@[j], #[trigger] timelines@[j]),
        decreases project.timelines@.len() - i,
    {
        timelines.push(write_timeline(&project.timelines[i]));
        i += 1;
    }
    let mut fonts: Vec<FontEntry> = Vec::new();
    let mut i: usize = 0;
    while i < project.fonts.len()
        invariant
            i <= project.fonts@.len(),
            fonts@.len() == i,
            forall|j: int| 0 <= j < i ==> font_written(project.fonts@[j], #[trigger] fonts@[j]),
        decreases project.fonts@.len() - i,
    {
        let font = &project.fonts[i];
        fonts.push(FontEntry { family: Some(font.family.clone()), path: Some(font.path.clone()) });
        i += 1;
    }
    let active = project.active();
    DocumentEntry {
        media,
        timelines,
        tracks: write_tracks(&active.tracks),
        clips: write_clips(&active.clips),
        active_timeline_id: Some(project.active_timeline_id.clone()),
        fonts,
    }
}

/// Two lanes that are the same, field for field.
pub open spec fn same_track(a: Track, b: Track) -> bool {
    a.id@ == b.id@ && a.name@ == b.name@ && a.visible == b.visible && a.muted == b.muted
}

/// Two bin entries that are the same, field for field.
pub open spec fn same_media_item<N>(a: MediaItem<N>, b: MediaItem<N>) -> bool {
    &&& a.id@ == b.id@
    &&& a.path@ == b.path@
    &&& a.name@ == b.name@
    &&& a.duration == b.duration
    &&& a.kind == b.kind
    &&& a.width == b.width
    &&& a.height == b.height
    &&& a.frame_rate == b.frame_rate
    &&& a.frame_rate_fraction == b.frame_rate_fraction
    &&& a.video_codec == b.video_codec
    &&& a.audio_codec == b.audio_codec
    &&& a.has_audio == b.has_audio
    &&& a.placeholder == b.placeholder
}

/// Two filters that are the same, parameter for parameter.
pub open spec fn same_filter<N>(a: AppliedFilter<N>, b: AppliedFilter<N>) -> bool {
    &&& a.id@ == b.id@
    &&& a.params@.len() == b.params@.len()
    &&& forall|i: int|
        0 <= i < a.params@.len() ==> (#[trigger] a.params@[i]).0@ == b.params@[i].0@ && a.params@[i].1
            == b.params@[i].1
    &&& a.enabled == b.enabled
}

/// Two filter lists that are the same, in order.
pub open spec fn same_filters<N>(a: Seq<AppliedFilter<N>>, b: Seq<AppliedFilter<N>>) -> bool {
    a.len() == b.len() && forall|i: int| 0 <= i < a.len() ==> same_filter(#[trigger] a[i], b[i])
}

/// Two clips that are the same, field for field.
pub open spec fn same_clip<N>(a: Clip<N>, b: Clip<N>) -> bool {
    &&& a.id@ == b.id@
    &&& a.track_id@ == b.track_id@
    &&& a.media_id@ == b.media_id@
    &&& a.name@ == b.name@
    &&& a.kind == b.kind
    &&& a.start == b.start
    &&& a.duration == b.duration
    &&& a.source_start == b.source_start
    &&& a.volume == b.volume
    &&& a.fade_in == b.fade_in
    &&& a.fade_out == b.fade_out
    &&& a.scale == b.scale
    &&& a.offset_x == b.offset_x
    &&& a.offset_y == b.offset_y
    &&& a.rotation == b.rotation
    &&& a.opacity == b.opacity
    &&& a.blend_mode == b.blend_mode
    &&& a.speed == b.speed
    &&& a.preserve_pitch == b.preserve_pitch
    &&& same_filters(a.filters@, b.filters@)
    &&& same_filters(a.video_effects@, b.video_effects@)
    &&& a.muted == b.muted
    &&& a.detached_from == b.detached_from
    &&& a.transition_in == b.transition_in
    &&& a.text == b.text
}

/// Two timelines that are the same: lanes and clips in order, and as many
/// effects.
pub open spec fn same_timeline<N>(a: Timeline<N>, b: Timeline<N>) -> bool {
    &&& a.id@ == b.id@
    &&& a.name@ == b.name@
    &&& a.tracks@.len() == b.tracks@.len()
    &&& forall|i: int| 0 <= i < a.tracks@.len() ==> same_track(#[trigger] a.tracks@[i], b.tracks@[i])
    &&& a.clips@.len() == b.clips@.len()
    &&& forall|i: int| 0 <= i < a.clips@.len() ==> same_clip(#[trigger] a.clips@[i], b.clips@[i])
    &&& a.effects@.len() == b.effects@.len()
}

/// Two projects that are the same, everything in order.
pub open spec fn same_project<N>(a: Project<N>, b: Project<N>) -> bool {
    &&& a.media@.len() == b.media@.len()
    &&& forall|i: int| 0 <= i < a.media@.len() ==> same_media_item(#[trigger] a.media@[i], b.media@[i])
    &&& a.fonts@.len() == b.fonts@.len()
    &&& forall|i: int|
        0 <= i < a.fonts@.len() ==> (#[trigger] a.fonts@[i]).family@ == b.fonts@[i].family@
            && a.fonts@[i].path@ == b.fonts@[i].path@
    &&& a.timelines@.len() == b.timelines@.len()
    &&& forall|i: int|
        0 <= i < a.timelines@.len() ==> same_timeline(#[trigger] a.timelines@[i], b.timelines@[i])
    &&& a.active_timeline_id@ == b.active_timeline_id@
}

/// Whether a clip is as the reader leaves it: a title shows no media, and
/// `muted` is recorded only when it is set.
pub open spec fn clip_settled<N>(clip: Clip<N>) -> bool {
    (clip.kind == ClipKind::Text ==> clip.media_id@.len() == 0) && clip.muted != Some(false)
}

/// Whether a project is one the reader can give: at least one timeline,
/// no two sharing an id, the active id naming one; every timeline
/// consistent with the bin (see `timeline_consistent`), with no effects,
/// and every clip settled.
pub open spec fn loads_as_written<N>(project: Project<N>) -> bool {
    &&& project.timelines@.len() > 0
    &&& forall|a: int, b: int|
        0 <= a < b < project.timelines@.len() ==> #[trigger] project.timelines@[a].id@
            != #[trigger] project.timelines@[b].id@
    &&& first_match(project.timelines@, has_timeline_id(project.active_timeline_id@)) is Some
    &&& forall|t: int|
        0 <= t < project.timelines@.len() ==> {
            &&& timeline_consistent(#[trigger] project.timelines@[t], project.media@)
            &&& project.timelines@[t].effects@.len() == 0
            &&& forall|c: int|
                0 <= c < project.timelines@[t].clips@.len() ==> clip_settled(
                    #[trigger] project.timelines@[t].clips@[c],
                )
        }
}

proof fn lemma_read_all_kept<E, T>(
    entries: Seq<E>,
    out: Seq<T>,
    keeps: spec_fn(E) -> bool,
    reads: spec_fn(E, T) -> bool,
)
    requires
        read_as(entries, out, keeps, reads),
        forall|i: int| 0 <= i < entries.len() ==> keeps(#[trigger] entries[i]),
    ensures
        out.len() == entries.len(),
        forall|i: int| 0 <= i < entries.len() ==> reads(#[trigger] entries[i], out[i]),
    decreases entries.len(),
{
    if entries.len() > 0 {
        let rest = entries.drop_last();
        assert(keeps(entries[entries.len() - 1]));
        assert forall|i: int| 0 <= i < rest.len() implies keeps(#[trigger] rest[i]) by {
            assert(rest[i] == entries[i]);
        }
        lemma_read_all_kept(rest, out.drop_last(), keeps, reads);
        assert forall|i: int| 0 <= i < entries.len() implies reads(#[trigger] entries[i], out[i]) by {
            if i < rest.len() {
                assert(rest[i] == entries[i]);
                assert(out.drop_last()[i] == out[i]);
            }
        }
    }
}

proof fn lemma_words_differ()
    ensures
        "video"@ != "audio"@,
        "video"@ != "image"@,
        "video"@ != "text"@,
        "audio"@ != "image"@,
        "audio"@ != "text"@,
        "image"@ != "text"@,
{
    reveal_strlit("video");
    reveal_strlit("audio");
    reveal_strlit("image");
    reveal_strlit("text");
    assert("video"@[0] != "audio"@[0]);
    assert("video"@[0] != "image"@[0]);
    assert("video"@[0] != "text"@[0]);
    assert("audio"@[0] != "image"@[0]);
    assert("audio"@[0] != "text"@[0]);
    assert("image"@[0] != "text"@[0]);
}

proof fn lemma_tracks_read_back(tracks: Seq<Track>, entries: Seq<TrackEntry>, out: Seq<Track>)
    requires
        tracks_written(tracks, entries),
        read_as(entries, out, |e: TrackEntry| track_kept(e), |e: TrackEntry, t: Track| track_read(e, t)),
    ensures
        out.len() == tracks.len(),
        forall|i: int| 0 <= i < tracks.len() ==> same_track(#[trigger] tracks[i], out[i]),
{
    let keeps = |e: TrackEntry| track_kept(e);
    let reads = |e: TrackEntry, t: Track| track_read(e, t);
    assert forall|i: int| 0 <= i < entries.len() implies keeps(#[trigger] entries[i]) by {
        assert(track_written(tracks[i], entries[i]));
    }
    lemma_read_all_kept(entries, out, keeps, reads);
    assert forall|i: int| 0 <= i < tracks.len() implies same_track(#[trigger] tracks[i], out[i]) by {
        assert(track_written(tracks[i], entries[i]));
        assert(reads(entries[i], out[i]));
    }
}

proof fn lemma_filters_read_back<N>(filters: Seq<AppliedFilter<N>>, entries: Seq<FilterEntry<N>>, out: Seq<AppliedFilter<N>>)
    requires
        filters_written(filters, entries),
        read_as(
            entries,
            out,
            |e: FilterEntry<N>| filter_kept(e),
            |e: FilterEntry<N>, f: AppliedFilter<N>| filter_read(e, f),
        ),
    ensures
        same_filters(filters, out),
{
    let keeps = |e: FilterEntry<N>| filter_kept(e);
    let reads = |e: FilterEntry<N>, f: AppliedFilter<N>| filter_read(e, f);
    assert forall|i: int| 0 <= i < entries.len() implies keeps(#[trigger] entries[i]) by {
        assert(filter_written(filters[i], entries[i]));
    }
    lemma_read_all_kept(entries, out, keeps, reads);
    assert forall|i: int| 0 <= i < filters.len() implies same_filter(#[trigger] filters[i], out[i]) by {
        let entry = entries[i];
        assert(filter_written(filters[i], entry));
        assert(reads(entry, out[i]));
        let pkeeps = |p: (String, Option<N>)| param_kept(p);
        let preads = |p: (String, Option<N>), q: (String, N)| param_read(p, q);
        assert forall|k: int| 0 <= k < entry.params@.len() implies pkeeps(#[trigger] entry.params@[k]) by {
            assert(entry.params@[k].1 == Some(filters[i].params@[k].1));
        }
        lemma_read_all_kept(entry.params@, out[i].params@, pkeeps, preads);
        assert forall|k: int| 0 <= k < filters[i].params@.len() implies (#[trigger] filters[i].params@[k]).0@
            == out[i].params@[k].0@ && filters[i].params@[k].1 == out[i].params@[k].1 by {
            assert(preads(entry.params@[k], out[i].params@[k]));
            assert(entry.params@[k].0@ == filters[i].params@[k].0@);
        }
    }
}

proof fn lemma_clip_read_back<N>(clip: Clip<N>, entry: ClipEntry<N>, default: TextStyle<N>, out: Clip<N>)
    requires
        clip_written(clip, entry),
        clip_read(entry, default, out),
        clip_settled(clip),
        clip.kind == ClipKind::Text <==> clip.text is Some,
    ensures
        same_clip(clip, out),
{
    lemma_words_differ();
    assert(spells(entry.kind, "text"@) <==> clip.kind == ClipKind::Text);
    assert(named_clip_kind(entry.kind) == clip.kind);
    lemma_filters_read_back(clip.filters@, entry.filters@, out.filters@);
    lemma_filters_read_back(clip.video_effects@, entry.video_effects@, out.video_effects@);
    assert(out.id@ == clip.id@);
    assert(out.media_id@ == clip.media_id@);
    assert(out.name@ == clip.name@);
    assert(out.muted == clip.muted);
    assert(out.transition_in == clip.transition_in);
    assert(out.text == clip.text);
}

/// A first match names an item that matches.
proof fn lemma_first_match_holds<A>(items: Seq<A>, matches: spec_fn(A) -> bool)
    requires
        first_match(items, matches) is Some,
    ensures
        0 <= first_match(items, matches)->0 < items.len(),
        matches(items[first_match(items, matches)->0]),
{
}

proof fn lemma_clips_read_back<N>(
    clips: Seq<Clip<N>>,
    entries: Seq<ClipEntry<N>>,
    tracks: Seq<Track>,
    media: Seq<MediaItem<N>>,
    read_tracks: Seq<Track>,
    read_media: Seq<MediaItem<N>>,
    default: TextStyle<N>,
    out: Seq<Clip<N>>,
)
    requires
        clips_written(clips, entries),
        read_as(
            entries,
            out,
            |e: ClipEntry<N>| clip_kept(e, read_tracks, read_media),
            |e: ClipEntry<N>, c: Clip<N>| clip_read(e, default, c),
        ),
        read_tracks.len() == tracks.len(),
        forall|i: int| 0 <= i < tracks.len() ==> same_track(#[trigger] tracks[i], read_tracks[i]),
        read_media.len() == media.len(),
        forall|i: int| 0 <= i < media.len() ==> same_media_item(#[trigger] media[i], read_media[i]),
        forall|c: int|
            0 <= c < clips.len() ==> first_match(tracks, has_track_id(#[trigger] clips[c].track_id@))
                is Some,
        forall|c: int|
            0 <= c < clips.len() && #[trigger] clips[c].kind != ClipKind::Text ==> first_match(
                media,
                has_media_id(clips[c].media_id@),
            ) is Some,
        forall|c: int|
            0 <= c < clips.len() ==> (#[trigger] clips[c].kind == ClipKind::Text <==> clips[c].text is Some),
        forall|c: int| 0 <= c < clips.len() ==> clip_settled(#[trigger] clips[c]),
    ensures
        out.len() == clips.len(),
        forall|i: int| 0 <= i < clips.len() ==> same_clip(#[trigger] clips[i], out[i]),
{
    lemma_words_differ();
    let keeps = |e: ClipEntry<N>| clip_kept(e, read_tracks, read_media);
    let reads = |e: ClipEntry<N>, c: Clip<N>| clip_read(e, default, c);
    assert forall|i: int| 0 <= i < entries.len() implies keeps(#[trigger] entries[i]) by {
        let clip = clips[i];
        let entry = entries[i];
        assert(clip_written(clip, entry));
        let wanted_track = has_track_id(clip.track_id@);
        assert(first_match(tracks, has_track_id(clips[i].track_id@)) is Some);
        lemma_first_match_holds(tracks, wanted_track);
        let k = first_match(tracks, wanted_track)->0;
        assert(same_track(tracks[k], read_tracks[k]));
        lemma_some_match(read_tracks, has_track_id(entry.track_id->0@), k);
        if clip.kind != ClipKind::Text {
            assert(!spells(entry.kind, "text"@));
            let wanted_media = has_media_id::<N>(clip.media_id@);
            assert(first_match(media, has_media_id(clips[i].media_id@)) is Some);
            lemma_first_match_holds(media, wanted_media);
            let m = first_match(media, wanted_media)->0;
            assert(same_media_item(media[m], read_media[m]));
            lemma_some_match(read_media, has_media_id::<N>(entry.media_id->0@), m);
        }
    }
    lemma_read_all_kept(entries, out, keeps, reads);
    assert forall|i: int| 0 <= i < clips.len() implies same_clip(#[trigger] clips[i], out[i]) by {
        assert(clip_written(clips[i], entries[i]));
        assert(reads(entries[i], out[i]));
        assert(clip_settled(clips[i]));
        lemma_clip_read_back(clips[i], entries[i], default, out[i]);
    }
}

proof fn lemma_timeline_read_back<N>(
    timeline: Timeline<N>,
    entry: TimelineEntry<N>,
    media: Seq<MediaItem<N>>,
    read_media: Seq<MediaItem<N>>,
    default: TextStyle<N>,
    out: Timeline<N>,
)
    requires
        timeline_written(timeline, entry),
        timeline_read(entry, read_media, default, out),
        timeline_consistent(timeline, media),
        timeline.effects@.len() == 0,
        forall|c: int| 0 <= c < timeline.clips@.len() ==> clip_settled(#[trigger] timeline.clips@[c]),
        read_media.len() == media.len(),
        forall|i: int| 0 <= i < media.len() ==> same_media_item(#[trigger] media[i], read_media[i]),
    ensures
        same_timeline(timeline, out),
{
    lemma_tracks_read_back(timeline.tracks@, entry.tracks@, out.tracks@);
    lemma_clips_read_back(
        timeline.clips@,
        entry.clips@,
        timeline.tracks@,
        media,
        out.tracks@,
        read_media,
        default,
        out.clips@,
    );
}

proof fn lemma_timelines_read_back<N>(
    timelines: Seq<Timeline<N>>,
    entries: Seq<TimelineEntry<N>>,
    media: Seq<MediaItem<N>>,
    read_media: Seq<MediaItem<N>>,
    default: TextStyle<N>,
    out: Seq<Timeline<N>>,
)
    requires
        entries.len() == timelines.len(),
        forall|i: int| 0 <= i < entries.len() ==> timeline_written(timelines[i], #[trigger] entries[i]),
        forall|a: int, b: int|
            0 <= a < b < timelines.len() ==> #[trigger] timelines[a].id@ != #[trigger] timelines[b].id@,
        forall|t: int|
            0 <= t < timelines.len() ==> {
                &&& timeline_consistent(#[trigger] timelines[t], media)
                &&& timelines[t].effects@.len() == 0
                &&& forall|c: int|
                    0 <= c < timelines[t].clips@.len() ==> clip_settled(
                        #[trigger] timelines[t].clips@[c],
                    )
            },
        read_media.len() == media.len(),
        forall|i: int| 0 <= i < media.len() ==> same_media_item(#[trigger] media[i], read_media[i]),
        timelines_read(entries, read_media, default, out),
    ensures
        out.len() == timelines.len(),
        forall|i: int| 0 <= i < timelines.len() ==> same_timeline(#[trigger] timelines[i], out[i]),
    decreases entries.len(),
{
    if entries.len() > 0 {
        let last = entries.len() - 1;
        let entry = entries.last();
        let timeline = timelines.last();
        let earlier = timelines.drop_last();
        let written = entries.drop_last();
        assert(entries[last] == entry && timelines[last] == timeline);
        assert forall|i: int| 0 <= i < written.len() implies timeline_written(
            earlier[i],
            #[trigger] written[i],
        ) by {
            assert(written[i] == entries[i] && earlier[i] == timelines[i]);
        }
        assert forall|a: int, b: int| 0 <= a < b < earlier.len() implies #[trigger] earlier[a].id@
            != #[trigger] earlier[b].id@ by {
            assert(earlier[a] == timelines[a] && earlier[b] == timelines[b]);
        }
        assert forall|t: int| 0 <= t < earlier.len() implies {
            &&& timeline_consistent(#[trigger] earlier[t], media)
            &&& earlier[t].effects@.len() == 0
            &&& forall|c: int| 0 <= c < earlier[t].clips@.len() ==> clip_settled(#[trigger] earlier[t].clips@[c])
        } by {
            assert(earlier[t] == timelines[t]);
        }
        assert(timeline_written(timeline, entry));
        assert(timeline_consistent(timeline, media));
        if out.len() > 0 && timeline_fresh(entry, out.drop_last()) && timeline_read(
            entry,
            read_media,
            default,
            out.last(),
        ) && timelines_read(written, read_media, default, out.drop_last()) {
            lemma_timelines_read_back(earlier, written, media, read_media, default, out.drop_last());
            lemma_timeline_read_back(timeline, entry, media, read_media, default, out.last());
            assert forall|i: int| 0 <= i < timelines.len() implies same_timeline(
                #[trigger] timelines[i],
                out[i],
            ) by {
                if i < last {
                    assert(timelines[i] == earlier[i] && out[i] == out.drop_last()[i]);
                }
            }
        } else {
            lemma_timelines_read_back(earlier, written, media, read_media, default, out);
            assert(timeline.tracks@.len() > 0);
            assert(track_written(timeline.tracks@[0], entry.tracks@[0]));
            assert(track_kept(entry.tracks@[0]));
            assert(has_usable_track(entry.tracks@));
            assert forall|j: int| 0 <= j < out.len() implies !has_timeline_id::<N>(entry.id->0@)(
                #[trigger] out[j],
            ) by {
                assert(same_timeline(earlier[j], out[j]));
                assert(earlier[j] == timelines[j]);
            }
            lemma_no_match(out, has_timeline_id::<N>(entry.id->0@));
            assert(timeline_fresh(entry, out));
            assert(false);
        }
    }
}

proof fn lemma_media_read_back<N>(item: MediaItem<N>, entry: MediaEntry<N>, out: MediaItem<N>)
    requires
        media_written(item, entry),
        media_read(entry, out),
    ensures
        same_media_item(item, out),
{
    lemma_words_differ();
    assert(named_media_kind(entry.kind) == item.kind);
}

/// What a read gives back of a write: reading the document a project was
/// written as gives the same project back, field for field - every bin
/// entry, font, timeline, lane and clip, in order, and the active
/// timeline - for every project the reader could itself have given (see
/// `loads_as_written`).
pub proof fn lemma_written_document_reads_back<N>(
    project: Project<N>,
    document: DocumentEntry<N>,
    default: TextStyle<N>,
    read: Option<Project<N>>,
)
    requires
        loads_as_written(project),
        document_written(project, document),
        document_read(document, default, read),
    ensures
        read matches Some(loaded) && same_project(project, loaded),
{
    let first = project.timelines@[0];
    let first_entry = document.timelines@[0];
    assert(timeline_consistent(first, project.media@));
    assert(timeline_written(first, first_entry));
    assert(track_written(first.tracks@[0], first_entry.tracks@[0]));
    assert(track_kept(first_entry.tracks@[0]));
    assert(timeline_usable(first_entry));
    assert(any_usable_timeline(document.timelines@));
    let loaded = read->0;

    let media_keeps = |e: MediaEntry<N>| media_kept(e);
    let media_reads = |e: MediaEntry<N>, m: MediaItem<N>| media_read(e, m);
    assert forall|i: int| 0 <= i < document.media@.len() implies media_keeps(
        #[trigger] document.media@[i],
    ) by {
        assert(media_written(project.media@[i], document.media@[i]));
    }
    lemma_read_all_kept(document.media@, loaded.media@, media_keeps, media_reads);
    assert forall|i: int| 0 <= i < project.media@.len() implies same_media_item(
        #[trigger] project.media@[i],
        loaded.media@[i],
    ) by {
        assert(media_written(project.media@[i], document.media@[i]));
        assert(media_reads(document.media@[i], loaded.media@[i]));
        lemma_media_read_back(project.media@[i], document.media@[i], loaded.media@[i]);
    }

    let font_keeps = |e: FontEntry| font_kept(e);
    let font_reads = |e: FontEntry, f: CustomFont| font_read(e, f);
    assert forall|i: int| 0 <= i < document.fonts@.len() implies font_keeps(
        #[trigger] document.fonts@[i],
    ) by {
        assert(font_written(project.fonts@[i], document.fonts@[i]));
    }
    lemma_read_all_kept(document.fonts@, loaded.fonts@, font_keeps, font_reads);
    assert forall|i: int| 0 <= i < project.fonts@.len() implies (#[trigger] project.fonts@[i]).family@
        == loaded.fonts@[i].family@ && project.fonts@[i].path@ == loaded.fonts@[i].path@ by {
        assert(font_written(project.fonts@[i], document.fonts@[i]));
        assert(font_reads(document.fonts@[i], loaded.fonts@[i]));
    }

    lemma_timelines_read_back(
        project.timelines@,
        document.timelines@,
        project.media@,
        loaded.media@,
        default,
        loaded.timelines@,
    );

    let active = project.active_timeline_id@;
    lemma_first_match_holds(project.timelines@, has_timeline_id::<N>(active));
    let k = first_match(project.timelines@, has_timeline_id::<N>(active))->0;
    assert(same_timeline(project.timelines@[k], loaded.timelines@[k]));
    lemma_some_match(loaded.timelines@, has_timeline_id::<N>(active), k);
    assert(chosen_active(document.active_timeline_id, loaded.timelines@) == active);
}

proof fn lemma_read_clips_settled<N>(
    entries: Seq<ClipEntry<N>>,
    tracks: Seq<Track>,
    media: Seq<MediaItem<N>>,
    default: TextStyle<N>,
    clips: Seq<Clip<N>>,
)
    requires
        read_as(
            entries,
            clips,
            |e: ClipEntry<N>| clip_kept(e, tracks, media),
            |e: ClipEntry<N>, c: Clip<N>| clip_read(e, default, c),
        ),
    ensures
        forall|c: int| 0 <= c < clips.len() ==> clip_settled(#[trigger] clips[c]),
{
    let keeps = |e: ClipEntry<N>| clip_kept(e, tracks, media);
    let reads = |e: ClipEntry<N>, c: Clip<N>| clip_read(e, default, c);
    lemma_read_as_source(entries, clips, keeps, reads);
    assert forall|c: int| 0 <= c < clips.len() implies clip_settled(#[trigger] clips[c]) by {
        assert(read_from(entries, clips[c], keeps, reads));
        let i = choose|i: int| 0 <= i < entries.len() && keeps(entries[i]) && reads(entries[i], clips[c]);
        assert(clip_read(entries[i], default, clips[c]));
        lemma_words_differ();
        if clips[c].kind == ClipKind::Text {
            assert(spells(entries[i].kind, "text"@));
        }
    }
}

proof fn lemma_read_timelines_settled<N>(
    entries: Seq<TimelineEntry<N>>,
    media: Seq<MediaItem<N>>,
    default: TextStyle<N>,
    out: Seq<Timeline<N>>,
)
    requires
        timelines_read(entries, media, default, out),
    ensures
        forall|t: int|
            0 <= t < out.len() ==> (#[trigger] out[t]).effects@.len() == 0 && forall|c: int|
                0 <= c < out[t].clips@.len() ==> clip_settled(#[trigger] out[t].clips@[c]),
    decreases entries.len(),
{
    if entries.len() > 0 {
        let entry = entries.last();
        if out.len() > 0 && timeline_fresh(entry, out.drop_last()) && timeline_read(
            entry,
            media,
            default,
            out.last(),
        ) && timelines_read(entries.drop_last(), media, default, out.drop_last()) {
            lemma_read_timelines_settled(entries.drop_last(), media, default, out.drop_last());
            let last = out.last();
            lemma_read_clips_settled(entry.clips@, last.tracks@, media, default, last.clips@);
            assert forall|t: int| 0 <= t < out.len() implies (#[trigger] out[t]).effects@.len() == 0
                && forall|c: int| 0 <= c < out[t].clips@.len() ==> clip_settled(
                #[trigger] out[t].clips@[c],
            ) by {
                if t < out.len() - 1 {
                    assert(out[t] == out.drop_last()[t]);
                }
            }
        } else {
            lemma_read_timelines_settled(entries.drop_last(), media, default, out);
        }
    }
}

/// Whatever the reader gives is a project it gives back after a write: it
/// loads as written (see `loads_as_written`).
pub proof fn lemma_loaded_project_loads_as_written<N>(
    document: DocumentEntry<N>,
    default: TextStyle<N>,
    project: Project<N>,
)
    requires
        document_read(document, default, Some(project)),
    ensures
        loads_as_written(project),
{
    lemma_loaded_project_is_openable(document, default, project);
    if any_usable_timeline(document.timelines@) {
        lemma_read_timelines_settled(document.timelines@, project.media@, default, project.timelines@);
    } else {
        let only = project.timelines@[0];
        lemma_read_clips_settled(document.clips@, only.tracks@, project.media@, default, only.clips@);
    }
}

/// Saving a project that was opened and opening it again gives the same
/// project back, field for field: whatever loads, round-trips.
pub proof fn lemma_loaded_project_round_trips<N>(
    document: DocumentEntry<N>,
    default: TextStyle<N>,
    project: Project<N>,
    rewritten: DocumentEntry<N>,
    reread: Option<Project<N>>,
)
    requires
        document_read(document, default, Some(project)),
        document_written(project, rewritten),
        document_read(rewritten, default, reread),
    ensures
        reread matches Some(again) && same_project(project, again),
{
    lemma_loaded_project_loads_as_written(document, default, project);
    lemma_written_document_reads_back(project, rewritten, default, reread);
}

/// Writing a clip puts each of its measurements down under its own name:
/// the entry starts, lasts, plays from, fades in and out over, is placed and
/// mixed exactly as the clip does.
pub proof fn lemma_written_clip_keeps_its_measurements<N>(clip: Clip<N>, entry: ClipEntry<N>)
    requires
        clip_written(clip, entry),
    ensures
        entry.start == clip.start,
        entry.duration == clip.duration,
        entry.source_start == clip.source_start,
        entry.volume == clip.volume,
        entry.fade_in == clip.fade_in,
        entry.fade_out == clip.fade_out,
        entry.scale == clip.scale,
        entry.offset_x == clip.offset_x,
        entry.offset_y == clip.offset_y,
        entry.rotation == clip.rotation,
        entry.opacity == clip.opacity,
        entry.speed == clip.speed,
{
}

} // verus!
