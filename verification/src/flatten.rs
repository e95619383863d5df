//! Flattening a project into the exporter's clip list.
//!
//! Walking a timeline's clips, resolving their media and track, folding
//! track state into per-clip flags, and building each clip's FFmpeg chains
//! from the structured effects the document stores. Text clips are not
//! flattened: titles rasterise elsewhere and rejoin as image clips.
//!
//! The chain builders are the filter catalogue's; the flattener takes them
//! as parameters and promises exactly which filters each one is asked about.

use vstd::prelude::*;

use crate::document::{document_read, lemma_loaded_project_is_openable, timeline_consistent, DocumentEntry};
use crate::export::{ClipKind, ExportClip, TransitionSpec};
use crate::model::ClipKind as ModelClipKind;
use crate::project::{
    TextStyle, find_media, find_timeline, find_track, first_match, has_media_id, has_timeline_id,
    has_track_id, AppliedFilter, Clip, Project, Timeline, Transition,
};

verus! {

/// The timeline flattening reads: the one named, or the active one when
/// none is named, falling back to the first; `None` only for a project with
/// no timelines at all.
pub open spec fn picked_index<N>(project: Project<N>, timeline_id: Option<Seq<char>>) -> Option<
    int,
> {
    let wanted = match timeline_id {
        Some(id) => id,
        None => project.active_timeline_id@,
    };
    match first_match(project.timelines@, has_timeline_id(wanted)) {
        Some(index) => Some(index),
        None => if project.timelines@.len() > 0 {
            Some(0)
        } else {
            None
        },
    }
}

/// Whether a clip makes it into the flattened list: not a title, and both
/// its media and its track still exist.
pub open spec fn is_flattened<N>(project: Project<N>, timeline: Timeline<N>, clip: Clip<N>) -> bool {
    &&& clip.kind != ModelClipKind::Text
    &&& first_match(project.media@, has_media_id(clip.media_id@)) is Some
    &&& first_match(timeline.tracks@, has_track_id(clip.track_id@)) is Some
}

/// The clips of `timeline` that flatten, in timeline order.
pub open spec fn flattened_clips<N>(project: Project<N>, timeline: Timeline<N>) -> Seq<Clip<N>> {
    timeline.clips@.filter(|clip: Clip<N>| is_flattened(project, timeline, clip))
}

/// The exporter's kind for a clip that is not a title.
pub open spec fn export_kind(kind: ModelClipKind) -> ClipKind {
    match kind {
        ModelClipKind::Audio => ClipKind::Audio,
        ModelClipKind::Image => ClipKind::Image,
        _ => ClipKind::Video,
    }
}

/// The exporter's view of a clip's transition.
pub open spec fn transition_spec<N>(transition: Option<Transition<N>>) -> Option<TransitionSpec<N>> {
    match transition {
        Some(transition) => Some(TransitionSpec { kind: transition.id, duration: transition.duration }),
        None => None,
    }
}

/// What flattening makes of one clip: its media's file and facts, its
/// track's index and switches folded into its own flags, its own timing and
/// mix carried over, its chains built by the catalogue from its own
/// filters, and no video fade (that is for transition resolution to set).
pub open spec fn flattens_to<N, A, V>(
    project: Project<N>,
    timeline: Timeline<N>,
    clip: Clip<N>,
    out: ExportClip<N>,
    audio_chain: A,
    video_chain: V,
) -> bool where
    N: Default,
    A: Fn(&Vec<AppliedFilter<N>>) -> String,
    V: Fn(&Vec<AppliedFilter<N>>) -> String,
 {
    let media = project.media@[first_match(project.media@, has_media_id(clip.media_id@))->0];
    let index = first_match(timeline.tracks@, has_track_id(clip.track_id@))->0;
    let track = timeline.tracks@[index];
    &&& out.path == media.path
    &&& out.kind == export_kind(clip.kind)
    &&& out.start == clip.start
    &&& out.duration == clip.duration
    &&& out.source_start == clip.source_start
    &&& out.track == index
    &&& out.hidden == !track.visible
    &&& out.muted == (track.muted || clip.muted == Some(true))
    &&& out.volume == clip.volume
    &&& out.fade_in == clip.fade_in
    &&& out.fade_out == clip.fade_out
    &&& call_ensures(audio_chain, (&clip.filters,), out.filter_chain)
    &&& out.speed == clip.speed
    &&& out.preserve_pitch == clip.preserve_pitch
    &&& out.scale == clip.scale
    &&& out.offset_x == clip.offset_x
    &&& out.offset_y == clip.offset_y
    &&& out.rotation == clip.rotation
    &&& out.opacity == clip.opacity
    &&& out.blend_mode == clip.blend_mode
    &&& call_ensures(video_chain, (&clip.video_effects,), out.video_filter_chain)
    &&& out.transition == transition_spec(clip.transition_in)
    &&& call_ensures(N::default, (), out.video_fade_in)
    &&& out.media_width == media.width
    &&& out.media_height == media.height
    &&& out.has_audio == Some(media.has_audio)
}

/// The timeline to flatten: the named one, or the document's active one,
/// falling back to the first - the same preference the tab strip has.
pub fn pick_timeline<'a, N>(project: &'a Project<N>, timeline_id: Option<&str>) -> (timeline:
    Option<&'a Timeline<N>>)
    ensures
        match picked_index(
            *project,
            match timeline_id {
                Some(id) => Some(id@),
                None => None,
            },
        ) {
            Some(index) => timeline == Some(&project.timelines@[index]),
            None => timeline is None,
        },
{
    let wanted = match timeline_id {
        Some(id) => id,
        None => project.active_timeline_id.as_str(),
    };
    match find_timeline(&project.timelines, wanted) {
        Some(index) => Some(&project.timelines[index]),
        None => if project.timelines.len() > 0 {
            Some(&project.timelines[0])
        } else {
            None
        },
    }
}

fn copy_transition<N: Copy>(transition: &Option<Transition<N>>) -> (spec: Option<TransitionSpec<N>>)
    ensures
        spec == transition_spec(*transition),
{
    match transition {
        Some(transition) => Some(
            TransitionSpec { kind: transition.id.clone(), duration: transition.duration },
        ),
        None => None,
    }
}

/// Flattens one timeline of `project` for the exporter - the active one
/// when `timeline_id` is `None`. Text clips are excluded, and a clip whose
/// media or track has vanished is skipped with the same tolerance the
/// document reader extends. `audio_chain` and `video_chain` build a clip's
/// FFmpeg chains from its stored filters and effects.
pub fn flatten_timeline<N, A, V>(
    project: &Project<N>,
    timeline_id: Option<&str>,
    audio_chain: A,
    video_chain: V,
) -> (flat: Vec<ExportClip<N>>) where
    N: Copy + Default,
    A: Fn(&Vec<AppliedFilter<N>>) -> String,
    V: Fn(&Vec<AppliedFilter<N>>) -> String,

    requires
        forall|filters: &Vec<AppliedFilter<N>>| call_requires(audio_chain, (filters,)),
        forall|filters: &Vec<AppliedFilter<N>>| call_requires(video_chain, (filters,)),
    ensures
        match picked_index(
            *project,
            match timeline_id {
                Some(id) => Some(id@),
                None => None,
            },
        ) {
            Some(index) => {
                let timeline = project.timelines@[index];
                &&& flat@.len() == flattened_clips(*project, timeline).len()
                &&& forall|i: int|
                    0 <= i < flat@.len() ==> flattens_to(
                        *project,
                        timeline,
                        flattened_clips(*project, timeline)[i],
                        #[trigger] flat@[i],
                        audio_chain,
                        video_chain,
                    )
            },
            None => flat@.len() == 0,
        },
{
    let timeline = match pick_timeline(project, timeline_id) {
        Some(timeline) => timeline,
        None => return Vec::new(),
    };
    let ghost keep = |clip: Clip<N>| is_flattened(*project, *timeline, clip);
    let mut flat: Vec<ExportClip<N>> = Vec::new();
    let mut i: usize = 0;
    while i < timeline.clips.len()
        invariant
            i <= timeline.clips@.len(),
            keep == (|clip: Clip<N>| is_flattened(*project, *timeline, clip)),
            forall|filters: &Vec<AppliedFilter<N>>| call_requires(audio_chain, (filters,)),
            forall|filters: &Vec<AppliedFilter<N>>| call_requires(video_chain, (filters,)),
            flat@.len() == timeline.clips@.take(i as int).filter(keep).len(),
            forall|j: int|
                0 <= j < flat@.len() ==> flattens_to(
                    *project,
                    *timeline,
                    timeline.clips@.take(i as int).filter(keep)[j],
                    #[trigger] flat@[j],
                    audio_chain,
                    video_chain,
                ),
        decreases timeline.clips@.len() - i,
    {
        proof {
            reveal_with_fuel(Seq::<_>::filter, 1);
            assert(timeline.clips@.take(i + 1).drop_last() =~= timeline.clips@.take(i as int));
        }
        let clip = &timeline.clips[i];
        let media_index = find_media(&project.media, clip.media_id.as_str());
        let track_index = find_track(&timeline.tracks, clip.track_id.as_str());
        let kind = match clip.kind {
            ModelClipKind::Video => Some(ClipKind::Video),
            ModelClipKind::Audio => Some(ClipKind::Audio),
            ModelClipKind::Image => Some(ClipKind::Image),
            ModelClipKind::Text => None,
        };
        match (kind, media_index, track_index) {
            (Some(kind), Some(media_index), Some(index)) => {
                let media = &project.media[media_index];
                let track = &timeline.tracks[index];
                let clip_muted = match clip.muted {
                    Some(muted) => muted,
                    None => false,
                };
                let filter_chain = audio_chain(&clip.filters);
                let video_filter_chain = video_chain(&clip.video_effects);
                let flattened = ExportClip {
                    path: media.path.clone(),
                    kind,
                    start: clip.start,
                    duration: clip.duration,
                    source_start: clip.source_start,
                    track: index,
                    hidden: !track.visible,
                    muted: track.muted || clip_muted,
                    volume: clip.volume,
                    fade_in: clip.fade_in,
                    fade_out: clip.fade_out,
                    filter_chain,
                    speed: clip.speed,
                    preserve_pitch: clip.preserve_pitch,
                    scale: clip.scale,
                    offset_x: clip.offset_x,
                    offset_y: clip.offset_y,
                    rotation: clip.rotation,
                    opacity: clip.opacity,
                    blend_mode: clip.blend_mode,
                    video_filter_chain,
                    transition: copy_transition(&clip.transition_in),
                    video_fade_in: N::default(),
                    media_width: media.width,
                    media_height: media.height,
                    has_audio: Some(media.has_audio),
                };
                flat.push(flattened);
                proof {
                    assert(keep(timeline.clips@[i as int]));
                    assert(timeline.clips@.take(i + 1).last() == timeline.clips@[i as int]);
                }
            },
            _ => {
                proof {
                    assert(!keep(timeline.clips@[i as int]));
                    assert(timeline.clips@.take(i + 1).last() == timeline.clips@[i as int]);
                }
            },
        }
        i += 1;
    }
    proof {
        assert(timeline.clips@.take(timeline.clips@.len() as int) =~= timeline.clips@);
    }
    flat
}

/// Filtering by two tests that agree on every item keeps the same items.
proof fn lemma_filter_agrees<A>(items: Seq<A>, first: spec_fn(A) -> bool, second: spec_fn(A) -> bool)
    requires
        forall|i: int| 0 <= i < items.len() ==> first(#[trigger] items[i]) == second(items[i]),
    ensures
        items.filter(first) == items.filter(second),
    decreases items.len(),
{
    reveal_with_fuel(Seq::<_>::filter, 1);
    if items.len() > 0 {
        let rest = items.drop_last();
        assert forall|i: int| 0 <= i < rest.len() implies first(#[trigger] rest[i]) == second(rest[i]) by {
            assert(rest[i] == items[i]);
        }
        lemma_filter_agrees(rest, first, second);
        assert(items[items.len() - 1] == items.last());
    }
}

/// A project as the document reader loads it flattens every clip but its
/// titles: the reader already dropped whatever the flattener would skip for
/// a vanished track or media.
pub proof fn lemma_loaded_project_flattens_all_but_titles<N>(
    document: DocumentEntry<N>,
    default: TextStyle<N>,
    project: Project<N>,
    index: int,
)
    requires
        document_read(document, default, Some(project)),
        0 <= index < project.timelines@.len(),
    ensures
        flattened_clips(project, project.timelines@[index]) == project.timelines@[index].clips@.filter(
            |clip: Clip<N>| clip.kind != ModelClipKind::Text,
        ),
{
    lemma_loaded_project_is_openable(document, default, project);
    let timeline = project.timelines@[index];
    assert(timeline_consistent(timeline, project.media@));
    let clips = timeline.clips@;
    assert forall|i: int| 0 <= i < clips.len() implies is_flattened(project, timeline, #[trigger] clips[i])
        == (clips[i].kind != ModelClipKind::Text) by {
        assert(first_match(timeline.tracks@, has_track_id(clips[i].track_id@)) is Some);
        if clips[i].kind != ModelClipKind::Text {
            assert(first_match(project.media@, has_media_id(clips[i].media_id@)) is Some);
        }
    }
    lemma_filter_agrees(
        clips,
        |clip: Clip<N>| is_flattened(project, timeline, clip),
        |clip: Clip<N>| clip.kind != ModelClipKind::Text,
    );
}

/// A flattened clip carries its source clip's timing, sound and placement
/// unchanged: it starts, lasts and plays from where the clip does, at the
/// clip's speed and pitch handling, with the clip's gain and audio fades in
/// and out, and the clip's scale, offsets, rotation, opacity and blend mode.
pub proof fn lemma_flattened_clip_keeps_its_timing<N, A, V>(
    project: Project<N>,
    timeline: Timeline<N>,
    clip: Clip<N>,
    out: ExportClip<N>,
    audio_chain: A,
    video_chain: V,
) where
    N: Default,
    A: Fn(&Vec<AppliedFilter<N>>) -> String,
    V: Fn(&Vec<AppliedFilter<N>>) -> String,

    requires
        flattens_to(project, timeline, clip, out, audio_chain, video_chain),
    ensures
        out.start == clip.start,
        out.duration == clip.duration,
        out.source_start == clip.source_start,
        out.speed == clip.speed,
        out.preserve_pitch == clip.preserve_pitch,
        out.volume == clip.volume,
        out.fade_in == clip.fade_in,
        out.fade_out == clip.fade_out,
        out.scale == clip.scale,
        out.offset_x == clip.offset_x,
        out.offset_y == clip.offset_y,
        out.rotation == clip.rotation,
        out.opacity == clip.opacity,
        out.blend_mode == clip.blend_mode,
{
}

} // verus!
