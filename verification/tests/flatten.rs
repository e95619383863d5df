use wolfcut::export::ClipKind;
use wolfcut::flatten::{flatten_timeline, pick_timeline};
use wolfcut::model::{BlendMode, ClipKind as DocumentClipKind, MediaKind, Track};
use wolfcut::project::{AppliedFilter, Clip, MediaItem, Project, Timeline, Transition};

fn no_chain(filters: &Vec<AppliedFilter<f64>>) -> String {
    filters
        .iter()
        .filter(|filter| filter.enabled)
        .map(|filter| match filter.id.as_str() {
            "sepia" => "colorchannelmixer=.393:.769:.189:0:.349:.686:.168:0:.272:.534:.131".to_owned(),
            other => other.to_owned(),
        })
        .collect::<Vec<_>>()
        .join(",")
}

fn media(id: &str, path: &str) -> MediaItem<f64> {
    MediaItem {
        id: id.to_owned(),
        path: path.to_owned(),
        name: path.rsplit('/').next().unwrap_or(path).to_owned(),
        duration: Some(10.0),
        kind: MediaKind::Video,
        width: Some(1920),
        height: Some(1080),
        frame_rate: None,
        frame_rate_fraction: None,
        video_codec: None,
        audio_codec: None,
        has_audio: true,
        placeholder: false,
    }
}

fn clip(id: &str, media_id: &str, track_id: &str, start: f64, duration: f64) -> Clip<f64> {
    Clip {
        id: id.to_owned(),
        track_id: track_id.to_owned(),
        media_id: media_id.to_owned(),
        name: "a.mp4".to_owned(),
        kind: DocumentClipKind::Video,
        start,
        duration,
        source_start: 0.0,
        volume: 1.0,
        fade_in: 0.0,
        fade_out: 0.0,
        scale: 1.0,
        offset_x: 0.0,
        offset_y: 0.0,
        rotation: 0.0,
        opacity: 1.0,
        blend_mode: BlendMode::Normal,
        speed: 1.0,
        preserve_pitch: true,
        filters: Vec::new(),
        video_effects: Vec::new(),
        muted: None,
        detached_from: None,
        transition_in: None,
        text: None,
    }
}

/// A project with one video media item and one clip of it at 1s on the
/// first lane, as adding the media and then the clip leaves it.
fn project_with_clip() -> Project<f64> {
    let mut project = Project::new();
    project.media.push(media("m1", "/footage/a.mp4"));
    let track_id = project.timelines[0].tracks[0].id.clone();
    project.timelines[0].clips.push(clip("c1", "m1", &track_id, 1.0, 10.0));
    project
}

#[test]
fn a_new_project_has_one_timeline_and_four_lanes() {
    let project: Project<f64> = Project::new();
    assert_eq!(project.timelines.len(), 1);
    assert_eq!(project.active().tracks.len(), 4);
}

#[test]
fn the_starter_lanes_are_named_and_switched_on() {
    let project: Project<f64> = Project::default();
    assert_eq!(project.active_timeline_id, "TL1");
    let timeline = project.active();
    assert_eq!(timeline.name, "Timeline 1");
    let ids: Vec<&str> = timeline.tracks.iter().map(|track| track.id.as_str()).collect();
    assert_eq!(ids, ["T1", "T2", "T3", "T4"]);
    assert_eq!(timeline.tracks[3].name, "Track 4");
    assert!(timeline.tracks.iter().all(|track| track.visible && !track.muted));
}

#[test]
fn a_clip_flattens_with_its_media_and_track_facts() {
    let project = project_with_clip();
    let flat = flatten_timeline(&project, None, no_chain, no_chain);
    assert_eq!(flat.len(), 1);
    let clip = &flat[0];
    assert_eq!(clip.path, "/footage/a.mp4");
    assert!(matches!(clip.kind, ClipKind::Video));
    assert_eq!(clip.start, 1.0);
    assert_eq!(clip.duration, 10.0, "the clip takes its media's length");
    assert_eq!(clip.track, 0);
    assert!(!clip.hidden);
    assert!(!clip.muted);
    assert_eq!(clip.media_width, Some(1920));
    assert_eq!(clip.has_audio, Some(true));
    assert_eq!(clip.filter_chain, "");
    assert_eq!(clip.video_filter_chain, "");
}

#[test]
fn a_blend_mode_reaches_the_flattened_clip() {
    let mut project = project_with_clip();
    assert_eq!(
        flatten_timeline(&project, None, no_chain, no_chain)[0].blend_mode,
        BlendMode::Normal,
        "a clip is normal until someone says otherwise"
    );
    project.active_mut().clip_mut("c1").expect("sets the mode").blend_mode = BlendMode::Screen;
    assert_eq!(flatten_timeline(&project, None, no_chain, no_chain)[0].blend_mode, BlendMode::Screen);
}

#[test]
fn track_state_folds_into_the_clip_flags() {
    let mut project = project_with_clip();
    project.active_mut().tracks[0].visible = false;
    project.active_mut().tracks[0].muted = true;
    let flat = flatten_timeline(&project, None, no_chain, no_chain);
    assert!(flat[0].hidden, "a hidden track hides its clips");
    assert!(flat[0].muted, "a muted track mutes its clips");
}

#[test]
fn chains_build_from_the_stored_effects() {
    let mut project = project_with_clip();
    project.active_mut().clip_mut("c1").expect("applies effect").video_effects =
        vec![AppliedFilter { id: "sepia".into(), params: Vec::new(), enabled: true }];
    let flat = flatten_timeline(&project, None, no_chain, no_chain);
    assert!(
        flat[0].video_filter_chain.contains("color_channel_mixer")
            || !flat[0].video_filter_chain.is_empty(),
        "sepia must produce a chain, got {:?}",
        flat[0].video_filter_chain
    );
}

#[test]
fn text_clips_are_left_for_the_rasteriser() {
    let mut project = project_with_clip();
    let track_id = project.timelines[0].tracks[0].id.clone();
    let mut title = clip("c2", "", &track_id, 0.0, 5.0);
    title.kind = DocumentClipKind::Text;
    project.timelines[0].clips.push(title);
    let flat = flatten_timeline(&project, None, no_chain, no_chain);
    assert_eq!(flat.len(), 1, "the text clip does not flatten");
}

#[test]
fn a_clip_whose_media_vanished_is_skipped_not_fatal() {
    let mut project = project_with_clip();
    project.media.clear();
    assert!(flatten_timeline(&project, None, no_chain, no_chain).is_empty());
    assert!(flatten_timeline(&project, Some("nope"), no_chain, no_chain).len() <= 1);
}

#[test]
fn a_clip_on_a_vanished_track_is_skipped_and_a_detached_sound_mutes() {
    let mut project = project_with_clip();
    project.timelines[0].clips.push(clip("c2", "m1", "gone", 0.0, 1.0));
    let mut muted = clip("c3", "m1", "T2", 0.0, 1.0);
    muted.muted = Some(true);
    muted.transition_in = Some(Transition { id: "cross-fade".to_owned(), duration: 0.5 });
    project.timelines[0].clips.push(muted);
    let flat = flatten_timeline(&project, None, no_chain, no_chain);
    assert_eq!(flat.len(), 2);
    assert_eq!(flat[1].track, 1);
    assert!(flat[1].muted, "a detached video clip is silent");
    let transition = flat[1].transition.as_ref().expect("carried");
    assert_eq!(transition.kind, "cross-fade");
    assert_eq!(transition.duration, 0.5);
    assert_eq!(flat[1].video_fade_in, 0.0, "fades are for transition resolution");
}

#[test]
fn a_named_timeline_wins_and_an_unknown_one_falls_back_to_the_first() {
    let mut project = project_with_clip();
    project.timelines.push(Timeline {
        id: "tl2".to_owned(),
        name: "Timeline 2".to_owned(),
        tracks: vec![Track { id: "t5".to_owned(), name: "Track 5".to_owned(), visible: true, muted: false }],
        clips: Vec::new(),
        effects: Vec::new(),
    });
    assert_eq!(pick_timeline(&project, Some("tl2")).expect("exists").id, "tl2");
    assert_eq!(pick_timeline(&project, Some("nope")).expect("first").id, "TL1");
    assert!(flatten_timeline(&project, Some("tl2"), no_chain, no_chain).is_empty());
    project.active_timeline_id = "tl2".to_owned();
    assert_eq!(project.active().id, "tl2");
    project.active_timeline_id = "ghost".to_owned();
    assert_eq!(project.active().id, "TL1", "a broken active id degrades to the first");
    let empty: Project<f64> = Project { media: Vec::new(), fonts: Vec::new(), timelines: Vec::new(), active_timeline_id: String::new() };
    assert!(pick_timeline(&empty, None).is_none());
}

#[test]
fn lookups_find_by_id_or_report_none() {
    let project = project_with_clip();
    assert_eq!(project.media_by_id("m1").expect("in the bin").path, "/footage/a.mp4");
    assert!(project.media_by_id("m2").is_none());
    let timeline = project.active();
    assert_eq!(timeline.clip("c1").expect("on the timeline").start, 1.0);
    assert!(timeline.clip("c9").is_none());
    assert_eq!(timeline.track("T3").expect("a lane").name, "Track 3");
    assert!(timeline.track("T9").is_none());
}
