use wolfcut::document::{
    read_clip, read_document, read_filters, read_media_item, read_timelines, read_tracks,
    text_align_named, ClipEntry, DocumentEntry, FilterEntry, FontEntry, MediaEntry,
    TimelineEntry, TrackEntry, TransitionEntry,
};
use wolfcut::model::{BlendMode, ClipKind, CustomFont, MediaKind, TextAlign, Track};
use wolfcut::writer::write_document;
use wolfcut::project::{AppliedFilter, Clip, MediaItem, Project, TextStyle, Timeline, Transition};

fn style() -> TextStyle<f64> {
    TextStyle {
        content: "Your text".to_owned(),
        font_family: "\"Cabinet Grotesk\"".to_owned(),
        font_size: 0.09,
        font_weight: 700.0,
        italic: false,
        color: "#ffffff".to_owned(),
        align: TextAlign::Center,
        opacity: 1.0,
        stroke_width: 0.0,
        stroke_color: "#000000".to_owned(),
        shadow: true,
        background: String::new(),
        line_height: 1.2,
        tracking: 0.0,
    }
}

fn some(text: &str) -> Option<String> {
    Some(text.to_owned())
}

fn track(id: &str) -> TrackEntry {
    TrackEntry { id: some(id), name: Some(format!("Track {}", &id[1..])), visible: Some(true), muted: Some(false) }
}

fn media(id: &str, path: &str) -> MediaEntry<f64> {
    MediaEntry {
        id: some(id),
        path: some(path),
        name: Some(path.trim_start_matches('/').to_owned()),
        duration: None,
        kind: some("video"),
        width: None,
        height: None,
        frame_rate: None,
        frame_rate_fraction: None,
        video_codec: None,
        audio_codec: None,
        has_audio: Some(false),
        placeholder: None,
    }
}

fn clip(id: &str, track_id: &str, media_id: Option<&str>, kind: &str) -> ClipEntry<f64> {
    ClipEntry {
        id: some(id),
        track_id: some(track_id),
        media_id: media_id.map(str::to_owned),
        kind: some(kind),
        name: None,
        start: 0.0,
        duration: 1.0,
        source_start: 0.0,
        volume: 1.0,
        fade_in: 0.0,
        fade_out: 0.0,
        scale: 1.0,
        offset_x: 0.0,
        offset_y: 0.0,
        rotation: 0.0,
        opacity: 1.0,
        speed: 1.0,
        blend_mode: None,
        preserve_pitch: None,
        filters: Vec::new(),
        video_effects: Vec::new(),
        muted: None,
        detached_from: None,
        transition_in: None,
        text: None,
    }
}

fn empty_document() -> DocumentEntry<f64> {
    DocumentEntry {
        media: Vec::new(),
        timelines: Vec::new(),
        tracks: Vec::new(),
        clips: Vec::new(),
        active_timeline_id: None,
        fonts: Vec::new(),
    }
}

fn bin() -> Vec<MediaItem<f64>> {
    vec![read_media_item(media("m1", "/a.mp4")).expect("kept")]
}

fn lanes() -> Vec<Track> {
    read_tracks(vec![track("T1")])
}

#[test]
fn a_legacy_flat_document_loads_as_one_timeline() {
    let document = DocumentEntry { tracks: vec![track("T1")], ..empty_document() };
    let project = read_document(document, &style()).expect("loads");
    assert_eq!(project.timelines.len(), 1);
    assert_eq!(project.timelines[0].name, "Timeline 1");
    assert_eq!(project.timelines[0].id, "TL1");
    assert_eq!(project.active_timeline_id, "TL1");
}

#[test]
fn a_garbage_document_is_none_not_a_panic() {
    // A document that is not an object has none of the fields at all.
    assert!(read_document(empty_document(), &style()).is_none());
    // `{ "tracks": [] }`
    assert!(read_document(DocumentEntry { tracks: Vec::new(), ..empty_document() }, &style()).is_none());
}

#[test]
fn clips_for_vanished_tracks_or_media_are_dropped_on_load() {
    let document = DocumentEntry {
        media: vec![media("m1", "/a.mp4")],
        tracks: vec![track("T1")],
        clips: vec![
            clip("c1", "ghost", Some("m1"), "video"),
            clip("c2", "T1", Some("ghost"), "video"),
            clip("c3", "T1", Some("m1"), "video"),
            clip("c4", "T1", None, "text"),
        ],
        ..empty_document()
    };
    let project = read_document(document, &style()).expect("loads");
    let ids: Vec<&str> = project.active().clips.iter().map(|clip| clip.id.as_str()).collect();
    assert_eq!(ids, ["c3", "c4"]);
}

#[test]
fn a_typescript_written_document_loads() {
    let mut flat_clip = clip("c1", "T1", Some("m1"), "video");
    flat_clip.name = some("a.mp4");
    flat_clip.duration = 10.0;
    flat_clip.preserve_pitch = Some(true);
    flat_clip.video_effects =
        vec![FilterEntry { id: some("sepia"), params: Vec::new(), enabled: Some(true) }];
    let mut timeline_clip = clip("c1", "T1", Some("m1"), "video");
    timeline_clip.name = some("a.mp4");
    timeline_clip.duration = 10.0;
    timeline_clip.preserve_pitch = Some(true);
    timeline_clip.video_effects =
        vec![FilterEntry { id: some("sepia"), params: Vec::new(), enabled: Some(true) }];
    let mut item = media("m1", "/a.mp4");
    item.duration = Some(10.0);
    item.width = Some(1920);
    item.height = Some(1080);
    item.frame_rate = Some(30.0);
    item.frame_rate_fraction = some("30/1");
    item.video_codec = some("h264");

    let document = DocumentEntry {
        media: vec![item],
        timelines: vec![TimelineEntry {
            id: some("TL1"),
            name: some("Timeline 1"),
            tracks: vec![track("T1")],
            clips: vec![timeline_clip],
            effects: Vec::new(),
        }],
        tracks: vec![track("T1")],
        clips: vec![flat_clip],
        active_timeline_id: some("TL1"),
        fonts: Vec::new(),
    };
    let project = read_document(document, &style()).expect("loads");
    assert_eq!(project.timelines.len(), 1);
    assert_eq!(project.active().clips[0].video_effects[0].id, "sepia");
    assert_eq!(
        project.active().clips[0].blend_mode,
        BlendMode::Normal,
        "a document written before blend modes reads as normal"
    );
}

#[test]
fn an_unknown_blend_mode_reads_as_normal() {
    // The host hands over no blend mode for a spelling this build does not
    // know, such as "kaleidoscope".
    let mut entry = clip("c1", "T1", Some("m1"), "video");
    entry.blend_mode = None;
    let read = read_clip(entry, &lanes(), &bin(), &style()).expect("kept");
    assert_eq!(read.blend_mode, BlendMode::Normal);

    let mut entry = clip("c1", "T1", Some("m1"), "video");
    entry.blend_mode = Some(BlendMode::Screen);
    assert_eq!(read_clip(entry, &lanes(), &bin(), &style()).expect("kept").blend_mode, BlendMode::Screen);
}

#[test]
fn a_media_entry_without_the_placeholder_field_is_not_a_placeholder() {
    let item = read_media_item(media("m1", "/a.mp4")).expect("kept");
    assert!(!item.placeholder);
    let mut marked = media("m1", "/a.mp4");
    marked.placeholder = Some(true);
    assert!(read_media_item(marked).expect("kept").placeholder);
}

#[test]
fn media_needs_an_id_and_a_path_and_defaults_the_rest() {
    let mut nameless = media("m1", "/footage/a.mp4");
    nameless.name = None;
    nameless.kind = some("audio");
    nameless.width = Some(u64::from(u32::MAX) + 1);
    nameless.height = Some(720);
    nameless.has_audio = None;
    let item = read_media_item(nameless).expect("kept");
    assert_eq!(item.name, "/footage/a.mp4", "unnamed media is named after its path");
    assert_eq!(item.kind, MediaKind::Audio);
    assert_eq!(item.width, None, "a width that does not fit is dropped");
    assert_eq!(item.height, Some(720));
    assert!(!item.has_audio);

    let mut image = media("m2", "/b.png");
    image.kind = some("image");
    assert_eq!(read_media_item(image).expect("kept").kind, MediaKind::Image);
    let mut odd = media("m3", "/c.mp4");
    odd.kind = some("hologram");
    assert_eq!(read_media_item(odd).expect("kept").kind, MediaKind::Video);

    let mut no_id = media("m1", "/a.mp4");
    no_id.id = None;
    assert!(read_media_item(no_id).is_none());
    let mut no_path = media("m1", "/a.mp4");
    no_path.path = None;
    assert!(read_media_item(no_path).is_none());
}

#[test]
fn lanes_need_an_id_and_default_to_on() {
    let tracks = read_tracks(vec![
        TrackEntry { id: None, name: some("Lost"), visible: None, muted: None },
        TrackEntry { id: some("T9"), name: None, visible: None, muted: None },
        TrackEntry { id: some("T2"), name: some("Dialogue"), visible: Some(false), muted: Some(true) },
    ]);
    assert_eq!(tracks.len(), 2);
    assert_eq!(tracks[0].id, "T9");
    assert_eq!(tracks[0].name, "T9", "an unnamed lane is named after its id");
    assert!(tracks[0].visible);
    assert!(!tracks[0].muted);
    assert_eq!(tracks[1].name, "Dialogue");
    assert!(!tracks[1].visible);
    assert!(tracks[1].muted);
}

#[test]
fn filters_keep_only_numeric_parameters() {
    let filters = read_filters(vec![
        FilterEntry { id: None, params: Vec::new(), enabled: None },
        FilterEntry {
            id: some("gaussian-blur"),
            params: vec![("sigma".to_owned(), Some(4.0)), ("mode".to_owned(), None)],
            enabled: None,
        },
        FilterEntry { id: some("sepia"), params: Vec::new(), enabled: Some(false) },
    ]);
    assert_eq!(filters.len(), 2);
    assert_eq!(filters[0].id, "gaussian-blur");
    assert_eq!(filters[0].params, vec![("sigma".to_owned(), 4.0)]);
    assert!(filters[0].enabled, "absent means enabled");
    assert!(!filters[1].enabled);
}

#[test]
fn a_title_keeps_its_style_and_needs_no_media() {
    let mut entry = clip("c4", "T1", None, "text");
    entry.text = Some(TextStyle { content: "Lower third".to_owned(), ..style() });
    let title = read_clip(entry, &lanes(), &bin(), &style()).expect("a title survives without media");
    assert_eq!(title.kind, ClipKind::Text);
    assert_eq!(title.media_id, "");
    assert_eq!(title.text.expect("styled").content, "Lower third");

    let bare = read_clip(clip("c5", "T1", None, "text"), &lanes(), &bin(), &style()).expect("kept");
    assert_eq!(bare.text.expect("styled").content, "Your text", "a title without a style takes the default");

    let footage = read_clip(clip("c3", "T1", Some("m1"), "video"), &lanes(), &bin(), &style()).expect("kept");
    assert!(footage.text.is_none(), "only a title keeps a style");
    assert_eq!(footage.name, "clip", "an unnamed clip is a clip");
    assert!(footage.preserve_pitch);
}

#[test]
fn a_clip_reads_its_flags_and_transition() {
    let mut entry = clip("c1", "T1", Some("m1"), "audio");
    entry.muted = Some(false);
    entry.transition_in = Some(TransitionEntry { id: some("cross-fade"), duration: 0.5 });
    entry.detached_from = some("c0");
    let read = read_clip(entry, &lanes(), &bin(), &style()).expect("kept");
    assert_eq!(read.kind, ClipKind::Audio);
    assert_eq!(read.muted, None, "muted is only recorded when set");
    assert_eq!(read.detached_from.as_deref(), Some("c0"));
    let transition = read.transition_in.expect("kept");
    assert_eq!(transition.id, "cross-fade");
    assert_eq!(transition.duration, 0.5);

    let mut entry = clip("c2", "T1", Some("m1"), "image");
    entry.muted = Some(true);
    entry.transition_in = Some(TransitionEntry { id: None, duration: 1.0 });
    let read = read_clip(entry, &lanes(), &bin(), &style()).expect("kept");
    assert_eq!(read.kind, ClipKind::Image);
    assert_eq!(read.muted, Some(true));
    assert!(read.transition_in.is_none(), "a transition without an id is dropped");

    let mut nameless = clip("c3", "T1", Some("m1"), "video");
    nameless.id = None;
    assert!(read_clip(nameless, &lanes(), &bin(), &style()).is_none());
}

#[test]
fn timelines_skip_repeats_and_lane_less_entries() {
    let timelines = read_timelines(
        vec![
            TimelineEntry { id: some("TL1"), name: None, tracks: vec![track("T1")], clips: Vec::new(), effects: Vec::new() },
            TimelineEntry { id: some("TL1"), name: some("Again"), tracks: vec![track("T1")], clips: Vec::new(), effects: Vec::new() },
            TimelineEntry { id: some("tl2"), name: some("Empty"), tracks: Vec::new(), clips: Vec::new(), effects: Vec::new() },
            TimelineEntry { id: None, name: some("Anonymous"), tracks: vec![track("T1")], clips: Vec::new(), effects: Vec::new() },
            TimelineEntry { id: some("tl3"), name: some("B-roll"), tracks: vec![track("T1")], clips: Vec::new(), effects: Vec::new() },
        ],
        &bin(),
        &style(),
    );
    let ids: Vec<&str> = timelines.iter().map(|timeline| timeline.id.as_str()).collect();
    assert_eq!(ids, ["TL1", "tl3"]);
    assert_eq!(timelines[0].name, "Timeline", "an unnamed timeline is a timeline");
    assert!(timelines[0].effects.is_empty());
}

#[test]
fn the_active_timeline_falls_back_to_the_first() {
    let timelines = || {
        vec![
            TimelineEntry { id: some("TL1"), name: None, tracks: vec![track("T1")], clips: Vec::new(), effects: Vec::new() },
            TimelineEntry { id: some("tl2"), name: None, tracks: vec![track("T1")], clips: Vec::new(), effects: Vec::new() },
        ]
    };
    let named = DocumentEntry { timelines: timelines(), active_timeline_id: some("tl2"), ..empty_document() };
    assert_eq!(read_document(named, &style()).expect("loads").active_timeline_id, "tl2");
    let stale = DocumentEntry { timelines: timelines(), active_timeline_id: some("gone"), ..empty_document() };
    assert_eq!(read_document(stale, &style()).expect("loads").active_timeline_id, "TL1");
    let unset = DocumentEntry { timelines: timelines(), ..empty_document() };
    assert_eq!(read_document(unset, &style()).expect("loads").active_timeline_id, "TL1");
}

#[test]
fn the_timelines_array_wins_over_the_flat_fields_when_it_loads() {
    let document = DocumentEntry {
        timelines: vec![TimelineEntry { id: some("tl7"), name: some("Cut"), tracks: vec![track("T1")], clips: Vec::new(), effects: Vec::new() }],
        tracks: vec![track("T1"), track("T2")],
        ..empty_document()
    };
    let project = read_document(document, &style()).expect("loads");
    assert_eq!(project.timelines.len(), 1);
    assert_eq!(project.timelines[0].id, "tl7");

    // An unusable array falls back to the flat fields.
    let document = DocumentEntry {
        timelines: vec![TimelineEntry { id: some("tl7"), name: None, tracks: Vec::new(), clips: Vec::new(), effects: Vec::new() }],
        tracks: vec![track("T1"), track("T2")],
        ..empty_document()
    };
    let project = read_document(document, &style()).expect("loads");
    assert_eq!(project.timelines[0].id, "TL1");
    assert_eq!(project.timelines[0].tracks.len(), 2);
}

#[test]
fn fonts_need_a_family_and_a_path() {
    let document = DocumentEntry {
        tracks: vec![track("T1")],
        fonts: vec![
            FontEntry { family: some("Inter"), path: some("/fonts/Inter.ttf") },
            FontEntry { family: None, path: some("/fonts/lost.ttf") },
            FontEntry { family: some("Ghost"), path: None },
        ],
        ..empty_document()
    };
    let project = read_document(document, &style()).expect("loads");
    assert_eq!(project.fonts.len(), 1);
    assert_eq!(project.fonts[0].family, "Inter");
}

#[test]
fn text_alignment_is_read_by_name() {
    assert_eq!(text_align_named(&some("left")), TextAlign::Left);
    assert_eq!(text_align_named(&some("right")), TextAlign::Right);
    assert_eq!(text_align_named(&some("justify")), TextAlign::Center);
    assert_eq!(text_align_named(&None), TextAlign::Center);
}

#[test]
fn a_loaded_project_flattens_every_clip_but_its_titles() {
    let document = DocumentEntry {
        media: vec![media("m1", "/a.mp4")],
        tracks: vec![track("T1"), track("T2")],
        clips: vec![
            clip("c1", "T1", Some("m1"), "video"),
            clip("c2", "ghost", Some("m1"), "video"),
            clip("c3", "T2", None, "text"),
            clip("c4", "T2", Some("m1"), "audio"),
        ],
        ..empty_document()
    };
    let project = read_document(document, &style()).expect("loads");
    let flat = wolfcut::flatten::flatten_timeline(&project, None, |_| String::new(), |_| String::new());
    let paths: Vec<(&str, usize)> = flat.iter().map(|clip| (clip.path.as_str(), clip.track)).collect();
    assert_eq!(paths, [("/a.mp4", 0), ("/a.mp4", 1)]);
}

fn project_to_round_trip() -> Project<f64> {
    let mut project: Project<f64> = Project::new();
    let mut item = read_media_item(media("m1", "/a.mp4")).expect("kept");
    item.width = Some(1920);
    item.height = Some(1080);
    item.placeholder = true;
    project.media.push(item);
    project.fonts.push(CustomFont { family: "Inter".to_owned(), path: "/fonts/Inter.ttf".to_owned() });
    let footage = Clip {
        id: "c1".to_owned(),
        track_id: "T1".to_owned(),
        media_id: "m1".to_owned(),
        name: "a.mp4".to_owned(),
        kind: ClipKind::Video,
        start: 1.5,
        duration: 4.0,
        source_start: 0.25,
        volume: 0.8,
        fade_in: 0.5,
        fade_out: 0.0,
        scale: 1.2,
        offset_x: 0.1,
        offset_y: -0.1,
        rotation: 15.0,
        opacity: 0.9,
        blend_mode: BlendMode::Screen,
        speed: 2.0,
        preserve_pitch: false,
        filters: vec![AppliedFilter { id: "gain".to_owned(), params: vec![("db".to_owned(), -3.0)], enabled: true }],
        video_effects: vec![AppliedFilter { id: "sepia".to_owned(), params: Vec::new(), enabled: false }],
        muted: Some(true),
        detached_from: Some("c0".to_owned()),
        transition_in: Some(Transition { id: "cross-fade".to_owned(), duration: 0.5 }),
        text: None,
    };
    let title = Clip {
        id: "c2".to_owned(),
        track_id: "T2".to_owned(),
        media_id: String::new(),
        name: "Lower third".to_owned(),
        kind: ClipKind::Text,
        muted: None,
        detached_from: None,
        transition_in: None,
        filters: Vec::new(),
        video_effects: Vec::new(),
        blend_mode: BlendMode::Normal,
        text: Some(TextStyle { content: "Lower third".to_owned(), align: TextAlign::Left, ..style() }),
        ..footage.clone()
    };
    project.timelines[0].clips = vec![footage, title];
    project.timelines.push(Timeline {
        id: "tl2".to_owned(),
        name: "B-roll".to_owned(),
        tracks: vec![Track { id: "T1".to_owned(), name: "Track 1".to_owned(), visible: false, muted: true }],
        clips: Vec::new(),
        effects: Vec::new(),
    });
    project.active_timeline_id = "tl2".to_owned();
    project
}

#[test]
fn a_written_project_reads_back_whole() {
    let project = project_to_round_trip();
    let document = write_document(&project);
    assert_eq!(document.tracks.len(), 1, "the flat fields mirror the active timeline");
    assert_eq!(document.active_timeline_id.as_deref(), Some("tl2"));
    let restored = read_document(document, &style()).expect("loads");

    assert_eq!(restored.active_timeline_id, project.active_timeline_id);
    assert_eq!(restored.media.len(), 1);
    assert_eq!(restored.media[0].width, Some(1920));
    assert!(restored.media[0].placeholder, "the placeholder flag survives the document");
    assert_eq!(restored.fonts, project.fonts);
    assert_eq!(restored.timelines.len(), 2);
    for (restored, original) in restored.timelines.iter().zip(&project.timelines) {
        assert_eq!(restored.id, original.id);
        assert_eq!(restored.name, original.name);
        assert_eq!(restored.tracks, original.tracks);
        assert_eq!(restored.clips.len(), original.clips.len());
        for (a, b) in restored.clips.iter().zip(&original.clips) {
            assert_eq!(a.id, b.id);
            assert_eq!(a.kind, b.kind);
            assert_eq!(a.media_id, b.media_id);
            assert_eq!(a.start, b.start);
            assert_eq!(a.speed, b.speed);
            assert_eq!(a.blend_mode, b.blend_mode);
            assert_eq!(a.preserve_pitch, b.preserve_pitch);
            assert_eq!(a.muted, b.muted);
            assert_eq!(a.detached_from, b.detached_from);
            assert_eq!(a.filters.len(), b.filters.len());
            assert_eq!(a.video_effects.len(), b.video_effects.len());
            assert_eq!(a.transition_in.as_ref().map(|t| (&t.id, t.duration)), b.transition_in.as_ref().map(|t| (&t.id, t.duration)));
            assert_eq!(a.text.as_ref().map(|t| &t.content), b.text.as_ref().map(|t| &t.content));
        }
    }
    assert_eq!(restored.timelines[0].clips[0].filters[0].params, vec![("db".to_owned(), -3.0)]);
    assert!(!restored.timelines[0].clips[0].video_effects[0].enabled);
    assert_eq!(restored.timelines[0].clips[1].text.as_ref().expect("styled").align, TextAlign::Left);
}

#[test]
fn a_loaded_project_saves_and_reopens_unchanged() {
    let mut muted = clip("c5", "T1", Some("m1"), "audio");
    muted.muted = Some(false);
    let document = DocumentEntry {
        media: vec![media("m1", "/a.mp4")],
        tracks: vec![TrackEntry { id: some("T1"), name: None, visible: None, muted: None }],
        clips: vec![
            clip("c1", "T1", Some("m1"), "video"),
            clip("c2", "ghost", Some("m1"), "video"),
            clip("c3", "T1", Some("ghost"), "text"),
            muted,
        ],
        ..empty_document()
    };
    let loaded = read_document(document, &style()).expect("loads");
    let reloaded = read_document(write_document(&loaded), &style()).expect("loads again");
    assert_eq!(reloaded.active_timeline_id, loaded.active_timeline_id);
    assert_eq!(reloaded.timelines[0].tracks, loaded.timelines[0].tracks);
    let ids = |project: &Project<f64>| -> Vec<(String, String, Option<bool>)> {
        project.timelines[0]
            .clips
            .iter()
            .map(|clip| (clip.id.clone(), clip.media_id.clone(), clip.muted))
            .collect()
    };
    assert_eq!(ids(&reloaded), ids(&loaded));
    assert_eq!(
        ids(&loaded),
        vec![
            ("c1".to_owned(), "m1".to_owned(), None),
            ("c3".to_owned(), String::new(), None),
            ("c5".to_owned(), "m1".to_owned(), None),
        ]
    );
}
