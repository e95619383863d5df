use wolfcut::effects::{effect_graph_of, EffectStage};
use wolfcut::export::{append_filter, ClipKind, ExportClip, TransitionSpec};
use wolfcut::model::BlendMode;
use wolfcut::transitions::{
    collect_cuts, cut_style, double_lanes, fade_in_filter, fade_out_filter, picture_clips, shows_picture,
    sound_clips, CutStyle,
};

fn clip(kind: &str, track: usize, start: f64, duration: f64, source_start: f64) -> ExportClip<f64> {
    ExportClip {
        path: format!("{kind}.mp4"),
        kind: match kind {
            "audio" => ClipKind::Audio,
            "image" => ClipKind::Image,
            _ => ClipKind::Video,
        },
        start,
        duration,
        source_start,
        track,
        hidden: false,
        muted: false,
        volume: 1.0,
        fade_in: 0.0,
        fade_out: 0.0,
        filter_chain: String::new(),
        speed: 1.0,
        preserve_pitch: true,
        scale: 1.0,
        offset_x: 0.0,
        offset_y: 0.0,
        rotation: 0.0,
        opacity: 1.0,
        blend_mode: BlendMode::Normal,
        video_filter_chain: String::new(),
        transition: None,
        video_fade_in: 0.0,
        media_width: None,
        media_height: None,
        has_audio: None,
    }
}

fn stage(chain: &str, weight: &str, gate: &str) -> EffectStage {
    EffectStage { chain: chain.to_owned(), weight: weight.to_owned(), gate: gate.to_owned() }
}

#[test]
fn track_indices_are_doubled_for_everyone() {
    let mut clips = vec![clip("video", 0, 0.0, 2.0, 0.0), clip("audio", 3, 0.0, 2.0, 0.0)];
    double_lanes(&mut clips);
    assert_eq!(clips[0].track, 0);
    assert_eq!(clips[1].track, 6);
    assert_eq!(clips[1].path, "audio.mp4", "nothing else about a clip changes");
}

#[test]
fn transition_kinds_resolve_by_name() {
    assert_eq!(cut_style("cross-fade", true), CutStyle::CrossFade);
    assert_eq!(cut_style("cross-fade", false), CutStyle::CrossFade);
    assert_eq!(cut_style("fade-black", true), CutStyle::FadeBlack);
    assert_eq!(cut_style("fade-white", true), CutStyle::FadeWhite);
    assert_eq!(cut_style("fade-black", false), CutStyle::Plain, "unbaked fades are plain cuts");
    assert_eq!(cut_style("wipe-left", true), CutStyle::Plain, "an unknown kind is a plain cut");
}

#[test]
fn fade_filters_count_frames_on_each_side_of_the_cut() {
    // Half a second each side of a cut between four-second clips at 30fps:
    // 15 frames of a 120-frame clip.
    assert_eq!(fade_out_filter(120, 15, false), "fade=t=out:start_frame=105:nb_frames=15");
    assert_eq!(fade_in_filter(15, false), "fade=t=in:start_frame=0:nb_frames=15");
}

#[test]
fn a_fade_to_white_ends_with_its_colour() {
    assert!(fade_out_filter(60, 8, true).ends_with(":color=white"));
    assert_eq!(fade_in_filter(8, true), "fade=t=in:start_frame=0:nb_frames=8:color=white");
}

#[test]
fn a_fade_lasts_a_frame_and_never_starts_before_the_clip() {
    assert_eq!(fade_in_filter(0, false), "fade=t=in:start_frame=0:nb_frames=1");
    assert_eq!(fade_out_filter(10, -3, false), "fade=t=out:start_frame=9:nb_frames=1");
    assert_eq!(fade_out_filter(10, 25, false), "fade=t=out:start_frame=0:nb_frames=25");
}

#[test]
fn a_fade_appends_after_the_clips_own_effects() {
    let mut chain = "hue=s=0".to_owned();
    append_filter(&mut chain, &fade_in_filter(15, false));
    assert!(chain.starts_with("hue=s=0,fade=t=in"), "was: {chain}");
}

#[test]
fn only_shown_pictures_take_part_in_cuts() {
    let mut hidden = clip("video", 0, 0.0, 2.0, 0.0);
    hidden.hidden = true;
    assert!(!shows_picture(&hidden));
    assert!(!shows_picture(&clip("audio", 0, 0.0, 2.0, 0.0)));
    assert!(shows_picture(&clip("image", 0, 0.0, 2.0, 0.0)));
    assert!(shows_picture(&clip("video", 0, 0.0, 2.0, 0.0)));
}

#[test]
fn the_picture_and_the_sound_take_their_own_clips() {
    let mut muted_video = clip("video", 1, 0.0, 2.0, 0.0);
    muted_video.muted = true;
    let mut hidden_image = clip("image", 2, 0.0, 2.0, 0.0);
    hidden_image.hidden = true;
    let mut muted_audio = clip("audio", 3, 0.0, 2.0, 0.0);
    muted_audio.muted = true;
    let clips = vec![
        clip("video", 0, 0.0, 2.0, 0.0),
        clip("audio", 1, 0.0, 2.0, 0.0),
        muted_video,
        hidden_image,
        muted_audio,
        clip("image", 4, 0.0, 2.0, 0.0),
    ];
    assert_eq!(picture_clips(&clips), vec![0, 2, 5]);
    // Sound-only clips mix first, then the footage that carries its own.
    assert_eq!(sound_clips(&clips), vec![1, 0]);
}

#[test]
fn no_stages_means_no_graph() {
    assert_eq!(effect_graph_of(&Vec::new()), None);
}

#[test]
fn a_hard_effect_shows_the_filtered_branch_whole() {
    // A gaussian blur from 2s for 3s with no eases: the catalogue's chain, a
    // weight of the whole filtered branch, and a gate over its span.
    let graph = effect_graph_of(&vec![stage("gblur=sigma=10.0", "B", "between(t,2.000000,5.000000)")])
        .expect("a graph");
    assert_eq!(
        graph,
        "split[c0][s0];[s0]gblur=sigma=10.0[f0];\
         [c0][f0]blend=all_expr='B':enable='between(t,2.000000,5.000000)'"
    );
}

#[test]
fn effects_stack_in_order_each_seeing_the_last() {
    let graph = effect_graph_of(&vec![
        stage("gblur=sigma=10.0", "B", "between(t,0.000000,2.000000)"),
        stage("gblur=sigma=10.0", "B", "between(t,1.000000,3.000000)"),
    ])
    .expect("a graph");
    assert!(graph.contains("[o0]split[c1][s1]"), "{graph}");
    assert!(!graph.ends_with("[o1]"), "the graph must end unlabelled: {graph}");
    assert_eq!(graph.matches("blend=").count(), 2);
}

#[test]
fn the_graph_starts_unlabelled_so_vf_will_take_it() {
    let graph = effect_graph_of(&vec![stage("gblur=sigma=10.0", "B", "between(t,0.000000,2.000000)")])
        .expect("a graph");
    assert!(graph.starts_with("split["), "{graph}");
}

#[test]
fn three_stages_chain_their_labels() {
    let graph = effect_graph_of(&vec![stage("a", "B", "g0"), stage("b", "B", "g1"), stage("c", "B", "g2")])
        .expect("a graph");
    assert_eq!(
        graph,
        "split[c0][s0];[s0]a[f0];[c0][f0]blend=all_expr='B':enable='g0'[o0];\
         [o0]split[c1][s1];[s1]b[f1];[c1][f1]blend=all_expr='B':enable='g1'[o1];\
         [o1]split[c2][s2];[s2]c[f2];[c2][f2]blend=all_expr='B':enable='g2'"
    );
}

fn spec(kind: &str, duration: f64) -> Option<TransitionSpec<f64>> {
    Some(TransitionSpec { kind: kind.to_owned(), duration })
}

fn meets_at_thirty(other: &ExportClip<f64>, clip: &ExportClip<f64>) -> bool {
    (other.start + other.duration - clip.start).abs() < (1.0 / 30.0) / 2.0
}

#[test]
fn a_cut_pairs_the_incoming_clip_with_the_one_ending_where_it_starts() {
    let mut clips = vec![clip("video", 0, 0.0, 4.0, 0.0), clip("video", 0, 4.0, 4.0, 2.0)];
    clips[1].transition = spec("cross-fade", 1.0);
    let cuts = collect_cuts(&clips, meets_at_thirty);
    assert_eq!(cuts.len(), 1);
    assert_eq!((cuts[0].incoming, cuts[0].outgoing), (1, 0));
    assert_eq!(cuts[0].kind, "cross-fade");
    assert_eq!(cuts[0].duration, 1.0);
}

#[test]
fn a_transition_with_no_adjacent_clip_has_no_cut() {
    let mut clips = vec![clip("video", 0, 0.0, 2.0, 0.0), clip("video", 0, 5.0, 2.0, 0.0)];
    clips[1].transition = spec("cross-fade", 1.0);
    assert!(collect_cuts(&clips, meets_at_thirty).is_empty());
}

#[test]
fn only_pictures_on_the_same_lane_meet_at_a_cut() {
    let mut clips = vec![
        clip("video", 1, 0.0, 4.0, 0.0),
        clip("audio", 0, 0.0, 4.0, 0.0),
        clip("video", 0, 4.0, 4.0, 0.0),
    ];
    clips[2].transition = spec("fade-black", 1.0);
    assert!(collect_cuts(&clips, meets_at_thirty).is_empty(), "a sound or another lane is no cut");

    let mut hidden = clip("video", 0, 0.0, 4.0, 0.0);
    hidden.hidden = true;
    let mut clips = vec![hidden, clip("video", 0, 4.0, 4.0, 0.0)];
    clips[1].transition = spec("fade-black", 1.0);
    assert!(collect_cuts(&clips, meets_at_thirty).is_empty(), "a hidden lane is no cut");
}

#[test]
fn a_clip_that_meets_itself_first_has_no_cut() {
    // A clip too short to tell its start from its end is its own first
    // match, and that is no cut even though a later clip meets it too.
    let mut clips = vec![clip("video", 0, 4.0, 0.0, 0.0), clip("video", 0, 0.0, 4.0, 0.0)];
    clips[0].transition = spec("cross-fade", 1.0);
    assert!(collect_cuts(&clips, meets_at_thirty).is_empty());
}
