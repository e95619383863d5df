use wolfcut::blend::BlendMode as EngineBlendMode;
use wolfcut::cache::{check_artwork_key, check_read_size, filmstrip_bounds, peaks_key, plausible_peaks};
use wolfcut::export::{append_filter, cancel_verdict, ClipKind, EncodeOptions};
use wolfcut::model::{engine_blend_mode, is_false, yes, BlendMode, ClipKind as DocumentClipKind};

#[test]
fn defaults_are_a_playable_h264_file() {
    let options = EncodeOptions::default();
    assert_eq!(options.codec, "libx264");
    assert_eq!(options.pixel_format, "yuv420p", "yuv444 will not play in browsers");
}

#[test]
fn the_encoder_defaults_ask_for_medium_quality_and_no_filter() {
    let options = EncodeOptions::default();
    assert_eq!(options.preset, "medium");
    assert_eq!(options.crf, 18);
    assert_eq!(options.video_filter, "");
}

#[test]
fn filters_append_comma_separated() {
    let mut chain = String::new();
    append_filter(&mut chain, "hue=s=0");
    assert_eq!(chain, "hue=s=0");
    append_filter(&mut chain, "fade=t=in:start_frame=0:nb_frames=15");
    assert_eq!(chain, "hue=s=0,fade=t=in:start_frame=0:nb_frames=15");
}

#[test]
fn a_requested_stop_cancels_the_export() {
    assert_eq!(cancel_verdict(false), Ok(()));
    assert_eq!(cancel_verdict(true), Err("export cancelled".to_owned()));
}

#[test]
fn visual_kinds_are_video_and_image() {
    assert!(ClipKind::Video.is_visual());
    assert!(ClipKind::Image.is_visual());
    assert!(!ClipKind::Audio.is_visual());
    assert!(DocumentClipKind::Video.is_visual());
    assert!(DocumentClipKind::Image.is_visual());
    assert!(!DocumentClipKind::Audio.is_visual());
    assert!(!DocumentClipKind::Text.is_visual());
}

#[test]
fn every_document_blend_mode_reaches_the_engine_under_its_own_name() {
    assert_eq!(engine_blend_mode(BlendMode::Normal), EngineBlendMode::Normal);
    assert_eq!(engine_blend_mode(BlendMode::Screen), EngineBlendMode::Screen);
    assert_eq!(engine_blend_mode(BlendMode::ColorDodge), EngineBlendMode::ColorDodge);
    assert_eq!(engine_blend_mode(BlendMode::Luminosity), EngineBlendMode::Luminosity);
    assert_eq!(BlendMode::default(), BlendMode::Normal);
    assert_eq!(EngineBlendMode::default(), EngineBlendMode::Normal);
}

#[test]
fn peaks_keys_are_fnv1a_of_the_path_with_the_bucket_rate() {
    // FNV-1a 64 of the empty string is the offset basis itself.
    assert_eq!(peaks_key(""), "cbf29ce484222325-b200.peaks");
    // Published FNV-1a 64 test vector for "a".
    assert_eq!(peaks_key("a"), "af63dc4c8601ec8c-b200.peaks");
    assert_ne!(peaks_key("/a.mp4"), peaks_key("/b.mp4"));
}

#[test]
fn peaks_bytes_must_have_the_encoded_shape() {
    assert!(!plausible_peaks(&[0; 7]));
    assert!(plausible_peaks(&[0; 8]), "zero buckets is a valid, empty waveform");
    let mut one = vec![0u8; 16];
    one[4] = 1;
    assert!(plausible_peaks(&one));
    one.push(0);
    assert!(!plausible_peaks(&one), "a trailing byte is corruption");
}

#[test]
fn artwork_keys_are_one_flat_file_name() {
    assert_eq!(check_artwork_key("preview.jpg"), Ok(()));
    assert_eq!(check_artwork_key("a-b_c.9"), Ok(()));
    assert_eq!(check_artwork_key(""), Err("refusing artwork key \"\"".to_owned()));
    assert_eq!(check_artwork_key(".hidden"), Err("refusing artwork key \".hidden\"".to_owned()));
    assert_eq!(check_artwork_key("../x"), Err("refusing artwork key \"../x\"".to_owned()));
    assert_eq!(check_artwork_key("a\"b"), Err("refusing artwork key \"a\\\"b\"".to_owned()));
}

#[test]
fn reads_over_the_cap_are_refused_with_the_sizes() {
    assert_eq!(check_read_size("/a.png", 67_108_864), Ok(()));
    assert_eq!(
        check_read_size("/a.png", 67_108_865),
        Err("refusing to read /a.png: 67108865 bytes is over the 67108864 byte limit".to_owned())
    );
}

#[test]
fn filmstrips_clamp_count_and_height() {
    assert_eq!(filmstrip_bounds(0, 0), (1, 16));
    assert_eq!(filmstrip_bounds(24, 90), (24, 90));
    assert_eq!(filmstrip_bounds(1000, 1000), (60, 240));
}

#[test]
fn flags_default_on_and_serialise_only_when_set() {
    assert!(yes());
    assert!(is_false(&false));
    assert!(!is_false(&true));
}
