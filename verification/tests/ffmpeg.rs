use wolfcut::export::EncodeOptions;
use wolfcut::ffmpeg::{encoder_arguments, filter_arguments, frame_bytes, FilterPool};

#[test]
fn the_encoder_takes_raw_rgba_at_an_exact_rate() {
    let arguments = encoder_arguments(1920, 1080, 30000, 1001, &EncodeOptions::default(), "/out/film.mp4");
    assert_eq!(
        arguments,
        [
            "-y", "-f", "rawvideo", "-pix_fmt", "rgba", "-s", "1920x1080", "-r", "30000/1001",
            "-i", "pipe:0", "-c:v", "libx264", "-preset", "medium", "-crf", "18", "-pix_fmt",
            "yuv420p", "-movflags", "+faststart", "/out/film.mp4",
        ]
    );
}

#[test]
fn a_picture_filter_rides_in_front_of_the_codec() {
    let options = EncodeOptions {
        crf: 23,
        preset: "fast".to_owned(),
        video_filter: "split[c0][s0];[s0]hue=s=0[f0];[c0][f0]blend=all_expr='B'".to_owned(),
        ..EncodeOptions::default()
    };
    let arguments = encoder_arguments(640, 360, -30, 1, &options, "o.mp4");
    let at = arguments.iter().position(|argument| argument == "-vf").expect("a filter");
    assert_eq!(arguments[at + 1], options.video_filter);
    assert_eq!(arguments[at + 2], "-c:v");
    assert!(arguments.contains(&"-30/1".to_owned()));
    assert!(arguments.contains(&"23".to_owned()));
    assert!(arguments.contains(&"fast".to_owned()));
}

#[test]
fn a_frame_filter_reads_and_writes_raw_rgba() {
    assert_eq!(
        filter_arguments(960, 540, "gblur=sigma=10.0"),
        [
            "-f", "rawvideo", "-pix_fmt", "rgba", "-s", "960x540", "-i", "pipe:0", "-vf",
            "gblur=sigma=10.0", "-f", "rawvideo", "-pix_fmt", "rgba", "-flush_packets", "1",
            "pipe:1",
        ]
    );
}

#[test]
fn a_frame_is_four_bytes_a_pixel() {
    assert_eq!(frame_bytes(960, 540), 960 * 540 * 4);
    assert_eq!(frame_bytes(0, 540), 0);
}

#[test]
fn the_pool_keeps_one_filter_per_chain_and_size() {
    let mut pool: FilterPool<u32> = FilterPool::new();
    let first = pool.slot("blur", 64, 64, || Ok::<u32, String>(1)).expect("started");
    let again = pool.slot("blur", 64, 64, || Ok::<u32, String>(2)).expect("reused");
    assert_eq!(first, again);
    assert_eq!(*pool.filter_mut(first), 1, "the running filter is reused, not restarted");
    let other = pool.slot("blur", 32, 32, || Ok::<u32, String>(3)).expect("started");
    assert_ne!(first, other, "another size is another process");
    assert_eq!(pool.len(), 2);
    assert_eq!(pool.position("blur", 32, 32), Some(other));
    assert_eq!(pool.position("sepia", 32, 32), None);
}

#[test]
fn a_filter_that_fails_to_start_leaves_the_pool_alone() {
    let mut pool: FilterPool<u32> = FilterPool::new();
    pool.slot("blur", 64, 64, || Ok::<u32, String>(1)).expect("started");
    let failed = pool.slot("sepia", 64, 64, || Err::<u32, String>("no ffmpeg".to_owned()));
    assert_eq!(failed, Err("no ffmpeg".to_owned()));
    assert_eq!(pool.len(), 1);
}

#[test]
fn a_dead_filter_is_dropped_and_retain_keeps_only_wanted_chains() {
    let mut pool: FilterPool<u32> = FilterPool::new();
    for (index, chain) in ["blur", "sepia", "vignette"].iter().enumerate() {
        pool.slot(chain, 64, 64, || Ok::<u32, String>(index as u32)).expect("started");
    }
    let dead = pool.position("sepia", 64, 64).expect("running");
    pool.remove(dead);
    assert_eq!(pool.position("sepia", 64, 64), None);
    assert_eq!(pool.len(), 2);

    pool.retain(&vec!["vignette".to_owned()]);
    assert_eq!(pool.len(), 1);
    assert_eq!(pool.position("blur", 64, 64), None);
    let kept = pool.position("vignette", 64, 64).expect("kept");
    assert_eq!(*pool.filter_mut(kept), 2);
}
