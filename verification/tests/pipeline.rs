use webp_anim::AnimationEncoder;
use webp_anim::EncoderOptions;
use webp_anim::Error;
use webp_anim::FrameConfig;
use webp_anim::FrameJob;
use webp_anim::Plan;
use webp_anim::RawImage;
use webp_anim::apply_transform;
use webp_anim::plan;

fn toks(list: &[&str]) -> Vec<String> {
    list.iter().map(|s| s.to_string()).collect()
}

fn jobs_of(names: &[&str]) -> Vec<FrameJob> {
    names
        .iter()
        .map(|n| FrameJob { path: n.to_string(), config: FrameConfig::default() })
        .collect()
}

fn paths(jobs: &[FrameJob]) -> Vec<String> {
    jobs.iter().map(|j| j.path.clone()).collect()
}

fn gray_image(w: u32, h: u32) -> RawImage {
    RawImage::new(w, h, vec![128u8; (w * h * 4) as usize]).unwrap()
}

#[test]
fn reverse_inverts_order_and_keeps_length() {
    let out = apply_transform(jobs_of(&["a", "b", "c", "d"]), true, false);
    assert_eq!(paths(&out), vec!["d", "c", "b", "a"]);
}

#[test]
fn ping_pong_trims_boundary_frames_above_two() {
    let out = apply_transform(jobs_of(&["a", "b", "c"]), false, true);
    assert_eq!(paths(&out), vec!["a", "b", "c", "b"]);
    let out5 = apply_transform(jobs_of(&["a", "b", "c", "d", "e"]), false, true);
    assert_eq!(paths(&out5), vec!["a", "b", "c", "d", "e", "d", "c", "b"]);
    assert_eq!(out5.len(), 2 * 5 - 2);
}

#[test]
fn ping_pong_skips_trimming_at_two_jobs() {
    let out = apply_transform(jobs_of(&["a", "b"]), false, true);
    assert_eq!(paths(&out), vec!["a", "b", "b", "a"]);
}

#[test]
fn ping_pong_leaves_tiny_lists_alone() {
    let out1 = apply_transform(jobs_of(&["a"]), false, true);
    assert_eq!(paths(&out1), vec!["a"]);
    let out0 = apply_transform(jobs_of(&[]), false, true);
    assert!(out0.is_empty());
}

#[test]
fn cascade_snapshots_config_at_each_path() {
    let t = toks(&["-q", "50", "a.png", "-q", "20.5", "-lossy", "b.png", "c.png"]);
    match plan(&t) {
        Plan::Encode(e) => {
            assert_eq!(e.jobs.len(), 3);
            assert_eq!(e.jobs[0].path, "a.png");
            assert_eq!(e.jobs[0].config.quality_centi, 5000);
            assert!(!e.jobs[0].config.lossy);
            assert_eq!(e.jobs[1].path, "b.png");
            assert_eq!(e.jobs[1].config.quality_centi, 2050);
            assert!(e.jobs[1].config.lossy);
            assert_eq!(e.jobs[2].config.quality_centi, 2050);
        }
        _ => panic!("expected an encode plan"),
    }
}

#[test]
fn emitted_jobs_are_frozen_against_later_flags() {
    let t = toks(&["-d", "40", "a.png", "-d", "90", "b.png"]);
    match plan(&t) {
        Plan::Encode(e) => {
            assert_eq!(e.jobs[0].config.duration, 40);
            assert_eq!(e.jobs[1].config.duration, 90);
        }
        _ => panic!("expected an encode plan"),
    }
}

#[test]
fn global_flags_fill_options_and_base_config() {
    let t = toks(&[
        "-kmin", "3", "-kmax", "9", "-loop", "2", "-min_size", "-mixed", "-sharp_yuv", "-v",
        "-near_lossless", "60", "-alpha_q", "80", "-alpha_method", "0", "-alpha_filter", "2",
        "-o", "out.webp", "x.png",
    ]);
    match plan(&t) {
        Plan::Encode(e) => {
            assert_eq!(e.options.kmin, 3);
            assert_eq!(e.options.kmax, 9);
            assert!(e.options.minimize_size);
            assert!(e.options.allow_mixed);
            assert!(e.options.verbose);
            assert_eq!(e.loop_count, 2);
            assert_eq!(e.output_path, "out.webp");
            assert_eq!(e.jobs.len(), 1);
            let c = &e.jobs[0].config;
            assert!(c.lossy, "-mixed switches the base config to lossy");
            assert!(c.use_sharp_yuv);
            assert_eq!(c.near_lossless, 60);
            assert_eq!(c.alpha_quality, 80);
            assert_eq!(c.alpha_compression, 0);
            assert_eq!(c.alpha_filtering, 2);
        }
        _ => panic!("expected an encode plan"),
    }
}

#[test]
fn reverse_request_reverses_planned_jobs() {
    let t = toks(&["-reverse", "a.png", "b.png", "c.png"]);
    match plan(&t) {
        Plan::Encode(e) => assert_eq!(paths(&e.jobs), vec!["c.png", "b.png", "a.png"]),
        _ => panic!("expected an encode plan"),
    }
}

#[test]
fn unknown_options_are_collected_not_fatal() {
    let t = toks(&["-zzz", "a.png", "-qqq", "b.png"]);
    match plan(&t) {
        Plan::Encode(e) => {
            assert_eq!(e.unknown, vec!["-zzz", "-qqq"]);
            assert_eq!(e.jobs.len(), 2);
        }
        _ => panic!("expected an encode plan"),
    }
}

#[test]
fn trailing_value_flag_is_reported_unknown() {
    let t = toks(&["a.png", "-o"]);
    match plan(&t) {
        Plan::Encode(e) => {
            assert_eq!(e.output_path, "");
            assert_eq!(e.unknown, vec!["-o"]);
        }
        _ => panic!("expected an encode plan"),
    }
}

#[test]
fn no_path_tokens_reports_no_input_frames() {
    match plan(&toks(&["-loop", "5", "-v"])) {
        Plan::NoInputFrames(unknown) => assert!(unknown.is_empty()),
        _ => panic!("expected the no-input-frames outcome"),
    }
}

#[test]
fn empty_and_help_and_version_tokens() {
    assert!(matches!(plan(&toks(&[])), Plan::ShowHelp));
    assert!(matches!(plan(&toks(&["-h"])), Plan::ShowHelp));
    assert!(matches!(plan(&toks(&["a.png", "-help"])), Plan::ShowHelp));
    assert!(matches!(plan(&toks(&["a.png", "-version"])), Plan::ShowVersion));
    assert!(matches!(plan(&toks(&["-version", "-h"])), Plan::ShowVersion));
}

#[test]
fn timestamps_accumulate_and_terminator_lands_after_last_frame() {
    let opts = EncoderOptions::default();
    let mut enc = AnimationEncoder::new(10, 10, &opts);
    let img = gray_image(10, 10);
    let durations = [100, 250, 0];
    let mut seen: Vec<i32> = Vec::new();
    for d in durations {
        let cfg = FrameConfig { duration: d, ..FrameConfig::default() };
        seen.push(enc.add_frame(&img, &cfg).unwrap());
    }
    assert_eq!(seen, vec![0, 100, 350]);
    assert_eq!(enc.timestamp_ms, 350);
    assert_eq!(enc.assemble(), 350);
}

#[test]
fn three_equal_frames_place_terminator_at_300() {
    let opts = EncoderOptions::default();
    let mut enc = AnimationEncoder::new(10, 10, &opts);
    let img = gray_image(10, 10);
    let cfg = FrameConfig::default();
    assert_eq!(enc.add_frame(&img, &cfg).unwrap(), 0);
    assert_eq!(enc.add_frame(&img, &cfg).unwrap(), 100);
    assert_eq!(enc.add_frame(&img, &cfg).unwrap(), 200);
    assert_eq!(enc.frames_added, 3);
    assert_eq!(enc.assemble(), 300);
}

#[test]
fn dimension_mismatch_aborts_the_frame() {
    let opts = EncoderOptions::default();
    let mut enc = AnimationEncoder::new(10, 10, &opts);
    let first = gray_image(10, 10);
    assert!(enc.add_frame(&first, &FrameConfig::default()).is_ok());
    let odd = gray_image(5, 5);
    assert_eq!(
        enc.add_frame(&odd, &FrameConfig::default()),
        Err(Error::DimensionMismatch)
    );
    assert_eq!(enc.timestamp_ms, 100);
}

#[test]
fn invalid_config_is_rejected_before_commit() {
    let opts = EncoderOptions::default();
    let mut enc = AnimationEncoder::new(4, 4, &opts);
    let img = gray_image(4, 4);
    let bad = FrameConfig { duration: -5, ..FrameConfig::default() };
    assert_eq!(enc.add_frame(&img, &bad), Err(Error::InvalidConfig));
    let bad_q = FrameConfig { quality_centi: 10001, ..FrameConfig::default() };
    assert_eq!(enc.add_frame(&img, &bad_q), Err(Error::InvalidConfig));
    assert_eq!(enc.timestamp_ms, 0);
}

#[test]
fn raw_image_checks_buffer_size() {
    assert!(RawImage::new(10, 10, vec![0u8; 400]).is_some());
    assert!(RawImage::new(10, 10, vec![0u8; 399]).is_none());
    assert!(RawImage::new(0, 0, Vec::new()).is_some());
}

#[test]
fn config_defaults_match_documented_values() {
    let c = FrameConfig::default();
    assert!(!c.lossy);
    assert_eq!(c.quality_centi, 7500);
    assert_eq!(c.method, 4);
    assert_eq!(c.duration, 100);
    assert!(!c.exact);
    assert_eq!(c.near_lossless, 100);
    assert!(!c.use_sharp_yuv);
    assert_eq!(c.alpha_quality, 100);
    assert_eq!(c.alpha_filtering, 1);
    assert_eq!(c.alpha_compression, 1);
    let o = EncoderOptions::default();
    assert!(!o.minimize_size && !o.allow_mixed && !o.verbose);
    assert_eq!((o.kmin, o.kmax), (0, 0));
}
