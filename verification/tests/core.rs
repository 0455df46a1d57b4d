use vidclip::batch::{BatchRun, RunPhase};
use vidclip::paths::{generate_output_path, plan_output_path, plan_rename};
use vidclip::preview::PreviewTarget;
use vidclip::probe::parse_probe_output;
use vidclip::progress::{parse_progress_line, progress_units_of_millis, PROGRESS_UNIT_DENOMINATOR};
use vidclip::push_unique;
use vidclip::sanitize::sanitize_filename;
use vidclip::task::{build_task_args, exit_result, BatchTask, TaskArgsError};
use vidclip::template::render_template;
use vidclip::timecode::{format_duration, parse_hms};

fn allowed(c: char) -> bool {
    c.is_ascii_alphanumeric()
        || c == '_'
        || c == '.'
        || c == '/'
        || ('\u{4e00}'..='\u{9fff}').contains(&c)
}

#[test]
fn sanitize_strips_disallowed_characters() {
    assert_eq!(sanitize_filename("he llo@!.mp4"), "hello.mp4");
    assert_eq!(sanitize_filename("视频 文件.mp4"), "视频文件.mp4");
    assert_eq!(sanitize_filename("a-b+c=d.mkv"), "abcd.mkv");
}

#[test]
fn sanitize_collapses_stem_dots() {
    assert_eq!(sanitize_filename("a.b.c.mp4"), "abc.mp4");
    assert_eq!(sanitize_filename("archive.tar.gz"), "archivetar.gz");
    assert_eq!(sanitize_filename("trailing."), "trailing");
    assert_eq!(sanitize_filename(".hidden"), ".hidden");
    assert_eq!(sanitize_filename("nodots"), "nodots");
}

#[test]
fn sanitize_is_idempotent_on_fuzzed_inputs() {
    let samples = [
        "he llo@!.mp4",
        "视频 文件.mp4",
        "a.b.c.d.e",
        "  !!~~``((]] ",
        "x/y/z/clip 01.final.mov",
        "",
        "....",
        "日本語テスト漢字.txt",
        "!@#$%^&*()",
        "mixed 视频 and spaces.tar.gz",
    ];
    for s in samples {
        let once = sanitize_filename(s);
        let twice = sanitize_filename(&once);
        assert_eq!(once, twice, "not idempotent on {:?}", s);
        assert!(once.chars().all(allowed), "kept a stray character of {:?}", s);
    }
}

#[test]
fn render_substitutes_tokens() {
    let r = render_template("{input_name}_{rotation}", "clip", 90, "TS", "D", "T");
    assert_eq!(r, "clip_90");
    let r = render_template(
        "{input_name}_{rotation}_{timestamp}_{date}_{time}",
        "v",
        270,
        "20240102030405",
        "2024-01-02",
        "03-04-05",
    );
    assert_eq!(r, "v_270_20240102030405_2024-01-02_03-04-05");
}

#[test]
fn render_leaves_unresolved_tokens_verbatim() {
    let r = render_template("{unknown} and plain text", "clip", 90, "TS", "D", "T");
    assert_eq!(r, "{unknown} and plain text");
}

#[test]
fn render_keeps_unknown_tokens_beside_fixed_ones() {
    let r = render_template("{foo}_{rotation}", "clip", 90, "TS", "D", "T");
    assert_eq!(r, "{foo}_90");
    let r = render_template("{input_name}{bar}{time}", "clip", 0, "TS", "D", "T");
    assert_eq!(r, "clip{bar}T");
}

#[test]
fn output_path_appends_extension_when_missing() {
    let r = plan_output_path("movie.mp4", "", "clip", 0, "TS", "D", "T");
    assert_eq!(r, "clip.mp4");
}

#[test]
fn output_path_keeps_name_with_dot_unmodified() {
    let r = plan_output_path("movie.mp4", "", "clip.out", 0, "TS", "D", "T");
    assert_eq!(r, "clip.out");
}

#[test]
fn output_path_joins_and_sanitizes() {
    let r = plan_output_path("/in/my movie.mp4", "out dir", "{input_name}_x", 0, "TS", "D", "T");
    assert_eq!(r, "outdir/mymovie_x.mp4");
}

#[test]
fn generated_output_path_without_time_tokens_is_deterministic() {
    let r = generate_output_path("movie.mp4", "out", "clip", 0);
    assert_eq!(r, "out/clip.mp4");
}

#[test]
fn rename_plan_sanitizes_only_the_file_name() {
    assert_eq!(plan_rename("dir/a b.mp4"), "dir/ab.mp4");
    assert_eq!(plan_rename("a b.mp4"), "ab.mp4");
}

#[test]
fn progress_line_three_part_time() {
    let ms = parse_progress_line("frame=10 time=00:01:30.50 bitrate=1000k").unwrap();
    assert_eq!(ms, 90_500);
    let units = progress_units_of_millis(ms);
    assert_eq!(units as f64 / PROGRESS_UNIT_DENOMINATOR as f64, 0.905);
}

#[test]
fn progress_line_two_part_time() {
    let ms = parse_progress_line("time=01:30.50").unwrap();
    assert_eq!(ms, 90_500);
    assert_eq!(ms as f64 / 100_000.0, 0.905);
}

#[test]
fn progress_line_accepts_wide_hour_fields() {
    let ms = parse_progress_line("time=100:00:00.00 bitrate=1k").unwrap();
    assert_eq!(ms, 360_000_000);
    let ms = parse_progress_line("time=123:04:05.67").unwrap();
    assert_eq!(ms, 123 * 3_600_000 + 4 * 60_000 + 5_670);
}

#[test]
fn progress_line_without_marker_or_malformed() {
    assert_eq!(parse_progress_line("frame=10 fps=25 bitrate=1000k"), None);
    assert_eq!(parse_progress_line("time=abc"), None);
    assert_eq!(parse_progress_line("time="), None);
    assert_eq!(parse_progress_line("time=1:2:3:4"), None);
}

#[test]
fn progress_units_clamp_to_full() {
    assert_eq!(progress_units_of_millis(250_000), PROGRESS_UNIT_DENOMINATOR);
}

fn task(start: &str, end: &str, rotation: i32) -> BatchTask {
    BatchTask::new(
        "in.mp4".to_string(),
        "out/in_x.mp4".to_string(),
        start.to_string(),
        end.to_string(),
        rotation,
    )
}

#[test]
fn reversed_clip_range_still_copies_the_full_file() {
    let args = build_task_args(&task("0:00:10", "0:00:05", 0)).unwrap();
    assert!(!args.contains(&"-ss".to_string()));
    assert!(!args.contains(&"-to".to_string()));
    assert_eq!(
        args,
        vec!["-i", "in.mp4", "-c:v", "copy", "-c:a", "copy", "out/in_x.mp4"]
            .into_iter()
            .map(String::from)
            .collect::<Vec<_>>()
    );
}

#[test]
fn equal_clip_range_still_copies_the_full_file() {
    let args = build_task_args(&task("0:00:05", "0:00:05", 0)).unwrap();
    assert_eq!(
        args,
        vec!["-i", "in.mp4", "-c:v", "copy", "-c:a", "copy", "out/in_x.mp4"]
            .into_iter()
            .map(String::from)
            .collect::<Vec<_>>()
    );
}

#[test]
fn valid_clip_range_emits_stream_copy_arguments() {
    let args = build_task_args(&task("0:00:05", "0:00:10", 0)).unwrap();
    assert_eq!(
        args,
        vec![
            "-i", "in.mp4", "-ss", "0:00:05", "-to", "0:00:10", "-c:v", "copy", "-c:a", "copy",
            "out/in_x.mp4",
        ]
        .into_iter()
        .map(String::from)
        .collect::<Vec<_>>()
    );
}

#[test]
fn rotation_adds_metadata_tag() {
    let args = build_task_args(&task("0:00:10", "0:00:05", 90)).unwrap();
    assert_eq!(
        args,
        vec![
            "-i", "in.mp4", "-c:v", "copy", "-c:a", "copy", "-metadata:s:v", "rotate=90",
            "out/in_x.mp4",
        ]
        .into_iter()
        .map(String::from)
        .collect::<Vec<_>>()
    );
}

#[test]
fn clipping_with_rotation_names_the_output_once() {
    let args = build_task_args(&task("0:00:05", "0:00:10", 180)).unwrap();
    assert_eq!(
        args,
        vec![
            "-i", "in.mp4", "-ss", "0:00:05", "-to", "0:00:10", "-c:v", "copy", "-c:a", "copy",
            "-metadata:s:v", "rotate=180", "out/in_x.mp4",
        ]
        .into_iter()
        .map(String::from)
        .collect::<Vec<_>>()
    );
    assert_eq!(args.iter().filter(|a| *a == "out/in_x.mp4").count(), 1);
}

#[test]
fn malformed_times_are_task_errors() {
    assert_eq!(
        build_task_args(&task("oops", "0:00:05", 0)).unwrap_err(),
        TaskArgsError::MalformedStartTime
    );
    assert_eq!(
        build_task_args(&task("0:00:05", "99:99:99", 0)).unwrap_err(),
        TaskArgsError::MalformedEndTime
    );
}

#[test]
fn exit_codes_map_to_outcomes() {
    assert!(exit_result(Some(0)).is_ok());
    assert_eq!(exit_result(Some(1)).unwrap_err(), "ffmpeg failed with exit code 1");
    assert_eq!(exit_result(Some(-9)).unwrap_err(), "ffmpeg failed with exit code -9");
    assert_eq!(exit_result(None).unwrap_err(), "ffmpeg was terminated by a signal");
}

#[test]
fn failed_task_halts_the_remaining_queue() {
    let tasks = vec![
        task("0:00:00", "0:00:01", 0),
        task("0:00:01", "0:00:02", 0),
        task("0:00:02", "0:00:03", 0),
    ];
    let mut run = BatchRun::start(tasks);

    let t1 = run.take_next(false);
    assert!(t1.is_some());
    assert_eq!(run.state.message, "processing: in.mp4");
    run.report(Ok(()));

    let t2 = run.take_next(false);
    assert!(t2.is_some());
    run.report(Err("task two exploded".to_string()));

    assert!(matches!(run.phase, RunPhase::Failed));
    assert_eq!(run.state.message, "error: task two exploded");

    // the third task is never handed out
    assert!(run.take_next(false).is_none());
    assert!(run.take_next(false).is_none());
    assert_eq!(run.state.message, "error: task two exploded");
}

#[test]
fn completed_batch_publishes_done_and_resets_progress() {
    let mut run = BatchRun::start(vec![task("0:00:00", "0:00:01", 0)]);
    assert!(run.take_next(false).is_some());
    run.report(Ok(()));
    run.publish_progress(42);
    assert!(run.take_next(false).is_none());
    assert!(matches!(run.phase, RunPhase::Completed));
    assert_eq!(run.state.message, "done");
    assert_eq!(run.state.progress_units, 0);
}

#[test]
fn stop_request_is_observed_between_tasks() {
    let mut run = BatchRun::start(vec![
        task("0:00:00", "0:00:01", 0),
        task("0:00:01", "0:00:02", 0),
    ]);
    assert!(run.take_next(false).is_some());
    run.report(Ok(()));
    assert!(run.take_next(true).is_none());
    assert!(matches!(run.phase, RunPhase::Stopped));
}

#[test]
fn preview_debounce_drops_the_second_request() {
    let mut t = PreviewTarget::new();
    assert!(t.request(1000, true));
    t.deliver(Some(vec![1, 2, 3]));
    assert_eq!(t.drain(), Some(vec![1, 2, 3]));
    assert!(!t.loading);
    // within the window of the accepted request: a no-op
    assert!(!t.request(1300, true));
    assert!(!t.loading);
    assert_eq!(t.last_request_ms, 1000);
    // once the window has passed it is accepted again
    assert!(t.request(1500, true));
}

#[test]
fn preview_request_needs_a_source_file() {
    let mut t = PreviewTarget::new();
    assert!(!t.request(1000, false));
    assert!(!t.loading);
}

#[test]
fn preview_single_flight_serializes_buffers() {
    let mut t = PreviewTarget::new();
    assert!(t.request(1000, true));
    // a second request while the worker is in flight is a no-op
    assert!(!t.request(2000, true));
    t.deliver(Some(vec![7, 8]));
    // still not drained: further requests stay no-ops
    assert!(!t.request(3000, true));
    // the drained bytes are exactly the one worker's delivery
    assert_eq!(t.drain(), Some(vec![7, 8]));
    assert_eq!(t.drain(), None);
    assert!(!t.loading);
}

#[test]
fn preview_failed_extraction_clears_loading() {
    let mut t = PreviewTarget::new();
    assert!(t.request(1000, true));
    t.deliver(None);
    assert!(!t.loading);
    assert_eq!(t.drain(), None);
}

#[test]
fn preview_reset_clears_the_target() {
    let mut t = PreviewTarget::new();
    assert!(t.request(1000, true));
    t.deliver(Some(vec![1]));
    t.reset();
    assert_eq!(t.timestamp, "");
    assert!(!t.loading);
    assert_eq!(t.drain(), None);
}

#[test]
fn probe_output_parses_three_lines() {
    let info = parse_probe_output("h264\n123.450000\n10485760\n");
    assert_eq!(info.codec, "h264");
    assert_eq!(info.duration, "00:02:03");
    assert_eq!(info.size, "10.00 MB");
}

#[test]
fn probe_output_with_fewer_lines_degrades_to_empty() {
    let info = parse_probe_output("h264\n12.0");
    assert_eq!(info.codec, "");
    assert_eq!(info.duration, "");
    assert_eq!(info.size, "");
    let info = parse_probe_output("");
    assert_eq!(info.codec, "");
}

#[test]
fn probe_malformed_numbers_degrade_to_zero() {
    let info = parse_probe_output("vp9\nnot-a-number\nalso-bad\n");
    assert_eq!(info.codec, "vp9");
    assert_eq!(info.duration, "00:00:00");
    assert_eq!(info.size, "0.00 MB");
}

#[test]
fn hms_parsing_accepts_valid_times_only() {
    assert_eq!(parse_hms("0:00:10"), Some(10));
    assert_eq!(parse_hms("23:59:59"), Some(86399));
    assert_eq!(parse_hms("01:02:03"), Some(3723));
    assert_eq!(parse_hms("24:00:00"), None);
    assert_eq!(parse_hms("0:60:00"), None);
    assert_eq!(parse_hms("abc"), None);
    assert_eq!(parse_hms("1:2"), None);
    assert_eq!(parse_hms(""), None);
}

#[test]
fn durations_format_as_padded_clock_times() {
    assert_eq!(format_duration(0), "00:00:00");
    assert_eq!(format_duration(3661), "01:01:01");
    assert_eq!(format_duration(86399), "23:59:59");
    assert_eq!(format_duration(360000), "100:00:00");
}

#[test]
fn source_paths_stay_unique() {
    let mut paths: Vec<String> = Vec::new();
    assert!(push_unique(&mut paths, "a.mp4".to_string()));
    assert!(push_unique(&mut paths, "b.mp4".to_string()));
    assert!(!push_unique(&mut paths, "a.mp4".to_string()));
    assert_eq!(paths, vec!["a.mp4".to_string(), "b.mp4".to_string()]);
}
