use qingya::clock::{epoch_seconds, now_secs};
use qingya::decimal::decimal;
use qingya::encode::{cpu_video_args, detect_gpu_encoders, gpu_video_args};
use qingya::naming::unique_name;
use qingya::plan::{accept_or_retry, build_args, ffmpeg_command, finished_record, plan_output, task_name};
use qingya::progress::{finish_event, parse_progress, running_event, split_hms};
use qingya::records::{live_records, settle_outcome, AppState, Record};
use qingya::text::{contains, same_text};

fn strings(items: &[&str]) -> Vec<String> {
    items.iter().map(|s| s.to_string()).collect()
}

fn record(id: &str, status: &str, out_name: &str) -> Record {
    Record {
        id: id.to_string(),
        name: format!("{}.mp4", id),
        kind: "video".to_string(),
        status: status.to_string(),
        src_size: 1000,
        out_size: 500,
        out_name: out_name.to_string(),
        encoder: "x265".to_string(),
        quality: "high".to_string(),
        img_format: String::new(),
        created: 1,
        skipped: false,
    }
}

fn state(records: Vec<Record>, gpu: &[&str]) -> AppState {
    AppState { records, gpu_encoders: strings(gpu) }
}

fn tail() -> Vec<&'static str> {
    vec!["-pix_fmt", "yuv420p", "-c:a", "aac", "-b:a", "160k", "-movflags", "+faststart"]
}

#[test]
fn decimal_text_of_numbers() {
    assert_eq!(decimal(0), "0");
    assert_eq!(decimal(7), "7");
    assert_eq!(decimal(10), "10");
    assert_eq!(decimal(1234), "1234");
    assert_eq!(decimal(u64::MAX), u64::MAX.to_string());
}

#[test]
fn substring_search() {
    assert!(contains("abcdef", "cde"));
    assert!(contains("abc", ""));
    assert!(!contains("ab", "abc"));
    assert!(!contains("hevc-nvenc", "hevc_"));
    assert!(contains(" V....D hevc_nvenc  NVIDIA NVENC hevc encoder", "hevc_nvenc"));
    assert!(same_text("x265", "x265"));
    assert!(!same_text("x265", "x264"));
}

#[test]
fn progress_report_fields() {
    let txt = "frame=10\nout_time=00:00:01.500000\nspeed=1.5x\nprogress=continue\n\
               frame=20\nout_time=00:00:03.000000\nspeed=2.01x \nprogress=continue\n";
    let p = parse_progress(txt);
    assert_eq!(p.duration, None);
    assert_eq!(p.out_time.as_deref(), Some("00:00:03.000000"));
    assert_eq!(p.speed.as_deref(), Some("2.01x"));
}

#[test]
fn progress_report_keeps_last_usable_speed() {
    let txt = "duration=00:01:00.00\r\nspeed=3x\r\nspeed=N/A\r\nout_time=  00:00:30.00\t\r\nspeed=";
    let p = parse_progress(txt);
    assert_eq!(p.duration.as_deref(), Some("00:01:00.00"));
    assert_eq!(p.out_time.as_deref(), Some("00:00:30.00"));
    assert_eq!(p.speed.as_deref(), Some("3x"));
}

#[test]
fn progress_report_last_duration_wins() {
    let p = parse_progress("duration=00:00:10.00\nduration=bogus\n");
    assert_eq!(p.duration.as_deref(), Some("bogus"));
    let empty = parse_progress("");
    assert_eq!(empty.duration, None);
    assert_eq!(empty.out_time, None);
    assert_eq!(empty.speed, None);
    let keyless = parse_progress(" duration=00:00:01.00\nxspeed=2x");
    assert_eq!(keyless.duration, None);
    assert_eq!(keyless.speed, None);
}

#[test]
fn unique_names_count_up() {
    let s = state(vec![], &[]);
    assert_eq!(unique_name(&s, "video", ".mp4", &vec![]), "video.mp4");
    let s = state(vec![record("a", "done", "video.mp4")], &[]);
    assert_eq!(unique_name(&s, "video", ".mp4", &vec![]), "video (1).mp4");
    let disk = strings(&["video (1).mp4", "other.mp4"]);
    assert_eq!(unique_name(&s, "video", ".mp4", &disk), "video (2).mp4");
    assert_eq!(unique_name(&s, "clip", ".mp4", &disk), "clip.mp4");
}

#[test]
fn cpu_args_x265_high() {
    let (args, label) = cpu_video_args("x265", "high").unwrap();
    let mut want = vec!["-map", "0:v:0", "-map", "0:a?", "-c:v", "libx265", "-preset", "fast", "-crf", "20", "-tag:v", "hvc1"];
    want.extend(tail());
    assert_eq!(args, strings(&want));
    assert_eq!(label, "x265");
}

#[test]
fn cpu_args_x264_and_crf_table() {
    let (args, label) = cpu_video_args("x264", "compact").unwrap();
    let mut want = vec!["-map", "0:v:0", "-map", "0:a?", "-c:v", "libx264", "-preset", "medium", "-crf", "22"];
    want.extend(tail());
    assert_eq!(args, strings(&want));
    assert_eq!(label, "x264");
    let crf = |e: &str, q: &str| cpu_video_args(e, q).unwrap().0[9].clone();
    assert_eq!(crf("x265", "lossless"), "16");
    assert_eq!(crf("x265", "compact"), "24");
    assert_eq!(crf("x265", "other"), "20");
    assert_eq!(crf("x264", "lossless"), "15");
    assert_eq!(crf("x264", "high"), "18");
    assert_eq!(crf("h264", "whatever"), "20");
    assert_eq!(cpu_video_args("anything", "high").unwrap().1, "x264");
}

#[test]
fn gpu_prefers_hevc() {
    let s = state(vec![], &["h264_nvenc", "hevc_qsv", "hevc_amf"]);
    let (args, label) = gpu_video_args(&s).unwrap();
    let mut want = vec!["-map", "0:v:0", "-map", "0:a?", "-c:v", "hevc_qsv", "-preset", "medium", "-global_quality", "30", "-tag:v", "hvc1"];
    want.extend(tail());
    assert_eq!(args, strings(&want));
    assert_eq!(label, "qsv");
}

#[test]
fn gpu_h264_and_params() {
    let s = state(vec![], &["h264_amf"]);
    let (args, label) = gpu_video_args(&s).unwrap();
    let mut want = vec!["-map", "0:v:0", "-map", "0:a?", "-c:v", "h264_amf", "-quality", "quality", "-rc", "cqp", "-qp_i", "26", "-qp_p", "26", "-qp_b", "26"];
    want.extend(tail());
    assert_eq!(args, strings(&want));
    assert_eq!(label, "amf");
    let s = state(vec![], &["hevc_videotoolbox"]);
    let (args, label) = gpu_video_args(&s).unwrap();
    assert_eq!(args[5..9].to_vec(), strings(&["hevc_videotoolbox", "-q:v", "60", "-tag:v"]));
    assert_eq!(label, "videotoolbox");
    let s = state(vec![], &["h264_videotoolbox"]);
    assert_eq!(gpu_video_args(&s).unwrap().0[5..8].to_vec(), strings(&["h264_videotoolbox", "-q:v", "50"]));
    let s = state(vec![], &["hevc_nvenc"]);
    assert_eq!(gpu_video_args(&s).unwrap().0[6..10].to_vec(), strings(&["-preset", "p5", "-cq", "30"]));
}

#[test]
fn gpu_absent() {
    assert!(gpu_video_args(&state(vec![], &[])).is_none());
    assert!(gpu_video_args(&state(vec![], &["libx265", "vp9_vaapi"])).is_none());
}

#[test]
fn gpu_label_fields() {
    let (_, label) = gpu_video_args(&state(vec![], &["hevc_"])).unwrap();
    assert_eq!(label, "");
    let (_, label) = gpu_video_args(&state(vec![], &["xhevc_vulkan_beta"])).unwrap();
    assert_eq!(label, "vulkan");
}

#[test]
fn detect_encoders_in_priority_order() {
    let listing = " V....D h264_videotoolbox   VideoToolbox H.264 Encoder\n V....D hevc_qsv  HEVC (Intel Quick Sync Video)\n V....D h264_nvenc NVIDIA NVENC\n A..... aac\n";
    assert_eq!(detect_gpu_encoders(listing), strings(&["h264_nvenc", "hevc_qsv", "h264_videotoolbox"]));
    assert!(detect_gpu_encoders("libx264 libx265").is_empty());
}

#[test]
fn image_plan_png_keeps_format() {
    let s = state(vec![], &[]);
    let p = build_args(&s, "/home/u/Photo.PNG", "image", "gpu", "high", "same", &vec![]).unwrap();
    assert_eq!(p.out_name, "Photo.png");
    assert_eq!(p.args, strings(&["-compression_level", "9"]));
    assert_eq!(p.final_format, "same");
    assert_eq!(p.encoder, "");
}

#[test]
fn image_plan_bmp_becomes_webp() {
    let s = state(vec![], &[]);
    let p = build_args(&s, "scan.bmp", "image", "", "balanced", "same", &vec![]).unwrap();
    assert_eq!(p.out_name, "scan.webp");
    assert_eq!(p.args, strings(&["-q:v", "6"]));
    assert_eq!(p.final_format, "webp");
    let p = build_args(&s, "scan.TIFF", "image", "", "compact", "same", &vec![]).unwrap();
    assert_eq!(p.out_name, "scan.webp");
    assert_eq!(p.args, strings(&["-q:v", "9"]));
}

#[test]
fn image_plan_webp_requested_and_unknown_ext() {
    let s = state(vec![], &[]);
    let p = build_args(&s, "a.jpeg", "image", "", "high", "webp", &vec![]).unwrap();
    assert_eq!(p.out_name, "a.webp");
    assert_eq!(p.args, strings(&["-q:v", "3"]));
    assert_eq!(p.final_format, "webp");
    let p = build_args(&s, "anim.gif", "image", "", "high", "same", &vec![]).unwrap();
    assert_eq!(p.out_name, "anim.jpg");
    assert_eq!(p.final_format, "same");
    let p = build_args(&s, "noext", "image", "", "high", "same", &vec![]).unwrap();
    assert_eq!(p.out_name, "noext.jpg");
}

#[test]
fn video_plan_gpu_falls_back_to_x265() {
    let s = state(vec![record("1", "done", "movie.mp4")], &[]);
    let p = build_args(&s, "/videos/movie.mov", "video", "gpu", "compact", "same", &vec![]).unwrap();
    assert_eq!(p.out_name, "movie (1).mp4");
    assert_eq!(p.args, cpu_video_args("x265", "compact").unwrap().0);
    assert_eq!(p.encoder, "x265");
    assert_eq!(p.final_format, "");
}

#[test]
fn video_plan_with_gpu_and_cpu() {
    let s = state(vec![], &["hevc_nvenc", "h264_nvenc"]);
    let p = build_args(&s, "clip.mkv", "video", "gpu", "high", "", &vec![]).unwrap();
    assert_eq!(p.encoder, "nvenc");
    assert_eq!(p.args[5], "hevc_nvenc");
    let p = build_args(&s, "clip.mkv", "video", "x264", "high", "", &vec![]).unwrap();
    assert_eq!(p.encoder, "x264");
    assert_eq!(p.out_name, "clip.mp4");
}

#[test]
fn plan_output_from_parts() {
    let s = state(vec![], &[]);
    let disk = strings(&["pic.png"]);
    let p = plan_output(&s, "pic", "png", "image", "", "high", "same", &disk).unwrap();
    assert_eq!(p.out_name, "pic (1).png");
    let p = plan_output(&s, "media", "", "video", "x265", "lossless", "", &disk).unwrap();
    assert_eq!(p.out_name, "media.mp4");
    assert_eq!(p.args[9], "16");
}

#[test]
fn delete_first_matching_record() {
    let mut s = state(vec![record("a", "done", "a.mp4"), record("b", "done", "b.mp4"), record("b", "error", "b2.mp4")], &["hevc_qsv"]);
    assert_eq!(s.delete_record("b"), Some("b.mp4".to_string()));
    assert_eq!(s.records.len(), 2);
    assert_eq!(s.records[0].out_name, "a.mp4");
    assert_eq!(s.records[1].out_name, "b2.mp4");
    assert_eq!(s.delete_record("zzz"), None);
    assert_eq!(s.records.len(), 2);
    assert_eq!(s.gpu_encoders, strings(&["hevc_qsv"]));
}

#[test]
fn delete_undoes_add() {
    let mut s = state(vec![record("a", "done", "a.mp4")], &[]);
    s.add_record(record("new", "done", "new.mp4"));
    assert_eq!(s.records.len(), 2);
    assert_eq!(s.delete_record("new"), Some("new.mp4".to_string()));
    assert_eq!(s.records.len(), 1);
    assert_eq!(s.records[0].id, "a");
}

#[test]
fn clear_gives_back_names() {
    let mut s = state(vec![record("a", "done", "a.mp4"), record("b", "error", "b.mp4")], &[]);
    assert_eq!(s.clear_records(), strings(&["a.mp4", "b.mp4"]));
    assert!(s.records.is_empty());
    assert!(s.clear_records().is_empty());
}

#[test]
fn loading_drops_finished_tasks_without_output() {
    let recs = vec![record("a", "done", "a.mp4"), record("b", "done", "gone.mp4"), record("c", "error", "c.mp4"), record("d", "done", "d.mp4")];
    let kept = live_records(recs, &strings(&["a.mp4", "d.mp4", "x.mp4"]));
    let ids: Vec<String> = kept.iter().map(|r| r.id.clone()).collect();
    assert_eq!(ids, strings(&["a", "c", "d"]));
    assert!(live_records(vec![], &vec![]).is_empty());
}

#[test]
fn settle_keeps_source_when_output_not_smaller() {
    let o = settle_outcome(1000, Some(1500));
    assert_eq!(o.status, "done");
    assert!(o.skipped);
    assert_eq!(o.out_size, 1000);
    assert_eq!(o.error, "");
    let o = settle_outcome(1000, Some(1000));
    assert!(o.skipped);
    assert_eq!(o.out_size, 1000);
}

#[test]
fn settle_reports_smaller_output_and_failures() {
    let o = settle_outcome(1000, Some(400));
    assert_eq!(o.status, "done");
    assert!(!o.skipped);
    assert_eq!(o.out_size, 400);
    let o = settle_outcome(0, Some(400));
    assert!(!o.skipped);
    assert_eq!(o.out_size, 400);
    for produced in [None, Some(0)] {
        let o = settle_outcome(1000, produced);
        assert_eq!(o.status, "error");
        assert_eq!(o.out_size, 0);
        assert!(!o.skipped);
        assert_eq!(o.error, "编码失败（文件可能损坏或格式不支持）");
    }
}

#[test]
fn clock_is_after_2020() {
    assert!(now_secs() > 1_577_836_800);
}

#[test]
fn recorded_name_not_chosen_again() {
    let mut s = state(vec![], &[]);
    let first = unique_name(&s, "holiday", ".mp4", &vec![]);
    let mut r = record("1", "done", &first);
    r.out_name = first.clone();
    s.add_record(r);
    let second = unique_name(&s, "holiday", ".mp4", &vec![]);
    assert_eq!(first, "holiday.mp4");
    assert_eq!(second, "holiday (1).mp4");
}

#[test]
fn nvidia_hevc_chosen_from_listing() {
    let listing = "V..... h264_amf\nV..... hevc_videotoolbox\nV..... hevc_nvenc\nV..... h264_nvenc\n";
    let found = detect_gpu_encoders(listing);
    assert_eq!(found, strings(&["hevc_nvenc", "h264_nvenc", "h264_amf", "hevc_videotoolbox"]));
    let s = state(vec![], &[]);
    let s = AppState { gpu_encoders: found, ..s };
    let (args, label) = gpu_video_args(&s).unwrap();
    assert_eq!(args[5], "hevc_nvenc");
    assert_eq!(label, "nvenc");
}

#[test]
fn epoch_seconds_of_reading() {
    assert_eq!(epoch_seconds(Some(1_700_000_000)), 1_700_000_000);
    assert_eq!(epoch_seconds(None), 0);
}

#[test]
fn hms_split_into_three() {
    let t = |a: &str, b: &str, c: &str| Some((a.to_string(), b.to_string(), c.to_string()));
    assert_eq!(split_hms("00:01:23.456000"), t("00", "01", "23.456000"));
    assert_eq!(split_hms("::"), t("", "", ""));
    assert_eq!(split_hms("01:02"), None);
    assert_eq!(split_hms("1:2:3:4"), None);
    assert_eq!(split_hms("123"), None);
}

#[test]
fn command_line_of_a_job() {
    let cmd = ffmpeg_command("in.mov", &strings(&["-c:v", "libx264"]), "/d/.prog_1.txt", "/d/out.mp4");
    assert_eq!(cmd, strings(&["-y", "-i", "in.mov", "-c:v", "libx264", "-progress", "/d/.prog_1.txt", "-nostats", "/d/out.mp4"]));
}

#[test]
fn extension_is_lower_cased_and_stem_kept() {
    let s = state(vec![], &[]);
    let p = build_args(&s, "dir/Photo.JPG", "image", "", "high", "same", &vec![]).unwrap();
    assert_eq!(p.out_name, "Photo.jpg");
    assert_eq!(p.args, strings(&["-q:v", "3"]));
    let p = build_args(&s, "", "video", "x265", "high", "", &vec![]).unwrap();
    assert_eq!(p.out_name, "media.mp4");
}

#[test]
fn name_found_on_disk_is_replanned() {
    let s = state(vec![], &[]);
    let mut on_disk: Vec<String> = vec![];
    let first = build_args(&s, "Video.mov", "video", "x265", "high", "", &on_disk).unwrap().out_name;
    assert_eq!(first, "Video.mp4");
    on_disk.push(first.clone());
    let second = build_args(&s, "Video.mov", "video", "x265", "high", "", &on_disk).unwrap().out_name;
    assert_eq!(second, "Video (1).mp4");
}

#[test]
fn running_events_keep_last_speed() {
    let mut last = String::new();
    let e = running_event(&mut last, Some("1.5x".to_string()), Some(42));
    assert_eq!((e.status.as_str(), e.progress, e.speed.as_str()), ("running", 42, "1.5x"));
    let e = running_event(&mut last, None, None);
    assert_eq!((e.status.as_str(), e.progress, e.speed.as_str()), ("running", 0, "1.5x"));
    assert_eq!(last, "1.5x");
}

#[test]
fn finish_events_follow_outcome() {
    let e = finish_event(&settle_outcome(100, Some(50)), "2x");
    assert_eq!((e.status.as_str(), e.progress, e.speed.as_str()), ("done", 100, "2x"));
    let e = finish_event(&settle_outcome(100, None), "2x");
    assert_eq!((e.status.as_str(), e.progress, e.speed.as_str()), ("error", 0, ""));
}

#[test]
fn path_stem_and_extension_of_plain_names() {
    let s = state(vec![], &[]);
    let p = build_args(&s, ".bashrc", "image", "", "high", "same", &vec![]).unwrap();
    assert_eq!(p.out_name, ".bashrc.jpg");
    let p = build_args(&s, "a.b.TIF", "image", "", "high", "same", &vec![]).unwrap();
    assert_eq!(p.out_name, "a.b.webp");
    let p = build_args(&s, "x.", "video", "x264", "high", "", &vec![]).unwrap();
    assert_eq!(p.out_name, "x.mp4");
}

#[test]
fn full_paths_give_stem_and_extension() {
    let s = state(vec![], &[]);
    let p = build_args(&s, "/in/Photo.BMP", "image", "", "high", "same", &vec![]).unwrap();
    assert_eq!(p.out_name, "Photo.webp");
    let p = build_args(&s, "C:/Users/a/Clip.final.MOV", "video", "x264", "high", "", &vec![]).unwrap();
    assert_eq!(p.out_name, "Clip.final.mp4");
    assert_eq!(task_name("/in/Photo.BMP"), "Photo.BMP");
    assert_eq!(task_name("/"), "file");
}

#[test]
fn retry_step_adds_name_or_accepts() {
    let s = state(vec![], &[]);
    let mut on_disk: Vec<String> = vec![];
    let plan = build_args(&s, "/v/a.mov", "video", "x265", "high", "", &on_disk).unwrap();
    assert!(accept_or_retry(&mut on_disk, plan, true).is_none());
    assert_eq!(on_disk, strings(&["a.mp4"]));
    let plan = build_args(&s, "/v/a.mov", "video", "x265", "high", "", &on_disk).unwrap();
    let kept = accept_or_retry(&mut on_disk, plan, false).unwrap();
    assert_eq!(kept.out_name, "a (1).mp4");
    assert_eq!(on_disk.len(), 1);
}

#[test]
fn finished_record_fields() {
    let s = state(vec![], &["hevc_nvenc"]);
    let plan = build_args(&s, "/v/trip.mkv", "video", "gpu", "high", "", &vec![]).unwrap();
    let outcome = settle_outcome(1000, Some(2000));
    let r = finished_record("7".to_string(), "trip.mkv".to_string(), "video".to_string(), "high".to_string(), &plan, 1000, &outcome, 42);
    assert_eq!(r.id, "7");
    assert_eq!(r.name, "trip.mkv");
    assert_eq!(r.status, "done");
    assert_eq!(r.out_size, 1000);
    assert!(r.skipped);
    assert_eq!(r.out_name, "trip.mp4");
    assert_eq!(r.encoder, "nvenc");
    assert_eq!(r.img_format, "");
    assert_eq!(r.created, 42);
}
