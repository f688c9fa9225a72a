use bilibili_transcript::cookie::cookie_file_contents;
use bilibili_transcript::formats::formats_from_output;
use bilibili_transcript::locate::{
    clue_path_of, download_candidates_of, download_path_from_lines, find_downloaded_file_from_lines,
    parse_download_path, pick_first_present, Clue,
};
use bilibili_transcript::pattern::{clean_format_suffix, format_file_name, suffix_free_target};
use bilibili_transcript::progress::{parse_progress_line, reported_file_path, reported_path_of, OutputKind};
use bilibili_transcript::ytdlp::{
    audio_conversion, audio_download_arguments, conversion_failure_message, downloaded_audio_path,
    failure_message, format_listing_failure_message, list_formats_arguments, output_template_in,
    reported_or_found,
    settle, settled_file_path, video_download_arguments, video_file_path, video_path_or_default,
    wav_conversion_arguments,
};

const UA: &str = "Mozilla/5.0 (Windows NT 10.0; Win64; x64) AppleWebKit/537.36 (KHTML, like Gecko) Chrome/126.0.0.0 Safari/537.36";

fn strings(v: &[&str]) -> Vec<String> {
    v.iter().map(|s| s.to_string()).collect()
}

#[test]
fn format_suffix_is_removed() {
    assert_eq!(clean_format_suffix("/tmp/out/My_Video.f30033.mp3"), "/tmp/out/My_Video.mp3");
    assert_eq!(clean_format_suffix("/tmp/out/clip.f100026.mp4"), "/tmp/out/clip.mp4");
}

#[test]
fn paths_without_suffix_are_kept() {
    assert_eq!(clean_format_suffix("/tmp/out/clip.mp4"), "/tmp/out/clip.mp4");
    assert_eq!(clean_format_suffix("/tmp/out/clip.f.mp4"), "/tmp/out/clip.f.mp4");
    assert_eq!(clean_format_suffix("/tmp/out/clip.fx12.mp4"), "/tmp/out/clip.fx12.mp4");
    assert_eq!(clean_format_suffix("/tmp/out/noext"), "/tmp/out/noext");
    assert_eq!(clean_format_suffix(""), "");
}

#[test]
fn only_the_last_suffix_is_removed() {
    assert_eq!(clean_format_suffix("/tmp/a.f1.f2.mp3"), "/tmp/a.f1.mp3");
}

#[test]
fn file_name_is_stem_dot_extension() {
    assert_eq!(format_file_name("clip", "mp4"), "clip.mp4");
}

#[test]
fn progress_line_is_read() {
    let p = parse_progress_line("[download]  45.2% of 50.00MiB at  2.50MiB/s ETA 00:15").unwrap();
    assert_eq!(p.percent, "45.2");
    assert_eq!(p.speed, "2.50MiB/s");
    assert_eq!(p.eta, "00:15");
}

#[test]
fn progress_line_without_speed_or_eta() {
    let p = parse_progress_line("[download] 100% of 3.1MiB").unwrap();
    assert_eq!(p.percent, "100");
    assert_eq!(p.speed, "");
    assert_eq!(p.eta, "");
    let q = parse_progress_line("[download] 12.0%% done").unwrap();
    assert_eq!(q.percent, "12.0");
}

#[test]
fn other_lines_report_no_progress() {
    assert!(parse_progress_line("[info] 50% of something").is_none());
    assert!(parse_progress_line("[download] Destination: /tmp/a.mp4").is_none());
    assert!(parse_progress_line("[download] 5%x of 1MiB").is_none());
}

#[test]
fn extract_audio_lines_report_paths() {
    let k = OutputKind::ExtractAudio;
    assert_eq!(reported_path_of(k, "  /tmp/a.mp3 \r"), Some("/tmp/a.mp3".to_string()));
    assert_eq!(
        reported_path_of(k, "[download] /tmp/b.mp3 has already been downloaded"),
        Some("/tmp/b.mp3".to_string())
    );
    assert_eq!(
        reported_path_of(k, "[ExtractAudio] Not converting audio /tmp/c.mp3; file is already in target format mp3"),
        Some("/tmp/c.mp3".to_string())
    );
    assert_eq!(
        reported_path_of(k, "[ExtractAudio] Destination: /tmp/d.mp3"),
        Some("/tmp/d.mp3".to_string())
    );
    assert_eq!(reported_path_of(k, "/tmp/50%.mp3"), None);
    assert_eq!(reported_path_of(k, "[download] Destination: /tmp/e.webm"), None);
}

#[test]
fn download_audio_lines_report_only_bare_paths() {
    let k = OutputKind::DownloadAudio;
    assert_eq!(reported_path_of(k, "/tmp/a.mp3"), Some("/tmp/a.mp3".to_string()));
    assert_eq!(reported_path_of(k, "[ExtractAudio] Destination: /tmp/d.mp3"), None);
    assert_eq!(reported_path_of(k, "/tmp/Destination: x"), None);
    assert_eq!(reported_path_of(OutputKind::Video, "/tmp/a.mp3"), None);
}

#[test]
fn last_reported_path_wins() {
    let lines = strings(&[
        "[ExtractAudio] Destination: /tmp/first.mp3",
        "[download]  10.0% of 1MiB",
        "/tmp/second.mp3",
        "[info] done",
    ]);
    assert_eq!(reported_file_path(OutputKind::ExtractAudio, &lines), Some("/tmp/second.mp3".to_string()));
    assert_eq!(reported_file_path(OutputKind::Video, &lines), None);
}

#[test]
fn clue_paths_are_read() {
    assert_eq!(
        clue_path_of(Clue::DownloadDestination, "[download] Destination: /tmp/x.f1.mp4 "),
        Some("/tmp/x.f1.mp4".to_string())
    );
    assert_eq!(clue_path_of(Clue::PrintedPath, "[info] /tmp/x"), None);
    assert_eq!(clue_path_of(Clue::PrintedPath, ""), None);
}

#[test]
fn candidates_by_clue_then_newest_first() {
    let lines = strings(&[
        "[download] Destination: /tmp/d1.webm",
        "/tmp/p1.mp3",
        "[ExtractAudio] Destination: /tmp/e1.mp3",
        "/tmp/p2.mp3",
    ]);
    assert_eq!(
        download_candidates_of(&lines),
        strings(&["/tmp/p2.mp3", "/tmp/p1.mp3", "/tmp/e1.mp3", "/tmp/d1.webm"])
    );
}

#[test]
fn downloaded_file_must_exist() {
    let lines = strings(&[
        "[download] Destination: /tmp",
        "/nonexistent/dir/file.mp3",
    ]);
    assert_eq!(find_downloaded_file_from_lines(&lines, "/tmp", "mp3"), Some("/tmp".to_string()));
    let none = strings(&["/nonexistent/a.mp3", "[download] Destination: /nonexistent/b.mp3"]);
    assert_eq!(find_downloaded_file_from_lines(&none, "/tmp", "mp3"), None);
}

#[test]
fn download_path_from_destination() {
    let out = "[info] x\n[download] Destination: /tmp/out/v.f30033.mp4\n[download] 100%\n";
    assert_eq!(parse_download_path(out, "/tmp/out"), Some("/tmp/out/v.f30033.mp4".to_string()));
}

#[test]
fn download_path_from_already_downloaded() {
    let out = "[download] /tmp/out/v.mp4 has already been downloaded\r\n";
    assert_eq!(parse_download_path(out, "/tmp/out"), Some("/tmp/out/v.mp4".to_string()));
    assert_eq!(parse_download_path("/tmp/x has already been downloaded", "/tmp"), None);
}

#[test]
fn download_path_from_printed_path_only_if_on_disk() {
    assert_eq!(parse_download_path("/tmp\n", "/tmp"), Some("/tmp".to_string()));
    assert_eq!(parse_download_path("/nonexistent/v.mp4\n", "/tmp"), None);
    assert_eq!(parse_download_path("", "/tmp"), None);
}

#[test]
fn video_file_falls_back_to_download_mp4() {
    let lines = strings(&["[info] nothing here"]);
    assert_eq!(video_file_path(&lines, "/tmp/out"), "/tmp/out/download.mp4");
    let lines = strings(&["[download] Destination: /tmp/out/v.mp4"]);
    assert_eq!(video_file_path(&lines, "/tmp/out"), "/tmp/out/v.mp4");
}

#[test]
fn audio_path_prefers_the_reported_one() {
    let lines = strings(&["[ExtractAudio] Destination: /nonexistent/a.mp3"]);
    assert_eq!(
        downloaded_audio_path(OutputKind::ExtractAudio, &lines, "/tmp"),
        Some("/nonexistent/a.mp3".to_string())
    );
    assert_eq!(downloaded_audio_path(OutputKind::DownloadAudio, &lines, "/tmp"), None);
}

#[test]
fn wav_conversion_plan() {
    let c = audio_conversion("/tmp/a.mp3");
    assert_eq!(c.wav_path, "/tmp/a.wav");
    assert!(!c.already_wav);
    let d = audio_conversion("/tmp/b.wav");
    assert_eq!(d.wav_path, "/tmp/b.wav");
    assert!(d.already_wav);
}

#[test]
fn settled_path_prefers_existing_cleaned() {
    assert_eq!(settled_file_path("/tmp".to_string(), "/tmp/x.f1.mp4".to_string()), "/tmp");
    assert_eq!(
        settled_file_path("/nonexistent/x.mp4".to_string(), "/tmp/x.f1.mp4".to_string()),
        "/tmp/x.f1.mp4"
    );
}

#[test]
fn video_arguments() {
    let args = video_download_arguments("/tmp/out", "30080+30280", Some("/usr/bin/ffmpeg"), "https://b23.tv/x");
    assert_eq!(
        args,
        strings(&[
            "-o", "/tmp/out/%(title)s.%(ext)s", "--no-playlist", "--newline", "--restrict-filenames",
            "--user-agent", UA, "--referer", "https://www.bilibili.com", "-f", "30080+30280",
            "--cookies-from-browser", "chrome", "--ffmpeg-location", "/usr/bin", "https://b23.tv/x",
        ])
    );
    let best = video_download_arguments("/tmp/out", "best", None, "u");
    assert!(!best.contains(&"-f".to_string()));
    assert_eq!(best.last().unwrap(), "u");
    assert_eq!(best.len(), 12);
    assert_eq!(video_download_arguments("/tmp/out", "", None, "u"), best);
}

#[test]
fn audio_arguments() {
    let args = audio_download_arguments("/tmp/out", None, "u", true);
    assert_eq!(
        args,
        strings(&[
            "-x", "--audio-format", "mp3", "-o", "/tmp/out/%(title)s.%(ext)s", "--no-playlist",
            "--newline", "--restrict-filenames", "--user-agent", UA, "--referer",
            "https://www.bilibili.com", "--cookies-from-browser", "chrome", "u",
        ])
    );
    let plain = audio_download_arguments("/tmp/out", Some("/opt/ff/ffmpeg"), "u", false);
    assert!(!plain.contains(&"--restrict-filenames".to_string()));
    assert_eq!(plain[plain.len() - 3], "--ffmpeg-location");
    assert_eq!(plain[plain.len() - 2], "/opt/ff");
}

#[test]
fn listing_and_conversion_arguments() {
    assert_eq!(
        list_formats_arguments("u"),
        strings(&["-F", "--dump-json", "--user-agent", UA, "--referer", "https://www.bilibili.com", "--cookies-from-browser", "chrome", "u"])
    );
    assert_eq!(
        wav_conversion_arguments("/tmp/a.mp3", "/tmp/a.wav"),
        strings(&["-y", "-i", "/tmp/a.mp3", "-ar", "16000", "-ac", "1", "-c:a", "pcm_s16le", "/tmp/a.wav"])
    );
    assert_eq!(output_template_in("/data"), "/data/%(title)s.%(ext)s");
}

#[test]
fn failure_messages() {
    let out = strings(&["line one", "line two"]);
    let err = strings(&["bad"]);
    let none: Vec<String> = Vec::new();
    assert_eq!(failure_message(OutputKind::Video, &out, &err), "yt-dlp 下载失败: line one\nline two");
    assert_eq!(failure_message(OutputKind::DownloadAudio, &none, &err), "yt-dlp 音频下载失败: bad");
    assert_eq!(failure_message(OutputKind::ExtractAudio, &strings(&[""]), &err), "yt-dlp 音频下载失败: bad");
    assert_eq!(conversion_failure_message("oops"), "ffmpeg 音频转换失败: oops");
    assert_eq!(format_listing_failure_message("oops"), "yt-dlp 获取格式失败: oops");
}

#[test]
fn cookie_file_lines() {
    let text = cookie_file_contents("SESSDATA=abc; bili_jct = xyz ;broken; =v");
    assert_eq!(
        text,
        "# Netscape HTTP Cookie File\n.bilibili.com\tTRUE\t/\tFALSE\t0\tSESSDATA\tabc\n.bilibili.com\tTRUE\t/\tFALSE\t0\tbili_jct\txyz\n.bilibili.com\tTRUE\t/\tFALSE\t0\t\tv"
    );
    assert_eq!(cookie_file_contents(""), "# Netscape HTTP Cookie File");
    assert_eq!(
        cookie_file_contents("a=b=c"),
        "# Netscape HTTP Cookie File\n.bilibili.com\tTRUE\t/\tFALSE\t0\ta\tb=c"
    );
}

#[test]
fn formats_are_the_json_lines() {
    let out = "{\"format_id\": \"30080\"}\nnot json\n{\"format_id\": \"30280\", \"ext\": \"m4a\"}\n";
    let formats = formats_from_output(out);
    assert_eq!(formats.len(), 2);
    assert_eq!(formats[0]["format_id"], "30080");
    assert_eq!(formats[1]["ext"], "m4a");
}

#[test]
fn first_present_candidate_is_picked() {
    let c = strings(&["/a", "/b", "/c"]);
    assert_eq!(pick_first_present(&c, &[false, true, true]), Some("/b".to_string()));
    assert_eq!(pick_first_present(&c, &[false, false]), None);
    assert_eq!(pick_first_present(&c, &[]), None);
}

#[test]
fn download_path_given_presence_answers() {
    let lines = strings(&["/tmp/a.mp4", "[info] x", "/tmp/b.mp4", "[download] Destination: /tmp/c.mp4"]);
    assert_eq!(download_path_from_lines(&lines, &[]), Some("/tmp/c.mp4".to_string()));
    assert_eq!(download_path_from_lines(&lines, &[false, false, true]), Some("/tmp/b.mp4".to_string()));
    assert_eq!(download_path_from_lines(&lines, &[true]), Some("/tmp/a.mp4".to_string()));
    assert_eq!(download_path_from_lines(&lines, &[false, true, false]), Some("/tmp/c.mp4".to_string()));
    let bare = strings(&["/tmp/a.mp4"]);
    assert_eq!(download_path_from_lines(&bare, &[false]), None);
}

#[test]
fn bare_path_on_disk_is_returned() {
    assert_eq!(parse_download_path("[download]  12.0% of 1.00MiB\n/", "/tmp"), Some("/".to_string()));
}

#[test]
fn video_path_default_only_when_nothing_found() {
    assert_eq!(video_path_or_default(Some("/tmp/v.mp4".to_string()), "/tmp/out"), "/tmp/v.mp4");
    assert_eq!(video_path_or_default(None, "/tmp/out"), "/tmp/out/download.mp4");
}

#[test]
fn settle_follows_the_answer() {
    assert_eq!(settle("c".to_string(), "o".to_string(), true), "c");
    assert_eq!(settle("c".to_string(), "o".to_string(), false), "o");
}

#[test]
fn suffix_free_target_needs_stem_and_parent() {
    assert_eq!(
        suffix_free_target(Some("clip".to_string()), "mp4", Some("/tmp".to_string())),
        Some(("/tmp".to_string(), "clip.mp4".to_string()))
    );
    assert_eq!(suffix_free_target(None, "mp4", Some("/tmp".to_string())), None);
    assert_eq!(suffix_free_target(Some("clip".to_string()), "mp4", None), None);
}

#[test]
fn reported_path_before_found_one() {
    assert_eq!(reported_or_found(Some("/a".to_string()), Some("/b".to_string())), Some("/a".to_string()));
    assert_eq!(reported_or_found(None, Some("/b".to_string())), Some("/b".to_string()));
    assert_eq!(reported_or_found(None, None), None);
}
