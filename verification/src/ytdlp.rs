//! The command lines given to yt-dlp and ffmpeg, and what is made of their
//! results.
use vstd::prelude::*;
use crate::locate::{
    download_candidates, find_downloaded_file_from_lines, parse_download_path,
    printed_download_path, stated_download_path,
};
use crate::paths::{
    path_exists, path_extension, path_join, path_parent, path_with_extension, spec_extension,
    spec_join, spec_parent, spec_with_extension,
};
use crate::progress::{last_reported_path, reported_file_path, OutputKind};
use crate::text::{concat_text, join_texts, join_with, lines, same_text, views};

verus! {

/// The browser identity that yt-dlp presents.
pub open spec fn user_agent() -> Seq<char> {
    "Mozilla/5.0 (Windows NT 10.0; Win64; x64) AppleWebKit/537.36 (KHTML, like Gecko) Chrome/126.0.0.0 Safari/537.36"@
}

/// The referer that yt-dlp presents.
pub open spec fn referer() -> Seq<char> {
    "https://www.bilibili.com"@
}

/// Where yt-dlp writes in `dir`: a file named after the title.
pub open spec fn output_template(dir: Seq<char>) -> Seq<char> {
    spec_join(dir, "%(title)s.%(ext)s"@)
}

/// `--ffmpeg-location` and the directory of the ffmpeg that was found, if one
/// was found and it has a parent directory.
pub open spec fn ffmpeg_location_args(ffmpeg: Option<Seq<char>>) -> Seq<Seq<char>> {
    match ffmpeg {
        Some(p) => match spec_parent(p) {
            Some(d) => seq!["--ffmpeg-location"@, d],
            None => Seq::empty(),
        },
        None => Seq::empty(),
    }
}

/// A format id asks for a particular format unless it is empty or `best`.
pub open spec fn wants_format(format_id: Seq<char>) -> bool {
    format_id.len() > 0 && format_id != "best"@
}

/// The arguments of a video download.
pub open spec fn video_download_args(
    dir: Seq<char>,
    format_id: Seq<char>,
    ffmpeg: Option<Seq<char>>,
    url: Seq<char>,
) -> Seq<Seq<char>> {
    seq![
        "-o"@,
        output_template(dir),
        "--no-playlist"@,
        "--newline"@,
        "--restrict-filenames"@,
        "--user-agent"@,
        user_agent(),
        "--referer"@,
        referer(),
    ] + (if wants_format(format_id) {
        seq!["-f"@, format_id]
    } else {
        Seq::empty()
    }) + seq!["--cookies-from-browser"@, "chrome"@] + ffmpeg_location_args(ffmpeg) + seq![url]
}

/// The arguments of an audio download (`restrict` adds
/// `--restrict-filenames`, as the extraction for transcription does).
pub open spec fn audio_download_args(
    dir: Seq<char>,
    ffmpeg: Option<Seq<char>>,
    url: Seq<char>,
    restrict: bool,
) -> Seq<Seq<char>> {
    seq!["-x"@, "--audio-format"@, "mp3"@, "-o"@, output_template(dir), "--no-playlist"@, "--newline"@]
        + (if restrict {
        seq!["--restrict-filenames"@]
    } else {
        Seq::empty()
    }) + seq!["--user-agent"@, user_agent(), "--referer"@, referer()] + seq![
        "--cookies-from-browser"@,
        "chrome"@,
    ] + ffmpeg_location_args(ffmpeg) + seq![url]
}

/// The arguments that ask yt-dlp for the formats of `url`.
pub open spec fn list_formats_args(url: Seq<char>) -> Seq<Seq<char>> {
    seq![
        "-F"@,
        "--dump-json"@,
        "--user-agent"@,
        user_agent(),
        "--referer"@,
        referer(),
        "--cookies-from-browser"@,
        "chrome"@,
        url,
    ]
}

/// The ffmpeg arguments that turn `mp3` into 16 kHz mono 16-bit WAV at `wav`.
pub open spec fn wav_conversion_args(mp3: Seq<char>, wav: Seq<char>) -> Seq<Seq<char>> {
    seq![
        "-y"@,
        "-i"@,
        mp3,
        "-ar"@,
        "16000"@,
        "-ac"@,
        "1"@,
        "-c:a"@,
        "pcm_s16le"@,
        wav,
    ]
}

fn owned(s: &str) -> (r: String)
    ensures
        r@ == s@,
{
    String::from_str(s)
}

fn push_common_tail(args: &mut Vec<String>, ffmpeg: Option<&str>, url: &str)
    ensures
        views(final(args)@) == views(old(args)@) + seq!["--cookies-from-browser"@, "chrome"@]
            + ffmpeg_location_args(
            match ffmpeg {
                Some(p) => Some(p@),
                None => None,
            },
        ) + seq![url@],
{
    let ghost start = views(args@);
    args.push(owned("--cookies-from-browser"));
    args.push(owned("chrome"));
    let ghost mid = views(args@);
    assert(mid =~= start + seq!["--cookies-from-browser"@, "chrome"@]);
    match ffmpeg {
        Some(p) => match path_parent(p) {
            Some(d) => {
                args.push(owned("--ffmpeg-location"));
                args.push(d);
            },
            None => {},
        },
        None => {},
    }
    let ghost mid2 = views(args@);
    args.push(owned(url));
    assert(views(args@) =~= mid2 + seq![url@]);
    assert(views(args@) =~= start + seq!["--cookies-from-browser"@, "chrome"@]
        + ffmpeg_location_args(
        match ffmpeg {
            Some(p) => Some(p@),
            None => None,
        },
    ) + seq![url@]);
}

/// The file name template for yt-dlp in `output_dir`.
pub fn output_template_in(output_dir: &str) -> (r: String)
    ensures
        r@ == output_template(output_dir@),
{
    path_join(output_dir, "%(title)s.%(ext)s")
}

/// The yt-dlp arguments for downloading the video at `url` in format
/// `format_id` into `output_dir`, using the ffmpeg found at `ffmpeg` if any.
pub fn video_download_arguments(
    output_dir: &str,
    format_id: &str,
    ffmpeg: Option<&str>,
    url: &str,
) -> (r: Vec<String>)
    ensures
        views(r@) == video_download_args(
            output_dir@,
            format_id@,
            match ffmpeg {
                Some(p) => Some(p@),
                None => None,
            },
            url@,
        ),
{
    let mut args = vec![
        owned("-o"),
        output_template_in(output_dir),
        owned("--no-playlist"),
        owned("--newline"),
        owned("--restrict-filenames"),
        owned("--user-agent"),
        owned("Mozilla/5.0 (Windows NT 10.0; Win64; x64) AppleWebKit/537.36 (KHTML, like Gecko) Chrome/126.0.0.0 Safari/537.36"),
        owned("--referer"),
        owned("https://www.bilibili.com"),
    ];
    let ghost head = views(args@);
    if !format_id.is_empty() && !same_text(format_id, "best") {
        args.push(owned("-f"));
        args.push(owned(format_id));
    }
    let ghost with_format = views(args@);
    assert(with_format =~= head + (if wants_format(format_id@) {
        seq!["-f"@, format_id@]
    } else {
        Seq::empty()
    }));
    push_common_tail(&mut args, ffmpeg, url);
    args
}

/// The yt-dlp arguments for downloading the audio of `url` as MP3 into
/// `output_dir` (`restrict` adds `--restrict-filenames`).
pub fn audio_download_arguments(output_dir: &str, ffmpeg: Option<&str>, url: &str, restrict: bool) -> (r:
    Vec<String>)
    ensures
        views(r@) == audio_download_args(
            output_dir@,
            match ffmpeg {
                Some(p) => Some(p@),
                None => None,
            },
            url@,
            restrict,
        ),
{
    let mut args = vec![
        owned("-x"),
        owned("--audio-format"),
        owned("mp3"),
        owned("-o"),
        output_template_in(output_dir),
        owned("--no-playlist"),
        owned("--newline"),
    ];
    let ghost head = views(args@);
    if restrict {
        args.push(owned("--restrict-filenames"));
    }
    let ghost with_restrict = views(args@);
    args.push(owned("--user-agent"));
    args.push(owned("Mozilla/5.0 (Windows NT 10.0; Win64; x64) AppleWebKit/537.36 (KHTML, like Gecko) Chrome/126.0.0.0 Safari/537.36"));
    args.push(owned("--referer"));
    args.push(owned("https://www.bilibili.com"));
    assert(views(args@) =~= head + (if restrict {
        seq!["--restrict-filenames"@]
    } else {
        Seq::empty()
    }) + seq!["--user-agent"@, user_agent(), "--referer"@, referer()]);
    push_common_tail(&mut args, ffmpeg, url);
    args
}

/// The yt-dlp arguments that list the formats of `url` as JSON.
pub fn list_formats_arguments(url: &str) -> (r: Vec<String>)
    ensures
        views(r@) == list_formats_args(url@),
{
    let args = vec![
        owned("-F"),
        owned("--dump-json"),
        owned("--user-agent"),
        owned("Mozilla/5.0 (Windows NT 10.0; Win64; x64) AppleWebKit/537.36 (KHTML, like Gecko) Chrome/126.0.0.0 Safari/537.36"),
        owned("--referer"),
        owned("https://www.bilibili.com"),
        owned("--cookies-from-browser"),
        owned("chrome"),
        owned(url),
    ];
    assert(views(args@) =~= list_formats_args(url@));
    args
}

/// The ffmpeg arguments that turn `mp3` into the WAV file `wav`.
pub fn wav_conversion_arguments(mp3: &str, wav: &str) -> (r: Vec<String>)
    ensures
        views(r@) == wav_conversion_args(mp3@, wav@),
{
    let args = vec![
        owned("-y"),
        owned("-i"),
        owned(mp3),
        owned("-ar"),
        owned("16000"),
        owned("-ac"),
        owned("1"),
        owned("-c:a"),
        owned("pcm_s16le"),
        owned(wav),
    ];
    assert(views(args@) =~= wav_conversion_args(mp3@, wav@));
    args
}


/// How a failed yt-dlp run of `kind` is reported: its standard output, or
/// its standard error when it printed nothing, after a prefix naming the run.
pub open spec fn failure_report(
    kind: OutputKind,
    stdout_lines: Seq<Seq<char>>,
    stderr_lines: Seq<Seq<char>>,
) -> Seq<char> {
    let out = join_with(stdout_lines, "\n"@);
    let prefix = match kind {
        OutputKind::Video => "yt-dlp 下载失败: "@,
        _ => "yt-dlp 音频下载失败: "@,
    };
    prefix + if out.len() == 0 {
        join_with(stderr_lines, "\n"@)
    } else {
        out
    }
}

/// The error message for a failed yt-dlp run of `kind`.
pub fn failure_message(kind: OutputKind, stdout_lines: &[String], stderr_lines: &[String]) -> (r:
    String)
    ensures
        r@ == failure_report(kind, views(stdout_lines@), views(stderr_lines@)),
{
    let out = join_texts(stdout_lines, "\n");
    let prefix = match kind {
        OutputKind::Video => "yt-dlp 下载失败: ",
        _ => "yt-dlp 音频下载失败: ",
    };
    if out.as_str().is_empty() {
        let err = join_texts(stderr_lines, "\n");
        concat_text(prefix, err.as_str())
    } else {
        concat_text(prefix, out.as_str())
    }
}

/// The error message when ffmpeg could not convert the audio.
pub fn conversion_failure_message(stderr: &str) -> (r: String)
    ensures
        r@ == "ffmpeg 音频转换失败: "@ + stderr@,
{
    concat_text("ffmpeg 音频转换失败: ", stderr)
}

/// The error message when yt-dlp could not list the formats.
pub fn format_listing_failure_message(stderr: &str) -> (r: String)
    ensures
        r@ == "yt-dlp 获取格式失败: "@ + stderr@,
{
    concat_text("yt-dlp 获取格式失败: ", stderr)
}

/// The audio file given the path the output reported, if any, and the result
/// of the search among the paths the lines name (made only when none was
/// reported): the reported path, else what the search found.
pub fn reported_or_found(reported: Option<String>, found: Option<String>) -> (r: Option<String>)
    ensures
        r == match reported {
            Some(p) => Some(p),
            None => found,
        },
{
    match reported {
        Some(p) => Some(p),
        None => found,
    }
}

/// The audio file of a finished run of `kind`: the path its output last
/// reported, or else the first of the paths its lines name that is on disk.
/// The choice is `reported_or_found`.
pub fn downloaded_audio_path(kind: OutputKind, stdout_lines: &[String], output_dir: &str) -> (r:
    Option<String>)
    ensures
        last_reported_path(kind, views(stdout_lines@)) matches Some(p) ==> r is Some && r->0@
            == p,
        last_reported_path(kind, views(stdout_lines@)) is None ==> (r matches Some(q)
            ==> download_candidates(views(stdout_lines@)).contains(q@)),
        last_reported_path(kind, views(stdout_lines@)) is None && download_candidates(
            views(stdout_lines@),
        ).len() == 0 ==> r is None,
{
    let reported = reported_file_path(kind, stdout_lines);
    let found = if reported.is_none() {
        find_downloaded_file_from_lines(stdout_lines, output_dir, "mp3")
    } else {
        None
    };
    reported_or_found(reported, found)
}

/// What is done with the downloaded audio before transcription.
pub struct AudioConversion {
    /// The WAV file to produce: the audio path with the extension `wav`.
    pub wav_path: String,
    /// The audio is already WAV, so ffmpeg is not run.
    pub already_wav: bool,
}

/// How the audio at `audio_path` becomes WAV.
pub fn audio_conversion(audio_path: &str) -> (r: AudioConversion)
    ensures
        r.wav_path@ == spec_with_extension(audio_path@, "wav"@),
        r.already_wav == (spec_extension(audio_path@) == Some("wav"@)),
{
    proof {
        reveal_strlit("wav");
        assert(!"wav"@.contains('/') && !"wav"@.contains('\\')) by {
            assert("wav"@ =~= seq!['w', 'a', 'v']);
        }
    }
    let wav_path = path_with_extension(audio_path, "wav");
    let already_wav = match path_extension(audio_path) {
        Some(e) => same_text(e.as_str(), "wav"),
        None => false,
    };
    AudioConversion { wav_path, already_wav }
}

/// Line `i` of `ls` is the one a path comes from: no earlier line states a
/// path, and this one states `p` or is the bare path `p`.
pub open spec fn reported_at(ls: Seq<Seq<char>>, i: int, p: Seq<char>) -> bool {
    &&& 0 <= i < ls.len()
    &&& forall|j: int| 0 <= j < i ==> stated_download_path(#[trigger] ls[j]) is None
    &&& (stated_download_path(ls[i]) == Some(p) || (stated_download_path(ls[i]) is None
        && printed_download_path(ls[i]) == Some(p)))
}

/// The video file given what the output reported: the reported path, or
/// `download.mp4` in `output_dir`.
pub fn video_path_or_default(found: Option<String>, output_dir: &str) -> (r: String)
    ensures
        match found {
            Some(p) => r == p,
            None => r@ == spec_join(output_dir@, "download.mp4"@),
        },
{
    match found {
        Some(p) => p,
        None => path_join(output_dir, "download.mp4"),
    }
}

/// The video file of a finished download: the path that the output
/// (`stdout_lines` joined by newlines) reports, or `download.mp4` in
/// `output_dir` when it reports none. When a line states a path outright the
/// result is the path that the first such report gives; the default comes
/// back only when no line states a path and no bare printed path is on disk.
pub fn video_file_path(stdout_lines: &[String], output_dir: &str) -> (r: String)
    ensures
        ({
            let ls = lines(join_with(views(stdout_lines@), "\n"@));
            &&& (exists|i: int| 0 <= i < ls.len() && stated_download_path(#[trigger] ls[i]) is Some)
                ==> exists|i: int| reported_at(ls, i, r@)
            &&& (forall|i: int|
                0 <= i < ls.len() ==> stated_download_path(#[trigger] ls[i]) is None
                    && printed_download_path(ls[i]) is None) ==> r@ == spec_join(
                output_dir@,
                "download.mp4"@,
            )
            &&& r@ == spec_join(output_dir@, "download.mp4"@) || exists|i: int| reported_at(ls, i, r@)
        }),
{
    let output = join_texts(stdout_lines, "\n");
    let found = parse_download_path(output.as_str(), output_dir);
    let ghost ls = lines(output@);
    proof {
        if found is Some {
            let p = found->0;
            let i = choose|i: int|
                {
                    &&& 0 <= i < ls.len()
                    &&& forall|j: int| 0 <= j < i ==> stated_download_path(#[trigger] ls[j]) is None
                    &&& (stated_download_path(ls[i]) == Some(p@) || (stated_download_path(ls[i]) is None
                        && printed_download_path(ls[i]) == Some(p@)))
                };
            assert(reported_at(ls, i, p@));
        }
    }
    video_path_or_default(found, output_dir)
}

/// The file to report after the format suffix was removed, given the
/// system's answer on whether the cleaned path is on disk (the rename
/// succeeded): the cleaned path if so, else the path yt-dlp wrote.
pub fn settle(cleaned: String, original: String, cleaned_present: bool) -> (r: String)
    ensures
        r == if cleaned_present {
            cleaned
        } else {
            original
        },
{
    if cleaned_present {
        cleaned
    } else {
        original
    }
}

/// The file to report after the format suffix was removed: the cleaned path
/// if it is on disk (the rename succeeded), else the path yt-dlp wrote. The
/// system is asked; the choice given its answer is `settle`.
pub fn settled_file_path(cleaned: String, original: String) -> (r: String)
    ensures
        r == cleaned || r == original,
{
    let present = path_exists(cleaned.as_str());
    settle(cleaned, original, present)
}


/// The format id only adds `-f <id>` (right after the referer) when it asks
/// for a format; every other argument, the ffmpeg location included, is the
/// same whatever the format id.
pub proof fn law_video_format_only_adds_selector(
    dir: Seq<char>,
    format_id: Seq<char>,
    ffmpeg: Option<Seq<char>>,
    url: Seq<char>,
)
    ensures
        wants_format(format_id) ==> video_download_args(dir, format_id, ffmpeg, url)
            == video_download_args(dir, Seq::empty(), ffmpeg, url).insert(9, "-f"@).insert(
            10,
            format_id,
        ),
        !wants_format(format_id) ==> video_download_args(dir, format_id, ffmpeg, url)
            == video_download_args(dir, Seq::empty(), ffmpeg, url),
{
    let e: Seq<char> = Seq::empty();
    assert(!wants_format(e));
    if wants_format(format_id) {
        assert(video_download_args(dir, format_id, ffmpeg, url) =~= video_download_args(
            dir,
            e,
            ffmpeg,
            url,
        ).insert(9, "-f"@).insert(10, format_id));
    } else {
        assert(video_download_args(dir, format_id, ffmpeg, url) =~= video_download_args(
            dir,
            e,
            ffmpeg,
            url,
        ));
    }
}

/// When an ffmpeg with a parent directory was found, a video download ends
/// with `--ffmpeg-location <that directory> <url>`, whatever the format id;
/// without one it ends with the cookie source and the url.
pub proof fn law_video_ffmpeg_location(
    dir: Seq<char>,
    format_id: Seq<char>,
    ffmpeg: Option<Seq<char>>,
    url: Seq<char>,
)
    ensures
        ({
            let a = video_download_args(dir, format_id, ffmpeg, url);
            &&& a.len() >= 12
            &&& a.last() == url
            &&& a[0] == "-o"@ && a[1] == output_template(dir)
            &&& (ffmpeg matches Some(p) && spec_parent(p) is Some) ==> (a[a.len() - 3]
                == "--ffmpeg-location"@ && a[a.len() - 2] == spec_parent(ffmpeg->0)->0)
            &&& !(ffmpeg matches Some(p) && spec_parent(p) is Some) ==> (a[a.len() - 3]
                == "--cookies-from-browser"@ && a[a.len() - 2] == "chrome"@)
        }),
{
}

/// Both audio runs pass `--newline` right after `--no-playlist`, so progress
/// comes one line at a time; `restrict` only adds `--restrict-filenames`
/// after it.
pub proof fn law_audio_args_shape(dir: Seq<char>, ffmpeg: Option<Seq<char>>, url: Seq<char>, restrict: bool)
    ensures
        audio_download_args(dir, ffmpeg, url, restrict)[5] == "--no-playlist"@,
        audio_download_args(dir, ffmpeg, url, restrict)[6] == "--newline"@,
        audio_download_args(dir, ffmpeg, url, restrict).last() == url,
        audio_download_args(dir, ffmpeg, url, true) == audio_download_args(dir, ffmpeg, url, false).insert(
            7,
            "--restrict-filenames"@,
        ),
{
    assert(audio_download_args(dir, ffmpeg, url, true) =~= audio_download_args(
        dir,
        ffmpeg,
        url,
        false,
    ).insert(7, "--restrict-filenames"@));
}

} // verus!
