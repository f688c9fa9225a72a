//! Reading yt-dlp's output line by line: the progress it reports, and the
//! file it says it wrote.
use vstd::prelude::*;
use crate::locate::{clue_path, Clue, is_printed_path};
use crate::text::{
    chars_of, contains, first_char_is, contains_text, has_char, second_piece, second_piece_of, slice_of,
    trim, trimmed, views, words, words_of,
};

verus! {

/// The text of a progress line, before any number is read from it.
pub struct ProgressText {
    /// The percentage, without its `%` signs (`"45.2"`).
    pub percent: String,
    /// The download speed (`"2.5MiB/s"`), or empty.
    pub speed: String,
    /// The estimated time left (`"00:15"`), or empty.
    pub eta: String,
}

/// `w` without the copies of `c` at its end (`trim_end_matches`).
pub open spec fn strip_trailing(w: Seq<char>, c: char) -> Seq<char>
    decreases w.len(),
{
    if w.len() > 0 && w.last() == c {
        strip_trailing(w.drop_last(), c)
    } else {
        w
    }
}

/// The index of the first of `ws` that ends with `c`, searching from `i`.
pub open spec fn first_ending_with(ws: Seq<Seq<char>>, c: char, i: int) -> Option<int>
    decreases ws.len() - i,
{
    if i < 0 || i >= ws.len() {
        None
    } else if ws[i].len() > 0 && ws[i].last() == c {
        Some(i)
    } else {
        first_ending_with(ws, c, i + 1)
    }
}

/// The first whitespace-separated word of `s`, or nothing.
pub open spec fn first_word(s: Seq<char>) -> Seq<char> {
    if words(s).len() > 0 {
        words(s)[0]
    } else {
        Seq::empty()
    }
}

/// What a `[download]` line that holds a `%` reports: the first word ending in
/// `%` (without its `%` signs), the first word after `at `, and what follows
/// `ETA `, trimmed.
pub open spec fn progress_of(l: Seq<char>) -> Option<(Seq<char>, Seq<char>, Seq<char>)> {
    if contains(l, "[download]"@) && l.contains('%') {
        match first_ending_with(words(l), '%', 0) {
            Some(k) => Some(
                (
                    strip_trailing(words(l)[k], '%'),
                    match second_piece(l, "at "@) {
                        Some(p) => first_word(p),
                        None => Seq::empty(),
                    },
                    match second_piece(l, "ETA "@) {
                        Some(p) => trim(p),
                        None => Seq::empty(),
                    },
                ),
            ),
            None => None,
        }
    } else {
        None
    }
}

fn strip_trailing_of(w: &str, c: char) -> (r: String)
    ensures
        r@ == strip_trailing(w@, c),
{
    let cs = chars_of(w);
    let mut n: usize = cs.len();
    assert(w@.subrange(0, n as int) =~= w@);
    while n > 0 && cs[n - 1] == c
        invariant
            cs@ == w@,
            n <= cs@.len(),
            strip_trailing(w@, c) == strip_trailing(w@.subrange(0, n as int), c),
        decreases n,
    {
        assert(w@.subrange(0, n as int).drop_last() =~= w@.subrange(0, n - 1));
        n = n - 1;
    }
    slice_of(w, 0, n)
}

fn first_word_of(s: &str) -> (r: String)
    ensures
        r@ == first_word(s@),
{
    let ws = words_of(s);
    if ws.len() > 0 {
        assert(views(ws@)[0] == ws@[0]@);
        ws[0].clone()
    } else {
        String::new()
    }
}

/// What a line of yt-dlp's output reports of the download's progress.
pub fn parse_progress_line(line: &str) -> (r: Option<ProgressText>)
    ensures
        match r {
            Some(t) => progress_of(line@) == Some((t.percent@, t.speed@, t.eta@)),
            None => progress_of(line@) is None,
        },
{
    if !(contains_text(line, "[download]") && has_char(line, '%')) {
        return None;
    }
    let ws = words_of(line);
    let mut i: usize = 0;
    while i < ws.len()
        invariant
            contains(line@, "[download]"@) && line@.contains('%'),
            views(ws@) == words(line@),
            i <= ws@.len(),
            first_ending_with(words(line@), '%', 0) == first_ending_with(
                words(line@),
                '%',
                i as int,
            ),
        decreases ws@.len() - i,
    {
        let wc = chars_of(ws[i].as_str());
        assert(ws@[i as int]@ == words(line@)[i as int]);
        if wc.len() > 0 && wc[wc.len() - 1] == '%' {
            assert(wc@ == words(line@)[i as int]);
            assert(first_ending_with(words(line@), '%', i as int) == Some(i as int));
            let percent = strip_trailing_of(ws[i].as_str(), '%');
            let speed = match second_piece_of(line, "at ") {
                Some(p) => first_word_of(p.as_str()),
                None => String::new(),
            };
            let eta = match second_piece_of(line, "ETA ") {
                Some(p) => trimmed(p.as_str()),
                None => String::new(),
            };
            return Some(ProgressText { percent, speed, eta });
        }
        i = i + 1;
    }
    None
}

/// Which of yt-dlp's runs is being read: they name their file differently.
#[derive(PartialEq, Eq, Structural, Clone, Copy, Debug)]
pub enum OutputKind {
    /// A video download: its file is found afterwards, in the whole output.
    Video,
    /// Audio extraction before conversion to WAV.
    ExtractAudio,
    /// An audio download.
    DownloadAudio,
}

/// The path that one line of a run's output reports as its file, if any.
pub open spec fn reported_path(kind: OutputKind, l: Seq<char>) -> Option<Seq<char>> {
    let t = trim(l);
    match kind {
        OutputKind::Video => None,
        OutputKind::ExtractAudio => if is_printed_path(t) {
            Some(t)
        } else if clue_path(Clue::AlreadyDownloaded, t) is Some {
            clue_path(Clue::AlreadyDownloaded, t)
        } else if clue_path(Clue::NotConverting, t) is Some {
            clue_path(Clue::NotConverting, t)
        } else {
            clue_path(Clue::AudioDestination, t)
        },
        OutputKind::DownloadAudio => if t.len() > 0 && t[0] != '[' && !contains(
            t,
            "Destination:"@,
        ) && !t.contains('%') && t[0] == '/' {
            Some(t)
        } else {
            None
        },
    }
}

/// The path reported by the last line of `lines` that reports one.
pub open spec fn last_reported_path(kind: OutputKind, lines: Seq<Seq<char>>) -> Option<
    Seq<char>,
>
    decreases lines.len(),
{
    if lines.len() == 0 {
        None
    } else {
        match reported_path(kind, lines.last()) {
            Some(p) => Some(p),
            None => last_reported_path(kind, lines.drop_last()),
        }
    }
}

/// The path that one line of a run's output reports as its file.
pub fn reported_path_of(kind: OutputKind, line: &str) -> (r: Option<String>)
    ensures
        match r {
            Some(t) => reported_path(kind, line@) == Some(t@),
            None => reported_path(kind, line@) is None,
        },
{
    let t = trimmed(line);
    let ts = t.as_str();
    match kind {
        OutputKind::Video => None,
        OutputKind::ExtractAudio => {
            if first_char_is(ts, '/') && !has_char(ts, '[') && !has_char(ts, '%') {
                Some(t)
            } else {
                match crate::locate::clue_path_of(Clue::AlreadyDownloaded, ts) {
                    Some(p) => Some(p),
                    None => match crate::locate::clue_path_of(Clue::NotConverting, ts) {
                        Some(p) => Some(p),
                        None => crate::locate::clue_path_of(Clue::AudioDestination, ts),
                    },
                }
            }
        },
        OutputKind::DownloadAudio => {
            let tc = chars_of(ts);
            if tc.len() > 0 && tc[0] != '[' && !contains_text(ts, "Destination:") && !has_char(ts, '%')
                && tc[0] == '/' {
                Some(t)
            } else {
                None
            }
        },
    }
}

/// The file that a run's output reports: the path named by its last line
/// that names one.
pub fn reported_file_path(kind: OutputKind, lines: &[String]) -> (r: Option<String>)
    ensures
        match r {
            Some(t) => last_reported_path(kind, views(lines@)) == Some(t@),
            None => last_reported_path(kind, views(lines@)) is None,
        },
{
    let mut i: usize = lines.len();
    assert(views(lines@).take(lines@.len() as int) =~= views(lines@));
    while i > 0
        invariant
            i <= lines@.len(),
            last_reported_path(kind, views(lines@)) == last_reported_path(
                kind,
                views(lines@).take(i as int),
            ),
        decreases i,
    {
        let ghost pre = views(lines@).take(i as int);
        assert(pre.last() == lines@[i - 1]@);
        assert(pre.drop_last() =~= views(lines@).take(i - 1));
        match reported_path_of(kind, lines[i - 1].as_str()) {
            Some(p) => {
                return Some(p);
            },
            None => {},
        }
        i = i - 1;
    }
    None
}

} // verus!
