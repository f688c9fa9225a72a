//! Finding, in what yt-dlp printed, the path of the file it wrote.
use vstd::prelude::*;
use crate::paths::path_exists;
use crate::text::{
    before_first, before_first_of, begins_with, chars_of, contains, contains_text, find,
    first_char_is, has_char, lemma_find, lemma_find_from_skip, lines, match_at, second_piece,
    second_piece_of, slice_of, split_lines, starts_with, trim, trimmed, views,
};

verus! {

/// The kinds of line from which yt-dlp's output names a file, in the order in
/// which they are trusted.
#[derive(PartialEq, Eq, Structural, Clone, Copy, Debug)]
pub enum Clue {
    /// A bare absolute path (what `--print after_move:filepath` prints).
    PrintedPath,
    /// `[download] <path> has already been downloaded`.
    AlreadyDownloaded,
    /// `[ExtractAudio] Not converting audio <path>; file is already in ...`.
    NotConverting,
    /// `[ExtractAudio] Destination: <path>`.
    AudioDestination,
    /// `[download] Destination: <path>`.
    DownloadDestination,
}

/// A trimmed line that is a bare absolute path.
pub open spec fn is_printed_path(t: Seq<char>) -> bool {
    &&& t.len() > 0
    &&& t[0] == '/'
    &&& !t.contains('[')
    &&& !t.contains('%')
}

/// The path that line `l` names by way of `clue`, if it does.
pub open spec fn clue_path(clue: Clue, l: Seq<char>) -> Option<Seq<char>> {
    match clue {
        Clue::PrintedPath => if is_printed_path(trim(l)) {
            Some(trim(l))
        } else {
            None
        },
        Clue::AlreadyDownloaded => if contains(l, "[download]"@) && contains(
            l,
            "has already been downloaded"@,
        ) {
            match second_piece(l, "[download]"@) {
                Some(p) => Some(trim(before_first(p, "has already been downloaded"@))),
                None => None,
            }
        } else {
            None
        },
        Clue::NotConverting => if contains(l, "[ExtractAudio]"@) && contains(
            l,
            "Not converting audio"@,
        ) {
            match second_piece(l, "Not converting audio"@) {
                Some(p) => Some(trim(before_first(p, ";"@))),
                None => None,
            }
        } else {
            None
        },
        Clue::AudioDestination => if contains(l, "[ExtractAudio]"@) && contains(
            l,
            "Destination:"@,
        ) {
            match second_piece(l, "Destination:"@) {
                Some(p) => Some(trim(p)),
                None => None,
            }
        } else {
            None
        },
        Clue::DownloadDestination => if contains(l, "[download]"@) && contains(
            l,
            "Destination:"@,
        ) {
            match second_piece(l, "Destination:"@) {
                Some(p) => Some(trim(p)),
                None => None,
            }
        } else {
            None
        },
    }
}

/// The paths that `lines` name by way of `clue`, from the last line to the first.
pub open spec fn clue_paths_newest_first(clue: Clue, lines: Seq<Seq<char>>) -> Seq<Seq<char>>
    decreases lines.len(),
{
    if lines.len() == 0 {
        Seq::empty()
    } else {
        let rest = clue_paths_newest_first(clue, lines.drop_first());
        match clue_path(clue, lines[0]) {
            Some(p) => rest.push(p),
            None => rest,
        }
    }
}

/// Every path that `lines` name, in the order in which they are tried: by
/// clue, then from the last line to the first.
pub open spec fn download_candidates(lines: Seq<Seq<char>>) -> Seq<Seq<char>> {
    clue_paths_newest_first(Clue::PrintedPath, lines) + clue_paths_newest_first(
        Clue::AlreadyDownloaded,
        lines,
    ) + clue_paths_newest_first(Clue::NotConverting, lines) + clue_paths_newest_first(
        Clue::AudioDestination,
        lines,
    ) + clue_paths_newest_first(Clue::DownloadDestination, lines)
}

/// The path that `line` names by way of `clue`, if it does.
pub fn clue_path_of(clue: Clue, line: &str) -> (r: Option<String>)
    ensures
        match r {
            Some(t) => clue_path(clue, line@) == Some(t@),
            None => clue_path(clue, line@) is None,
        },
{
    match clue {
        Clue::PrintedPath => {
            let t = trimmed(line);
            if first_char_is(t.as_str(), '/') && !has_char(t.as_str(), '[') && !has_char(
                t.as_str(),
                '%',
            ) {
                Some(t)
            } else {
                None
            }
        },
        Clue::AlreadyDownloaded => {
            if contains_text(line, "[download]") && contains_text(line, "has already been downloaded") {
                match second_piece_of(line, "[download]") {
                    Some(p) => {
                        let b = before_first_of(p.as_str(), "has already been downloaded");
                        Some(trimmed(b.as_str()))
                    },
                    None => None,
                }
            } else {
                None
            }
        },
        Clue::NotConverting => {
            if contains_text(line, "[ExtractAudio]") && contains_text(line, "Not converting audio") {
                match second_piece_of(line, "Not converting audio") {
                    Some(p) => {
                        let b = before_first_of(p.as_str(), ";");
                        Some(trimmed(b.as_str()))
                    },
                    None => None,
                }
            } else {
                None
            }
        },
        Clue::AudioDestination => {
            if contains_text(line, "[ExtractAudio]") && contains_text(line, "Destination:") {
                match second_piece_of(line, "Destination:") {
                    Some(p) => Some(trimmed(p.as_str())),
                    None => None,
                }
            } else {
                None
            }
        },
        Clue::DownloadDestination => {
            if contains_text(line, "[download]") && contains_text(line, "Destination:") {
                match second_piece_of(line, "Destination:") {
                    Some(p) => Some(trimmed(p.as_str())),
                    None => None,
                }
            } else {
                None
            }
        },
    }
}

fn push_clue_paths(clue: Clue, lines: &[String], out: &mut Vec<String>)
    ensures
        views(final(out)@) == views(old(out)@) + clue_paths_newest_first(clue, views(lines@)),
{
    let n = lines.len();
    let mut i: usize = n;
    let ghost start = views(out@);
    assert(views(lines@).subrange(n as int, n as int) =~= Seq::<Seq<char>>::empty());
    while i > 0
        invariant
            n == lines@.len(),
            i <= n,
            views(out@) == start + clue_paths_newest_first(
                clue,
                views(lines@).subrange(i as int, n as int),
            ),
        decreases i,
    {
        let ghost before = views(out@);
        let j = i - 1;
        let ghost sub = views(lines@).subrange(j as int, n as int);
        assert(sub.drop_first() =~= views(lines@).subrange(i as int, n as int));
        assert(sub[0] == lines@[j as int]@);
        match clue_path_of(clue, lines[j].as_str()) {
            Some(p) => {
                let ghost pv = p@;
                out.push(p);
                assert(views(out@) =~= before.push(pv));
            },
            None => {},
        }
        assert(views(out@) =~= start + clue_paths_newest_first(clue, sub));
        i = j;
    }
    assert(views(lines@).subrange(0, n as int) =~= views(lines@));
}

/// Every path that `lines` name, in the order in which they are tried.
pub fn download_candidates_of(lines: &[String]) -> (r: Vec<String>)
    ensures
        views(r@) == download_candidates(views(lines@)),
{
    let mut out: Vec<String> = Vec::new();
    assert(views(out@) =~= Seq::<Seq<char>>::empty());
    push_clue_paths(Clue::PrintedPath, lines, &mut out);
    push_clue_paths(Clue::AlreadyDownloaded, lines, &mut out);
    push_clue_paths(Clue::NotConverting, lines, &mut out);
    push_clue_paths(Clue::AudioDestination, lines, &mut out);
    push_clue_paths(Clue::DownloadDestination, lines, &mut out);
    assert(views(out@) =~= download_candidates(views(lines@)));
    out
}


/// The index of the first of `candidates` whose answer in `answers` is yes
/// (candidates without an answer count as no).
pub open spec fn first_present(candidates: Seq<Seq<char>>, answers: Seq<bool>, i: int) -> Option<int>
    decreases candidates.len() - i,
{
    if i < 0 || i >= candidates.len() || i >= answers.len() {
        None
    } else if answers[i] {
        Some(i)
    } else {
        first_present(candidates, answers, i + 1)
    }
}

/// The first of `candidates` that the system said is on disk, given its
/// answers in order.
pub fn pick_first_present(candidates: &[String], answers: &[bool]) -> (r: Option<String>)
    ensures
        match first_present(views(candidates@), answers@, 0) {
            Some(i) => r is Some && r->0@ == candidates@[i]@,
            None => r is None,
        },
{
    let mut i: usize = 0;
    while i < candidates.len() && i < answers.len()
        invariant
            first_present(views(candidates@), answers@, 0) == first_present(
                views(candidates@),
                answers@,
                i as int,
            ),
        decreases candidates@.len() - i,
    {
        if answers[i] {
            return Some(candidates[i].clone());
        }
        i = i + 1;
    }
    None
}

/// Asks the system about `candidates` in order, until one is on disk: the
/// answers are all no but the last, and the asking stops early only at a yes.
fn ask_presence(candidates: &Vec<String>) -> (r: Vec<bool>)
    ensures
        r@.len() <= candidates@.len(),
        forall|k: int| 0 <= k < r@.len() - 1 ==> !r@[k],
        r@.len() == candidates@.len() || (r@.len() > 0 && r@.last()),
{
    let mut answers: Vec<bool> = Vec::new();
    let mut i: usize = 0;
    while i < candidates.len()
        invariant
            i <= candidates@.len(),
            answers@.len() == i,
            forall|k: int| 0 <= k < answers@.len() ==> !answers@[k],
        decreases candidates@.len() - i,
    {
        let present = path_exists(candidates[i].as_str());
        answers.push(present);
        if present {
            return answers;
        }
        i = i + 1;
    }
    answers
}

proof fn lemma_first_present(candidates: Seq<Seq<char>>, answers: Seq<bool>, i: int)
    requires
        0 <= i,
    ensures
        first_present(candidates, answers, i) matches Some(k) ==> i <= k < candidates.len(),
    decreases candidates.len() - i,
{
    if i < candidates.len() && i < answers.len() && !answers[i] {
        lemma_first_present(candidates, answers, i + 1);
    }
}

/// The file that yt-dlp wrote, as its output lines name it: the first of
/// `download_candidates` that is on disk. Whether a path is on disk is the
/// system's answer, so the contract says which paths can come back; the
/// choice among the answers is `pick_first_present`.
pub fn find_downloaded_file_from_lines(lines: &[String], _output_dir: &str, _ext: &str) -> (r:
    Option<String>)
    ensures
        r matches Some(p) ==> download_candidates(views(lines@)).contains(p@),
        download_candidates(views(lines@)).len() == 0 ==> r is None,
{
    let candidates = download_candidates_of(lines);
    let answers = ask_presence(&candidates);
    proof {
        lemma_first_present(views(candidates@), answers@, 0);
    }
    let r = pick_first_present(candidates.as_slice(), answers.as_slice());
    proof {
        if let Some(i) = first_present(views(candidates@), answers@, 0) {
            assert(views(candidates@)[i] == candidates@[i]@);
        }
    }
    r
}

/// The path that a line of yt-dlp's output states outright: after
/// `Destination:`, or between `[download]` and `has already been downloaded`.
pub open spec fn stated_download_path(l: Seq<char>) -> Option<Seq<char>> {
    if contains(l, "Destination:"@) {
        match second_piece(l, "Destination:"@) {
            Some(p) => Some(trim(p)),
            None => None,
        }
    } else if contains(l, "has already been downloaded"@) {
        let p = trim(before_first(l, "has already been downloaded"@));
        if starts_with(p, "[download]"@) {
            Some(trim(p.skip("[download]"@.len() as int)))
        } else {
            None
        }
    } else {
        None
    }
}

/// A line that may be a bare printed path: it starts with `/` and holds no
/// space. It counts only if the (trimmed) path is on disk.
pub open spec fn printed_download_path(l: Seq<char>) -> Option<Seq<char>> {
    if l.len() > 0 && l[0] == '/' && !l.contains(' ') {
        Some(trim(l))
    } else {
        None
    }
}

fn stated_download_path_of(l: &str) -> (r: Option<String>)
    ensures
        match r {
            Some(t) => stated_download_path(l@) == Some(t@),
            None => stated_download_path(l@) is None,
        },
{
    if contains_text(l, "Destination:") {
        match second_piece_of(l, "Destination:") {
            Some(p) => Some(trimmed(p.as_str())),
            None => None,
        }
    } else if contains_text(l, "has already been downloaded") {
        let b = before_first_of(l, "has already been downloaded");
        let p = trimmed(b.as_str());
        if begins_with(p.as_str(), "[download]") {
            let pc = chars_of(p.as_str());
            let k = chars_of("[download]").len();
            let rest = slice_of(p.as_str(), k, pc.len());
            assert(p@.subrange(k as int, pc@.len() as int) =~= p@.skip("[download]"@.len() as int));
            Some(trimmed(rest.as_str()))
        } else {
            None
        }
    } else {
        None
    }
}

/// The path that `ls` report from line `i` on, given the system's answers
/// `present` on whether each bare printed path is on disk: the first line
/// that states a path outright, unless an earlier bare-path line was answered
/// present (lines without an answer count as absent).
pub open spec fn path_from_lines(ls: Seq<Seq<char>>, present: Seq<bool>, i: int) -> Option<Seq<char>>
    decreases ls.len() - i,
{
    if i < 0 || i >= ls.len() {
        None
    } else if stated_download_path(ls[i]) is Some {
        stated_download_path(ls[i])
    } else if printed_download_path(ls[i]) is Some && i < present.len() && present[i] {
        printed_download_path(ls[i])
    } else {
        path_from_lines(ls, present, i + 1)
    }
}

fn printed_download_path_of(l: &str) -> (r: Option<String>)
    ensures
        match r {
            Some(t) => printed_download_path(l@) == Some(t@),
            None => printed_download_path(l@) is None,
        },
{
    if first_char_is(l, '/') && !has_char(l, ' ') {
        Some(trimmed(l))
    } else {
        None
    }
}

/// The path that the output lines `lines` report, given the system's answer
/// in `present[i]` on whether the bare path of line `i` is on disk.
pub fn download_path_from_lines(lines: &[String], present: &[bool]) -> (r: Option<String>)
    ensures
        match path_from_lines(views(lines@), present@, 0) {
            Some(p) => r is Some && r->0@ == p,
            None => r is None,
        },
{
    let mut i: usize = 0;
    while i < lines.len()
        invariant
            i <= lines@.len(),
            path_from_lines(views(lines@), present@, 0) == path_from_lines(
                views(lines@),
                present@,
                i as int,
            ),
        decreases lines@.len() - i,
    {
        let line = lines[i].as_str();
        assert(line@ == views(lines@)[i as int]);
        match stated_download_path_of(line) {
            Some(p) => {
                return Some(p);
            },
            None => {},
        }
        match printed_download_path_of(line) {
            Some(p) => {
                if i < present.len() && present[i] {
                    return Some(p);
                }
            },
            None => {},
        }
        i = i + 1;
    }
    None
}

/// Asks the system, line by line, whether each bare printed path is on disk,
/// until a line states a path or a bare path is on disk. Lines that are not
/// bare paths get the answer no.
fn ask_printed_presence(lines: &Vec<String>) -> (r: Vec<bool>)
    ensures
        r@.len() <= lines@.len(),
        forall|k: int|
            0 <= k < r@.len() ==> (printed_download_path(#[trigger] lines@[k]@) is None
                ==> !r@[k]),
{
    let mut answers: Vec<bool> = Vec::new();
    let mut i: usize = 0;
    while i < lines.len()
        invariant
            i <= lines@.len(),
            answers@.len() == i,
            forall|k: int|
                0 <= k < answers@.len() ==> (printed_download_path(#[trigger] lines@[k]@) is None
                    ==> !answers@[k]),
        decreases lines@.len() - i,
    {
        let line = lines[i].as_str();
        if stated_download_path_of(line).is_some() {
            return answers;
        }
        let present = match printed_download_path_of(line) {
            Some(p) => path_exists(p.as_str()),
            None => false,
        };
        answers.push(present);
        if present {
            return answers;
        }
        i = i + 1;
    }
    answers
}

proof fn lemma_path_from_lines(ls: Seq<Seq<char>>, present: Seq<bool>, i: int)
    requires
        0 <= i,
    ensures
        path_from_lines(ls, present, i) is None ==> forall|j: int|
            i <= j < ls.len() ==> stated_download_path(#[trigger] ls[j]) is None,
        path_from_lines(ls, present, i) matches Some(p) ==> exists|k: int|
            {
                &&& i <= k < ls.len()
                &&& forall|j: int| i <= j < k ==> stated_download_path(#[trigger] ls[j]) is None
                &&& (stated_download_path(ls[k]) == Some(p) || (stated_download_path(ls[k]) is None
                    && printed_download_path(ls[k]) == Some(p)))
            },
    decreases ls.len() - i,
{
    if i < ls.len() && stated_download_path(ls[i]) is None && !(printed_download_path(ls[i]) is Some
        && i < present.len() && present[i]) {
        lemma_path_from_lines(ls, present, i + 1);
        if let Some(p) = path_from_lines(ls, present, i + 1) {
            let k = choose|k: int|
                {
                    &&& i + 1 <= k < ls.len()
                    &&& forall|j: int|
                        i + 1 <= j < k ==> stated_download_path(#[trigger] ls[j]) is None
                    &&& (stated_download_path(ls[k]) == Some(p) || (stated_download_path(ls[k]) is None
                        && printed_download_path(ls[k]) == Some(p)))
                };
            assert(forall|j: int| i <= j < k ==> stated_download_path(#[trigger] ls[j]) is None);
        }
    }
}

/// The file that yt-dlp reports in its whole output `output`: the first line
/// that states a path outright, unless an earlier line is a bare path that is
/// on disk. The system is asked about the bare paths; the choice given its
/// answers is `download_path_from_lines`.
pub fn parse_download_path(output: &str, _output_dir: &str) -> (r: Option<String>)
    ensures
        r is None ==> forall|i: int|
            0 <= i < lines(output@).len() ==> stated_download_path(#[trigger] lines(output@)[i])
                is None,
        r matches Some(p) ==> exists|i: int|
            {
                &&& 0 <= i < lines(output@).len()
                &&& forall|j: int|
                    0 <= j < i ==> stated_download_path(#[trigger] lines(output@)[j]) is None
                &&& (stated_download_path(lines(output@)[i]) == Some(p@) || (
                stated_download_path(lines(output@)[i]) is None && printed_download_path(
                    lines(output@)[i],
                ) == Some(p@)))
            },
{
    let ls = split_lines(output);
    let answers = ask_printed_presence(&ls);
    let r = download_path_from_lines(ls.as_slice(), answers.as_slice());
    proof {
        lemma_path_from_lines(views(ls@), answers@, 0);
    }
    r
}


/// A `[download] Destination:` line states the whole rest of the line,
/// trimmed, inner spaces included, when the rest does not repeat the marker.
pub proof fn law_destination_keeps_whole_path(rest: Seq<char>)
    requires
        !contains(rest, "Destination:"@),
    ensures
        stated_download_path("[download] Destination:"@ + rest) == Some(trim(rest)),
{
    reveal_strlit("[download] Destination:");
    reveal_strlit("Destination:");
    let d = "Destination:"@;
    let l = "[download] Destination:"@ + rest;
    assert(d =~= seq!['D', 'e', 's', 't', 'i', 'n', 'a', 't', 'i', 'o', 'n', ':']);
    assert("[download] Destination:"@ =~= seq![
        '[', 'd', 'o', 'w', 'n', 'l', 'o', 'a', 'd', ']', ' ', 'D', 'e', 's', 't', 'i', 'n', 'a',
        't', 'i', 'o', 'n', ':',
    ]);
    assert forall|j: int| 0 <= j < 11 implies !match_at(l, d, j) by {
        if match_at(l, d, j) {
            assert(l.subrange(j, j + 12)[0] == d[0]);
        }
    }
    assert(l.subrange(11, 23) =~= d);
    assert(match_at(l, d, 11));
    lemma_find_from_skip(l, d, 0, 11);
    assert(find(l, d) == Some(11int));
    assert(contains(l, d));
    assert(l.skip(23) =~= rest);
    lemma_find(rest, d);
    assert(before_first(rest, d) == rest);
}

} // verus!
