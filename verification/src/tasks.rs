//! What the task commands decide: which directory a kind of task writes to,
//! where the application keeps its data, whether a file can be opened.
use vstd::prelude::*;
use crate::paths::{path_exists, path_join, spec_join};
use crate::text::{concat_text, same_text};

verus! {

/// The output directories of the configuration, as written there (`~` allowed).
pub struct OutputDirs {
    pub video_dir: String,
    pub audio_dir: String,
    pub transcript_dir: String,
    pub ai_analysis_dir: String,
}

/// The configured directory of a task type, if the type is known.
pub open spec fn dir_for_task(task_type: Seq<char>, dirs: OutputDirs) -> Option<Seq<char>> {
    if task_type == "video_download"@ {
        Some(dirs.video_dir@)
    } else if task_type == "audio_download"@ {
        Some(dirs.audio_dir@)
    } else if task_type == "transcribe"@ {
        Some(dirs.transcript_dir@)
    } else if task_type == "ai_summary"@ {
        Some(dirs.ai_analysis_dir@)
    } else {
        None
    }
}

/// Calls `shellexpand::tilde_with_context` with `home` as the home
/// directory. As its source shows: input that does not start with `~`, or no
/// home directory, gives the input back; `~` alone or followed by `/` is
/// replaced by the home directory; `~` followed by another character than `/`
/// or `\` is kept. After `~\` the result depends on the platform (it is
/// replaced on Windows only), so only the two possible results are stated.
#[verifier::external_body]
fn expand_tilde(input: &str, home: Option<&str>) -> (r: String)
    ensures
        !(input@.len() > 0 && input@[0] == '~') ==> r@ == input@,
        home is None ==> r@ == input@,
        input@.len() > 0 && input@[0] == '~' && (input@.len() == 1 || input@[1] == '/')
            && home is Some ==> r@ == home->0@ + input@.skip(1),
        input@.len() > 1 && input@[0] == '~' && input@[1] != '/' && input@[1] != '\\' ==> r@
            == input@,
        input@.len() > 1 && input@[0] == '~' && input@[1] == '\\' && home is Some ==> (r@
            == input@ || r@ == home->0@ + input@.skip(1)),
{
    shellexpand::tilde_with_context(input, || home).into_owned()
}

/// The output directory of `task_type`, with a leading `~` expanded to
/// `home`; unknown types are refused with the message the front end shows.
pub fn get_task_output_dir(task_type: &str, dirs: &OutputDirs, home: Option<&str>) -> (r: Result<
    String,
    String,
>)
    ensures
        dir_for_task(task_type@, *dirs) is None <==> r is Err,
        r matches Err(m) ==> m@ == "未知的任务类型"@,
        r matches Ok(d) ==> {
            let dir = dir_for_task(task_type@, *dirs)->0;
            &&& !(dir.len() > 0 && dir[0] == '~') ==> d@ == dir
            &&& home is None ==> d@ == dir
            &&& dir.len() > 0 && dir[0] == '~' && (dir.len() == 1 || dir[1] == '/') && home is Some
                ==> d@ == home->0@ + dir.skip(1)
            &&& dir.len() > 1 && dir[0] == '~' && dir[1] != '/' && dir[1] != '\\' ==> d@ == dir
            &&& dir.len() > 1 && dir[0] == '~' && dir[1] == '\\' && home is Some ==> (d@ == dir
                || d@ == home->0@ + dir.skip(1))
        },
{
    let dir = if same_text(task_type, "video_download") {
        &dirs.video_dir
    } else if same_text(task_type, "audio_download") {
        &dirs.audio_dir
    } else if same_text(task_type, "transcribe") {
        &dirs.transcript_dir
    } else if same_text(task_type, "ai_summary") {
        &dirs.ai_analysis_dir
    } else {
        return Err(String::from_str("未知的任务类型"));
    };
    Ok(expand_tilde(dir.as_str(), home))
}

/// The application's data directory under the home directory `home`.
pub fn app_data_dir(home: &str) -> (r: String)
    ensures
        r@ == spec_join(home@, ".bilibili-transcript"@),
{
    path_join(home, ".bilibili-transcript")
}

/// Whether a file may be opened, given the system's answer on whether it is
/// on disk: yes if it is, else the message the front end shows.
pub fn file_presence(path: &str, present: bool) -> (r: Result<(), String>)
    ensures
        present ==> r is Ok,
        !present ==> (r matches Err(m) && m@ == "文件不存在: "@ + path@),
{
    if present {
        Ok(())
    } else {
        Err(concat_text("文件不存在: ", path))
    }
}

/// Refuses to open a file that is not on disk, with the message the front
/// end shows. The system is asked; the answer is judged by `file_presence`.
pub fn check_file_present(path: &str) -> (r: Result<(), String>)
    ensures
        r matches Err(m) ==> m@ == "文件不存在: "@ + path@,
{
    let present = path_exists(path);
    file_presence(path, present)
}

} // verus!
