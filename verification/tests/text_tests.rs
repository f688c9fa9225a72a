use bilibili_transcript::tasks::{
    app_data_dir, check_file_present, file_presence, get_task_output_dir, OutputDirs,
};
use bilibili_transcript::text::{
    after_first_of, before_first_of, begins_with, contains_text, join_texts, same_text,
    second_piece_of, split_at_char, split_lines, trimmed, words_of,
};

#[test]
fn trimming_removes_unicode_whitespace() {
    assert_eq!(trimmed("  a b \t\n"), "a b");
    assert_eq!(trimmed("\u{3000}x\u{A0}"), "x");
    assert_eq!(trimmed("   "), "");
}

#[test]
fn splitting_around_a_pattern() {
    assert_eq!(before_first_of("a;b;c", ";"), "a");
    assert_eq!(before_first_of("abc", ";"), "abc");
    assert_eq!(after_first_of("k=v=w", "="), Some("v=w".to_string()));
    assert_eq!(after_first_of("kv", "="), None);
    assert_eq!(second_piece_of("x at 1 at 2", "at "), Some("1 ".to_string()));
    assert_eq!(second_piece_of("none", "at "), None);
    assert!(contains_text("[download] 5%", "[download]"));
    assert!(!contains_text("[down", "[download]"));
    assert!(begins_with("[download] x", "[download]"));
    assert!(same_text("best", "best"));
    assert!(!same_text("best", "bes"));
}

#[test]
fn lines_like_str_lines() {
    assert_eq!(split_lines("a\nb\r\n\nc"), vec!["a", "b", "", "c"]);
    assert_eq!(split_lines("a\n"), vec!["a"]);
    assert_eq!(split_lines(""), Vec::<String>::new());
    assert_eq!(split_lines("x\r"), vec!["x\r"]);
    assert_eq!(split_at_char(";a;", ';'), vec!["", "a", ""]);
}

#[test]
fn words_like_split_whitespace() {
    assert_eq!(words_of("  a  bc\td "), vec!["a", "bc", "d"]);
    assert_eq!(words_of(""), Vec::<String>::new());
}

#[test]
fn joining() {
    let v = vec!["a".to_string(), "b".to_string()];
    assert_eq!(join_texts(&v, "\n"), "a\nb");
    assert_eq!(join_texts(&[], "\n"), "");
}

fn dirs() -> OutputDirs {
    OutputDirs {
        video_dir: "~/Videos/bili".to_string(),
        audio_dir: "/data/audio".to_string(),
        transcript_dir: "~".to_string(),
        ai_analysis_dir: "~other/ai".to_string(),
    }
}

#[test]
fn task_output_dirs() {
    let d = dirs();
    assert_eq!(get_task_output_dir("video_download", &d, Some("/home/u")), Ok("/home/u/Videos/bili".to_string()));
    assert_eq!(get_task_output_dir("audio_download", &d, Some("/home/u")), Ok("/data/audio".to_string()));
    assert_eq!(get_task_output_dir("transcribe", &d, Some("/home/u")), Ok("/home/u".to_string()));
    assert_eq!(get_task_output_dir("ai_summary", &d, Some("/home/u")), Ok("~other/ai".to_string()));
    assert_eq!(get_task_output_dir("video_download", &d, None), Ok("~/Videos/bili".to_string()));
    assert_eq!(get_task_output_dir("other", &d, Some("/home/u")), Err("未知的任务类型".to_string()));
}

#[test]
fn data_dir_and_file_check() {
    assert_eq!(app_data_dir("/home/u"), "/home/u/.bilibili-transcript");
    assert_eq!(check_file_present("/tmp"), Ok(()));
    assert_eq!(check_file_present("/nonexistent/f.mp4"), Err("文件不存在: /nonexistent/f.mp4".to_string()));
}

#[test]
fn presence_answer_decides_opening() {
    assert_eq!(file_presence("/x", true), Ok(()));
    assert_eq!(file_presence("/x", false), Err("文件不存在: /x".to_string()));
}
