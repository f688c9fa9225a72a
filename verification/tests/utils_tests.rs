use bilibili_transcript::resolver::{
    resolve_ffmpeg_path, resolve_ytdlp_path, tool_config, Platform, ResolveAction, ResolveEvent,
    ToolResolver,
};

/// A machine to search on: the paths on disk, the environment, and whether
/// `which`/`where` and the install commands succeed.
struct Host {
    existing: Vec<String>,
    env: Vec<(String, String)>,
    which_output: Option<String>,
    installs_succeed: bool,
    installed_path: Option<String>,
    commands_run: Vec<Vec<String>>,
}

impl Host {
    fn new(existing: &[&str]) -> Host {
        Host {
            existing: existing.iter().map(|s| s.to_string()).collect(),
            env: Vec::new(),
            which_output: None,
            installs_succeed: false,
            installed_path: None,
            commands_run: Vec::new(),
        }
    }

    fn has_path(&self, p: &str) -> bool {
        self.existing.iter().any(|e| e == p)
    }
}

/// Runs the search against `host` until it is over; returns its outcome and
/// how many requests it made.
fn run_search(mut resolver: ToolResolver, host: &mut Host) -> (Result<String, String>, usize) {
    let mut event = ResolveEvent::Begin;
    let mut steps = 0;
    loop {
        steps += 1;
        assert!(steps < 100, "the search should end");
        match resolver.next(event) {
            ResolveAction::ReadEnv(var) => {
                let v = host.env.iter().find(|(k, _)| *k == var).map(|(_, v)| v.clone());
                event = ResolveEvent::EnvValue(v);
            }
            ResolveAction::CheckExists(p) => event = ResolveEvent::Exists(host.has_path(&p)),
            ResolveAction::Run { program, args } => {
                let mut cmd = vec![program.clone()];
                cmd.extend(args.iter().cloned());
                host.commands_run.push(cmd);
                if program == "which" || program == "where" {
                    match &host.which_output {
                        Some(out) => {
                            event = ResolveEvent::Ran { success: true, stdout: out.clone() }
                        }
                        None => event = ResolveEvent::Ran { success: false, stdout: String::new() },
                    }
                } else {
                    if host.installs_succeed {
                        if let Some(p) = host.installed_path.clone() {
                            host.existing.push(p);
                        }
                    }
                    event = ResolveEvent::Ran { success: host.installs_succeed, stdout: String::new() };
                }
            }
            ResolveAction::Sleep(ms) => {
                assert_eq!(ms, 500);
                event = ResolveEvent::Slept;
            }
            ResolveAction::Found(p) => return (Ok(p), steps),
            ResolveAction::Failed(m) => return (Err(m), steps),
        }
    }
}

#[test]
fn test_resolve_ytdlp_path() {
    let mut host = Host::new(&["/usr/bin/yt-dlp"]);
    host.which_output = Some("/usr/bin/yt-dlp\n".to_string());
    let (result, _) = run_search(resolve_ytdlp_path(&Platform::Unix), &mut host);
    let path = result.expect("yt-dlp should be installed");
    assert!(host.has_path(&path), "yt-dlp not found at {:?}", path);
}

#[test]
fn test_resolve_ffmpeg_path() {
    let mut host = Host::new(&["/usr/local/bin/ffmpeg"]);
    let (result, _) = run_search(resolve_ffmpeg_path(&Platform::Unix), &mut host);
    let path = result.expect("ffmpeg should be installed");
    assert!(host.has_path(&path), "ffmpeg not found at {:?}", path);
}

#[test]
fn env_var_path_is_tried_first() {
    let mut host = Host::new(&["/opt/tools/yt-dlp", "/usr/bin/yt-dlp"]);
    host.env.push(("YT_DLP_PATH".to_string(), "/opt/tools/yt-dlp".to_string()));
    host.which_output = Some("/usr/bin/yt-dlp".to_string());
    let (result, steps) = run_search(resolve_ytdlp_path(&Platform::Unix), &mut host);
    assert_eq!(result, Ok("/opt/tools/yt-dlp".to_string()));
    assert_eq!(steps, 3);
    assert!(host.commands_run.is_empty());
}

#[test]
fn env_var_path_that_is_missing_falls_back_to_which() {
    let mut host = Host::new(&["/usr/bin/yt-dlp"]);
    host.env.push(("YT_DLP_PATH".to_string(), "/nowhere/yt-dlp".to_string()));
    host.which_output = Some("  /usr/bin/yt-dlp  \n".to_string());
    let (result, _) = run_search(resolve_ytdlp_path(&Platform::Unix), &mut host);
    assert_eq!(result, Ok("/usr/bin/yt-dlp".to_string()));
    assert_eq!(host.commands_run, vec![vec!["which".to_string(), "yt-dlp".to_string()]]);
}

#[test]
fn usual_locations_are_tried_in_order() {
    let mut host = Host::new(&["/usr/bin/ffmpeg", "/home/linuxbrew/.linuxbrew/bin/ffmpeg"]);
    let (result, _) = run_search(resolve_ffmpeg_path(&Platform::Unix), &mut host);
    assert_eq!(result, Ok("/usr/bin/ffmpeg".to_string()));
}

#[test]
fn install_then_second_look() {
    let mut host = Host::new(&[]);
    host.installs_succeed = true;
    host.installed_path = Some("/usr/local/bin/yt-dlp".to_string());
    let (result, _) = run_search(resolve_ytdlp_path(&Platform::Unix), &mut host);
    assert_eq!(result, Ok("/usr/local/bin/yt-dlp".to_string()));
    assert_eq!(
        host.commands_run,
        vec![
            vec!["which".to_string(), "yt-dlp".to_string()],
            vec!["pip".to_string(), "install".to_string(), "yt-dlp".to_string()],
            vec!["which".to_string(), "yt-dlp".to_string()],
        ]
    );
}

#[test]
fn failed_installs_give_the_failure_message() {
    let mut host = Host::new(&[]);
    let (result, steps) = run_search(resolve_ffmpeg_path(&Platform::Unix), &mut host);
    assert_eq!(
        result,
        Err("未找到 ffmpeg 且自动安装失败。请手动安装后重试。\n推荐安装方式：\n  - Windows: winget install ffmpeg 或 pip install ffmpeg".to_string())
    );
    // env, which, four locations, winget, choco, then the outcome
    assert_eq!(steps, 9);
    assert_eq!(host.commands_run.len(), 3);
    assert_eq!(host.commands_run[1][0], "winget");
    assert_eq!(host.commands_run[2], vec!["choco", "install", "ffmpeg", "-y"]);
}

#[test]
fn search_stays_over_once_done() {
    let mut host = Host::new(&["/usr/bin/yt-dlp"]);
    let mut resolver = resolve_ytdlp_path(&Platform::Unix);
    let mut event = ResolveEvent::Begin;
    let found;
    loop {
        match resolver.next(event) {
            ResolveAction::ReadEnv(_) => event = ResolveEvent::EnvValue(None),
            ResolveAction::CheckExists(p) => event = ResolveEvent::Exists(host.has_path(&p)),
            ResolveAction::Run { .. } => event = ResolveEvent::Ran { success: false, stdout: String::new() },
            ResolveAction::Sleep(_) => event = ResolveEvent::Slept,
            ResolveAction::Found(p) => {
                found = p;
                break;
            }
            ResolveAction::Failed(m) => panic!("{}", m),
        }
    }
    host.existing.clear();
    match resolver.next(ResolveEvent::Exists(false)) {
        ResolveAction::Found(p) => assert_eq!(p, found),
        _ => panic!("the search should stay over"),
    }
}

#[test]
fn windows_locations_use_the_user_directories() {
    let platform = Platform::Windows {
        user_name: "alice".to_string(),
        local_app_data: "C:\\Users\\alice\\AppData\\Local".to_string(),
        app_data: "C:\\Users\\alice\\AppData\\Roaming".to_string(),
    };
    let config = tool_config(&platform, "yt-dlp", "YT_DLP_PATH", vec![], vec![]);
    assert_eq!(config.find_command, "where");
    assert_eq!(config.candidates.len(), 10);
    assert_eq!(config.candidates[0], "C:\\ProgramData\\chocolatey\\bin\\yt-dlp.exe");
    assert_eq!(config.candidates[1], "C:\\Users\\alice\\scoop\\shims\\yt-dlp.exe");
    assert_eq!(
        config.candidates[2],
        "C:\\Users\\alice\\AppData\\Local\\Programs\\Python\\Python311\\Scripts\\yt-dlp.exe"
    );
    assert_eq!(config.candidates[7], "C:\\Users\\alice\\AppData\\Roaming\\yt-dlp.exe");
    assert_eq!(config.candidates[9], "C:\\yt-dlp\\yt-dlp.exe");
}

#[test]
fn unconfirmed_which_output_is_not_trusted() {
    let mut host = Host::new(&["/usr/bin/yt-dlp"]);
    host.which_output = Some("/stale/yt-dlp".to_string());
    let (result, steps) = run_search(resolve_ytdlp_path(&Platform::Unix), &mut host);
    assert_eq!(result, Ok("/usr/bin/yt-dlp".to_string()));
    // env, which, its path, then /opt/homebrew, /usr/local and /usr/bin
    assert_eq!(steps, 7);
}
