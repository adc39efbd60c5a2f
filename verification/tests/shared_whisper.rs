use handy::shared_whisper::{
    begin_ensure, is_healthy_status, candidate_npx_dirs, finish_bootstrap, find_npx, get_status, health_url,
    is_bootstrap_in_flight, join_path, npx_binary_names, npx_candidates, nvm_versions_dir,
    should_warm_up, warmup_url, BootstrapEvent, BootstrapRun, BootstrapState,
    SHARED_WHISPER_MODEL_ID,
};

fn strings(v: &[&str]) -> Vec<String> {
    v.iter().map(|s| s.to_string()).collect()
}

fn status_of(healthy: bool, st: &BootstrapState) -> (String, Option<String>) {
    let s = get_status(healthy, st);
    (s.status, s.error)
}

fn event_statuses(events: &[BootstrapEvent]) -> Vec<(String, Option<String>)> {
    events
        .iter()
        .map(|e| match e {
            BootstrapEvent::Status(s) => (s.status.clone(), s.error.clone()),
            BootstrapEvent::ModelReady(m) => ("model".to_string(), Some(m.clone())),
        })
        .collect()
}

#[test]
fn candidate_dirs_include_common_macos_locations() {
    let dirs = candidate_npx_dirs(
        &strings(&["/usr/bin", "/bin", "/usr/sbin", "/sbin"]),
        Some(("/Users/me/.nvm/versions/node".to_string(), strings(&["v18.19.0", "v20.11.1"]))),
        false,
    );
    assert!(dirs.contains(&"/usr/local/bin".to_string()));
    assert!(dirs.contains(&"/opt/homebrew/bin".to_string()));
}

#[test]
fn candidate_dirs_order() {
    let dirs = candidate_npx_dirs(
        &strings(&["/usr/bin"]),
        Some(("/home/u/.nvm/versions/node".to_string(), strings(&["v18.19.0", "v20.11.1", "v9.0.0"]))),
        false,
    );
    assert_eq!(
        dirs,
        strings(&[
            "/usr/bin",
            "/usr/local/bin",
            "/opt/homebrew/bin",
            "/home/u/.nvm/versions/node/v9.0.0/bin",
            "/home/u/.nvm/versions/node/v20.11.1/bin",
            "/home/u/.nvm/versions/node/v18.19.0/bin",
        ])
    );
    assert_eq!(candidate_npx_dirs(&vec![], None, false), strings(&["/usr/local/bin", "/opt/homebrew/bin"]));
}

#[test]
fn paths_join_like_path_join() {
    assert_eq!(join_path("/a/b", "c", false), "/a/b/c");
    assert_eq!(join_path("/a/b/", "c", false), "/a/b/c");
    assert_eq!(join_path("", "c", false), "c");
    assert_eq!(join_path("/a", "/etc", false), "/etc");
    assert_eq!(join_path("a\\", "c", false), "a\\/c");
    assert_eq!(nvm_versions_dir("/home/u", false), "/home/u/.nvm/versions/node");
    for (base, comp) in [("/a/b", "c"), ("/a/", "c/d"), ("x", "/y"), ("", "z"), ("a\\", "b"), ("/a", "")] {
        assert_eq!(
            join_path(base, comp, false),
            std::path::Path::new(base).join(comp).to_str().unwrap()
        );
    }
}

#[test]
fn paths_join_with_windows_separators() {
    assert_eq!(join_path("C:\\Users\\me", "npx.cmd", true), "C:\\Users\\me\\npx.cmd");
    assert_eq!(join_path("C:\\Users\\me\\", "npx.cmd", true), "C:\\Users\\me\\npx.cmd");
    assert_eq!(join_path("C:/tools/", "npx", true), "C:/tools/npx");
    assert_eq!(join_path("C:", "npx", true), "C:npx");
    assert_eq!(join_path("C:\\a", "D:\\b", true), "D:\\b");
    assert_eq!(join_path("C:\\a", "\\\\srv\\share", true), "\\\\srv\\share");
    assert_eq!(join_path("C:\\a", "\\b", true), "C:\\b");
    assert_eq!(join_path("a", "\\b", true), "\\b");
    assert_eq!(
        nvm_versions_dir("C:\\Users\\me", true),
        "C:\\Users\\me\\.nvm/versions/node"
    );
    let dirs = candidate_npx_dirs(
        &strings(&["C:\\nodejs"]),
        Some(("C:\\Users\\me\\.nvm/versions/node".to_string(), strings(&["v20.11.1"]))),
        true,
    );
    assert_eq!(
        dirs,
        strings(&[
            "C:\\nodejs",
            "/usr/local/bin",
            "/opt/homebrew/bin",
            "C:\\Users\\me\\.nvm/versions/node\\v20.11.1\\bin",
        ])
    );
    assert_eq!(
        npx_candidates(&strings(&["C:\\nodejs"]), &npx_binary_names(true), true),
        strings(&["C:\\nodejs\\npx.cmd", "C:\\nodejs\\npx.exe", "C:\\nodejs\\npx"])
    );
}

#[test]
fn npx_is_the_first_existing_candidate() {
    assert_eq!(npx_binary_names(false), strings(&["npx"]));
    assert_eq!(npx_binary_names(true), strings(&["npx.cmd", "npx.exe", "npx"]));
    let cands = npx_candidates(&strings(&["/a", "/b/"]), &strings(&["npx.cmd", "npx"]), false);
    assert_eq!(cands, strings(&["/a/npx.cmd", "/a/npx", "/b/npx.cmd", "/b/npx"]));
    assert_eq!(find_npx(&cands, &vec![false, false, true, true]), Some("/b/npx.cmd".to_string()));
    assert_eq!(find_npx(&cands, &vec![false; 4]), None);
    assert_eq!(find_npx(&cands, &vec![false]), None);
}

#[test]
fn urls() {
    assert_eq!(health_url("http://127.0.0.1:8737"), "http://127.0.0.1:8737/health");
    assert_eq!(health_url("http://127.0.0.1:8737//"), "http://127.0.0.1:8737/health");
    assert_eq!(warmup_url(), "http://127.0.0.1:8737/warmup");
    assert!(should_warm_up(SHARED_WHISPER_MODEL_ID));
    assert!(!should_warm_up("whisper-small"));
}

#[test]
fn status_reporting() {
    let st = BootstrapState::new();
    assert!(!is_bootstrap_in_flight(&st));
    assert_eq!(status_of(true, &st), ("ready".to_string(), None));
    assert_eq!(status_of(false, &st), ("uninstalled".to_string(), None));
}

#[test]
fn bootstrap_is_single_flight() {
    let mut st = BootstrapState::new();
    let healthy = begin_ensure(&mut st, true);
    assert!(!healthy.start_bootstrap);
    assert_eq!(healthy.status_event.map(|s| s.status), Some("ready".to_string()));
    assert!(!is_bootstrap_in_flight(&st));

    let first = begin_ensure(&mut st, false);
    assert!(first.start_bootstrap);
    assert_eq!(first.status_event.map(|s| s.status), Some("installing".to_string()));
    assert!(is_bootstrap_in_flight(&st));
    assert_eq!(status_of(false, &st), ("installing".to_string(), None));

    let second = begin_ensure(&mut st, false);
    assert!(!second.start_bootstrap);
    assert!(second.status_event.is_none());

    let events = finish_bootstrap(&mut st, BootstrapRun::NpxMissing);
    assert!(!is_bootstrap_in_flight(&st));
    let msg = "Shared whisper server is not running and npx was not found (checked PATH, /usr/local/bin, /opt/homebrew/bin, ~/.nvm/versions/node/*/bin). Install Node.js or start the server manually with `npx -y shared-whisper-server ensure`.".to_string();
    assert_eq!(event_statuses(&events), vec![("error".to_string(), Some(msg.clone()))]);
    assert_eq!(status_of(false, &st), ("error".to_string(), Some(msg)));
    assert!(begin_ensure(&mut st, false).start_bootstrap);
}

#[test]
fn bootstrap_outcomes() {
    let mut st = BootstrapState::new();
    let events = finish_bootstrap(
        &mut st,
        BootstrapRun::Failed { exit_status: "exit status: 1".to_string(), stderr: "\n boom \n".to_string() },
    );
    let msg = "Shared whisper server bootstrap exited with exit status: 1: boom".to_string();
    assert_eq!(event_statuses(&events), vec![("error".to_string(), Some(msg.clone()))]);
    assert_eq!(status_of(false, &st), ("error".to_string(), Some(msg)));

    let events = finish_bootstrap(&mut st, BootstrapRun::SpawnFailed { error: "not found".to_string() });
    let msg = "Failed to run shared whisper server bootstrap: not found".to_string();
    assert_eq!(event_statuses(&events), vec![("error".to_string(), Some(msg.clone()))]);

    let events = finish_bootstrap(&mut st, BootstrapRun::AlreadyHealthy);
    assert_eq!(event_statuses(&events), vec![("ready".to_string(), None)]);
    assert_eq!(status_of(false, &st), ("error".to_string(), Some(msg)));

    let events = finish_bootstrap(&mut st, BootstrapRun::Succeeded);
    assert_eq!(
        event_statuses(&events),
        vec![("ready".to_string(), None), ("model".to_string(), Some("shared-whisper".to_string()))]
    );
    assert_eq!(status_of(false, &st), ("uninstalled".to_string(), None));
}

#[test]
fn health_check_accepts_2xx() {
    assert!(is_healthy_status(Some(200)));
    assert!(is_healthy_status(Some(204)));
    assert!(is_healthy_status(Some(299)));
}

#[test]
fn health_check_rejects_server_error() {
    assert!(!is_healthy_status(Some(500)));
    assert!(!is_healthy_status(Some(199)));
    assert!(!is_healthy_status(Some(300)));
    assert!(!is_healthy_status(Some(404)));
    assert!(!is_healthy_status(None));
}
