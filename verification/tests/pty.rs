use jarvis::pty::{
    allowed_env_vars, append_capped, choose_program, default_shell_from, missing_pane_error, shell_launch_plan,
    PtyManager, PtyOps, DEFAULT_COLS, DEFAULT_ROWS, PTY_MAX_OUTPUT_PER_FRAME, PTY_READ_CHUNK,
};

#[test]
fn pty_drain_output_respects_max_frame_size() {
    // PTY_MAX_OUTPUT_PER_FRAME is 64KB — we can't easily produce that
    // much output in a test, but we verify the constant is correct
    assert_eq!(PTY_MAX_OUTPUT_PER_FRAME, 65_536);
}

#[test]
fn pty_constants_are_sane() {
    assert_eq!(PTY_READ_CHUNK, 8_192);
    assert_eq!(PTY_MAX_OUTPUT_PER_FRAME, 65_536);
    assert_eq!(DEFAULT_COLS, 80);
    assert_eq!(DEFAULT_ROWS, 24);
}

#[test]
fn append_capped_stops_at_frame_size() {
    let mut buf = vec![1u8; PTY_MAX_OUTPUT_PER_FRAME - 10];
    assert!(!append_capped(&mut buf, &[2u8; 5]));
    assert_eq!(buf.len(), PTY_MAX_OUTPUT_PER_FRAME - 5);
    assert!(append_capped(&mut buf, &[3u8; 20]));
    assert_eq!(buf.len(), PTY_MAX_OUTPUT_PER_FRAME);
    assert_eq!(buf[PTY_MAX_OUTPUT_PER_FRAME - 1], 3);
}

/// A stand-in PTY that records what it was asked to do.
struct FakePty {
    written: Vec<u8>,
    output: Vec<u8>,
    finished: bool,
    killed: bool,
    size: Option<(u16, u16)>,
    log: std::rc::Rc<std::cell::RefCell<Vec<String>>>,
}

impl PtyOps for FakePty {
    fn write_input(&mut self, data: &[u8]) -> Result<(), String> {
        self.written.extend_from_slice(data);
        Ok(())
    }
    fn resize(&mut self, cols: u16, rows: u16) -> Result<(), String> {
        self.size = Some((cols, rows));
        if cols == 0 { Err("bad size".to_string()) } else { Ok(()) }
    }
    fn kill(&mut self) {
        self.killed = true;
        self.log.borrow_mut().push("kill".to_string());
    }
    fn wait_exit_code(&mut self) -> Option<u32> {
        self.log.borrow_mut().push("wait".to_string());
        if self.killed { Some(0) } else { None }
    }
    fn drain_output(&self) -> Vec<u8> {
        self.output.clone()
    }
    fn is_finished(&self) -> bool {
        self.finished
    }
}

fn fake(output: &[u8], finished: bool) -> FakePty {
    FakePty {
        written: Vec::new(),
        output: output.to_vec(),
        finished,
        killed: false,
        size: None,
        log: Default::default(),
    }
}

#[test]
fn pty_manager_insert_and_lookup() {
    let mgr: PtyManager<FakePty> = PtyManager::new();
    assert!(mgr.is_empty());
    assert_eq!(mgr.len(), 0);
    assert!(!mgr.contains(1));
}

#[test]
fn pty_manager_default_is_empty() {
    let mgr: PtyManager<FakePty> = PtyManager::default();
    assert!(mgr.is_empty());
    assert_eq!(mgr.pane_ids(), Vec::<u32>::new());
}

#[test]
fn pty_manager_write_input_missing_pane() {
    let mut mgr: PtyManager<FakePty> = PtyManager::new();
    let result = mgr.write_input(999, b"hello");
    assert!(result.is_err());
    assert!(result.unwrap_err().contains("No PTY for pane 999"));
}

#[test]
fn pty_manager_resize_missing_pane() {
    let mut mgr: PtyManager<FakePty> = PtyManager::new();
    let result = mgr.resize(999, 80, 24);
    assert!(result.is_err());
    assert!(result.unwrap_err().contains("No PTY for pane 999"));
}

#[test]
fn pty_manager_kill_and_remove_missing_pane() {
    let mut mgr: PtyManager<FakePty> = PtyManager::new();
    let result = mgr.kill_and_remove(999);
    assert!(result.is_none());
}

#[test]
fn pty_manager_kill_all_empty() {
    let mut mgr: PtyManager<FakePty> = PtyManager::new();
    mgr.kill_all();
    assert!(mgr.is_empty());
    assert_eq!(mgr.len(), 0);
}

#[test]
fn pty_manager_kill_all_with_ptys() {
    let mut mgr = PtyManager::new();
    mgr.insert(1, fake(b"", false));
    mgr.insert(2, fake(b"", false));
    assert_eq!(mgr.len(), 2);
    mgr.kill_all();
    assert!(mgr.is_empty());
    assert_eq!(mgr.len(), 0);
}

#[test]
fn pty_manager_kill_all_is_idempotent() {
    let mut mgr = PtyManager::new();
    mgr.insert(1, fake(b"", false));
    mgr.kill_all();
    mgr.kill_all();
    assert!(mgr.is_empty());
}

#[test]
fn pty_manager_drain_all_empty() {
    let mgr: PtyManager<FakePty> = PtyManager::new();
    let results = mgr.drain_all_output();
    assert!(results.is_empty());
}

#[test]
fn pty_manager_lifecycle() {
    let mut mgr = PtyManager::new();
    mgr.insert(42, fake(b"", false));
    assert!(mgr.contains(42));
    assert_eq!(mgr.len(), 1);
    assert_eq!(mgr.pane_ids(), vec![42]);
    mgr.kill_and_remove(42);
    assert!(!mgr.contains(42));
    assert!(mgr.is_empty());
}

#[test]
fn pty_manager_routes_input_and_collects_output() {
    let mut mgr = PtyManager::new();
    mgr.insert(1, fake(b"out", false));
    mgr.insert(2, fake(b"", true));
    assert!(mgr.write_input(1, b"ls\n").is_ok());
    assert_eq!(mgr.get(1).unwrap().written, b"ls\n".to_vec());
    let drained = mgr.drain_all_output();
    assert_eq!(drained, vec![(1, b"out".to_vec())]);
    assert_eq!(mgr.check_finished(), vec![2]);
    assert_eq!(mgr.kill_and_remove(2), Some(0));
}

#[test]
fn missing_pane_error_text() {
    assert_eq!(missing_pane_error(7), "No PTY for pane 7");
}

#[test]
fn allowed_env_vars_contains_essentials() {
    let vars = allowed_env_vars();
    assert!(vars.contains(&"HOME"));
    assert!(vars.contains(&"PATH"));
    assert!(vars.contains(&"TERM"));
    assert!(vars.contains(&"USER"));
}

#[test]
fn allowed_env_vars_excludes_secrets() {
    for var in allowed_env_vars() {
        let lower = var.to_lowercase();
        assert!(!lower.contains("key"), "ALLOWED_ENV_VARS should not contain '{var}'");
        assert!(!lower.contains("secret"), "ALLOWED_ENV_VARS should not contain '{var}'");
        assert!(!lower.contains("token"), "ALLOWED_ENV_VARS should not contain '{var}'");
        assert!(!lower.contains("password"), "ALLOWED_ENV_VARS should not contain '{var}'");
    }
}

#[test]
fn default_shell_returns_nonempty() {
    assert_eq!(default_shell_from(None), "/bin/sh");
    assert_eq!(default_shell_from(Some("/bin/zsh")), "/bin/zsh");
}

#[test]
fn blank_program_falls_back_to_default_shell() {
    assert_eq!(choose_program("  ", "/bin/bash"), "/bin/bash");
    assert_eq!(choose_program("/usr/bin/fish", "/bin/bash"), "/usr/bin/fish");
}

#[test]
fn shell_launch_plan_orders_env_and_args() {
    let n = allowed_env_vars().len();
    let mut values: Vec<Option<String>> = vec![None; n];
    values[0] = Some("/home/u".to_string()); // HOME
    values[4] = Some("/usr/bin".to_string()); // PATH
    let user_env = vec![("TERM".to_string(), "screen".to_string())];
    let plan = shell_launch_plan(&values, &user_env, true, &vec!["-i".to_string()], Some("~/proj"), Some("/home/u"));
    assert_eq!(
        plan.env,
        vec![
            ("HOME".to_string(), "/home/u".to_string()),
            ("PATH".to_string(), "/usr/bin".to_string()),
            ("TERM".to_string(), "xterm-256color".to_string()),
            ("TERM".to_string(), "screen".to_string()),
        ]
    );
    assert_eq!(plan.args, vec!["-l".to_string(), "-i".to_string()]);
    assert_eq!(plan.cwd, Some("/home/u/proj".to_string()));
    let plan = shell_launch_plan(&values, &vec![], false, &vec![], Some(""), None);
    assert!(plan.args.is_empty());
    assert_eq!(plan.cwd, None);
}

#[test]
fn pty_manager_resize_reaches_the_handle_and_gives_its_answer() {
    let mut mgr = PtyManager::new();
    mgr.insert(3, fake(b"", false));
    assert!(mgr.resize(3, 120, 40).is_ok());
    assert_eq!(mgr.get(3).unwrap().size, Some((120, 40)));
    assert_eq!(mgr.resize(3, 0, 40), Err("bad size".to_string()));
}

#[test]
fn pty_manager_kills_then_waits() {
    let log: std::rc::Rc<std::cell::RefCell<Vec<String>>> = Default::default();
    let mut mgr = PtyManager::new();
    let mut a = fake(b"", false);
    a.log = log.clone();
    let mut b = fake(b"", false);
    b.log = log.clone();
    mgr.insert(1, a);
    mgr.insert(2, b);
    assert_eq!(mgr.kill_and_remove(1), Some(0));
    assert_eq!(*log.borrow(), vec!["kill", "wait"]);
    mgr.kill_all();
    assert_eq!(*log.borrow(), vec!["kill", "wait", "kill", "wait"]);
    assert!(mgr.is_empty());
}

#[test]
fn pty_manager_lists_every_nonempty_output_and_finished_pane() {
    let mut mgr = PtyManager::new();
    mgr.insert(1, fake(b"a", true));
    mgr.insert(2, fake(b"", true));
    mgr.insert(3, fake(b"c", false));
    let mut drained = mgr.drain_all_output();
    drained.sort();
    assert_eq!(drained, vec![(1, b"a".to_vec()), (3, b"c".to_vec())]);
    let mut done = mgr.check_finished();
    done.sort();
    assert_eq!(done, vec![1, 2]);
}
