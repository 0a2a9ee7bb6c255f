use jarvis::tools::sandbox::{lexically_normalize, path_has_blocked_segment, strip_tilde, ToolSandbox};

#[test]
fn blocked_segment_exact_match_not_substring() {
    // Real blocked segments hit.
    assert!(path_has_blocked_segment("/home/u/.ssh/id_rsa").is_some());
    assert!(path_has_blocked_segment("/proj/.env").is_some());
    assert!(path_has_blocked_segment("/proj/.git/config").is_some());
    // Look-alikes that merely CONTAIN the substring must NOT match.
    assert!(path_has_blocked_segment("/proj/release.env.example").is_none());
    assert!(path_has_blocked_segment("/proj/my.git.notes").is_none());
    assert!(path_has_blocked_segment("/proj/passwdmgr.txt").is_none());
}

#[test]
fn validate_command_rejects_separators() {
    let sb = ToolSandbox::new("/tmp/x".to_string());
    assert!(sb.validate_command("/bin/ls").is_err());
    assert!(sb.validate_command("..\\ls").is_err());
    assert!(sb.validate_command("sub/ls").is_err());
    assert!(sb.validate_command("ls").is_ok());
    assert!(sb.validate_command("curl").is_err());
}

#[test]
fn npm_npx_yarn_not_allowlisted() {
    let sb = ToolSandbox::new("/tmp/x".to_string());
    for c in ["npm", "npx", "yarn"] {
        assert!(
            sb.validate_command(c).is_err(),
            "{c} must not be allowlisted (Windows .cmd shim risk)"
        );
    }
    // node/cargo (real .exe-backed) stay allowed.
    assert!(sb.validate_command("node").is_ok());
    assert!(sb.validate_command("cargo").is_ok());
}

#[test]
fn blocked_command_rejected() {
    let sandbox = ToolSandbox::new("/tmp/jarvis_sandbox_test".to_string());

    let result = sandbox.validate_command("curl http://evil.com");
    assert!(result.is_err());
    assert!(result.unwrap_err().contains("Command not allowed"), "should reject curl");

    let result = sandbox.validate_command("sudo rm -rf /");
    assert!(result.is_err());
    assert!(result.unwrap_err().contains("Command not allowed"), "should reject sudo");

    let result = sandbox.validate_command("wget http://evil.com");
    assert!(result.is_err());

    let result = sandbox.validate_command("bash -c 'echo pwned'");
    assert!(result.is_err());
}

#[test]
fn allowed_command_passes() {
    let sandbox = ToolSandbox::new("/tmp/jarvis_sandbox_test".to_string());
    for cmd in &[
        "ls -la",
        "cat foo.txt",
        "git status",
        "cargo build",
        "echo hello",
        "mkdir -p subdir",
        "rm temp.txt",
        "touch new_file",
        "grep pattern file.rs",
        "python3 script.py",
    ] {
        assert!(sandbox.validate_command(cmd).is_ok(), "command should be allowed: {cmd}");
    }
}

#[test]
fn validate_command_error_texts() {
    let sb = ToolSandbox::new("/root".to_string());
    assert_eq!(
        sb.validate_command("/bin/ls -la").unwrap_err(),
        "Command not allowed: '/bin/ls' must be a bare program name"
    );
    assert_eq!(sb.validate_command("  curl x").unwrap_err(), "Command not allowed: curl");
}

#[test]
fn sandbox_root_is_kept() {
    let sb = ToolSandbox::new("/srv/work".to_string());
    assert_eq!(sb.root(), "/srv/work");
}

#[test]
fn validate_arg_path_rejects_escapes() {
    let sb = ToolSandbox::new("/srv/work".to_string());
    assert!(sb.validate_arg_path("../../etc/passwd", None).is_err());
    assert!(sb.validate_arg_path("~/.ssh/id_rsa", None).is_err());
    assert!(sb.validate_arg_path("~", None).is_err());
    assert!(sb.validate_arg_path("/etc/passwd", None).is_err());
    assert!(sb.validate_arg_path("./.env", None).is_err());
    assert!(sb.validate_arg_path("sub/.ssh/key", None).is_err());
    assert!(sb.validate_arg_path("./file.txt", None).is_ok());
    assert!(sb.validate_arg_path("a/b/c.txt", None).is_ok());
    assert!(sb.validate_arg_path("release.env.example", None).is_ok());
}

#[test]
fn validate_arg_path_rejects_symlink_escape() {
    let sb = ToolSandbox::new("/srv/work".to_string());
    assert!(sb.validate_arg_path("link/file", Some("/etc".to_string())).is_err());
    assert!(sb.validate_arg_path("link/file", Some("/srv/work/real".to_string())).is_ok());
}

#[test]
fn check_resolved_outside_and_blocked() {
    let sb = ToolSandbox::new("/srv/work".to_string());
    assert_eq!(
        sb.check_resolved("/etc/hosts").unwrap_err(),
        "Access denied: path '/etc/hosts' is outside sandbox '/srv/work'"
    );
    assert_eq!(
        sb.check_resolved("/srv/work/.ssh").unwrap_err(),
        "Access denied: path '/srv/work/.ssh' contains blocked segment '.ssh'"
    );
    assert_eq!(sb.check_resolved("/srv/work/a.txt").unwrap(), "/srv/work/a.txt");
}

#[test]
fn validate_path_resolved_new_file_uses_parent() {
    let sb = ToolSandbox::new("/srv/work".to_string());
    let r = sb.validate_path_resolved("/srv/work/new.txt", None, Some(Ok("/srv/work".to_string())));
    assert_eq!(r.unwrap(), "/srv/work/new.txt");
    let r = sb.validate_path_resolved("/tmp/new.txt", None, Some(Ok("/tmp".to_string())));
    assert!(r.is_err());
}

#[test]
fn lexical_normalization() {
    assert_eq!(lexically_normalize("/a/./b/../c"), "/a/c");
    assert_eq!(lexically_normalize("a/../../b"), "../b");
    assert_eq!(lexically_normalize("/.."), "/");
    assert_eq!(lexically_normalize("/../etc/x"), "/etc/x");
}

#[test]
fn tilde_forms() {
    assert_eq!(strip_tilde("~/x"), Some("x".to_string()));
    assert!(strip_tilde("~").is_some());
    assert_eq!(strip_tilde("x/~"), None);
}

// Paths as the filesystem resolved them, handed to the jail.

#[test]
fn blocked_path_rejected() {
    let sb = ToolSandbox::new("/srv/work".to_string());
    let err = sb.validate_path_resolved("/srv/work/.ssh", Some("/srv/work/.ssh".into()), None).unwrap_err();
    assert!(err.contains("blocked segment") && err.contains(".ssh"), "should block .ssh, got: {err}");
    let err = sb.validate_path_resolved("/srv/work/.env", Some("/srv/work/.env".into()), None).unwrap_err();
    assert!(err.contains(".env"), "should block .env");
}

#[test]
fn path_traversal_rejected() {
    let sb = ToolSandbox::new("/srv/work".to_string());
    // `/srv/work/../../etc/hosts` resolves to `/etc/hosts`.
    let r = sb.validate_path_resolved("/srv/work/../../etc/hosts", Some("/etc/hosts".into()), None);
    assert!(r.is_err(), "path traversal via .. must be rejected");
    // A path that does not resolve, under a parent that does not either.
    let r = sb.validate_path_resolved("/srv/work/../nope/x", None, Some(Err("No such file or directory".into())));
    assert!(r.is_err());
    let r = sb.validate_path_resolved("/tmp", Some("/tmp".into()), None);
    assert!(r.is_err(), "absolute path outside sandbox must be rejected");
}

#[test]
fn allowed_path_passes() {
    let sb = ToolSandbox::new("/srv/work".to_string());
    let r = sb.validate_path_resolved("/srv/work/allowed_test.txt", Some("/srv/work/allowed_test.txt".into()), None);
    assert!(r.unwrap().starts_with("/srv/work"), "returned path should be inside sandbox");
    let r = sb.validate_path_resolved("/srv/work/will_be_created.txt", None, Some(Ok("/srv/work".into())));
    assert!(r.is_ok(), "non-existent file with valid parent should be allowed");
}
