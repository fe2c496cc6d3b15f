use kontrocode::tools::{check_under_root, is_blocked, FileReadTool, FileWriteTool, ShellRunTool};

fn args(a: &[&str]) -> Vec<String> {
    a.iter().map(|s| s.to_string()).collect()
}

#[test]
fn destructive_commands_are_blocked() {
    assert_eq!(is_blocked("rm", &args(&["-rf", "/"])), Some("destructive: rm -rf"));
    assert_eq!(is_blocked("rm", &args(&["-fr", "x"])), Some("destructive: rm -rf"));
    assert_eq!(is_blocked("mkfs.ext4", &[]), Some("destructive: filesystem format"));
    assert_eq!(is_blocked("dd", &args(&["if=x", "of=/dev/sda"])), Some("destructive: dd to device"));
    assert_eq!(is_blocked("reboot", &[]), Some("destructive: system power"));
    assert_eq!(is_blocked("chmod", &args(&["-R", "777", "/"])), Some("destructive: recursive chmod 777"));
}

#[test]
fn ordinary_commands_pass() {
    assert_eq!(is_blocked("rm", &args(&["file"])), None);
    assert_eq!(is_blocked("chmod", &args(&["777", "x"])), None);
    assert_eq!(is_blocked("dd", &args(&["of=out.img"])), None);
    assert_eq!(is_blocked("ls", &[]), None);
}

#[test]
fn shell_report_combines_output() {
    assert_eq!(ShellRunTool::report(Some(0), "hello\n", ""), "exit=0\nhello\n");
    assert_eq!(ShellRunTool::report(None, "", "oops"), "exit=-1\noops");
    assert_eq!(ShellRunTool::report(Some(2), "a", "b"), "exit=2\na\nb");
    assert_eq!(ShellRunTool::report(Some(-9), "", ""), "exit=-9\n");
}

#[test]
fn shell_report_truncates_long_output() {
    let long = "x".repeat(20_001);
    let r = ShellRunTool::report(Some(0), &long, "");
    assert_eq!(r, format!("exit=0\n{}\n…[truncated]", "x".repeat(20_000)));
    let wide = "é".repeat(10_001);
    let r = ShellRunTool::report(Some(0), &wide, "");
    assert_eq!(r, format!("exit=0\n{}\n…[truncated]", wide));
}

#[test]
fn tools_keep_their_roots() {
    assert_eq!(FileReadTool::new("/p".to_string()).root(), "/p");
    assert_eq!(FileWriteTool::new("/q".to_string()).root(), "/q");
    let s = ShellRunTool::new("/r".to_string(), 5_000);
    assert_eq!(s.root(), "/r");
    assert_eq!(s.timeout_ms(), 5_000);
}

fn parts(xs: &[&str]) -> Vec<String> {
    xs.iter().map(|x| x.to_string()).collect()
}

#[test]
fn paths_outside_the_root_are_refused() {
    let root = parts(&["/", "work", "proj"]);
    assert_eq!(check_under_root("src/a.rs", &root, &parts(&["/", "work", "proj", "src", "a.rs"])), Ok(()));
    assert_eq!(check_under_root("new/b.rs", &root, &parts(&["/", "work", "proj", "new", "b.rs"])), Ok(()));
    assert_eq!(
        check_under_root("../etc", &root, &parts(&["/", "work", "etc"])),
        Err("path `../etc` is outside the project root".to_string())
    );
    assert_eq!(
        check_under_root("/tmp/new.txt", &root, &parts(&["/", "tmp", "new.txt"])),
        Err("path `/tmp/new.txt` is outside the project root".to_string())
    );
    assert_eq!(
        check_under_root("/work/projx", &root, &parts(&["/", "work", "projx"])),
        Err("path `/work/projx` is outside the project root".to_string())
    );
}
