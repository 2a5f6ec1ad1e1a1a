use boxxy::enclosure::{child_stack_size, exit_code, stack_size_for, CleanupStep, Config, Enclosure, RuleMode, DEFAULT_STACK_SIZE, NO_STATUS};

fn config(daemon: bool) -> Config {
    Config { trace: false, immutable_root: false, daemon, dotenv: false }
}

#[test]
fn new_enclosure_has_a_name_and_no_state() {
    let e = Enclosure::new(config(false));
    assert!(!e.name().is_empty());
    assert_eq!(e.child_exit_status(), NO_STATUS);
    assert_eq!(e.config(), config(false));
}

#[test]
fn cleanup_removes_root_then_files_then_directories_latest_first() {
    let mut e = Enclosure::with_name(config(false), b"quiet-moon-0001".to_vec());
    e.record_created(RuleMode::Directory, b"/home/me/.config".to_vec(), true);
    e.record_created(RuleMode::File, b"/etc/fake".to_vec(), true);
    e.record_created(RuleMode::Directory, b"/home/me/.config/foo".to_vec(), true);
    e.record_created(RuleMode::File, b"/etc/existing".to_vec(), false);
    let plan = e.cleanup_plan(b"/tmp");
    assert_eq!(plan.len(), 4);
    assert!(matches!(&plan[0], CleanupStep::RemoveRoot(p) if p == b"/tmp/boxxy/quiet-moon-0001"));
    assert!(matches!(&plan[1], CleanupStep::RemoveFile(p) if p == b"/etc/fake"));
    assert!(matches!(&plan[2], CleanupStep::RemoveDir(p) if p == b"/home/me/.config/foo"));
    assert!(matches!(&plan[3], CleanupStep::RemoveDir(p) if p == b"/home/me/.config"));
}

#[test]
fn exit_codes_from_wait_status() {
    assert_eq!(exit_code(0), 0);
    assert_eq!(exit_code(3 << 8), 3);
    assert_eq!(exit_code(9), 137);
    assert_eq!(exit_code(15), 143);
    assert_eq!(exit_code(-1), -1);
}

#[test]
fn reported_status_follows_child_except_in_daemon_mode() {
    let mut e = Enclosure::with_name(config(false), b"n".to_vec());
    e.set_child_exit_status(2 << 8);
    assert_eq!(e.reported_status(), 2);
    let mut d = Enclosure::with_name(config(true), b"n".to_vec());
    d.set_child_exit_status(2 << 8);
    assert_eq!(d.reported_status(), 0);
}

#[test]
fn stack_size_falls_back_to_eight_mebibytes() {
    assert_eq!(stack_size_for(None), DEFAULT_STACK_SIZE);
    assert_eq!(DEFAULT_STACK_SIZE, 8 * 1024 * 1024);
    assert_eq!(stack_size_for(Some(4096)), 4096);
    assert!(child_stack_size() > 0);
}
