use boxxy::idmap::{initial_gid_map, shrink_map};
use boxxy::syscall::{c_string_from_words, path_args, resume_signal, SyscallRegisters};
use boxxy::wait::{WaitDecision, WaitEvent, WaitLoop};

#[test]
fn path_argument_table() {
    assert_eq!(path_args(2), Some((0, None)));
    assert_eq!(path_args(257), Some((1, None)));
    assert_eq!(path_args(82), Some((0, Some(1))));
    assert_eq!(path_args(264), Some((1, Some(3))));
    assert_eq!(path_args(0), None);
}

#[test]
fn arguments_come_from_the_calling_convention_registers() {
    let regs = SyscallRegisters { orig_rax: 257, rdi: 10, rsi: 11, rdx: 12, r10: 13, r8: 14, r9: 15 };
    assert_eq!(regs.number(), 257);
    assert_eq!(regs.arg(0), 10);
    assert_eq!(regs.arg(3), 13);
    assert_eq!(regs.arg(5), 15);
}

#[test]
fn syscall_stops_forward_no_signal() {
    assert_eq!(resume_signal(133), 0);
    assert_eq!(resume_signal(2), 2);
}

#[test]
fn c_string_stops_at_nul() {
    let words = vec![u64::from_le_bytes(*b"/etc/pas"), u64::from_le_bytes(*b"swd\0junk")];
    assert_eq!(c_string_from_words(&words), b"/etc/passwd".to_vec());
    let unterminated = vec![u64::from_le_bytes(*b"abcdefgh")];
    assert_eq!(c_string_from_words(&unterminated), b"abcdefgh".to_vec());
    assert_eq!(c_string_from_words(&vec![]), Vec::<u8>::new());
}

#[test]
fn wait_loop_reports_primary_status_after_all_descendants() {
    let mut w = WaitLoop::new(100);
    assert_eq!(w.step(WaitEvent::NoChildren), WaitDecision::Continue);
    assert_eq!(w.step(WaitEvent::Reaped { pid: 100, wstatus: 256 }), WaitDecision::Continue);
    assert_eq!(w.step(WaitEvent::Reaped { pid: 101, wstatus: 0 }), WaitDecision::Continue);
    assert_eq!(w.step(WaitEvent::NoChildren), WaitDecision::Finished(256));
    let mut f = WaitLoop::new(7);
    assert_eq!(f.step(WaitEvent::Failed), WaitDecision::Abandon(-1));
}

#[test]
fn gid_map_holds_each_group_once() {
    assert_eq!(initial_gid_map(1000, &vec![10, 1000, 0, 27, 10]), vec![1000, 0, 10, 27]);
}

#[test]
fn shrinking_drops_the_rejected_id_but_never_a_pinned_one() {
    let map = vec![1000, 0, 10, 27];
    let pinned = vec![1000, 0];
    assert_eq!(shrink_map(&map, 10, &pinned), Some(vec![1000, 0, 27]));
    assert_eq!(shrink_map(&map, 0, &pinned), None);
    assert_eq!(shrink_map(&map, 42, &pinned), None);
}

#[test]
fn syscall_stops_alternate_between_entry_and_exit_per_tracee() {
    let mut toggle = boxxy::syscall::SyscallToggle::new();
    assert!(toggle.on_stop(10));
    assert!(toggle.on_stop(11));
    assert!(!toggle.on_stop(10));
    assert!(toggle.on_stop(10));
    assert!(!toggle.on_stop(11));
    assert!(!toggle.on_stop(10));
}
