use boxxy::enclosure::RuleMode;
use boxxy::mount::{mount_plan, MountStep, ResolvedRule};

fn rules() -> Vec<ResolvedRule> {
    vec![
        ResolvedRule { mode: RuleMode::Directory, target: b"/home/me/.config/foo".to_vec(), rewrite: b"/tmp/foo-cfg".to_vec() },
        ResolvedRule { mode: RuleMode::File, target: b"/etc/hostname".to_vec(), rewrite: b"/tmp/fakehost".to_vec() },
    ]
}

#[test]
fn plan_binds_host_then_rules_then_pivots() {
    let plan = mount_plan(b"/tmp/boxxy/n", &rules(), false, false);
    assert_eq!(plan.len(), 4);
    assert!(matches!(&plan[0], MountStep::BindRw { src, dst } if src == b"/" && dst == b"/tmp/boxxy/n"));
    assert!(matches!(&plan[1], MountStep::BindRw { src, dst } if src == b"/tmp/foo-cfg" && dst == b"/tmp/boxxy/n/home/me/.config/foo"));
    assert!(matches!(&plan[2], MountStep::BindRw { src, dst } if src == b"/tmp/fakehost" && dst == b"/tmp/boxxy/n/etc/hostname"));
    assert!(matches!(&plan[3], MountStep::PivotRoot(p) if p == b"/tmp/boxxy/n"));
}

#[test]
fn plan_chroots_when_tracing_and_ends_read_only_when_immutable() {
    let plan = mount_plan(b"/r", &vec![], true, true);
    assert_eq!(plan.len(), 3);
    assert!(matches!(&plan[1], MountStep::Chroot(p) if p == b"/r"));
    assert!(matches!(&plan[2], MountStep::RemountRo(p) if p == b"/"));
}
