use boxxy::lifecycle::{Action, Event, Lifecycle, Phase};

#[test]
fn detached_run_exits_with_child_code_after_cleanup() {
    let mut l = Lifecycle::new(false, false);
    assert_eq!(l.step(Event::Succeeded), Action::CloneChild);
    assert_eq!(l.step(Event::Succeeded), Action::AwaitStop);
    assert_eq!(l.step(Event::Succeeded), Action::MapIds);
    assert_eq!(l.step(Event::Succeeded), Action::Detach);
    assert_eq!(l.step(Event::Succeeded), Action::AwaitExit);
    assert_eq!(l.step(Event::ChildExited(3 << 8)), Action::CleanUp);
    assert_eq!(l.step(Event::Succeeded), Action::Exit(3));
    assert_eq!(l.phase, Phase::Done);
}

#[test]
fn traced_run_cleans_up_after_child_exit() {
    let mut l = Lifecycle::new(true, false);
    l.step(Event::Succeeded);
    l.step(Event::Succeeded);
    l.step(Event::Succeeded);
    assert_eq!(l.step(Event::Succeeded), Action::StartTracer);
    assert_eq!(l.step(Event::ChildExited(9)), Action::CleanUp);
    assert_eq!(l.step(Event::Succeeded), Action::Exit(137));
}

#[test]
fn early_child_exit_still_cleans_up() {
    let mut l = Lifecycle::new(false, false);
    for _ in 0..3 {
        l.step(Event::Succeeded);
    }
    assert_eq!(l.step(Event::Succeeded), Action::Detach);
    assert_eq!(l.step(Event::ChildGone), Action::CleanUp);
    assert_eq!(l.status, -1);
    assert_eq!(l.step(Event::Succeeded), Action::Exit(-1));
}

#[test]
fn failure_after_rule_preparation_cleans_up_first() {
    let mut l = Lifecycle::new(false, false);
    l.step(Event::Succeeded);
    assert_eq!(l.step(Event::Failed), Action::CleanUp);
    assert_eq!(l.step(Event::Succeeded), Action::FailAfterCleanup);
    let mut n = Lifecycle::new(false, false);
    assert_eq!(n.step(Event::Failed), Action::Fail);
}

#[test]
fn daemon_run_reports_zero() {
    let mut l = Lifecycle::new(false, true);
    for _ in 0..4 {
        l.step(Event::Succeeded);
    }
    l.step(Event::Succeeded);
    l.step(Event::ChildExited(5 << 8));
    assert_eq!(l.step(Event::Succeeded), Action::Exit(0));
}
