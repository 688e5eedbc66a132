use kernel_service::supervisor::{
    get_process_status, restart_kernel, start_kernel, status_json, stop_kernel,
    KernelProcessState, Reaction, Reply, Supervisor, SupervisorAction, SupervisorError,
    SupervisorEvent,
};

fn refused(e: SupervisorError) -> Reaction {
    Reaction { action: SupervisorAction::Nothing, reply: Reply::Failed(e) }
}

fn running(pid: u32) -> Supervisor {
    let mut s = Supervisor::new();
    start_kernel(&mut s, true);
    s.handle(SupervisorEvent::Started { pid });
    s
}

#[test]
fn a_new_supervisor_is_stopped() {
    assert_eq!(Supervisor::new().get_status(), KernelProcessState::Stopped);
}

#[test]
fn start_twice_spawns_once() {
    let mut s = Supervisor::new();
    let mut spawns = 0;
    let first = start_kernel(&mut s, true);
    if first.action == SupervisorAction::Spawn {
        spawns += 1;
    }
    assert_eq!(first, Reaction { action: SupervisorAction::Spawn, reply: Reply::Pending });
    assert_eq!(s.get_status(), KernelProcessState::Starting);
    let second = start_kernel(&mut s, true);
    if second.action == SupervisorAction::Spawn {
        spawns += 1;
    }
    assert_eq!(second, refused(SupervisorError::TransitionInProgress));
    assert_eq!(s.get_status(), KernelProcessState::Starting);
    let ready = s.handle(SupervisorEvent::Started { pid: 41 });
    assert_eq!(ready, Reaction { action: SupervisorAction::Nothing, reply: Reply::Done });
    assert_eq!(s.get_status(), KernelProcessState::Running { pid: 41 });
    let third = start_kernel(&mut s, true);
    assert_eq!(third, refused(SupervisorError::AlreadyRunning));
    assert_eq!(s.get_status(), KernelProcessState::Running { pid: 41 });
    assert_eq!(spawns, 1);
}

#[test]
fn stop_when_stopped_is_ok() {
    let mut s = Supervisor::new();
    let r = stop_kernel(&mut s);
    assert_eq!(r, Reaction { action: SupervisorAction::Nothing, reply: Reply::Done });
    assert_eq!(s.get_status(), KernelProcessState::Stopped);
    assert_eq!(stop_kernel(&mut s), r);
}

#[test]
fn start_needs_the_configuration() {
    let mut s = Supervisor::new();
    assert_eq!(start_kernel(&mut s, false), refused(SupervisorError::ConfigMissing));
    assert_eq!(s.get_status(), KernelProcessState::Stopped);
    assert_eq!(restart_kernel(&mut s, false), refused(SupervisorError::ConfigMissing));
    let mut r = running(3);
    assert_eq!(restart_kernel(&mut r, false), refused(SupervisorError::ConfigMissing));
    assert_eq!(r.get_status(), KernelProcessState::Running { pid: 3 });
}

#[test]
fn stop_terminates_and_waits_for_the_exit() {
    let mut s = running(9);
    assert_eq!(
        stop_kernel(&mut s),
        Reaction { action: SupervisorAction::Terminate { pid: 9 }, reply: Reply::Pending }
    );
    assert_eq!(s.get_status(), KernelProcessState::Stopping);
    assert_eq!(stop_kernel(&mut s), refused(SupervisorError::TransitionInProgress));
    assert_eq!(start_kernel(&mut s, true), refused(SupervisorError::TransitionInProgress));
    assert_eq!(restart_kernel(&mut s, true), refused(SupervisorError::TransitionInProgress));
    assert_eq!(
        s.handle(SupervisorEvent::GraceElapsed),
        Reaction { action: SupervisorAction::Kill { pid: 9 }, reply: Reply::Pending }
    );
    assert_eq!(s.get_status(), KernelProcessState::Stopping);
    assert_eq!(
        s.handle(SupervisorEvent::Exited { exit_code: 0 }),
        Reaction { action: SupervisorAction::Nothing, reply: Reply::Done }
    );
    assert_eq!(s.get_status(), KernelProcessState::Stopped);
}

#[test]
fn a_child_that_cannot_be_terminated_keeps_running() {
    let mut s = running(9);
    stop_kernel(&mut s);
    assert_eq!(
        s.handle(SupervisorEvent::TerminationFailed),
        refused(SupervisorError::TerminationFailed)
    );
    assert_eq!(s.get_status(), KernelProcessState::Running { pid: 9 });
}

#[test]
fn an_unexpected_exit_is_a_crash() {
    let mut s = running(5);
    assert_eq!(
        s.handle(SupervisorEvent::Exited { exit_code: -2 }),
        Reaction { action: SupervisorAction::Nothing, reply: Reply::Pending }
    );
    assert_eq!(s.get_status(), KernelProcessState::Crashed { exit_code: -2 });
    assert_eq!(stop_kernel(&mut s), refused(SupervisorError::NotRunning));
    assert_eq!(s.get_status(), KernelProcessState::Crashed { exit_code: -2 });
    assert_eq!(
        start_kernel(&mut s, true),
        Reaction { action: SupervisorAction::Spawn, reply: Reply::Pending }
    );
    assert_eq!(s.get_status(), KernelProcessState::Starting);
}

#[test]
fn a_failed_spawn_can_be_tried_again() {
    let mut s = Supervisor::new();
    start_kernel(&mut s, true);
    assert_eq!(s.handle(SupervisorEvent::SpawnFailed), refused(SupervisorError::SpawnFailed));
    assert_eq!(s.get_status(), KernelProcessState::Stopped);
    assert_eq!(start_kernel(&mut s, true).action, SupervisorAction::Spawn);
    assert_eq!(
        s.handle(SupervisorEvent::Exited { exit_code: 1 }),
        refused(SupervisorError::SpawnFailed)
    );
    assert_eq!(s.get_status(), KernelProcessState::Crashed { exit_code: 1 });
}

#[test]
fn restart_spawns_only_after_the_old_child_has_exited() {
    let mut s = running(7);
    assert_eq!(
        restart_kernel(&mut s, true),
        Reaction { action: SupervisorAction::Terminate { pid: 7 }, reply: Reply::Pending }
    );
    assert_eq!(s.get_status(), KernelProcessState::Stopping);
    assert_eq!(
        s.handle(SupervisorEvent::GraceElapsed).action,
        SupervisorAction::Kill { pid: 7 }
    );
    assert_eq!(
        s.handle(SupervisorEvent::Exited { exit_code: 0 }),
        Reaction { action: SupervisorAction::Spawn, reply: Reply::Pending }
    );
    assert_eq!(s.get_status(), KernelProcessState::Starting);
    assert_eq!(
        s.handle(SupervisorEvent::Started { pid: 8 }),
        Reaction { action: SupervisorAction::Nothing, reply: Reply::Done }
    );
    assert_eq!(s.get_status(), KernelProcessState::Running { pid: 8 });
}

#[test]
fn restart_of_a_stopped_or_crashed_kernel_starts_it() {
    let mut s = Supervisor::new();
    assert_eq!(restart_kernel(&mut s, true).action, SupervisorAction::Spawn);
    let mut c = running(1);
    c.handle(SupervisorEvent::Exited { exit_code: 3 });
    assert_eq!(restart_kernel(&mut c, true).action, SupervisorAction::Spawn);
    assert_eq!(c.get_status(), KernelProcessState::Starting);
}

#[test]
fn reports_that_belong_to_no_transition_change_nothing() {
    let nothing = Reaction { action: SupervisorAction::Nothing, reply: Reply::Pending };
    let mut s = Supervisor::new();
    for event in [
        SupervisorEvent::Started { pid: 1 },
        SupervisorEvent::SpawnFailed,
        SupervisorEvent::Exited { exit_code: 0 },
        SupervisorEvent::GraceElapsed,
        SupervisorEvent::TerminationFailed,
    ] {
        assert_eq!(s.handle(event), nothing);
        assert_eq!(s.get_status(), KernelProcessState::Stopped);
    }
    let mut r = running(2);
    for event in [
        SupervisorEvent::Started { pid: 1 },
        SupervisorEvent::SpawnFailed,
        SupervisorEvent::GraceElapsed,
        SupervisorEvent::TerminationFailed,
    ] {
        assert_eq!(r.handle(event), nothing);
        assert_eq!(r.get_status(), KernelProcessState::Running { pid: 2 });
    }
}

#[test]
fn the_status_is_written_as_json() {
    let mut s = Supervisor::new();
    assert_eq!(get_process_status(&s), "\"Stopped\"");
    start_kernel(&mut s, true);
    assert_eq!(get_process_status(&s), "\"Starting\"");
    s.handle(SupervisorEvent::Started { pid: 4242 });
    assert_eq!(get_process_status(&s), "{\"Running\":{\"pid\":4242}}");
    stop_kernel(&mut s);
    assert_eq!(get_process_status(&s), "\"Stopping\"");
    s.handle(SupervisorEvent::TerminationFailed);
    s.handle(SupervisorEvent::Exited { exit_code: -1073741819 });
    assert_eq!(get_process_status(&s), "{\"Crashed\":{\"exit_code\":-1073741819}}");
    assert_eq!(
        status_json(KernelProcessState::Running { pid: u32::MAX }).member("Running").unwrap().member("pid"),
        Some(&kernel_service::json::Json::integer(4294967295))
    );
}

#[test]
fn supervisor_errors_have_words() {
    assert_eq!(SupervisorError::AlreadyRunning.message(), "内核已在运行");
    assert_eq!(SupervisorError::SpawnFailed.message(), "启动内核失败");
    assert_eq!(SupervisorError::ConfigMissing.message(), "配置文件不存在");
    assert_eq!(SupervisorError::NotRunning.message(), "内核未在运行");
    assert_eq!(SupervisorError::TerminationFailed.message(), "停止内核失败");
    assert_eq!(SupervisorError::TransitionInProgress.message(), "内核正在启动或停止");
}
