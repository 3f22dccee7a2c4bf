use alavai::instance::{Instance, LockEvent, LockStep, next_lock_step, sock_path};

#[test]
fn lock_socket_path() {
    assert_eq!(sock_path(Some("/run/user/1000"), "/tmp"), "/run/user/1000/alavai-tray.sock");
    assert_eq!(sock_path(None, "/tmp"), "/tmp/alavai-tray.sock");
}

#[test]
fn acquiring_the_lock() {
    assert_eq!(next_lock_step(LockStep::Bind, LockEvent::Bound), LockStep::Done(Instance::Primary));
    assert_eq!(next_lock_step(LockStep::Bind, LockEvent::BindFailed), LockStep::Done(Instance::Primary));
    assert_eq!(next_lock_step(LockStep::Bind, LockEvent::InUse), LockStep::Probe);
    assert_eq!(next_lock_step(LockStep::Probe, LockEvent::Answered), LockStep::Done(Instance::AlreadyRunning));
    assert_eq!(next_lock_step(LockStep::Probe, LockEvent::NoAnswer), LockStep::Reclaim);
    assert_eq!(next_lock_step(LockStep::Reclaim, LockEvent::Bound), LockStep::Done(Instance::Primary));
    assert_eq!(next_lock_step(LockStep::Reclaim, LockEvent::InUse), LockStep::Done(Instance::AlreadyRunning));
    assert_eq!(next_lock_step(LockStep::Probe, LockEvent::Bound), LockStep::Probe);
}
