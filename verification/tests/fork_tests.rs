use portunusd::fork::{
    child_after_setgid, child_after_setuid, close_retry, settle_fork, BackendCache,
    BackendDecision, ChildDirective, ConnectedFork, ConnectedForkError, Fork, ForkError, PipeEnd,
    RecvFd,
};

#[test]
fn parent_keeps_its_end_and_pid() {
    let parent_end = PipeEnd::from_raw(3);
    let child_end = PipeEnd::from_raw(4);
    let (role, to_close) = settle_fork(Ok(Fork::Parent(1234)), parent_end, child_end).unwrap();
    assert_eq!(role, ConnectedFork::Parent(1234, PipeEnd::from_raw(4)));
    assert_eq!(to_close, PipeEnd::from_raw(3));
}

#[test]
fn child_keeps_the_other_end() {
    let parent_end = PipeEnd::from_raw(3);
    let child_end = PipeEnd::from_raw(4);
    let (role, to_close) = settle_fork(Ok(Fork::Child), parent_end, child_end).unwrap();
    assert_eq!(role, ConnectedFork::Child(PipeEnd::from_raw(3)));
    assert_eq!(to_close, PipeEnd::from_raw(4));
}

#[test]
fn fork_failure_discards_the_pipe() {
    let parent_end = PipeEnd::from_raw(3);
    let child_end = PipeEnd::from_raw(4);
    let result = settle_fork(Err(ForkError::EAGAIN), parent_end, child_end);
    assert_eq!(result, Err(ConnectedForkError::Fork(ForkError::EAGAIN)));
}

#[test]
fn failed_group_drop_terminates_the_child() {
    assert_eq!(child_after_setgid(false), ChildDirective::Terminate);
    assert_eq!(child_after_setgid(true), ChildDirective::DropUser);
}

#[test]
fn failed_user_drop_terminates_the_child() {
    assert_eq!(child_after_setuid(false), ChildDirective::Terminate);
    assert_eq!(child_after_setuid(true), ChildDirective::Serve);
}

#[test]
fn only_interrupted_closes_are_retried() {
    assert!(close_retry(&Err(portunusd::fork::PipeCloseError::EINTR)));
    assert!(!close_retry(&Err(portunusd::fork::PipeCloseError::EBADF)));
    assert!(!close_retry(&Ok(())));
}

#[test]
fn received_descriptor_carries_credentials() {
    let r = RecvFd { fd: 12, uid: 100, gid: 100 };
    assert_eq!(r.as_raw_fd(), 12);
}

#[test]
fn same_uid_reuses_the_cached_backend() {
    let mut cache = BackendCache::new();
    assert_eq!(cache.decide(100), BackendDecision::MaterializeNew);

    // the relay forked once and registered the backend's descriptor
    cache.register(100, 17);

    // a second request for the same identity reuses it: no second fork
    assert_eq!(cache.decide(100), BackendDecision::Reuse(17));
    assert_eq!(cache.decide(100), BackendDecision::Reuse(17));

    // a different identity still needs exactly one fork of its own
    assert_eq!(cache.decide(101), BackendDecision::MaterializeNew);
    cache.register(101, 23);
    assert_eq!(cache.decide(101), BackendDecision::Reuse(23));
    assert_eq!(cache.decide(100), BackendDecision::Reuse(17));
}
