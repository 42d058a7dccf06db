//! The connected fork: privilege separation over a private pipe.
//!
//! A connected fork creates a private descriptor-passing pipe, forks, and
//! drops the child's credentials. Exactly two pipe ends exist; each process
//! keeps the end meant for it and closes the other at once, so no
//! descriptor leaks. A child whose privilege drop fails terminates
//! immediately: no work runs under ambiguous credentials. The kernel calls
//! themselves live outside the library; this module decides, step by step,
//! what each process must do, and keeps the per-identity cache that lets a
//! relay reuse a backend instead of forking again.

use vstd::prelude::*;

verus! {

/// Why closing a pipe end failed.
#[derive(Clone, Copy, Debug, PartialEq, Eq, Structural)]
pub enum PipeCloseError {
    EBADF,
    EINTR,
    ENOLINK,
    ENOSPC,
    EIO,
}

/// Why sending a descriptor through a pipe failed.
#[derive(Clone, Copy, Debug, PartialEq, Eq, Structural)]
pub enum SendFdError {
    EAGAIN,
    EBADF,
    EINVAL,
    ENXIO,
}

/// Why receiving a descriptor from a pipe failed.
#[derive(Clone, Copy, Debug, PartialEq, Eq, Structural)]
pub enum RecvFdError {
    EAGAIN,
    EBADMSG,
    EFAULT,
    EMFILE,
    ENXIO,
    EOVERFLOW,
}

/// Why opening a pipe failed.
#[derive(Clone, Copy, Debug, PartialEq, Eq, Structural)]
pub enum PipeOpenError {
    EMFILE,
    ENFILE,
    EFAULT,
}

/// Why forking failed.
#[derive(Clone, Copy, Debug, PartialEq, Eq, Structural)]
pub enum ForkError {
    EAGAIN,
    ENOMEM,
    EPERM,
}

/// Any failure a connected fork can report.
#[derive(Clone, Copy, Debug, PartialEq, Eq, Structural)]
pub enum ConnectedForkError {
    PipeClose(PipeCloseError),
    SendFd(SendFdError),
    RecvFd(RecvFdError),
    PipeOpen(PipeOpenError),
    Fork(ForkError),
}

/// A descriptor received over a pipe, together with the credentials of the
/// process that sent it.
#[derive(Clone, Copy, Debug, PartialEq, Eq, Structural)]
pub struct RecvFd {
    pub fd: i32,
    pub uid: u32,
    pub gid: u32,
}

impl RecvFd {
    /// The received descriptor.
    pub fn as_raw_fd(&self) -> (r: i32)
        ensures
            r == self.fd,
    {
        self.fd
    }
}

/// One end of a private pipe. The code around the library owns the kernel
/// object; the library tracks which end is which.
#[derive(Debug, PartialEq, Eq, Structural)]
pub struct PipeEnd {
    pub fd: i32,
}

impl PipeEnd {
    /// Adopt a raw pipe descriptor.
    pub fn from_raw(fd: i32) -> (r: PipeEnd)
        ensures
            r.fd == fd,
    {
        PipeEnd { fd }
    }

    /// The raw descriptor of this end.
    pub fn as_raw_fd(&self) -> (r: i32)
        ensures
            r == self.fd,
    {
        self.fd
    }
}

/// Whether a failed close should be tried again: only an interruption by a
/// signal is retried; every other close failure is swallowed, because a
/// destructor cannot propagate it.
pub fn close_retry(r: &Result<(), PipeCloseError>) -> (retry: bool)
    ensures
        retry == (*r == Err::<(), PipeCloseError>(PipeCloseError::EINTR)),
{
    match r {
        Err(e) => *e == PipeCloseError::EINTR,
        Ok(_) => false,
    }
}

/// The two sides of a plain fork.
#[derive(Clone, Copy, Debug, PartialEq, Eq, Structural)]
pub enum Fork {
    /// The parent, holding the child's process id.
    Parent(i32),
    /// The child.
    Child,
}

/// The two sides of a connected fork, each holding the pipe end it keeps.
#[derive(Debug, PartialEq, Eq, Structural)]
pub enum ConnectedFork {
    /// The parent, holding the child's process id and its own pipe end.
    Parent(i32, PipeEnd),
    /// The child, holding its own pipe end.
    Child(PipeEnd),
}

/// One step a process performs right after the fork.
#[derive(Clone, Copy, Debug, PartialEq, Eq, Structural)]
pub enum ForkStep {
    /// Close the pipe end that belongs to the other process.
    ClosePeerEnd,
    /// Set the effective group.
    SetGid(u32),
    /// Set the effective user.
    SetUid(u32),
    /// Terminate the process at once.
    Terminate,
    /// Go on to serve: install a door, send its descriptor over the pipe,
    /// and park. This is the only step that hands the parent a descriptor.
    Serve,
    /// Return the connected-fork handle to the caller.
    ReturnHandle,
}

/// The steps the parent performs: it closes the child's pipe end and
/// returns the handle. It never touches its own credentials.
pub open spec fn spec_parent_steps() -> Seq<ForkStep> {
    seq![ForkStep::ClosePeerEnd, ForkStep::ReturnHandle]
}

/// The steps the child performs, given how its two credential drops turn
/// out: it closes the parent's pipe end, sets the group, then the user; the
/// first failure terminates the process at once, and only a child whose
/// both drops succeeded serves.
pub open spec fn spec_child_steps(uid: u32, gid: u32, gid_ok: bool, uid_ok: bool) -> Seq<
    ForkStep,
> {
    if !gid_ok {
        seq![ForkStep::ClosePeerEnd, ForkStep::SetGid(gid), ForkStep::Terminate]
    } else if !uid_ok {
        seq![
            ForkStep::ClosePeerEnd,
            ForkStep::SetGid(gid),
            ForkStep::SetUid(uid),
            ForkStep::Terminate,
        ]
    } else {
        seq![
            ForkStep::ClosePeerEnd,
            ForkStep::SetGid(gid),
            ForkStep::SetUid(uid),
            ForkStep::Serve,
        ]
    }
}

/// The parent path of a connected fork performs no credential change: its
/// only steps close the child's pipe end and return the handle, so the
/// parent's effective user and group are the same after the call as before
/// it.
pub proof fn lemma_parent_credentials_unchanged()
    ensures
        forall|i: int|
            0 <= i < spec_parent_steps().len() ==> !(#[trigger] spec_parent_steps()[i] is SetGid)
                && !(spec_parent_steps()[i] is SetUid),
{
    assert forall|i: int|
        0 <= i < spec_parent_steps().len() implies !(#[trigger] spec_parent_steps()[i] is SetGid)
        && !(spec_parent_steps()[i] is SetUid) by {
        if i == 0 {
            assert(spec_parent_steps()[0] == ForkStep::ClosePeerEnd);
        } else {
            assert(spec_parent_steps()[1] == ForkStep::ReturnHandle);
        }
    }
}

/// The child takes on the requested credentials before doing any work: when
/// both drops succeed, both credential steps come before the serving step,
/// and nothing else happens in between.
pub proof fn lemma_child_drops_before_serving(uid: u32, gid: u32)
    ensures
        spec_child_steps(uid, gid, true, true) == seq![
            ForkStep::ClosePeerEnd,
            ForkStep::SetGid(gid),
            ForkStep::SetUid(uid),
            ForkStep::Serve,
        ],
{
}

/// A failed privilege drop terminates the child at once, and the parent
/// never receives a descriptor for that attempt: the failing credential
/// step is followed immediately by termination, and the serving step — the
/// only one that sends a descriptor — never occurs.
pub proof fn lemma_failed_drop_terminates(uid: u32, gid: u32, gid_ok: bool, uid_ok: bool)
    requires
        !gid_ok || !uid_ok,
    ensures
        spec_child_steps(uid, gid, gid_ok, uid_ok).last() == ForkStep::Terminate,
        forall|i: int|
            0 <= i < spec_child_steps(uid, gid, gid_ok, uid_ok).len() ==> !(
            #[trigger] spec_child_steps(uid, gid, gid_ok, uid_ok)[i] is Serve),
        !gid_ok ==> spec_child_steps(uid, gid, gid_ok, uid_ok) == seq![
            ForkStep::ClosePeerEnd,
            ForkStep::SetGid(gid),
            ForkStep::Terminate,
        ],
        gid_ok && !uid_ok ==> spec_child_steps(uid, gid, gid_ok, uid_ok) == seq![
            ForkStep::ClosePeerEnd,
            ForkStep::SetGid(gid),
            ForkStep::SetUid(uid),
            ForkStep::Terminate,
        ],
{
    let steps = spec_child_steps(uid, gid, gid_ok, uid_ok);
    assert forall|i: int| 0 <= i < steps.len() implies !(#[trigger] steps[i] is Serve) by {
        if !gid_ok {
            assert(steps == seq![
                ForkStep::ClosePeerEnd,
                ForkStep::SetGid(gid),
                ForkStep::Terminate,
            ]);
        } else {
            assert(steps == seq![
                ForkStep::ClosePeerEnd,
                ForkStep::SetGid(gid),
                ForkStep::SetUid(uid),
                ForkStep::Terminate,
            ]);
        }
    }
}

/// Turn the outcome of the fork into the role's value, the pipe end that
/// role must close, and the steps it still has to perform. The parent keeps
/// one end and closes the other; the child does the opposite, so the two
/// kept ends always partition the pair.
pub fn settle_fork(fork_result: Result<Fork, ForkError>, parent_end: PipeEnd, child_end: PipeEnd)
    -> (r: Result<(ConnectedFork, PipeEnd), ConnectedForkError>)
    ensures
        fork_result matches Ok(Fork::Parent(pid)) ==> r == Ok::<
            (ConnectedFork, PipeEnd),
            ConnectedForkError,
        >((ConnectedFork::Parent(pid, child_end), parent_end)),
        fork_result matches Ok(Fork::Child) ==> r == Ok::<
            (ConnectedFork, PipeEnd),
            ConnectedForkError,
        >((ConnectedFork::Child(parent_end), child_end)),
        fork_result matches Err(e) ==> r == Err::<
            (ConnectedFork, PipeEnd),
            ConnectedForkError,
        >(ConnectedForkError::Fork(e)),
{
    match fork_result {
        Ok(Fork::Parent(pid)) => Ok((ConnectedFork::Parent(pid, child_end), parent_end)),
        Ok(Fork::Child) => Ok((ConnectedFork::Child(parent_end), child_end)),
        Err(e) => Err(ConnectedForkError::Fork(e)),
    }
}

/// What the child does next, decided after each credential call.
#[derive(Clone, Copy, Debug, PartialEq, Eq, Structural)]
pub enum ChildDirective {
    /// Go on to drop the user next.
    DropUser,
    /// Terminate the process at once.
    Terminate,
    /// Both drops succeeded: serve.
    Serve,
}

/// The child's decision after its group drop: proceed to the user drop only
/// on success, terminate at once otherwise.
pub fn child_after_setgid(ok: bool) -> (d: ChildDirective)
    ensures
        d == if ok {
            ChildDirective::DropUser
        } else {
            ChildDirective::Terminate
        },
{
    if ok {
        ChildDirective::DropUser
    } else {
        ChildDirective::Terminate
    }
}

/// The child's decision after its user drop: serve only on success,
/// terminate at once otherwise.
pub fn child_after_setuid(ok: bool) -> (d: ChildDirective)
    ensures
        d == if ok {
            ChildDirective::Serve
        } else {
            ChildDirective::Terminate
        },
{
    if ok {
        ChildDirective::Serve
    } else {
        ChildDirective::Terminate
    }
}

/// What a relay should do for a request that needs a backend under some
/// identity.
#[derive(Clone, Copy, Debug, PartialEq, Eq, Structural)]
pub enum BackendDecision {
    /// A live backend exists for the identity: call it through this
    /// descriptor, do not fork.
    Reuse(i32),
    /// No backend exists yet: materialize one with a connected fork.
    MaterializeNew,
}

/// The descriptor cached for `uid` in a run of cache entries: the latest
/// registration wins.
pub open spec fn spec_cache_lookup(entries: Seq<(u32, i32)>, uid: u32) -> Option<i32>
    decreases entries.len(),
{
    if entries.len() == 0 {
        None::<i32>
    } else if entries.last().0 == uid {
        Some(entries.last().1)
    } else {
        spec_cache_lookup(entries.drop_last(), uid)
    }
}

/// The cache of per-identity backend door descriptors. A backend, once
/// materialized for an identity, is recorded here and reused for every
/// later request under the same identity; only an identity with no record
/// triggers a fork.
pub struct BackendCache {
    entries: Vec<(u32, i32)>,
}

impl BackendCache {
    /// The descriptor cached for `uid`, if any.
    pub closed spec fn cached(&self, uid: u32) -> Option<i32> {
        spec_cache_lookup(self.entries@, uid)
    }

    /// An empty cache: no identity has a backend yet.
    pub fn new() -> (r: BackendCache)
        ensures
            forall|uid: u32| r.cached(uid) is None,
    {
        BackendCache { entries: Vec::new() }
    }

    /// The descriptor cached for `uid`, if any.
    pub fn lookup(&self, uid: u32) -> (r: Option<i32>)
        ensures
            r == self.cached(uid),
    {
        let ghost entries = self.entries@;
        let mut i: usize = self.entries.len();
        proof {
            assert(entries.take(i as int) =~= entries);
        }
        while i > 0
            invariant
                i <= self.entries@.len(),
                entries == self.entries@,
                spec_cache_lookup(entries, uid) == spec_cache_lookup(entries.take(i as int), uid),
            decreases i,
        {
            i = i - 1;
            proof {
                assert(entries.take(i + 1).last() == entries[i as int]);
                assert(entries.take(i + 1).drop_last() =~= entries.take(i as int));
            }
            if self.entries[i].0 == uid {
                return Some(self.entries[i].1);
            }
        }
        proof {
            assert(entries.take(0) =~= Seq::<(u32, i32)>::empty());
        }
        None
    }

    /// Decide how to serve a request under `uid`: reuse the cached backend
    /// when one exists, materialize a new one exactly when none does.
    pub fn decide(&self, uid: u32) -> (d: BackendDecision)
        ensures
            d == match self.cached(uid) {
                Some(fd) => BackendDecision::Reuse(fd),
                None => BackendDecision::MaterializeNew,
            },
    {
        match self.lookup(uid) {
            Some(fd) => BackendDecision::Reuse(fd),
            None => BackendDecision::MaterializeNew,
        }
    }

    /// Record the backend materialized for `uid`. Afterwards every request
    /// under `uid` reuses this descriptor, and every other identity is
    /// unaffected.
    pub fn register(&mut self, uid: u32, fd: i32)
        ensures
            final(self).cached(uid) == Some(fd),
            forall|other: u32| other != uid ==> final(self).cached(other) == old(self).cached(other),
    {
        let ghost before = self.entries@;
        self.entries.push((uid, fd));
        proof {
            assert(self.entries@.last() == (uid, fd));
            assert(self.entries@.drop_last() =~= before);
        }
    }
}

} // verus!
