//! Client handles, published servers, and the namespace of published paths.
//!
//! A door is reachable by other processes only through the filesystem path
//! it is attached to. This module holds the client handles that reference a
//! published door, the teardown and rollback orders that keep the filesystem
//! and the descriptor table consistent, and the namespace bookkeeping whose
//! exclusive-create rule makes installation at a path succeed exactly once.

use vstd::prelude::*;
use vstd::string::StringExecFns;
use crate::text::{chars_of, eq_lit};

verus! {

/// Why a door could not be created.
#[derive(Clone, Copy, Debug, PartialEq, Eq, Structural)]
pub struct CreateError {
    /// The error code the kernel reported.
    pub reason: i32,
}

/// Why a door could not be installed at a path.
#[derive(Clone, Copy, Debug, PartialEq, Eq, Structural)]
pub enum InstallError {
    /// The path already exists.
    PathTaken,
    /// The door could not be attached to the freshly created path; the
    /// payload is the error code the kernel reported.
    AttachFailed(i32),
    /// The path cannot be used at all (for instance, it embeds a NUL byte).
    PathInvalid,
}

/// Why opening a door by path failed.
#[derive(Clone, Copy, Debug, PartialEq, Eq, Structural)]
pub enum OpenError {
    /// The path does not exist.
    NoSuchPath,
    /// The path exists but is not a door.
    NotADoor,
}

/// Why a call through a door failed.
#[derive(Clone, Copy, Debug, PartialEq, Eq, Structural)]
pub enum CallError {
    /// The handle does not reference a door.
    BadDescriptor,
    /// The call-frame arguments are malformed.
    InvalidArgument,
    /// The door has been revoked.
    NoSuchDoor,
    /// A signal interrupted the call.
    Interrupted,
}

/// A borrowable door client: a duplicate-capability handle that can place
/// calls independently of the `Client` it came from.
///
/// There is no lifetime tie between a `ClientRef` and its `Client`: when the
/// `Client` is dropped, the underlying descriptor closes and every derived
/// `ClientRef` goes dead with it. Keeping the `Client` alive is the
/// caller's responsibility.
#[derive(Clone, Copy, Debug, PartialEq, Eq, Structural)]
pub struct ClientRef {
    pub door_descriptor: i32,
}

/// An owned handle for a published door. It owns the descriptor; the code
/// that drops it closes the descriptor.
#[derive(Debug)]
pub struct Client {
    door_descriptor: i32,
}

impl Client {
    /// The descriptor this handle owns.
    pub closed spec fn descriptor(&self) -> i32 {
        self.door_descriptor
    }

    /// Adopt a descriptor obtained by opening a door's path.
    pub fn from_descriptor(door_descriptor: i32) -> (r: Client)
        ensures
            r.descriptor() == door_descriptor,
    {
        Client { door_descriptor }
    }

    /// The raw descriptor, for placing the actual kernel call.
    pub fn as_c_int(&self) -> (r: i32)
        ensures
            r == self.descriptor(),
    {
        self.door_descriptor
    }

    /// A copy of the door descriptor that can be handed to another thread.
    ///
    /// Every `ClientRef` borrowed from one `Client` references the same
    /// door, so calls through any of them reach the same procedure.
    pub fn borrow(&self) -> (r: ClientRef)
        ensures
            r.door_descriptor == self.descriptor(),
    {
        ClientRef { door_descriptor: self.door_descriptor }
    }
}

/// A server procedure that has been attached to the filesystem.
#[derive(Debug)]
pub struct Server {
    pub jamb_path: String,
    pub door_descriptor: i32,
}

/// One step of tearing a server down or rolling a failed installation back.
#[derive(Clone, Copy, Debug, PartialEq, Eq, Structural)]
pub enum TeardownStep {
    /// Unbind the door from its path, so no new client can open it.
    DetachPath,
    /// Remove the path from the filesystem.
    UnlinkPath,
    /// Close the door descriptor, stopping calls from clients that already
    /// hold it.
    CloseDoor,
}

/// How far an installation got before it failed.
#[derive(Clone, Copy, Debug, PartialEq, Eq, Structural)]
pub enum InstallStage {
    /// The door was created but the path could not be claimed.
    PathFailed,
    /// The path was claimed but the door could not be attached to it.
    AttachFailed,
}

impl Server {
    /// The steps that retire a server, in the order that keeps clients
    /// consistent: stop new clients by unbinding the path, remove the path,
    /// and only then close the descriptor that existing clients still hold.
    pub fn teardown_steps(&self) -> (r: Vec<TeardownStep>)
        ensures
            r@ == seq![TeardownStep::DetachPath, TeardownStep::UnlinkPath, TeardownStep::CloseDoor],
    {
        let mut r: Vec<TeardownStep> = Vec::new();
        r.push(TeardownStep::DetachPath);
        r.push(TeardownStep::UnlinkPath);
        r.push(TeardownStep::CloseDoor);
        proof {
            assert(r@ =~= seq![
                TeardownStep::DetachPath,
                TeardownStep::UnlinkPath,
                TeardownStep::CloseDoor,
            ]);
        }
        r
    }
}

/// The steps that undo a partial installation: a failure leaves no door and
/// no path behind.
pub fn rollback_steps(stage: InstallStage) -> (r: Vec<TeardownStep>)
    ensures
        stage == InstallStage::PathFailed ==> r@ == seq![TeardownStep::CloseDoor],
        stage == InstallStage::AttachFailed ==> r@ == seq![
            TeardownStep::CloseDoor,
            TeardownStep::UnlinkPath,
        ],
{
    let mut r: Vec<TeardownStep> = Vec::new();
    r.push(TeardownStep::CloseDoor);
    if stage == InstallStage::AttachFailed {
        r.push(TeardownStep::UnlinkPath);
        proof {
            assert(r@ =~= seq![TeardownStep::CloseDoor, TeardownStep::UnlinkPath]);
        }
    } else {
        proof {
            assert(r@ =~= seq![TeardownStep::CloseDoor]);
        }
    }
    r
}

/// The paths at which this process has published doors. Installation is
/// atomic-exclusive: claiming a path that is already claimed fails, and a
/// path becomes claimable again only once it has been removed.
pub struct Namespace {
    paths: Vec<String>,
}

impl Namespace {
    /// Whether a door is currently published at `path`.
    pub closed spec fn occupied(&self, path: Seq<char>) -> bool {
        exists|i: int| 0 <= i < self.paths@.len() && #[trigger] self.paths@[i]@ == path
    }

    /// No path is recorded twice.
    pub closed spec fn well_formed(&self) -> bool {
        forall|i: int, j: int|
            0 <= i < j < self.paths@.len() ==> #[trigger] self.paths@[i]@ != #[trigger] self.paths@[
                j
            ]@
    }

    /// An empty namespace: nothing is published.
    pub fn new() -> (r: Namespace)
        ensures
            r.well_formed(),
            forall|p: Seq<char>| !r.occupied(p),
    {
        Namespace { paths: Vec::new() }
    }

    /// Whether a door is currently published at `path`.
    pub fn contains(&self, path: &str) -> (r: bool)
        ensures
            r == self.occupied(path@),
    {
        let mut i: usize = 0;
        while i < self.paths.len()
            invariant
                i <= self.paths@.len(),
                forall|k: int| 0 <= k < i ==> #[trigger] self.paths@[k]@ != path@,
            decreases self.paths@.len() - i,
        {
            let pc = chars_of(self.paths[i].as_str());
            if eq_lit(&pc, path) {
                return true;
            }
            i = i + 1;
        }
        false
    }

    /// Claim `path` for a door. This succeeds exactly when the path is not
    /// occupied; claiming an occupied path fails with `PathTaken` and
    /// changes nothing.
    pub fn install(&mut self, path: &str) -> (r: Result<(), InstallError>)
        requires
            old(self).well_formed(),
        ensures
            final(self).well_formed(),
            r is Ok <==> !old(self).occupied(path@),
            r is Ok ==> final(self).occupied(path@) && forall|q: Seq<char>|
                q != path@ ==> final(self).occupied(q) == old(self).occupied(q),
            r is Err ==> r->Err_0 == InstallError::PathTaken && *final(self) == *old(self),
    {
        if self.contains(path) {
            return Err(InstallError::PathTaken);
        }
        let ghost before = self.paths@;
        self.paths.push(String::from_str(path));
        proof {
            assert(self.paths@[before.len() as int]@ == path@);
            assert forall|q: Seq<char>| q != path@ implies self.occupied(q) == old(self).occupied(
                q,
            ) by {
                if self.occupied(q) {
                    let i = choose|i: int|
                        0 <= i < self.paths@.len() && #[trigger] self.paths@[i]@ == q;
                    assert(before[i] == self.paths@[i]);
                }
                if old(self).occupied(q) {
                    let i = choose|i: int| 0 <= i < before.len() && #[trigger] before[i]@ == q;
                    assert(self.paths@[i]@ == q);
                }
            }
        }
        Ok(())
    }

    /// Withdraw `path`: afterwards the path is unoccupied and may be
    /// claimed again; every other path is untouched.
    pub fn remove(&mut self, path: &str)
        requires
            old(self).well_formed(),
        ensures
            final(self).well_formed(),
            !final(self).occupied(path@),
            forall|q: Seq<char>|
                q != path@ ==> final(self).occupied(q) == old(self).occupied(q),
    {
        let mut i: usize = 0;
        while i < self.paths.len()
            invariant
                i <= self.paths@.len(),
                self.well_formed(),
                self.paths@.len() == old(self).paths@.len(),
                forall|k: int| 0 <= k < self.paths@.len() ==> self.paths@[k] == old(self).paths@[k],
                forall|k: int| 0 <= k < i ==> #[trigger] self.paths@[k]@ != path@,
            decreases self.paths@.len() - i,
        {
            let pc = chars_of(self.paths[i].as_str());
            if eq_lit(&pc, path) {
                let ghost before = self.paths@;
                self.paths.remove(i);
                proof {
                    assert forall|a: int, b: int|
                        0 <= a < b < self.paths@.len() implies #[trigger] self.paths@[a]@
                        != #[trigger] self.paths@[b]@ by {
                        let a0 = if a < i { a } else { a + 1 };
                        let b0 = if b < i { b } else { b + 1 };
                        assert(self.paths@[a] == before[a0]);
                        assert(self.paths@[b] == before[b0]);
                    }
                    assert forall|k: int|
                        0 <= k < self.paths@.len() implies #[trigger] self.paths@[k]@ != path@ by {
                        let k0 = if k < i { k } else { k + 1 };
                        assert(self.paths@[k] == before[k0]);
                        if k0 != i {
                            assert(before[k0]@ != before[i as int]@);
                        }
                    }
                    assert forall|q: Seq<char>| q != path@ implies final(self).occupied(q)
                        == old(self).occupied(q) by {
                        if old(self).occupied(q) {
                            let k = choose|k: int|
                                0 <= k < before.len() && #[trigger] before[k]@ == q;
                            let k1 = if k < i { k } else { k - 1 };
                            assert(k != i);
                            assert(self.paths@[k1] == before[k]);
                        }
                        if final(self).occupied(q) {
                            let k = choose|k: int|
                                0 <= k < self.paths@.len() && #[trigger] self.paths@[k]@ == q;
                            let k0 = if k < i { k } else { k + 1 };
                            assert(before[k0] == self.paths@[k]);
                        }
                    }
                }
                return ;
            }
            i = i + 1;
        }
    }
}

} // verus!
