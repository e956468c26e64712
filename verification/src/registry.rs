//! The task registry: the process-wide table from task identifier to the
//! live task's cancellation handle. Identifiers come from a monotonic
//! counter, so a registered identifier is always fresh. Removal is
//! idempotent: removing an unknown identifier reports "already terminal"
//! and changes nothing. The surrounding application holds the registry
//! behind a mutual-exclusion lock and never keeps the lock across an
//! await.

use vstd::prelude::*;
use std::collections::HashMap;

verus! {

broadcast use vstd::std_specs::hash::group_hash_axioms;

/// An opaque declaration of tokio's one-shot sender, the cancellation
/// handle a registry entry owns.
#[verifier::external_type_specification]
#[verifier::external_body]
#[verifier::reject_recursive_types(T)]
pub struct ExOneshotSender<T>(tokio::sync::oneshot::Sender<T>);

/// An opaque declaration of tokio's one-shot receiver, handed to the task
/// runner's loop so cancellation can be raced against the next read.
#[verifier::external_type_specification]
#[verifier::external_body]
#[verifier::reject_recursive_types(T)]
pub struct ExOneshotReceiver<T>(tokio::sync::oneshot::Receiver<T>);

/// An opaque declaration of the receiver's error type, required because
/// the receiver is a future whose output mentions it.
#[verifier::external_type_specification]
#[verifier::external_body]
pub struct ExRecvError(tokio::sync::oneshot::error::RecvError);

/// Relies on tokio::sync::oneshot::channel: returns a connected
/// sender/receiver pair for the single-use cancellation signal.
#[verifier::external_body]
fn cancel_channel() -> (r: (
    tokio::sync::oneshot::Sender<()>,
    tokio::sync::oneshot::Receiver<()>,
))
{
    tokio::sync::oneshot::channel()
}

/// Relies on tokio::sync::oneshot::Sender::send: consumes the sender and
/// delivers the signal unless the receiving half is already gone; either
/// way it returns and never panics. Nothing is promised of the result,
/// since it depends on the receiver's state elsewhere.
#[verifier::external_body]
fn send_cancel_signal(tx: tokio::sync::oneshot::Sender<()>) -> (delivered: bool) {
    tx.send(()).is_ok()
}

/// The registry proper: the next identifier to assign, and the table of
/// live tasks.
pub struct TaskRegistry {
    next_id: u64,
    tasks: HashMap<u64, tokio::sync::oneshot::Sender<()>>,
}

impl TaskRegistry {
    /// The table of live tasks, as a map from identifier to handle.
    pub closed spec fn entries(self) -> Map<u64, tokio::sync::oneshot::Sender<()>> {
        self.tasks@
    }

    /// The identifiers of the live tasks.
    pub open spec fn ids(self) -> Set<u64> {
        self.entries().dom()
    }

    /// The next identifier the registry will assign.
    pub closed spec fn next_id(self) -> int {
        self.next_id as int
    }

    /// Identifiers are assigned by a monotonic counter, so every live
    /// identifier lies below the counter and the next assignment is fresh.
    pub open spec fn wf(self) -> bool {
        forall|id: u64| #[trigger] self.ids().contains(id) ==> (id as int) < self.next_id()
    }

    /// A registry with no live task, starting to count from zero.
    pub fn new() -> (r: TaskRegistry)
        ensures
            r.wf(),
            r.ids() == Set::<u64>::empty(),
            r.next_id() == 0,
    {
        let r = TaskRegistry { next_id: 0, tasks: HashMap::new() };
        proof {
            assert(r.ids() =~= Set::<u64>::empty());
        }
        r
    }

    /// Opens a fresh task slot: assigns the next identifier, creates the
    /// single-use cancellation channel, registers the sending half under
    /// the identifier, and hands back the identifier with the receiving
    /// half. The identifier is registered before it is ever visible to a
    /// caller, so there is no started-but-unregistered window.
    pub fn open_task(&mut self) -> (r: (u64, tokio::sync::oneshot::Receiver<()>))
        requires
            old(self).wf(),
            old(self).next_id() < u64::MAX,
        ensures
            final(self).wf(),
            r.0 as int == old(self).next_id(),
            !old(self).ids().contains(r.0),
            final(self).ids() == old(self).ids().insert(r.0),
            final(self).ids().contains(r.0),
            final(self).next_id() == old(self).next_id() + 1,
            forall|id: u64|
                id != r.0 ==> #[trigger] final(self).entries().contains_key(id) == old(
                    self,
                ).entries().contains_key(id) && (old(self).entries().contains_key(id)
                    ==> final(self).entries()[id] == old(self).entries()[id]),
    {
        let id = self.next_id;
        self.next_id = self.next_id + 1;
        let (tx, rx) = cancel_channel();
        self.tasks.insert(id, tx);
        proof {
            assert(final(self).ids() =~= old(self).ids().insert(id));
        }
        (id, rx)
    }

    /// Removes `task_id` and fires its cancellation signal. Succeeds if and
    /// only if the identifier names a live task; on failure ("already
    /// terminal or never existed") the registry is unchanged, and in both
    /// cases no other entry is touched.
    pub fn cancel_render(&mut self, task_id: u64) -> (r: Result<bool, bool>)
        requires
            old(self).wf(),
        ensures
            final(self).wf(),
            r == Ok::<bool, bool>(true) <==> old(self).ids().contains(task_id),
            r == Err::<bool, bool>(false) <==> !old(self).ids().contains(task_id),
            final(self).ids() == old(self).ids().remove(task_id),
            final(self).next_id() == old(self).next_id(),
            forall|id: u64|
                id != task_id ==> #[trigger] final(self).entries().contains_key(id) == old(
                    self,
                ).entries().contains_key(id) && (old(self).entries().contains_key(id)
                    ==> final(self).entries()[id] == old(self).entries()[id]),
    {
        let removed = self.tasks.remove(&task_id);
        proof {
            assert(final(self).ids() =~= old(self).ids().remove(task_id));
        }
        match removed {
            Some(tx) => {
                send_cancel_signal(tx);
                Ok(true)
            },
            None => Err(false),
        }
    }

    /// Removes `task_id` without signalling, as the task runner does for
    /// itself on every terminal transition. Idempotent: reports whether the
    /// identifier was still live, and never touches other entries.
    pub fn deregister(&mut self, task_id: u64) -> (was_live: bool)
        requires
            old(self).wf(),
        ensures
            final(self).wf(),
            was_live == old(self).ids().contains(task_id),
            final(self).ids() == old(self).ids().remove(task_id),
            final(self).next_id() == old(self).next_id(),
            forall|id: u64|
                id != task_id ==> #[trigger] final(self).entries().contains_key(id) == old(
                    self,
                ).entries().contains_key(id) && (old(self).entries().contains_key(id)
                    ==> final(self).entries()[id] == old(self).entries()[id]),
    {
        let removed = self.tasks.remove(&task_id);
        proof {
            assert(final(self).ids() =~= old(self).ids().remove(task_id));
        }
        removed.is_some()
    }

    /// The identifier the next opened task will receive. Callers test it
    /// against the counter's ceiling before opening a task.
    pub fn next_task_id(&self) -> (id: u64)
        ensures
            id as int == self.next_id(),
    {
        self.next_id
    }

    /// How many tasks are live.
    pub fn live_count(&self) -> (n: usize)
        ensures
            n == self.ids().len(),
    {
        self.tasks.len()
    }
}

} // verus!
