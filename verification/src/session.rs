//! Sessions of the stages of a transaction. A session runs over a view of the state
//! that lays a change set over a base; finishing a session hands out the writes it
//! made, and a respawn starts the next session on a view that holds them.

use vstd::prelude::*;

verus! {

/// The status codes that a session can fail with.
#[derive(Clone, Copy, Debug, PartialEq, Eq)]
pub enum StatusCode {
    UnknownInvariantViolationError,
}

/// Why an operation of the virtual machine failed.
#[derive(Clone, Copy, Debug, PartialEq, Eq)]
pub struct VMStatus {
    pub status_code: StatusCode,
}

/// The stage of a transaction that a session belongs to, with the sender of the
/// transaction and its sequence number.
#[derive(Clone, Copy, Debug, PartialEq, Eq)]
pub enum SessionId {
    Prologue { sender: u64, sequence_number: u64 },
    Txn { sender: u64, sequence_number: u64 },
    Epilogue { sender: u64, sequence_number: u64 },
    Void,
}

/// One write to the state.
#[derive(Clone, Copy, Debug, PartialEq, Eq)]
pub enum WriteOp {
    /// A key that did not exist gets a value.
    Creation { key: u64, value: u64 },
    /// A key that exists gets another value.
    Modification { key: u64, value: u64 },
    /// A key that exists is removed.
    Deletion { key: u64 },
}

/// The writes of a finished session, in the order in which they were made.
#[derive(Debug)]
pub struct VMChangeSet {
    pub writes: Vec<WriteOp>,
}

/// The virtual machine that sessions are made by.
#[derive(Debug)]
pub struct AptosVM {}

/// A running session: its stage and the writes made in it so far.
#[derive(Debug)]
pub struct SessionExt {
    pub id: SessionId,
    pub writes: Vec<WriteOp>,
}

/// A view of the state: a base, the change set laid over it, if any, and the keys of
/// the resource groups that were read through it and are held in its cache.
#[derive(Debug)]
pub struct ExecutorViewWithChangeSet<'r, B> {
    pub base: &'r B,
    pub change_set: Option<VMChangeSet>,
    pub group_cache: Vec<u64>,
}

/// A session that can be finished and started again on the view it leaves behind.
pub struct RespawnableSession<'r, B> {
    pub executor_view: ExecutorViewWithChangeSet<'r, B>,
    /// `None` once the session has been finished.
    pub session: Option<SessionExt>,
}

/// A session started on the change set of the session before it.
pub struct RespawnedSession<'r, 'l, B> {
    pub vm: &'l AptosVM,
    pub executor_view: ExecutorViewWithChangeSet<'r, B>,
    pub session: Option<SessionExt>,
}

/// The status of an operation that found the session in a state it must not be in.
pub open spec fn invariant_violation() -> VMStatus {
    VMStatus { status_code: StatusCode::UnknownInvariantViolationError }
}

/// The session is one that was just started for the stage `id`.
pub open spec fn is_fresh(session: Option<SessionExt>, id: SessionId) -> bool {
    session matches Some(s) && s.id == id && s.writes@ == Seq::<WriteOp>::empty()
}

/// The writes of the change set of a view, none where it has no change set.
pub open spec fn writes_of(change_set: Option<VMChangeSet>) -> Seq<WriteOp> {
    match change_set {
        Some(c) => c.writes@,
        None => Seq::empty(),
    }
}

/// One of the writes makes a key that did not exist.
pub open spec fn creates(writes: Seq<WriteOp>) -> bool {
    exists|i: int| 0 <= i < writes.len() && (#[trigger] writes[i]) is Creation
}

impl VMChangeSet {
    /// Tells whether the change set makes a key that did not exist.
    pub fn has_creation(&self) -> (found: bool)
        ensures
            found == creates(self.writes@),
    {
        let mut i: usize = 0;
        while i < self.writes.len()
            invariant
                i <= self.writes.len(),
                forall|j: int| 0 <= j < i ==> !((#[trigger] self.writes@[j]) is Creation),
            decreases self.writes.len() - i,
        {
            match self.writes[i] {
                WriteOp::Creation { .. } => {
                    return true;
                },
                _ => {},
            }
            i += 1;
        }
        false
    }

    /// A change set with the same writes.
    pub fn duplicate(&self) -> (copy: VMChangeSet)
        ensures
            copy.writes@ == self.writes@,
    {
        VMChangeSet { writes: copy_of(&self.writes) }
    }
}

/// A vector with the same items.
pub fn copy_of<T: Copy>(items: &Vec<T>) -> (copy: Vec<T>)
    ensures
        copy@ == items@,
{
    let mut copy: Vec<T> = Vec::new();
    let mut i: usize = 0;
    while i < items.len()
        invariant
            i <= items.len(),
            copy@ == items@.take(i as int),
        decreases items.len() - i,
    {
        copy.push(items[i]);
        proof {
            assert(items@.take(i + 1) =~= items@.take(i as int).push(items@[i as int]));
        }
        i += 1;
    }
    proof {
        assert(items@.take(i as int) =~= items@);
    }
    copy
}

impl AptosVM {
    pub fn new() -> AptosVM {
        AptosVM {  }
    }

    /// Starts a session for the stage `id`.
    pub fn new_session(&self, id: SessionId) -> (session: SessionExt)
        ensures
            is_fresh(Some(session), id),
    {
        SessionExt { id, writes: Vec::new() }
    }
}

impl SessionExt {
    /// Records one write.
    pub fn write(&mut self, op: WriteOp)
        ensures
            final(self).id == old(self).id,
            final(self).writes@ == old(self).writes@.push(op),
    {
        self.writes.push(op);
    }

    /// Ends the session and hands out its writes.
    pub fn finish(self) -> (change_set: VMChangeSet)
        ensures
            change_set.writes@ == self.writes@,
    {
        VMChangeSet { writes: self.writes }
    }
}

impl<'r, B> ExecutorViewWithChangeSet<'r, B> {
    /// A view of `base` under `change_set`, with nothing in its cache.
    pub fn new(base: &'r B, change_set: Option<VMChangeSet>) -> (view: Self)
        ensures
            view.base == base,
            view.change_set == change_set,
            view.group_cache@ == Seq::<u64>::empty(),
    {
        ExecutorViewWithChangeSet { base, change_set, group_cache: Vec::new() }
    }

    /// A view of the same base under another change set, with nothing in its cache.
    pub fn with_change_set(&self, change_set: VMChangeSet) -> (view: Self)
        ensures
            view.base == self.base,
            view.change_set == Some(change_set),
            view.group_cache@ == Seq::<u64>::empty(),
    {
        ExecutorViewWithChangeSet {
            base: self.base,
            change_set: Some(change_set),
            group_cache: Vec::new(),
        }
    }

    /// The view itself, which must have no change set.
    pub fn assert_no_change_set(&self) -> (view: &Self)
        requires
            self.change_set is None,
        ensures
            view == self,
    {
        self
    }

    /// A view of the same base with the same writes in its change set and the same keys
    /// in its cache.
    pub fn duplicate(&self) -> (view: Self)
        ensures
            view.base == self.base,
            view.change_set is Some <==> self.change_set is Some,
            writes_of(view.change_set) == writes_of(self.change_set),
            view.group_cache@ == self.group_cache@,
    {
        let change_set = match &self.change_set {
            Some(c) => Some(c.duplicate()),
            None => None,
        };
        ExecutorViewWithChangeSet {
            base: self.base,
            change_set,
            group_cache: copy_of(&self.group_cache),
        }
    }

    /// Replaces the change set of the view.
    pub fn set_change_set(&mut self, change_set: VMChangeSet)
        ensures
            final(self).base == old(self).base,
            final(self).change_set == Some(change_set),
            final(self).group_cache == old(self).group_cache,
    {
        self.change_set = Some(change_set);
    }

    /// Empties the cache of resource groups.
    pub fn release_group_cache(&mut self)
        ensures
            final(self).base == old(self).base,
            final(self).change_set == old(self).change_set,
            final(self).group_cache@ == Seq::<u64>::empty(),
    {
        self.group_cache.clear();
    }
}

/// Takes the running session out of its place and finishes it. A session can be
/// finished once: where none is left, the place stays empty and the call fails.
pub fn finish_once(session: &mut Option<SessionExt>) -> (r: Result<VMChangeSet, VMStatus>)
    ensures
        *final(session) is None,
        match *old(session) {
            Some(s) => r matches Ok(c) && c.writes@ == s.writes@,
            None => r == Err::<VMChangeSet, VMStatus>(invariant_violation()),
        },
{
    match session.take() {
        Some(s) => Ok(s.finish()),
        None => Err(VMStatus { status_code: StatusCode::UnknownInvariantViolationError }),
    }
}

impl<'r, B> RespawnableSession<'r, B> {
    /// Starts the first session over `base`: its view has no change set.
    pub fn new_session(vm: &AptosVM, session_id: SessionId, base: &'r B) -> (s: Self)
        ensures
            s.executor_view.base == base,
            s.executor_view.change_set is None,
            s.executor_view.group_cache@ == Seq::<u64>::empty(),
            is_fresh(s.session, session_id),
    {
        let executor_view = ExecutorViewWithChangeSet::new(base, None);
        Self::build(vm, executor_view, session_id)
    }

    /// Starts a session over a view that exists already.
    pub fn with_view(vm: &AptosVM, session_id: SessionId, view: ExecutorViewWithChangeSet<'r, B>)
        -> (s: Self)
        ensures
            s.executor_view == view,
            is_fresh(s.session, session_id),
    {
        Self::build(vm, view, session_id)
    }

    /// Finishes the running session and starts the next one: the view then holds the
    /// writes of the finished session as its change set, and its cache is empty.
    pub fn clear_cache_and_respawn(self, vm: &AptosVM, session_id: SessionId) -> (r: Result<
        Self,
        VMStatus,
    >)
        requires
            self.session is Some,
        ensures
            r matches Ok(s) && {
                &&& s.executor_view.base == self.executor_view.base
                &&& s.executor_view.change_set is Some
                &&& writes_of(s.executor_view.change_set) == self.session->Some_0.writes@
                &&& s.executor_view.group_cache@ == Seq::<u64>::empty()
                &&& is_fresh(s.session, session_id)
            },
    {
        let mut this = self;
        match this.take_additional_change_set() {
            Ok(change_set) => {
                let mut executor_view = this.unpack();
                executor_view.set_change_set(change_set);
                executor_view.release_group_cache();
                Ok(Self::build(vm, executor_view, session_id))
            },
            Err(e) => Err(e),
        }
    }

    fn build(vm: &AptosVM, executor_view: ExecutorViewWithChangeSet<'r, B>, session_id: SessionId)
        -> (s: Self)
        ensures
            s.executor_view == executor_view,
            is_fresh(s.session, session_id),
    {
        RespawnableSession { executor_view, session: Some(vm.new_session(session_id)) }
    }

    /// Runs `fun` on the session. `fun` takes the session and hands it back with its
    /// result. Fails where the session has been finished.
    pub fn execute<T, F: FnOnce(SessionExt) -> (SessionExt, Result<T, VMStatus>)>(
        &mut self,
        fun: F,
    ) -> (r: Result<T, VMStatus>)
        requires
            old(self).session matches Some(s) ==> fun.requires((s,)),
        ensures
            final(self).executor_view == old(self).executor_view,
            match old(self).session {
                Some(s) => final(self).session matches Some(after) && fun.ensures(
                    (s,),
                    (after, r),
                ),
                None => final(self).session is None && r == Err::<T, VMStatus>(
                    invariant_violation(),
                ),
            },
    {
        match self.session.take() {
            Some(session) => {
                let (after, r) = fun(session);
                self.session = Some(after);
                r
            },
            None => Err(VMStatus { status_code: StatusCode::UnknownInvariantViolationError }),
        }
    }

    /// Finishes the session and hands out its writes. Fails where it has been finished
    /// before.
    pub fn take_additional_change_set(&mut self) -> (r: Result<VMChangeSet, VMStatus>)
        ensures
            final(self).executor_view == old(self).executor_view,
            final(self).session is None,
            match old(self).session {
                Some(s) => r matches Ok(c) && c.writes@ == s.writes@,
                None => r == Err::<VMChangeSet, VMStatus>(invariant_violation()),
            },
    {
        finish_once(&mut self.session)
    }

    /// Gives up the session and hands out its view.
    pub fn unpack(self) -> (view: ExecutorViewWithChangeSet<'r, B>)
        ensures
            view == self.executor_view,
    {
        self.executor_view
    }
}

impl<'r, 'l, B> RespawnedSession<'r, 'l, B> {
    /// Starts a session over `base` under the change set of the session before it.
    pub fn spawn(
        vm: &'l AptosVM,
        session_id: SessionId,
        base: &'r B,
        previous_session_change_set: VMChangeSet,
    ) -> (r: Result<Self, VMStatus>)
        ensures
            r matches Ok(s) && {
                &&& s.vm == vm
                &&& s.executor_view.base == base
                &&& s.executor_view.change_set == Some(previous_session_change_set)
                &&& s.executor_view.group_cache@ == Seq::<u64>::empty()
                &&& is_fresh(s.session, session_id)
            },
    {
        let executor_view = ExecutorViewWithChangeSet::new(base, Some(previous_session_change_set));
        Ok(RespawnedSession { vm, executor_view, session: Some(vm.new_session(session_id)) })
    }

    /// Runs `fun` on the session. `fun` takes the session and hands it back with its
    /// result. Fails where the session has been finished.
    pub fn execute<T, F: FnOnce(SessionExt) -> (SessionExt, Result<T, VMStatus>)>(
        &mut self,
        fun: F,
    ) -> (r: Result<T, VMStatus>)
        requires
            old(self).session matches Some(s) ==> fun.requires((s,)),
        ensures
            final(self).executor_view == old(self).executor_view,
            final(self).vm == old(self).vm,
            match old(self).session {
                Some(s) => final(self).session matches Some(after) && fun.ensures(
                    (s,),
                    (after, r),
                ),
                None => final(self).session is None && r == Err::<T, VMStatus>(
                    invariant_violation(),
                ),
            },
    {
        match self.session.take() {
            Some(session) => {
                let (after, r) = fun(session);
                self.session = Some(after);
                r
            },
            None => Err(VMStatus { status_code: StatusCode::UnknownInvariantViolationError }),
        }
    }

    /// Finishes the session and hands out its writes. Fails where it has been finished
    /// before.
    pub fn take_additional_change_set(&mut self) -> (r: Result<VMChangeSet, VMStatus>)
        ensures
            final(self).executor_view == old(self).executor_view,
            final(self).vm == old(self).vm,
            final(self).session is None,
            match old(self).session {
                Some(s) => r matches Ok(c) && c.writes@ == s.writes@,
                None => r == Err::<VMChangeSet, VMStatus>(invariant_violation()),
            },
    {
        finish_once(&mut self.session)
    }

    /// Gives up the session and hands out the machine and the view.
    pub fn unpack(self) -> (heads: (&'l AptosVM, ExecutorViewWithChangeSet<'r, B>))
        ensures
            heads.0 == self.vm,
            heads.1 == self.executor_view,
    {
        (self.vm, self.executor_view)
    }
}

} // verus!
