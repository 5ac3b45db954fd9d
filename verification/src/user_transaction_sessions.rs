//! The three sessions of a user transaction: the prologue, the transaction itself and
//! the epilogue. The prologue session comes first and is turned into the other two.

use vstd::prelude::*;
use crate::session::{
    creates, invariant_violation, is_fresh, writes_of, AptosVM, ExecutorViewWithChangeSet,
    RespawnableSession, SessionId, StatusCode, VMChangeSet, VMStatus, WriteOp,
};

verus! {

/// An amount of the coin that fees are paid in.
#[derive(Clone, Copy, Debug, PartialEq, Eq)]
pub struct Fee {
    pub octas: u64,
}

/// The limits that the change set of a transaction is held to.
#[derive(Clone, Copy, Debug, PartialEq, Eq)]
pub struct ChangeSetConfigs {
    pub gas_feature_version: u64,
}

/// What a session has to know of the transaction it runs.
#[derive(Clone, Copy, Debug, PartialEq, Eq)]
pub struct TransactionMetadata {
    pub sender: u64,
    pub sequence_number: u64,
}

/// What the sessions of one transaction share.
#[derive(Clone, Copy)]
pub struct Context<'l> {
    pub vm: &'l AptosVM,
    pub change_set_configs: &'l ChangeSetConfigs,
    pub txn_meta: &'l TransactionMetadata,
}

/// The session of the prologue.
pub struct PrologueSession<'r, 'l, B> {
    pub context: Context<'l>,
    pub session: RespawnableSession<'r, B>,
}

/// The session of the transaction itself.
pub struct UserSession<'r, 'l, B> {
    pub context: Context<'l>,
    /// This carries the prologue change set.
    pub session: RespawnableSession<'r, B>,
}

/// The session of the epilogue.
pub struct EpilogueSession<'r, B> {
    pub session: RespawnableSession<'r, B>,
    pub storage_refund: Fee,
}

impl Fee {
    /// No fee.
    pub fn zero() -> (fee: Fee)
        ensures
            fee.octas == 0,
    {
        Fee { octas: 0 }
    }
}

impl SessionId {
    /// The id of the prologue session of a transaction.
    pub fn prologue_meta(txn_meta: &TransactionMetadata) -> (id: SessionId)
        ensures
            id == (SessionId::Prologue {
                sender: txn_meta.sender,
                sequence_number: txn_meta.sequence_number,
            }),
    {
        SessionId::Prologue { sender: txn_meta.sender, sequence_number: txn_meta.sequence_number }
    }

    /// The id of the session of a transaction itself.
    pub fn txn_meta(txn_meta: &TransactionMetadata) -> (id: SessionId)
        ensures
            id == (SessionId::Txn {
                sender: txn_meta.sender,
                sequence_number: txn_meta.sequence_number,
            }),
    {
        SessionId::Txn { sender: txn_meta.sender, sequence_number: txn_meta.sequence_number }
    }

    /// The id of the epilogue session of a transaction.
    pub fn epilogue_meta(txn_meta: &TransactionMetadata) -> (id: SessionId)
        ensures
            id == (SessionId::Epilogue {
                sender: txn_meta.sender,
                sequence_number: txn_meta.sequence_number,
            }),
    {
        SessionId::Epilogue { sender: txn_meta.sender, sequence_number: txn_meta.sequence_number }
    }
}

/// The session runs over a view of `base` that holds `writes` as its change set and
/// nothing in its cache, and was just started for the stage `id`.
pub open spec fn is_respawned_over<B>(
    session: RespawnableSession<'_, B>,
    base: &B,
    writes: Seq<WriteOp>,
    id: SessionId,
) -> bool {
    &&& session.executor_view.base == base
    &&& session.executor_view.change_set is Some
    &&& writes_of(session.executor_view.change_set) == writes
    &&& session.executor_view.group_cache@ == Seq::<u64>::empty()
    &&& is_fresh(session.session, id)
}

impl<'r, 'l, B> UserSession<'r, 'l, B> {
    pub fn new(context: Context<'l>, session: RespawnableSession<'r, B>) -> (user: Self)
        ensures
            user.context == context,
            user.session == session,
    {
        UserSession { context, session }
    }
}

impl<'r, 'l, B> PrologueSession<'r, 'l, B> {
    /// Starts the prologue session of a transaction over `resolver`.
    pub fn new(
        vm: &'l AptosVM,
        change_set_configs: &'l ChangeSetConfigs,
        txn_meta: &'l TransactionMetadata,
        resolver: &'r B,
    ) -> (prologue: Self)
        ensures
            prologue.context.vm == vm,
            prologue.context.change_set_configs == change_set_configs,
            prologue.context.txn_meta == txn_meta,
            prologue.session.executor_view.base == resolver,
            prologue.session.executor_view.change_set is None,
            prologue.session.executor_view.group_cache@ == Seq::<u64>::empty(),
            is_fresh(
                prologue.session.session,
                SessionId::Prologue {
                    sender: txn_meta.sender,
                    sequence_number: txn_meta.sequence_number,
                },
            ),
    {
        let context = Context { vm, change_set_configs, txn_meta };
        let session_id = SessionId::prologue_meta(context.txn_meta);
        let session = RespawnableSession::new_session(context.vm, session_id, resolver);
        PrologueSession { context, session }
    }

    /// Turns the prologue session into the epilogue session and the user session.
    ///
    /// From gas feature version 1 on, the prologue session is finished and both sessions
    /// start afresh over views that hold its writes, so that nothing that the prologue
    /// read stays in a cache; this fails where the prologue session was finished
    /// before. Under version 0 the user session is the prologue session itself, and the
    /// epilogue session starts over a copy of its view, which must have no change set.
    pub fn into_sessions(self, gas_feature_version: u64) -> (r: Result<
        (EpilogueSession<'r, B>, UserSession<'r, 'l, B>),
        VMStatus,
    >)
        requires
            gas_feature_version == 0 ==> self.session.executor_view.change_set is None,
        ensures
            ({
                let meta = self.context.txn_meta;
                let epilogue_id = SessionId::Epilogue {
                    sender: meta.sender,
                    sequence_number: meta.sequence_number,
                };
                let user_id = SessionId::Txn {
                    sender: meta.sender,
                    sequence_number: meta.sequence_number,
                };
                let base = self.session.executor_view.base;
                if gas_feature_version >= 1 {
                    match self.session.session {
                        Some(prologue) => r matches Ok((epilogue, user)) && {
                            &&& is_respawned_over(
                                epilogue.session,
                                base,
                                prologue.writes@,
                                epilogue_id,
                            )
                            &&& epilogue.storage_refund.octas == 0
                            &&& is_respawned_over(user.session, base, prologue.writes@, user_id)
                            &&& user.context == self.context
                        },
                        None => r matches Err(e) && e == invariant_violation(),
                    }
                } else {
                    r matches Ok((epilogue, user)) && {
                        &&& epilogue.session.executor_view.base == base
                        &&& epilogue.session.executor_view.change_set is None
                        &&& epilogue.session.executor_view.group_cache@
                            == self.session.executor_view.group_cache@
                        &&& is_fresh(epilogue.session.session, epilogue_id)
                        &&& epilogue.storage_refund.octas == 0
                        &&& user.session == self.session
                        &&& user.context == self.context
                    }
                }
            }),
    {
        let PrologueSession { context, session } = self;
        let mut prologue_session = session;
        let epilogue_session_id = SessionId::epilogue_meta(context.txn_meta);
        if gas_feature_version >= 1 {
            match prologue_session.take_additional_change_set() {
                Ok(change_set) => {
                    let executor_view = prologue_session.unpack();
                    Ok(
                        (
                            EpilogueSession::new(
                                RespawnableSession::with_view(
                                    context.vm,
                                    epilogue_session_id,
                                    executor_view.with_change_set(change_set.duplicate()),
                                ),
                                Fee::zero(),
                            ),
                            UserSession::new(
                                context,
                                RespawnableSession::with_view(
                                    context.vm,
                                    SessionId::txn_meta(context.txn_meta),
                                    executor_view.with_change_set(change_set),
                                ),
                            ),
                        ),
                    )
                },
                Err(e) => Err(e),
            }
        } else {
            Ok(
                (
                    EpilogueSession::new(
                        RespawnableSession::with_view(
                            context.vm,
                            epilogue_session_id,
                            prologue_session.executor_view.assert_no_change_set().duplicate(),
                        ),
                        Fee::zero(),
                    ),
                    UserSession::new(context, prologue_session),
                ),
            )
        }
    }
}

/// The status of an epilogue that allocated storage.
pub open spec fn unexpected_allocation() -> VMStatus {
    VMStatus { status_code: StatusCode::UnknownInvariantViolationError }
}

impl<'r, B> EpilogueSession<'r, B> {
    pub fn new(session: RespawnableSession<'r, B>, storage_refund: Fee) -> (epilogue: Self)
        ensures
            epilogue.session == session,
            epilogue.storage_refund == storage_refund,
    {
        EpilogueSession { session, storage_refund }
    }

    /// Finishes the epilogue session and squashes its writes into the change set that
    /// its view holds, with `squash`, which is given that change set and the writes of
    /// the epilogue.
    ///
    /// Fails with an invariant violation where the session was finished before, where
    /// the epilogue made a key that did not exist, where the view holds no change set,
    /// and where `squash` fails.
    pub fn finish<E, F: FnOnce(VMChangeSet, VMChangeSet) -> Result<VMChangeSet, E>>(
        self,
        squash: F,
    ) -> (r: Result<VMChangeSet, VMStatus>)
        requires
            forall|base: VMChangeSet, additional: VMChangeSet|
                squash.requires((base, additional)),
        ensures
            match (self.session.session, self.session.executor_view.change_set) {
                (Some(running), Some(base)) => if creates(running.writes@) {
                    r matches Err(e) && e == unexpected_allocation()
                } else {
                    exists|additional: VMChangeSet, squashed: Result<VMChangeSet, E>|
                        {
                            &&& additional.writes@ == running.writes@
                            &&& squash.ensures((base, additional), squashed)
                            &&& match squashed {
                                Ok(change_set) => r matches Ok(c) && c == change_set,
                                Err(_) => r matches Err(e) && e == invariant_violation(),
                            }
                        }
                },
                _ => r matches Err(e) && e == invariant_violation(),
            },
    {
        let mut session = self.session;
        match session.take_additional_change_set() {
            Err(e) => Err(e),
            Ok(additional_change_set) => {
                if additional_change_set.has_creation() {
                    // In the epilogue there shouldn't be new slots created, otherwise
                    // a slot could be created by the user, deleted by another
                    // transaction that claims the refund, and recreated here to claim
                    // the refund again.
                    return Err(
                        VMStatus { status_code: StatusCode::UnknownInvariantViolationError },
                    );
                }
                match session.unpack().change_set {
                    None => Err(
                        VMStatus { status_code: StatusCode::UnknownInvariantViolationError },
                    ),
                    Some(change_set) => match squash(change_set, additional_change_set) {
                        Ok(squashed) => Ok(squashed),
                        Err(_) => Err(
                            VMStatus { status_code: StatusCode::UnknownInvariantViolationError },
                        ),
                    },
                }
            },
        }
    }

    pub fn get_storage_fee_refund(&self) -> (fee: Fee)
        ensures
            fee == self.storage_refund,
    {
        self.storage_refund
    }
}

} // verus!
