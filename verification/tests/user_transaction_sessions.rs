use indexer_grpc_data_service::session::{
    AptosVM, ExecutorViewWithChangeSet, RespawnableSession, SessionExt, SessionId, StatusCode,
    VMChangeSet, VMStatus, WriteOp,
};
use indexer_grpc_data_service::user_transaction_sessions::{
    ChangeSetConfigs, EpilogueSession, Fee, PrologueSession, TransactionMetadata, UserSession,
};

const META: TransactionMetadata = TransactionMetadata { sender: 11, sequence_number: 22 };
const CONFIGS: ChangeSetConfigs = ChangeSetConfigs { gas_feature_version: 12 };

fn write(key: u64, value: u64) -> WriteOp {
    WriteOp::Modification { key, value }
}

fn violation() -> VMStatus {
    VMStatus { status_code: StatusCode::UnknownInvariantViolationError }
}

fn append(mut base: VMChangeSet, mut additional: VMChangeSet) -> Result<VMChangeSet, ()> {
    base.writes.append(&mut additional.writes);
    Ok(base)
}

fn refuse(_base: VMChangeSet, _additional: VMChangeSet) -> Result<VMChangeSet, ()> {
    Err(())
}

#[test]
fn session_ids_of_a_transaction() {
    assert_eq!(
        SessionId::prologue_meta(&META),
        SessionId::Prologue { sender: 11, sequence_number: 22 }
    );
    assert_eq!(SessionId::txn_meta(&META), SessionId::Txn { sender: 11, sequence_number: 22 });
    assert_eq!(
        SessionId::epilogue_meta(&META),
        SessionId::Epilogue { sender: 11, sequence_number: 22 }
    );
    assert_eq!(Fee::zero(), Fee { octas: 0 });
}

#[test]
fn prologue_session_starts_bare() {
    let vm = AptosVM::new();
    let base = 5u8;
    let prologue = PrologueSession::new(&vm, &CONFIGS, &META, &base);
    assert_eq!(*prologue.context.txn_meta, META);
    assert_eq!(*prologue.context.change_set_configs, CONFIGS);
    assert_eq!(*prologue.session.executor_view.base, 5);
    assert!(prologue.session.executor_view.change_set.is_none());
    let running = prologue.session.session.as_ref().unwrap();
    assert_eq!(running.id, SessionId::Prologue { sender: 11, sequence_number: 22 });
    assert!(running.writes.is_empty());
}

#[test]
fn prologue_writes_lie_under_both_sessions() {
    let vm = AptosVM::new();
    let base = 5u8;
    let mut prologue = PrologueSession::new(&vm, &CONFIGS, &META, &base);
    prologue.session.executor_view.group_cache.push(3);
    let r = prologue.session.execute(|mut s: SessionExt| {
        s.write(write(1, 10));
        (s, Ok(()))
    });
    assert_eq!(r, Ok(()));
    let (epilogue, user) = prologue.into_sessions(1).ok().unwrap();
    for session in [&epilogue.session, &user.session] {
        assert_eq!(session.executor_view.change_set.as_ref().unwrap().writes, vec![write(1, 10)]);
        assert!(session.executor_view.group_cache.is_empty());
        assert_eq!(*session.executor_view.base, 5);
        assert!(session.session.as_ref().unwrap().writes.is_empty());
    }
    assert_eq!(
        epilogue.session.session.as_ref().unwrap().id,
        SessionId::Epilogue { sender: 11, sequence_number: 22 }
    );
    assert_eq!(
        user.session.session.as_ref().unwrap().id,
        SessionId::Txn { sender: 11, sequence_number: 22 }
    );
    assert_eq!(epilogue.get_storage_fee_refund(), Fee { octas: 0 });
    assert_eq!(*user.context.txn_meta, META);
}

#[test]
fn finished_prologue_cannot_be_turned_into_sessions() {
    let vm = AptosVM::new();
    let base = 5u8;
    let mut prologue = PrologueSession::new(&vm, &CONFIGS, &META, &base);
    prologue.session.take_additional_change_set().unwrap();
    assert_eq!(prologue.into_sessions(7).err(), Some(violation()));
}

#[test]
fn old_gas_version_keeps_the_prologue_session_as_user_session() {
    let vm = AptosVM::new();
    let base = 5u8;
    let mut prologue = PrologueSession::new(&vm, &CONFIGS, &META, &base);
    prologue.session.executor_view.group_cache.push(3);
    let r = prologue.session.execute(|mut s: SessionExt| {
        s.write(write(1, 10));
        (s, Ok(()))
    });
    assert_eq!(r, Ok(()));
    let (epilogue, user) = prologue.into_sessions(0).ok().unwrap();
    let running = user.session.session.as_ref().unwrap();
    assert_eq!(running.id, SessionId::Prologue { sender: 11, sequence_number: 22 });
    assert_eq!(running.writes, vec![write(1, 10)]);
    assert!(user.session.executor_view.change_set.is_none());
    assert!(epilogue.session.executor_view.change_set.is_none());
    assert_eq!(epilogue.session.executor_view.group_cache, vec![3]);
    assert_eq!(
        epilogue.session.session.as_ref().unwrap().id,
        SessionId::Epilogue { sender: 11, sequence_number: 22 }
    );
    assert_eq!(epilogue.storage_refund, Fee::zero());
}

fn epilogue_over<'r>(vm: &AptosVM, base: &'r u8, writes: Vec<WriteOp>) -> EpilogueSession<'r, u8> {
    let view = ExecutorViewWithChangeSet::new(base, Some(VMChangeSet { writes }));
    let id = SessionId::Epilogue { sender: 11, sequence_number: 22 };
    EpilogueSession::new(RespawnableSession::with_view(vm, id, view), Fee { octas: 9 })
}

#[test]
fn epilogue_squashes_its_writes_into_the_change_set() {
    let vm = AptosVM::new();
    let base = 5u8;
    let mut epilogue = epilogue_over(&vm, &base, vec![write(1, 10)]);
    assert_eq!(epilogue.get_storage_fee_refund(), Fee { octas: 9 });
    let r = epilogue.session.execute(|mut s: SessionExt| {
        s.write(WriteOp::Deletion { key: 1 });
        (s, Ok(()))
    });
    assert_eq!(r, Ok(()));
    let change_set = epilogue.finish(append).unwrap();
    assert_eq!(change_set.writes, vec![write(1, 10), WriteOp::Deletion { key: 1 }]);
}

#[test]
fn epilogue_must_not_create() {
    let vm = AptosVM::new();
    let base = 5u8;
    let mut epilogue = epilogue_over(&vm, &base, vec![]);
    let r = epilogue.session.execute(|mut s: SessionExt| {
        s.write(WriteOp::Creation { key: 1, value: 1 });
        (s, Ok(()))
    });
    assert_eq!(r, Ok(()));
    assert_eq!(epilogue.finish(append).err(), Some(violation()));
}

#[test]
fn epilogue_that_cannot_be_squashed_fails() {
    let vm = AptosVM::new();
    let base = 5u8;
    let epilogue = epilogue_over(&vm, &base, vec![write(1, 10)]);
    assert_eq!(epilogue.finish(refuse).err(), Some(violation()));
}

#[test]
fn epilogue_is_finished_once() {
    let vm = AptosVM::new();
    let base = 5u8;
    let mut epilogue = epilogue_over(&vm, &base, vec![write(1, 10)]);
    epilogue.session.take_additional_change_set().unwrap();
    assert_eq!(epilogue.finish(append).err(), Some(violation()));
}

#[test]
fn epilogue_over_a_bare_view_has_nothing_to_squash_into() {
    let vm = AptosVM::new();
    let base = 5u8;
    let id = SessionId::Epilogue { sender: 11, sequence_number: 22 };
    let session = RespawnableSession::new_session(&vm, id, &base);
    let epilogue = EpilogueSession::new(session, Fee::zero());
    assert_eq!(epilogue.finish(append).err(), Some(violation()));
}

#[test]
fn user_session_holds_what_it_is_given() {
    let vm = AptosVM::new();
    let base = 5u8;
    let prologue = PrologueSession::new(&vm, &CONFIGS, &META, &base);
    let session = RespawnableSession::new_session(&vm, SessionId::Void, &base);
    let user = UserSession::new(prologue.context, session);
    assert_eq!(user.session.session.as_ref().unwrap().id, SessionId::Void);
    assert_eq!(*user.context.change_set_configs, CONFIGS);
}
