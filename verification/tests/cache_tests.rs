use zygiskd::cache::{LateInit, NamespaceKind, NamespaceStore, SnapshotPlan};
use zygiskd::handshake::{child_handshake_step, decode_word, encode_word, HandshakeStep, READY_WORD};

#[test]
fn fresh_store_plans_one_creation_per_kind() {
    let store = NamespaceStore::new();
    assert_eq!(
        store.plan_snapshot(NamespaceKind::Clean),
        SnapshotPlan::CreateNew { revert: true, modules_only: false }
    );
    assert_eq!(
        store.plan_snapshot(NamespaceKind::Root),
        SnapshotPlan::CreateNew { revert: false, modules_only: false }
    );
    assert_eq!(
        store.plan_snapshot(NamespaceKind::Module),
        SnapshotPlan::CreateNew { revert: true, modules_only: true }
    );
}

#[test]
fn committed_handle_is_returned_identically_forever() {
    let mut store = NamespaceStore::new();
    store.store_snapshot(NamespaceKind::Clean, 7);
    let first = store.plan_snapshot(NamespaceKind::Clean);
    let second = store.plan_snapshot(NamespaceKind::Clean);
    assert_eq!(first, SnapshotPlan::UseCached(7));
    assert_eq!(second, SnapshotPlan::UseCached(7));
    assert_eq!(store.cached_handle(NamespaceKind::Clean), Some(7));
}

#[test]
fn kinds_are_independent() {
    let mut store = NamespaceStore::new();
    store.store_snapshot(NamespaceKind::Clean, 7);
    // The other two slots are untouched and still plan their own creation.
    assert_eq!(store.cached_handle(NamespaceKind::Root), None);
    assert_eq!(store.cached_handle(NamespaceKind::Module), None);
    assert_eq!(
        store.plan_snapshot(NamespaceKind::Module),
        SnapshotPlan::CreateNew { revert: true, modules_only: true }
    );
    store.store_snapshot(NamespaceKind::Module, 9);
    assert_eq!(store.cached_handle(NamespaceKind::Clean), Some(7));
    assert_eq!(store.cached_handle(NamespaceKind::Module), Some(9));
    assert_eq!(store.cached_handle(NamespaceKind::Root), None);
}

#[test]
fn late_init_is_write_once() {
    let mut cell: LateInit<i32> = LateInit::new();
    assert!(!cell.initiated());
    cell.init(41);
    assert!(cell.initiated());
    assert_eq!(*cell.get(), 41);
}

#[test]
fn handshake_words_round_trip_little_endian() {
    let bytes = encode_word(0x01020304);
    assert_eq!(bytes, vec![0x04, 0x03, 0x02, 0x01]);
    assert_eq!(decode_word(&bytes), 0x01020304);
    assert_eq!(decode_word(&encode_word(READY_WORD)), 0);
    assert_eq!(decode_word(&encode_word(4294967295)), 4294967295);
}

#[test]
fn child_exits_only_on_its_own_pid() {
    assert_eq!(child_handshake_step(42, READY_WORD), HandshakeStep::SendReady);
    assert_eq!(child_handshake_step(42, 41), HandshakeStep::SendReady);
    assert_eq!(child_handshake_step(42, 42), HandshakeStep::Exit);
}
