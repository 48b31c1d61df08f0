use oxypp::message::Error;
use oxypp::pending::PendingCalls;
use oxypp::taxonomy::OCPPAction;

#[test]
fn record_then_resolve_then_orphan() {
    let mut table = PendingCalls::new();
    assert_eq!(table.record("x", OCPPAction::BootNotification), Ok(()));
    assert!(table.is_pending("x"));
    assert_eq!(table.len(), 1);
    assert_eq!(table.resolve("x"), Ok(OCPPAction::BootNotification));
    assert!(!table.is_pending("x"));
    assert_eq!(table.len(), 0);
    assert_eq!(table.resolve("x"), Err(Error::OrphanResponse));
}

#[test]
fn a_pending_id_is_not_recorded_twice() {
    let mut table = PendingCalls::new();
    assert_eq!(table.record("7", OCPPAction::BootNotification), Ok(()));
    assert_eq!(table.record("7", OCPPAction::BootNotification), Err(Error::DuplicateCallId));
    assert_eq!(table.len(), 1);
    assert_eq!(table.resolve("7"), Ok(OCPPAction::BootNotification));
    assert_eq!(table.record("7", OCPPAction::BootNotification), Ok(()));
}

#[test]
fn resolving_without_a_call_is_an_orphan() {
    let mut table = PendingCalls::new();
    assert_eq!(table.resolve("nothing"), Err(Error::OrphanResponse));
    assert_eq!(table.record("a", OCPPAction::BootNotification), Ok(()));
    assert_eq!(table.resolve("A"), Err(Error::OrphanResponse));
    assert_eq!(table.len(), 1);
}

#[test]
fn an_abandoned_call_is_an_orphan_later() {
    let mut table = PendingCalls::new();
    assert_eq!(table.record("1", OCPPAction::BootNotification), Ok(()));
    assert_eq!(table.record("2", OCPPAction::BootNotification), Ok(()));
    assert!(table.abandon("1"));
    assert!(!table.abandon("1"));
    assert_eq!(table.resolve("1"), Err(Error::OrphanResponse));
    assert_eq!(table.len(), 1);
    assert_eq!(table.resolve("2"), Ok(OCPPAction::BootNotification));
}

#[test]
fn responses_may_come_in_any_order() {
    let mut table = PendingCalls::new();
    for id in ["1", "2", "3"] {
        assert_eq!(table.record(id, OCPPAction::BootNotification), Ok(()));
    }
    assert_eq!(table.resolve("2"), Ok(OCPPAction::BootNotification));
    assert_eq!(table.resolve("3"), Ok(OCPPAction::BootNotification));
    assert_eq!(table.resolve("1"), Ok(OCPPAction::BootNotification));
    assert_eq!(table.len(), 0);
}

#[test]
fn clear_gives_every_call_up() {
    let mut table = PendingCalls::new();
    assert_eq!(table.record("1", OCPPAction::BootNotification), Ok(()));
    assert_eq!(table.record("2", OCPPAction::BootNotification), Ok(()));
    table.clear();
    assert_eq!(table.len(), 0);
    assert!(!table.is_pending("1"));
}
