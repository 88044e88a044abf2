use simple_lector_dni::app::{after_cycle, AfterCycle, AppError, SessionMode, WatchController, RECOVERY_DELAY_MS};
use simple_lector_dni::reader::{ReaderEvent, ReaderInfo, ReaderPresence};

fn reader(presence: ReaderPresence) -> ReaderInfo {
    ReaderInfo {
        index: 0,
        name: "Generic EMV Smartcard Reader".to_owned(),
        presence,
        event_count: 0,
    }
}

#[test]
fn present_card_is_read_once_until_removed_and_reinserted() {
    let present = reader(ReaderPresence::Present);
    let empty = reader(ReaderPresence::Empty);
    let mut controller = WatchController::new(std::slice::from_ref(&present), None).unwrap();

    assert_eq!(controller.initial_read(), Some(present.clone()));
    controller.read_succeeded();
    assert_eq!(
        controller.handle(ReaderEvent::CardInserted(present.clone())),
        None
    );
    assert_eq!(controller.handle(ReaderEvent::CardRemoved(empty)), None);
    assert_eq!(
        controller.handle(ReaderEvent::CardInserted(present.clone())),
        Some(present)
    );
}

#[test]
fn three_failed_attempts_wait_for_removal_before_a_new_cycle() {
    let present = reader(ReaderPresence::Present);
    let empty = reader(ReaderPresence::Empty);
    let mut controller = WatchController::new(std::slice::from_ref(&present), None).unwrap();

    assert!(controller.initial_read().is_some());
    controller.read_failed();
    assert_eq!(
        controller.handle(ReaderEvent::CardInserted(present.clone())),
        None
    );
    let _ = controller.handle(ReaderEvent::CardRemoved(empty));
    assert_eq!(
        controller.handle(ReaderEvent::CardInserted(present.clone())),
        Some(present)
    );
}

#[test]
fn reader_can_be_detached_and_reselected_after_reconnection() {
    let present = reader(ReaderPresence::Present);
    let mut controller = WatchController::new(std::slice::from_ref(&present), Some("emv")).unwrap();
    let _ = controller.initial_read();
    controller.read_succeeded();

    let _ = controller.handle(ReaderEvent::ReaderDetached(present.clone()));
    assert_eq!(controller.selected_name(), None);
    let _ = controller.handle(ReaderEvent::ReaderAttached(present.clone()));
    assert_eq!(
        controller.handle(ReaderEvent::CardInserted(present.clone())),
        Some(present)
    );
}

#[test]
fn an_empty_reader_at_start_is_not_read() {
    let empty = reader(ReaderPresence::Empty);
    let mut controller = WatchController::new(std::slice::from_ref(&empty), None).unwrap();

    assert_eq!(controller.initial_read(), None);
    assert_eq!(
        controller.selected_name(),
        Some("Generic EMV Smartcard Reader")
    );
}

#[test]
fn events_of_other_readers_are_ignored() {
    let present = reader(ReaderPresence::Present);
    let other = ReaderInfo {
        index: 1,
        name: "Other Reader".to_owned(),
        presence: ReaderPresence::Present,
        event_count: 0,
    };
    let mut controller = WatchController::new(std::slice::from_ref(&present), Some("emv")).unwrap();

    assert_eq!(controller.handle(ReaderEvent::CardInserted(other.clone())), None);
    assert_eq!(controller.handle(ReaderEvent::ReaderDetached(other)), None);
    assert_eq!(
        controller.selected_name(),
        Some("Generic EMV Smartcard Reader")
    );
}

#[test]
fn an_ambiguous_pattern_is_refused_at_start() {
    let a = ReaderInfo {
        index: 0,
        name: "Acme A".to_owned(),
        presence: ReaderPresence::Empty,
        event_count: 0,
    };
    let b = ReaderInfo {
        index: 1,
        name: "Acme B".to_owned(),
        ..a.clone()
    };

    let error = WatchController::new(&[a, b], Some("acme")).unwrap_err();
    assert_eq!(
        error.to_string(),
        "error del lector: reader pattern 'acme' is ambiguous"
    );
}

#[test]
fn a_reader_attached_later_is_selected_when_it_matches() {
    let mut controller = WatchController::new(&[], Some("emv")).unwrap();
    let other = ReaderInfo {
        index: 0,
        name: "Other".to_owned(),
        presence: ReaderPresence::Empty,
        event_count: 0,
    };
    let _ = controller.handle(ReaderEvent::ReaderAttached(other));
    assert_eq!(controller.selected_name(), None);

    let present = reader(ReaderPresence::Present);
    let _ = controller.handle(ReaderEvent::ReaderAttached(present.clone()));
    assert_eq!(
        controller.selected_name(),
        Some("Generic EMV Smartcard Reader")
    );
    assert_eq!(
        controller.handle(ReaderEvent::CardInserted(present.clone())),
        Some(present)
    );
}

#[test]
fn a_failed_cycle_keeps_the_watch_going() {
    let present = reader(ReaderPresence::Present);
    let empty = reader(ReaderPresence::Empty);
    let mut controller = WatchController::new(std::slice::from_ref(&present), None).unwrap();

    assert!(controller.initial_read().is_some());
    let failed: Result<simple_lector_dni::model::ReadRecord, AppError> = Err(AppError::Delivery(1));
    controller.finish_cycle(&failed);
    assert!(matches!(
        after_cycle(SessionMode::Watch, failed),
        AfterCycle::KeepWatching
    ));
    assert_eq!(
        controller.handle(ReaderEvent::CardInserted(present.clone())),
        None
    );
    assert_eq!(controller.handle(ReaderEvent::CardRemoved(empty)), None);
    assert_eq!(
        controller.handle(ReaderEvent::CardInserted(present.clone())),
        Some(present)
    );
}

#[test]
fn a_session_run_once_ends_with_its_cycle() {
    assert!(matches!(
        after_cycle(SessionMode::Once, Err(AppError::Delivery(2))),
        AfterCycle::Finish(Err(AppError::Delivery(2)))
    ));
    assert!(matches!(
        after_cycle(SessionMode::Once, Err(AppError::Timeout(5))),
        AfterCycle::Finish(Err(AppError::Timeout(5)))
    ));
}

#[test]
fn the_card_service_is_sought_again_every_second() {
    assert_eq!(RECOVERY_DELAY_MS, 1000);
}
