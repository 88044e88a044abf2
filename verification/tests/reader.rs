use simple_lector_dni::reader::{
    classify_state, diff_snapshots, select_reader, ReaderError, ReaderEvent, ReaderInfo,
    ReaderPresence, ReaderStateFlags,
};

fn reader(index: usize, name: &str, presence: ReaderPresence) -> ReaderInfo {
    ReaderInfo {
        index,
        name: name.to_owned(),
        presence,
        event_count: 0,
    }
}

fn flags(ignore: bool, unknown: bool, unavailable: bool, present: bool) -> ReaderStateFlags {
    ReaderStateFlags {
        ignore,
        unknown,
        unavailable,
        present,
    }
}

#[test]
fn selection_uses_first_reader_by_default() {
    let readers = vec![
        reader(0, "Reader Alpha", ReaderPresence::Empty),
        reader(1, "Reader Beta", ReaderPresence::Present),
    ];

    assert_eq!(select_reader(&readers, None).unwrap().index, 0);
}

#[test]
fn selection_matches_case_insensitive_substring() {
    let readers = vec![
        reader(0, "Reader Alpha", ReaderPresence::Empty),
        reader(1, "Generic EMV Smartcard Reader", ReaderPresence::Present),
    ];

    let selected = select_reader(&readers, Some("emv SMARTCARD")).unwrap();
    assert_eq!(selected.index, 1);
}

#[test]
fn selection_rejects_ambiguous_and_missing_patterns() {
    let readers = vec![
        reader(0, "Acme Reader A", ReaderPresence::Empty),
        reader(1, "Acme Reader B", ReaderPresence::Empty),
    ];

    assert!(select_reader(&readers, Some("acme"))
        .unwrap_err()
        .to_string()
        .contains("ambiguous"));
    assert!(select_reader(&readers, Some("missing"))
        .unwrap_err()
        .to_string()
        .contains("not found"));
}

#[test]
fn raw_pcsc_flags_are_classified_without_connecting_to_card() {
    // PRESENT, EMPTY and UNAVAILABLE | UNKNOWN.
    assert_eq!(
        classify_state(flags(false, false, false, true)),
        ReaderPresence::Present
    );
    assert_eq!(
        classify_state(flags(false, false, false, false)),
        ReaderPresence::Empty
    );
    assert_eq!(
        classify_state(flags(false, true, true, false)),
        ReaderPresence::Unavailable
    );
}

#[test]
fn snapshot_diff_maps_reader_and_card_lifecycle_events() {
    let empty = reader(0, "Reader", ReaderPresence::Empty);
    let present = reader(0, "Reader", ReaderPresence::Present);

    assert_eq!(
        diff_snapshots(&[], std::slice::from_ref(&empty)),
        vec![ReaderEvent::ReaderAttached(empty.clone())]
    );
    assert_eq!(
        diff_snapshots(std::slice::from_ref(&empty), std::slice::from_ref(&present)),
        vec![ReaderEvent::CardInserted(present.clone())]
    );
    assert_eq!(
        diff_snapshots(std::slice::from_ref(&present), std::slice::from_ref(&empty)),
        vec![ReaderEvent::CardRemoved(empty.clone())]
    );
    assert_eq!(
        diff_snapshots(std::slice::from_ref(&empty), &[]),
        vec![ReaderEvent::ReaderDetached(empty)]
    );
}

#[test]
fn an_ignored_reader_is_unavailable_even_with_a_card() {
    assert_eq!(
        classify_state(flags(true, false, false, true)),
        ReaderPresence::Unavailable
    );
}

#[test]
fn selection_without_readers_reports_no_readers() {
    assert_eq!(select_reader(&[], None).unwrap_err(), ReaderError::NoReaders);
    assert_eq!(
        select_reader(&[], None).unwrap_err().to_string(),
        "no smart-card readers are connected"
    );
}

#[test]
fn selection_errors_carry_the_pattern() {
    let readers = vec![reader(0, "Acme Reader A", ReaderPresence::Empty)];

    assert_eq!(
        select_reader(&readers, Some("Zeta")).unwrap_err(),
        ReaderError::NotFound("Zeta".to_owned())
    );
    assert_eq!(
        ReaderError::NotFound("Zeta".to_owned()).to_string(),
        "reader matching 'Zeta' was not found"
    );
    assert_eq!(
        ReaderError::Ambiguous("acme".to_owned()).to_string(),
        "reader pattern 'acme' is ambiguous"
    );
    assert_eq!(
        ReaderError::Pcsc("service stopped".to_owned()).to_string(),
        "PC/SC error: service stopped"
    );
}

#[test]
fn a_single_match_is_selected_whatever_its_position() {
    let readers = vec![
        reader(0, "Reader Alpha", ReaderPresence::Empty),
        reader(1, "Reader Beta", ReaderPresence::Empty),
        reader(2, "Reader Gamma", ReaderPresence::Present),
    ];

    assert_eq!(select_reader(&readers, Some("GAMMA")).unwrap().index, 2);
    assert_eq!(
        select_reader(&readers, Some("reader")).unwrap_err(),
        ReaderError::Ambiguous("reader".to_owned())
    );
}

#[test]
fn equal_snapshots_differ_by_nothing() {
    let snapshot = vec![
        reader(0, "Reader A", ReaderPresence::Present),
        reader(1, "Reader B", ReaderPresence::Empty),
    ];

    assert!(diff_snapshots(&snapshot, &snapshot).is_empty());
}

#[test]
fn a_new_reader_with_a_card_reports_attachment_then_insertion() {
    let present = reader(0, "Reader", ReaderPresence::Present);

    assert_eq!(
        diff_snapshots(&[], std::slice::from_ref(&present)),
        vec![
            ReaderEvent::ReaderAttached(present.clone()),
            ReaderEvent::CardInserted(present)
        ]
    );
}

#[test]
fn changes_come_before_detachments_in_snapshot_order() {
    let a_empty = reader(0, "Reader A", ReaderPresence::Empty);
    let a_present = reader(0, "Reader A", ReaderPresence::Present);
    let b = reader(1, "Reader B", ReaderPresence::Empty);
    let c = reader(1, "Reader C", ReaderPresence::Empty);

    assert_eq!(
        diff_snapshots(&[a_empty, b.clone()], &[a_present.clone(), c.clone()]),
        vec![
            ReaderEvent::CardInserted(a_present),
            ReaderEvent::ReaderAttached(c),
            ReaderEvent::ReaderDetached(b)
        ]
    );
}

#[test]
fn presence_labels_are_spanish() {
    assert_eq!(ReaderPresence::Empty.describe(), "sin tarjeta");
    assert_eq!(ReaderPresence::Present.describe(), "con tarjeta");
    assert_eq!(ReaderPresence::Unavailable.describe(), "no disponible");
}
