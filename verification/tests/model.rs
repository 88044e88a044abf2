use chrono::DateTime;
use simple_lector_dni::engine::EngineRead;
use simple_lector_dni::engine_protocol::{DocumentData, IntegrityResult, VerificationStatus};
use simple_lector_dni::model::{
    json_instant_text, numeric_offset_text, ReadRecord, DNI_SOURCE, READ_SCHEMA_VERSION,
};
use uuid::Uuid;

#[test]
fn read_record_has_stable_versioned_envelope() {
    let read_id = Uuid::parse_str("9f142e2c-f4ec-47e5-b8cc-1bbfe49118a7").unwrap();
    let read_at = DateTime::parse_from_rfc3339("2026-09-04T12:34:56+02:00").unwrap();
    let document = DocumentData {
        nombre: "ANA".to_owned(),
        dni: "00000000T".to_owned(),
        ..DocumentData::default()
    };
    let integrity = IntegrityResult {
        sod_signature: VerificationStatus::Verified,
        dg13_hash: VerificationStatus::Verified,
    };

    let record = ReadRecord::new(
        read_id.as_u128(),
        read_at.to_rfc3339(),
        "Generic EMV Smartcard Reader".to_owned(),
        document,
        integrity,
    );

    assert_eq!(record.schema_version, READ_SCHEMA_VERSION);
    assert_eq!(record.read_id_text(), read_id.to_string());
    assert_eq!(record.read_at, "2026-09-04T12:34:56+02:00");
    assert_eq!(record.reader, "Generic EMV Smartcard Reader");
    assert_eq!(record.source, "DNIe_DG13");
    assert_eq!(record.document.nombre, "ANA");
    assert_eq!(record.integrity.dg13_hash.as_str(), "verified");
}

#[test]
fn absent_document_values_stay_empty_for_csv_compatibility() {
    let record = ReadRecord::new(
        Uuid::nil().as_u128(),
        DateTime::parse_from_rfc3339("2026-09-04T00:00:00Z")
            .unwrap()
            .to_rfc3339(),
        "reader".to_owned(),
        DocumentData::default(),
        IntegrityResult::verified(),
    );

    assert!(record.document.direccion.is_empty());
    assert!(record.document.segundo_apellido.is_empty());
}

#[test]
fn read_identifier_is_written_hyphenated_in_lower_case() {
    let record = ReadRecord::new(
        0x9f14_2e2c_f4ec_47e5_b8cc_1bbf_e491_18a7,
        String::new(),
        String::new(),
        DocumentData::default(),
        IntegrityResult::verified(),
    );

    assert_eq!(record.read_id_text(), "9f142e2c-f4ec-47e5-b8cc-1bbfe49118a7");
    assert_eq!(DNI_SOURCE, "DNIe_DG13");
}

#[test]
fn a_captured_record_carries_the_read_and_a_fresh_identity() {
    let read = EngineRead {
        document: DocumentData {
            nombre: "ANA".to_owned(),
            ..DocumentData::default()
        },
        integrity: IntegrityResult::verified(),
    };

    let first = ReadRecord::capture("Synthetic reader", read.clone());
    let second = ReadRecord::capture("Synthetic reader", read);

    assert_eq!(first.reader, "Synthetic reader");
    assert_eq!(first.document.nombre, "ANA");
    assert_eq!(first.schema_version, 1);
    assert_ne!(first.read_id, second.read_id);
    assert!(DateTime::parse_from_rfc3339(&first.read_at).is_ok());
}

#[test]
fn a_zero_offset_is_written_z_in_json() {
    let utc = DateTime::parse_from_rfc3339("2026-01-15T09:30:00Z").unwrap();
    let written = utc.to_rfc3339();
    assert_eq!(written, "2026-01-15T09:30:00+00:00");
    assert_eq!(json_instant_text(&written), "2026-01-15T09:30:00Z");
    assert_eq!(numeric_offset_text("2026-01-15T09:30:00Z"), written);

    let madrid = "2026-09-04T12:34:56+02:00";
    assert_eq!(json_instant_text(madrid), madrid);
    assert_eq!(numeric_offset_text(madrid), madrid);
    assert_eq!(json_instant_text("2026-01-15T09:30:00-00:30"), "2026-01-15T09:30:00-00:30");
}
