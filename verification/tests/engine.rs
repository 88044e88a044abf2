use simple_lector_dni::engine::{engine_not_found, exit_code, interpret_response, safe_code, EngineFailure};
use simple_lector_dni::engine_protocol::{
    DocumentData, EngineError, EngineRequest, EngineResponse, IntegrityResult,
};

fn ok_response(protocol: u8) -> EngineResponse {
    EngineResponse::Success {
        protocol,
        document: Box::new(DocumentData {
            nombre: "ANA".to_owned(),
            dni: "00000000T".to_owned(),
            ..DocumentData::default()
        }),
        integrity: IntegrityResult::verified(),
    }
}

#[test]
fn read_request_identifies_the_reader_by_stable_name() {
    let request = EngineRequest::read("Synthetic reader");

    assert_eq!(request.reader_name, "Synthetic reader");
    assert_eq!(request.command, "read");
    assert_eq!(request.protocol, 1);
}

#[test]
fn a_protocol_one_document_is_accepted() {
    let read = interpret_response(Some(ok_response(1))).unwrap();

    assert_eq!(read.document.nombre, "ANA");
    assert_eq!(read.document.dni, "00000000T");
}

#[test]
fn an_undecodable_or_foreign_answer_is_invalid() {
    for decoded in [None, Some(ok_response(2))] {
        let error = interpret_response(decoded).unwrap_err();
        assert_eq!(error.code, "INVALID_ENGINE_RESPONSE");
        assert!(!error.retryable);
    }
}

#[test]
fn worker_error_messages_are_not_trusted_or_exposed() {
    let error = interpret_response(Some(EngineResponse::Error {
        protocol: 1,
        error: EngineError {
            code: "CARD_READ_FAILED".to_owned(),
            message: "DNI 00000000T".to_owned(),
            retryable: true,
        },
    }))
    .unwrap_err();

    assert_eq!(error.code, "CARD_READ_FAILED");
    assert!(error.retryable);
    assert!(!error.to_string().contains("00000000T"));
}

#[test]
fn unsafe_worker_codes_are_replaced() {
    assert_eq!(safe_code("CARD_READ_FAILED".to_owned()), "CARD_READ_FAILED");
    assert_eq!(safe_code("card failed".to_owned()), "ENGINE_ERROR");
    assert_eq!(safe_code("DNI 00000000T".to_owned()), "ENGINE_ERROR");
    assert_eq!(safe_code("Ñ".to_owned()), "ENGINE_ERROR");
    assert_eq!(safe_code("A".repeat(64)), "A".repeat(64));
    assert_eq!(safe_code("A".repeat(65)), "ENGINE_ERROR");
    assert_eq!(safe_code(String::new()), "");
}

#[test]
fn failures_are_worded_with_code_and_detail() {
    let failure = EngineFailure::new("ENGINE_START_FAILED", false)
        .with_detail("/nonexistent/simple-lector-dni-java: not found".to_owned());

    assert_eq!(
        failure.to_string(),
        "error del motor (ENGINE_START_FAILED): /nonexistent/simple-lector-dni-java: not found"
    );
    assert_eq!(
        EngineFailure::new("bad code", true).to_string(),
        "error del motor (ENGINE_ERROR)"
    );
}

#[test]
fn nonzero_exit_reports_the_exit_code() {
    assert_eq!(exit_code(Some(7)), "ENGINE_EXIT_7");
    assert_eq!(exit_code(Some(0)), "ENGINE_EXIT_0");
    assert_eq!(exit_code(Some(255)), "ENGINE_EXIT_255");
    assert_eq!(exit_code(Some(-1)), "ENGINE_EXIT");
    assert_eq!(exit_code(None), "ENGINE_EXIT");
}

#[test]
fn a_missing_engine_file_is_named_in_the_failure() {
    let failure = engine_not_found("/opt/lector/engine/simple-lector-dni-engine.jar");
    assert_eq!(failure.code, "ENGINE_NOT_FOUND");
    assert!(!failure.retryable);
    assert_eq!(
        failure.detail.as_deref(),
        Some("no existe /opt/lector/engine/simple-lector-dni-engine.jar")
    );
}
