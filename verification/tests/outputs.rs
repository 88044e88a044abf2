use std::sync::atomic::{AtomicUsize, Ordering};

use simple_lector_dni::engine_protocol::{DocumentData, IntegrityResult};
use simple_lector_dni::model::ReadRecord;
use simple_lector_dni::output::{
    csv_header, csv_row, deliver_all, needs_header, protect_csv, record_answer, DeliveryReport,
    OutputError, Sink,
};
use simple_lector_dni::webhook::{
    bearer, check_webhook_url, deliver_with_retries, parse_webhook_url, status_outcome,
    transport_failure, UrlHost,
};

fn record(name: &str) -> ReadRecord {
    ReadRecord::new(
        0x9f14_2e2c_f4ec_47e5_b8cc_1bbf_e491_18a7,
        "2026-09-04T12:34:56+02:00".to_owned(),
        "Synthetic reader".to_owned(),
        DocumentData {
            nombre: name.to_owned(),
            dni: "00000000T".to_owned(),
            direccion: "=CMD(\"synthetic\")".to_owned(),
            ..DocumentData::default()
        },
        IntegrityResult::verified(),
    )
}

#[test]
fn webhook_rejects_non_loopback_plain_http() {
    let parts = parse_webhook_url("http://example.com/hook");
    let error = check_webhook_url(parts).unwrap_err();

    assert!(error.to_string().contains("HTTPS"));
}

#[test]
fn webhook_accepts_https_and_loopback_http() {
    assert!(check_webhook_url(parse_webhook_url("https://pms.example.com/dni")).is_ok());
    assert!(check_webhook_url(parse_webhook_url("http://localhost:8080/hook")).is_ok());
    assert!(check_webhook_url(parse_webhook_url("http://127.0.0.1:9/hook")).is_ok());
    assert!(check_webhook_url(parse_webhook_url("ftp://example.com/hook")).is_err());
}

#[test]
fn webhook_url_parsing_lower_cases_scheme_and_host() {
    let parts = parse_webhook_url("HTTP://LocalHost/hook").unwrap();

    assert_eq!(parts.scheme, "http");
    assert_eq!(parts.host, Some(UrlHost::Domain("localhost".to_owned())));
    assert!(check_webhook_url(Some(parts)).is_ok());
}

#[test]
fn an_unparsable_webhook_url_is_a_configuration_error() {
    let error = check_webhook_url(parse_webhook_url("not a url")).unwrap_err();

    assert_eq!(
        error.to_string(),
        "configuración de salida no válida: la URL del webhook no es válida"
    );
}

#[test]
fn webhook_statuses_decide_success_and_retries() {
    assert!(status_outcome(204).is_ok());
    assert!(status_outcome(200).is_ok());
    let server = status_outcome(503).unwrap_err();
    assert!(server.retryable);
    assert_eq!(server.message, "el webhook devolvió HTTP 503");
    assert!(status_outcome(408).unwrap_err().retryable);
    assert!(status_outcome(429).unwrap_err().retryable);
    let client = status_outcome(401).unwrap_err();
    assert!(!client.retryable);
    assert!(client.message.contains("401"));
    assert!(!status_outcome(307).unwrap_err().retryable);
}

#[test]
fn transport_failures_are_retried_unless_they_are_configuration() {
    let blip = transport_failure("connection refused", false);
    assert!(blip.retryable);
    assert_eq!(blip.message, "la petición del webhook falló: connection refused");
    assert!(!transport_failure("tls", true).retryable);
    assert_eq!(bearer("synthetic-secret"), "Bearer synthetic-secret");
}

#[test]
fn sink_failures_do_not_stop_other_sinks() {
    let delivered = AtomicUsize::new(0);
    let counter = CountsDeliveries(&delivered);
    let sinks: Vec<&dyn Sink> = vec![&AlwaysFails, &counter];

    let report = deliver_all(&sinks, &record("ISOLATED"));

    assert_eq!(delivered.load(Ordering::SeqCst), 1);
    assert_eq!(report.delivered, 1);
    assert_eq!(report.failures.len(), 1);
    assert_eq!(report.failures[0].sink, "always-fails");
    assert_eq!(report.failures[0].message, "entrega fallida: synthetic failure");
}

#[derive(Debug)]
struct AlwaysFails;

impl Sink for AlwaysFails {
    fn name(&self) -> &'static str {
        "always-fails"
    }

    fn deliver(&self, _: &ReadRecord) -> Result<(), OutputError> {
        Err(OutputError::Delivery("synthetic failure".to_owned()))
    }
}

#[derive(Debug)]
struct CountsDeliveries<'a>(&'a AtomicUsize);

impl Sink for CountsDeliveries<'_> {
    fn name(&self) -> &'static str {
        "counter"
    }

    fn deliver(&self, _: &ReadRecord) -> Result<(), OutputError> {
        self.0.fetch_add(1, Ordering::SeqCst);
        Ok(())
    }
}

#[test]
fn csv_cells_that_start_a_formula_are_neutralised() {
    assert_eq!(protect_csv("=CMD(\"synthetic\")"), "'=CMD(\"synthetic\")");
    assert_eq!(protect_csv("+34"), "'+34");
    assert_eq!(protect_csv("-1"), "'-1");
    assert_eq!(protect_csv("@SUM"), "'@SUM");
    assert_eq!(protect_csv("\tx"), "'\tx");
    assert_eq!(protect_csv("\rx"), "'\rx");
    assert_eq!(protect_csv("ANA"), "ANA");
    assert_eq!(protect_csv(""), "");
    assert_eq!(protect_csv("A=B"), "A=B");
}

#[test]
fn csv_row_has_the_28_columns_of_the_header() {
    let header = csv_header();
    let row = csv_row(&record("SECOND"));

    assert_eq!(header.len(), 28);
    assert_eq!(row.len(), 28);
    assert_eq!(header[0], "schema_version");
    assert_eq!(header[27], "integrity_dg13_hash");
    let address = header.iter().position(|value| value == "direccion").unwrap();
    assert_eq!(row[address], "'=CMD(\"synthetic\")");
    assert_eq!(row[6], "SECOND");
    assert_eq!(row[0], "1");
    assert_eq!(row[1], "9f142e2c-f4ec-47e5-b8cc-1bbfe49118a7");
    assert_eq!(row[2], "2026-09-04T12:34:56+02:00");
    assert_eq!(row[3], "Synthetic reader");
    assert_eq!(row[4], "DNIe_DG13");
    assert_eq!(row[5], "verified");
    assert_eq!(row[10], "00000000T");
    assert_eq!(row[27], "verified");
}

#[test]
fn a_header_is_written_only_to_a_new_or_empty_file() {
    assert!(needs_header(None));
    assert!(needs_header(Some(0)));
    assert!(!needs_header(Some(120)));
}

#[test]
fn output_errors_are_worded_in_spanish() {
    assert_eq!(
        OutputError::Configuration("x".to_owned()).to_string(),
        "configuración de salida no válida: x"
    );
    let io = OutputError::Io(std::io::Error::other("disk full")).to_string();
    assert!(io.starts_with("error de E/S: "));
    assert!(io.contains("disk full"));
}

#[test]
fn each_answer_is_tallied_in_order() {
    let mut report = DeliveryReport::new();
    record_answer(&mut report, "stdout", Ok(()));
    record_answer(
        &mut report,
        "webhook",
        Err(OutputError::Delivery("el webhook devolvió HTTP 503".to_owned())),
    );
    record_answer(&mut report, "csv", Ok(()));
    record_answer(
        &mut report,
        "json",
        Err(OutputError::Configuration("ruta vacía".to_owned())),
    );

    assert_eq!(report.delivered, 2);
    assert_eq!(report.failures.len(), 2);
    assert_eq!(report.failures[0].sink, "webhook");
    assert_eq!(
        report.failures[0].message,
        "entrega fallida: el webhook devolvió HTTP 503"
    );
    assert_eq!(report.failures[1].sink, "json");
    assert_eq!(
        report.failures[1].message,
        "configuración de salida no válida: ruta vacía"
    );
}

#[test]
fn every_sink_is_offered_the_record_once() {
    let delivered = AtomicUsize::new(0);
    let counter = CountsDeliveries(&delivered);
    let sinks: Vec<&dyn Sink> = vec![&counter, &AlwaysFails, &counter];

    let report = deliver_all(&sinks, &record("TWICE"));

    assert_eq!(delivered.load(Ordering::SeqCst), 2);
    assert_eq!(report.delivered, 2);
    assert_eq!(report.failures.len(), 1);
    assert_eq!(report.failures[0].sink, "always-fails");
}

#[test]
fn no_sinks_make_an_empty_report() {
    let report = deliver_all(&[], &record("NOBODY"));
    assert_eq!(report.delivered, 0);
    assert!(report.failures.is_empty());
}

#[test]
fn loopback_addresses_may_use_plain_http() {
    let parts = parse_webhook_url("http://[::1]:8080/hook").unwrap();
    assert_eq!(parts.host, Some(UrlHost::Ipv6([0, 0, 0, 0, 0, 0, 0, 1])));
    assert!(check_webhook_url(Some(parts)).is_ok());
    assert!(check_webhook_url(parse_webhook_url("http://127.1.2.3/hook")).is_ok());
    assert!(check_webhook_url(parse_webhook_url("http://[::2]/hook")).is_err());
    assert!(check_webhook_url(parse_webhook_url("http://128.0.0.1/hook")).is_err());
    assert!(check_webhook_url(parse_webhook_url("http://127.evil.example/hook")).is_err());
    assert_eq!(
        parse_webhook_url("http://10.0.0.7/").unwrap().host,
        Some(UrlHost::Ipv4([10, 0, 0, 7]))
    );
}

fn deliver_statuses(statuses: &[u16]) -> (Result<(), OutputError>, Vec<u8>, usize) {
    let mut posts = Vec::new();
    let mut pauses = 0;
    let outcome = deliver_with_retries(
        |attempt| {
            posts.push(attempt);
            status_outcome(statuses[posts.len() - 1])
        },
        |_, _| pauses += 1,
    );
    (outcome, posts, pauses)
}

#[test]
fn a_server_error_is_posted_again_and_then_delivered() {
    let (outcome, posts, pauses) = deliver_statuses(&[503, 204]);
    assert!(outcome.is_ok());
    assert_eq!(posts, vec![1, 2]);
    assert_eq!(pauses, 1);
}

#[test]
fn an_unauthorised_answer_is_not_posted_again() {
    let (outcome, posts, pauses) = deliver_statuses(&[401, 204]);
    let error = outcome.unwrap_err();
    assert_eq!(posts, vec![1]);
    assert_eq!(pauses, 0);
    assert_eq!(error.to_string(), "entrega fallida: el webhook devolvió HTTP 401");
}

#[test]
fn a_webhook_is_posted_at_most_three_times() {
    let (outcome, posts, pauses) = deliver_statuses(&[503, 502, 500, 204]);
    assert_eq!(posts, vec![1, 2, 3]);
    assert_eq!(pauses, 2);
    assert_eq!(
        outcome.unwrap_err().to_string(),
        "entrega fallida: el webhook devolvió HTTP 500"
    );
}
