use simple_lector_dni::app::{
    after_cycle, read_cycle, AfterCycle, SessionMode, cycle_outcome, delivery_progress, describe, failure_progress, read_error, timed_out,
    waiting_for, AppError, Progress,
};
use simple_lector_dni::reader::{ReaderInfo, ReaderPresence};
use simple_lector_dni::engine::{DniEngine, EngineFailure, EngineRead};
use simple_lector_dni::engine_protocol::{DocumentData, IntegrityResult};
use simple_lector_dni::lifecycle::RetryFailure;
use simple_lector_dni::model::ReadRecord;
use simple_lector_dni::output::{DeliveryFailure, DeliveryReport, OutputError, Sink};

const READER: &str = "Generic EMV Smartcard Reader";

#[test]
fn progress_wording_is_spanish_and_never_carries_document_fields() {
    let text = describe(&Progress::Reading {
        reader: READER.to_owned(),
        attempt: 2,
        attempts: 3,
    });

    assert_eq!(
        text,
        "Leyendo el DNIe en «Generic EMV Smartcard Reader» (intento 2 de 3)..."
    );
}

#[test]
fn every_progress_event_has_its_wording() {
    assert_eq!(describe(&Progress::Idle), "En espera");
    assert_eq!(
        describe(&Progress::WaitingForReader),
        "Esperando un lector de tarjetas..."
    );
    assert_eq!(
        describe(&Progress::WaitingForCard {
            reader: READER.to_owned()
        }),
        "Inserte el DNIe en «Generic EMV Smartcard Reader»..."
    );
    assert_eq!(
        describe(&Progress::Delivered {
            reader: READER.to_owned(),
            delivered: 12
        }),
        "Lectura de «Generic EMV Smartcard Reader» entregada a 12 salida(s)"
    );
    assert_eq!(
        describe(&Progress::WaitingForRemoval {
            reader: READER.to_owned()
        }),
        "Retire el DNIe de «Generic EMV Smartcard Reader»"
    );
    assert_eq!(
        describe(&Progress::ReadFailed {
            attempts: 3,
            code: "TRANSIENT".to_owned()
        }),
        "La lectura falló tras 3 intento(s), código TRANSIENT"
    );
    assert_eq!(
        describe(&Progress::OutputFailed {
            sink: "webhook",
            message: "entrega fallida: el webhook devolvió HTTP 503".to_owned()
        }),
        "Salida webhook fallida: entrega fallida: el webhook devolvió HTTP 503"
    );
    assert_eq!(
        describe(&Progress::MonitorFailed {
            message: "PC/SC error: stopped".to_owned()
        }),
        "El servicio PC/SC no responde: PC/SC error: stopped"
    );
    assert_eq!(
        describe(&Progress::MonitorRecovered),
        "Servicio PC/SC recuperado"
    );
}

#[test]
fn app_errors_are_worded_without_document_data() {
    assert_eq!(
        AppError::Delivery(1).to_string(),
        "1 salida(s) fallaron"
    );
    assert_eq!(
        AppError::Timeout(60).to_string(),
        "no se insertó ningún DNIe en 60 segundos"
    );
    assert_eq!(
        AppError::Read {
            attempts: 3,
            code: "CARD_READ_FAILED".to_owned()
        }
        .to_string(),
        "la lectura del DNIe falló tras 3 intento(s), código CARD_READ_FAILED"
    );
    assert_eq!(
        AppError::Engine(EngineFailure::new("ENGINE_NOT_FOUND", false)).to_string(),
        "no se pudo iniciar el motor del DNIe: error del motor (ENGINE_NOT_FOUND)"
    );
    assert_eq!(
        AppError::Output(OutputError::Delivery("el webhook devolvió HTTP 503".to_owned()))
            .to_string(),
        "error de salida: entrega fallida: el webhook devolvió HTTP 503"
    );
}

#[test]
fn exhausted_retries_become_a_read_error_with_the_last_code() {
    let error = read_error(RetryFailure {
        attempts: 3,
        last_error: EngineFailure::new("TRANSIENT", true),
    });

    match error {
        AppError::Read { attempts, code } => {
            assert_eq!(attempts, 3);
            assert_eq!(code, "TRANSIENT");
        }
        other => panic!("unexpected {other:?}"),
    }
}

fn record() -> ReadRecord {
    ReadRecord::new(
        0,
        "2026-09-04T12:34:56+02:00".to_owned(),
        READER.to_owned(),
        DocumentData::default(),
        IntegrityResult::verified(),
    )
}

#[test]
fn a_cycle_with_a_failed_output_is_an_error_counting_the_failures() {
    let report = DeliveryReport {
        delivered: 1,
        failures: vec![DeliveryFailure {
            sink: "webhook",
            message: "entrega fallida: el webhook devolvió HTTP 503".to_owned(),
        }],
    };

    let error = cycle_outcome(record(), &report).unwrap_err();
    assert!(error.to_string().contains("1 salida(s)"), "{}", error.to_string());
}

#[test]
fn a_cycle_whose_outputs_all_succeeded_returns_the_record() {
    let report = DeliveryReport {
        delivered: 2,
        failures: vec![],
    };

    let kept = cycle_outcome(record(), &report).unwrap();
    assert_eq!(kept, record());
}

#[test]
fn the_operator_waits_for_a_reader_then_for_a_card() {
    assert_eq!(waiting_for(&None), Progress::WaitingForReader);
    let reader = ReaderInfo {
        index: 0,
        name: READER.to_owned(),
        presence: ReaderPresence::Empty,
        event_count: 0,
    };
    assert_eq!(
        waiting_for(&Some(reader)),
        Progress::WaitingForCard {
            reader: READER.to_owned()
        }
    );
}

#[test]
fn once_times_out_only_with_a_limit() {
    assert!(timed_out(0, Some(0)));
    assert!(!timed_out(59, Some(60)));
    assert!(timed_out(60, Some(60)));
    assert!(!timed_out(u64::MAX, None));
}

#[test]
fn delivery_news_names_every_failed_output_or_the_delivery() {
    let failed = DeliveryReport {
        delivered: 1,
        failures: vec![
            DeliveryFailure {
                sink: "webhook",
                message: "entrega fallida: el webhook devolvió HTTP 503".to_owned(),
            },
            DeliveryFailure {
                sink: "csv",
                message: "error de E/S: disk full".to_owned(),
            },
        ],
    };
    assert_eq!(
        delivery_progress(READER, &failed),
        vec![
            Progress::OutputFailed {
                sink: "webhook",
                message: "entrega fallida: el webhook devolvió HTTP 503".to_owned()
            },
            Progress::OutputFailed {
                sink: "csv",
                message: "error de E/S: disk full".to_owned()
            }
        ]
    );

    let delivered = DeliveryReport {
        delivered: 3,
        failures: vec![],
    };
    assert_eq!(
        delivery_progress(READER, &delivered),
        vec![Progress::Delivered {
            reader: READER.to_owned(),
            delivered: 3
        }]
    );
}

#[test]
fn only_exhausted_reads_are_reported_as_failed_reads() {
    assert_eq!(
        failure_progress(&AppError::Read {
            attempts: 3,
            code: "TRANSIENT".to_owned()
        }),
        Some(Progress::ReadFailed {
            attempts: 3,
            code: "TRANSIENT".to_owned()
        })
    );
    assert_eq!(failure_progress(&AppError::Delivery(1)), None);
}

#[test]
fn a_successful_once_session_ends_without_error() {
    assert!(matches!(
        after_cycle(SessionMode::Once, Ok(record())),
        AfterCycle::Finish(Ok(()))
    ));
    assert!(matches!(
        after_cycle(SessionMode::Watch, Ok(record())),
        AfterCycle::KeepWatching
    ));
}

#[derive(Default)]
struct SucceedsOnThird {
    reads: std::sync::atomic::AtomicUsize,
}

impl DniEngine for SucceedsOnThird {
    fn read(&self, _: &ReaderInfo) -> Result<EngineRead, EngineFailure> {
        if self.reads.fetch_add(1, std::sync::atomic::Ordering::SeqCst) < 2 {
            return Err(EngineFailure::new("TRANSIENT", true));
        }
        Ok(EngineRead {
            document: DocumentData {
                nombre: "ANA".to_owned(),
                ..DocumentData::default()
            },
            integrity: IntegrityResult::verified(),
        })
    }
}

struct RefusesCard;

impl DniEngine for RefusesCard {
    fn read(&self, _: &ReaderInfo) -> Result<EngineRead, EngineFailure> {
        Err(EngineFailure::new("UNSUPPORTED_CARD", false))
    }
}

#[derive(Default)]
struct Counter {
    deliveries: std::sync::atomic::AtomicUsize,
}

impl Sink for Counter {
    fn name(&self) -> &'static str {
        "counter"
    }

    fn deliver(&self, _: &ReadRecord) -> Result<(), OutputError> {
        self.deliveries.fetch_add(1, std::sync::atomic::Ordering::SeqCst);
        Ok(())
    }
}

struct Refuses;

impl Sink for Refuses {
    fn name(&self) -> &'static str {
        "webhook"
    }

    fn deliver(&self, _: &ReadRecord) -> Result<(), OutputError> {
        Err(OutputError::Delivery("el webhook devolvió HTTP 503".to_owned()))
    }
}

fn test_reader() -> ReaderInfo {
    ReaderInfo {
        index: 0,
        name: "Synthetic reader".to_owned(),
        presence: ReaderPresence::Present,
        event_count: 0,
    }
}

#[test]
fn a_read_cycle_retries_then_delivers_once() {
    let engine = SucceedsOnThird::default();
    let sink = Counter::default();
    let reported = std::cell::RefCell::new(Vec::new());
    let pauses = std::cell::Cell::new(0);

    let record = read_cycle(
        &engine,
        &test_reader(),
        &[&sink],
        3,
        |progress| reported.borrow_mut().push(progress),
        |_, _| pauses.set(pauses.get() + 1),
    )
    .unwrap();

    assert_eq!(record.document.nombre, "ANA");
    assert_eq!(record.reader, "Synthetic reader");
    assert_eq!(sink.deliveries.load(std::sync::atomic::Ordering::SeqCst), 1);
    assert_eq!(pauses.get(), 2);
    let attempts: Vec<u8> = reported
        .borrow()
        .iter()
        .filter_map(|p| match p {
            Progress::Reading { attempt, .. } => Some(*attempt),
            _ => None,
        })
        .collect();
    assert_eq!(attempts, vec![1, 2, 3]);
    assert!(reported
        .borrow()
        .iter()
        .any(|p| matches!(p, Progress::Delivered { delivered: 1, .. })));
}

#[test]
fn a_refused_card_reaches_no_output() {
    let sink = Counter::default();
    let outcome = read_cycle(&RefusesCard, &test_reader(), &[&sink], 3, |_| {}, |_, _| {});

    assert!(matches!(
        outcome,
        Err(AppError::Read { attempts: 1, ref code }) if code == "UNSUPPORTED_CARD"
    ));
    assert_eq!(sink.deliveries.load(std::sync::atomic::Ordering::SeqCst), 0);
}

#[test]
fn a_failed_output_fails_the_cycle_after_the_others_took_the_read() {
    let engine = SucceedsOnThird::default();
    let sink = Counter::default();
    let outcome = read_cycle(&engine, &test_reader(), &[&Refuses, &sink], 3, |_| {}, |_, _| {});

    let error = outcome.unwrap_err();
    assert!(matches!(error, AppError::Delivery(1)));
    assert!(error.to_string().contains("1 salida(s)"));
    assert_eq!(sink.deliveries.load(std::sync::atomic::Ordering::SeqCst), 1);
}
