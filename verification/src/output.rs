//! Where records go: the sink interface, the isolation of failing sinks, and the CSV
//! row with its protection against spreadsheet formulas.
use vstd::prelude::*;
use vstd::string::to_string_from_display_ensures;
use crate::engine_protocol::DocumentData;
use crate::model::{uuid_text, ReadRecord};
use crate::text::{decimal, decimal_text, push_char, push_text};

verus! {

#[verifier::external_type_specification]
#[verifier::external_body]
pub struct ExIoError(std::io::Error);

#[verifier::external_type_specification]
#[verifier::external_body]
pub struct ExJsonError(serde_json::Error);

#[verifier::external_type_specification]
#[verifier::external_body]
pub struct ExCsvError(csv::Error);

#[verifier::external_type_specification]
#[verifier::external_body]
pub struct ExPathBuf(std::path::PathBuf);

#[derive(Debug)]
pub enum OutputError {
    Io(std::io::Error),
    Json(serde_json::Error),
    Csv(csv::Error),
    Configuration(String),
    Delivery(String),
}

/// The message of an error whose cause is the library's own.
pub open spec fn own_output_error_text(e: OutputError) -> Option<Seq<char>> {
    match e {
        OutputError::Configuration(m) => Some("configuración de salida no válida: "@ + m@),
        OutputError::Delivery(m) => Some("entrega fallida: "@ + m@),
        _ => None,
    }
}

/// The first words of each message.
pub open spec fn output_error_prefix(e: OutputError) -> Seq<char> {
    match e {
        OutputError::Io(_) => "error de E/S: "@,
        OutputError::Json(_) => "fallo de serialización JSON: "@,
        OutputError::Csv(_) => "fallo de escritura CSV: "@,
        OutputError::Configuration(_) => "configuración de salida no válida: "@,
        OutputError::Delivery(_) => "entrega fallida: "@,
    }
}

/// `c` is the text that the error's cause gives: the `Display` text of an I/O, JSON or
/// CSV error, or the library's own detail.
pub open spec fn cause_text(e: OutputError, c: Seq<char>) -> bool {
    match e {
        OutputError::Io(x) => exists|t: String|
            t@ == c && #[trigger] to_string_from_display_ensures::<std::io::Error>(&x, t),
        OutputError::Json(x) => exists|t: String|
            t@ == c && #[trigger] to_string_from_display_ensures::<serde_json::Error>(&x, t),
        OutputError::Csv(x) => exists|t: String|
            t@ == c && #[trigger] to_string_from_display_ensures::<csv::Error>(&x, t),
        OutputError::Configuration(m) => c == m@,
        OutputError::Delivery(m) => c == m@,
    }
}

impl OutputError {
    /// The message of the error: the prefix of its kind followed by the text of its
    /// cause.
    pub fn to_string(&self) -> (r: String)
        ensures
            message_of(*self, r@),
            own_output_error_text(*self) matches Some(t) ==> r@ == t,
    {
        let (mut s, cause) = match self {
            OutputError::Io(e) => {
                let c = e.to_string();
                assert(cause_text(*self, c@));
                ("error de E/S: ".to_owned(), c)
            },
            OutputError::Json(e) => {
                let c = e.to_string();
                assert(cause_text(*self, c@));
                ("fallo de serialización JSON: ".to_owned(), c)
            },
            OutputError::Csv(e) => {
                let c = e.to_string();
                assert(cause_text(*self, c@));
                ("fallo de escritura CSV: ".to_owned(), c)
            },
            OutputError::Configuration(m) => ("configuración de salida no válida: ".to_owned(), m.clone()),
            OutputError::Delivery(m) => ("entrega fallida: ".to_owned(), m.clone()),
        };
        assert(cause_text(*self, cause@));
        push_text(&mut s, cause.as_str());
        s
    }
}

/// A destination of records. Each sink decides whether a delivery succeeds.
pub trait Sink {
    fn name(&self) -> &'static str;

    fn deliver(&self, record: &ReadRecord) -> Result<(), OutputError>;
}

#[derive(Debug, PartialEq, Eq)]
pub struct DeliveryFailure {
    pub sink: &'static str,
    pub message: String,
}

#[derive(Debug, PartialEq, Eq)]
pub struct DeliveryReport {
    pub delivered: usize,
    pub failures: Vec<DeliveryFailure>,
}

impl DeliveryReport {
    pub fn new() -> (r: Self)
        ensures
            r.delivered == 0,
            r.failures@.len() == 0,
    {
        DeliveryReport { delivered: 0, failures: Vec::new() }
    }
}

/// `m` is what `OutputError::to_string` writes for `e`: the prefix of its kind followed
/// by the text of its cause.
pub open spec fn message_of(e: OutputError, m: Seq<char>) -> bool {
    exists|c: Seq<char>| #[trigger] cause_text(e, c) && m == output_error_prefix(e) + c
}

/// The failing answers, in order: each sink's name with the error it returned.
pub open spec fn failed_answers(answers: Seq<(&'static str, Result<(), OutputError>)>) -> Seq<
    (&'static str, OutputError),
>
    decreases answers.len(),
{
    if answers.len() == 0 {
        Seq::empty()
    } else {
        match answers.last().1 {
            Ok(_) => failed_answers(answers.drop_last()),
            Err(e) => failed_answers(answers.drop_last()).push((answers.last().0, e)),
        }
    }
}

/// The report of these answers: the successful deliveries are counted, and each
/// failing sink is listed in order with the message of its error.
pub open spec fn tallies(
    answers: Seq<(&'static str, Result<(), OutputError>)>,
    report: DeliveryReport,
) -> bool {
    let failed = failed_answers(answers);
    &&& report.delivered + failed.len() == answers.len()
    &&& report.failures@.len() == failed.len()
    &&& forall|k: int|
        0 <= k < failed.len() ==> #[trigger] report.failures@[k].sink == failed[k].0 && message_of(
            failed[k].1,
            report.failures@[k].message@,
        )
}

/// Adds what one sink answered to a report.
pub fn record_answer(
    report: &mut DeliveryReport,
    sink: &'static str,
    outcome: Result<(), OutputError>,
)
    requires
        old(report).delivered < usize::MAX,
    ensures
        outcome is Ok ==> final(report).delivered == old(report).delivered + 1
            && final(report).failures@ == old(report).failures@,
        outcome matches Err(e) ==> {
            &&& final(report).delivered == old(report).delivered
            &&& final(report).failures@.len() == old(report).failures@.len() + 1
            &&& final(report).failures@.subrange(0, old(report).failures@.len() as int)
                == old(report).failures@
            &&& final(report).failures@.last().sink == sink
            &&& message_of(e, final(report).failures@.last().message@)
        },
{
    match outcome {
        Ok(()) => {
            report.delivered = report.delivered + 1;
        },
        Err(error) => {
            let message = error.to_string();
            report.failures.push(DeliveryFailure { sink, message });
            assert(report.failures@.subrange(0, report.failures@.len() - 1) =~= old(
                report,
            ).failures@);
        },
    }
}

/// `outcome` is an answer that `sink` gives when offered `record`.
pub open spec fn offered<S: Sink + ?Sized>(
    sink: &S,
    record: &ReadRecord,
    outcome: Result<(), OutputError>,
) -> bool {
    call_ensures(S::deliver, (sink, record), outcome)
}

/// `name` is a name that `sink` gives itself.
pub open spec fn named<S: Sink + ?Sized>(sink: &S, name: &'static str) -> bool {
    call_ensures(S::name, (sink,), name)
}

/// `answers` holds, for each sink in order, its name and the answer it gave when
/// offered `record`.
pub open spec fn answers_of(
    sinks: Seq<&dyn Sink>,
    record: &ReadRecord,
    answers: Seq<(&'static str, Result<(), OutputError>)>,
) -> bool {
    &&& answers.len() == sinks.len()
    &&& forall|i: int|
        0 <= i < sinks.len() ==> named(sinks[i], #[trigger] answers[i].0) && offered(
            sinks[i],
            record,
            answers[i].1,
        )
}

fn offer<S: Sink + ?Sized>(sink: &S, record: &ReadRecord) -> (r: Result<(), OutputError>)
    ensures
        offered(sink, record, r),
{
    sink.deliver(record)
}

fn name_of<S: Sink + ?Sized>(sink: &S) -> (r: &'static str)
    ensures
        named(sink, r),
{
    sink.name()
}

/// Offers the record to every sink in turn; a failing sink does not stop the others.
/// The report tallies the sinks' answers, one per sink, in the order of the sinks.
pub fn deliver_all(sinks: &[&dyn Sink], record: &ReadRecord) -> (r: DeliveryReport)
    ensures
        exists|answers: Seq<(&'static str, Result<(), OutputError>)>|
            answers_of(sinks@, record, answers) && #[trigger] tallies(answers, r),
{
    let mut report = DeliveryReport::new();
    let ghost mut answers: Seq<(&'static str, Result<(), OutputError>)> = Seq::empty();
    let mut i: usize = 0;
    while i < sinks.len()
        invariant
            i <= sinks@.len(),
            answers.len() == i,
            forall|j: int|
                0 <= j < i ==> named(sinks@[j], #[trigger] answers[j].0) && offered(
                    sinks@[j],
                    record,
                    answers[j].1,
                ),
            tallies(answers, report),
        decreases sinks@.len() - i,
    {
        let sink = sinks[i];
        let outcome = offer(sink, record);
        let name = name_of(sink);
        let ghost before = report;
        let ghost answer = (name, outcome);
        let ghost previous = answers;
        record_answer(&mut report, name, outcome);
        proof {
            answers = answers.push(answer);
            assert(answers.drop_last() =~= previous);
            assert(answers.last() == answer);
            assert forall|j: int| 0 <= j < i + 1 implies named(sinks@[j], #[trigger] answers[j].0)
                && offered(sinks@[j], record, answers[j].1) by {
                if j < i {
                    assert(answers[j] == previous[j]);
                }
            }
            let failed = failed_answers(answers);
            let old_failed = failed_answers(previous);
            assert forall|k: int| 0 <= k < failed.len() implies #[trigger] report.failures@[k].sink
                == failed[k].0 && message_of(failed[k].1, report.failures@[k].message@) by {
                if k < old_failed.len() {
                    assert(failed[k] == old_failed[k]);
                    assert(report.failures@[k] == report.failures@.subrange(
                        0,
                        before.failures@.len() as int,
                    )[k]);
                    assert(before.failures@[k].sink == old_failed[k].0);
                }
            }
        }
        i = i + 1;
    }
    report
}

/// A CSV cell whose first character a spreadsheet would read as a formula.
pub open spec fn formula_lead(c: char) -> bool {
    c == '=' || c == '+' || c == '-' || c == '@' || c == '\t' || c == '\r'
}

/// A cell as written: a formula lead is neutralised by a leading apostrophe.
pub open spec fn protected(s: Seq<char>) -> Seq<char> {
    if s.len() > 0 && formula_lead(s[0]) {
        seq!['\''] + s
    } else {
        s
    }
}

pub fn protect_csv(value: &str) -> (r: String)
    ensures
        r@ == protected(value@),
{
    if value.unicode_len() > 0 {
        let c = value.get_char(0);
        if c == '=' || c == '+' || c == '-' || c == '@' || c == '\t' || c == '\r' {
            let mut s = String::new();
            push_char(&mut s, '\'');
            push_text(&mut s, value);
            assert(s@ =~= seq!['\''] + value@);
            return s;
        }
    }
    value.to_owned()
}

/// A protected cell never starts a formula, and keeps the whole value after the
/// apostrophe it may add.
pub proof fn lemma_protected_is_inert(s: Seq<char>)
    ensures
        protected(s).len() > 0 ==> !formula_lead(protected(s)[0]),
        protected(s) == s || protected(s) == seq!['\''] + s,
        protected(protected(s)) == protected(s),
{
}

pub open spec fn csv_header_spec() -> Seq<Seq<char>> {
    seq![
        "schema_version"@,
        "read_id"@,
        "read_at"@,
        "reader"@,
        "source"@,
        "integrity_sod_signature"@,
        "nombre"@,
        "primer_apellido"@,
        "segundo_apellido"@,
        "apellidos"@,
        "dni"@,
        "dni_formateado"@,
        "fecha_nacimiento"@,
        "nacionalidad"@,
        "fecha_caducidad"@,
        "numero_soporte"@,
        "sexo"@,
        "ciudad_nacimiento"@,
        "provincia_nacimiento"@,
        "pais_nacimiento"@,
        "nombres_progenitores"@,
        "direccion"@,
        "localidad"@,
        "provincia"@,
        "pais"@,
        "version_dnie"@,
        "serial_chip"@,
        "integrity_dg13_hash"@,
    ]
}

pub open spec fn views(v: Seq<String>) -> Seq<Seq<char>> {
    v.map_values(|s: String| s@)
}

/// The 28 column names, in order.
pub fn csv_header() -> (r: Vec<String>)
    ensures
        views(r@) == csv_header_spec(),
{
    let names: [&str; 28] = [
        "schema_version",
        "read_id",
        "read_at",
        "reader",
        "source",
        "integrity_sod_signature",
        "nombre",
        "primer_apellido",
        "segundo_apellido",
        "apellidos",
        "dni",
        "dni_formateado",
        "fecha_nacimiento",
        "nacionalidad",
        "fecha_caducidad",
        "numero_soporte",
        "sexo",
        "ciudad_nacimiento",
        "provincia_nacimiento",
        "pais_nacimiento",
        "nombres_progenitores",
        "direccion",
        "localidad",
        "provincia",
        "pais",
        "version_dnie",
        "serial_chip",
        "integrity_dg13_hash",
    ];
    let mut r: Vec<String> = Vec::new();
    let mut i: usize = 0;
    while i < 28
        invariant
            i <= 28,
            r@.len() == i,
            names@.map_values(|s: &str| s@) == csv_header_spec(),
            views(r@) == names@.map_values(|s: &str| s@).subrange(0, i as int),
        decreases 28 - i,
    {
        let ghost before = r@;
        let cell = names[i].to_owned();
        r.push(cell);
        proof {
            let all = names@.map_values(|s: &str| s@);
            assert(all[i as int] == names@[i as int]@);
            assert(r@ == before.push(cell));
            assert forall|k: int| 0 <= k < i + 1 implies #[trigger] views(r@)[k] == all.subrange(0, i as int + 1)[k] by {
                if k < i {
                    assert(views(r@)[k] == r@[k]@);
                    assert(r@[k] == before[k]);
                    assert(views(before)[k] == before[k]@);
                }
            }
            assert(views(r@) =~= all.subrange(0, i as int + 1));
        }
        i = i + 1;
    }
    r
}

/// The protected document cells, in contract order.
pub open spec fn document_cells(d: DocumentData) -> Seq<Seq<char>> {
    d.fields().map_values(|f: Seq<char>| protected(f))
}

/// The CSV row of a record, column for column under `csv_header_spec`.
pub open spec fn csv_row_spec(r: ReadRecord) -> Seq<Seq<char>> {
    seq![
        decimal(r.schema_version as nat),
        uuid_text(r.read_id),
        r.read_at@,
        protected(r.reader@),
        r.source@,
        "verified"@,
    ] + document_cells(r.document) + seq!["verified"@]
}

/// The document field that a column of the CSV header names, by its name.
pub open spec fn document_field(d: DocumentData, column: Seq<char>) -> Option<Seq<char>> {
    if column == "nombre"@ {
        Some(d.nombre@)
    } else if column == "primer_apellido"@ {
        Some(d.primer_apellido@)
    } else if column == "segundo_apellido"@ {
        Some(d.segundo_apellido@)
    } else if column == "apellidos"@ {
        Some(d.apellidos@)
    } else if column == "dni"@ {
        Some(d.dni@)
    } else if column == "dni_formateado"@ {
        Some(d.dni_formateado@)
    } else if column == "fecha_nacimiento"@ {
        Some(d.fecha_nacimiento@)
    } else if column == "nacionalidad"@ {
        Some(d.nacionalidad@)
    } else if column == "fecha_caducidad"@ {
        Some(d.fecha_caducidad@)
    } else if column == "numero_soporte"@ {
        Some(d.numero_soporte@)
    } else if column == "sexo"@ {
        Some(d.sexo@)
    } else if column == "ciudad_nacimiento"@ {
        Some(d.ciudad_nacimiento@)
    } else if column == "provincia_nacimiento"@ {
        Some(d.provincia_nacimiento@)
    } else if column == "pais_nacimiento"@ {
        Some(d.pais_nacimiento@)
    } else if column == "nombres_progenitores"@ {
        Some(d.nombres_progenitores@)
    } else if column == "direccion"@ {
        Some(d.direccion@)
    } else if column == "localidad"@ {
        Some(d.localidad@)
    } else if column == "provincia"@ {
        Some(d.provincia@)
    } else if column == "pais"@ {
        Some(d.pais@)
    } else if column == "version_dnie"@ {
        Some(d.version_dnie@)
    } else if column == "serial_chip"@ {
        Some(d.serial_chip@)
    } else {
        None
    }
}

/// Column by column, the CSV row matches its header: the cell under each document
/// column is the protected value of the document field of that name, the reader and
/// the instant stand under `reader` and `read_at`, and both integrity columns read
/// `verified`.
#[verifier::spinoff_prover]
pub proof fn lemma_row_matches_header(r: ReadRecord)
    ensures
        csv_row_spec(r).len() == csv_header_spec().len(),
        forall|k: int|
            6 <= k < 27 ==> (document_field(r.document, csv_header_spec()[k]) matches Some(f)
                && #[trigger] csv_row_spec(r)[k] == protected(f)),
        csv_header_spec()[2] == "read_at"@ && csv_row_spec(r)[2] == r.read_at@,
        csv_header_spec()[3] == "reader"@ && csv_row_spec(r)[3] == protected(r.reader@),
        csv_row_spec(r)[5] == "verified"@ && csv_row_spec(r)[27] == "verified"@,
{
    reveal_strlit("nombre");
    reveal_strlit("primer_apellido");
    reveal_strlit("segundo_apellido");
    reveal_strlit("apellidos");
    reveal_strlit("dni");
    reveal_strlit("dni_formateado");
    reveal_strlit("fecha_nacimiento");
    reveal_strlit("nacionalidad");
    reveal_strlit("fecha_caducidad");
    reveal_strlit("numero_soporte");
    reveal_strlit("sexo");
    reveal_strlit("ciudad_nacimiento");
    reveal_strlit("provincia_nacimiento");
    reveal_strlit("pais_nacimiento");
    reveal_strlit("nombres_progenitores");
    reveal_strlit("direccion");
    reveal_strlit("localidad");
    reveal_strlit("provincia");
    reveal_strlit("pais");
    reveal_strlit("version_dnie");
    reveal_strlit("serial_chip");
    let d = r.document;
    let row = csv_row_spec(r);
    assert(row.len() == 28);
    assert forall|k: int|
        6 <= k < 27 implies (document_field(d, csv_header_spec()[k]) matches Some(f)
            && #[trigger] row[k] == protected(f)) by {
        assert(row[k] == protected(d.fields()[k - 6]));
        if k == 6 {
            assert(csv_header_spec()[6] == "nombre"@);
            assert(document_field(d, "nombre"@) == Some(d.nombre@));
        } else if k == 7 {
            assert(csv_header_spec()[7] == "primer_apellido"@);
            assert(document_field(d, "primer_apellido"@) == Some(d.primer_apellido@));
        } else if k == 8 {
            assert(csv_header_spec()[8] == "segundo_apellido"@);
            assert(document_field(d, "segundo_apellido"@) == Some(d.segundo_apellido@));
        } else if k == 9 {
            assert(csv_header_spec()[9] == "apellidos"@);
            assert(document_field(d, "apellidos"@) == Some(d.apellidos@));
        } else if k == 10 {
            assert(csv_header_spec()[10] == "dni"@);
            assert(document_field(d, "dni"@) == Some(d.dni@));
        } else if k == 11 {
            assert(csv_header_spec()[11] == "dni_formateado"@);
            assert(document_field(d, "dni_formateado"@) == Some(d.dni_formateado@));
        } else if k == 12 {
            assert(csv_header_spec()[12] == "fecha_nacimiento"@);
            assert("fecha_nacimiento"@[0] != "segundo_apellido"@[0]);
            assert(document_field(d, "fecha_nacimiento"@) == Some(d.fecha_nacimiento@));
        } else if k == 13 {
            assert(csv_header_spec()[13] == "nacionalidad"@);
            assert(document_field(d, "nacionalidad"@) == Some(d.nacionalidad@));
        } else if k == 14 {
            assert(csv_header_spec()[14] == "fecha_caducidad"@);
            assert("fecha_caducidad"@[0] != "primer_apellido"@[0]);
            assert(document_field(d, "fecha_caducidad"@) == Some(d.fecha_caducidad@));
        } else if k == 15 {
            assert(csv_header_spec()[15] == "numero_soporte"@);
            assert("numero_soporte"@[0] != "dni_formateado"@[0]);
            assert(document_field(d, "numero_soporte"@) == Some(d.numero_soporte@));
        } else if k == 16 {
            assert(csv_header_spec()[16] == "sexo"@);
            assert(document_field(d, "sexo"@) == Some(d.sexo@));
        } else if k == 17 {
            assert(csv_header_spec()[17] == "ciudad_nacimiento"@);
            assert(document_field(d, "ciudad_nacimiento"@) == Some(d.ciudad_nacimiento@));
        } else if k == 18 {
            assert(csv_header_spec()[18] == "provincia_nacimiento"@);
            assert(document_field(d, "provincia_nacimiento"@) == Some(d.provincia_nacimiento@));
        } else if k == 19 {
            assert(csv_header_spec()[19] == "pais_nacimiento"@);
            assert("pais_nacimiento"@[1] != "primer_apellido"@[1]);
            assert("pais_nacimiento"@[0] != "fecha_caducidad"@[0]);
            assert(document_field(d, "pais_nacimiento"@) == Some(d.pais_nacimiento@));
        } else if k == 20 {
            assert(csv_header_spec()[20] == "nombres_progenitores"@);
            assert("nombres_progenitores"@[0] != "provincia_nacimiento"@[0]);
            assert(document_field(d, "nombres_progenitores"@) == Some(d.nombres_progenitores@));
        } else if k == 21 {
            assert(csv_header_spec()[21] == "direccion"@);
            assert("direccion"@[0] != "apellidos"@[0]);
            assert(document_field(d, "direccion"@) == Some(d.direccion@));
        } else if k == 22 {
            assert(csv_header_spec()[22] == "localidad"@);
            assert("localidad"@[0] != "apellidos"@[0]);
            assert("localidad"@[0] != "direccion"@[0]);
            assert(document_field(d, "localidad"@) == Some(d.localidad@));
        } else if k == 23 {
            assert(csv_header_spec()[23] == "provincia"@);
            assert("provincia"@[0] != "apellidos"@[0]);
            assert("provincia"@[0] != "direccion"@[0]);
            assert("provincia"@[0] != "localidad"@[0]);
            assert(document_field(d, "provincia"@) == Some(d.provincia@));
        } else if k == 24 {
            assert(csv_header_spec()[24] == "pais"@);
            assert("pais"@[0] != "sexo"@[0]);
            assert(document_field(d, "pais"@) == Some(d.pais@));
        } else if k == 25 {
            assert(csv_header_spec()[25] == "version_dnie"@);
            assert("version_dnie"@[0] != "nacionalidad"@[0]);
            assert(document_field(d, "version_dnie"@) == Some(d.version_dnie@));
        } else if k == 26 {
            assert(csv_header_spec()[26] == "serial_chip"@);
            assert("serial_chip"@.len() != "nombre"@.len());
            assert("serial_chip"@.len() != "primer_apellido"@.len());
            assert("serial_chip"@.len() != "segundo_apellido"@.len());
            assert("serial_chip"@.len() != "apellidos"@.len());
            assert("serial_chip"@.len() != "dni"@.len());
            assert("serial_chip"@.len() != "dni_formateado"@.len());
            assert("serial_chip"@.len() != "fecha_nacimiento"@.len());
            assert("serial_chip"@.len() != "nacionalidad"@.len());
            assert("serial_chip"@.len() != "fecha_caducidad"@.len());
            assert("serial_chip"@.len() != "numero_soporte"@.len());
            assert("serial_chip"@.len() != "sexo"@.len());
            assert("serial_chip"@.len() != "ciudad_nacimiento"@.len());
            assert("serial_chip"@.len() != "provincia_nacimiento"@.len());
            assert("serial_chip"@.len() != "pais_nacimiento"@.len());
            assert("serial_chip"@.len() != "nombres_progenitores"@.len());
            assert("serial_chip"@.len() != "direccion"@.len());
            assert("serial_chip"@.len() != "localidad"@.len());
            assert("serial_chip"@.len() != "provincia"@.len());
            assert("serial_chip"@.len() != "pais"@.len());
            assert("serial_chip"@.len() != "version_dnie"@.len());
            assert(document_field(d, "serial_chip"@) == Some(d.serial_chip@));
        }
    }
}

pub fn csv_row(record: &ReadRecord) -> (r: Vec<String>)
    ensures
        views(r@) == csv_row_spec(*record),
        r@.len() == csv_header_spec().len(),
{
    let d = &record.document;
    let mut row: Vec<String> = Vec::new();
    row.push(decimal_text(record.schema_version as u64));
    row.push(record.read_id_text());
    row.push(record.read_at.clone());
    row.push(protect_csv(record.reader.as_str()));
    row.push(record.source.clone());
    row.push(record.integrity.sod_signature.as_str().to_owned());
    row.push(protect_csv(d.nombre.as_str()));
    row.push(protect_csv(d.primer_apellido.as_str()));
    row.push(protect_csv(d.segundo_apellido.as_str()));
    row.push(protect_csv(d.apellidos.as_str()));
    row.push(protect_csv(d.dni.as_str()));
    row.push(protect_csv(d.dni_formateado.as_str()));
    row.push(protect_csv(d.fecha_nacimiento.as_str()));
    row.push(protect_csv(d.nacionalidad.as_str()));
    row.push(protect_csv(d.fecha_caducidad.as_str()));
    row.push(protect_csv(d.numero_soporte.as_str()));
    row.push(protect_csv(d.sexo.as_str()));
    row.push(protect_csv(d.ciudad_nacimiento.as_str()));
    row.push(protect_csv(d.provincia_nacimiento.as_str()));
    row.push(protect_csv(d.pais_nacimiento.as_str()));
    row.push(protect_csv(d.nombres_progenitores.as_str()));
    row.push(protect_csv(d.direccion.as_str()));
    row.push(protect_csv(d.localidad.as_str()));
    row.push(protect_csv(d.provincia.as_str()));
    row.push(protect_csv(d.pais.as_str()));
    row.push(protect_csv(d.version_dnie.as_str()));
    row.push(protect_csv(d.serial_chip.as_str()));
    row.push(record.integrity.dg13_hash.as_str().to_owned());
    assert(views(row@) =~= csv_row_spec(*record));
    row
}

/// A header row is written when the file is missing (`None`) or empty.
pub fn needs_header(existing_len: Option<u64>) -> (r: bool)
    ensures
        r == (existing_len is None || existing_len == Some(0u64)),
{
    match existing_len {
        None => true,
        Some(len) => len == 0,
    }
}

/// Appends one row per read to a CSV file, with a header when the file is new.
#[derive(Debug)]
pub struct CsvSink {
    path: std::path::PathBuf,
}

impl CsvSink {
    pub fn new(path: std::path::PathBuf) -> (r: Self)
        ensures
            r.path() == path,
    {
        CsvSink { path }
    }

    pub closed spec fn path(&self) -> std::path::PathBuf {
        self.path
    }

    pub fn file(&self) -> (r: &std::path::PathBuf)
        ensures
            *r == self.path(),
    {
        &self.path
    }
}

/// Replaces a JSON file with the latest record, atomically.
#[derive(Debug)]
pub struct JsonFileSink {
    path: std::path::PathBuf,
}

impl JsonFileSink {
    pub fn new(path: std::path::PathBuf) -> (r: Self)
        ensures
            r.path() == path,
    {
        JsonFileSink { path }
    }

    pub closed spec fn path(&self) -> std::path::PathBuf {
        self.path
    }

    pub fn file(&self) -> (r: &std::path::PathBuf)
        ensures
            *r == self.path(),
    {
        &self.path
    }
}

/// Appends each record as one line of JSON.
#[derive(Debug)]
pub struct JsonLinesSink {
    path: std::path::PathBuf,
}

impl JsonLinesSink {
    pub fn new(path: std::path::PathBuf) -> (r: Self)
        ensures
            r.path() == path,
    {
        JsonLinesSink { path }
    }

    pub closed spec fn path(&self) -> std::path::PathBuf {
        self.path
    }

    pub fn file(&self) -> (r: &std::path::PathBuf)
        ensures
            *r == self.path(),
    {
        &self.path
    }
}

} // verus!
