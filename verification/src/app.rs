//! The decisions of a reading session: which reader is watched, when a card is read,
//! what the operator is told and how a read cycle ends.
use vstd::prelude::*;
use crate::engine::{failure_text, DniEngine, EngineFailure, EngineRead};
use crate::lifecycle::{
    answers, next, retried, run_with_retries, CardLifecycle, LifecycleAction, LifecycleEvent,
    LifecycleState, RetryFailure, card_in_cycle,
};
use crate::model::{clock_reading, drawn_id, ReadRecord, DNI_SOURCE, READ_SCHEMA_VERSION};
use crate::output::{answers_of, deliver_all, message_of, tallies, DeliveryReport, OutputError, Sink};
use crate::reader::{
    is_ambiguous, name_matches, opt_view, reader_error_text, reader_matches, select_reader,
    selected_reader, ReaderError, ReaderEvent, ReaderInfo, ReaderPresence,
};
use crate::text::{decimal, push_decimal, push_text};

verus! {

/// What the session is doing, for the operator. No variant carries document data.
#[derive(Clone, Debug, PartialEq, Eq)]
pub enum Progress {
    Idle,
    WaitingForReader,
    WaitingForCard { reader: String },
    Reading { reader: String, attempt: u8, attempts: u8 },
    Delivered { reader: String, delivered: usize },
    WaitingForRemoval { reader: String },
    ReadFailed { attempts: u8, code: String },
    OutputFailed { sink: &'static str, message: String },
    MonitorFailed { message: String },
    MonitorRecovered,
}

/// The Spanish wording of each progress event.
pub open spec fn progress_text(p: Progress) -> Seq<char> {
    match p {
        Progress::Idle => "En espera"@,
        Progress::WaitingForReader => "Esperando un lector de tarjetas..."@,
        Progress::WaitingForCard { reader } => "Inserte el DNIe en «"@ + reader@ + "»..."@,
        Progress::Reading { reader, attempt, attempts } => "Leyendo el DNIe en «"@ + reader@
            + "» (intento "@ + decimal(attempt as nat) + " de "@ + decimal(attempts as nat)
            + ")..."@,
        Progress::Delivered { reader, delivered } => "Lectura de «"@ + reader@ + "» entregada a "@
            + decimal(delivered as nat) + " salida(s)"@,
        Progress::WaitingForRemoval { reader } => "Retire el DNIe de «"@ + reader@ + "»"@,
        Progress::ReadFailed { attempts, code } => "La lectura falló tras "@ + decimal(
            attempts as nat,
        ) + " intento(s), código "@ + code@,
        Progress::OutputFailed { sink, message } => "Salida "@ + sink@ + " fallida: "@ + message@,
        Progress::MonitorFailed { message } => "El servicio PC/SC no responde: "@ + message@,
        Progress::MonitorRecovered => "Servicio PC/SC recuperado"@,
    }
}

/// Words a progress event for the operator.
pub fn describe(progress: &Progress) -> (r: String)
    ensures
        r@ == progress_text(*progress),
{
    match progress {
        Progress::Idle => "En espera".to_owned(),
        Progress::WaitingForReader => "Esperando un lector de tarjetas...".to_owned(),
        Progress::WaitingForCard { reader } => {
            let mut s = "Inserte el DNIe en «".to_owned();
            push_text(&mut s, reader.as_str());
            push_text(&mut s, "»...");
            s
        },
        Progress::Reading { reader, attempt, attempts } => {
            let mut s = "Leyendo el DNIe en «".to_owned();
            push_text(&mut s, reader.as_str());
            push_text(&mut s, "» (intento ");
            push_decimal(&mut s, *attempt as u64);
            push_text(&mut s, " de ");
            push_decimal(&mut s, *attempts as u64);
            push_text(&mut s, ")...");
            s
        },
        Progress::Delivered { reader, delivered } => {
            let mut s = "Lectura de «".to_owned();
            push_text(&mut s, reader.as_str());
            push_text(&mut s, "» entregada a ");
            push_decimal(&mut s, *delivered as u64);
            push_text(&mut s, " salida(s)");
            s
        },
        Progress::WaitingForRemoval { reader } => {
            let mut s = "Retire el DNIe de «".to_owned();
            push_text(&mut s, reader.as_str());
            push_text(&mut s, "»");
            s
        },
        Progress::ReadFailed { attempts, code } => {
            let mut s = "La lectura falló tras ".to_owned();
            push_decimal(&mut s, *attempts as u64);
            push_text(&mut s, " intento(s), código ");
            push_text(&mut s, code.as_str());
            s
        },
        Progress::OutputFailed { sink, message } => {
            let mut s = "Salida ".to_owned();
            push_text(&mut s, sink);
            push_text(&mut s, " fallida: ");
            push_text(&mut s, message.as_str());
            s
        },
        Progress::MonitorFailed { message } => {
            let mut s = "El servicio PC/SC no responde: ".to_owned();
            push_text(&mut s, message.as_str());
            s
        },
        Progress::MonitorRecovered => "Servicio PC/SC recuperado".to_owned(),
    }
}

#[derive(Debug)]
pub enum AppError {
    Reader(ReaderError),
    Output(OutputError),
    Engine(EngineFailure),
    Read { attempts: u8, code: String },
    Delivery(usize),
    Timeout(u64),
}

/// The message of an error whose text the library fixes entirely.
pub open spec fn app_error_text(e: AppError) -> Option<Seq<char>> {
    match e {
        AppError::Reader(r) => Some("error del lector: "@ + reader_error_text(r)),
        AppError::Output(_) => None,
        AppError::Engine(f) => Some("no se pudo iniciar el motor del DNIe: "@ + failure_text(f)),
        AppError::Read { attempts, code } => Some(
            "la lectura del DNIe falló tras "@ + decimal(attempts as nat) + " intento(s), código "@
                + code@,
        ),
        AppError::Delivery(n) => Some(decimal(n as nat) + " salida(s) fallaron"@),
        AppError::Timeout(secs) => Some(
            "no se insertó ningún DNIe en "@ + decimal(secs as nat) + " segundos"@,
        ),
    }
}

impl AppError {
    /// The message of the error. An output error reads `error de salida: ` and the
    /// output error's own message.
    pub fn to_string(&self) -> (r: String)
        ensures
            app_error_text(*self) matches Some(t) ==> r@ == t,
            self matches AppError::Output(o) ==> exists|m: Seq<char>|
                #[trigger] message_of(*o, m) && r@ == "error de salida: "@ + m,
    {
        match self {
            AppError::Reader(e) => {
                let mut s = "error del lector: ".to_owned();
                let m = e.to_string();
                push_text(&mut s, m.as_str());
                s
            },
            AppError::Output(e) => {
                let mut s = "error de salida: ".to_owned();
                let m = e.to_string();
                push_text(&mut s, m.as_str());
                assert(message_of(*e, m@));
                s
            },
            AppError::Engine(f) => {
                let mut s = "no se pudo iniciar el motor del DNIe: ".to_owned();
                let m = f.to_string();
                push_text(&mut s, m.as_str());
                s
            },
            AppError::Read { attempts, code } => {
                let mut s = "la lectura del DNIe falló tras ".to_owned();
                push_decimal(&mut s, *attempts as u64);
                push_text(&mut s, " intento(s), código ");
                push_text(&mut s, code.as_str());
                s
            },
            AppError::Delivery(n) => {
                let mut s = String::new();
                push_decimal(&mut s, *n as u64);
                push_text(&mut s, " salida(s) fallaron");
                assert(s@ =~= decimal(*n as nat) + " salida(s) fallaron"@);
                s
            },
            AppError::Timeout(secs) => {
                let mut s = "no se insertó ningún DNIe en ".to_owned();
                push_decimal(&mut s, *secs);
                push_text(&mut s, " segundos");
                s
            },
        }
    }
}

/// A reader name passes the optional pattern.
pub open spec fn pattern_accepts(pattern: Option<Seq<char>>, name: Seq<char>) -> bool {
    match pattern {
        None => true,
        Some(p) => name_matches(name, p),
    }
}

/// The event concerns the selected reader, recognised by name.
pub open spec fn is_selected(selected: Option<ReaderInfo>, reader: ReaderInfo) -> bool {
    selected matches Some(s) && s.name@ == reader.name@
}

pub open spec fn string_opt_view(s: Option<String>) -> Option<Seq<char>> {
    match s {
        Some(v) => Some(v@),
        None => None,
    }
}

pub fn matches_pattern(reader: &ReaderInfo, pattern: Option<&str>) -> (r: bool)
    ensures
        r == pattern_accepts(opt_view(pattern), reader.name@),
{
    match pattern {
        None => true,
        Some(p) => reader_matches(reader, p),
    }
}

fn same_reader(selected: &Option<ReaderInfo>, reader: &ReaderInfo) -> (r: bool)
    ensures
        r == is_selected(*selected, *reader),
{
    match selected {
        Some(s) => s.name == reader.name,
        None => false,
    }
}

/// The reader to watch: none when there is no reader or none matches; an ambiguous
/// pattern is an error.
pub fn selectable_reader(readers: &[ReaderInfo], pattern: Option<&str>) -> (r: Result<
    Option<ReaderInfo>,
    ReaderError,
>)
    ensures
        is_ambiguous(readers@, opt_view(pattern)) ==> (r matches Err(ReaderError::Ambiguous(q))
            && opt_view(pattern) == Some(q@)),
        !is_ambiguous(readers@, opt_view(pattern)) ==> r == Ok::<
            Option<ReaderInfo>,
            ReaderError,
        >(selected_reader(readers@, opt_view(pattern))),
{
    match select_reader(readers, pattern) {
        Ok(reader) => Ok(Some(reader)),
        Err(ReaderError::Ambiguous(p)) => Err(ReaderError::Ambiguous(p)),
        Err(ReaderError::NoReaders) => Ok(None),
        Err(ReaderError::NotFound(_)) => Ok(None),
        Err(ReaderError::Pcsc(m)) => Err(ReaderError::Pcsc(m)),
    }
}

/// How a selection follows reader events while waiting: an attached reader that passes
/// the pattern is taken when none is selected, the selected reader is let go when it
/// is detached.
pub open spec fn selection_after(
    event: ReaderEvent,
    selected: Option<ReaderInfo>,
    pattern: Option<Seq<char>>,
) -> Option<ReaderInfo> {
    match event {
        ReaderEvent::ReaderAttached(r) => if selected is None && pattern_accepts(pattern, r.name@) {
            Some(r)
        } else {
            selected
        },
        ReaderEvent::ReaderDetached(r) => if is_selected(selected, r) {
            None
        } else {
            selected
        },
        _ => selected,
    }
}

pub fn update_selection(event: &ReaderEvent, selected: &mut Option<ReaderInfo>, pattern: Option<&str>)
    ensures
        *final(selected) == selection_after(*event, *old(selected), opt_view(pattern)),
{
    match event {
        ReaderEvent::ReaderAttached(reader) => {
            if selected.is_none() && matches_pattern(reader, pattern) {
                *selected = Some(reader.duplicate());
            }
        },
        ReaderEvent::ReaderDetached(reader) => {
            if same_reader(selected, reader) {
                *selected = None;
            }
        },
        _ => {},
    }
}

/// The reader whose card is to be read, when the event is a card inserted into the
/// selected reader.
pub fn inserted_in_selected(event: &ReaderEvent, selected: &Option<ReaderInfo>) -> (r: Option<
    ReaderInfo,
>)
    ensures
        r == (match *event {
            ReaderEvent::CardInserted(reader) => if is_selected(*selected, reader) {
                Some(reader)
            } else {
                None
            },
            _ => None,
        }),
{
    match event {
        ReaderEvent::CardInserted(reader) => {
            if same_reader(selected, reader) {
                Some(reader.duplicate())
            } else {
                None
            }
        },
        _ => None,
    }
}

/// The selected reader, when it already holds a card.
pub fn present_selection(selected: &Option<ReaderInfo>) -> (r: Option<ReaderInfo>)
    ensures
        r == (match *selected {
            Some(s) => if s.presence == ReaderPresence::Present {
                Some(s)
            } else {
                None
            },
            None => None,
        }),
{
    match selected {
        Some(s) => {
            if s.presence == ReaderPresence::Present {
                Some(s.duplicate())
            } else {
                None
            }
        },
        None => None,
    }
}

/// What the operator waits for: a reader while none is selected, otherwise a card in
/// the selected reader.
pub fn waiting_for(selected: &Option<ReaderInfo>) -> (r: Progress)
    ensures
        match *selected {
            None => r == Progress::WaitingForReader,
            Some(s) => r matches Progress::WaitingForCard { reader } && reader@ == s.name@,
        },
{
    match selected {
        None => Progress::WaitingForReader,
        Some(reader) => Progress::WaitingForCard { reader: reader.name.clone() },
    }
}

/// A wait with a limit of `limit_seconds` is over once that many seconds have passed.
pub fn timed_out(elapsed_seconds: u64, limit_seconds: Option<u64>) -> (r: bool)
    ensures
        r == (limit_seconds matches Some(limit) && elapsed_seconds >= limit),
{
    match limit_seconds {
        Some(limit) => elapsed_seconds >= limit,
        None => false,
    }
}

/// The watch loop's view of the selected reader and its card.
#[derive(Debug)]
pub struct WatchController {
    pattern: Option<String>,
    selected: Option<ReaderInfo>,
    lifecycle: CardLifecycle,
}

/// What the controller does with a reader event: the new selection, the new lifecycle
/// state and the reader to read, if any.
pub open spec fn watch_step(
    pattern: Option<Seq<char>>,
    selected: Option<ReaderInfo>,
    state: LifecycleState,
    event: ReaderEvent,
) -> (Option<ReaderInfo>, LifecycleState, Option<ReaderInfo>) {
    match event {
        ReaderEvent::ReaderAttached(r) => if selected is None && pattern_accepts(pattern, r.name@) {
            (Some(r), next(state, LifecycleEvent::ReaderAttached).0, None)
        } else {
            (selected, state, None)
        },
        ReaderEvent::ReaderDetached(r) => if is_selected(selected, r) {
            (None, next(state, LifecycleEvent::ReaderDetached).0, None)
        } else {
            (selected, state, None)
        },
        ReaderEvent::CardInserted(r) => if is_selected(selected, r) {
            let (s, action) = next(state, LifecycleEvent::CardInserted);
            (selected, s, if action == LifecycleAction::StartRead {
                Some(r)
            } else {
                None
            })
        } else {
            (selected, state, None)
        },
        ReaderEvent::CardRemoved(r) => if is_selected(selected, r) {
            (selected, next(state, LifecycleEvent::CardRemoved).0, None)
        } else {
            (selected, state, None)
        },
    }
}

impl WatchController {
    pub closed spec fn spec_pattern(&self) -> Option<Seq<char>> {
        string_opt_view(self.pattern)
    }

    pub closed spec fn spec_selected(&self) -> Option<ReaderInfo> {
        self.selected
    }

    pub closed spec fn spec_state(&self) -> LifecycleState {
        self.lifecycle@
    }

    pub fn new(readers: &[ReaderInfo], pattern: Option<&str>) -> (r: Result<Self, AppError>)
        ensures
            is_ambiguous(readers@, opt_view(pattern)) ==> (r matches Err(
                AppError::Reader(ReaderError::Ambiguous(q)),
            ) && opt_view(pattern) == Some(q@)),
            !is_ambiguous(readers@, opt_view(pattern)) ==> (r matches Ok(c) && c.spec_pattern()
                == opt_view(pattern) && c.spec_selected() == selected_reader(
                readers@,
                opt_view(pattern),
            ) && c.spec_state() == (if c.spec_selected() is Some {
                LifecycleState::Empty
            } else {
                LifecycleState::NoReader
            })),
    {
        match selectable_reader(readers, pattern) {
            Err(e) => Err(AppError::Reader(e)),
            Ok(selected) => {
                let owned = match pattern {
                    Some(p) => Some(p.to_owned()),
                    None => None,
                };
                let lifecycle = CardLifecycle::new(selected.is_some());
                Ok(WatchController { pattern: owned, selected, lifecycle })
            },
        }
    }

    fn start_read(&mut self, reader: ReaderInfo) -> (r: Option<ReaderInfo>)
        ensures
            final(self).pattern == old(self).pattern,
            final(self).selected == old(self).selected,
            final(self).lifecycle@ == next(old(self).lifecycle@, LifecycleEvent::CardInserted).0,
            r == (if next(old(self).lifecycle@, LifecycleEvent::CardInserted).1
                == LifecycleAction::StartRead {
                Some(reader)
            } else {
                None
            }),
    {
        let action = self.lifecycle.handle(LifecycleEvent::CardInserted);
        if action == LifecycleAction::StartRead {
            Some(reader)
        } else {
            None
        }
    }

    /// The read owed to a card that is already in the selected reader at start.
    pub fn initial_read(&mut self) -> (r: Option<ReaderInfo>)
        ensures
            final(self).spec_pattern() == old(self).spec_pattern(),
            final(self).spec_selected() == old(self).spec_selected(),
            match old(self).spec_selected() {
                Some(s) => if s.presence == ReaderPresence::Present {
                    final(self).spec_state() == next(
                        old(self).spec_state(),
                        LifecycleEvent::CardInserted,
                    ).0 && r == (if next(old(self).spec_state(), LifecycleEvent::CardInserted).1
                        == LifecycleAction::StartRead {
                        Some(s)
                    } else {
                        None
                    })
                } else {
                    final(self).spec_state() == old(self).spec_state() && r is None
                },
                None => final(self).spec_state() == old(self).spec_state() && r is None,
            },
    {
        match present_selection(&self.selected) {
            Some(reader) => self.start_read(reader),
            None => None,
        }
    }

    /// Follows one reader event; returns the reader whose card must be read now.
    pub fn handle(&mut self, event: ReaderEvent) -> (r: Option<ReaderInfo>)
        ensures
            final(self).spec_pattern() == old(self).spec_pattern(),
            (final(self).spec_selected(), final(self).spec_state(), r) == watch_step(
                old(self).spec_pattern(),
                old(self).spec_selected(),
                old(self).spec_state(),
                event,
            ),
    {
        match event {
            ReaderEvent::ReaderAttached(reader) => {
                let pattern = match &self.pattern {
                    Some(p) => Some(p.as_str()),
                    None => None,
                };
                if self.selected.is_none() && matches_pattern(&reader, pattern) {
                    self.selected = Some(reader);
                    self.lifecycle.handle(LifecycleEvent::ReaderAttached);
                }
                None
            },
            ReaderEvent::ReaderDetached(reader) => {
                if same_reader(&self.selected, &reader) {
                    self.lifecycle.handle(LifecycleEvent::ReaderDetached);
                    self.selected = None;
                }
                None
            },
            ReaderEvent::CardInserted(reader) => {
                if same_reader(&self.selected, &reader) {
                    return self.start_read(reader);
                }
                None
            },
            ReaderEvent::CardRemoved(reader) => {
                if same_reader(&self.selected, &reader) {
                    self.lifecycle.handle(LifecycleEvent::CardRemoved);
                }
                None
            },
        }
    }

    pub fn read_succeeded(&mut self)
        ensures
            final(self).spec_pattern() == old(self).spec_pattern(),
            final(self).spec_selected() == old(self).spec_selected(),
            final(self).spec_state() == next(old(self).spec_state(), LifecycleEvent::ReadSucceeded).0,
    {
        self.lifecycle.handle(LifecycleEvent::ReadSucceeded);
    }

    pub fn read_failed(&mut self)
        ensures
            final(self).spec_pattern() == old(self).spec_pattern(),
            final(self).spec_selected() == old(self).spec_selected(),
            final(self).spec_state() == next(old(self).spec_state(), LifecycleEvent::ReadFailed).0,
    {
        self.lifecycle.handle(LifecycleEvent::ReadFailed);
    }

    /// Records how a read cycle ended; a watch session goes on either way, waiting
    /// for the card to be removed.
    pub fn finish_cycle(&mut self, outcome: &Result<ReadRecord, AppError>)
        ensures
            final(self).spec_pattern() == old(self).spec_pattern(),
            final(self).spec_selected() == old(self).spec_selected(),
            final(self).spec_state() == next(
                old(self).spec_state(),
                if outcome is Ok {
                    LifecycleEvent::ReadSucceeded
                } else {
                    LifecycleEvent::ReadFailed
                },
            ).0,
    {
        match outcome {
            Ok(_) => self.read_succeeded(),
            Err(_) => self.read_failed(),
        }
    }

    pub fn selected_name(&self) -> (r: Option<&str>)
        ensures
            match self.spec_selected() {
                Some(s) => r matches Some(n) && n@ == s.name@,
                None => r is None,
            },
    {
        match &self.selected {
            Some(reader) => Some(reader.name.as_str()),
            None => None,
        }
    }
}

/// A card that was read, or whose reads were given up, is not read again by another
/// insertion event of the selected reader: only its removal or the reader's
/// detachment re-arms the controller.
pub proof fn lemma_watch_reads_once(
    pattern: Option<Seq<char>>,
    selected: Option<ReaderInfo>,
    state: LifecycleState,
    reader: ReaderInfo,
)
    requires
        card_in_cycle(state),
    ensures
        watch_step(pattern, selected, state, ReaderEvent::CardInserted(reader)).2 is None,
        card_in_cycle(watch_step(pattern, selected, state, ReaderEvent::CardInserted(reader)).1),
        is_selected(selected, reader) ==> watch_step(
            pattern,
            selected,
            watch_step(pattern, selected, state, ReaderEvent::CardRemoved(reader)).1,
            ReaderEvent::CardInserted(reader),
        ).2 == Some(reader),
{
}

/// The controller follows the selected reader exactly as the wait for a card does.
pub proof fn lemma_watch_follows_selection(
    pattern: Option<Seq<char>>,
    selected: Option<ReaderInfo>,
    state: LifecycleState,
    event: ReaderEvent,
)
    ensures
        watch_step(pattern, selected, state, event).0 == selection_after(event, selected, pattern),
{
}

/// An attached reader never takes over a selection: once a reader is selected, any
/// `ReaderAttached` event leaves the selection, the lifecycle and the reads as they
/// were, in the watch and in the wait for a card alike.
pub proof fn lemma_attachment_keeps_selection(
    pattern: Option<Seq<char>>,
    selected: ReaderInfo,
    state: LifecycleState,
    attached: ReaderInfo,
)
    ensures
        selection_after(ReaderEvent::ReaderAttached(attached), Some(selected), pattern) == Some(
            selected,
        ),
        watch_step(pattern, Some(selected), state, ReaderEvent::ReaderAttached(attached)) == (
            Some(selected),
            state,
            None::<ReaderInfo>,
        ),
{
}

/// Only the detachment of the selected reader releases it: whenever an event changes
/// an existing selection, the event is `ReaderDetached` of a reader with the selected
/// reader's name, and nothing is selected afterwards.
pub proof fn lemma_only_detachment_releases(
    pattern: Option<Seq<char>>,
    selected: ReaderInfo,
    state: LifecycleState,
    event: ReaderEvent,
)
    ensures
        selection_after(event, Some(selected), pattern) != Some(selected) ==> (event matches ReaderEvent::ReaderDetached(r)
            && r.name@ == selected.name@ && selection_after(event, Some(selected), pattern) is None),
        watch_step(pattern, Some(selected), state, event).0 != Some(selected) ==> (event matches ReaderEvent::ReaderDetached(r)
            && r.name@ == selected.name@ && watch_step(pattern, Some(selected), state, event).0 is None),
{
}

/// A read is started only for a card inserted into the selected reader: the reader
/// handed back is the one named in a `CardInserted` event and has the selected
/// reader's name.
pub proof fn lemma_reads_only_the_selected_reader(
    pattern: Option<Seq<char>>,
    selected: Option<ReaderInfo>,
    state: LifecycleState,
    event: ReaderEvent,
)
    ensures
        watch_step(pattern, selected, state, event).2 matches Some(r) ==> (event
            == ReaderEvent::CardInserted(r) && is_selected(selected, r)),
{
}

/// The error of a read whose attempts were exhausted or refused.
pub fn read_error(failure: RetryFailure<EngineFailure>) -> (r: AppError)
    ensures
        r matches AppError::Read { attempts, code } && attempts == failure.attempts && code
            == failure.last_error.code,
{
    AppError::Read { attempts: failure.attempts, code: failure.last_error.code }
}

/// What the operator is told of a delivery: each failed output in turn, or that the
/// read was delivered when none failed.
pub fn delivery_progress(reader: &str, report: &DeliveryReport) -> (r: Vec<Progress>)
    ensures
        report.failures@.len() == 0 ==> r@.len() == 1,
        report.failures@.len() == 0 ==> (r@[0] matches Progress::Delivered {
            reader: name,
            delivered,
        } && name@ == reader@ && delivered == report.delivered),
        report.failures@.len() > 0 ==> (r@.len() == report.failures@.len() && forall|i: int|
            0 <= i < r@.len() ==> (#[trigger] r@[i] matches Progress::OutputFailed {
                sink,
                message,
            } && sink == report.failures@[i].sink && message == report.failures@[i].message)),
{
    let mut news: Vec<Progress> = Vec::new();
    if report.failures.len() == 0 {
        news.push(Progress::Delivered { reader: reader.to_owned(), delivered: report.delivered });
        return news;
    }
    let mut i: usize = 0;
    while i < report.failures.len()
        invariant
            i <= report.failures@.len(),
            news@.len() == i,
            forall|k: int|
                0 <= k < i ==> (#[trigger] news@[k] matches Progress::OutputFailed {
                    sink,
                    message,
                } && sink == report.failures@[k].sink && message == report.failures@[k].message),
        decreases report.failures@.len() - i,
    {
        let failure = &report.failures[i];
        news.push(
            Progress::OutputFailed { sink: failure.sink, message: failure.message.clone() },
        );
        i = i + 1;
    }
    news
}

/// The operator news of a failed read cycle: exhausted reads are reported as such.
pub fn failure_progress(error: &AppError) -> (r: Option<Progress>)
    ensures
        match *error {
            AppError::Read { attempts, code } => r matches Some(Progress::ReadFailed {
                attempts: a,
                code: c,
            }) && a == attempts && c == code,
            _ => r is None,
        },
{
    match error {
        AppError::Read { attempts, code } => Some(
            Progress::ReadFailed { attempts: *attempts, code: code.clone() },
        ),
        _ => None,
    }
}

/// A read cycle succeeds when every output took the record.
pub fn cycle_outcome(record: ReadRecord, report: &DeliveryReport) -> (r: Result<
    ReadRecord,
    AppError,
>)
    ensures
        report.failures@.len() == 0 ==> r == Ok::<ReadRecord, AppError>(record),
        report.failures@.len() > 0 ==> (r matches Err(AppError::Delivery(n)) && n
            == report.failures@.len()),
{
    if report.failures.len() == 0 {
        Ok(record)
    } else {
        Err(AppError::Delivery(report.failures.len()))
    }
}

/// Pause between two attempts to reach the PC/SC service again, in milliseconds.
pub const RECOVERY_DELAY_MS: u64 = 1000;

/// How a session runs: one read and done, or watching insertions indefinitely.
#[derive(Clone, Copy, Debug, PartialEq, Eq, Structural)]
pub enum SessionMode {
    Once,
    Watch,
}

/// What a session does once a read cycle has ended.
#[derive(Debug)]
pub enum AfterCycle {
    /// The session ends with this result.
    Finish(Result<(), AppError>),
    /// The session goes on waiting for the next card.
    KeepWatching,
}

/// A session run once ends after its read cycle, with the cycle's error if it failed;
/// a watch session goes on whatever the outcome.
pub fn after_cycle(mode: SessionMode, outcome: Result<ReadRecord, AppError>) -> (r: AfterCycle)
    ensures
        mode == SessionMode::Watch ==> r is KeepWatching,
        mode == SessionMode::Once ==> match outcome {
            Ok(_) => r matches AfterCycle::Finish(Ok(())),
            Err(e) => r matches AfterCycle::Finish(Err(f)) && f == e,
        },
{
    match mode {
        SessionMode::Watch => AfterCycle::KeepWatching,
        SessionMode::Once => match outcome {
            Ok(_) => AfterCycle::Finish(Ok(())),
            Err(e) => AfterCycle::Finish(Err(e)),
        },
    }
}

/// In a watch session a failed read does not stop the watch: the controller waits for
/// the card's removal, and the next card inserted into the selected reader is read.
pub proof fn lemma_watch_goes_on_after_failure(
    pattern: Option<Seq<char>>,
    selected: Option<ReaderInfo>,
    reader: ReaderInfo,
)
    requires
        is_selected(selected, reader),
    ensures
        ({
            let failed = next(LifecycleState::Reading, LifecycleEvent::ReadFailed).0;
            let removed = watch_step(pattern, selected, failed, ReaderEvent::CardRemoved(reader));
            &&& card_in_cycle(failed)
            &&& removed.0 == selected
            &&& watch_step(pattern, selected, removed.1, ReaderEvent::CardInserted(reader)).2
                == Some(reader)
        }),
{
}

/// `outcome` is an answer that `engine` gives when asked to read the card in `reader`.
pub open spec fn engine_answered<E: DniEngine + ?Sized>(
    engine: &E,
    reader: &ReaderInfo,
    outcome: Result<EngineRead, EngineFailure>,
) -> bool {
    call_ensures(E::read, (engine, reader), outcome)
}

/// The reads numbered 1 to `failed.len()`: each failed with its failure, which may be
/// tried again, and `pause` ran before the next read.
pub open spec fn reads_retried<E: DniEngine + ?Sized, Pause: FnMut(u8, &EngineFailure)>(
    engine: &E,
    reader: &ReaderInfo,
    pause: Pause,
    failed: Seq<EngineFailure>,
) -> bool {
    forall|i: int|
        0 <= i < failed.len() ==> {
            &&& engine_answered(engine, reader, Err::<EngineRead, EngineFailure>(#[trigger] failed[i]))
            &&& failed[i].retryable
            &&& call_ensures(pause, ((i + 1) as u8, &failed[i]), ())
        }
}

/// The reads were given up: after the retried reads, the next one failed with `last`,
/// and it was the last allowed one or it may not be tried again.
pub open spec fn reads_given_up<E: DniEngine + ?Sized, Pause: FnMut(u8, &EngineFailure)>(
    engine: &E,
    reader: &ReaderInfo,
    pause: Pause,
    attempts: u8,
    failed: Seq<EngineFailure>,
    last: EngineFailure,
) -> bool {
    &&& reads_retried(engine, reader, pause, failed)
    &&& failed.len() + 1 <= attempts
    &&& engine_answered(engine, reader, Err::<EngineRead, EngineFailure>(last))
    &&& (failed.len() + 1 == attempts || !last.retryable)
}

/// A read succeeded within the allowed attempts, after the retried reads.
pub open spec fn read_obtained<E: DniEngine + ?Sized, Pause: FnMut(u8, &EngineFailure)>(
    engine: &E,
    reader: &ReaderInfo,
    pause: Pause,
    attempts: u8,
    failed: Seq<EngineFailure>,
    read: EngineRead,
) -> bool {
    &&& reads_retried(engine, reader, pause, failed)
    &&& failed.len() < attempts
    &&& engine_answered(engine, reader, Ok::<EngineRead, EngineFailure>(read))
}

/// `record` is the record of `read` made in `reader`, with a drawn identifier and a
/// reading of the clock.
pub open spec fn recorded(reader: &ReaderInfo, read: EngineRead, record: ReadRecord) -> bool {
    &&& record.schema_version == READ_SCHEMA_VERSION
    &&& record.source@ == DNI_SOURCE@
    &&& record.reader@ == reader.name@
    &&& record.document == read.document
    &&& record.integrity == read.integrity
    &&& drawn_id(record.read_id)
    &&& clock_reading(record.read_at)
}

/// The record was offered to every output, and the cycle ends as `cycle_outcome` says.
pub open spec fn delivered_as(
    sinks: Seq<&dyn Sink>,
    record: ReadRecord,
    r: Result<ReadRecord, AppError>,
) -> bool {
    exists|answers: Seq<(&'static str, Result<(), OutputError>)>, report: DeliveryReport|
        #[trigger] tallies(answers, report) && answers_of(sinks, &record, answers) && if report.failures@.len()
            == 0 {
            r == Ok::<ReadRecord, AppError>(record)
        } else {
            r matches Err(AppError::Delivery(n)) && n == report.failures@.len()
        }
}

fn read_once<E: DniEngine + ?Sized>(engine: &E, reader: &ReaderInfo) -> (r: Result<
    EngineRead,
    EngineFailure,
>)
    ensures
        engine_answered(engine, reader, r),
{
    engine.read(reader)
}

/// One read cycle: the card is read with up to `attempts` attempts, `pause` running
/// before each new one; a read that was given up is a read error and reaches no
/// output. Otherwise the read is recorded, offered to every output in turn and the
/// operator is told of the delivery; the cycle succeeds when every output took it.
/// `report` is told of each attempt.
pub fn read_cycle<E, Report, Pause>(
    engine: &E,
    reader: &ReaderInfo,
    sinks: &[&dyn Sink],
    attempts: u8,
    report: Report,
    pause: Pause,
) -> (r: Result<ReadRecord, AppError>) where
    E: DniEngine + ?Sized,
    Report: Fn(Progress),
    Pause: FnMut(u8, &EngineFailure),

    requires
        attempts > 0,
        forall|p: Progress| call_requires(report, (p,)),
        forall|attempt: u8, failure: &EngineFailure| call_requires(pause, (attempt, failure)),
    ensures
        r matches Err(AppError::Read { attempts: k, code }) ==> exists|
            failed: Seq<EngineFailure>,
            last: EngineFailure,
        |
            #[trigger] reads_given_up(engine, reader, pause, attempts, failed, last) && k
                == failed.len() + 1 && code == last.code,
        !(r matches Err(AppError::Read { .. })) ==> exists|
            failed: Seq<EngineFailure>,
            read: EngineRead,
            record: ReadRecord,
        |
            #[trigger] read_obtained(engine, reader, pause, attempts, failed, read)
                && #[trigger] recorded(reader, read, record) && delivered_as(sinks@, record, r),
{
    let announce = &report;
    let operation = |attempt: u8| -> (outcome: Result<EngineRead, EngineFailure>)
        ensures
            engine_answered(engine, reader, outcome),
        {
            announce(Progress::Reading { reader: reader.name.clone(), attempt, attempts });
            read_once(engine, reader)
        };
    let retryable = |failure: &EngineFailure| -> (r: bool)
        ensures
            r == failure.retryable,
        { failure.retryable };
    match run_with_retries(attempts, operation, retryable, pause) {
        Err(failure) => {
            proof {
                let failed = choose|failed: Seq<EngineFailure>|
                    #[trigger] retried(operation, retryable, pause, failed) && failed.len() + 1
                        == failure.attempts;
                assert(reads_retried(engine, reader, pause, failed));
                assert(reads_given_up(engine, reader, pause, attempts, failed, failure.last_error));
            }
            Err(read_error(failure))
        },
        Ok(read) => {
            let ghost failed = choose|failed: Seq<EngineFailure>|
                #[trigger] retried(operation, retryable, pause, failed) && failed.len() < attempts
                    && answers(operation, (failed.len() + 1) as u8, Ok::<EngineRead, EngineFailure>(read));
            assert(reads_retried(engine, reader, pause, failed));
            assert(read_obtained(engine, reader, pause, attempts, failed, read));
            let ghost obtained = read;
            let record = ReadRecord::capture(&reader.name, read);
            assert(recorded(reader, obtained, record));
            let delivery = deliver_all(sinks, &record);
            let news = delivery_progress(&reader.name, &delivery);
            let mut i: usize = 0;
            while i < news.len()
                invariant
                    forall|p: Progress| call_requires(report, (p,)),
                decreases news@.len() - i,
            {
                report(news[i].clone());
                i = i + 1;
            }
            let ghost kept = record;
            let r = cycle_outcome(record, &delivery);
            assert(delivered_as(sinks@, kept, r));
            r
        },
    }
}

} // verus!
