//! The command line, as plain values: the commands and their options.
use vstd::prelude::*;

verus! {

/// The environment variable that holds the webhook token; the worker never sees it.
pub const WEBHOOK_TOKEN_VARIABLE: &'static str = "SIMPLE_LECTOR_DNI_WEBHOOK_TOKEN";

#[derive(Debug)]
pub struct Cli {
    pub command: Command,
}

#[derive(Debug)]
pub enum Command {
    /// Waits for a DNIe, reads it once and ends.
    Once(OnceOptions),
    /// Watches insertions and removals continuously.
    Watch(RunOptions),
    /// Shows the PC/SC readers.
    ListReaders,
}

#[derive(Clone, Debug)]
pub struct OnceOptions {
    pub run: RunOptions,
    /// Fails when no DNIe is inserted within this many seconds.
    pub timeout_seconds: Option<u64>,
}

#[derive(Clone, Debug)]
pub struct RunOptions {
    /// Part of the name of the reader to use.
    pub reader: Option<String>,
    /// Read attempts per insertion, from 1 to 3.
    pub attempts: u8,
    /// Pause between failed attempts.
    pub retry_delay_ms: u64,
    pub outputs: OutputOptions,
}

#[derive(Clone, Debug, Default)]
pub struct OutputOptions {
    pub stdout: bool,
    pub json: Option<std::path::PathBuf>,
    pub jsonl: Option<std::path::PathBuf>,
    pub csv: Option<std::path::PathBuf>,
    pub webhook: Option<String>,
    pub webhook_timeout_seconds: u64,
}

pub open spec fn explicit_sink(o: OutputOptions) -> bool {
    o.stdout || o.json is Some || o.jsonl is Some || o.csv is Some || o.webhook is Some
}

impl OutputOptions {
    pub fn has_explicit_sink(&self) -> (r: bool)
        ensures
            r == explicit_sink(*self),
    {
        self.stdout || self.json.is_some() || self.jsonl.is_some() || self.csv.is_some()
            || self.webhook.is_some()
    }

    /// Records go to the standard output when asked, or when no output was named.
    pub fn writes_stdout(&self) -> (r: bool)
        ensures
            r == (self.stdout || !explicit_sink(*self)),
    {
        self.stdout || !self.has_explicit_sink()
    }
}

/// One output to build, in the order in which records reach them.
#[derive(Debug)]
pub enum PlannedSink<'a> {
    Stdout,
    JsonFile(&'a std::path::PathBuf),
    JsonLines(&'a std::path::PathBuf),
    Csv(&'a std::path::PathBuf),
    Webhook(&'a String),
}

/// The outputs of a run, in order: the standard output (when asked, or when nothing
/// else was named), the JSON file, the JSON Lines file, the CSV file, the webhook.
pub open spec fn sink_plan_of<'a>(o: &'a OutputOptions) -> Seq<PlannedSink<'a>> {
    let stdout: Seq<PlannedSink<'a>> = if o.stdout || !explicit_sink(*o) {
        seq![PlannedSink::Stdout]
    } else {
        Seq::empty()
    };
    let json: Seq<PlannedSink<'a>> = match &o.json {
        Some(p) => seq![PlannedSink::JsonFile(p)],
        None => Seq::empty(),
    };
    let jsonl: Seq<PlannedSink<'a>> = match &o.jsonl {
        Some(p) => seq![PlannedSink::JsonLines(p)],
        None => Seq::empty(),
    };
    let csv: Seq<PlannedSink<'a>> = match &o.csv {
        Some(p) => seq![PlannedSink::Csv(p)],
        None => Seq::empty(),
    };
    let webhook: Seq<PlannedSink<'a>> = match &o.webhook {
        Some(u) => seq![PlannedSink::Webhook(u)],
        None => Seq::empty(),
    };
    stdout + json + jsonl + csv + webhook
}

impl OutputOptions {
    /// The outputs to build for these options, in order.
    pub fn sink_plan(&self) -> (r: Vec<PlannedSink<'_>>)
        ensures
            r@ == sink_plan_of(self),
    {
        let mut plan: Vec<PlannedSink<'_>> = Vec::new();
        if self.writes_stdout() {
            plan.push(PlannedSink::Stdout);
        }
        if let Some(p) = &self.json {
            plan.push(PlannedSink::JsonFile(p));
        }
        if let Some(p) = &self.jsonl {
            plan.push(PlannedSink::JsonLines(p));
        }
        if let Some(p) = &self.csv {
            plan.push(PlannedSink::Csv(p));
        }
        if let Some(u) = &self.webhook {
            plan.push(PlannedSink::Webhook(u));
        }
        assert(plan@ =~= sink_plan_of(self));
        plan
    }
}

/// Standard output gets the records exactly when it was asked for or when no other
/// output (JSON, JSON Lines, CSV or webhook) was named; it is then built first and only
/// once, and the webhook is built exactly when a webhook URL was given.
pub proof fn lemma_plan_follows_the_options(o: &OutputOptions)
    ensures
        (sink_plan_of(o).len() > 0 && sink_plan_of(o)[0] is Stdout) <==> (o.stdout || (o.json is None
            && o.jsonl is None && o.csv is None && o.webhook is None)),
        forall|k: int| 0 < k < sink_plan_of(o).len() ==> !(#[trigger] sink_plan_of(o)[k] is Stdout),
        (exists|k: int| 0 <= k < sink_plan_of(o).len() && #[trigger] sink_plan_of(o)[k] is Webhook)
            <==> o.webhook is Some,
{
    let p = sink_plan_of(o);
    if o.webhook is Some {
        assert(p[p.len() - 1] is Webhook);
    }
}

} // verus!
