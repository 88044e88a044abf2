//! Readers as the PC/SC service reports them: their presence, how one is selected by
//! a name pattern, and which events separate two snapshots of the reader list.
use vstd::prelude::*;
use crate::text::{contains_text, lowercase, push_text, text_contains, to_lowercase};

verus! {

#[derive(Clone, Copy, Debug, PartialEq, Eq, Structural)]
pub enum ReaderPresence {
    Empty,
    Present,
    Unavailable,
}

impl ReaderPresence {
    pub open spec fn label(self) -> Seq<char> {
        match self {
            ReaderPresence::Empty => "sin tarjeta"@,
            ReaderPresence::Present => "con tarjeta"@,
            ReaderPresence::Unavailable => "no disponible"@,
        }
    }

    /// The operator wording of a presence.
    pub fn describe(self) -> (r: &'static str)
        ensures
            r@ == self.label(),
    {
        match self {
            ReaderPresence::Empty => "sin tarjeta",
            ReaderPresence::Present => "con tarjeta",
            ReaderPresence::Unavailable => "no disponible",
        }
    }
}

/// One reader of a snapshot. `event_count` is the PC/SC event counter of the reader.
#[derive(Clone, Debug, PartialEq, Eq)]
pub struct ReaderInfo {
    pub index: usize,
    pub name: String,
    pub presence: ReaderPresence,
    pub event_count: u32,
}

impl ReaderInfo {
    /// A copy of this reader.
    pub fn duplicate(&self) -> (r: Self)
        ensures
            r == *self,
    {
        ReaderInfo {
            index: self.index,
            name: self.name.clone(),
            presence: self.presence,
            event_count: self.event_count,
        }
    }
}

#[derive(Clone, Debug, PartialEq, Eq)]
pub enum ReaderEvent {
    ReaderAttached(ReaderInfo),
    ReaderDetached(ReaderInfo),
    CardInserted(ReaderInfo),
    CardRemoved(ReaderInfo),
}

/// The PC/SC state flags of a reader that decide its presence.
#[derive(Clone, Copy, Debug, PartialEq, Eq, Structural)]
pub struct ReaderStateFlags {
    pub ignore: bool,
    pub unknown: bool,
    pub unavailable: bool,
    pub present: bool,
}

pub open spec fn presence_of(flags: ReaderStateFlags) -> ReaderPresence {
    if flags.unavailable || flags.unknown || flags.ignore {
        ReaderPresence::Unavailable
    } else if flags.present {
        ReaderPresence::Present
    } else {
        ReaderPresence::Empty
    }
}

/// Classifies the raw state of a reader without connecting to its card.
pub fn classify_state(flags: ReaderStateFlags) -> (r: ReaderPresence)
    ensures
        r == presence_of(flags),
{
    if flags.unavailable || flags.unknown || flags.ignore {
        ReaderPresence::Unavailable
    } else if flags.present {
        ReaderPresence::Present
    } else {
        ReaderPresence::Empty
    }
}

/// Why no reader could be selected or observed. `Pcsc` holds the text of the
/// PC/SC service's error.
#[derive(Clone, Debug, PartialEq, Eq)]
pub enum ReaderError {
    Pcsc(String),
    NoReaders,
    NotFound(String),
    Ambiguous(String),
}

pub open spec fn reader_error_text(e: ReaderError) -> Seq<char> {
    match e {
        ReaderError::Pcsc(m) => "PC/SC error: "@ + m@,
        ReaderError::NoReaders => "no smart-card readers are connected"@,
        ReaderError::NotFound(p) => "reader matching '"@ + p@ + "' was not found"@,
        ReaderError::Ambiguous(p) => "reader pattern '"@ + p@ + "' is ambiguous"@,
    }
}

impl ReaderError {
    /// The message of the error.
    pub fn to_string(&self) -> (r: String)
        ensures
            r@ == reader_error_text(*self),
    {
        match self {
            ReaderError::Pcsc(m) => {
                let mut s = "PC/SC error: ".to_owned();
                push_text(&mut s, m.as_str());
                s
            },
            ReaderError::NoReaders => "no smart-card readers are connected".to_owned(),
            ReaderError::NotFound(p) => {
                let mut s = "reader matching '".to_owned();
                push_text(&mut s, p.as_str());
                push_text(&mut s, "' was not found");
                s
            },
            ReaderError::Ambiguous(p) => {
                let mut s = "reader pattern '".to_owned();
                push_text(&mut s, p.as_str());
                push_text(&mut s, "' is ambiguous");
                s
            },
        }
    }
}

/// A reader name matches a pattern when the lower-cased pattern occurs in the
/// lower-cased name.
pub open spec fn name_matches(name: Seq<char>, pattern: Seq<char>) -> bool {
    contains_text(lowercase(name), lowercase(pattern))
}

/// The readers whose names match `pattern`, in their order.
pub open spec fn matching(readers: Seq<ReaderInfo>, pattern: Seq<char>) -> Seq<ReaderInfo>
    decreases readers.len(),
{
    if readers.len() == 0 {
        Seq::empty()
    } else if name_matches(readers.last().name@, pattern) {
        matching(readers.drop_last(), pattern).push(readers.last())
    } else {
        matching(readers.drop_last(), pattern)
    }
}

/// The outcome of selecting a reader: the first one without a pattern, otherwise the
/// only one that matches.
pub open spec fn selection_ok(
    readers: Seq<ReaderInfo>,
    pattern: Option<Seq<char>>,
    r: Result<ReaderInfo, ReaderError>,
) -> bool {
    match pattern {
        None => if readers.len() == 0 {
            r matches Err(ReaderError::NoReaders)
        } else {
            r == Ok::<ReaderInfo, ReaderError>(readers[0])
        },
        Some(p) => {
            let m = matching(readers, p);
            if m.len() == 0 {
                r matches Err(ReaderError::NotFound(q)) && q@ == p
            } else if m.len() == 1 {
                r == Ok::<ReaderInfo, ReaderError>(m[0])
            } else {
                r matches Err(ReaderError::Ambiguous(q)) && q@ == p
            }
        },
    }
}

/// The reader a selection settles on, if any.
pub open spec fn selected_reader(readers: Seq<ReaderInfo>, pattern: Option<Seq<char>>) -> Option<
    ReaderInfo,
> {
    match pattern {
        None => if readers.len() == 0 {
            None
        } else {
            Some(readers[0])
        },
        Some(p) => if matching(readers, p).len() == 1 {
            Some(matching(readers, p)[0])
        } else {
            None
        },
    }
}

/// A pattern that matches several readers.
pub open spec fn is_ambiguous(readers: Seq<ReaderInfo>, pattern: Option<Seq<char>>) -> bool {
    pattern matches Some(p) && matching(readers, p).len() > 1
}

/// Selection succeeds exactly when it settles on a reader, and settles on that reader.
pub proof fn lemma_selection_outcome(
    readers: Seq<ReaderInfo>,
    pattern: Option<Seq<char>>,
    r: Result<ReaderInfo, ReaderError>,
)
    requires
        selection_ok(readers, pattern, r),
    ensures
        r is Ok <==> selected_reader(readers, pattern) is Some,
        r matches Ok(found) ==> selected_reader(readers, pattern) == Some(found),
        r matches Err(ReaderError::Ambiguous(_)) <==> is_ambiguous(readers, pattern),
        pattern is None ==> (r is Ok <==> readers.len() > 0),
{
}

pub open spec fn opt_view(pattern: Option<&str>) -> Option<Seq<char>> {
    match pattern {
        Some(p) => Some(p@),
        None => None,
    }
}

/// Whether the name of `reader` matches `pattern`.
pub fn reader_matches(reader: &ReaderInfo, pattern: &str) -> (r: bool)
    ensures
        r == name_matches(reader.name@, pattern@),
{
    let name = to_lowercase(reader.name.as_str());
    let wanted = to_lowercase(pattern);
    text_contains(name.as_str(), wanted.as_str())
}

/// Selects the first reader when no pattern is given, otherwise the only reader whose
/// name contains the pattern, ignoring case.
pub fn select_reader(readers: &[ReaderInfo], pattern: Option<&str>) -> (r: Result<
    ReaderInfo,
    ReaderError,
>)
    ensures
        selection_ok(readers@, opt_view(pattern), r),
{
    match pattern {
        None => {
            if readers.len() == 0 {
                Err(ReaderError::NoReaders)
            } else {
                Ok(readers[0].duplicate())
            }
        },
        Some(p) => {
            let mut matches: Vec<ReaderInfo> = Vec::new();
            let mut i: usize = 0;
            while i < readers.len()
                invariant
                    i <= readers@.len(),
                    matches@ == matching(readers@.subrange(0, i as int), p@),
                decreases readers@.len() - i,
            {
                let ghost prefix = readers@.subrange(0, i as int + 1);
                assert(prefix.drop_last() =~= readers@.subrange(0, i as int));
                if reader_matches(&readers[i], p) {
                    matches.push(readers[i].duplicate());
                }
                i = i + 1;
            }
            assert(readers@.subrange(0, readers@.len() as int) =~= readers@);
            selected_match(matches, p)
        },
    }
}

fn selected_match(matches: Vec<ReaderInfo>, pattern: &str) -> (r: Result<ReaderInfo, ReaderError>)
    ensures
        matches@.len() == 0 ==> (r matches Err(ReaderError::NotFound(q)) && q@ == pattern@),
        matches@.len() == 1 ==> r == Ok::<ReaderInfo, ReaderError>(matches@[0]),
        matches@.len() > 1 ==> (r matches Err(ReaderError::Ambiguous(q)) && q@ == pattern@),
{
    let mut matches = matches;
    if matches.len() == 0 {
        Err(ReaderError::NotFound(pattern.to_owned()))
    } else if matches.len() == 1 {
        Ok(matches.remove(0))
    } else {
        Err(ReaderError::Ambiguous(pattern.to_owned()))
    }
}

/// The last reader of a snapshot with the given name; a snapshot keyed by name keeps
/// the last of several readers with one name.
pub open spec fn last_named(s: Seq<ReaderInfo>, name: Seq<char>) -> Option<ReaderInfo>
    decreases s.len(),
{
    if s.len() == 0 {
        None
    } else if s.last().name@ == name {
        Some(s.last())
    } else {
        last_named(s.drop_last(), name)
    }
}

/// The card events of a reader seen in both snapshots: a card went away or arrived.
pub open spec fn presence_change(old: ReaderInfo, new: ReaderInfo) -> Seq<ReaderEvent> {
    if old.presence == ReaderPresence::Present && new.presence == ReaderPresence::Empty {
        seq![ReaderEvent::CardRemoved(new)]
    } else if old.presence == ReaderPresence::Empty && new.presence == ReaderPresence::Present {
        seq![ReaderEvent::CardInserted(new)]
    } else {
        Seq::empty()
    }
}

/// The events of one reader of the current snapshot.
pub open spec fn arrival_events(previous: Seq<ReaderInfo>, reader: ReaderInfo) -> Seq<ReaderEvent> {
    match last_named(previous, reader.name@) {
        None => if reader.presence == ReaderPresence::Present {
            seq![ReaderEvent::ReaderAttached(reader), ReaderEvent::CardInserted(reader)]
        } else {
            seq![ReaderEvent::ReaderAttached(reader)]
        },
        Some(old) => presence_change(old, reader),
    }
}

/// The events of the readers of the current snapshot, in its order.
pub open spec fn arrivals(previous: Seq<ReaderInfo>, current: Seq<ReaderInfo>) -> Seq<ReaderEvent>
    decreases current.len(),
{
    if current.len() == 0 {
        Seq::empty()
    } else {
        arrivals(previous, current.drop_last()) + arrival_events(previous, current.last())
    }
}

/// A detachment for each reader of the previous snapshot whose name is gone, in its order.
pub open spec fn departures(current: Seq<ReaderInfo>, previous: Seq<ReaderInfo>) -> Seq<ReaderEvent>
    decreases previous.len(),
{
    if previous.len() == 0 {
        Seq::empty()
    } else if last_named(current, previous.last().name@) is None {
        departures(current, previous.drop_last()).push(ReaderEvent::ReaderDetached(previous.last()))
    } else {
        departures(current, previous.drop_last())
    }
}

/// All events between two snapshots: the arrivals and changes first, the departures after.
pub open spec fn snapshot_events(previous: Seq<ReaderInfo>, current: Seq<ReaderInfo>) -> Seq<
    ReaderEvent,
> {
    arrivals(previous, current) + departures(current, previous)
}

fn find_last_named(readers: &[ReaderInfo], name: &String) -> (r: Option<usize>)
    ensures
        match last_named(readers@, name@) {
            None => r is None,
            Some(found) => r matches Some(i) && i < readers@.len() && readers@[i as int]
                == found,
        },
{
    let mut j: usize = readers.len();
    assert(readers@.subrange(0, j as int) =~= readers@);
    while j > 0
        invariant
            j <= readers@.len(),
            last_named(readers@, name@) == last_named(readers@.subrange(0, j as int), name@),
        decreases j,
    {
        let ghost prefix = readers@.subrange(0, j as int);
        assert(prefix.drop_last() =~= readers@.subrange(0, j as int - 1));
        if readers[j - 1].name == *name {
            return Some(j - 1);
        }
        j = j - 1;
    }
    None
}

fn push_attached(events: &mut Vec<ReaderEvent>, reader: &ReaderInfo)
    ensures
        final(events)@ == old(events)@ + (if reader.presence == ReaderPresence::Present {
            seq![ReaderEvent::ReaderAttached(*reader), ReaderEvent::CardInserted(*reader)]
        } else {
            seq![ReaderEvent::ReaderAttached(*reader)]
        }),
{
    events.push(ReaderEvent::ReaderAttached(reader.duplicate()));
    if reader.presence == ReaderPresence::Present {
        events.push(ReaderEvent::CardInserted(reader.duplicate()));
    }
}

fn push_presence_change(events: &mut Vec<ReaderEvent>, before: &ReaderInfo, new: &ReaderInfo)
    ensures
        final(events)@ == old(events)@ + presence_change(*before, *new),
{
    if before.presence == ReaderPresence::Present && new.presence == ReaderPresence::Empty {
        events.push(ReaderEvent::CardRemoved(new.duplicate()));
    } else if before.presence == ReaderPresence::Empty && new.presence == ReaderPresence::Present {
        events.push(ReaderEvent::CardInserted(new.duplicate()));
    }
}

fn attached_and_changed(previous: &[ReaderInfo], current: &[ReaderInfo]) -> (r: Vec<ReaderEvent>)
    ensures
        r@ == arrivals(previous@, current@),
{
    let mut events: Vec<ReaderEvent> = Vec::new();
    let mut i: usize = 0;
    while i < current.len()
        invariant
            i <= current@.len(),
            events@ == arrivals(previous@, current@.subrange(0, i as int)),
        decreases current@.len() - i,
    {
        let ghost prefix = current@.subrange(0, i as int + 1);
        assert(prefix.drop_last() =~= current@.subrange(0, i as int));
        let reader = &current[i];
        match find_last_named(previous, &reader.name) {
            None => push_attached(&mut events, reader),
            Some(k) => push_presence_change(&mut events, &previous[k], reader),
        }
        i = i + 1;
    }
    assert(current@.subrange(0, current@.len() as int) =~= current@);
    events
}

fn detached(current: &[ReaderInfo], previous: &[ReaderInfo]) -> (r: Vec<ReaderEvent>)
    ensures
        r@ == departures(current@, previous@),
{
    let mut events: Vec<ReaderEvent> = Vec::new();
    let mut i: usize = 0;
    while i < previous.len()
        invariant
            i <= previous@.len(),
            events@ == departures(current@, previous@.subrange(0, i as int)),
        decreases previous@.len() - i,
    {
        let ghost prefix = previous@.subrange(0, i as int + 1);
        assert(prefix.drop_last() =~= previous@.subrange(0, i as int));
        if find_last_named(current, &previous[i].name).is_none() {
            events.push(ReaderEvent::ReaderDetached(previous[i].duplicate()));
        }
        i = i + 1;
    }
    assert(previous@.subrange(0, previous@.len() as int) =~= previous@);
    events
}

/// The events that lead from the `previous` snapshot to the `current` one.
pub fn diff_snapshots(previous: &[ReaderInfo], current: &[ReaderInfo]) -> (r: Vec<ReaderEvent>)
    ensures
        r@ == snapshot_events(previous@, current@),
{
    let mut events = attached_and_changed(previous, current);
    let mut gone = detached(current, previous);
    events.append(&mut gone);
    events
}

/// No two readers of a snapshot share a name.
pub open spec fn distinct_names(s: Seq<ReaderInfo>) -> bool {
    forall|i: int, j: int| 0 <= i < j < s.len() ==> s[i].name@ != s[j].name@
}

proof fn lemma_last_named_finds(s: Seq<ReaderInfo>, k: int)
    requires
        distinct_names(s),
        0 <= k < s.len(),
    ensures
        last_named(s, s[k].name@) == Some(s[k]),
    decreases s.len(),
{
    if k < s.len() - 1 {
        let t = s.drop_last();
        assert(s.last() == s[s.len() - 1]);
        assert(distinct_names(t));
        lemma_last_named_finds(t, k);
    }
}

proof fn lemma_no_arrivals(s: Seq<ReaderInfo>, k: int)
    requires
        distinct_names(s),
        0 <= k <= s.len(),
    ensures
        arrivals(s, s.subrange(0, k)) == Seq::<ReaderEvent>::empty(),
    decreases k,
{
    if k > 0 {
        let p = s.subrange(0, k);
        assert(p.drop_last() =~= s.subrange(0, k - 1));
        lemma_no_arrivals(s, k - 1);
        lemma_last_named_finds(s, k - 1);
        assert(p.last() == s[k - 1]);
        assert(arrival_events(s, s[k - 1]) =~= Seq::<ReaderEvent>::empty());
        assert(arrivals(s, p) =~= Seq::<ReaderEvent>::empty());
    }
}

proof fn lemma_no_departures(s: Seq<ReaderInfo>, k: int)
    requires
        distinct_names(s),
        0 <= k <= s.len(),
    ensures
        departures(s, s.subrange(0, k)) == Seq::<ReaderEvent>::empty(),
    decreases k,
{
    if k > 0 {
        let p = s.subrange(0, k);
        assert(p.drop_last() =~= s.subrange(0, k - 1));
        lemma_no_departures(s, k - 1);
        lemma_last_named_finds(s, k - 1);
        assert(p.last() == s[k - 1]);
    }
}

/// Two equal snapshots whose readers have distinct names differ by no event.
pub proof fn lemma_same_snapshot_no_events(s: Seq<ReaderInfo>)
    requires
        distinct_names(s),
    ensures
        snapshot_events(s, s) == Seq::<ReaderEvent>::empty(),
{
    lemma_no_arrivals(s, s.len() as int);
    lemma_no_departures(s, s.len() as int);
    assert(s.subrange(0, s.len() as int) =~= s);
    assert(snapshot_events(s, s) =~= Seq::<ReaderEvent>::empty());
}

/// A reader that appears with a card is reported as attached, then as holding a card.
pub proof fn lemma_new_reader_with_card(reader: ReaderInfo)
    requires
        reader.presence == ReaderPresence::Present,
    ensures
        snapshot_events(Seq::empty(), seq![reader]) == seq![
            ReaderEvent::ReaderAttached(reader),
            ReaderEvent::CardInserted(reader),
        ],
{
    let cur = seq![reader];
    assert(cur.drop_last() =~= Seq::<ReaderInfo>::empty());
    assert(cur.last() == reader);
    assert(last_named(Seq::<ReaderInfo>::empty(), reader.name@) is None);
    assert(arrivals(Seq::<ReaderInfo>::empty(), Seq::<ReaderInfo>::empty()) =~= Seq::<ReaderEvent>::empty());
    assert(arrivals(Seq::empty(), cur) == arrivals(Seq::empty(), cur.drop_last()) + arrival_events(Seq::empty(), cur.last()));
    assert(arrivals(Seq::empty(), cur) =~= arrival_events(Seq::empty(), reader));
    assert(departures(cur, Seq::empty()) =~= Seq::<ReaderEvent>::empty());
    assert(snapshot_events(Seq::empty(), cur) =~= seq![
        ReaderEvent::ReaderAttached(reader),
        ReaderEvent::CardInserted(reader),
    ]);
}

/// Every reader of the previous snapshot is reported as detached when the current
/// snapshot is empty.
pub proof fn lemma_all_detached(previous: Seq<ReaderInfo>)
    ensures
        snapshot_events(previous, Seq::empty()) == previous.map_values(
            |r: ReaderInfo| ReaderEvent::ReaderDetached(r),
        ),
    decreases previous.len(),
{
    if previous.len() > 0 {
        lemma_all_detached(previous.drop_last());
        assert(previous.drop_last().map_values(|r: ReaderInfo| ReaderEvent::ReaderDetached(r)).push(
            ReaderEvent::ReaderDetached(previous.last()),
        ) =~= previous.map_values(|r: ReaderInfo| ReaderEvent::ReaderDetached(r)));
        assert(arrivals(previous, Seq::empty()) =~= Seq::<ReaderEvent>::empty());
        assert(arrivals(previous.drop_last(), Seq::empty()) =~= Seq::<ReaderEvent>::empty());
        assert(snapshot_events(previous, Seq::empty()) =~= departures(Seq::empty(), previous));
        assert(snapshot_events(previous.drop_last(), Seq::empty()) =~= departures(
            Seq::empty(),
            previous.drop_last(),
        ));
    } else {
        assert(snapshot_events(previous, Seq::empty()) =~= previous.map_values(
            |r: ReaderInfo| ReaderEvent::ReaderDetached(r),
        ));
    }
}

proof fn lemma_last_named_absent(s: Seq<ReaderInfo>, name: Seq<char>)
    ensures
        (last_named(s, name) is None) <==> (forall|j: int| 0 <= j < s.len() ==> #[trigger] s[j].name@ != name),
    decreases s.len(),
{
    if s.len() > 0 {
        lemma_last_named_absent(s.drop_last(), name);
        if last_named(s, name) is None {
            assert forall|j: int| 0 <= j < s.len() implies #[trigger] s[j].name@ != name by {
                if j < s.len() - 1 {
                    assert(s[j] == s.drop_last()[j]);
                }
            }
        } else {
            if s.last().name@ != name {
                let j = choose|j: int| 0 <= j < s.drop_last().len() && #[trigger] s.drop_last()[j].name@ == name;
                assert(s[j] == s.drop_last()[j]);
            }
        }
    }
}

proof fn lemma_arrivals_detach_nothing(previous: Seq<ReaderInfo>, current: Seq<ReaderInfo>)
    ensures
        forall|k: int|
            0 <= k < arrivals(previous, current).len() ==> !(#[trigger] arrivals(previous, current)[k] is ReaderDetached),
    decreases current.len(),
{
    if current.len() > 0 {
        lemma_arrivals_detach_nothing(previous, current.drop_last());
        let head = arrivals(previous, current.drop_last());
        let tail = arrival_events(previous, current.last());
        assert forall|k: int| 0 <= k < arrivals(previous, current).len() implies !(#[trigger] arrivals(
            previous,
            current,
        )[k] is ReaderDetached) by {
            if k < head.len() {
                assert(arrivals(previous, current)[k] == head[k]);
            } else {
                assert(arrivals(previous, current)[k] == tail[k - head.len()]);
            }
        }
    }
}

proof fn lemma_departures_exact(current: Seq<ReaderInfo>, previous: Seq<ReaderInfo>)
    ensures
        forall|k: int|
            0 <= k < departures(current, previous).len() ==> (#[trigger] departures(current, previous)[k] matches ReaderEvent::ReaderDetached(p)
                && previous.contains(p) && forall|j: int|
                0 <= j < current.len() ==> #[trigger] current[j].name@ != p.name@),
        forall|i: int|
            0 <= i < previous.len() && (forall|j: int|
                0 <= j < current.len() ==> #[trigger] current[j].name@ != previous[i].name@)
                ==> departures(current, previous).contains(ReaderEvent::ReaderDetached(#[trigger] previous[i])),
    decreases previous.len(),
{
    if previous.len() > 0 {
        let rest = previous.drop_last();
        lemma_departures_exact(current, rest);
        lemma_last_named_absent(current, previous.last().name@);
        let d = departures(current, previous);
        let e = departures(current, rest);
        assert forall|k: int| 0 <= k < d.len() implies (#[trigger] d[k] matches ReaderEvent::ReaderDetached(p)
            && previous.contains(p) && forall|j: int| 0 <= j < current.len() ==> #[trigger] current[j].name@ != p.name@) by {
            if k < e.len() {
                assert(d[k] == e[k]);
                let p = d[k]->ReaderDetached_0;
                let w = choose|w: int| 0 <= w < rest.len() && rest[w] == p;
                assert(previous[w] == rest[w]);
            } else {
                assert(d[k] == ReaderEvent::ReaderDetached(previous.last()));
                assert(previous[previous.len() - 1] == previous.last());
            }
        }
        assert forall|i: int|
            0 <= i < previous.len() && (forall|j: int|
                0 <= j < current.len() ==> #[trigger] current[j].name@ != previous[i].name@)
            implies d.contains(ReaderEvent::ReaderDetached(#[trigger] previous[i])) by {
            if i < rest.len() {
                assert(previous[i] == rest[i]);
                let w = choose|w: int| 0 <= w < e.len() && e[w] == ReaderEvent::ReaderDetached(rest[i]);
                assert(d[w] == e[w]);
            } else {
                assert(previous[i] == previous.last());
                assert(d[d.len() - 1] == ReaderEvent::ReaderDetached(previous.last()));
            }
        }
    }
}

/// A reader of the previous snapshot is reported detached exactly when no reader of
/// the current snapshot has its name, whatever the readers' positions: every
/// detachment is of a previous reader whose name is gone, and every previous reader
/// whose name is gone is reported detached.
pub proof fn lemma_detached_exactly_when_gone(previous: Seq<ReaderInfo>, current: Seq<ReaderInfo>)
    ensures
        forall|k: int|
            0 <= k < snapshot_events(previous, current).len() ==> (#[trigger] snapshot_events(previous, current)[k] matches ReaderEvent::ReaderDetached(p)
                ==> previous.contains(p) && forall|j: int|
                0 <= j < current.len() ==> #[trigger] current[j].name@ != p.name@),
        forall|i: int|
            0 <= i < previous.len() && (forall|j: int|
                0 <= j < current.len() ==> #[trigger] current[j].name@ != previous[i].name@)
                ==> snapshot_events(previous, current).contains(ReaderEvent::ReaderDetached(#[trigger] previous[i])),
{
    lemma_arrivals_detach_nothing(previous, current);
    lemma_departures_exact(current, previous);
    let a = arrivals(previous, current);
    let d = departures(current, previous);
    let all = snapshot_events(previous, current);
    assert(all == a + d);
    assert forall|k: int| 0 <= k < all.len() implies (#[trigger] all[k] matches ReaderEvent::ReaderDetached(p)
        ==> previous.contains(p) && forall|j: int| 0 <= j < current.len() ==> #[trigger] current[j].name@ != p.name@) by {
        if k < a.len() {
            assert(all[k] == a[k]);
        } else {
            assert(all[k] == d[k - a.len()]);
        }
    }
    assert forall|i: int|
        0 <= i < previous.len() && (forall|j: int|
            0 <= j < current.len() ==> #[trigger] current[j].name@ != previous[i].name@)
        implies all.contains(ReaderEvent::ReaderDetached(#[trigger] previous[i])) by {
        let w = choose|w: int| 0 <= w < d.len() && d[w] == ReaderEvent::ReaderDetached(previous[i]);
        assert(all[a.len() + w] == d[w]);
    }
}

} // verus!
