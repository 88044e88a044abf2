//! The record of one read, versioned for every output.
use vstd::prelude::*;
use crate::engine::EngineRead;
use crate::engine_protocol::{DocumentData, IntegrityResult};
use crate::text::{digit_char, push_text};

verus! {

pub const READ_SCHEMA_VERSION: u8 = 1;

pub const DNI_SOURCE: &'static str = "DNIe_DG13";

/// One read. `read_id` is the 128-bit value of its UUID and `read_at` the instant of
/// the read in RFC 3339, with its time zone offset.
#[derive(Clone, Debug, PartialEq, Eq)]
pub struct ReadRecord {
    pub schema_version: u8,
    pub read_id: u128,
    pub read_at: String,
    pub reader: String,
    pub source: String,
    pub integrity: IntegrityResult,
    pub document: DocumentData,
}

pub open spec fn hex_char(d: int) -> char {
    if d < 10 {
        digit_char(d)
    } else if d == 10 {
        'a'
    } else if d == 11 {
        'b'
    } else if d == 12 {
        'c'
    } else if d == 13 {
        'd'
    } else if d == 14 {
        'e'
    } else {
        'f'
    }
}

/// The last `count` lower-case hexadecimal digits of `n`, most significant first.
pub open spec fn hex_digits(n: nat, count: nat) -> Seq<char>
    decreases count,
{
    if count == 0 {
        Seq::empty()
    } else {
        hex_digits(n / 16, (count - 1) as nat).push(hex_char((n % 16) as int))
    }
}

/// The hyphenated lower-case form of a UUID: its 32 hexadecimal digits, big-endian,
/// grouped 8-4-4-4-12.
pub open spec fn uuid_text(id: u128) -> Seq<char> {
    let h = hex_digits(id as nat, 32);
    h.subrange(0, 8) + "-"@ + h.subrange(8, 12) + "-"@ + h.subrange(12, 16) + "-"@ + h.subrange(
        16,
        20,
    ) + "-"@ + h.subrange(20, 32)
}

/// Writes a UUID given by its 128-bit value with `uuid::Uuid::from_u128` and its
/// `Display`, which gives the hyphenated lower-case form.
#[verifier::external_body]
fn uuid_to_text(id: u128) -> (r: String)
    ensures
        r@ == uuid_text(id),
{
    uuid::Uuid::from_u128(id).to_string()
}

/// A fresh random (version 4) UUID from `uuid::Uuid::new_v4`, as its 128-bit value.
/// Nothing is stated of the value: it is random.
#[verifier::external_body]
fn random_read_id() -> (r: u128) {
    uuid::Uuid::new_v4().as_u128()
}

/// The current local time from `chrono::Local::now`, with its offset, written by
/// `to_rfc3339`. Nothing is stated of the text: it depends on the clock and the
/// machine's time zone.
#[verifier::external_body]
fn local_now_rfc3339() -> (r: String) {
    chrono::Local::now().fixed_offset().to_rfc3339()
}

/// `id` is a value that a random draw of an identifier gives.
pub closed spec fn drawn_id(id: u128) -> bool {
    call_ensures(random_read_id, (), id)
}

/// `at` is a text that a reading of the local clock gives.
pub closed spec fn clock_reading(at: String) -> bool {
    call_ensures(local_now_rfc3339, (), at)
}

/// `t` ends with `suffix`.
pub open spec fn ends_with(t: Seq<char>, suffix: Seq<char>) -> bool {
    suffix.len() <= t.len() && t.subrange(t.len() - suffix.len(), t.len() as int) == suffix
}

/// The JSON form of an instant written in RFC 3339: a zero offset is written `Z`, any
/// other offset as it stands.
pub open spec fn json_instant(t: Seq<char>) -> Seq<char> {
    if ends_with(t, "+00:00"@) {
        t.subrange(0, t.len() - 6) + "Z"@
    } else {
        t
    }
}

/// The RFC 3339 form, with its numeric offset, of an instant read from JSON: `Z` is
/// the zero offset `+00:00`.
pub open spec fn numeric_offset_instant(t: Seq<char>) -> Seq<char> {
    if ends_with(t, "Z"@) {
        t.subrange(0, t.len() - 1) + "+00:00"@
    } else {
        t
    }
}

/// Replaces the last `n` characters of `t` by `suffix`.
fn replace_tail(t: &str, n: usize, suffix: &str) -> (r: String)
    requires
        n <= t@.len(),
    ensures
        r@ == t@.subrange(0, t@.len() - n) + suffix@,
{
    let len = t.unicode_len();
    let mut r = t.substring_char(0, len - n).to_owned();
    push_text(&mut r, suffix);
    r
}

/// Whether `t` ends with `suffix`.
fn has_suffix(t: &str, suffix: &str) -> (r: bool)
    ensures
        r == ends_with(t@, suffix@),
{
    let n = t.unicode_len();
    let k = suffix.unicode_len();
    if k > n {
        return false;
    }
    let mut i: usize = 0;
    while i < k
        invariant
            n == t@.len(),
            k == suffix@.len(),
            k <= n,
            i <= k,
            forall|j: int| 0 <= j < i ==> t@[n - k + j] == suffix@[j],
        decreases k - i,
    {
        if t.get_char(n - k + i) != suffix.get_char(i) {
            assert(t@.subrange(n - k, n as int)[i as int] != suffix@[i as int]);
            return false;
        }
        i = i + 1;
    }
    assert(t@.subrange(n - k, n as int) =~= suffix@);
    true
}

/// The JSON form of an instant: `Z` for a zero offset.
pub fn json_instant_text(t: &str) -> (r: String)
    ensures
        r@ == json_instant(t@),
{
    proof {
        reveal_strlit("+00:00");
        reveal_strlit("Z");
    }
    if has_suffix(t, "+00:00") {
        replace_tail(t, 6, "Z")
    } else {
        t.to_owned()
    }
}

/// The RFC 3339 form of an instant read from JSON: `Z` becomes `+00:00`.
pub fn numeric_offset_text(t: &str) -> (r: String)
    ensures
        r@ == numeric_offset_instant(t@),
{
    proof {
        reveal_strlit("+00:00");
        reveal_strlit("Z");
    }
    if has_suffix(t, "Z") {
        replace_tail(t, 1, "+00:00")
    } else {
        t.to_owned()
    }
}

/// An instant written with a numeric offset goes to JSON and back unchanged, and so
/// does one read from JSON that goes the other way.
pub proof fn lemma_instant_forms_round_trip(t: Seq<char>)
    ensures
        !ends_with(t, "Z"@) ==> numeric_offset_instant(json_instant(t)) == t,
        !ends_with(t, "+00:00"@) ==> json_instant(numeric_offset_instant(t)) == t,
{
    reveal_strlit("+00:00");
    reveal_strlit("Z");
    if !ends_with(t, "Z"@) && ends_with(t, "+00:00"@) {
        let j = t.subrange(0, t.len() - 6) + "Z"@;
        assert(j.subrange(j.len() - 1, j.len() as int) =~= "Z"@);
        assert(j.subrange(0, j.len() - 1) + "+00:00"@ =~= t);
    }
    if !ends_with(t, "+00:00"@) && ends_with(t, "Z"@) {
        let n = t.subrange(0, t.len() - 1) + "+00:00"@;
        assert(n.subrange(n.len() - 6, n.len() as int) =~= "+00:00"@);
        assert(n.subrange(0, n.len() - 6) + "Z"@ =~= t);
    }
}

impl ReadRecord {
    pub fn new(
        read_id: u128,
        read_at: String,
        reader: String,
        document: DocumentData,
        integrity: IntegrityResult,
    ) -> (r: Self)
        ensures
            r.schema_version == READ_SCHEMA_VERSION,
            r.source@ == DNI_SOURCE@,
            r.read_id == read_id,
            r.read_at == read_at,
            r.reader == reader,
            r.document == document,
            r.integrity == integrity,
    {
        ReadRecord {
            schema_version: READ_SCHEMA_VERSION,
            read_id,
            read_at,
            reader,
            source: DNI_SOURCE.to_owned(),
            integrity,
            document,
        }
    }

    /// The record of a read that has just been made in the named reader, with a fresh
    /// identifier and the current time.
    pub fn capture(reader: &str, read: EngineRead) -> (r: Self)
        ensures
            r.schema_version == READ_SCHEMA_VERSION,
            r.source@ == DNI_SOURCE@,
            r.reader@ == reader@,
            r.document == read.document,
            r.integrity == read.integrity,
            drawn_id(r.read_id),
            clock_reading(r.read_at),
    {
        let id = random_read_id();
        let at = local_now_rfc3339();
        assert(drawn_id(id));
        assert(clock_reading(at));
        ReadRecord::new(id, at, reader.to_owned(), read.document, read.integrity)
    }

    /// The identifier in its hyphenated form, as outputs write it.
    pub fn read_id_text(&self) -> (r: String)
        ensures
            r@ == uuid_text(self.read_id),
    {
        uuid_to_text(self.read_id)
    }
}

} // verus!
