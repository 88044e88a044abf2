//! What the supervisor makes of the worker's answers: sanitised failure codes and the
//! acceptance of a decoded response.
use vstd::prelude::*;
use crate::engine_protocol::{
    DocumentData, ENGINE_PROTOCOL_VERSION, EngineError, EngineResponse, IntegrityResult,
};
use crate::reader::ReaderInfo;
use crate::text::{decimal, push_decimal, push_text};

verus! {

#[derive(Clone, Debug, PartialEq, Eq)]
pub struct EngineRead {
    pub document: DocumentData,
    pub integrity: IntegrityResult,
}

/// A sanitised failure code plus an optional detail that never carries card data.
#[derive(Clone, Debug, PartialEq, Eq)]
pub struct EngineFailure {
    pub code: String,
    pub retryable: bool,
    pub detail: Option<String>,
}

pub open spec fn code_char(c: char) -> bool {
    ('A' <= c && c <= 'Z') || ('0' <= c && c <= '9') || c == '_'
}

/// A code the supervisor passes on: at most 64 characters, each an upper-case ASCII
/// letter, an ASCII digit or `_`.
pub open spec fn is_safe_code(s: Seq<char>) -> bool {
    s.len() <= 64 && forall|i: int| 0 <= i < s.len() ==> code_char(#[trigger] s[i])
}

/// The code kept of a code the worker sent: itself when safe, `ENGINE_ERROR` otherwise.
pub open spec fn sanitised(s: Seq<char>) -> Seq<char> {
    if is_safe_code(s) {
        s
    } else {
        "ENGINE_ERROR"@
    }
}

pub fn safe_code(value: String) -> (r: String)
    ensures
        r@ == sanitised(value@),
{
    let s = value.as_str();
    let n = s.unicode_len();
    if n > 64 {
        return "ENGINE_ERROR".to_owned();
    }
    let mut i: usize = 0;
    while i < n
        invariant
            n == value@.len(),
            s@ == value@,
            i <= n,
            forall|k: int| 0 <= k < i ==> code_char(#[trigger] value@[k]),
        decreases n - i,
    {
        let c = s.get_char(i);
        if !(('A' <= c && c <= 'Z') || ('0' <= c && c <= '9') || c == '_') {
            assert(!code_char(value@[i as int]));
            return "ENGINE_ERROR".to_owned();
        }
        i = i + 1;
    }
    value
}

pub open spec fn failure_text(f: EngineFailure) -> Seq<char> {
    match f.detail {
        Some(d) => "error del motor ("@ + f.code@ + ")"@ + ": "@ + d@,
        None => "error del motor ("@ + f.code@ + ")"@,
    }
}

impl EngineFailure {
    pub fn new(code: &str, retryable: bool) -> (r: Self)
        ensures
            r.code@ == sanitised(code@),
            r.retryable == retryable,
            r.detail is None,
    {
        EngineFailure { code: safe_code(code.to_owned()), retryable, detail: None }
    }

    pub fn with_detail(self, detail: String) -> (r: Self)
        ensures
            r.code == self.code,
            r.retryable == self.retryable,
            r.detail == Some(detail),
    {
        EngineFailure { detail: Some(detail), ..self }
    }

    /// The operator message: the code and, when there is one, the detail.
    pub fn to_string(&self) -> (r: String)
        ensures
            r@ == failure_text(*self),
    {
        let mut s = "error del motor (".to_owned();
        push_text(&mut s, self.code.as_str());
        push_text(&mut s, ")");
        match &self.detail {
            Some(d) => {
                push_text(&mut s, ": ");
                push_text(&mut s, d.as_str());
            },
            None => {},
        }
        s
    }
}

/// Reads the DNIe in a reader. The engine decides the outcome.
/// The failure of an installation whose runtime or worker file is missing at `path`.
pub fn engine_not_found(path: &str) -> (r: EngineFailure)
    ensures
        r.code@ == "ENGINE_NOT_FOUND"@,
        !r.retryable,
        r.detail matches Some(d) && d@ == "no existe "@ + path@,
{
    let mut detail = "no existe ".to_owned();
    push_text(&mut detail, path);
    let failure = EngineFailure::new("ENGINE_NOT_FOUND", false).with_detail(detail);
    proof {
        reveal_strlit("ENGINE_NOT_FOUND");
        assert(is_safe_code("ENGINE_NOT_FOUND"@));
    }
    failure
}

pub trait DniEngine {
    fn read(&self, reader: &ReaderInfo) -> Result<EngineRead, EngineFailure>;
}

pub open spec fn is_invalid_response(f: EngineFailure) -> bool {
    f.code@ == "INVALID_ENGINE_RESPONSE"@ && !f.retryable && f.detail is None
}

/// What the supervisor makes of the worker's answer, `None` when it could not be
/// decoded: the document of an answer of protocol 1, the sanitised error of an error
/// of protocol 1, and `INVALID_ENGINE_RESPONSE` for everything else.
pub open spec fn accepted(
    decoded: Option<EngineResponse>,
    r: Result<EngineRead, EngineFailure>,
) -> bool {
    match decoded {
        Some(EngineResponse::Success { protocol, document, integrity }) => if protocol
            == ENGINE_PROTOCOL_VERSION {
            r == Ok::<EngineRead, EngineFailure>(EngineRead { document: *document, integrity })
        } else {
            r matches Err(f) && is_invalid_response(f)
        },
        Some(EngineResponse::Error { protocol, error }) => if protocol
            == ENGINE_PROTOCOL_VERSION {
            r matches Err(f) && f.code@ == sanitised(error.code@) && f.retryable
                == error.retryable && f.detail is None
        } else {
            r matches Err(f) && is_invalid_response(f)
        },
        None => r matches Err(f) && is_invalid_response(f),
    }
}

pub fn interpret_response(decoded: Option<EngineResponse>) -> (r: Result<EngineRead, EngineFailure>)
    ensures
        accepted(decoded, r),
{
    match decoded {
        Some(EngineResponse::Success { protocol, document, integrity }) => {
            if protocol == ENGINE_PROTOCOL_VERSION {
                Ok(EngineRead { document: *document, integrity })
            } else {
                Err(invalid_response())
            }
        },
        Some(EngineResponse::Error { protocol, error }) => {
            if protocol == ENGINE_PROTOCOL_VERSION {
                Err(EngineFailure::new(error.code.as_str(), error.retryable))
            } else {
                Err(invalid_response())
            }
        },
        None => Err(invalid_response()),
    }
}

fn invalid_response() -> (r: EngineFailure)
    ensures
        is_invalid_response(r),
{
    let r = EngineFailure::new("INVALID_ENGINE_RESPONSE", false);
    proof {
        reveal_strlit("INVALID_ENGINE_RESPONSE");
        assert(is_safe_code("INVALID_ENGINE_RESPONSE"@));
    }
    r
}

/// The failure code of a worker that ended unsuccessfully: its exit code when it has a
/// non-negative one.
pub open spec fn exit_code_text(code: Option<i32>) -> Seq<char> {
    match code {
        Some(c) => if c >= 0 {
            "ENGINE_EXIT_"@ + decimal(c as nat)
        } else {
            "ENGINE_EXIT"@
        },
        None => "ENGINE_EXIT"@,
    }
}

pub fn exit_code(code: Option<i32>) -> (r: String)
    ensures
        r@ == exit_code_text(code),
{
    match code {
        Some(c) => {
            if c >= 0 {
                let mut s = "ENGINE_EXIT_".to_owned();
                push_decimal(&mut s, c as u64);
                s
            } else {
                "ENGINE_EXIT".to_owned()
            }
        },
        None => "ENGINE_EXIT".to_owned(),
    }
}

/// The worker's error message never reaches the supervisor's failure: two error
/// answers that differ only in their message give the same failure.
pub proof fn lemma_worker_message_ignored(
    protocol: u8,
    first: EngineError,
    second: EngineError,
    r1: Result<EngineRead, EngineFailure>,
    r2: Result<EngineRead, EngineFailure>,
)
    requires
        first.code@ == second.code@,
        first.retryable == second.retryable,
        accepted(Some(EngineResponse::Error { protocol, error: first }), r1),
        accepted(Some(EngineResponse::Error { protocol, error: second }), r2),
    ensures
        r1 matches Err(f1) && r2 matches Err(f2) && f1.code@ == f2.code@ && f1.retryable
            == f2.retryable && f1.detail == f2.detail,
{
}

/// A failure built from an error answer of the current protocol may be retried exactly
/// when the worker marked its error retryable; a safe worker code is kept as it is,
/// and no detail is attached.
pub proof fn lemma_retry_flag_kept(error: EngineError, r: Result<EngineRead, EngineFailure>)
    requires
        accepted(Some(EngineResponse::Error { protocol: ENGINE_PROTOCOL_VERSION, error }), r),
    ensures
        r is Err,
        r->Err_0.retryable == error.retryable,
        is_safe_code(error.code@) ==> r->Err_0.code@ == error.code@,
        r->Err_0.detail is None,
{
}

/// Every code a failure is built with is safe, whatever the worker sent.
pub proof fn lemma_sanitised_is_safe(s: Seq<char>)
    ensures
        is_safe_code(sanitised(s)),
        sanitised(sanitised(s)) == sanitised(s),
{
    reveal_strlit("ENGINE_ERROR");
}

} // verus!
