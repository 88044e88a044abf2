//! The rules of the webhook output: which URLs may receive identity data, which
//! answers count as delivered and which failures are retried.
use vstd::prelude::*;
use crate::lifecycle::{answers, retried, run_with_retries};
use crate::output::OutputError;
use crate::text::{decimal, push_decimal, push_text};

verus! {

/// Attempts per record, each with the same `Idempotency-Key`.
pub const WEBHOOK_ATTEMPTS: u8 = 3;

/// Pause between two attempts, in milliseconds.
pub const WEBHOOK_RETRY_DELAY_MS: u64 = 500;

/// The host of a parsed URL: a domain name, or an IPv4 or IPv6 address given by its
/// octets or its 16-bit segments, most significant first.
#[derive(Clone, Debug, PartialEq, Eq)]
pub enum UrlHost {
    Domain(String),
    Ipv4([u8; 4]),
    Ipv6([u16; 8]),
}

/// A host as the specifications see it.
pub enum HostView {
    Domain(Seq<char>),
    Ipv4(Seq<u8>),
    Ipv6(Seq<u16>),
}

/// What the URL checks read of a parsed URL: its scheme and its host, if any.
#[derive(Clone, Debug, PartialEq, Eq)]
pub struct UrlParts {
    pub scheme: String,
    pub host: Option<UrlHost>,
}

pub open spec fn host_view(host: Option<UrlHost>) -> Option<HostView> {
    match host {
        Some(UrlHost::Domain(d)) => Some(HostView::Domain(d@)),
        Some(UrlHost::Ipv4(a)) => Some(HostView::Ipv4(a@)),
        Some(UrlHost::Ipv6(a)) => Some(HostView::Ipv6(a@)),
        None => None,
    }
}

/// What `url::Url::parse` makes of a text: `None` when it refuses it, otherwise the
/// scheme and the host of the URL. It depends on the text alone.
pub uninterp spec fn parsed_url(text: Seq<char>) -> Option<(Seq<char>, Option<HostView>)>;

/// Parses a URL with `url::Url::parse` and keeps its `scheme()` and its `host()`, an
/// address by its `octets()` or `segments()`.
#[verifier::external_body]
fn parse_url(value: &str) -> (r: Option<UrlParts>)
    ensures
        match r {
            None => parsed_url(value@) is None,
            Some(p) => parsed_url(value@) == Some((p.scheme@, host_view(p.host))),
        },
{
    match url::Url::parse(value) {
        Ok(url) => Some(
            UrlParts {
                scheme: url.scheme().to_owned(),
                host: match url.host() {
                    Some(url::Host::Domain(d)) => Some(UrlHost::Domain(d.to_owned())),
                    Some(url::Host::Ipv4(a)) => Some(UrlHost::Ipv4(a.octets())),
                    Some(url::Host::Ipv6(a)) => Some(UrlHost::Ipv6(a.segments())),
                    None => None,
                },
            },
        ),
        Err(_) => None,
    }
}

/// What the URL parser reads of a webhook URL: `None` when it is no URL.
pub fn parse_webhook_url(value: &str) -> (r: Option<UrlParts>)
    ensures
        match r {
            None => parsed_url(value@) is None,
            Some(p) => parsed_url(value@) == Some((p.scheme@, host_view(p.host))),
        },
{
    parse_url(value)
}

/// A loopback host: `localhost`, an IPv4 address in `127.0.0.0/8`, or the IPv6
/// address `::1`.
pub open spec fn loopback_host(host: HostView) -> bool {
    match host {
        HostView::Domain(d) => d == "localhost"@,
        HostView::Ipv4(a) => a.len() == 4 && a[0] == 127,
        HostView::Ipv6(a) => a == seq![0u16, 0, 0, 0, 0, 0, 0, 1],
    }
}

/// Plain HTTP is allowed towards a loopback host only.
pub open spec fn loopback_http(scheme: Seq<char>, host: Option<HostView>) -> bool {
    scheme == "http"@ && match host {
        Some(h) => loopback_host(h),
        None => false,
    }
}

pub open spec fn url_allowed(scheme: Seq<char>, host: Option<HostView>) -> bool {
    scheme == "https"@ || loopback_http(scheme, host)
}

pub open spec fn configuration_error(r: Result<(), OutputError>, message: Seq<char>) -> bool {
    r matches Err(OutputError::Configuration(m)) && m@ == message
}

fn is_loopback_host(host: &UrlHost) -> (r: bool)
    ensures
        r == loopback_host(host_view(Some(*host))->0),
{
    proof {
        reveal_strlit("localhost");
    }
    match host {
        UrlHost::Domain(d) => text_equals(d.as_str(), "localhost"),
        UrlHost::Ipv4(a) => a[0] == 127,
        UrlHost::Ipv6(a) => {
            let r = a[0] == 0 && a[1] == 0 && a[2] == 0 && a[3] == 0 && a[4] == 0 && a[5] == 0
                && a[6] == 0 && a[7] == 1;
            assert(r == (a@ =~= seq![0u16, 0, 0, 0, 0, 0, 0, 1]));
            r
        },
    }
}

pub fn is_loopback_http(parts: &UrlParts) -> (r: bool)
    ensures
        r == loopback_http(parts.scheme@, host_view(parts.host)),
{
    proof {
        reveal_strlit("http");
    }
    if !text_equals(parts.scheme.as_str(), "http") {
        return false;
    }
    match &parts.host {
        Some(host) => is_loopback_host(host),
        None => false,
    }
}

fn text_equals(a: &str, b: &str) -> (r: bool)
    ensures
        r == (a@ == b@),
{
    let n = a.unicode_len();
    if n != b.unicode_len() {
        return false;
    }
    let mut i: usize = 0;
    while i < n
        invariant
            n == a@.len(),
            n == b@.len(),
            i <= n,
            forall|k: int| 0 <= k < i ==> a@[k] == b@[k],
        decreases n - i,
    {
        if a.get_char(i) != b.get_char(i) {
            return false;
        }
        i = i + 1;
    }
    assert(a@ =~= b@);
    true
}

/// Decides whether identity data may be sent to a URL, from what the URL parser
/// made of it.
pub fn check_webhook_url(parts: Option<UrlParts>) -> (r: Result<
    (),
    OutputError,
>)
    ensures
        match parts {
            None => configuration_error(r, "la URL del webhook no es válida"@),
            Some(p) => if url_allowed(p.scheme@, host_view(p.host)) {
                r is Ok
            } else {
                configuration_error(r, "el webhook debe usar HTTPS, salvo en localhost"@)
            },
        },
{
    match parts {
        None => Err(OutputError::Configuration("la URL del webhook no es válida".to_owned())),
        Some(p) => {
            if text_equals(p.scheme.as_str(), "https") || is_loopback_http(&p) {
                Ok(())
            } else {
                Err(
                    OutputError::Configuration(
                        "el webhook debe usar HTTPS, salvo en localhost".to_owned(),
                    ),
                )
            }
        },
    }
}

/// One failed delivery attempt.
#[derive(Clone, Debug, PartialEq, Eq)]
pub struct WebhookAttempt {
    pub message: String,
    pub retryable: bool,
}

/// Server errors, `408 Request Timeout` and `429 Too Many Requests` may be transient.
pub open spec fn status_retryable(status: u16) -> bool {
    (500 <= status && status <= 599) || status == 408 || status == 429
}

/// What an HTTP answer of the receiver means: only a `2xx` delivers the record.
pub fn status_outcome(status: u16) -> (r: Result<(), WebhookAttempt>)
    ensures
        (200 <= status && status <= 299) ==> r is Ok,
        !(200 <= status && status <= 299) ==> (r matches Err(a) && a.message@
            == "el webhook devolvió HTTP "@ + decimal(status as nat) && a.retryable
            == status_retryable(status)),
{
    if 200 <= status && status <= 299 {
        return Ok(());
    }
    let mut message = "el webhook devolvió HTTP ".to_owned();
    push_decimal(&mut message, status as u64);
    Err(
        WebhookAttempt {
            message,
            retryable: (500 <= status && status <= 599) || status == 408 || status == 429,
        },
    )
}

/// The failure of an attempt whose request never got an answer. Failures of TLS or of
/// the URL are configuration; anything else may be a blip.
pub fn transport_failure(description: &str, configuration: bool) -> (r: WebhookAttempt)
    ensures
        r.message@ == "la petición del webhook falló: "@ + description@,
        r.retryable == !configuration,
{
    let mut message = "la petición del webhook falló: ".to_owned();
    push_text(&mut message, description);
    WebhookAttempt { message, retryable: !configuration }
}

/// The value of the `Authorization` header for a token.
pub fn bearer(token: &str) -> (r: String)
    ensures
        r@ == "Bearer "@ + token@,
{
    let mut s = "Bearer ".to_owned();
    push_text(&mut s, token);
    s
}

/// The posts numbered 1 to `failed.len()`: each answered its failed attempt, which
/// may be tried again, and `pause` ran before the next post.
pub open spec fn retried_posts<Post, Pause>(post: Post, pause: Pause, failed: Seq<WebhookAttempt>) -> bool where
    Post: FnMut(u8) -> Result<(), WebhookAttempt>,
    Pause: FnMut(u8, &WebhookAttempt),
 {
    forall|i: int|
        0 <= i < failed.len() ==> {
            &&& answers::<(), WebhookAttempt, Post>(
                post,
                (i + 1) as u8,
                Err::<(), WebhookAttempt>(#[trigger] failed[i]),
            )
            &&& failed[i].retryable
            &&& call_ensures(pause, ((i + 1) as u8, &failed[i]), ())
        }
}

/// A delivery given up: after the retried posts, the next post failed with `last`,
/// and it was the last allowed one or it may not be tried again.
pub open spec fn posts_given_up<Post, Pause>(
    post: Post,
    pause: Pause,
    failed: Seq<WebhookAttempt>,
    last: WebhookAttempt,
) -> bool where
    Post: FnMut(u8) -> Result<(), WebhookAttempt>,
    Pause: FnMut(u8, &WebhookAttempt),
 {
    &&& retried_posts(post, pause, failed)
    &&& failed.len() + 1 <= WEBHOOK_ATTEMPTS
    &&& answers::<(), WebhookAttempt, Post>(
        post,
        (failed.len() + 1) as u8,
        Err::<(), WebhookAttempt>(last),
    )
    &&& (failed.len() + 1 == WEBHOOK_ATTEMPTS || !last.retryable)
}

/// Delivers a record by `post`, called with attempt numbers 1, 2, ... and at most
/// `WEBHOOK_ATTEMPTS` times: it stops at the first success or at the first attempt
/// that may not be tried again, and `pause` runs before each new attempt. A delivery
/// that was given up fails with the message of its last attempt.
pub fn deliver_with_retries<Post, Pause>(post: Post, pause: Pause) -> (r: Result<(), OutputError>) where
    Post: FnMut(u8) -> Result<(), WebhookAttempt>,
    Pause: FnMut(u8, &WebhookAttempt),

    requires
        forall|attempt: u8| call_requires(post, (attempt,)),
        forall|attempt: u8, failed: &WebhookAttempt| call_requires(pause, (attempt, failed)),
    ensures
        r is Ok ==> exists|failed: Seq<WebhookAttempt>|
            #[trigger] retried_posts(post, pause, failed) && failed.len() < WEBHOOK_ATTEMPTS
                && answers::<(), WebhookAttempt, Post>(
                post,
                (failed.len() + 1) as u8,
                Ok::<(), WebhookAttempt>(()),
            ),
        r matches Err(e) ==> exists|failed: Seq<WebhookAttempt>, last: WebhookAttempt|
            #[trigger] posts_given_up(post, pause, failed, last) && e == OutputError::Delivery(
                last.message,
            ),
{
    let retryable = |attempt: &WebhookAttempt| -> (r: bool)
        ensures
            r == attempt.retryable,
        { attempt.retryable };
    let outcome = run_with_retries(WEBHOOK_ATTEMPTS, post, retryable, pause);
    match outcome {
        Ok(()) => {
            proof {
                let failed = choose|failed: Seq<WebhookAttempt>|
                    #[trigger] retried(post, retryable, pause, failed) && failed.len()
                        < WEBHOOK_ATTEMPTS && answers(post, (failed.len() + 1) as u8, Ok::<(), WebhookAttempt>(()));
                assert(retried_posts(post, pause, failed));
            }
            Ok(())
        },
        Err(failure) => {
            proof {
                let failed = choose|failed: Seq<WebhookAttempt>|
                    #[trigger] retried(post, retryable, pause, failed) && failed.len() + 1
                        == failure.attempts;
                assert(retried_posts(post, pause, failed));
                assert(posts_given_up(post, pause, failed, failure.last_error));
            }
            Err(OutputError::Delivery(failure.last_error.message))
        },
    }
}

/// Answers in `2xx` are delivered; the other answers are retried exactly when they are
/// server errors, timeouts or rate limits.
pub proof fn lemma_retry_classes(status: u16)
    ensures
        (400 <= status && status <= 499 && status != 408 && status != 429) ==> !status_retryable(
            status,
        ),
        (500 <= status && status <= 599) ==> status_retryable(status),
        (200 <= status && status <= 299) ==> !status_retryable(status),
{
}

} // verus!
