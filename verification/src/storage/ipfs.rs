//! The fetcher: addresses in the content-addressed store, the retry rule of a
//! download and the reading of the store's answers.
//!
//! A download is tried up to a fixed number of times with a fixed pause
//! between tries. The caller performs each transfer and reports how it went;
//! the functions here decide what happens next.

use crate::error::{message_of, ClientError, ErrorKind};
use crate::json::{json_member, read_member, JsonMember, JsonMemberView};
use crate::text::{decimal, joined, u64_to_decimal};
use vstd::prelude::*;
use vstd::string::*;

verus! {

/// The gateway used where none is configured.
pub open spec fn default_gateway() -> Seq<char> {
    "https://ipfs.io"@
}

/// The write endpoint of the local node of the store.
pub open spec fn upload_endpoint() -> Seq<char> {
    "http://localhost:5001/api/v0/add"@
}

/// The address of `cid` at `gateway`.
pub open spec fn content_url(gateway: Seq<char>, cid: Seq<char>) -> Seq<char> {
    gateway + "/ipfs/"@ + cid
}

/// Whether an HTTP status code reports success.
pub open spec fn is_success(code: u16) -> bool {
    200 <= code < 300
}

/// Whether an HTTP status code reports success.
pub fn status_is_success(code: u16) -> (r: bool)
    ensures
        r == is_success(code),
{
    200 <= code && code < 300
}

/// How often a download is tried and how long it pauses between tries.
#[derive(Clone, Copy, Debug, PartialEq, Eq, Structural)]
pub struct RetryPolicy {
    /// Greatest number of tries; a download is tried once even where this
    /// is zero.
    pub max_attempts: u32,
    /// Pause before the next try, in seconds.
    pub delay_secs: u64,
}

impl Default for RetryPolicy {
    /// Three tries, two seconds apart.
    fn default() -> (r: Self)
        ensures
            r == (RetryPolicy { max_attempts: 3, delay_secs: 2 }),
    {
        RetryPolicy { max_attempts: 3, delay_secs: 2 }
    }
}

/// Client of the content-addressed store.
pub struct IpfsClient {
    gateway_url: String,
}

impl View for IpfsClient {
    type V = Seq<char>;

    /// The gateway address.
    closed spec fn view(&self) -> Seq<char> {
        self.gateway_url@
    }
}

/// A download in progress: the policy and the number of tries made so far.
pub struct Download {
    policy: RetryPolicy,
    attempts: u32,
}

/// A download over mathematical values.
pub struct DownloadView {
    pub policy: RetryPolicy,
    pub attempts: nat,
}

impl View for Download {
    type V = DownloadView;

    closed spec fn view(&self) -> DownloadView {
        DownloadView { policy: self.policy, attempts: self.attempts as nat }
    }
}

/// What follows one try of a download.
pub enum Verdict {
    /// The artifact is at its destination.
    Done,
    /// Pause for `delay_secs` seconds, then try again with `next`.
    Retry { next: Download, delay_secs: u64 },
    /// No tries are left: the download failed with this error.
    GiveUp(ClientError),
    /// Shutdown was raised: stop without a result.
    Abort,
}

/// `Verdict` over mathematical values.
pub enum VerdictView {
    Done,
    Retry { next: DownloadView, delay_secs: u64 },
    GiveUp((ErrorKind, Seq<char>)),
    Abort,
}

impl View for Verdict {
    type V = VerdictView;

    open spec fn view(&self) -> VerdictView {
        match self {
            Verdict::Done => VerdictView::Done,
            Verdict::Retry { next, delay_secs } => VerdictView::Retry {
                next: next@,
                delay_secs: *delay_secs,
            },
            Verdict::GiveUp(e) => VerdictView::GiveUp(e@),
            Verdict::Abort => VerdictView::Abort,
        }
    }
}

/// The detail of the error of a download of `cid` that failed `attempts`
/// times, the last time with `last_error`.
pub open spec fn exhausted_detail(cid: Seq<char>, attempts: nat, last_error: Seq<char>) -> Seq<
    char,
> {
    "Failed to download "@ + cid + " after "@ + decimal(attempts) + " attempts: "@ + last_error
}

/// One try of a download as the caller saw it.
pub struct Attempt {
    /// The error of the try; `None` where it succeeded.
    pub failure: Option<(ErrorKind, Seq<char>)>,
    /// Whether shutdown was raised when the try ended.
    pub shutdown: bool,
}

/// The message of the error of a failed try.
pub open spec fn failure_message(attempt: Attempt) -> Seq<char> {
    match attempt.failure {
        Some(e) => message_of(e.0, e.1),
        None => Seq::empty(),
    }
}

/// What follows a try that ended as `attempt` says, after `made` earlier
/// tries.
pub open spec fn verdict_after(
    policy: RetryPolicy,
    cid: Seq<char>,
    made: nat,
    attempt: Attempt,
) -> VerdictView {
    match attempt.failure {
        None => VerdictView::Done,
        Some(e) => if made + 1 < policy.max_attempts {
            if attempt.shutdown {
                VerdictView::Abort
            } else {
                VerdictView::Retry {
                    next: DownloadView { policy, attempts: made + 1 },
                    delay_secs: policy.delay_secs,
                }
            }
        } else {
            VerdictView::GiveUp(
                (ErrorKind::Storage, exhausted_detail(cid, made + 1, failure_message(attempt))),
            )
        },
    }
}

/// How a download ended, or that it has not.
pub enum Ending {
    /// The tries reported so far do not end the download.
    Pending,
    /// A try succeeded.
    Succeeded,
    /// All tries failed; the error of the download.
    Failed((ErrorKind, Seq<char>)),
    /// Shutdown was raised between tries.
    Aborted,
}

/// The number of tries made and the ending of a download that has made
/// `made` tries and then sees `attempts` in order.
pub open spec fn run(policy: RetryPolicy, cid: Seq<char>, made: nat, attempts: Seq<Attempt>) -> (
    nat,
    Ending,
)
    decreases attempts.len(),
{
    if attempts.len() == 0 {
        (made, Ending::Pending)
    } else {
        match verdict_after(policy, cid, made, attempts[0]) {
            VerdictView::Done => (made + 1, Ending::Succeeded),
            VerdictView::Retry { .. } => run(policy, cid, made + 1, attempts.drop_first()),
            VerdictView::GiveUp(e) => (made + 1, Ending::Failed(e)),
            VerdictView::Abort => (made + 1, Ending::Aborted),
        }
    }
}

/// Whether a try failed while no shutdown was raised.
pub open spec fn failed_quietly(attempt: Attempt) -> bool {
    attempt.failure is Some && !attempt.shutdown
}

/// The number of tries a policy allows: `max_attempts`, but at least one.
pub open spec fn tries_allowed(policy: RetryPolicy) -> nat {
    if policy.max_attempts == 0 {
        1
    } else {
        policy.max_attempts as nat
    }
}

impl Download {
    #[verifier::type_invariant]
    spec fn tries_left(&self) -> bool {
        self.attempts == 0 || self.attempts < self.policy.max_attempts
    }

    /// A download that has not been tried yet.
    pub fn new(policy: RetryPolicy) -> (r: Self)
        ensures
            r@ == (DownloadView { policy, attempts: 0 }),
    {
        Download { policy, attempts: 0 }
    }

    /// Number of tries made so far.
    pub fn attempts(&self) -> (n: u32)
        ensures
            n == self@.attempts,
    {
        self.attempts
    }

    /// Decides what follows a try. `outcome` is the result of the transfer,
    /// `shutdown` whether shutdown has been raised.
    ///
    /// A success ends the download. A failure is retried after the policy's
    /// pause while tries are left, unless shutdown was raised; with no tries
    /// left the download fails with a storage error that wraps the last
    /// error.
    pub fn after_attempt(
        self,
        cid: &str,
        outcome: Result<(), ClientError>,
        shutdown: bool,
    ) -> (v: Verdict)
        ensures
            v@ == verdict_after(
                self@.policy,
                cid@,
                self@.attempts,
                Attempt {
                    failure: match outcome {
                        Ok(_) => None,
                        Err(e) => Some(e@),
                    },
                    shutdown,
                },
            ),
    {
        proof {
            use_type_invariant(&self);
        }
        match outcome {
            Ok(_) => Verdict::Done,
            Err(e) => {
                let made: u32 = self.attempts + 1;
                if made < self.policy.max_attempts {
                    if shutdown {
                        Verdict::Abort
                    } else {
                        Verdict::Retry {
                            next: Download { policy: self.policy, attempts: made },
                            delay_secs: self.policy.delay_secs,
                        }
                    }
                } else {
                    let mut detail = joined("Failed to download ", cid);
                    detail.append(" after ");
                    detail.append(u64_to_decimal(made as u64).as_str());
                    detail.append(" attempts: ");
                    detail.append(e.to_string().as_str());
                    Verdict::GiveUp(ClientError::Storage(detail))
                }
            },
        }
    }
}

/// A download succeeds with exactly `k + 1` tries when its first `k` tries
/// fail without shutdown, the next one succeeds and the policy allows that
/// many.
pub proof fn lemma_succeeds_on_first_success(
    policy: RetryPolicy,
    cid: Seq<char>,
    attempts: Seq<Attempt>,
    k: nat,
)
    requires
        k < attempts.len(),
        k < tries_allowed(policy),
        forall|j: int| 0 <= j < k ==> failed_quietly(#[trigger] attempts[j]),
        attempts[k as int].failure is None,
    ensures
        run(policy, cid, 0, attempts) == (k + 1, Ending::Succeeded),
{
    lemma_run_from(policy, cid, attempts, 0, k);
}

/// A download whose tries all fail, without shutdown, makes exactly as many
/// tries as the policy allows and fails with a storage error that wraps the
/// error of the last try.
pub proof fn lemma_exhausts_all_tries(policy: RetryPolicy, cid: Seq<char>, attempts: Seq<Attempt>)
    requires
        attempts.len() >= tries_allowed(policy),
        forall|j: int| 0 <= j < tries_allowed(policy) ==> failed_quietly(#[trigger] attempts[j]),
    ensures
        run(policy, cid, 0, attempts).0 == tries_allowed(policy),
        run(policy, cid, 0, attempts).1 == Ending::Failed(
            (
                ErrorKind::Storage,
                exhausted_detail(
                    cid,
                    tries_allowed(policy),
                    failure_message(attempts[tries_allowed(policy) - 1]),
                ),
            ),
        ),
{
    lemma_run_from(policy, cid, attempts, 0, (tries_allowed(policy) - 1) as nat);
}

/// The run of a download that has made `made` tries, all later tries before
/// the `k`-th of `attempts` failing without shutdown: it ends with the
/// `k`-th, after `made + k + 1` tries in all.
proof fn lemma_run_from(
    policy: RetryPolicy,
    cid: Seq<char>,
    attempts: Seq<Attempt>,
    made: nat,
    k: nat,
)
    requires
        k < attempts.len(),
        made + k < tries_allowed(policy),
        forall|j: int| 0 <= j < k ==> failed_quietly(#[trigger] attempts[j]),
        attempts[k as int].failure is None || made + k + 1 == tries_allowed(policy),
    ensures
        run(policy, cid, made, attempts).0 == made + k + 1,
        attempts[k as int].failure is None ==> run(policy, cid, made, attempts).1
            == Ending::Succeeded,
        attempts[k as int].failure is Some ==> run(policy, cid, made, attempts).1
            == Ending::Failed(
            (
                ErrorKind::Storage,
                exhausted_detail(cid, made + k + 1, failure_message(attempts[k as int])),
            ),
        ),
    decreases k,
{
    if k > 0 {
        let rest = attempts.drop_first();
        assert forall|j: int| 0 <= j < k - 1 implies failed_quietly(#[trigger] rest[j]) by {
            assert(rest[j] == attempts[j + 1]);
        }
        assert(rest[k - 1] == attempts[k as int]);
        lemma_run_from(policy, cid, rest, made + 1, (k - 1) as nat);
    }
}

/// The content identifier that the store's answer to an upload names, or
/// the error of an answer that names none.
pub open spec fn cid_of(member: Result<JsonMemberView, Seq<char>>) -> Result<
    Seq<char>,
    (ErrorKind, Seq<char>),
> {
    match member {
        Err(e) => Err((ErrorKind::Storage, "Failed to parse IPFS response: "@ + e)),
        Ok(JsonMemberView::Text(cid)) => Ok(cid),
        Ok(_) => Err((ErrorKind::Storage, "No Hash in IPFS response"@)),
    }
}

/// Whether `r` is `expected`, text compared by its characters.
pub open spec fn same_cid(
    r: Result<String, ClientError>,
    expected: Result<Seq<char>, (ErrorKind, Seq<char>)>,
) -> bool {
    match r {
        Ok(cid) => expected == Ok::<Seq<char>, (ErrorKind, Seq<char>)>(cid@),
        Err(e) => expected == Err::<Seq<char>, (ErrorKind, Seq<char>)>(e@),
    }
}

/// The storage error of a transfer that failed with `cause`, described by
/// `what`.
fn storage_error(what: &str, cause: &str) -> (e: ClientError)
    ensures
        e@ == (ErrorKind::Storage, what@ + cause@),
{
    ClientError::Storage(joined(what, cause))
}

/// The error of a download request that got no answer; `cause` is the
/// message of the transport.
pub fn request_failed(cause: &str) -> (e: ClientError)
    ensures
        e@ == (ErrorKind::Storage, "IPFS request failed: "@ + cause@),
{
    storage_error("IPFS request failed: ", cause)
}

/// The error of an answer whose body could not be read.
pub fn read_failed(cause: &str) -> (e: ClientError)
    ensures
        e@ == (ErrorKind::Storage, "Failed to read response: "@ + cause@),
{
    storage_error("Failed to read response: ", cause)
}

/// The error of an upload request that got no answer.
pub fn upload_failed(cause: &str) -> (e: ClientError)
    ensures
        e@ == (ErrorKind::Storage, "IPFS upload failed: "@ + cause@),
{
    storage_error("IPFS upload failed: ", cause)
}

/// Accepts the gateway's answer to a download where its status reports
/// success; `status` is the status as the operator reads it.
pub fn check_gateway_status(code: u16, status: &str) -> (r: Result<(), ClientError>)
    ensures
        is_success(code) ==> r is Ok,
        !is_success(code) ==> (r matches Err(e) && e@ == (
            ErrorKind::Storage,
            "IPFS gateway returned status: "@ + status@,
        )),
{
    if status_is_success(code) {
        Ok(())
    } else {
        Err(storage_error("IPFS gateway returned status: ", status))
    }
}

/// Accepts the store's answer to an upload where its status reports
/// success.
pub fn check_upload_status(code: u16, status: &str) -> (r: Result<(), ClientError>)
    ensures
        is_success(code) ==> r is Ok,
        !is_success(code) ==> (r matches Err(e) && e@ == (
            ErrorKind::Storage,
            "IPFS upload returned status: "@ + status@,
        )),
{
    if status_is_success(code) {
        Ok(())
    } else {
        Err(storage_error("IPFS upload returned status: ", status))
    }
}

/// Whether an artifact is accessible, from a probe of its address: the
/// status code of the answer, or `None` where the probe got no answer.
pub fn accessible(probe: Option<u16>) -> (r: bool)
    ensures
        r == (probe matches Some(code) && is_success(code)),
{
    match probe {
        Some(code) => status_is_success(code),
        None => false,
    }
}

/// The content identifier named by the member `Hash` of the store's answer
/// to an upload.
pub fn cid_from_member(member: Result<JsonMember, String>) -> (r: Result<String, ClientError>)
    ensures
        same_cid(
            r,
            cid_of(
                match member {
                    Ok(m) => Ok(m@),
                    Err(e) => Err(e@),
                },
            ),
        ),
{
    match member {
        Err(e) => Err(storage_error("Failed to parse IPFS response: ", e.as_str())),
        Ok(JsonMember::Text(cid)) => Ok(cid),
        Ok(_) => {
            proof {
                reveal_strlit("");
            }
            assert("No Hash in IPFS response"@ + ""@ =~= "No Hash in IPFS response"@);
            Err(storage_error("No Hash in IPFS response", ""))
        },
    }
}

/// The content identifier that the store's answer `body` to an upload
/// names: the string member `Hash` of the JSON document.
pub fn cid_from_response(body: &str) -> (r: Result<String, ClientError>)
    ensures
        same_cid(r, cid_of(json_member(body@, "Hash"@))),
{
    cid_from_member(read_member(body, "Hash"))
}

impl IpfsClient {
    /// A client of `gateway_url`, or of the public gateway where none is
    /// given.
    pub fn new(gateway_url: Option<String>) -> (r: Self)
        ensures
            r@ == match gateway_url {
                Some(g) => g@,
                None => default_gateway(),
            },
    {
        let gateway_url = match gateway_url {
            Some(g) => g,
            None => String::from_str("https://ipfs.io"),
        };
        IpfsClient { gateway_url }
    }

    /// The gateway address.
    pub fn gateway_url(&self) -> (r: &str)
        ensures
            r@ == self@,
    {
        self.gateway_url.as_str()
    }

    /// The address from which `cid` is downloaded.
    pub fn download_url(&self, cid: &str) -> (r: String)
        ensures
            r@ == content_url(self@, cid@),
    {
        let mut r = joined(self.gateway_url.as_str(), "/ipfs/");
        r.append(cid);
        r
    }

    /// The address to which artifacts are uploaded.
    pub fn upload_url(&self) -> (r: &'static str)
        ensures
            r@ == upload_endpoint(),
    {
        "http://localhost:5001/api/v0/add"
    }

    /// Starts a download under the fixed policy of three tries, two seconds
    /// apart.
    pub fn download(&self) -> (r: Download)
        ensures
            r@ == (DownloadView {
                policy: RetryPolicy { max_attempts: 3, delay_secs: 2 },
                attempts: 0,
            }),
    {
        Download::new(RetryPolicy::default())
    }
}

} // verus!
