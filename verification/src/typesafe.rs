//! Why the TypeSafe model could not answer, and how an HTTP failure is told apart: worth
//! another try, or final.
use crate::fuzzy::{occurs, occurs_exec};
use crate::text::{chars_of, decimal, lowercase, push_decimal, to_lower};
use vstd::prelude::*;

verus! {

/// Why TypeSafe could not answer: no key, quota, outage, bad request.
#[derive(Debug, PartialEq, Eq)]
pub struct Unavailable(pub String);

impl Clone for Unavailable {
    fn clone(&self) -> (r: Self)
        ensures
            r.0@ == self.0@,
    {
        Unavailable(crate::text::copy_string(&self.0))
    }
}

impl Unavailable {
    /// The one line shown when a caller falls back.
    pub fn notice(&self) -> (r: String)
        ensures
            r@ == "⚠ typesafe unavailable: "@ + self.0@,
    {
        let mut r = "⚠ typesafe unavailable: ".to_owned();
        r.append(self.0.as_str());
        r
    }
}

/// The reason given when a request had no answer for question `id`.
pub fn missing(id: &str) -> (r: Unavailable)
    ensures
        r.0@ == "no answer for `"@ + id@ + "`"@,
{
    let mut s = "no answer for `".to_owned();
    s.append(id);
    s.append("`");
    Unavailable(s)
}

/// A question put to the model.
#[derive(Clone, Copy, Debug)]
pub enum Question {
    /// Yes or no, answered as the probability of yes.
    Noul(&'static str),
    /// One of the named options, each with what it means.
    Choice(&'static str, &'static [(&'static str, &'static str)]),
    /// A place on ordered levels, lowest first.
    Score(&'static str, &'static [&'static str]),
}

/// How a failed request ends: worth another try, or not.
#[derive(Debug, PartialEq)]
pub enum Failure {
    Retryable(Unavailable),
    Final(Unavailable),
}

impl Failure {
    /// The reason, whichever way the request failed.
    pub fn into_unavailable(self) -> (r: Unavailable)
        ensures
            r == match self {
                Failure::Retryable(u) => u,
                Failure::Final(u) => u,
            },
    {
        match self {
            Failure::Retryable(u) => u,
            Failure::Final(u) => u,
        }
    }
}

/// The words that mark a quota problem wherever they appear in the reason.
pub open spec fn quota_words() -> Seq<Seq<char>> {
    seq!["quota"@, "credit"@, "billing"@, "balance"@, "insufficient"@, "exceeded"@]
}

/// Whether the lowered reason speaks of the quota.
pub open spec fn mentions_quota(lower: Seq<char>) -> bool {
    exists|i: int| 0 <= i < quota_words().len() && occurs(#[trigger] quota_words()[i], lower)
}

/// The statuses after which the same request may succeed later.
pub open spec fn retryable(status: u16) -> bool {
    status == 429 || status == 500 || status == 502 || status == 503 || status == 504 || status == 529
}

/// How a failure with `status` and reason `message` (`lower` in lower case) is told: quota
/// (status 402 or a quota word) and a rejected key are final; retryable statuses may be
/// tried again; any other status is final.
pub open spec fn classified(status: u16, message: Seq<char>, lower: Seq<char>) -> (bool, Seq<char>) {
    let code = decimal(status as nat);
    if status == 402 || mentions_quota(lower) {
        (false, "quota exhausted (HTTP "@ + code + ": "@ + message + ")"@)
    } else if status == 401 {
        (false, "API key rejected (HTTP 401), check the keychain entry"@)
    } else {
        (retryable(status), "HTTP "@ + code + ": "@ + message)
    }
}

/// A quota problem is never worth another try, whatever the status says otherwise, and
/// neither is a rejected key.
pub proof fn law_quota_and_key_failures_are_final(status: u16, message: Seq<char>, lower: Seq<char>)
    requires
        status == 402 || status == 401 || mentions_quota(lower),
    ensures
        !classified(status, message, lower).0,
{
}

/// A failure as whether it may be retried, and its reason.
pub open spec fn failure_view(f: Failure) -> (bool, Seq<char>) {
    match f {
        Failure::Retryable(u) => (true, u.0@),
        Failure::Final(u) => (false, u.0@),
    }
}

fn quota_list() -> (r: Vec<&'static str>)
    ensures
        r@.map_values(|w: &str| w@) == quota_words(),
{
    let r = vec!["quota", "credit", "billing", "balance", "insufficient", "exceeded"];
    assert(r@.map_values(|w: &str| w@) =~= quota_words());
    r
}

/// Whether the lowered reason holds a quota word.
fn quota_mentioned(lower: &[char]) -> (r: bool)
    ensures
        r == mentions_quota(lower@),
{
    let words = quota_list();
    let mut i: usize = 0;
    while i < words.len()
        invariant
            i <= words@.len(),
            words@.map_values(|w: &str| w@) == quota_words(),
            forall|j: int| 0 <= j < i ==> !occurs(#[trigger] quota_words()[j], lower@),
        decreases words.len() - i,
    {
        let w = chars_of(words[i]);
        assert(w@ == quota_words()[i as int]);
        if occurs_exec(w.as_slice(), lower) {
            return true;
        }
        i += 1;
    }
    false
}

/// Tells a failure apart, given its reason also in lower case.
pub fn classify(status: u16, message: &str, lower: &str) -> (r: Failure)
    ensures
        failure_view(r) == classified(status, message@, lower@),
{
    let low = chars_of(lower);
    if status == 402 || quota_mentioned(low.as_slice()) {
        let mut s = "quota exhausted (HTTP ".to_owned();
        push_decimal(&mut s, status as u64);
        s.append(": ");
        s.append(message);
        s.append(")");
        return Failure::Final(Unavailable(s));
    }
    if status == 401 {
        return Failure::Final(Unavailable("API key rejected (HTTP 401), check the keychain entry".to_owned()));
    }
    let mut s = "HTTP ".to_owned();
    push_decimal(&mut s, status as u64);
    s.append(": ");
    s.append(message);
    let reason = Unavailable(s);
    if status == 429 || status == 500 || status == 502 || status == 503 || status == 504 || status == 529 {
        Failure::Retryable(reason)
    } else {
        Failure::Final(reason)
    }
}

/// Tells a failure with `status` and reason `message` apart.
pub fn classify_failure(status: u16, message: &str) -> (r: Failure)
    ensures
        failure_view(r) == classified(status, message@, lowercase(message@)),
{
    let lower = to_lower(message);
    classify(status, message, lower.as_str())
}

/// How long to wait before the first and the second retry, in milliseconds; a request is
/// tried at most once more than there are delays.
pub open spec fn retry_delays() -> Seq<u64> {
    seq![1000u64, 4000u64]
}

/// After attempt `attempt` (counting from 0) ended in `failure`: how long to wait before
/// trying again, or nothing when the failure is final or the retries are spent.
pub open spec fn retry_wait(attempt: nat, failure: Failure) -> Option<u64> {
    if failure is Retryable && attempt < retry_delays().len() {
        Some(retry_delays()[attempt as int])
    } else {
        None
    }
}

/// How long to wait after attempt `attempt` failed with `failure`, if another try is due.
pub fn retry_after(attempt: usize, failure: &Failure) -> (r: Option<u64>)
    ensures
        r == retry_wait(attempt as nat, *failure),
{
    match failure {
        Failure::Retryable(_) => if attempt == 0 {
            Some(1000)
        } else if attempt == 1 {
            Some(4000)
        } else {
            None
        },
        Failure::Final(_) => None,
    }
}

/// A final failure is never tried again, and no request is tried more than three times.
pub proof fn law_retries_are_bounded(attempt: nat, failure: Failure)
    ensures
        failure is Final ==> retry_wait(attempt, failure) is None,
        attempt >= 2 ==> retry_wait(attempt, failure) is None,
{
}


/// The statuses 429, 500, 502, 503, 504 and 529 say the service is busy or failing for the
/// moment: unless the reason speaks of the quota, such a failure may be tried again, with the
/// status and the reason as its reason, first after one second and then after four.
pub proof fn law_busy_statuses_are_retried(status: u16, message: Seq<char>, lower: Seq<char>, f: Failure)
    requires
        status == 429 || status == 500 || status == 502 || status == 503 || status == 504 || status
            == 529,
        !mentions_quota(lower),
        failure_view(f) == classified(status, message, lower),
    ensures
        f is Retryable,
        failure_view(f).1 == "HTTP "@ + decimal(status as nat) + ": "@ + message,
        retry_wait(0, f) == Some(1000u64),
        retry_wait(1, f) == Some(4000u64),
        retry_wait(2, f) is None,
{
}

/// Every other status ends the request for good.
pub proof fn law_other_statuses_are_final(status: u16, message: Seq<char>, lower: Seq<char>, f: Failure)
    requires
        !(status == 429 || status == 500 || status == 502 || status == 503 || status == 504 || status
            == 529),
        failure_view(f) == classified(status, message, lower),
    ensures
        f is Final,
        retry_wait(0, f) is None,
{
}

} // verus!
