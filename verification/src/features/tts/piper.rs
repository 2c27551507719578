//! Talking to the Piper text-to-speech server: URLs, error replies, retries.

use vstd::prelude::*;
use crate::text::{push_signed_decimal, push_str, signed_decimal};

verus! {

/// The error body the Piper server sends with a failed request.
pub struct ErrorResponse {
    pub error: i32,
    pub error_code: i32,
    pub message: String,
}

/// The error code with which the server refuses an unknown model.
pub const BAD_MODEL_CODE: i32 = 1;

impl ErrorResponse {
    /// `"piper server error {error}. code={error_code}. message={message}"`.
    pub open spec fn spec_describe(self) -> Seq<char> {
        "piper server error "@ + signed_decimal(self.error as int) + ". code="@ + signed_decimal(
            self.error_code as int,
        ) + ". message="@ + self.message@
    }

    /// The text with which the error is reported.
    pub fn describe(&self) -> (r: String)
        ensures
            r@ == self.spec_describe(),
    {
        let mut s = String::new();
        push_str(&mut s, "piper server error ");
        push_signed_decimal(&mut s, self.error as i64);
        push_str(&mut s, ". code=");
        push_signed_decimal(&mut s, self.error_code as i64);
        push_str(&mut s, ". message=");
        push_str(&mut s, self.message.as_str());
        s
    }

    /// Whether the server refused the user's model, in which case the user's
    /// model is reset and the text is spoken once more with the default voice.
    pub fn is_bad_model(&self) -> (r: bool)
        ensures
            r == (self.error_code == BAD_MODEL_CODE),
    {
        self.error_code == BAD_MODEL_CODE
    }
}

/// The server's answer to a request for the speakers of a model.
pub struct GetSpeakers {
    pub model: String,
    pub speakers: Vec<String>,
}

/// `"{server}/speak"`.
pub fn speak_url(server: &str) -> (r: String)
    ensures
        r@ == server@ + "/speak"@,
{
    let mut s = String::new();
    push_str(&mut s, server);
    push_str(&mut s, "/speak");
    s
}

/// `"{server}/models"`.
pub fn models_url(server: &str) -> (r: String)
    ensures
        r@ == server@ + "/models"@,
{
    let mut s = String::new();
    push_str(&mut s, server);
    push_str(&mut s, "/models");
    s
}

/// `"{server}/speakers?model={model}"`, or `"{server}/speakers"` for the default model.
pub fn speakers_url(server: &str, model: &Option<String>) -> (r: String)
    ensures
        r@ == match model {
            Some(m) => server@ + "/speakers?model="@ + m@,
            None => server@ + "/speakers"@,
        },
{
    let mut s = String::new();
    push_str(&mut s, server);
    match model {
        Some(m) => {
            push_str(&mut s, "/speakers?model=");
            push_str(&mut s, m.as_str());
        },
        None => {
            push_str(&mut s, "/speakers");
        },
    }
    s
}

/// How many times a failed request is sent again.
pub const MAX_RETRIES: u32 = 3;

/// Counts the failed attempts of one request.
pub struct RetryCounter {
    pub attempts: u32,
}

/// One failure seen by a counter at `attempts`: whether to send again, and the
/// new count.
pub open spec fn retry_step(attempts: nat) -> (bool, nat) {
    if attempts < MAX_RETRIES {
        (true, attempts + 1)
    } else {
        (false, attempts)
    }
}

/// The count of a fresh counter after `k` failures.
pub open spec fn attempts_after(k: nat) -> nat
    decreases k,
{
    if k == 0 {
        0
    } else {
        retry_step(attempts_after((k - 1) as nat)).1
    }
}

impl RetryCounter {
    pub fn new() -> (r: Self)
        ensures
            r.attempts == 0,
    {
        RetryCounter { attempts: 0 }
    }

    /// After a failed send: `true` means wait a second and send again, `false`
    /// means give up with this failure.
    pub fn retry_after_failure(&mut self) -> (again: bool)
        ensures
            (again, final(self).attempts as nat) == retry_step(old(self).attempts as nat),
    {
        if self.attempts >= MAX_RETRIES {
            false
        } else {
            self.attempts = self.attempts + 1;
            true
        }
    }
}

proof fn lemma_attempts_after(k: nat)
    ensures
        attempts_after(k) == if k < MAX_RETRIES { k } else { MAX_RETRIES as nat },
    decreases k,
{
    if k > 0 {
        lemma_attempts_after((k - 1) as nat);
    }
}

/// From a fresh counter, the failure after `k` earlier failures is retried
/// exactly when `k < MAX_RETRIES`: a request is sent at most `MAX_RETRIES + 1` times.
pub proof fn lemma_retries_bounded(k: nat)
    ensures
        retry_step(attempts_after(k)).0 <==> k < MAX_RETRIES,
{
    lemma_attempts_after(k);
}

} // verus!
