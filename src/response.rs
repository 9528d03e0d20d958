//! The completion response envelope.
use vstd::prelude::*;
use vstd::string::StringExecFns;

use crate::error::CompletionError;

verus! {

/// Why generation of a choice ended.
#[derive(Debug, Clone, Copy, PartialEq, Eq, Structural)]
pub enum FinishReason {
    /// The model hit a natural stop point or a provided stop sequence.
    Stop,
    /// The token budget was reached.
    Length,
    /// Content was withheld by a content filter.
    ContentFilter,
}

/// Token accounting; not computed by this library.
#[derive(Debug, Clone, Copy, PartialEq, Eq, Structural)]
pub struct Usage {
    pub prompt_tokens: usize,
    pub completion_tokens: usize,
    pub total_tokens: usize,
}

impl Default for Usage {
    fn default() -> (r: Usage)
        ensures
            r.prompt_tokens == 0,
            r.completion_tokens == 0,
            r.total_tokens == 0,
    {
        Usage { prompt_tokens: 0, completion_tokens: 0, total_tokens: 0 }
    }
}

/// One candidate completion.
pub struct CompletionResponseChoices {
    pub text: String,
    pub index: usize,
    pub logprobs: Option<()>,
    pub finish_reason: Option<FinishReason>,
}

/// The response to a completion request.
pub struct CompletionResponse {
    /// A unique identifier for the completion.
    pub id: String,
    /// Always "text_completion".
    pub object: String,
    /// Unix time in seconds at which the completion was made.
    pub created: u64,
    /// The model, as the request named it.
    pub model: String,
    /// Exactly one choice.
    pub choices: Vec<CompletionResponseChoices>,
    pub usage: Option<Usage>,
}

/// What every completion response states, given its id, time, model and text.
pub open spec fn is_envelope(
    r: &CompletionResponse,
    id: Seq<char>,
    created: u64,
    model: Seq<char>,
    text: Seq<char>,
) -> bool {
    &&& r.id@ == id
    &&& r.object@ == "text_completion"@
    &&& r.created == created
    &&& r.model@ == model
    &&& r.choices@.len() == 1
    &&& r.choices@[0].text@ == text
    &&& r.choices@[0].index == 0
    &&& r.choices@[0].logprobs is None
    &&& r.choices@[0].finish_reason == Some(FinishReason::Stop)
    &&& r.usage is None
}

/// The prefix that marks an identifier as a completion's.
pub open spec fn id_prefix() -> Seq<char> {
    "cmpl-"@
}

/// A completion identifier made from a unique token.
pub fn completion_id(token: &str) -> (r: String)
    ensures
        r@ == id_prefix() + token@,
{
    let id = String::from_str("cmpl-");
    id.concat(token)
}

/// The response carrying `text` as its one choice, ended by a natural stop.
pub fn build_response(id: String, created: u64, model: String, text: String) -> (r:
    CompletionResponse)
    ensures
        is_envelope(&r, id@, created, model@, text@),
{
    let mut choices: Vec<CompletionResponseChoices> = Vec::new();
    choices.push(
        CompletionResponseChoices {
            text,
            index: 0,
            logprobs: None,
            finish_reason: Some(FinishReason::Stop),
        },
    );
    CompletionResponse {
        id,
        object: String::from_str("text_completion"),
        created,
        model,
        choices,
        usage: None,
    }
}

/// Relies on uuid::Uuid::new_v4 and its Display: a fresh random identifier as text.
#[verifier::external_body]
fn fresh_token() -> (r: String) {
    uuid::Uuid::new_v4().to_string()
}

/// Relies on SystemTime::now, SystemTime::duration_since(UNIX_EPOCH) and Duration::as_secs:
/// the whole seconds since the Unix epoch, or `None` where the clock reads earlier.
#[verifier::external_body]
fn unix_seconds() -> (r: Option<u64>) {
    match std::time::SystemTime::now().duration_since(std::time::UNIX_EPOCH) {
        Ok(d) => Some(d.as_secs()),
        Err(_) => None,
    }
}

/// Wraps the completion text in a response with a fresh completion id and the current
/// time. Fails with `Clock` only, where the clock cannot be read.
pub fn stamp_response(model: String, text: String) -> (r: Result<
    CompletionResponse,
    CompletionError,
>)
    ensures
        r matches Ok(resp) ==> exists|token: Seq<char>, created: u64|
            is_envelope(&resp, id_prefix() + token, created, model@, text@),
        r matches Err(e) ==> e is Clock,
{
    let created = match unix_seconds() {
        Some(t) => t,
        None => return Err(CompletionError::Clock),
    };
    let token = fresh_token();
    let id = completion_id(token.as_str());
    let resp = build_response(id, created, model, text);
    assert(is_envelope(&resp, id_prefix() + token@, created, model@, text@));
    Ok(resp)
}

} // verus!
