//! The inbound completion request and the defaults of its optional parameters.
use vstd::prelude::*;

verus! {

/// Completions generated server-side when the request does not say.
pub fn default_best_of() -> (r: usize)
    ensures
        r == 1,
{
    1
}

/// Whether the prompt is echoed back when the request does not say.
pub fn default_echo() -> (r: bool)
    ensures
        r == false,
{
    false
}

/// The token budget when the request does not say.
pub fn default_max_tokens() -> (r: usize)
    ensures
        r == 16,
{
    16
}

/// Completions per prompt when the request does not say.
pub fn default_n() -> (r: usize)
    ensures
        r == 1,
{
    1
}

/// Whether partial output is streamed when the request does not say.
pub fn default_stream() -> (r: bool)
    ensures
        r == false,
{
    false
}

/// A prompt as the request body may give it: one string or a list of strings.
pub enum PromptInput {
    Text(String),
    List(Vec<String>),
}

/// Normalises a prompt to a list of strings; `None` for an empty list, since a request
/// carries at least one prompt.
pub fn coerce_prompt(input: PromptInput) -> (r: Option<Vec<String>>)
    ensures
        match input {
            PromptInput::Text(s) => r matches Some(v) && v@ == seq![s],
            PromptInput::List(l) => if l@.len() == 0 {
                r is None
            } else {
                r matches Some(v) && v@ == l@
            },
        },
{
    match input {
        PromptInput::Text(s) => {
            let mut v: Vec<String> = Vec::new();
            v.push(s);
            assert(v@ =~= seq![s]);
            Some(v)
        },
        PromptInput::List(l) => {
            if l.len() == 0 {
                None
            } else {
                Some(l)
            }
        },
    }
}

/// A completion request. Sampling parameters that the backend call does not read
/// (temperature, nucleus mass, penalties, logit bias) are not held here.
pub struct CompletionRequest {
    /// The model to use.
    pub model: String,
    /// The prompts, in order; at least one.
    pub prompt: Vec<String>,
    pub best_of: usize,
    pub echo: bool,
    pub logprobs: Option<usize>,
    /// The most tokens to generate.
    pub max_tokens: usize,
    pub n: usize,
    pub stop: Option<Vec<String>>,
    /// Whether partial output is to be streamed.
    pub stream: bool,
    pub suffix: Option<String>,
    pub user: Option<String>,
}

impl CompletionRequest {
    /// A request for `model` and `prompt` with every optional parameter at its default.
    pub fn new(model: String, prompt: Vec<String>) -> (r: CompletionRequest)
        ensures
            r.model == model,
            r.prompt == prompt,
            r.best_of == 1,
            r.echo == false,
            r.logprobs is None,
            r.max_tokens == 16,
            r.n == 1,
            r.stop is None,
            r.stream == false,
            r.suffix is None,
            r.user is None,
    {
        CompletionRequest {
            model,
            prompt,
            best_of: default_best_of(),
            echo: default_echo(),
            logprobs: None,
            max_tokens: default_max_tokens(),
            n: default_n(),
            stop: None,
            stream: default_stream(),
            suffix: None,
            user: None,
        }
    }
}

/// Incremental delivery is not offered: a request that asks for it fails with
/// `NotImplemented`, any other goes on.
pub fn check_delivery(req: &CompletionRequest) -> (r: Result<(), crate::error::CompletionError>)
    ensures
        req.stream <==> r matches Err(crate::error::CompletionError::NotImplemented),
        !req.stream <==> r is Ok,
{
    if req.stream {
        Err(crate::error::CompletionError::NotImplemented)
    } else {
        Ok(())
    }
}

} // verus!
