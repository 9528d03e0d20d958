//! The backend's inference request: five named input tensors and their raw contents.
use vstd::prelude::*;
use vstd::string::{StrSliceExecFns, StringExecFns};
use vstd::utf8::encode_utf8;

use crate::codec::{
    all_framable, byte_strings, encode_u32, encoded, le32_bytes, serialize_bytes_tensor,
};
use crate::error::CompletionError;
use crate::request::CompletionRequest;

verus! {

/// The backend's token id for end of sequence.
pub const END_ID: u32 = 2;

/// The name, element type and shape of one input tensor.
pub struct InferInputTensor {
    pub name: String,
    pub datatype: String,
    pub shape: Vec<i64>,
}

impl View for InferInputTensor {
    type V = (Seq<char>, Seq<char>, Seq<i64>);

    open spec fn view(&self) -> (Seq<char>, Seq<char>, Seq<i64>) {
        (self.name@, self.datatype@, self.shape@)
    }
}

/// One inference call: the model, its input tensors, and each tensor's raw contents at
/// the same position.
pub struct InferRequest {
    pub model_name: String,
    pub inputs: Vec<InferInputTensor>,
    pub raw_input_contents: Vec<Vec<u8>>,
}

impl View for InferRequest {
    type V = (Seq<char>, Seq<(Seq<char>, Seq<char>, Seq<i64>)>, Seq<Seq<u8>>);

    open spec fn view(&self) -> (Seq<char>, Seq<(Seq<char>, Seq<char>, Seq<i64>)>, Seq<Seq<u8>>) {
        (
            self.model_name@,
            self.inputs@.map_values(|t: InferInputTensor| t@),
            byte_strings(self.raw_input_contents@),
        )
    }
}

/// A single-row, single-column tensor.
pub open spec fn unit_tensor(name: Seq<char>, datatype: Seq<char>) -> (
    Seq<char>,
    Seq<char>,
    Seq<i64>,
) {
    (name, datatype, seq![1i64, 1i64])
}

/// The five inputs the backend expects, in order.
pub open spec fn input_layout() -> Seq<(Seq<char>, Seq<char>, Seq<i64>)> {
    seq![
        unit_tensor("text_input"@, "BYTES"@),
        unit_tensor("max_tokens"@, "UINT32"@),
        unit_tensor("bad_words"@, "BYTES"@),
        unit_tensor("stop_words"@, "BYTES"@),
        unit_tensor("end_id"@, "UINT32"@),
    ]
}

/// The UTF-8 bytes of each prompt.
pub open spec fn prompt_bytes(prompt: Seq<Seq<char>>) -> Seq<Seq<u8>> {
    prompt.map_values(|s: Seq<char>| encode_utf8(s))
}

/// The raw contents of the five inputs: the prompts framed as strings, the token budget
/// narrowed to 32 bits, one empty string each for the bad and stop words, and the
/// end-of-sequence id.
pub open spec fn input_payloads(prompt: Seq<Seq<char>>, max_tokens: usize) -> Seq<Seq<u8>> {
    seq![
        encoded(prompt_bytes(prompt)),
        le32_bytes(max_tokens as u32),
        encoded(seq![Seq::<u8>::empty()]),
        encoded(seq![Seq::<u8>::empty()]),
        le32_bytes(END_ID),
    ]
}

/// The inference request that a completion request becomes.
pub open spec fn translated(model: Seq<char>, prompt: Seq<Seq<char>>, max_tokens: usize) -> (
    Seq<char>,
    Seq<(Seq<char>, Seq<char>, Seq<i64>)>,
    Seq<Seq<u8>>,
) {
    (model, input_layout(), input_payloads(prompt, max_tokens))
}

/// Translating a request yields the same tensors however often it is done: they depend on
/// the model, the prompt text and the token budget alone.
pub proof fn lemma_translation_deterministic(a: &CompletionRequest, b: &CompletionRequest)
    requires
        a.model@ == b.model@,
        a.prompt.deep_view() == b.prompt.deep_view(),
        a.max_tokens == b.max_tokens,
    ensures
        translated(a.model@, a.prompt.deep_view(), a.max_tokens) == translated(
            b.model@,
            b.prompt.deep_view(),
            b.max_tokens,
        ),
{
}

fn unit_input(name: &str, datatype: &str) -> (r: InferInputTensor)
    ensures
        r@ == unit_tensor(name@, datatype@),
{
    let mut shape: Vec<i64> = Vec::new();
    shape.push(1);
    shape.push(1);
    assert(shape@ =~= seq![1i64, 1i64]);
    InferInputTensor {
        name: String::from_str(name),
        datatype: String::from_str(datatype),
        shape,
    }
}

fn empty_string_tensor() -> (r: Vec<u8>)
    ensures
        r@ == encoded(seq![Seq::<u8>::empty()]),
{
    let mut items: Vec<Vec<u8>> = Vec::new();
    items.push(Vec::new());
    assert(byte_strings(items@) =~= seq![Seq::<u8>::empty()]);
    match serialize_bytes_tensor(&items) {
        Some(b) => b,
        None => {
            assert(byte_strings(items@)[0].len() == 0);
            Vec::new()
        },
    }
}

/// Builds the backend's five input tensors for a completion request. Fails with `Build`
/// exactly when a prompt is too long for a 32-bit length prefix; nothing is sent then.
pub fn translate_request(req: &CompletionRequest) -> (r: Result<InferRequest, CompletionError>)
    ensures
        r is Ok <==> all_framable(prompt_bytes(req.prompt.deep_view())),
        r matches Ok(t) ==> t@ == translated(req.model@, req.prompt.deep_view(), req.max_tokens),
        r matches Err(e) ==> e is Build,
{
    let mut prompts: Vec<Vec<u8>> = Vec::new();
    let mut i: usize = 0;
    while i < req.prompt.len()
        invariant
            i <= req.prompt@.len(),
            byte_strings(prompts@) == prompt_bytes(req.prompt.deep_view().subrange(0, i as int)),
        decreases req.prompt@.len() - i,
    {
        let s = req.prompt[i].as_str();
        let bytes = s.as_bytes_vec();
        assert(bytes@ == encode_utf8(req.prompt.deep_view()[i as int]));
        let ghost before = byte_strings(prompts@);
        prompts.push(bytes);
        proof {
            assert(byte_strings(prompts@) =~= before.push(bytes@));
            assert(byte_strings(prompts@) =~= prompt_bytes(
                req.prompt.deep_view().subrange(0, i + 1),
            ));
        }
        i = i + 1;
    }
    assert(req.prompt.deep_view().subrange(0, i as int) =~= req.prompt.deep_view());
    let text = match serialize_bytes_tensor(&prompts) {
        Some(b) => b,
        None => return Err(CompletionError::Build),
    };
    let mut inputs: Vec<InferInputTensor> = Vec::new();
    inputs.push(unit_input("text_input", "BYTES"));
    inputs.push(unit_input("max_tokens", "UINT32"));
    inputs.push(unit_input("bad_words", "BYTES"));
    inputs.push(unit_input("stop_words", "BYTES"));
    inputs.push(unit_input("end_id", "UINT32"));
    let mut raw: Vec<Vec<u8>> = Vec::new();
    raw.push(text);
    let budget: u32 = #[verifier::truncate] (req.max_tokens as u32);
    raw.push(encode_u32(budget));
    raw.push(empty_string_tensor());
    raw.push(empty_string_tensor());
    raw.push(encode_u32(END_ID));
    let t = InferRequest { model_name: req.model.clone(), inputs, raw_input_contents: raw };
    assert(t@.1 =~= input_layout());
    assert(t@.2 =~= input_payloads(req.prompt.deep_view(), req.max_tokens));
    Ok(t)
}

} // verus!
