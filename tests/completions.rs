use text_completions::codec::{deserialize_bytes_tensor, encode_u32, serialize_bytes_tensor};
use text_completions::driver::{InferResponse, StreamDriver, StreamMessage};
use text_completions::error::{CompletionError, ProtocolFault};
use text_completions::request::{
    check_delivery, coerce_prompt, default_best_of, default_echo, default_max_tokens, default_n,
    default_stream, CompletionRequest, PromptInput,
};
use text_completions::response::{
    build_response, completion_id, stamp_response, FinishReason, Usage,
};
use text_completions::tensor::{translate_request, END_ID};
use text_completions::text::{decode_fragment, remove_marker};

fn framed(strings: &[&str]) -> Vec<u8> {
    let items: Vec<Vec<u8>> = strings.iter().map(|s| s.as_bytes().to_vec()).collect();
    serialize_bytes_tensor(&items).unwrap()
}

fn output_message(raw: Vec<u8>) -> StreamMessage {
    StreamMessage {
        error_message: String::new(),
        infer_response: Some(InferResponse { raw_output_contents: vec![raw] }),
    }
}

fn request(model: &str, prompt: &str, max_tokens: usize) -> CompletionRequest {
    let mut req = CompletionRequest::new(model.to_string(), vec![prompt.to_string()]);
    req.max_tokens = max_tokens;
    req
}

#[test]
fn serialize_frames_each_string_little_endian() {
    let items = vec![b"ab".to_vec(), Vec::new(), b"xyz".to_vec()];
    let buf = serialize_bytes_tensor(&items).unwrap();
    assert_eq!(buf, vec![2, 0, 0, 0, b'a', b'b', 0, 0, 0, 0, 3, 0, 0, 0, b'x', b'y', b'z']);
}

#[test]
fn serialize_empty_list_is_empty() {
    assert_eq!(serialize_bytes_tensor(&Vec::new()).unwrap(), Vec::<u8>::new());
}

#[test]
fn deserialize_inverts_serialize() {
    let items = vec![b"hello".to_vec(), Vec::new(), vec![0xe2, 0x82, 0xac]];
    let buf = serialize_bytes_tensor(&items).unwrap();
    assert_eq!(deserialize_bytes_tensor(&buf).unwrap(), items);
}

#[test]
fn deserialize_length_over_256() {
    let item = vec![7u8; 300];
    let buf = serialize_bytes_tensor(&vec![item.clone()]).unwrap();
    assert_eq!(&buf[..4], &[44, 1, 0, 0]);
    assert_eq!(deserialize_bytes_tensor(&buf).unwrap(), vec![item]);
}

#[test]
fn deserialize_rejects_overlong_final_prefix() {
    let mut buf = framed(&["ok"]);
    buf.extend_from_slice(&[10, 0, 0, 0]);
    buf.extend_from_slice(b"short");
    assert_eq!(deserialize_bytes_tensor(&buf), None);
}

#[test]
fn deserialize_rejects_cut_prefix() {
    let mut buf = framed(&["ok"]);
    buf.extend_from_slice(&[1, 0]);
    assert_eq!(deserialize_bytes_tensor(&buf), None);
}

#[test]
fn deserialize_rejects_huge_prefix() {
    assert_eq!(deserialize_bytes_tensor(&vec![255, 255, 255, 255, 1]), None);
}

#[test]
fn encode_u32_is_little_endian() {
    assert_eq!(encode_u32(0x01020304), vec![4, 3, 2, 1]);
}

#[test]
fn remove_marker_removes_every_occurrence() {
    let cs: Vec<char> = "a</s>b</s></s>c".chars().collect();
    assert_eq!(remove_marker(&cs).into_iter().collect::<String>(), "abc");
}

#[test]
fn remove_marker_does_not_rescan_what_it_joined() {
    let cs: Vec<char> = "<</s>/s>".chars().collect();
    assert_eq!(remove_marker(&cs).into_iter().collect::<String>(), "</s>");
}

#[test]
fn fragment_strips_marker() {
    assert_eq!(decode_fragment(&framed(&["World</s>"])).unwrap(), "World");
}

#[test]
fn fragment_trims_before_removing_marker() {
    assert_eq!(decode_fragment(&framed(&["  World </s>\n"])).unwrap(), "World ");
    assert_eq!(decode_fragment(&framed(&["\u{3000}x\u{a0}"])).unwrap(), "x");
}

#[test]
fn fragment_concatenates_strings_of_one_buffer() {
    assert_eq!(decode_fragment(&framed(&[" a ", "b</s>", "</s>c"])).unwrap(), "abc");
}

#[test]
fn fragment_of_empty_buffer_is_empty() {
    assert_eq!(decode_fragment(&Vec::new()).unwrap(), "");
}

#[test]
fn fragment_rejects_invalid_utf8() {
    let buf = serialize_bytes_tensor(&vec![vec![0xff, 0xfe]]).unwrap();
    assert_eq!(decode_fragment(&buf), Err(CompletionError::Decode));
}

#[test]
fn fragment_rejects_truncated_buffer() {
    assert_eq!(decode_fragment(&vec![9, 0, 0, 0, b'a']), Err(CompletionError::Decode));
}

#[test]
fn defaults() {
    assert_eq!(default_best_of(), 1);
    assert!(!default_echo());
    assert_eq!(default_max_tokens(), 16);
    assert_eq!(default_n(), 1);
    assert!(!default_stream());
    let req = CompletionRequest::new("m".to_string(), vec!["p".to_string()]);
    assert_eq!(req.max_tokens, 16);
    assert_eq!(req.best_of, 1);
    assert_eq!(req.n, 1);
    assert!(!req.echo);
    assert!(!req.stream);
    assert!(req.stop.is_none() && req.logprobs.is_none());
}

#[test]
fn coerce_prompt_shapes() {
    assert_eq!(coerce_prompt(PromptInput::Text("a".to_string())), Some(vec!["a".to_string()]));
    let list = vec!["a".to_string(), "b".to_string()];
    assert_eq!(coerce_prompt(PromptInput::List(list.clone())), Some(list));
    assert_eq!(coerce_prompt(PromptInput::List(Vec::new())), None);
}

#[test]
fn translate_gives_five_fixed_tensors() {
    let t = translate_request(&request("m", "Hello", 5)).unwrap();
    assert_eq!(t.model_name, "m");
    let names: Vec<&str> = t.inputs.iter().map(|i| i.name.as_str()).collect();
    assert_eq!(names, vec!["text_input", "max_tokens", "bad_words", "stop_words", "end_id"]);
    let types: Vec<&str> = t.inputs.iter().map(|i| i.datatype.as_str()).collect();
    assert_eq!(types, vec!["BYTES", "UINT32", "BYTES", "BYTES", "UINT32"]);
    for input in &t.inputs {
        assert_eq!(input.shape, vec![1, 1]);
    }
    assert_eq!(
        t.raw_input_contents,
        vec![
            vec![5, 0, 0, 0, b'H', b'e', b'l', b'l', b'o'],
            vec![5, 0, 0, 0],
            vec![0, 0, 0, 0],
            vec![0, 0, 0, 0],
            vec![2, 0, 0, 0],
        ]
    );
    assert_eq!(END_ID, 2);
}

#[test]
fn translate_narrows_max_tokens_to_32_bits() {
    let t = translate_request(&request("m", "x", (1usize << 32) + 7)).unwrap();
    assert_eq!(t.raw_input_contents[1], vec![7, 0, 0, 0]);
}

#[test]
fn translate_ignores_stop_sequences() {
    let mut req = request("m", "x", 3);
    req.stop = Some(vec!["END".to_string()]);
    let t = translate_request(&req).unwrap();
    assert_eq!(t.raw_input_contents[3], vec![0, 0, 0, 0]);
}

#[test]
fn translate_twice_is_byte_identical() {
    let req = request("model-a", "Tell me", 42);
    let a = translate_request(&req).unwrap();
    let b = translate_request(&req).unwrap();
    assert_eq!(a.model_name, b.model_name);
    assert_eq!(a.raw_input_contents, b.raw_input_contents);
    for (x, y) in a.inputs.iter().zip(b.inputs.iter()) {
        assert_eq!(x.name, y.name);
        assert_eq!(x.datatype, y.datatype);
        assert_eq!(x.shape, y.shape);
    }
}

#[test]
fn streaming_request_is_not_implemented() {
    let mut req = request("m", "Hello", 5);
    req.stream = true;
    assert_eq!(check_delivery(&req), Err(CompletionError::NotImplemented));
    req.stream = false;
    assert_eq!(check_delivery(&req), Ok(()));
}

#[test]
fn first_message_error_fails_with_backend_error() {
    let mut driver = StreamDriver::new();
    let msg = StreamMessage { error_message: "model not ready".to_string(), infer_response: None };
    assert_eq!(
        driver.on_message(&msg),
        Err(CompletionError::Backend("model not ready".to_string()))
    );
}

#[test]
fn error_after_output_fails_with_backend_error() {
    let mut driver = StreamDriver::new();
    assert_eq!(driver.on_message(&output_message(framed(&["partial"]))), Ok(()));
    let msg = StreamMessage {
        error_message: "boom".to_string(),
        infer_response: Some(InferResponse { raw_output_contents: vec![framed(&["x"])] }),
    };
    assert_eq!(driver.on_message(&msg), Err(CompletionError::Backend("boom".to_string())));
}

#[test]
fn missing_infer_response_is_protocol_error() {
    let mut driver = StreamDriver::new();
    let msg = StreamMessage { error_message: String::new(), infer_response: None };
    assert_eq!(
        driver.on_message(&msg),
        Err(CompletionError::Protocol(ProtocolFault::MissingInferResponse))
    );
}

#[test]
fn missing_raw_output_is_protocol_error() {
    let mut driver = StreamDriver::new();
    let msg = StreamMessage {
        error_message: String::new(),
        infer_response: Some(InferResponse { raw_output_contents: Vec::new() }),
    };
    assert_eq!(
        driver.on_message(&msg),
        Err(CompletionError::Protocol(ProtocolFault::MissingRawOutput))
    );
}

#[test]
fn malformed_output_is_decode_error() {
    let mut driver = StreamDriver::new();
    assert_eq!(driver.on_message(&output_message(vec![3, 0, 0, 0])), Err(CompletionError::Decode));
}

#[test]
fn text_is_fragments_in_arrival_order() {
    let mut driver = StreamDriver::new();
    for part in [" Hel", "lo ", "wor</s>", "ld</s>"] {
        assert_eq!(driver.on_message(&output_message(framed(&[part]))), Ok(()));
    }
    assert_eq!(driver.on_message(&output_message(framed(&[" ", "!"]))), Ok(()));
    assert_eq!(driver.finish(), "Helloworld!");
}

#[test]
fn only_first_raw_output_is_read() {
    let mut driver = StreamDriver::new();
    let msg = StreamMessage {
        error_message: String::new(),
        infer_response: Some(InferResponse {
            raw_output_contents: vec![framed(&["a"]), framed(&["b"])],
        }),
    };
    assert_eq!(driver.on_message(&msg), Ok(()));
    assert_eq!(driver.finish(), "a");
}

#[test]
fn empty_stream_gives_empty_text() {
    assert_eq!(StreamDriver::new().finish(), "");
}

#[test]
fn hello_world_end_to_end() {
    let req = request("m", "Hello", 5);
    assert_eq!(check_delivery(&req), Ok(()));
    let infer = translate_request(&req).unwrap();
    assert_eq!(infer.raw_input_contents[1], vec![5, 0, 0, 0]);
    let mut driver = StreamDriver::new();
    assert_eq!(driver.on_message(&output_message(framed(&["World</s>"]))), Ok(()));
    let text = driver.finish();
    let resp = build_response(completion_id("u1"), 1700000000, req.model.clone(), text);
    assert_eq!(resp.choices.len(), 1);
    assert_eq!(resp.choices[0].text, "World");
    assert_eq!(resp.choices[0].index, 0);
    assert_eq!(resp.choices[0].finish_reason, Some(FinishReason::Stop));
    assert!(resp.choices[0].logprobs.is_none());
    assert_eq!(resp.id, "cmpl-u1");
    assert_eq!(resp.object, "text_completion");
    assert_eq!(resp.created, 1700000000);
    assert_eq!(resp.model, "m");
    assert!(resp.usage.is_none());
}

#[test]
fn completion_id_has_prefix() {
    assert_eq!(completion_id("abc"), "cmpl-abc");
}

#[test]
fn stamped_response_has_fresh_id_and_time() {
    let a = stamp_response("m".to_string(), "t".to_string()).unwrap();
    let b = stamp_response("m".to_string(), "t".to_string()).unwrap();
    assert!(a.id.starts_with("cmpl-"));
    assert!(a.id.len() > "cmpl-".len());
    assert_ne!(a.id, b.id);
    assert!(a.created > 1_600_000_000);
    assert_eq!(a.model, "m");
    assert_eq!(a.object, "text_completion");
    assert_eq!(a.choices[0].text, "t");
}

#[test]
fn usage_default_is_zero() {
    let u = Usage::default();
    assert_eq!((u.prompt_tokens, u.completion_tokens, u.total_tokens), (0, 0, 0));
}
