//! The decisions of one streaming inference exchange. The caller sends the request, then
//! hands each message the backend streams back to `StreamDriver::on_message` until the
//! stream closes, and takes the text from `StreamDriver::finish`.
use vstd::prelude::*;
use vstd::string::StringExecFns;

use crate::error::{CompletionError, ProtocolFault};
use crate::text::{buffer_strings, decode_fragment, fragment_text, joined_cleaned};

verus! {

/// The inference result a message may carry.
pub struct InferResponse {
    pub raw_output_contents: Vec<Vec<u8>>,
}

/// One message streamed back by the backend.
pub struct StreamMessage {
    /// Non-empty when the backend failed.
    pub error_message: String,
    pub infer_response: Option<InferResponse>,
}

/// The text contributed by the accepted output buffers, in the order they came.
pub open spec fn stream_text(bufs: Seq<Seq<u8>>) -> Seq<char>
    decreases bufs.len(),
{
    if bufs.len() == 0 {
        Seq::empty()
    } else {
        stream_text(bufs.drop_last()) + fragment_text(bufs.last()).unwrap()
    }
}

/// Every string held by the accepted output buffers, in order.
pub open spec fn stream_strings(bufs: Seq<Seq<u8>>) -> Seq<Seq<char>>
    decreases bufs.len(),
{
    if bufs.len() == 0 {
        Seq::empty()
    } else {
        stream_strings(bufs.drop_last()) + buffer_strings(bufs.last()).unwrap()
    }
}

/// Every buffer yields completion text.
pub open spec fn all_decodable(bufs: Seq<Seq<u8>>) -> bool {
    forall|i: int| 0 <= i < bufs.len() ==> (#[trigger] fragment_text(bufs[i])) is Some
}

proof fn lemma_joined_cleaned_append(a: Seq<Seq<char>>, b: Seq<Seq<char>>)
    ensures
        joined_cleaned(a + b) == joined_cleaned(a) + joined_cleaned(b),
    decreases b.len(),
{
    if b.len() == 0 {
        assert(a + b =~= a);
        assert(joined_cleaned(a) + joined_cleaned(b) =~= joined_cleaned(a));
    } else {
        lemma_joined_cleaned_append(a, b.drop_last());
        assert((a + b).drop_last() =~= a + b.drop_last());
        assert((a + b).last() == b.last());
        assert(joined_cleaned(a + b) =~= joined_cleaned(a) + joined_cleaned(b));
    }
}

/// The completion text is every string of every accepted buffer, each trimmed and stripped
/// of end-of-sequence markers, concatenated in arrival order with nothing in between.
pub proof fn lemma_completion_text(bufs: Seq<Seq<u8>>)
    requires
        all_decodable(bufs),
    ensures
        stream_text(bufs) == joined_cleaned(stream_strings(bufs)),
    decreases bufs.len(),
{
    if bufs.len() > 0 {
        let prev = bufs.drop_last();
        assert(all_decodable(prev)) by {
            assert forall|i: int| 0 <= i < prev.len() implies (#[trigger] fragment_text(
                prev[i],
            )) is Some by {
                assert(prev[i] == bufs[i]);
            }
        }
        lemma_completion_text(prev);
        assert(fragment_text(bufs[bufs.len() - 1]) is Some);
        lemma_joined_cleaned_append(
            stream_strings(prev),
            buffer_strings(bufs.last()).unwrap(),
        );
    }
}

/// The text gathered so far from one backend stream.
pub struct StreamDriver {
    text: String,
    accepted: Ghost<Seq<Seq<u8>>>,
}

impl StreamDriver {
    /// The output buffers accepted so far, in order.
    pub closed spec fn accepted(&self) -> Seq<Seq<u8>> {
        self.accepted@
    }

    /// The text held is that of the accepted buffers, each of which decoded.
    pub closed spec fn wf(&self) -> bool {
        &&& all_decodable(self.accepted@)
        &&& self.text@ == stream_text(self.accepted@)
    }

    /// A driver that has accepted nothing.
    pub fn new() -> (r: StreamDriver)
        ensures
            r.wf(),
            r.accepted() == Seq::<Seq<u8>>::empty(),
    {
        StreamDriver { text: String::new(), accepted: Ghost(Seq::empty()) }
    }

    /// Takes one streamed message. A non-empty error string fails with `Backend` carrying
    /// it; a message without an inference result or without a raw output buffer fails with
    /// `Protocol`; a first buffer that does not decode fails with `Decode`. Otherwise the
    /// first buffer is accepted and its text appended.
    pub fn on_message(&mut self, msg: &StreamMessage) -> (r: Result<(), CompletionError>)
        requires
            old(self).wf(),
        ensures
            final(self).wf(),
            msg.error_message@.len() > 0 ==> (r matches Err(CompletionError::Backend(m))
                && m@ == msg.error_message@),
            msg.error_message@.len() == 0 ==> match msg.infer_response {
                None => r matches Err(
                    CompletionError::Protocol(ProtocolFault::MissingInferResponse),
                ),
                Some(resp) => if resp.raw_output_contents@.len() == 0 {
                    r matches Err(CompletionError::Protocol(ProtocolFault::MissingRawOutput))
                } else {
                    match fragment_text(resp.raw_output_contents@[0]@) {
                        Some(t) => r is Ok && final(self).accepted() == old(
                            self,
                        ).accepted().push(resp.raw_output_contents@[0]@),
                        None => r matches Err(CompletionError::Decode),
                    }
                },
            },
            r is Err ==> final(self).accepted() == old(self).accepted(),
    {
        if msg.error_message.as_str().unicode_len() > 0 {
            return Err(CompletionError::Backend(msg.error_message.clone()));
        }
        let resp = match &msg.infer_response {
            Some(resp) => resp,
            None => return Err(CompletionError::Protocol(ProtocolFault::MissingInferResponse)),
        };
        if resp.raw_output_contents.len() == 0 {
            return Err(CompletionError::Protocol(ProtocolFault::MissingRawOutput));
        }
        let raw = &resp.raw_output_contents[0];
        let piece = decode_fragment(raw)?;
        let ghost prev = self.accepted@;
        self.text.append(piece.as_str());
        self.accepted = Ghost(prev.push(raw@));
        proof {
            assert(self.accepted@.drop_last() =~= prev);
            assert(all_decodable(self.accepted@)) by {
                assert forall|i: int| 0 <= i < self.accepted@.len() implies (
                #[trigger] fragment_text(self.accepted@[i])) is Some by {
                    if i < prev.len() {
                        assert(self.accepted@[i] == prev[i]);
                    }
                }
            }
        }
        Ok(())
    }

    /// The completion text, once the stream has closed.
    pub fn finish(self) -> (r: String)
        requires
            self.wf(),
        ensures
            r@ == stream_text(self.accepted()),
            all_decodable(self.accepted()),
    {
        self.text
    }
}

} // verus!
