//! Turning one raw output buffer into completion text: decode the frames, read each as
//! UTF-8, trim surrounding whitespace and remove every end-of-sequence marker.
use vstd::prelude::*;
use vstd::utf8::{decode_utf8, valid_utf8};

use crate::codec::{decoded, deserialize_bytes_tensor, byte_strings};
use crate::error::CompletionError;

verus! {

/// Characters with the Unicode `White_Space` property.
pub open spec fn is_white_space(c: char) -> bool {
    let u = c as u32;
    (0x9 <= u <= 0xd) || u == 0x20 || u == 0x85 || u == 0xa0 || u == 0x1680 || (0x2000 <= u
        <= 0x200a) || u == 0x2028 || u == 0x2029 || u == 0x202f || u == 0x205f || u == 0x3000
}

/// `s` without its leading whitespace.
pub open spec fn trim_start(s: Seq<char>) -> Seq<char>
    decreases s.len(),
{
    if s.len() > 0 && is_white_space(s[0]) {
        trim_start(s.drop_first())
    } else {
        s
    }
}

/// `s` without its trailing whitespace.
pub open spec fn trim_end(s: Seq<char>) -> Seq<char>
    decreases s.len(),
{
    if s.len() > 0 && is_white_space(s.last()) {
        trim_end(s.drop_last())
    } else {
        s
    }
}

/// `s` without its leading and trailing whitespace.
pub open spec fn trimmed(s: Seq<char>) -> Seq<char> {
    trim_end(trim_start(s))
}

/// The text of the backend's end-of-sequence token.
pub open spec fn eos_marker() -> Seq<char> {
    seq!['<', '/', 's', '>']
}

/// `s` with every occurrence of the end-of-sequence marker removed, scanning left to right.
pub open spec fn strip_marker(s: Seq<char>) -> Seq<char>
    decreases s.len(),
{
    if s.len() == 0 {
        s
    } else if s.len() >= 4 && s.subrange(0, 4) == eos_marker() {
        strip_marker(s.subrange(4, s.len() as int))
    } else {
        seq![s[0]] + strip_marker(s.drop_first())
    }
}

/// One decoded string as it enters the completion text.
pub open spec fn cleaned(s: Seq<char>) -> Seq<char> {
    strip_marker(trimmed(s))
}

/// The cleaned strings, concatenated in order with nothing between them.
pub open spec fn joined_cleaned(strs: Seq<Seq<char>>) -> Seq<char>
    decreases strs.len(),
{
    if strs.len() == 0 {
        Seq::empty()
    } else {
        joined_cleaned(strs.drop_last()) + cleaned(strs.last())
    }
}

/// Every item is valid UTF-8.
pub open spec fn all_utf8(items: Seq<Seq<u8>>) -> bool {
    forall|i: int| 0 <= i < items.len() ==> valid_utf8(#[trigger] items[i])
}

/// The strings a raw output buffer holds, or `None` where it is malformed.
pub open spec fn buffer_strings(buf: Seq<u8>) -> Option<Seq<Seq<char>>> {
    match decoded(buf) {
        Some(items) => if all_utf8(items) {
            Some(items.map_values(|b: Seq<u8>| decode_utf8(b)))
        } else {
            None
        },
        None => None,
    }
}

/// The completion text that one raw output buffer contributes.
pub open spec fn fragment_text(buf: Seq<u8>) -> Option<Seq<char>> {
    match buffer_strings(buf) {
        Some(strs) => Some(joined_cleaned(strs)),
        None => None,
    }
}

/// Relies on String::from_utf8: it accepts exactly the valid UTF-8 vectors and keeps
/// the characters they encode.
#[verifier::external_body]
fn utf8_string(bytes: Vec<u8>) -> (r: Option<String>)
    ensures
        r is Some <==> valid_utf8(bytes@),
        r matches Some(s) ==> s@ == decode_utf8(bytes@),
{
    String::from_utf8(bytes).ok()
}

/// Relies on str::trim: it removes leading and trailing characters with the Unicode
/// `White_Space` property.
#[verifier::external_body]
fn trim_whitespace(s: &str) -> (r: &str)
    ensures
        r@ == trimmed(s@),
{
    s.trim()
}

/// Relies on str::chars: it yields the characters of the string in order.
#[verifier::external_body]
fn chars_of(s: &str) -> (r: Vec<char>)
    ensures
        r@ == s@,
{
    s.chars().collect()
}

/// Relies on String's FromIterator<&char>: it collects the characters in order.
#[verifier::external_body]
fn string_of(cs: &Vec<char>) -> (r: String)
    ensures
        r@ == cs@,
{
    cs.iter().collect()
}

/// Removes every end-of-sequence marker from `cs`.
pub fn remove_marker(cs: &Vec<char>) -> (r: Vec<char>)
    ensures
        r@ == strip_marker(cs@),
{
    let mut out: Vec<char> = Vec::new();
    let mut i: usize = 0;
    let len = cs.len();
    proof {
        assert(cs@.subrange(0, len as int) =~= cs@);
        assert(out@ + strip_marker(cs@) =~= strip_marker(cs@));
    }
    while i < len
        invariant
            len == cs@.len(),
            i <= len,
            strip_marker(cs@) == out@ + strip_marker(cs@.subrange(i as int, len as int)),
        decreases len - i,
    {
        let ghost cur = cs@.subrange(i as int, len as int);
        if len - i >= 4 && cs[i] == '<' && cs[i + 1] == '/' && cs[i + 2] == 's' && cs[i + 3]
            == '>' {
            proof {
                assert(cur.subrange(0, 4) =~= eos_marker());
                assert(cur.subrange(4, cur.len() as int) =~= cs@.subrange(i + 4, len as int));
            }
            i = i + 4;
        } else {
            proof {
                assert(!(cur.len() >= 4 && cur.subrange(0, 4) == eos_marker())) by {
                    if cur.len() >= 4 && cur.subrange(0, 4) == eos_marker() {
                        assert(cur.subrange(0, 4)[0] == cs@[i as int]);
                        assert(cur.subrange(0, 4)[1] == cs@[i + 1]);
                        assert(cur.subrange(0, 4)[2] == cs@[i + 2]);
                        assert(cur.subrange(0, 4)[3] == cs@[i + 3]);
                    }
                }
                assert(cur.drop_first() =~= cs@.subrange(i + 1, len as int));
            }
            let ghost before = out@;
            out.push(cs[i]);
            proof {
                assert(before + (seq![cs@[i as int]] + strip_marker(cur.drop_first())) =~= out@
                    + strip_marker(cs@.subrange(i + 1, len as int)));
            }
            i = i + 1;
        }
    }
    proof {
        assert(cs@.subrange(i as int, len as int) =~= Seq::<char>::empty());
        assert(out@ + Seq::<char>::empty() =~= out@);
    }
    out
}

/// The completion text that one raw output buffer contributes: its strings, each trimmed
/// and stripped of end-of-sequence markers, concatenated in order.
pub fn decode_fragment(raw: &Vec<u8>) -> (r: Result<String, CompletionError>)
    ensures
        match fragment_text(raw@) {
            Some(t) => r matches Ok(s) && s@ == t,
            None => r matches Err(CompletionError::Decode),
        },
{
    let items = match deserialize_bytes_tensor(raw) {
        Some(v) => v,
        None => return Err(CompletionError::Decode),
    };
    let ghost bs = byte_strings(items@);
    let ghost strs = bs.map_values(|b: Seq<u8>| decode_utf8(b));
    let mut out: Vec<char> = Vec::new();
    let mut i: usize = 0;
    while i < items.len()
        invariant
            i <= items@.len(),
            bs == byte_strings(items@),
            decoded(raw@) == Some(bs),
            strs == bs.map_values(|b: Seq<u8>| decode_utf8(b)),
            all_utf8(bs.subrange(0, i as int)),
            out@ == joined_cleaned(strs.subrange(0, i as int)),
        decreases items@.len() - i,
    {
        let s = match utf8_string(items[i].clone()) {
            Some(s) => s,
            None => {
                assert(!valid_utf8(bs[i as int]));
                assert(!all_utf8(bs));
                return Err(CompletionError::Decode);
            },
        };
        let t = trim_whitespace(s.as_str());
        let cs = chars_of(t);
        let mut piece = remove_marker(&cs);
        let ghost before = out@;
        out.append(&mut piece);
        proof {
            let done = strs.subrange(0, i + 1);
            assert(done.drop_last() =~= strs.subrange(0, i as int));
            assert(done.last() == strs[i as int]);
            assert(out@ =~= joined_cleaned(done));
            assert(all_utf8(bs.subrange(0, i + 1))) by {
                assert forall|k: int| 0 <= k < i + 1 implies valid_utf8(
                    #[trigger] bs.subrange(0, i + 1)[k],
                ) by {
                    if k < i {
                        assert(bs.subrange(0, i + 1)[k] == bs.subrange(0, i as int)[k]);
                    }
                }
            }
        }
        i = i + 1;
    }
    proof {
        assert(bs.subrange(0, i as int) =~= bs);
        assert(strs.subrange(0, i as int) =~= strs);
    }
    Ok(string_of(&out))
}

} // verus!
