//! The byte-tensor wire format: each string is framed as a 4-byte little-endian length
//! followed by its bytes, and frames are concatenated in order.
use vstd::prelude::*;

verus! {

/// The four little-endian bytes of `n`.
pub open spec fn le32_bytes(n: u32) -> Seq<u8> {
    seq![
        (n & 0xff) as u8,
        ((n >> 8u32) & 0xff) as u8,
        ((n >> 16u32) & 0xff) as u8,
        ((n >> 24u32) & 0xff) as u8,
    ]
}

/// The integer held little-endian in the first four bytes of `b` (which has at least four).
pub open spec fn le32_value(b: Seq<u8>) -> u32 {
    (b[0] as u32) | ((b[1] as u32) << 8u32) | ((b[2] as u32) << 16u32) | ((b[3] as u32) << 24u32)
}

/// One string on the wire: its length prefix, then its bytes.
pub open spec fn frame(s: Seq<u8>) -> Seq<u8> {
    le32_bytes(s.len() as u32) + s
}

/// Every item fits a 32-bit length prefix.
pub open spec fn all_framable(items: Seq<Seq<u8>>) -> bool {
    forall|i: int| 0 <= i < items.len() ==> #[trigger] items[i].len() <= u32::MAX
}

/// The wire form of a sequence of strings.
pub open spec fn encoded(items: Seq<Seq<u8>>) -> Seq<u8>
    decreases items.len(),
{
    if items.len() == 0 {
        Seq::empty()
    } else {
        frame(items[0]) + encoded(items.drop_first())
    }
}

/// The byte strings held by a vector of byte vectors.
pub open spec fn byte_strings(v: Seq<Vec<u8>>) -> Seq<Seq<u8>> {
    v.map_values(|b: Vec<u8>| b@)
}

/// The strings held by a buffer, or `None` where a frame or a length prefix is cut short.
#[verifier::opaque]
pub open spec fn decoded(buf: Seq<u8>) -> Option<Seq<Seq<u8>>>
    decreases buf.len(),
{
    if buf.len() == 0 {
        Some(Seq::empty())
    } else if buf.len() < 4 {
        None
    } else {
        let n = le32_value(buf) as int;
        if buf.len() - 4 < n {
            None
        } else {
            match decoded(buf.subrange(4 + n, buf.len() as int)) {
                Some(rest) => Some(seq![buf.subrange(4, 4 + n)] + rest),
                None => None,
            }
        }
    }
}

pub proof fn lemma_le32_round_trip(n: u32, tail: Seq<u8>)
    ensures
        le32_value(le32_bytes(n) + tail) == n,
{
    let b = le32_bytes(n) + tail;
    assert(b[0] == (n & 0xff) as u8);
    assert(b[1] == ((n >> 8u32) & 0xff) as u8);
    assert(b[2] == ((n >> 16u32) & 0xff) as u8);
    assert(b[3] == ((n >> 24u32) & 0xff) as u8);
    assert((((n & 0xff) as u8) as u32) | (((((n >> 8u32) & 0xff) as u8) as u32) << 8u32) | (((((n
        >> 16u32) & 0xff) as u8) as u32) << 16u32) | (((((n >> 24u32) & 0xff) as u8) as u32)
        << 24u32) == n) by (bit_vector);
}

pub proof fn lemma_encoded_push(items: Seq<Seq<u8>>, x: Seq<u8>)
    ensures
        encoded(items.push(x)) == encoded(items) + frame(x),
    decreases items.len(),
{
    if items.len() == 0 {
        assert(items.push(x).drop_first() =~= Seq::<Seq<u8>>::empty());
        assert(encoded(Seq::<Seq<u8>>::empty()) == Seq::<u8>::empty());
        assert(items.push(x)[0] == x);
        assert(encoded(items.push(x)) =~= frame(x));
    } else {
        assert(items.push(x).drop_first() =~= items.drop_first().push(x));
        lemma_encoded_push(items.drop_first(), x);
        assert(encoded(items.push(x)) =~= encoded(items) + frame(x));
    }
}

/// Decoding a frame followed by more bytes takes the frame's string and goes on after it.
proof fn lemma_decoded_frame(x: Seq<u8>, tail: Seq<u8>)
    requires
        x.len() <= u32::MAX,
    ensures
        decoded(frame(x) + tail) == match decoded(tail) {
            Some(rest) => Some(seq![x] + rest),
            None => None::<Seq<Seq<u8>>>,
        },
{
    reveal(decoded);
    let buf = frame(x) + tail;
    lemma_le32_round_trip(x.len() as u32, x + tail);
    assert(buf =~= le32_bytes(x.len() as u32) + (x + tail));
    assert(le32_value(buf) as int == x.len());
    assert(buf.subrange(4 + x.len() as int, buf.len() as int) =~= tail);
    assert(buf.subrange(4, 4 + x.len() as int) =~= x);
}

/// Decoding inverts encoding.
pub proof fn lemma_decode_encode(items: Seq<Seq<u8>>)
    requires
        all_framable(items),
    ensures
        decoded(encoded(items)) == Some(items),
    decreases items.len(),
{
    if items.len() > 0 {
        let rest = items.drop_first();
        assert(all_framable(rest)) by {
            assert forall|i: int| 0 <= i < rest.len() implies #[trigger] rest[i].len()
                <= u32::MAX by {
                assert(rest[i] == items[i + 1]);
            }
        }
        lemma_decode_encode(rest);
        assert(items[0].len() <= u32::MAX);
        assert(encoded(items) == frame(items[0]) + encoded(rest));
        lemma_decoded_frame(items[0], encoded(rest));
        assert(seq![items[0]] + rest =~= items);
    } else {
        reveal(decoded);
        assert(items =~= Seq::<Seq<u8>>::empty());
        assert(encoded(items) =~= Seq::<u8>::empty());
    }
}

/// A buffer whose last length prefix declares more bytes than remain after it is rejected,
/// whatever well-formed frames come before it.
pub proof fn lemma_overlong_frame_rejected(valid: Seq<Seq<u8>>, n: u32, rest: Seq<u8>)
    requires
        all_framable(valid),
        rest.len() < n,
    ensures
        decoded(encoded(valid) + le32_bytes(n) + rest) is None,
    decreases valid.len(),
{
    if valid.len() == 0 {
        reveal(decoded);
        let buf = encoded(valid) + le32_bytes(n) + rest;
        assert(buf =~= le32_bytes(n) + rest);
        lemma_le32_round_trip(n, rest);
    } else {
        let tail = valid.drop_first();
        assert(all_framable(tail)) by {
            assert forall|i: int| 0 <= i < tail.len() implies #[trigger] tail[i].len()
                <= u32::MAX by {
                assert(tail[i] == valid[i + 1]);
            }
        }
        lemma_overlong_frame_rejected(tail, n, rest);
        assert(valid[0].len() <= u32::MAX);
        lemma_decoded_frame(valid[0], encoded(tail) + le32_bytes(n) + rest);
        assert(encoded(valid) == frame(valid[0]) + encoded(tail));
        assert(encoded(valid) + le32_bytes(n) + rest =~= frame(valid[0]) + (encoded(tail)
            + le32_bytes(n) + rest));
    }
}

fn push_le32(out: &mut Vec<u8>, n: u32)
    ensures
        final(out)@ == old(out)@ + le32_bytes(n),
{
    out.push((n & 0xff) as u8);
    out.push(((n >> 8u32) & 0xff) as u8);
    out.push(((n >> 16u32) & 0xff) as u8);
    out.push(((n >> 24u32) & 0xff) as u8);
    assert(final(out)@ =~= old(out)@ + le32_bytes(n));
}

/// The four little-endian bytes of `n`, as a fixed-width integer tensor holds it.
pub fn encode_u32(n: u32) -> (r: Vec<u8>)
    ensures
        r@ == le32_bytes(n),
{
    let mut out: Vec<u8> = Vec::new();
    push_le32(&mut out, n);
    assert(out@ =~= le32_bytes(n));
    out
}

fn push_bytes(out: &mut Vec<u8>, bytes: &Vec<u8>)
    ensures
        final(out)@ == old(out)@ + bytes@,
{
    let mut j: usize = 0;
    while j < bytes.len()
        invariant
            j <= bytes@.len(),
            out@ == old(out)@ + bytes@.subrange(0, j as int),
        decreases bytes@.len() - j,
    {
        out.push(bytes[j]);
        j = j + 1;
        assert(out@ =~= old(out)@ + bytes@.subrange(0, j as int));
    }
    assert(bytes@.subrange(0, j as int) =~= bytes@);
}

/// Frames each string in order; `None` exactly when one is too long for a 32-bit prefix.
pub fn serialize_bytes_tensor(items: &Vec<Vec<u8>>) -> (r: Option<Vec<u8>>)
    ensures
        r is Some <==> all_framable(byte_strings(items@)),
        r matches Some(buf) ==> buf@ == encoded(byte_strings(items@)),
{
    let mut out: Vec<u8> = Vec::new();
    let mut i: usize = 0;
    while i < items.len()
        invariant
            i <= items@.len(),
            all_framable(byte_strings(items@).subrange(0, i as int)),
            out@ == encoded(byte_strings(items@).subrange(0, i as int)),
        decreases items@.len() - i,
    {
        let item = &items[i];
        if item.len() > u32::MAX as usize {
            assert(byte_strings(items@)[i as int].len() > u32::MAX);
            return None;
        }
        push_le32(&mut out, item.len() as u32);
        push_bytes(&mut out, item);
        proof {
            let done = byte_strings(items@).subrange(0, i as int);
            lemma_encoded_push(done, item@);
            assert(byte_strings(items@).subrange(0, i + 1) =~= done.push(item@));
        }
        i = i + 1;
    }
    assert(byte_strings(items@).subrange(0, i as int) =~= byte_strings(items@));
    Some(out)
}

/// What remains to decode from `pos` on, put after the strings already taken.
pub open spec fn after(taken: Seq<Seq<u8>>, rest: Option<Seq<Seq<u8>>>) -> Option<Seq<Seq<u8>>> {
    match rest {
        Some(r) => Some(taken + r),
        None => None,
    }
}

/// Splits a buffer back into its strings; `None` exactly when a frame is cut short.
pub fn deserialize_bytes_tensor(buf: &Vec<u8>) -> (r: Option<Vec<Vec<u8>>>)
    ensures
        match decoded(buf@) {
            Some(items) => r matches Some(v) && byte_strings(v@) == items,
            None => r is None,
        },
{
    let mut items: Vec<Vec<u8>> = Vec::new();
    let mut pos: usize = 0;
    let len = buf.len();
    proof {
        assert(buf@.subrange(0, len as int) =~= buf@);
        match decoded(buf@) {
            Some(r) => {
                assert(byte_strings(items@) + r =~= r);
            },
            None => {},
        }
    }
    while pos < len
        invariant
            len == buf@.len(),
            pos <= len,
            decoded(buf@) == after(
                byte_strings(items@),
                decoded(buf@.subrange(pos as int, len as int)),
            ),
        decreases len - pos,
    {
        reveal(decoded);
        let ghost cur = buf@.subrange(pos as int, len as int);
        if len - pos < 4 {
            return None;
        }
        let n: u32 = (buf[pos] as u32) | ((buf[pos + 1] as u32) << 8u32) | ((buf[pos + 2] as u32)
            << 16u32) | ((buf[pos + 3] as u32) << 24u32);
        assert(n == le32_value(cur));
        if ((len - pos - 4) as u64) < (n as u64) {
            return None;
        }
        let start = pos + 4;
        let end = start + n as usize;
        let mut item: Vec<u8> = Vec::new();
        let mut j: usize = start;
        while j < end
            invariant
                start <= j <= end <= len,
                len == buf@.len(),
                item@ == buf@.subrange(start as int, j as int),
            decreases end - j,
        {
            item.push(buf[j]);
            j = j + 1;
            assert(item@ =~= buf@.subrange(start as int, j as int));
        }
        proof {
            assert(cur.subrange(4, 4 + n as int) =~= item@);
            assert(cur.subrange(4 + n as int, cur.len() as int) =~= buf@.subrange(
                end as int,
                len as int,
            ));
        }
        let ghost before = byte_strings(items@);
        items.push(item);
        proof {
            assert(byte_strings(items@) =~= before.push(item@));
            match decoded(buf@.subrange(end as int, len as int)) {
                Some(r) => {
                    assert(before + (seq![item@] + r) =~= byte_strings(items@) + r);
                },
                None => {},
            }
        }
        pos = end;
    }
    assert(buf@.subrange(pos as int, len as int) =~= Seq::<u8>::empty());
    reveal(decoded);
    assert(byte_strings(items@) + Seq::<Seq<u8>>::empty() =~= byte_strings(items@));
    Some(items)
}

} // verus!
