//! The tail of a session's output that fits a byte budget.

use std::collections::VecDeque;

use vstd::prelude::*;
use vstd::string::*;
use vstd::utf8::*;

use crate::text::texts;

verus! {

/// The number of bytes of `s` in UTF-8.
pub open spec fn byte_len(s: Seq<char>) -> nat {
    encode_utf8(s).len()
}

/// The longest end of `s` that takes at most `max` bytes.
pub open spec fn byte_tail(s: Seq<char>, max: nat) -> Seq<char>
    decreases s.len(),
{
    if byte_len(s) <= max {
        s
    } else {
        byte_tail(s.drop_first(), max)
    }
}

/// Whether reading `max` bytes back from the end stops before the oldest chunk
/// is taken whole: the chunks need more than `max` bytes, or the chunks after
/// the oldest already use the budget up.
pub open spec fn tail_truncated(chunks: Seq<Seq<char>>, max: nat) -> bool {
    chunks.len() > 0 && (byte_len(chunks.flatten()) > max || byte_len(
        chunks.drop_first().flatten(),
    ) >= max)
}

proof fn lemma_encode_concat(a: Seq<char>, b: Seq<char>)
    ensures
        encode_utf8(a + b) == encode_utf8(a) + encode_utf8(b),
    decreases a.len(),
{
    if a.len() == 0 {
        assert(a + b =~= b);
    } else {
        lemma_encode_concat(a.drop_first(), b);
        assert((a + b).drop_first() =~= a.drop_first() + b);
    }
}

/// Bytes add up over concatenation.
pub proof fn lemma_byte_len_concat(a: Seq<char>, b: Seq<char>)
    ensures
        byte_len(a + b) == byte_len(a) + byte_len(b),
{
    lemma_encode_concat(a, b);
}

/// Every character takes at least one byte.
pub proof fn lemma_byte_len_lower_bound(s: Seq<char>)
    ensures
        s.len() <= byte_len(s),
    decreases s.len(),
{
    if s.len() > 0 {
        lemma_byte_len_lower_bound(s.drop_first());
    }
}

proof fn lemma_tail_keeps_fitting_end(a: Seq<char>, b: Seq<char>, max: nat)
    requires
        byte_len(b) <= max,
    ensures
        byte_tail(a + b, max) == byte_tail(a, (max - byte_len(b)) as nat) + b,
    decreases a.len(),
{
    lemma_byte_len_concat(a, b);
    if byte_len(a + b) > max {
        assert(a.len() > 0) by {
            if a.len() == 0 {
                assert(a + b =~= b);
            }
        }
        lemma_tail_keeps_fitting_end(a.drop_first(), b, max);
        assert((a + b).drop_first() =~= a.drop_first() + b);
    }
}

proof fn lemma_tail_forgets_start(a: Seq<char>, b: Seq<char>, max: nat)
    requires
        byte_len(b) > max,
    ensures
        byte_tail(a + b, max) == byte_tail(b, max),
    decreases a.len(),
{
    lemma_byte_len_concat(a, b);
    if a.len() == 0 {
        assert(a + b =~= b);
    } else {
        lemma_tail_forgets_start(a.drop_first(), b, max);
        assert((a + b).drop_first() =~= a.drop_first() + b);
    }
}

proof fn lemma_boundary_between(a: Seq<char>, b: Seq<char>)
    ensures
        is_char_boundary(encode_utf8(a + b), byte_len(a) as int),
    decreases a.len(),
{
    encode_utf8_valid_utf8(a + b);
    if a.len() == 0 {
        is_char_boundary_start_end_of_seq(encode_utf8(a + b));
    } else {
        lemma_boundary_between(a.drop_first(), b);
        assert((a + b).drop_first() =~= a.drop_first() + b);
        encode_utf8_first_scalar(a + b);
        assert(pop_first_scalar(encode_utf8(a + b)) =~= encode_utf8(a.drop_first() + b));
        lemma_encode_concat(a, b);
    }
}

/// Cuts `chunk` at the first character boundary that leaves at most `max`
/// bytes.
fn chunk_tail(chunk: &str, max: usize) -> (r: String)
    requires
        byte_len(chunk@) > max,
    ensures
        r@ == byte_tail(chunk@, max as nat),
{
    let ghost bytes = chunk.spec_bytes();
    let len: usize = chunk.as_bytes().len();
    let mut start: usize = len - max;
    proof {
        encode_utf8_valid_utf8(chunk@);
        is_char_boundary_start_end_of_seq(bytes);
    }
    while !chunk.is_char_boundary(start)
        invariant
            bytes == chunk.spec_bytes(),
            len == bytes.len(),
            max < len,
            len - max <= start <= len,
            is_char_boundary(bytes, len as int),
            forall|k: int| len - max <= k < start ==> !is_char_boundary(bytes, k),
        decreases len - start,
    {
        start = start + 1;
    }
    let parts = chunk.split_at(start);
    proof {
        let a = parts.0@;
        let b = parts.1@;
        decode_utf8_split(bytes, start as int);
        encode_utf8_decode_utf8(a);
        encode_utf8_decode_utf8(b);
        encode_utf8_decode_utf8(chunk@);
        assert(a + b == chunk@);
        lemma_tail_keeps_fitting_end(a, b, max as nat);
        let rest = (max - byte_len(b)) as nat;
        if a.len() > 0 {
            let front = a.drop_last();
            let c = seq![a.last()];
            assert(a =~= front + c);
            lemma_boundary_between(front, c + b);
            assert(front + (c + b) =~= chunk@);
            lemma_byte_len_concat(front, c);
            lemma_byte_len_concat(a, b);
            lemma_byte_len_lower_bound(c);
            assert(byte_len(c) > rest);
            lemma_tail_forgets_start(front, c, rest);
            assert(c.drop_first() =~= Seq::<char>::empty());
            reveal_with_fuel(byte_tail, 2);
            assert(byte_tail(a, rest) =~= Seq::<char>::empty());
        }
        assert(byte_tail(a, rest) + b =~= b);
    }
    parts.1.to_owned()
}

proof fn lemma_suffix_bytes(chunks: Seq<Seq<char>>, i: int, j: int)
    requires
        0 <= i <= j <= chunks.len(),
    ensures
        byte_len(chunks.skip(j).flatten()) <= byte_len(chunks.skip(i).flatten()),
{
    let mid = chunks.subrange(i, j);
    assert(chunks.skip(i) =~= mid + chunks.skip(j));
    vstd::seq_lib::lemma_flatten_concat(mid, chunks.skip(j));
    lemma_byte_len_concat(mid.flatten(), chunks.skip(j).flatten());
}

proof fn lemma_peel_chunk(chunks: Seq<Seq<char>>, i: int)
    requires
        0 < i <= chunks.len(),
    ensures
        chunks.take(i).flatten() == chunks.take(i - 1).flatten() + chunks[i - 1],
        chunks.skip(i - 1).flatten() == chunks[i - 1] + chunks.skip(i).flatten(),
{
    assert(chunks.take(i) =~= chunks.take(i - 1).push(chunks[i - 1]));
    chunks.take(i - 1).lemma_flatten_push(chunks[i - 1]);
    assert(chunks.skip(i - 1).drop_first() =~= chunks.skip(i));
}

/// Reads the last `max_bytes` bytes of the output, cut at a character boundary,
/// and tells whether older output was left out.
pub fn read_output_chunks_tail(output: &VecDeque<String>, max_bytes: usize) -> (r: (String, bool))
    ensures
        r.0@ == byte_tail(texts(output@).flatten(), max_bytes as nat),
        r.1 == tail_truncated(texts(output@), max_bytes as nat),
{
    let ghost chunks = texts(output@);
    let ghost max = max_bytes as nat;
    let n: usize = output.len();
    let mut i: usize = n;
    let mut remaining: usize = max_bytes;
    let mut head = String::new();
    let mut truncated = false;
    proof {
        assert(chunks.skip(n as int) =~= Seq::<Seq<char>>::empty());
    }
    while i > 0 && !truncated
        invariant
            chunks == texts(output@),
            max == max_bytes,
            n == output@.len(),
            i <= n,
            remaining + byte_len(chunks.skip(i as int).flatten()) == max,
            !truncated ==> head@.len() == 0,
            !truncated && i < n ==> byte_len(chunks.skip(i + 1).flatten()) < max,
            truncated ==> {
                &&& i > 0
                &&& head@ == byte_tail(chunks.take(i as int).flatten(), remaining as nat)
                &&& remaining == 0 || byte_len(chunks[i - 1]) > remaining
            },
        decreases i, (if truncated { 0int } else { 1int }),
    {
        let chunk = output[i - 1].as_str();
        let len: usize = chunk.as_bytes().len();
        proof {
            lemma_peel_chunk(chunks, i as int);
        }
        if remaining == 0 {
            truncated = true;
            proof {
                lemma_zero_budget(chunks.take(i as int).flatten());
                assert(head@ =~= Seq::<char>::empty());
            }
        } else if len > remaining {
            head = chunk_tail(chunk, remaining);
            truncated = true;
            proof {
                lemma_tail_forgets_start(
                    chunks.take(i - 1).flatten(),
                    chunks[i - 1],
                    remaining as nat,
                );
            }
        } else {
            proof {
                lemma_byte_len_concat(chunks[i - 1], chunks.skip(i as int).flatten());
            }
            remaining = remaining - len;
            i = i - 1;
        }
    }
    proof {
        assert(chunks.take(i as int) + chunks.skip(i as int) =~= chunks);
        vstd::seq_lib::lemma_flatten_concat(chunks.take(i as int), chunks.skip(i as int));
        lemma_tail_keeps_fitting_end(
            chunks.take(i as int).flatten(),
            chunks.skip(i as int).flatten(),
            max,
        );
        assert(chunks.skip(0) =~= chunks);
        if n > 0 {
            assert(chunks.drop_first() =~= chunks.skip(1));
        }
        if truncated {
            lemma_peel_chunk(chunks, i as int);
            lemma_byte_len_concat(chunks[i - 1], chunks.skip(i as int).flatten());
            lemma_suffix_bytes(chunks, 0, i - 1);
            lemma_suffix_bytes(chunks, 1, i as int);
        } else {
            assert(chunks.take(0) =~= Seq::<Seq<char>>::empty());
            assert(head@ =~= byte_tail(chunks.take(i as int).flatten(), remaining as nat));
        }
    }
    let mut tail = head;
    let ghost start = i as int;
    let ghost first = tail@;
    let mut j: usize = i;
    proof {
        assert(chunks.subrange(start, start) =~= Seq::<Seq<char>>::empty());
        assert(first + chunks.subrange(start, start).flatten() =~= first);
    }
    while j < n
        invariant
            chunks == texts(output@),
            n == output@.len(),
            0 <= start <= j <= n,
            tail@ == first + chunks.subrange(start, j as int).flatten(),
        decreases n - j,
    {
        tail.append(output[j].as_str());
        proof {
            let done = chunks.subrange(start, j as int);
            assert(chunks.subrange(start, j + 1) =~= done.push(chunks[j as int]));
            done.lemma_flatten_push(chunks[j as int]);
            assert(first + (done.flatten() + chunks[j as int]) =~= first + done.flatten()
                + chunks[j as int]);
        }
        j = j + 1;
    }
    proof {
        assert(chunks.subrange(start, n as int) =~= chunks.skip(start));
    }
    (tail, truncated)
}

proof fn lemma_zero_budget(s: Seq<char>)
    ensures
        byte_tail(s, 0) == Seq::<char>::empty(),
    decreases s.len(),
{
    lemma_byte_len_lower_bound(s);
    if s.len() > 0 {
        lemma_zero_budget(s.drop_first());
    }
}

/// A tail keeps to its budget, and it is the end of the text.
pub proof fn law_tail_fits(s: Seq<char>, max: nat)
    ensures
        byte_len(byte_tail(s, max)) <= max,
        byte_tail(s, max).len() <= s.len(),
        byte_tail(s, max) == s.skip(s.len() - byte_tail(s, max).len()),
    decreases s.len(),
{
    if byte_len(s) > max {
        law_tail_fits(s.drop_first(), max);
        let n = byte_tail(s, max).len();
        assert(s.drop_first().skip(s.len() - 1 - n) =~= s.skip(s.len() - n));
    } else {
        assert(s.skip(0) =~= s);
    }
}

/// No longer end of the text keeps to the budget.
pub proof fn law_tail_is_longest(s: Seq<char>, max: nat, n: nat)
    requires
        n <= s.len(),
        byte_len(s.skip(s.len() - n)) <= max,
    ensures
        n <= byte_tail(s, max).len(),
    decreases s.len(),
{
    if byte_len(s) > max {
        assert(n < s.len()) by {
            if n == s.len() {
                assert(s.skip(0) =~= s);
            }
        }
        assert(s.drop_first().skip(s.len() - 1 - n) =~= s.skip(s.len() - n));
        law_tail_is_longest(s.drop_first(), max, n);
    }
}

/// A tail that is not reported as truncated holds all the output.
pub proof fn law_untruncated_tail_is_everything(chunks: Seq<Seq<char>>, max: nat)
    requires
        !tail_truncated(chunks, max),
    ensures
        byte_tail(chunks.flatten(), max) == chunks.flatten(),
{
    if chunks.len() == 0 {
        assert(byte_len(chunks.flatten()) == 0);
    }
}

/// What comes last and fits the budget is the end of the tail.
pub proof fn law_tail_ends_with_last(before: Seq<char>, last: Seq<char>, max: nat)
    requires
        byte_len(last) <= max,
    ensures
        byte_tail(before + last, max) == byte_tail(before, (max - byte_len(last)) as nat) + last,
{
    lemma_tail_keeps_fitting_end(before, last, max);
}

} // verus!
