//! Comparing texts and cutting byte spans out of a source text.

use vstd::prelude::*;
use vstd::string::*;
use vstd::utf8::*;

verus! {

/// The text that the bytes from `start` up to `end` of `source` spell, where
/// both offsets lie within the text and on character boundaries.
pub open spec fn span_text(source: Seq<char>, start: int, end: int) -> Option<Seq<char>> {
    let bytes = encode_utf8(source);
    if 0 <= start <= end <= bytes.len() && is_char_boundary(bytes, start) && is_char_boundary(
        bytes,
        end,
    ) {
        Some(decode_utf8(bytes.subrange(start, end)))
    } else {
        None
    }
}

/// Two texts with the same bytes are the same text.
pub proof fn lemma_same_bytes_same_text(a: Seq<char>, b: Seq<char>)
    requires
        encode_utf8(a) == encode_utf8(b),
    ensures
        a == b,
{
    encode_utf8_decode_utf8(a);
    encode_utf8_decode_utf8(b);
}

/// Whether two texts are equal.
pub fn same_text(a: &str, b: &str) -> (same: bool)
    ensures
        same == (a@ == b@),
{
    let x = a.as_bytes();
    let y = b.as_bytes();
    if x.len() != y.len() {
        return false;
    }
    let mut i: usize = 0;
    while i < x.len()
        invariant
            i <= x.len(),
            x.len() == y.len(),
            x@ == encode_utf8(a@),
            y@ == encode_utf8(b@),
            forall|k: int| 0 <= k < i ==> x@[k] == y@[k],
        decreases x.len() - i,
    {
        if x[i] != y[i] {
            return false;
        }
        i += 1;
    }
    proof {
        assert(x@ =~= y@);
        lemma_same_bytes_same_text(a@, b@);
    }
    true
}

/// The part of `source` between two byte offsets, if they delimit a text.
pub fn slice<'a>(source: &'a str, start: usize, end: usize) -> (text: Option<&'a str>)
    ensures
        match text {
            Some(t) => span_text(source@, start as int, end as int) == Some(t@),
            None => span_text(source@, start as int, end as int) is None,
        },
{
    let raw = source.as_bytes();
    let ghost bytes = encode_utf8(source@);
    assert(raw@ == bytes);
    if start <= end && end <= raw.len() && source.is_char_boundary(start)
        && source.is_char_boundary(end) {
        let (head, _) = source.split_at(end);
        let ghost prefix = bytes.subrange(0, end as int);
        proof {
            encode_utf8_valid_utf8(source@);
            valid_utf8_split(bytes, end as int);
            assert(head.spec_bytes() == prefix);
            if start < end {
                is_char_boundary_iff_not_is_continuation_byte(bytes, start as int);
                is_char_boundary_iff_not_is_continuation_byte(prefix, start as int);
            } else {
                is_char_boundary_start_end_of_seq(prefix);
            }
        }
        let (_, text) = head.split_at(start);
        proof {
            assert(prefix.subrange(start as int, prefix.len() as int) =~= bytes.subrange(
                start as int,
                end as int,
            ));
            assert(encode_utf8(text@) == bytes.subrange(start as int, end as int));
            encode_utf8_decode_utf8(text@);
        }
        Some(text)
    } else {
        None
    }
}

} // verus!
