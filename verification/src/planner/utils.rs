//! Cleaning a path that a language model wrote.
use vstd::prelude::*;

use crate::text::{collapse_whitespace, join_with, push_char, words};
use vstd::string::StringSliceAdditionalSpecFns;

verus! {

/// The first position in `b` that holds the byte `x`, or its length.
pub open spec fn byte_index(b: Seq<u8>, x: u8) -> int
    decreases b.len(),
{
    if b.len() == 0 {
        0
    } else if b[0] == x {
        0
    } else {
        1 + byte_index(b.drop_first(), x)
    }
}

pub proof fn lemma_byte_index_bounds(b: Seq<u8>, x: u8)
    ensures
        0 <= byte_index(b, x) <= b.len(),
    decreases b.len(),
{
    if b.len() > 0 {
        lemma_byte_index_bounds(b.drop_first(), x);
    }
}

proof fn lemma_byte_index(b: Seq<u8>, x: u8, i: int)
    requires
        0 <= i <= b.len(),
        forall|k: int| 0 <= k < i ==> b[k] != x,
        i == b.len() || b[i] == x,
    ensures
        byte_index(b, x) == i,
    decreases i,
{
    if i > 0 {
        lemma_byte_index(b.drop_first(), x, i - 1);
    }
}

/// The bytes of `b` outside `<...>` tags, each read as the character of the
/// same number; an unclosed tag runs to the end.
pub open spec fn strip_tags_bytes(b: Seq<u8>) -> Seq<char>
    decreases b.len(),
{
    if b.len() == 0 {
        Seq::empty()
    } else if b[0] == 60u8 {
        let k = byte_index(b, 62u8);
        proof {
            lemma_byte_index_bounds(b, 62u8);
        }
        if k >= b.len() {
            Seq::empty()
        } else {
            strip_tags_bytes(b.skip(k + 1))
        }
    } else {
        seq![b[0] as char] + strip_tags_bytes(b.drop_first())
    }
}

/// What `sanitize` makes of a text whose UTF-8 bytes are `b`.
pub open spec fn sanitize_spec(b: Seq<u8>) -> Seq<char> {
    join_with(words(strip_tags_bytes(b)), seq![' '])
}

/// Removes `<...>` tags from `input`, reading each remaining byte as one
/// character, and collapses runs of whitespace to single spaces.
pub fn sanitize(input: &str) -> (r: String)
    ensures
        r@ == sanitize_spec(input.spec_bytes()),
{
    let mut s = String::new();
    let bytes = input.as_bytes();
    let ghost b = bytes@;
    let mut i: usize = 0;
    proof {
        assert(b.skip(0) =~= b);
        assert(s@ + strip_tags_bytes(b) =~= strip_tags_bytes(b));
    }
    while i < bytes.len()
        invariant
            b == bytes@,
            i <= b.len(),
            s@ + strip_tags_bytes(b.skip(i as int)) == strip_tags_bytes(b),
        decreases b.len() - i,
    {
        let ghost rest = b.skip(i as int);
        if bytes[i] == 60u8 {
            let mut j = i;
            while j < bytes.len() && bytes[j] != 62u8
                invariant
                    i <= j <= b.len(),
                    b == bytes@,
                    forall|k: int| i <= k < j ==> b[k] != 62u8,
                decreases b.len() - j,
            {
                j = j + 1;
            }
            proof {
                assert forall|k: int| 0 <= k < j - i implies rest[k] != 62u8 by {
                    assert(rest[k] == b[i + k]);
                }
                lemma_byte_index(rest, 62u8, j - i);
            }
            if j == bytes.len() {
                proof {
                    assert(b.skip(b.len() as int) =~= Seq::<u8>::empty());
                    assert(s@ + Seq::<char>::empty() =~= s@);
                }
                i = j;
            } else {
                proof {
                    assert(rest.skip(j - i + 1) =~= b.skip(j + 1));
                }
                i = j + 1;
            }
        } else {
            let c = bytes[i] as char;
            proof {
                assert(rest.drop_first() =~= b.skip(i + 1));
                assert(s@.push(c) + strip_tags_bytes(b.skip(i + 1)) =~= s@ + (seq![c]
                    + strip_tags_bytes(rest.drop_first())));
            }
            push_char(&mut s, c);
            i = i + 1;
        }
    }
    proof {
        assert(b.skip(b.len() as int) =~= Seq::<u8>::empty());
        assert(s@ + Seq::<char>::empty() =~= s@);
    }
    collapse_whitespace(s.as_str())
}

} // verus!
