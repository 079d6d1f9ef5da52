//! Whether one text stands inside another.
//!
//! The test runs over the bytes of the two texts. Since both are UTF-8, a run
//! of bytes that equals the bytes of the pattern begins and ends between
//! characters, so what is found among the bytes is found among the
//! characters, and the other way round.

use vstd::prelude::*;
use vstd::utf8::*;

use crate::text::lemma_encode_utf8_add;

verus! {

/// `needle` stands in `hay` from position `at` on.
pub open spec fn occurs_at<T>(hay: Seq<T>, needle: Seq<T>, at: int) -> bool {
    &&& 0 <= at
    &&& at + needle.len() <= hay.len()
    &&& hay.subrange(at, at + needle.len()) == needle
}

/// `needle` stands somewhere in `hay` as one unbroken run.
pub open spec fn contains_text(hay: Seq<char>, needle: Seq<char>) -> bool {
    exists|at: int| occurs_at(hay, needle, at)
}

/// What the encoding of a text that is not empty begins with: the encoding
/// of its first character, which is one byte that is no continuation byte
/// and up to three that are.
proof fn lemma_first_char(s: Seq<char>)
    requires
        s.len() > 0,
    ensures
        ({
            let bytes = encode_utf8(s);
            let width = encode_scalar(s[0] as u32).len();
            &&& bytes == encode_scalar(s[0] as u32) + encode_utf8(s.drop_first())
            &&& 1 <= width <= 4
            &&& width <= bytes.len()
            &&& width == length_of_first_scalar(bytes)
            &&& decode_first_scalar(bytes) == s[0] as u32
            &&& !is_continuation_byte(bytes[0])
            &&& forall|i: int| 1 <= i < width ==> is_continuation_byte(#[trigger] bytes[i])
        }),
{
    encode_utf8_first_scalar(s);
}

/// Where the encoding of `needle` begins the encoding of `hay`, `needle`
/// begins `hay`.
proof fn lemma_prefix_among_bytes(hay: Seq<char>, needle: Seq<char>)
    requires
        occurs_at(encode_utf8(hay), encode_utf8(needle), 0),
    ensures
        occurs_at(hay, needle, 0),
    decreases needle.len(),
{
    if needle.len() == 0 {
        assert(hay.subrange(0, 0) =~= needle);
    } else {
        let hay_bytes = encode_utf8(hay);
        let needle_bytes = encode_utf8(needle);
        lemma_first_char(needle);
        assert(hay.len() > 0);
        lemma_first_char(hay);
        assert forall|i: int| 0 <= i < needle_bytes.len() implies hay_bytes[i]
            == needle_bytes[i] by {
            assert(hay_bytes.subrange(0, needle_bytes.len() as int)[i] == hay_bytes[i]);
        }
        let width = encode_scalar(needle[0] as u32).len() as int;
        assert(hay_bytes[0] == needle_bytes[0]);
        assert(length_of_first_scalar(hay_bytes) == width);
        assert(decode_first_scalar(hay_bytes) == decode_first_scalar(needle_bytes)) by {
            if width >= 2 {
                assert(hay_bytes[1] == needle_bytes[1]);
            }
            if width >= 3 {
                assert(hay_bytes[2] == needle_bytes[2]);
            }
            if width >= 4 {
                assert(hay_bytes[3] == needle_bytes[3]);
            }
        }
        assert(hay[0] == needle[0]) by {
            let scalar = decode_first_scalar(hay_bytes);
            char_u32_cast(hay[0], scalar);
            char_u32_cast(needle[0], scalar);
        }
        let hay_rest = encode_utf8(hay.drop_first());
        let needle_rest = encode_utf8(needle.drop_first());
        assert(hay_rest.subrange(0, needle_rest.len() as int) =~= needle_rest) by {
            assert forall|i: int| 0 <= i < needle_rest.len() implies hay_rest[i]
                == needle_rest[i] by {
                assert(hay_bytes[width + i] == hay_rest[i]);
                assert(needle_bytes[width + i] == needle_rest[i]);
            }
        }
        lemma_prefix_among_bytes(hay.drop_first(), needle.drop_first());
        assert(hay.drop_first().subrange(0, needle.len() - 1) == needle.drop_first());
        assert(hay.subrange(0, needle.len() as int) =~= needle) by {
            assert forall|i: int| 0 <= i < needle.len() implies hay[i] == needle[i] by {
                if i > 0 {
                    assert(hay.drop_first().subrange(0, needle.len() - 1)[i - 1]
                        == needle.drop_first()[i - 1]);
                }
            }
        }
    }
}

/// Where the encoding of `needle` stands in the encoding of `hay`, `needle`
/// stands in `hay`.
proof fn lemma_found_among_bytes(hay: Seq<char>, needle: Seq<char>, at: int)
    requires
        occurs_at(encode_utf8(hay), encode_utf8(needle), at),
    ensures
        contains_text(hay, needle),
    decreases hay.len(),
{
    let hay_bytes = encode_utf8(hay);
    let needle_bytes = encode_utf8(needle);
    if needle.len() == 0 {
        assert(hay.subrange(0, 0) =~= needle);
        assert(occurs_at(hay, needle, 0));
    } else if at == 0 {
        lemma_prefix_among_bytes(hay, needle);
    } else {
        lemma_first_char(needle);
        assert(hay.len() > 0);
        lemma_first_char(hay);
        let width = encode_scalar(hay[0] as u32).len() as int;
        assert(hay_bytes.subrange(at, at + needle_bytes.len())[0] == hay_bytes[at]);
        assert(hay_bytes[at] == needle_bytes[0]);
        assert(at >= width);
        let rest = hay.drop_first();
        let rest_bytes = encode_utf8(rest);
        assert(rest_bytes.subrange(at - width, at - width + needle_bytes.len()) =~= needle_bytes)
            by {
            assert forall|i: int| 0 <= i < needle_bytes.len() implies rest_bytes[at - width + i]
                == needle_bytes[i] by {
                assert(hay_bytes.subrange(at, at + needle_bytes.len())[i] == hay_bytes[at + i]);
                assert(hay_bytes[at + i] == rest_bytes[at + i - width]);
            }
        }
        lemma_found_among_bytes(rest, needle, at - width);
        let found = choose|found: int| occurs_at(rest, needle, found);
        assert(hay.subrange(found + 1, found + 1 + needle.len()) =~= rest.subrange(
            found,
            found + needle.len(),
        ));
        assert(occurs_at(hay, needle, found + 1));
    }
}

/// Where `needle` stands in `hay`, the encoding of `needle` stands in the
/// encoding of `hay`.
proof fn lemma_found_among_chars(hay: Seq<char>, needle: Seq<char>, at: int)
    requires
        occurs_at(hay, needle, at),
    ensures
        occurs_at(encode_utf8(hay), encode_utf8(needle), encode_utf8(hay.take(at)).len() as int),
{
    let before = hay.take(at);
    let after = hay.skip(at + needle.len());
    assert(hay =~= before + needle + after);
    lemma_encode_utf8_add(before + needle, after);
    lemma_encode_utf8_add(before, needle);
    let from = encode_utf8(before).len() as int;
    assert(encode_utf8(hay).subrange(from, from + encode_utf8(needle).len()) =~= encode_utf8(
        needle,
    ));
}

/// Whether the bytes of `needle` stand in `hay` as one unbroken run.
pub fn bytes_contain(hay: &[u8], needle: &[u8]) -> (r: bool)
    ensures
        r == exists|at: int| occurs_at(hay@, needle@, at),
{
    let h = hay.len();
    let n = needle.len();
    if n > h {
        return false;
    }
    let mut at: usize = 0;
    while at <= h - n
        invariant
            h == hay@.len(),
            n == needle@.len(),
            n <= h,
            0 <= at <= h - n + 1,
            forall|before: int| 0 <= before < at ==> !occurs_at(hay@, needle@, before),
        decreases h - n + 1 - at,
    {
        let mut i: usize = 0;
        while i < n && hay[at + i] == needle[i]
            invariant
                h == hay@.len(),
                n == needle@.len(),
                at + n <= h,
                0 <= i <= n,
                forall|j: int| 0 <= j < i ==> hay@[at + j] == needle@[j],
            decreases n - i,
        {
            i += 1;
        }
        if i == n {
            proof {
                assert(hay@.subrange(at as int, at + n) =~= needle@);
                assert(occurs_at(hay@, needle@, at as int));
            }
            return true;
        }
        proof {
            assert(hay@.subrange(at as int, at + n)[i as int] == hay@[at + i]);
        }
        at += 1;
    }
    false
}

/// Whether `needle` stands in `hay` as one unbroken run of characters. The
/// empty text stands in every text.
pub fn contains(hay: &str, needle: &str) -> (r: bool)
    ensures
        r == contains_text(hay@, needle@),
{
    let r = bytes_contain(hay.as_bytes(), needle.as_bytes());
    proof {
        if r {
            let at = choose|at: int| occurs_at(encode_utf8(hay@), encode_utf8(needle@), at);
            lemma_found_among_bytes(hay@, needle@, at);
        } else if contains_text(hay@, needle@) {
            let at = choose|at: int| occurs_at(hay@, needle@, at);
            lemma_found_among_chars(hay@, needle@, at);
        }
    }
    r
}

} // verus!
