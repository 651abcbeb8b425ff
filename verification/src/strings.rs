//! Searching one text in another.
//!
//! Texts are compared byte by byte, in their UTF-8 encoding; the results
//! are stated, and proved, over their characters.

use vstd::prelude::*;
use vstd::string::*;
use vstd::utf8::{
    decode_first_scalar, decode_utf8, decode_utf8_split, encode_utf8,
    encode_utf8_decode_utf8, encode_utf8_first_scalar, encode_utf8_valid_utf8, is_char_boundary,
    is_char_boundary_iff_is_leading_byte, length_of_first_scalar, pop_first_scalar,
    valid_first_scalar, valid_utf8, valid_utf8_split,
};

verus! {

/// Whether `needle` stands somewhere in `text`, element for element.
pub open spec fn occurs_in<A>(needle: Seq<A>, text: Seq<A>) -> bool {
    exists|at: int| occurs_at(needle, text, at)
}

/// Whether `needle` stands in `text` from the index `at` on.
pub open spec fn occurs_at<A>(needle: Seq<A>, text: Seq<A>, at: int) -> bool {
    0 <= at && at + needle.len() <= text.len() && text.subrange(at, at + needle.len()) =~= needle
}

/// The encoding of two texts, one after the other, is the encoding of the
/// first followed by that of the second.
pub proof fn lemma_encode_concat(a: Seq<char>, b: Seq<char>)
    ensures
        encode_utf8(a + b) == encode_utf8(a) + encode_utf8(b),
    decreases a.len(),
{
    if a.len() == 0 {
        assert(a + b =~= b);
        assert(encode_utf8(a) + encode_utf8(b) =~= encode_utf8(b));
    } else {
        lemma_encode_concat(a.drop_first(), b);
        assert((a + b).drop_first() =~= a.drop_first() + b);
        assert(encode_utf8(a + b) =~= encode_utf8(a) + encode_utf8(b));
    }
}

/// Where the first of two encodings is the beginning of the second, the
/// characters of the first are the beginning of those of the second.
pub proof fn lemma_decode_prefix(head: Seq<u8>, whole: Seq<u8>)
    requires
        valid_utf8(head),
        valid_utf8(whole),
        head.is_prefix_of(whole),
    ensures
        decode_utf8(head).is_prefix_of(decode_utf8(whole)),
    decreases head.len(),
{
    if head.len() == 0 {
        assert(decode_utf8(whole).subrange(0, 0) =~= decode_utf8(head));
    } else {
        assert(forall|i: int| 0 <= i < head.len() ==> head[i] == whole.subrange(0, head.len() as int)[i]);
        assert(valid_first_scalar(head));
        assert(length_of_first_scalar(head) <= head.len());
        assert(head[0] == whole[0]);
        let width = length_of_first_scalar(head);
        assert(length_of_first_scalar(whole) == width);
        assert(decode_first_scalar(whole) == decode_first_scalar(head));
        let head_rest = pop_first_scalar(head);
        let whole_rest = pop_first_scalar(whole);
        assert(head_rest =~= whole_rest.subrange(0, head_rest.len() as int));
        lemma_decode_prefix(head_rest, whole_rest);
        let first = decode_first_scalar(head) as char;
        assert(decode_utf8(head) =~= seq![first] + decode_utf8(head_rest));
        assert(decode_utf8(whole) =~= seq![first] + decode_utf8(whole_rest));
        assert(decode_utf8(head_rest) =~= decode_utf8(whole_rest).subrange(
            0,
            decode_utf8(head_rest).len() as int,
        ));
        assert(decode_utf8(head) =~= decode_utf8(whole).subrange(0, decode_utf8(head).len() as int));
    }
}

/// A text begins with another exactly where its encoding begins with the
/// encoding of the other.
pub proof fn lemma_prefix_in_bytes(pattern: Seq<char>, text: Seq<char>)
    ensures
        pattern.is_prefix_of(text) <==> encode_utf8(pattern).is_prefix_of(encode_utf8(text)),
{
    let head = encode_utf8(pattern);
    let whole = encode_utf8(text);
    if pattern.is_prefix_of(text) {
        let rest = text.subrange(pattern.len() as int, text.len() as int);
        assert(text =~= pattern + rest);
        lemma_encode_concat(pattern, rest);
        assert(whole.subrange(0, head.len() as int) =~= head);
    }
    if head.is_prefix_of(whole) {
        encode_utf8_valid_utf8(pattern);
        encode_utf8_valid_utf8(text);
        lemma_decode_prefix(head, whole);
        encode_utf8_decode_utf8(pattern);
        encode_utf8_decode_utf8(text);
    }
}

/// A text stands in another exactly where its encoding stands in the
/// encoding of the other.
pub proof fn lemma_occurrence_in_bytes(needle: Seq<char>, text: Seq<char>)
    ensures
        occurs_in(needle, text) <==> occurs_in(encode_utf8(needle), encode_utf8(text)),
{
    let part = encode_utf8(needle);
    let whole = encode_utf8(text);
    encode_utf8_valid_utf8(needle);
    encode_utf8_valid_utf8(text);
    encode_utf8_decode_utf8(needle);
    encode_utf8_decode_utf8(text);
    if occurs_in(needle, text) {
        let at = choose|at: int| occurs_at(needle, text, at);
        let before = text.subrange(0, at);
        let after = text.subrange(at + needle.len(), text.len() as int);
        assert(text =~= before + needle + after);
        lemma_encode_concat(before + needle, after);
        lemma_encode_concat(before, needle);
        let offset = encode_utf8(before).len() as int;
        assert(whole.subrange(offset, offset + part.len()) =~= part);
        assert(occurs_at(part, whole, offset));
    }
    if occurs_in(part, whole) {
        let offset = choose|offset: int| occurs_at(part, whole, offset);
        if needle.len() == 0 {
            assert(occurs_at(needle, text, 0));
        } else {
            encode_utf8_first_scalar(needle);
            assert(part.len() > 0);
            assert(whole.subrange(offset, offset + part.len())[0] == part[0]);
            assert(whole[offset] == part[0]);
            is_char_boundary_iff_is_leading_byte(whole, offset);
            assert(is_char_boundary(whole, offset));
            valid_utf8_split(whole, offset);
            decode_utf8_split(whole, offset);
            let front = whole.subrange(0, offset);
            let back = whole.subrange(offset, whole.len() as int);
            assert(part =~= back.subrange(0, part.len() as int));
            lemma_decode_prefix(part, back);
            let at = decode_utf8(front).len() as int;
            assert(text =~= decode_utf8(front) + decode_utf8(back));
            assert(text.subrange(at, at + needle.len()) =~= decode_utf8(back).subrange(
                0,
                needle.len() as int,
            ));
            assert(occurs_at(needle, text, at));
        }
    }
}

/// Whether the bytes of `part` stand in `whole` from the index `at` on.
fn matches_at(whole: &[u8], part: &[u8], at: usize) -> (matches: bool)
    requires
        at + part@.len() <= whole@.len(),
    ensures
        matches == occurs_at(part@, whole@, at as int),
{
    let length = whole.len();
    let mut i: usize = 0;
    while i < part.len()
        invariant
            i <= part@.len(),
            at + part@.len() <= whole@.len(),
            whole@.len() == length,
            forall|k: int| 0 <= k < i ==> whole@[at + k] == part@[k],
        decreases part@.len() - i,
    {
        if whole[at + i] != part[i] {
            assert(whole@.subrange(at as int, at + part@.len())[i as int] != part@[i as int]);
            return false;
        }
        i += 1;
    }
    assert(whole@.subrange(at as int, at + part@.len()) =~= part@);
    true
}

/// Whether `text` begins with `pattern`.
pub fn starts_with(text: &str, pattern: &str) -> (found: bool)
    ensures
        found == pattern@.is_prefix_of(text@),
{
    let whole = text.as_bytes();
    let head = pattern.as_bytes();
    proof {
        lemma_prefix_in_bytes(pattern@, text@);
    }
    if head.len() > whole.len() {
        return false;
    }
    matches_at(whole, head, 0)
}

/// Whether `needle` stands somewhere in `text`.
pub fn contains(text: &str, needle: &str) -> (found: bool)
    ensures
        found == occurs_in(needle@, text@),
{
    let whole = text.as_bytes();
    let part = needle.as_bytes();
    proof {
        lemma_occurrence_in_bytes(needle@, text@);
    }
    if part.len() > whole.len() {
        return false;
    }
    let last = whole.len() - part.len();
    let mut at: usize = 0;
    while at < last
        invariant
            at <= last,
            last == whole@.len() - part@.len(),
            occurs_in(needle@, text@) <==> occurs_in(part@, whole@),
            forall|k: int| 0 <= k < at ==> !occurs_at(part@, whole@, k),
        decreases last - at,
    {
        if matches_at(whole, part, at) {
            return true;
        }
        at += 1;
    }
    matches_at(whole, part, last)
}

} // verus!
