//! Merging two versions of a free-text note without losing what either holds.

use vstd::prelude::*;
use vstd::string::*;
use crate::strings::starts_with;

verus! {

/// The line that separates the two sides of a note that could not be merged.
pub const CONFLICT_MARKER: &'static str = "\n>>>>>>>>\n";

/// The merge of two notes, the local one being authoritative.
///
/// An empty side gives way to the other; a side that the other already
/// starts with is dropped; two notes that diverge are both kept, the local
/// one first, with the conflict marker between them.
pub open spec fn merge_text(local: Seq<char>, other: Seq<char>) -> Seq<char> {
    if local.len() == 0 {
        other
    } else if other.len() == 0 || other.is_prefix_of(local) {
        local
    } else if local.is_prefix_of(other) {
        other
    } else {
        local + CONFLICT_MARKER@ + other
    }
}

/// Merges the note `with` into `merged`.
pub fn merge_strings(merged: &mut String, with: &str)
    ensures
        final(merged)@ == merge_text(old(merged)@, with@),
{
    if merged.as_str().is_empty() {
        merged.append(with);
        assert(merged@ =~= with@);
        return ;
    }
    if with.is_empty() || starts_with(merged.as_str(), with) {
        return ;
    }
    if starts_with(with, merged.as_str()) {
        *merged = with.to_owned();
    } else {
        merged.append(CONFLICT_MARKER);
        merged.append(with);
    }
}

/// Merging with an empty note, on either side, gives the other note.
pub proof fn lemma_merge_text_empty(a: Seq<char>)
    ensures
        merge_text(Seq::empty(), a) == a,
        merge_text(a, Seq::empty()) == a,
{
}

/// Merging a note with itself gives that note.
pub proof fn lemma_merge_text_same(a: Seq<char>)
    ensures
        merge_text(a, a) == a,
{
    assert(a.subrange(0, a.len() as int) =~= a);
}

/// Where the other note is the local one with more text after it, the
/// longer note is the result.
pub proof fn lemma_merge_text_extension(a: Seq<char>, s: Seq<char>)
    ensures
        merge_text(a, a + s) == a + s,
{
    let longer = a + s;
    assert(longer.subrange(0, a.len() as int) =~= a);
    if longer.is_prefix_of(a) {
        assert(longer =~= a);
    }
}

/// Two notes of which neither starts with the other are both kept, with
/// the conflict marker between them.
pub proof fn lemma_merge_text_diverging(a: Seq<char>, b: Seq<char>)
    requires
        !a.is_prefix_of(b),
        !b.is_prefix_of(a),
    ensures
        merge_text(a, b) == a + CONFLICT_MARKER@ + b,
{
    if a.len() == 0 {
        assert(b.subrange(0, 0) =~= a);
    }
    if b.len() == 0 {
        assert(a.subrange(0, 0) =~= b);
    }
}

/// Whether the two notes merge without a conflict: one of them starts
/// with the other.
pub open spec fn agrees_with(local: Seq<char>, other: Seq<char>) -> bool {
    local.is_prefix_of(other) || other.is_prefix_of(local)
}

/// Where one note starts with the other, merging the same note in a second
/// time changes nothing.
pub proof fn lemma_merge_text_again(a: Seq<char>, b: Seq<char>)
    requires
        agrees_with(a, b),
    ensures
        merge_text(merge_text(a, b), b) == merge_text(a, b),
{
    assert(b.subrange(0, b.len() as int) =~= b);
    assert(a.subrange(0, a.len() as int) =~= a);
}

} // verus!
