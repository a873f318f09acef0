//! Character-level helpers shared by the key and listing code.

use vstd::prelude::*;

verus! {

/// `String::push` appends one character to the end of the string and leaves
/// everything before it unchanged.
pub assume_specification[ String::push ](s: &mut String, c: char)
    ensures
        final(s)@ == old(s)@.push(c),
;

/// Length of the longest prefix of `text` that does not contain `stop`:
/// the index of the first `stop`, or `text.len()` when there is none.
pub open spec fn prefix_len(text: Seq<char>, stop: char) -> nat
    decreases text.len(),
{
    if text.len() == 0 || text[0] == stop {
        0
    } else {
        1 + prefix_len(text.drop_first(), stop)
    }
}

/// `prefix_len` stays within the text, stops on a `stop` and passes over none.
pub proof fn lemma_prefix_len_bounds(text: Seq<char>, stop: char)
    ensures
        prefix_len(text, stop) <= text.len(),
        prefix_len(text, stop) < text.len() ==> text[prefix_len(text, stop) as int] == stop,
        forall|j: int| 0 <= j < prefix_len(text, stop) ==> text[j] != stop,
    decreases text.len(),
{
    if text.len() > 0 && text[0] != stop {
        let rest = text.drop_first();
        lemma_prefix_len_bounds(rest, stop);
        assert forall|j: int| 0 <= j < prefix_len(text, stop) implies text[j] != stop by {
            if j > 0 {
                assert(text[j] == rest[j - 1]);
            }
        }
    }
}

/// `prefix_len` is `k` when no `stop` stands before `k`, and at `k` either
/// a `stop` stands or the text ends.
pub proof fn lemma_prefix_len(text: Seq<char>, stop: char, k: int)
    requires
        0 <= k <= text.len(),
        forall|j: int| 0 <= j < k ==> text[j] != stop,
        k == text.len() || text[k] == stop,
    ensures
        prefix_len(text, stop) == k,
    decreases text.len(),
{
    if k > 0 {
        let rest = text.drop_first();
        assert forall|j: int| 0 <= j < k - 1 implies rest[j] != stop by {
            assert(rest[j] == text[j + 1]);
        }
        lemma_prefix_len(rest, stop, k - 1);
    }
}

} // verus!
