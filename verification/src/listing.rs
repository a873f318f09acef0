//! Reading the output of a listing tool: decoding it as text and taking
//! its lines that are not empty.

use vstd::prelude::*;
use vstd::utf8::{decode_utf8, valid_utf8};
use crate::text::{lemma_prefix_len, prefix_len};

verus! {

/// The error of `String::from_utf8`, carried through and never looked into.
#[verifier::external_type_specification]
#[verifier::external_body]
pub struct ExFromUtf8Error(std::string::FromUtf8Error);

/// `String::from_utf8` succeeds exactly on byte vectors that are valid
/// UTF-8, and the string it then returns holds the characters that the
/// bytes encode.
pub assume_specification[ String::from_utf8 ](bytes: Vec<u8>) -> (decoded: Result<
    String,
    std::string::FromUtf8Error,
>)
    ensures
        decoded is Ok <==> valid_utf8(bytes@),
        decoded is Ok ==> decoded->Ok_0@ == decode_utf8(bytes@),
;

/// Why the output of a listing tool could not be read.
#[derive(Clone, Copy, Debug, PartialEq, Eq, Structural)]
pub enum ListingError {
    /// The output is not valid UTF-8 text.
    NotText,
}

/// The predicate "this line holds at least one character".
pub open spec fn is_non_empty() -> spec_fn(Seq<char>) -> bool {
    |line: Seq<char>| line.len() > 0
}

/// The lines of `text`: what stands between its line feeds, before the
/// first and after the last. A text of `n` line feeds has `n + 1` lines.
pub open spec fn split_lines(text: Seq<char>) -> Seq<Seq<char>>
    decreases text.len(),
{
    let n = prefix_len(text, '\n') as int;
    if n < text.len() {
        seq![text.take(n)] + split_lines(text.skip(n + 1))
    } else {
        seq![text]
    }
}

/// The lines of `text` that are not empty, in order.
pub open spec fn non_empty_lines(text: Seq<char>) -> Seq<Seq<char>> {
    split_lines(text).filter(is_non_empty())
}

/// A text that starts with a line and a line feed splits into that line
/// and the lines of what follows.
proof fn lemma_split_at_line_feed(text: Seq<char>, k: int)
    requires
        0 <= k < text.len(),
        text[k] == '\n',
        forall|j: int| 0 <= j < k ==> text[j] != '\n',
    ensures
        split_lines(text) == seq![text.take(k)] + split_lines(text.skip(k + 1)),
        non_empty_lines(text) == (if k > 0 {
            seq![text.take(k)]
        } else {
            Seq::<Seq<char>>::empty()
        }) + non_empty_lines(text.skip(k + 1)),
{
    lemma_prefix_len(text, '\n', k);
    let head = seq![text.take(k)];
    Seq::filter_distributes_over_add(head, split_lines(text.skip(k + 1)), is_non_empty());
    assert(head.filter(is_non_empty()) == if k > 0 {
        head
    } else {
        Seq::<Seq<char>>::empty()
    }) by {
        reveal_with_fuel(Seq::filter, 2);
        assert(head.drop_last() == Seq::<Seq<char>>::empty());
    }
}

/// A text without a line feed is its own single line.
proof fn lemma_split_last_line(text: Seq<char>)
    requires
        forall|j: int| 0 <= j < text.len() ==> text[j] != '\n',
    ensures
        split_lines(text) == seq![text],
        non_empty_lines(text) == if text.len() > 0 {
            seq![text]
        } else {
            Seq::<Seq<char>>::empty()
        },
{
    lemma_prefix_len(text, '\n', text.len() as int);
    let only = seq![text];
    assert(only.filter(is_non_empty()) == if text.len() > 0 {
        only
    } else {
        Seq::<Seq<char>>::empty()
    }) by {
        reveal_with_fuel(Seq::filter, 2);
        assert(only.drop_last() == Seq::<Seq<char>>::empty());
    }
}

/// Takes the lines of `text` that are not empty.
pub fn lines_of(text: &str) -> (lines: Vec<String>)
    ensures
        lines.deep_view() == non_empty_lines(text@),
        forall|i: int| 0 <= i < lines.len() ==> (#[trigger] lines[i])@.len() > 0,
{
    let mut lines: Vec<String> = Vec::new();
    let mut current = String::new();
    let ghost mut start: int = 0;
    proof {
        assert(text@.skip(0) == text@);
        assert(lines.deep_view() + non_empty_lines(text@) == non_empty_lines(text@));
    }
    for c in it: text.chars()
        invariant
            it.seq() == text@,
            0 <= start <= it.index(),
            current@ == text@.subrange(start, it.index() as int),
            forall|j: int| start <= j < it.index() ==> text@[j] != '\n',
            lines.deep_view() + non_empty_lines(text@.skip(start)) == non_empty_lines(text@),
            forall|i: int| 0 <= i < lines.len() ==> (#[trigger] lines[i])@.len() > 0,
    {
        let ghost idx = it.index() as int;
        let ghost rest = text@.skip(start);
        if c == '\n' {
            proof {
                assert forall|j: int| 0 <= j < idx - start implies rest[j] != '\n' by {
                    assert(rest[j] == text@[start + j]);
                }
                lemma_split_at_line_feed(rest, idx - start);
                assert(rest.take(idx - start) == current@);
                assert(rest.skip(idx - start + 1) == text@.skip(idx + 1));
            }
            if current.as_str().is_empty() {
            } else {
                let ghost before = lines.deep_view();
                lines.push(current);
                assert(lines.deep_view() == before + seq![current@]);
            }
            current = String::new();
            proof {
                start = idx + 1;
            }
        } else {
            current.push(c);
            assert(text@.subrange(start, idx + 1) == text@.subrange(start, idx).push(c));
        }
    }
    proof {
        let rest = text@.skip(start);
        assert(rest == current@);
        lemma_split_last_line(rest);
    }
    if current.as_str().is_empty() {
    } else {
        let ghost before = lines.deep_view();
        lines.push(current);
        assert(lines.deep_view() == before + seq![current@]);
    }
    lines
}

/// Reads the output of a listing tool: one name per line, empty lines
/// skipped.
///
/// Fails exactly when the output is not valid UTF-8.
pub fn parse_listing(output: Vec<u8>) -> (outcome: Result<Vec<String>, ListingError>)
    ensures
        outcome is Ok <==> valid_utf8(output@),
        outcome is Ok ==> outcome->Ok_0.deep_view() == non_empty_lines(decode_utf8(output@)),
        outcome is Ok ==> forall|i: int|
            0 <= i < outcome->Ok_0.len() ==> (#[trigger] outcome->Ok_0[i])@.len() > 0,
        outcome is Err ==> outcome->Err_0 == ListingError::NotText,
{
    match String::from_utf8(output) {
        Ok(text) => Ok(lines_of(text.as_str())),
        Err(_) => Err(ListingError::NotText),
    }
}

} // verus!
