//! Collapsing a flat list of tracked paths into counts per top-level entry.

use vstd::multiset::Multiset;
use vstd::prelude::*;
use crate::counts::TrackedCounts;
use crate::path_key::{
    has_separator, is_directory_name, key_of_path, lemma_key_shape, top_level_key,
};

verus! {

/// The predicate "this path is counted under `key`".
pub open spec fn counted_under(key: Seq<char>) -> spec_fn(Seq<char>) -> bool {
    |path: Seq<char>| top_level_key(path) == key
}

/// How many of `paths` are counted under `key`.
pub open spec fn tracked_under(paths: Seq<Seq<char>>, key: Seq<char>) -> nat {
    paths.filter(counted_under(key)).len()
}

/// The count map of a list of tracked paths: every key under which at least
/// one path is counted, with the number of paths counted under it.
pub open spec fn tracked_counts(paths: Seq<Seq<char>>) -> Map<Seq<char>, nat> {
    Map::new(
        |key: Seq<char>| tracked_under(paths, key) > 0,
        |key: Seq<char>| tracked_under(paths, key),
    )
}

/// Counting one more path raises the count of its key by one and leaves
/// every other count as it was.
pub proof fn lemma_tracked_counts_push(paths: Seq<Seq<char>>, path: Seq<char>)
    ensures
        tracked_counts(paths.push(path)) == tracked_counts(paths).insert(
            top_level_key(path),
            tracked_under(paths, top_level_key(path)) + 1,
        ),
{
    let key = top_level_key(path);
    assert forall|other: Seq<char>|
        tracked_under(paths.push(path), other) == tracked_under(paths, other) + if other == key {
            1nat
        } else {
            0nat
        } by {
        paths.lemma_filter_len_push(counted_under(other), path);
    }
    assert(tracked_counts(paths.push(path)) =~= tracked_counts(paths).insert(
        key,
        tracked_under(paths, key) + 1,
    ));
}

/// A sequence in which no two elements satisfy `pred` keeps at most one
/// element under `pred`.
proof fn lemma_filter_at_most_one<A>(s: Seq<A>, pred: spec_fn(A) -> bool)
    requires
        forall|i: int, j: int| 0 <= i < j < s.len() ==> !(pred(s[i]) && pred(s[j])),
    ensures
        s.filter(pred).len() <= 1,
        (forall|i: int| 0 <= i < s.len() ==> !pred(s[i])) ==> s.filter(pred).len() == 0,
    decreases s.len(),
{
    reveal(Seq::filter);
    if s.len() > 0 {
        let rest = s.drop_last();
        lemma_filter_at_most_one(rest, pred);
        if pred(s.last()) {
            assert forall|i: int| 0 <= i < rest.len() implies !pred(rest[i]) by {
                assert(rest[i] == s[i]);
            }
        }
    }
}

/// Filtering a sequence keeps as many elements as filtering its multiset.
proof fn lemma_filter_len_by_multiset<A>(s: Seq<A>, pred: spec_fn(A) -> bool)
    ensures
        s.filter(pred).len() == s.to_multiset().filter(pred).len(),
    decreases s.len(),
{
    broadcast use vstd::multiset::group_multiset_axioms;
    broadcast use vstd::seq_lib::to_multiset_build;

    reveal(Seq::filter);
    if s.len() == 0 {
        assert(s.to_multiset().filter(pred) =~= Multiset::<A>::empty()) by {
            s.to_multiset_ensures();
        }
    } else {
        let rest = s.drop_last();
        let x = s.last();
        lemma_filter_len_by_multiset(rest, pred);
        assert(s == rest.push(x));
        assert(s.to_multiset() == rest.to_multiset().insert(x));
        if pred(x) {
            assert(s.to_multiset().filter(pred) =~= rest.to_multiset().filter(pred).insert(x));
        } else {
            assert(s.to_multiset().filter(pred) =~= rest.to_multiset().filter(pred));
        }
    }
}

/// No bare file name (a path without a separator) occurs twice in `paths`.
pub open spec fn bare_names_distinct(paths: Seq<Seq<char>>) -> bool {
    forall|i: int, j: int|
        0 <= i < j < paths.len() && !has_separator(paths[i]) ==> paths[i] != paths[j]
}

/// Every key of the count map has a positive count, and that count is the
/// number of paths counted under the key.
pub proof fn lemma_counts_are_tallies(paths: Seq<Seq<char>>, key: Seq<char>)
    ensures
        tracked_counts(paths).contains_key(key) <==> tracked_under(paths, key) > 0,
        tracked_counts(paths).contains_key(key) ==> tracked_counts(paths)[key] == tracked_under(
            paths,
            key,
        ),
        tracked_under(paths, key) <= paths.len(),
{
    paths.lemma_filter_len(counted_under(key));
}

/// In the count map of a listing that names no bare file twice, every key
/// that is not written as a directory has the count one.
pub proof fn lemma_plain_keys_count_once(paths: Seq<Seq<char>>, key: Seq<char>)
    requires
        bare_names_distinct(paths),
        tracked_counts(paths).contains_key(key),
        !is_directory_name(key),
    ensures
        tracked_counts(paths)[key] == 1,
{
    let pred = counted_under(key);
    assert forall|i: int, j: int| 0 <= i < j < paths.len() implies !(pred(paths[i]) && pred(
        paths[j],
    )) by {
        lemma_key_shape(paths[i]);
        lemma_key_shape(paths[j]);
    }
    lemma_filter_at_most_one(paths, pred);
}

/// The count map depends on which paths are listed and how often, not on
/// their order: two listings with the same paths give the same map.
pub proof fn lemma_counts_ignore_order(first: Seq<Seq<char>>, second: Seq<Seq<char>>)
    requires
        first.to_multiset() == second.to_multiset(),
    ensures
        tracked_counts(first) == tracked_counts(second),
{
    assert forall|key: Seq<char>| tracked_under(first, key) == tracked_under(second, key) by {
        lemma_filter_len_by_multiset(first, counted_under(key));
        lemma_filter_len_by_multiset(second, counted_under(key));
    }
    assert(tracked_counts(first) =~= tracked_counts(second));
}

/// Counts the tracked files under each top-level entry.
///
/// A path with a separator is counted under its first component followed by
/// the separator; a bare file name is counted under itself.
pub fn count_tracked_files(tracked_paths: &Vec<String>) -> (counts: TrackedCounts)
    requires
        forall|i: int| 0 <= i < tracked_paths.len() ==> tracked_paths[i]@.len() > 0,
    ensures
        counts@ == tracked_counts(tracked_paths.deep_view()),
{
    let ghost paths = tracked_paths.deep_view();
    let mut counts = TrackedCounts::new();
    assert(counts@ =~= tracked_counts(paths.take(0))) by {
        assert forall|key: Seq<char>| tracked_under(paths.take(0), key) == 0 by {
            reveal(Seq::filter);
        }
    }
    for i in 0..tracked_paths.len()
        invariant
            paths == tracked_paths.deep_view(),
            counts@ == tracked_counts(paths.take(i as int)),
    {
        let key = key_of_path(tracked_paths[i].as_str());
        proof {
            assert(paths[i as int] == tracked_paths[i as int]@);
            assert(paths.take(i + 1) == paths.take(i as int).push(paths[i as int]));
            lemma_tracked_counts_push(paths.take(i as int), paths[i as int]);
            paths.take(i as int).lemma_filter_len(counted_under(key@));
        }
        let next: u64 = match counts.get(key.as_str()) {
            Some(n) => n + 1,
            None => 1,
        };
        counts.insert(key, next);
    }
    assert(paths.take(tracked_paths.len() as int) == paths);
    counts
}

} // verus!
