//! Top-level keys of tracked paths.

use vstd::prelude::*;
use crate::text::{lemma_prefix_len, lemma_prefix_len_bounds, prefix_len};

verus! {

/// Whether `name` is written as a directory: it ends with the separator.
pub open spec fn is_directory_name(name: Seq<char>) -> bool {
    name.len() > 0 && name.last() == '/'
}

/// Whether `path` has a separator anywhere.
pub open spec fn has_separator(path: Seq<char>) -> bool {
    path.contains('/')
}

/// What stands before the first separator of `path`; all of it when there is none.
pub open spec fn first_component(path: Seq<char>) -> Seq<char> {
    path.take(prefix_len(path, '/') as int)
}

/// The key under which a tracked path is counted: its first component
/// followed by the separator when the path has a separator, else the path itself.
pub open spec fn top_level_key(path: Seq<char>) -> Seq<char> {
    if has_separator(path) {
        first_component(path).push('/')
    } else {
        path
    }
}

/// A path has a separator exactly when its first component ends before
/// the path does, and then the separator is what follows the component.
pub proof fn lemma_first_component(path: Seq<char>)
    ensures
        has_separator(path) <==> first_component(path).len() < path.len(),
        has_separator(path) ==> path[first_component(path).len() as int] == '/',
        !first_component(path).contains('/'),
{
    lemma_prefix_len_bounds(path, '/');
}

/// A key is written as a directory exactly when its path has a separator,
/// and a path without one is its own key.
pub proof fn lemma_key_shape(path: Seq<char>)
    ensures
        is_directory_name(top_level_key(path)) <==> has_separator(path),
        !has_separator(path) ==> top_level_key(path) == path,
{
    lemma_first_component(path);
    if !has_separator(path) && path.len() > 0 {
        assert(path.last() == path[path.len() - 1]);
    }
}

/// A path is counted under a directory key exactly when it has a separator
/// and its first component, followed by the separator, is the key; it is
/// counted under any other key exactly when it has no separator and is the
/// key itself.
pub proof fn lemma_counted_under(path: Seq<char>, key: Seq<char>)
    ensures
        is_directory_name(key) ==> (top_level_key(path) == key <==> has_separator(path)
            && first_component(path).push('/') == key),
        !is_directory_name(key) ==> (top_level_key(path) == key <==> !has_separator(path) && path
            == key),
{
    lemma_key_shape(path);
}

/// Whether an entry name is written as a directory.
pub fn is_directory_entry(name: &str) -> (dir: bool)
    ensures
        dir == is_directory_name(name@),
{
    let mut last: Option<char> = None;
    for c in it: name.chars()
        invariant
            it.seq() == name@,
            last is Some <==> it.index() > 0,
            last is Some ==> last->0 == name@[it.index() - 1],
    {
        last = Some(c);
    }
    match last {
        Some(c) => c == '/',
        None => false,
    }
}

/// Computes the key under which `path` is counted.
pub fn key_of_path(path: &str) -> (key: String)
    ensures
        key@ == top_level_key(path@),
{
    let mut key = String::new();
    let mut found = false;
    for c in it: path.chars()
        invariant
            it.seq() == path@,
            !found ==> key@ == path@.take(it.index()),
            !found ==> forall|j: int| 0 <= j < it.index() ==> path@[j] != '/',
            found ==> key@ == top_level_key(path@),
    {
        if !found {
            key.push(c);
            proof {
                let i = it.index();
                assert(path@.take(i + 1) == path@.take(i).push(path@[i]));
                if c == '/' {
                    lemma_prefix_len(path@, '/', i);
                }
            }
            if c == '/' {
                found = true;
            }
        }
    }
    proof {
        if !found {
            lemma_prefix_len(path@, '/', path@.len() as int);
            assert(path@.take(path@.len() as int) == path@);
        }
    }
    key
}

} // verus!
