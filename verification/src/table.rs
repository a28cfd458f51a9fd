//! Finding the first entry of a sequence that matches.

use vstd::prelude::*;

verus! {

/// The index of the first element that `matches` accepts, if there is one.
pub open spec fn find_first<T>(s: Seq<T>, matches: spec_fn(T) -> bool) -> Option<int>
    decreases s.len(),
{
    if s.len() == 0 {
        None
    } else {
        match find_first(s.drop_last(), matches) {
            Some(i) => Some(i),
            None => if matches(s.last()) {
                Some(s.len() - 1)
            } else {
                None
            },
        }
    }
}

/// `find_first` gives an index whose element matches and before which
/// none does, and gives nothing only where no element matches.
pub proof fn lemma_find_first<T>(s: Seq<T>, matches: spec_fn(T) -> bool)
    ensures
        match find_first(s, matches) {
            Some(i) => {
                &&& 0 <= i < s.len()
                &&& matches(s[i])
                &&& forall|k: int| 0 <= k < i ==> !matches(#[trigger] s[k])
            },
            None => forall|k: int| 0 <= k < s.len() ==> !matches(#[trigger] s[k]),
        },
    decreases s.len(),
{
    if s.len() > 0 {
        lemma_find_first(s.drop_last(), matches);
        assert(forall|k: int| 0 <= k < s.len() - 1 ==> s.drop_last()[k] == s[k]);
    }
}

/// An index whose element matches and before which none does is the one
/// that `find_first` gives.
pub proof fn lemma_find_first_is<T>(s: Seq<T>, matches: spec_fn(T) -> bool, i: int)
    requires
        0 <= i < s.len(),
        matches(s[i]),
        forall|k: int| 0 <= k < i ==> !matches(#[trigger] s[k]),
    ensures
        find_first(s, matches) == Some(i),
{
    lemma_find_first(s, matches);
}

/// Two sequences of one length whose elements match at the same positions
/// have their first match at the same position.
pub proof fn lemma_find_first_same<T>(a: Seq<T>, b: Seq<T>, matches: spec_fn(T) -> bool)
    requires
        a.len() == b.len(),
        forall|k: int| 0 <= k < a.len() ==> matches(#[trigger] a[k]) == matches(b[k]),
    ensures
        find_first(a, matches) == find_first(b, matches),
{
    lemma_find_first(a, matches);
    lemma_find_first(b, matches);
    match find_first(a, matches) {
        Some(i) => {
            assert forall|k: int| 0 <= k < i implies !matches(#[trigger] b[k]) by {
                assert(matches(a[k]) == matches(b[k]));
            }
        },
        None => {
            if find_first(b, matches) is Some {
                let j = find_first(b, matches).unwrap();
                assert(matches(a[j]) == matches(b[j]));
            }
        },
    }
}

/// An element put behind a sequence is its first match where it matches
/// and nothing before it does, and changes nothing where it does not
/// match or something before it does.
pub proof fn lemma_find_first_push<T>(s: Seq<T>, last: T, matches: spec_fn(T) -> bool)
    ensures
        find_first(s.push(last), matches) == match find_first(s, matches) {
            Some(i) => Some(i),
            None => if matches(last) {
                Some(s.len() as int)
            } else {
                None
            },
        },
{
    assert(s.push(last).drop_last() =~= s);
}

} // verus!
