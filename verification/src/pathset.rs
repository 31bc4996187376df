//! The set of configured repository paths: no path twice, and always walked
//! in the order of `order::path_lt`.

use crate::order::{
    increasing, lemma_increasing_no_duplicates, lemma_path_lt_asymmetric,
    lemma_path_lt_transitive, path_lt, place, Place,
};
use vstd::prelude::*;

verus! {

/// A set of paths, held as a strictly increasing list.
#[derive(Debug)]
pub struct PathSet {
    paths: Vec<String>,
}

impl View for PathSet {
    type V = Seq<Seq<char>>;

    /// The paths of the set, in the order in which it is walked.
    closed spec fn view(&self) -> Seq<Seq<char>> {
        self.paths.deep_view()
    }
}

/// The number of paths of `s` that come before `path`.
pub open spec fn rank(s: Seq<Seq<char>>, path: Seq<char>) -> int
    decreases s.len(),
{
    if s.len() == 0 {
        0
    } else {
        rank(s.drop_last(), path) + if path_lt(s.last(), path) {
            1int
        } else {
            0int
        }
    }
}

/// `s` with `path` put in its place, or `s` itself where it holds `path` already.
pub open spec fn with_path(s: Seq<Seq<char>>, path: Seq<char>) -> Seq<Seq<char>> {
    if s.contains(path) {
        s
    } else {
        s.insert(rank(s, path), path)
    }
}

/// `s` without `path`.
pub open spec fn without_path(s: Seq<Seq<char>>, path: Seq<char>) -> Seq<Seq<char>> {
    if s.contains(path) {
        s.remove(s.index_of(path))
    } else {
        s
    }
}

/// In an increasing sequence whose first `k` paths come before `path` and
/// whose others do not, `k` is the rank of `path`.
pub proof fn lemma_rank_is_split(s: Seq<Seq<char>>, path: Seq<char>, k: int)
    requires
        0 <= k <= s.len(),
        forall|i: int| 0 <= i < k ==> path_lt(#[trigger] s[i], path),
        forall|i: int| k <= i < s.len() ==> !path_lt(#[trigger] s[i], path),
    ensures
        rank(s, path) == k,
    decreases s.len(),
{
    if s.len() > 0 {
        let front = s.drop_last();
        if k == s.len() {
            lemma_rank_is_split(front, path, k - 1);
        } else {
            lemma_rank_is_split(front, path, k);
        }
    }
}

/// The rank of a path lies within the sequence.
pub proof fn lemma_rank_bounds(s: Seq<Seq<char>>, path: Seq<char>)
    ensures
        0 <= rank(s, path) <= s.len(),
    decreases s.len(),
{
    if s.len() > 0 {
        lemma_rank_bounds(s.drop_last(), path);
    }
}

/// Putting a path in its place keeps the sequence increasing, and adds the
/// path to what it holds and nothing else.
pub proof fn lemma_with_path(s: Seq<Seq<char>>, path: Seq<char>)
    requires
        increasing(s),
    ensures
        increasing(with_path(s, path)),
        with_path(s, path).to_set() == s.to_set().insert(path),
{
    let t = with_path(s, path);
    if s.contains(path) {
        assert(t.to_set() =~= s.to_set().insert(path));
    } else {
        let k = rank(s, path);
        lemma_rank_bounds(s, path);
        lemma_rank_splits(s, path);
        assert forall|i: int, j: int| 0 <= i < j < t.len() implies path_lt(
            #[trigger] t[i],
            #[trigger] t[j],
        ) by {
            if j == k {
                assert(t[i] == s[i]);
            } else if i == k {
                assert(t[j] == s[j - 1]);
                assert(!path_lt(s[j - 1], path));
                crate::order::lemma_path_lt_total(s[j - 1], path);
            } else {
                let a = if i < k {
                    i
                } else {
                    i - 1
                };
                let b = if j < k {
                    j
                } else {
                    j - 1
                };
                assert(t[i] == s[a] && t[j] == s[b]);
            }
        }
        assert forall|p: Seq<char>| t.to_set().contains(p) <==> s.to_set().insert(path).contains(
            p,
        ) by {
            if t.contains(p) {
                let i = choose|i: int| 0 <= i < t.len() && t[i] == p;
                if i < k {
                    assert(s[i] == p);
                } else if i > k {
                    assert(s[i - 1] == p);
                }
            }
            if s.contains(p) {
                let i = choose|i: int| 0 <= i < s.len() && s[i] == p;
                if i < k {
                    assert(t[i] == p);
                } else {
                    assert(t[i + 1] == p);
                }
            }
            if p == path {
                assert(t[k] == p);
            }
        }
        assert(t.to_set() =~= s.to_set().insert(path));
    }
}

/// In an increasing sequence the paths that come before `path` are exactly
/// those below its rank.
pub proof fn lemma_rank_splits(s: Seq<Seq<char>>, path: Seq<char>)
    requires
        increasing(s),
    ensures
        forall|i: int| 0 <= i < rank(s, path) ==> path_lt(#[trigger] s[i], path),
        forall|i: int| rank(s, path) <= i < s.len() ==> !path_lt(#[trigger] s[i], path),
    decreases s.len(),
{
    if s.len() > 0 {
        let front = s.drop_last();
        assert(increasing(front)) by {
            assert forall|i: int, j: int| 0 <= i < j < front.len() implies path_lt(
                #[trigger] front[i],
                #[trigger] front[j],
            ) by {
                assert(front[i] == s[i] && front[j] == s[j]);
            }
        }
        lemma_rank_splits(front, path);
        lemma_rank_bounds(front, path);
        let k = rank(front, path);
        assert forall|i: int| 0 <= i < rank(s, path) implies path_lt(#[trigger] s[i], path) by {
            if i < front.len() {
                assert(front[i] == s[i]);
                if i >= k {
                    // the last path comes before `path`, so all before it do
                    assert(path_lt(s.last(), path));
                    if i < s.len() - 1 {
                        lemma_path_lt_transitive(s[i], s.last(), path);
                    }
                }
            }
        }
        assert forall|i: int| rank(s, path) <= i < s.len() implies !path_lt(
            #[trigger] s[i],
            path,
        ) by {
            if i < front.len() {
                assert(front[i] == s[i]);
            } else if path_lt(s.last(), path) && k < front.len() {
                // then every earlier path comes before `path` too
                assert(front[k] == s[k]);
                lemma_path_lt_transitive(s[k], s.last(), path);
            }
        }
    }
}

/// Taking a path out keeps the sequence increasing, and takes the path from
/// what it holds and nothing else.
pub proof fn lemma_without_path(s: Seq<Seq<char>>, path: Seq<char>)
    requires
        increasing(s),
    ensures
        increasing(without_path(s, path)),
        without_path(s, path).to_set() == s.to_set().remove(path),
{
    let t = without_path(s, path);
    lemma_increasing_no_duplicates(s);
    if s.contains(path) {
        let k = s.index_of(path);
        assert forall|i: int, j: int| 0 <= i < j < t.len() implies path_lt(
            #[trigger] t[i],
            #[trigger] t[j],
        ) by {
            let a = if i < k {
                i
            } else {
                i + 1
            };
            let b = if j < k {
                j
            } else {
                j + 1
            };
            assert(t[i] == s[a] && t[j] == s[b]);
        }
        assert forall|p: Seq<char>| t.to_set().contains(p) <==> s.to_set().remove(path).contains(
            p,
        ) by {
            if t.contains(p) {
                let i = choose|i: int| 0 <= i < t.len() && t[i] == p;
                let a = if i < k {
                    i
                } else {
                    i + 1
                };
                assert(s[a] == p);
            }
            if s.contains(p) && p != path {
                let i = choose|i: int| 0 <= i < s.len() && s[i] == p;
                if i < k {
                    assert(t[i] == p);
                } else {
                    assert(t[i - 1] == p);
                }
            }
        }
        assert(t.to_set() =~= s.to_set().remove(path));
    } else {
        assert(t.to_set() =~= s.to_set().remove(path));
    }
}

impl PathSet {
    /// The paths are held in strictly increasing order, so none occurs twice.
    pub open spec fn wf(&self) -> bool {
        increasing(self@)
    }

    /// The empty set.
    pub fn new() -> (s: PathSet)
        ensures
            s@ == Seq::<Seq<char>>::empty(),
            s.wf(),
    {
        let s = PathSet { paths: Vec::new() };
        assert(s.paths.deep_view() =~= Seq::<Seq<char>>::empty());
        s
    }

    /// The number of paths.
    pub fn len(&self) -> (n: usize)
        ensures
            n == self@.len(),
    {
        self.paths.len()
    }

    /// The paths, in increasing order.
    pub fn as_vec(&self) -> (v: &Vec<String>)
        ensures
            v.deep_view() == self@,
    {
        &self.paths
    }

    /// The number of paths that come before `path`, and whether the set holds `path`.
    fn locate(&self, path: &str) -> (found: (usize, bool))
        requires
            self.wf(),
        ensures
            found.0 == rank(self@, path@),
            found.0 <= self@.len(),
            found.1 == self@.contains(path@),
            found.1 ==> found.0 < self@.len() && self@[found.0 as int] == path@,
    {
        let ghost s = self.paths.deep_view();
        let mut i: usize = 0;
        let mut hit = false;
        while i < self.paths.len()
            invariant_except_break
                !hit,
            invariant
                i <= self.paths.len(),
                s == self.paths.deep_view(),
                increasing(s),
                forall|j: int| 0 <= j < i ==> path_lt(#[trigger] s[j], path@),
            ensures
                hit ==> i < s.len() && s[i as int] == path@,
                !hit ==> (i == s.len() || path_lt(path@, s[i as int])),
            decreases self.paths.len() - i,
        {
            let p = place(self.paths[i].as_str(), path);
            assert(s[i as int] == self.paths[i as int]@);
            if p == Place::Same {
                hit = true;
                break ;
            }
            if p == Place::After {
                break ;
            }
            i = i + 1;
        }
        proof {
            assert forall|j: int| i <= j < s.len() implies !path_lt(#[trigger] s[j], path@) by {
                if hit {
                    if j > i {
                        lemma_path_lt_asymmetric(s[i as int], s[j]);
                    } else {
                        crate::order::lemma_path_lt_irreflexive(path@);
                    }
                } else {
                    if j > i {
                        lemma_path_lt_transitive(path@, s[i as int], s[j]);
                    }
                    lemma_path_lt_asymmetric(path@, s[j]);
                }
            }
            lemma_rank_is_split(s, path@, i as int);
            if !hit {
                assert forall|j: int| 0 <= j < s.len() implies s[j] != path@ by {
                    if j < i {
                        lemma_path_lt_asymmetric(s[j], path@);
                    } else {
                        if j > i {
                            lemma_path_lt_transitive(path@, s[i as int], s[j]);
                        }
                        lemma_path_lt_asymmetric(path@, s[j]);
                    }
                }
            }
        }
        (i, hit)
    }

    /// Whether the set holds `path`.
    pub fn contains(&self, path: &str) -> (held: bool)
        requires
            self.wf(),
        ensures
            held == self@.contains(path@),
    {
        self.locate(path).1
    }

    /// Adds `path` to the set. Returns whether it was new.
    pub fn insert(&mut self, path: String) -> (added: bool)
        requires
            old(self).wf(),
        ensures
            final(self)@ == with_path(old(self)@, path@),
            added == !old(self)@.contains(path@),
            final(self).wf(),
    {
        let ghost s = self.paths.deep_view();
        let ghost p = path@;
        let (at, held) = self.locate(path.as_str());
        if held {
            false
        } else {
            self.paths.insert(at, path);
            proof {
                assert(self.paths.deep_view() =~= s.insert(at as int, p));
                lemma_with_path(s, p);
            }
            true
        }
    }

    /// Takes `path` out of the set. Returns whether the set held it.
    pub fn remove(&mut self, path: &str) -> (removed: bool)
        requires
            old(self).wf(),
        ensures
            final(self)@ == without_path(old(self)@, path@),
            removed == old(self)@.contains(path@),
            final(self).wf(),
    {
        let ghost s = self.paths.deep_view();
        let (at, held) = self.locate(path);
        if held {
            proof {
                lemma_increasing_no_duplicates(s);
                assert(s.index_of(path@) == at as int);
                lemma_without_path(s, path@);
            }
            let _ = self.paths.remove(at);
            assert(self.paths.deep_view() =~= s.remove(at as int));
            true
        } else {
            false
        }
    }
}

} // verus!
