//! Looking for repositories below a directory. The walk itself reads the
//! file system, which the caller does; here stands what the walk keeps and
//! decides: which paths are still to be looked at, which repositories were
//! found, and what follows from what was seen at a path.

use crate::error::{Failure, FailureView};
use std::collections::VecDeque;
use vstd::prelude::*;

verus! {

/// What was seen at a path.
#[derive(Debug)]
pub enum Seen<R> {
    /// The path is no directory.
    NotADirectory,
    /// The path is a directory that belongs to a repository.
    Repository(R),
    /// The path is a directory that belongs to no repository; these are
    /// the paths of what it holds.
    Children(Vec<String>),
    /// The path is a directory that belongs to no repository and could
    /// not be read, for this reason.
    Unreadable(String),
}

/// A walk in progress. `R` is what stands for a repository that was found.
#[derive(Debug)]
pub struct Walk<R> {
    pending: VecDeque<String>,
    found: Vec<R>,
}

/// A walk as a value of specifications: the paths still to be looked at,
/// the next one first, and the repositories found so far, in the order in
/// which they were found.
pub struct WalkView<R> {
    pub pending: Seq<Seq<char>>,
    pub found: Seq<R>,
}

impl<R> View for Walk<R> {
    type V = WalkView<R>;

    closed spec fn view(&self) -> WalkView<R> {
        WalkView {
            pending: Seq::new(self.pending@.len(), |i: int| self.pending@[i]@),
            found: self.found@,
        }
    }
}

impl<R> WalkView<R> {
    /// The walk after `seen` was seen at the next path. What is no
    /// directory is passed over. A repository is kept, and nothing below
    /// it is looked at. A directory outside any repository has what it
    /// holds looked at later, after everything that is pending already. A
    /// directory that cannot be read ends the walk.
    pub open spec fn after(self, seen: Seen<R>) -> WalkView<R> {
        if self.pending.len() == 0 {
            self
        } else {
            match seen {
                Seen::NotADirectory => WalkView { pending: self.pending.drop_first(), ..self },
                Seen::Repository(repository) => WalkView {
                    pending: self.pending.drop_first(),
                    found: self.found.push(repository),
                },
                Seen::Children(children) => WalkView {
                    pending: self.pending.drop_first() + children.deep_view(),
                    ..self
                },
                Seen::Unreadable(_) => WalkView { pending: Seq::empty(), ..self },
            }
        }
    }

    /// The failure that `seen` at the next path amounts to, if it is one.
    pub open spec fn failure(self, seen: Seen<R>) -> Option<FailureView> {
        match seen {
            Seen::Unreadable(detail) => if self.pending.len() > 0 {
                Some(FailureView::Unreadable { dir: self.pending[0], detail: detail@ })
            } else {
                None
            },
            _ => None,
        }
    }
}

impl<R> Walk<R> {
    /// A walk that starts at `root`.
    pub fn new(root: String) -> (walk: Walk<R>)
        ensures
            walk@.pending == seq![root@],
            walk@.found == Seq::<R>::empty(),
    {
        let mut pending: VecDeque<String> = VecDeque::new();
        pending.push_back(root);
        let walk = Walk { pending, found: Vec::new() };
        assert(walk@.pending =~= seq![root@]);
        walk
    }

    /// The path to look at next; none when the walk is over.
    pub fn next_path(&self) -> (path: Option<String>)
        ensures
            match path {
                Some(next) => self@.pending.len() > 0 && next@ == self@.pending[0],
                None => self@.pending.len() == 0,
            },
    {
        if self.pending.len() > 0 {
            Some(self.pending[0].clone())
        } else {
            None
        }
    }

    /// Takes down what was seen at the next path, and fails if that ends
    /// the walk. On a walk that is over nothing is taken down.
    pub fn record(&mut self, seen: Seen<R>) -> (r: Result<(), Failure>)
        ensures
            final(self)@ == old(self)@.after(seen),
            match r {
                Ok(_) => old(self)@.failure(seen) is None,
                Err(failure) => old(self)@.failure(seen) == Some(failure@),
            },
    {
        let ghost before = self@;
        let path = match self.pending.pop_front() {
            Some(path) => path,
            None => {
                assert(self@.pending =~= before.pending);
                return Ok(());
            },
        };
        assert(path@ == before.pending[0]);
        match seen {
            Seen::NotADirectory => {
                assert(self@.pending =~= before.pending.drop_first());
                Ok(())
            },
            Seen::Repository(repository) => {
                self.found.push(repository);
                assert(self@.pending =~= before.pending.drop_first());
                Ok(())
            },
            Seen::Children(children) => {
                let ghost rest = self@.pending;
                assert(rest =~= before.pending.drop_first());
                let mut i: usize = 0;
                while i < children.len()
                    invariant
                        i <= children.len(),
                        self@.found == before.found,
                        self@.pending == rest + children.deep_view().take(i as int),
                    decreases children.len() - i,
                {
                    let ghost sofar = self@.pending;
                    self.pending.push_back(children[i].clone());
                    assert(self@.pending =~= sofar.push(children[i as int]@));
                    assert(children.deep_view().take(i + 1) =~= children.deep_view().take(
                        i as int,
                    ).push(children[i as int]@));
                    i = i + 1;
                }
                assert(children.deep_view().take(i as int) =~= children.deep_view());
                Ok(())
            },
            Seen::Unreadable(detail) => {
                self.pending.clear();
                assert(self@.pending =~= Seq::<Seq<char>>::empty());
                Err(Failure::Unreadable { dir: path, detail })
            },
        }
    }

    /// The number of repositories found so far.
    pub fn found_count(&self) -> (n: usize)
        ensures
            n == self@.found.len(),
    {
        self.found.len()
    }

    /// Ends the walk and hands out the repositories that were found, in
    /// the order in which they were found.
    pub fn into_found(self) -> (found: Vec<R>)
        ensures
            found@ == self@.found,
    {
        self.found
    }
}

} // verus!
