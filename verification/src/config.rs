//! The configuration: which repositories and which custom entries are
//! watched, and how the repositories are refreshed.

use crate::custom::CustomEntry;
use crate::error::{Failure, FailureView};
use crate::pathset::PathSet;
use vstd::prelude::*;

verus! {

/// The refresh command used when the configuration names none.
pub fn default_refresh_cmd() -> (cmd: String)
    ensures
        cmd@ == "git remote update"@,
{
    String::from_str("git remote update")
}

/// What is watched, and how.
#[derive(Debug)]
pub struct Config {
    /// The command that refreshes a repository.
    pub refresh_cmd: String,
    pub enable_chad: Option<String>,
    /// The configured repository paths.
    pub git: PathSet,
    /// The custom entries, in the order in which they were configured.
    pub custom: Vec<CustomEntry>,
}

/// The names of `entries`, in order.
pub open spec fn names_of(entries: Seq<CustomEntry>) -> Seq<Seq<char>> {
    Seq::new(entries.len(), |i: int| entries[i].name@)
}

/// The text that tells of a custom entry's name that occurs twice.
pub open spec fn duplicate_name_text(name: Seq<char>) -> Seq<char> {
    "custom entry defined twice: "@ + name
}

/// The name at index `i` of `names` occurs again at a later index.
pub open spec fn is_repeated(names: Seq<Seq<char>>, i: int) -> bool {
    0 <= i < names.len() && exists|j: int| i < j < names.len() && names[j] == names[i]
}

impl Config {
    /// The repository paths are a set in its order, and no two custom
    /// entries share a name.
    pub open spec fn wf(&self) -> bool {
        &&& self.git.wf()
        &&& names_of(self.custom@).no_duplicates()
    }

    /// The first index among the custom entries whose name occurs again
    /// later, if there is one.
    fn find_repeated(custom: &Vec<CustomEntry>) -> (found: Option<usize>)
        ensures
            match found {
                Some(i) => is_repeated(names_of(custom@), i as int) && forall|k: int|
                    0 <= k < i ==> !is_repeated(names_of(custom@), k),
                None => names_of(custom@).no_duplicates(),
            },
    {
        let ghost names = names_of(custom@);
        let mut i: usize = 0;
        while i < custom.len()
            invariant
                i <= custom.len(),
                names == names_of(custom@),
                forall|k: int| 0 <= k < i ==> !is_repeated(names, k),
            decreases custom.len() - i,
        {
            let mut j: usize = i + 1;
            while j < custom.len()
                invariant
                    i < j <= custom.len(),
                    names == names_of(custom@),
                    forall|k: int| 0 <= k < i ==> !is_repeated(names, k),
                    forall|k: int| i < k < j ==> names[k] != names[i as int],
                decreases custom.len() - j,
            {
                if custom[j].name == custom[i].name {
                    assert(names[j as int] == names[i as int]);
                    return Some(i);
                }
                j = j + 1;
            }
            i = i + 1;
        }
        assert forall|a: int, b: int| 0 <= a < names.len() && 0 <= b < names.len() && a
            != b implies names[a] != names[b] by {
            if a < b {
                assert(!is_repeated(names, a));
            } else {
                assert(!is_repeated(names, b));
            }
        }
        None
    }

    /// Builds a configuration from what was stored. The repository paths
    /// are taken as a set: a path that occurs twice counts once. Two
    /// custom entries of one name are refused, as a configuration that
    /// cannot be read.
    pub fn from_parts(
        refresh_cmd: String,
        enable_chad: Option<String>,
        git: Vec<String>,
        custom: Vec<CustomEntry>,
    ) -> (r: Result<Config, Failure>)
        ensures
            match r {
                Ok(cfg) => {
                    &&& cfg.wf()
                    &&& cfg.refresh_cmd == refresh_cmd
                    &&& cfg.enable_chad == enable_chad
                    &&& cfg.custom == custom
                    &&& cfg.git@.to_set() == git.deep_view().to_set()
                    &&& names_of(custom@).no_duplicates()
                },
                Err(failure) => exists|i: int|
                    is_repeated(names_of(custom@), i) && failure@ == (FailureView::Persistence {
                        detail: duplicate_name_text(#[trigger] names_of(custom@)[i]),
                    }),
            },
    {
        match Config::find_repeated(&custom) {
            Some(i) => {
                let mut detail = String::from_str("custom entry defined twice: ");
                detail.append(custom[i].name.as_str());
                let failure = Failure::Persistence { detail };
                assert(failure@ == (FailureView::Persistence {
                    detail: duplicate_name_text(names_of(custom@)[i as int]),
                }));
                return Err(failure);
            },
            None => {},
        }
        let mut paths = PathSet::new();
        let ghost all = git.deep_view();
        let mut git = git;
        assert(paths@.to_set() =~= all.take(0).to_set());
        while git.len() > 0
            invariant
                paths.wf(),
                git.len() <= all.len(),
                git.deep_view() == all.take(git.len() as int),
                paths@.to_set() == all.skip(git.len() as int).to_set(),
            decreases git.len(),
        {
            let ghost before = paths@;
            let ghost len = git.len() as int;
            let path = git.pop().unwrap();
            assert(path@ == all[len - 1]) by {
                assert(git.deep_view().len() == len - 1);
                assert(all.take(len)[len - 1] == all[len - 1]);
            }
            assert(git.deep_view() =~= all.take(len - 1));
            proof {
                crate::pathset::lemma_with_path(before, path@);
                assert(all.skip(len - 1).to_set() =~= all.skip(len).to_set().insert(all[len - 1])) by {
                    let s = all.skip(len - 1);
                    let t = all.skip(len);
                    assert forall|p: Seq<char>| s.to_set().contains(p) <==> t.to_set().insert(
                        all[len - 1],
                    ).contains(p) by {
                        if s.contains(p) {
                            let i = choose|i: int| 0 <= i < s.len() && s[i] == p;
                            if i > 0 {
                                assert(t[i - 1] == p);
                            }
                        }
                        if t.contains(p) {
                            let i = choose|i: int| 0 <= i < t.len() && t[i] == p;
                            assert(s[i + 1] == p);
                        }
                        if p == all[len - 1] {
                            assert(s[0] == p);
                        }
                    }
                }
            }
            let _ = paths.insert(path);
        }
        proof {
            assert(all.skip(0) =~= all);
        }
        Ok(Config { refresh_cmd, enable_chad, git: paths, custom })
    }
}

impl Default for Config {
    /// The configuration of a first run: nothing is watched, and
    /// repositories are refreshed by the default command.
    fn default() -> (cfg: Config)
        ensures
            cfg.wf(),
            cfg.refresh_cmd@ == "git remote update"@,
            cfg.enable_chad is None,
            cfg.git@ == Seq::<Seq<char>>::empty(),
            cfg.custom@ == Seq::<CustomEntry>::empty(),
    {
        let cfg = Config {
            git: PathSet::new(),
            custom: Vec::new(),
            refresh_cmd: default_refresh_cmd(),
            enable_chad: None,
        };
        assert(names_of(cfg.custom@) =~= Seq::empty());
        cfg
    }
}

} // verus!
