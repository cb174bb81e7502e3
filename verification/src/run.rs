//! The state one run accumulates: the file paths to stage for the commit,
//! and the model directories touched by new files — each directory once,
//! in the order it was first touched.

use vstd::prelude::*;
use crate::text::{push_chars_of, str_eq, string_from_chars};

verus! {

/// The directory that stores one model's results.
pub open spec fn spec_model_directory(model: Seq<char>) -> Seq<char> {
    "database/"@ + model
}

/// The path of the directory for `model`.
pub fn model_directory_path(model: &str) -> (r: String)
    ensures
        r@ == spec_model_directory(model@),
{
    let mut v: Vec<char> = Vec::new();
    push_chars_of(&mut v, "database/");
    push_chars_of(&mut v, model);
    string_from_chars(&v)
}

/// The path of entry `name` inside directory `dir`.
pub open spec fn spec_joined(dir: Seq<char>, name: Seq<char>) -> Seq<char> {
    dir + "/"@ + name
}

/// Join a directory and an entry name with a path separator.
pub fn joined_path(dir: &str, name: &str) -> (r: String)
    ensures
        r@ == spec_joined(dir@, name@),
{
    let mut v: Vec<char> = Vec::new();
    push_chars_of(&mut v, dir);
    push_chars_of(&mut v, "/");
    push_chars_of(&mut v, name);
    string_from_chars(&v)
}

/// What one run gathers on its way to the commit.
pub struct RunState {
    /// Paths to include in the commit, in the order they were produced.
    pub staged: Vec<String>,
    /// Model directories that received a new file this run, each once,
    /// in the order first touched.
    pub touched: Vec<String>,
}

impl RunState {
    /// No directory is recorded as touched twice.
    pub open spec fn wf(self) -> bool {
        forall|i: int, j: int| 0 <= i < j < self.touched@.len()
            ==> self.touched.deep_view()[i] != self.touched.deep_view()[j]
    }

    /// A run that has gathered nothing yet.
    pub fn new() -> (r: RunState)
        ensures
            r.wf(),
            r.staged@.len() == 0,
            r.touched@.len() == 0,
    {
        RunState { staged: Vec::new(), touched: Vec::new() }
    }

    /// Record one path for the commit.
    pub fn stage(&mut self, path: String)
        ensures
            final(self).staged.deep_view() == old(self).staged.deep_view().push(path@),
            final(self).touched == old(self).touched,
            old(self).wf() ==> final(self).wf(),
    {
        let ghost before = self.staged.deep_view();
        self.staged.push(path);
        proof {
            assert(self.staged.deep_view() =~= before.push(self.staged@.last()@));
        }
    }

    /// Record one model directory as touched. A directory already on
    /// record stays where it first appeared: later files for the same
    /// model add nothing, so each directory is merged once per run.
    pub fn touch(&mut self, dir: String)
        ensures
            final(self).staged == old(self).staged,
            final(self).touched.deep_view() == if old(self).touched.deep_view().contains(dir@) {
                old(self).touched.deep_view()
            } else {
                old(self).touched.deep_view().push(dir@)
            },
            final(self).touched.deep_view().contains(dir@),
            old(self).wf() ==> final(self).wf(),
    {
        let ghost before = self.touched.deep_view();
        let mut i: usize = 0;
        while i < self.touched.len()
            invariant
                i <= self.touched@.len(),
                self.staged == old(self).staged,
                self.touched == old(self).touched,
                before == self.touched.deep_view(),
                forall|j: int| 0 <= j < i ==> self.touched.deep_view()[j] != dir@,
            decreases self.touched@.len() - i,
        {
            if str_eq(self.touched[i].as_str(), dir.as_str()) {
                proof {
                    assert(self.touched.deep_view()[i as int] == dir@);
                    assert(self.touched.deep_view().contains(dir@));
                }
                return ;
            }
            i += 1;
        }
        proof {
            assert(!before.contains(dir@)) by {
                if before.contains(dir@) {
                    let j = choose|j: int| 0 <= j < before.len() && before[j] == dir@;
                    assert(before[j] != dir@);
                }
            }
        }
        self.touched.push(dir);
        proof {
            let dv = self.touched.deep_view();
            assert(dv =~= before.push(self.touched@.last()@));
            assert(dv[dv.len() - 1] == dir@);
            assert(dv.contains(dir@));
            assert forall|p: int| 0 <= p < before.len() implies before[p] != dir@ by {
                if before[p] == dir@ {
                    assert(before.contains(dir@));
                }
            }
            if old(self).wf() {
                assert forall|p: int, q: int| 0 <= p < q < dv.len() implies dv[p] != dv[q] by {
                    if q < before.len() {
                        assert(dv[p] == before[p] && dv[q] == before[q]);
                    } else {
                        assert(dv[p] == before[p] && dv[q] == dir@);
                    }
                }
            }
        }
    }
}

} // verus!
