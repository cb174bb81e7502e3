//! Planning the benchmark tool's `merge` call for one model directory:
//! fold every result file the directory holds into one merged artifact,
//! overwriting the previous one.

use vstd::prelude::*;
use crate::text::{chars_of, push_chars_of, str_ends_with, str_starts_with, string_from_chars};
use crate::run::{joined_path, spec_joined};

verus! {

/// Whether `name` names one downloaded result file: `result-`, then
/// anything free of path separators, then `.json.gz`.
pub open spec fn spec_is_result_name(name: Seq<char>) -> bool {
    &&& name.len() >= 15
    &&& "result-"@.is_prefix_of(name)
    &&& ".json.gz"@.is_suffix_of(name)
    &&& forall|i: int| 7 <= i < name.len() - 8 ==> name[i] != '/'
}

/// Whether one directory entry is a result file to fold into the merge.
pub fn is_result_filename(name: &str) -> (r: bool)
    ensures
        r == spec_is_result_name(name@),
{
    proof {
        reveal_strlit("result-");
        reveal_strlit(".json.gz");
    }
    let n = name.unicode_len();
    if n < 15 {
        return false;
    }
    if !str_starts_with(name, "result-") {
        return false;
    }
    if !str_ends_with(name, ".json.gz") {
        return false;
    }
    let chars = chars_of(name);
    let mut i: usize = 7;
    while i < n - 8
        invariant
            n == name@.len(),
            n >= 15,
            chars@ == name@,
            7 <= i <= n - 8,
            forall|j: int| 7 <= j < i ==> name@[j] != '/',
        decreases n - 8 - i,
    {
        if chars[i] == '/' {
            return false;
        }
        i += 1;
    }
    true
}

/// The merged artifact's path inside one model directory; each merge
/// overwrites the one before.
pub open spec fn spec_merged_path(dir: Seq<char>) -> Seq<char> {
    dir + "/merged-results.json.gz"@
}

/// The path the merged artifact of `dir` is written to.
pub fn merged_path(dir: &str) -> (r: String)
    ensures
        r@ == spec_merged_path(dir@),
{
    let mut v: Vec<char> = Vec::new();
    push_chars_of(&mut v, dir);
    push_chars_of(&mut v, "/merged-results.json.gz");
    string_from_chars(&v)
}

/// The entries of `entries` that name result files, each joined under
/// `dir`, keeping the order given.
pub open spec fn spec_result_paths(dir: Seq<char>, entries: Seq<Seq<char>>) -> Seq<Seq<char>>
    decreases entries.len(),
{
    if entries.len() == 0 {
        Seq::empty()
    } else {
        let init = spec_result_paths(dir, entries.drop_last());
        if spec_is_result_name(entries.last()) {
            init.push(spec_joined(dir, entries.last()))
        } else {
            init
        }
    }
}

/// The full argument list of the tool's `merge` call for one directory.
pub open spec fn spec_merge_args(dir: Seq<char>, entries: Seq<Seq<char>>) -> Seq<Seq<char>> {
    seq!["--result"@, spec_merged_path(dir), "merge"@] + spec_result_paths(dir, entries)
}

/// Build the argument list that merges every result file of `dir` into
/// its merged artifact, given the names found in the directory.
pub fn merge_args(dir: &str, entries: &Vec<String>) -> (r: Vec<String>)
    ensures
        r.deep_view() == spec_merge_args(dir@, entries.deep_view()),
{
    let ghost all = entries.deep_view();
    let mut r: Vec<String> = Vec::new();
    r.push(String::from_str("--result"));
    r.push(merged_path(dir));
    r.push(String::from_str("merge"));
    proof {
        assert(r.deep_view() =~= seq!["--result"@, spec_merged_path(dir@), "merge"@]
            + spec_result_paths(dir@, all.take(0)));
    }
    let mut i: usize = 0;
    while i < entries.len()
        invariant
            i <= entries@.len(),
            all == entries.deep_view(),
            r.deep_view() == seq!["--result"@, spec_merged_path(dir@), "merge"@]
                + spec_result_paths(dir@, all.take(i as int)),
        decreases entries@.len() - i,
    {
        proof {
            assert(all.take(i + 1 as int).drop_last() =~= all.take(i as int));
            assert(all.take(i + 1 as int).last() == entries@[i as int]@);
        }
        let entry = &entries[i];
        if is_result_filename(entry.as_str()) {
            let path = joined_path(dir, entry.as_str());
            let ghost r0 = r.deep_view();
            r.push(path);
            proof {
                assert(r.deep_view() =~= r0.push(spec_joined(dir@, all[i as int])));
                assert(spec_result_paths(dir@, all.take(i + 1 as int)) == spec_result_paths(
                    dir@,
                    all.take(i as int),
                ).push(spec_joined(dir@, all[i as int])));
                assert(r0.push(spec_joined(dir@, all[i as int])) =~= seq![
                    "--result"@,
                    spec_merged_path(dir@),
                    "merge"@,
                ] + spec_result_paths(dir@, all.take(i + 1 as int)));
            }
        } else {
            proof {
                assert(spec_result_paths(dir@, all.take(i + 1 as int)) == spec_result_paths(
                    dir@,
                    all.take(i as int),
                ));
            }
        }
        i += 1;
    }
    proof {
        assert(all.take(entries@.len() as int) =~= all);
    }
    r
}

/// The merge call names every result file present in the directory:
/// each entry matching the result pattern appears, joined under the
/// directory, in the order listed.
pub proof fn lemma_merge_lists_every_result_file(dir: Seq<char>, entries: Seq<Seq<char>>)
    ensures
        forall|k: int| 0 <= k < entries.len() && spec_is_result_name(#[trigger] entries[k])
            ==> spec_result_paths(dir, entries).contains(spec_joined(dir, entries[k])),
    decreases entries.len(),
{
    if entries.len() > 0 {
        lemma_merge_lists_every_result_file(dir, entries.drop_last());
        let init = spec_result_paths(dir, entries.drop_last());
        assert forall|k: int|
            0 <= k < entries.len() && spec_is_result_name(#[trigger] entries[k]) implies
            spec_result_paths(dir, entries).contains(spec_joined(dir, entries[k])) by {
            if k < entries.len() - 1 {
                assert(entries.drop_last()[k] == entries[k]);
                let j = choose|j: int|
                    0 <= j < init.len() && init[j] == spec_joined(dir, entries[k]);
                assert(spec_result_paths(dir, entries)[j] == spec_joined(dir, entries[k]));
            } else {
                let res = spec_result_paths(dir, entries);
                assert(res.last() == spec_joined(dir, entries[k]));
            }
        }
    }
}

/// Whether `p` is the joined path of some entry of `entries` that
/// matches the result pattern.
pub open spec fn spec_is_listed_result(entries: Seq<Seq<char>>, dir: Seq<char>, p: Seq<char>) -> bool {
    exists|j: int| 0 <= j < entries.len() && spec_is_result_name(#[trigger] entries[j]) && p
        == spec_joined(dir, entries[j])
}

/// The merge call names nothing else: everything after the three fixed
/// arguments is some listed entry that matches the result pattern,
/// joined under the directory.
pub proof fn lemma_merge_lists_only_result_files(dir: Seq<char>, entries: Seq<Seq<char>>)
    ensures
        forall|k: int| 0 <= k < spec_result_paths(dir, entries).len() ==> spec_is_listed_result(
            entries,
            dir,
            #[trigger] spec_result_paths(dir, entries)[k],
        ),
    decreases entries.len(),
{
    if entries.len() > 0 {
        lemma_merge_lists_only_result_files(dir, entries.drop_last());
        let prior = entries.drop_last();
        let init = spec_result_paths(dir, prior);
        let res = spec_result_paths(dir, entries);
        assert forall|k: int| 0 <= k < res.len() implies spec_is_listed_result(
            entries,
            dir,
            res[k],
        ) by {
            if k < init.len() {
                assert(res[k] == init[k]);
                assert(spec_is_listed_result(prior, dir, init[k]));
                let j = choose|j: int|
                    0 <= j < prior.len() && spec_is_result_name(#[trigger] prior[j]) && init[k]
                        == spec_joined(dir, prior[j]);
                assert(entries[j] == prior[j]);
                assert(spec_is_result_name(entries[j]) && res[k] == spec_joined(dir, entries[j]));
            } else {
                let last = entries.len() - 1;
                assert(spec_is_result_name(entries[last]) && res[k] == spec_joined(
                    dir,
                    entries[last],
                ));
            }
        }
    }
}

} // verus!
