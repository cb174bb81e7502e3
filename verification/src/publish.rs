//! Planning the publish step: the commit message over the touched
//! directories, the issue-bound branch, and the force-push refspec — or
//! nothing at all where the run staged nothing, since an empty commit is
//! not a valid outcome.

use vstd::prelude::*;
use crate::filenames::{hex_digit, hex_digit_exec};
use crate::run::RunState;
use crate::text::{push_chars_of, string_from_chars};

verus! {

/// The decimal spelling of `n`, most significant digit first.
pub open spec fn spec_dec_digits(n: nat) -> Seq<char>
    decreases n,
{
    if n < 10 {
        seq![hex_digit(n as u8)]
    } else {
        spec_dec_digits(n / 10).push(hex_digit((n % 10) as u8))
    }
}

fn push_dec_digits(v: &mut Vec<char>, n: u64)
    ensures
        final(v)@ == old(v)@ + spec_dec_digits(n as nat),
    decreases n,
{
    let ghost v0 = v@;
    if n >= 10 {
        proof {
            assert(n / 10 < n) by (nonlinear_arith)
                requires
                    n >= 10,
            ;
        }
        push_dec_digits(v, n / 10);
        v.push(hex_digit_exec((n % 10) as u8));
        proof {
            assert((n / 10) as nat == (n as nat) / 10);
            assert((n % 10) as nat == (n as nat) % 10);
            assert(v@ =~= v0 + spec_dec_digits((n as nat) / 10).push(
                hex_digit(((n as nat) % 10) as u8),
            ));
        }
    } else {
        v.push(hex_digit_exec(n as u8));
        proof {
            assert(v@ =~= v0 + seq![hex_digit(n as u8)]);
        }
    }
}

/// The branch one issue's runs publish to: `iocost-bot/` and the issue's
/// identifier, so repeated runs for one issue converge onto one branch.
pub open spec fn spec_branch_name(issue_id: nat) -> Seq<char> {
    "iocost-bot/"@ + spec_dec_digits(issue_id)
}

/// The branch name for runs triggered by issue `issue_id`.
pub fn branch_name(issue_id: u64) -> (r: String)
    ensures
        r@ == spec_branch_name(issue_id as nat),
{
    let mut v: Vec<char> = Vec::new();
    push_chars_of(&mut v, "iocost-bot/");
    push_dec_digits(&mut v, issue_id);
    string_from_chars(&v)
}

/// The refspec that force-updates the remote branch to the new commit.
pub open spec fn spec_push_refspec(branch: Seq<char>) -> Seq<char> {
    "+HEAD:refs/heads/"@ + branch
}

/// The refspec that pushes `branch`, overwriting whatever it held.
pub fn push_refspec(branch: &str) -> (r: String)
    ensures
        r@ == spec_push_refspec(branch@),
{
    let mut v: Vec<char> = Vec::new();
    push_chars_of(&mut v, "+HEAD:refs/heads/");
    push_chars_of(&mut v, branch);
    string_from_chars(&v)
}

/// `parts` joined with a comma and a space between neighbours.
pub open spec fn spec_comma_joined(parts: Seq<Seq<char>>) -> Seq<char>
    decreases parts.len(),
{
    if parts.len() == 0 {
        Seq::empty()
    } else if parts.len() == 1 {
        parts[0]
    } else {
        spec_comma_joined(parts.drop_last()) + ", "@ + parts.last()
    }
}

/// The message of the commit that publishes a run: the touched model
/// directories, comma-joined in the order they were first touched.
pub open spec fn spec_commit_message(touched: Seq<Seq<char>>) -> Seq<char> {
    "Updated "@ + spec_comma_joined(touched)
}

/// Write the commit message for the given touched directories.
pub fn commit_message(touched: &Vec<String>) -> (r: String)
    ensures
        r@ == spec_commit_message(touched.deep_view()),
{
    let ghost all = touched.deep_view();
    let mut v: Vec<char> = Vec::new();
    push_chars_of(&mut v, "Updated ");
    proof {
        assert(v@ =~= "Updated "@ + spec_comma_joined(all.take(0)));
    }
    let mut i: usize = 0;
    while i < touched.len()
        invariant
            i <= touched@.len(),
            all == touched.deep_view(),
            v@ == "Updated "@ + spec_comma_joined(all.take(i as int)),
        decreases touched@.len() - i,
    {
        proof {
            assert(all.take(i + 1 as int).drop_last() =~= all.take(i as int));
            assert(all.take(i + 1 as int).last() == touched@[i as int]@);
        }
        if i > 0 {
            push_chars_of(&mut v, ", ");
        }
        push_chars_of(&mut v, touched[i].as_str());
        proof {
            if i == 0 {
                assert(all.take(1).len() == 1);
                assert(spec_comma_joined(all.take(1)) == all.take(1)[0]);
                assert(v@ =~= "Updated "@ + spec_comma_joined(all.take(i + 1 as int)));
            } else {
                assert(spec_comma_joined(all.take(i + 1 as int)) == spec_comma_joined(
                    all.take(i as int),
                ) + ", "@ + all[i as int]);
                assert(v@ =~= "Updated "@ + spec_comma_joined(all.take(i + 1 as int)));
            }
        }
        i += 1;
    }
    proof {
        assert(all.take(touched@.len() as int) =~= all);
    }
    string_from_chars(&v)
}

/// Everything the publish step needs: what to stage, the commit message,
/// the branch to point at the commit, and the refspec that pushes it.
pub struct PublishPlan {
    pub paths: Vec<String>,
    pub message: String,
    pub branch: String,
    pub refspec: String,
}

/// Turn a finished run into a publish plan — or into nothing where the
/// run staged no file: an empty change set must never become a commit,
/// a branch or a push.
pub fn plan_publish(state: RunState, issue_id: u64) -> (r: Option<PublishPlan>)
    ensures
        match r {
            None => state.staged@.len() == 0,
            Some(p) => {
                &&& state.staged@.len() > 0
                &&& p.paths == state.staged
                &&& p.message@ == spec_commit_message(state.touched.deep_view())
                &&& p.branch@ == spec_branch_name(issue_id as nat)
                &&& p.refspec@ == spec_push_refspec(spec_branch_name(issue_id as nat))
            },
        },
{
    if state.staged.len() == 0 {
        return None;
    }
    let message = commit_message(&state.touched);
    let branch = branch_name(issue_id);
    let refspec = push_refspec(branch.as_str());
    Some(PublishPlan { paths: state.staged, message, branch, refspec })
}

} // verus!
