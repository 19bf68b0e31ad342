//! The git-backed sync workflow over the workspace file: `git_push` stages,
//! commits and pushes pending changes, `git_pull` fast-forwards the local
//! branch.  Both run the external tool through a [`GitRunner`] and classify
//! each step's failure with the step's name and the tool's output.
//!
//! Workspace paths are modelled as `'/'`-separated throughout.  On a
//! platform with another separator, turning its paths into this form is the
//! caller's business, before the workflow sees them.

use vstd::prelude::*;
use vstd::string::StringExecFns;
use crate::chars::{chars_vec, string_of, subvec, trim_chars, trim_spec};
use crate::command::{CmdView, CommandResult, GitRunner};
use crate::time::{format_utc_now, utc_string};

verus! {

/// Position of the last `'/'` in `s`, or -1 when there is none.
pub open spec fn last_slash(s: Seq<char>) -> int
    decreases s.len(),
{
    if s.len() == 0 {
        -1
    } else if s.last() == '/' {
        s.len() - 1
    } else {
        last_slash(s.drop_last())
    }
}

/// `s` without its trailing `'/'` separators.
pub open spec fn drop_trailing_slashes(s: Seq<char>) -> Seq<char>
    decreases s.len(),
{
    if s.len() > 0 && s.last() == '/' {
        drop_trailing_slashes(s.drop_last())
    } else {
        s
    }
}

/// The parent directory of a `'/'`-separated path, as the platform resolves
/// it for such paths: trailing separators are ignored, the parent is
/// everything before the last remaining separator — the root `"/"` when that
/// separator leads the path — and the root itself, like a path with no
/// separator at all, has none.
pub open spec fn parent_dir_spec(s: Seq<char>) -> Option<Seq<char>> {
    let t = drop_trailing_slashes(s);
    let i = last_slash(t);
    if i < 0 {
        None
    } else if i == 0 {
        Some(seq!['/'])
    } else {
        Some(t.subrange(0, i))
    }
}

pub fn parent_dir(path: &String) -> (r: Option<String>)
    ensures
        r.deep_view() == parent_dir_spec(path@),
{
    let v = chars_vec(path.as_str());
    let n = v.len();
    let mut e: usize = n;
    assert(path@.subrange(0, n as int) =~= path@);
    while e > 0 && v[e - 1] == '/'
        invariant
            e <= n,
            n == v@.len(),
            v@ == path@,
            drop_trailing_slashes(path@) == drop_trailing_slashes(path@.subrange(0, e as int)),
        decreases e,
    {
        assert(path@.subrange(0, e as int).drop_last() =~= path@.subrange(0, e as int - 1));
        e = e - 1;
    }
    assert(drop_trailing_slashes(path@) == path@.subrange(0, e as int));
    let ghost t = path@.subrange(0, e as int);
    let mut i: usize = e;
    let mut found = false;
    assert(t.subrange(0, e as int) =~= t);
    while i > 0 && !found
        invariant
            i <= e <= n,
            n == v@.len(),
            v@ == path@,
            t == path@.subrange(0, e as int),
            last_slash(t) == last_slash(t.subrange(0, i as int)),
            found ==> 1 <= i && v@[i - 1] == '/',
        decreases i + (if found {
            0int
        } else {
            1int
        }),
    {
        if v[i - 1] == '/' {
            found = true;
        } else {
            assert(t.subrange(0, i as int).last() == path@[i - 1]);
            assert(t.subrange(0, i as int).drop_last() =~= t.subrange(0, i as int - 1));
            i = i - 1;
        }
    }
    if !found {
        assert(i == 0);
        assert(t.subrange(0, 0) =~= Seq::<char>::empty());
        assert(last_slash(t) == -1);
        None
    } else {
        assert(t.subrange(0, i as int).last() == '/');
        assert(last_slash(t) == i - 1);
        if i - 1 == 0 {
            let mut root: Vec<char> = Vec::new();
            root.push('/');
            assert(root@ =~= seq!['/']);
            Some(string_of(&root))
        } else {
            let p = subvec(&v, 0, i - 1);
            assert(p@ =~= t.subrange(0, i as int - 1));
            Some(string_of(&p))
        }
    }
}

/// The error text a failed step surfaces: the tool's combined output, or the
/// spawn error behind its fixed prefix.  (Of a success it speaks of the raw
/// stdout; no error message is built from a success.)
pub open spec fn step_error(r: CmdView) -> Seq<char> {
    match r {
        CmdView::Success(t) => t,
        CmdView::Failure(t) => t,
        CmdView::SpawnFailed(t) => "Failed to run git: "@ + t,
    }
}

/// The backup outcome determined by the results of the four potential steps
/// (status probe, add, commit, push) and the timestamp of the final message.
/// Each step's failure short-circuits the rest; an empty (trimmed) status
/// means there is nothing to commit.
pub open spec fn backup_spec(rs: Seq<CmdView>, done_ts: Seq<char>) -> Result<Seq<char>, Seq<char>> {
    match rs[0] {
        CmdView::Success(st) => {
            if trim_spec(st).len() == 0 {
                Err("No changes to commit."@)
            } else {
                match rs[1] {
                    CmdView::Success(_) => {
                        match rs[2] {
                            CmdView::Success(_) => {
                                match rs[3] {
                                    CmdView::Success(_) => {
                                        Ok(
                                            "Bookmarks backed up successfully ("@ + done_ts
                                                + ")"@,
                                        )
                                    },
                                    r3 => Err("git push failed:\n"@ + step_error(r3)),
                                }
                            },
                            r2 => Err("git commit failed:\n"@ + step_error(r2)),
                        }
                    },
                    r1 => Err("git add failed:\n"@ + step_error(r1)),
                }
            }
        },
        r0 => Err("git status failed — is this a git repository?\n"@ + step_error(r0)),
    }
}

/// How many of the four potential backup steps actually run.
pub open spec fn backup_steps(rs: Seq<CmdView>) -> nat {
    match rs[0] {
        CmdView::Success(st) => {
            if trim_spec(st).len() == 0 {
                1
            } else {
                match rs[1] {
                    CmdView::Success(_) => {
                        match rs[2] {
                            CmdView::Success(_) => 4,
                            _ => 3,
                        }
                    },
                    _ => 2,
                }
            }
        },
        _ => 1,
    }
}

/// The refresh outcome determined by the results of the two potential steps
/// (repository probe, fast-forward pull): the trimmed pull output on
/// success.
pub open spec fn refresh_spec(r0: CmdView, r1: CmdView) -> Result<Seq<char>, Seq<char>> {
    match r0 {
        CmdView::Success(_) => {
            match r1 {
                CmdView::Success(out) => Ok(trim_spec(out)),
                r => Err("git pull failed:\n"@ + step_error(r)),
            }
        },
        r => Err("Not a git repository:\n"@ + step_error(r)),
    }
}

/// How many of the two potential refresh steps actually run.
pub open spec fn refresh_steps(r0: CmdView) -> nat {
    match r0 {
        CmdView::Success(_) => 2,
        _ => 1,
    }
}

/// Mathematical image of a caller-facing outcome.
pub open spec fn out_view(res: Result<String, String>) -> Result<Seq<char>, Seq<char>> {
    match res {
        Ok(s) => Ok(s@),
        Err(e) => Err(e@),
    }
}

/// The next four results the runner will serve.
pub open spec fn next4<R: GitRunner>(r: &R) -> Seq<CmdView> {
    Seq::new(4, |i: int| r.result_at((r.consumed() + i) as nat))
}

/// The error text of `r` as an owned string.
fn step_error_text(r: CommandResult) -> (t: String)
    ensures
        t@ == step_error(r@),
{
    match r {
        CommandResult::Success(s) => s,
        CommandResult::Failure(s) => s,
        CommandResult::SpawnFailed(s) => {
            let mut e = String::from_str("Failed to run git: ");
            e.append(s.as_str());
            e
        },
    }
}

/// `prefix` followed by the error text of `r`.
fn prefixed_error(prefix: &str, r: CommandResult) -> (t: String)
    ensures
        t@ == prefix@ + step_error(r@),
{
    let mut e = String::from_str(prefix);
    let tail = step_error_text(r);
    e.append(tail.as_str());
    e
}

fn one_arg(a: &str) -> (v: Vec<String>)
    ensures
        v.deep_view() == seq![a@],
{
    let mut v: Vec<String> = Vec::new();
    v.push(String::from_str(a));
    assert(v.deep_view() =~= seq![a@]);
    v
}

fn two_args(a: &str, b: &str) -> (v: Vec<String>)
    ensures
        v@.len() == 2,
        v@[0]@ == a@,
        v@[1]@ == b@,
        v.deep_view() == seq![a@, b@],
{
    let mut v: Vec<String> = Vec::new();
    v.push(String::from_str(a));
    v.push(String::from_str(b));
    assert(v.deep_view() =~= seq![a@, b@]);
    v
}

/// Backup: stage the workspace file, commit with a timestamped message, and
/// push.  The workflow resolves the working directory as the parent of
/// `file_path`, probes the repository with a porcelain status, treats an
/// empty status as "nothing to commit", and otherwise runs add, commit and
/// push in order, failing fast with the failing step's name and the tool's
/// output.  The success message embeds a freshly read timestamp in the time
/// formatter's format.
#[verifier::rlimit(60)]
pub fn git_push<R: GitRunner>(runner: &mut R, file_path: &String) -> (res: Result<String, String>)
    ensures
        forall|i: nat| #[trigger] final(runner).result_at(i) == old(runner).result_at(i),
        parent_dir_spec(file_path@) is None ==> {
            &&& out_view(res) == Result::<Seq<char>, Seq<char>>::Err("Invalid workspace file path"@)
            &&& final(runner).consumed() == old(runner).consumed()
        },
        parent_dir_spec(file_path@) matches Some(wd) ==> {
            let k = old(runner).consumed();
            let steps = backup_steps(next4(old(runner)));
            &&& final(runner).consumed() == k + steps
            &&& exists|ts: u64| out_view(res) == backup_spec(
                next4(old(runner)),
                utc_string(ts as int),
            )
            &&& final(runner).call_at(k) == seq!["status"@, "--porcelain"@]
            &&& final(runner).dir_at(k) == wd
            &&& steps >= 2 ==> final(runner).call_at(k + 1) == seq!["add"@, file_path@]
                && final(runner).dir_at(k + 1) == wd
            &&& steps >= 3 ==> (exists|ts: u64|
                final(runner).call_at(k + 2) == seq![
                    "commit"@,
                    "-m"@,
                    "Backup bookmarks "@ + utc_string(ts as int),
                ]) && final(runner).dir_at(k + 2) == wd
            &&& steps >= 4 ==> final(runner).call_at(k + 3) == seq!["push"@]
                && final(runner).dir_at(k + 3) == wd
        },
{
    let dir = match parent_dir(file_path) {
        Option::None => {
            return Err(String::from_str("Invalid workspace file path"));
        },
        Option::Some(d) => d,
    };
    assert(parent_dir_spec(file_path@) == Some(dir@));
    let ghost rs = next4(old(runner));
    let ghost k = old(runner).consumed();

    let status_args = two_args("status", "--porcelain");
    let r0 = runner.run(&status_args, &dir);
    assert(r0@ == rs[0]);
    assert(runner.call_at(k) == seq!["status"@, "--porcelain"@]);
    assert(runner.dir_at(k) == dir@);
    let status_out = match r0 {
        CommandResult::Success(out) => out,
        other => {
            let e = prefixed_error("git status failed — is this a git repository?\n", other);
            proof {
                let w: u64 = 0;
                assert(out_view(Result::<String, String>::Err(e)) == backup_spec(
                    rs,
                    utc_string(w as int),
                ));
            }
            return Err(e);
        },
    };
    let sv = chars_vec(status_out.as_str());
    let trimmed = trim_chars(&sv);
    if trimmed.len() == 0 {
        let e = String::from_str("No changes to commit.");
        proof {
            let w: u64 = 0;
            assert(out_view(Result::<String, String>::Err(e)) == backup_spec(
                rs,
                utc_string(w as int),
            ));
        }
        return Err(e);
    }

    let add_args = two_args("add", file_path.as_str());
    let r1 = runner.run(&add_args, &dir);
    assert(r1@ == rs[1]);
    assert(runner.call_at(k) == seq!["status"@, "--porcelain"@]);
    assert(runner.dir_at(k) == dir@);
    assert(runner.call_at(k + 1) == seq!["add"@, file_path@]);
    assert(runner.dir_at(k + 1) == dir@);
    match r1 {
        CommandResult::Success(_) => {},
        other => {
            let e = prefixed_error("git add failed:\n", other);
            proof {
                let w: u64 = 0;
                assert(out_view(Result::<String, String>::Err(e)) == backup_spec(
                    rs,
                    utc_string(w as int),
                ));
            }
            return Err(e);
        },
    }

    let ts1 = format_utc_now();
    let mut commit_msg = String::from_str("Backup bookmarks ");
    commit_msg.append(ts1.as_str());
    let ghost cm = commit_msg@;
    let mut commit_args = two_args("commit", "-m");
    commit_args.push(commit_msg);
    proof {
        let dv = commit_args.deep_view();
        assert(dv[0] == "commit"@);
        assert(dv[1] == "-m"@);
        assert(dv[2] == cm);
        assert(dv =~= seq!["commit"@, "-m"@, cm]);
    }
    let r2 = runner.run(&commit_args, &dir);
    assert(r2@ == rs[2]);
    assert(runner.call_at(k) == seq!["status"@, "--porcelain"@]);
    assert(runner.dir_at(k) == dir@);
    assert(runner.call_at(k + 1) == seq!["add"@, file_path@]);
    assert(runner.dir_at(k + 1) == dir@);
    assert(runner.dir_at(k + 2) == dir@);
    proof {
        let w1 = choose|secs: u64| ts1@ == utc_string(secs as int);
        assert(runner.call_at(k + 2) == seq![
            "commit"@,
            "-m"@,
            "Backup bookmarks "@ + utc_string(w1 as int),
        ]);
        assert(exists|ts: u64|
            runner.call_at(k + 2) == seq![
                "commit"@,
                "-m"@,
                "Backup bookmarks "@ + utc_string(ts as int),
            ]);
    }
    match r2 {
        CommandResult::Success(_) => {},
        other => {
            let e = prefixed_error("git commit failed:\n", other);
            proof {
                let w: u64 = 0;
                assert(out_view(Result::<String, String>::Err(e)) == backup_spec(
                    rs,
                    utc_string(w as int),
                ));
            }
            return Err(e);
        },
    }

    let push_args = one_arg("push");
    let ghost calls_before_push = (runner.call_at(k), runner.call_at(k + 1), runner.call_at(k + 2));
    let r3 = runner.run(&push_args, &dir);
    assert(r3@ == rs[3]);
    assert(runner.call_at(k) == calls_before_push.0);
    assert(runner.dir_at(k) == dir@);
    assert(runner.call_at(k + 1) == calls_before_push.1);
    assert(runner.dir_at(k + 1) == dir@);
    assert(runner.call_at(k + 2) == calls_before_push.2);
    assert(runner.dir_at(k + 2) == dir@);
    assert(runner.call_at(k + 3) == seq!["push"@]);
    assert(runner.dir_at(k + 3) == dir@);
    match r3 {
        CommandResult::Success(_) => {},
        other => {
            let e = prefixed_error("git push failed:\n", other);
            proof {
                let w: u64 = 0;
                assert(out_view(Result::<String, String>::Err(e)) == backup_spec(
                    rs,
                    utc_string(w as int),
                ));
            }
            return Err(e);
        },
    }

    let ts2 = format_utc_now();
    let ghost ts_wit = choose|secs: u64| ts2@ == utc_string(secs as int);
    let mut msg = String::from_str("Bookmarks backed up successfully (");
    msg.append(ts2.as_str());
    msg.append(")");
    assert(out_view(Result::<String, String>::Ok(msg)) == backup_spec(
        rs,
        utc_string(ts_wit as int),
    ));
    Ok(msg)
}

/// Refresh: probe that the workspace file's directory is a repository, then
/// fast-forward pull, returning the trimmed pull output on success.
pub fn git_pull<R: GitRunner>(runner: &mut R, file_path: &String) -> (res: Result<String, String>)
    ensures
        forall|i: nat| #[trigger] final(runner).result_at(i) == old(runner).result_at(i),
        parent_dir_spec(file_path@) is None ==> {
            &&& out_view(res) == Result::<Seq<char>, Seq<char>>::Err("Invalid workspace file path"@)
            &&& final(runner).consumed() == old(runner).consumed()
        },
        parent_dir_spec(file_path@) matches Some(wd) ==> {
            let k = old(runner).consumed();
            let steps = refresh_steps(old(runner).result_at(k));
            &&& final(runner).consumed() == k + steps
            &&& out_view(res) == refresh_spec(
                old(runner).result_at(k),
                old(runner).result_at(k + 1),
            )
            &&& final(runner).call_at(k) == seq!["status"@]
            &&& final(runner).dir_at(k) == wd
            &&& steps == 2 ==> final(runner).call_at(k + 1) == seq!["pull"@, "--ff"@]
                && final(runner).dir_at(k + 1) == wd
        },
{
    let dir = match parent_dir(file_path) {
        Option::None => {
            return Err(String::from_str("Invalid workspace file path"));
        },
        Option::Some(d) => d,
    };
    assert(parent_dir_spec(file_path@) == Some(dir@));

    let ghost k = old(runner).consumed();
    let status_args = one_arg("status");
    let r0 = runner.run(&status_args, &dir);
    assert(runner.call_at(k) == seq!["status"@]);
    assert(runner.dir_at(k) == dir@);
    match r0 {
        CommandResult::Success(_) => {},
        other => {
            return Err(prefixed_error("Not a git repository:\n", other));
        },
    }

    let pull_args = two_args("pull", "--ff");
    let r1 = runner.run(&pull_args, &dir);
    assert(runner.call_at(k) == seq!["status"@]);
    assert(runner.dir_at(k) == dir@);
    assert(runner.call_at(k + 1) == seq!["pull"@, "--ff"@]);
    assert(runner.dir_at(k + 1) == dir@);
    let out = match r1 {
        CommandResult::Success(out) => out,
        other => {
            return Err(prefixed_error("git pull failed:\n", other));
        },
    };
    let ov = chars_vec(out.as_str());
    let trimmed = trim_chars(&ov);
    Ok(string_of(&trimmed))
}

/// Backup on a repository with no pending changes: when the status probe
/// succeeds with output that trims to nothing, backup reports that there is
/// nothing to commit — a sentinel distinct from every other error — and runs
/// only that one step: add, commit and push are never invoked.
pub proof fn lemma_backup_nothing_to_commit(rs: Seq<CmdView>, ts: Seq<char>)
    requires
        rs[0] matches CmdView::Success(st) && trim_spec(st).len() == 0,
    ensures
        backup_spec(rs, ts) == Result::<Seq<char>, Seq<char>>::Err("No changes to commit."@),
        backup_steps(rs) == 1,
{
}

/// Refresh is idempotent in success: when the repository probe and the
/// fast-forward pull succeed on each of two consecutive refresh calls — as
/// they do when there is nothing new to pull, the second pull being a no-op —
/// both calls return success, never an error.
pub proof fn lemma_refresh_idempotent(
    first_status: CmdView,
    first_pull: CmdView,
    second_status: CmdView,
    second_pull: CmdView,
)
    requires
        first_status is Success,
        first_pull is Success,
        second_status is Success,
        second_pull is Success,
    ensures
        refresh_spec(first_status, first_pull) is Ok,
        refresh_spec(second_status, second_pull) is Ok,
{
}

} // verus!
