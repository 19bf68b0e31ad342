//! The process-runner abstraction of the sync workflow: the outcome of one
//! run of the external version-control tool, classification of a finished
//! process, and a runner interface with a scripted implementation that lets
//! the workflow be exercised without spawning processes.

use vstd::prelude::*;
use vstd::string::StringExecFns;
use crate::chars::{chars_vec, string_of, trim_chars, trim_spec};

verus! {

/// Outcome of one run of the external version-control tool.
pub enum CommandResult {
    /// Zero exit status; carries the raw standard output.
    Success(String),
    /// Nonzero exit status; carries stdout and stderr concatenated (stdout
    /// first) and trimmed of surrounding whitespace.
    Failure(String),
    /// The tool binary could not be spawned; carries the spawn error text.
    SpawnFailed(String),
}

/// Mathematical image of a `CommandResult`.
pub enum CmdView {
    Success(Seq<char>),
    Failure(Seq<char>),
    SpawnFailed(Seq<char>),
}

impl View for CommandResult {
    type V = CmdView;

    open spec fn view(&self) -> CmdView {
        match self {
            CommandResult::Success(s) => CmdView::Success(s@),
            CommandResult::Failure(s) => CmdView::Failure(s@),
            CommandResult::SpawnFailed(s) => CmdView::SpawnFailed(s@),
        }
    }
}

/// The classification the runner applies to a finished process: raw stdout on
/// a zero exit status, otherwise stdout and stderr concatenated (stdout
/// first) and trimmed.
pub fn classify_output(success: bool, stdout: String, stderr: String) -> (r: CommandResult)
    ensures
        success ==> r@ == CmdView::Success(stdout@),
        !success ==> r@ == CmdView::Failure(trim_spec(stdout@ + stderr@)),
{
    if success {
        CommandResult::Success(stdout)
    } else {
        let mut v = chars_vec(stdout.as_str());
        let mut w = chars_vec(stderr.as_str());
        v.append(&mut w);
        let t = trim_chars(&v);
        CommandResult::Failure(string_of(&t))
    }
}

/// Runs the external version-control tool.  A runner is modelled by the
/// sequence of results it serves and the record of what it was asked to do:
/// `result_at(i)` is the result of the `i`-th run over the runner's
/// lifetime, `consumed()` counts the runs served so far, and `call_at(i)` /
/// `dir_at(i)` record the argument list and working directory of the `i`-th
/// run.  `run` serves the next result of the fixed sequence, whatever the
/// arguments; which result a real tool produces for which arguments is
/// outside this model.
pub trait GitRunner {
    open spec fn result_at(&self, i: nat) -> CmdView {
        CmdView::SpawnFailed(Seq::empty())
    }

    open spec fn consumed(&self) -> nat {
        0
    }

    open spec fn call_at(&self, i: nat) -> Seq<Seq<char>> {
        Seq::empty()
    }

    open spec fn dir_at(&self, i: nat) -> Seq<char> {
        Seq::empty()
    }

    /// Run the tool with `args` in working directory `dir`.
    fn run(&mut self, args: &Vec<String>, dir: &String) -> (r: CommandResult)
        ensures
            r@ == old(self).result_at(old(self).consumed()),
            final(self).consumed() == old(self).consumed() + 1,
            forall|i: nat| #[trigger] final(self).result_at(i) == old(self).result_at(i),
            final(self).call_at(old(self).consumed()) == args.deep_view(),
            final(self).dir_at(old(self).consumed()) == dir@,
            forall|i: nat|
                #![trigger final(self).call_at(i)]
                i < old(self).consumed() ==> final(self).call_at(i) == old(self).call_at(i)
                    && final(self).dir_at(i) == old(self).dir_at(i),
    ;
}

/// A runner that serves canned results in order; once the script is
/// exhausted, every further run reports a spawn failure.
pub struct ScriptedRunner {
    /// The results not yet served.
    pub queue: Vec<CommandResult>,
    /// The runs already served, in order: each result together with the
    /// argument list and working directory it was served for.
    pub history: Ghost<Seq<(CmdView, Seq<Seq<char>>, Seq<char>)>>,
}

impl ScriptedRunner {
    pub fn new(results: Vec<CommandResult>) -> (r: ScriptedRunner)
        ensures
            r.consumed() == 0,
            r.queue@ == results@,
            forall|i: nat|
                i < results@.len() ==> #[trigger] r.result_at(i) == results@[i as int]@,
    {
        ScriptedRunner { queue: results, history: Ghost(Seq::empty()) }
    }

    /// How many scripted results have not been served yet.
    pub fn remaining(&self) -> (n: usize)
        ensures
            n == self.queue@.len(),
    {
        self.queue.len()
    }
}

impl GitRunner for ScriptedRunner {
    open spec fn result_at(&self, i: nat) -> CmdView {
        if i < self.history@.len() {
            self.history@[i as int].0
        } else if i - self.history@.len() < self.queue@.len() {
            self.queue@[i - self.history@.len()]@
        } else {
            CmdView::SpawnFailed("no scripted result"@)
        }
    }

    open spec fn consumed(&self) -> nat {
        self.history@.len()
    }

    open spec fn call_at(&self, i: nat) -> Seq<Seq<char>> {
        if i < self.history@.len() {
            self.history@[i as int].1
        } else {
            Seq::empty()
        }
    }

    open spec fn dir_at(&self, i: nat) -> Seq<char> {
        if i < self.history@.len() {
            self.history@[i as int].2
        } else {
            Seq::empty()
        }
    }

    fn run(&mut self, args: &Vec<String>, dir: &String) -> (r: CommandResult) {
        let r: CommandResult = if self.queue.len() > 0 {
            self.queue.remove(0)
        } else {
            CommandResult::SpawnFailed(String::from_str("no scripted result"))
        };
        self.history = Ghost(self.history@.push((r@, args.deep_view(), dir@)));
        proof {
            assert(r@ == old(self).result_at(old(self).consumed()));
            assert forall|i: nat| #[trigger] self.result_at(i) == old(self).result_at(i) by {
                let k = old(self).history@.len();
                if i < k {
                } else if i == k {
                } else if i - k - 1 < self.queue@.len() {
                    assert(self.queue@[i - k - 1] == old(self).queue@[i - k]);
                }
            }
        }
        r
    }
}

} // verus!
