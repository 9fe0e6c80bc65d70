//! Raw diffs, commit contents and messages.
use vstd::prelude::*;
use crate::repo::{Repo, Reply, Step, Outcome, step_view, replies_view, strs, s, text_spec};

verus! {

/// Options of a raw diff.
#[derive(Debug, Clone)]
pub struct DiffOptions {
    /// Index against HEAD (default: working tree against index).
    pub cached: bool,
    /// Only this file.
    pub path: Option<String>,
}

impl Default for DiffOptions {
    fn default() -> (r: Self)
        ensures
            !r.cached,
            r.path is None,
    {
        DiffOptions { cached: false, path: None }
    }
}

pub open spec fn diff_args(cached: bool, path: Option<Seq<char>>) -> Seq<Seq<char>> {
    seq!["diff"@] + (if cached { seq!["--cached"@] } else { Seq::empty() }) + (match path {
        Some(p) => seq!["--"@, p],
        None => Seq::empty(),
    })
}

impl Repo {
    /// The raw diff text.
    pub fn diff(&self, opts: &DiffOptions, replies: &[Reply]) -> (r: Step<String>)
        ensures
            step_view(r, |t: String| t@) == text_spec(replies_view(replies@), self.dir(), diff_args(opts.cached, crate::repo::opt_str(opts.path))),
    {
        let mut args = vec![s("diff")];
        if opts.cached {
            args.push(s("--cached"));
        }
        match &opts.path {
            Some(p) => {
                args.push(s("--"));
                args.push(p.clone());
            },
            None => {},
        }
        assert(strs(args@) =~= diff_args(opts.cached, crate::repo::opt_str(opts.path)));
        self.git_text(replies, args)
    }

    /// A commit's full content (message and diff).
    pub fn show_commit(&self, sha: &str, replies: &[Reply]) -> (r: Step<String>)
        ensures
            step_view(r, |t: String| t@) == text_spec(replies_view(replies@), self.dir(), seq!["show"@, sha@]),
    {
        let args = vec![s("show"), s(sha)];
        assert(strs(args@) =~= seq!["show"@, sha@]);
        self.git_text(replies, args)
    }

    /// A commit's full message.
    pub fn commit_message(&self, sha: &str, replies: &[Reply]) -> (r: Step<String>)
        ensures
            step_view(r, |t: String| t@) == text_spec(replies_view(replies@), self.dir(), seq!["log"@, "-1"@, "--pretty=format:%B"@, sha@]),
    {
        let args = vec![s("log"), s("-1"), s("--pretty=format:%B"), s(sha)];
        assert(strs(args@) =~= seq!["log"@, "-1"@, "--pretty=format:%B"@, sha@]);
        self.git_text(replies, args)
    }
}

} // verus!
