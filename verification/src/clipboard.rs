//! Copying text to the system clipboard through the platform's clipboard programs.
use vstd::prelude::*;
use crate::repo::{Reply, ReplyV, Request, RequestV, Step, Outcome, step_view, replies_view, strs, s};
use crate::text::eq_str;

verus! {

/// The clipboard programs to try on operating system `os`, in order, with their arguments:
/// `pbcopy` on macOS, `clip` on Windows, and elsewhere Wayland's `wl-copy`, then X11's
/// `xclip` and `xsel`.
pub open spec fn candidates_spec(os: Seq<char>) -> Seq<(Seq<char>, Seq<Seq<char>>)> {
    if os == "macos"@ {
        seq![("pbcopy"@, Seq::empty())]
    } else if os == "windows"@ {
        seq![("clip"@, Seq::empty())]
    } else {
        seq![
            ("wl-copy"@, Seq::empty()),
            ("xclip"@, seq!["-selection"@, "clipboard"@]),
            ("xsel"@, seq!["--clipboard"@, "--input"@]),
        ]
    }
}

pub fn candidates(os: &str) -> (r: Vec<(String, Vec<String>)>)
    ensures
        r@.map_values(|c: (String, Vec<String>)| (c.0@, strs(c.1@))) == candidates_spec(os@),
{
    let osc = crate::text::chars_of(os);
    let r = if eq_str(&osc, "macos") {
        vec![(s("pbcopy"), Vec::new())]
    } else if eq_str(&osc, "windows") {
        vec![(s("clip"), Vec::new())]
    } else {
        vec![
            (s("wl-copy"), Vec::new()),
            (s("xclip"), vec![s("-selection"), s("clipboard")]),
            (s("xsel"), vec![s("--clipboard"), s("--input")]),
        ]
    };
    proof {
        let got = r@.map_values(|c: (String, Vec<String>)| (c.0@, strs(c.1@)));
        assert forall|i: int| 0 <= i < r@.len() implies #[trigger] strs(r@[i].1@) =~= candidates_spec(os@)[i].1 by {}
        assert(got =~= candidates_spec(os@));
    }
    r
}

/// Trying the programs `cs[i..]` in turn (reply `i` answers program `i`): the first that
/// runs and succeeds ends it with `true`; none does, `false`.
pub open spec fn copy_from(rs: Seq<ReplyV>, cs: Seq<(Seq<char>, Seq<Seq<char>>)>, text: Seq<char>, i: int) -> Outcome<bool>
    decreases cs.len() - i,
{
    if i < 0 || i >= cs.len() {
        Outcome::Done(false)
    } else if i >= rs.len() {
        Outcome::Ask(RequestV::RunProgram(cs[i].0, cs[i].1, text))
    } else if rs[i] == ReplyV::Bool(true) {
        Outcome::Done(true)
    } else {
        copy_from(rs, cs, text, i + 1)
    }
}

/// Copies `text` to the clipboard on operating system `os` (as `std::env::consts::OS`
/// names it): whether one of its clipboard programs took it.
pub fn copy(os: &str, text: &str, replies: &[Reply]) -> (r: Step<bool>)
    ensures
        step_view(r, |b: bool| b) == copy_from(replies_view(replies@), candidates_spec(os@), text@, 0),
{
    let cs = candidates(os);
    let ghost cv = cs@.map_values(|c: (String, Vec<String>)| (c.0@, strs(c.1@)));
    let ghost rv = replies_view(replies@);
    let mut i: usize = 0;
    while i < cs.len()
        invariant
            i <= cs.len(),
            cv == cs@.map_values(|c: (String, Vec<String>)| (c.0@, strs(c.1@))),
            cv == candidates_spec(os@),
            rv == replies_view(replies@),
            copy_from(rv, cv, text@, 0) == copy_from(rv, cv, text@, i as int),
        decreases cs.len() - i,
    {
        if i >= replies.len() {
            let prog = crate::repo::copy_string(&cs[i].0);
            let args = crate::repo::copy_strings(&cs[i].1);
            return Step::Ask(Request::RunProgram(prog, args, s(text)));
        }
        let ok = match &replies[i] {
            Reply::Bool(b) => *b,
            _ => false,
        };
        assert(rv[i as int] == replies@[i as int].view());
        if ok {
            return Step::Done(Ok(true));
        }
        i = i + 1;
    }
    Step::Done(Ok(false))
}

} // verus!
