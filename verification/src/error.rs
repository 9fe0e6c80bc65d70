//! The library's error type.
use vstd::prelude::*;

verus! {

/// What can go wrong.
#[derive(Debug, Clone)]
pub enum Error {
    /// A git command exited with a non-zero status.
    Git { args: Vec<String>, code: Option<i32>, stderr: String },
    /// git could not be started, or a file could not be read or written.
    Io(String),
    /// git printed something of an unexpected form.
    Parse(String),
    /// A precondition does not hold (no upstream, a merge already in progress, ...).
    Precondition(String),
    /// The user cancelled a long operation.
    Cancelled,
}

/// An error as sequences.
pub enum ErrorV {
    Git(Seq<Seq<char>>, Option<i32>, Seq<char>),
    Io(Seq<char>),
    Parse(Seq<char>),
    Precondition(Seq<char>),
    Cancelled,
}

pub open spec fn strs(v: Seq<String>) -> Seq<Seq<char>> {
    v.map_values(|s: String| s@)
}

impl Error {
    pub open spec fn view(&self) -> ErrorV {
        match self {
            Error::Git { args, code, stderr } => ErrorV::Git(strs(args@), *code, stderr@),
            Error::Io(m) => ErrorV::Io(m@),
            Error::Parse(m) => ErrorV::Parse(m@),
            Error::Precondition(m) => ErrorV::Precondition(m@),
            Error::Cancelled => ErrorV::Cancelled,
        }
    }

    /// A precondition error with the given message.
    pub fn precondition(msg: &str) -> (e: Error)
        ensures
            e.view() == ErrorV::Precondition(msg@),
    {
        Error::Precondition(crate::text::string_of(&crate::text::chars_of(msg)))
    }

    /// A parse error with the given message.
    pub fn parse(msg: &str) -> (e: Error)
        ensures
            e.view() == ErrorV::Parse(msg@),
    {
        Error::Parse(crate::text::string_of(&crate::text::chars_of(msg)))
    }
}


/// `args.join(" ")`.
pub open spec fn join_spaced(args: Seq<Seq<char>>) -> Seq<char>
    decreases args.len(),
{
    if args.len() == 0 {
        Seq::empty()
    } else if args.len() == 1 {
        args[0]
    } else {
        join_spaced(args.drop_last()) + " "@ + args.last()
    }
}

/// `c.to_string()` of an `i32`.
pub open spec fn int_text(c: i32) -> Seq<char> {
    if c < 0 {
        "-"@ + crate::text::decimal((-(c as int)) as nat)
    } else {
        crate::text::decimal(c as nat)
    }
}

/// The text shown for an error.
pub open spec fn error_text(e: ErrorV) -> Seq<char> {
    match e {
        ErrorV::Git(args, code, stderr) => "git "@ + join_spaced(args) + " 失败(退出码 "@ + (match code {
            Some(c) => int_text(c),
            None => "信号中断"@,
        }) + "): "@ + crate::text::trim(stderr),
        ErrorV::Io(m) => "无法执行 git: "@ + m,
        ErrorV::Parse(m) => "解析 git 输出失败: "@ + m,
        ErrorV::Precondition(m) => "预检未通过: "@ + m,
        ErrorV::Cancelled => "操作已取消"@,
    }
}

/// What `{:?}` prints for a string: the text quoted, with its special characters escaped.
pub uninterp spec fn str_debug(s: Seq<char>) -> Seq<char>;

/// `format!("{:?}", s)`: std's `Debug` of a string; the contract names its result and
/// says nothing of its characters.
#[verifier::external_body]
pub(crate) fn debug_quoted(s: &str) -> (r: String)
    ensures
        r@ == str_debug(s@),
{
    format!("{:?}", s)
}

fn push_int(out: &mut Vec<char>, c: i32)
    ensures
        final(out)@ == old(out)@ + int_text(c),
{
    if c < 0 {
        out.push('-');
        let m: u64 = if c == i32::MIN { 2147483648u64 } else { (-c) as u64 };
        assert(m as nat == (-(c as int)) as nat);
        crate::text::push_decimal(out, m);
        proof {
            reveal_strlit("-");
        }
        assert(final(out)@ =~= old(out)@ + int_text(c)) by {
            assert("-"@ =~= seq!['-']);
        }
    } else {
        crate::text::push_decimal(out, c as u64);
    }
}

impl Error {
    /// The text shown for the error.
    pub fn message(&self) -> (r: String)
        ensures
            r@ == error_text(self.view()),
    {
        match self {
            Error::Git { args, code, stderr } => {
                let mut v = crate::text::chars_of("git ");
                let mut i: usize = 0;
                let ghost av = strs(args@);
                while i < args.len()
                    invariant
                        i <= args.len(),
                        av == strs(args@),
                        v@ == "git "@ + join_spaced(av.take(i as int)),
                    decreases args.len() - i,
                {
                    proof {
                        reveal_strlit(" ");
                    }
                    let ghost before = v@;
                    if i > 0 {
                        crate::text::push_str(&mut v, " ");
                    }
                    crate::text::push_str(&mut v, args[i].as_str());
                    assert(av.take(i + 1).drop_last() =~= av.take(i as int));
                    assert(av.take(i + 1).last() == args@[i as int]@);
                    if i == 0 {
                        assert(av.take(1) =~= seq![args@[0]@]);
                        assert(join_spaced(av.take(0)) =~= Seq::<char>::empty());
                        assert(v@ =~= "git "@ + join_spaced(av.take(1)));
                    } else {
                        assert(v@ =~= "git "@ + join_spaced(av.take(i + 1)));
                    }
                    i = i + 1;
                }
                assert(av.take(args.len() as int) =~= av);
                crate::text::push_str(&mut v, " 失败(退出码 ");
                match code {
                    Some(c) => push_int(&mut v, *c),
                    None => crate::text::push_str(&mut v, "信号中断"),
                }
                crate::text::push_str(&mut v, "): ");
                let t = crate::text::trim_vec(&crate::text::chars_of(stderr.as_str()));
                crate::text::push_chars(&mut v, &t);
                crate::text::string_of(&v)
            },
            Error::Io(m) => {
                let mut v = crate::text::chars_of("无法执行 git: ");
                crate::text::push_str(&mut v, m.as_str());
                crate::text::string_of(&v)
            },
            Error::Parse(m) => {
                let mut v = crate::text::chars_of("解析 git 输出失败: ");
                crate::text::push_str(&mut v, m.as_str());
                crate::text::string_of(&v)
            },
            Error::Precondition(m) => {
                let mut v = crate::text::chars_of("预检未通过: ");
                crate::text::push_str(&mut v, m.as_str());
                crate::text::string_of(&v)
            },
            Error::Cancelled => crate::repo::s("操作已取消"),
        }
    }
}

} // verus!
