//! Small presentation helpers shared by the front ends: the scroll offset that keeps a
//! cursor visible, the sentence that tells how an update ended, and a diff cut to a size a
//! language model accepts.
use vstd::prelude::*;
use crate::text::decimal;
use crate::update::{UpdateOutcome, UpdV, IntegrationStrategy};

verus! {

/// The scroll offset that keeps row `cursor` (from 0) inside a viewport of `viewport` rows,
/// before truncation to `u16`.
pub open spec fn follow_spec(cursor: usize, viewport: u16) -> int {
    if viewport == 0 || cursor < viewport - 1 {
        0
    } else {
        cursor - (viewport - 1)
    }
}

/// The vertical scroll offset that keeps row `cursor` (from 0) visible in a viewport of
/// `viewport` rows (the content height, borders excluded): past the bottom the cursor sits
/// on the last row. Stateless.
pub fn follow(cursor: usize, viewport: u16) -> (r: u16)
    ensures
        r == follow_spec(cursor, viewport) as u16,
        follow_spec(cursor, viewport) <= u16::MAX ==> r as int == follow_spec(cursor, viewport),
{
    let visible = viewport as usize;
    if visible == 0 {
        return 0;
    }
    let off: usize = if cursor < visible - 1 { 0 } else { cursor - (visible - 1) };
    #[verifier::truncate]
    (off as u16)
}

/// The row under the cursor is always on screen: with a non-empty viewport (and an offset
/// that fits in `u16`), the offset is at most the cursor and the cursor is less than the
/// offset plus the viewport's height.
pub proof fn law_follow_keeps_cursor_visible(cursor: usize, viewport: u16)
    requires
        viewport > 0,
        follow_spec(cursor, viewport) <= u16::MAX,
    ensures
        follow_spec(cursor, viewport) <= cursor < follow_spec(cursor, viewport) + viewport,
        cursor < viewport ==> follow_spec(cursor, viewport) == 0,
{
}

pub open spec fn strategy_name(s: IntegrationStrategy) -> Seq<char> {
    match s {
        IntegrationStrategy::Merge => "Merge"@,
        IntegrationStrategy::Rebase => "Rebase"@,
    }
}

/// How an update ended, in words.
pub open spec fn describe_spec(o: UpdV) -> Seq<char> {
    match o {
        UpdV::AlreadyUpToDate => "已是最新。"@,
        UpdV::FastForwarded(c) => "已快进 "@ + decimal(c as nat) + " 个提交。"@,
        UpdV::Integrated(c, st) => "已整合 "@ + decimal(c as nat) + " 个提交("@ + strategy_name(st) + ")。"@,
        UpdV::Conflicted(files, _) => "整合冲突,需手动解决 "@ + decimal(files.len()) + " 个文件。"@,
        UpdV::StashRestoreConflict(files) => "整合成功,但暂存改动贴回时冲突 "@ + decimal(files.len()) + " 个文件。"@,
        UpdV::Resolved => "冲突已解决,整合完成。"@,
        UpdV::SubmoduleSyncFailed(e) => "整合成功,但子仓库同步失败: "@ + e,
    }
}

pub(crate) fn with_number(a: &str, n: u64, b: &str) -> (r: String)
    ensures
        r@ == a@ + decimal(n as nat) + b@,
{
    let mut v = crate::text::chars_of(a);
    crate::text::push_decimal(&mut v, n);
    crate::text::push_str(&mut v, b);
    crate::text::string_of(&v)
}

/// How an update ended, in words (shared by the command line and the terminal UI).
pub fn describe(outcome: &UpdateOutcome) -> (r: String)
    ensures
        r@ == describe_spec(outcome.view()),
{
    match outcome {
        UpdateOutcome::AlreadyUpToDate => crate::repo::s("已是最新。"),
        UpdateOutcome::FastForwarded { commits } => with_number("已快进 ", *commits as u64, " 个提交。"),
        UpdateOutcome::Integrated { commits, strategy } => {
            let mut v = crate::text::chars_of("已整合 ");
            crate::text::push_decimal(&mut v, *commits as u64);
            crate::text::push_str(&mut v, " 个提交(");
            match strategy {
                IntegrationStrategy::Merge => crate::text::push_str(&mut v, "Merge"),
                IntegrationStrategy::Rebase => crate::text::push_str(&mut v, "Rebase"),
            }
            crate::text::push_str(&mut v, ")。");
            crate::text::string_of(&v)
        },
        UpdateOutcome::Conflicted { files, .. } => with_number("整合冲突,需手动解决 ", files.len() as u64, " 个文件。"),
        UpdateOutcome::StashRestoreConflict { files } => with_number("整合成功,但暂存改动贴回时冲突 ", files.len() as u64, " 个文件。"),
        UpdateOutcome::Resolved => crate::repo::s("冲突已解决,整合完成。"),
        UpdateOutcome::SubmoduleSyncFailed { error } => {
            let mut v = crate::text::chars_of("整合成功,但子仓库同步失败: ");
            crate::text::push_str(&mut v, error.as_str());
            crate::text::string_of(&v)
        },
    }
}

/// A diff cut to `max_chars` characters, with a note saying so.
pub open spec fn truncate_spec(diff: Seq<char>, max_chars: usize) -> Seq<char> {
    if diff.len() <= max_chars {
        diff
    } else {
        diff.take(max_chars as int) + "\n\n…（diff 已截断,仅展示前 "@ + decimal(max_chars as nat) + " 字符）"@
    }
}

/// Cuts an overlong diff to `max_chars` characters (characters, not bytes) and notes it,
/// so that it fits a model's context.
pub fn truncate_diff(diff: &str, max_chars: usize) -> (r: String)
    ensures
        r@ == truncate_spec(diff@, max_chars),
{
    let c = crate::text::chars_of(diff);
    if c.len() <= max_chars {
        return crate::text::string_of(&c);
    }
    let mut v = crate::text::slice_vec(&c, 0, max_chars);
    assert(v@ =~= diff@.take(max_chars as int));
    crate::text::push_str(&mut v, "\n\n…（diff 已截断,仅展示前 ");
    crate::text::push_decimal(&mut v, max_chars as u64);
    crate::text::push_str(&mut v, " 字符）");
    crate::text::string_of(&v)
}

} // verus!
