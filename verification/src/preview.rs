//! What the operator is shown before a plan is applied: for each change the
//! lines that differ, and the actions that applying it takes.

use crate::change::{ChangeView, ServiceChange};
use crate::text::{text_of, texts_of};
use similar::{ChangeTag, TextDiff};
use vstd::prelude::*;
use vstd::string::*;

verus! {

/// How a line of the new content relates to the old content.
#[derive(Clone, Copy, Debug, PartialEq, Eq)]
pub enum LineKind {
    /// Only the old content has the line.
    Removed,
    /// Only the new content has the line.
    Added,
    /// Both have the line.
    Unchanged,
}

/// One line of a comparison of two texts.
#[derive(Debug)]
pub struct DiffLine {
    pub kind: LineKind,
    /// The line, ending in a line break.
    pub text: String,
}

/// A [`DiffLine`] by the characters of its text.
pub struct DiffLineView {
    pub kind: LineKind,
    pub text: Seq<char>,
}

impl View for DiffLine {
    type V = DiffLineView;

    open spec fn view(&self) -> DiffLineView {
        DiffLineView { kind: self.kind, text: self.text@ }
    }
}

/// The lines of a comparison, each by its view.
pub open spec fn lines_of(lines: Seq<DiffLine>) -> Seq<DiffLineView> {
    lines.map_values(|line: DiffLine| line@)
}

/// The line-by-line comparison of `old` with `new`: every line of either
/// text, in order, marked as removed, added or unchanged.
pub uninterp spec fn line_changes(old: Seq<char>, new: Seq<char>) -> Seq<DiffLineView>;

/// Compares two texts line by line with `similar::TextDiff::from_lines` and
/// walks the result with `TextDiff::iter_all_changes`. Each change gives one
/// line: its kind from `Change::tag`, its text as `Change`'s `Display` impl
/// writes it.
///
/// Trusted: the lines are those named by [`line_changes`].
#[verifier::external_body]
fn compare_lines(old: &str, new: &str) -> (lines: Vec<DiffLine>)
    ensures
        lines_of(lines@) == line_changes(old@, new@),
{
    TextDiff::from_lines(old, new).iter_all_changes().map(
        |change| DiffLine {
            kind: match change.tag() {
                ChangeTag::Delete => LineKind::Removed,
                ChangeTag::Insert => LineKind::Added,
                ChangeTag::Equal => LineKind::Unchanged,
            },
            text: format!("{}", change),
        },
    ).collect()
}

/// How a piece of the report is to be shown.
#[derive(Clone, Copy, Debug, PartialEq, Eq)]
pub enum LineStyle {
    /// As it is.
    Plain,
    /// As something that goes away.
    Removed,
    /// As something new.
    Added,
}

/// A piece of text to show, line breaks included, and how to show it.
#[derive(Debug)]
pub struct ReportLine {
    pub style: LineStyle,
    pub text: String,
}

/// A [`ReportLine`] by the characters of its text.
pub struct ReportLineView {
    pub style: LineStyle,
    pub text: Seq<char>,
}

impl View for ReportLine {
    type V = ReportLineView;

    open spec fn view(&self) -> ReportLineView {
        ReportLineView { style: self.style, text: self.text@ }
    }
}

/// The pieces of a report, each by its view.
pub open spec fn report_of(lines: Seq<ReportLine>) -> Seq<ReportLineView> {
    lines.map_values(|line: ReportLine| line@)
}

/// The line that separates the comparison from what stands around it.
pub const RULE: &'static str = "----------------------------\n";

/// The warning shown for a unit that drifted.
pub const DRIFT_WARNING: &'static str =
    "\u{26a0}\u{fe0f}  WARNING: This service has been modified outside of this tool!\n";

/// The mark in front of a line of the given kind.
pub open spec fn sign_of(kind: LineKind) -> Seq<char> {
    match kind {
        LineKind::Removed => "-"@,
        LineKind::Added => "+"@,
        LineKind::Unchanged => " "@,
    }
}

/// The style in which a line of the given kind is shown.
pub open spec fn style_of(kind: LineKind) -> LineStyle {
    match kind {
        LineKind::Removed => LineStyle::Removed,
        LineKind::Added => LineStyle::Added,
        LineKind::Unchanged => LineStyle::Plain,
    }
}

/// A line of the comparison as the report shows it: marked and styled.
pub open spec fn marked(line: DiffLineView) -> ReportLineView {
    ReportLineView { style: style_of(line.kind), text: sign_of(line.kind) + line.text }
}

/// The lines of a comparison as the report shows them.
pub open spec fn marked_lines(lines: Seq<DiffLineView>) -> Seq<ReportLineView> {
    lines.map_values(|line: DiffLineView| marked(line))
}

/// A piece of plain text.
pub open spec fn plain(text: Seq<char>) -> ReportLineView {
    ReportLineView { style: LineStyle::Plain, text }
}

/// What stands above the comparison: the unit's name, a warning where the
/// unit drifted, and a rule.
pub open spec fn report_head(unit: Seq<char>, state_modified: bool) -> Seq<ReportLineView> {
    if state_modified {
        seq![plain("\nChanges for "@ + unit + ":\n"@), plain(DRIFT_WARNING@), plain(RULE@)]
    } else {
        seq![plain("\nChanges for "@ + unit + ":\n"@), plain(RULE@)]
    }
}

/// The report on one change: the head, the lines of the comparison of the
/// old content with the new, and a closing rule followed by an empty line.
/// A unit that does not exist yet is compared as if it were empty.
pub open spec fn report_for(
    old_content: Option<Seq<char>>,
    new_content: Seq<char>,
    unit: Seq<char>,
    state_modified: bool,
) -> Seq<ReportLineView> {
    let old_text = match old_content {
        Some(text) => text,
        None => ""@,
    };
    report_head(unit, state_modified) + marked_lines(line_changes(old_text, new_content))
        + seq![plain(RULE@ + "\n"@)]
}

impl LineKind {
    /// The mark in front of a line of this kind.
    pub fn sign(self) -> (mark: &'static str)
        ensures
            mark@ == sign_of(self),
    {
        match self {
            LineKind::Removed => "-",
            LineKind::Added => "+",
            LineKind::Unchanged => " ",
        }
    }

    /// The style in which a line of this kind is shown.
    pub fn style(self) -> (style: LineStyle)
        ensures
            style == style_of(self),
    {
        match self {
            LineKind::Removed => LineStyle::Removed,
            LineKind::Added => LineStyle::Added,
            LineKind::Unchanged => LineStyle::Plain,
        }
    }
}

/// A piece of plain text.
fn plain_line(text: String) -> (line: ReportLine)
    ensures
        line@ == plain(text@),
{
    ReportLine { style: LineStyle::Plain, text }
}

/// The report on one change, as pieces of text to show one after the other.
pub fn diff_report(
    old_content: Option<&str>,
    new_content: &str,
    unit: &str,
    state_modified: bool,
) -> (report: Vec<ReportLine>)
    ensures
        report_of(report@) == report_for(text_of(old_content), new_content@, unit@, state_modified),
{
    let old_text = match old_content {
        Some(text) => text,
        None => "",
    };
    let lines = compare_lines(old_text, new_content);

    let mut report: Vec<ReportLine> = Vec::new();
    let mut title = String::from_str("\nChanges for ");
    title.append(unit);
    title.append(":\n");
    report.push(plain_line(title));
    if state_modified {
        report.push(plain_line(String::from_str(DRIFT_WARNING)));
    }
    report.push(plain_line(String::from_str(RULE)));

    let ghost head = report_head(unit@, state_modified);
    let ghost changes = line_changes(old_text@, new_content@);
    let mut i: usize = 0;
    while i < lines.len()
        invariant
            i <= lines@.len(),
            lines_of(lines@) == changes,
            report_of(report@) == head + marked_lines(changes.take(i as int)),
        decreases lines@.len() - i,
    {
        let line = &lines[i];
        let mut text = String::from_str(line.kind.sign());
        text.append(line.text.as_str());
        let piece = ReportLine { style: line.kind.style(), text };
        proof {
            assert(marked_lines(changes.take(i + 1)) =~= marked_lines(
                changes.take(i as int),
            ).push(piece@));
            assert(head + marked_lines(changes.take(i + 1)) =~= (head + marked_lines(
                changes.take(i as int),
            )).push(piece@));
        }
        report.push(piece);
        i += 1;
    }
    let mut closing = String::from_str(RULE);
    closing.append("\n");
    let ghost body = report@;
    report.push(plain_line(closing));
    proof {
        assert(report_of(report@) =~= report_of(body).push(plain(RULE@ + "\n"@)));
        assert(report_of(report@) =~= report_for(
            text_of(old_content),
            new_content@,
            unit@,
            state_modified,
        ));
    }
    report
}

/// The actions that applying `change` takes, one line each: overriding
/// someone else's edits where the unit drifted, then writing the unit file,
/// reloading the service manager and restarting the unit.
pub open spec fn summary_for(change: ChangeView) -> Seq<Seq<char>> {
    let actions = seq![
        " * Update service unit file: "@ + change.unit,
        " * Reload systemd daemon"@,
        " * Restart service: "@ + change.unit,
    ];
    if change.state_modified {
        seq![" ! Override manual changes to: "@ + change.unit] + actions
    } else {
        actions
    }
}

/// The actions that applying `change` takes, as lines to show.
pub fn action_summary(change: &ServiceChange) -> (lines: Vec<String>)
    ensures
        texts_of(lines@) == summary_for(change@),
{
    let mut lines: Vec<String> = Vec::new();
    if change.state_modified {
        let mut line = String::from_str(" ! Override manual changes to: ");
        line.append(change.unit.as_str());
        lines.push(line);
    }
    let mut update = String::from_str(" * Update service unit file: ");
    update.append(change.unit.as_str());
    lines.push(update);
    lines.push(String::from_str(" * Reload systemd daemon"));
    let mut restart = String::from_str(" * Restart service: ");
    restart.append(change.unit.as_str());
    lines.push(restart);
    lines
}

} // verus!
