//! What a run has to say, and the texts that go to the outside: the lines to
//! print, the address that launches a meeting, and the place of the registry
//! file.

use crate::command::{Rejection, RejectionView};
use crate::dispatch::{Outcome, OutcomeView};
use crate::store::{views, Meeting, MeetingView};
use vstd::prelude::*;
use vstd::string::StringExecFns;

verus! {

/// Where a line is printed.
#[derive(Clone, Copy, Debug, PartialEq, Eq, Structural)]
pub enum Stream {
    /// Standard output.
    Stdout,
    /// Standard error.
    Stderr,
}

/// One line of output.
#[derive(Debug, PartialEq, Eq)]
pub struct Line {
    pub stream: Stream,
    pub text: String,
}

/// A line as plain text.
pub struct LineView {
    pub stream: Stream,
    pub text: Seq<char>,
}

impl View for Line {
    type V = LineView;

    open spec fn view(&self) -> LineView {
        LineView { stream: self.stream, text: self.text@ }
    }
}

/// The lines of a list as plain text.
pub open spec fn line_views(lines: Seq<Line>) -> Seq<LineView> {
    lines.map_values(|l: Line| l@)
}

/// A line for standard output.
pub open spec fn on_stdout(text: Seq<char>) -> LineView {
    LineView { stream: Stream::Stdout, text }
}

/// A line for standard error.
pub open spec fn on_stderr(text: Seq<char>) -> LineView {
    LineView { stream: Stream::Stderr, text }
}

/// The usage text.
pub open spec fn usage() -> Seq<LineView> {
    seq![
        on_stdout("Usage: zoom <command> [<meeting_name>]"@),
        on_stdout("Commands:"@),
        on_stdout("  ls            List all available meetings"@),
        on_stdout("  join <name>   Join the specified meeting (or just use 'zoom <name>')"@),
        on_stdout("  add <name> <id>  Add a new meeting with the specified name and ID"@),
        on_stdout("  rm <name>     Remove the specified meeting"@),
        on_stdout("  help          Display this help message"@),
    ]
}

/// One line of the listing: the name, a colon and a space, the identifier.
pub open spec fn listing_line(entry: MeetingView) -> LineView {
    on_stdout(entry.name + ": "@ + entry.id)
}

/// The message for a rejection. It goes to standard error.
pub open spec fn rejection_text(why: RejectionView) -> Seq<char> {
    match why {
        RejectionView::JoinUsage => "Usage: zoom join <meeting_name>"@,
        RejectionView::AddUsage => "Usage: zoom add <meeting_name> <meeting_id>"@,
        RejectionView::RemoveUsage => "Usage: zoom rm <meeting_name>"@,
        RejectionView::ReservedName { name } => "Error: '"@ + name
            + "' is a reserved name and cannot be used as a meeting name"@,
        RejectionView::IdLength => "Error: Meeting ID must contain 9, 10, or 11 digits"@,
        RejectionView::NoDigits { command } => "Invalid meeting ID '"@ + command + "'"@,
    }
}

/// The lines that an outcome has printed, in order. Failures speak on
/// standard error; the usage text always goes to standard output; a launch
/// prints nothing.
pub open spec fn shown(outcome: OutcomeView) -> Seq<LineView> {
    match outcome {
        OutcomeView::Help => usage(),
        OutcomeView::Usage => usage(),
        OutcomeView::Listed { meetings } => meetings.map_values(|e: MeetingView| listing_line(e)),
        OutcomeView::Launch { id } => Seq::empty(),
        OutcomeView::Added { name, id } => seq![
            on_stdout("Meeting '"@ + name + "' added with ID '"@ + id + "'"@),
        ],
        OutcomeView::Removed { name } => seq![on_stdout("Meeting '"@ + name + "' removed"@)],
        OutcomeView::NotFound { name } => seq![on_stderr("Meeting '"@ + name + "' not found"@)],
        OutcomeView::UnknownCommand { command } => seq![on_stderr("Unknown command: "@ + command)]
            + usage(),
        OutcomeView::Rejected(why) => seq![on_stderr(rejection_text(why))],
    }
}

/// The address that launches the meeting with the identifier `id`.
pub open spec fn launch_address(id: Seq<char>) -> Seq<char> {
    "zoommtg://zoom.us/join?confno="@ + id
}

/// The place of the registry file: the one chosen, else `meetings.json`.
pub open spec fn registry_place(chosen: Option<Seq<char>>) -> Seq<char> {
    match chosen {
        Some(path) => path,
        None => "meetings.json"@,
    }
}

/// A line of the usage text.
fn out_line(text: &str) -> (line: Line)
    ensures
        line@ == on_stdout(text@),
{
    Line { stream: Stream::Stdout, text: text.to_string() }
}

/// The usage text, line by line.
pub fn usage_lines() -> (lines: Vec<Line>)
    ensures
        line_views(lines@) == usage(),
{
    let mut lines: Vec<Line> = Vec::new();
    lines.push(out_line("Usage: zoom <command> [<meeting_name>]"));
    lines.push(out_line("Commands:"));
    lines.push(out_line("  ls            List all available meetings"));
    lines.push(out_line("  join <name>   Join the specified meeting (or just use 'zoom <name>')"));
    lines.push(out_line("  add <name> <id>  Add a new meeting with the specified name and ID"));
    lines.push(out_line("  rm <name>     Remove the specified meeting"));
    lines.push(out_line("  help          Display this help message"));
    lines
}

/// `before`, `middle` and `after` laid end to end.
fn framed(before: &str, middle: &str, after: &str) -> (text: String)
    ensures
        text@ == before@ + middle@ + after@,
{
    let mut text = before.to_string();
    text.append(middle);
    text.append(after);
    text
}

impl Rejection {
    /// The message that tells the user what was at fault.
    pub fn message(&self) -> (text: String)
        ensures
            text@ == rejection_text(self@),
    {
        match self {
            Rejection::JoinUsage => "Usage: zoom join <meeting_name>".to_string(),
            Rejection::AddUsage => "Usage: zoom add <meeting_name> <meeting_id>".to_string(),
            Rejection::RemoveUsage => "Usage: zoom rm <meeting_name>".to_string(),
            Rejection::ReservedName { name } => framed(
                "Error: '",
                name.as_str(),
                "' is a reserved name and cannot be used as a meeting name",
            ),
            Rejection::IdLength => "Error: Meeting ID must contain 9, 10, or 11 digits".to_string(),
            Rejection::NoDigits { command } => framed("Invalid meeting ID '", command.as_str(), "'"),
        }
    }
}

/// The listing, one line for each entry.
fn listing(meetings: &Vec<Meeting>) -> (lines: Vec<Line>)
    ensures
        line_views(lines@) == views(meetings@).map_values(|e: MeetingView| listing_line(e)),
{
    let ghost all = views(meetings@).map_values(|e: MeetingView| listing_line(e));
    let mut lines: Vec<Line> = Vec::new();
    let mut i: usize = 0;
    while i < meetings.len()
        invariant
            i <= meetings.len(),
            all == views(meetings@).map_values(|e: MeetingView| listing_line(e)),
            line_views(lines@) == all.take(i as int),
        decreases meetings.len() - i,
    {
        let text = framed(meetings[i].name.as_str(), ": ", meetings[i].id.as_str());
        let ghost printed = line_views(lines@);
        lines.push(Line { stream: Stream::Stdout, text });
        assert(line_views(lines@) == printed.push(all[i as int]));
        i += 1;
    }
    lines
}

impl Outcome {
    /// The lines to print, in order.
    pub fn lines(&self) -> (lines: Vec<Line>)
        ensures
            line_views(lines@) == shown(self@),
    {
        match self {
            Outcome::Help => usage_lines(),
            Outcome::Usage => usage_lines(),
            Outcome::Listed { meetings } => listing(meetings),
            Outcome::Launch { .. } => Vec::new(),
            Outcome::Added { name, id } => {
                let mut text = framed("Meeting '", name.as_str(), "' added with ID '");
                text.append(id.as_str());
                text.append("'");
                one_line(Stream::Stdout, text)
            },
            Outcome::Removed { name } => one_line(
                Stream::Stdout,
                framed("Meeting '", name.as_str(), "' removed"),
            ),
            Outcome::NotFound { name } => one_line(
                Stream::Stderr,
                framed("Meeting '", name.as_str(), "' not found"),
            ),
            Outcome::UnknownCommand { command } => {
                let mut text = "Unknown command: ".to_string();
                text.append(command.as_str());
                let mut lines = one_line(Stream::Stderr, text);
                let mut help = usage_lines();
                lines.append(&mut help);
                lines
            },
            Outcome::Rejected(why) => one_line(Stream::Stderr, why.message()),
        }
    }
}

/// A single line for the given stream.
fn one_line(stream: Stream, text: String) -> (lines: Vec<Line>)
    ensures
        line_views(lines@) == seq![LineView { stream, text: text@ }],
{
    let mut lines: Vec<Line> = Vec::new();
    lines.push(Line { stream, text });
    lines
}

/// The address that launches the meeting with the identifier `id`.
pub fn launch_url(id: &str) -> (url: String)
    ensures
        url@ == launch_address(id@),
{
    let mut url = "zoommtg://zoom.us/join?confno=".to_string();
    url.append(id);
    url
}

/// The place of the registry file: `chosen` where the user has chosen one,
/// else `meetings.json` in the working directory.
pub fn registry_path(chosen: Option<String>) -> (path: String)
    ensures
        path@ == registry_place(
            match chosen {
                Some(p) => Some(p@),
                None => None,
            },
        ),
{
    match chosen {
        Some(path) => path,
        None => "meetings.json".to_string(),
    }
}

} // verus!
