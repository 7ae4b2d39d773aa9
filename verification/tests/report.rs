use zoomcli::command::Rejection;
use zoomcli::dispatch::Outcome;
use zoomcli::report::{launch_url, registry_path, usage_lines, Line, Stream};
use zoomcli::store::Meeting;

fn out(text: &str) -> Line {
    Line { stream: Stream::Stdout, text: text.to_string() }
}

fn err(text: &str) -> Line {
    Line { stream: Stream::Stderr, text: text.to_string() }
}

fn usage() -> Vec<Line> {
    vec![
        out("Usage: zoom <command> [<meeting_name>]"),
        out("Commands:"),
        out("  ls            List all available meetings"),
        out("  join <name>   Join the specified meeting (or just use 'zoom <name>')"),
        out("  add <name> <id>  Add a new meeting with the specified name and ID"),
        out("  rm <name>     Remove the specified meeting"),
        out("  help          Display this help message"),
    ]
}

#[test]
fn usage_text_has_seven_lines_on_standard_output() {
    assert_eq!(usage_lines(), usage());
    assert_eq!(Outcome::Help.lines(), usage());
    assert_eq!(Outcome::Usage.lines(), usage());
}

#[test]
fn listing_prints_name_colon_identifier() {
    let listed = Outcome::Listed {
        meetings: vec![
            Meeting { name: "standup".to_string(), id: "1234567890".to_string() },
            Meeting { name: "retro".to_string(), id: "987654321".to_string() },
        ],
    };
    assert_eq!(listed.lines(), vec![out("standup: 1234567890"), out("retro: 987654321")]);
    assert_eq!(Outcome::Listed { meetings: vec![] }.lines(), vec![]);
}

#[test]
fn a_launch_prints_nothing() {
    assert_eq!(Outcome::Launch { id: "1234567890".to_string() }.lines(), vec![]);
}

#[test]
fn confirmations_go_to_standard_output() {
    assert_eq!(
        Outcome::Added { name: "retro".to_string(), id: "987654321".to_string() }.lines(),
        vec![out("Meeting 'retro' added with ID '987654321'")]
    );
    assert_eq!(
        Outcome::Removed { name: "retro".to_string() }.lines(),
        vec![out("Meeting 'retro' removed")]
    );
}

#[test]
fn failures_go_to_standard_error() {
    assert_eq!(
        Outcome::NotFound { name: "retro".to_string() }.lines(),
        vec![err("Meeting 'retro' not found")]
    );
    let mut unknown = vec![err("Unknown command: bogus")];
    unknown.extend(usage());
    assert_eq!(Outcome::UnknownCommand { command: "bogus".to_string() }.lines(), unknown);
}

#[test]
fn each_rejection_has_its_message() {
    assert_eq!(Rejection::JoinUsage.message(), "Usage: zoom join <meeting_name>");
    assert_eq!(Rejection::AddUsage.message(), "Usage: zoom add <meeting_name> <meeting_id>");
    assert_eq!(Rejection::RemoveUsage.message(), "Usage: zoom rm <meeting_name>");
    assert_eq!(
        Rejection::ReservedName { name: "ls".to_string() }.message(),
        "Error: 'ls' is a reserved name and cannot be used as a meeting name"
    );
    assert_eq!(
        Rejection::IdLength.message(),
        "Error: Meeting ID must contain 9, 10, or 11 digits"
    );
    assert_eq!(
        Rejection::NoDigits { command: "\u{00bd}".to_string() }.message(),
        "Invalid meeting ID '\u{00bd}'"
    );
    assert_eq!(
        Outcome::Rejected(Rejection::IdLength).lines(),
        vec![err("Error: Meeting ID must contain 9, 10, or 11 digits")]
    );
}

#[test]
fn launch_url_carries_the_identifier() {
    assert_eq!(launch_url("1234567890"), "zoommtg://zoom.us/join?confno=1234567890");
    assert_eq!(launch_url(""), "zoommtg://zoom.us/join?confno=");
}

#[test]
fn registry_path_defaults_to_meetings_json() {
    assert_eq!(registry_path(None), "meetings.json");
    assert_eq!(registry_path(Some("/tmp/other.json".to_string())), "/tmp/other.json");
    assert_eq!(registry_path(Some(String::new())), "");
}
