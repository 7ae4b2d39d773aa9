use zoomcli::command::{is_number, is_reserved, parse, Rejection, Request};

fn args(words: &[&str]) -> Vec<String> {
    words.iter().map(|w| w.to_string()).collect()
}

#[test]
fn no_command_asks_for_usage() {
    assert_eq!(parse(&args(&[])), Request::Usage);
    assert_eq!(parse(&args(&["zoom"])), Request::Usage);
}

#[test]
fn help_is_help_whatever_follows() {
    assert_eq!(parse(&args(&["zoom", "help"])), Request::Help);
    assert_eq!(parse(&args(&["zoom", "help", "add", "123"])), Request::Help);
}

#[test]
fn ls_is_list() {
    assert_eq!(parse(&args(&["zoom", "ls"])), Request::List);
    assert_eq!(parse(&args(&["zoom", "ls", "extra"])), Request::List);
}

#[test]
fn keywords_are_matched_exactly() {
    assert_eq!(parse(&args(&["zoom", "Help"])), Request::Open { name: "Help".to_string() });
    assert_eq!(parse(&args(&["zoom", "lss"])), Request::Open { name: "lss".to_string() });
    assert_eq!(parse(&args(&["zoom", "l"])), Request::Open { name: "l".to_string() });
    assert_eq!(parse(&args(&["zoom", " rm"])), Request::Open { name: " rm".to_string() });
}

#[test]
fn join_without_a_name_is_a_usage_error() {
    assert_eq!(parse(&args(&["zoom", "join"])), Request::Reject(Rejection::JoinUsage));
}

#[test]
fn join_with_a_name_joins_by_name() {
    assert_eq!(
        parse(&args(&["zoom", "join", "standup"])),
        Request::Join { name: "standup".to_string() }
    );
    assert_eq!(
        parse(&args(&["zoom", "join", "standup", "now"])),
        Request::Join { name: "standup".to_string() }
    );
}

#[test]
fn join_with_digits_dials_them() {
    assert_eq!(parse(&args(&["zoom", "join", "555"])), Request::Launch { id: "555".to_string() });
    assert_eq!(
        parse(&args(&["zoom", "join", "123", "456", "7890"])),
        Request::Launch { id: "1234567890".to_string() }
    );
    assert_eq!(
        parse(&args(&["zoom", "join", "123-456-7890"])),
        Request::Launch { id: "1234567890".to_string() }
    );
    assert_eq!(
        parse(&args(&["zoom", "join", "standup2"])),
        Request::Launch { id: "2".to_string() }
    );
    assert_eq!(
        parse(&args(&["zoom", "join", "standup", "7"])),
        Request::Launch { id: "7".to_string() }
    );
}

#[test]
fn add_needs_a_name_and_an_identifier() {
    assert_eq!(parse(&args(&["zoom", "add"])), Request::Reject(Rejection::AddUsage));
    assert_eq!(parse(&args(&["zoom", "add", "standup"])), Request::Reject(Rejection::AddUsage));
    assert_eq!(parse(&args(&["zoom", "add", "ls"])), Request::Reject(Rejection::AddUsage));
}

#[test]
fn add_accepts_nine_to_eleven_digits() {
    for id in ["123456789", "1234567890", "12345678901"] {
        assert_eq!(
            parse(&args(&["zoom", "add", "standup", id])),
            Request::Add { name: "standup".to_string(), id: id.to_string() }
        );
    }
}

#[test]
fn add_rejects_other_lengths() {
    for id in ["", "abc", "1", "12345678", "123456789012", "1234567890123456"] {
        assert_eq!(
            parse(&args(&["zoom", "add", "standup", id])),
            Request::Reject(Rejection::IdLength)
        );
    }
}

#[test]
fn add_strips_what_is_no_digit() {
    assert_eq!(
        parse(&args(&["zoom", "add", "standup", "123-456-7890"])),
        Request::Add { name: "standup".to_string(), id: "1234567890".to_string() }
    );
    assert_eq!(
        parse(&args(&["zoom", "add", "standup", "123-456-78"])),
        Request::Reject(Rejection::IdLength)
    );
}

#[test]
fn add_folds_trailing_tokens_into_the_identifier() {
    assert_eq!(
        parse(&args(&["zoom", "add", "standup", "123", "456", "789"])),
        Request::Add { name: "standup".to_string(), id: "123456789".to_string() }
    );
    assert_eq!(
        parse(&args(&["zoom", "add", "standup", "123456789", "x1y"])),
        Request::Add { name: "standup".to_string(), id: "1234567891".to_string() }
    );
    assert_eq!(
        parse(&args(&["zoom", "add", "standup", "12345678901", "2"])),
        Request::Reject(Rejection::IdLength)
    );
    assert_eq!(
        parse(&args(&["zoom", "add", "standup", "123456789", "extra-token"])),
        Request::Add { name: "standup".to_string(), id: "123456789".to_string() }
    );
}

#[test]
fn add_rejects_every_reserved_name() {
    for name in ["add", "help", "join", "ls", "rm"] {
        assert_eq!(
            parse(&args(&["zoom", "add", name, "1234567890"])),
            Request::Reject(Rejection::ReservedName { name: name.to_string() })
        );
    }
}

#[test]
fn add_rejects_ls_whatever_the_identifier() {
    for id in ["1234567890", "1", "", "not-a-number", "123456789012345"] {
        assert_eq!(
            parse(&args(&["zoom", "add", "ls", id])),
            Request::Reject(Rejection::ReservedName { name: "ls".to_string() })
        );
    }
}

#[test]
fn rm_takes_exactly_one_name() {
    assert_eq!(parse(&args(&["zoom", "rm"])), Request::Reject(Rejection::RemoveUsage));
    assert_eq!(
        parse(&args(&["zoom", "rm", "standup", "extra"])),
        Request::Reject(Rejection::RemoveUsage)
    );
    assert_eq!(
        parse(&args(&["zoom", "rm", "standup"])),
        Request::Remove { name: "standup".to_string() }
    );
}

#[test]
fn a_number_is_dialled_as_it_stands() {
    assert_eq!(
        parse(&args(&["zoom", "999999999"])),
        Request::Launch { id: "999999999".to_string() }
    );
    assert_eq!(parse(&args(&["zoom", "7"])), Request::Launch { id: "7".to_string() });
}

#[test]
fn a_number_takes_the_digits_of_all_arguments() {
    assert_eq!(
        parse(&args(&["zoom", "123", "456", "78-90"])),
        Request::Launch { id: "1234567890".to_string() }
    );
    assert_eq!(parse(&args(&["zoom2", "123"])), Request::Launch { id: "2123".to_string() });
}

#[test]
fn a_number_without_decimal_digits_is_invalid() {
    assert_eq!(
        parse(&args(&["zoom", "\u{00bd}"])),
        Request::Reject(Rejection::NoDigits { command: "\u{00bd}".to_string() })
    );
    assert_eq!(
        parse(&args(&["zoom", "\u{0663}\u{0664}"])),
        Request::Reject(Rejection::NoDigits { command: "\u{0663}\u{0664}".to_string() })
    );
    assert_eq!(
        parse(&args(&["zoom", "\u{00bd}", "12"])),
        Request::Launch { id: "12".to_string() }
    );
}

#[test]
fn an_empty_command_is_taken_for_a_name() {
    assert_eq!(parse(&args(&["zoom", ""])), Request::Open { name: String::new() });
    assert_eq!(parse(&args(&["zoom", "", "123"])), Request::Open { name: String::new() });
    assert_eq!(parse(&args(&["zoom2", ""])), Request::Open { name: String::new() });
}

#[test]
fn words_beyond_ascii_are_names_unless_unicode_counts_them() {
    assert_eq!(
        parse(&args(&["zoom", "caf\u{e9}"])),
        Request::Open { name: "caf\u{e9}".to_string() }
    );
    assert_eq!(
        parse(&args(&["zoom", "\u{e9}\u{e8}"])),
        Request::Open { name: "\u{e9}\u{e8}".to_string() }
    );
    assert_eq!(
        parse(&args(&["zoom", "\u{4e09}"])),
        Request::Open { name: "\u{4e09}".to_string() }
    );
}

#[test]
fn anything_else_is_taken_for_a_name() {
    assert_eq!(parse(&args(&["zoom", "standup"])), Request::Open { name: "standup".to_string() });
    assert_eq!(parse(&args(&["zoom", "12a"])), Request::Open { name: "12a".to_string() });
    assert_eq!(
        parse(&args(&["zoom", "123-456"])),
        Request::Open { name: "123-456".to_string() }
    );
    assert_eq!(
        parse(&args(&["zoom", "standup", "123"])),
        Request::Open { name: "standup".to_string() }
    );
}

#[test]
fn reserved_names_are_the_five_keywords() {
    for name in ["add", "help", "join", "ls", "rm"] {
        assert!(is_reserved(name));
    }
    for name in ["", "Add", "adds", "list", "remove", "standup", "l", "s"] {
        assert!(!is_reserved(name));
    }
}

#[test]
fn is_number_follows_unicode() {
    assert!(!is_number(""));
    assert!(is_number("0123456789"));
    assert!(is_number("7"));
    assert!(is_number("\u{00bd}"));
    assert!(is_number("\u{0663}7"));
    assert!(!is_number("12a"));
    assert!(!is_number("-1"));
    assert!(!is_number("1 2"));
    assert!(!is_number("K"));
    assert!(!is_number("\u{e9}"));
    assert!(!is_number("/"));
    assert!(!is_number(":"));
    assert!(!is_number("\u{7f}"));
    assert!(!is_number("1\u{80}"));
    assert!(is_number("1\u{b2}"));
}

#[test]
fn only_usage_and_help_do_without_the_registry() {
    assert!(!Request::Usage.needs_registry());
    assert!(!Request::Help.needs_registry());
    assert!(Request::List.needs_registry());
    assert!(Request::Launch { id: "1".to_string() }.needs_registry());
    assert!(Request::Join { name: "a".to_string() }.needs_registry());
    assert!(Request::Open { name: "a".to_string() }.needs_registry());
    assert!(Request::Add { name: "a".to_string(), id: "123456789".to_string() }.needs_registry());
    assert!(Request::Remove { name: "a".to_string() }.needs_registry());
    assert!(Request::Reject(Rejection::JoinUsage).needs_registry());
}
