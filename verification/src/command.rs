//! From the argument list to the request it stands for.
//!
//! The first argument is the program's own name. The second names a command,
//! is a number to be dialled as it stands, or is taken for the name of a
//! meeting.

use crate::digits::{decimal_digit, extract_digits, extracted, is_decimal_digit, texts};
use crate::text::{is_unicode_numeric, same_text, unicode_numeric};
use vstd::prelude::*;
use vstd::slice::slice_subrange;

verus! {

/// Why an argument list was turned down.
#[derive(Debug, PartialEq, Eq)]
pub enum Rejection {
    /// `join` without a name.
    JoinUsage,
    /// `add` without a name and an identifier.
    AddUsage,
    /// `rm` with anything but exactly one name.
    RemoveUsage,
    /// `add` with the name of a command.
    ReservedName { name: String },
    /// `add` with an identifier that has not 9, 10 or 11 digits.
    IdLength,
    /// A number for a command, and no decimal digit in the whole argument list.
    NoDigits { command: String },
}

/// A rejection as plain text.
pub enum RejectionView {
    JoinUsage,
    AddUsage,
    RemoveUsage,
    ReservedName { name: Seq<char> },
    IdLength,
    NoDigits { command: Seq<char> },
}

impl View for Rejection {
    type V = RejectionView;

    open spec fn view(&self) -> RejectionView {
        match self {
            Rejection::JoinUsage => RejectionView::JoinUsage,
            Rejection::AddUsage => RejectionView::AddUsage,
            Rejection::RemoveUsage => RejectionView::RemoveUsage,
            Rejection::ReservedName { name } => RejectionView::ReservedName { name: name@ },
            Rejection::IdLength => RejectionView::IdLength,
            Rejection::NoDigits { command } => RejectionView::NoDigits { command: command@ },
        }
    }
}

/// What an argument list asks for.
#[derive(Debug, PartialEq, Eq)]
pub enum Request {
    /// No command was given.
    Usage,
    /// Show the usage text.
    Help,
    /// List the registry.
    List,
    /// Launch the meeting with this identifier.
    Launch { id: String },
    /// Launch the meeting registered under this name.
    Join { name: String },
    /// The command is no keyword and no number: launch the meeting of that name.
    Open { name: String },
    /// Bind the name to the identifier.
    Add { name: String, id: String },
    /// Unbind the name.
    Remove { name: String },
    /// The arguments are at fault.
    Reject(Rejection),
}

/// A request as plain text.
pub enum RequestView {
    Usage,
    Help,
    List,
    Launch { id: Seq<char> },
    Join { name: Seq<char> },
    Open { name: Seq<char> },
    Add { name: Seq<char>, id: Seq<char> },
    Remove { name: Seq<char> },
    Reject(RejectionView),
}

impl View for Request {
    type V = RequestView;

    open spec fn view(&self) -> RequestView {
        match self {
            Request::Usage => RequestView::Usage,
            Request::Help => RequestView::Help,
            Request::List => RequestView::List,
            Request::Launch { id } => RequestView::Launch { id: id@ },
            Request::Join { name } => RequestView::Join { name: name@ },
            Request::Open { name } => RequestView::Open { name: name@ },
            Request::Add { name, id } => RequestView::Add { name: name@, id: id@ },
            Request::Remove { name } => RequestView::Remove { name: name@ },
            Request::Reject(why) => RequestView::Reject(why@),
        }
    }
}

/// The names that no meeting may bear: those of the commands.
pub open spec fn reserved_names() -> Set<Seq<char>> {
    set!["add"@, "help"@, "join"@, "ls"@, "rm"@]
}

/// An identifier may be registered when it has 9, 10 or 11 characters.
pub open spec fn registrable_length(id: Seq<char>) -> bool {
    9 <= id.len() <= 11
}

/// Whether a character counts towards a number: up to U+007F the ten decimal
/// digits do and nothing else; beyond, what Unicode classes as a number.
pub open spec fn is_numeric(c: char) -> bool {
    if c <= '\u{7f}' {
        is_decimal_digit(c)
    } else {
        is_unicode_numeric(c)
    }
}

/// Every character of `text` counts towards a number.
pub open spec fn all_numeric(text: Seq<char>) -> bool {
    forall|i: int| 0 <= i < text.len() ==> is_numeric(#[trigger] text[i])
}

/// Whether `text` is a number: it is not empty, and every character of it
/// counts towards a number.
pub open spec fn is_bare_number(text: Seq<char>) -> bool {
    text.len() > 0 && all_numeric(text)
}

/// What `join` asks for: the digits of all that follows the keyword, if there
/// are any, else the meeting named by the first argument after it.
pub open spec fn requested_join(args: Seq<Seq<char>>) -> RequestView {
    if args.len() < 3 {
        RequestView::Reject(RejectionView::JoinUsage)
    } else if extracted(args.skip(2)).len() > 0 {
        RequestView::Launch { id: extracted(args.skip(2)) }
    } else {
        RequestView::Join { name: args[2] }
    }
}

/// What `add` asks for: the name is the first argument after the keyword, the
/// identifier the digits of all that follows the name.
pub open spec fn requested_add(args: Seq<Seq<char>>) -> RequestView {
    if args.len() < 4 {
        RequestView::Reject(RejectionView::AddUsage)
    } else if reserved_names().contains(args[2]) {
        RequestView::Reject(RejectionView::ReservedName { name: args[2] })
    } else if !registrable_length(extracted(args.skip(3))) {
        RequestView::Reject(RejectionView::IdLength)
    } else {
        RequestView::Add { name: args[2], id: extracted(args.skip(3)) }
    }
}

/// What `rm` asks for: exactly one name must follow the keyword.
pub open spec fn requested_remove(args: Seq<Seq<char>>) -> RequestView {
    if args.len() != 3 {
        RequestView::Reject(RejectionView::RemoveUsage)
    } else {
        RequestView::Remove { name: args[2] }
    }
}

/// What a number in the command's place asks for: the digits of the whole
/// argument list, the program's name included, are dialled.
pub open spec fn requested_number(args: Seq<Seq<char>>) -> RequestView {
    if extracted(args).len() > 0 {
        RequestView::Launch { id: extracted(args) }
    } else {
        RequestView::Reject(RejectionView::NoDigits { command: args[1] })
    }
}

/// The request that the argument list `args` stands for.
pub open spec fn requested(args: Seq<Seq<char>>) -> RequestView {
    if args.len() < 2 {
        RequestView::Usage
    } else if args[1] == "help"@ {
        RequestView::Help
    } else if args[1] == "ls"@ {
        RequestView::List
    } else if args[1] == "join"@ {
        requested_join(args)
    } else if args[1] == "add"@ {
        requested_add(args)
    } else if args[1] == "rm"@ {
        requested_remove(args)
    } else if is_bare_number(args[1]) {
        requested_number(args)
    } else {
        RequestView::Open { name: args[1] }
    }
}

/// Whether the registry has to be at hand before the request can be answered:
/// it has to for every request but the two that only show the usage text.
pub open spec fn consults_registry(request: RequestView) -> bool {
    !(request is Usage || request is Help)
}

/// Tests a name for being that of a command.
pub fn is_reserved(name: &str) -> (r: bool)
    ensures
        r == reserved_names().contains(name@),
{
    same_text(name, "add") || same_text(name, "help") || same_text(name, "join") || same_text(
        name,
        "ls",
    ) || same_text(name, "rm")
}

/// Tests a character for counting towards a number. Up to U+007F this is
/// decided here; only beyond is Unicode's classification asked.
fn numeric(c: char) -> (r: bool)
    ensures
        r == is_numeric(c),
{
    if c <= '\u{7f}' {
        decimal_digit(c)
    } else {
        unicode_numeric(c)
    }
}

/// Tests a text for being a number: not empty, and numeric characters only.
pub fn is_number(text: &str) -> (r: bool)
    ensures
        r == is_bare_number(text@),
{
    if text.is_empty() {
        return false;
    }
    for c in it: text.chars()
        invariant
            it.seq() == text@,
            forall|k: int| 0 <= k < it.index() ==> is_numeric(#[trigger] text@[k]),
    {
        if !numeric(c) {
            return false;
        }
    }
    true
}

/// The arguments from position `from` onward, as their texts.
proof fn lemma_texts_skip(args: Seq<String>, from: int)
    requires
        0 <= from <= args.len(),
    ensures
        texts(args.subrange(from, args.len() as int)) == texts(args).skip(from),
{
}

fn parse_join(args: &[String]) -> (request: Request)
    requires
        args@.len() >= 2,
    ensures
        request@ == requested_join(texts(args@)),
{
    if args.len() < 3 {
        return Request::Reject(Rejection::JoinUsage);
    }
    proof {
        lemma_texts_skip(args@, 2);
    }
    let id = extract_digits(slice_subrange(args, 2, args.len()));
    if id.as_str().is_empty() {
        Request::Join { name: args[2].clone() }
    } else {
        Request::Launch { id }
    }
}

fn parse_add(args: &[String]) -> (request: Request)
    requires
        args@.len() >= 2,
    ensures
        request@ == requested_add(texts(args@)),
{
    if args.len() < 4 {
        return Request::Reject(Rejection::AddUsage);
    }
    if is_reserved(args[2].as_str()) {
        return Request::Reject(Rejection::ReservedName { name: args[2].clone() });
    }
    proof {
        lemma_texts_skip(args@, 3);
    }
    let id = extract_digits(slice_subrange(args, 3, args.len()));
    let digits: usize = id.as_str().unicode_len();
    if digits < 9 || digits > 11 {
        return Request::Reject(Rejection::IdLength);
    }
    Request::Add { name: args[2].clone(), id }
}

fn parse_remove(args: &[String]) -> (request: Request)
    requires
        args@.len() >= 2,
    ensures
        request@ == requested_remove(texts(args@)),
{
    if args.len() != 3 {
        return Request::Reject(Rejection::RemoveUsage);
    }
    Request::Remove { name: args[2].clone() }
}

fn parse_number(args: &[String]) -> (request: Request)
    requires
        args@.len() >= 2,
    ensures
        request@ == requested_number(texts(args@)),
{
    let id = extract_digits(args);
    if id.as_str().is_empty() {
        Request::Reject(Rejection::NoDigits { command: args[1].clone() })
    } else {
        Request::Launch { id }
    }
}

/// Reads the argument list, the program's name first, as a request.
pub fn parse(args: &[String]) -> (request: Request)
    ensures
        request@ == requested(texts(args@)),
{
    if args.len() < 2 {
        return Request::Usage;
    }
    let command = args[1].as_str();
    if same_text(command, "help") {
        Request::Help
    } else if same_text(command, "ls") {
        Request::List
    } else if same_text(command, "join") {
        parse_join(args)
    } else if same_text(command, "add") {
        parse_add(args)
    } else if same_text(command, "rm") {
        parse_remove(args)
    } else if is_number(command) {
        parse_number(args)
    } else {
        Request::Open { name: args[1].clone() }
    }
}

impl Request {
    /// Whether the registry has to be loaded before the request is run.
    pub fn needs_registry(&self) -> (needed: bool)
        ensures
            needed == consults_registry(self@),
    {
        match self {
            Request::Usage => false,
            Request::Help => false,
            _ => true,
        }
    }
}

} // verus!
