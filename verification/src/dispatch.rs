//! Running a request against the registry.
//!
//! A run yields one outcome and leaves the registry as the request demands.
//! The outcome says all that remains to be done outside: what to show, whether
//! the registry is to be written back, which meeting to launch, and the status
//! to exit with.

use crate::command::{parse, requested, Rejection, RejectionView, Request, RequestView};
use crate::digits::texts;
use crate::store::{
    has_name, lemma_mapping_names, lookup, names_distinct, views, with_entry, without, Meeting,
    MeetingStore, MeetingView,
};
use vstd::prelude::*;

verus! {

/// How a run ended.
#[derive(Debug, PartialEq, Eq)]
pub enum Outcome {
    /// The usage text was asked for.
    Help,
    /// No command was given: the usage text is shown, and the run has failed.
    Usage,
    /// The entries of the registry, in listing order.
    Listed { meetings: Vec<Meeting> },
    /// The meeting with this identifier is to be launched.
    Launch { id: String },
    /// The name was bound to the identifier; the registry is to be written back.
    Added { name: String, id: String },
    /// The name was unbound; the registry is to be written back.
    Removed { name: String },
    /// No meeting of this name is registered.
    NotFound { name: String },
    /// The command is no keyword, no number and no registered name.
    UnknownCommand { command: String },
    /// The arguments were at fault.
    Rejected(Rejection),
}

/// An outcome as plain text.
pub enum OutcomeView {
    Help,
    Usage,
    Listed { meetings: Seq<MeetingView> },
    Launch { id: Seq<char> },
    Added { name: Seq<char>, id: Seq<char> },
    Removed { name: Seq<char> },
    NotFound { name: Seq<char> },
    UnknownCommand { command: Seq<char> },
    Rejected(RejectionView),
}

impl View for Outcome {
    type V = OutcomeView;

    open spec fn view(&self) -> OutcomeView {
        match self {
            Outcome::Help => OutcomeView::Help,
            Outcome::Usage => OutcomeView::Usage,
            Outcome::Listed { meetings } => OutcomeView::Listed { meetings: views(meetings@) },
            Outcome::Launch { id } => OutcomeView::Launch { id: id@ },
            Outcome::Added { name, id } => OutcomeView::Added { name: name@, id: id@ },
            Outcome::Removed { name } => OutcomeView::Removed { name: name@ },
            Outcome::NotFound { name } => OutcomeView::NotFound { name: name@ },
            Outcome::UnknownCommand { command } => OutcomeView::UnknownCommand {
                command: command@,
            },
            Outcome::Rejected(why) => OutcomeView::Rejected(why@),
        }
    }
}

/// How the request ends on a registry with the given entries.
pub open spec fn outcome(request: RequestView, entries: Seq<MeetingView>) -> OutcomeView {
    match request {
        RequestView::Usage => OutcomeView::Usage,
        RequestView::Help => OutcomeView::Help,
        RequestView::List => OutcomeView::Listed { meetings: entries },
        RequestView::Launch { id } => OutcomeView::Launch { id },
        RequestView::Join { name } => match lookup(entries, name) {
            Some(id) => OutcomeView::Launch { id },
            None => OutcomeView::NotFound { name },
        },
        RequestView::Open { name } => match lookup(entries, name) {
            Some(id) => OutcomeView::Launch { id },
            None => OutcomeView::UnknownCommand { command: name },
        },
        RequestView::Add { name, id } => OutcomeView::Added { name, id },
        RequestView::Remove { name } => if has_name(entries, name) {
            OutcomeView::Removed { name }
        } else {
            OutcomeView::NotFound { name }
        },
        RequestView::Reject(why) => OutcomeView::Rejected(why),
    }
}

/// The entries that the request leaves behind.
pub open spec fn entries_after(request: RequestView, entries: Seq<MeetingView>) -> Seq<
    MeetingView,
> {
    match request {
        RequestView::Add { name, id } => with_entry(entries, name, id),
        RequestView::Remove { name } => without(entries, name),
        _ => entries,
    }
}

/// The status to exit with: 0 after help, a listing, a launch, an addition or
/// a removal, 1 after anything else.
pub open spec fn exit_status(outcome: OutcomeView) -> u8 {
    match outcome {
        OutcomeView::Help => 0,
        OutcomeView::Listed { .. } => 0,
        OutcomeView::Launch { .. } => 0,
        OutcomeView::Added { .. } => 0,
        OutcomeView::Removed { .. } => 0,
        _ => 1,
    }
}

/// Whether the registry is to be written back.
pub open spec fn writes_back(outcome: OutcomeView) -> bool {
    outcome is Added || outcome is Removed
}

impl Outcome {
    /// The status to exit with.
    pub fn exit_code(&self) -> (code: u8)
        ensures
            code == exit_status(self@),
    {
        match self {
            Outcome::Help => 0,
            Outcome::Listed { .. } => 0,
            Outcome::Launch { .. } => 0,
            Outcome::Added { .. } => 0,
            Outcome::Removed { .. } => 0,
            _ => 1,
        }
    }

    /// Whether the registry is to be written back to where it is kept.
    pub fn persists(&self) -> (write: bool)
        ensures
            write == writes_back(self@),
    {
        match self {
            Outcome::Added { .. } => true,
            Outcome::Removed { .. } => true,
            _ => false,
        }
    }

    /// The identifier of the meeting to launch, if one is to be launched.
    pub fn launches(&self) -> (id: Option<&String>)
        ensures
            match id {
                Some(id) => self@ == (OutcomeView::Launch { id: id@ }),
                None => !(self@ is Launch),
            },
    {
        match self {
            Outcome::Launch { id } => Some(id),
            _ => None,
        }
    }
}

/// Runs the request against the registry.
pub fn run(request: Request, store: &mut MeetingStore) -> (out: Outcome)
    ensures
        out@ == outcome(request@, old(store)@),
        final(store)@ == entries_after(request@, old(store)@),
        names_distinct(final(store)@),
{
    proof {
        use_type_invariant(&*store);
    }
    match request {
        Request::Usage => Outcome::Usage,
        Request::Help => Outcome::Help,
        Request::List => Outcome::Listed { meetings: store.meetings() },
        Request::Launch { id } => Outcome::Launch { id },
        Request::Join { name } => match store.get(name.as_str()) {
            Some(id) => Outcome::Launch { id: id.clone() },
            None => Outcome::NotFound { name },
        },
        Request::Open { name } => match store.get(name.as_str()) {
            Some(id) => Outcome::Launch { id: id.clone() },
            None => Outcome::UnknownCommand { command: name },
        },
        Request::Add { name, id } => {
            store.insert(name.clone(), id.clone());
            Outcome::Added { name, id }
        },
        Request::Remove { name } => {
            proof {
                lemma_mapping_names(store@, name@);
            }
            match store.remove(name.as_str()) {
                Some(_) => Outcome::Removed { name },
                None => Outcome::NotFound { name },
            }
        },
        Request::Reject(why) => Outcome::Rejected(why),
    }
}

/// Reads the argument list, the program's name first, and runs what it asks
/// for against the registry.
pub fn dispatch(args: &[String], store: &mut MeetingStore) -> (out: Outcome)
    ensures
        out@ == outcome(requested(texts(args@)), old(store)@),
        final(store)@ == entries_after(requested(texts(args@)), old(store)@),
        names_distinct(final(store)@),
{
    run(parse(args), store)
}

} // verus!
