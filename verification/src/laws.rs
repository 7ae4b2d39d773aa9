//! What holds of every run, stated over argument lists and registries as
//! plain text.

use crate::command::{
    is_bare_number, registrable_length, requested, reserved_names, RejectionView, RequestView,
};
use crate::digits::{
    all_digits, digits_of, extracted, is_decimal_digit, lemma_digits_are_digits,
    lemma_digits_of_all_digits, lemma_extracted_concat, lemma_extracted_push,
    lemma_extracted_single,
};
use crate::dispatch::{entries_after, exit_status, outcome, writes_back, OutcomeView};
use crate::store::{
    has_name, lemma_with_entry_distinct, lemma_with_entry_mapping, lemma_without_absent,
    lemma_without_distinct, lemma_without_mapping, lookup, names_distinct, with_entry, without,
    MeetingView,
};
use vstd::prelude::*;

verus! {

/// An identifier is valid when it is made of 9, 10 or 11 decimal digits.
pub open spec fn valid_id(id: Seq<char>) -> bool {
    registrable_length(id) && all_digits(id)
}

/// Every identifier of the registry is valid.
pub open spec fn ids_valid(entries: Seq<MeetingView>) -> bool {
    forall|i: int| 0 <= i < entries.len() ==> valid_id((#[trigger] entries[i]).id)
}

/// The keywords differ from one another, and each begins with a small letter.
pub proof fn lemma_keywords()
    ensures
        "help"@ != "ls"@,
        "help"@ != "join"@,
        "help"@ != "add"@,
        "help"@ != "rm"@,
        "ls"@ != "join"@,
        "ls"@ != "add"@,
        "ls"@ != "rm"@,
        "join"@ != "add"@,
        "join"@ != "rm"@,
        "add"@ != "rm"@,
        forall|word: Seq<char>| #[trigger]
            reserved_names().contains(word) ==> word.len() > 0 && 'a' <= word[0] <= 'z',
{
    reveal_strlit("help");
    reveal_strlit("ls");
    reveal_strlit("join");
    reveal_strlit("add");
    reveal_strlit("rm");
    assert("help"@.len() == 4 && "help"@[0] == 'h');
    assert("ls"@.len() == 2 && "ls"@[0] == 'l');
    assert("join"@.len() == 4 && "join"@[0] == 'j');
    assert("add"@.len() == 3 && "add"@[0] == 'a');
    assert("rm"@.len() == 2 && "rm"@[0] == 'r');
}

/// What `add` registers is a valid identifier under a name that is no keyword.
pub proof fn lemma_add_registers_valid_id(args: Seq<Seq<char>>)
    ensures
        requested(args) matches RequestView::Add { name, id } ==> valid_id(id)
            && !reserved_names().contains(name) && name == args[2] && id == extracted(
            args.skip(3),
        ),
{
    if args.len() >= 4 {
        lemma_digits_are_digits(args.skip(3).flatten());
    }
}

/// Whatever the arguments, a registry with distinct names and valid
/// identifiers is one afterwards.
pub proof fn lemma_registry_stays_valid(args: Seq<Seq<char>>, entries: Seq<MeetingView>)
    requires
        names_distinct(entries),
        ids_valid(entries),
    ensures
        names_distinct(entries_after(requested(args), entries)),
        ids_valid(entries_after(requested(args), entries)),
{
    let after = entries_after(requested(args), entries);
    match requested(args) {
        RequestView::Add { name, id } => {
            lemma_add_registers_valid_id(args);
            lemma_with_entry_distinct(entries, name, id);
            assert forall|i: int| 0 <= i < after.len() implies valid_id(
                (#[trigger] after[i]).id,
            ) by {
                if i < entries.len() {
                    assert(valid_id(entries[i].id));
                }
            }
        },
        RequestView::Remove { name } => {
            lemma_without_distinct(entries, name);
            assert forall|i: int| 0 <= i < after.len() implies valid_id(
                (#[trigger] after[i]).id,
            ) by {
                entries.lemma_filter_contains_rev(|e: MeetingView| e.name != name, after[i]);
                let k = choose|k: int| 0 <= k < entries.len() && entries[k] == after[i];
                assert(valid_id(entries[k].id));
            }
        },
        _ => {},
    }
}

/// A run that fails leaves the registry as it was, and only an addition or a
/// removal has it written back.
pub proof fn lemma_failure_changes_nothing(request: RequestView, entries: Seq<MeetingView>)
    ensures
        exit_status(outcome(request, entries)) == 1 ==> entries_after(request, entries) == entries,
        !writes_back(outcome(request, entries)) ==> entries_after(request, entries) == entries,
        writes_back(outcome(request, entries)) ==> exit_status(outcome(request, entries)) == 0,
{
    if let RequestView::Remove { name } = request {
        if !has_name(entries, name) {
            lemma_without_absent(entries, name);
        }
    }
}

/// After an addition the listing shows the new entry, and the name stands for
/// the identifier that was given.
pub proof fn lemma_add_then_list(
    add: Seq<Seq<char>>,
    list: Seq<Seq<char>>,
    entries: Seq<MeetingView>,
)
    requires
        outcome(requested(add), entries) is Added,
        list.len() >= 2,
        list[1] == "ls"@,
    ensures
        ({
            let name = add[2];
            let id = extracted(add.skip(3));
            let after = entries_after(requested(add), entries);
            &&& outcome(requested(add), entries) == (OutcomeView::Added { name, id })
            &&& outcome(requested(list), after) == (OutcomeView::Listed { meetings: after })
            &&& after.contains(MeetingView { name, id })
            &&& lookup(after, name) == Some(id)
        }),
{
    lemma_keywords();
    let name = add[2];
    let id = extracted(add.skip(3));
    let after = with_entry(entries, name, id);
    lemma_with_entry_mapping(entries, name, id);
    if has_name(entries, name) {
        let i = choose|i: int| 0 <= i < entries.len() && (#[trigger] entries[i]).name == name;
        assert(after[i] == MeetingView { name, id });
    } else {
        assert(after[entries.len() as int] == MeetingView { name, id });
    }
}

/// `add` with an identifier of fewer than 9 or more than 11 digits is turned
/// down, and the registry stays as it was.
pub proof fn lemma_add_wrong_length(args: Seq<Seq<char>>, entries: Seq<MeetingView>)
    requires
        args.len() >= 4,
        args[1] == "add"@,
        !registrable_length(extracted(args.skip(3))),
    ensures
        outcome(requested(args), entries) is Rejected,
        !reserved_names().contains(args[2]) ==> outcome(requested(args), entries) == (
        OutcomeView::Rejected(RejectionView::IdLength)),
        exit_status(outcome(requested(args), entries)) == 1,
        !writes_back(outcome(requested(args), entries)),
        entries_after(requested(args), entries) == entries,
{
    lemma_keywords();
}

/// `add` with the name of a command is turned down whatever follows the
/// name, and the registry stays as it was. Where an identifier follows, the
/// name is given as the reason. `ls` is such a name.
pub proof fn lemma_add_reserved_name(args: Seq<Seq<char>>, entries: Seq<MeetingView>)
    requires
        args.len() >= 3,
        args[1] == "add"@,
        reserved_names().contains(args[2]),
    ensures
        outcome(requested(args), entries) is Rejected,
        args.len() >= 4 ==> outcome(requested(args), entries) == (OutcomeView::Rejected(
            RejectionView::ReservedName { name: args[2] },
        )),
        exit_status(outcome(requested(args), entries)) == 1,
        !writes_back(outcome(requested(args), entries)),
        entries_after(requested(args), entries) == entries,
        reserved_names().contains("ls"@),
{
    lemma_keywords();
}

/// `rm` of a name that is not registered fails with status 1 and leaves the
/// registry as it was.
pub proof fn lemma_remove_unknown(args: Seq<Seq<char>>, entries: Seq<MeetingView>)
    requires
        args.len() == 3,
        args[1] == "rm"@,
        !has_name(entries, args[2]),
    ensures
        outcome(requested(args), entries) == (OutcomeView::NotFound { name: args[2] }),
        exit_status(outcome(requested(args), entries)) == 1,
        !writes_back(outcome(requested(args), entries)),
        entries_after(requested(args), entries) == entries,
{
    lemma_keywords();
    lemma_without_absent(entries, args[2]);
}

/// `rm` of a registered name unbinds it and no other.
pub proof fn lemma_remove_known(args: Seq<Seq<char>>, entries: Seq<MeetingView>)
    requires
        args.len() == 3,
        args[1] == "rm"@,
        has_name(entries, args[2]),
    ensures
        outcome(requested(args), entries) == (OutcomeView::Removed { name: args[2] }),
        exit_status(outcome(requested(args), entries)) == 0,
        entries_after(requested(args), entries) == without(entries, args[2]),
        lookup(entries_after(requested(args), entries), args[2]) is None,
{
    lemma_keywords();
    lemma_without_mapping(entries, args[2]);
}

/// `rm` with no name or with more than one argument is a usage error and
/// leaves the registry as it was.
pub proof fn lemma_remove_wrong_arity(args: Seq<Seq<char>>, entries: Seq<MeetingView>)
    requires
        args.len() >= 2,
        args.len() != 3,
        args[1] == "rm"@,
    ensures
        outcome(requested(args), entries) == (OutcomeView::Rejected(RejectionView::RemoveUsage)),
        exit_status(outcome(requested(args), entries)) == 1,
        !writes_back(outcome(requested(args), entries)),
        entries_after(requested(args), entries) == entries,
{
    lemma_keywords();
}

/// `add` takes every token after the name into the identifier: the digits of
/// a trailing token are appended to those of the tokens before it.
pub proof fn lemma_add_folds_trailing_token(args: Seq<Seq<char>>, entries: Seq<MeetingView>)
    requires
        args.len() >= 5,
        args[1] == "add"@,
        !reserved_names().contains(args[2]),
        registrable_length(extracted(args.skip(3))),
    ensures
        extracted(args.skip(3)) == extracted(args.subrange(3, args.len() - 1)) + digits_of(
            args.last(),
        ),
        outcome(requested(args), entries) == (OutcomeView::Added {
            name: args[2],
            id: extracted(args.subrange(3, args.len() - 1)) + digits_of(args.last()),
        }),
        exit_status(outcome(requested(args), entries)) == 0,
{
    lemma_keywords();
    let front = args.subrange(3, args.len() - 1);
    assert(args.skip(3) == front.push(args.last()));
    lemma_extracted_push(front, args.last());
}

/// `join` followed by anything that holds a decimal digit launches those
/// digits, whatever the registry holds.
pub proof fn lemma_join_number(args: Seq<Seq<char>>, entries: Seq<MeetingView>)
    requires
        args.len() >= 3,
        args[1] == "join"@,
        extracted(args.skip(2)).len() > 0,
    ensures
        outcome(requested(args), entries) == (OutcomeView::Launch {
            id: extracted(args.skip(2)),
        }),
        exit_status(outcome(requested(args), entries)) == 0,
        entries_after(requested(args), entries) == entries,
{
    lemma_keywords();
}

/// `join` followed by a name without any decimal digit launches the meeting
/// registered under the first token after the keyword, and fails where there
/// is none.
pub proof fn lemma_join_name(args: Seq<Seq<char>>, entries: Seq<MeetingView>)
    requires
        args.len() >= 3,
        args[1] == "join"@,
        extracted(args.skip(2)).len() == 0,
    ensures
        outcome(requested(args), entries) == match lookup(entries, args[2]) {
            Some(id) => OutcomeView::Launch { id },
            None => OutcomeView::NotFound { name: args[2] },
        },
        entries_after(requested(args), entries) == entries,
{
    lemma_keywords();
}

/// A command made of decimal digits is dialled as it stands where no other
/// argument holds a digit.
pub proof fn lemma_bare_number(args: Seq<Seq<char>>, entries: Seq<MeetingView>)
    requires
        args.len() == 2,
        digits_of(args[0]).len() == 0,
        args[1].len() > 0,
        all_digits(args[1]),
    ensures
        outcome(requested(args), entries) == (OutcomeView::Launch { id: args[1] }),
        exit_status(outcome(requested(args), entries)) == 0,
        entries_after(requested(args), entries) == entries,
{
    lemma_keywords();
    assert(!reserved_names().contains(args[1])) by {
        assert(is_decimal_digit(args[1][0]));
    }
    assert(is_bare_number(args[1])) by {
        assert forall|i: int| 0 <= i < args[1].len() implies is_decimal_digit(
            #[trigger] args[1][i],
        ) by {}
    }
    assert(args == seq![args[0]] + seq![args[1]]);
    lemma_extracted_concat(seq![args[0]], seq![args[1]]);
    lemma_extracted_single(args[0]);
    lemma_extracted_single(args[1]);
    lemma_digits_of_all_digits(args[1]);
}

/// A text is no number when it is empty, and when it holds a character up to
/// U+007F that is no decimal digit.
pub proof fn lemma_no_number(word: Seq<char>, at: int)
    requires
        word.len() == 0 || (0 <= at < word.len() && word[at] <= '\u{7f}' && !is_decimal_digit(
            word[at],
        )),
    ensures
        !is_bare_number(word),
{
}

/// No keyword is a number, and none is empty.
pub proof fn lemma_keyword_is_no_number(word: Seq<char>)
    requires
        reserved_names().contains(word),
    ensures
        !is_bare_number(word),
        word.len() > 0,
{
    lemma_keywords();
    lemma_no_number(word, 0);
}

/// A number in the command's place has the digits of the whole argument list
/// dialled, and is turned down where there is no decimal digit in it.
pub proof fn lemma_number_command(args: Seq<Seq<char>>, entries: Seq<MeetingView>)
    requires
        args.len() >= 2,
    ensures
        is_bare_number(args[1]) && extracted(args).len() > 0 ==> outcome(requested(args), entries)
            == (OutcomeView::Launch { id: extracted(args) }),
        is_bare_number(args[1]) && extracted(args).len() == 0 ==> outcome(
            requested(args),
            entries,
        ) == (OutcomeView::Rejected(RejectionView::NoDigits { command: args[1] })),
        is_bare_number(args[1]) ==> entries_after(requested(args), entries) == entries,
{
    if reserved_names().contains(args[1]) {
        lemma_keyword_is_no_number(args[1]);
    }
}

/// A command that is no keyword and no number is taken for a name: the
/// meeting registered under it is launched, and where there is none the
/// command is unknown.
pub proof fn lemma_fallback(args: Seq<Seq<char>>, entries: Seq<MeetingView>)
    requires
        args.len() >= 2,
        !reserved_names().contains(args[1]),
    ensures
        !is_bare_number(args[1]) ==> outcome(requested(args), entries) == match lookup(
            entries,
            args[1],
        ) {
            Some(id) => OutcomeView::Launch { id },
            None => OutcomeView::UnknownCommand { command: args[1] },
        },
        !is_bare_number(args[1]) ==> exit_status(outcome(requested(args), entries)) == if lookup(
            entries,
            args[1],
        ) is Some {
            0u8
        } else {
            1u8
        },
        entries_after(requested(args), entries) == entries,
{
}

/// A word that is no keyword and holds a character up to U+007F that is no
/// decimal digit is a name: alone in the command's place it launches the
/// meeting registered under it, and where there is none the command is
/// unknown and the run fails.
pub proof fn lemma_name_alone(args: Seq<Seq<char>>, entries: Seq<MeetingView>, at: int)
    requires
        args.len() >= 2,
        !reserved_names().contains(args[1]),
        0 <= at < args[1].len(),
        args[1][at] <= '\u{7f}',
        !is_decimal_digit(args[1][at]),
    ensures
        outcome(requested(args), entries) == match lookup(entries, args[1]) {
            Some(id) => OutcomeView::Launch { id },
            None => OutcomeView::UnknownCommand { command: args[1] },
        },
        lookup(entries, args[1]) is None ==> exit_status(outcome(requested(args), entries)) == 1,
        entries_after(requested(args), entries) == entries,
{
    lemma_no_number(args[1], at);
}

/// An empty command is no number: it is looked up as a name like any other
/// word.
pub proof fn lemma_empty_command(args: Seq<Seq<char>>, entries: Seq<MeetingView>)
    requires
        args.len() >= 2,
        args[1].len() == 0,
    ensures
        outcome(requested(args), entries) == match lookup(entries, args[1]) {
            Some(id) => OutcomeView::Launch { id },
            None => OutcomeView::UnknownCommand { command: args[1] },
        },
        entries_after(requested(args), entries) == entries,
{
    if reserved_names().contains(args[1]) {
        lemma_keyword_is_no_number(args[1]);
    }
}

/// Without a command, and for `help`, the answer does not depend on the
/// registry.
pub proof fn lemma_help_ignores_registry(
    args: Seq<Seq<char>>,
    one: Seq<MeetingView>,
    other: Seq<MeetingView>,
)
    requires
        args.len() < 2 || args[1] == "help"@,
    ensures
        outcome(requested(args), one) == outcome(requested(args), other),
        args.len() < 2 ==> outcome(requested(args), one) == OutcomeView::Usage && exit_status(
            OutcomeView::Usage,
        ) == 1,
        args.len() >= 2 ==> outcome(requested(args), one) == OutcomeView::Help && exit_status(
            OutcomeView::Help,
        ) == 0,
        entries_after(requested(args), one) == one,
{
}

} // verus!
