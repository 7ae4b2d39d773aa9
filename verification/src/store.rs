//! The registry: meeting names and the identifiers they stand for.
//!
//! A registry is modelled as the sequence of its entries in listing order, in
//! which no name occurs twice; [`mapping`] reads such a sequence as the map
//! from names to identifiers.

use crate::text::same_text;
use vstd::prelude::*;

verus! {

/// One entry of the registry.
#[derive(Debug, PartialEq, Eq)]
pub struct Meeting {
    pub name: String,
    pub id: String,
}

/// An entry as plain text.
pub struct MeetingView {
    pub name: Seq<char>,
    pub id: Seq<char>,
}

impl View for Meeting {
    type V = MeetingView;

    open spec fn view(&self) -> MeetingView {
        MeetingView { name: self.name@, id: self.id@ }
    }
}

impl Clone for Meeting {
    fn clone(&self) -> (copy: Self)
        ensures
            copy@ == self@,
    {
        Meeting { name: self.name.clone(), id: self.id.clone() }
    }
}

/// The entries of a list as plain text.
pub open spec fn views(list: Seq<Meeting>) -> Seq<MeetingView> {
    list.map_values(|m: Meeting| m@)
}

/// No name occurs twice.
pub open spec fn names_distinct(entries: Seq<MeetingView>) -> bool {
    forall|i: int, j: int|
        0 <= i < j < entries.len() ==> (#[trigger] entries[i]).name != (#[trigger] entries[j]).name
}

/// Some entry bears `name`.
pub open spec fn has_name(entries: Seq<MeetingView>, name: Seq<char>) -> bool {
    exists|i: int| 0 <= i < entries.len() && (#[trigger] entries[i]).name == name
}

/// The entries read as a map from names to identifiers; of two entries with
/// one name the later counts.
pub open spec fn mapping(entries: Seq<MeetingView>) -> Map<Seq<char>, Seq<char>>
    decreases entries.len(),
{
    if entries.len() == 0 {
        Map::empty()
    } else {
        mapping(entries.drop_last()).insert(entries.last().name, entries.last().id)
    }
}

/// The identifier that `name` stands for, if it stands for one.
pub open spec fn lookup(entries: Seq<MeetingView>, name: Seq<char>) -> Option<Seq<char>> {
    if mapping(entries).dom().contains(name) {
        Some(mapping(entries)[name])
    } else {
        None
    }
}

/// The entries after `name` has been bound to `id`: an entry of that name is
/// overwritten where it stands, a new name goes to the end.
pub open spec fn with_entry(entries: Seq<MeetingView>, name: Seq<char>, id: Seq<char>) -> Seq<
    MeetingView,
> {
    if has_name(entries, name) {
        entries.map_values(
            |e: MeetingView|
                if e.name == name {
                    MeetingView { name, id }
                } else {
                    e
                },
        )
    } else {
        entries.push(MeetingView { name, id })
    }
}

/// The entries without those named `name`, the others in their old order.
pub open spec fn without(entries: Seq<MeetingView>, name: Seq<char>) -> Seq<MeetingView> {
    entries.filter(|e: MeetingView| e.name != name)
}

/// The registry that results from binding the entries of `list` one after another.
pub open spec fn collected(list: Seq<MeetingView>) -> Seq<MeetingView>
    decreases list.len(),
{
    if list.len() == 0 {
        Seq::empty()
    } else {
        with_entry(collected(list.drop_last()), list.last().name, list.last().id)
    }
}

/// The names of the map read off the entries are the names of the entries.
pub proof fn lemma_mapping_names(entries: Seq<MeetingView>, name: Seq<char>)
    ensures
        mapping(entries).dom().contains(name) <==> has_name(entries, name),
    decreases entries.len(),
{
    if entries.len() > 0 {
        let front = entries.drop_last();
        lemma_mapping_names(front, name);
        if has_name(entries, name) {
            let i = choose|i: int| 0 <= i < entries.len() && (#[trigger] entries[i]).name == name;
            if i < entries.len() - 1 {
                assert(front[i].name == name);
            }
        }
    }
}

/// Where names are distinct, each entry's name stands for that entry's identifier.
pub proof fn lemma_mapping_entry(entries: Seq<MeetingView>, i: int)
    requires
        names_distinct(entries),
        0 <= i < entries.len(),
    ensures
        lookup(entries, entries[i].name) == Some(entries[i].id),
    decreases entries.len(),
{
    if i < entries.len() - 1 {
        lemma_front_distinct(entries);
        lemma_mapping_entry(entries.drop_last(), i);
    }
}

/// A front part of entries with distinct names has distinct names.
pub proof fn lemma_front_distinct(entries: Seq<MeetingView>)
    requires
        names_distinct(entries),
        entries.len() > 0,
    ensures
        names_distinct(entries.drop_last()),
        !has_name(entries.drop_last(), entries.last().name),
{
    let front = entries.drop_last();
    assert forall|a: int| 0 <= a < front.len() implies (#[trigger] front[a]).name
        != entries.last().name by {
        assert(entries[a].name != entries[entries.len() - 1].name);
    }
}

/// Binding a name keeps names distinct.
pub proof fn lemma_with_entry_distinct(entries: Seq<MeetingView>, name: Seq<char>, id: Seq<char>)
    requires
        names_distinct(entries),
    ensures
        names_distinct(with_entry(entries, name, id)),
        with_entry(entries, name, id).len() == entries.len() + if has_name(entries, name) {
            0int
        } else {
            1int
        },
{
}

/// Binding a name is `insert` on the map.
pub proof fn lemma_with_entry_mapping(entries: Seq<MeetingView>, name: Seq<char>, id: Seq<char>)
    ensures
        mapping(with_entry(entries, name, id)) == mapping(entries).insert(name, id),
        lookup(with_entry(entries, name, id), name) == Some(id),
    decreases entries.len(),
{
    let bound = MeetingView { name, id };
    let rebind = |e: MeetingView|
        if e.name == name {
            MeetingView { name, id }
        } else {
            e
        };
    if !has_name(entries, name) {
        assert(entries.push(bound).drop_last() == entries);
    } else {
        let front = entries.drop_last();
        let last = entries.last();
        let after = entries.map_values(rebind);
        assert(after.drop_last() == front.map_values(rebind));
        if has_name(front, name) {
            lemma_with_entry_mapping(front, name, id);
        } else {
            assert(front.map_values(rebind) == front);
            assert(last.name == name) by {
                let i = choose|i: int|
                    0 <= i < entries.len() && (#[trigger] entries[i]).name == name;
                if i < entries.len() - 1 {
                    assert(front[i].name == name);
                }
            }
        }
    }
}

/// Removing a name that no entry bears changes nothing.
pub proof fn lemma_without_absent(entries: Seq<MeetingView>, name: Seq<char>)
    requires
        !has_name(entries, name),
    ensures
        without(entries, name) == entries,
    decreases entries.len(),
{
    reveal(Seq::filter);
    if entries.len() > 0 {
        let front = entries.drop_last();
        assert(!has_name(front, name)) by {
            if has_name(front, name) {
                let i = choose|i: int| 0 <= i < front.len() && (#[trigger] front[i]).name == name;
                assert(entries[i].name == name);
            }
        }
        lemma_without_absent(front, name);
    }
}

/// Where names are distinct, removing a name strikes out the one entry that bears it.
pub proof fn lemma_without_present(entries: Seq<MeetingView>, name: Seq<char>, i: int)
    requires
        names_distinct(entries),
        0 <= i < entries.len(),
        entries[i].name == name,
    ensures
        without(entries, name) == entries.remove(i),
    decreases entries.len(),
{
    reveal(Seq::filter);
    let front = entries.drop_last();
    lemma_front_distinct(entries);
    if i == entries.len() - 1 {
        lemma_without_absent(front, name);
    } else {
        lemma_without_present(front, name, i);
    }
}

/// Removing a name keeps names distinct and never lengthens the registry.
pub proof fn lemma_without_distinct(entries: Seq<MeetingView>, name: Seq<char>)
    requires
        names_distinct(entries),
    ensures
        names_distinct(without(entries, name)),
        !has_name(without(entries, name), name),
        without(entries, name).len() <= entries.len(),
{
    if has_name(entries, name) {
        let i = choose|i: int| 0 <= i < entries.len() && (#[trigger] entries[i]).name == name;
        lemma_without_present(entries, name, i);
    } else {
        lemma_without_absent(entries, name);
    }
}

/// Removing a name is `remove` on the map.
pub proof fn lemma_without_mapping(entries: Seq<MeetingView>, name: Seq<char>)
    ensures
        mapping(without(entries, name)) == mapping(entries).remove(name),
        lookup(without(entries, name), name) is None,
    decreases entries.len(),
{
    reveal(Seq::filter);
    if entries.len() > 0 {
        let front = entries.drop_last();
        let last = entries.last();
        lemma_without_mapping(front, name);
        if last.name != name {
            assert(without(entries, name).drop_last() == without(front, name));
        }
    }
}

/// Binding entries one after another gives distinct names and the map of the list.
pub proof fn lemma_collected(list: Seq<MeetingView>)
    ensures
        names_distinct(collected(list)),
        mapping(collected(list)) == mapping(list),
        collected(list).len() <= list.len(),
    decreases list.len(),
{
    if list.len() > 0 {
        let front = list.drop_last();
        lemma_collected(front);
        lemma_with_entry_distinct(collected(front), list.last().name, list.last().id);
        lemma_with_entry_mapping(collected(front), list.last().name, list.last().id);
    }
}

/// A list whose names are distinct is a registry as it stands.
pub proof fn lemma_collected_distinct(list: Seq<MeetingView>)
    requires
        names_distinct(list),
    ensures
        collected(list) == list,
    decreases list.len(),
{
    if list.len() > 0 {
        let front = list.drop_last();
        lemma_front_distinct(list);
        lemma_collected_distinct(front);
    }
}

/// Where names are distinct, a name stands for an identifier exactly when the
/// two form an entry.
pub proof fn lemma_lookup_is_entry(entries: Seq<MeetingView>, name: Seq<char>, id: Seq<char>)
    requires
        names_distinct(entries),
    ensures
        lookup(entries, name) == Some(id) <==> entries.contains(MeetingView { name, id }),
{
    lemma_mapping_names(entries, name);
    if lookup(entries, name) == Some(id) {
        let i = choose|i: int| 0 <= i < entries.len() && (#[trigger] entries[i]).name == name;
        lemma_mapping_entry(entries, i);
    }
    if entries.contains(MeetingView { name, id }) {
        let i = choose|i: int| 0 <= i < entries.len() && entries[i] == MeetingView { name, id };
        lemma_mapping_entry(entries, i);
    }
}

/// The order of the entries does not matter to the map: two registries with
/// the same set of entries stand for the same map.
pub proof fn lemma_same_entries_same_mapping(a: Seq<MeetingView>, b: Seq<MeetingView>)
    requires
        names_distinct(a),
        names_distinct(b),
        a.to_set() == b.to_set(),
    ensures
        mapping(a) == mapping(b),
{
    assert forall|name: Seq<char>| lookup(a, name) == lookup(b, name) by {
        match lookup(a, name) {
            Some(id) => {
                lemma_lookup_is_entry(a, name, id);
                assert(a.to_set().contains(MeetingView { name, id }));
                lemma_lookup_is_entry(b, name, id);
            },
            None => {
                if let Some(id) = lookup(b, name) {
                    lemma_lookup_is_entry(b, name, id);
                    assert(b.to_set().contains(MeetingView { name, id }));
                    lemma_lookup_is_entry(a, name, id);
                }
            },
        }
    }
    assert forall|name: Seq<char>| mapping(a).dom().contains(name) <==> mapping(b).dom().contains(
        name,
    ) by {
        assert(lookup(a, name) == lookup(b, name));
    }
    assert forall|name: Seq<char>| mapping(a).dom().contains(name) implies mapping(a)[name]
        == mapping(b)[name] by {
        assert(lookup(a, name) == lookup(b, name));
    }
}

/// Where names are distinct, no entry occurs twice.
pub proof fn lemma_no_entry_twice(entries: Seq<MeetingView>)
    requires
        names_distinct(entries),
    ensures
        entries.no_duplicates(),
{
    assert forall|i: int, j: int|
        0 <= i < entries.len() && 0 <= j < entries.len() && i != j implies entries[i]
        != entries[j] by {
        if i < j {
            assert(entries[i].name != entries[j].name);
        } else {
            assert(entries[j].name != entries[i].name);
        }
    }
}

/// What is read back when the entries of a registry were written out in any
/// order, each once, is that registry up to order: the same entries, as many
/// of them, and the same identifier for every name.
pub proof fn lemma_reload_any_order(entries: Seq<MeetingView>, written: Seq<MeetingView>)
    requires
        names_distinct(entries),
        names_distinct(written),
        written.to_set() == entries.to_set(),
    ensures
        collected(written).to_set() == entries.to_set(),
        collected(written).len() == entries.len(),
        mapping(collected(written)) == mapping(entries),
{
    lemma_collected_distinct(written);
    lemma_same_entries_same_mapping(written, entries);
    lemma_no_entry_twice(entries);
    lemma_no_entry_twice(written);
    entries.unique_seq_to_set();
    written.unique_seq_to_set();
}

/// The registry of meetings: names, each bound to one identifier.
pub struct MeetingStore {
    entries: Vec<Meeting>,
}

impl View for MeetingStore {
    type V = Seq<MeetingView>;

    /// The entries in listing order.
    closed spec fn view(&self) -> Seq<MeetingView> {
        views(self.entries@)
    }
}

impl MeetingStore {
    /// What holds of every registry: no name is bound twice.
    #[verifier::type_invariant]
    pub open spec fn distinct(&self) -> bool {
        names_distinct(self@)
    }

    /// The registry without entries.
    pub fn new() -> (store: Self)
        ensures
            store@ == Seq::<MeetingView>::empty(),
    {
        MeetingStore { entries: Vec::new() }
    }

    /// The registry that binds the entries of `list` one after another; of two
    /// entries with one name the later counts.
    pub fn from_meetings(list: Vec<Meeting>) -> (store: Self)
        ensures
            store@ == collected(views(list@)),
            names_distinct(store@),
            mapping(store@) == mapping(views(list@)),
    {
        let ghost all = views(list@);
        let mut store = MeetingStore::new();
        for entry in it: list
            invariant
                views(it.seq()) == all,
                store@ == collected(all.take(it.index())),
        {
            assert(all.take(it.index() + 1).drop_last() == all.take(it.index()));
            store.insert(entry.name, entry.id);
        }
        proof {
            assert(all.take(all.len() as int) == all);
            lemma_collected(all);
        }
        store
    }

    /// The number of entries.
    pub fn len(&self) -> (n: usize)
        ensures
            n == self@.len(),
    {
        self.entries.len()
    }

    /// Where the entry named `name` stands, if there is one.
    fn position(&self, name: &str) -> (at: Option<usize>)
        ensures
            match at {
                Some(i) => i < self@.len() && self@[i as int].name == name@,
                None => !has_name(self@, name@),
            },
    {
        let mut i: usize = 0;
        while i < self.entries.len()
            invariant
                i <= self.entries.len(),
                forall|k: int| 0 <= k < i ==> (#[trigger] self@[k]).name != name@,
            decreases self.entries.len() - i,
        {
            if same_text(self.entries[i].name.as_str(), name) {
                return Some(i);
            }
            i += 1;
        }
        None
    }

    /// Takes the entries out to be changed, and leaves none behind. What is put
    /// back must bear distinct names again.
    fn take_entries(&mut self) -> (entries: Vec<Meeting>)
        ensures
            views(entries@) == old(self)@,
            final(self)@ == Seq::<MeetingView>::empty(),
    {
        let mut entries: Vec<Meeting> = Vec::new();
        core::mem::swap(&mut self.entries, &mut entries);
        entries
    }

    /// Whether `name` is bound.
    pub fn contains(&self, name: &str) -> (found: bool)
        ensures
            found == has_name(self@, name@),
            found == lookup(self@, name@).is_some(),
    {
        proof {
            lemma_mapping_names(self@, name@);
        }
        self.position(name).is_some()
    }

    /// The identifier that `name` stands for.
    pub fn get(&self, name: &str) -> (id: Option<&String>)
        ensures
            match id {
                Some(id) => lookup(self@, name@) == Some(id@),
                None => lookup(self@, name@) is None,
            },
    {
        proof {
            use_type_invariant(self);
            lemma_mapping_names(self@, name@);
        }
        match self.position(name) {
            Some(i) => {
                proof {
                    lemma_mapping_entry(self@, i as int);
                }
                Some(&self.entries[i].id)
            },
            None => None,
        }
    }

    /// Binds `name` to `id` and hands back the identifier it stood for before.
    /// An entry of that name keeps its place; a new name goes to the end.
    pub fn insert(&mut self, name: String, id: String) -> (previous: Option<String>)
        ensures
            final(self)@ == with_entry(old(self)@, name@, id@),
            mapping(final(self)@) == mapping(old(self)@).insert(name@, id@),
            names_distinct(final(self)@),
            match previous {
                Some(p) => lookup(old(self)@, name@) == Some(p@),
                None => lookup(old(self)@, name@) is None,
            },
    {
        proof {
            use_type_invariant(&*self);
            lemma_mapping_names(self@, name@);
            lemma_with_entry_distinct(self@, name@, id@);
            lemma_with_entry_mapping(self@, name@, id@);
        }
        let ghost before = self@;
        let at = self.position(name.as_str());
        let mut entries = self.take_entries();
        let previous = match at {
            Some(i) => {
                proof {
                    lemma_mapping_entry(before, i as int);
                }
                let mut entry = Meeting { name, id };
                core::mem::swap(&mut entries[i], &mut entry);
                proof {
                    let after = with_entry(before, name@, id@);
                    assert forall|k: int| 0 <= k < after.len() implies views(entries@)[k]
                        == after[k] by {
                        if k != i {
                            assert(before[k].name != before[i as int].name);
                        }
                    }
                    assert(views(entries@) == after);
                }
                Some(entry.id)
            },
            None => {
                entries.push(Meeting { name, id });
                assert(views(entries@) == with_entry(before, name@, id@));
                None
            },
        };
        self.entries = entries;
        previous
    }

    /// Unbinds `name` and hands back the identifier it stood for. The other
    /// entries keep their order.
    pub fn remove(&mut self, name: &str) -> (removed: Option<String>)
        ensures
            final(self)@ == without(old(self)@, name@),
            mapping(final(self)@) == mapping(old(self)@).remove(name@),
            names_distinct(final(self)@),
            match removed {
                Some(id) => lookup(old(self)@, name@) == Some(id@),
                None => lookup(old(self)@, name@) is None && final(self)@ == old(self)@,
            },
    {
        proof {
            use_type_invariant(&*self);
            lemma_mapping_names(self@, name@);
            lemma_without_distinct(self@, name@);
            lemma_without_mapping(self@, name@);
        }
        let ghost before = self@;
        match self.position(name) {
            Some(i) => {
                proof {
                    lemma_mapping_entry(before, i as int);
                    lemma_without_present(before, name@, i as int);
                }
                let mut entries = self.take_entries();
                let gone = entries.remove(i);
                assert(views(entries@) == before.remove(i as int));
                self.entries = entries;
                Some(gone.id)
            },
            None => {
                proof {
                    lemma_without_absent(before, name@);
                }
                None
            },
        }
    }

    /// The entries in listing order.
    pub fn meetings(&self) -> (list: Vec<Meeting>)
        ensures
            views(list@) == self@,
            names_distinct(self@),
    {
        proof {
            use_type_invariant(self);
        }
        let mut list: Vec<Meeting> = Vec::new();
        let mut i: usize = 0;
        while i < self.entries.len()
            invariant
                i <= self.entries.len(),
                views(list@) == self@.take(i as int),
            decreases self.entries.len() - i,
        {
            let entry = self.entries[i].clone();
            let ghost copied = views(list@);
            list.push(entry);
            proof {
                assert(views(list@) == copied.push(entry@));
            }
            i += 1;
        }
        list
    }
}

} // verus!
