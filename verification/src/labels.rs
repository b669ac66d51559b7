//! The label table: each label's name with the instruction pointer of its
//! marker.

use vstd::prelude::*;
use crate::errors::{ParseError, ParseFault};
use crate::frame::Pointer;
use crate::text::same_text;

verus! {

/// What a label table maps: a name to the pointer of its marker.
pub type LabelMap = Map<Seq<char>, Pointer>;

/// A label name with the pointer of its marker.
pub type Label = (String, Pointer);

/// The table after an attempt to register `name`: a new name is added, a
/// name that is already held changes nothing.
pub open spec fn with_label(table: LabelMap, name: Seq<char>, ip: Pointer) -> LabelMap {
    if table.contains_key(name) {
        table
    } else {
        table.insert(name, ip)
    }
}

/// The table after attempts to register each of `items`, in order.
pub open spec fn with_labels(table: LabelMap, items: Seq<(Seq<char>, Pointer)>) -> LabelMap
    decreases items.len(),
{
    if items.len() == 0 {
        table
    } else {
        with_label(with_labels(table, items.drop_last()), items.last().0, items.last().1)
    }
}

/// The labels of `items`, each as the characters of its name with its pointer.
pub open spec fn label_pairs(items: Seq<Label>) -> Seq<(Seq<char>, Pointer)> {
    Seq::new(items.len(), |i: int| (items[i].0@, items[i].1))
}

/// The table that holds each of `items`, or the fault at the first name
/// that occurs a second time.
pub open spec fn labels_of(items: Seq<(Seq<char>, Pointer)>) -> Result<LabelMap, ParseFault>
    decreases items.len(),
{
    if items.len() == 0 {
        Ok(Map::empty())
    } else {
        match labels_of(items.drop_last()) {
            Err(fault) => Err(fault),
            Ok(table) => {
                if table.contains_key(items.last().0) {
                    Err(ParseFault::DuplicatedLabel(items.last().0))
                } else {
                    Ok(table.insert(items.last().0, items.last().1))
                }
            },
        }
    }
}

/// Attempts to register never remove a name.
pub proof fn lemma_labels_keep_names(
    table: LabelMap,
    items: Seq<(Seq<char>, Pointer)>,
    name: Seq<char>,
)
    requires
        table.contains_key(name),
    ensures
        with_labels(table, items).contains_key(name),
        with_labels(table, items)[name] == table[name],
    decreases items.len(),
{
    if items.len() > 0 {
        lemma_labels_keep_names(table, items.drop_last(), name);
    }
}

/// Once a label name was registered, registering it again fails and changes
/// nothing, whatever was registered in between.
pub proof fn lemma_label_inserted_twice_fails(
    table: LabelMap,
    name: Seq<char>,
    first: Pointer,
    between: Seq<(Seq<char>, Pointer)>,
    second: Pointer,
)
    ensures
        ({
            let later = with_labels(with_label(table, name, first), between);
            later.contains_key(name) && with_label(later, name, second) == later
        }),
{
    lemma_labels_keep_names(with_label(table, name, first), between, name);
}

/// A fault among the first `k` of `items` is the fault of all of them.
pub proof fn lemma_labels_of_fault(items: Seq<(Seq<char>, Pointer)>, k: int)
    requires
        0 <= k <= items.len(),
        labels_of(items.take(k)) is Err,
    ensures
        labels_of(items) == labels_of(items.take(k)),
    decreases items.len() - k,
{
    if k == items.len() {
        assert(items.take(k) == items);
    } else {
        assert(items.take(k + 1).drop_last() == items.take(k));
        lemma_labels_of_fault(items, k + 1);
    }
}

/// One declared label.
#[derive(Debug)]
struct LabelEntry {
    name: String,
    ip: Pointer,
}

/// Maps a label name to the pointer of its marker. A name is held at most once.
#[derive(Debug)]
pub struct Labels {
    entries: Vec<LabelEntry>,
}

impl View for Labels {
    type V = Map<Seq<char>, Pointer>;

    closed spec fn view(&self) -> Map<Seq<char>, Pointer> {
        Map::new(
            |k: Seq<char>| exists|i: int| 0 <= i < self.entries@.len() && self.entries@[i].name@ == k,
            |k: Seq<char>|
                self.entries@[choose|i: int|
                    0 <= i < self.entries@.len() && self.entries@[i].name@ == k].ip,
        )
    }
}

impl Labels {
    /// No two entries have the same name.
    #[verifier::type_invariant]
    spec fn names_distinct(self) -> bool {
        forall|i: int, j: int|
            0 <= i < j < self.entries@.len() ==> self.entries@[i].name@ != self.entries@[j].name@
    }

    /// An empty table.
    pub fn new() -> (t: Labels)
        ensures
            t@ == Map::<Seq<char>, Pointer>::empty(),
    {
        let t = Labels { entries: Vec::new() };
        assert(t@ =~= Map::<Seq<char>, Pointer>::empty());
        t
    }

    /// The position of the entry named `name`.
    fn find(&self, name: &str) -> (r: Option<usize>)
        ensures
            match r {
                Some(i) => i < self.entries@.len() && self.entries@[i as int].name@ == name@,
                None => forall|i: int|
                    0 <= i < self.entries@.len() ==> self.entries@[i].name@ != name@,
            },
    {
        let mut i: usize = 0;
        while i < self.entries.len()
            invariant
                i <= self.entries@.len(),
                forall|j: int| 0 <= j < i ==> self.entries@[j].name@ != name@,
            decreases self.entries@.len() - i,
        {
            if same_text(self.entries[i].name.as_str(), name) {
                return Some(i);
            }
            i = i + 1;
        }
        None
    }

    /// Registers `label_name` with the pointer of its marker. A name that the
    /// table already holds is refused, and the table stays as it was.
    pub fn insert(&mut self, label_name: String, ip: Pointer) -> (r: Result<(), ParseError>)
        ensures
            final(self)@ == with_label(old(self)@, label_name@, ip),
            r is Ok <==> !old(self)@.contains_key(label_name@),
            r is Err ==> r->Err_0@ == ParseFault::DuplicatedLabel(label_name@),
    {
        proof {
            use_type_invariant(&*self);
        }
        match self.find(label_name.as_str()) {
            Some(_) => Err(ParseError::DuplicatedLabel(label_name)),
            None => {
                let ghost before = self.entries@;
                let ghost key = label_name@;
                let mut entries: Vec<LabelEntry> = Vec::new();
                std::mem::swap(&mut entries, &mut self.entries);
                entries.push(LabelEntry { name: label_name, ip });
                self.entries = entries;
                proof {
                    let after = self.entries@;
                    assert(after.last().name@ == key);
                    assert forall|k: Seq<char>| #[trigger]
                        self@.contains_key(k) == old(self)@.insert(key, ip).contains_key(k) by {
                        if old(self)@.contains_key(k) {
                            let i = choose|i: int| 0 <= i < before.len() && before[i].name@ == k;
                            assert(after[i].name@ == k);
                        }
                        if self@.contains_key(k) && k != key {
                            let i = choose|i: int| 0 <= i < after.len() && after[i].name@ == k;
                            assert(before[i].name@ == k);
                        }
                        if k == key {
                            assert(after[after.len() - 1].name@ == k);
                        }
                    }
                    assert forall|k: Seq<char>| #[trigger] self@.contains_key(k) implies self@[k]
                        == old(self)@.insert(key, ip)[k] by {
                        let i = choose|i: int| 0 <= i < after.len() && after[i].name@ == k;
                        if k != key {
                            assert(before[i].name@ == k);
                            let j = choose|j: int| 0 <= j < before.len() && before[j].name@ == k;
                            assert(i == j);
                        } else {
                            assert(i == after.len() - 1);
                        }
                    }
                    assert(self@ =~= old(self)@.insert(key, ip));
                }
                Ok(())
            },
        }
    }

    /// The table that holds each label of `iter`. A name that occurs a second
    /// time is a fault.
    pub fn from_iter(iter: Vec<Label>) -> (r: Result<Labels, ParseError>)
        ensures
            match labels_of(label_pairs(iter@)) {
                Ok(table) => r is Ok && r->Ok_0@ == table,
                Err(fault) => r is Err && r->Err_0@ == fault,
            },
    {
        let ghost items = label_pairs(iter@);
        let mut labels = Labels::new();
        let mut i: usize = 0;
        assert(items.take(0) =~= Seq::<(Seq<char>, Pointer)>::empty());
        while i < iter.len()
            invariant
                items == label_pairs(iter@),
                i <= iter@.len(),
                labels_of(items.take(i as int)) == Ok::<LabelMap, ParseFault>(labels@),
            decreases iter@.len() - i,
        {
            proof {
                let p = items.take(i + 1);
                assert(p.drop_last() == items.take(i as int));
                assert(p.last() == (iter@[i as int].0@, iter@[i as int].1));
            }
            match labels.insert(iter[i].0.clone(), iter[i].1) {
                Ok(()) => {},
                Err(e) => {
                    proof {
                        lemma_labels_of_fault(items, i + 1);
                    }
                    return Err(e);
                },
            }
            i = i + 1;
        }
        assert(items.take(iter@.len() as int) == items);
        Ok(labels)
    }

    /// Whether the table holds no name.
    pub fn is_empty(&self) -> (b: bool)
        ensures
            b == (self@ == Map::<Seq<char>, Pointer>::empty()),
    {
        let b = self.entries.len() == 0;
        proof {
            if b {
                assert(self@ =~= Map::<Seq<char>, Pointer>::empty());
            } else {
                assert(self@.contains_key(self.entries@[0].name@));
            }
        }
        b
    }

    /// Whether the table holds `label_name`.
    pub fn contains_key(&self, label_name: &str) -> (b: bool)
        ensures
            b == self@.contains_key(label_name@),
    {
        self.find(label_name).is_some()
    }

    /// The pointer registered for `label_name`.
    pub fn get(&self, label_name: &str) -> (r: Result<&Pointer, ParseError>)
        ensures
            self@.contains_key(label_name@) ==> r == Ok::<&Pointer, ParseError>(
                &self@[label_name@],
            ),
            !self@.contains_key(label_name@) ==> r is Err && r->Err_0@ == ParseFault::LabelNotFound(
                label_name@,
            ),
    {
        proof {
            use_type_invariant(self);
        }
        match self.find(label_name) {
            Some(i) => {
                proof {
                    let j = choose|j: int|
                        0 <= j < self.entries@.len() && self.entries@[j].name@ == label_name@;
                    assert(j == i);
                }
                Ok(&self.entries[i].ip)
            },
            None => Err(ParseError::LabelNotFound(label_name.to_owned())),
        }
    }

    /// Whether `other` holds every name of this table, with the same pointer.
    fn included_in(&self, other: &Labels) -> (r: bool)
        ensures
            r == forall|k: Seq<char>| #[trigger]
                self@.contains_key(k) ==> other@.contains_key(k) && other@[k] == self@[k],
    {
        proof {
            use_type_invariant(self);
        }
        let mut i: usize = 0;
        while i < self.entries.len()
            invariant
                i <= self.entries@.len(),
                self.names_distinct(),
                forall|j: int|
                    0 <= j < i ==> other@.contains_key(#[trigger] self.entries@[j].name@)
                        && other@[self.entries@[j].name@] == self.entries@[j].ip,
            decreases self.entries@.len() - i,
        {
            let entry = &self.entries[i];
            let ghost k = entry.name@;
            proof {
                assert(self@.contains_key(k));
                let j = choose|j: int| 0 <= j < self.entries@.len() && self.entries@[j].name@ == k;
                assert(j == i);
            }
            match other.get(entry.name.as_str()) {
                Ok(ip) => {
                    if *ip != entry.ip {
                        return false;
                    }
                },
                Err(_) => {
                    return false;
                },
            }
            i = i + 1;
        }
        proof {
            assert forall|k: Seq<char>| #[trigger] self@.contains_key(k) implies other@.contains_key(
                k,
            ) && other@[k] == self@[k] by {
                let j = choose|j: int| 0 <= j < self.entries@.len() && self.entries@[j].name@ == k;
                assert(other@.contains_key(self.entries@[j].name@));
            }
        }
        true
    }
}

impl PartialEq for Labels {
    /// Two tables are equal when they hold the same names with the same pointer.
    fn eq(&self, other: &Labels) -> (r: bool) {
        let r = self.included_in(other) && other.included_in(self);
        proof {
            if r {
                assert(self@ =~= other@);
            }
        }
        r
    }
}

impl vstd::std_specs::cmp::PartialEqSpecImpl for Labels {
    open spec fn obeys_eq_spec() -> bool {
        true
    }

    open spec fn eq_spec(&self, other: &Labels) -> bool {
        self@ == other@
    }
}

} // verus!
