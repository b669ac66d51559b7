//! The function table: each declared function's name with the instruction
//! pointers of its declaration and of its return marker.

use vstd::prelude::*;
use crate::errors::{ParseError, ParseFault};
use crate::frame::Pointer;
use crate::text::same_text;

verus! {

/// What a function table maps: a name to the pointers of the declaration
/// and of the return marker.
pub type FunctionMap = Map<Seq<char>, (Pointer, Pointer)>;

/// The table after an attempt to register `name`: a new name is added, a
/// name that is already held changes nothing.
pub open spec fn with_function(table: FunctionMap, name: Seq<char>, span: (Pointer, Pointer))
    -> FunctionMap {
    if table.contains_key(name) {
        table
    } else {
        table.insert(name, span)
    }
}

/// The table after attempts to register each of `items`, in order.
pub open spec fn with_functions(table: FunctionMap, items: Seq<(Seq<char>, (Pointer, Pointer))>)
    -> FunctionMap
    decreases items.len(),
{
    if items.len() == 0 {
        table
    } else {
        with_function(with_functions(table, items.drop_last()), items.last().0, items.last().1)
    }
}

/// Attempts to register never remove a name.
pub proof fn lemma_functions_keep_names(
    table: FunctionMap,
    items: Seq<(Seq<char>, (Pointer, Pointer))>,
    name: Seq<char>,
)
    requires
        table.contains_key(name),
    ensures
        with_functions(table, items).contains_key(name),
        with_functions(table, items)[name] == table[name],
    decreases items.len(),
{
    if items.len() > 0 {
        lemma_functions_keep_names(table, items.drop_last(), name);
    }
}

/// Once a function name was registered, registering it again fails and
/// changes nothing, whatever was registered in between.
pub proof fn lemma_function_inserted_twice_fails(
    table: FunctionMap,
    name: Seq<char>,
    first: (Pointer, Pointer),
    between: Seq<(Seq<char>, (Pointer, Pointer))>,
    second: (Pointer, Pointer),
)
    ensures
        ({
            let later = with_functions(with_function(table, name, first), between);
            later.contains_key(name) && with_function(later, name, second) == later
        }),
{
    lemma_functions_keep_names(with_function(table, name, first), between, name);
}

/// One declared function.
#[derive(Debug)]
struct FunctionEntry {
    name: String,
    span: (Pointer, Pointer),
}

/// Maps a function name to the pointers of its declaration and its return
/// marker. A name is held at most once.
#[derive(Debug)]
pub struct Functions {
    entries: Vec<FunctionEntry>,
}

impl View for Functions {
    type V = Map<Seq<char>, (Pointer, Pointer)>;

    closed spec fn view(&self) -> Map<Seq<char>, (Pointer, Pointer)> {
        Map::new(
            |k: Seq<char>| exists|i: int| 0 <= i < self.entries@.len() && self.entries@[i].name@ == k,
            |k: Seq<char>|
                self.entries@[choose|i: int|
                    0 <= i < self.entries@.len() && self.entries@[i].name@ == k].span,
        )
    }
}

impl Functions {
    /// No two entries have the same name.
    #[verifier::type_invariant]
    spec fn names_distinct(self) -> bool {
        forall|i: int, j: int|
            0 <= i < j < self.entries@.len() ==> self.entries@[i].name@ != self.entries@[j].name@
    }

    /// An empty table.
    pub fn new() -> (t: Functions)
        ensures
            t@ == Map::<Seq<char>, (Pointer, Pointer)>::empty(),
    {
        let t = Functions { entries: Vec::new() };
        assert(t@ =~= Map::<Seq<char>, (Pointer, Pointer)>::empty());
        t
    }

    /// The position of the entry named `name`.
    fn find(&self, name: &str) -> (r: Option<usize>)
        ensures
            match r {
                Some(i) => i < self.entries@.len() && self.entries@[i as int].name@ == name@,
                None => forall|i: int|
                    0 <= i < self.entries@.len() ==> self.entries@[i].name@ != name@,
            },
    {
        let mut i: usize = 0;
        while i < self.entries.len()
            invariant
                i <= self.entries@.len(),
                forall|j: int| 0 <= j < i ==> self.entries@[j].name@ != name@,
            decreases self.entries@.len() - i,
        {
            if same_text(self.entries[i].name.as_str(), name) {
                return Some(i);
            }
            i = i + 1;
        }
        None
    }

    /// Registers `func_name` with its two pointers. A name that the table
    /// already holds is refused, and the table stays as it was.
    pub fn insert(&mut self, func_name: &str, span: (Pointer, Pointer)) -> (r: Result<
        (),
        ParseError,
    >)
        ensures
            final(self)@ == with_function(old(self)@, func_name@, span),
            r is Ok <==> !old(self)@.contains_key(func_name@),
            r is Err ==> r->Err_0@ == ParseFault::DuplicatedFunction(func_name@),
    {
        proof {
            use_type_invariant(&*self);
        }
        match self.find(func_name) {
            Some(_) => Err(ParseError::DuplicatedFunction(func_name.to_owned())),
            None => {
                let ghost before = self.entries@;
                let mut entries: Vec<FunctionEntry> = Vec::new();
                std::mem::swap(&mut entries, &mut self.entries);
                entries.push(FunctionEntry { name: func_name.to_owned(), span });
                self.entries = entries;
                proof {
                    let after = self.entries@;
                    assert(after.last().name@ == func_name@);
                    assert forall|k: Seq<char>| #[trigger]
                        self@.contains_key(k) == old(self)@.insert(func_name@, span).contains_key(
                            k,
                        ) by {
                        if old(self)@.contains_key(k) {
                            let i = choose|i: int| 0 <= i < before.len() && before[i].name@ == k;
                            assert(after[i].name@ == k);
                        }
                        if self@.contains_key(k) && k != func_name@ {
                            let i = choose|i: int| 0 <= i < after.len() && after[i].name@ == k;
                            assert(before[i].name@ == k);
                        }
                        if k == func_name@ {
                            assert(after[after.len() - 1].name@ == k);
                        }
                    }
                    assert forall|k: Seq<char>| #[trigger] self@.contains_key(k) implies self@[k]
                        == old(self)@.insert(func_name@, span)[k] by {
                        let i = choose|i: int| 0 <= i < after.len() && after[i].name@ == k;
                        if k != func_name@ {
                            assert(before[i].name@ == k);
                            let j = choose|j: int| 0 <= j < before.len() && before[j].name@ == k;
                            assert(i == j);
                        } else {
                            assert(i == after.len() - 1);
                        }
                    }
                    assert(self@ =~= old(self)@.insert(func_name@, span));
                }
                Ok(())
            },
        }
    }

    /// Whether the table holds no name.
    pub fn is_empty(&self) -> (b: bool)
        ensures
            b == (self@ == Map::<Seq<char>, (Pointer, Pointer)>::empty()),
    {
        let b = self.entries.len() == 0;
        proof {
            if b {
                assert(self@ =~= Map::<Seq<char>, (Pointer, Pointer)>::empty());
            } else {
                assert(self@.contains_key(self.entries@[0].name@));
            }
        }
        b
    }

    /// Whether the table holds `func_name`.
    pub fn contains_key(&self, func_name: &str) -> (b: bool)
        ensures
            b == self@.contains_key(func_name@),
    {
        self.find(func_name).is_some()
    }

    /// The two pointers registered for `func_name`.
    pub fn get(&self, func_name: &str) -> (r: Result<&(Pointer, Pointer), ParseError>)
        ensures
            self@.contains_key(func_name@) ==> r == Ok::<&(Pointer, Pointer), ParseError>(
                &self@[func_name@],
            ),
            !self@.contains_key(func_name@) ==> r is Err && r->Err_0@
                == ParseFault::FunctionNotFound(func_name@),
    {
        proof {
            use_type_invariant(self);
        }
        match self.find(func_name) {
            Some(i) => {
                proof {
                    let j = choose|j: int|
                        0 <= j < self.entries@.len() && self.entries@[j].name@ == func_name@;
                    assert(j == i);
                }
                Ok(&self.entries[i].span)
            },
            None => Err(ParseError::FunctionNotFound(func_name.to_owned())),
        }
    }
}

impl Functions {
    /// Whether `other` holds every name of this table, with the same pointers.
    fn included_in(&self, other: &Functions) -> (r: bool)
        ensures
            r == forall|k: Seq<char>| #[trigger]
                self@.contains_key(k) ==> other@.contains_key(k) && other@[k] == self@[k],
    {
        proof {
            use_type_invariant(self);
        }
        let mut i: usize = 0;
        while i < self.entries.len()
            invariant
                i <= self.entries@.len(),
                self.names_distinct(),
                forall|j: int|
                    0 <= j < i ==> other@.contains_key(#[trigger] self.entries@[j].name@)
                        && other@[self.entries@[j].name@] == self.entries@[j].span,
            decreases self.entries@.len() - i,
        {
            let entry = &self.entries[i];
            let ghost k = entry.name@;
            proof {
                assert(self@.contains_key(k));
                let j = choose|j: int| 0 <= j < self.entries@.len() && self.entries@[j].name@ == k;
                assert(j == i);
            }
            match other.get(entry.name.as_str()) {
                Ok(span) => {
                    if span.0 != entry.span.0 || span.1 != entry.span.1 {
                        return false;
                    }
                },
                Err(_) => {
                    return false;
                },
            }
            i = i + 1;
        }
        proof {
            assert forall|k: Seq<char>| #[trigger] self@.contains_key(k) implies other@.contains_key(
                k,
            ) && other@[k] == self@[k] by {
                let j = choose|j: int| 0 <= j < self.entries@.len() && self.entries@[j].name@ == k;
                assert(other@.contains_key(self.entries@[j].name@));
            }
        }
        true
    }
}

impl PartialEq for Functions {
    /// Two tables are equal when they hold the same names with the same pointers.
    fn eq(&self, other: &Functions) -> (r: bool) {
        let r = self.included_in(other) && other.included_in(self);
        proof {
            if r {
                assert(self@ =~= other@);
            }
        }
        r
    }
}

impl vstd::std_specs::cmp::PartialEqSpecImpl for Functions {
    open spec fn obeys_eq_spec() -> bool {
        true
    }

    open spec fn eq_spec(&self, other: &Functions) -> bool {
        self@ == other@
    }
}

} // verus!
