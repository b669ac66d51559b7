//! The variable table: per function scope, the variables in the order of
//! their first use, and the queue of slots resolved in program order.

use std::collections::VecDeque;
use vstd::prelude::*;
use crate::errors::{ParseError, ParseFault};
use crate::text::same_text;

verus! {

/// The index of a local slot in a frame.
pub type VariableAddress = usize;

/// The slot of `var` among `names`, the variables of one scope in the order
/// of their first use: its position, or the next unused slot for a new name.
pub open spec fn slot_of(names: Seq<Seq<char>>, var: Seq<char>) -> int {
    if names.contains(var) {
        names.index_of(var)
    } else {
        names.len() as int
    }
}

/// What a variable table holds.
pub struct VariablesView {
    /// For each scope that has variables, their names; a variable's slot is
    /// its position.
    pub locals: Map<Seq<char>, Seq<Seq<char>>>,
    /// The slots resolved so far and not yet taken, oldest first.
    pub queue: Seq<VariableAddress>,
}

impl VariablesView {
    /// The variables of scope `func`; none for a scope not seen yet.
    pub open spec fn names_in(self, func: Seq<char>) -> Seq<Seq<char>> {
        if self.locals.contains_key(func) {
            self.locals[func]
        } else {
            Seq::empty()
        }
    }

    /// The table after a reference to `var` in scope `func`: the variable
    /// gets the next slot of its scope unless it has one, and its slot is
    /// appended to the queue.
    pub open spec fn with_local(self, func: Seq<char>, var: Seq<char>) -> VariablesView {
        let names = self.names_in(func);
        VariablesView {
            locals: self.locals.insert(
                func,
                if names.contains(var) {
                    names
                } else {
                    names.push(var)
                },
            ),
            queue: self.queue.push(slot_of(names, var) as VariableAddress),
        }
    }

    /// The table without the oldest slot of its queue.
    pub open spec fn with_front_taken(self) -> VariablesView {
        VariablesView { queue: self.queue.drop_first(), ..self }
    }
}

/// The variables of one scope.
#[derive(Debug)]
struct Scope {
    name: String,
    vars: Vec<String>,
}

/// The characters of each name.
spec fn texts(names: Seq<String>) -> Seq<Seq<char>> {
    Seq::new(names.len(), |i: int| names[i]@)
}

/// Per scope the slots of its variables, and the queue of resolved slots.
#[derive(Debug)]
pub struct Variables {
    scopes: Vec<Scope>,
    queue: VecDeque<VariableAddress>,
}

impl View for Variables {
    type V = VariablesView;

    closed spec fn view(&self) -> VariablesView {
        VariablesView {
            locals: Map::new(
                |k: Seq<char>|
                    exists|i: int| 0 <= i < self.scopes@.len() && self.scopes@[i].name@ == k,
                |k: Seq<char>|
                    texts(
                        self.scopes@[choose|i: int|
                            0 <= i < self.scopes@.len() && self.scopes@[i].name@ == k].vars@,
                    ),
            ),
            queue: self.queue@,
        }
    }
}

/// The position of `name` among `names`.
fn position(names: &Vec<String>, name: &str) -> (r: Option<usize>)
    ensures
        match r {
            Some(i) => i < names@.len() && names@[i as int]@ == name@,
            None => !texts(names@).contains(name@),
        },
{
    let mut i: usize = 0;
    while i < names.len()
        invariant
            i <= names@.len(),
            forall|j: int| 0 <= j < i ==> names@[j]@ != name@,
        decreases names@.len() - i,
    {
        if same_text(names[i].as_str(), name) {
            return Some(i);
        }
        i = i + 1;
    }
    assert forall|j: int| 0 <= j < texts(names@).len() implies texts(names@)[j] != name@ by {
        assert(texts(names@)[j] == names@[j]@);
    }
    None
}

/// The position of the scope named `name`.
fn scope_position(scopes: &Vec<Scope>, name: &str) -> (r: Option<usize>)
    ensures
        match r {
            Some(i) => i < scopes@.len() && scopes@[i as int].name@ == name@,
            None => forall|i: int| 0 <= i < scopes@.len() ==> scopes@[i].name@ != name@,
        },
{
    let mut i: usize = 0;
    while i < scopes.len()
        invariant
            i <= scopes@.len(),
            forall|j: int| 0 <= j < i ==> scopes@[j].name@ != name@,
        decreases scopes@.len() - i,
    {
        if same_text(scopes[i].name.as_str(), name) {
            return Some(i);
        }
        i = i + 1;
    }
    None
}

impl Variables {
    /// No two scopes have the same name, and no scope holds a variable twice.
    #[verifier::type_invariant]
    spec fn names_distinct(self) -> bool {
        &&& forall|i: int, j: int|
            0 <= i < j < self.scopes@.len() ==> self.scopes@[i].name@ != self.scopes@[j].name@
        &&& forall|i: int| 0 <= i < self.scopes@.len() ==> texts(#[trigger] self.scopes@[i].vars@).no_duplicates()
    }

    /// A table with no scope and an empty queue.
    pub fn new() -> (t: Variables)
        ensures
            t@.locals == Map::<Seq<char>, Seq<Seq<char>>>::empty(),
            t@.queue == Seq::<VariableAddress>::empty(),
    {
        let t = Variables { scopes: Vec::new(), queue: VecDeque::new() };
        assert(t@.locals =~= Map::<Seq<char>, Seq<Seq<char>>>::empty());
        t
    }

    /// Records a reference to `var_name` in scope `func_name`: the variable
    /// gets the next slot of its scope unless it has one already, and its
    /// slot is appended to the queue.
    pub fn insert_local(&mut self, func_name: &str, var_name: &str)
        ensures
            final(self)@ == old(self)@.with_local(func_name@, var_name@),
    {
        proof {
            use_type_invariant(&*self);
        }
        let ghost before = self.scopes@;
        let ghost names = old(self)@.names_in(func_name@);
        let mut scopes: Vec<Scope> = Vec::new();
        std::mem::swap(&mut scopes, &mut self.scopes);
        let found = scope_position(&scopes, func_name);
        let si: usize = match found {
            Some(i) => i,
            None => {
                scopes.push(Scope { name: func_name.to_owned(), vars: Vec::new() });
                scopes.len() - 1
            },
        };
        proof {
            assert(texts(scopes@[si as int].vars@) =~= names) by {
                if found is Some {
                    let c = choose|i: int| 0 <= i < before.len() && before[i].name@ == func_name@;
                    assert(c == si);
                } else {
                    assert(!old(self)@.locals.contains_key(func_name@));
                }
            }
        }
        let ghost middle = scopes@;
        let slot: usize = match position(&scopes[si].vars, var_name) {
            Some(j) => {
                proof {
                    assert(names[j as int] == var_name@);
                    assert(names.contains(var_name@));
                    assert(names.no_duplicates());
                }
                j
            },
            None => {
                let mut scope = scopes.remove(si);
                scope.vars.push(var_name.to_owned());
                let at: usize = scope.vars.len() - 1;
                scopes.insert(si, scope);
                proof {
                    assert(texts(scopes@[si as int].vars@) =~= names.push(var_name@));
                    assert(names.push(var_name@).no_duplicates()) by {
                        let p = names.push(var_name@);
                        assert forall|a: int, b: int|
                            0 <= a < p.len() && 0 <= b < p.len() && a != b implies p[a] != p[b] by {
                            if a < names.len() {
                                assert(names.contains(p[a]));
                            }
                            if b < names.len() {
                                assert(names.contains(p[b]));
                            }
                        }
                    }
                }
                at
            },
        };
        proof {
            assert(scopes@.len() == middle.len());
            assert forall|i: int| 0 <= i < scopes@.len() implies #[trigger] scopes@[i].name@
                == middle[i].name@ by {}
            assert forall|i: int| 0 <= i < scopes@.len() && i != si implies #[trigger] scopes@[i]
                == middle[i] by {}
            assert forall|i: int| 0 <= i < scopes@.len() implies texts(
                #[trigger] scopes@[i].vars@,
            ).no_duplicates() by {
                if i != si {
                    assert(scopes@[i] == middle[i]);
                    if i < before.len() {
                        assert(middle[i] == before[i]);
                    }
                }
            }
        }
        self.scopes = scopes;
        let mut queue: VecDeque<VariableAddress> = VecDeque::new();
        std::mem::swap(&mut queue, &mut self.queue);
        queue.push_back(slot);
        self.queue = queue;
        proof {
            let after = self.scopes@;
            let want = old(self)@.with_local(func_name@, var_name@);
            assert(slot == slot_of(names, var_name@));
            assert forall|k: Seq<char>| #[trigger]
                self@.locals.contains_key(k) == want.locals.contains_key(k) by {
                if old(self)@.locals.contains_key(k) {
                    let i = choose|i: int| 0 <= i < before.len() && before[i].name@ == k;
                    assert(after[i].name@ == k);
                }
                if self@.locals.contains_key(k) && k != func_name@ {
                    let i = choose|i: int| 0 <= i < after.len() && after[i].name@ == k;
                    assert(before[i].name@ == k);
                }
                if k == func_name@ {
                    assert(after[si as int].name@ == k);
                }
            }
            assert forall|k: Seq<char>| #[trigger]
                self@.locals.contains_key(k) implies self@.locals[k] == want.locals[k] by {
                let i = choose|i: int| 0 <= i < after.len() && after[i].name@ == k;
                if k != func_name@ {
                    assert(i != si);
                    assert(before[i].name@ == k);
                    let j = choose|j: int| 0 <= j < before.len() && before[j].name@ == k;
                    assert(i == j);
                    assert(after[i] == before[i]);
                } else {
                    assert(i == si);
                }
            }
            assert(self@.locals =~= want.locals);
            assert(self@.queue =~= want.queue);
        }
    }

    /// Takes the oldest resolved slot off the queue.
    pub fn queue_pop_front(&mut self) -> (r: Result<VariableAddress, ParseError>)
        ensures
            old(self)@.queue.len() > 0 ==> r == Ok::<VariableAddress, ParseError>(
                old(self)@.queue[0],
            ) && final(self)@ == old(self)@.with_front_taken(),
            old(self)@.queue.len() == 0 ==> r is Err && r->Err_0@ == ParseFault::VariableNotFound
                && final(self)@ == old(self)@,
    {
        proof {
            use_type_invariant(&*self);
        }
        let mut queue: VecDeque<VariableAddress> = VecDeque::new();
        std::mem::swap(&mut queue, &mut self.queue);
        let front = queue.pop_front();
        self.queue = queue;
        match front {
            Some(slot) => {
                assert(self@.locals =~= old(self)@.locals);
                assert(self@.queue =~= old(self)@.queue.drop_first());
                Ok(slot)
            },
            None => {
                assert(self@.locals =~= old(self)@.locals);
                Err(ParseError::VariableNotFound)
            },
        }
    }
}

/// Whether two lists hold the same names in the same order.
fn same_names(a: &Vec<String>, b: &Vec<String>) -> (r: bool)
    ensures
        r == (texts(a@) == texts(b@)),
{
    if a.len() != b.len() {
        assert(texts(a@).len() != texts(b@).len());
        return false;
    }
    let mut i: usize = 0;
    while i < a.len()
        invariant
            a@.len() == b@.len(),
            i <= a@.len(),
            forall|j: int| 0 <= j < i ==> a@[j]@ == b@[j]@,
        decreases a@.len() - i,
    {
        if !same_text(a[i].as_str(), b[i].as_str()) {
            assert(texts(a@)[i as int] != texts(b@)[i as int]);
            return false;
        }
        i = i + 1;
    }
    assert(texts(a@) =~= texts(b@));
    true
}

/// Whether two queues hold the same slots in the same order.
fn same_queue(a: &VecDeque<VariableAddress>, b: &VecDeque<VariableAddress>) -> (r: bool)
    ensures
        r == (a@ == b@),
{
    if a.len() != b.len() {
        return false;
    }
    let mut i: usize = 0;
    while i < a.len()
        invariant
            a@.len() == b@.len(),
            i <= a@.len(),
            forall|j: int| 0 <= j < i ==> a@[j] == b@[j],
        decreases a@.len() - i,
    {
        if a[i] != b[i] {
            return false;
        }
        i = i + 1;
    }
    assert(a@ =~= b@);
    true
}

impl Variables {
    /// The slot of `var_name` in scope `func_name`, if it has one.
    pub fn slot(&self, func_name: &str, var_name: &str) -> (r: Option<VariableAddress>)
        ensures
            match r {
                Some(slot) => self@.names_in(func_name@).contains(var_name@) && slot == slot_of(
                    self@.names_in(func_name@),
                    var_name@,
                ),
                None => !self@.names_in(func_name@).contains(var_name@),
            },
    {
        proof {
            use_type_invariant(self);
        }
        match scope_position(&self.scopes, func_name) {
            Some(i) => {
                proof {
                    let c = choose|c: int|
                        0 <= c < self.scopes@.len() && self.scopes@[c].name@ == func_name@;
                    assert(c == i);
                }
                let ghost names = texts(self.scopes@[i as int].vars@);
                match position(&self.scopes[i].vars, var_name) {
                    Some(j) => {
                        proof {
                            assert(names[j as int] == var_name@);
                            assert(names.no_duplicates());
                        }
                        Some(j)
                    },
                    None => None,
                }
            },
            None => None,
        }
    }

    /// Whether no scope has a variable yet.
    pub fn has_no_locals(&self) -> (b: bool)
        ensures
            b == (self@.locals == Map::<Seq<char>, Seq<Seq<char>>>::empty()),
    {
        let b = self.scopes.len() == 0;
        proof {
            if b {
                assert(self@.locals =~= Map::<Seq<char>, Seq<Seq<char>>>::empty());
            } else {
                assert(self@.locals.contains_key(self.scopes@[0].name@));
            }
        }
        b
    }

    /// The resolved slots that were not taken yet, oldest first.
    pub fn queue(&self) -> (q: &VecDeque<VariableAddress>)
        ensures
            q@ == self@.queue,
    {
        &self.queue
    }

    /// Whether `other` holds every scope of this table, with the same variables.
    fn included_in(&self, other: &Variables) -> (r: bool)
        ensures
            r == forall|k: Seq<char>| #[trigger]
                self@.locals.contains_key(k) ==> other@.locals.contains_key(k)
                    && other@.locals[k] == self@.locals[k],
    {
        proof {
            use_type_invariant(self);
            use_type_invariant(other);
        }
        let mut i: usize = 0;
        while i < self.scopes.len()
            invariant
                i <= self.scopes@.len(),
                self.names_distinct(),
                other.names_distinct(),
                forall|j: int|
                    0 <= j < i ==> other@.locals.contains_key(#[trigger] self.scopes@[j].name@)
                        && other@.locals[self.scopes@[j].name@] == texts(self.scopes@[j].vars@),
            decreases self.scopes@.len() - i,
        {
            let scope = &self.scopes[i];
            let ghost k = scope.name@;
            proof {
                assert(self@.locals.contains_key(k));
                let j = choose|j: int| 0 <= j < self.scopes@.len() && self.scopes@[j].name@ == k;
                assert(j == i);
            }
            match scope_position(&other.scopes, scope.name.as_str()) {
                Some(o) => {
                    proof {
                        let c = choose|c: int|
                            0 <= c < other.scopes@.len() && other.scopes@[c].name@ == k;
                        assert(c == o);
                    }
                    if !same_names(&other.scopes[o].vars, &scope.vars) {
                        return false;
                    }
                },
                None => {
                    return false;
                },
            }
            i = i + 1;
        }
        proof {
            assert forall|k: Seq<char>| #[trigger]
                self@.locals.contains_key(k) implies other@.locals.contains_key(k)
                && other@.locals[k] == self@.locals[k] by {
                let j = choose|j: int| 0 <= j < self.scopes@.len() && self.scopes@[j].name@ == k;
                assert(other@.locals.contains_key(self.scopes@[j].name@));
            }
        }
        true
    }
}

impl PartialEq for Variables {
    /// Two tables are equal when they hold the same scopes with the same
    /// variables in the same slots, and the same queue.
    fn eq(&self, other: &Variables) -> (r: bool) {
        let r = self.included_in(other) && other.included_in(self) && same_queue(
            &self.queue,
            &other.queue,
        );
        proof {
            if r {
                assert(self@.locals =~= other@.locals);
            }
        }
        r
    }
}

impl vstd::std_specs::cmp::PartialEqSpecImpl for Variables {
    open spec fn obeys_eq_spec() -> bool {
        true
    }

    open spec fn eq_spec(&self, other: &Variables) -> bool {
        self@ == other@
    }
}

} // verus!
