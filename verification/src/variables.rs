//! The global variable table: one flat scope of names and values.

use vstd::prelude::*;
use crate::parser::{LiteralVariable, Value};
use crate::text::same_text;

verus! {

/// A name and the value bound to it.
#[derive(Debug)]
pub struct Binding {
    pub name: String,
    pub value: LiteralVariable,
}

/// The bindings, in the order in which the names were first defined. No
/// name stands in it twice.
#[derive(Debug)]
pub struct Variables {
    pub bindings: Vec<Binding>,
}

/// Whether `name` is bound at index `i`.
pub open spec fn bound_at(bindings: Seq<Binding>, name: Seq<char>, i: int) -> bool {
    0 <= i < bindings.len() && bindings[i].name@ == name
}

impl View for Variables {
    type V = Map<Seq<char>, Value>;

    open spec fn view(&self) -> Map<Seq<char>, Value> {
        Map::new(
            |name: Seq<char>| exists|i: int| bound_at(self.bindings@, name, i),
            |name: Seq<char>| self.bindings@[choose|i: int| bound_at(self.bindings@, name, i)].value@,
        )
    }
}

impl Variables {
    /// No name is bound twice.
    pub open spec fn wf(&self) -> bool {
        forall|i: int, j: int|
            0 <= i < self.bindings@.len() && 0 <= j < self.bindings@.len()
                && #[trigger] self.bindings@[i].name@ == #[trigger] self.bindings@[j].name@ ==> i
                == j
    }

    /// The table without any binding.
    pub fn new() -> (table: Self)
        ensures
            table.wf(),
            table@ == Map::<Seq<char>, Value>::empty(),
    {
        let table = Variables { bindings: Vec::new() };
        assert(table@ =~= Map::<Seq<char>, Value>::empty());
        table
    }

    /// The index at which `name` is bound, if it is.
    fn find(&self, name: &str) -> (found: Option<usize>)
        ensures
            match found {
                Some(i) => bound_at(self.bindings@, name@, i as int),
                None => forall|i: int| !bound_at(self.bindings@, name@, i),
            },
    {
        let mut i: usize = 0;
        while i < self.bindings.len()
            invariant
                i <= self.bindings@.len(),
                forall|k: int| 0 <= k < i ==> !bound_at(self.bindings@, name@, k),
            decreases self.bindings@.len() - i,
        {
            if same_text(self.bindings[i].name.as_str(), name) {
                return Some(i);
            }
            i += 1;
        }
        None
    }

    /// The value bound to `name`, if there is one.
    pub fn get(&self, name: &str) -> (value: Option<LiteralVariable>)
        requires
            self.wf(),
        ensures
            match value {
                Some(found) => self@.contains_key(name@) && found@ == self@[name@],
                None => !self@.contains_key(name@),
            },
    {
        match self.find(name) {
            Some(i) => {
                proof {
                    let chosen = choose|k: int| bound_at(self.bindings@, name@, k);
                    assert(bound_at(self.bindings@, name@, i as int));
                    assert(chosen == i);
                }
                Some(self.bindings[i].value.duplicate())
            },
            None => None,
        }
    }

    /// Binds `name` to `value`. Where the name was bound already, the new
    /// value takes the place of the old one.
    pub fn define(&mut self, name: String, value: LiteralVariable)
        requires
            old(self).wf(),
        ensures
            final(self).wf(),
            final(self)@ == old(self)@.insert(name@, value@),
    {
        let ghost before = self.bindings@;
        let ghost key = name@;
        let ghost bound = value@;
        match self.find(name.as_str()) {
            Some(i) => {
                self.bindings.set(i, Binding { name, value });
                proof {
                    let after = self.bindings@;
                    assert forall|k: int| 0 <= k < after.len() implies #[trigger] after[k].name@
                        == before[k].name@ by {}
                    assert forall|other: Seq<char>, k: int|
                        bound_at(after, other, k) == bound_at(before, other, k) by {}
                    assert forall|other: Seq<char>| #[trigger]
                        self@.contains_key(other) implies self@[other] == old(self)@.insert(
                        key,
                        bound,
                    )[other] by {
                        let chosen = choose|k: int| bound_at(after, other, k);
                        let earlier = choose|k: int| bound_at(before, other, k);
                        assert(bound_at(before, other, chosen));
                        assert(bound_at(before, other, earlier));
                        assert(before[chosen].name@ == before[earlier].name@);
                        assert(chosen == earlier);
                        if other == key {
                            assert(before[chosen].name@ == before[i as int].name@);
                            assert(chosen == i);
                        }
                    }
                    assert(bound_at(before, key, i as int));
                    assert(self@ =~= old(self)@.insert(key, bound));
                    assert forall|a: int, b: int|
                        0 <= a < after.len() && 0 <= b < after.len() && #[trigger] after[a].name@
                            == #[trigger] after[b].name@ implies a == b by {
                        assert(before[a].name@ == before[b].name@);
                    }
                }
            },
            None => {
                self.bindings.push(Binding { name, value });
                proof {
                    let after = self.bindings@;
                    let last = before.len() as int;
                    assert(bound_at(after, key, last));
                    assert forall|other: Seq<char>, k: int|
                        bound_at(after, other, k) == (bound_at(before, other, k) || (k == last
                            && other == key)) by {}
                    assert forall|other: Seq<char>| #[trigger]
                        self@.contains_key(other) implies self@[other] == old(self)@.insert(
                        key,
                        bound,
                    )[other] by {
                        let chosen = choose|k: int| bound_at(after, other, k);
                        assert(bound_at(after, other, chosen));
                        if other == key {
                            assert(chosen == last);
                        } else {
                            let earlier = choose|k: int| bound_at(before, other, k);
                            assert(bound_at(before, other, chosen));
                            assert(bound_at(before, other, earlier));
                            assert(before[chosen].name@ == before[earlier].name@);
                            assert(chosen == earlier);
                        }
                    }
                    assert(self@ =~= old(self)@.insert(key, bound));
                    assert forall|a: int, b: int|
                        0 <= a < after.len() && 0 <= b < after.len() && #[trigger] after[a].name@
                            == #[trigger] after[b].name@ implies a == b by {
                        if a == last && b != last {
                            assert(bound_at(before, key, b));
                        }
                        if b == last && a != last {
                            assert(bound_at(before, key, a));
                        }
                        if a != last && b != last {
                            assert(before[a].name@ == before[b].name@);
                        }
                    }
                }
            },
        }
    }
}

} // verus!
