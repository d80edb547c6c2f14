//! An ordered set of names: every name at most once, in the order in which
//! the names were added.

use vstd::prelude::*;
use crate::words::{find_word, lemma_position, position};

verus! {

/// `names` with `name` added at the end, unless it is there already.
pub open spec fn with_name(names: Seq<Seq<char>>, name: Seq<char>) -> Seq<Seq<char>> {
    if names.contains(name) {
        names
    } else {
        names.push(name)
    }
}

/// `names` without `name`; the other names keep their order.
pub open spec fn without_name(names: Seq<Seq<char>>, name: Seq<char>) -> Seq<Seq<char>> {
    if names.contains(name) {
        names.remove(position(names, name))
    } else {
        names
    }
}

/// Adding a name keeps every name unique and makes the name a member.
pub proof fn lemma_with_name(names: Seq<Seq<char>>, name: Seq<char>)
    requires
        names.no_duplicates(),
    ensures
        with_name(names, name).no_duplicates(),
        with_name(names, name).contains(name),
        forall|other: Seq<char>|
            other != name ==> (#[trigger] with_name(names, name).contains(other)
                <==> names.contains(other)),
{
    let after = with_name(names, name);
    if names.contains(name) {
    } else {
        assert(after[names.len() as int] == name);
        assert forall|other: Seq<char>| other != name implies (#[trigger] after.contains(other)
            <==> names.contains(other)) by {
            if names.contains(other) {
                let i = choose|i: int| 0 <= i < names.len() && names[i] == other;
                assert(after[i] == other);
            }
        }
    }
}

/// Removing a name keeps every name unique and leaves exactly the others.
pub proof fn lemma_without_name(names: Seq<Seq<char>>, name: Seq<char>)
    requires
        names.no_duplicates(),
    ensures
        without_name(names, name).no_duplicates(),
        !without_name(names, name).contains(name),
        forall|other: Seq<char>|
            other != name ==> (#[trigger] without_name(names, name).contains(other)
                <==> names.contains(other)),
{
    let after = without_name(names, name);
    lemma_position(names, name);
    if names.contains(name) {
        let p = position(names, name);
        assert forall|i: int, j: int| 0 <= i < after.len() && 0 <= j < after.len() && i != j
            implies after[i] != after[j] by {
            let a = if i < p { i } else { i + 1 };
            let b = if j < p { j } else { j + 1 };
            assert(after[i] == names[a] && after[j] == names[b]);
        }
        assert forall|i: int| 0 <= i < after.len() implies after[i] != name by {
            let a = if i < p { i } else { i + 1 };
            assert(after[i] == names[a]);
        }
        assert forall|other: Seq<char>| other != name implies (#[trigger] after.contains(other)
            <==> names.contains(other)) by {
            if names.contains(other) {
                let i = choose|i: int| 0 <= i < names.len() && names[i] == other;
                let a = if i < p { i } else { i - 1 };
                assert(after[a] == other);
            }
            if after.contains(other) {
                let i = choose|i: int| 0 <= i < after.len() && after[i] == other;
                let a = if i < p { i } else { i + 1 };
                assert(names[a] == other);
            }
        }
    }
}

/// A set of names that remembers the order in which they came.
#[derive(Debug)]
pub struct NameSet {
    names: Vec<String>,
}

impl View for NameSet {
    type V = Seq<Seq<char>>;

    closed spec fn view(&self) -> Seq<Seq<char>> {
        self.names.deep_view()
    }
}

impl NameSet {
    /// No name occurs twice.
    pub open spec fn wf(&self) -> bool {
        self@.no_duplicates()
    }

    /// The set without any name.
    pub fn new() -> (out: NameSet)
        ensures
            out@ == Seq::<Seq<char>>::empty(),
            out.wf(),
    {
        let out = NameSet { names: Vec::new() };
        assert(out.names.deep_view() == Seq::<Seq<char>>::empty());
        out
    }

    /// The number of names.
    pub fn len(&self) -> (n: usize)
        ensures
            n == self@.len(),
    {
        self.names.len()
    }

    /// The name at place `i`.
    pub fn get(&self, i: usize) -> (name: &String)
        requires
            i < self@.len(),
        ensures
            name@ == self@[i as int],
    {
        &self.names[i]
    }

    /// The place of `name`, or the number of names where it is no member.
    pub fn find(&self, name: &str) -> (at: usize)
        ensures
            at == position(self@, name@),
            at <= self@.len(),
            at < self@.len() <==> self@.contains(name@),
    {
        proof {
            lemma_position(self@, name@);
        }
        find_word(&self.names, name)
    }

    /// Whether `name` is a member.
    pub fn contains(&self, name: &str) -> (b: bool)
        ensures
            b == self@.contains(name@),
    {
        self.find(name) < self.names.len()
    }

    /// Adds `name` unless it is a member already; says whether it was added.
    pub fn insert(&mut self, name: String) -> (added: bool)
        requires
            old(self).wf(),
        ensures
            final(self).wf(),
            added == !old(self)@.contains(name@),
            final(self)@ == with_name(old(self)@, name@),
    {
        proof {
            lemma_with_name(self@, name@);
        }
        if self.contains(name.as_str()) {
            false
        } else {
            let ghost before = self.names.deep_view();
            self.names.push(name);
            assert(self.names.deep_view() == before.push(name@));
            true
        }
    }

    /// Removes `name` if it is a member; says whether it was.
    pub fn remove(&mut self, name: &str) -> (removed: bool)
        requires
            old(self).wf(),
        ensures
            final(self).wf(),
            removed == old(self)@.contains(name@),
            final(self)@ == without_name(old(self)@, name@),
    {
        proof {
            lemma_without_name(self@, name@);
        }
        let at = self.find(name);
        if at < self.names.len() {
            let ghost before = self.names.deep_view();
            self.names.remove(at);
            assert(self.names.deep_view() == before.remove(at as int));
            true
        } else {
            false
        }
    }

    /// A copy of the names, in order.
    pub fn snapshot(&self) -> (out: Vec<String>)
        ensures
            out.deep_view() == self@,
    {
        let mut out: Vec<String> = Vec::new();
        let mut i: usize = 0;
        while i < self.names.len()
            invariant
                i <= self.names.len(),
                out.deep_view() == self.names.deep_view().take(i as int),
            decreases self.names.len() - i,
        {
            let ghost before = out.deep_view();
            out.push(self.names[i].clone());
            assert(out.deep_view() == before.push(self.names@[i as int]@));
            i += 1;
        }
        assert(self.names.deep_view().take(i as int) == self.names.deep_view());
        out
    }
}

} // verus!
